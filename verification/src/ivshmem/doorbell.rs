//! Doorbell values that cross the boundary between a link and its peers.
//!
//! A BAR0 doorbell write is decoded into a [`Doorbell`], routed by the link,
//! and handed to the target peer's sink as a [`DoorbellEvent`].

use crate::ivshmem::profile::PeerId;
use vstd::prelude::*;

verus! {

/// One decoded BAR0 doorbell write.
///
/// Every 32-bit write decodes to a syntactically valid target/vector pair.
/// Whether the target exists in the link profile and whether the vector is
/// supported are checks of the routing.
#[derive(Clone, Copy, Debug, PartialEq, Eq, Structural)]
pub struct Doorbell {
    pub target: PeerId,
    pub vector: u16,
}

impl Doorbell {
    /// Splits `value` into target (upper 16 bits) and vector (lower 16 bits).
    pub fn from_write(value: u32) -> (doorbell: Self)
        ensures
            doorbell.target.0 == value / 0x1_0000,
            doorbell.vector == value % 0x1_0000,
    {
        proof {
            assert((value >> 16) as u16 == value / 0x1_0000 && value as u16 == value % 0x1_0000)
                by (bit_vector);
        }
        Doorbell { target: PeerId::new((value >> 16) as u16), vector: value as u16 }
    }

    /// Returns the addressed peer.
    pub fn target(self) -> (target: PeerId)
        ensures
            target == self.target,
    {
        self.target
    }

    /// Returns the addressed vector.
    pub fn vector(self) -> (vector: u16)
        ensures
            vector == self.vector,
    {
        self.vector
    }
}

/// One routed doorbell, handed to the target peer's sink.
///
/// The source identity comes from the writing endpoint's attachment, never
/// from the written value, so a guest cannot forge the sender.
#[derive(Clone, Copy, Debug, PartialEq, Eq, Structural)]
pub struct DoorbellEvent {
    pub source: PeerId,
    pub target: PeerId,
    pub vector: u16,
}

impl DoorbellEvent {
    /// Assembles the event that the link delivers to the doorbell's target.
    pub fn new(source: PeerId, doorbell: Doorbell) -> (event: Self)
        ensures
            event == (DoorbellEvent { source, target: doorbell.target, vector: doorbell.vector }),
    {
        DoorbellEvent { source, target: doorbell.target(), vector: doorbell.vector() }
    }

    /// Returns the sending peer.
    pub fn source(self) -> (source: PeerId)
        ensures
            source == self.source,
    {
        self.source
    }

    /// Returns the receiving peer.
    pub fn target(self) -> (target: PeerId)
        ensures
            target == self.target,
    {
        self.target
    }

    /// Returns the addressed vector.
    pub fn vector(self) -> (vector: u16)
        ensures
            vector == self.vector,
    {
        self.vector
    }
}

/// The target and the vector determine the written dword, and every pair is
/// written by some dword.
pub proof fn law_doorbell_writes_identify_target_and_vector(value: u32, doorbell: Doorbell)
    ensures
        doorbell.target.0 == value / 0x1_0000 && doorbell.vector == value % 0x1_0000 <==> value
            == doorbell.target.0 * 0x1_0000 + doorbell.vector,
{
}

} // verus!
