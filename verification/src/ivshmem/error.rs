//! Typed failures of ivshmem link configuration and BAR semantics.

use crate::text;
use vstd::prelude::*;
use vstd::string::StringExecFns;

verus! {

/// Failures reported while reserving peers or accessing ivshmem BARs.
///
/// Configuration failures happen before any VM runs; guest BAR accesses map
/// onto the device access errors of the calling adapter instead.
#[derive(Debug, PartialEq, Eq)]
pub enum IvshmemError {
    /// The requested peer is outside the current link profile.
    PeerOutOfProfile { peer: u16, max_peers: u16 },
    /// The peer slot is already held by another reservation.
    PeerAlreadyReserved { link: u32, peer: u16 },
    /// The reservation was released earlier; the slot stays blocked until the
    /// whole link is destroyed.
    PeerRetired { link: u32, peer: u16 },
    /// The peer slot is already bound to one runtime endpoint.
    PeerAlreadyAttached { link: u32, peer: u16 },
    /// The peer slot has no active reservation, so it cannot be attached.
    PeerNotReserved { link: u32, peer: u16 },
    /// Shared backing or peer-slot allocation failed.
    AllocationFailed { operation: &'static str },
    /// A BAR0 access is not an aligned 32-bit access inside the register page.
    InvalidRegisterAccess { offset: u64, page_size: u64 },
    /// A BAR2 access uses a width outside the supported set.
    InvalidSharedMemoryWidth { width: usize },
    /// A BAR2 access falls outside the shared region.
    SharedMemoryOutOfRange { offset: u64, width: usize, size: u64 },
    /// An event sink could not record one delivered event.
    EventDeliveryFailed { operation: &'static str, detail: String },
    /// The BAR2 sections are malformed or do not fit.
    InvalidLayout { detail: String },
    /// The parameters of a link profile are malformed.
    InvalidProfile { detail: String },
    /// A reservation names another profile than the link was created with.
    LinkProfileMismatch { link: u32, detail: String },
}

/// The contents of an [`IvshmemError`].
pub enum IvshmemErrorView {
    PeerOutOfProfile { peer: u16, max_peers: u16 },
    PeerAlreadyReserved { link: u32, peer: u16 },
    PeerRetired { link: u32, peer: u16 },
    PeerAlreadyAttached { link: u32, peer: u16 },
    PeerNotReserved { link: u32, peer: u16 },
    AllocationFailed { operation: Seq<char> },
    InvalidRegisterAccess { offset: u64, page_size: u64 },
    InvalidSharedMemoryWidth { width: usize },
    SharedMemoryOutOfRange { offset: u64, width: usize, size: u64 },
    EventDeliveryFailed { operation: Seq<char>, detail: Seq<char> },
    InvalidLayout { detail: Seq<char> },
    InvalidProfile { detail: Seq<char> },
    LinkProfileMismatch { link: u32, detail: Seq<char> },
}

impl View for IvshmemError {
    type V = IvshmemErrorView;

    open spec fn view(&self) -> IvshmemErrorView {
        match *self {
            IvshmemError::PeerOutOfProfile { peer, max_peers } => IvshmemErrorView::PeerOutOfProfile {
                peer,
                max_peers,
            },
            IvshmemError::PeerAlreadyReserved { link, peer } => IvshmemErrorView::PeerAlreadyReserved {
                link,
                peer,
            },
            IvshmemError::PeerRetired { link, peer } => IvshmemErrorView::PeerRetired {
                link,
                peer,
            },
            IvshmemError::PeerAlreadyAttached { link, peer } => IvshmemErrorView::PeerAlreadyAttached {
                link,
                peer,
            },
            IvshmemError::PeerNotReserved { link, peer } => IvshmemErrorView::PeerNotReserved {
                link,
                peer,
            },
            IvshmemError::AllocationFailed { operation } => IvshmemErrorView::AllocationFailed {
                operation: operation@,
            },
            IvshmemError::InvalidRegisterAccess { offset, page_size } => IvshmemErrorView::InvalidRegisterAccess {
                offset,
                page_size,
            },
            IvshmemError::InvalidSharedMemoryWidth { width } => IvshmemErrorView::InvalidSharedMemoryWidth {
                width,
            },
            IvshmemError::SharedMemoryOutOfRange { offset, width, size } => IvshmemErrorView::SharedMemoryOutOfRange {
                offset,
                width,
                size,
            },
            IvshmemError::EventDeliveryFailed { operation, detail } => IvshmemErrorView::EventDeliveryFailed {
                operation: operation@,
                detail: detail@,
            },
            IvshmemError::InvalidLayout { detail } => IvshmemErrorView::InvalidLayout {
                detail: detail@,
            },
            IvshmemError::InvalidProfile { detail } => IvshmemErrorView::InvalidProfile {
                detail: detail@,
            },
            IvshmemError::LinkProfileMismatch { link, detail } => IvshmemErrorView::LinkProfileMismatch {
                link,
                detail: detail@,
            },
        }
    }
}

impl IvshmemErrorView {
    /// The diagnostic text of the failure.
    pub open spec fn message(self) -> Seq<char> {
        match self {
            IvshmemErrorView::PeerOutOfProfile { peer, max_peers } => {
                "ivshmem peer "@ + text::dec_text(peer as nat) + " is outside the current profile of "@ + text::dec_text(max_peers as nat) + " peers"@
            },
            IvshmemErrorView::PeerAlreadyReserved { link, peer } => {
                "ivshmem peer "@ + text::dec_text(peer as nat) + " of link "@ + text::dec_text(link as nat) + " is already reserved"@
            },
            IvshmemErrorView::PeerRetired { link, peer } => {
                "ivshmem peer "@ + text::dec_text(peer as nat) + " of link "@ + text::dec_text(link as nat) + " was released earlier and cannot be reserved again until the whole link is destroyed"@
            },
            IvshmemErrorView::PeerAlreadyAttached { link, peer } => {
                "ivshmem peer "@ + text::dec_text(peer as nat) + " of link "@ + text::dec_text(link as nat) + " is already attached to a runtime endpoint"@
            },
            IvshmemErrorView::PeerNotReserved { link, peer } => {
                "ivshmem peer "@ + text::dec_text(peer as nat) + " of link "@ + text::dec_text(link as nat) + " has no active reservation"@
            },
            IvshmemErrorView::AllocationFailed { operation } => {
                "ivshmem allocation for "@ + operation + " failed"@
            },
            IvshmemErrorView::InvalidRegisterAccess { offset, page_size } => {
                "ivshmem register access at offset "@ + text::hex_text(offset as nat) + " is not an aligned 32-bit offset inside the "@ + text::hex_text(page_size as nat) + "-byte register page"@
            },
            IvshmemErrorView::InvalidSharedMemoryWidth { width } => {
                "ivshmem shared-memory width "@ + text::dec_text(width as nat) + " is not one of 1, 2, 4 or 8 bytes"@
            },
            IvshmemErrorView::SharedMemoryOutOfRange { offset, width, size } => {
                "ivshmem shared-memory access at offset "@ + text::hex_text(offset as nat) + " with "@ + text::dec_text(width as nat) + " bytes exceeds the "@ + text::hex_text(size as nat) + "-byte region"@
            },
            IvshmemErrorView::EventDeliveryFailed { operation, detail } => {
                "ivshmem event delivery failed for "@ + operation + ": "@ + detail
            },
            IvshmemErrorView::InvalidLayout { detail } => {
                "ivshmem BAR2 layout is invalid: "@ + detail
            },
            IvshmemErrorView::InvalidProfile { detail } => {
                "ivshmem link profile is invalid: "@ + detail
            },
            IvshmemErrorView::LinkProfileMismatch { link, detail } => {
                "ivshmem link "@ + text::dec_text(link as nat) + " was created with another profile: "@ + detail
            },
        }
    }
}

impl IvshmemError {
    /// Returns the diagnostic text of the failure.
    pub fn message(&self) -> (message: String)
        ensures
            message@ == self@.message(),
    {
        let mut out = String::new();
        match self {
            IvshmemError::PeerOutOfProfile { peer, max_peers } => {
                out.append("ivshmem peer ");
                text::push_dec(&mut out, *peer as u64);
                out.append(" is outside the current profile of ");
                text::push_dec(&mut out, *max_peers as u64);
                out.append(" peers");
            },
            IvshmemError::PeerAlreadyReserved { link, peer } => {
                out.append("ivshmem peer ");
                text::push_dec(&mut out, *peer as u64);
                out.append(" of link ");
                text::push_dec(&mut out, *link as u64);
                out.append(" is already reserved");
            },
            IvshmemError::PeerRetired { link, peer } => {
                out.append("ivshmem peer ");
                text::push_dec(&mut out, *peer as u64);
                out.append(" of link ");
                text::push_dec(&mut out, *link as u64);
                out.append(" was released earlier and cannot be reserved again until the whole link is destroyed");
            },
            IvshmemError::PeerAlreadyAttached { link, peer } => {
                out.append("ivshmem peer ");
                text::push_dec(&mut out, *peer as u64);
                out.append(" of link ");
                text::push_dec(&mut out, *link as u64);
                out.append(" is already attached to a runtime endpoint");
            },
            IvshmemError::PeerNotReserved { link, peer } => {
                out.append("ivshmem peer ");
                text::push_dec(&mut out, *peer as u64);
                out.append(" of link ");
                text::push_dec(&mut out, *link as u64);
                out.append(" has no active reservation");
            },
            IvshmemError::AllocationFailed { operation } => {
                out.append("ivshmem allocation for ");
                out.append(operation);
                out.append(" failed");
            },
            IvshmemError::InvalidRegisterAccess { offset, page_size } => {
                out.append("ivshmem register access at offset ");
                text::push_hex(&mut out, *offset);
                out.append(" is not an aligned 32-bit offset inside the ");
                text::push_hex(&mut out, *page_size);
                out.append("-byte register page");
            },
            IvshmemError::InvalidSharedMemoryWidth { width } => {
                out.append("ivshmem shared-memory width ");
                text::push_dec(&mut out, *width as u64);
                out.append(" is not one of 1, 2, 4 or 8 bytes");
            },
            IvshmemError::SharedMemoryOutOfRange { offset, width, size } => {
                out.append("ivshmem shared-memory access at offset ");
                text::push_hex(&mut out, *offset);
                out.append(" with ");
                text::push_dec(&mut out, *width as u64);
                out.append(" bytes exceeds the ");
                text::push_hex(&mut out, *size);
                out.append("-byte region");
            },
            IvshmemError::EventDeliveryFailed { operation, detail } => {
                out.append("ivshmem event delivery failed for ");
                out.append(operation);
                out.append(": ");
                out.append(detail.as_str());
            },
            IvshmemError::InvalidLayout { detail } => {
                out.append("ivshmem BAR2 layout is invalid: ");
                out.append(detail.as_str());
            },
            IvshmemError::InvalidProfile { detail } => {
                out.append("ivshmem link profile is invalid: ");
                out.append(detail.as_str());
            },
            IvshmemError::LinkProfileMismatch { link, detail } => {
                out.append("ivshmem link ");
                text::push_dec(&mut out, *link as u64);
                out.append(" was created with another profile: ");
                out.append(detail.as_str());
            },
        }
        assert(out@ =~= self@.message());
        out
    }
}

} // verus!
