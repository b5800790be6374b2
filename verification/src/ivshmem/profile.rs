//! Identities and layout parameters of ivshmem links and their peers.

use crate::device::PAGE_SIZE;
use crate::ivshmem::error::{IvshmemError, IvshmemErrorView};
use crate::text;
use vstd::prelude::*;
use vstd::string::StringExecFns;

verus! {

/// Shared-memory BAR size of the current device profile.
pub const SHARED_MEMORY_SIZE: u64 = 0x1_0000;

/// Maximum peers of the baseline device profile.
pub const MAX_PEERS: u16 = 2;

/// Upper bound of the peer count of one link.
pub const MAX_PEERS_LIMIT: u16 = 64;

/// Stable identity of one shared-memory link inside the process.
#[derive(Clone, Copy, Debug, PartialEq, Eq, PartialOrd, Ord, Hash, Structural)]
pub struct LinkId(pub u32);

impl LinkId {
    /// Creates a link identity from its raw configuration value.
    pub fn new(value: u32) -> (id: Self)
        ensures
            id == LinkId(value),
    {
        LinkId(value)
    }

    /// Returns the raw configuration value.
    pub fn value(self) -> (value: u32)
        ensures
            value == self.0,
    {
        self.0
    }

    /// Returns the identity as written in diagnostics.
    pub fn to_text(self) -> (text: String)
        ensures
            text@ == text::dec_text(self.0 as nat),
    {
        let mut out = String::new();
        text::push_dec(&mut out, self.0 as u64);
        assert(out@ =~= text::dec_text(self.0 as nat));
        out
    }
}

/// Identity of one peer slot inside a link.
///
/// The range is checked against the link profile when a reservation is
/// created, not by this type.
#[derive(Clone, Copy, Debug, PartialEq, Eq, PartialOrd, Ord, Hash, Structural)]
pub struct PeerId(pub u16);

impl PeerId {
    /// Creates a peer identity from its raw configuration value.
    pub fn new(value: u16) -> (id: Self)
        ensures
            id == PeerId(value),
    {
        PeerId(value)
    }

    /// Returns the raw configuration value.
    pub fn value(self) -> (value: u16)
        ensures
            value == self.0,
    {
        self.0
    }

    /// Returns the identity as written in diagnostics.
    pub fn to_text(self) -> (text: String)
        ensures
            text@ == text::dec_text(self.0 as nat),
    {
        let mut out = String::new();
        text::push_dec(&mut out, self.0 as u64);
        assert(out@ =~= text::dec_text(self.0 as nat));
        out
    }
}

/// Monotonic lifetime counter of one link.
///
/// The value grows every time the link loses its last reservation and
/// attachment. Any reference captured before that is stale.
#[derive(Clone, Copy, Debug, PartialEq, Eq, PartialOrd, Ord, Structural)]
pub struct LinkGeneration(pub u64);

impl LinkGeneration {
    /// Creates the initial generation of a fresh link.
    pub fn initial() -> (generation: Self)
        ensures
            generation == LinkGeneration(0),
    {
        LinkGeneration(0)
    }

    /// Returns the raw generation value.
    pub fn value(self) -> (value: u64)
        ensures
            value == self.0,
    {
        self.0
    }

    /// Returns the next generation.
    pub fn next(self) -> (generation: Self)
        requires
            self.0 < u64::MAX,
        ensures
            generation.0 == self.0 + 1,
    {
        LinkGeneration(self.0 + 1)
    }
}

/// Layout parameters of one link, identical across all its reservations.
#[derive(Clone, Copy, Debug, PartialEq, Eq, Structural)]
pub struct LinkProfile {
    pub max_peers: u16,
    pub common_size: u64,
    pub output_size: u64,
}

/// What is wrong with the parameters of a profile, if anything.
pub open spec fn profile_fault(max_peers: u16, common_size: u64, output_size: u64) -> Option<
    Seq<char>,
> {
    if max_peers == 0 || max_peers > MAX_PEERS_LIMIT {
        Some(
            "max peers "@ + text::dec_text(max_peers as nat) + " must be within 1..="@
                + text::dec_text(MAX_PEERS_LIMIT as nat),
        )
    } else if common_size % PAGE_SIZE != 0 {
        Some(
            "common size "@ + text::hex_text(common_size as nat) + " is not "@ + text::hex_text(
                PAGE_SIZE as nat,
            ) + "-aligned"@,
        )
    } else if output_size == 0 || output_size % PAGE_SIZE != 0 {
        Some(
            "output size "@ + text::hex_text(output_size as nat) + " must be a positive "@
                + text::hex_text(PAGE_SIZE as nat) + " multiple"@,
        )
    } else {
        None
    }
}

impl LinkProfile {
    /// The parameters obey the rules of [`LinkProfile::new`].
    pub open spec fn wf(self) -> bool {
        profile_fault(self.max_peers, self.common_size, self.output_size) is None
    }

    /// The profile as written in diagnostics.
    pub open spec fn text(self) -> Seq<char> {
        "LinkProfile { max_peers: "@ + text::dec_text(self.max_peers as nat) + ", common_size: "@
            + text::dec_text(self.common_size as nat) + ", output_size: "@ + text::dec_text(
            self.output_size as nat,
        ) + " }"@
    }

    /// Returns the double-peer baseline: two peers, no common section, and a
    /// 28 KiB output section per peer.
    pub fn baseline() -> (profile: Self)
        ensures
            profile == (LinkProfile { max_peers: 2, common_size: 0, output_size: 0x7000 }),
            profile.wf(),
    {
        LinkProfile { max_peers: 2, common_size: 0, output_size: 0x7000 }
    }

    /// Creates one validated profile.
    ///
    /// There are between one and [`MAX_PEERS_LIMIT`] peers, the common size is
    /// a multiple of the page size or zero, and the output size is a positive
    /// multiple of it.
    pub fn new(max_peers: u16, common_size: u64, output_size: u64) -> (profile: Result<
        Self,
        IvshmemError,
    >)
        ensures
            match profile {
                Ok(profile) => profile.wf() && profile == (LinkProfile {
                    max_peers,
                    common_size,
                    output_size,
                }),
                Err(error) => profile_fault(max_peers, common_size, output_size) matches Some(
                    detail,
                ) && error@ == (IvshmemErrorView::InvalidProfile { detail }),
            },
    {
        if max_peers == 0 || max_peers > MAX_PEERS_LIMIT {
            let mut detail = text::text_of("max peers ");
            text::push_dec(&mut detail, max_peers as u64);
            detail.append(" must be within 1..=");
            text::push_dec(&mut detail, MAX_PEERS_LIMIT as u64);
            return Err(IvshmemError::InvalidProfile { detail });
        }
        if common_size % PAGE_SIZE != 0 {
            let mut detail = text::text_of("common size ");
            text::push_hex(&mut detail, common_size);
            detail.append(" is not ");
            text::push_hex(&mut detail, PAGE_SIZE);
            detail.append("-aligned");
            return Err(IvshmemError::InvalidProfile { detail });
        }
        if output_size == 0 || output_size % PAGE_SIZE != 0 {
            let mut detail = text::text_of("output size ");
            text::push_hex(&mut detail, output_size);
            detail.append(" must be a positive ");
            text::push_hex(&mut detail, PAGE_SIZE);
            detail.append(" multiple");
            return Err(IvshmemError::InvalidProfile { detail });
        }
        Ok(LinkProfile { max_peers, common_size, output_size })
    }

    /// Returns the configured peer count.
    pub fn max_peers(self) -> (count: u16)
        ensures
            count == self.max_peers,
    {
        self.max_peers
    }

    /// Returns the configured common-section size in bytes.
    pub fn common_size(self) -> (size: u64)
        ensures
            size == self.common_size,
    {
        self.common_size
    }

    /// Returns the configured per-peer output-section size in bytes.
    pub fn output_size(self) -> (size: u64)
        ensures
            size == self.output_size,
    {
        self.output_size
    }

    /// Appends the profile as written in diagnostics.
    pub fn push_text(self, out: &mut String)
        ensures
            final(out)@ == old(out)@ + self.text(),
    {
        out.append("LinkProfile { max_peers: ");
        text::push_dec(out, self.max_peers as u64);
        out.append(", common_size: ");
        text::push_dec(out, self.common_size);
        out.append(", output_size: ");
        text::push_dec(out, self.output_size);
        out.append(" }");
        assert(out@ =~= old(out)@ + self.text());
    }
}

} // verus!
