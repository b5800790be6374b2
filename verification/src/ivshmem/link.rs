//! Link identity, peer lifecycle, and the process-level registry.
//!
//! The registry is the only cross-VM entry point. A link is created by its first
//! reservation and stays known for the lifetime of the registry; it becomes
//! inactive when its last reservation and attachment are gone. Peer slots never
//! return to vacant inside one lifecycle: a released reservation retires the
//! slot until the link is reactivated, which also gives it a fresh zeroed
//! backing.
//!
//! Event sinks are named by number; whoever delivers an event looks the number
//! up and calls the sink after the link is released.

use crate::ivshmem::backing;
use crate::ivshmem::backing::{BackingAllocation, BackingEffect, EffectView, SharedBarBacking};
use crate::ivshmem::doorbell::{Doorbell, DoorbellEvent};
use crate::ivshmem::error::{IvshmemError, IvshmemErrorView};
use crate::ivshmem::layout;
use crate::ivshmem::layout::IvshmemMemoryLayout;
use crate::ivshmem::profile::{LinkGeneration, LinkId, LinkProfile, PeerId, SHARED_MEMORY_SIZE};
use crate::le;
use crate::text;
use vstd::prelude::*;
use vstd::string::StringExecFns;

verus! {

/// The only doorbell vector supported by the current link profile.
pub const SUPPORTED_DOORBELL_VECTOR: u16 = 0;

/// Interval between repeated doorbell diagnostics: the first ignored write logs
/// immediately and every 1024th repetition of the same reason logs again.
pub const DOORBELL_DIAGNOSTIC_INTERVAL: u32 = 1024;

// ---------------------------------------------------------------------------
// Diagnostics
// ---------------------------------------------------------------------------

/// Per-reason counters for ignored doorbell writes.
///
/// Diagnostics never change guest-visible behaviour; the counters only drive
/// the rate-limited logging decision.
#[derive(Clone, Copy, Debug, PartialEq, Eq, Structural)]
pub struct IgnoredDoorbellCounters {
    pub unsupported_vector: u32,
    pub out_of_profile: u32,
    pub not_attached: u32,
    pub delivery_failed: u32,
}

/// The counter after one more occurrence.
pub open spec fn counted(counter: u32) -> u32 {
    if counter == u32::MAX {
        0
    } else {
        (counter + 1) as u32
    }
}

/// The occurrence with this number is logged.
pub open spec fn logs(occurrence: u32) -> bool {
    occurrence == 1 || occurrence % DOORBELL_DIAGNOSTIC_INTERVAL == 0
}

impl IgnoredDoorbellCounters {
    /// Creates counters at zero.
    pub fn new() -> (counters: Self)
        ensures
            counters == (IgnoredDoorbellCounters {
                unsupported_vector: 0,
                out_of_profile: 0,
                not_attached: 0,
                delivery_failed: 0,
            }),
    {
        IgnoredDoorbellCounters {
            unsupported_vector: 0,
            out_of_profile: 0,
            not_attached: 0,
            delivery_failed: 0,
        }
    }

    /// Increments `counter` and returns whether this occurrence should log.
    pub fn should_log(counter: &mut u32) -> (log: bool)
        ensures
            *final(counter) == counted(*old(counter)),
            log == logs(counted(*old(counter))),
    {
        *counter = counter.wrapping_add(1);
        *counter == 1 || *counter % DOORBELL_DIAGNOSTIC_INTERVAL == 0
    }
}

// ---------------------------------------------------------------------------
// Peer slots
// ---------------------------------------------------------------------------

/// Lifecycle state of one peer slot.
#[derive(Clone, Copy, Debug, PartialEq, Eq, Structural)]
pub enum PeerSlot {
    /// Never reserved by any configuration.
    Vacant,
    /// Held by one configuration identity; no runtime attached yet.
    Reserved,
    /// Bound to one runtime endpoint build.
    Attached { generation: u64 },
    /// The reservation was released; the slot blocks until the lifecycle ends.
    Retired,
}

/// Peer-slot table of one lifecycle.
#[derive(Debug)]
pub struct LinkPeers {
    pub next_attachment_generation: u64,
    pub slots: Vec<PeerSlot>,
    /// Live attachment count; a link with attachments never goes inactive.
    pub attached: usize,
    /// Event sink of each slot, if one is registered.
    pub sinks: Vec<Option<usize>>,
}

/// The contents of a [`LinkPeers`].
pub struct PeersView {
    pub next_attachment_generation: u64,
    pub slots: Seq<PeerSlot>,
    pub attached: int,
    pub sinks: Seq<Option<usize>>,
}

impl View for LinkPeers {
    type V = PeersView;

    open spec fn view(&self) -> PeersView {
        PeersView {
            next_attachment_generation: self.next_attachment_generation,
            slots: self.slots@,
            attached: self.attached as int,
            sinks: self.sinks@,
        }
    }
}

/// A slot that an endpoint is or may still be attached to without a
/// reservation it could be attached through again.
pub open spec fn held(slot: PeerSlot) -> bool {
    slot is Attached || slot is Retired
}

/// The number of held slots.
pub open spec fn held_count(slots: Seq<PeerSlot>) -> int
    decreases slots.len(),
{
    if slots.len() == 0 {
        0
    } else {
        held_count(slots.drop_last()) + if held(slots.last()) {
            1int
        } else {
            0
        }
    }
}

/// A slot that keeps no lifecycle alive by itself.
pub open spec fn idle(slot: PeerSlot) -> bool {
    slot is Vacant || slot is Retired
}

impl PeersView {
    /// Every slot has its sink entry, and there are no more attachments than
    /// slots that could have one.
    pub open spec fn wf(self, max_peers: u16) -> bool {
        &&& self.slots.len() == max_peers
        &&& self.sinks.len() == max_peers
        &&& 0 <= self.attached <= held_count(self.slots)
    }

    /// The table of a fresh lifecycle.
    pub open spec fn vacant(max_peers: u16) -> PeersView {
        PeersView {
            next_attachment_generation: 0,
            slots: Seq::new(max_peers as nat, |i: int| PeerSlot::Vacant),
            attached: 0,
            sinks: Seq::new(max_peers as nat, |i: int| None),
        }
    }

    /// The generation that the next attachment gets.
    pub open spec fn next_generation(self) -> u64 {
        if self.next_attachment_generation == u64::MAX {
            0
        } else {
            (self.next_attachment_generation + 1) as u64
        }
    }

    /// The table after slot `peer` is reserved.
    pub open spec fn reserved(self, peer: int) -> PeersView {
        PeersView { slots: self.slots.update(peer, PeerSlot::Reserved), ..self }
    }

    /// The table after an endpoint attached to slot `peer`; a sink of an
    /// earlier attachment is gone.
    pub open spec fn attached_to(self, peer: int) -> PeersView {
        let generation = self.next_generation();
        PeersView {
            next_attachment_generation: generation,
            slots: self.slots.update(peer, PeerSlot::Attached { generation }),
            attached: self.attached + 1,
            sinks: self.sinks.update(peer, None),
        }
    }

    /// Slot `peer` is attached with exactly this generation.
    pub open spec fn current(self, peer: int, generation: u64) -> bool {
        0 <= peer < self.slots.len() && self.slots[peer] == (PeerSlot::Attached { generation })
    }

    /// The table after the attachment of this generation left slot `peer`. A
    /// stale attachment leaves the slot alone.
    pub open spec fn detached(self, peer: int, generation: u64) -> PeersView {
        let left = PeersView {
            attached: if self.attached > 0 {
                self.attached - 1
            } else {
                0
            },
            ..self
        };
        if self.current(peer, generation) {
            PeersView {
                slots: left.slots.update(peer, PeerSlot::Reserved),
                sinks: left.sinks.update(peer, None),
                ..left
            }
        } else {
            left
        }
    }

    /// The table after the reservation of slot `peer` was released.
    pub open spec fn released(self, peer: int) -> PeersView {
        if 0 <= peer < self.slots.len() {
            PeersView { slots: self.slots.update(peer, PeerSlot::Retired), ..self }
        } else {
            self
        }
    }

    /// Nothing keeps the lifecycle alive.
    pub open spec fn ended(self) -> bool {
        self.attached == 0 && forall|i: int|
            0 <= i < self.slots.len() ==> idle(#[trigger] self.slots[i])
    }
}

/// Changing one slot changes the count by that slot.
proof fn lemma_held_count_update(slots: Seq<PeerSlot>, i: int, slot: PeerSlot)
    requires
        0 <= i < slots.len(),
    ensures
        held_count(slots.update(i, slot)) == held_count(slots) - (if held(slots[i]) {
            1int
        } else {
            0
        }) + (if held(slot) {
            1int
        } else {
            0
        }),
    decreases slots.len(),
{
    let after = slots.update(i, slot);
    if i == slots.len() - 1 {
        assert(after.drop_last() =~= slots.drop_last());
    } else {
        assert(after.drop_last() =~= slots.drop_last().update(i, slot));
        lemma_held_count_update(slots.drop_last(), i, slot);
    }
}

/// The count is never negative nor above the number of slots.
proof fn lemma_held_count_bounds(slots: Seq<PeerSlot>)
    ensures
        0 <= held_count(slots) <= slots.len(),
    decreases slots.len(),
{
    if slots.len() > 0 {
        lemma_held_count_bounds(slots.drop_last());
    }
}

impl LinkPeers {
    /// Creates the table of a fresh lifecycle.
    pub fn vacant(max_peers: u16) -> (peers: Self)
        ensures
            peers@ == PeersView::vacant(max_peers),
            peers@.wf(max_peers),
    {
        let slots: Vec<PeerSlot> = vec![PeerSlot::Vacant; max_peers as usize];
        let sinks: Vec<Option<usize>> = vec![None; max_peers as usize];
        let peers = LinkPeers { next_attachment_generation: 0, slots, attached: 0, sinks };
        assert(peers@.slots =~= PeersView::vacant(max_peers).slots);
        assert(peers@.sinks =~= PeersView::vacant(max_peers).sinks);
        proof {
            lemma_held_count_bounds(peers@.slots);
        }
        peers
    }

    /// Tells whether nothing keeps the lifecycle alive.
    fn lifecycle_ended(&self) -> (ended: bool)
        ensures
            ended == self@.ended(),
    {
        if self.attached != 0 {
            return false;
        }
        let mut index: usize = 0;
        while index < self.slots.len()
            invariant
                index <= self.slots.len(),
                forall|i: int| 0 <= i < index ==> idle(#[trigger] self@.slots[i]),
            decreases self.slots.len() - index,
        {
            match self.slots[index] {
                PeerSlot::Vacant | PeerSlot::Retired => {},
                PeerSlot::Reserved | PeerSlot::Attached { .. } => {
                    assert(!idle(self@.slots[index as int]));
                    return false;
                },
            }
            index = index + 1;
        }
        true
    }
}

// ---------------------------------------------------------------------------
// Links
// ---------------------------------------------------------------------------

/// Shared state of one ivshmem link: profile, backing, and peer slots.
#[derive(Debug)]
pub struct IvshmemLink {
    pub id: LinkId,
    pub profile: LinkProfile,
    pub layout: IvshmemMemoryLayout,
    pub generation: LinkGeneration,
    /// There is a reservation or an attachment.
    pub active: bool,
    /// Peer table of the current lifecycle; without meaning while inactive.
    pub peers: LinkPeers,
    /// Backing of the current lifecycle; parked zeroed while inactive.
    pub backing: SharedBarBacking,
    pub ignored_doorbell: IgnoredDoorbellCounters,
}

/// The contents of an [`IvshmemLink`].
pub struct LinkView {
    pub id: LinkId,
    pub profile: LinkProfile,
    pub generation: LinkGeneration,
    pub peers: Option<PeersView>,
    pub allocation: BackingAllocation,
    pub bytes: Seq<u8>,
    /// What is still to happen to host memory.
    pub effects: Seq<EffectView>,
    pub ignored_doorbell: IgnoredDoorbellCounters,
}

impl View for IvshmemLink {
    type V = LinkView;

    open spec fn view(&self) -> LinkView {
        LinkView {
            id: self.id,
            profile: self.profile,
            generation: self.generation,
            peers: if self.active {
                Some(self.peers@)
            } else {
                None
            },
            allocation: self.backing.allocation,
            bytes: self.backing.bytes@,
            effects: self.backing.effects(),
            ignored_doorbell: self.ignored_doorbell,
        }
    }
}

/// What becomes of one doorbell write.
#[derive(Clone, Copy, Debug, PartialEq, Eq, Structural)]
pub enum DoorbellRoute {
    /// Ignored: the link is inactive.
    Inactive,
    /// Ignored: the vector is not supported.
    UnsupportedVector { log: bool },
    /// Ignored: the target is outside the profile.
    OutOfProfile { log: bool },
    /// Ignored: no endpoint is attached to the target.
    NotAttached { log: bool },
    /// Ignored: the target's endpoint registered no sink yet.
    NoSink,
    /// The event goes to this sink.
    Deliver { sink: usize, event: DoorbellEvent },
}

impl LinkView {
    /// The peer table fits the profile, and the backing fills the BAR.
    pub open spec fn wf(self) -> bool {
        &&& self.profile.wf()
        &&& self.peers matches Some(peers) ==> peers.wf(self.profile.max_peers)
        &&& self.bytes.len() == SHARED_MEMORY_SIZE
    }

    /// A new link with a fresh lifecycle.
    pub open spec fn fresh(id: LinkId, profile: LinkProfile, allocation: BackingAllocation) -> Self {
        LinkView {
            id,
            profile,
            generation: LinkGeneration(0),
            peers: Some(PeersView::vacant(profile.max_peers)),
            allocation,
            bytes: backing::zeroed(SHARED_MEMORY_SIZE as int),
            effects: seq![EffectView::Zero { allocation, size: SHARED_MEMORY_SIZE }],
            ignored_doorbell: IgnoredDoorbellCounters {
                unsupported_vector: 0,
                out_of_profile: 0,
                not_attached: 0,
                delivery_failed: 0,
            },
        }
    }

    /// The link with an active lifecycle: an inactive one gets a vacant table
    /// and a zeroed backing, and the parked memory goes back to its allocator.
    pub open spec fn activated(self, allocation: BackingAllocation) -> Self {
        if self.peers is Some {
            self
        } else {
            LinkView {
                peers: Some(PeersView::vacant(self.profile.max_peers)),
                allocation,
                bytes: backing::zeroed(SHARED_MEMORY_SIZE as int),
                effects: self.effects.push(
                    EffectView::Zero { allocation, size: SHARED_MEMORY_SIZE },
                ).push(EffectView::Release { allocation: self.allocation }),
                ..self
            }
        }
    }

    /// The link after its peer table became `peers`: a lifecycle that nothing
    /// keeps alive ends, which zeroes the backing and advances the generation.
    pub open spec fn settled(self, peers: PeersView) -> Self {
        if peers.ended() {
            LinkView {
                peers: None,
                generation: LinkGeneration((self.generation.0 + 1) as u64),
                bytes: backing::zeroed(SHARED_MEMORY_SIZE as int),
                effects: self.effects.push(
                    EffectView::Zero { allocation: self.allocation, size: SHARED_MEMORY_SIZE },
                ),
                ..self
            }
        } else {
            LinkView { peers: Some(peers), ..self }
        }
    }

    /// Why a peer cannot be reserved, if it cannot.
    pub open spec fn reserve_fault(self, peer: PeerId) -> Option<IvshmemErrorView> {
        match self.peers {
            None => Some(IvshmemErrorView::PeerNotReserved { link: self.id.0, peer: peer.0 }),
            Some(peers) => if peer.0 >= peers.slots.len() {
                Some(
                    IvshmemErrorView::PeerOutOfProfile {
                        peer: peer.0,
                        max_peers: self.profile.max_peers,
                    },
                )
            } else {
                match peers.slots[peer.0 as int] {
                    PeerSlot::Vacant => None,
                    PeerSlot::Reserved => Some(
                        IvshmemErrorView::PeerAlreadyReserved { link: self.id.0, peer: peer.0 },
                    ),
                    PeerSlot::Attached { .. } => Some(
                        IvshmemErrorView::PeerAlreadyReserved { link: self.id.0, peer: peer.0 },
                    ),
                    PeerSlot::Retired => Some(
                        IvshmemErrorView::PeerRetired { link: self.id.0, peer: peer.0 },
                    ),
                }
            },
        }
    }

    /// Why no endpoint can attach to a peer, if none can.
    pub open spec fn attach_fault(self, peer: PeerId) -> Option<IvshmemErrorView> {
        let missing = IvshmemErrorView::PeerNotReserved { link: self.id.0, peer: peer.0 };
        match self.peers {
            None => Some(missing),
            Some(peers) => if peer.0 >= peers.slots.len() {
                Some(missing)
            } else {
                match peers.slots[peer.0 as int] {
                    PeerSlot::Vacant => Some(missing),
                    PeerSlot::Reserved => None,
                    PeerSlot::Attached { .. } => Some(
                        IvshmemErrorView::PeerAlreadyAttached { link: self.id.0, peer: peer.0 },
                    ),
                    PeerSlot::Retired => Some(
                        IvshmemErrorView::PeerRetired { link: self.id.0, peer: peer.0 },
                    ),
                }
            },
        }
    }

    /// Why the state of a peer cannot be published, if it cannot.
    pub open spec fn publish_fault(self, peer: PeerId) -> Option<IvshmemErrorView> {
        if peer.0 >= self.profile.max_peers {
            Some(
                IvshmemErrorView::PeerOutOfProfile {
                    peer: peer.0,
                    max_peers: self.profile.max_peers,
                },
            )
        } else if self.peers is None {
            Some(IvshmemErrorView::PeerNotReserved { link: self.id.0, peer: 0 })
        } else {
            None
        }
    }

    /// The link after the state of a peer was published.
    pub open spec fn published(self, peer: PeerId, value: u32) -> Self {
        self.stored((4 * peer.0) as u64, 4, value as nat)
    }

    /// The link after the low `width` bytes of a value were stored.
    pub open spec fn stored(self, offset: u64, width: nat, value: nat) -> Self {
        LinkView {
            bytes: le::replaced_bytes(self.bytes, offset as int, width as int, value),
            effects: self.effects.push(
                EffectView::Store {
                    allocation: self.allocation,
                    offset,
                    bytes: le::le_bytes(value, width),
                },
            ),
            ..self
        }
    }

    /// Where a doorbell goes.
    pub open spec fn route(self, source: PeerId, doorbell: Doorbell) -> DoorbellRoute {
        let target = doorbell.target.0 as int;
        match self.peers {
            None => DoorbellRoute::Inactive,
            Some(peers) => if doorbell.vector != SUPPORTED_DOORBELL_VECTOR {
                DoorbellRoute::UnsupportedVector {
                    log: logs(counted(self.ignored_doorbell.unsupported_vector)),
                }
            } else if target >= self.profile.max_peers {
                DoorbellRoute::OutOfProfile {
                    log: logs(counted(self.ignored_doorbell.out_of_profile)),
                }
            } else if !(peers.slots[target] is Attached) {
                DoorbellRoute::NotAttached {
                    log: logs(counted(self.ignored_doorbell.not_attached)),
                }
            } else {
                match peers.sinks[target] {
                    None => DoorbellRoute::NoSink,
                    Some(sink) => DoorbellRoute::Deliver {
                        sink,
                        event: DoorbellEvent {
                            source,
                            target: doorbell.target,
                            vector: doorbell.vector,
                        },
                    },
                }
            },
        }
    }

    /// The link after a doorbell took this route.
    pub open spec fn routed(self, route: DoorbellRoute) -> Self {
        let ignored = self.ignored_doorbell;
        LinkView {
            ignored_doorbell: match route {
                DoorbellRoute::UnsupportedVector { .. } => IgnoredDoorbellCounters {
                    unsupported_vector: counted(ignored.unsupported_vector),
                    ..ignored
                },
                DoorbellRoute::OutOfProfile { .. } => IgnoredDoorbellCounters {
                    out_of_profile: counted(ignored.out_of_profile),
                    ..ignored
                },
                DoorbellRoute::NotAttached { .. } => IgnoredDoorbellCounters {
                    not_attached: counted(ignored.not_attached),
                    ..ignored
                },
                _ => ignored,
            },
            ..self
        }
    }
}

/// Why a new link cannot be created, if it cannot.
pub open spec fn create_fault(
    profile: LinkProfile,
    allocation: Result<BackingAllocation, IvshmemError>,
) -> Option<IvshmemErrorView> {
    match allocation {
        Err(error) => Some(error@),
        Ok(_) => match layout::layout_fault(SHARED_MEMORY_SIZE, profile) {
            Some(detail) => Some(IvshmemErrorView::InvalidLayout { detail }),
            None => None,
        },
    }
}

impl IvshmemLink {
    /// The contents are sound, and the layout divides the BAR by the profile.
    pub open spec fn wf(self) -> bool {
        &&& self@.wf()
        &&& self.layout.wf()
        &&& self.layout.bar2_size == SHARED_MEMORY_SIZE
        &&& self.layout.divides(self.profile)
    }

    /// Creates an active link without reservations.
    ///
    /// `allocation` is the allocator's answer to a request for the backing.
    pub fn new(
        id: LinkId,
        profile: LinkProfile,
        allocation: Result<BackingAllocation, IvshmemError>,
    ) -> (link: Result<Self, IvshmemError>)
        requires
            profile.wf(),
        ensures
            match link {
                Ok(link) => {
                    &&& create_fault(profile, allocation) is None
                    &&& link.wf()
                    &&& link@ == LinkView::fresh(id, profile, allocation->Ok_0)
                },
                Err(error) => create_fault(profile, allocation) == Some(error@),
            },
    {
        let backing = match SharedBarBacking::try_new(SHARED_MEMORY_SIZE, allocation) {
            Ok(backing) => backing,
            Err(error) => {
                return Err(error);
            },
        };
        let layout = match IvshmemMemoryLayout::derive(SHARED_MEMORY_SIZE, profile) {
            Ok(layout) => layout,
            Err(error) => {
                return Err(error);
            },
        };
        Ok(
            IvshmemLink {
                id,
                profile,
                layout,
                generation: LinkGeneration::initial(),
                active: true,
                peers: LinkPeers::vacant(profile.max_peers()),
                backing,
                ignored_doorbell: IgnoredDoorbellCounters::new(),
            },
        )
    }

    /// Returns the link identity.
    pub fn id(&self) -> (id: LinkId)
        ensures
            id == self.id,
    {
        self.id
    }

    /// Returns the peer count of the frozen link profile.
    pub fn max_peers(&self) -> (count: u16)
        ensures
            count == self.profile.max_peers,
    {
        self.profile.max_peers()
    }

    /// Returns the frozen link profile.
    pub fn profile(&self) -> (profile: LinkProfile)
        ensures
            profile == self.profile,
    {
        self.profile
    }

    /// Returns the generation of the current lifecycle, or of the next one
    /// while the link is inactive.
    pub fn generation(&self) -> (generation: LinkGeneration)
        ensures
            generation == self@.generation,
    {
        self.generation
    }

    /// Returns the shared BAR2 backing of the active lifecycle.
    pub fn backing(&self) -> (backing: Result<&SharedBarBacking, IvshmemError>)
        ensures
            match backing {
                Ok(backing) => self@.peers is Some && *backing == self.backing,
                Err(error) => self@.peers is None && error@ == (IvshmemErrorView::PeerNotReserved {
                    link: self.id.0,
                    peer: 0,
                }),
            },
    {
        if self.active {
            Ok(&self.backing)
        } else {
            Err(IvshmemError::PeerNotReserved { link: self.id.value(), peer: 0 })
        }
    }

    /// Returns the BAR2 size of the link profile.
    pub fn bar2_size(&self) -> (size: u64)
        ensures
            size == SHARED_MEMORY_SIZE,
    {
        SHARED_MEMORY_SIZE
    }

    /// Returns the frozen BAR2 layout of this link.
    pub fn layout(&self) -> (layout: &IvshmemMemoryLayout)
        ensures
            *layout == self.layout,
    {
        &self.layout
    }

    /// Writes guest data into the shared region on behalf of an endpoint.
    pub fn write_backing(&mut self, offset: u64, width: usize, value: u64) -> (result: Result<
        (),
        IvshmemError,
    >)
        requires
            old(self).wf(),
        ensures
            final(self).wf(),
            match result {
                Ok(()) => {
                    &&& old(self)@.peers is Some
                    &&& backing::access_fault(offset, width, SHARED_MEMORY_SIZE as int) is None
                    &&& final(self)@ == old(self)@.stored(offset, width as nat, value as nat)
                },
                Err(error) => {
                    &&& final(self)@ == old(self)@
                    &&& if old(self)@.peers is None {
                        error@ == (IvshmemErrorView::PeerNotReserved {
                            link: old(self)@.id.0,
                            peer: 0,
                        })
                    } else {
                        backing::access_fault(offset, width, SHARED_MEMORY_SIZE as int) == Some(
                            error@,
                        )
                    }
                },
            },
    {
        if !self.active {
            return Err(IvshmemError::PeerNotReserved { link: self.id.value(), peer: 0 });
        }
        self.backing.write(offset, width, value)
    }

    /// Takes in what the shared memory holds from `offset` on, as guests may
    /// have stored it directly.
    pub fn observe(&mut self, offset: u64, bytes: &Vec<u8>) -> (result: Result<(), IvshmemError>)
        requires
            old(self).wf(),
        ensures
            final(self).wf(),
            match result {
                Ok(()) => {
                    &&& backing::range_fault(offset, bytes.len(), SHARED_MEMORY_SIZE as int) is None
                    &&& final(self)@ == (LinkView {
                        bytes: backing::overwritten(old(self)@.bytes, offset as int, bytes@),
                        ..old(self)@
                    })
                },
                Err(error) => backing::range_fault(offset, bytes.len(), SHARED_MEMORY_SIZE as int)
                    == Some(error@) && final(self)@ == old(self)@,
            },
    {
        self.backing.observe(offset, bytes)
    }

    /// Takes what is still to happen to host memory; whoever takes the effects
    /// performs them in their order.
    pub fn take_effects(&mut self) -> (effects: Vec<BackingEffect>)
        requires
            old(self).wf(),
        ensures
            final(self).wf(),
            backing::effect_views(effects@) == old(self)@.effects,
            final(self)@ == (LinkView { effects: Seq::empty(), ..old(self)@ }),
    {
        self.backing.take_effects()
    }

    /// Publishes the peer's BAR0 State value into its state-table entry.
    pub fn publish_state(&mut self, peer: PeerId, value: u32) -> (result: Result<(), IvshmemError>)
        requires
            old(self).wf(),
        ensures
            final(self).wf(),
            match result {
                Ok(()) => old(self)@.publish_fault(peer) is None && final(self)@ == old(
                    self,
                )@.published(peer, value),
                Err(error) => old(self)@.publish_fault(peer) == Some(error@) && final(self)@ == old(
                    self,
                )@,
            },
    {
        let offset: u64 = match self.layout.state_entry_offset(peer, self.profile.max_peers()) {
            Ok(offset) => offset,
            Err(error) => {
                return Err(error);
            },
        };
        if !self.active {
            return Err(IvshmemError::PeerNotReserved { link: self.id.value(), peer: 0 });
        }
        let entry = le::dword_bytes(value);
        let ghost before = self.backing.bytes@;
        match self.backing.write_bytes(offset, &entry) {
            Ok(()) => {
                assert(self.backing.bytes@ =~= le::replaced_bytes(
                    before,
                    4 * peer.0,
                    4,
                    value as nat,
                ));
                Ok(())
            },
            Err(error) => Err(error),
        }
    }

    /// Clears the peer's state-table entry; called from endpoint reset.
    pub fn clear_state(&mut self, peer: PeerId) -> (result: Result<(), IvshmemError>)
        requires
            old(self).wf(),
        ensures
            final(self).wf(),
            match result {
                Ok(()) => old(self)@.publish_fault(peer) is None && final(self)@ == old(
                    self,
                )@.published(peer, 0),
                Err(error) => old(self)@.publish_fault(peer) == Some(error@) && final(self)@ == old(
                    self,
                )@,
            },
    {
        self.publish_state(peer, 0)
    }

    /// Routes one doorbell from the writing endpoint to the target peer.
    ///
    /// Out-of-profile targets, inactive targets, and unsupported vectors are
    /// no-ops with rate-limited diagnostics; a guest doorbell never becomes a
    /// device access error.
    pub fn deliver_doorbell(&mut self, source: PeerId, doorbell: Doorbell) -> (route: DoorbellRoute)
        requires
            old(self).wf(),
        ensures
            final(self).wf(),
            route == old(self)@.route(source, doorbell),
            final(self)@ == old(self)@.routed(route),
    {
        let target = doorbell.target();
        if !self.active {
            return DoorbellRoute::Inactive;
        }
        if doorbell.vector() != SUPPORTED_DOORBELL_VECTOR {
            let log = IgnoredDoorbellCounters::should_log(
                &mut self.ignored_doorbell.unsupported_vector,
            );
            return DoorbellRoute::UnsupportedVector { log };
        }
        if target.value() >= self.max_peers() {
            let log = IgnoredDoorbellCounters::should_log(&mut self.ignored_doorbell.out_of_profile);
            return DoorbellRoute::OutOfProfile { log };
        }
        let index: usize = target.value() as usize;
        match self.peers.slots[index] {
            PeerSlot::Attached { .. } => match self.peers.sinks[index] {
                Some(sink) => DoorbellRoute::Deliver {
                    sink,
                    event: DoorbellEvent::new(source, doorbell),
                },
                None => DoorbellRoute::NoSink,
            },
            PeerSlot::Vacant | PeerSlot::Reserved | PeerSlot::Retired => {
                let log = IgnoredDoorbellCounters::should_log(
                    &mut self.ignored_doorbell.not_attached,
                );
                DoorbellRoute::NotAttached { log }
            },
        }
    }

    /// Counts a sink's failure to record an event and returns whether to log
    /// it. The write is ignored and no state is rolled back.
    pub fn delivery_failed(&mut self) -> (log: bool)
        requires
            old(self).wf(),
        ensures
            final(self).wf(),
            log == logs(counted(old(self)@.ignored_doorbell.delivery_failed)),
            final(self)@ == (LinkView {
                ignored_doorbell: IgnoredDoorbellCounters {
                    delivery_failed: counted(old(self)@.ignored_doorbell.delivery_failed),
                    ..old(self)@.ignored_doorbell
                },
                ..old(self)@
            }),
    {
        IgnoredDoorbellCounters::should_log(&mut self.ignored_doorbell.delivery_failed)
    }

    /// Reactivates an inactive link with a fresh zeroed backing and a vacant
    /// peer table. The generation stays at its advanced value, so that nothing
    /// left from the previous lifecycle is valid.
    ///
    /// `allocation` is the allocator's answer; an active link does not look at
    /// it.
    pub fn ensure_active(&mut self, allocation: Result<BackingAllocation, IvshmemError>) -> (result:
        Result<(), IvshmemError>)
        requires
            old(self).wf(),
        ensures
            final(self).wf(),
            match result {
                Ok(()) => (old(self)@.peers is Some || allocation is Ok) && final(self)@ == old(
                    self,
                )@.activated(allocation->Ok_0),
                Err(error) => {
                    &&& old(self)@.peers is None
                    &&& allocation == Err::<BackingAllocation, _>(error)
                    &&& final(self)@ == old(self)@
                },
            },
    {
        if self.active {
            return Ok(());
        }
        let backing = match SharedBarBacking::try_new(SHARED_MEMORY_SIZE, allocation) {
            Ok(backing) => backing,
            Err(error) => {
                return Err(error);
            },
        };
        let parked = *self.backing.allocation();
        let mut effects = self.backing.take_effects();
        backing::push_effect(
            &mut effects,
            BackingEffect::Zero { allocation: backing.allocation, size: SHARED_MEMORY_SIZE },
        );
        backing::push_effect(&mut effects, BackingEffect::Release { allocation: parked });
        self.backing = backing;
        self.backing.effects = effects;
        self.peers = LinkPeers::vacant(self.profile.max_peers());
        self.active = true;
        Ok(())
    }

    /// Reserves one vacant slot.
    pub fn reserve_slot(&mut self, peer: PeerId) -> (result: Result<(), IvshmemError>)
        requires
            old(self).wf(),
        ensures
            final(self).wf(),
            match result {
                Ok(()) => old(self)@.reserve_fault(peer) is None && final(self)@ == (LinkView {
                    peers: Some((old(self)@.peers->0).reserved(peer.0 as int)),
                    ..old(self)@
                }),
                Err(error) => old(self)@.reserve_fault(peer) == Some(error@) && final(self)@ == old(
                    self,
                )@,
            },
    {
        if !self.active {
            return Err(
                IvshmemError::PeerNotReserved { link: self.id.value(), peer: peer.value() },
            );
        }
        let index: usize = peer.value() as usize;
        if index >= self.peers.slots.len() {
            return Err(
                IvshmemError::PeerOutOfProfile {
                    peer: peer.value(),
                    max_peers: self.profile.max_peers(),
                },
            );
        }
        match self.peers.slots[index] {
            PeerSlot::Vacant => {
                proof {
                    lemma_held_count_update(
                        self.peers.slots@,
                        index as int,
                        PeerSlot::Reserved,
                    );
                }
                self.peers.slots.set(index, PeerSlot::Reserved);
                Ok(())
            },
            PeerSlot::Reserved | PeerSlot::Attached { .. } => Err(
                IvshmemError::PeerAlreadyReserved { link: self.id.value(), peer: peer.value() },
            ),
            PeerSlot::Retired => Err(
                IvshmemError::PeerRetired { link: self.id.value(), peer: peer.value() },
            ),
        }
    }

    /// Attaches an endpoint to one reserved slot and returns the generation of
    /// the attachment.
    pub fn attach_slot(&mut self, peer: PeerId) -> (generation: Result<u64, IvshmemError>)
        requires
            old(self).wf(),
        ensures
            final(self).wf(),
            match generation {
                Ok(generation) => {
                    let peers = old(self)@.peers->0;
                    &&& old(self)@.attach_fault(peer) is None
                    &&& generation == peers.next_generation()
                    &&& final(self)@ == (LinkView {
                        peers: Some(peers.attached_to(peer.0 as int)),
                        ..old(self)@
                    })
                },
                Err(error) => old(self)@.attach_fault(peer) == Some(error@) && final(self)@ == old(
                    self,
                )@,
            },
    {
        if !self.active {
            return Err(
                IvshmemError::PeerNotReserved { link: self.id.value(), peer: peer.value() },
            );
        }
        let index: usize = peer.value() as usize;
        if index >= self.peers.slots.len() {
            return Err(
                IvshmemError::PeerNotReserved { link: self.id.value(), peer: peer.value() },
            );
        }
        match self.peers.slots[index] {
            PeerSlot::Reserved => {},
            PeerSlot::Attached { .. } => {
                return Err(
                    IvshmemError::PeerAlreadyAttached { link: self.id.value(), peer: peer.value() },
                );
            },
            PeerSlot::Retired => {
                return Err(
                    IvshmemError::PeerRetired { link: self.id.value(), peer: peer.value() },
                );
            },
            PeerSlot::Vacant => {
                return Err(
                    IvshmemError::PeerNotReserved { link: self.id.value(), peer: peer.value() },
                );
            },
        }
        let generation: u64 = self.peers.next_attachment_generation.wrapping_add(1);
        proof {
            lemma_held_count_bounds(self.peers.slots@);
            lemma_held_count_update(
                self.peers.slots@,
                index as int,
                PeerSlot::Attached { generation },
            );
        }
        self.peers.next_attachment_generation = generation;
        self.peers.attached = self.peers.attached + 1;
        self.peers.slots.set(index, PeerSlot::Attached { generation });
        self.peers.sinks.set(index, None);
        Ok(generation)
    }

    /// Ends one attachment.
    ///
    /// Every attach pairs with exactly one detach: the count follows the
    /// attachment, not the slot, since a released reservation retires the slot
    /// before its endpoint detaches.
    pub fn detach_slot(&mut self, peer: PeerId, attachment_generation: u64)
        requires
            old(self).wf(),
            old(self)@.generation.0 < u64::MAX,
        ensures
            final(self).wf(),
            final(self)@ == match old(self)@.peers {
                Some(peers) => old(self)@.settled(
                    peers.detached(peer.0 as int, attachment_generation),
                ),
                None => old(self)@,
            },
    {
        if !self.active {
            return ;
        }
        let ghost peers = self.peers@;
        let index: usize = peer.value() as usize;
        let is_current = if index < self.peers.slots.len() {
            match self.peers.slots[index] {
                PeerSlot::Attached { generation } => generation == attachment_generation,
                PeerSlot::Vacant | PeerSlot::Reserved | PeerSlot::Retired => false,
            }
        } else {
            false
        };
        assert(is_current == peers.current(peer.0 as int, attachment_generation));
        if self.peers.attached > 0 {
            self.peers.attached = self.peers.attached - 1;
        }
        proof {
            lemma_held_count_bounds(peers.slots);
        }
        if is_current {
            proof {
                lemma_held_count_update(peers.slots, index as int, PeerSlot::Reserved);
                lemma_held_count_bounds(peers.slots.update(index as int, PeerSlot::Reserved));
            }
            self.peers.slots.set(index, PeerSlot::Reserved);
            self.peers.sinks.set(index, None);
        }
        self.maybe_deactivate();
    }

    /// Releases one reservation, which retires its slot.
    pub fn release_slot(&mut self, peer: PeerId)
        requires
            old(self).wf(),
            old(self)@.generation.0 < u64::MAX,
        ensures
            final(self).wf(),
            final(self)@ == match old(self)@.peers {
                Some(peers) => old(self)@.settled(peers.released(peer.0 as int)),
                None => old(self)@,
            },
    {
        if !self.active {
            return ;
        }
        let index: usize = peer.value() as usize;
        if index < self.peers.slots.len() {
            proof {
                lemma_held_count_update(self.peers.slots@, index as int, PeerSlot::Retired);
            }
            self.peers.slots.set(index, PeerSlot::Retired);
        }
        self.maybe_deactivate();
    }

    /// Ends the lifecycle when the last reservation and attachment are gone.
    fn maybe_deactivate(&mut self)
        requires
            old(self).wf(),
            old(self).active,
            old(self)@.generation.0 < u64::MAX,
        ensures
            final(self).wf(),
            final(self)@ == old(self)@.settled(old(self).peers@),
    {
        if self.peers.lifecycle_ended() {
            self.backing.zero();
            self.active = false;
            self.generation = self.generation.next();
        }
    }

    /// Registers the event sink of an attached endpoint.
    pub fn set_sink(&mut self, peer: PeerId, attachment_generation: u64, sink: usize) -> (result:
        Result<(), IvshmemError>)
        requires
            old(self).wf(),
        ensures
            final(self).wf(),
            match result {
                Ok(()) => {
                    let peers = old(self)@.peers->0;
                    &&& old(self)@.peers is Some
                    &&& peers.current(peer.0 as int, attachment_generation)
                    &&& final(self)@ == (LinkView {
                        peers: Some(
                            PeersView {
                                sinks: peers.sinks.update(peer.0 as int, Some(sink)),
                                ..peers
                            },
                        ),
                        ..old(self)@
                    })
                },
                Err(error) => {
                    &&& !(old(self)@.peers is Some && (old(self)@.peers->0).current(
                        peer.0 as int,
                        attachment_generation,
                    ))
                    &&& error@ == (IvshmemErrorView::PeerNotReserved {
                        link: old(self)@.id.0,
                        peer: peer.0,
                    })
                    &&& final(self)@ == old(self)@
                },
            },
    {
        let index: usize = peer.value() as usize;
        let is_current = if self.active && index < self.peers.slots.len() {
            match self.peers.slots[index] {
                PeerSlot::Attached { generation } => generation == attachment_generation,
                PeerSlot::Vacant | PeerSlot::Reserved | PeerSlot::Retired => false,
            }
        } else {
            false
        };
        if !is_current {
            return Err(
                IvshmemError::PeerNotReserved { link: self.id.value(), peer: peer.value() },
            );
        }
        self.peers.sinks.set(index, Some(sink));
        Ok(())
    }
}

// ---------------------------------------------------------------------------
// Reservations and attachments
// ---------------------------------------------------------------------------

/// Exclusive configuration identity of one `(link, peer)` pair.
///
/// The endpoint model owns the reservation for the VM lifetime; releasing it
/// retires the peer slot until the lifecycle of the link ends.
#[derive(Debug, PartialEq, Eq, Structural)]
pub struct PeerReservation {
    pub link: LinkId,
    pub peer: PeerId,
}

/// Runtime binding of one endpoint to its reserved peer slot.
#[derive(Debug, PartialEq, Eq, Structural)]
pub struct PeerAttachment {
    pub link: LinkId,
    pub peer: PeerId,
    pub generation: u64,
}

impl PeerReservation {
    /// Returns the link this reservation belongs to.
    pub fn link(&self) -> (link: LinkId)
        ensures
            link == self.link,
    {
        self.link
    }

    /// Returns the reserved peer identity.
    pub fn peer_id(&self) -> (peer: PeerId)
        ensures
            peer == self.peer,
    {
        self.peer
    }

    /// Attaches one runtime endpoint to the reserved peer.
    ///
    /// Attaching stays available after a previous attachment ended; only one
    /// attachment may exist at a time.
    pub fn attach(&self, link: &mut IvshmemLink) -> (attachment: Result<
        PeerAttachment,
        IvshmemError,
    >)
        requires
            old(link).wf(),
            old(link)@.id == self.link,
        ensures
            final(link).wf(),
            match attachment {
                Ok(attachment) => {
                    let peers = old(link)@.peers->0;
                    &&& old(link)@.attach_fault(self.peer) is None
                    &&& attachment == (PeerAttachment {
                        link: self.link,
                        peer: self.peer,
                        generation: peers.next_generation(),
                    })
                    &&& final(link)@ == (LinkView {
                        peers: Some(peers.attached_to(self.peer.0 as int)),
                        ..old(link)@
                    })
                },
                Err(error) => old(link)@.attach_fault(self.peer) == Some(error@) && final(link)@
                    == old(link)@,
            },
    {
        match link.attach_slot(self.peer) {
            Ok(generation) => Ok(
                PeerAttachment { link: self.link, peer: self.peer, generation },
            ),
            Err(error) => Err(error),
        }
    }

    /// Gives the reservation up.
    pub fn release(self, link: &mut IvshmemLink)
        requires
            old(link).wf(),
            old(link)@.id == self.link,
            old(link)@.generation.0 < u64::MAX,
        ensures
            final(link).wf(),
            final(link)@ == match old(link)@.peers {
                Some(peers) => old(link)@.settled(peers.released(self.peer.0 as int)),
                None => old(link)@,
            },
    {
        link.release_slot(self.peer);
    }
}

impl PeerAttachment {
    /// Returns the attached link.
    pub fn link(&self) -> (link: LinkId)
        ensures
            link == self.link,
    {
        self.link
    }

    /// Returns the attached peer identity.
    pub fn peer_id(&self) -> (peer: PeerId)
        ensures
            peer == self.peer,
    {
        self.peer
    }

    /// Registers this peer's event sink on the attached link.
    ///
    /// The sink receives doorbells addressed to this peer. Attaching again
    /// drops the sink, so endpoints must register it on every build. Fails when
    /// this attachment is no longer the current one of its slot.
    pub fn set_event_sink(&self, link: &mut IvshmemLink, sink: usize) -> (result: Result<
        (),
        IvshmemError,
    >)
        requires
            old(link).wf(),
            old(link)@.id == self.link,
        ensures
            final(link).wf(),
            match result {
                Ok(()) => {
                    let peers = old(link)@.peers->0;
                    &&& old(link)@.peers is Some
                    &&& peers.current(self.peer.0 as int, self.generation)
                    &&& final(link)@ == (LinkView {
                        peers: Some(
                            PeersView {
                                sinks: peers.sinks.update(self.peer.0 as int, Some(sink)),
                                ..peers
                            },
                        ),
                        ..old(link)@
                    })
                },
                Err(error) => {
                    &&& !(old(link)@.peers is Some && (old(link)@.peers->0).current(
                        self.peer.0 as int,
                        self.generation,
                    ))
                    &&& error@ == (IvshmemErrorView::PeerNotReserved {
                        link: self.link.0,
                        peer: self.peer.0,
                    })
                    &&& final(link)@ == old(link)@
                },
            },
    {
        link.set_sink(self.peer, self.generation, sink)
    }

    /// Ends the attachment.
    pub fn detach(self, link: &mut IvshmemLink)
        requires
            old(link).wf(),
            old(link)@.id == self.link,
            old(link)@.generation.0 < u64::MAX,
        ensures
            final(link).wf(),
            final(link)@ == match old(link)@.peers {
                Some(peers) => old(link)@.settled(
                    peers.detached(self.peer.0 as int, self.generation),
                ),
                None => old(link)@,
            },
    {
        link.detach_slot(self.peer, self.generation);
    }
}

// ---------------------------------------------------------------------------
// Registry
// ---------------------------------------------------------------------------

/// Process-level owner of every ivshmem link.
///
/// Links stay known for the registry lifetime so that their generations can be
/// compared after every peer left.
#[derive(Debug)]
pub struct IvshmemLinkRegistry {
    pub links: Vec<IvshmemLink>,
    /// What is still to happen to memory that no link took over.
    pub effects: Vec<BackingEffect>,
}

/// What is still to happen when links are given up: their effects and the
/// release of their memory, link by link.
pub open spec fn given_up(links: Seq<LinkView>) -> Seq<EffectView>
    decreases links.len(),
{
    if links.len() == 0 {
        Seq::empty()
    } else {
        given_up(links.drop_last()) + links.last().effects.push(
            EffectView::Release { allocation: links.last().allocation },
        )
    }
}

/// What happens to the memory of a link that cannot be created after all.
pub open spec fn discarded(
    links: Seq<LinkView>,
    id: LinkId,
    profile: LinkProfile,
    allocation: Result<BackingAllocation, IvshmemError>,
) -> Seq<EffectView> {
    if link_index(links, id, 0) is None && allocation is Ok && create_fault(profile, allocation)
        is Some {
        let allocation = allocation->Ok_0;
        seq![
            EffectView::Zero { allocation, size: SHARED_MEMORY_SIZE },
            EffectView::Release { allocation },
        ]
    } else {
        Seq::empty()
    }
}

/// The contents of a list of links.
pub open spec fn link_views(links: Seq<IvshmemLink>) -> Seq<LinkView> {
    Seq::new(links.len(), |i: int| links[i]@)
}

/// The first link from `from` on with the given identity.
pub open spec fn link_index(links: Seq<LinkView>, id: LinkId, from: int) -> Option<int>
    decreases links.len() - from,
{
    if from < 0 || from >= links.len() {
        None
    } else if links[from].id == id {
        Some(from)
    } else {
        link_index(links, id, from + 1)
    }
}

/// A reservation needs host memory: the link is new, or its lifecycle ended.
pub open spec fn backing_needed(links: Seq<LinkView>, id: LinkId, profile: LinkProfile) -> bool {
    match link_index(links, id, 0) {
        Some(i) => links[i].profile == profile && links[i].peers is None,
        None => true,
    }
}

/// The links after one peer slot of link `i` was asked for, and why it was
/// refused, if it was.
pub open spec fn slot_outcome(links: Seq<LinkView>, i: int, peer: PeerId) -> (
    Seq<LinkView>,
    Option<IvshmemErrorView>,
) {
    match links[i].reserve_fault(peer) {
        Some(fault) => (links, Some(fault)),
        None => (
            links.update(
                i,
                LinkView {
                    peers: Some((links[i].peers->0).reserved(peer.0 as int)),
                    ..links[i]
                },
            ),
            None,
        ),
    }
}

/// The links after a reservation was asked for, and why it was refused, if it
/// was.
///
/// The first reservation of a link creates it and fixes its profile; later ones
/// must name the same profile. The allocator's answer counts only where host
/// memory is needed.
pub open spec fn reserve_outcome(
    links: Seq<LinkView>,
    id: LinkId,
    peer: PeerId,
    profile: LinkProfile,
    allocation: Result<BackingAllocation, IvshmemError>,
) -> (Seq<LinkView>, Option<IvshmemErrorView>) {
    match link_index(links, id, 0) {
        Some(i) => if links[i].profile != profile {
            (
                links,
                Some(
                    IvshmemErrorView::LinkProfileMismatch {
                        link: id.0,
                        detail: "existing profile is "@ + links[i].profile.text() + ", requested "@
                            + profile.text(),
                    },
                ),
            )
        } else if links[i].peers is None && allocation is Err {
            (links, Some((allocation->Err_0)@))
        } else {
            slot_outcome(links.update(i, links[i].activated(allocation->Ok_0)), i, peer)
        },
        None => match create_fault(profile, allocation) {
            Some(fault) => (links, Some(fault)),
            None => slot_outcome(
                links.push(LinkView::fresh(id, profile, allocation->Ok_0)),
                links.len() as int,
                peer,
            ),
        },
    }
}

impl IvshmemLinkRegistry {
    /// The links.
    pub open spec fn views(self) -> Seq<LinkView> {
        link_views(self.links@)
    }

    /// What is still to happen to memory that no link took over.
    pub open spec fn effects(self) -> Seq<EffectView> {
        backing::effect_views(self.effects@)
    }

    /// Every link is sound, and no two have the same identity.
    pub open spec fn wf(self) -> bool {
        &&& forall|i: int| 0 <= i < self.links@.len() ==> (#[trigger] self.links@[i]).wf()
        &&& forall|i: int, j: int|
            0 <= i < j < self.links@.len() ==> (#[trigger] self.views()[i]).id != (
            #[trigger] self.views()[j]).id
    }

    /// Creates an empty registry.
    pub fn new() -> (registry: Self)
        ensures
            registry.wf(),
            registry.views() == Seq::<LinkView>::empty(),
            registry.effects() == Seq::<EffectView>::empty(),
    {
        let registry = IvshmemLinkRegistry { links: Vec::new(), effects: Vec::new() };
        assert(registry.views() =~= Seq::<LinkView>::empty());
        assert(registry.effects() =~= Seq::<EffectView>::empty());
        registry
    }

    /// Takes what is still to happen to memory that no link took over; whoever
    /// takes the effects performs them in their order.
    pub fn take_effects(&mut self) -> (effects: Vec<BackingEffect>)
        ensures
            backing::effect_views(effects@) == old(self).effects(),
            final(self).effects() == Seq::<EffectView>::empty(),
            final(self).links == old(self).links,
    {
        backing::drain_effects(&mut self.effects)
    }

    /// Gives all links up; returns what is still to happen to host memory.
    pub fn release(self) -> (effects: Vec<BackingEffect>)
        ensures
            backing::effect_views(effects@) == self.effects() + given_up(self.views()),
    {
        let ghost own = self.effects();
        let ghost all = self.views();
        let mut effects = self.effects;
        let mut links = self.links;
        let ghost mut done: int = 0;
        assert(links@ =~= self.links@.skip(0));
        assert(backing::effect_views(effects@) =~= own + given_up(all.take(0)));
        while links.len() > 0
            invariant
                0 <= done <= all.len(),
                all == link_views(self.links@),
                links@ == self.links@.skip(done),
                backing::effect_views(effects@) == own + given_up(all.take(done)),
            decreases links@.len(),
        {
            let link = links.remove(0);
            assert(link@ == all[done]);
            let ghost before = backing::effect_views(effects@);
            let mut released = link.backing.release();
            let ghost more = backing::effect_views(released@);
            effects.append(&mut released);
            proof {
                assert(backing::effect_views(effects@) =~= before + more);
                assert(all.take(done + 1).drop_last() =~= all.take(done));
                assert(own + given_up(all.take(done + 1)) =~= before + more);
                assert(links@ =~= self.links@.skip(done + 1));
                done = done + 1;
            }
        }
        assert(all.take(done) =~= all);
        effects
    }

    /// Finds a link by identity.
    pub fn index_of(&self, id: LinkId) -> (found: Option<usize>)
        ensures
            match found {
                Some(i) => link_index(self.views(), id, 0) == Some(i as int) && i < self.links@.len()
                    && self.views()[i as int].id == id,
                None => link_index(self.views(), id, 0) is None,
            },
    {
        let mut index: usize = 0;
        while index < self.links.len()
            invariant
                index <= self.links.len(),
                link_index(self.views(), id, 0) == link_index(self.views(), id, index as int),
            decreases self.links.len() - index,
        {
            assert(self.views()[index as int] == self.links@[index as int]@);
            if self.links[index].id() == id {
                return Some(index);
            }
            index = index + 1;
        }
        None
    }

    /// Tells whether a reservation needs host memory for the link's backing.
    pub fn needs_backing(&self, link_id: u32, profile: LinkProfile) -> (needed: bool)
        ensures
            needed == backing_needed(self.views(), LinkId(link_id), profile),
    {
        match self.index_of(LinkId::new(link_id)) {
            Some(index) => {
                assert(self.views()[index as int] == self.links@[index as int]@);
                self.links[index].profile() == profile && !self.links[index].active
            },
            None => true,
        }
    }

    /// Reserves one peer of the named link with the baseline profile, creating
    /// the link on first use.
    pub fn reserve(
        &mut self,
        link_id: u32,
        peer_id: u16,
        allocation: Result<BackingAllocation, IvshmemError>,
    ) -> (reservation: Result<PeerReservation, IvshmemError>)
        requires
            old(self).wf(),
        ensures
            final(self).wf(),
            ({
                let outcome = reserve_outcome(
                    old(self).views(),
                    LinkId(link_id),
                    PeerId(peer_id),
                    (LinkProfile { max_peers: 2, common_size: 0, output_size: 0x7000 }),
                    allocation,
                );
                &&& final(self).effects() == old(self).effects() + discarded(
                    old(self).views(),
                    LinkId(link_id),
                    (LinkProfile { max_peers: 2, common_size: 0, output_size: 0x7000 }),
                    allocation,
                )
                &&& final(self).views() == outcome.0
                &&& match reservation {
                    Ok(reservation) => outcome.1 is None && reservation == (PeerReservation {
                        link: LinkId(link_id),
                        peer: PeerId(peer_id),
                    }),
                    Err(error) => outcome.1 == Some(error@),
                }
            }),
    {
        self.reserve_with_profile(link_id, peer_id, LinkProfile::baseline(), allocation)
    }

    /// Reserves one peer, checking `profile` against the link's profile.
    ///
    /// The first reservation of a link fixes its profile; later reservations
    /// must match exactly. `allocation` is the allocator's answer where
    /// [`needs_backing`](Self::needs_backing) tells that host memory is needed;
    /// elsewhere it does not matter.
    pub fn reserve_with_profile(
        &mut self,
        link_id: u32,
        peer_id: u16,
        profile: LinkProfile,
        allocation: Result<BackingAllocation, IvshmemError>,
    ) -> (reservation: Result<PeerReservation, IvshmemError>)
        requires
            old(self).wf(),
            profile.wf(),
        ensures
            final(self).wf(),
            ({
                let outcome = reserve_outcome(
                    old(self).views(),
                    LinkId(link_id),
                    PeerId(peer_id),
                    profile,
                    allocation,
                );
                &&& final(self).effects() == old(self).effects() + discarded(
                    old(self).views(),
                    LinkId(link_id),
                    profile,
                    allocation,
                )
                &&& final(self).views() == outcome.0
                &&& match reservation {
                    Ok(reservation) => outcome.1 is None && reservation == (PeerReservation {
                        link: LinkId(link_id),
                        peer: PeerId(peer_id),
                    }),
                    Err(error) => outcome.1 == Some(error@),
                }
            }),
    {
        let id = LinkId::new(link_id);
        let peer = PeerId::new(peer_id);
        let ghost before = self.views();
        let fresh: Option<BackingAllocation> = match &allocation {
            Ok(allocation) => Some(*allocation),
            Err(_) => None,
        };
        assert(self.effects() + Seq::<EffectView>::empty() =~= self.effects());
        match self.index_of(id) {
            Some(index) => {
                assert(before[index as int] == self.links@[index as int]@);
                assert(self.links@[index as int].wf());
                if self.links[index].profile() != profile {
                    let mut detail = text::text_of("existing profile is ");
                    self.links[index].profile().push_text(&mut detail);
                    detail.append(", requested ");
                    profile.push_text(&mut detail);
                    assert(detail@ =~= "existing profile is "@ + before[index as int].profile.text()
                        + ", requested "@ + profile.text());
                    return Err(IvshmemError::LinkProfileMismatch { link: link_id, detail });
                }
                match self.links[index].ensure_active(allocation) {
                    Ok(()) => {},
                    Err(error) => {
                        proof {
                            assert(self.views() =~= before);
                            lemma_registry_update(*old(self), *self, index as int);
                        }
                        return Err(error);
                    },
                }
                let ghost active = self.views();
                proof {
                    assert(active =~= before.update(
                        index as int,
                        before[index as int].activated(allocation->Ok_0),
                    ));
                    lemma_registry_update(*old(self), *self, index as int);
                }
                let ghost registry = *self;
                match self.links[index].reserve_slot(peer) {
                    Ok(()) => {
                        proof {
                            assert(self.views() =~= slot_outcome(active, index as int, peer).0);
                            lemma_registry_update(registry, *self, index as int);
                        }
                        Ok(PeerReservation { link: id, peer })
                    },
                    Err(error) => {
                        proof {
                            assert(self.views() =~= active);
                            lemma_registry_update(registry, *self, index as int);
                        }
                        Err(error)
                    },
                }
            },
            None => {
                let mut link = match IvshmemLink::new(id, profile, allocation) {
                    Ok(link) => link,
                    Err(error) => {
                        if let Some(allocation) = fresh {
                            backing::push_effect(
                                &mut self.effects,
                                BackingEffect::Zero { allocation, size: SHARED_MEMORY_SIZE },
                            );
                            backing::push_effect(
                                &mut self.effects,
                                BackingEffect::Release { allocation },
                            );
                            assert(self.effects() =~= old(self).effects() + seq![
                                EffectView::Zero { allocation, size: SHARED_MEMORY_SIZE },
                                EffectView::Release { allocation },
                            ]);
                        }
                        return Err(error);
                    },
                };
                let ghost fresh = link@;
                let ghost last = before.len() as int;
                let result = link.reserve_slot(peer);
                let ghost reserved = link@;
                self.links.push(link);
                proof {
                    assert(self.views() =~= before.push(reserved));
                    assert(before.push(fresh).update(last, reserved) =~= before.push(reserved));
                    assert(slot_outcome(before.push(fresh), last, peer).0 =~= before.push(
                        reserved,
                    ));
                    lemma_registry_push(*old(self), *self, id);
                }
                match result {
                    Ok(()) => Ok(PeerReservation { link: id, peer }),
                    Err(error) => Err(error),
                }
            },
        }
    }
}

/// Replacing one link by a sound one of the same identity keeps the registry
/// sound.
proof fn lemma_registry_update(before: IvshmemLinkRegistry, after: IvshmemLinkRegistry, i: int)
    requires
        before.wf(),
        0 <= i < before.links@.len(),
        after.links@.len() == before.links@.len(),
        after.links@[i].wf(),
        after.links@[i]@.id == before.links@[i]@.id,
        forall|k: int|
            0 <= k < before.links@.len() && k != i ==> #[trigger] after.links@[k]
                == before.links@[k],
    ensures
        after.wf(),
{
    assert forall|k: int| 0 <= k < after.links@.len() implies (#[trigger] after.links@[k]).wf() by {
        if k != i {
            assert(before.links@[k].wf());
        }
    }
    assert forall|k: int, l: int| 0 <= k < l < after.links@.len() implies (
    #[trigger] after.views()[k]).id != (#[trigger] after.views()[l]).id by {
        assert(before.views()[k].id != before.views()[l].id);
        assert(after.views()[k].id == before.views()[k].id);
        assert(after.views()[l].id == before.views()[l].id);
    }
}

/// Adding a sound link with a new identity keeps the registry sound.
proof fn lemma_registry_push(before: IvshmemLinkRegistry, after: IvshmemLinkRegistry, id: LinkId)
    requires
        before.wf(),
        link_index(before.views(), id, 0) is None,
        after.links@.len() == before.links@.len() + 1,
        after.links@.last().wf(),
        after.links@.last()@.id == id,
        forall|k: int|
            0 <= k < before.links@.len() ==> #[trigger] after.links@[k] == before.links@[k],
    ensures
        after.wf(),
{
    let last = before.links@.len() as int;
    assert forall|k: int| 0 <= k < after.links@.len() implies (#[trigger] after.links@[k]).wf() by {
        if k < last {
            assert(before.links@[k].wf());
        }
    }
    assert forall|k: int, l: int| 0 <= k < l < after.links@.len() implies (
    #[trigger] after.views()[k]).id != (#[trigger] after.views()[l]).id by {
        if l == last {
            lemma_absent_link(before.views(), id, 0, k);
            assert(after.views()[k] == before.views()[k]);
        } else {
            assert(after.views()[k] == before.views()[k]);
            assert(after.views()[l] == before.views()[l]);
        }
    }
}

proof fn lemma_absent_link(links: Seq<LinkView>, id: LinkId, from: int, k: int)
    requires
        link_index(links, id, from) is None,
        0 <= from <= k < links.len(),
    ensures
        links[k].id != id,
    decreases k - from,
{
    if from < k {
        lemma_absent_link(links, id, from + 1, k);
    }
}

// ---------------------------------------------------------------------------
// Laws
// ---------------------------------------------------------------------------

/// A doorbell reaches only the sink that the target's current endpoint
/// registered, and carries the true sender.
pub proof fn law_doorbells_reach_only_their_target(
    link: LinkView,
    source: PeerId,
    doorbell: Doorbell,
    sink: usize,
    event: DoorbellEvent,
)
    requires
        link.wf(),
        link.route(source, doorbell) == (DoorbellRoute::Deliver { sink, event }),
    ensures
        link.peers is Some,
        event.source == source,
        event.target == doorbell.target,
        event.target.0 < link.profile.max_peers,
        (link.peers->0).slots[event.target.0 as int] is Attached,
        (link.peers->0).sinks[event.target.0 as int] == Some(sink),
{
}

/// Right after an endpoint attached, doorbells to it find no sink: one that an
/// earlier attachment registered is gone.
pub proof fn law_attaching_drops_stale_sinks(
    link: LinkView,
    peer: PeerId,
    source: PeerId,
    doorbell: Doorbell,
)
    requires
        link.wf(),
        link.attach_fault(peer) is None,
        doorbell.target == peer,
        doorbell.vector == SUPPORTED_DOORBELL_VECTOR,
    ensures
        (LinkView { peers: Some((link.peers->0).attached_to(peer.0 as int)), ..link }).route(
            source,
            doorbell,
        ) == DoorbellRoute::NoSink,
{
}

/// An endpoint that detached receives no more doorbells.
pub proof fn law_detached_endpoints_receive_nothing(
    link: LinkView,
    peer: PeerId,
    generation: u64,
    source: PeerId,
    doorbell: Doorbell,
)
    requires
        link.wf(),
        link.peers is Some,
        (link.peers->0).current(peer.0 as int, generation),
        doorbell.target == peer,
    ensures
        !(link.settled((link.peers->0).detached(peer.0 as int, generation)).route(
            source,
            doorbell,
        ) is Deliver),
{
}

/// A stale attachment neither frees nor silences the slot of a newer one.
pub proof fn law_stale_detach_keeps_the_newer_attachment(
    peers: PeersView,
    peer: int,
    stale: u64,
    current: u64,
)
    requires
        peers.current(peer, current),
        stale != current,
    ensures
        peers.detached(peer, stale).slots == peers.slots,
        peers.detached(peer, stale).sinks == peers.sinks,
{
}

/// A released slot cannot be reserved or attached again in the same lifecycle.
pub proof fn law_retired_slots_stay_blocked(link: LinkView, peer: PeerId)
    requires
        link.wf(),
        link.peers is Some,
        peer.0 < link.profile.max_peers,
        !(link.peers->0).released(peer.0 as int).ended(),
    ensures
        ({
            let after = link.settled((link.peers->0).released(peer.0 as int));
            &&& after.reserve_fault(peer) == Some(
                IvshmemErrorView::PeerRetired { link: link.id.0, peer: peer.0 },
            )
            &&& after.attach_fault(peer) == Some(
                IvshmemErrorView::PeerRetired { link: link.id.0, peer: peer.0 },
            )
        }),
{
}

/// A lifecycle ends exactly when the last reservation and attachment are gone.
/// The generation then grows, the shared bytes are zero, and after the next
/// activation every peer of the profile can be reserved again. The memory of the
/// old lifecycle is zeroed and goes back to its allocator once the new one is
/// zeroed too.
pub proof fn law_a_new_lifecycle_starts_clean(
    link: LinkView,
    peers: PeersView,
    allocation: BackingAllocation,
    peer: PeerId,
)
    requires
        link.wf(),
        link.generation.0 < u64::MAX,
        peers.ended(),
        peer.0 < link.profile.max_peers,
    ensures
        ({
            let parked = link.settled(peers);
            let next = parked.activated(allocation);
            &&& parked.peers is None
            &&& parked.generation.0 == link.generation.0 + 1
            &&& next.generation == parked.generation
            &&& next.reserve_fault(peer) is None
            &&& forall|i: int| 0 <= i < next.bytes.len() ==> #[trigger] next.bytes[i] == 0
            &&& next.effects == link.effects + seq![
                EffectView::Zero { allocation: link.allocation, size: SHARED_MEMORY_SIZE },
                EffectView::Zero { allocation, size: SHARED_MEMORY_SIZE },
                EffectView::Release { allocation: link.allocation },
            ]
        }),
{
}

/// What one peer publishes is read back from its state-table entry, and the
/// entries of other peers keep their value.
pub proof fn law_published_state_is_read_back(
    link: LinkView,
    peer: PeerId,
    other: PeerId,
    value: u32,
)
    requires
        link.wf(),
        peer.0 < link.profile.max_peers,
        other.0 < link.profile.max_peers,
    ensures
        ({
            let after = link.published(peer, value).bytes;
            &&& le::le_value(after.subrange(4 * peer.0, 4 * peer.0 + 4)) == value
            &&& other != peer ==> after.subrange(4 * other.0, 4 * other.0 + 4)
                == link.bytes.subrange(4 * other.0, 4 * other.0 + 4)
        }),
{
    let after = link.published(peer, value).bytes;
    backing::law_backing_reads_what_was_written(link.bytes, 4 * peer.0, 4, value as nat);
    le::lemma_spans();
    if other != peer {
        assert(after.subrange(4 * other.0, 4 * other.0 + 4) =~= link.bytes.subrange(
            4 * other.0,
            4 * other.0 + 4,
        ));
    }
}

/// Two links of one registry never share their bytes: a reservation of one link
/// leaves every other link as it was.
pub proof fn law_links_are_isolated(
    links: Seq<LinkView>,
    id: LinkId,
    peer: PeerId,
    profile: LinkProfile,
    allocation: Result<BackingAllocation, IvshmemError>,
    k: int,
)
    requires
        0 <= k < links.len(),
        links[k].id != id,
    ensures
        reserve_outcome(links, id, peer, profile, allocation).0.len() >= links.len(),
        reserve_outcome(links, id, peer, profile, allocation).0[k] == links[k],
{
    lemma_found_link(links, id, 0);
}

proof fn lemma_found_link(links: Seq<LinkView>, id: LinkId, from: int)
    requires
        0 <= from,
    ensures
        link_index(links, id, from) matches Some(i) ==> from <= i < links.len() && links[i].id
            == id,
    decreases links.len() - from,
{
    if from < links.len() {
        lemma_found_link(links, id, from + 1);
    }
}

} // verus!
