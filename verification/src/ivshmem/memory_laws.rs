//! What holds of the division of the shared memory, of its direct mappings and of
//! the links of a registry.

use crate::device::DeviceErrorView;
use crate::ivshmem::backing;
use crate::ivshmem::backing::{BackingAllocation, EffectView};
use crate::ivshmem::endpoint;
use crate::ivshmem::endpoint::{BarAssignment, IvshmemPciFunction, PlanChange};
use crate::ivshmem::error::{IvshmemError, IvshmemErrorView};
use crate::ivshmem::layout;
use crate::ivshmem::layout::{Bar2Section, IvshmemMemoryLayout, SectionDesc};
use crate::ivshmem::link;
use crate::ivshmem::link::{IvshmemLink, LinkView, PeerSlot};
use crate::ivshmem::plan;
use crate::ivshmem::profile::{LinkId, LinkProfile, PeerId};
use crate::pci::bar::PciMemoryBarWidth;
use crate::stage2::GpaRange;
use vstd::arithmetic::mul;
use vstd::prelude::*;

verus! {

// ---------------------------------------------------------------------------
// Sections
// ---------------------------------------------------------------------------

/// The bounds of a section are sound exactly when both are multiples of 4 KiB, the
/// size is positive and the end is a machine address. Two sections overlap exactly
/// when some offset lies in both.
pub proof fn law_section_bounds(offset: u64, size: u64, left: SectionDesc, right: SectionDesc)
    requires
        left.size > 0,
        right.size > 0,
    ensures
        layout::section_fault(offset as int, size as int) is None <==> offset % 0x1000 == 0 && size
            % 0x1000 == 0 && size > 0 && offset + size <= u64::MAX,
        left.overlaps(right) <==> exists|o: int|
            #![trigger left.holds(o)]
            left.offset <= o < left.offset + left.size && right.offset <= o < right.offset
                + right.size,
        forall|o: int| #[trigger]
            left.holds(o) <==> left.offset <= o < left.offset + left.size,
{
    if left.overlaps(right) {
        let o: int = if left.offset < right.offset {
            right.offset as int
        } else {
            left.offset as int
        };
        assert(left.holds(o));
    }
}

proof fn lemma_output_fault(profile: LinkProfile, bar2_size: u64, index: int)
    requires
        profile.wf(),
        0 <= index <= profile.max_peers,
        0x1000 + profile.common_size + profile.max_peers * profile.output_size <= bar2_size,
    ensures
        layout::output_fault(profile, index) is None,
    decreases profile.max_peers - index,
{
    if index < profile.max_peers {
        let size = profile.output_size as int;
        mul::lemma_mul_is_distributive_add_other_way(size, index, 1);
        mul::lemma_mul_inequality(index + 1, profile.max_peers as int, size);
        assert((index * size) % 0x1000 == 0) by {
            let pages = size / 0x1000;
            assert(size == 0x1000 * pages);
            assert(index * size == 0x1000 * (index * pages)) by (nonlinear_arith)
                requires
                    size == 0x1000 * pages,
            ;
        }
        assert(0 <= index * size) by (nonlinear_arith)
            requires
                index >= 0,
                size >= 0,
        ;
        lemma_output_fault(profile, bar2_size, index + 1);
    }
}

/// A valid profile divides a BAR2 exactly when the size of the BAR2 is a positive
/// multiple of 4 KiB, the first page has four bytes for every peer, and that page,
/// the common section and one output section per peer end inside.
pub proof fn law_profiles_fit_by_their_size(bar2_size: u64, profile: LinkProfile)
    requires
        profile.wf(),
    ensures
        layout::layout_fault(bar2_size, profile) is None <==> bar2_size % 0x1000 == 0 && bar2_size
            >= 0x1000 && 4 * profile.max_peers <= 0x1000 && 0x1000 + profile.common_size
            + profile.max_peers * profile.output_size <= bar2_size,
{
    if 0x1000 + profile.common_size + profile.max_peers * profile.output_size <= bar2_size {
        lemma_output_fault(profile, bar2_size, 0);
        mul::lemma_mul_inequality(0, profile.max_peers as int, profile.output_size as int);
    }
}

/// A layout of a profile begins with one page of state, goes on with the common
/// section if the profile has one, and then has one output section per peer, one
/// right behind the other.
pub proof fn law_layouts_follow_their_profile(
    layout: IvshmemMemoryLayout,
    profile: LinkProfile,
    i: int,
)
    requires
        layout.divides(profile),
        0 <= i < profile.max_peers,
    ensures
        layout.state_table.offset == 0,
        layout.state_table.size == 0x1000,
        layout.common is Some <==> profile.common_size > 0,
        layout.common matches Some(common) ==> common.offset == 0x1000 && common.size
            == profile.common_size,
        layout.outputs@.len() == profile.max_peers,
        layout.outputs@[i].offset == 0x1000 + profile.common_size + i * profile.output_size,
        layout.outputs@[i].size == profile.output_size,
        layout.outputs@[i].offset + layout.outputs@[i].size <= layout.bar2_size,
{
    layout::lemma_output_bounds(layout.bar2_size, profile, i);
}

/// The offsets of a range are refused from the first one on that the peer may not
/// write, and not at all exactly when it may write every one.
pub proof fn law_the_first_refused_offset(
    layout: IvshmemMemoryLayout,
    peer: PeerId,
    start: int,
    end: int,
)
    ensures
        match layout.first_refused(peer, start, end) {
            Some(offset) => {
                &&& start <= offset < end
                &&& !layout.section_at(offset).writable_by(peer)
                &&& forall|o: int|
                    start <= o < offset ==> (#[trigger] layout.section_at(o)).writable_by(peer)
            },
            None => forall|o: int|
                start <= o < end ==> (#[trigger] layout.section_at(o)).writable_by(peer),
        },
    decreases end - start,
{
    if start < end && layout.section_at(start).writable_by(peer) {
        law_the_first_refused_offset(layout, peer, start + 1, end);
    }
}

/// Nobody writes the state table or reserved bytes through the memory, everybody
/// writes the common section, and an output section its owner alone.
pub proof fn law_section_permissions(peer: PeerId, owner: PeerId)
    ensures
        !Bar2Section::StateTable.writable_by(peer),
        !Bar2Section::Reserved.writable_by(peer),
        Bar2Section::Common.writable_by(peer),
        Bar2Section::Output(owner).writable_by(peer) <==> owner.0 == peer.0,
{
}

/// Whether a section of a layout lies in the BAR2.
pub open spec fn ends_inside(layout: IvshmemMemoryLayout, section: SectionDesc) -> bool {
    section.offset + section.size <= layout.bar2_size
}

/// Whether no offset is in both sections.
pub open spec fn apart(left: SectionDesc, right: SectionDesc) -> bool {
    left.offset + left.size <= right.offset || right.offset + right.size <= left.offset
}

/// A layout without a fault has all its sections inside the BAR2, no two of them
/// with an offset in common.
pub proof fn law_sound_layouts_are_disjoint(layout: IvshmemMemoryLayout, i: int, j: int)
    requires
        layout.wf(),
        layout.fault() is None,
        0 <= i < j < layout.outputs@.len(),
    ensures
        ends_inside(layout, layout.state_table),
        ends_inside(layout, layout.outputs@[i]),
        apart(layout.state_table, layout.outputs@[i]),
        apart(layout.outputs@[i], layout.outputs@[j]),
        layout.common matches Some(common) ==> ends_inside(layout, common) && apart(
            layout.state_table,
            common,
        ) && apart(common, layout.outputs@[i]),
{
    assert(layout.outputs@[i].wf());
    assert(layout.outputs@[j].wf());
    lemma_owner(layout, layout.state_table.offset as int);
    lemma_owner(layout, layout.state_table.offset + layout.state_table.size - 1);
    lemma_owner(layout, layout.outputs@[i].offset as int);
    lemma_owner(layout, layout.outputs@[i].offset + layout.outputs@[i].size - 1);
    lemma_owner(layout, layout.outputs@[j].offset as int);
    lemma_owner(layout, layout.outputs@[j].offset + layout.outputs@[j].size - 1);
    if layout.common is Some {
        lemma_owner(layout, layout.common->0.offset as int);
        lemma_owner(layout, layout.common->0.offset + layout.common->0.size - 1);
    }
}

proof fn lemma_owner(layout: IvshmemMemoryLayout, offset: int)
    requires
        layout.wf(),
        layout.fault() is None,
    ensures
        layout.state_table.holds(offset) <==> layout.section_at(offset) == Bar2Section::StateTable,
        (layout.common matches Some(common) && common.holds(offset)) <==> layout.section_at(offset)
            == Bar2Section::Common,
        forall|index: int|
            0 <= index < layout.outputs@.len() ==> ((#[trigger] layout.outputs@[index]).holds(
                offset,
            ) <==> layout.section_at(offset) == Bar2Section::Output(PeerId(index as u16))),
        layout.section_at(offset) != Bar2Section::Reserved ==> 0 <= offset < layout.bar2_size,
{
    layout::law_sections_own_their_offsets(layout, offset);
}

// ---------------------------------------------------------------------------
// Accesses and effects
// ---------------------------------------------------------------------------

/// An access is refused exactly when its width is none of 1, 2, 4 and 8 bytes, for
/// that, or when it leaves the memory.
pub proof fn law_accesses_are_refused_by_width_and_end(offset: u64, width: usize, size: int)
    ensures
        backing::access_fault(offset, width, size) is None <==> (width == 1 || width == 2 || width
            == 4 || width == 8) && offset + width <= size,
        width != 1 && width != 2 && width != 4 && width != 8 ==> backing::access_fault(
            offset,
            width,
            size,
        ) == Some(IvshmemErrorView::InvalidSharedMemoryWidth { width }),
        (width == 1 || width == 2 || width == 4 || width == 8) && offset + width > size
            ==> backing::access_fault(offset, width, size) == Some(
            IvshmemErrorView::SharedMemoryOutOfRange { offset, width, size: size as u64 },
        ),
        backing::range_fault(offset, width, size) is None <==> offset + width <= size,
{
}

/// A store effect puts its bytes at its offset and leaves the rest; a zero effect
/// clears as many bytes as it says; a release leaves the bytes.
pub proof fn law_effects_change_the_bytes_they_name(
    memory: Seq<u8>,
    allocation: BackingAllocation,
    offset: u64,
    bytes: Seq<u8>,
    size: u64,
    i: int,
)
    requires
        0 <= i < memory.len(),
    ensures
        ({
            let stored = backing::performed(
                memory,
                EffectView::Store { allocation, offset, bytes },
            );
            let zeroed = backing::performed(memory, EffectView::Zero { allocation, size });
            &&& stored.len() == zeroed.len() == memory.len()
            &&& offset <= i < offset + bytes.len() ==> stored[i] == bytes[i - offset]
            &&& !(offset <= i < offset + bytes.len()) ==> stored[i] == memory[i]
            &&& i < size ==> zeroed[i] == 0
            &&& i >= size ==> zeroed[i] == memory[i]
            &&& backing::performed(memory, EffectView::Release { allocation }) == memory
        }),
{
}

/// A link that is given up has its open effects performed before its memory is
/// released, link by link in their order.
pub proof fn law_given_up_links_release_their_memory(links: Seq<LinkView>, last: LinkView)
    ensures
        link::given_up(Seq::empty()).len() == 0,
        link::given_up(links.push(last)) == link::given_up(links) + last.effects + seq![
            EffectView::Release { allocation: last.allocation },
        ],
{
    let longer = links.push(last);
    assert(longer.drop_last() =~= links);
    assert(link::given_up(longer) =~= link::given_up(links) + last.effects + seq![
        EffectView::Release { allocation: last.allocation },
    ]);
}

// ---------------------------------------------------------------------------
// Direct mappings
// ---------------------------------------------------------------------------

/// A plan maps the state page, the common section if there is one and every output
/// section, in that order, each at the distance of its section from both bases, and
/// writable for the peer exactly if it is common or the peer's own.
pub proof fn law_plans_map_every_section(
    layout: IvshmemMemoryLayout,
    bar2_gpa: u64,
    hpa: u64,
    peer: PeerId,
    i: int,
)
    requires
        layout.wf(),
        0 <= i < layout.outputs@.len(),
    ensures
        ({
            let mappings = plan::planned_mappings(layout, bar2_gpa, hpa, peer);
            let first: int = if layout.common is Some {
                2
            } else {
                1
            };
            let output = mappings[first + i];
            &&& mappings.len() == first + layout.outputs@.len()
            &&& mappings[0].gpa_base == bar2_gpa
            &&& mappings[0].hpa_base == hpa
            &&& mappings[0].size == layout.state_table.size
            &&& !mappings[0].writable
            &&& mappings[0].label == "state table"@
            &&& layout.common matches Some(common) ==> {
                &&& mappings[1].gpa_base == bar2_gpa + common.offset
                &&& mappings[1].hpa_base == hpa + common.offset
                &&& mappings[1].size == common.size
                &&& mappings[1].writable
                &&& mappings[1].label == "common section"@
            }
            &&& output.gpa_base == bar2_gpa + layout.outputs@[i].offset
            &&& output.hpa_base == hpa + layout.outputs@[i].offset
            &&& output.size == layout.outputs@[i].size
            &&& output.writable <==> i == peer.0
            &&& output.label == "output section"@
        }),
        plan::address_fault(bar2_gpa, hpa) is None <==> bar2_gpa % 0x1000 == 0 && hpa % 0x1000 == 0,
{
    assert(i < 0x1_0000);
    assert(PeerId(i as u16).0 == i);
}

// ---------------------------------------------------------------------------
// Links
// ---------------------------------------------------------------------------

/// Why a slot cannot be reserved or attached to: the link is inactive, the peer is
/// outside the table, or the state that the slot is in.
pub proof fn law_slots_are_refused_by_their_state(view: LinkView, peer: PeerId)
    requires
        view.wf(),
    ensures
        ({
            let missing = Some(IvshmemErrorView::PeerNotReserved { link: view.id.0, peer: peer.0 });
            let taken = Some(
                IvshmemErrorView::PeerAlreadyReserved { link: view.id.0, peer: peer.0 },
            );
            let attached = Some(
                IvshmemErrorView::PeerAlreadyAttached { link: view.id.0, peer: peer.0 },
            );
            let retired = Some(IvshmemErrorView::PeerRetired { link: view.id.0, peer: peer.0 });
            let outside = Some(
                IvshmemErrorView::PeerOutOfProfile {
                    peer: peer.0,
                    max_peers: view.profile.max_peers,
                },
            );
            let inside = peer.0 < view.profile.max_peers;
            &&& view.peers is None ==> view.reserve_fault(peer) == missing && view.attach_fault(
                peer,
            ) == missing
            &&& view.peers is Some && !inside ==> view.reserve_fault(peer) == outside
                && view.attach_fault(peer) == missing
            &&& !inside ==> view.publish_fault(peer) == outside
            &&& inside && view.peers is None ==> view.publish_fault(peer) == Some(
                IvshmemErrorView::PeerNotReserved { link: view.id.0, peer: 0 },
            )
            &&& view.peers matches Some(peers) ==> inside ==> match peers.slots[peer.0 as int] {
                PeerSlot::Vacant => view.attach_fault(peer) == missing,
                PeerSlot::Reserved => view.reserve_fault(peer) == taken,
                PeerSlot::Attached { .. } => view.reserve_fault(peer) == taken
                    && view.attach_fault(peer) == attached,
                PeerSlot::Retired => view.reserve_fault(peer) == retired && view.attach_fault(peer)
                    == retired,
            }
        }),
{
}

proof fn lemma_no_link(links: Seq<LinkView>, id: LinkId, from: int)
    requires
        0 <= from <= links.len(),
        forall|j: int| 0 <= j < links.len() ==> (#[trigger] links[j]).id != id,
    ensures
        link::link_index(links, id, from) is None,
    decreases links.len() - from,
{
    if from < links.len() {
        lemma_no_link(links, id, from + 1);
    }
}

/// The first reservation of a link needs memory and a profile that fits 64 KiB. It
/// then adds an active link of that profile behind the others, with zero bytes and
/// every slot vacant; the slot of the peer is then reserved if the profile has it.
/// Memory that was allocated for a profile that does not fit is zeroed and released.
pub proof fn law_first_reservations_create_the_link(
    links: Seq<LinkView>,
    id: LinkId,
    peer: PeerId,
    profile: LinkProfile,
    allocation: Result<BackingAllocation, IvshmemError>,
    other: int,
    o: int,
)
    requires
        profile.wf(),
        forall|j: int| 0 <= j < links.len() ==> (#[trigger] links[j]).id != id,
        0 <= other < profile.max_peers,
        other != peer.0,
        0 <= o < 0x1_0000,
    ensures
        ({
            let (after, fault) = link::reserve_outcome(links, id, peer, profile, allocation);
            let fits = 0x1000 + profile.common_size + profile.max_peers * profile.output_size
                <= 0x1_0000;
            let created = after[links.len() as int];
            &&& fault is None <==> allocation is Ok && fits && peer.0 < profile.max_peers
            &&& allocation matches Err(error) ==> fault == Some(error@)
            &&& allocation is Ok && !fits ==> fault is Some && fault->0 is InvalidLayout
            &&& allocation is Ok && fits && peer.0 >= profile.max_peers ==> fault == Some(
                IvshmemErrorView::PeerOutOfProfile { peer: peer.0, max_peers: profile.max_peers },
            )
            &&& !(allocation is Ok && fits) ==> after == links
            &&& allocation is Ok && fits ==> {
                &&& after.len() == links.len() + 1
                &&& after.drop_last() == links
                &&& created.id == id
                &&& created.profile == profile
                &&& created.generation.0 == 0
                &&& created.allocation == allocation->Ok_0
                &&& created.bytes.len() == 0x1_0000
                &&& created.bytes[o] == 0
                &&& created.effects == seq![
                    EffectView::Zero { allocation: allocation->Ok_0, size: 0x1_0000 },
                ]
                &&& created.peers matches Some(peers) && {
                    &&& peers.slots.len() == profile.max_peers
                    &&& peers.sinks.len() == profile.max_peers
                    &&& peers.attached == 0
                    &&& peers.slots[other] is Vacant
                    &&& peers.sinks[other] is None
                    &&& peer.0 < profile.max_peers ==> peers.slots[peer.0 as int] is Reserved
                        && peers.sinks[peer.0 as int] is None
                }
            }
            &&& link::discarded(links, id, profile, allocation) == (if allocation is Ok && !fits {
                seq![
                    EffectView::Zero { allocation: allocation->Ok_0, size: 0x1_0000 },
                    EffectView::Release { allocation: allocation->Ok_0 },
                ]
            } else {
                Seq::<EffectView>::empty()
            })
            &&& link::backing_needed(links, id, profile)
        }),
{
    lemma_no_link(links, id, 0);
    law_profiles_fit_by_their_size(0x1_0000, profile);
    let (after, fault) = link::reserve_outcome(links, id, peer, profile, allocation);
    if allocation is Ok && link::create_fault(profile, allocation) is None {
        assert(after.drop_last() =~= links);
    }
}

/// A reservation of a link that the registry holds needs memory exactly when it
/// names the link's profile and the link is inactive; it discards nothing.
pub proof fn law_parked_links_need_memory(
    links: Seq<LinkView>,
    id: LinkId,
    profile: LinkProfile,
    allocation: Result<BackingAllocation, IvshmemError>,
    i: int,
)
    requires
        0 <= i < links.len(),
        links[i].id == id,
        forall|j: int| 0 <= j < links.len() && j != i ==> (#[trigger] links[j]).id != id,
    ensures
        link::backing_needed(links, id, profile) <==> links[i].profile == profile && links[i].peers
            is None,
        link::discarded(links, id, profile, allocation).len() == 0,
{
    lemma_found(links, id, 0, i);
}

proof fn lemma_found(links: Seq<LinkView>, id: LinkId, from: int, i: int)
    requires
        0 <= from <= i < links.len(),
        links[i].id == id,
        forall|j: int| 0 <= j < links.len() && j != i ==> (#[trigger] links[j]).id != id,
    ensures
        link::link_index(links, id, from) == Some(i),
    decreases i - from,
{
    if from < i {
        assert(links[from].id != id);
        lemma_found(links, id, from + 1, i);
    }
}

// ---------------------------------------------------------------------------
// Endpoints
// ---------------------------------------------------------------------------

/// A plan replaces a committed one only at another address, and then revokes the
/// whole old range; the first plan revokes nothing.
pub proof fn law_relocations_revoke_the_old_range(function: IvshmemPciFunction, bar2_gpa: u64)
    ensures
        function.direct_plan is None ==> function.revocations(bar2_gpa) == Some(
            Seq::<GpaRange>::empty(),
        ),
        function.direct_plan matches Some(previous) ==> {
            &&& function.revocations(bar2_gpa) is None <==> previous.bar2_gpa == bar2_gpa
            &&& previous.bar2_gpa != bar2_gpa ==> function.revocations(bar2_gpa) == Some(
                seq![GpaRange { base: previous.bar2_gpa, size: previous.bar2_size }],
            )
        },
{
}

/// A plan is derived exactly for an active link whose memory and whose BAR2 both
/// begin at a multiple of 4 KiB; a failure is one of state.
pub proof fn law_plans_need_an_active_link(view: LinkView, bar2_gpa: u64)
    ensures
        endpoint::plan_fault(view, bar2_gpa) is None <==> view.peers is Some && bar2_gpa % 0x1000
            == 0 && view.allocation.hpa_base % 0x1000 == 0,
        endpoint::plan_fault(view, bar2_gpa) is Some ==> endpoint::plan_fault(view, bar2_gpa)->0
            is InvalidState,
{
}

/// A change carries the mappings of the peer at the new address over 64 KiB, and the
/// ranges to revoke.
pub proof fn law_changes_map_the_new_address(
    function: IvshmemPciFunction,
    owner: IvshmemLink,
    gpa: u64,
    change: PlanChange,
)
    requires
        function.change_for(owner, gpa, Ok(change)),
    ensures
        change.plan.bar2_gpa == gpa,
        change.plan.bar2_size == 0x1_0000,
        plan::mapping_views(change.plan.mappings@) == plan::planned_mappings(
            owner.layout,
            gpa,
            owner@.allocation.hpa_base,
            function.attachment.peer,
        ),
        change.revoke is None <==> function.revocations(gpa) is None,
        change.revoke matches Some(revoke) ==> function.revocations(gpa) == Some(revoke@),
        owner@.peers is Some,
{
}

/// The address of the memory is that of the first assignment of BAR 2, if there is
/// one.
pub proof fn law_the_shared_memory_is_bar_two(bars: Seq<BarAssignment>)
    ensures
        match endpoint::assigned_at(bars, 0) {
            Some(gpa) => exists|i: int|
                0 <= i < bars.len() && (#[trigger] bars[i]).bar.0 == 2 && bars[i].gpa == gpa
                    && forall|j: int| 0 <= j < i ==> (#[trigger] bars[j]).bar.0 != 2,
            None => forall|j: int| 0 <= j < bars.len() ==> (#[trigger] bars[j]).bar.0 != 2,
        },
{
    lemma_assigned(bars, 0);
}

proof fn lemma_assigned(bars: Seq<BarAssignment>, from: int)
    requires
        0 <= from <= bars.len(),
    ensures
        match endpoint::assigned_at(bars, from) {
            Some(gpa) => exists|i: int|
                from <= i < bars.len() && (#[trigger] bars[i]).bar.0 == 2 && bars[i].gpa == gpa
                    && forall|j: int| from <= j < i ==> (#[trigger] bars[j]).bar.0 != 2,
            None => forall|j: int| from <= j < bars.len() ==> (#[trigger] bars[j]).bar.0 != 2,
        },
    decreases bars.len() - from,
{
    if from < bars.len() {
        if bars[from].bar.0 == 2 {
            assert(bars[from].gpa == bars[from].gpa);
        } else {
            lemma_assigned(bars, from + 1);
        }
    }
}

/// A range that leaves the memory is out of range at its offset; a refused register
/// or width is an invalid input; any other failure of a link is one of state.
pub proof fn law_link_failures_keep_their_kind(error: IvshmemErrorView)
    ensures
        ({
            let failure = endpoint::access_failure(error);
            &&& error matches IvshmemErrorView::SharedMemoryOutOfRange { offset, .. } ==> failure
                == (DeviceErrorView::OutOfRange { addr: offset })
            &&& failure is InvalidInput <==> error is InvalidRegisterAccess || error
                is InvalidSharedMemoryWidth
            &&& failure is InvalidState <==> !(error is SharedMemoryOutOfRange) && !(error
                is InvalidRegisterAccess) && !(error is InvalidSharedMemoryWidth)
        }),
{
}

/// The BARs of an endpoint are 32-bit, relocatable and placed by the host.
pub proof fn law_endpoint_bars_are_plain(index: u8, size: u64)
    ensures
        ({
            let bar = endpoint::plain_bar(index, size);
            &&& bar.index.0 == index
            &&& bar.size == size
            &&& bar.width == PciMemoryBarWidth::Bits32
            &&& !bar.prefetchable
            &&& bar.decode_policy is RelocatableWithinHostAperture
            &&& bar.address is Auto
        }),
{
}

} // verus!
