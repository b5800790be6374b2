//! What the peers of a link observe: registers, doorbells and shared memory.
//!
//! The laws speak of offsets, bytes and slots in plain numbers.

use crate::device::{AccessWidth, DeviceErrorView};
use crate::ivshmem::backing::BackingAllocation;
use crate::ivshmem::doorbell::{Doorbell, DoorbellEvent};
use crate::ivshmem::endpoint;
use crate::ivshmem::error::IvshmemError;
use crate::ivshmem::layout;
use crate::ivshmem::layout::{Bar2Section, IvshmemMemoryLayout};
use crate::ivshmem::link;
use crate::ivshmem::link::{DoorbellRoute, IvshmemLink, LinkView, PeerSlot, PeersView};
use crate::ivshmem::profile;
use crate::ivshmem::profile::{LinkId, LinkProfile, PeerId};
use crate::ivshmem::registers::IvshmemRegisters;
use crate::le;
use crate::pci::function::PciBarAccess;
use vstd::arithmetic::mul;
use vstd::prelude::*;

verus! {

// ---------------------------------------------------------------------------
// Doorbells
// ---------------------------------------------------------------------------

/// The number of an occurrence after a counter, and whether it is logged: the
/// first one and every 1024th.
pub open spec fn is_logged(counter: u32) -> bool {
    let number = (counter + 1) % 0x1_0000_0000;
    number == 1 || number % 1024 == 0
}

/// A doorbell with vector zero to an attached peer with a sink is delivered to
/// that sink with its true source, target and vector, whichever peer rings; it
/// changes nothing of the link. Every other doorbell is ignored for one reason:
/// the link is inactive, the vector is not zero, the target is outside the
/// profile, no endpoint is attached to it, or that endpoint has no sink.
pub proof fn law_doorbells_are_delivered_to_attached_peers(
    link: LinkView,
    source: PeerId,
    doorbell: Doorbell,
)
    requires
        link.wf(),
    ensures
        ({
            let route = link.route(source, doorbell);
            let target = doorbell.target.0 as int;
            let ignored = link.ignored_doorbell;
            match link.peers {
                None => route == DoorbellRoute::Inactive,
                Some(peers) => if doorbell.vector != 0 {
                    route == (DoorbellRoute::UnsupportedVector {
                        log: is_logged(ignored.unsupported_vector),
                    })
                } else if target >= link.profile.max_peers {
                    route == (DoorbellRoute::OutOfProfile {
                        log: is_logged(ignored.out_of_profile),
                    })
                } else if !(peers.slots[target] is Attached) {
                    route == (DoorbellRoute::NotAttached { log: is_logged(ignored.not_attached) })
                } else {
                    match peers.sinks[target] {
                        None => route == DoorbellRoute::NoSink,
                        Some(sink) => route == (DoorbellRoute::Deliver {
                            sink,
                            event: DoorbellEvent { source, target: doorbell.target, vector: 0 },
                        }) && link.routed(route) == link,
                    }
                },
            }
        }),
{
    assert(link::SUPPORTED_DOORBELL_VECTOR == 0);
}

/// Routing a doorbell changes at most the counter of the reason for which it was
/// ignored.
pub proof fn law_routing_changes_only_counters(link: LinkView, route: DoorbellRoute)
    ensures
        ({
            let after = link.routed(route);
            let before = link.ignored_doorbell;
            let counts = after.ignored_doorbell;
            &&& after.peers == link.peers
            &&& after.bytes == link.bytes
            &&& after.profile == link.profile
            &&& after.id == link.id
            &&& after.generation == link.generation
            &&& after.allocation == link.allocation
            &&& after.effects == link.effects
            &&& counts.delivery_failed == before.delivery_failed
            &&& counts.unsupported_vector == (if route is UnsupportedVector {
                (before.unsupported_vector + 1) % 0x1_0000_0000
            } else {
                before.unsupported_vector as int
            })
            &&& counts.out_of_profile == (if route is OutOfProfile {
                (before.out_of_profile + 1) % 0x1_0000_0000
            } else {
                before.out_of_profile as int
            })
            &&& counts.not_attached == (if route is NotAttached {
                (before.not_attached + 1) % 0x1_0000_0000
            } else {
                before.not_attached as int
            })
        }),
{
}

/// A dword write of `target * 65536 + vector` to offset 12 of BAR0 rings that
/// target and vector with the writing peer as source.
pub proof fn law_doorbell_writes_ring_their_target(
    registers: IvshmemRegisters,
    peer: PeerId,
    link: LinkView,
    layout: IvshmemMemoryLayout,
    access: PciBarAccess,
    target: PeerId,
    vector: u16,
)
    requires
        link.wf(),
        access.bar.0 == 0,
        access.offset == 12,
        access.width == AccessWidth::Dword,
    ensures
        ({
            let value = (target.0 * 0x1_0000 + vector) as u64;
            let outcome = endpoint::write_outcome(registers, peer, link, layout, access, value);
            let route = link.route(peer, Doorbell { target, vector });
            &&& outcome.result == Ok::<_, DeviceErrorView>(Some(route))
            &&& outcome.registers == registers
            &&& outcome.link == link.routed(route)
        }),
{
    let value = (target.0 * 0x1_0000 + vector) as u64;
    assert(value / 0x1_0000 == target.0);
    assert(value % 0x1_0000 == vector);
}

// ---------------------------------------------------------------------------
// Registers
// ---------------------------------------------------------------------------

/// A dword read of BAR0 gives the peer identity at 0, the number of peers at 4,
/// the notification enable at 8, zero at 12, the state at 16, the event status at
/// 20 and zero at every other multiple of four below 4096; other offsets and
/// widths are refused.
pub proof fn law_register_reads(
    registers: IvshmemRegisters,
    peer: PeerId,
    link: LinkView,
    access: PciBarAccess,
)
    requires
        access.bar.0 == 0,
    ensures
        match endpoint::read_outcome(registers, peer, link, access) {
            Ok(value) => {
                &&& access.width == AccessWidth::Dword
                &&& access.offset % 4 == 0
                &&& access.offset < 4096
                &&& value == (if access.offset == 0 {
                    peer.0 as int
                } else if access.offset == 4 {
                    link.profile.max_peers as int
                } else if access.offset == 8 {
                    registers.interrupt_control as int
                } else if access.offset == 16 {
                    registers.state as int
                } else if access.offset == 20 {
                    registers.event_status as int
                } else {
                    0
                })
            },
            Err(_) => access.width != AccessWidth::Dword || access.offset % 4 != 0 || access.offset
                >= 4096,
        },
{
}

/// A dword write to BAR0 sets bit 0 of the notification enable at 8, the state at
/// 16, and clears the written bits of the event status at 20; the other registers
/// keep their value, and no other multiple of four below 4096 but the doorbell
/// changes anything. Other offsets, widths and wider values are refused without
/// effect.
pub proof fn law_register_writes(
    registers: IvshmemRegisters,
    peer: PeerId,
    link: LinkView,
    layout: IvshmemMemoryLayout,
    access: PciBarAccess,
    value: u64,
)
    requires
        access.bar.0 == 0,
        access.offset != 12,
    ensures
        ({
            let outcome = endpoint::write_outcome(registers, peer, link, layout, access, value);
            let after = outcome.registers;
            let accepted = access.width == AccessWidth::Dword && value <= 0xffff_ffff
                && access.offset % 4 == 0 && access.offset < 4096;
            &&& !accepted ==> outcome.result is Err && after == registers && outcome.link == link
            &&& (accepted && access.offset != 16) ==> outcome.result == Ok::<
                Option<DoorbellRoute>,
                DeviceErrorView,
            >(None) && outcome.link == link
            &&& accepted ==> {
                &&& after.interrupt_control == (if access.offset == 8 {
                    value as int % 2
                } else {
                    registers.interrupt_control as int
                })
                &&& after.state == (if access.offset == 16 {
                    value as int
                } else {
                    registers.state as int
                })
                &&& access.offset != 20 ==> after.event_status == registers.event_status
                &&& access.offset == 20 ==> after.event_status & (value as u32) == 0
                    && after.event_status & !(value as u32) == registers.event_status & !(
                value as u32)
            }
        }),
{
    let written = value as u32;
    let status = registers.event_status;
    assert(written & 1u32 == written % 2 && (status & !written) & written == 0 && (status
        & !written) & !written == status & !written) by (bit_vector);
}

/// A state write on an active link within the profile stores the four bytes of the
/// value at four times the peer identity, least significant first, and changes no
/// other shared byte; outside it fails after the register changed.
pub proof fn law_state_writes_store_the_table_entry(
    registers: IvshmemRegisters,
    peer: PeerId,
    link: LinkView,
    layout: IvshmemMemoryLayout,
    access: PciBarAccess,
    value: u32,
    o: int,
)
    requires
        link.wf(),
        access.bar.0 == 0,
        access.offset == 16,
        access.width == AccessWidth::Dword,
        0 <= o < link.bytes.len(),
    ensures
        ({
            let outcome = endpoint::write_outcome(
                registers,
                peer,
                link,
                layout,
                access,
                value as u64,
            );
            let entry = 4 * peer.0;
            if link.peers is Some && peer.0 < link.profile.max_peers {
                &&& outcome.result == Ok::<Option<DoorbellRoute>, DeviceErrorView>(None)
                &&& outcome.link.bytes.len() == link.bytes.len()
                &&& outcome.link.peers == link.peers
                &&& outcome.link.bytes[o] == (if entry <= o < entry + 4 {
                    digit(value as int, o - entry)
                } else {
                    link.bytes[o] as int
                })
            } else {
                outcome.result is Err && outcome.link == link
            }
        }),
{
    let entry = 4 * peer.0;
    if entry <= o < entry + 4 {
        lemma_digits(value as nat, o - entry);
    }
}

/// Digit `i` of a number in base 256, for the eight lowest digits.
pub open spec fn digit(value: int, i: int) -> int {
    if i == 0 {
        value % 0x100
    } else if i == 1 {
        value / 0x100 % 0x100
    } else if i == 2 {
        value / 0x1_0000 % 0x100
    } else if i == 3 {
        value / 0x100_0000 % 0x100
    } else if i == 4 {
        value / 0x1_0000_0000 % 0x100
    } else if i == 5 {
        value / 0x100_0000_0000 % 0x100
    } else if i == 6 {
        value / 0x1_0000_0000_0000 % 0x100
    } else {
        value / 0x100_0000_0000_0000 % 0x100
    }
}

proof fn lemma_digits(value: nat, i: int)
    requires
        0 <= i < 8,
    ensures
        le::byte_of(value, i as nat) == digit(value as int, i),
{
    le::lemma_spans();
    assert(value / 1 == value);
}

// ---------------------------------------------------------------------------
// Shared memory
// ---------------------------------------------------------------------------

/// The width of an access in bytes.
pub open spec fn width_of(access: PciBarAccess) -> int {
    match access.width {
        AccessWidth::Byte => 1,
        AccessWidth::Word => 2,
        AccessWidth::Dword => 4,
        AccessWidth::Qword => 8,
    }
}

/// The number of values that an access of this width can hold.
pub open spec fn values_of(access: PciBarAccess) -> int {
    match access.width {
        AccessWidth::Byte => 0x100,
        AccessWidth::Word => 0x1_0000,
        AccessWidth::Dword => 0x1_0000_0000,
        AccessWidth::Qword => 0x1_0000_0000_0000_0000,
    }
}

/// The number that the bytes of an access spell, least significant first.
pub open spec fn spelled(bytes: Seq<u8>, access: PciBarAccess) -> int {
    let o = access.offset as int;
    bytes[o] + (if width_of(access) >= 2 {
        0x100 * bytes[o + 1]
    } else {
        0
    }) + (if width_of(access) >= 4 {
        0x1_0000 * bytes[o + 2] + 0x100_0000 * bytes[o + 3]
    } else {
        0
    }) + (if width_of(access) >= 8 {
        0x1_0000_0000 * bytes[o + 4] + 0x100_0000_0000 * bytes[o + 5] + 0x1_0000_0000_0000
            * bytes[o + 6] + 0x100_0000_0000_0000 * bytes[o + 7]
    } else {
        0
    })
}

/// Eight bytes or fewer spell the sum of their bytes by weight.
proof fn lemma_spelled(bytes: Seq<u8>)
    requires
        bytes.len() == 1 || bytes.len() == 2 || bytes.len() == 4 || bytes.len() == 8,
    ensures
        le::le_value(bytes) == bytes[0] + (if bytes.len() >= 2 {
            0x100 * bytes[1]
        } else {
            0
        }) + (if bytes.len() >= 4 {
            0x1_0000 * bytes[2] + 0x100_0000 * bytes[3]
        } else {
            0
        }) + (if bytes.len() >= 8 {
            0x1_0000_0000 * bytes[4] + 0x100_0000_0000 * bytes[5] + 0x1_0000_0000_0000 * bytes[6]
                + 0x100_0000_0000_0000 * bytes[7]
        } else {
            0
        }),
{
    if bytes.len() == 1 {
        lemma_next_value(bytes);
    } else {
        lemma_next_value(bytes);
        lemma_next_value(bytes.skip(1));
        assert(bytes.skip(1).skip(1) =~= bytes.skip(2));
        if bytes.len() >= 4 {
            lemma_next_value(bytes.skip(2));
            assert(bytes.skip(2).skip(1) =~= bytes.skip(3));
            lemma_next_value(bytes.skip(3));
            assert(bytes.skip(3).skip(1) =~= bytes.skip(4));
        }
        if bytes.len() >= 8 {
            lemma_next_value(bytes.skip(4));
            assert(bytes.skip(4).skip(1) =~= bytes.skip(5));
            lemma_next_value(bytes.skip(5));
            assert(bytes.skip(5).skip(1) =~= bytes.skip(6));
            lemma_next_value(bytes.skip(6));
            assert(bytes.skip(6).skip(1) =~= bytes.skip(7));
            lemma_next_value(bytes.skip(7));
        }
    }
}

proof fn lemma_next_value(bytes: Seq<u8>)
    requires
        bytes.len() > 0,
    ensures
        le::le_value(bytes) == bytes[0] + 256 * le::le_value(bytes.skip(1)),
        bytes.len() == 1 ==> le::le_value(bytes.skip(1)) == 0,
{
    if bytes.len() == 1 {
        assert(bytes.skip(1).len() == 0);
    }
}

/// A BAR2 read on an active link gives, for each width, the little-endian number
/// of exactly the bytes that it covers, whoever reads; it fails exactly when the
/// link is inactive or the access leaves the 64 KiB.
pub proof fn law_shared_reads_give_the_covered_bytes(
    registers: IvshmemRegisters,
    peer: PeerId,
    link: LinkView,
    access: PciBarAccess,
)
    requires
        link.wf(),
        access.bar.0 == 2,
    ensures
        match endpoint::read_outcome(registers, peer, link, access) {
            Ok(value) => {
                &&& link.peers is Some
                &&& access.offset + width_of(access) <= 0x1_0000
                &&& value == spelled(link.bytes, access)
            },
            Err(_) => link.peers is None || access.offset + width_of(access) > 0x1_0000,
        },
{
    if access.offset + width_of(access) <= 0x1_0000 {
        let bytes = link.bytes.subrange(
            access.offset as int,
            access.offset + access.width.bytes(),
        );
        assert(bytes.len() == width_of(access));
        lemma_spelled(bytes);
    }
}

/// Peers read what was written: after a BAR2 write that stored something, a read
/// of the same offset and width by any peer gives the value, cut to the width.
pub proof fn law_shared_reads_give_back_what_was_written(
    registers: IvshmemRegisters,
    writer: PeerId,
    link: IvshmemLink,
    access: PciBarAccess,
    value: u64,
    others: IvshmemRegisters,
    reader: PeerId,
    read: PciBarAccess,
)
    requires
        link.wf(),
        access.bar.0 == 2,
        endpoint::write_outcome(registers, writer, link@, link.layout, access, value).result is Ok,
        link.layout.section_at(access.offset as int) != Bar2Section::Reserved,
        read.bar.0 == 2,
        read.offset == access.offset,
        read.width == access.width,
    ensures
        ({
            let after = endpoint::write_outcome(
                registers,
                writer,
                link@,
                link.layout,
                access,
                value,
            ).link;
            endpoint::read_outcome(others, reader, after, read) == Ok::<nat, DeviceErrorView>(
                (value as int % values_of(access)) as nat,
            )
        }),
{
    let width = access.width.bytes();
    le::law_read_after_write(link@.bytes, access.offset as int, width, value as nat);
    le::lemma_spans();
}

/// The offset may be written by the peer through BAR2: it lies in the common
/// section behind the first page, or in the peer's own output section behind it.
pub open spec fn may_write(profile: LinkProfile, peer: PeerId, o: int) -> bool {
    let outputs = 0x1000 + profile.common_size;
    ||| 0x1000 <= o < outputs
    ||| peer.0 < profile.max_peers && outputs + peer.0 * profile.output_size <= o < outputs
        + peer.0 * profile.output_size + profile.output_size
}

/// The offset belongs to no section: it lies behind the last output section.
pub open spec fn is_tail(profile: LinkProfile, o: int) -> bool {
    o >= 0x1000 + profile.common_size + profile.max_peers * profile.output_size
}

/// A section allows a write exactly where the numbers of the profile do, and the
/// reserved rest is what lies behind the last output section.
pub proof fn law_sections_follow_the_profile(link: IvshmemLink, peer: PeerId, o: int)
    requires
        link.wf(),
        0 <= o,
    ensures
        link.layout.section_at(o).writable_by(peer) <==> may_write(link.profile, peer, o),
        link.layout.section_at(o) == Bar2Section::Reserved <==> is_tail(link.profile, o),
        link.layout.section_at(o) == Bar2Section::StateTable <==> o < 0x1000,
        may_write(link.profile, peer, o) || is_tail(link.profile, o) ==> 0x1000 <= o,
        !is_tail(link.profile, o) ==> o < 0x1_0000,
{
    let profile = link.profile;
    let layout = link.layout;
    layout::law_derived_layouts_validate(layout, profile);
    layout::law_sections_own_their_offsets(layout, o);
    assert(layout.outputs@.len() == profile.max_peers);
    mul::lemma_mul_nonnegative(profile.max_peers as int, profile.output_size as int);
    assert forall|i: int| 0 <= i < profile.max_peers implies (#[trigger] layout.outputs@[i]).offset
        == 0x1000 + profile.common_size + i * profile.output_size && layout.outputs@[i].size
        == profile.output_size && layout.outputs@[i].end() <= 0x1000 + profile.common_size
        + profile.max_peers * profile.output_size by {
        layout::lemma_output_bounds(layout.bar2_size, profile, i);
        mul::lemma_mul_inequality(i + 1, profile.max_peers as int, profile.output_size as int);
        mul::lemma_mul_is_distributive_add_other_way(profile.output_size as int, i, 1);
        mul::lemma_mul_nonnegative(i, profile.output_size as int);
    }
    if peer.0 < profile.max_peers {
        assert(layout.outputs@[peer.0 as int].offset == 0x1000 + profile.common_size + peer.0
            * profile.output_size);
    }
    if !is_tail(profile, o) && o >= 0x1000 + profile.common_size {
        let distance = o - 0x1000 - profile.common_size;
        let size = profile.output_size as int;
        let i = distance / size;
        vstd::arithmetic::div_mod::lemma_fundamental_div_mod(distance, size);
        vstd::arithmetic::div_mod::lemma_mod_bound(distance, size);
        vstd::arithmetic::div_mod::lemma_div_pos_is_pos(distance, size);
        assert(i < profile.max_peers) by (nonlinear_arith)
            requires
                distance == size * i + distance % size,
                distance % size >= 0,
                distance < profile.max_peers * size,
                size > 0,
        ;
        mul::lemma_mul_is_commutative(size, i);
        assert(layout.outputs@[i].offset == 0x1000 + profile.common_size + i * profile.output_size);
        assert(layout.outputs@[i].holds(o));
    }
    match layout.section_at(o) {
        Bar2Section::Output(owner) => {
            assert(layout.outputs@[owner.0 as int].holds(o));
        },
        _ => {},
    }
    if is_tail(profile, o) {
        assert forall|i: int| 0 <= i < layout.outputs@.len() implies !(
        #[trigger] layout.outputs@[i]).holds(o) by {
            assert(layout.outputs@[i].end() <= 0x1000 + profile.common_size + profile.max_peers
                * profile.output_size);
        }
    }
}

/// A BAR2 write is ignored where its first byte lies behind the sections, stored
/// where the peer may write every byte of an active link, and denied elsewhere:
/// the bytes it covers then hold the value, least significant first, and no other
/// byte changes.
pub proof fn law_shared_writes_follow_the_profile(
    registers: IvshmemRegisters,
    peer: PeerId,
    link: IvshmemLink,
    access: PciBarAccess,
    value: u64,
    o: int,
)
    requires
        link.wf(),
        access.bar.0 == 2,
        0 <= o < 0x1_0000,
    ensures
        ({
            let outcome = endpoint::write_outcome(
                registers,
                peer,
                link@,
                link.layout,
                access,
                value,
            );
            let start = access.offset as int;
            let end = start + width_of(access);
            let allowed = forall|b: int|
                start <= b < end ==> #[trigger] may_write(link.profile, peer, b);
            &&& outcome.registers == registers
            &&& is_tail(link.profile, start) ==> outcome.result == Ok::<
                Option<DoorbellRoute>,
                DeviceErrorView,
            >(None) && outcome.link == link@
            &&& !is_tail(link.profile, start) ==> (outcome.result is Ok <==> allowed
                && link@.peers is Some)
            &&& outcome.result is Err ==> outcome.link == link@
            &&& (!is_tail(link.profile, start) && outcome.result is Ok) ==> {
                &&& outcome.result == Ok::<Option<DoorbellRoute>, DeviceErrorView>(None)
                &&& outcome.link.bytes[o] == (if start <= o < end {
                    digit(value as int, o - start)
                } else {
                    link@.bytes[o] as int
                })
                &&& outcome.link.peers == link@.peers
                &&& outcome.link.generation == link@.generation
            }
        }),
{
    let start = access.offset as int;
    let end = start + width_of(access);
    law_sections_follow_the_profile(link, peer, start);
    layout::lemma_first_refused(link.layout, peer, start, endpoint::access_end(access));
    assert forall|b: int| start <= b < end implies #[trigger] may_write(link.profile, peer, b)
        == link.layout.section_at(b).writable_by(peer) && (may_write(link.profile, peer, b) ==> b
        < 0x1_0000) by {
        law_sections_follow_the_profile(link, peer, b);
    }
    assert(may_write(link.profile, peer, end - 1) ==> end - 1 < 0x1_0000);
    match link.layout.first_refused(peer, start, endpoint::access_end(access)) {
        Some(refused) => {
            assert(!may_write(link.profile, peer, refused));
        },
        None => {
            if end <= 0x1_0000 {
                assert forall|b: int| start <= b < end implies #[trigger] may_write(
                    link.profile,
                    peer,
                    b,
                ) by {
                    assert(link.layout.section_at(b).writable_by(peer));
                }
            }
        },
    }
    if start <= o < end {
        lemma_digits(value as nat, o - start);
    }
}

/// BAR1 reads zero and ignores writes; accesses to any BAR but the first three
/// fail without effect.
pub proof fn law_other_bars_hold_nothing(
    registers: IvshmemRegisters,
    peer: PeerId,
    link: LinkView,
    layout: IvshmemMemoryLayout,
    access: PciBarAccess,
    value: u64,
)
    ensures
        ({
            let read = endpoint::read_outcome(registers, peer, link, access);
            let written = endpoint::write_outcome(registers, peer, link, layout, access, value);
            &&& access.bar.0 == 1 ==> read == Ok::<nat, DeviceErrorView>(0) && written.result
                == Ok::<Option<DoorbellRoute>, DeviceErrorView>(None)
            &&& access.bar.0 > 2 ==> read is Err && written.result is Err
            &&& access.bar.0 >= 1 && access.bar.0 != 2 ==> written.link == link
                && written.registers == registers
        }),
{
}

// ---------------------------------------------------------------------------
// Lifecycle
// ---------------------------------------------------------------------------

/// A peer can be reserved exactly when the link is active and its slot, within the
/// table, is vacant; an endpoint can attach exactly when the slot is reserved.
pub proof fn law_slots_open_in_turn(link: LinkView, peer: PeerId)
    requires
        link.wf(),
    ensures
        link.reserve_fault(peer) is None <==> link.peers is Some && peer.0 < link.profile.max_peers
            && (link.peers->0).slots[peer.0 as int] is Vacant,
        link.attach_fault(peer) is None <==> link.peers is Some && peer.0 < link.profile.max_peers
            && (link.peers->0).slots[peer.0 as int] is Reserved,
        link.publish_fault(peer) is None <==> link.peers is Some && peer.0
            < link.profile.max_peers,
{
}

/// Reserving, attaching, detaching and releasing change the slot of their own peer
/// only: vacant to reserved, reserved to attached with a new generation and no
/// sink, attached back to reserved without sink, and any to retired. The count of
/// attachments follows.
pub proof fn law_slot_transitions(
    peers: PeersView,
    peer: int,
    generation: u64,
    other: int,
)
    requires
        peers.slots.len() == peers.sinks.len(),
        0 <= peer < peers.slots.len(),
        0 <= other < peers.slots.len(),
        other != peer,
        peers.attached >= 0,
    ensures
        ({
            let reserved = peers.reserved(peer);
            let attached = peers.attached_to(peer);
            let detached = peers.detached(peer, generation);
            let released = peers.released(peer);
            let current = peers.slots[peer] == (PeerSlot::Attached { generation });
            &&& reserved.slots[peer] is Reserved
            &&& reserved.attached == peers.attached
            &&& reserved.sinks == peers.sinks
            &&& attached.slots[peer] is Attached
            &&& attached.sinks[peer] is None
            &&& attached.attached == peers.attached + 1
            &&& attached.slots[peer]->generation == attached.next_attachment_generation
            &&& attached.next_attachment_generation == (peers.next_attachment_generation + 1)
                % 0x1_0000_0000_0000_0000
            &&& reserved.next_attachment_generation == peers.next_attachment_generation
            &&& detached.next_attachment_generation == peers.next_attachment_generation
            &&& released.next_attachment_generation == peers.next_attachment_generation
            &&& detached.attached == (if peers.attached > 0 {
                peers.attached - 1
            } else {
                0
            })
            &&& current ==> detached.slots[peer] is Reserved && detached.sinks[peer] is None
            &&& !current ==> detached.slots == peers.slots && detached.sinks == peers.sinks
            &&& released.slots[peer] is Retired
            &&& released.attached == peers.attached
            &&& reserved.slots[other] == peers.slots[other]
            &&& attached.slots[other] == peers.slots[other]
            &&& attached.sinks[other] == peers.sinks[other]
            &&& detached.slots[other] == peers.slots[other]
            &&& detached.sinks[other] == peers.sinks[other]
            &&& released.slots[other] == peers.slots[other]
            &&& released.sinks == peers.sinks
            &&& reserved.slots.len() == attached.slots.len() == detached.slots.len()
                == released.slots.len() == peers.slots.len()
        }),
{
}

/// A lifecycle ends exactly when no endpoint is attached and no slot is reserved
/// or attached; it then leaves an inactive link with the next generation and zero
/// bytes. Otherwise the table is taken over and the bytes stay.
pub proof fn law_lifecycles_end_with_their_last_user(link: LinkView, peers: PeersView, o: int)
    requires
        link.wf(),
        link.generation.0 < u64::MAX,
        0 <= o < 0x1_0000,
    ensures
        ({
            let after = link.settled(peers);
            let ended = peers.attached == 0 && forall|i: int|
                0 <= i < peers.slots.len() ==> !((#[trigger] peers.slots[i]) is Reserved)
                    && !(peers.slots[i] is Attached);
            &&& after.id == link.id
            &&& after.profile == link.profile
            &&& after.allocation == link.allocation
            &&& after.ignored_doorbell == link.ignored_doorbell
            &&& after.bytes.len() == 0x1_0000
            &&& ended ==> after.peers is None && after.generation.0 == link.generation.0 + 1
                && after.bytes[o] == 0
            &&& !ended ==> after.peers == Some(peers) && after.generation == link.generation
                && after.bytes[o] == link.bytes[o]
        }),
{
    let ended = peers.attached == 0 && forall|i: int|
        0 <= i < peers.slots.len() ==> !((#[trigger] peers.slots[i]) is Reserved) && !(
        peers.slots[i] is Attached);
    if ended {
        assert forall|i: int| 0 <= i < peers.slots.len() implies link::idle(
            #[trigger] peers.slots[i],
        ) by {
        }
    }
    if peers.ended() {
        assert forall|i: int| 0 <= i < peers.slots.len() implies !((
        #[trigger] peers.slots[i]) is Reserved) && !(peers.slots[i] is Attached) by {
            assert(link::idle(peers.slots[i]));
        }
    }
}

/// A profile is valid exactly when it has 1 to 64 peers, a page-aligned common size
/// and a positive page-aligned output size.
pub proof fn law_profiles_are_page_aligned(max_peers: u16, common_size: u64, output_size: u64)
    ensures
        profile::profile_fault(max_peers, common_size, output_size) is None <==> 1 <= max_peers
            <= 64 && common_size % 0x1000 == 0 && output_size % 0x1000 == 0
            && output_size > 0,
{
}

/// A reservation of a link of a registry succeeds exactly when the profile is that
/// of the link, the link is active or gets memory, and the slot is vacant, as it is
/// after a new start; a new link needs memory and a profile that fits the BAR. On
/// success the slot of the peer is reserved and all other slots of an active link
/// are as they were.
pub proof fn law_reservations_take_a_vacant_slot(
    links: Seq<LinkView>,
    id: LinkId,
    peer: PeerId,
    profile: LinkProfile,
    allocation: Result<BackingAllocation, IvshmemError>,
    i: int,
    other: int,
)
    requires
        0 <= i < links.len(),
        links[i].id == id,
        links[i].wf(),
        forall|j: int| 0 <= j < links.len() && j != i ==> (#[trigger] links[j]).id != id,
        0 <= other < links[i].profile.max_peers,
        other != peer.0,
    ensures
        ({
            let (after, fault) = link::reserve_outcome(links, id, peer, profile, allocation);
            let possible = links[i].profile == profile && (links[i].peers is Some || allocation
                is Ok) && peer.0 < profile.max_peers && (links[i].peers matches Some(peers)
                ==> peers.slots[peer.0 as int] is Vacant);
            &&& fault is None <==> possible
            &&& after.len() == links.len()
            &&& possible ==> {
                &&& after[i].peers is Some
                &&& (after[i].peers->0).slots[peer.0 as int] is Reserved
                &&& links[i].peers matches Some(peers) ==> (after[i].peers->0).slots[other]
                    == peers.slots[other] && after[i].bytes == links[i].bytes
                &&& links[i].peers is None ==> (after[i].peers->0).slots[other] is Vacant
                    && after[i].allocation == allocation->Ok_0
                &&& after[i].generation == links[i].generation
            }
        }),
{
    lemma_link_index(links, id, 0, i);
}

proof fn lemma_link_index(links: Seq<LinkView>, id: LinkId, from: int, i: int)
    requires
        0 <= from <= i < links.len(),
        links[i].id == id,
        forall|j: int| 0 <= j < links.len() && j != i ==> (#[trigger] links[j]).id != id,
    ensures
        link::link_index(links, id, from) == Some(i),
    decreases i - from,
{
    if from < i {
        assert(links[from].id != id);
        lemma_link_index(links, id, from + 1, i);
    }
}

} // verus!
