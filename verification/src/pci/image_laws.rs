//! What the config image, the capability chain and the MSI-X window of a function
//! hold, byte by byte.

use crate::device::{AccessWidth, BusKind, DeviceAccess, DeviceResult};
use crate::le;
use crate::pci::bar;
use crate::pci::bar::{PciMemoryBarWidth, ResolvedBarPlan};
use crate::pci::capability;
use crate::pci::capability::CapabilityView;
use crate::pci::config;
use crate::pci::config::PowerOnView;
use crate::pci::ecam;
use crate::pci::function;
use crate::pci::function::PciEndpointIdentity;
use crate::pci::laws;
use crate::pci::memory;
use crate::pci::msix;
use crate::pci::msix::{MsixState, PciMsixDeclaration};
use crate::pci::root;
use crate::pci::state::FunctionView;
use std::ops::Range;
use vstd::prelude::*;

verus! {

// ---------------------------------------------------------------------------
// Config image
// ---------------------------------------------------------------------------

proof fn lemma_two_digits(value: u16)
    ensures
        le::byte_of(value as nat, 0) + 256 * le::byte_of(value as nat, 1) == value,
{
    le::lemma_spans();
    assert(value as nat / 1 == value as nat);
}

/// The header of a config image: vendor and device at 0 and 2, the capability bit
/// of the status at 6, revision and class at 8 to 11, the multifunction bit at 14,
/// the subsystem at 0x2c and 0x2e and the first capability at 0x34; the rest but
/// the BAR registers is zero. Only command bits 1, 2 and 10 can be written.
pub proof fn law_headers_describe_the_function(
    image: PowerOnView,
    identity: PciEndpointIdentity,
    plans: Seq<ResolvedBarPlan>,
    chain: Seq<CapabilityView>,
    multifunction: bool,
    o: int,
)
    requires
        image.describes(identity, plans, chain, multifunction),
        0 <= o < 0x40,
    ensures
        image.bytes.len() == 0x1000,
        image.write_mask.len() == 0x1000,
        image.bytes[0] + 256 * image.bytes[1] == identity.vendor_id,
        image.bytes[2] + 256 * image.bytes[3] == identity.device_id,
        image.bytes[6] == (if chain.len() > 0 {
            0x10int
        } else {
            0
        }),
        image.bytes[8] == identity.revision,
        image.bytes[9] == identity.class.programming_interface,
        image.bytes[10] == identity.class.subclass,
        image.bytes[11] == identity.class.base,
        image.bytes[14] == (if multifunction {
            0x80int
        } else {
            0
        }),
        image.bytes[0x2c] + 256 * image.bytes[0x2d] == identity.subsystem_vendor_id,
        image.bytes[0x2e] + 256 * image.bytes[0x2f] == identity.subsystem_id,
        image.bytes[0x34] == (if chain.len() > 0 {
            0x40int
        } else {
            0
        }),
        o == 4 || o == 5 || o == 7 || o == 12 || o == 13 || o == 15 || 0x28 <= o < 0x2c || 0x30 <= o
            < 0x34 || 0x35 <= o ==> image.bytes[o] == 0,
        image.write_mask[o] == (if o == 4 {
            6int
        } else if o == 5 {
            4
        } else {
            0
        }),
{
    lemma_two_digits(identity.vendor_id);
    lemma_two_digits(identity.device_id);
    lemma_two_digits(identity.subsystem_vendor_id);
    lemma_two_digits(identity.subsystem_id);
}

/// The number that four bytes of an image spell.
pub open spec fn dword_at(bytes: Seq<u8>, o: int) -> int {
    bytes[o] + 0x100 * bytes[o + 1] + 0x1_0000 * bytes[o + 2] + 0x100_0000 * bytes[o + 3]
}

/// The BAR registers of a config image hold the planned addresses: the low one with
/// bit 2 for a 64-bit BAR and bit 3 for prefetchable memory, the high one of a
/// 64-bit BAR the upper half; registers without BAR are zero.
pub proof fn law_headers_hold_the_planned_addresses(
    image: PowerOnView,
    identity: PciEndpointIdentity,
    plans: Seq<ResolvedBarPlan>,
    chain: Seq<CapabilityView>,
    multifunction: bool,
    i: int,
    o: int,
)
    requires
        config::plans_ok(plans),
        image.describes(identity, plans, chain, multifunction),
        0 <= i < plans.len(),
        0x10 <= o < 0x28,
    ensures
        ({
            let plan = plans[i];
            let register = 0x10 + 4 * plan.index.0;
            &&& dword_at(image.bytes, register) == plan.address as int % 0x1_0000_0000 + (
            if plan.width == PciMemoryBarWidth::Bits64 {
                4int
            } else {
                0
            }) + (if plan.prefetchable {
                8int
            } else {
                0
            })
            &&& plan.width == PciMemoryBarWidth::Bits64 ==> dword_at(image.bytes, register + 4)
                == plan.address as int / 0x1_0000_0000
        }),
        (forall|j: int|
            0 <= j < plans.len() ==> !(0x10 + 4 * (#[trigger] plans[j]).index.0 <= o < 0x10 + 4
                * plans[j].index.0 + (if plans[j].width == PciMemoryBarWidth::Bits64 {
                8int
            } else {
                4
            }))) ==> image.bytes[o] == 0,
{
    let plan = plans[i];
    assert(plan.wf());
    let register = 0x10 + 4 * plan.index.0;
    let state = bar::BarState {
        plan,
        address: plan.address,
        probe_low: false,
        probe_high: false,
    };
    laws::lemma_committed(state);
    let low = bar::low_dword(plan.address, plan.attributes()) as nat;
    let high = bar::high_dword(plan.address) as nat;
    assert forall|index: int| 0 <= index < 4 implies image.bytes[#[trigger] (register + index)]
        == le::byte_of(low, index as nat) by {
        lemma_plan_byte(image, identity, plans, chain, multifunction, i, index);
    }
    lemma_dword_of(image.bytes, register, low);
    if plan.width == PciMemoryBarWidth::Bits64 {
        assert forall|index: int|
            0 <= index < 4 implies image.bytes[#[trigger] (register + 4 + index)] == le::byte_of(
            high,
            index as nat,
        ) by {
            lemma_plan_byte(image, identity, plans, chain, multifunction, i, 4 + index);
        }
        lemma_dword_of(image.bytes, register + 4, high);
    }
    if forall|j: int|
        0 <= j < plans.len() ==> !(0x10 + 4 * (#[trigger] plans[j]).index.0 <= o < 0x10 + 4
            * plans[j].index.0 + (if plans[j].width == PciMemoryBarWidth::Bits64 {
            8int
        } else {
            4
        })) {
        let slot = (o - 0x10) / 4;
        if config::bar_at(plans, slot) is Some {
            let j = config::bar_at(plans, slot)->0;
            assert(0 <= j < plans.len() && config::owns_slot(plans[j], slot));
        }
    }
}

proof fn lemma_plan_byte(
    image: PowerOnView,
    identity: PciEndpointIdentity,
    plans: Seq<ResolvedBarPlan>,
    chain: Seq<CapabilityView>,
    multifunction: bool,
    i: int,
    index: int,
)
    requires
        config::plans_ok(plans),
        image.describes(identity, plans, chain, multifunction),
        0 <= i < plans.len(),
        0 <= index < 4 * bar::slots_of(plans[i].width),
    ensures
        image.bytes[0x10 + 4 * plans[i].index.0 + index] == config::plan_byte(plans[i], index),
{
    let plan = plans[i];
    assert(plan.wf());
    let o = 0x10 + 4 * plan.index.0 + index;
    let slot = (o - 0x10) / 4;
    assert(config::owns_slot(plan, slot));
    let chosen = config::bar_at(plans, slot)->0;
    assert(config::owns_slot(plans[chosen], slot));
    assert(chosen == i);
    assert(image.bytes[o] == config::header_byte(
        identity,
        plans,
        chain.len() > 0,
        multifunction,
        o,
    ));
}

proof fn lemma_dword_of(bytes: Seq<u8>, o: int, value: nat)
    requires
        value < 0x1_0000_0000,
        forall|index: int|
            0 <= index < 4 ==> bytes[#[trigger] (o + index)] == le::byte_of(value, index as nat),
    ensures
        dword_at(bytes, o) == value,
{
    le::lemma_spans();
    assert(bytes[o + 0] == le::byte_of(value, 0));
    assert(bytes[o + 1] == le::byte_of(value, 1));
    assert(bytes[o + 2] == le::byte_of(value, 2));
    assert(bytes[o + 3] == le::byte_of(value, 3));
    assert(value / 1 == value);
}

/// The capability chain of a config image: the first capability begins at 0x40,
/// each at a multiple of four with its identifier, the offset of the next one or
/// zero, and its body with its writable bits; the next one begins at the first
/// multiple of four behind the body. Behind the chain everything is read-only zero.
pub proof fn law_capabilities_form_a_chain(
    image: PowerOnView,
    identity: PciEndpointIdentity,
    plans: Seq<ResolvedBarPlan>,
    chain: Seq<CapabilityView>,
    multifunction: bool,
    k: int,
    r: int,
    o: int,
)
    requires
        image.describes(identity, plans, chain, multifunction),
        capability::chain_fits(chain, chain.len() as int),
        0 <= k < chain.len(),
        chain[k].wf(),
        0 <= r < chain[k].body.len(),
        capability::chain_offset(chain, chain.len() as int) <= o < 0x1000,
    ensures
        ({
            let at = capability::chain_offset(chain, k);
            let next = capability::chain_offset(chain, k + 1);
            &&& capability::chain_offset(chain, 0) == 0x40
            &&& at % 4 == 0
            &&& next % 4 == 0
            &&& at + 2 + chain[k].body.len() <= next < at + 2 + chain[k].body.len() + 4
            &&& next <= 0x100
            &&& image.bytes[at] == chain[k].id
            &&& image.bytes[at + 1] == (if k + 1 < chain.len() {
                next
            } else {
                0
            })
            &&& image.bytes[at + 2 + r] == chain[k].body[r]
            &&& image.write_mask[at] == 0
            &&& image.write_mask[at + 1] == 0
            &&& image.write_mask[at + 2 + r] == chain[k].write_mask[r]
            &&& image.bytes[o] == 0
            &&& image.write_mask[o] == 0
        }),
{
    let at = capability::chain_offset(chain, k);
    capability::lemma_chain_offset_grows(chain, k, k + 1);
    capability::lemma_chain_offset_grows(chain, k + 1, chain.len() as int);
    assert(image.bytes[at + 0] == config::unit_byte(chain, k, 0));
    assert(image.bytes[at + 1] == config::unit_byte(chain, k, 1));
    assert(image.bytes[at + (2 + r)] == config::unit_byte(chain, k, 2 + r));
    assert(image.write_mask[at + 0] == config::unit_mask(chain, k, 0));
    assert(image.write_mask[at + 1] == config::unit_mask(chain, k, 1));
    assert(image.write_mask[at + (2 + r)] == config::unit_mask(chain, k, 2 + r));
    if k + 1 < chain.len() {
        capability::lemma_chain_offset_grows(chain, k + 1, k + 2);
        capability::lemma_chain_offset_grows(chain, k + 2, chain.len() as int);
    }
}

/// A declared MSI-X capability comes first in the chain: identifier 0x11, the
/// number of vectors less one, the table at offset 0 and the pending bits at 0x800
/// of BAR 1; only the two top bits of the control word can be written.
pub proof fn law_msix_capabilities_come_first(
    capabilities: Seq<CapabilityView>,
    msix: PciMsixDeclaration,
    i: int,
)
    requires
        msix.wf(),
        0 <= i < capabilities.len(),
    ensures
        ({
            let chain = function::chain_of(capabilities, Some(msix));
            let first = chain[0];
            &&& chain.len() == capabilities.len() + 1
            &&& chain[i + 1] == capabilities[i]
            &&& function::chain_of(capabilities, None) == capabilities
            &&& first.id == 0x11
            &&& first.body.len() == 10
            &&& first.body[0] + 256 * first.body[1] == msix.vectors - 1
            &&& dword_at(first.body, 2) == 1
            &&& dword_at(first.body, 6) == 0x801
            &&& first.write_mask =~= seq![0u8, 0xc0, 0, 0, 0, 0, 0, 0, 0, 0]
        }),
{
}

// ---------------------------------------------------------------------------
// MSI-X window
// ---------------------------------------------------------------------------

/// The dwords of the MSI-X window: address, upper address, data and vector control
/// at 0, 4, 8 and 12, the pending bits at 0x800 and zero elsewhere. A write to a
/// table word replaces it, a write to the pending bits clears the written ones, and
/// any other write changes nothing. Offsets must be multiples of four below 0x1000.
pub proof fn law_msix_windows_hold_table_and_pending_bits(
    state: MsixState,
    offset: u64,
    value: u32,
    operation: Seq<char>,
)
    ensures
        msix::msix_access_fault(operation, offset) is None <==> offset % 4 == 0 && offset < 0x1000,
        offset % 4 == 0 ==> state.bar_word(offset) == (if offset == 0 {
            state.table.message_address
        } else if offset == 4 {
            state.table.message_upper_address
        } else if offset == 8 {
            state.table.message_data
        } else if offset == 12 {
            state.table.vector_control
        } else if offset == 0x800 {
            state.pba
        } else {
            0
        }),
        offset % 4 == 0 ==> ({
            let after = state.after_bar_write(offset, value);
            &&& after.message_control == state.message_control
            &&& after.table.message_address == (if offset == 0 {
                value
            } else {
                state.table.message_address
            })
            &&& after.table.message_upper_address == (if offset == 4 {
                value
            } else {
                state.table.message_upper_address
            })
            &&& after.table.message_data == (if offset == 8 {
                value
            } else {
                state.table.message_data
            })
            &&& after.table.vector_control == (if offset == 12 {
                value
            } else {
                state.table.vector_control
            })
            &&& after.pba == (if offset == 0x800 {
                state.pba & !value
            } else {
                state.pba
            })
        }),
{
}

/// A message of vector zero can be sent exactly when bit 15 of the control word is
/// set, bit 14 is clear and bit 0 of the vector control is clear; other vectors
/// never can. Vector zero is pending while bit 0 of the pending bits is set.
pub proof fn law_msix_messages_are_gated(state: MsixState, vector: u16)
    ensures
        !state.blocks(vector) <==> vector == 0 && state.message_control & 0x8000 != 0
            && state.message_control & 0x4000 == 0 && state.table.vector_control & 1 == 0,
        state.is_pending(vector) <==> vector == 0 && state.pba & 1 != 0,
        MsixState::initial().message_control == 0,
        MsixState::initial().pba == 0,
        MsixState::initial().table.vector_control == 0,
        MsixState::initial().table.message_address == 0,
        MsixState::initial().table.message_upper_address == 0,
        MsixState::initial().table.message_data == 0,
{
}

// ---------------------------------------------------------------------------
// ECAM window
// ---------------------------------------------------------------------------

/// An access to the ECAM window fails exactly when it is no memory access, leaves
/// the window, is wider than a dword or is not aligned to its width. Otherwise the
/// distance from the window gives the register in its low 12 bits, the function in
/// the next three and the device in the next five, on bus zero.
pub proof fn law_ecam_addresses_name_device_function_register(
    window: Range<u64>,
    access: DeviceAccess,
)
    requires
        window.end == window.start + 0x10_0000,
        window.start % 0x1000 == 0,
    ensures
        ({
            let width: int = match access.width {
                AccessWidth::Byte => 1,
                AccessWidth::Word => 2,
                AccessWidth::Dword => 4,
                AccessWidth::Qword => 8,
            };
            let distance = access.address - window.start;
            let bdf = ecam::decoded_bdf(distance);
            let register = ecam::decoded_offset(distance).0 as int;
            &&& ecam::ecam_fault(window, access) is None <==> access.bus == BusKind::Mmio
                && window.start <= access.address && access.address + width <= window.end && width
                <= 4 && access.address as int % width == 0
            &&& (window.start <= access.address && access.address < window.end) ==> bdf.segment.0
                == 0 && bdf.bus == 0 && bdf.device * 0x8000 + bdf.function * 0x1000 + register
                == distance && bdf.device < 32 && bdf.function < 8 && 0 <= register < 0x1000
        }),
{
    let distance = access.address - window.start;
    if window.start <= access.address && access.address < window.end {
        assert(distance / 0x8000 < 32);
        assert(distance / 0x1000 / 8 == distance / 0x8000);
        let register = distance % 0x1000;
        assert(access.address as int % 2 == register % 2);
        assert(access.address as int % 4 == register % 4);
        match access.width {
            AccessWidth::Byte => {},
            AccessWidth::Word => {},
            AccessWidth::Dword => {},
            AccessWidth::Qword => {},
        }
    }
}

/// An ECAM window and a memory aperture suit each other exactly when the window is
/// 1 MiB at a multiple of 1 MiB, the aperture is not empty and ends below 4 GiB, and
/// the two have no address in common.
pub proof fn law_host_windows_are_apart(ecam: Range<u64>, aperture: Range<u64>)
    ensures
        ecam::host_windows_fault(ecam, aperture) is None <==> ecam.start % 0x10_0000 == 0
            && ecam.end == ecam.start + 0x10_0000 && aperture.start < aperture.end && aperture.end
            <= 0x1_0000_0000 && (ecam.end <= aperture.start || aperture.end <= ecam.start),
{
}

// ---------------------------------------------------------------------------
// Reset
// ---------------------------------------------------------------------------

/// A reset returns every byte of the config space to its power-on value and every
/// BAR to its planned address without size probe; identity, plans and binding stay.
pub proof fn law_resets_restore_power_on(function: FunctionView, o: int, b: int)
    requires
        function.wf(),
        0 <= o < 0x1000,
        0 <= b < function.bars.len(),
    ensures
        ({
            let after = function.after_reset();
            &&& after.config[o] == function.power_on.bytes[o]
            &&& after.bars.len() == function.bars.len()
            &&& after.bars[b].address == function.bars[b].plan.address
            &&& after.bars[b].plan == function.bars[b].plan
            &&& !after.bars[b].probe_low
            &&& !after.bars[b].probe_high
            &&& after.binding == function.binding
            &&& after.bdf == function.bdf
            &&& after.id == function.id
            &&& after.power_on == function.power_on
        }),
{
}

/// A root reset names every bound function once, in the order of the functions,
/// with its handler and the command state that its power-on image holds.
pub proof fn law_resets_name_every_bound_function(functions: Seq<FunctionView>, k: int)
    requires
        0 <= k < functions.len(),
    ensures
        ({
            let targets = root::reset_targets(functions, functions.len() as int);
            let before = root::reset_targets(functions, k).len() as int;
            let with = root::reset_targets(functions, k + 1).len() as int;
            &&& root::reset_targets(functions, 0).len() == 0
            &&& functions[k].binding is None ==> with == before
            &&& functions[k].binding matches Some(binding) ==> {
                &&& with == before + 1
                &&& before < targets.len()
                &&& targets[before].0 == binding.handler
                &&& targets[before].1.memory_space_enabled == (functions[k].power_on.bytes[4] & 2
                    != 0)
                &&& targets[before].1.bus_master_enabled == (functions[k].power_on.bytes[4] & 4
                    != 0)
                &&& targets[before].1.intx_disabled == (functions[k].power_on.bytes[5] & 4 != 0)
            }
        }),
{
    lemma_targets_prefix(functions, k + 1, functions.len() as int);
    let shorter = root::reset_targets(functions, k + 1);
    let before = root::reset_targets(functions, k).len() as int;
    assert(root::reset_targets(functions, 0).len() == 0);
    if functions[k].binding is Some {
        assert(shorter.len() == before + 1);
        assert(shorter[before] == root::reset_targets(functions, functions.len() as int)[before]);
    }
}

proof fn lemma_targets_prefix(functions: Seq<FunctionView>, less: int, more: int)
    requires
        0 <= less <= more,
    ensures
        root::reset_targets(functions, less).len() <= root::reset_targets(functions, more).len(),
        forall|i: int|
            0 <= i < root::reset_targets(functions, less).len() ==> #[trigger] root::reset_targets(
                functions,
                less,
            )[i] == root::reset_targets(functions, more)[i],
    decreases more,
{
    if less < more {
        lemma_targets_prefix(functions, less, more - 1);
    }
}

/// A reset of all endpoints fails exactly when one of them fails, and then with the
/// failure of the first.
pub proof fn law_the_first_failure_is_the_outcome(outcomes: Seq<DeviceResult>, i: int)
    requires
        0 <= i < outcomes.len(),
        outcomes[i] is Err,
        forall|j: int| 0 <= j < i ==> (#[trigger] outcomes[j]) is Ok,
    ensures
        memory::first_failure(outcomes, 0) == Some((outcomes[i]->Err_0)@),
{
    lemma_first_failure(outcomes, 0, i);
}

proof fn lemma_first_failure(outcomes: Seq<DeviceResult>, from: int, i: int)
    requires
        0 <= from <= i < outcomes.len(),
        outcomes[i] is Err,
        forall|j: int| 0 <= j < i ==> (#[trigger] outcomes[j]) is Ok,
    ensures
        memory::first_failure(outcomes, from) == Some((outcomes[i]->Err_0)@),
    decreases i - from,
{
    if from < i {
        assert(outcomes[from] is Ok);
        lemma_first_failure(outcomes, from + 1, i);
    }
}

/// A reset of all endpoints succeeds where none fails.
pub proof fn law_resets_succeed_without_failure(outcomes: Seq<DeviceResult>)
    requires
        forall|j: int| 0 <= j < outcomes.len() ==> (#[trigger] outcomes[j]) is Ok,
    ensures
        memory::first_failure(outcomes, 0) is None,
{
    lemma_no_failure(outcomes, 0);
}

proof fn lemma_no_failure(outcomes: Seq<DeviceResult>, from: int)
    requires
        0 <= from <= outcomes.len(),
        forall|j: int| 0 <= j < outcomes.len() ==> (#[trigger] outcomes[j]) is Ok,
    ensures
        memory::first_failure(outcomes, from) is None,
    decreases outcomes.len() - from,
{
    if from < outcomes.len() {
        assert(outcomes[from] is Ok);
        lemma_no_failure(outcomes, from + 1);
    }
}

} // verus!
