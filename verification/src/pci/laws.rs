//! What a guest observes of the PCI config space and of the memory aperture.
//!
//! The laws speak of register contents, addresses and routes in plain numbers.

use crate::device::{AccessWidth, DeviceAccess};
use crate::le;
use crate::pci::address::PciBdf;
use crate::pci::bar;
use crate::pci::bar::{BarState, PciBarDecodePolicy, PciMemoryBarWidth};
use crate::pci::config;
use crate::pci::error::PciErrorView;
use crate::pci::root;
use crate::pci::root::{BarRoute, PciRootState};
use crate::pci::state;
use crate::pci::state::FunctionView;
use vstd::arithmetic::div_mod;
use vstd::arithmetic::mul;
use vstd::prelude::*;

verus! {

// ---------------------------------------------------------------------------
// Plain numbers
// ---------------------------------------------------------------------------

/// Digit `i` of a number in base 256, for the four lowest digits.
pub open spec fn digit(value: int, i: int) -> int {
    if i == 0 {
        value % 0x100
    } else if i == 1 {
        value / 0x100 % 0x100
    } else if i == 2 {
        value / 0x1_0000 % 0x100
    } else {
        value / 0x100_0000 % 0x100
    }
}

/// BAR `b` of function `k` exists.
pub open spec fn has_bar(root: PciRootState, k: int, b: int) -> bool {
    0 <= k < root.states().len() && 0 <= b < root.states()[k].bars.len()
}

/// The range of `size` bytes from `start` lies in the aperture and touches no BAR
/// but BAR `b` of function `k`; a range for a 32-bit BAR ends below 4 GiB.
pub open spec fn free_for(root: PciRootState, k: int, b: int, start: int, size: int) -> bool {
    &&& root.memory_aperture.start <= start
    &&& start + size <= root.memory_aperture.end
    &&& root.states()[k].bars[b].plan.width == PciMemoryBarWidth::Bits32 ==> start + size
        <= 0x1_0000_0000
    &&& forall|l: int, c: int|
        0 <= l < root.states().len() && 0 <= c < root.states()[l].bars.len() && !(l == k && c == b)
            ==> (#[trigger] root.states()[l].bars[c]).address + root.states()[l].bars[c].plan.size
            <= start || start + size <= root.states()[l].bars[c].address
}

/// The low register of a BAR that decodes at `address`: the address, with bit 2
/// for a 64-bit BAR and bit 3 for prefetchable memory.
pub open spec fn low_register(bar: BarState, address: int) -> int {
    address % 0x1_0000_0000 + (if bar.plan.width == PciMemoryBarWidth::Bits64 {
        4int
    } else {
        0
    }) + (if bar.plan.prefetchable {
        8int
    } else {
        0
    })
}

/// The config offset of the low register of a BAR.
pub open spec fn low_offset(bar: BarState) -> int {
    0x10 + 4 * bar.plan.index.0
}

// ---------------------------------------------------------------------------
// Helpers
// ---------------------------------------------------------------------------

/// The function found at an address of the root is the one that has it.
proof fn lemma_function_at(root: PciRootState, k: int)
    requires
        root.wf(),
        0 <= k < root.states().len(),
    ensures
        root::function_at(root.states(), root.states()[k].bdf) == Some(k),
{
    let states = root.states();
    let bdf = states[k].bdf;
    let chosen = root::function_at(states, bdf)->0;
    assert(states[chosen].bdf == bdf);
    if chosen < k {
        assert(states[chosen].bdf.rank() < states[k].bdf.rank());
    } else if chosen > k {
        assert(states[k].bdf.rank() < states[chosen].bdf.rank());
    }
}

/// The registers of a BAR address that BAR.
proof fn lemma_bar_register(function: FunctionView, b: int, high: bool, lane: int)
    requires
        function.wf(),
        0 <= b < function.bars.len(),
        high ==> function.bars[b].plan.width == PciMemoryBarWidth::Bits64,
        0 <= lane < 4,
    ensures
        function.bar_at(
            low_offset(function.bars[b]) + (if high {
                4int
            } else {
                0
            }) + lane,
        ) == Some((b, high)),
        low_offset(function.bars[b]) % 4 == 0,
        0x10 <= low_offset(function.bars[b]) <= 0x24,
        high ==> low_offset(function.bars[b]) <= 0x20,
{
    let plans = state::plans_of(function.bars);
    let slot = function.bars[b].plan.index.0 + (if high {
        1int
    } else {
        0
    });
    assert(function.bars[b].wf());
    assert(plans[b] == function.bars[b].plan);
    assert(config::owns_slot(plans[b], slot));
    let chosen = config::bar_at(plans, slot)->0;
    assert(config::owns_slot(plans[chosen], slot));
    assert(chosen == b);
}

/// A sound BAR decodes at a multiple of its size, and its size is a multiple of 16.
proof fn lemma_bar_numbers(bar: BarState)
    requires
        bar.wf(),
    ensures
        bar.plan.size >= 16,
        bar.plan.size % 16 == 0,
        bar.address as int % bar.plan.size as int == 0,
        bar.address % 16 == 0,
        bar.plan.address as int % bar.plan.size as int == 0,
        bar.plan.width == PciMemoryBarWidth::Bits32 ==> bar.address + bar.plan.size
            <= 0x1_0000_0000,
{
    bar::lemma_size_is_multiple_of_sixteen(bar.plan.size);
    lemma_multiples_chain(bar.address as int, bar.plan.size as int);
}

proof fn lemma_multiples_chain(value: int, size: int)
    requires
        size >= 16,
        size % 16 == 0,
        value % size == 0,
    ensures
        value % 16 == 0,
{
    let count = value / size;
    let share = size / 16;
    div_mod::lemma_fundamental_div_mod(value, size);
    assert(value == 16 * (share * count)) by (nonlinear_arith)
        requires
            value == size * count,
            size == 16 * share,
    ;
    div_mod::lemma_mod_multiples_basic(share * count, 16);
    assert(16 * (share * count) == (share * count) * 16);
}

/// Dropping the remainder by 16 first makes no difference to the remainder by a
/// multiple of 16.
#[verifier::spinoff_prover]
proof fn lemma_round_down(value: int, size: int)
    requires
        value >= 0,
        size >= 16,
        size % 16 == 0,
    ensures
        (value - value % 16) - (value - value % 16) % size == value - value % size,
{
    let count = value / size;
    let rest = value % size;
    let share = size / 16;
    div_mod::lemma_fundamental_div_mod(value, size);
    div_mod::lemma_mod_bound(value, size);
    assert(value == 16 * (share * count) + rest) by (nonlinear_arith)
        requires
            value == size * count + rest,
            size == 16 * share,
    ;
    let whole = share * count;
    assert(value % 16 == rest % 16);
    let low = rest - rest % 16;
    assert(value - value % 16 == count * size + low) by (nonlinear_arith)
        requires
            value == size * count + rest,
            value % 16 == rest % 16,
            low == rest - rest % 16,
    ;
    div_mod::lemma_fundamental_div_mod_converse_mod(value - value % 16, size, count, low);
}

/// A dword write replaces the whole register.
proof fn lemma_whole_dword(committed: nat, value: u32)
    ensures
        le::le_value(le::replaced_bytes(le::le_bytes(committed, 4), 0, 4, value as nat)) == value,
{
    assert(le::replaced_bytes(le::le_bytes(committed, 4), 0, 4, value as nat) =~= le::le_bytes(
        value as nat,
        4,
    ));
    le::law_bytes_round_trip(value as nat, 4);
    le::lemma_spans();
}

/// A dword read gives the whole register.
proof fn lemma_read_register(value: nat)
    requires
        value < 0x1_0000_0000,
    ensures
        le::le_value(le::le_bytes(value, 4).subrange(0, 4)) == value,
{
    assert(le::le_bytes(value, 4).subrange(0, 4) =~= le::le_bytes(value, 4));
    le::law_bytes_round_trip(value, 4);
    le::lemma_spans();
}

/// The registers of a BAR hold its address and its attributes.
pub proof fn lemma_committed(bar: BarState)
    requires
        bar.wf(),
    ensures
        bar.committed(false) == low_register(bar, bar.address as int),
        bar.committed(true) == bar.address as int / 0x1_0000_0000,
        0 <= bar.committed(false) < 0x1_0000_0000,
        0 <= bar.committed(true) < 0x1_0000_0000,
{
    lemma_bar_numbers(bar);
    let low = bar.address as int % 0x1_0000_0000;
    assert(low % 16 == 0);
    assert(low / 16 * 16 == low);
}

// ---------------------------------------------------------------------------
// BAR registers
// ---------------------------------------------------------------------------

/// The guest moves a BAR by writing its low register. The written dword asks for
/// an address, rounded down to a multiple of the BAR size; a relocatable BAR then
/// decodes there if the place is free, and stays where it is otherwise, while a
/// fixed BAR stays at its planned address. The register then reads the decoded
/// address, and nothing else changes.
#[verifier::spinoff_prover]
#[verifier::rlimit(30)]
pub proof fn law_low_writes_move_a_bar_to_the_written_address(
    root: PciRootState,
    k: int,
    b: int,
    value: u32,
)
    requires
        root.wf(),
        has_bar(root, k, b),
        value != 0xffff_ffff,
    ensures
        ({
            let states = root.states();
            let bar = states[k].bars[b];
            let asked = bar.address as int / 0x1_0000_0000 * 0x1_0000_0000 + value;
            let target = asked - asked % bar.plan.size as int;
            let after = root::config_written(
                states,
                root.memory_aperture,
                states[k].bdf,
                low_offset(bar),
                4,
                value as nat,
            );
            &&& after.len() == states.len()
            &&& after[k].bars[b].address == (if bar.plan.policy == PciBarDecodePolicy::Fixed {
                bar.plan.address as int
            } else if free_for(root, k, b, target, bar.plan.size as int) {
                target
            } else {
                bar.address as int
            })
            &&& root::config_value(after, states[k].bdf, low_offset(bar), 4) == low_register(
                bar,
                after[k].bars[b].address as int,
            )
            &&& only_bar_changed(states, after, k, b)
        }),
{
    let states = root.states();
    let bar = states[k].bars[b];
    let size = bar.plan.size as int;
    assert(states[k].wf());
    assert(bar.wf());
    lemma_function_at(root, k);
    lemma_bar_register(states[k], b, false, 0);
    lemma_bar_numbers(bar);
    lemma_whole_dword(bar.committed(false) as nat, value);
    lemma_candidate(bar, false, value);
    lemma_after_relocation(root, k, b, false, value, bar.candidate(false, value));
}

/// The address that a register of a BAR asks for when `value` is written to it.
pub open spec fn asked_address(bar: BarState, high: bool, value: u32) -> int {
    if high {
        bar.address as int % 0x1_0000_0000 + value * 0x1_0000_0000
    } else {
        bar.address as int / 0x1_0000_0000 * 0x1_0000_0000 + value
    }
}

#[verifier::spinoff_prover]
proof fn lemma_candidate(bar: BarState, high: bool, value: u32)
    requires
        bar.wf(),
    ensures
        ({
            let asked = asked_address(bar, high, value);
            let size = bar.plan.size as int;
            &&& bar.candidate(high, value) == asked - asked % size
            &&& 0 <= bar.candidate(high, value) <= u64::MAX
            &&& bar.candidate(high, value) % size == 0
        }),
{
    let size = bar.plan.size as int;
    let asked = asked_address(bar, high, value);
    lemma_bar_numbers(bar);
    if !high {
        lemma_low_part(bar.address as int / 0x1_0000_0000, value as int);
        lemma_round_down(asked, size);
    }
    lemma_rounding(asked, size);
}

/// Rounding a sum down to a multiple of 16 rounds its low part.
#[verifier::spinoff_prover]
proof fn lemma_low_part(high: int, low: int)
    requires
        low >= 0,
    ensures
        ({
            let sum = high * 0x1_0000_0000 + low;
            sum - sum % 16 == high * 0x1_0000_0000 + low / 16 * 16
        }),
{
    let sum = high * 0x1_0000_0000 + low;
    assert(sum == 16 * (high * 0x1000_0000) + low);
    assert(sum % 16 == low % 16);
}

proof fn lemma_rounding(asked: int, size: int)
    requires
        asked >= 0,
        size >= 1,
    ensures
        0 <= asked - asked % size <= asked,
        (asked - asked % size) % size == 0,
{
    div_mod::lemma_mod_bound(asked, size);
    div_mod::lemma_fundamental_div_mod(asked, size);
    div_mod::lemma_mod_multiples_basic(asked / size, size);
    mul::lemma_mul_is_commutative(asked / size, size);
    div_mod::lemma_div_pos_is_pos(asked, size);
    mul::lemma_mul_nonnegative(size, asked / size);
}

/// The guest moves a 64-bit BAR by writing its high register, likewise.
#[verifier::spinoff_prover]
#[verifier::rlimit(30)]
pub proof fn law_high_writes_move_a_bar_to_the_written_address(
    root: PciRootState,
    k: int,
    b: int,
    value: u32,
)
    requires
        root.wf(),
        has_bar(root, k, b),
        root.states()[k].bars[b].plan.width == PciMemoryBarWidth::Bits64,
        value != 0xffff_ffff,
    ensures
        ({
            let states = root.states();
            let bar = states[k].bars[b];
            let asked = bar.address as int % 0x1_0000_0000 + value * 0x1_0000_0000;
            let target = asked - asked % bar.plan.size as int;
            let after = root::config_written(
                states,
                root.memory_aperture,
                states[k].bdf,
                low_offset(bar) + 4,
                4,
                value as nat,
            );
            &&& after.len() == states.len()
            &&& after[k].bars[b].address == (if bar.plan.policy == PciBarDecodePolicy::Fixed {
                bar.plan.address as int
            } else if free_for(root, k, b, target, bar.plan.size as int) {
                target
            } else {
                bar.address as int
            })
            &&& root::config_value(after, states[k].bdf, low_offset(bar) + 4, 4)
                == after[k].bars[b].address as int / 0x1_0000_0000
            &&& only_bar_changed(states, after, k, b)
        }),
{
    let states = root.states();
    let bar = states[k].bars[b];
    let size = bar.plan.size as int;
    assert(states[k].wf());
    assert(bar.wf());
    lemma_function_at(root, k);
    lemma_bar_register(states[k], b, true, 0);
    lemma_bar_numbers(bar);
    lemma_whole_dword(bar.committed(true) as nat, value);
    lemma_candidate(bar, true, value);
    lemma_after_relocation(root, k, b, true, value, bar.candidate(true, value));
}

/// Of a list of functions, only the address and the size probes of one BAR differ.
pub open spec fn only_bar_changed(
    before: Seq<FunctionView>,
    after: Seq<FunctionView>,
    k: int,
    b: int,
) -> bool {
    &&& after.len() == before.len()
    &&& after[k].bars.len() == before[k].bars.len()
    &&& after[k].bars[b].plan == before[k].bars[b].plan
    &&& forall|l: int| 0 <= l < before.len() && l != k ==> #[trigger] after[l] == before[l]
    &&& forall|c: int|
        0 <= c < before[k].bars.len() && c != b ==> #[trigger] after[k].bars[c]
            == before[k].bars[c]
    &&& after[k].id == before[k].id
    &&& after[k].bdf == before[k].bdf
    &&& after[k].config == before[k].config
    &&& after[k].power_on == before[k].power_on
    &&& after[k].msix == before[k].msix
    &&& after[k].binding == before[k].binding
}

proof fn lemma_after_relocation(
    root: PciRootState,
    k: int,
    b: int,
    high: bool,
    value: u32,
    target: int,
)
    requires
        root.wf(),
        has_bar(root, k, b),
        high ==> root.states()[k].bars[b].plan.width == PciMemoryBarWidth::Bits64,
        value != 0xffff_ffff,
        0 <= target <= u64::MAX,
        target % root.states()[k].bars[b].plan.size as int == 0,
        target == root.states()[k].bars[b].candidate(high, value),
        root.states()[k].merged_dword(
            b,
            high,
            low_offset(root.states()[k].bars[b]) + (if high {
                4int
            } else {
                0
            }),
            4,
            value as nat,
        ) == value,
    ensures
        ({
            let states = root.states();
            let bar = states[k].bars[b];
            let offset = low_offset(bar) + (if high {
                4int
            } else {
                0
            });
            let after = root::config_written(
                states,
                root.memory_aperture,
                states[k].bdf,
                offset,
                4,
                value as nat,
            );
            &&& after.len() == states.len()
            &&& after[k].bars[b].address == (if bar.plan.policy == PciBarDecodePolicy::Fixed {
                bar.plan.address as int
            } else if free_for(root, k, b, target, bar.plan.size as int) {
                target
            } else {
                bar.address as int
            })
            &&& root::config_value(after, states[k].bdf, offset, 4) == (if high {
                after[k].bars[b].address as int / 0x1_0000_0000
            } else {
                low_register(bar, after[k].bars[b].address as int)
            })
            &&& only_bar_changed(states, after, k, b)
        }),
{
    let states = root.states();
    let bar = states[k].bars[b];
    let offset = low_offset(bar) + (if high {
        4int
    } else {
        0
    });
    assert(states[k].wf());
    assert(bar.wf());
    lemma_function_at(root, k);
    lemma_bar_register(states[k], b, high, 0);
    lemma_bar_numbers(bar);
    lemma_bar_count(root, k);
    lemma_free_is_available(root, k, b, target as u64);
    let accepted = if root::grants(states, root.memory_aperture, k, b, target as u64) {
        Some(target as u64)
    } else {
        None
    };
    let moved = bar.relocated(high, accepted);
    let function = FunctionView { bars: states[k].bars.update(b, moved), ..states[k] };
    let after = root::config_written(
        states,
        root.memory_aperture,
        states[k].bdf,
        offset,
        4,
        value as nat,
    );
    assert(after == states.update(k, function));
    assert(moved.wf());
    lemma_committed(moved);
    assert forall|l: int| 0 <= l < states.len() && l != k implies (#[trigger] states[l]).bdf
        != states[k].bdf by {
        lemma_function_at(root, l);
    }
    lemma_read_back(states, after, k, b, high, offset);
}

/// The BARs of a function can be counted by the machine.
proof fn lemma_bar_count(root: PciRootState, k: int)
    requires
        0 <= k < root.states().len(),
    ensures
        root.states()[k].bars.len() <= usize::MAX,
{
    assert(root.functions@[k].bars.len() == root.states()[k].bars.len());
}

/// A multiple of the BAR size is available exactly when the place is free.
proof fn lemma_free_is_available(root: PciRootState, k: int, b: int, target: u64)
    requires
        root.wf(),
        has_bar(root, k, b),
        target as int % root.states()[k].bars[b].plan.size as int == 0,
    ensures
        root::available(root.states(), root.memory_aperture, k, b, target) <==> free_for(
            root,
            k,
            b,
            target as int,
            root.states()[k].bars[b].plan.size as int,
        ),
{
    let states = root.states();
    let bar = states[k].bars[b];
    assert forall|l: int, c: int|
        0 <= l < states.len() && 0 <= c < states[l].bars.len() implies root::overlaps_range(
        #[trigger] states[l].bars[c],
        target as int,
        target + bar.plan.size,
    ) == !(states[l].bars[c].address + states[l].bars[c].plan.size <= target || target
        + bar.plan.size <= states[l].bars[c].address) by {
    }
    if root::available(states, root.memory_aperture, k, b, target) {
        assert forall|l: int, c: int|
            0 <= l < states.len() && 0 <= c < states[l].bars.len() && !(l == k && c == b) implies (
        #[trigger] states[l].bars[c]).address + states[l].bars[c].plan.size <= target || target
            + bar.plan.size <= states[l].bars[c].address by {
            assert(!root::overlaps_range(
                states[l].bars[c],
                target as int,
                target + bar.plan.size,
            ));
        }
    }
}

/// After a relocation write the register reads its committed contents.
proof fn lemma_read_back(
    before: Seq<FunctionView>,
    after: Seq<FunctionView>,
    k: int,
    b: int,
    high: bool,
    offset: int,
)
    requires
        0 <= k < before.len(),
        after.len() == before.len(),
        forall|l: int| 0 <= l < before.len() ==> (#[trigger] after[l]).bdf == before[l].bdf,
        root::function_at(before, before[k].bdf) == Some(k),
        forall|l: int|
            0 <= l < before.len() && l != k ==> (#[trigger] before[l]).bdf != before[k].bdf,
        before[k].bar_at(offset) == Some((b, high)),
        offset % 4 == 0,
        0 <= b < before[k].bars.len(),
        after[k].bars.len() == before[k].bars.len(),
        forall|c: int|
            0 <= c < before[k].bars.len() ==> (#[trigger] after[k].bars[c]).plan
                == before[k].bars[c].plan,
        0 <= after[k].bars[b].visible(high) < 0x1_0000_0000,
    ensures
        root::config_value(after, before[k].bdf, offset, 4) == after[k].bars[b].visible(high),
{
    assert(state::plans_of(after[k].bars) =~= state::plans_of(before[k].bars));
    assert(after[k].bdf == before[k].bdf);
    let chosen = root::function_at(after, before[k].bdf)->0;
    assert(after[chosen].bdf == before[chosen].bdf);
    assert(chosen == k);
    lemma_read_register(after[k].bars[b].visible(high) as nat);
}

/// The number of values of up to four bytes.
pub open spec fn values_of(count: int) -> int {
    if count == 0 {
        1
    } else if count == 1 {
        0x100
    } else if count == 2 {
        0x1_0000
    } else if count == 3 {
        0x100_0000
    } else {
        0x1_0000_0000
    }
}

/// The register of a BAR half: the low one, or the high one of a 64-bit BAR.
pub open spec fn register_offset(bar: BarState, high: bool) -> int {
    if high {
        low_offset(bar) + 4
    } else {
        low_offset(bar)
    }
}

/// What the register of a BAR half holds of the decoded address.
pub open spec fn register_value(bar: BarState, high: bool) -> int {
    if high {
        bar.address as int / 0x1_0000_0000
    } else {
        low_register(bar, bar.address as int)
    }
}

/// What a size probe answers: the complement of the size less one in 64 bits,
/// with the attributes in the low register.
pub open spec fn size_answer(bar: BarState, high: bool) -> int {
    if high {
        0xffff_ffff - (bar.plan.size - 1) / 0x1_0000_0000
    } else {
        low_register(bar, 0x1_0000_0000_0000_0000 - bar.plan.size)
    }
}

/// The half of the BAR exists.
pub open spec fn has_half(bar: BarState, high: bool) -> bool {
    high ==> bar.plan.width == PciMemoryBarWidth::Bits64
}

/// No register of the function's BARs holds the config offset.
pub open spec fn outside_bars(function: FunctionView, offset: int) -> bool {
    forall|b: int|
        0 <= b < function.bars.len() ==> !(low_offset(#[trigger] function.bars[b]) <= offset
            < low_offset(function.bars[b]) + (if function.bars[b].plan.width
            == PciMemoryBarWidth::Bits64 {
            8int
        } else {
            4
        }))
}

proof fn lemma_digits(value: nat, i: int)
    requires
        0 <= i < 4,
    ensures
        le::byte_of(value, i as nat) == digit(value as int, i),
{
    le::lemma_spans();
    assert(value / 1 == value);
}

/// Bytes `lane..lane + size` of a dword spell the dword without its lower bytes,
/// modulo the size.
proof fn lemma_lanes(value: nat, lane: nat, size: nat)
    requires
        lane + size <= 4,
        value < 0x1_0000_0000,
    ensures
        le::le_value(le::le_bytes(value, 4).subrange(lane as int, (lane + size) as int)) == value as int
            / values_of(lane as int) % values_of(size as int),
{
    le::lemma_spans();
    let rest = value / le::byte_span(lane);
    assert(le::byte_span(lane) == values_of(lane as int));
    assert(le::byte_span(size) == values_of(size as int));
    assert forall|i: int| 0 <= i < size implies le::le_bytes(value, 4).subrange(
        lane as int,
        (lane + size) as int,
    )[i] == le::le_bytes(rest, size)[i] by {
        le::lemma_span_positive(lane);
        le::lemma_span_positive(i as nat);
        div_mod::lemma_div_denominator(
            value as int,
            le::byte_span(lane) as int,
            le::byte_span(i as nat) as int,
        );
        lemma_span_product(lane, i as nat);
    }
    assert(le::le_bytes(value, 4).subrange(lane as int, (lane + size) as int) =~= le::le_bytes(
        rest,
        size,
    ));
    le::law_bytes_round_trip(rest, size);
}

proof fn lemma_span_product(left: nat, right: nat)
    ensures
        le::byte_span(left) * le::byte_span(right) == le::byte_span(left + right),
    decreases left,
{
    if left > 0 {
        lemma_span_product((left - 1) as nat, right);
        assert(256 * le::byte_span((left - 1) as nat) * le::byte_span(right) == 256 * (le::byte_span(
            (left - 1) as nat,
        ) * le::byte_span(right))) by (nonlinear_arith);
        assert(le::byte_span(left) * le::byte_span(right) == 256 * le::byte_span(
            (left - 1) as nat + right,
        ));
    } else {
        assert(1 * le::byte_span(right) == le::byte_span(right));
    }
}

/// What a config read of a BAR register gives in one place.
proof fn lemma_bar_read(root: PciRootState, k: int, b: int, high: bool, lane: int, size: int)
    requires
        root.wf(),
        has_bar(root, k, b),
        has_half(root.states()[k].bars[b], high),
        0 <= lane,
        0 <= size,
        lane < 4,
        lane + size <= 4,
        0 <= root.states()[k].bars[b].visible(high) < 0x1_0000_0000,
    ensures
        root::config_value(
            root.states(),
            root.states()[k].bdf,
            register_offset(root.states()[k].bars[b], high) + lane,
            size,
        ) == root.states()[k].bars[b].visible(high) / values_of(lane) % values_of(size),
{
    let states = root.states();
    assert(states[k].wf());
    lemma_function_at(root, k);
    lemma_bar_register(states[k], b, high, lane);
    lemma_lanes(states[k].bars[b].visible(high) as nat, lane as nat, size as nat);
}

proof fn lemma_visible(bar: BarState, high: bool)
    requires
        bar.wf(),
        has_half(bar, high),
    ensures
        bar.visible(high) == (if (if high {
            bar.probe_high
        } else {
            bar.probe_low
        }) {
            size_answer(bar, high)
        } else {
            register_value(bar, high)
        }),
        0 <= bar.visible(high) < 0x1_0000_0000,
{
    lemma_committed(bar);
    lemma_probe_answer(bar, high);
}

proof fn lemma_bar_dword(root: PciRootState, k: int, b: int, high: bool)
    requires
        root.wf(),
        has_bar(root, k, b),
        has_half(root.states()[k].bars[b], high),
        0 <= root.states()[k].bars[b].visible(high) < 0x1_0000_0000,
    ensures
        root::config_value(
            root.states(),
            root.states()[k].bdf,
            register_offset(root.states()[k].bars[b], high),
            4,
        ) == root.states()[k].bars[b].visible(high),
{
    lemma_bar_read(root, k, b, high, 0, 4);
}

/// A BAR register reads the decoded address with its attributes, or, while a size
/// probe of that register is latched, the size; a narrower read gives the bytes
/// of that dword which it covers.
pub proof fn law_bar_registers_read_the_address_or_the_size(
    root: PciRootState,
    k: int,
    b: int,
    high: bool,
    lane: int,
    size: int,
)
    requires
        root.wf(),
        has_bar(root, k, b),
        has_half(root.states()[k].bars[b], high),
        size == 1 || size == 2 || size == 4,
        0 <= lane,
        lane + size <= 4,
    ensures
        ({
            let states = root.states();
            let bar = states[k].bars[b];
            let latched = if high {
                bar.probe_high
            } else {
                bar.probe_low
            };
            let dword = if latched {
                size_answer(bar, high)
            } else {
                register_value(bar, high)
            };
            &&& 0 <= dword < 0x1_0000_0000
            &&& root::config_value(states, states[k].bdf, register_offset(bar, high), 4) == dword
            &&& root::config_value(states, states[k].bdf, register_offset(bar, high) + lane, size)
                == dword / values_of(lane) % values_of(size)
        }),
{
    let bar = root.states()[k].bars[b];
    assert(root.states()[k].wf());
    lemma_visible(bar, high);
    lemma_bar_dword(root, k, b, high);
    lemma_bar_read(root, k, b, high, lane, size);
}

#[verifier::spinoff_prover]
proof fn lemma_probe_answer(bar: BarState, high: bool)
    requires
        bar.wf(),
        has_half(bar, high),
    ensures
        bar.probe_response(high) == size_answer(bar, high),
        0 <= size_answer(bar, high) < 0x1_0000_0000,
{
    lemma_bar_numbers(bar);
    let mask = 0x1_0000_0000_0000_0000 - bar.plan.size;
    assert(mask % 16 == 0);
    assert(mask % 0x1_0000_0000 % 16 == 0);
}

/// A dword of ones at a BAR register latches the probe of that register.
#[verifier::spinoff_prover]
proof fn lemma_probe_written(root: PciRootState, k: int, b: int, high: bool)
    requires
        root.wf(),
        has_bar(root, k, b),
        has_half(root.states()[k].bars[b], high),
    ensures
        root::config_written(
            root.states(),
            root.memory_aperture,
            root.states()[k].bdf,
            register_offset(root.states()[k].bars[b], high),
            4,
            0xffff_ffff,
        ) == root.states().update(
            k,
            (FunctionView {
                bars: root.states()[k].bars.update(b, state::probed(root.states()[k].bars[b], high)),
                ..root.states()[k]
            }),
        ),
{
    let states = root.states();
    let bar = states[k].bars[b];
    assert(states[k].wf());
    assert(bar.wf());
    lemma_function_at(root, k);
    lemma_bar_register(states[k], b, high, 0);
    lemma_bar_numbers(bar);
    lemma_bar_count(root, k);
    lemma_whole_dword(bar.committed(high) as nat, 0xffff_ffff);
}

#[verifier::spinoff_prover]
proof fn lemma_probed_visible(bar: BarState, high: bool)
    requires
        bar.wf(),
        has_half(bar, high),
    ensures
        state::probed(bar, high).visible(high) == size_answer(bar, high),
        state::probed(bar, high).address == bar.address,
        state::probed(bar, high).plan == bar.plan,
        0 <= size_answer(bar, high) < 0x1_0000_0000,
        !high && bar.plan.size < 0x1_0000_0000 ==> 0x1_0000_0000 - (size_answer(bar, high)
            - size_answer(bar, high) % 16) == bar.plan.size,
{
    lemma_bar_numbers(bar);
    lemma_probe_answer(bar, high);
    lemma_probe_answer(state::probed(bar, high), high);
    if !high && bar.plan.size < 0x1_0000_0000 {
        lemma_low_answer(bar.plan.size as int, bar.plan.attributes());
    }
}

/// The address bits of a low answer are the complement of the size.
#[verifier::spinoff_prover]
proof fn lemma_low_answer(size: int, attributes: int)
    requires
        16 <= size < 0x1_0000_0000,
        size % 16 == 0,
        0 <= attributes < 16,
    ensures
        ({
            let answer = (0x1_0000_0000_0000_0000 - size) % 0x1_0000_0000 + attributes;
            0x1_0000_0000 - (answer - answer % 16) == size
        }),
{
    assert((0x1_0000_0000_0000_0000 - size) % 0x1_0000_0000 == 0x1_0000_0000 - size);
    let complement = 0x1_0000_0000 - size;
    assert(complement % 16 == 0);
    assert((complement + attributes) % 16 == attributes);
}

/// Writing all ones to a BAR register probes the size: the register then reads
/// the size answer, the BAR decodes where it did, and nothing else changes. For a
/// 32-bit BAR below 4 GiB, the complement of the address bits of the answer plus
/// one is the size.
#[verifier::spinoff_prover]
pub proof fn law_all_ones_probe_the_size(root: PciRootState, k: int, b: int, high: bool)
    requires
        root.wf(),
        has_bar(root, k, b),
        has_half(root.states()[k].bars[b], high),
    ensures
        ({
            let states = root.states();
            let bar = states[k].bars[b];
            let after = root::config_written(
                states,
                root.memory_aperture,
                states[k].bdf,
                register_offset(bar, high),
                4,
                0xffff_ffff,
            );
            let answer = root::config_value(after, states[k].bdf, register_offset(bar, high), 4);
            &&& after[k].bars[b].address == bar.address
            &&& only_bar_changed(states, after, k, b)
            &&& answer == size_answer(bar, high)
            &&& (!high && bar.plan.size < 0x1_0000_0000) ==> 0x1_0000_0000 - (answer - answer % 16)
                == bar.plan.size
        }),
{
    let states = root.states();
    let bar = states[k].bars[b];
    let offset = register_offset(bar, high);
    assert(states[k].wf());
    assert(bar.wf());
    lemma_function_at(root, k);
    lemma_bar_register(states[k], b, high, 0);
    lemma_probe_written(root, k, b, high);
    lemma_probed_visible(bar, high);
    let function = FunctionView {
        bars: states[k].bars.update(b, state::probed(bar, high)),
        ..states[k]
    };
    let after = states.update(k, function);
    assert forall|l: int| 0 <= l < states.len() && l != k implies (#[trigger] states[l]).bdf
        != states[k].bdf by {
        lemma_function_at(root, l);
    }
    lemma_read_back(states, after, k, b, high, offset);
}

proof fn lemma_merged_lanes(committed: nat, lane: int, size: int, value: nat, merged: u32)
    requires
        0 <= lane,
        0 <= size,
        lane + size <= 4,
        forall|i: int|
            0 <= i < 4 ==> #[trigger] digit(merged as int, i) == (if lane <= i < lane + size {
                digit(value as int, i - lane)
            } else {
                digit(committed as int, i)
            }),
    ensures
        le::le_value(le::replaced_bytes(le::le_bytes(committed, 4), lane, size, value)) == merged,
{
    let narrow = le::replaced_bytes(le::le_bytes(committed, 4), lane, size, value);
    assert forall|i: int| 0 <= i < 4 implies narrow[i] == le::le_bytes(merged as nat, 4)[i] by {
        lemma_digits(merged as nat, i);
        lemma_digits(committed, i);
        assert(digit(merged as int, i) == (if lane <= i < lane + size {
            digit(value as int, i - lane)
        } else {
            digit(committed as int, i)
        }));
        if lane <= i < lane + size {
            lemma_digits(value, i - lane);
        }
    }
    assert(narrow =~= le::le_bytes(merged as nat, 4));
    le::law_bytes_round_trip(merged as nat, 4);
    le::lemma_spans();
}

/// A narrow write to a BAR register acts as the dword write that puts the written
/// bytes into what the register holds of the decoded address.
#[verifier::spinoff_prover]
#[verifier::rlimit(30)]
pub proof fn law_narrow_bar_writes_act_as_the_merged_dword(
    root: PciRootState,
    k: int,
    b: int,
    high: bool,
    lane: int,
    size: int,
    value: u64,
    merged: u32,
)
    requires
        root.wf(),
        has_bar(root, k, b),
        has_half(root.states()[k].bars[b], high),
        size == 1 || size == 2 || size == 4,
        0 <= lane,
        lane + size <= 4,
        forall|i: int|
            0 <= i < 4 ==> #[trigger] digit(merged as int, i) == (if lane <= i < lane + size {
                digit(value as int, i - lane)
            } else {
                digit(register_value(root.states()[k].bars[b], high), i)
            }),
    ensures
        ({
            let states = root.states();
            let offset = register_offset(states[k].bars[b], high);
            &&& root::config_written(
                states,
                root.memory_aperture,
                states[k].bdf,
                offset + lane,
                size,
                value as nat,
            ) == root::config_written(
                states,
                root.memory_aperture,
                states[k].bdf,
                offset,
                4,
                merged as nat,
            )
            &&& root::config_effect(
                states,
                root.memory_aperture,
                states[k].bdf,
                offset + lane,
                size,
                value as nat,
            ) == root::config_effect(
                states,
                root.memory_aperture,
                states[k].bdf,
                offset,
                4,
                merged as nat,
            )
        }),
{
    let states = root.states();
    let bar = states[k].bars[b];
    let offset = register_offset(bar, high);
    assert(states[k].wf());
    assert(bar.wf());
    lemma_function_at(root, k);
    lemma_committed(bar);
    lemma_narrow_action(states[k], b, high, lane, size, value, merged);
    lemma_same_action(
        states,
        root.memory_aperture,
        k,
        (offset + lane, size, value as nat),
        (offset, 4, merged as nat),
    );
}

#[verifier::spinoff_prover]
#[verifier::rlimit(30)]
proof fn lemma_narrow_action(
    function: FunctionView,
    b: int,
    high: bool,
    lane: int,
    size: int,
    value: u64,
    merged: u32,
)
    requires
        function.wf(),
        0 <= b < function.bars.len(),
        has_half(function.bars[b], high),
        size == 1 || size == 2 || size == 4,
        0 <= lane,
        lane + size <= 4,
        0 <= function.bars[b].committed(high),
        forall|i: int|
            0 <= i < 4 ==> #[trigger] digit(merged as int, i) == (if lane <= i < lane + size {
                digit(value as int, i - lane)
            } else {
                digit(function.bars[b].committed(high), i)
            }),
    ensures
        ({
            let offset = register_offset(function.bars[b], high);
            &&& function.bar_write(offset + lane, size, value as nat) == function.bar_write(
                offset,
                4,
                merged as nat,
            )
            &&& function.bar_write(offset, 4, merged as nat) is Some
        }),
{
    let bar = function.bars[b];
    let offset = register_offset(bar, high);
    let committed = bar.committed(high) as nat;
    lemma_bar_register(function, b, high, lane);
    lemma_bar_register(function, b, high, 0);
    lemma_whole_dword(committed, merged);
    lemma_merged_lanes(committed, lane, size, value as nat, merged);
    assert((offset + lane) % 4 == lane);
    assert(offset % 4 == 0);
    assert(function.merged_dword(b, high, offset + lane, size, value as nat) == merged);
    assert(function.merged_dword(b, high, offset, 4, merged as nat) == merged);
}

/// Writes that ask the same of a BAR leave the same behind.
proof fn lemma_same_action(
    functions: Seq<FunctionView>,
    memory_aperture: std::ops::Range<u64>,
    k: int,
    one: (int, int, nat),
    other: (int, int, nat),
)
    requires
        functions[k].bar_write(one.0, one.1, one.2) == functions[k].bar_write(
            other.0,
            other.1,
            other.2,
        ),
        functions[k].bar_write(one.0, one.1, one.2) is Some,
    ensures
        root::written(functions, memory_aperture, k, one.0, one.1, one.2) == root::written(
            functions,
            memory_aperture,
            k,
            other.0,
            other.1,
            other.2,
        ),
        root::ignored_relocation(functions[k], one.0, one.1, one.2) == root::ignored_relocation(
            functions[k],
            other.0,
            other.1,
            other.2,
        ),
{
}

// ---------------------------------------------------------------------------
// Other registers
// ---------------------------------------------------------------------------

proof fn lemma_outside_bars(function: FunctionView, offset: int)
    requires
        function.wf(),
        outside_bars(function, offset),
    ensures
        function.bar_at(offset) is None,
{
    if function.bar_at(offset) is Some {
        let plans = state::plans_of(function.bars);
        let slot = (offset - 0x10) / 4;
        let b = config::bar_at(plans, slot)->0;
        assert(0 <= b < plans.len() && config::owns_slot(plans[b], slot));
        assert(plans[b] == function.bars[b].plan);
        assert(function.bars[b].wf());
        assert(low_offset(function.bars[b]) <= offset);
    }
}

/// A config read outside the BAR registers gives the bytes of the config space in
/// little-endian order.
pub proof fn law_config_reads_are_little_endian(root: PciRootState, k: int, offset: int, size: int)
    requires
        root.wf(),
        0 <= k < root.states().len(),
        outside_bars(root.states()[k], offset),
        size == 1 || size == 2 || size == 4,
        0 <= offset,
        offset + size <= 0x1000,
    ensures
        ({
            let states = root.states();
            let config = states[k].config;
            root::config_value(states, states[k].bdf, offset, size) == config[offset] + (if size
                >= 2 {
                0x100 * config[offset + 1]
            } else {
                0
            }) + (if size >= 4 {
                0x1_0000 * config[offset + 2] + 0x100_0000 * config[offset + 3]
            } else {
                0
            })
        }),
{
    let states = root.states();
    assert(states[k].wf());
    lemma_function_at(root, k);
    lemma_outside_bars(states[k], offset);
    lemma_spelled(states[k].config.subrange(offset, offset + size));
}

/// What up to four bytes spell.
proof fn lemma_spelled(bytes: Seq<u8>)
    requires
        bytes.len() == 1 || bytes.len() == 2 || bytes.len() == 4,
    ensures
        le::le_value(bytes) == bytes[0] + (if bytes.len() >= 2 {
            0x100 * bytes[1]
        } else {
            0
        }) + (if bytes.len() >= 4 {
            0x1_0000 * bytes[2] + 0x100_0000 * bytes[3]
        } else {
            0
        }),
{
    reveal_with_fuel(le::le_value, 5);
    if bytes.len() >= 2 {
        assert(bytes.skip(1)[0] == bytes[1]);
    }
    if bytes.len() >= 4 {
        assert(bytes.skip(1).skip(1)[0] == bytes[2]);
        assert(bytes.skip(1).skip(1).skip(1)[0] == bytes[3]);
    }
}

/// A config write outside the BAR registers replaces, in the bytes that it covers,
/// the writable bits by those of the value, and changes nothing else: no other
/// byte, no BAR and no other function.
#[verifier::spinoff_prover]
#[verifier::rlimit(30)]
pub proof fn law_config_writes_replace_the_writable_bits(
    root: PciRootState,
    k: int,
    offset: int,
    size: int,
    value: u64,
    o: int,
)
    requires
        root.wf(),
        0 <= k < root.states().len(),
        outside_bars(root.states()[k], offset),
        size == 1 || size == 2 || size == 4,
        0 <= offset,
        offset + size <= 0x1000,
        0 <= o < 0x1000,
    ensures
        ({
            let states = root.states();
            let after = root::config_written(
                states,
                root.memory_aperture,
                states[k].bdf,
                offset,
                size,
                value as nat,
            );
            let mask = states[k].power_on.write_mask[o];
            let before = states[k].config[o];
            &&& after.len() == states.len()
            &&& forall|l: int| 0 <= l < states.len() && l != k ==> #[trigger] after[l] == states[l]
            &&& after[k].bars == states[k].bars
            &&& after[k].binding == states[k].binding
            &&& after[k].id == states[k].id
            &&& after[k].bdf == states[k].bdf
            &&& after[k].power_on == states[k].power_on
            &&& after[k].config.len() == 0x1000
            &&& !(offset <= o < offset + size) ==> after[k].config[o] == before
            &&& (offset <= o < offset + size) ==> {
                &&& after[k].config[o] & mask == (digit(value as int, o - offset) as u8) & mask
                &&& after[k].config[o] & !mask == before & !mask
            }
        }),
{
    let states = root.states();
    assert(states[k].wf());
    lemma_function_at(root, k);
    lemma_outside_bars(states[k], offset);
    if offset <= o < offset + size {
        lemma_digits(value as nat, o - offset);
        let mask = states[k].power_on.write_mask[o];
        let before = states[k].config[o];
        let update = le::byte_of(value as nat, (o - offset) as nat);
        assert(((before & !mask) | (update & mask)) & mask == update & mask && ((before & !mask) | (
        update & mask)) & !mask == before & !mask) by (bit_vector);
    }
}

/// An absent function reads as all ones, ignores writes and announces nothing.
pub proof fn law_absent_functions_read_all_ones(
    root: PciRootState,
    bdf: PciBdf,
    offset: int,
    size: int,
    value: u64,
)
    requires
        forall|k: int| 0 <= k < root.states().len() ==> (#[trigger] root.states()[k]).bdf != bdf,
        size == 1 || size == 2 || size == 4,
    ensures
        root::config_value(root.states(), bdf, offset, size) == values_of(size) - 1,
        root::config_written(
            root.states(),
            root.memory_aperture,
            bdf,
            offset,
            size,
            value as nat,
        ) == root.states(),
        root::config_effect(
            root.states(),
            root.memory_aperture,
            bdf,
            offset,
            size,
            value as nat,
        ) is None,
{
    le::lemma_spans();
}

/// A config write announces the command state exactly when memory decoding (bit
/// 1), bus mastering (bit 2) or the interrupt disable (bit 10) of the command
/// register changed, and then as it now is; outside the BAR registers it
/// announces nothing else.
pub proof fn law_command_changes_are_announced(
    root: PciRootState,
    k: int,
    offset: int,
    size: int,
    value: u64,
)
    requires
        root.wf(),
        0 <= k < root.states().len(),
        outside_bars(root.states()[k], offset),
        size == 1 || size == 2 || size == 4,
        0 <= offset,
        offset + size <= 0x1000,
    ensures
        ({
            let states = root.states();
            let after = root::config_written(
                states,
                root.memory_aperture,
                states[k].bdf,
                offset,
                size,
                value as nat,
            );
            let old_low = states[k].config[4];
            let old_high = states[k].config[5];
            let low = after[k].config[4];
            let high = after[k].config[5];
            let changed = (old_low & 2 != 0) != (low & 2 != 0) || (old_low & 4 != 0) != (low & 4
                != 0) || (old_high & 4 != 0) != (high & 4 != 0);
            match root::config_effect(
                states,
                root.memory_aperture,
                states[k].bdf,
                offset,
                size,
                value as nat,
            ) {
                Some(effect) => {
                    &&& changed
                    &&& effect.ignored_relocation is None
                    &&& effect.command matches Some(command) && command.memory_space_enabled == (
                    low & 2 != 0) && command.bus_master_enabled == (low & 4 != 0)
                        && command.intx_disabled == (high & 4 != 0)
                },
                None => !changed,
            }
        }),
{
    let states = root.states();
    assert(states[k].wf());
    lemma_function_at(root, k);
    lemma_outside_bars(states[k], offset);
}

/// A write to a BAR register announces a relocation exactly when the BAR is fixed
/// and the written dword, no size probe, asks for another address than the
/// planned one; it announces no command state.
#[verifier::spinoff_prover]
#[verifier::rlimit(30)]
pub proof fn law_ignored_relocations_are_announced(
    root: PciRootState,
    k: int,
    b: int,
    high: bool,
    value: u32,
)
    requires
        root.wf(),
        has_bar(root, k, b),
        has_half(root.states()[k].bars[b], high),
    ensures
        ({
            let states = root.states();
            let bar = states[k].bars[b];
            let asked = if high {
                bar.address as int % 0x1_0000_0000 + value * 0x1_0000_0000
            } else {
                bar.address as int / 0x1_0000_0000 * 0x1_0000_0000 + value
            };
            let target = asked - asked % bar.plan.size as int;
            let announced = value != 0xffff_ffff && bar.plan.policy == PciBarDecodePolicy::Fixed
                && target != bar.plan.address;
            match root::config_effect(
                states,
                root.memory_aperture,
                states[k].bdf,
                register_offset(bar, high),
                4,
                value as nat,
            ) {
                Some(effect) => {
                    &&& announced
                    &&& effect.command is None
                    &&& effect.ignored_relocation matches Some(ignored) && ignored.bar
                        == bar.plan.index && ignored.candidate == target && ignored.planned
                        == bar.plan.address
                },
                None => !announced,
            }
        }),
{
    let states = root.states();
    let bar = states[k].bars[b];
    let size = bar.plan.size as int;
    assert(states[k].wf());
    assert(bar.wf());
    lemma_function_at(root, k);
    lemma_bar_register(states[k], b, high, 0);
    lemma_bar_numbers(bar);
    lemma_bar_count(root, k);
    lemma_whole_dword(bar.committed(high) as nat, value);
    lemma_candidate(bar, high, value);
}

/// A direct config access is refused exactly when it is not one, two or four bytes
/// wide, leaves the 4 KiB of the function, or leaves the BAR register in which it
/// begins.
pub proof fn law_direct_accesses_are_refused_by_width_and_bounds(
    root: PciRootState,
    k: int,
    offset: usize,
    size: usize,
)
    requires
        root.wf(),
        0 <= k < root.states().len(),
    ensures
        root::access_fault(root.states(), root.states()[k].bdf, offset, size) is Some <==> {
            ||| size != 1 && size != 2 && size != 4
            ||| offset + size > 0x1000
            ||| !outside_bars(root.states()[k], offset as int) && offset % 4 + size > 4
        },
{
    let function = root.states()[k];
    assert(function.wf());
    lemma_function_at(root, k);
    if outside_bars(function, offset as int) {
        lemma_outside_bars(function, offset as int);
    } else {
        let b = choose|b: int|
            0 <= b < function.bars.len() && (low_offset(#[trigger] function.bars[b]) <= offset
                < low_offset(function.bars[b]) + (if function.bars[b].plan.width
                == PciMemoryBarWidth::Bits64 {
                8int
            } else {
                4
            }));
        let relative = offset - low_offset(function.bars[b]);
        lemma_bar_register(function, b, relative >= 4, relative % 4);
    }
}

// ---------------------------------------------------------------------------
// The memory aperture
// ---------------------------------------------------------------------------

/// A BAR answers an access exactly when its function decodes memory (command bit
/// 1) and has a handler, and the decoded range covers the whole access. The route
/// names that BAR by its declared register, the distance to the decoded address,
/// the handler, the function, the vCPU and the width.
pub proof fn law_routes_name_the_declared_bar(
    root: PciRootState,
    access: DeviceAccess,
    k: int,
    b: int,
)
    requires
        root.wf(),
        has_bar(root, k, b),
    ensures
        ({
            let function = root.states()[k];
            let bar = function.bars[b];
            let width: int = match access.width {
                AccessWidth::Byte => 1,
                AccessWidth::Word => 2,
                AccessWidth::Dword => 4,
                AccessWidth::Qword => 8,
            };
            let route = root::route_to(root.states(), k, b, access);
            &&& root::answers(root.states(), k, b, access) <==> {
                &&& function.config[4] & 2 != 0
                &&& function.binding is Some
                &&& bar.address <= access.address
                &&& access.address + width <= bar.address + bar.plan.size
            }
            &&& root::answers(root.states(), k, b, access) ==> {
                &&& function.binding matches Some(binding) && route.handler == binding.handler
                &&& route.access.bdf == function.bdf
                &&& route.access.bar == bar.plan.index
                &&& bar.address + route.access.offset == access.address
                &&& route.access.width == access.width
                &&& route.access.source_vcpu == access.source_vcpu
            }
        }),
{
}

/// Every route that some BAR gives to an access names a declared BAR of the
/// function it names, and that BAR, whatever its width, covers the whole access at
/// the distance that the route gives.
pub proof fn law_routes_reach_a_covering_bar(
    root: PciRootState,
    access: DeviceAccess,
    route: BarRoute,
)
    requires
        root.wf(),
        exists|k: int, b: int| #[trigger]
            root::answers(root.states(), k, b, access) && route == root::route_to(
                root.states(),
                k,
                b,
                access,
            ),
    ensures
        exists|k: int, b: int| #[trigger]
            has_bar(root, k, b) && {
                let bar = root.states()[k].bars[b];
                let width: int = match access.width {
                    AccessWidth::Byte => 1,
                    AccessWidth::Word => 2,
                    AccessWidth::Dword => 4,
                    AccessWidth::Qword => 8,
                };
                &&& route.access.bdf == root.states()[k].bdf
                &&& route.access.bar == bar.plan.index
                &&& bar.address + route.access.offset == access.address
                &&& access.address + width <= bar.address + bar.plan.size
            },
{
    let (k, b) = choose|k: int, b: int| #[trigger]
        root::answers(root.states(), k, b, access) && route == root::route_to(
            root.states(),
            k,
            b,
            access,
        );
    assert(has_bar(root, k, b));
}

// ---------------------------------------------------------------------------
// Bindings
// ---------------------------------------------------------------------------

proof fn lemma_index_of_id(functions: Seq<FunctionView>, id: Seq<char>, from: int)
    requires
        0 <= from <= functions.len(),
    ensures
        match root::index_of_id(functions, id, from) {
            Some(k) => from <= k < functions.len() && functions[k].id == id && forall|j: int|
                from <= j < k ==> (#[trigger] functions[j]).id != id,
            None => forall|j: int|
                from <= j < functions.len() ==> (#[trigger] functions[j]).id != id,
        },
    decreases functions.len() - from,
{
    if from < functions.len() && functions[from].id != id {
        lemma_index_of_id(functions, id, from + 1);
    }
}

/// A handler can be bound exactly to a function that exists and has none, while
/// there are generations left; what is reported is the first of these that fails.
/// Dropping a binding drops the one of that generation alone.
pub proof fn law_functions_bind_once(
    root: PciRootState,
    id: Seq<char>,
    function: FunctionView,
    generation: u64,
)
    requires
        forall|i: int, j: int|
            0 <= i < j < root.states().len() ==> (#[trigger] root.states()[i]).id != (
            #[trigger] root.states()[j]).id,
    ensures
        ({
            let states = root.states();
            let fault = root.bind_fault(id);
            let known = exists|k: int| 0 <= k < states.len() && (#[trigger] states[k]).id == id;
            let spent = root.next_binding_generation == u64::MAX;
            let free = exists|k: int|
                0 <= k < states.len() && (#[trigger] states[k]).id == id && states[k].binding
                    is None;
            &&& fault is None <==> free && !spent
            &&& !known ==> fault == Some(PciErrorView::FunctionNotFound { function: id })
            &&& known && spent ==> fault == Some(PciErrorView::BindingGenerationExhausted)
            &&& known && !spent && !free ==> fault == Some(
                PciErrorView::FunctionAlreadyBound { function: id },
            )
        }),
        match function.binding {
            Some(binding) => root::unbound(function, generation).binding == (if binding.generation
                == generation {
                None
            } else {
                Some(binding)
            }),
            None => root::unbound(function, generation).binding is None,
        },
        root::unbound(function, generation).bars == function.bars,
        root::unbound(function, generation).config == function.config,
        root::unbound(function, generation).bdf == function.bdf,
{
    lemma_index_of_id(root.states(), id, 0);
}

} // verus!
