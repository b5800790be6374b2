//! Deterministic placement of BARs in the memory aperture.
//!
//! BARs are numbered by position: BAR register `slot` of function `i` has
//! position `6 * i + slot`. Fixed requests are placed first, in the order of
//! their positions. The others follow from the largest size down, and among
//! equal sizes in the order of their positions, each at the lowest address
//! where it fits.

use crate::bits;
use crate::device::{ResourceRequest, FOUR_GIB};
use crate::pci::bar;
use crate::pci::bar::{PciMemoryBar, PciMemoryBarWidth};
use crate::pci::error::{PciError, PciErrorView, PciResult};
use crate::pci::function;
use crate::pci::function::{FunctionSpecView, PciFunctionSpec};
use crate::pci::placement;
use crate::text;
use std::ops::Range;
use vstd::arithmetic::power2;
use vstd::prelude::*;

verus! {

/// The BAR that starts at BAR register `slot`, if any.
pub open spec fn bar_in(bars: Seq<PciMemoryBar>, slot: int) -> Option<PciMemoryBar> {
    if exists|b: int| 0 <= b < bars.len() && (#[trigger] bars[b]).index.0 == slot {
        let b = choose|b: int| 0 <= b < bars.len() && (#[trigger] bars[b]).index.0 == slot;
        Some(bars[b])
    } else {
        None
    }
}

/// The BARs of all functions by position.
pub open spec fn bar_table(functions: Seq<FunctionSpecView>) -> Seq<Option<PciMemoryBar>> {
    Seq::new(6 * functions.len(), |p: int| bar_in(functions[p / 6].bars, p % 6))
}

/// Why a BAR cannot sit at `address`, if it cannot.
pub open spec fn range_fault(
    aperture: Range<u64>,
    bar: PciMemoryBar,
    address: u64,
) -> Option<PciErrorView> {
    let detail = if !bits::multiple_of(address as int, bar.size as int) {
        Some("fixed address is not aligned to BAR size"@)
    } else if address + bar.size > u64::MAX {
        Some("BAR range overflows u64"@)
    } else if address < aperture.start || address + bar.size > aperture.end {
        Some("fixed address lies outside the host memory aperture"@)
    } else if bar.width == PciMemoryBarWidth::Bits32 && address + bar.size > FOUR_GIB {
        Some("32-bit BAR range exceeds 4 GiB"@)
    } else {
        None
    };
    match detail {
        Some(detail) => Some(PciErrorView::InvalidBar { bar: bar.index, detail }),
        None => None,
    }
}

/// The BAR at position `p` sits on an address in `[start, end)`.
pub open spec fn occupies(
    table: Seq<Option<PciMemoryBar>>,
    addresses: Seq<Option<u64>>,
    p: int,
    start: int,
    end: int,
) -> bool {
    addresses[p] matches Some(address) && address < end && start < address + table[p]->0.size
}

/// Some placed BAR sits on an address in `[start, end)`.
pub open spec fn occupied(
    table: Seq<Option<PciMemoryBar>>,
    addresses: Seq<Option<u64>>,
    start: int,
    end: int,
) -> bool {
    exists|p: int| 0 <= p < addresses.len() && #[trigger] occupies(table, addresses, p, start, end)
}

/// A naturally aligned block of `size` bytes at `address` lies in the aperture
/// and is free.
pub open spec fn fits(
    table: Seq<Option<PciMemoryBar>>,
    addresses: Seq<Option<u64>>,
    aperture: Range<u64>,
    size: u64,
    address: u64,
) -> bool {
    &&& bits::multiple_of(address as int, size as int)
    &&& aperture.start <= address
    &&& address + size <= aperture.end
    &&& !occupied(table, addresses, address as int, address + size)
}

/// `address` is the lowest one where a block of `size` bytes fits.
pub open spec fn is_first_fit(
    table: Seq<Option<PciMemoryBar>>,
    addresses: Seq<Option<u64>>,
    aperture: Range<u64>,
    size: u64,
    address: u64,
) -> bool {
    &&& fits(table, addresses, aperture, size, address)
    &&& forall|other: u64| #[trigger]
        fits(table, addresses, aperture, size, other) ==> address <= other
}

/// The lowest address where a block of `size` bytes fits, if there is one.
pub open spec fn first_fit_at(
    table: Seq<Option<PciMemoryBar>>,
    addresses: Seq<Option<u64>>,
    aperture: Range<u64>,
    size: u64,
) -> Option<u64> {
    if exists|address: u64| is_first_fit(table, addresses, aperture, size, address) {
        Some(choose|address: u64| is_first_fit(table, addresses, aperture, size, address))
    } else {
        None
    }
}

/// One step of the fixed placement.
pub open spec fn fixed_step(
    functions: Seq<FunctionSpecView>,
    aperture: Range<u64>,
    addresses: Seq<Option<u64>>,
    p: int,
) -> Result<Seq<Option<u64>>, PciErrorView> {
    let table = bar_table(functions);
    match table[p] {
        Some(bar) => match bar.address {
            ResourceRequest::Fixed(address) => match range_fault(aperture, bar, address) {
                Some(error) => Err(error),
                None => if occupied(table, addresses, address as int, address + bar.size) {
                    Err(
                        PciErrorView::BarConflict {
                            function: functions[p / 6].id,
                            bar: bar.index,
                            start: address,
                            end: (address + bar.size) as u64,
                        },
                    )
                } else {
                    Ok(addresses.update(p, Some(address)))
                },
            },
            ResourceRequest::Auto => Ok(addresses),
        },
        None => Ok(addresses),
    }
}

/// The fixed placements of the positions below `p`.
pub open spec fn fixed_pass(
    functions: Seq<FunctionSpecView>,
    aperture: Range<u64>,
    p: int,
) -> Result<Seq<Option<u64>>, PciErrorView>
    decreases p,
{
    if p <= 0 {
        Ok(Seq::new(6 * functions.len(), |q: int| None))
    } else {
        match fixed_pass(functions, aperture, p - 1) {
            Ok(addresses) => fixed_step(functions, aperture, addresses, p - 1),
            Err(error) => Err(error),
        }
    }
}

/// One step of the automatic placement of BARs of `size` bytes.
pub open spec fn auto_step(
    functions: Seq<FunctionSpecView>,
    aperture: Range<u64>,
    size: u64,
    addresses: Seq<Option<u64>>,
    p: int,
) -> Result<Seq<Option<u64>>, PciErrorView> {
    let table = bar_table(functions);
    match table[p] {
        Some(bar) => if bar.address is Auto && bar.size == size {
            match first_fit_at(table, addresses, aperture, size) {
                Some(address) => match range_fault(aperture, bar, address) {
                    Some(error) => Err(error),
                    None => Ok(addresses.update(p, Some(address))),
                },
                None => Err(
                    PciErrorView::BarApertureExhausted {
                        function: functions[p / 6].id,
                        bar: bar.index,
                        size,
                    },
                ),
            }
        } else {
            Ok(addresses)
        },
        None => Ok(addresses),
    }
}

/// The BAR size that the automatic placement treats on one level; the levels
/// descend from the largest size.
pub open spec fn level_size(level: int) -> u64 {
    power2::pow2((63 - level) as nat) as u64
}

/// Number of BAR sizes, from 2^63 down to 16.
pub const SIZE_LEVELS: u64 = 60;

/// The placements after all levels before `level`, and after the positions
/// below `p` on it.
pub open spec fn auto_pass(
    functions: Seq<FunctionSpecView>,
    aperture: Range<u64>,
    level: int,
    p: int,
) -> Result<Seq<Option<u64>>, PciErrorView>
    decreases level, p,
{
    if p > 0 {
        match auto_pass(functions, aperture, level, p - 1) {
            Ok(addresses) => auto_step(functions, aperture, level_size(level), addresses, p - 1),
            Err(error) => Err(error),
        }
    } else if level > 0 {
        auto_pass(functions, aperture, level - 1, 6 * functions.len() as int)
    } else {
        fixed_pass(functions, aperture, 6 * functions.len() as int)
    }
}

/// The addresses of all BARs by position, or why some BAR has none.
pub open spec fn bar_outcome(functions: Seq<FunctionSpecView>, aperture: Range<u64>) -> Result<
    Seq<Option<u64>>,
    PciErrorView,
> {
    auto_pass(functions, aperture, SIZE_LEVELS as int, 0)
}

/// Placed BARs sit where they may, and no two overlap.
pub open spec fn placements_ok(
    table: Seq<Option<PciMemoryBar>>,
    addresses: Seq<Option<u64>>,
    aperture: Range<u64>,
) -> bool {
    &&& addresses.len() == table.len()
    &&& forall|p: int|
        0 <= p < addresses.len() && (#[trigger] addresses[p]) is Some ==> table[p] is Some
            && range_fault(aperture, table[p]->0, addresses[p]->0) is None
    &&& forall|p: int, q: int|
        0 <= p < addresses.len() && 0 <= q < addresses.len() && p != q
            && #[trigger] addresses[p] is Some && #[trigger] addresses[q] is Some ==> !occupies(
            table,
            addresses,
            p,
            addresses[q]->0 as int,
            addresses[q]->0 + table[q]->0.size,
        )
}

/// The BAR at position `p` is placed where it asked to be.
pub open spec fn fixed_is_placed(
    table: Seq<Option<PciMemoryBar>>,
    addresses: Seq<Option<u64>>,
    p: int,
) -> bool {
    table[p] matches Some(bar) ==> (bar.address matches ResourceRequest::Fixed(address)
        ==> addresses[p] == Some(address))
}

/// The BAR at position `p` is not automatic with a size above `size`, or it is
/// placed.
pub open spec fn large_is_placed(
    table: Seq<Option<PciMemoryBar>>,
    addresses: Seq<Option<u64>>,
    p: int,
    size: int,
) -> bool {
    table[p] matches Some(bar) ==> (bar.address is Auto && bar.size > size ==> addresses[p] is Some)
}

proof fn lemma_new_placement(
    table: Seq<Option<PciMemoryBar>>,
    addresses: Seq<Option<u64>>,
    aperture: Range<u64>,
    p: int,
    address: u64,
)
    requires
        placements_ok(table, addresses, aperture),
        0 <= p < table.len(),
        table[p] is Some,
        addresses[p] is None,
        range_fault(aperture, table[p]->0, address) is None,
        !occupied(table, addresses, address as int, address + table[p]->0.size),
    ensures
        placements_ok(table, addresses.update(p, Some(address)), aperture),
{
    let next = addresses.update(p, Some(address));
    assert forall|a: int, b: int|
        0 <= a < next.len() && 0 <= b < next.len() && a != b && #[trigger] next[a] is Some
            && #[trigger] next[b] is Some implies !occupies(
        table,
        next,
        a,
        next[b]->0 as int,
        next[b]->0 + table[b]->0.size,
    ) by {
        if a == p {
            assert(addresses[b] is Some);
            assert(!occupies(table, addresses, b, address as int, address + table[p]->0.size));
        } else if b == p {
            assert(addresses[a] is Some);
            assert(!occupies(table, addresses, a, address as int, address + table[p]->0.size));
        } else {
            assert(addresses[a] is Some && addresses[b] is Some);
            assert(!occupies(
                table,
                addresses,
                a,
                addresses[b]->0 as int,
                addresses[b]->0 + table[b]->0.size,
            ));
        }
    }
}

/// What the fixed placement keeps.
proof fn lemma_fixed_pass(functions: Seq<FunctionSpecView>, aperture: Range<u64>, p: int)
    requires
        0 <= p <= 6 * functions.len(),
        fixed_pass(functions, aperture, p) is Ok,
    ensures
        ({
            let addresses = fixed_pass(functions, aperture, p)->Ok_0;
            let table = bar_table(functions);
            &&& placements_ok(table, addresses, aperture)
            &&& forall|q: int| p <= q < table.len() ==> #[trigger] addresses[q] is None
            &&& forall|q: int| 0 <= q < p ==> #[trigger] fixed_is_placed(table, addresses, q)
            &&& forall|q: int|
                0 <= q < table.len() && (#[trigger] addresses[q]) is Some ==> table[q]->0.address
                    is Fixed
        }),
    decreases p,
{
    let table = bar_table(functions);
    if p > 0 {
        lemma_fixed_pass(functions, aperture, p - 1);
        let prior = fixed_pass(functions, aperture, p - 1)->Ok_0;
        let addresses = fixed_pass(functions, aperture, p)->Ok_0;
        match table[p - 1] {
            Some(bar) => match bar.address {
                ResourceRequest::Fixed(address) => {
                    lemma_new_placement(table, prior, aperture, p - 1, address);
                },
                ResourceRequest::Auto => {},
            },
            None => {},
        }
        assert forall|q: int| 0 <= q < p implies #[trigger] fixed_is_placed(table, addresses, q) by {
            if q < p - 1 {
                assert(fixed_is_placed(table, prior, q));
            }
        }
    }
}

proof fn lemma_first_fit_exists(
    table: Seq<Option<PciMemoryBar>>,
    addresses: Seq<Option<u64>>,
    aperture: Range<u64>,
    size: u64,
    address: u64,
)
    requires
        is_first_fit(table, addresses, aperture, size, address),
    ensures
        first_fit_at(table, addresses, aperture, size) == Some(address),
{
    let chosen = first_fit_at(table, addresses, aperture, size)->0;
    assert(is_first_fit(table, addresses, aperture, size, chosen));
    assert(fits(table, addresses, aperture, size, chosen));
    assert(fits(table, addresses, aperture, size, address));
}

/// What the automatic placement keeps.
proof fn lemma_auto_pass(functions: Seq<FunctionSpecView>, aperture: Range<u64>, level: int, p: int)
    requires
        placement::declarations_ok(functions),
        0 <= level <= SIZE_LEVELS,
        0 <= p <= 6 * functions.len(),
        auto_pass(functions, aperture, level, p) is Ok,
    ensures
        ({
            let addresses = auto_pass(functions, aperture, level, p)->Ok_0;
            let table = bar_table(functions);
            &&& placements_ok(table, addresses, aperture)
            &&& forall|q: int|
                0 <= q < table.len() ==> #[trigger] fixed_is_placed(table, addresses, q)
            &&& forall|q: int|
                0 <= q < table.len() ==> #[trigger] large_is_placed(
                    table,
                    addresses,
                    q,
                    level_size(level) as int,
                )
            &&& forall|q: int|
                0 <= q < p ==> #[trigger] large_is_placed(
                    table,
                    addresses,
                    q,
                    level_size(level) - 1,
                )
            &&& forall|q: int|
                0 <= q < table.len() && (#[trigger] addresses[q]) is Some && table[q]->0.address
                    is Auto ==> table[q]->0.size > level_size(level) || (table[q]->0.size
                    == level_size(level) && q < p)
        }),
    decreases level, p,
{
    let table = bar_table(functions);
    let n = 6 * functions.len() as int;
    lemma_table_is_sound(functions);
    lemma_level_sizes(level);
    if p > 0 {
        lemma_auto_pass(functions, aperture, level, p - 1);
        let size = level_size(level);
        let prior = auto_pass(functions, aperture, level, p - 1)->Ok_0;
        let addresses = auto_pass(functions, aperture, level, p)->Ok_0;
        match table[p - 1] {
            Some(bar) => {
                if bar.address is Auto && bar.size == size {
                    let address = first_fit_at(table, prior, aperture, size)->0;
                    assert(is_first_fit(table, prior, aperture, size, address));
                    assert(prior[p - 1] is None);
                    lemma_new_placement(table, prior, aperture, p - 1, address);
                }
            },
            None => {},
        }
        assert forall|q: int| 0 <= q < table.len() implies #[trigger] fixed_is_placed(
            table,
            addresses,
            q,
        ) by {
            assert(fixed_is_placed(table, prior, q));
        }
        assert forall|q: int| 0 <= q < table.len() implies #[trigger] large_is_placed(
            table,
            addresses,
            q,
            size as int,
        ) by {
            assert(large_is_placed(table, prior, q, size as int));
        }
        assert forall|q: int| 0 <= q < p implies #[trigger] large_is_placed(
            table,
            addresses,
            q,
            size - 1,
        ) by {
            assert(large_is_placed(table, prior, q, size as int));
            if q < p - 1 {
                assert(large_is_placed(table, prior, q, size - 1));
            }
        }
    } else if level > 0 {
        lemma_auto_pass(functions, aperture, level - 1, n);
        let addresses = auto_pass(functions, aperture, level, p)->Ok_0;
        let size = level_size(level);
        let larger = level_size(level - 1);
        lemma_level_sizes(level - 1);
        assert forall|q: int| 0 <= q < table.len() implies #[trigger] large_is_placed(
            table,
            addresses,
            q,
            size as int,
        ) by {
            assert(large_is_placed(table, addresses, q, larger - 1));
            if table[q] is Some {
                lemma_no_size_between(table[q]->0.size, level);
            }
        }
    } else {
        lemma_fixed_pass(functions, aperture, n);
        let addresses = auto_pass(functions, aperture, level, p)->Ok_0;
        assert forall|q: int| 0 <= q < table.len() implies #[trigger] large_is_placed(
            table,
            addresses,
            q,
            level_size(0) as int,
        ) by {
            if table[q] is Some {
                lemma_no_size_above(table[q]->0.size);
            }
        }
    }
}

proof fn lemma_level_sizes(level: int)
    requires
        0 <= level <= SIZE_LEVELS,
    ensures
        level_size(level) == power2::pow2((63 - level) as nat),
        bits::is_power_of_two(level_size(level)),
        8 <= level_size(level),
        level > 0 ==> level_size(level - 1) == 2 * level_size(level),
{
    power2::lemma2_to64();
    power2::lemma2_to64_rest();
    if level < 60 {
        power2::lemma_pow2_strictly_increases(3, (63 - level) as nat);
    }
    power2::lemma_pow2_strictly_increases((63 - level) as nat, 64);
    if level > 0 {
        power2::lemma_pow2_unfold((64 - level) as nat);
        power2::lemma_pow2_strictly_increases((64 - level) as nat, 65);
        if level > 1 {
            power2::lemma_pow2_strictly_increases((64 - level) as nat, 63);
        }
    }
}

proof fn lemma_no_size_between(size: u64, level: int)
    requires
        bits::is_power_of_two(size),
        0 < level <= SIZE_LEVELS,
    ensures
        size > level_size(level) ==> size >= level_size(level - 1),
{
    lemma_level_sizes(level);
    lemma_level_sizes(level - 1);
    let exponent = choose|exponent: nat| size == #[trigger] power2::pow2(exponent);
    let low = (63 - level) as nat;
    let high = (64 - level) as nat;
    if exponent < low {
        power2::lemma_pow2_strictly_increases(exponent, low);
    }
    if exponent > high {
        power2::lemma_pow2_strictly_increases(high, exponent);
    }
}

proof fn lemma_no_size_above(size: u64)
    requires
        bits::is_power_of_two(size),
    ensures
        size <= level_size(0),
{
    lemma_level_sizes(0);
    let exponent = choose|exponent: nat| size == #[trigger] power2::pow2(exponent);
    if exponent > 63 {
        power2::lemma2_to64_rest();
        power2::lemma2_to64();
        if exponent > 64 {
            power2::lemma_pow2_strictly_increases(64, exponent);
        }
    } else if exponent < 63 {
        power2::lemma_pow2_strictly_increases(exponent, 63);
    }
}

proof fn lemma_table_is_sound(functions: Seq<FunctionSpecView>)
    requires
        placement::declarations_ok(functions),
    ensures
        forall|p: int|
            0 <= p < bar_table(functions).len() && #[trigger] bar_table(functions)[p] is Some
                ==> bar_table(functions)[p]->0.wf() && bar_table(functions)[p]->0.index.0 == p % 6,
{
    let table = bar_table(functions);
    assert forall|p: int| 0 <= p < table.len() && #[trigger] table[p] is Some implies table[p]->0.wf()
        && table[p]->0.index.0 == p % 6 by {
        assert(functions[p / 6].wf());
        let bars = functions[p / 6].bars;
        let b = choose|b: int| 0 <= b < bars.len() && (#[trigger] bars[b]).index.0 == p % 6;
        assert(bars[b].wf());
    }
}

/// What placement grants: every BAR has an address, a fixed one the address
/// that it asked for. It is naturally aligned, lies in the aperture and below
/// 4 GiB if the BAR has 32 bits, and overlaps no other BAR.
pub proof fn law_bars_are_disjoint(
    functions: Seq<FunctionSpecView>,
    aperture: Range<u64>,
    p: int,
    q: int,
)
    requires
        placement::declarations_ok(functions),
        bar_outcome(functions, aperture) is Ok,
        0 <= p < 6 * functions.len(),
        0 <= q < 6 * functions.len(),
    ensures
        ({
            let addresses = bar_outcome(functions, aperture)->Ok_0;
            let table = bar_table(functions);
            &&& addresses.len() == table.len() == 6 * functions.len()
            &&& addresses[p] is Some <==> table[p] is Some
            &&& table[p] matches Some(bar) ==> {
                let address = addresses[p]->0;
                &&& bar.address matches ResourceRequest::Fixed(asked) ==> address == asked
                &&& bits::multiple_of(address as int, bar.size as int)
                &&& aperture.start <= address
                &&& address + bar.size <= aperture.end
                &&& bar.width == PciMemoryBarWidth::Bits32 ==> address + bar.size <= FOUR_GIB
                &&& p != q && table[q] is Some ==> address + bar.size <= addresses[q]->0
                    || addresses[q]->0 + table[q]->0.size <= address
            }
        }),
{
    let addresses = bar_outcome(functions, aperture)->Ok_0;
    let table = bar_table(functions);
    lemma_auto_pass(functions, aperture, SIZE_LEVELS as int, 0);
    lemma_table_is_sound(functions);
    power2::lemma2_to64();
    assert(level_size(SIZE_LEVELS as int) == 8);
    assert(fixed_is_placed(table, addresses, p));
    assert(large_is_placed(table, addresses, p, 8));
    assert(fixed_is_placed(table, addresses, q));
    assert(large_is_placed(table, addresses, q, 8));
    if table[p] is Some {
        assert(table[p]->0.wf());
    }
    if table[q] is Some {
        assert(table[q]->0.wf());
    }
    assert(addresses[p] is Some ==> table[p] is Some);
    if p != q && addresses[p] is Some && addresses[q] is Some {
        assert(!occupies(
            table,
            addresses,
            p,
            addresses[q]->0 as int,
            addresses[q]->0 + table[q]->0.size,
        ));
    }
}

// ---------------------------------------------------------------------------
// Laws of the order of placement
// ---------------------------------------------------------------------------

/// A stage of the automatic placement comes no later than another.
spec fn no_later(level: int, p: int, end_level: int, end: int) -> bool {
    level < end_level || (level == end_level && p <= end)
}

/// What is placed at one stage stays placed.
proof fn lemma_placements_stay(
    functions: Seq<FunctionSpecView>,
    aperture: Range<u64>,
    level: int,
    p: int,
    end_level: int,
    end: int,
)
    requires
        placement::declarations_ok(functions),
        0 <= level <= end_level <= SIZE_LEVELS,
        0 <= p <= 6 * functions.len(),
        0 <= end <= 6 * functions.len(),
        no_later(level, p, end_level, end),
        auto_pass(functions, aperture, end_level, end) is Ok,
    ensures
        auto_pass(functions, aperture, level, p) is Ok,
        ({
            let early = auto_pass(functions, aperture, level, p)->Ok_0;
            let late = auto_pass(functions, aperture, end_level, end)->Ok_0;
            &&& early.len() == late.len()
            &&& forall|q: int|
                0 <= q < early.len() && (#[trigger] early[q]) is Some ==> late[q] == early[q]
        }),
    decreases end_level, end,
{
    let n = 6 * functions.len() as int;
    lemma_auto_pass(functions, aperture, end_level, end);
    if level == end_level && p == end {
    } else if end > 0 {
        lemma_placements_stay(functions, aperture, level, p, end_level, end - 1);
        lemma_auto_pass(functions, aperture, end_level, end - 1);
    } else {
        lemma_placements_stay(functions, aperture, level, p, end_level - 1, n);
    }
}

/// The level that treats a BAR size.
proof fn lemma_level_of(size: u64) -> (level: int)
    requires
        bits::is_power_of_two(size),
        size >= 16,
    ensures
        0 <= level < SIZE_LEVELS,
        level_size(level) == size,
{
    let exponent = choose|exponent: nat| size == #[trigger] power2::pow2(exponent);
    power2::lemma2_to64();
    power2::lemma2_to64_rest();
    if exponent > 63 {
        if exponent > 64 {
            power2::lemma_pow2_strictly_increases(64, exponent);
        }
    }
    if exponent < 4 {
        power2::lemma_pow2_strictly_increases(exponent, 4);
    }
    let level = 63 - exponent as int;
    lemma_level_sizes(level);
    level
}

/// The BAR at position `q` is placed before the automatic BAR at position `p`: it
/// is fixed, or larger, or as large and declared earlier.
pub open spec fn goes_first(functions: Seq<FunctionSpecView>, q: int, p: int) -> bool {
    &&& bar_table(functions)[p] matches Some(bar) && bar_table(functions)[q] matches Some(other) && (
    other.address is Fixed || other.size > bar.size || (other.size == bar.size && q < p))
}

/// The BAR at position `q`, if it has this address, has a byte of `start..end`.
pub open spec fn sits_in(
    functions: Seq<FunctionSpecView>,
    q: int,
    address: Option<u64>,
    start: int,
    end: int,
) -> bool {
    bar_table(functions)[q] matches Some(other) && address matches Some(address) && address < end
        && start < address + other.size
}

/// The address that the BAR at position `q` asks for, if it asks for one.
pub open spec fn asked_address(functions: Seq<FunctionSpecView>, q: int) -> Option<u64> {
    match bar_table(functions)[q] {
        Some(bar) => match bar.address {
            ResourceRequest::Fixed(address) => Some(address),
            ResourceRequest::Auto => None,
        },
        None => None,
    }
}

/// An automatic BAR gets the lowest place that suits it: every lower address of the
/// aperture that is a multiple of its size is taken by a BAR that is fixed, larger,
/// or as large and earlier in the order of identities and registers.
pub proof fn law_automatic_bars_take_the_lowest_free_place(
    functions: Seq<FunctionSpecView>,
    aperture: Range<u64>,
    p: int,
    lower: u64,
)
    requires
        placement::declarations_ok(functions),
        bar_outcome(functions, aperture) is Ok,
        0 <= p < 6 * functions.len(),
        bar_table(functions)[p] matches Some(bar) && bar.address is Auto && lower as int
            % bar.size as int == 0,
        aperture.start <= lower,
        bar_outcome(functions, aperture)->Ok_0[p] matches Some(address) && lower < address,
    ensures
        exists|q: int|
            0 <= q < 6 * functions.len() && #[trigger] goes_first(functions, q, p) && sits_in(
                functions,
                q,
                bar_outcome(functions, aperture)->Ok_0[q],
                lower as int,
                lower + bar_table(functions)[p]->0.size,
            ),
{
    let table = bar_table(functions);
    let bar = table[p]->0;
    let last = bar_outcome(functions, aperture)->Ok_0;
    lemma_table_is_sound(functions);
    assert(table[p] is Some);
    let level = lemma_level_of(bar.size);
    lemma_placements_stay(functions, aperture, level, p + 1, SIZE_LEVELS as int, 0);
    lemma_placements_stay(functions, aperture, level, p, level, p + 1);
    lemma_auto_pass(functions, aperture, level, p);
    lemma_auto_pass(functions, aperture, level, p + 1);
    lemma_auto_pass(functions, aperture, SIZE_LEVELS as int, 0);
    let prior = auto_pass(functions, aperture, level, p)->Ok_0;
    let next = auto_pass(functions, aperture, level, p + 1)->Ok_0;
    let address = first_fit_at(table, prior, aperture, bar.size)->0;
    assert(is_first_fit(table, prior, aperture, bar.size, address));
    assert(next[p] == Some(address));
    assert(last[p] == Some(address));
    assert(fits(table, prior, aperture, bar.size, address));
    assert(!fits(table, prior, aperture, bar.size, lower));
    assert(occupied(table, prior, lower as int, lower + bar.size));
    let q = choose|q: int|
        0 <= q < prior.len() && #[trigger] occupies(
            table,
            prior,
            q,
            lower as int,
            lower + bar.size,
        );
    assert(prior[q] is Some);
    assert(next[q] == prior[q]);
    assert(last[q] == prior[q]);
    assert(goes_first(functions, q, p));
}

/// Why the fixed BAR at position `p` has no place: its address is no multiple of
/// its size, its range leaves the aperture or, for 32 bits, passes 4 GiB, or an
/// earlier fixed BAR has a byte of it.
pub open spec fn fixed_cause(
    functions: Seq<FunctionSpecView>,
    aperture: Range<u64>,
    p: int,
) -> bool {
    &&& bar_table(functions)[p] matches Some(bar) && bar.address matches ResourceRequest::Fixed(
        address,
    ) && {
        ||| address as int % bar.size as int != 0
        ||| address < aperture.start
        ||| address + bar.size > aperture.end
        ||| bar.width == PciMemoryBarWidth::Bits32 && address + bar.size > 0x1_0000_0000
        ||| exists|q: int|
            0 <= q < p && sits_in(
                functions,
                q,
                #[trigger] asked_address(functions, q),
                address as int,
                address + bar.size,
            )
    }
}

/// Every multiple of the size of the automatic BAR at position `p` in the aperture
/// is taken by a BAR that goes first, or the lowest one that is not passes 4 GiB
/// for a 32-bit BAR.
pub open spec fn automatic_cause(
    functions: Seq<FunctionSpecView>,
    aperture: Range<u64>,
    addresses: Seq<Option<u64>>,
    p: int,
) -> bool {
    &&& addresses.len() == 6 * functions.len()
    &&& bar_table(functions)[p] matches Some(bar) && bar.address is Auto && {
        &&& forall|q: int|
            0 <= q < addresses.len() && (#[trigger] addresses[q]) is Some ==> goes_first(
                functions,
                q,
                p,
            )
        &&& forall|address: u64|
            aperture.start <= address && address + bar.size <= aperture.end && #[trigger] (
            address as int % bar.size as int) == 0 && (bar.width == PciMemoryBarWidth::Bits32
                ==> address + bar.size <= 0x1_0000_0000) ==> exists|q: int|
                0 <= q < addresses.len() && sits_in(
                    functions,
                    q,
                    #[trigger] addresses[q],
                    address as int,
                    address + bar.size,
                )
    }
}

/// The BAR at this position has no place.
pub open spec fn has_no_place(
    functions: Seq<FunctionSpecView>,
    aperture: Range<u64>,
    at: int,
) -> bool {
    fixed_cause(functions, aperture, at) || exists|addresses: Seq<Option<u64>>| #[trigger]
        automatic_cause(functions, aperture, addresses, at)
}

/// Placement fails only for cause: some fixed BAR has no place, or some automatic
/// one finds every place taken.
pub proof fn law_bar_placement_fails_only_for_cause(
    functions: Seq<FunctionSpecView>,
    aperture: Range<u64>,
)
    requires
        placement::declarations_ok(functions),
        bar_outcome(functions, aperture) is Err,
    ensures
        exists|at: int|
            0 <= at < 6 * functions.len() && #[trigger] has_no_place(functions, aperture, at),
{
    lemma_cause(functions, aperture, SIZE_LEVELS as int, 0);
}

proof fn lemma_cause(functions: Seq<FunctionSpecView>, aperture: Range<u64>, level: int, p: int)
    requires
        placement::declarations_ok(functions),
        0 <= level <= SIZE_LEVELS,
        0 <= p <= 6 * functions.len(),
        auto_pass(functions, aperture, level, p) is Err,
    ensures
        exists|at: int|
            0 <= at < 6 * functions.len() && #[trigger] has_no_place(functions, aperture, at),
    decreases level, p,
{
    let table = bar_table(functions);
    let n = 6 * functions.len() as int;
    if p > 0 {
        if auto_pass(functions, aperture, level, p - 1) is Err {
            lemma_cause(functions, aperture, level, p - 1);
        } else {
            let prior = auto_pass(functions, aperture, level, p - 1)->Ok_0;
            lemma_auto_pass(functions, aperture, level, p - 1);
            lemma_table_is_sound(functions);
            let bar = table[p - 1]->0;
            assert(table[p - 1] is Some);
            assert forall|q: int| 0 <= q < prior.len() && (#[trigger] prior[q]) is Some implies goes_first(
                functions,
                q,
                p - 1,
            ) by {
                assert(table[q] is Some);
            }
            assert forall|address: u64|
                aperture.start <= address && address + bar.size <= aperture.end && #[trigger] (
                address as int % bar.size as int) == 0 && (bar.width == PciMemoryBarWidth::Bits32
                    ==> address + bar.size <= 0x1_0000_0000) implies exists|q: int|
                0 <= q < prior.len() && sits_in(
                    functions,
                    q,
                    #[trigger] prior[q],
                    address as int,
                    address + bar.size,
                ) by {
                if !occupied(table, prior, address as int, address + bar.size) {
                    assert(fits(table, prior, aperture, bar.size, address));
                    lemma_lowest_fit(table, prior, aperture, bar.size, address);
                    let first = first_fit_at(table, prior, aperture, bar.size)->0;
                    assert(is_first_fit(table, prior, aperture, bar.size, first));
                    assert(first <= address);
                    assert(fits(table, prior, aperture, bar.size, first));
                    assert(range_fault(aperture, bar, first) is None);
                }
                let q = choose|q: int|
                    0 <= q < prior.len() && #[trigger] occupies(
                        table,
                        prior,
                        q,
                        address as int,
                        address + bar.size,
                    );
                assert(table[q] is Some);
                assert(sits_in(
                    functions,
                    q,
                    prior[q],
                    address as int,
                    address + bar.size,
                ));
            }
            assert(automatic_cause(functions, aperture, prior, p - 1));
            assert(has_no_place(functions, aperture, p - 1));
        }
    } else if level > 0 {
        lemma_cause(functions, aperture, level - 1, n);
    } else {
        lemma_fixed_cause(functions, aperture, n);
        let q = choose|q: int| 0 <= q < n && #[trigger] fixed_cause(functions, aperture, q);
        assert(has_no_place(functions, aperture, q));
    }
}

/// Where some place fits, there is a lowest one.
proof fn lemma_lowest_fit(
    table: Seq<Option<PciMemoryBar>>,
    addresses: Seq<Option<u64>>,
    aperture: Range<u64>,
    size: u64,
    address: u64,
)
    requires
        fits(table, addresses, aperture, size, address),
    ensures
        first_fit_at(table, addresses, aperture, size) is Some,
    decreases address,
{
    if exists|lower: u64|
        lower < address && #[trigger] fits(table, addresses, aperture, size, lower) {
        let lower = choose|lower: u64|
            lower < address && #[trigger] fits(table, addresses, aperture, size, lower);
        lemma_lowest_fit(table, addresses, aperture, size, lower);
    } else {
        assert forall|other: u64| #[trigger]
            fits(table, addresses, aperture, size, other) implies address <= other by {
        }
        assert(is_first_fit(table, addresses, aperture, size, address));
    }
}

proof fn lemma_fixed_cause(functions: Seq<FunctionSpecView>, aperture: Range<u64>, p: int)
    requires
        placement::declarations_ok(functions),
        0 <= p <= 6 * functions.len(),
        fixed_pass(functions, aperture, p) is Err,
    ensures
        exists|q: int| 0 <= q < p && #[trigger] fixed_cause(functions, aperture, q),
    decreases p,
{
    if fixed_pass(functions, aperture, p - 1) is Err {
        lemma_fixed_cause(functions, aperture, p - 1);
        let q = choose|q: int| 0 <= q < p - 1 && #[trigger] fixed_cause(functions, aperture, q);
        assert(0 <= q < p && fixed_cause(functions, aperture, q));
    } else {
        let table = bar_table(functions);
        let prior = fixed_pass(functions, aperture, p - 1)->Ok_0;
        lemma_fixed_pass(functions, aperture, p - 1);
        lemma_table_is_sound(functions);
        let bar = table[p - 1]->0;
        assert(table[p - 1] is Some);
        let address = bar.address->Fixed_0;
        if range_fault(aperture, bar, address) is None {
            let q = choose|q: int|
                0 <= q < prior.len() && #[trigger] occupies(
                    table,
                    prior,
                    q,
                    address as int,
                    address + bar.size,
                );
            assert(prior[q] is Some);
            assert(q < p - 1);
            assert(fixed_is_placed(table, prior, q));
            assert(sits_in(
                functions,
                q,
                asked_address(functions, q),
                address as int,
                address + bar.size,
            ));
        }
        assert(fixed_cause(functions, aperture, p - 1));
    }
}

// ---------------------------------------------------------------------------
// Executable placement
// ---------------------------------------------------------------------------

/// Checks one BAR range against the aperture.
pub fn checked_bar_range(aperture: &Range<u64>, bar: &PciMemoryBar, address: u64) -> (range:
    PciResult<Range<u64>>)
    requires
        bar.wf(),
    ensures
        match range {
            Ok(range) => range_fault(*aperture, *bar, address) is None && range.start == address
                && range.end == address + bar.size,
            Err(error) => range_fault(*aperture, *bar, address) == Some(error@),
        },
{
    proof {
        bits::lemma_masks(address, bar.size);
    }
    if address & (bar.size - 1) != 0 {
        return Err(
            PciError::InvalidBar {
                bar: bar.index,
                detail: text::text_of("fixed address is not aligned to BAR size"),
            },
        );
    }
    let end: u64 = match address.checked_add(bar.size) {
        Some(end) => end,
        None => {
            return Err(
                PciError::InvalidBar {
                    bar: bar.index,
                    detail: text::text_of("BAR range overflows u64"),
                },
            );
        },
    };
    if address < aperture.start || end > aperture.end {
        return Err(
            PciError::InvalidBar {
                bar: bar.index,
                detail: text::text_of("fixed address lies outside the host memory aperture"),
            },
        );
    }
    if bar.width == PciMemoryBarWidth::Bits32 && end > FOUR_GIB {
        return Err(
            PciError::InvalidBar {
                bar: bar.index,
                detail: text::text_of("32-bit BAR range exceeds 4 GiB"),
            },
        );
    }
    Ok(address..end)
}

/// Finds a placed BAR on an address in `[start, end)`, and returns where it
/// ends.
fn find_conflict(
    table: &Vec<Option<PciMemoryBar>>,
    addresses: &Vec<Option<u64>>,
    aperture: &Range<u64>,
    start: u64,
    end: u64,
) -> (conflict: Option<u64>)
    requires
        placements_ok(table@, addresses@, *aperture),
    ensures
        match conflict {
            Some(stop) => exists|p: int|
                {
                    &&& 0 <= p < addresses@.len()
                    &&& #[trigger] occupies(table@, addresses@, p, start as int, end as int)
                    &&& stop == addresses@[p]->0 + table@[p]->0.size
                },
            None => !occupied(table@, addresses@, start as int, end as int),
        },
{
    let mut index: usize = 0;
    while index < addresses.len()
        invariant
            index <= addresses.len(),
            placements_ok(table@, addresses@, *aperture),
            forall|p: int|
                0 <= p < index ==> !#[trigger] occupies(
                    table@,
                    addresses@,
                    p,
                    start as int,
                    end as int,
                ),
        decreases addresses.len() - index,
    {
        if let Some(address) = addresses[index] {
            assert(addresses@[index as int] is Some);
            if let Some(bar) = table[index] {
                let stop: u64 = address + bar.size;
                if address < end && start < stop {
                    assert(occupies(table@, addresses@, index as int, start as int, end as int));
                    return Some(stop);
                }
            }
        }
        index = index + 1;
    }
    None
}

/// Finds the lowest aligned address in the aperture where `size` bytes are
/// free.
fn first_fit(
    table: &Vec<Option<PciMemoryBar>>,
    addresses: &Vec<Option<u64>>,
    aperture: &Range<u64>,
    size: u64,
) -> (address: Option<u64>)
    requires
        placements_ok(table@, addresses@, *aperture),
        bits::is_power_of_two(size),
    ensures
        address == first_fit_at(table@, addresses@, *aperture, size),
{
    proof {
        bits::lemma_power_is_positive(size);
    }
    let mut candidate: u64 = match bits::align_up(aperture.start, size) {
        Some(candidate) => candidate,
        None => {
            return None;
        },
    };
    loop
        invariant
            placements_ok(table@, addresses@, *aperture),
            bits::is_power_of_two(size),
            size >= 1,
            bits::multiple_of(candidate as int, size as int),
            aperture.start <= candidate,
            forall|other: u64| #[trigger]
                fits(table@, addresses@, *aperture, size, other) ==> candidate <= other,
        decreases u64::MAX - candidate,
    {
        let end: u64 = match candidate.checked_add(size) {
            Some(end) => end,
            None => {
                proof {
                    lemma_nothing_fits(table@, addresses@, *aperture, size, candidate);
                }
                return None;
            },
        };
        if end > aperture.end {
            proof {
                lemma_nothing_fits(table@, addresses@, *aperture, size, candidate);
            }
            return None;
        }
        match find_conflict(table, addresses, aperture, candidate, end) {
            Some(stop) => {
                let ghost p = choose|p: int|
                    {
                        &&& 0 <= p < addresses@.len()
                        &&& #[trigger] occupies(
                            table@,
                            addresses@,
                            p,
                            candidate as int,
                            end as int,
                        )
                        &&& stop == addresses@[p]->0 + table@[p]->0.size
                    };
                assert forall|other: u64| #[trigger]
                    fits(table@, addresses@, *aperture, size, other) implies stop <= other by {
                    assert(candidate <= other);
                    assert(!occupies(table@, addresses@, p, other as int, other + size));
                }
                match bits::align_up(stop, size) {
                    Some(next) => {
                        candidate = next;
                    },
                    None => {
                        proof {
                            assert forall|other: u64| !#[trigger]
                                fits(table@, addresses@, *aperture, size, other) by {
                                if fits(table@, addresses@, *aperture, size, other) {
                                    assert(stop <= other);
                                }
                            }
                            lemma_no_first_fit(table@, addresses@, *aperture, size);
                        }
                        return None;
                    },
                }
            },
            None => {
                proof {
                    assert(fits(table@, addresses@, *aperture, size, candidate));
                    lemma_first_fit_exists(table@, addresses@, *aperture, size, candidate);
                }
                return Some(candidate);
            },
        }
    }
}

proof fn lemma_no_first_fit(
    table: Seq<Option<PciMemoryBar>>,
    addresses: Seq<Option<u64>>,
    aperture: Range<u64>,
    size: u64,
)
    requires
        forall|other: u64| !#[trigger] fits(table, addresses, aperture, size, other),
    ensures
        first_fit_at(table, addresses, aperture, size) is None,
{
    assert forall|address: u64| !is_first_fit(table, addresses, aperture, size, address) by {
        assert(!fits(table, addresses, aperture, size, address));
    }
}

proof fn lemma_nothing_fits(
    table: Seq<Option<PciMemoryBar>>,
    addresses: Seq<Option<u64>>,
    aperture: Range<u64>,
    size: u64,
    candidate: u64,
)
    requires
        forall|other: u64| #[trigger]
            fits(table, addresses, aperture, size, other) ==> candidate <= other,
        candidate + size > aperture.end,
    ensures
        first_fit_at(table, addresses, aperture, size) is None,
{
    assert forall|other: u64| !#[trigger] fits(table, addresses, aperture, size, other) by {
        if fits(table, addresses, aperture, size, other) {
            assert(candidate <= other);
        }
    }
    lemma_no_first_fit(table, addresses, aperture, size);
}

/// Finds the BAR that starts at BAR register `slot`.
fn find_bar(bars: &Vec<PciMemoryBar>, slot: u8) -> (found: Option<PciMemoryBar>)
    requires
        function::slots_are_distinct(bars@),
    ensures
        found == bar_in(bars@, slot as int),
{
    let mut index: usize = 0;
    while index < bars.len()
        invariant
            index <= bars.len(),
            function::slots_are_distinct(bars@),
            forall|b: int| 0 <= b < index ==> (#[trigger] bars@[b]).index.0 != slot,
        decreases bars.len() - index,
    {
        if bars[index].index.0 == slot {
            proof {
                let b = choose|b: int| 0 <= b < bars@.len() && (#[trigger] bars@[b]).index.0 == slot;
                assert(bars@[index as int].index.0 == slot);
                if b > index {
                    assert(!bars@[index as int].shares_slot(bars@[b]));
                }
            }
            return Some(bars[index]);
        }
        index = index + 1;
    }
    None
}

/// Lists the BARs of all functions by position.
fn build_table(functions: &Vec<PciFunctionSpec>) -> (table: Vec<Option<PciMemoryBar>>)
    requires
        placement::declarations_ok(placement::spec_views(functions@)),
        functions@.len() <= 256,
    ensures
        table@ == bar_table(placement::spec_views(functions@)),
{
    let ghost views = placement::spec_views(functions@);
    let mut table: Vec<Option<PciMemoryBar>> = Vec::new();
    let mut position: usize = 0;
    while position < 6 * functions.len()
        invariant
            functions@.len() <= 256,
            position <= 6 * functions.len(),
            views == placement::spec_views(functions@),
            placement::declarations_ok(views),
            table@ == bar_table(views).take(position as int),
        decreases 6 * functions.len() - position,
    {
        let function: usize = position / 6;
        let slot: u8 = (position % 6) as u8;
        assert(views[function as int] == functions@[function as int]@);
        assert(views[function as int].wf());
        table.push(find_bar(&functions[function].bars, slot));
        position = position + 1;
        assert(table@ =~= bar_table(views).take(position as int));
    }
    assert(table@ =~= bar_table(views));
    table
}

/// Places the fixed BARs.
fn place_fixed(
    functions: &Vec<PciFunctionSpec>,
    table: &Vec<Option<PciMemoryBar>>,
    aperture: &Range<u64>,
) -> (addresses: PciResult<Vec<Option<u64>>>)
    requires
        placement::declarations_ok(placement::spec_views(functions@)),
        functions@.len() <= 256,
        table@ == bar_table(placement::spec_views(functions@)),
    ensures
        ({
            let outcome = fixed_pass(
                placement::spec_views(functions@),
                *aperture,
                6 * functions@.len() as int,
            );
            match addresses {
                Ok(addresses) => outcome == Ok::<Seq<Option<u64>>, PciErrorView>(addresses@),
                Err(error) => outcome == Err::<Seq<Option<u64>>, PciErrorView>(error@),
            }
        }),
{
    let ghost views = placement::spec_views(functions@);
    let count: usize = 6 * functions.len();
    let mut addresses: Vec<Option<u64>> = Vec::new();
    while addresses.len() < count
        invariant
            addresses.len() <= count,
            addresses@ == Seq::new(addresses@.len(), |q: int| None::<u64>),
        decreases count - addresses.len(),
    {
        addresses.push(None);
        assert(addresses@ =~= Seq::new(addresses@.len(), |q: int| None::<u64>));
    }
    assert(fixed_pass(views, *aperture, 0) == Ok::<Seq<Option<u64>>, PciErrorView>(addresses@)) by {
        assert(addresses@ =~= Seq::new(6 * views.len(), |q: int| None::<u64>));
    }
    let mut position: usize = 0;
    proof {
        lemma_table_is_sound(views);
    }
    while position < count
        invariant
            position <= count,
            count == 6 * functions@.len() == table@.len() == addresses@.len(),
            functions@.len() <= 256,
            views == placement::spec_views(functions@),
            table@ == bar_table(views),
            forall|p: int|
                0 <= p < table@.len() && #[trigger] table@[p] is Some ==> table@[p]->0.wf(),
            fixed_pass(views, *aperture, position as int) == Ok::<
                Seq<Option<u64>>,
                PciErrorView,
            >(addresses@),
        decreases count - position,
    {
        proof {
            lemma_fixed_pass(views, *aperture, position as int);
            assert(views[position as int / 6] == functions@[position as int / 6]@);
        }
        if let Some(bar) = table[position] {
            assert(table@[position as int] is Some);
            if let ResourceRequest::Fixed(address) = bar.address {
                match checked_bar_range(aperture, &bar, address) {
                    Ok(range) => {
                        if find_conflict(table, &addresses, aperture, address, range.end).is_some() {
                            proof {
                                lemma_fixed_error(views, *aperture, position + 1, count as int);
                            }
                            return Err(
                                PciError::BarConflict {
                                    function: functions[position / 6].id.to_text(),
                                    bar: bar.index,
                                    start: address,
                                    end: range.end,
                                },
                            );
                        }
                        addresses.set(position, Some(address));
                    },
                    Err(error) => {
                        proof {
                            lemma_fixed_error(views, *aperture, position + 1, count as int);
                        }
                        return Err(error);
                    },
                }
            }
        }
        position = position + 1;
    }
    Ok(addresses)
}

proof fn lemma_fixed_error(
    functions: Seq<FunctionSpecView>,
    aperture: Range<u64>,
    p: int,
    more: int,
)
    requires
        0 <= p <= more,
        fixed_pass(functions, aperture, p) is Err,
    ensures
        fixed_pass(functions, aperture, more) == fixed_pass(functions, aperture, p),
    decreases more,
{
    if p < more {
        lemma_fixed_error(functions, aperture, p, more - 1);
    }
}

proof fn lemma_auto_error(
    functions: Seq<FunctionSpecView>,
    aperture: Range<u64>,
    level: int,
    p: int,
    more_levels: int,
    more: int,
)
    requires
        0 <= level <= more_levels,
        0 <= p <= 6 * functions.len(),
        0 <= more <= 6 * functions.len(),
        level < more_levels || p <= more,
        auto_pass(functions, aperture, level, p) is Err,
    ensures
        auto_pass(functions, aperture, more_levels, more) == auto_pass(
            functions,
            aperture,
            level,
            p,
        ),
    decreases more_levels, more,
{
    if level == more_levels && p == more {
    } else if more > 0 {
        lemma_auto_error(functions, aperture, level, p, more_levels, more - 1);
    } else {
        lemma_auto_error(
            functions,
            aperture,
            level,
            p,
            more_levels - 1,
            6 * functions.len() as int,
        );
    }
}

/// Places every BAR: fixed requests first, then the others from the largest
/// size down.
pub fn resolve_bar_addresses(functions: &Vec<PciFunctionSpec>, aperture: &Range<u64>) -> (addresses:
    PciResult<Vec<Option<u64>>>)
    requires
        placement::declarations_ok(placement::spec_views(functions@)),
        functions@.len() <= 256,
    ensures
        ({
            let outcome = bar_outcome(placement::spec_views(functions@), *aperture);
            match addresses {
                Ok(addresses) => outcome == Ok::<Seq<Option<u64>>, PciErrorView>(addresses@),
                Err(error) => outcome == Err::<Seq<Option<u64>>, PciErrorView>(error@),
            }
        }),
{
    let ghost views = placement::spec_views(functions@);
    let table = build_table(functions);
    let count: usize = 6 * functions.len();
    let mut addresses = match place_fixed(functions, &table, aperture) {
        Ok(addresses) => addresses,
        Err(error) => {
            proof {
                lemma_auto_error(views, *aperture, 0, 0, SIZE_LEVELS as int, 0);
            }
            return Err(error);
        },
    };
    let mut level: u64 = 0;
    let mut size: u64 = 0x8000_0000_0000_0000;
    proof {
        lemma_table_is_sound(views);
        power2::lemma2_to64_rest();
    }
    while level < SIZE_LEVELS
        invariant
            level <= SIZE_LEVELS,
            size == level_size(level as int),
            count == 6 * functions@.len() == table@.len(),
            functions@.len() <= 256,
            views == placement::spec_views(functions@),
            placement::declarations_ok(views),
            table@ == bar_table(views),
            forall|p: int|
                0 <= p < table@.len() && #[trigger] table@[p] is Some ==> table@[p]->0.wf(),
            auto_pass(views, *aperture, level as int, 0) == Ok::<
                Seq<Option<u64>>,
                PciErrorView,
            >(addresses@),
        decreases SIZE_LEVELS - level,
    {
        let mut position: usize = 0;
        while position < count
            invariant
                position <= count,
                level < SIZE_LEVELS,
                size == level_size(level as int),
                count == 6 * functions@.len() == table@.len(),
                functions@.len() <= 256,
                views == placement::spec_views(functions@),
                placement::declarations_ok(views),
                table@ == bar_table(views),
                forall|p: int|
                    0 <= p < table@.len() && #[trigger] table@[p] is Some ==> table@[p]->0.wf(),
                auto_pass(views, *aperture, level as int, position as int) == Ok::<
                    Seq<Option<u64>>,
                    PciErrorView,
                >(addresses@),
            decreases count - position,
        {
            proof {
                lemma_auto_pass(views, *aperture, level as int, position as int);
                lemma_level_sizes(level as int);
                assert(views[position as int / 6] == functions@[position as int / 6]@);
            }
            if let Some(bar) = table[position] {
                assert(table@[position as int] is Some);
                let automatic = match bar.address {
                    ResourceRequest::Auto => true,
                    ResourceRequest::Fixed(_) => false,
                };
                if automatic && bar.size == size {
                    match first_fit(&table, &addresses, aperture, size) {
                        Some(address) => {
                            match checked_bar_range(aperture, &bar, address) {
                                Ok(_) => {
                                    addresses.set(position, Some(address));
                                },
                                Err(error) => {
                                    proof {
                                        lemma_auto_error(
                                            views,
                                            *aperture,
                                            level as int,
                                            position + 1,
                                            SIZE_LEVELS as int,
                                            0,
                                        );
                                    }
                                    return Err(error);
                                },
                            }
                        },
                        None => {
                            proof {
                                lemma_auto_error(
                                    views,
                                    *aperture,
                                    level as int,
                                    position + 1,
                                    SIZE_LEVELS as int,
                                    0,
                                );
                            }
                            return Err(
                                PciError::BarApertureExhausted {
                                    function: functions[position / 6].id.to_text(),
                                    bar: bar.index,
                                    size,
                                },
                            );
                        },
                    }
                }
            }
            position = position + 1;
        }
        proof {
            lemma_level_sizes(level as int);
            lemma_level_sizes(level + 1);
        }
        size = size / 2;
        level = level + 1;
    }
    Ok(addresses)
}

} // verus!
