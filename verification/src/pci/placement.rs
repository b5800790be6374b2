//! Deterministic placement of functions on bus zero.

use crate::device::ResourceRequest;
use crate::pci::address::{PciBdf, PciSegment};
use crate::pci::error::{PciError, PciErrorView, PciResult};
use crate::pci::function::{FunctionSpecView, PciFunctionSpec};
use crate::text;
use vstd::prelude::*;

verus! {

/// The contents of a list of declarations.
pub open spec fn spec_views(functions: Seq<PciFunctionSpec>) -> Seq<FunctionSpecView> {
    Seq::new(functions.len(), |i: int| functions[i]@)
}

/// Every declaration is sound, and they are in the order of their identities.
pub open spec fn declarations_ok(functions: Seq<FunctionSpecView>) -> bool {
    &&& forall|i: int| 0 <= i < functions.len() ==> (#[trigger] functions[i]).wf()
    &&& forall|i: int, j: int|
        0 <= i < j < functions.len() ==> text::text_less(
            (#[trigger] functions[i]).id,
            (#[trigger] functions[j]).id,
        )
}

// ---------------------------------------------------------------------------
// Functions
// ---------------------------------------------------------------------------

/// Why the address lies outside segment 0, bus 0, if it does.
pub open spec fn unsupported(bdf: PciBdf) -> Option<PciErrorView> {
    if bdf.segment.0 != 0 {
        Some(
            PciErrorView::InvalidAddress {
                component: "segment"@,
                value: bdf.segment.0 as u64,
            },
        )
    } else if bdf.bus != 0 {
        Some(PciErrorView::InvalidAddress { component: "bus"@, value: bdf.bus as u64 })
    } else {
        None
    }
}

/// Checks that an address lies in segment 0, bus 0.
pub fn validate_supported_bdf(bdf: PciBdf) -> (result: PciResult)
    ensures
        match result {
            Ok(()) => unsupported(bdf) is None,
            Err(error) => unsupported(bdf) == Some(error@),
        },
{
    if bdf.segment().value() != 0 {
        return Err(
            PciError::InvalidAddress { component: "segment", value: bdf.segment().value() as u64 },
        );
    }
    if bdf.bus() != 0 {
        return Err(PciError::InvalidAddress { component: "bus", value: bdf.bus() as u64 });
    }
    Ok(())
}

/// Function `i` asks for exactly this address.
pub open spec fn fixed_at(functions: Seq<FunctionSpecView>, i: int, bdf: PciBdf) -> bool {
    functions[i].bdf == ResourceRequest::Fixed(bdf)
}

/// Why the address that function `i` asks for cannot be granted, if it cannot.
pub open spec fn fixed_fault(
    functions: Seq<FunctionSpecView>,
    reserved: Seq<PciBdf>,
    i: int,
) -> Option<PciErrorView> {
    match functions[i].bdf {
        ResourceRequest::Auto => None,
        ResourceRequest::Fixed(bdf) => if unsupported(bdf) is Some {
            unsupported(bdf)
        } else if reserved.contains(bdf) {
            Some(PciErrorView::BdfReserved { bdf, function: functions[i].id })
        } else if exists|j: int| 0 <= j < i && #[trigger] fixed_at(functions, j, bdf) {
            let first = choose|j: int| 0 <= j < i && #[trigger] fixed_at(functions, j, bdf);
            Some(
                PciErrorView::DuplicateBdf {
                    bdf,
                    first: functions[first].id,
                    second: functions[i].id,
                },
            )
        } else {
            None
        },
    }
}

/// The first refusal of a fixed address, from function `i` on.
pub open spec fn first_fixed_fault(
    functions: Seq<FunctionSpecView>,
    reserved: Seq<PciBdf>,
    i: int,
) -> Option<PciErrorView>
    decreases functions.len() - i,
{
    if i < 0 || i >= functions.len() {
        None
    } else if fixed_fault(functions, reserved, i) is Some {
        fixed_fault(functions, reserved, i)
    } else {
        first_fixed_fault(functions, reserved, i + 1)
    }
}

/// Function `i` asks for an address on exactly this device.
pub open spec fn fixed_on(functions: Seq<FunctionSpecView>, i: int, device: int) -> bool {
    functions[i].bdf matches ResourceRequest::Fixed(bdf) && bdf.device == device
}

/// Some fixed function, reservation or earlier placement uses the device.
pub open spec fn device_taken(
    functions: Seq<FunctionSpecView>,
    reserved: Seq<PciBdf>,
    prior: Seq<PciBdf>,
    device: int,
) -> bool {
    ||| exists|i: int| 0 <= i < functions.len() && #[trigger] fixed_on(functions, i, device)
    ||| exists|i: int| 0 <= i < reserved.len() && (#[trigger] reserved[i]).device == device
    ||| exists|i: int| 0 <= i < prior.len() && (#[trigger] prior[i]).device == device
}

/// The first device from `from` on that nothing uses; 32 if there is none.
pub open spec fn first_free_device(
    functions: Seq<FunctionSpecView>,
    reserved: Seq<PciBdf>,
    prior: Seq<PciBdf>,
    from: int,
) -> int
    decreases 32 - from,
{
    if from >= 32 {
        32
    } else if !device_taken(functions, reserved, prior, from) {
        from
    } else {
        first_free_device(functions, reserved, prior, from + 1)
    }
}

/// Function zero of a device on bus zero.
pub open spec fn device_on_bus_zero(device: int) -> PciBdf {
    PciBdf { segment: PciSegment(0), bus: 0, device: device as u8, function: 0 }
}

/// The addresses of the first `count` functions: a fixed one where it asks to
/// be, any other on function zero of the first free device.
pub open spec fn placed(
    functions: Seq<FunctionSpecView>,
    reserved: Seq<PciBdf>,
    count: int,
) -> Seq<PciBdf>
    decreases count,
{
    if count <= 0 {
        Seq::empty()
    } else {
        let prior = placed(functions, reserved, count - 1);
        prior.push(
            match functions[count - 1].bdf {
                ResourceRequest::Fixed(bdf) => bdf,
                ResourceRequest::Auto => device_on_bus_zero(
                    first_free_device(functions, reserved, prior, 0),
                ),
            },
        )
    }
}

/// No device is left for function `i`.
pub open spec fn exhausted_at(
    functions: Seq<FunctionSpecView>,
    reserved: Seq<PciBdf>,
    i: int,
) -> bool {
    functions[i].bdf is Auto && first_free_device(
        functions,
        reserved,
        placed(functions, reserved, i),
        0,
    ) >= 32
}

/// The first function from `i` on that no device is left for.
pub open spec fn first_exhaustion(
    functions: Seq<FunctionSpecView>,
    reserved: Seq<PciBdf>,
    i: int,
) -> Option<PciErrorView>
    decreases functions.len() - i,
{
    if i < 0 || i >= functions.len() {
        None
    } else if exhausted_at(functions, reserved, i) {
        Some(PciErrorView::BdfExhausted { function: functions[i].id })
    } else {
        first_exhaustion(functions, reserved, i + 1)
    }
}

/// The addresses of all functions, or why some function has none.
pub open spec fn bdf_outcome(functions: Seq<FunctionSpecView>, reserved: Seq<PciBdf>) -> Result<
    Seq<PciBdf>,
    PciErrorView,
> {
    match first_fixed_fault(functions, reserved, 0) {
        Some(error) => Err(error),
        None => match first_exhaustion(functions, reserved, 0) {
            Some(error) => Err(error),
            None => Ok(placed(functions, reserved, functions.len() as int)),
        },
    }
}

proof fn lemma_no_fixed_fault(
    functions: Seq<FunctionSpecView>,
    reserved: Seq<PciBdf>,
    from: int,
    i: int,
)
    requires
        0 <= from <= i < functions.len(),
        first_fixed_fault(functions, reserved, from) is None,
    ensures
        fixed_fault(functions, reserved, i) is None,
    decreases i - from,
{
    if from < i {
        lemma_no_fixed_fault(functions, reserved, from + 1, i);
    }
}

proof fn lemma_no_exhaustion(
    functions: Seq<FunctionSpecView>,
    reserved: Seq<PciBdf>,
    from: int,
    i: int,
)
    requires
        0 <= from <= i < functions.len(),
        first_exhaustion(functions, reserved, from) is None,
    ensures
        !exhausted_at(functions, reserved, i),
    decreases i - from,
{
    if from < i {
        lemma_no_exhaustion(functions, reserved, from + 1, i);
    }
}

proof fn lemma_placed_prefix(
    functions: Seq<FunctionSpecView>,
    reserved: Seq<PciBdf>,
    count: int,
    more: int,
)
    requires
        0 <= count <= more,
    ensures
        placed(functions, reserved, count).len() == count,
        placed(functions, reserved, more).len() == more,
        placed(functions, reserved, more).take(count) == placed(functions, reserved, count),
    decreases more,
{
    if more > 0 {
        if count == more {
            lemma_placed_prefix(functions, reserved, count - 1, more - 1);
            assert(placed(functions, reserved, more).take(count) =~= placed(
                functions,
                reserved,
                count,
            ));
        } else {
            lemma_placed_prefix(functions, reserved, count, more - 1);
            assert(placed(functions, reserved, more).take(count) =~= placed(
                functions,
                reserved,
                more - 1,
            ).take(count));
        }
    } else {
        assert(placed(functions, reserved, more).take(count) =~= placed(functions, reserved, count));
    }
}

proof fn lemma_first_free_device(
    functions: Seq<FunctionSpecView>,
    reserved: Seq<PciBdf>,
    prior: Seq<PciBdf>,
    from: int,
)
    requires
        0 <= from,
    ensures
        ({
            let device = first_free_device(functions, reserved, prior, from);
            &&& from <= device || device == 32
            &&& device <= 32
            &&& device < 32 ==> !device_taken(functions, reserved, prior, device)
            &&& forall|other: int|
                from <= other < device ==> #[trigger] device_taken(
                    functions,
                    reserved,
                    prior,
                    other,
                )
        }),
    decreases 32 - from,
{
    if from < 32 && device_taken(functions, reserved, prior, from) {
        lemma_first_free_device(functions, reserved, prior, from + 1);
    }
}

/// What placement grants: every function has an address on bus zero, no two
/// have the same one, and an automatically placed function has a device of its
/// own that no reservation touches.
pub proof fn law_addresses_are_distinct(
    functions: Seq<FunctionSpecView>,
    reserved: Seq<PciBdf>,
    i: int,
    j: int,
)
    requires
        declarations_ok(functions),
        bdf_outcome(functions, reserved) is Ok,
        0 <= i < functions.len(),
        0 <= j < functions.len(),
    ensures
        ({
            let bdfs = bdf_outcome(functions, reserved)->Ok_0;
            &&& bdfs.len() == functions.len()
            &&& bdfs[i].wf() && bdfs[i].segment == PciSegment(0) && bdfs[i].bus == 0
            &&& functions[i].bdf matches ResourceRequest::Fixed(bdf) ==> bdfs[i] == bdf
            &&& !reserved.contains(bdfs[i])
            &&& i != j ==> bdfs[i] != bdfs[j]
            &&& i != j && functions[i].bdf is Auto ==> bdfs[i].device != bdfs[j].device
        }),
    decreases functions.len() - i,
{
    let n = functions.len() as int;
    let bdfs = placed(functions, reserved, n);
    lemma_placed_prefix(functions, reserved, i, n);
    lemma_placed_prefix(functions, reserved, j, n);
    lemma_placed_prefix(functions, reserved, i + 1, n);
    lemma_placed_prefix(functions, reserved, j + 1, n);
    lemma_no_fixed_fault(functions, reserved, 0, i);
    lemma_no_fixed_fault(functions, reserved, 0, j);
    lemma_no_exhaustion(functions, reserved, 0, i);
    lemma_no_exhaustion(functions, reserved, 0, j);
    assert(functions[i].wf());
    let prior_i = placed(functions, reserved, i);
    let prior_j = placed(functions, reserved, j);
    assert(bdfs[i] == placed(functions, reserved, n).take(i + 1)[i]);
    assert(bdfs[j] == placed(functions, reserved, n).take(j + 1)[j]);
    lemma_first_free_device(functions, reserved, prior_i, 0);
    lemma_first_free_device(functions, reserved, prior_j, 0);
    if functions[i].bdf is Auto {
        if reserved.contains(bdfs[i]) {
            let k = choose|k: int| 0 <= k < reserved.len() && reserved[k] == bdfs[i];
            assert(reserved[k].device == bdfs[i].device);
        }
    }
    if i != j {
        match (functions[i].bdf, functions[j].bdf) {
            (ResourceRequest::Fixed(a), ResourceRequest::Fixed(b)) => {
                if a == b {
                    if i < j {
                        assert(fixed_at(functions, i, b));
                    } else {
                        assert(fixed_at(functions, j, a));
                    }
                }
            },
            (ResourceRequest::Auto, ResourceRequest::Fixed(b)) => {
                assert(fixed_on(functions, j, b.device as int));
            },
            (ResourceRequest::Fixed(a), ResourceRequest::Auto) => {
                assert(fixed_on(functions, i, a.device as int));
            },
            (ResourceRequest::Auto, ResourceRequest::Auto) => {
                if i < j {
                    lemma_placed_prefix(functions, reserved, i + 1, j);
                    assert(prior_j.take(i + 1)[i] == prior_j[i]);
                    assert(prior_j[i].device == bdfs[i].device);
                } else {
                    lemma_placed_prefix(functions, reserved, j + 1, i);
                    assert(prior_i.take(j + 1)[j] == prior_i[j]);
                    assert(prior_i[j].device == bdfs[j].device);
                }
            },
        }
    }
}

/// The device is used by a function that asks for it, by a reservation, or by one
/// of the first `count` placements.
pub open spec fn uses_device(
    functions: Seq<FunctionSpecView>,
    reserved: Seq<PciBdf>,
    placements: Seq<PciBdf>,
    count: int,
    device: int,
) -> bool {
    ||| exists|j: int|
        0 <= j < functions.len() && ((#[trigger] functions[j]).bdf matches ResourceRequest::Fixed(
            bdf,
        ) && bdf.device == device)
    ||| exists|j: int| 0 <= j < reserved.len() && (#[trigger] reserved[j]).device == device
    ||| exists|j: int| 0 <= j < count && (#[trigger] placements[j]).device == device
}

proof fn lemma_uses_device(
    functions: Seq<FunctionSpecView>,
    reserved: Seq<PciBdf>,
    placements: Seq<PciBdf>,
    device: int,
)
    ensures
        device_taken(functions, reserved, placements, device) <==> uses_device(
            functions,
            reserved,
            placements,
            placements.len() as int,
            device,
        ),
{
    if device_taken(functions, reserved, placements, device) {
        if exists|i: int| 0 <= i < functions.len() && #[trigger] fixed_on(functions, i, device) {
            let i = choose|i: int|
                0 <= i < functions.len() && #[trigger] fixed_on(functions, i, device);
            assert(functions[i].bdf matches ResourceRequest::Fixed(bdf) && bdf.device == device);
        }
    }
    if uses_device(functions, reserved, placements, placements.len() as int, device) {
        if exists|j: int|
            0 <= j < functions.len() && ((
            #[trigger] functions[j]).bdf matches ResourceRequest::Fixed(bdf) && bdf.device
                == device) {
            let j = choose|j: int|
                0 <= j < functions.len() && ((
                #[trigger] functions[j]).bdf matches ResourceRequest::Fixed(bdf) && bdf.device
                    == device);
            assert(fixed_on(functions, j, device));
        }
    }
}

/// An automatic function becomes function zero of the lowest device that no fixed
/// function, no reservation and no earlier function uses.
pub proof fn law_automatic_functions_take_the_lowest_free_device(
    functions: Seq<FunctionSpecView>,
    reserved: Seq<PciBdf>,
    i: int,
    device: int,
)
    requires
        declarations_ok(functions),
        bdf_outcome(functions, reserved) is Ok,
        0 <= i < functions.len(),
        functions[i].bdf is Auto,
        0 <= device < 32,
    ensures
        ({
            let bdfs = bdf_outcome(functions, reserved)->Ok_0;
            &&& bdfs[i].function == 0
            &&& device < bdfs[i].device ==> uses_device(functions, reserved, bdfs, i, device)
            &&& device == bdfs[i].device ==> !uses_device(functions, reserved, bdfs, i, device)
        }),
{
    let n = functions.len() as int;
    let bdfs = placed(functions, reserved, n);
    let prior = placed(functions, reserved, i);
    lemma_placed_prefix(functions, reserved, i, n);
    lemma_placed_prefix(functions, reserved, i + 1, n);
    lemma_no_exhaustion(functions, reserved, 0, i);
    lemma_first_free_device(functions, reserved, prior, 0);
    assert(bdfs[i] == bdfs.take(i + 1)[i]);
    assert forall|j: int| 0 <= j < i implies #[trigger] bdfs[j] == prior[j] by {
        assert(bdfs.take(i)[j] == prior[j]);
    }
    lemma_uses_device(functions, reserved, prior, device);
    if uses_device(functions, reserved, prior, i, device) {
        if exists|j: int| 0 <= j < i && (#[trigger] prior[j]).device == device {
            let j = choose|j: int| 0 <= j < i && (#[trigger] prior[j]).device == device;
            assert(bdfs[j].device == device);
        }
        assert(uses_device(functions, reserved, bdfs, i, device));
    }
    if uses_device(functions, reserved, bdfs, i, device) {
        if exists|j: int| 0 <= j < i && (#[trigger] bdfs[j]).device == device {
            let j = choose|j: int| 0 <= j < i && (#[trigger] bdfs[j]).device == device;
            assert(prior[j].device == device);
        }
        assert(uses_device(functions, reserved, prior, i, device));
    }
}

/// Function `i` asks for an address that cannot be granted: outside segment 0 or bus
/// 0, reserved, or asked for by an earlier function.
pub open spec fn fixed_cause(
    functions: Seq<FunctionSpecView>,
    reserved: Seq<PciBdf>,
    i: int,
) -> bool {
    functions[i].bdf matches ResourceRequest::Fixed(bdf) && {
        ||| bdf.segment.0 != 0
        ||| bdf.bus != 0
        ||| exists|j: int| 0 <= j < reserved.len() && #[trigger] reserved[j] == bdf
        ||| exists|j: int|
            0 <= j < i && (#[trigger] functions[j]).bdf == ResourceRequest::Fixed(bdf)
    }
}

/// Function `i` is automatic and all 32 devices are used.
pub open spec fn automatic_cause(
    functions: Seq<FunctionSpecView>,
    reserved: Seq<PciBdf>,
    placements: Seq<PciBdf>,
    i: int,
) -> bool {
    &&& functions[i].bdf is Auto
    &&& placements.len() == i
    &&& forall|device: int|
        0 <= device < 32 ==> #[trigger] uses_device(functions, reserved, placements, i, device)
}

/// Addresses are granted exactly when no function asks for one that cannot be
/// granted and no automatic function finds all 32 devices used.
pub proof fn law_addresses_are_refused_only_for_cause(
    functions: Seq<FunctionSpecView>,
    reserved: Seq<PciBdf>,
)
    ensures
        bdf_outcome(functions, reserved) is Err ==> exists|i: int|
            0 <= i < functions.len() && (#[trigger] fixed_cause(functions, reserved, i) || exists|
                placements: Seq<PciBdf>,
            | #[trigger] automatic_cause(functions, reserved, placements, i)),
        bdf_outcome(functions, reserved) is Ok ==> forall|i: int|
            0 <= i < functions.len() ==> !#[trigger] fixed_cause(functions, reserved, i),
{
    if first_fixed_fault(functions, reserved, 0) is Some {
        let i = lemma_found_fixed_fault(functions, reserved, 0);
        lemma_fixed_cause(functions, reserved, i);
        assert(fixed_cause(functions, reserved, i));
    } else if first_exhaustion(functions, reserved, 0) is Some {
        let i = lemma_found_exhaustion(functions, reserved, 0);
        let prior = placed(functions, reserved, i);
        lemma_placed_prefix(functions, reserved, i, i);
        lemma_first_free_device(functions, reserved, prior, 0);
        assert forall|device: int| 0 <= device < 32 implies #[trigger] uses_device(
            functions,
            reserved,
            prior,
            i,
            device,
        ) by {
            assert(device_taken(functions, reserved, prior, device));
            lemma_uses_device(functions, reserved, prior, device);
        }
        assert(automatic_cause(functions, reserved, prior, i));
        assert(0 <= i < functions.len() && (fixed_cause(functions, reserved, i) || exists|
            placements: Seq<PciBdf>,
        | #[trigger] automatic_cause(functions, reserved, placements, i)));
    } else {
        assert forall|i: int| 0 <= i < functions.len() implies !#[trigger] fixed_cause(
            functions,
            reserved,
            i,
        ) by {
            lemma_no_fixed_fault(functions, reserved, 0, i);
            lemma_fixed_cause(functions, reserved, i);
        }
    }
}

proof fn lemma_fixed_cause(functions: Seq<FunctionSpecView>, reserved: Seq<PciBdf>, i: int)
    ensures
        fixed_fault(functions, reserved, i) is Some <==> fixed_cause(functions, reserved, i),
{
    match functions[i].bdf {
        ResourceRequest::Auto => {},
        ResourceRequest::Fixed(bdf) => {
            if reserved.contains(bdf) {
                let j = choose|j: int| 0 <= j < reserved.len() && reserved[j] == bdf;
                assert(reserved[j] == bdf);
            }
            if exists|j: int| 0 <= j < i && #[trigger] fixed_at(functions, j, bdf) {
                let j = choose|j: int| 0 <= j < i && #[trigger] fixed_at(functions, j, bdf);
                assert(functions[j].bdf == ResourceRequest::Fixed(bdf));
            }
            if exists|j: int|
                0 <= j < i && (#[trigger] functions[j]).bdf == ResourceRequest::Fixed(bdf) {
                let j = choose|j: int|
                    0 <= j < i && (#[trigger] functions[j]).bdf == ResourceRequest::Fixed(bdf);
                assert(fixed_at(functions, j, bdf));
            }
        },
    }
}

proof fn lemma_found_fixed_fault(
    functions: Seq<FunctionSpecView>,
    reserved: Seq<PciBdf>,
    from: int,
) -> (i: int)
    requires
        0 <= from,
        first_fixed_fault(functions, reserved, from) is Some,
    ensures
        from <= i < functions.len(),
        fixed_fault(functions, reserved, i) is Some,
    decreases functions.len() - from,
{
    if fixed_fault(functions, reserved, from) is Some {
        from
    } else {
        lemma_found_fixed_fault(functions, reserved, from + 1)
    }
}

proof fn lemma_found_exhaustion(
    functions: Seq<FunctionSpecView>,
    reserved: Seq<PciBdf>,
    from: int,
) -> (i: int)
    requires
        0 <= from,
        first_exhaustion(functions, reserved, from) is Some,
    ensures
        from <= i < functions.len(),
        exhausted_at(functions, reserved, i),
    decreases functions.len() - from,
{
    if exhausted_at(functions, reserved, from) {
        from
    } else {
        lemma_found_exhaustion(functions, reserved, from + 1)
    }
}

/// Placed functions are at most as many as bus zero has addresses.
pub proof fn lemma_placed_functions_fit_the_bus(
    functions: Seq<FunctionSpecView>,
    reserved: Seq<PciBdf>,
)
    requires
        declarations_ok(functions),
        bdf_outcome(functions, reserved) is Ok,
    ensures
        functions.len() <= 256,
        bdf_outcome(functions, reserved)->Ok_0.len() == functions.len(),
{
    lemma_placed_prefix(functions, reserved, 0, functions.len() as int);
    let bdfs = bdf_outcome(functions, reserved)->Ok_0;
    if functions.len() > 0 {
        law_addresses_are_distinct(functions, reserved, 0, 0);
    }
    let ranks = Seq::new(functions.len(), |i: int| bdfs[i].device * 8 + bdfs[i].function);
    assert forall|i: int, j: int| 0 <= i < j < ranks.len() implies ranks[i] != ranks[j] by {
        law_addresses_are_distinct(functions, reserved, i, j);
        law_addresses_are_distinct(functions, reserved, j, i);
    }
    ranks.unique_seq_to_set();
    let all = vstd::set_lib::set_int_range(0, 256);
    vstd::set_lib::lemma_int_range(0, 256);
    assert forall|rank: int| ranks.to_set().contains(rank) implies all.contains(rank) by {
        let i = choose|i: int| 0 <= i < ranks.len() && ranks[i] == rank;
        law_addresses_are_distinct(functions, reserved, i, i);
    }
    vstd::set_lib::lemma_len_subset(ranks.to_set(), all);
}

/// Tells whether some declaration fixes its address on `device`.
fn fixed_on_device(functions: &Vec<PciFunctionSpec>, device: u8) -> (found: bool)
    ensures
        found == exists|i: int|
            0 <= i < functions@.len() && #[trigger] fixed_on(
                spec_views(functions@),
                i,
                device as int,
            ),
{
    let ghost views = spec_views(functions@);
    let mut index: usize = 0;
    while index < functions.len()
        invariant
            index <= functions.len(),
            views == spec_views(functions@),
            forall|i: int|
                0 <= i < index ==> !#[trigger] fixed_on(views, i, device as int),
        decreases functions.len() - index,
    {
        assert(views[index as int] == functions@[index as int]@);
        match functions[index].bdf {
            ResourceRequest::Fixed(bdf) => {
                if bdf.device == device {
                    assert(fixed_on(views, index as int, device as int));
                    return true;
                }
            },
            ResourceRequest::Auto => {},
        }
        index = index + 1;
    }
    false
}

/// Tells whether some address of the list lies on `device`.
fn on_device(bdfs: &Vec<PciBdf>, device: u8) -> (found: bool)
    ensures
        found == exists|i: int| 0 <= i < bdfs@.len() && (#[trigger] bdfs@[i]).device == device,
{
    let mut index: usize = 0;
    while index < bdfs.len()
        invariant
            index <= bdfs.len(),
            forall|i: int| 0 <= i < index ==> (#[trigger] bdfs@[i]).device != device,
        decreases bdfs.len() - index,
    {
        if bdfs[index].device == device {
            return true;
        }
        index = index + 1;
    }
    false
}

/// Finds the first device that nothing uses.
fn find_free_device(
    functions: &Vec<PciFunctionSpec>,
    reserved: &Vec<PciBdf>,
    prior: &Vec<PciBdf>,
) -> (device: u8)
    ensures
        device == first_free_device(spec_views(functions@), reserved@, prior@, 0),
        device <= 32,
{
    let mut device: u8 = 0;
    while device < 32
        invariant
            device <= 32,
            first_free_device(spec_views(functions@), reserved@, prior@, 0) == first_free_device(
                spec_views(functions@),
                reserved@,
                prior@,
                device as int,
            ),
        decreases 32 - device,
    {
        let fixed = fixed_on_device(functions, device);
        let held = on_device(reserved, device);
        let used = on_device(prior, device);
        assert(fixed || held || used <==> device_taken(
            spec_views(functions@),
            reserved@,
            prior@,
            device as int,
        )) by {
            assert(spec_views(functions@).len() == functions@.len());
        }
        if !fixed && !held && !used {
            return device;
        }
        device = device + 1;
    }
    device
}

/// Tells whether the list holds the address.
fn contains_bdf(bdfs: &Vec<PciBdf>, bdf: PciBdf) -> (found: bool)
    ensures
        found == bdfs@.contains(bdf),
{
    let mut index: usize = 0;
    while index < bdfs.len()
        invariant
            index <= bdfs.len(),
            forall|i: int| 0 <= i < index ==> bdfs@[i] != bdf,
        decreases bdfs.len() - index,
    {
        if bdfs[index] == bdf {
            return true;
        }
        index = index + 1;
    }
    false
}

/// Checks the address that function `index` asks for.
fn check_fixed_bdf(
    functions: &Vec<PciFunctionSpec>,
    reserved: &Vec<PciBdf>,
    index: usize,
) -> (result: PciResult)
    requires
        index < functions@.len(),
        forall|i: int|
            0 <= i < index ==> #[trigger] fixed_fault(spec_views(functions@), reserved@, i) is None,
    ensures
        match result {
            Ok(()) => fixed_fault(spec_views(functions@), reserved@, index as int) is None,
            Err(error) => fixed_fault(spec_views(functions@), reserved@, index as int) == Some(
                error@,
            ),
        },
{
    let ghost views = spec_views(functions@);
    assert(views[index as int] == functions@[index as int]@);
    let bdf = match functions[index].bdf {
        ResourceRequest::Auto => {
            return Ok(());
        },
        ResourceRequest::Fixed(bdf) => bdf,
    };
    validate_supported_bdf(bdf)?;
    if contains_bdf(reserved, bdf) {
        return Err(PciError::BdfReserved { bdf, function: functions[index].id.to_text() });
    }
    let mut other: usize = 0;
    while other < index
        invariant
            other <= index < functions@.len(),
            views == spec_views(functions@),
            fixed_at(views, index as int, bdf),
            unsupported(bdf) is None,
            !reserved@.contains(bdf),
            forall|i: int| 0 <= i < index ==> #[trigger] fixed_fault(views, reserved@, i) is None,
            forall|i: int| 0 <= i < other ==> !#[trigger] fixed_at(views, i, bdf),
        decreases index - other,
    {
        assert(views[other as int] == functions@[other as int]@);
        if let ResourceRequest::Fixed(taken) = functions[other].bdf {
            if taken == bdf {
                proof {
                    assert(fixed_at(views, other as int, bdf));
                    let first = choose|j: int| 0 <= j < index && #[trigger] fixed_at(views, j, bdf);
                    if first > other {
                        assert(fixed_fault(views, reserved@, first) is None);
                    }
                    assert(first == other);
                    assert(views[first].id == functions@[other as int].id@);
                }
                return Err(
                    PciError::DuplicateBdf {
                        bdf,
                        first: functions[other].id.to_text(),
                        second: functions[index].id.to_text(),
                    },
                );
            }
        }
        other = other + 1;
    }
    Ok(())
}

/// Places every function: fixed requests first, then the others in the order
/// of their identities on the first free devices.
pub fn resolve_bdfs(functions: &Vec<PciFunctionSpec>, reserved: &Vec<PciBdf>) -> (bdfs: PciResult<
    Vec<PciBdf>,
>)
    ensures
        match bdfs {
            Ok(bdfs) => bdf_outcome(spec_views(functions@), reserved@) == Ok::<
                Seq<PciBdf>,
                PciErrorView,
            >(bdfs@),
            Err(error) => bdf_outcome(spec_views(functions@), reserved@) == Err::<
                Seq<PciBdf>,
                PciErrorView,
            >(error@),
        },
{
    let ghost views = spec_views(functions@);
    let mut index: usize = 0;
    while index < functions.len()
        invariant
            index <= functions.len(),
            views == spec_views(functions@),
            first_fixed_fault(views, reserved@, 0) == first_fixed_fault(
                views,
                reserved@,
                index as int,
            ),
            forall|i: int| 0 <= i < index ==> #[trigger] fixed_fault(views, reserved@, i) is None,
        decreases functions.len() - index,
    {
        match check_fixed_bdf(functions, reserved, index) {
            Ok(()) => {},
            Err(error) => {
                return Err(error);
            },
        }
        index = index + 1;
    }
    let mut placed_bdfs: Vec<PciBdf> = Vec::new();
    let mut index: usize = 0;
    while index < functions.len()
        invariant
            index <= functions.len(),
            views == spec_views(functions@),
            first_fixed_fault(views, reserved@, 0) is None,
            first_exhaustion(views, reserved@, 0) == first_exhaustion(
                views,
                reserved@,
                index as int,
            ),
            placed_bdfs@ == placed(views, reserved@, index as int),
        decreases functions.len() - index,
    {
        assert(views[index as int] == functions@[index as int]@);
        let bdf = match functions[index].bdf {
            ResourceRequest::Fixed(bdf) => bdf,
            ResourceRequest::Auto => {
                let device: u8 = find_free_device(functions, reserved, &placed_bdfs);
                if device >= 32 {
                    return Err(PciError::BdfExhausted { function: functions[index].id.to_text() });
                }
                PciBdf { segment: PciSegment(0), bus: 0, device, function: 0 }
            },
        };
        placed_bdfs.push(bdf);
        index = index + 1;
    }
    Ok(placed_bdfs)
}

/// Function `i` is not function zero, and its device has none.
pub open spec fn orphan(bdfs: Seq<PciBdf>, i: int) -> bool {
    bdfs[i].function != 0 && !bdfs.contains(PciBdf { function: 0, ..bdfs[i] })
}

/// The first function from `i` on whose device has no function zero.
pub open spec fn first_orphan(bdfs: Seq<PciBdf>, i: int) -> Option<PciErrorView>
    decreases bdfs.len() - i,
{
    if i < 0 || i >= bdfs.len() {
        None
    } else if orphan(bdfs, i) {
        Some(PciErrorView::MissingFunctionZero { bdf: bdfs[i] })
    } else {
        first_orphan(bdfs, i + 1)
    }
}

/// Checks that every device has a function zero.
pub fn validate_function_zero(bdfs: &Vec<PciBdf>) -> (result: PciResult)
    ensures
        match result {
            Ok(()) => first_orphan(bdfs@, 0) is None,
            Err(error) => first_orphan(bdfs@, 0) == Some(error@),
        },
{
    let mut index: usize = 0;
    while index < bdfs.len()
        invariant
            index <= bdfs.len(),
            first_orphan(bdfs@, 0) == first_orphan(bdfs@, index as int),
        decreases bdfs.len() - index,
    {
        let bdf = bdfs[index];
        if bdf.function() != 0 && !contains_bdf(bdfs, PciBdf { function: 0, ..bdf }) {
            return Err(PciError::MissingFunctionZero { bdf });
        }
        index = index + 1;
    }
    Ok(())
}

/// The device of function `i` has another function.
pub open spec fn shares_device(bdfs: Seq<PciBdf>, i: int) -> bool {
    exists|j: int| 0 <= j < bdfs.len() && j != i && (#[trigger] bdfs[j]).device == bdfs[i].device
}

/// Tells whether the device of function `index` has another function.
pub fn is_multifunction(bdfs: &Vec<PciBdf>, index: usize) -> (result: bool)
    requires
        index < bdfs@.len(),
    ensures
        result == shares_device(bdfs@, index as int),
{
    let mut other: usize = 0;
    while other < bdfs.len()
        invariant
            other <= bdfs.len(),
            index < bdfs@.len(),
            forall|j: int|
                0 <= j < other && j != index ==> (#[trigger] bdfs@[j]).device
                    != bdfs@[index as int].device,
        decreases bdfs.len() - other,
    {
        if other != index && bdfs[other].device() == bdfs[index].device() {
            return true;
        }
        other = other + 1;
    }
    false
}

} // verus!
