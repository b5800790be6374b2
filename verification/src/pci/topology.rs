//! Deterministic Type-0 function and BAR resolution.

use crate::device::{DeviceNodeId, ResourceRequest};
use crate::pci::address;
use crate::pci::address::{PciBarIndex, PciBdf};
use crate::pci::aperture;
use crate::pci::bar;
use crate::pci::bar::{PciMemoryBar, PciMemoryBarWidth, ResolvedBarPlan};
use crate::pci::capability;
use crate::pci::config;
use crate::pci::config::{PowerOnConfig, PowerOnView};
use crate::pci::error::{PciError, PciErrorView, PciResult};
use crate::pci::function;
use crate::pci::function::{FunctionSpecView, PciFunctionSpec};
use crate::pci::msix::PciMsixDeclaration;
use crate::pci::placement;
use crate::text;
use std::ops::Range;
use vstd::prelude::*;

verus! {

/// Mutable PCI topology declaration sealed before VM execution.
///
/// Declarations are kept in the order of their identities.
#[derive(Debug)]
pub struct PciTopologyBuilder {
    pub functions: Vec<PciFunctionSpec>,
    pub reserved: Vec<PciBdf>,
}

/// One immutable, resolved PCI function.
#[derive(Debug)]
pub struct ResolvedPciFunction {
    pub id: DeviceNodeId,
    pub bdf: PciBdf,
    pub bars: Vec<ResolvedBarPlan>,
    pub power_on: PowerOnConfig,
    pub msix: Option<PciMsixDeclaration>,
}

/// The contents of a [`ResolvedPciFunction`].
pub struct ResolvedFunctionView {
    pub id: Seq<char>,
    pub bdf: PciBdf,
    pub bars: Seq<ResolvedBarPlan>,
    pub power_on: PowerOnView,
    pub msix: Option<PciMsixDeclaration>,
}

impl View for ResolvedPciFunction {
    type V = ResolvedFunctionView;

    open spec fn view(&self) -> ResolvedFunctionView {
        ResolvedFunctionView {
            id: self.id@,
            bdf: self.bdf,
            bars: self.bars@,
            power_on: self.power_on@,
            msix: self.msix,
        }
    }
}

/// Public immutable view of one resolved memory BAR.
#[derive(Clone, Copy, Debug, PartialEq, Eq, Structural)]
pub struct ResolvedPciBar(pub ResolvedBarPlan);

impl ResolvedPciBar {
    /// Returns the first BAR slot.
    pub fn index(self) -> (index: PciBarIndex)
        ensures
            index == self.0.index,
    {
        self.0.index
    }

    /// Returns the assigned PCI/guest-physical address.
    pub fn address(self) -> (address: u64)
        ensures
            address == self.0.address,
    {
        self.0.address
    }

    /// Returns the fixed size.
    pub fn size(self) -> (size: u64)
        ensures
            size == self.0.size,
    {
        self.0.size
    }

    /// Returns the encoded width.
    pub fn width(self) -> (width: PciMemoryBarWidth)
        ensures
            width == self.0.width,
    {
        self.0.width
    }
}

/// Immutable PCI topology shared by firmware planning and runtime creation.
#[derive(Debug)]
pub struct ResolvedPciTopology {
    pub memory_aperture: Range<u64>,
    pub functions: Vec<ResolvedPciFunction>,
}

/// The contents of a list of resolved functions.
pub open spec fn resolved_views(functions: Seq<ResolvedPciFunction>) -> Seq<ResolvedFunctionView> {
    Seq::new(functions.len(), |k: int| functions[k]@)
}

/// The two BARs have no address in common.
pub open spec fn plans_apart(left: ResolvedBarPlan, right: ResolvedBarPlan) -> bool {
    left.address + left.size <= right.address || right.address + right.size <= left.address
}

/// A sound resolved topology: functions in strict BDF order, every BAR sound
/// and in the aperture, and no two BARs overlapping.
pub open spec fn topology_ok(
    functions: Seq<ResolvedFunctionView>,
    memory_aperture: Range<u64>,
) -> bool {
    &&& forall|k: int|
        0 <= k < functions.len() ==> {
            &&& (#[trigger] functions[k]).bdf.wf()
            &&& functions[k].power_on.wf()
            &&& config::plans_ok(functions[k].bars)
        }
    &&& forall|k: int, l: int|
        0 <= k < l < functions.len() ==> (#[trigger] functions[k]).bdf.rank() < (
        #[trigger] functions[l]).bdf.rank()
    &&& forall|k: int, b: int|
        0 <= k < functions.len() && 0 <= b < functions[k].bars.len() ==> {
            let plan = #[trigger] functions[k].bars[b];
            memory_aperture.start <= plan.address && plan.address + plan.size <= memory_aperture.end
        }
    &&& forall|k: int, b: int, l: int, c: int|
        0 <= k < functions.len() && 0 <= l < functions.len() && 0 <= b < functions[k].bars.len()
            && 0 <= c < functions[l].bars.len() && (k != l || b != c) ==> plans_apart(
            #[trigger] functions[k].bars[b],
            #[trigger] functions[l].bars[c],
        )
}

impl ResolvedPciTopology {
    /// The resolved functions in BDF order.
    pub open spec fn plans(self) -> Seq<ResolvedFunctionView> {
        resolved_views(self.functions@)
    }

    /// The topology is sound.
    pub open spec fn wf(self) -> bool {
        topology_ok(self.plans(), self.memory_aperture)
    }

    /// Returns the memory aperture that holds all BARs.
    pub fn memory_aperture(&self) -> (aperture: &Range<u64>)
        ensures
            *aperture == self.memory_aperture,
    {
        &self.memory_aperture
    }

    /// Returns functions in BDF order.
    pub fn functions(&self) -> (functions: &Vec<ResolvedPciFunction>)
        ensures
            *functions == self.functions,
    {
        &self.functions
    }

    /// Finds one function by stable identity.
    pub fn function(&self, id: &DeviceNodeId) -> (found: Option<&ResolvedPciFunction>)
        ensures
            match found {
                Some(function) => function@.id == id@ && self.plans().contains(function@),
                None => forall|k: int|
                    0 <= k < self.plans().len() ==> (#[trigger] self.plans()[k]).id != id@,
            },
    {
        let mut index: usize = 0;
        while index < self.functions.len()
            invariant
                index <= self.functions.len(),
                forall|k: int| 0 <= k < index ==> (#[trigger] self.plans()[k]).id != id@,
            decreases self.functions.len() - index,
        {
            assert(self.plans()[index as int] == self.functions@[index as int]@);
            if self.functions[index].id.same(id) {
                return Some(&self.functions[index]);
            }
            index = index + 1;
        }
        None
    }
}

impl ResolvedPciFunction {
    /// Returns the stable function identity.
    pub fn id(&self) -> (id: &DeviceNodeId)
        ensures
            id@ == self@.id,
    {
        &self.id
    }

    /// Returns the resolved BDF.
    pub fn bdf(&self) -> (bdf: PciBdf)
        ensures
            bdf == self@.bdf,
    {
        self.bdf
    }

    /// Returns one resolved BAR descriptor.
    pub fn bar(&self, index: PciBarIndex) -> (found: Option<ResolvedPciBar>)
        ensures
            match found {
                Some(found) => found.0.index == index && self@.bars.contains(found.0),
                None => forall|b: int|
                    0 <= b < self@.bars.len() ==> (#[trigger] self@.bars[b]).index != index,
            },
    {
        let mut position: usize = 0;
        while position < self.bars.len()
            invariant
                position <= self.bars.len(),
                forall|b: int| 0 <= b < position ==> (#[trigger] self@.bars[b]).index != index,
            decreases self.bars.len() - position,
        {
            if self.bars[position].index == index {
                return Some(ResolvedPciBar(self.bars[position]));
            }
            position = position + 1;
        }
        None
    }
}

/// The resolved BARs of function `i`.
pub open spec fn planned_bars(
    functions: Seq<FunctionSpecView>,
    addresses: Seq<Option<u64>>,
    i: int,
) -> Seq<ResolvedBarPlan> {
    Seq::new(
        functions[i].bars.len(),
        |b: int| planned_bar(functions[i].bars[b], addresses, i),
    )
}

/// One resolved BAR of function `i`.
pub open spec fn planned_bar(
    bar: PciMemoryBar,
    addresses: Seq<Option<u64>>,
    i: int,
) -> ResolvedBarPlan {
    ResolvedBarPlan {
        index: bar.index,
        size: bar.size,
        width: bar.width,
        prefetchable: bar.prefetchable,
        policy: bar.decode_policy,
        address: addresses[6 * i + bar.index.0]->0,
    }
}

/// `resolved` is what declaration `i` resolves to.
pub open spec fn resolves_to(
    functions: Seq<FunctionSpecView>,
    bdfs: Seq<PciBdf>,
    addresses: Seq<Option<u64>>,
    i: int,
    resolved: ResolvedFunctionView,
) -> bool {
    &&& resolved.id == functions[i].id
    &&& resolved.bdf == bdfs[i]
    &&& resolved.bars == planned_bars(functions, addresses, i)
    &&& resolved.msix == functions[i].msix
    &&& resolved.power_on.describes(
        functions[i].identity,
        resolved.bars,
        functions[i].chain(),
        placement::shares_device(bdfs, i),
    )
}

/// The first declaration from `i` on with the vendor ID of an absent function.
pub open spec fn first_identity_fault(functions: Seq<FunctionSpecView>, i: int) -> Option<
    PciErrorView,
>
    decreases functions.len() - i,
{
    if i < 0 || i >= functions.len() {
        None
    } else if functions[i].identity.vendor_id == 0xffff {
        Some(
            PciErrorView::InvalidEndpointIdentity {
                detail: "vendor ID 0xffff denotes an absent function"@,
            },
        )
    } else {
        first_identity_fault(functions, i + 1)
    }
}

/// Why the declarations cannot be resolved, if they cannot.
pub open spec fn resolution_fault(
    functions: Seq<FunctionSpecView>,
    reserved: Seq<PciBdf>,
    memory_aperture: Range<u64>,
) -> Option<PciErrorView> {
    match placement::bdf_outcome(functions, reserved) {
        Err(error) => Some(error),
        Ok(bdfs) => match placement::first_orphan(bdfs, 0) {
            Some(error) => Some(error),
            None => match aperture::bar_outcome(functions, memory_aperture) {
                Err(error) => Some(error),
                Ok(addresses) => first_identity_fault(functions, 0),
            },
        },
    }
}

/// The list holds the resolution of every declaration and nothing else.
pub open spec fn resolves_all(
    functions: Seq<FunctionSpecView>,
    bdfs: Seq<PciBdf>,
    addresses: Seq<Option<u64>>,
    resolved: Seq<ResolvedFunctionView>,
) -> bool {
    &&& resolved.len() == functions.len()
    &&& forall|i: int|
        0 <= i < functions.len() ==> #[trigger] has_resolution(
            functions,
            bdfs,
            addresses,
            resolved,
            i,
        )
}

/// The list holds the resolution of declaration `i`.
pub open spec fn has_resolution(
    functions: Seq<FunctionSpecView>,
    bdfs: Seq<PciBdf>,
    addresses: Seq<Option<u64>>,
    resolved: Seq<ResolvedFunctionView>,
    i: int,
) -> bool {
    exists|k: int|
        0 <= k < resolved.len() && #[trigger] resolves_to(
            functions,
            bdfs,
            addresses,
            i,
            resolved[k],
        )
}

impl PciTopologyBuilder {
    /// The declarations in the order of their identities.
    pub open spec fn declarations(self) -> Seq<FunctionSpecView> {
        placement::spec_views(self.functions@)
    }

    /// The declarations are sound and in order, and reservations lie on bus
    /// zero.
    pub open spec fn wf(self) -> bool {
        &&& placement::declarations_ok(self.declarations())
        &&& forall|r: int|
            0 <= r < self.reserved@.len() ==> placement::unsupported(
                #[trigger] self.reserved@[r],
            ) is None
    }

    /// Creates an empty topology.
    pub fn new() -> (builder: Self)
        ensures
            builder.wf(),
            builder.declarations() == Seq::<FunctionSpecView>::empty(),
            builder.reserved@ == Seq::<PciBdf>::empty(),
    {
        let builder = PciTopologyBuilder { functions: Vec::new(), reserved: Vec::new() };
        assert(builder.declarations() =~= Seq::<FunctionSpecView>::empty());
        builder
    }

    /// Holds one address back from all functions; doing so again changes
    /// nothing.
    pub fn reserve_bdf(&mut self, bdf: PciBdf) -> (result: PciResult)
        requires
            old(self).wf(),
        ensures
            final(self).wf(),
            final(self).functions == old(self).functions,
            match result {
                Ok(()) => placement::unsupported(bdf) is None && final(self).reserved@ == (
                if old(self).reserved@.contains(bdf) {
                    old(self).reserved@
                } else {
                    old(self).reserved@.push(bdf)
                }),
                Err(error) => placement::unsupported(bdf) == Some(error@) && *final(self) == *old(
                    self,
                ),
            },
    {
        match placement::validate_supported_bdf(bdf) {
            Ok(()) => {},
            Err(error) => {
                return Err(error);
            },
        }
        let mut index: usize = 0;
        while index < self.reserved.len()
            invariant
                index <= self.reserved.len(),
                *self == *old(self),
                placement::unsupported(bdf) is None,
                self.wf(),
                forall|r: int| 0 <= r < index ==> self.reserved@[r] != bdf,
            decreases self.reserved.len() - index,
        {
            if self.reserved[index] == bdf {
                return Ok(());
            }
            index = index + 1;
        }
        self.reserved.push(bdf);
        Ok(())
    }

    /// Adds one function declaration, unless its identity is already present.
    pub fn add_function(&mut self, function: PciFunctionSpec) -> (result: PciResult)
        requires
            old(self).wf(),
            function@.wf(),
        ensures
            final(self).wf(),
            final(self).reserved == old(self).reserved,
            match result {
                Ok(()) => {
                    &&& forall|i: int|
                        0 <= i < old(self).declarations().len() ==> (#[trigger] old(
                            self,
                        ).declarations()[i]).id != function@.id
                    &&& exists|at: int| #[trigger]
                        inserted(
                            old(self).declarations(),
                            final(self).declarations(),
                            at,
                            function@,
                        )
                },
                Err(error) => {
                    &&& exists|i: int|
                        0 <= i < old(self).declarations().len() && (#[trigger] old(
                            self,
                        ).declarations()[i]).id == function@.id
                    &&& *final(self) == *old(self)
                    &&& error@ == (PciErrorView::DuplicateFunction { function: function@.id })
                },
            },
    {
        let ghost before = self.declarations();
        let mut at: usize = 0;
        while at < self.functions.len() && self.functions[at].id.precedes(&function.id)
            invariant
                at <= self.functions.len(),
                *self == *old(self),
                before == self.declarations(),
                self.wf(),
                forall|i: int|
                    0 <= i < at ==> text::text_less((#[trigger] before[i]).id, function@.id),
            decreases self.functions.len() - at,
        {
            assert(before[at as int] == self.functions@[at as int]@);
            at = at + 1;
        }
        if at < self.functions.len() {
            assert(before[at as int] == self.functions@[at as int]@);
            if self.functions[at].id.same(&function.id) {
                return Err(PciError::DuplicateFunction { function: function.id.to_text() });
            }
        }
        proof {
            assert forall|i: int| at <= i < before.len() implies text::text_less(
                function@.id,
                (#[trigger] before[i]).id,
            ) by {
                text::law_text_order_is_total(function@.id, before[at as int].id);
                if i > at {
                    text::law_text_order_is_transitive(
                        function@.id,
                        before[at as int].id,
                        before[i].id,
                    );
                }
            }
            assert forall|i: int| 0 <= i < before.len() implies (#[trigger] before[i]).id
                != function@.id by {
                text::law_text_order_is_strict(function@.id, before[i].id);
            }
        }
        let ghost added = function@;
        self.functions.insert(at, function);
        proof {
            let after = self.declarations();
            assert(after =~= before.insert(at as int, added));
            assert(inserted(before, after, at as int, added));
            assert forall|i: int| 0 <= i < after.len() implies (#[trigger] after[i]).wf() by {
                if i < at {
                    assert(after[i] == before[i]);
                } else if i > at {
                    assert(after[i] == before[i - 1]);
                }
            }
            assert forall|i: int, j: int| 0 <= i < j < after.len() implies text::text_less(
                (#[trigger] after[i]).id,
                (#[trigger] after[j]).id,
            ) by {
                let old_i = if i < at {
                    i
                } else {
                    i - 1
                };
                let old_j = if j < at {
                    j
                } else {
                    j - 1
                };
                if i != at {
                    assert(after[i] == before[old_i]);
                }
                if j != at {
                    assert(after[j] == before[old_j]);
                }
            }
        }
        Ok(())
    }

    /// Resolves all fixed requests, performs deterministic automatic
    /// placement, validates the complete topology, and freezes it.
    ///
    /// No partially resolved topology is published.
    pub fn resolve(self, memory_aperture: Range<u64>) -> (topology: PciResult<ResolvedPciTopology>)
        requires
            self.wf(),
        ensures
            match topology {
                Ok(topology) => {
                    &&& resolution_fault(self.declarations(), self.reserved@, memory_aperture)
                        is None
                    &&& topology.memory_aperture == memory_aperture
                    &&& topology.wf()
                    &&& resolves_all(
                        self.declarations(),
                        placement::bdf_outcome(self.declarations(), self.reserved@)->Ok_0,
                        aperture::bar_outcome(self.declarations(), memory_aperture)->Ok_0,
                        topology.plans(),
                    )
                },
                Err(error) => resolution_fault(
                    self.declarations(),
                    self.reserved@,
                    memory_aperture,
                ) == Some(error@),
            },
    {
        let ghost views = self.declarations();
        let bdfs = match placement::resolve_bdfs(&self.functions, &self.reserved) {
            Ok(bdfs) => bdfs,
            Err(error) => {
                return Err(error);
            },
        };
        match placement::validate_function_zero(&bdfs) {
            Ok(()) => {},
            Err(error) => {
                return Err(error);
            },
        }
        proof {
            placement::lemma_placed_functions_fit_the_bus(views, self.reserved@);
        }
        let addresses = match aperture::resolve_bar_addresses(&self.functions, &memory_aperture) {
            Ok(addresses) => addresses,
            Err(error) => {
                return Err(error);
            },
        };
        let mut functions: Vec<ResolvedPciFunction> = Vec::new();
        let ghost mut origin: Seq<int> = Seq::empty();
        let mut index: usize = 0;
        while index < self.functions.len()
            invariant
                index <= self.functions.len(),
                self.wf(),
                views == self.declarations(),
                views.len() == self.functions@.len() == bdfs@.len(),
                views.len() <= 256,
                placement::bdf_outcome(views, self.reserved@) == Ok::<Seq<PciBdf>, PciErrorView>(
                    bdfs@,
                ),
                placement::first_orphan(bdfs@, 0) is None,
                aperture::bar_outcome(views, memory_aperture) == Ok::<
                    Seq<Option<u64>>,
                    PciErrorView,
                >(addresses@),
                first_identity_fault(views, 0) == first_identity_fault(views, index as int),
                listing_ok(views, bdfs@, addresses@, resolved_views(functions@), origin, index as int),
            decreases self.functions.len() - index,
        {
            assert(views[index as int] == self.functions@[index as int]@);
            assert(views[index as int].wf());
            let spec = &self.functions[index];
            let bars = plan_bars(
                spec,
                &addresses,
                index,
                Ghost(views),
                Ghost(memory_aperture),
            );
            let multifunction = placement::is_multifunction(&bdfs, index);
            assert forall|i: int| 0 <= i < spec.capabilities@.len() implies (
            #[trigger] spec.capabilities@[i]).wf() by {
                assert(spec@.capabilities[i].wf());
            }
            let power_on = match PowerOnConfig::build(
                spec.identity,
                &bars,
                &spec.capabilities,
                multifunction,
                spec.msix,
            ) {
                Ok(power_on) => power_on,
                Err(error) => {
                    proof {
                        let chain = views[index as int].chain();
                        if spec.identity.vendor_id != 0xffff {
                            let i = choose|i: int| #[trigger]
                                capability::chain_breaks_at(chain, i) && error@
                                    == capability::chain_overflow(chain[i]);
                            capability::lemma_chain_offset_grows(
                                chain,
                                i + 1,
                                chain.len() as int,
                            );
                            assert(false);
                        }
                    }
                    return Err(error);
                },
            };
            let resolved = ResolvedPciFunction {
                id: spec.id.clone(),
                bdf: bdfs[index],
                bars,
                power_on,
                msix: spec.msix,
            };
            assert(resolves_to(views, bdfs@, addresses@, index as int, resolved@));
            let at: usize = insertion_point(&functions, resolved.bdf);
            let ghost before = resolved_views(functions@);
            let ghost added = resolved@;
            functions.insert(at, resolved);
            proof {
                assert(resolved_views(functions@) =~= before.insert(at as int, added));
                lemma_listing_grows(
                    views,
                    self.reserved@,
                    bdfs@,
                    addresses@,
                    before,
                    origin,
                    index as int,
                    at as int,
                    added,
                );
                origin = origin.insert(at as int, index as int);
            }
            index = index + 1;
        }
        let topology = ResolvedPciTopology { memory_aperture, functions };
        proof {
            lemma_listing_is_sound(
                views,
                self.reserved@,
                bdfs@,
                addresses@,
                topology.memory_aperture,
                topology.plans(),
                origin,
            );
        }
        Ok(topology)
    }
}

impl Default for PciTopologyBuilder {
    fn default() -> (builder: Self)
        ensures
            builder.wf(),
            builder.declarations() == Seq::<FunctionSpecView>::empty(),
            builder.reserved@ == Seq::<PciBdf>::empty(),
    {
        PciTopologyBuilder::new()
    }
}

/// `after` is `before` with `function` inserted at position `at`.
pub open spec fn inserted(
    before: Seq<FunctionSpecView>,
    after: Seq<FunctionSpecView>,
    at: int,
    function: FunctionSpecView,
) -> bool {
    0 <= at <= before.len() && after == before.insert(at, function)
}

/// The resolved functions list the first `count` declarations in BDF order;
/// `origin` tells which declaration each comes from.
spec fn listing_ok(
    functions: Seq<FunctionSpecView>,
    bdfs: Seq<PciBdf>,
    addresses: Seq<Option<u64>>,
    resolved: Seq<ResolvedFunctionView>,
    origin: Seq<int>,
    count: int,
) -> bool {
    &&& resolved.len() == count == origin.len()
    &&& forall|k: int|
        0 <= k < count ==> 0 <= #[trigger] origin[k] < count && resolves_to(
            functions,
            bdfs,
            addresses,
            origin[k],
            resolved[k],
        )
    &&& forall|i: int| 0 <= i < count ==> #[trigger] origin.contains(i)
    &&& forall|k: int, l: int|
        0 <= k < l < count ==> (#[trigger] resolved[k]).bdf.rank() < (
        #[trigger] resolved[l]).bdf.rank()
}

/// Finds where a function belongs in BDF order.
fn insertion_point(functions: &Vec<ResolvedPciFunction>, bdf: PciBdf) -> (at: usize)
    requires
        forall|k: int, l: int|
            0 <= k < l < functions@.len() ==> (#[trigger] resolved_views(
                functions@,
            )[k]).bdf.rank() < (#[trigger] resolved_views(functions@)[l]).bdf.rank(),
    ensures
        at <= functions@.len(),
        forall|k: int|
            0 <= k < at ==> (#[trigger] resolved_views(functions@)[k]).bdf.rank() < bdf.rank(),
        forall|k: int|
            at <= k < functions@.len() ==> (#[trigger] resolved_views(functions@)[k]).bdf.rank()
                >= bdf.rank(),
{
    let ghost views = resolved_views(functions@);
    let mut at: usize = 0;
    while at < functions.len() && functions[at].bdf.precedes(bdf)
        invariant
            at <= functions.len(),
            views == resolved_views(functions@),
            forall|k: int| 0 <= k < at ==> (#[trigger] views[k]).bdf.rank() < bdf.rank(),
        decreases functions.len() - at,
    {
        assert(views[at as int] == functions@[at as int]@);
        at = at + 1;
    }
    proof {
        if at < functions@.len() {
            assert(views[at as int] == functions@[at as int]@);
        }
    }
    at
}

proof fn lemma_listing_grows(
    functions: Seq<FunctionSpecView>,
    reserved: Seq<PciBdf>,
    bdfs: Seq<PciBdf>,
    addresses: Seq<Option<u64>>,
    resolved: Seq<ResolvedFunctionView>,
    origin: Seq<int>,
    count: int,
    at: int,
    added: ResolvedFunctionView,
)
    requires
        placement::declarations_ok(functions),
        placement::bdf_outcome(functions, reserved) == Ok::<Seq<PciBdf>, PciErrorView>(bdfs),
        listing_ok(functions, bdfs, addresses, resolved, origin, count),
        0 <= count < functions.len(),
        0 <= at <= count,
        resolves_to(functions, bdfs, addresses, count, added),
        forall|k: int| 0 <= k < at ==> (#[trigger] resolved[k]).bdf.rank() < added.bdf.rank(),
        forall|k: int| at <= k < count ==> (#[trigger] resolved[k]).bdf.rank() >= added.bdf.rank(),
    ensures
        listing_ok(
            functions,
            bdfs,
            addresses,
            resolved.insert(at, added),
            origin.insert(at, count),
            count + 1,
        ),
{
    let after = resolved.insert(at, added);
    let next = origin.insert(at, count);
    assert forall|k: int| 0 <= k < count + 1 implies 0 <= #[trigger] next[k] < count + 1
        && resolves_to(functions, bdfs, addresses, next[k], after[k]) by {
        if k < at {
            assert(next[k] == origin[k]);
        } else if k > at {
            assert(next[k] == origin[k - 1]);
        }
    }
    assert forall|i: int| 0 <= i < count + 1 implies #[trigger] next.contains(i) by {
        if i == count {
            assert(next[at] == count);
        } else {
            assert(origin.contains(i));
            let k = choose|k: int| 0 <= k < origin.len() && origin[k] == i;
            if k < at {
                assert(next[k] == i);
            } else {
                assert(next[k + 1] == i);
            }
        }
    }
    assert forall|k: int| at <= k < count implies (#[trigger] resolved[k]).bdf.rank()
        > added.bdf.rank() by {
        assert(0 <= origin[k] < count);
        placement::law_addresses_are_distinct(functions, reserved, origin[k], count);
        if resolved[k].bdf.rank() == added.bdf.rank() {
            address::lemma_rank_is_injective(resolved[k].bdf, added.bdf);
        }
    }
    assert forall|k: int, l: int| 0 <= k < l < count + 1 implies (#[trigger] after[k]).bdf.rank() < (
    #[trigger] after[l]).bdf.rank() by {
        let old_k = if k < at {
            k
        } else {
            k - 1
        };
        let old_l = if l < at {
            l
        } else {
            l - 1
        };
        if k != at {
            assert(after[k] == resolved[old_k]);
        }
        if l != at {
            assert(after[l] == resolved[old_l]);
        }
    }
}

/// The BAR table of a function holds each of its BARs at its register.
proof fn lemma_bar_in_table(functions: Seq<FunctionSpecView>, i: int, b: int)
    requires
        placement::declarations_ok(functions),
        0 <= i < functions.len(),
        0 <= b < functions[i].bars.len(),
    ensures
        functions[i].bars[b].wf(),
        0 <= 6 * i + functions[i].bars[b].index.0 < 6 * functions.len(),
        aperture::bar_table(functions)[6 * i + functions[i].bars[b].index.0] == Some(
            functions[i].bars[b],
        ),
{
    assert(functions[i].wf());
    let bars = functions[i].bars;
    let bar = bars[b];
    assert(bar.wf());
    let p = 6 * i + bar.index.0;
    assert(p / 6 == i && p % 6 == bar.index.0);
    let c = choose|c: int| 0 <= c < bars.len() && (#[trigger] bars[c]).index.0 == bar.index.0;
    if b < c {
        assert(!bars[b].shares_slot(bars[c]));
    } else if c < b {
        assert(!bars[c].shares_slot(bars[b]));
    }
}

/// The resolved BARs of a function are sound.
proof fn lemma_planned_bars(
    functions: Seq<FunctionSpecView>,
    memory_aperture: Range<u64>,
    addresses: Seq<Option<u64>>,
    i: int,
)
    requires
        placement::declarations_ok(functions),
        aperture::bar_outcome(functions, memory_aperture) == Ok::<Seq<Option<u64>>, PciErrorView>(
            addresses,
        ),
        0 <= i < functions.len(),
    ensures
        config::plans_ok(planned_bars(functions, addresses, i)),
        forall|b: int|
            0 <= b < functions[i].bars.len() ==> addresses[6 * i + (
            #[trigger] functions[i].bars[b]).index.0] is Some,
        addresses.len() == 6 * functions.len(),
{
    let bars = functions[i].bars;
    let plans = planned_bars(functions, addresses, i);
    assert(functions[i].wf());
    aperture::law_bars_are_disjoint(functions, memory_aperture, 6 * i, 6 * i);
    assert forall|b: int| 0 <= b < bars.len() implies addresses[6 * i + (
    #[trigger] bars[b]).index.0] is Some && plans[b].wf() by {
        lemma_bar_in_table(functions, i, b);
        let p = 6 * i + bars[b].index.0;
        aperture::law_bars_are_disjoint(functions, memory_aperture, p, p);
    }
    assert forall|b: int| 0 <= b < plans.len() implies (#[trigger] plans[b]).wf() by {
        assert(addresses[6 * i + bars[b].index.0] is Some);
    }
    assert forall|b: int, c: int, slot: int|
        0 <= b < plans.len() && 0 <= c < plans.len() && #[trigger] config::owns_slot(plans[b], slot)
            && #[trigger] config::owns_slot(plans[c], slot) implies b == c by {
        if b < c {
            assert(!bars[b].shares_slot(bars[c]));
        } else if c < b {
            assert(!bars[c].shares_slot(bars[b]));
        }
    }
}

/// Lists the resolved BARs of one function.
fn plan_bars(
    spec: &PciFunctionSpec,
    addresses: &Vec<Option<u64>>,
    index: usize,
    Ghost(functions): Ghost<Seq<FunctionSpecView>>,
    Ghost(memory_aperture): Ghost<Range<u64>>,
) -> (bars: Vec<ResolvedBarPlan>)
    requires
        placement::declarations_ok(functions),
        functions.len() <= 256,
        index < functions.len(),
        functions[index as int] == spec@,
        aperture::bar_outcome(functions, memory_aperture) == Ok::<Seq<Option<u64>>, PciErrorView>(
            addresses@,
        ),
    ensures
        bars@ == planned_bars(functions, addresses@, index as int),
        config::plans_ok(bars@),
{
    proof {
        lemma_planned_bars(functions, memory_aperture, addresses@, index as int);
        assert(functions[index as int].wf());
    }
    let mut bars: Vec<ResolvedBarPlan> = Vec::new();
    let mut position: usize = 0;
    while position < spec.bars.len()
        invariant
            position <= spec.bars.len(),
            functions.len() <= 256,
            index < functions.len(),
            functions[index as int] == spec@,
            functions[index as int].wf(),
            addresses@.len() == 6 * functions.len(),
            forall|b: int|
                0 <= b < spec@.bars.len() ==> addresses@[6 * index + (
                #[trigger] spec@.bars[b]).index.0] is Some,
            bars@ == planned_bars(functions, addresses@, index as int).take(position as int),
        decreases spec.bars.len() - position,
    {
        let bar = spec.bars[position];
        assert(spec@.bars[position as int].wf());
        let slot: usize = bar.index.0 as usize;
        let address: u64 = match addresses[6 * index + slot] {
            Some(address) => address,
            None => {
                assert(false);
                0
            },
        };
        bars.push(
            ResolvedBarPlan {
                index: bar.index,
                size: bar.size,
                width: bar.width,
                prefetchable: bar.prefetchable,
                policy: bar.decode_policy,
                address,
            },
        );
        position = position + 1;
        assert(bars@ =~= planned_bars(functions, addresses@, index as int).take(position as int));
    }
    assert(bars@ =~= planned_bars(functions, addresses@, index as int));
    bars
}

proof fn lemma_listing_is_sound(
    functions: Seq<FunctionSpecView>,
    reserved: Seq<PciBdf>,
    bdfs: Seq<PciBdf>,
    addresses: Seq<Option<u64>>,
    memory_aperture: Range<u64>,
    resolved: Seq<ResolvedFunctionView>,
    origin: Seq<int>,
)
    requires
        placement::declarations_ok(functions),
        placement::bdf_outcome(functions, reserved) == Ok::<Seq<PciBdf>, PciErrorView>(bdfs),
        aperture::bar_outcome(functions, memory_aperture) == Ok::<Seq<Option<u64>>, PciErrorView>(
            addresses,
        ),
        listing_ok(functions, bdfs, addresses, resolved, origin, functions.len() as int),
    ensures
        topology_ok(resolved, memory_aperture),
        resolves_all(functions, bdfs, addresses, resolved),
{
    let n = functions.len() as int;
    assert forall|k: int| 0 <= k < n implies {
        &&& (#[trigger] resolved[k]).bdf.wf()
        &&& resolved[k].power_on.wf()
        &&& config::plans_ok(resolved[k].bars)
    } by {
        assert(0 <= origin[k] < n);
        placement::law_addresses_are_distinct(functions, reserved, origin[k], origin[k]);
        lemma_planned_bars(functions, memory_aperture, addresses, origin[k]);
    }
    assert forall|k: int, b: int|
        0 <= k < n && 0 <= b < resolved[k].bars.len() implies ({
        let plan = #[trigger] resolved[k].bars[b];
        memory_aperture.start <= plan.address && plan.address + plan.size <= memory_aperture.end
    }) by {
        assert(0 <= origin[k] < n);
        lemma_bar_in_table(functions, origin[k], b);
        let p = 6 * origin[k] + functions[origin[k]].bars[b].index.0;
        aperture::law_bars_are_disjoint(functions, memory_aperture, p, p);
    }
    assert forall|k: int, b: int, l: int, c: int|
        0 <= k < n && 0 <= l < n && 0 <= b < resolved[k].bars.len() && 0 <= c
            < resolved[l].bars.len() && (k != l || b != c) implies plans_apart(
        #[trigger] resolved[k].bars[b],
        #[trigger] resolved[l].bars[c],
    ) by {
        let i = origin[k];
        let j = origin[l];
        assert(0 <= i < n && 0 <= j < n);
        assert(functions[i].wf());
        lemma_bar_in_table(functions, i, b);
        lemma_bar_in_table(functions, j, c);
        let p = 6 * i + functions[i].bars[b].index.0;
        let q = 6 * j + functions[j].bars[c].index.0;
        if k != l {
            if i == j {
                assert(resolved[k].bdf == resolved[l].bdf);
                if k < l {
                    assert(resolved[k].bdf.rank() < resolved[l].bdf.rank());
                } else {
                    assert(resolved[l].bdf.rank() < resolved[k].bdf.rank());
                }
            }
        } else if b < c {
            assert(!functions[i].bars[b].shares_slot(functions[i].bars[c]));
        } else {
            assert(!functions[i].bars[c].shares_slot(functions[i].bars[b]));
        }
        assert(p != q);
        aperture::law_bars_are_disjoint(functions, memory_aperture, p, q);
    }
    assert forall|i: int| 0 <= i < n implies #[trigger] has_resolution(
        functions,
        bdfs,
        addresses,
        resolved,
        i,
    ) by {
        assert(origin.contains(i));
        let k = choose|k: int| 0 <= k < origin.len() && origin[k] == i;
        assert(resolves_to(functions, bdfs, addresses, origin[k], resolved[k]));
    }
}

/// Declaration order never matters: two builders that hold the same
/// declarations hold them in the same order.
pub proof fn law_declaration_order_is_irrelevant(
    left: Seq<FunctionSpecView>,
    right: Seq<FunctionSpecView>,
)
    requires
        placement::declarations_ok(left),
        placement::declarations_ok(right),
        forall|function: FunctionSpecView| #[trigger]
            left.contains(function) <==> right.contains(function),
    ensures
        left == right,
    decreases left.len(),
{
    if left.len() == 0 {
        if right.len() > 0 {
            assert(left.contains(right[0]) <==> right.contains(right[0]));
            assert(false);
        }
        assert(left =~= right);
    } else {
        assert(left.contains(left[0]));
        assert(right.len() > 0);
        assert(left.contains(right[0]) <==> right.contains(right[0]));
        let a = choose|a: int| 0 <= a < right.len() && right[a] == left[0];
        let b = choose|b: int| 0 <= b < left.len() && left[b] == right[0];
        if a > 0 {
            assert(text::text_less(right[0].id, right[a].id));
            if b > 0 {
                assert(text::text_less(left[0].id, left[b].id));
            }
            text::law_text_order_is_strict(left[0].id, right[0].id);
            assert(false);
        }
        let left_rest = left.skip(1);
        let right_rest = right.skip(1);
        assert forall|function: FunctionSpecView| #[trigger]
            left_rest.contains(function) <==> right_rest.contains(function) by {
            if left_rest.contains(function) {
                let i = choose|i: int| 0 <= i < left_rest.len() && left_rest[i] == function;
                assert(left[i + 1] == function);
                assert(left.contains(function));
                let j = choose|j: int| 0 <= j < right.len() && right[j] == function;
                if j == 0 {
                    assert(text::text_less(left[0].id, left[i + 1].id));
                    text::law_text_order_is_strict(left[0].id, left[0].id);
                }
                assert(right_rest[j - 1] == function);
            }
            if right_rest.contains(function) {
                let i = choose|i: int| 0 <= i < right_rest.len() && right_rest[i] == function;
                assert(right[i + 1] == function);
                assert(right.contains(function));
                assert(left.contains(function));
                let j = choose|j: int| 0 <= j < left.len() && left[j] == function;
                if j == 0 {
                    assert(text::text_less(right[0].id, right[i + 1].id));
                    text::law_text_order_is_strict(right[0].id, right[0].id);
                }
                assert(left_rest[j - 1] == function);
            }
        }
        assert forall|i: int, j: int| 0 <= i < j < left_rest.len() implies text::text_less(
            (#[trigger] left_rest[i]).id,
            (#[trigger] left_rest[j]).id,
        ) by {
            assert(text::text_less(left[i + 1].id, left[j + 1].id));
        }
        assert forall|i: int, j: int| 0 <= i < j < right_rest.len() implies text::text_less(
            (#[trigger] right_rest[i]).id,
            (#[trigger] right_rest[j]).id,
        ) by {
            assert(text::text_less(right[i + 1].id, right[j + 1].id));
        }
        law_declaration_order_is_irrelevant(left_rest, right_rest);
        assert(left =~= seq![left[0]] + left_rest);
        assert(right =~= seq![right[0]] + right_rest);
    }
}

/// What a declaration resolves to: its identity, address and MSI-X declaration, and
/// each of its BARs with register, size, width, prefetchability and policy as
/// declared, at the address it asked for if it asked for one. The image shows the
/// multifunction bit exactly when another function has the same device.
pub proof fn law_resolutions_follow_their_declaration(
    functions: Seq<FunctionSpecView>,
    bdfs: Seq<PciBdf>,
    memory_aperture: Range<u64>,
    i: int,
    resolved: ResolvedFunctionView,
    b: int,
)
    requires
        placement::declarations_ok(functions),
        aperture::bar_outcome(functions, memory_aperture) is Ok,
        0 <= i < functions.len(),
        resolves_to(
            functions,
            bdfs,
            aperture::bar_outcome(functions, memory_aperture)->Ok_0,
            i,
            resolved,
        ),
        0 <= b < functions[i].bars.len(),
    ensures
        ({
            let bar = functions[i].bars[b];
            let plan = resolved.bars[b];
            &&& resolved.id == functions[i].id
            &&& resolved.bdf == bdfs[i]
            &&& resolved.msix == functions[i].msix
            &&& resolved.bars.len() == functions[i].bars.len()
            &&& plan.index == bar.index
            &&& plan.size == bar.size
            &&& plan.width == bar.width
            &&& plan.prefetchable == bar.prefetchable
            &&& plan.policy == bar.decode_policy
            &&& bar.address matches ResourceRequest::Fixed(address) ==> plan.address == address
            &&& plan.address as int % bar.size as int == 0
            &&& memory_aperture.start <= plan.address
            &&& plan.address + bar.size <= memory_aperture.end
            &&& resolved.power_on.bytes[14] == (if exists|j: int|
                0 <= j < bdfs.len() && j != i && (#[trigger] bdfs[j]).device == bdfs[i].device {
                0x80int
            } else {
                0
            })
        }),
{
    lemma_bar_in_table(functions, i, b);
    let p = 6 * i + functions[i].bars[b].index.0;
    aperture::law_bars_are_disjoint(functions, memory_aperture, p, p);
}

/// Declarations resolve exactly when every function gets an address, every device
/// with a function has function zero, every BAR gets a place, and no vendor is
/// 0xffff.
pub proof fn law_declarations_resolve_unless_for_cause(
    functions: Seq<FunctionSpecView>,
    reserved: Seq<PciBdf>,
    memory_aperture: Range<u64>,
)
    ensures
        resolution_fault(functions, reserved, memory_aperture) is None <==> {
            &&& placement::bdf_outcome(functions, reserved) matches Ok(bdfs) && forall|i: int|
                0 <= i < bdfs.len() && (#[trigger] bdfs[i]).function != 0 ==> bdfs.contains(
                    PciBdf { function: 0, ..bdfs[i] },
                )
            &&& aperture::bar_outcome(functions, memory_aperture) is Ok
            &&& forall|i: int|
                0 <= i < functions.len() ==> (#[trigger] functions[i]).identity.vendor_id != 0xffff
        },
{
    if let Ok(bdfs) = placement::bdf_outcome(functions, reserved) {
        lemma_orphans(bdfs, 0);
    }
    lemma_identities(functions, 0);
}

proof fn lemma_orphans(bdfs: Seq<PciBdf>, from: int)
    requires
        0 <= from,
    ensures
        placement::first_orphan(bdfs, from) is None <==> forall|i: int|
            from <= i < bdfs.len() && (#[trigger] bdfs[i]).function != 0 ==> bdfs.contains(
                PciBdf { function: 0, ..bdfs[i] },
            ),
    decreases bdfs.len() - from,
{
    if from < bdfs.len() {
        lemma_orphans(bdfs, from + 1);
        if placement::orphan(bdfs, from) {
            assert(bdfs[from].function != 0);
        }
    }
}

proof fn lemma_identities(functions: Seq<FunctionSpecView>, from: int)
    requires
        0 <= from,
    ensures
        first_identity_fault(functions, from) is None <==> forall|i: int|
            from <= i < functions.len() ==> (#[trigger] functions[i]).identity.vendor_id != 0xffff,
    decreases functions.len() - from,
{
    if from < functions.len() {
        lemma_identities(functions, from + 1);
        if functions[from].identity.vendor_id == 0xffff {
            assert(functions[from].identity.vendor_id == 0xffff);
        }
    }
}

} // verus!
