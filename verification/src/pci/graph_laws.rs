//! What a bus promises the device graph that it is part of.

use crate::device::{DeviceManagerErrorView, DeviceManagerResult};
use crate::pci::bar::{PciMemoryBar, PciMemoryBarWidth};
use crate::pci::error::PciErrorView;
use crate::pci::function;
use crate::pci::function::FunctionSpecView;
use crate::pci::graph;
use crate::pci::graph::{PciBusGraphBuilder, PciBusShared, PciFunctionRequirement, PciHostResourceRequirements, ResolvedGraphNode, ResolvedHostRanges};
use crate::pci::image_laws;
use crate::pci::topology;
use vstd::prelude::*;

verus! {

/// A host key is not empty and holds nothing but letters, digits, hyphens,
/// underscores, dots and at signs.
pub proof fn law_host_keys_are_plain(value: Seq<char>)
    ensures
        graph::host_key_ok(value) <==> value.len() > 0 && forall|i: int|
            0 <= i < value.len() ==> ('0' <= #[trigger] value[i] <= '9') || ('a' <= value[i] <= 'z')
                || ('A' <= value[i] <= 'Z') || value[i] == '-' || value[i] == '_' || value[i] == '.'
                || value[i] == '@',
{
    if graph::host_key_ok(value) {
        assert forall|i: int| 0 <= i < value.len() implies ('0' <= #[trigger] value[i] <= '9') || (
        'a' <= value[i] <= 'z') || ('A' <= value[i] <= 'Z') || value[i] == '-' || value[i] == '_'
            || value[i] == '.' || value[i] == '@' by {
            assert(graph::host_key_char(value[i]));
        }
    }
}

/// The number of BAR registers that a BAR takes.
pub open spec fn registers_of(bar: PciMemoryBar) -> int {
    if bar.width == PciMemoryBarWidth::Bits64 {
        2
    } else {
        1
    }
}

/// BARs are distinct exactly when no two take the same register, of which a 64-bit
/// BAR takes two.
pub proof fn law_bars_share_no_register(bars: Seq<PciMemoryBar>, i: int, j: int, register: int)
    requires
        0 <= i < j < bars.len(),
        function::slots_are_distinct(bars),
        bars[i].index.0 <= register < bars[i].index.0 + registers_of(bars[i]),
    ensures
        !(bars[j].index.0 <= register < bars[j].index.0 + registers_of(bars[j])),
{
    assert(!bars[i].shares_slot(bars[j]));
}

/// Two BARs that take the same register are not distinct.
pub proof fn law_shared_registers_clash(bars: Seq<PciMemoryBar>, i: int, j: int, register: int)
    requires
        0 <= i < j < bars.len(),
        bars[i].index.0 <= register < bars[i].index.0 + registers_of(bars[i]),
        bars[j].index.0 <= register < bars[j].index.0 + registers_of(bars[j]),
    ensures
        !function::slots_are_distinct(bars),
{
    assert(bars[i].shares_slot(bars[j]));
}

proof fn lemma_bar_in_slot(requirement: PciFunctionRequirement, slot: u8, from: int)
    requires
        0 <= from <= requirement.bars@.len(),
    ensures
        match requirement.bar_in_slot(slot, from) {
            Some(i) => from <= i < requirement.bars@.len() && requirement.bars@[i].index.0 == slot
                && forall|j: int|
                from <= j < i ==> (#[trigger] requirement.bars@[j]).index.0 != slot,
            None => forall|j: int|
                from <= j < requirement.bars@.len() ==> (
                #[trigger] requirement.bars@[j]).index.0 != slot,
        },
    decreases requirement.bars@.len() - from,
{
    if from < requirement.bars@.len() && requirement.bars@[from].index.0 != slot {
        lemma_bar_in_slot(requirement, slot, from + 1);
    }
}

/// MSI-X can be declared exactly once, for a function whose BAR in register 1 holds
/// at least 4 KiB.
pub proof fn law_msix_needs_its_bar(requirement: PciFunctionRequirement)
    requires
        requirement.wf(),
        function::slots_are_distinct(requirement.bars@),
    ensures
        requirement.msix_fault() is None <==> requirement.msix is None && exists|i: int|
            0 <= i < requirement.bars@.len() && (#[trigger] requirement.bars@[i]).index.0 == 1
                && requirement.bars@[i].size >= 0x1000,
        requirement.msix is Some ==> requirement.msix_fault() == Some(
            "the MSI-X capability is already declared"@,
        ),
{
    lemma_bar_in_slot(requirement, 1, 0);
    assert forall|i: int, j: int|
        0 <= i < j < requirement.bars@.len() && (#[trigger] requirement.bars@[i]).index.0
            == 1 implies (#[trigger] requirement.bars@[j]).index.0 != 1 by {
        assert(!requirement.bars@[i].shares_slot(requirement.bars@[j]));
    }
}

proof fn lemma_model_of(nodes: Seq<ResolvedGraphNode>, id: Seq<char>, from: int, i: int)
    requires
        0 <= from <= i < nodes.len(),
        nodes[i].id@ == id,
        forall|j: int| from <= j < i ==> (#[trigger] nodes[j]).id@ != id,
    ensures
        graph::model_of(nodes, id, from) == nodes[i].model,
    decreases i - from,
{
    if from < i {
        assert(nodes[from].id@ != id);
        lemma_model_of(nodes, id, from + 1, i);
    }
}

proof fn lemma_no_model(nodes: Seq<ResolvedGraphNode>, id: Seq<char>, from: int)
    requires
        0 <= from <= nodes.len(),
        forall|j: int| from <= j < nodes.len() ==> (#[trigger] nodes[j]).id@ != id,
    ensures
        graph::model_of(nodes, id, from) is None,
    decreases nodes.len() - from,
{
    if from < nodes.len() {
        lemma_no_model(nodes, id, from + 1);
    }
}

/// Whether node `i` is the first with an identity.
pub open spec fn is_first_node(nodes: Seq<ResolvedGraphNode>, id: Seq<char>, i: int) -> bool {
    &&& 0 <= i < nodes.len()
    &&& nodes[i].id@ == id
    &&& forall|j: int| 0 <= j < i ==> (#[trigger] nodes[j]).id@ != id
}

/// A node is accepted exactly when the graph holds it with the very model that the
/// bus created for it; a missing node or model is told from a foreign one.
pub proof fn law_nodes_keep_their_model(
    nodes: Seq<ResolvedGraphNode>,
    id: Seq<char>,
    model: usize,
    i: int,
)
    ensures
        is_first_node(nodes, id, i) ==> {
            &&& graph::model_fault(nodes, id, model) is None <==> nodes[i].model == Some(model)
            &&& nodes[i].model is Some && nodes[i].model != Some(model) ==> graph::model_fault(
                nodes,
                id,
                model,
            ) == Some(
                DeviceManagerErrorView::InvalidConfig {
                    operation: "resolve PCI graph models"@,
                    detail: "PCI node "@ + id
                        + " does not retain the model created by this bus builder"@,
                },
            )
            &&& nodes[i].model is None ==> graph::model_fault(nodes, id, model) == Some(
                DeviceManagerErrorView::InvalidConfig {
                    operation: "resolve PCI graph models"@,
                    detail: "PCI node "@ + id + " is absent or has no runtime model"@,
                },
            )
        },
        (forall|j: int| 0 <= j < nodes.len() ==> (#[trigger] nodes[j]).id@ != id)
            ==> graph::model_fault(nodes, id, model) == Some(
            DeviceManagerErrorView::InvalidConfig {
                operation: "resolve PCI graph models"@,
                detail: "PCI node "@ + id + " is absent or has no runtime model"@,
            },
        ),
{
    if is_first_node(nodes, id, i) {
        lemma_model_of(nodes, id, 0, i);
    }
    if forall|j: int| 0 <= j < nodes.len() ==> (#[trigger] nodes[j]).id@ != id {
        lemma_no_model(nodes, id, 0);
    }
}

proof fn lemma_endpoint_fault(
    nodes: Seq<ResolvedGraphNode>,
    functions: Seq<FunctionSpecView>,
    models: Seq<usize>,
    from: int,
)
    requires
        0 <= from <= functions.len(),
    ensures
        graph::endpoint_fault(nodes, functions, models, from) is None <==> forall|k: int|
            from <= k < functions.len() ==> graph::model_fault(
                nodes,
                (#[trigger] functions[k]).id,
                models[k],
            ) is None,
    decreases functions.len() - from,
{
    if from < functions.len() {
        lemma_endpoint_fault(nodes, functions, models, from + 1);
        if graph::endpoint_fault(nodes, functions, models, from) is None {
            assert forall|k: int| from <= k < functions.len() implies graph::model_fault(
                nodes,
                (#[trigger] functions[k]).id,
                models[k],
            ) is None by {
                if k > from {
                    assert(graph::endpoint_fault(nodes, functions, models, from + 1) is None);
                }
            }
        } else if graph::model_fault(nodes, functions[from].id, models[from]) is None {
            assert(graph::endpoint_fault(nodes, functions, models, from + 1) is Some);
        }
    }
}

/// A bus is resolved exactly when the graph holds its host and every endpoint with
/// their models, the planner found ranges that fit, and the declared functions find
/// their places.
pub proof fn law_buses_resolve_unless_for_cause(
    builder: PciBusGraphBuilder,
    nodes: Seq<ResolvedGraphNode>,
    ranges: DeviceManagerResult<ResolvedHostRanges>,
)
    requires
        builder.wf(),
    ensures
        builder.resolve_fault(nodes, ranges) is None <==> {
            &&& graph::model_fault(nodes, builder.host_id@, builder.host_model) is None
            &&& forall|k: int|
                0 <= k < builder.topology.declarations().len() ==> graph::model_fault(
                    nodes,
                    (#[trigger] builder.topology.declarations()[k]).id,
                    builder.endpoint_models@[k],
                ) is None
            &&& ranges is Ok
            &&& graph::range_fault(builder.host_resources, ranges->Ok_0) is None
            &&& topology::resolution_fault(
                builder.topology.declarations(),
                builder.topology.reserved@,
                (ranges->Ok_0.memory.0..(ranges->Ok_0.memory.0 + ranges->Ok_0.memory.1) as u64),
            ) is None
        },
        ranges matches Err(error) ==> builder.graph_fault(nodes) is None ==> builder.resolve_fault(
            nodes,
            ranges,
        ) == Some(error@),
{
    lemma_endpoint_fault(
        nodes,
        builder.topology.declarations(),
        builder.endpoint_models@,
        0,
    );
}

/// The ranges of a host fit exactly when the config window is 1 MiB at a multiple
/// of 1 MiB, the memory window has the declared size and alignment and ends no later
/// than 4 GiB, and the two have no address in common.
pub proof fn law_host_ranges_fit_their_declaration(
    resources: PciHostResourceRequirements,
    ranges: ResolvedHostRanges,
)
    requires
        resources.wf(),
    ensures
        graph::range_fault(resources, ranges) is None <==> {
            &&& ranges.ecam.1 == 0x10_0000
            &&& ranges.ecam.0 % 0x10_0000 == 0
            &&& ranges.ecam.0 + 0x10_0000 <= u64::MAX
            &&& ranges.memory.1 == resources.memory_size
            &&& ranges.memory.0 % resources.memory_alignment == 0
            &&& ranges.memory.0 + ranges.memory.1 <= 0x1_0000_0000
            &&& ranges.ecam.0 + 0x10_0000 <= ranges.memory.0 || ranges.memory.0 + ranges.memory.1
                <= ranges.ecam.0
        },
        resources.wf() <==> 0 < resources.memory_size <= 0x1_0000_0000
            && crate::bits::is_power_of_two(resources.memory_alignment),
{
    if ranges.ecam.0 + 0x10_0000 <= u64::MAX && ranges.memory.0 + ranges.memory.1 <= u64::MAX {
        image_laws::law_host_windows_are_apart(
            ranges.ecam.0..(ranges.ecam.0 + 0x10_0000) as u64,
            ranges.memory.0..(ranges.memory.0 + ranges.memory.1) as u64,
        );
    }
}

/// A host is built exactly when its plan is published, the claimed ranges are those
/// of the plan, and no root is live; what is reported otherwise is the first of
/// these that fails.
pub proof fn law_hosts_build_once_over_their_ranges(
    shared: PciBusShared,
    ecam: (u64, u64),
    memory: (u64, u64),
)
    requires
        shared.wf(),
    ensures
        ({
            let fault = shared.host_fault(ecam, memory);
            let window = shared.plan->0.ecam_window;
            let aperture = shared.plan->0.topology.memory_aperture;
            let claimed = window.start == ecam.0 && window.end == ecam.0 + ecam.1 && aperture.start
                == memory.0 && aperture.end == memory.0 + memory.1;
            &&& fault is None <==> shared.plan is Some && claimed && shared.root is None
            &&& shared.plan is None ==> fault == Some(
                DeviceManagerErrorView::InvalidState {
                    operation: "build PCI host"@,
                    detail: PciErrorView::TopologyNotResolved.message(),
                },
            )
            &&& shared.plan is Some && !claimed ==> fault == Some(
                DeviceManagerErrorView::InvalidConfig {
                    operation: "build PCI host"@,
                    detail: "claimed host ranges differ from the resolved PCI topology"@,
                },
            )
            &&& shared.plan is Some && claimed && shared.root is Some ==> fault == Some(
                DeviceManagerErrorView::InvalidState {
                    operation: "publish PCI root complex"@,
                    detail: PciErrorView::HostAlreadyRegistered.message(),
                },
            )
        }),
{
}

/// A function of a new root decodes its BARs at their planned addresses, holds its
/// power-on image and has no handler.
pub proof fn law_new_functions_are_at_power_on(plan: topology::ResolvedFunctionView, b: int)
    requires
        0 <= b < plan.bars.len(),
    ensures
        ({
            let state = graph::fresh_state(plan);
            &&& state.id == plan.id
            &&& state.bdf == plan.bdf
            &&& state.power_on == plan.power_on
            &&& state.config == plan.power_on.bytes
            &&& state.msix == plan.msix
            &&& state.binding is None
            &&& state.bars.len() == plan.bars.len()
            &&& state.bars[b].plan == plan.bars[b]
            &&& state.bars[b].address == plan.bars[b].address
            &&& !state.bars[b].probe_low
            &&& !state.bars[b].probe_high
        }),
{
}

/// A function is refused at the first of its BARs that takes a register of an
/// earlier one, and there is such a BAR exactly when two share a register.
pub proof fn law_clashes_are_found_at_the_later_bar(bars: Seq<PciMemoryBar>, at: int)
    ensures
        graph::clashes_at(bars, at) ==> 0 <= at < bars.len() && exists|i: int|
            0 <= i < at && (#[trigger] bars[i]).shares_slot(bars[at]),
        graph::clashes_at(bars, at) ==> !function::slots_are_distinct(bars),
        !function::slots_are_distinct(bars) ==> exists|j: int| #[trigger]
            graph::clashes_at(bars, j),
{
    if graph::clashes_at(bars, at) {
        let upto = bars.take(at + 1);
        let (i, j) = choose|i: int, j: int|
            0 <= i < j < upto.len() && (#[trigger] upto[i]).shares_slot(#[trigger] upto[j]);
        if j < at {
            assert(bars.take(at)[i].shares_slot(bars.take(at)[j]));
        }
        assert(bars[i].shares_slot(bars[at]));
    }
    if !function::slots_are_distinct(bars) {
        assert(bars.take(bars.len() as int) =~= bars);
        lemma_clash(bars, bars.len() as int);
    }
}

proof fn lemma_clash(bars: Seq<PciMemoryBar>, count: int)
    requires
        0 <= count <= bars.len(),
        !function::slots_are_distinct(bars.take(count)),
    ensures
        exists|j: int| #[trigger] graph::clashes_at(bars, j),
    decreases count,
{
    if count > 0 {
        if function::slots_are_distinct(bars.take(count - 1)) {
            assert(graph::clashes_at(bars, count - 1));
        } else {
            lemma_clash(bars, count - 1);
        }
    }
}

} // verus!
