//! Conditional AArch64 PCI bus construction and the firmware view of the
//! resolved bus.

use crate::bits;
use crate::configured::ConfiguredPciEndpoint;
use crate::device::{DeviceManagerError, DeviceManagerErrorView, DeviceManagerResult, DeviceNodeId};
use crate::pci::aperture;
use crate::pci::ecam;
use crate::pci::error::PciErrorView;
use crate::pci::function::FunctionSpecView;
use crate::pci::graph::{PciBusGraphBuilder, PciGraphNode, PciHostResourceRequirements, ResolvedGraphNode, ResolvedHostRanges, ResolvedPciBus};
use crate::pci::placement;
use crate::pci::topology;
use vstd::arithmetic::power2;
use vstd::prelude::*;

verus! {

/// Identity of the PCI host node.
pub const PCI_HOST_ID: &'static str = "pci-host";

/// Size and alignment of the PCI memory aperture.
pub const PCI_MEMORY_APERTURE_SIZE: u64 = 0x0400_0000;

/// Declaring or resolving the PCI bus failed.
#[derive(Debug)]
pub enum PciPlanError {
    /// The configuration asks for what the platform does not offer.
    Unsupported { operation: &'static str, detail: &'static str },
    /// A device of the bus is malformed.
    Device { operation: &'static str, detail: String },
    /// The bus does not fit the device graph.
    Manager(DeviceManagerError),
}

/// The contents of a [`PciPlanError`].
pub enum PciPlanErrorView {
    Unsupported { operation: Seq<char>, detail: Seq<char> },
    Device { operation: Seq<char>, detail: Seq<char> },
    Manager(DeviceManagerErrorView),
}

impl View for PciPlanError {
    type V = PciPlanErrorView;

    open spec fn view(&self) -> PciPlanErrorView {
        match *self {
            PciPlanError::Unsupported { operation, detail } => PciPlanErrorView::Unsupported {
                operation: operation@,
                detail: detail@,
            },
            PciPlanError::Device { operation, detail } => PciPlanErrorView::Device {
                operation: operation@,
                detail: detail@,
            },
            PciPlanError::Manager(error) => PciPlanErrorView::Manager(error@),
        }
    }
}

/// A bus whose nodes are declared.
#[derive(Debug)]
pub struct Aarch64PciPlanBuilder {
    pub bus: PciBusGraphBuilder,
}

/// The windows of the PCI host as firmware tables describe them.
#[derive(Clone, Copy, Debug, PartialEq, Eq, Structural)]
pub struct GuestPciHost {
    pub ecam_base: u64,
    pub memory_base: u64,
    pub memory_size: u64,
}

impl GuestPciHost {
    /// Returns the base of the ECAM window.
    pub fn ecam_base(&self) -> (base: u64)
        ensures
            base == self.ecam_base,
    {
        self.ecam_base
    }

    /// Returns the base of the memory aperture.
    pub fn memory_base(&self) -> (base: u64)
        ensures
            base == self.memory_base,
    {
        self.memory_base
    }

    /// Returns the size of the memory aperture.
    pub fn memory_size(&self) -> (size: u64)
        ensures
            size == self.memory_size,
    {
        self.memory_size
    }
}

/// A resolved bus and its firmware view.
#[derive(Debug)]
pub struct Aarch64PciPlan {
    pub bus: ResolvedPciBus,
    pub firmware: GuestPciHost,
}

/// Endpoint `d` is the first one whose identity an earlier one already has.
pub open spec fn first_duplicate(endpoints: Seq<ConfiguredPciEndpoint>, d: int) -> bool {
    &&& 0 <= d < endpoints.len()
    &&& exists|e: int|
        0 <= e < d && (#[trigger] endpoints[e]).function@.id == endpoints[d].function@.id
    &&& identities_distinct(endpoints.take(d))
}

/// No two endpoints have the same identity.
pub open spec fn identities_distinct(endpoints: Seq<ConfiguredPciEndpoint>) -> bool {
    forall|i: int, j: int|
        0 <= i < j < endpoints.len() ==> (#[trigger] endpoints[i]).function@.id != (
        #[trigger] endpoints[j]).function@.id
}

/// The bus declares function `i` of the endpoints with its model.
pub open spec fn declares(
    bus: PciBusGraphBuilder,
    endpoints: Seq<ConfiguredPciEndpoint>,
    i: int,
) -> bool {
    exists|k: int|
        0 <= k < bus.topology.declarations().len() && (
        #[trigger] bus.topology.declarations()[k]) == endpoints[i].function@
            && bus.endpoint_models@[k] == endpoints[i].model
}

/// The node of endpoint `i` carries its identity and model and depends on the
/// host.
pub open spec fn is_endpoint_node(node: PciGraphNode, endpoint: ConfiguredPciEndpoint) -> bool {
    &&& node.id@ == endpoint.function@.id
    &&& node.model == endpoint.model
    &&& node.dependency matches Some(host) && host@ == PCI_HOST_ID@
}

/// Why the bus cannot be declared, if it cannot.
pub open spec fn declare_fault_is(
    endpoints: Seq<ConfiguredPciEndpoint>,
    has_guest_dtb: bool,
    error: PciPlanErrorView,
) -> bool {
    if !has_guest_dtb {
        endpoints.len() > 0 && error == (PciPlanErrorView::Unsupported {
            operation: "create AArch64 virtual PCI host"@,
            detail:
                "configured PCI endpoints require a guest DTB; UEFI/ACPI PCI is not implemented"@,
        })
    } else {
        exists|d: int| #[trigger]
            first_duplicate(endpoints, d) && error == (PciPlanErrorView::Device {
                operation: "declare AArch64 PCI endpoint"@,
                detail: (PciErrorView::DuplicateFunction {
                    function: endpoints[d].function@.id,
                }).message(),
            })
    }
}

impl Aarch64PciPlanBuilder {
    /// Declares the host and its endpoints, if there are endpoints.
    ///
    /// The host node depends on the interrupt controller and comes first; the
    /// endpoint nodes follow in the given order and depend on the host.
    pub fn declare(
        has_guest_dtb: bool,
        controller: &DeviceNodeId,
        host_model: usize,
        endpoints: Vec<ConfiguredPciEndpoint>,
    ) -> (declared: Result<Option<(Self, Vec<PciGraphNode>)>, PciPlanError>)
        requires
            forall|i: int|
                0 <= i < endpoints@.len() ==> (#[trigger] endpoints@[i]).function@.wf(),
        ensures
            match declared {
                Ok(None) => endpoints@.len() == 0,
                Ok(Some((builder, nodes))) => {
                    &&& endpoints@.len() > 0
                    &&& has_guest_dtb
                    &&& identities_distinct(endpoints@)
                    &&& builder.wf()
                    &&& builder.bus.host_model == host_model
                    &&& builder.bus.topology.declarations().len() == endpoints@.len()
                    &&& forall|i: int|
                        0 <= i < endpoints@.len() ==> #[trigger] declares(
                            builder.bus,
                            endpoints@,
                            i,
                        )
                    &&& nodes@.len() == endpoints@.len() + 1
                    &&& nodes@[0].id@ == PCI_HOST_ID@
                    &&& nodes@[0].model == host_model
                    &&& nodes@[0].dependency matches Some(first) && first@ == controller@
                    &&& forall|i: int|
                        0 <= i < endpoints@.len() ==> is_endpoint_node(
                            nodes@[i + 1],
                            #[trigger] endpoints@[i],
                        )
                },
                Err(error) => declare_fault_is(endpoints@, has_guest_dtb, error@),
            },
    {
        let ghost all = endpoints@;
        if endpoints.len() == 0 {
            return Ok(None);
        }
        if !has_guest_dtb {
            return Err(
                PciPlanError::Unsupported {
                    operation: "create AArch64 virtual PCI host",
                    detail:
                        "configured PCI endpoints require a guest DTB; UEFI/ACPI PCI is not implemented",
                },
            );
        }
        proof {
            power2::lemma2_to64();
            assert(power2::pow2(26) == 0x400_0000);
            assert(bits::is_power_of_two(PCI_MEMORY_APERTURE_SIZE));
        }
        let requirements = match PciHostResourceRequirements::new(
            PCI_MEMORY_APERTURE_SIZE,
            PCI_MEMORY_APERTURE_SIZE,
        ) {
            Ok(requirements) => requirements,
            Err(error) => {
                return Err(
                    PciPlanError::Device {
                        operation: "declare AArch64 PCI host resources",
                        detail: error.message(),
                    },
                );
            },
        };
        let mut bus = PciBusGraphBuilder::new(
            DeviceNodeId::new(PCI_HOST_ID),
            requirements,
            host_model,
        );
        let mut nodes: Vec<PciGraphNode> = Vec::new();
        let mut host = bus.host_node();
        host.dependency = Some(controller.clone());
        nodes.push(host);
        let mut rest: Vec<ConfiguredPciEndpoint> = endpoints;
        let ghost mut done: int = 0;
        assert(rest@ =~= all.skip(0));
        while rest.len() > 0
            invariant
                0 <= done <= all.len(),
                all == endpoints@,
                rest@ == all.skip(done),
                forall|i: int| 0 <= i < all.len() ==> (#[trigger] all[i]).function@.wf(),
                bus.wf(),
                bus.host_id@ == PCI_HOST_ID@,
                bus.host_model == host_model,
                bus.host_resources == requirements,
                bus.topology.reserved@.len() == 0,
                bus.topology.declarations().len() == done,
                forall|k: int|
                    0 <= k < bus.topology.declarations().len() ==> #[trigger] declared_from(
                        all,
                        done,
                        bus.topology.declarations()[k],
                    ),
                forall|i: int| 0 <= i < done ==> #[trigger] declares(bus, all, i),
                identities_distinct(all.take(done)),
                nodes@.len() == done + 1,
                nodes@[0].id@ == PCI_HOST_ID@,
                nodes@[0].model == host_model,
                nodes@[0].dependency matches Some(first) && first@ == controller@,
                forall|i: int|
                    0 <= i < done ==> is_endpoint_node(nodes@[i + 1], #[trigger] all[i]),
                has_guest_dtb,
            decreases rest@.len(),
        {
            let endpoint = rest.remove(0);
            assert(endpoint == all[done]);
            let (function, model) = endpoint.into_parts();
            let ghost added = function@;
            let ghost before = bus;
            match bus.endpoint_node(function, model) {
                Ok(node) => {
                    nodes.push(node);
                },
                Err(error) => {
                    proof {
                        let k = choose|k: int|
                            0 <= k < before.topology.declarations().len() && (
                            #[trigger] before.topology.declarations()[k]).id == added.id;
                        assert(declared_from(all, done, before.topology.declarations()[k]));
                        let e = choose|e: int|
                            0 <= e < done && (#[trigger] all[e]).function@
                                == before.topology.declarations()[k];
                        assert(all[e].function@.id == all[done].function@.id);
                        assert(first_duplicate(all, done));
                    }
                    return Err(
                        PciPlanError::Device {
                            operation: "declare AArch64 PCI endpoint",
                            detail: error.message(),
                        },
                    );
                },
            }
            proof {
                lemma_declaration_added(before, bus, all, done, added, model);
                assert(rest@ =~= all.skip(done + 1));
                done = done + 1;
            }
        }
        assert(all.take(done) =~= all);
        Ok(Some((Aarch64PciPlanBuilder { bus }, nodes)))
    }

    /// The bus is sound and has the fixed aperture.
    pub open spec fn wf(self) -> bool {
        &&& self.bus.wf()
        &&& self.bus.host_id@ == PCI_HOST_ID@
        &&& self.bus.host_resources.memory_size == PCI_MEMORY_APERTURE_SIZE
        &&& self.bus.host_resources.memory_alignment == PCI_MEMORY_APERTURE_SIZE
        &&& self.bus.topology.reserved@.len() == 0
    }

    /// Resolves the bus against the resolved device graph.
    pub fn resolve(
        self,
        nodes: &Vec<ResolvedGraphNode>,
        ranges: DeviceManagerResult<ResolvedHostRanges>,
    ) -> (plan: Result<Aarch64PciPlan, PciPlanError>)
        requires
            self.wf(),
        ensures
            match plan {
                Ok(plan) => {
                    let found = ranges->Ok_0;
                    let memory = found.memory.0..(found.memory.0 + found.memory.1) as u64;
                    &&& self.bus.resolve_fault(nodes@, ranges) is None
                    &&& plan.bus.wf()
                    &&& plan.bus.host_id@ == PCI_HOST_ID@
                    &&& plan.bus.plan().ecam_window.start == found.ecam.0
                    &&& plan.bus.plan().ecam_window.end == found.ecam.0 + ecam::ECAM_SIZE
                    &&& plan.bus.shared.root is None
                    &&& plan.bus.plan().topology.memory_aperture == memory
                    &&& topology::resolves_all(
                        self.bus.topology.declarations(),
                        placement::bdf_outcome(
                            self.bus.topology.declarations(),
                            self.bus.topology.reserved@,
                        )->Ok_0,
                        aperture::bar_outcome(self.bus.topology.declarations(), memory)->Ok_0,
                        plan.bus.plan().topology.plans(),
                    )
                    &&& plan.firmware == (GuestPciHost {
                        ecam_base: found.ecam.0,
                        memory_base: found.memory.0,
                        memory_size: PCI_MEMORY_APERTURE_SIZE,
                    })
                },
                Err(error) => self.bus.resolve_fault(nodes@, ranges) matches Some(fault) && error@
                    == PciPlanErrorView::Manager(fault),
            },
    {
        match self.bus.resolve(nodes, ranges) {
            Ok(bus) => {
                let ecam_window = bus.ecam_window();
                let aperture = bus.memory_aperture();
                let firmware = GuestPciHost {
                    ecam_base: ecam_window.start,
                    memory_base: aperture.start,
                    memory_size: aperture.end - aperture.start,
                };
                Ok(Aarch64PciPlan { bus, firmware })
            },
            Err(error) => Err(PciPlanError::Manager(error)),
        }
    }
}

impl Aarch64PciPlan {
    /// Returns the firmware view of the bus.
    pub fn firmware(&self) -> (firmware: GuestPciHost)
        ensures
            firmware == self.firmware,
    {
        self.firmware
    }
}

/// The function is the one of some endpoint among the first `count`.
spec fn declared_from(
    endpoints: Seq<ConfiguredPciEndpoint>,
    count: int,
    function: FunctionSpecView,
) -> bool {
    exists|e: int| 0 <= e < count && (#[trigger] endpoints[e]).function@ == function
}

/// Declaring one more endpoint keeps the earlier ones declared.
proof fn lemma_declaration_added(
    before: PciBusGraphBuilder,
    after: PciBusGraphBuilder,
    all: Seq<ConfiguredPciEndpoint>,
    done: int,
    added: FunctionSpecView,
    model: usize,
)
    requires
        0 <= done < all.len(),
        before.wf(),
        after.wf(),
        all[done].function@ == added,
        all[done].model == model,
        exists|at: int| #[trigger]
            topology::inserted(
                before.topology.declarations(),
                after.topology.declarations(),
                at,
                added,
            ) && after.endpoint_models@ == before.endpoint_models@.insert(at, model),
        forall|i: int| 0 <= i < done ==> #[trigger] declares(before, all, i),
        forall|k: int|
            0 <= k < before.topology.declarations().len() ==> #[trigger] declared_from(
                all,
                done,
                before.topology.declarations()[k],
            ),
        identities_distinct(all.take(done)),
    ensures
        after.topology.declarations().len() == before.topology.declarations().len() + 1,
        forall|i: int| 0 <= i < done + 1 ==> #[trigger] declares(after, all, i),
        forall|k: int|
            0 <= k < after.topology.declarations().len() ==> #[trigger] declared_from(
                all,
                done + 1,
                after.topology.declarations()[k],
            ),
        identities_distinct(all.take(done + 1)),
{
    let olds = before.topology.declarations();
    let news = after.topology.declarations();
    let at = choose|at: int| #[trigger]
        topology::inserted(olds, news, at, added) && after.endpoint_models@
            == before.endpoint_models@.insert(at, model);
    assert(olds.len() == before.endpoint_models@.len());
    assert forall|i: int| 0 <= i < done + 1 implies #[trigger] declares(after, all, i) by {
        if i < done {
            assert(declares(before, all, i));
            let k = choose|k: int|
                0 <= k < olds.len() && (#[trigger] olds[k]) == all[i].function@
                    && before.endpoint_models@[k] == all[i].model;
            let l = if k < at {
                k
            } else {
                k + 1
            };
            assert(news[l] == olds[k]);
            assert(after.endpoint_models@[l] == before.endpoint_models@[k]);
        } else {
            assert(news[at] == added);
            assert(after.endpoint_models@[at] == model);
        }
    }
    assert forall|k: int| 0 <= k < news.len() implies #[trigger] declared_from(
        all,
        done + 1,
        news[k],
    ) by {
        if k == at {
            assert(all[done].function@ == news[k]);
        } else {
            let l = if k < at {
                k
            } else {
                k - 1
            };
            assert(news[k] == olds[l]);
            assert(declared_from(all, done, olds[l]));
            let e = choose|e: int| 0 <= e < done && (#[trigger] all[e]).function@ == olds[l];
            assert(0 <= e < done + 1);
        }
    }
    let longer = all.take(done + 1);
    assert forall|i: int, j: int| 0 <= i < j < longer.len() implies (
    #[trigger] longer[i]).function@.id != (#[trigger] longer[j]).function@.id by {
        if j < done {
            assert(all.take(done)[i] == longer[i] && all.take(done)[j] == longer[j]);
        } else {
            assert(declares(before, all, i));
            let k = choose|k: int|
                0 <= k < olds.len() && (#[trigger] olds[k]) == all[i].function@
                    && before.endpoint_models@[k] == all[i].model;
            let l = if k < at {
                k
            } else {
                k + 1
            };
            assert(news[l] == olds[k]);
            assert(news[at] == added);
            crate::text::law_text_order_is_strict(news[l].id, news[at].id);
            crate::text::law_text_order_is_strict(news[at].id, news[l].id);
            if l < at {
                assert(crate::text::text_less(news[l].id, news[at].id));
            } else {
                assert(crate::text::text_less(news[at].id, news[l].id));
            }
        }
    }
}

proof fn lemma_duplicate(endpoints: Seq<ConfiguredPciEndpoint>, count: int)
    requires
        0 <= count <= endpoints.len(),
        !identities_distinct(endpoints.take(count)),
    ensures
        exists|d: int| #[trigger] first_duplicate(endpoints, d),
    decreases count,
{
    if count > 0 {
        if !identities_distinct(endpoints.take(count - 1)) {
            lemma_duplicate(endpoints, count - 1);
        } else {
            let taken = endpoints.take(count);
            let (i, j) = choose|i: int, j: int|
                0 <= i < j < taken.len() && (#[trigger] taken[i]).function@.id == (
                #[trigger] taken[j]).function@.id;
            if j < count - 1 {
                assert(endpoints.take(count - 1)[i].function@.id == endpoints.take(
                    count - 1,
                )[j].function@.id);
            }
            assert(endpoints[i].function@.id == endpoints[count - 1].function@.id);
            assert(first_duplicate(endpoints, count - 1));
        }
    }
}

/// A bus is refused exactly when it has endpoints and either there is no device
/// tree to describe it or two endpoints share an identity.
pub proof fn law_buses_are_refused_only_for_cause(
    endpoints: Seq<ConfiguredPciEndpoint>,
    has_guest_dtb: bool,
)
    ensures
        (exists|error: PciPlanErrorView| #[trigger]
            declare_fault_is(endpoints, has_guest_dtb, error)) <==> endpoints.len() > 0 && (
        !has_guest_dtb || exists|i: int, j: int|
            0 <= i < j < endpoints.len() && (#[trigger] endpoints[i]).function@.id == (
            #[trigger] endpoints[j]).function@.id),
{
    let twice = exists|i: int, j: int|
        0 <= i < j < endpoints.len() && (#[trigger] endpoints[i]).function@.id == (
        #[trigger] endpoints[j]).function@.id;
    if endpoints.len() > 0 && !has_guest_dtb {
        let error = PciPlanErrorView::Unsupported {
            operation: "create AArch64 virtual PCI host"@,
            detail:
                "configured PCI endpoints require a guest DTB; UEFI/ACPI PCI is not implemented"@,
        };
        assert(declare_fault_is(endpoints, has_guest_dtb, error));
    }
    if has_guest_dtb && twice {
        assert(endpoints.take(endpoints.len() as int) =~= endpoints);
        lemma_duplicate(endpoints, endpoints.len() as int);
        let d = choose|d: int| #[trigger] first_duplicate(endpoints, d);
        let error = PciPlanErrorView::Device {
            operation: "declare AArch64 PCI endpoint"@,
            detail: (PciErrorView::DuplicateFunction {
                function: endpoints[d].function@.id,
            }).message(),
        };
        assert(declare_fault_is(endpoints, has_guest_dtb, error));
    }
}

/// The host of a declared bus asks for 64 MiB of memory window at a multiple of its
/// size, under the name `pci-host`.
pub proof fn law_hosts_have_a_fixed_window(builder: Aarch64PciPlanBuilder)
    requires
        builder.wf(),
    ensures
        builder.bus.host_id@ == "pci-host"@,
        builder.bus.host_resources.memory_size == 64 * 0x10_0000,
        builder.bus.host_resources.memory_alignment == builder.bus.host_resources.memory_size,
        builder.bus.topology.reserved@.len() == 0,
{
}

/// The node of an endpoint names the endpoint, has its model and follows the host.
pub proof fn law_endpoint_nodes_follow_the_host(node: PciGraphNode, endpoint: ConfiguredPciEndpoint)
    requires
        is_endpoint_node(node, endpoint),
    ensures
        node.id@ == endpoint.function@.id,
        node.model == endpoint.model,
        node.dependency is Some,
        node.dependency->0@ == "pci-host"@,
{
}

} // verus!
