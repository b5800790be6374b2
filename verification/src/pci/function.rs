//! Type-0 function descriptors and BAR accesses.

use crate::device::{AccessWidth, DeviceNodeId, DeviceVcpuId, ResourceRequest};
use crate::pci::address::{PciBarIndex, PciBdf};
use crate::pci::bar::PciMemoryBar;
use crate::pci::capability;
use crate::pci::capability::{CapabilityView, PciCapability};
use crate::pci::error::{PciError, PciErrorView, PciResult};
use crate::pci::msix::PciMsixDeclaration;
use crate::text;
use vstd::prelude::*;

verus! {

/// PCI class-code triplet for a Type-0 function.
#[derive(Clone, Copy, Debug, PartialEq, Eq, Structural)]
pub struct PciClass {
    pub base: u8,
    pub subclass: u8,
    pub programming_interface: u8,
}

impl PciClass {
    /// Creates a class-code triplet.
    pub fn new(base: u8, subclass: u8, programming_interface: u8) -> (class: Self)
        ensures
            class == (PciClass { base, subclass, programming_interface }),
    {
        PciClass { base, subclass, programming_interface }
    }
}

/// Immutable identity fields of one Type-0 PCI function.
#[derive(Clone, Copy, Debug, PartialEq, Eq, Structural)]
pub struct PciEndpointIdentity {
    pub vendor_id: u16,
    pub device_id: u16,
    pub class: PciClass,
    pub revision: u8,
    pub subsystem_vendor_id: u16,
    pub subsystem_id: u16,
}

impl PciEndpointIdentity {
    /// Creates an endpoint identity with revision and subsystem fields set to
    /// zero.
    pub fn new(vendor_id: u16, device_id: u16, class: PciClass) -> (identity: Self)
        ensures
            identity == (PciEndpointIdentity {
                vendor_id,
                device_id,
                class,
                revision: 0,
                subsystem_vendor_id: 0,
                subsystem_id: 0,
            }),
    {
        PciEndpointIdentity {
            vendor_id,
            device_id,
            class,
            revision: 0,
            subsystem_vendor_id: 0,
            subsystem_id: 0,
        }
    }

    /// Sets the revision ID.
    pub fn with_revision(self, revision: u8) -> (identity: Self)
        ensures
            identity == (PciEndpointIdentity { revision, ..self }),
    {
        PciEndpointIdentity { revision, ..self }
    }

    /// Sets subsystem vendor and device IDs.
    pub fn with_subsystem(self, vendor_id: u16, subsystem_id: u16) -> (identity: Self)
        ensures
            identity == (PciEndpointIdentity {
                subsystem_vendor_id: vendor_id,
                subsystem_id,
                ..self
            }),
    {
        PciEndpointIdentity { subsystem_vendor_id: vendor_id, subsystem_id, ..self }
    }
}

/// One function-relative access routed through a committed memory BAR.
#[derive(Clone, Copy, Debug, PartialEq, Eq, Structural)]
pub struct PciBarAccess {
    pub source_vcpu: DeviceVcpuId,
    pub bdf: PciBdf,
    pub bar: PciBarIndex,
    pub offset: u64,
    pub width: AccessWidth,
}

impl PciBarAccess {
    /// Creates a BAR access.
    pub fn new(
        source_vcpu: DeviceVcpuId,
        bdf: PciBdf,
        bar: PciBarIndex,
        offset: u64,
        width: AccessWidth,
    ) -> (access: Self)
        ensures
            access == (PciBarAccess { source_vcpu, bdf, bar, offset, width }),
    {
        PciBarAccess { source_vcpu, bdf, bar, offset, width }
    }

    /// Returns the vCPU that issued the BAR access.
    pub fn source_vcpu(&self) -> (vcpu: DeviceVcpuId)
        ensures
            vcpu == self.source_vcpu,
    {
        self.source_vcpu
    }

    /// Returns the function selected by the root complex.
    pub fn bdf(&self) -> (bdf: PciBdf)
        ensures
            bdf == self.bdf,
    {
        self.bdf
    }

    /// Returns the BAR selected by the root complex.
    pub fn bar(&self) -> (bar: PciBarIndex)
        ensures
            bar == self.bar,
    {
        self.bar
    }

    /// Returns the byte offset from the current BAR base.
    pub fn offset(&self) -> (offset: u64)
        ensures
            offset == self.offset,
    {
        self.offset
    }

    /// Returns the access width.
    pub fn width(&self) -> (width: AccessWidth)
        ensures
            width == self.width,
    {
        self.width
    }
}

/// Unresolved Type-0 function declaration consumed by the topology builder.
///
/// This is pure configuration and resource metadata; the handler of the
/// function is bound later.
#[derive(Debug)]
pub struct PciFunctionSpec {
    pub id: DeviceNodeId,
    pub identity: PciEndpointIdentity,
    pub bdf: ResourceRequest<PciBdf>,
    pub bars: Vec<PciMemoryBar>,
    pub capabilities: Vec<PciCapability>,
    pub msix: Option<PciMsixDeclaration>,
}

/// The contents of a [`PciFunctionSpec`].
pub struct FunctionSpecView {
    pub id: Seq<char>,
    pub identity: PciEndpointIdentity,
    pub bdf: ResourceRequest<PciBdf>,
    pub bars: Seq<PciMemoryBar>,
    pub capabilities: Seq<CapabilityView>,
    pub msix: Option<PciMsixDeclaration>,
}

impl View for PciFunctionSpec {
    type V = FunctionSpecView;

    open spec fn view(&self) -> FunctionSpecView {
        FunctionSpecView {
            id: self.id@,
            identity: self.identity,
            bdf: self.bdf,
            bars: self.bars@,
            capabilities: capability::capability_views(self.capabilities@),
            msix: self.msix,
        }
    }
}

/// No two BARs share a BAR register.
pub open spec fn slots_are_distinct(bars: Seq<PciMemoryBar>) -> bool {
    forall|i: int, j: int|
        0 <= i < j < bars.len() ==> !(#[trigger] bars[i]).shares_slot(#[trigger] bars[j])
}

/// The capability chain: MSI-X, if declared, before the other capabilities.
pub open spec fn chain_of(
    capabilities: Seq<CapabilityView>,
    msix: Option<PciMsixDeclaration>,
) -> Seq<CapabilityView> {
    match msix {
        Some(msix) => seq![capability::msix_capability_view(msix)] + capabilities,
        None => capabilities,
    }
}

impl FunctionSpecView {
    /// The capability chain of the function.
    pub open spec fn chain(self) -> Seq<CapabilityView> {
        chain_of(self.capabilities, self.msix)
    }

    /// BARs have shapes that can exist and take distinct registers, a fixed
    /// address exists on a bus, and the capability chain fits.
    pub open spec fn wf(self) -> bool {
        &&& forall|i: int| 0 <= i < self.bars.len() ==> (#[trigger] self.bars[i]).wf()
        &&& slots_are_distinct(self.bars)
        &&& self.bdf matches ResourceRequest::Fixed(bdf) ==> bdf.wf()
        &&& self.msix matches Some(msix) ==> msix.wf()
        &&& forall|i: int|
            0 <= i < self.capabilities.len() ==> (#[trigger] self.capabilities[i]).wf()
        &&& capability::chain_fits(self.chain(), self.chain().len() as int)
    }
}

/// Builds the capability chain: MSI-X, if declared, before the other
/// capabilities.
pub fn capability_chain(
    capabilities: &Vec<PciCapability>,
    msix: Option<PciMsixDeclaration>,
) -> (chain: Vec<PciCapability>)
    requires
        msix matches Some(msix) ==> msix.wf(),
    ensures
        capability::capability_views(chain@) == chain_of(
            capability::capability_views(capabilities@),
            msix,
        ),
{
    let mut chain: Vec<PciCapability> = Vec::new();
    if let Some(declaration) = msix {
        chain.push(capability::msix_capability(declaration));
    }
    let ghost head = capability::capability_views(chain@);
    let mut index: usize = 0;
    while index < capabilities.len()
        invariant
            index <= capabilities.len(),
            capability::capability_views(chain@) == head + capability::capability_views(
                capabilities@,
            ).take(index as int),
        decreases capabilities.len() - index,
    {
        let next = &capabilities[index];
        let copy = PciCapability {
            id: next.id,
            body: next.body.clone(),
            write_mask: next.write_mask.clone(),
        };
        assert(copy@.body =~= next@.body);
        assert(copy@.write_mask =~= next@.write_mask);
        let ghost before = capability::capability_views(chain@);
        let ghost added = copy@;
        chain.push(copy);
        assert(capability::capability_views(chain@) =~= before.push(added));
        index = index + 1;
        assert(capability::capability_views(chain@) =~= head + capability::capability_views(
            capabilities@,
        ).take(index as int));
    }
    assert(capability::capability_views(chain@) =~= chain_of(
        capability::capability_views(capabilities@),
        msix,
    ));
    chain
}

impl PciFunctionSpec {
    /// Creates an automatically placed function with no BARs or capabilities.
    pub fn new(id: DeviceNodeId, identity: PciEndpointIdentity) -> (spec: Self)
        ensures
            spec@ == (FunctionSpecView {
                id: id@,
                identity,
                bdf: ResourceRequest::Auto,
                bars: Seq::empty(),
                capabilities: Seq::empty(),
                msix: None,
            }),
            spec@.wf(),
    {
        let spec = PciFunctionSpec {
            id,
            identity,
            bdf: ResourceRequest::Auto,
            bars: Vec::new(),
            capabilities: Vec::new(),
            msix: None,
        };
        assert(spec@.capabilities =~= Seq::empty());
        spec
    }

    /// Returns the device-graph identity of this function.
    pub fn id(&self) -> (id: &DeviceNodeId)
        ensures
            id@ == self@.id,
    {
        &self.id
    }

    /// Selects automatic or fixed BDF placement.
    pub fn with_bdf(self, bdf: ResourceRequest<PciBdf>) -> (spec: Self)
        ensures
            spec@ == (FunctionSpecView { bdf, ..self@ }),
            self@.wf() && (bdf matches ResourceRequest::Fixed(bdf) ==> bdf.wf()) ==> spec@.wf(),
    {
        let spec = PciFunctionSpec { bdf, ..self };
        assert(spec@.capabilities =~= self@.capabilities);
        spec
    }

    /// Adds one memory BAR, unless one of its BAR registers is taken.
    pub fn with_bar(self, bar: PciMemoryBar) -> (spec: PciResult<Self>)
        requires
            self@.wf(),
            bar.wf(),
        ensures
            match spec {
                Ok(spec) => {
                    &&& forall|i: int|
                        0 <= i < self@.bars.len() ==> !(#[trigger] self@.bars[i]).shares_slot(bar)
                    &&& spec@ == (FunctionSpecView { bars: self@.bars.push(bar), ..self@ })
                    &&& spec@.wf()
                },
                Err(error) => {
                    &&& exists|i: int|
                        0 <= i < self@.bars.len() && (#[trigger] self@.bars[i]).shares_slot(bar)
                    &&& error@ == (PciErrorView::InvalidBar {
                        bar: bar.index,
                        detail: "BAR slot is already occupied by this function"@,
                    })
                },
            },
    {
        let start: u8 = bar.index().value();
        let end: u8 = start + bar.occupied_slots();
        let mut index: usize = 0;
        while index < self.bars.len()
            invariant
                index <= self.bars.len(),
                bar.wf(),
                start == bar.index.0,
                end == bar.index.0 + crate::pci::bar::slots_of(bar.width),
                self@.wf(),
                forall|i: int| 0 <= i < index ==> !(#[trigger] self@.bars[i]).shares_slot(bar),
            decreases self.bars.len() - index,
        {
            let existing = &self.bars[index];
            assert(self@.bars[index as int].wf());
            let existing_start: u8 = existing.index().value();
            let existing_end: u8 = existing_start + existing.occupied_slots();
            if start < existing_end && existing_start < end {
                assert(self@.bars[index as int].shares_slot(bar));
                return Err(
                    PciError::InvalidBar {
                        bar: bar.index(),
                        detail: text::text_of("BAR slot is already occupied by this function"),
                    },
                );
            }
            index = index + 1;
        }
        let ghost before = self@;
        let mut spec = self;
        spec.bars.push(bar);
        assert(spec@.capabilities =~= before.capabilities);
        Ok(spec)
    }

    /// Adds one standard capability, unless the complete aligned chain no
    /// longer fits below legacy config offset `0x100`.
    pub fn with_capability(self, capability: PciCapability) -> (spec: PciResult<Self>)
        requires
            self@.wf(),
            capability.wf(),
        ensures
            match spec {
                Ok(spec) => {
                    &&& spec@ == (FunctionSpecView {
                        capabilities: self@.capabilities.push(capability@),
                        ..self@
                    })
                    &&& spec@.wf()
                },
                Err(error) => {
                    &&& !capability::chain_fits(
                        self@.chain().push(capability@),
                        self@.chain().len() as int + 1,
                    )
                    &&& error@ == capability::chain_overflow(capability@)
                },
            },
    {
        let ghost before = self@;
        let ghost added = capability@;
        let mut spec = self;
        spec.capabilities.push(capability);
        assert(spec@.capabilities =~= before.capabilities.push(added));
        assert(spec@.chain() =~= before.chain().push(added));
        let chain = capability_chain(&spec.capabilities, spec.msix);
        match capability::capability_chain_offsets(&chain) {
            Ok(_) => {
                assert(capability::chain_fits(spec@.chain(), spec@.chain().len() as int));
                Ok(spec)
            },
            Err(error) => {
                proof {
                    let views = capability::capability_views(chain@);
                    let i = choose|i: int| #[trigger]
                        capability::chain_breaks_at(views, i) && error@
                            == capability::chain_overflow(chain@[i]@);
                    let length = before.chain().len() as int;
                    assert(views == before.chain().push(added));
                    if i < length {
                        capability::lemma_chain_offset_prefix(views, before.chain(), i + 1);
                        capability::lemma_chain_offset_grows(before.chain(), i + 1, length);
                        assert(false);
                    }
                    assert(chain@[i]@ == views[i]);
                }
                Err(error)
            },
        }
    }

    /// Declares an MSI-X capability, unless the complete aligned chain no
    /// longer fits below legacy config offset `0x100`.
    pub fn with_msix(self, msix: PciMsixDeclaration) -> (spec: PciResult<Self>)
        requires
            self@.wf(),
            msix.wf(),
        ensures
            match spec {
                Ok(spec) => {
                    &&& spec@ == (FunctionSpecView { msix: Some(msix), ..self@ })
                    &&& spec@.wf()
                },
                Err(error) => exists|i: int| #[trigger]
                    capability::chain_breaks_at(chain_of(self@.capabilities, Some(msix)), i)
                        && error@ == capability::chain_overflow(
                        chain_of(self@.capabilities, Some(msix))[i],
                    ),
            },
    {
        let spec = PciFunctionSpec { msix: Some(msix), ..self };
        assert(spec@.capabilities =~= self@.capabilities);
        let chain = capability_chain(&spec.capabilities, spec.msix);
        match capability::capability_chain_offsets(&chain) {
            Ok(_) => {
                assert(capability::chain_fits(spec@.chain(), spec@.chain().len() as int));
                Ok(spec)
            },
            Err(error) => {
                proof {
                    let views = capability::capability_views(chain@);
                    let i = choose|i: int| #[trigger]
                        capability::chain_breaks_at(views, i) && error@
                            == capability::chain_overflow(chain@[i]@);
                    assert(views[i] == chain@[i]@);
                }
                Err(error)
            },
        }
    }
}

} // verus!
