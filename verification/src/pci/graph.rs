//! Typed declarations connecting PCI functions to the device graph, and the
//! transactional resolution of one graph-backed PCI bus.
//!
//! Graph nodes name their runtime models by number; two nodes retain the same
//! model exactly when the numbers are equal.

use crate::bits;
use crate::device::{DeviceManagerError, DeviceManagerErrorView, DeviceManagerResult, DeviceNodeId, ResourceRequest, FOUR_GIB};
use crate::pci::address::PciBdf;
use crate::pci::aperture;
use crate::pci::bar::PciMemoryBar;
use crate::pci::capability;
use crate::pci::ecam;
use crate::pci::ecam::{PciEcamDevice, ECAM_SIZE};
use crate::pci::error::{PciError, PciErrorView, PciResult};
use crate::pci::function;
use crate::pci::function::{FunctionSpecView, PciEndpointIdentity, PciFunctionSpec};
use crate::pci::memory::PciMemoryApertureDevice;
use crate::pci::msix::{PciMsixDeclaration, MSIX_BAR_INDEX, MSIX_BAR_SIZE};
use crate::pci::placement;
use crate::pci::root::PciRootState;
use crate::pci::state::{FunctionBinding, FunctionView};
use crate::pci::topology;
use crate::pci::topology::{PciTopologyBuilder, ResolvedPciTopology};
use crate::text;
use std::ops::Range;
use vstd::prelude::*;
use vstd::string::StringExecFns;

verus! {

/// Name of the slot that holds the ECAM window.
pub const ECAM_SLOT: &'static str = "ecam";

/// Name of the slot that holds the memory aperture.
pub const MEMORY_SLOT: &'static str = "memory";

// ---------------------------------------------------------------------------
// Host keys
// ---------------------------------------------------------------------------

/// Stable key selecting one architecture-provided PCI host.
#[derive(Debug, PartialEq, Eq, PartialOrd, Ord)]
pub struct PciHostKey {
    pub value: String,
}

/// A character that may stand in a host key.
pub open spec fn host_key_char(c: char) -> bool {
    ||| '0' <= c && c <= '9'
    ||| 'a' <= c && c <= 'z'
    ||| 'A' <= c && c <= 'Z'
    ||| c == '-'
    ||| c == '_'
    ||| c == '.'
    ||| c == '@'
}

/// A text that is a host key.
pub open spec fn host_key_ok(value: Seq<char>) -> bool {
    value.len() > 0 && forall|i: int| 0 <= i < value.len() ==> host_key_char(#[trigger] value[i])
}

fn is_host_key_char(c: char) -> (result: bool)
    ensures
        result == host_key_char(c),
{
    ('0' <= c && c <= '9') || ('a' <= c && c <= 'z') || ('A' <= c && c <= 'Z') || c == '-' || c
        == '_' || c == '.' || c == '@'
}

impl PciHostKey {
    /// Creates a validated host key.
    pub fn new(value: &str) -> (key: Result<Self, DeviceManagerError>)
        ensures
            match key {
                Ok(key) => host_key_ok(value@) && key.value@ == value@,
                Err(error) => !host_key_ok(value@) && error@ == (
                DeviceManagerErrorView::InvalidInput {
                    operation: "create PCI host key"@,
                    detail: "'"@ + value@ + "' is not a stable PCI host key"@,
                }),
            },
    {
        let length: usize = value.unicode_len();
        let mut index: usize = 0;
        while index < length && is_host_key_char(value.get_char(index))
            invariant
                index <= length,
                length == value@.len(),
                forall|i: int| 0 <= i < index ==> host_key_char(#[trigger] value@[i]),
            decreases length - index,
        {
            index = index + 1;
        }
        if length == 0 || index < length {
            let mut detail = text::text_of("'");
            detail.append(value);
            detail.append("' is not a stable PCI host key");
            return Err(
                DeviceManagerError::InvalidInput { operation: "create PCI host key", detail },
            );
        }
        Ok(PciHostKey { value: text::text_of(value) })
    }

    /// Returns the stable textual key.
    pub fn as_str(&self) -> (value: &str)
        ensures
            value@ == self.value@,
    {
        self.value.as_str()
    }

    /// Tells whether two keys select the same host.
    pub fn same(&self, other: &PciHostKey) -> (same: bool)
        ensures
            same == (self.value@ == other.value@),
    {
        text::text_eq(self.value.as_str(), other.value.as_str())
    }
}

// ---------------------------------------------------------------------------
// Function requirements
// ---------------------------------------------------------------------------

/// One ordinary model's request to appear as a PCI function.
#[derive(Debug)]
pub struct PciFunctionRequirement {
    pub host: PciHostKey,
    pub identity: PciEndpointIdentity,
    pub bdf: ResourceRequest<PciBdf>,
    pub bars: Vec<PciMemoryBar>,
    pub msix: Option<PciMsixDeclaration>,
}

/// BAR `at` takes a register of an earlier BAR, and none before it does.
pub open spec fn clashes_at(bars: Seq<PciMemoryBar>, at: int) -> bool {
    &&& 0 <= at < bars.len()
    &&& function::slots_are_distinct(bars.take(at))
    &&& !function::slots_are_distinct(bars.take(at + 1))
}

impl PciFunctionRequirement {
    /// BARs and MSI-X have shapes that can exist, and a fixed address exists
    /// on a bus.
    pub open spec fn wf(self) -> bool {
        &&& forall|i: int| 0 <= i < self.bars@.len() ==> (#[trigger] self.bars@[i]).wf()
        &&& self.bdf matches ResourceRequest::Fixed(bdf) ==> bdf.wf()
        &&& self.msix matches Some(msix) ==> msix.wf()
    }

    /// Position of the first BAR from `from` on in the given slot.
    pub open spec fn bar_in_slot(self, slot: u8, from: int) -> Option<int>
        decreases self.bars@.len() - from,
    {
        if from < 0 || from >= self.bars@.len() {
            None
        } else if self.bars@[from].index.0 == slot {
            Some(from)
        } else {
            self.bar_in_slot(slot, from + 1)
        }
    }

    /// Why MSI-X cannot be declared, if it cannot.
    pub open spec fn msix_fault(self) -> Option<Seq<char>> {
        if self.msix is Some {
            Some("the MSI-X capability is already declared"@)
        } else {
            match self.bar_in_slot(MSIX_BAR_INDEX, 0) {
                None => Some("MSI-X requires BAR 1 to be declared for the table/PBA window"@),
                Some(i) => if self.bars@[i].size < MSIX_BAR_SIZE {
                    Some(
                        "MSI-X requires BAR 1 of at least "@ + text::hex_text(MSIX_BAR_SIZE as nat)
                            + ", got "@ + text::hex_text(self.bars@[i].size as nat),
                    )
                } else {
                    None
                },
            }
        }
    }

    /// Creates an automatically placed function with no BARs.
    pub fn new(host: PciHostKey, identity: PciEndpointIdentity) -> (requirement: Self)
        ensures
            requirement.wf(),
            requirement.host == host,
            requirement.identity == identity,
            requirement.bdf == ResourceRequest::<PciBdf>::Auto,
            requirement.bars@ == Seq::<PciMemoryBar>::empty(),
            requirement.msix is None,
    {
        PciFunctionRequirement {
            host,
            identity,
            bdf: ResourceRequest::Auto,
            bars: Vec::new(),
            msix: None,
        }
    }

    /// Selects automatic or fixed BDF placement.
    pub fn with_bdf(self, bdf: ResourceRequest<PciBdf>) -> (requirement: Self)
        ensures
            requirement == (PciFunctionRequirement { bdf, ..self }),
    {
        PciFunctionRequirement { bdf, ..self }
    }

    /// Adds one memory BAR, unless its slot is taken.
    pub fn with_bar(self, bar: PciMemoryBar) -> (requirement: PciResult<Self>)
        ensures
            match requirement {
                Ok(requirement) => {
                    &&& forall|i: int|
                        0 <= i < self.bars@.len() ==> (#[trigger] self.bars@[i]).index != bar.index
                    &&& requirement.bars@ == self.bars@.push(bar)
                    &&& requirement.host == self.host
                    &&& requirement.identity == self.identity
                    &&& requirement.bdf == self.bdf
                    &&& requirement.msix == self.msix
                },
                Err(error) => {
                    &&& exists|i: int|
                        0 <= i < self.bars@.len() && (#[trigger] self.bars@[i]).index == bar.index
                    &&& error@ == (PciErrorView::InvalidBar {
                        bar: bar.index,
                        detail: "BAR slot is already occupied by this function"@,
                    })
                },
            },
    {
        let mut index: usize = 0;
        while index < self.bars.len()
            invariant
                index <= self.bars.len(),
                forall|i: int| 0 <= i < index ==> (#[trigger] self.bars@[i]).index != bar.index,
            decreases self.bars.len() - index,
        {
            if self.bars[index].index() == bar.index() {
                return Err(
                    PciError::InvalidBar {
                        bar: bar.index(),
                        detail: text::text_of("BAR slot is already occupied by this function"),
                    },
                );
            }
            index = index + 1;
        }
        let mut requirement = self;
        requirement.bars.push(bar);
        Ok(requirement)
    }

    /// Declares an MSI-X capability for this function.
    ///
    /// The capability can be declared once, and BAR 1 must be there already and
    /// hold a whole page: the table and PBA fields always refer to BAR 1.
    pub fn with_msix(self, msix: PciMsixDeclaration) -> (requirement: PciResult<Self>)
        ensures
            match requirement {
                Ok(requirement) => self.msix_fault() is None && requirement == (
                PciFunctionRequirement { msix: Some(msix), ..self }),
                Err(error) => self.msix_fault() matches Some(detail) && error@ == (
                PciErrorView::InvalidMsix { detail }),
            },
    {
        if self.msix.is_some() {
            return Err(
                PciError::InvalidMsix {
                    detail: text::text_of("the MSI-X capability is already declared"),
                },
            );
        }
        let mut index: usize = 0;
        while index < self.bars.len() && self.bars[index].index().value() != MSIX_BAR_INDEX
            invariant
                index <= self.bars.len(),
                self.bar_in_slot(MSIX_BAR_INDEX, 0) == self.bar_in_slot(
                    MSIX_BAR_INDEX,
                    index as int,
                ),
            decreases self.bars.len() - index,
        {
            index = index + 1;
        }
        if index >= self.bars.len() {
            return Err(
                PciError::InvalidMsix {
                    detail: text::text_of(
                        "MSI-X requires BAR 1 to be declared for the table/PBA window",
                    ),
                },
            );
        }
        if self.bars[index].size() < MSIX_BAR_SIZE {
            let mut detail = text::text_of("MSI-X requires BAR 1 of at least ");
            text::push_hex(&mut detail, MSIX_BAR_SIZE);
            detail.append(", got ");
            text::push_hex(&mut detail, self.bars[index].size());
            return Err(PciError::InvalidMsix { detail });
        }
        Ok(PciFunctionRequirement { msix: Some(msix), ..self })
    }

    /// Returns the selected host key.
    pub fn host(&self) -> (host: &PciHostKey)
        ensures
            *host == self.host,
    {
        &self.host
    }

    /// Builds the function declaration with the given identity.
    ///
    /// Fails at the first BAR that takes a register of an earlier one, as a
    /// 64-bit BAR does with the slot after its own.
    pub fn function_spec(&self, id: DeviceNodeId) -> (spec: PciResult<PciFunctionSpec>)
        requires
            self.wf(),
        ensures
            match spec {
                Ok(spec) => {
                    &&& function::slots_are_distinct(self.bars@)
                    &&& spec@ == (FunctionSpecView {
                        id: id@,
                        identity: self.identity,
                        bdf: self.bdf,
                        bars: self.bars@,
                        capabilities: Seq::empty(),
                        msix: self.msix,
                    })
                    &&& spec@.wf()
                },
                Err(error) => exists|at: int| #[trigger]
                    clashes_at(self.bars@, at) && error@ == (PciErrorView::InvalidBar {
                        bar: self.bars@[at].index,
                        detail: "BAR slot is already occupied by this function"@,
                    }),
            },
    {
        let ghost name = id@;
        let mut spec = PciFunctionSpec::new(id, self.identity).with_bdf(self.bdf);
        assert(self.bars@.take(0) =~= Seq::empty());
        let mut index: usize = 0;
        while index < self.bars.len()
            invariant
                index <= self.bars.len(),
                self.wf(),
                spec@ == (FunctionSpecView {
                    id: name,
                    identity: self.identity,
                    bdf: self.bdf,
                    bars: self.bars@.take(index as int),
                    capabilities: Seq::empty(),
                    msix: None,
                }),
                spec@.wf(),
            decreases self.bars.len() - index,
        {
            let bar = self.bars[index];
            assert(self.bars@[index as int].wf());
            let ghost taken = self.bars@.take(index as int);
            let ghost longer = self.bars@.take(index + 1);
            assert(longer =~= taken.push(bar));
            match spec.with_bar(bar) {
                Ok(next) => {
                    spec = next;
                },
                Err(error) => {
                    proof {
                        let i = choose|i: int|
                            0 <= i < taken.len() && (#[trigger] taken[i]).shares_slot(bar);
                        assert(longer[i].shares_slot(longer[index as int]));
                        assert(clashes_at(self.bars@, index as int));
                    }
                    return Err(error);
                },
            }
            index = index + 1;
        }
        assert(self.bars@.take(index as int) =~= self.bars@);
        match self.msix {
            Some(msix) => {
                proof {
                    lemma_msix_alone_fits(msix);
                }
                spec.with_msix(msix)
            },
            None => Ok(spec),
        }
    }
}

/// The MSI-X capability alone fits below the limit of the chain.
proof fn lemma_msix_alone_fits(msix: PciMsixDeclaration)
    ensures
        forall|i: int| !#[trigger]
            capability::chain_breaks_at(
                function::chain_of(Seq::empty(), Some(msix)),
                i,
            ),
{
    let chain = function::chain_of(Seq::empty(), Some(msix));
    assert(chain.len() == 1);
    assert forall|i: int| !#[trigger] capability::chain_breaks_at(chain, i) by {
        reveal_with_fuel(capability::chain_offset, 2);
        assert(capability::chain_offset(chain, 1) == 0x4c);
    }
}

// ---------------------------------------------------------------------------
// Host providers
// ---------------------------------------------------------------------------

/// Architecture-owned description of one PCI host graph node.
#[derive(Debug)]
pub struct PciHostProvider {
    pub key: PciHostKey,
    pub node: DeviceNodeId,
    pub memory_aperture_slot: String,
    pub platform_functions: Vec<PciFunctionSpec>,
    pub reserved_bdfs: Vec<PciBdf>,
}

impl PciHostProvider {
    /// The declared platform functions.
    pub open spec fn functions(self) -> Seq<FunctionSpecView> {
        placement::spec_views(self.platform_functions@)
    }

    /// Creates a provider backed by an ordinary graph node and MMIO slot.
    pub fn new(key: PciHostKey, node: DeviceNodeId, memory_aperture_slot: String) -> (provider: Self)
        ensures
            provider.key == key,
            provider.node == node,
            provider.memory_aperture_slot == memory_aperture_slot,
            provider.functions() == Seq::<FunctionSpecView>::empty(),
            provider.reserved_bdfs@ == Seq::<PciBdf>::empty(),
    {
        let provider = PciHostProvider {
            key,
            node,
            memory_aperture_slot,
            platform_functions: Vec::new(),
            reserved_bdfs: Vec::new(),
        };
        assert(provider.functions() =~= Seq::<FunctionSpecView>::empty());
        provider
    }

    /// Returns the stable key selected by endpoint requirements.
    pub fn key(&self) -> (key: &PciHostKey)
        ensures
            *key == self.key,
    {
        &self.key
    }

    /// Adds one platform-owned fixed function, unless its identity is taken.
    pub fn with_platform_function(self, function: PciFunctionSpec) -> (provider: PciResult<Self>)
        ensures
            match provider {
                Ok(provider) => {
                    &&& forall|i: int|
                        0 <= i < self.functions().len() ==> (#[trigger] self.functions()[i]).id
                            != function@.id
                    &&& provider.functions() == self.functions().push(function@)
                    &&& provider.key == self.key
                    &&& provider.node == self.node
                    &&& provider.memory_aperture_slot == self.memory_aperture_slot
                    &&& provider.reserved_bdfs == self.reserved_bdfs
                },
                Err(error) => {
                    &&& exists|i: int|
                        0 <= i < self.functions().len() && (#[trigger] self.functions()[i]).id
                            == function@.id
                    &&& error@ == (PciErrorView::DuplicateFunction { function: function@.id })
                },
            },
    {
        let mut index: usize = 0;
        while index < self.platform_functions.len()
            invariant
                index <= self.platform_functions.len(),
                forall|i: int|
                    0 <= i < index ==> (#[trigger] self.functions()[i]).id != function@.id,
            decreases self.platform_functions.len() - index,
        {
            assert(self.functions()[index as int] == self.platform_functions@[index as int]@);
            if self.platform_functions[index].id().same(function.id()) {
                return Err(PciError::DuplicateFunction { function: function.id().to_text() });
            }
            index = index + 1;
        }
        let ghost before = self.functions();
        let ghost added = function@;
        let mut provider = self;
        provider.platform_functions.push(function);
        assert(provider.functions() =~= before.push(added));
        Ok(provider)
    }

    /// Reserves one BDF from endpoint allocation.
    pub fn with_reserved_bdf(self, bdf: PciBdf) -> (provider: Self)
        ensures
            provider.reserved_bdfs@ == self.reserved_bdfs@.push(bdf),
            provider.key == self.key,
            provider.node == self.node,
            provider.memory_aperture_slot == self.memory_aperture_slot,
            provider.platform_functions == self.platform_functions,
    {
        let mut provider = self;
        provider.reserved_bdfs.push(bdf);
        provider
    }
}

// ---------------------------------------------------------------------------
// Host resources
// ---------------------------------------------------------------------------

/// Planner requirements for one graph-backed PCI host bridge.
#[derive(Clone, Copy, Debug, PartialEq, Eq, Structural)]
pub struct PciHostResourceRequirements {
    pub memory_size: u64,
    pub memory_alignment: u64,
}

/// One automatically placed MMIO range that a host asks its planner for.
#[derive(Clone, Copy, Debug)]
pub struct MmioRequirement {
    pub slot: &'static str,
    pub size: u64,
    pub alignment: u64,
}

impl PciHostResourceRequirements {
    /// The requirements can be met by some range.
    pub open spec fn wf(self) -> bool {
        0 < self.memory_size <= FOUR_GIB && bits::is_power_of_two(self.memory_alignment)
    }

    /// Creates requirements for one 32-bit non-prefetchable memory aperture.
    ///
    /// The size must lie within 1..=4 GiB and the alignment must be a power of
    /// two.
    pub fn new(memory_size: u64, memory_alignment: u64) -> (requirements: PciResult<Self>)
        ensures
            match requirements {
                Ok(requirements) => requirements.wf() && requirements == (
                PciHostResourceRequirements { memory_size, memory_alignment }),
                Err(error) => if memory_size == 0 || memory_size > FOUR_GIB {
                    error@ == (PciErrorView::InvalidHostAperture {
                        detail: "graph-planned memory aperture size must be within 1..=4 GiB"@,
                    })
                } else {
                    !bits::is_power_of_two(memory_alignment) && error@ == (
                    PciErrorView::InvalidHostAperture {
                        detail: "graph-planned memory aperture alignment must be a power of two"@,
                    })
                },
            },
    {
        if memory_size == 0 || memory_size > FOUR_GIB {
            return Err(
                PciError::InvalidHostAperture {
                    detail: "graph-planned memory aperture size must be within 1..=4 GiB",
                },
            );
        }
        if !bits::power_of_two(memory_alignment) {
            return Err(
                PciError::InvalidHostAperture {
                    detail: "graph-planned memory aperture alignment must be a power of two",
                },
            );
        }
        Ok(PciHostResourceRequirements { memory_size, memory_alignment })
    }

    /// Returns the requested PCI memory aperture size.
    pub fn memory_size(self) -> (size: u64)
        ensures
            size == self.memory_size,
    {
        self.memory_size
    }

    /// Returns the requested PCI memory aperture alignment.
    pub fn memory_alignment(self) -> (alignment: u64)
        ensures
            alignment == self.memory_alignment,
    {
        self.memory_alignment
    }

    /// Lists the ranges to plan: ECAM always takes a 1 MiB-aligned MiB.
    pub fn device_requirements(self) -> (requirements: Vec<MmioRequirement>)
        ensures
            requirements@.len() == 2,
            requirements@[0].slot@ == ECAM_SLOT@,
            requirements@[0].size == ECAM_SIZE,
            requirements@[0].alignment == ECAM_SIZE,
            requirements@[1].slot@ == MEMORY_SLOT@,
            requirements@[1].size == self.memory_size,
            requirements@[1].alignment == self.memory_alignment,
    {
        let mut requirements: Vec<MmioRequirement> = Vec::new();
        requirements.push(
            MmioRequirement { slot: ECAM_SLOT, size: ECAM_SIZE, alignment: ECAM_SIZE },
        );
        requirements.push(
            MmioRequirement {
                slot: MEMORY_SLOT,
                size: self.memory_size,
                alignment: self.memory_alignment,
            },
        );
        requirements
    }
}

// ---------------------------------------------------------------------------
// Shared bus state
// ---------------------------------------------------------------------------

/// Resolved windows and topology of one PCI host.
#[derive(Debug)]
pub struct PciHostPlan {
    pub topology: ResolvedPciTopology,
    pub ecam_window: Range<u64>,
}

impl PciHostPlan {
    /// The topology is sound, and both windows run upwards.
    pub open spec fn wf(self) -> bool {
        &&& self.topology.wf()
        &&& self.ecam_window.start <= self.ecam_window.end
        &&& self.topology.memory_aperture.start <= self.topology.memory_aperture.end
    }

    /// The claimed base and size pairs are exactly the resolved windows.
    pub open spec fn matches_claims(
        self,
        claimed_ecam: (u64, u64),
        claimed_memory: (u64, u64),
    ) -> bool {
        let aperture = self.topology.memory_aperture;
        &&& claimed_ecam.0 == self.ecam_window.start
        &&& claimed_ecam.1 == self.ecam_window.end - self.ecam_window.start
        &&& claimed_memory.0 == aperture.start
        &&& claimed_memory.1 == aperture.end - aperture.start
    }
}

/// State shared by the host and endpoint models of one bus: the frozen plan and
/// the live root complex, named by number.
#[derive(Debug)]
pub struct PciBusShared {
    pub plan: Option<PciHostPlan>,
    pub root: Option<usize>,
}

/// The devices that one host build publishes.
#[derive(Debug)]
pub struct PciHostDevices {
    pub root: PciRootState,
    pub ecam: PciEcamDevice,
    pub memory: PciMemoryApertureDevice,
}

impl PciBusShared {
    /// A published plan is sound.
    pub open spec fn wf(self) -> bool {
        self.plan matches Some(plan) ==> plan.wf()
    }

    /// Creates the state of an unresolved bus.
    pub fn new() -> (shared: Self)
        ensures
            shared.plan is None,
            shared.root is None,
    {
        PciBusShared { plan: None, root: None }
    }

    /// Publishes the plan of the bus, once.
    pub fn publish_plan(&mut self, plan: PciHostPlan) -> (result: PciResult)
        ensures
            match result {
                Ok(()) => old(self).plan is None && *final(self) == (PciBusShared {
                    plan: Some(plan),
                    root: old(self).root,
                }),
                Err(error) => {
                    &&& old(self).plan is Some
                    &&& *final(self) == *old(self)
                    &&& error@ == PciErrorView::TopologyAlreadyResolved
                },
            },
    {
        if self.plan.is_some() {
            return Err(PciError::TopologyAlreadyResolved);
        }
        self.plan = Some(plan);
        Ok(())
    }

    /// Returns the published plan.
    pub fn plan(&self) -> (plan: PciResult<&PciHostPlan>)
        ensures
            match plan {
                Ok(plan) => self.plan == Some(*plan),
                Err(error) => self.plan is None && error@ == PciErrorView::TopologyNotResolved,
            },
    {
        match &self.plan {
            Some(plan) => Ok(plan),
            None => Err(PciError::TopologyNotResolved),
        }
    }

    /// Publishes a live root complex, unless there is one.
    pub fn publish_root(&mut self, root: usize) -> (result: PciResult)
        ensures
            match result {
                Ok(()) => old(self).root is None && final(self).plan == old(self).plan && final(self).root == Some(root),
                Err(error) => {
                    &&& old(self).root is Some
                    &&& *final(self) == *old(self)
                    &&& error@ == PciErrorView::HostAlreadyRegistered
                },
            },
    {
        if self.root.is_some() {
            return Err(PciError::HostAlreadyRegistered);
        }
        self.root = Some(root);
        Ok(())
    }

    /// Forgets a root complex that is gone, so that a later build can publish
    /// its own.
    pub fn release_root(&mut self, root: usize)
        ensures
            final(self).plan == old(self).plan,
            final(self).root == (if old(self).root == Some(root) {
                None
            } else {
                old(self).root
            }),
    {
        if let Some(live) = self.root {
            if live == root {
                self.root = None;
            }
        }
    }

    /// Returns the live root complex on behalf of one function.
    pub fn root_lock(&self, function: &DeviceNodeId) -> (root: PciResult<usize>)
        ensures
            match root {
                Ok(root) => self.root == Some(root),
                Err(error) => self.root is None && error@ == (PciErrorView::HostUnavailable {
                    function: function@,
                }),
            },
    {
        match self.root {
            Some(root) => Ok(root),
            None => Err(PciError::HostUnavailable { function: function.to_text() }),
        }
    }

    /// Why a host build fails, if it does.
    pub open spec fn host_fault(
        self,
        claimed_ecam: (u64, u64),
        claimed_memory: (u64, u64),
    ) -> Option<DeviceManagerErrorView> {
        match self.plan {
            None => Some(build_fault("build PCI host"@, PciErrorView::TopologyNotResolved)),
            Some(plan) => if !plan.matches_claims(claimed_ecam, claimed_memory) {
                Some(
                    integration_fault(
                        "build PCI host"@,
                        "claimed host ranges differ from the resolved PCI topology"@,
                    ),
                )
            } else if self.root is Some {
                Some(
                    build_fault(
                        "publish PCI root complex"@,
                        PciErrorView::HostAlreadyRegistered,
                    ),
                )
            } else {
                None
            },
        }
    }

    /// Builds the host devices over the ranges that the planner handed out.
    ///
    /// The claimed ranges must equal the resolved windows before any device,
    /// BAR route or root is published for the bus.
    pub fn build_host(
        &mut self,
        claimed_ecam: (u64, u64),
        claimed_memory: (u64, u64),
        root: usize,
    ) -> (devices: DeviceManagerResult<PciHostDevices>)
        requires
            old(self).wf(),
        ensures
            final(self).plan == old(self).plan,
            match devices {
                Ok(devices) => {
                    let plan = old(self).plan->0;
                    &&& old(self).host_fault(claimed_ecam, claimed_memory) is None
                    &&& final(self).root == Some(root)
                    &&& devices.root.wf()
                    &&& devices.root.memory_aperture == plan.topology.memory_aperture
                    &&& devices.root.next_binding_generation == 1
                    &&& devices.root.states().len() == plan.topology.plans().len()
                    &&& forall|k: int|
                        0 <= k < devices.root.states().len() ==> #[trigger] devices.root.states()[k]
                            == fresh_state(plan.topology.plans()[k])
                    &&& devices.ecam.window == plan.ecam_window
                    &&& devices.memory.aperture == plan.topology.memory_aperture
                },
                Err(error) => old(self).host_fault(claimed_ecam, claimed_memory) == Some(error@)
                    && *final(self) == *old(self),
            },
    {
        let root_state;
        let window;
        let aperture;
        match self.plan() {
            Ok(plan) => {
                let memory = plan.topology.memory_aperture();
                if claimed_ecam.0 != plan.ecam_window.start || claimed_ecam.1
                    != plan.ecam_window.end - plan.ecam_window.start || claimed_memory.0
                    != memory.start || claimed_memory.1 != memory.end - memory.start {
                    return Err(
                        graph_integration_error(
                            "build PCI host",
                            "claimed host ranges differ from the resolved PCI topology",
                        ),
                    );
                }
                root_state = PciRootState::new(&plan.topology);
                window = plan.ecam_window.start..plan.ecam_window.end;
                aperture = memory.start..memory.end;
            },
            Err(error) => {
                return Err(pci_build_error("build PCI host", error));
            },
        }
        match self.publish_root(root) {
            Ok(()) => {},
            Err(error) => {
                return Err(pci_build_error("publish PCI root complex", error));
            },
        }
        Ok(
            PciHostDevices {
                root: root_state,
                ecam: PciEcamDevice::new(window),
                memory: PciMemoryApertureDevice::new(aperture),
            },
        )
    }

    /// Binds the handler of one endpoint to its function on the live root.
    pub fn bind_endpoint(&self, root: &mut PciRootState, id: &DeviceNodeId, handler: usize) -> (
        generation: DeviceManagerResult<u64>)
        requires
            old(root).wf(),
        ensures
            final(root).wf(),
            final(root).memory_aperture == old(root).memory_aperture,
            match generation {
                Ok(generation) => {
                    let k = crate::pci::root::index_of_id(old(root).states(), id@, 0)->0;
                    &&& self.root is Some
                    &&& old(root).bind_fault(id@) is None
                    &&& generation == old(root).next_binding_generation
                    &&& final(root).next_binding_generation == generation + 1
                    &&& final(root).states() == old(root).states().update(
                        k,
                        FunctionView {
                            binding: Some(FunctionBinding { generation, handler }),
                            ..old(root).states()[k]
                        },
                    )
                },
                Err(error) => *final(root) == *old(root) && error@ == build_fault(
                    "bind PCI endpoint"@,
                    if self.root is None {
                        PciErrorView::HostUnavailable { function: id@ }
                    } else {
                        old(root).bind_fault(id@)->0
                    },
                ) && (self.root is Some ==> old(root).bind_fault(id@) is Some),
            },
    {
        match self.root_lock(id) {
            Ok(_) => {},
            Err(error) => {
                return Err(pci_build_error("bind PCI endpoint", error));
            },
        }
        match root.bind_function(id, handler) {
            Ok(generation) => Ok(generation),
            Err(error) => Err(pci_build_error("bind PCI endpoint", error)),
        }
    }
}

/// The state of a function right after its root is created.
pub open spec fn fresh_state(plan: topology::ResolvedFunctionView) -> FunctionView {
    FunctionView {
        id: plan.id,
        bdf: plan.bdf,
        power_on: plan.power_on,
        config: plan.power_on.bytes,
        bars: crate::pci::state::fresh_bars(plan.bars),
        msix: plan.msix,
        binding: None,
    }
}

// ---------------------------------------------------------------------------
// Bus builder
// ---------------------------------------------------------------------------

/// One node that the bus asks the device graph to hold.
#[derive(Debug)]
pub struct PciGraphNode {
    pub id: DeviceNodeId,
    pub model: usize,
    pub dependency: Option<DeviceNodeId>,
}

/// One node as the resolved device graph holds it.
#[derive(Debug)]
pub struct ResolvedGraphNode {
    pub id: DeviceNodeId,
    pub model: Option<usize>,
}

/// Resolved base and size of the two host slots.
#[derive(Clone, Copy, Debug)]
pub struct ResolvedHostRanges {
    pub ecam: (u64, u64),
    pub memory: (u64, u64),
}

/// Builds PCI host and endpoint nodes before freezing their shared topology.
#[derive(Debug)]
pub struct PciBusGraphBuilder {
    pub host_id: DeviceNodeId,
    pub host_resources: PciHostResourceRequirements,
    pub topology: PciTopologyBuilder,
    pub host_model: usize,
    /// The model of each declared function, in the order of the topology.
    pub endpoint_models: Vec<usize>,
    pub shared: PciBusShared,
}

/// The model of the first node from `from` on with the given identity.
pub open spec fn model_of(nodes: Seq<ResolvedGraphNode>, id: Seq<char>, from: int) -> Option<usize>
    decreases nodes.len() - from,
{
    if from < 0 || from >= nodes.len() {
        None
    } else if nodes[from].id@ == id {
        nodes[from].model
    } else {
        model_of(nodes, id, from + 1)
    }
}

/// Why a node of the graph does not carry the expected model, if so.
pub open spec fn model_fault(nodes: Seq<ResolvedGraphNode>, id: Seq<char>, model: usize) -> Option<
    DeviceManagerErrorView,
> {
    match model_of(nodes, id, 0) {
        None => Some(
            integration_fault(
                "resolve PCI graph models"@,
                "PCI node "@ + id + " is absent or has no runtime model"@,
            ),
        ),
        Some(actual) => if actual != model {
            Some(
                integration_fault(
                    "resolve PCI graph models"@,
                    "PCI node "@ + id
                        + " does not retain the model created by this bus builder"@,
                ),
            )
        } else {
            None
        },
    }
}

/// The first model fault among the endpoints from `from` on.
pub open spec fn endpoint_fault(
    nodes: Seq<ResolvedGraphNode>,
    functions: Seq<FunctionSpecView>,
    models: Seq<usize>,
    from: int,
) -> Option<DeviceManagerErrorView>
    decreases functions.len() - from,
{
    if from < 0 || from >= functions.len() {
        None
    } else {
        match model_fault(nodes, functions[from].id, models[from]) {
            Some(fault) => Some(fault),
            None => endpoint_fault(nodes, functions, models, from + 1),
        }
    }
}

/// Why the resolved ranges do not match the host declaration, if so.
pub open spec fn range_fault(
    resources: PciHostResourceRequirements,
    ranges: ResolvedHostRanges,
) -> Option<DeviceManagerErrorView> {
    let operation = "resolve PCI host resources"@;
    if ranges.ecam.1 != ECAM_SIZE {
        Some(
            integration_fault(operation, "ECAM slot does not have the declared 1 MiB size"@),
        )
    } else if ranges.memory.1 != resources.memory_size {
        Some(
            integration_fault(operation, "memory slot size differs from the host declaration"@),
        )
    } else if ranges.memory.0 % resources.memory_alignment != 0 {
        Some(
            integration_fault(operation, "memory slot base violates the declared alignment"@),
        )
    } else if ranges.memory.0 + ranges.memory.1 > u64::MAX {
        Some(integration_fault(operation, "memory aperture overflows u64"@))
    } else if ranges.ecam.0 + ECAM_SIZE > u64::MAX {
        Some(
            config_fault(
                operation,
                PciErrorView::InvalidHostAperture {
                    detail: if ranges.ecam.0 % ECAM_SIZE != 0 {
                        "ECAM base is not 1 MiB aligned"@
                    } else {
                        "ECAM window must be exactly 1 MiB"@
                    },
                },
            ),
        )
    } else {
        match ecam::host_windows_fault(
            (ranges.ecam.0..(ranges.ecam.0 + ECAM_SIZE) as u64),
            (ranges.memory.0..(ranges.memory.0 + ranges.memory.1) as u64),
        ) {
            Some(detail) => Some(
                config_fault(operation, PciErrorView::InvalidHostAperture { detail }),
            ),
            None => None,
        }
    }
}

impl PciBusGraphBuilder {
    /// The topology is sound, every declared function has a model, and nothing
    /// is published yet.
    pub open spec fn wf(self) -> bool {
        &&& self.host_resources.wf()
        &&& self.topology.wf()
        &&& self.endpoint_models@.len() == self.topology.functions@.len()
        &&& self.shared.plan is None
        &&& self.shared.root is None
    }

    /// Creates one unresolved graph-backed PCI bus.
    pub fn new(
        host_id: DeviceNodeId,
        host_resources: PciHostResourceRequirements,
        host_model: usize,
    ) -> (builder: Self)
        requires
            host_resources.wf(),
        ensures
            builder.wf(),
            builder.host_id == host_id,
            builder.host_resources == host_resources,
            builder.host_model == host_model,
            builder.topology.declarations() == Seq::<FunctionSpecView>::empty(),
            builder.topology.reserved@ == Seq::<PciBdf>::empty(),
            builder.endpoint_models@ == Seq::<usize>::empty(),
    {
        let topology = PciTopologyBuilder::new();
        assert(topology.declarations().len() == topology.functions@.len());
        PciBusGraphBuilder {
            host_id,
            host_resources,
            topology,
            host_model,
            endpoint_models: Vec::new(),
            shared: PciBusShared::new(),
        }
    }

    /// Creates the host node that must be inserted into the device graph.
    pub fn host_node(&self) -> (node: PciGraphNode)
        ensures
            node.id@ == self.host_id@,
            node.model == self.host_model,
            node.dependency is None,
    {
        PciGraphNode { id: self.host_id.clone(), model: self.host_model, dependency: None }
    }

    /// Adds a pure PCI declaration and creates its node, which depends on the
    /// host node.
    pub fn endpoint_node(&mut self, function: PciFunctionSpec, model: usize) -> (node: PciResult<
        PciGraphNode,
    >)
        requires
            old(self).wf(),
            function@.wf(),
        ensures
            final(self).wf(),
            final(self).host_id == old(self).host_id,
            final(self).host_resources == old(self).host_resources,
            final(self).host_model == old(self).host_model,
            final(self).topology.reserved == old(self).topology.reserved,
            match node {
                Ok(node) => {
                    &&& node.id@ == function@.id
                    &&& node.model == model
                    &&& node.dependency matches Some(host) && host@ == old(self).host_id@
                    &&& exists|at: int| #[trigger]
                        topology::inserted(
                            old(self).topology.declarations(),
                            final(self).topology.declarations(),
                            at,
                            function@,
                        ) && final(self).endpoint_models@ == old(self).endpoint_models@.insert(
                            at,
                            model,
                        )
                },
                Err(error) => {
                    &&& exists|i: int|
                        0 <= i < old(self).topology.declarations().len() && (#[trigger] old(
                            self,
                        ).topology.declarations()[i]).id == function@.id
                    &&& error@ == (PciErrorView::DuplicateFunction { function: function@.id })
                    &&& *final(self) == *old(self)
                },
            },
    {
        let id = function.id.clone();
        let ghost before = self.topology.declarations();
        let ghost added = function@;
        match self.topology.add_function(function) {
            Ok(()) => {},
            Err(error) => {
                return Err(error);
            },
        }
        let ghost after = self.topology.declarations();
        let ghost place = choose|at: int| #[trigger] topology::inserted(before, after, at, added);
        assert(after.len() == self.topology.functions@.len());
        let mut at: usize = 0;
        while !self.topology.functions[at].id.same(&id)
            invariant
                at <= place < self.topology.functions.len(),
                topology::inserted(before, after, place, added),
                after == self.topology.declarations(),
                added.id == id@,
            decreases place - at,
        {
            assert(after[at as int] == self.topology.functions@[at as int]@);
            at = at + 1;
        }
        proof {
            assert(after[at as int] == self.topology.functions@[at as int]@);
            if at < place {
                assert(after[at as int] == before[at as int]);
            }
            assert(before.len() == old(self).topology.functions@.len());
        }
        self.endpoint_models.insert(at, model);
        Ok(PciGraphNode { id, model, dependency: Some(self.host_id.clone()) })
    }

    /// Checks that one node of the graph carries the expected model.
    fn validate_exact_model(
        nodes: &Vec<ResolvedGraphNode>,
        id: &DeviceNodeId,
        expected: usize,
    ) -> (result: DeviceManagerResult)
        ensures
            match result {
                Ok(()) => model_fault(nodes@, id@, expected) is None,
                Err(error) => model_fault(nodes@, id@, expected) == Some(error@),
            },
    {
        let mut index: usize = 0;
        while index < nodes.len() && !nodes[index].id.same(id)
            invariant
                index <= nodes.len(),
                model_of(nodes@, id@, 0) == model_of(nodes@, id@, index as int),
            decreases nodes.len() - index,
        {
            index = index + 1;
        }
        let actual: Option<usize> = if index < nodes.len() {
            nodes[index].model
        } else {
            None
        };
        match actual {
            None => {
                let mut detail = text::text_of("PCI node ");
                detail.append(id.as_str());
                detail.append(" is absent or has no runtime model");
                Err(
                    DeviceManagerError::InvalidConfig {
                        operation: "resolve PCI graph models",
                        detail,
                    },
                )
            },
            Some(model) => {
                if model != expected {
                    let mut detail = text::text_of("PCI node ");
                    detail.append(id.as_str());
                    detail.append(" does not retain the model created by this bus builder");
                    return Err(
                        DeviceManagerError::InvalidConfig {
                            operation: "resolve PCI graph models",
                            detail,
                        },
                    );
                }
                Ok(())
            },
        }
    }

    /// Why the graph does not hold the nodes of this bus, if so: the host
    /// first, then the endpoints in the order of their identities.
    pub open spec fn graph_fault(self, nodes: Seq<ResolvedGraphNode>) -> Option<
        DeviceManagerErrorView,
    > {
        match model_fault(nodes, self.host_id@, self.host_model) {
            Some(fault) => Some(fault),
            None => endpoint_fault(
                nodes,
                self.topology.declarations(),
                self.endpoint_models@,
                0,
            ),
        }
    }

    fn validate_graph_models(&self, nodes: &Vec<ResolvedGraphNode>) -> (result: DeviceManagerResult)
        requires
            self.wf(),
        ensures
            match result {
                Ok(()) => self.graph_fault(nodes@) is None,
                Err(error) => self.graph_fault(nodes@) == Some(error@),
            },
    {
        match Self::validate_exact_model(nodes, &self.host_id, self.host_model) {
            Ok(()) => {},
            Err(error) => {
                return Err(error);
            },
        }
        let ghost functions = self.topology.declarations();
        let mut index: usize = 0;
        while index < self.topology.functions.len()
            invariant
                index <= self.topology.functions.len(),
                self.wf(),
                functions == self.topology.declarations(),
                self.graph_fault(nodes@) == endpoint_fault(
                    nodes@,
                    functions,
                    self.endpoint_models@,
                    index as int,
                ),
            decreases self.topology.functions.len() - index,
        {
            assert(functions[index as int] == self.topology.functions@[index as int]@);
            match Self::validate_exact_model(
                nodes,
                &self.topology.functions[index].id,
                self.endpoint_models[index],
            ) {
                Ok(()) => {},
                Err(error) => {
                    return Err(error);
                },
            }
            index = index + 1;
        }
        Ok(())
    }

    /// Checks the resolved ranges and returns the two host windows.
    fn host_windows(&self, ranges: ResolvedHostRanges) -> (windows: DeviceManagerResult<
        (Range<u64>, Range<u64>),
    >)
        requires
            self.wf(),
        ensures
            match windows {
                Ok((ecam_window, aperture)) => {
                    &&& range_fault(self.host_resources, ranges) is None
                    &&& ecam_window == (ranges.ecam.0..(ranges.ecam.0 + ECAM_SIZE) as u64)
                    &&& aperture == (ranges.memory.0..(ranges.memory.0 + ranges.memory.1) as u64)
                },
                Err(error) => range_fault(self.host_resources, ranges) == Some(error@),
            },
    {
        if ranges.ecam.1 != ECAM_SIZE {
            return Err(
                graph_integration_error(
                    "resolve PCI host resources",
                    "ECAM slot does not have the declared 1 MiB size",
                ),
            );
        }
        if ranges.memory.1 != self.host_resources.memory_size {
            return Err(
                graph_integration_error(
                    "resolve PCI host resources",
                    "memory slot size differs from the host declaration",
                ),
            );
        }
        proof {
            bits::lemma_masks(ranges.memory.0, self.host_resources.memory_alignment);
        }
        if ranges.memory.0 & (self.host_resources.memory_alignment - 1) != 0 {
            return Err(
                graph_integration_error(
                    "resolve PCI host resources",
                    "memory slot base violates the declared alignment",
                ),
            );
        }
        let memory_end: u64 = match ranges.memory.0.checked_add(ranges.memory.1) {
            Some(end) => end,
            None => {
                return Err(
                    graph_integration_error(
                        "resolve PCI host resources",
                        "memory aperture overflows u64",
                    ),
                );
            },
        };
        let ecam_end: u64 = match ranges.ecam.0.checked_add(ECAM_SIZE) {
            Some(end) => end,
            None => ranges.ecam.0,
        };
        match ecam::validate_host_windows(ranges.ecam.0..ecam_end, ranges.memory.0..memory_end) {
            Ok(()) => {},
            Err(error) => {
                return Err(pci_config_error("resolve PCI host resources", error));
            },
        }
        Ok((ranges.ecam.0..ecam_end, ranges.memory.0..memory_end))
    }

    /// Why the bus cannot be resolved, if so. The outcome of the planner's
    /// resource lookup counts only once the graph holds the bus's own models.
    pub open spec fn resolve_fault(
        self,
        nodes: Seq<ResolvedGraphNode>,
        ranges: DeviceManagerResult<ResolvedHostRanges>,
    ) -> Option<DeviceManagerErrorView> {
        match self.graph_fault(nodes) {
            Some(fault) => Some(fault),
            None => match ranges {
                Err(error) => Some(error@),
                Ok(ranges) => match range_fault(self.host_resources, ranges) {
                    Some(fault) => Some(fault),
                    None => match topology::resolution_fault(
                        self.topology.declarations(),
                        self.topology.reserved@,
                        (ranges.memory.0..(ranges.memory.0 + ranges.memory.1) as u64),
                    ) {
                        Some(error) => Some(config_fault("resolve PCI topology"@, error)),
                        None => None,
                    },
                },
            },
        }
    }

    /// Freezes PCI BDF/BAR state from the graph's resolved host resources.
    ///
    /// This must run after the device graph is resolved and before any PCI
    /// graph node is built. No topology is published on failure.
    pub fn resolve(
        self,
        nodes: &Vec<ResolvedGraphNode>,
        ranges: DeviceManagerResult<ResolvedHostRanges>,
    ) -> (bus: DeviceManagerResult<ResolvedPciBus>)
        requires
            self.wf(),
        ensures
            match bus {
                Ok(bus) => {
                    let found = ranges->Ok_0;
                    let memory = found.memory.0..(found.memory.0 + found.memory.1) as u64;
                    &&& self.resolve_fault(nodes@, ranges) is None
                    &&& bus.wf()
                    &&& bus.host_id == self.host_id
                    &&& bus.shared.root is None
                    &&& bus.plan().ecam_window == (found.ecam.0..(found.ecam.0 + ECAM_SIZE) as u64)
                    &&& bus.plan().topology.memory_aperture == memory
                    &&& topology::resolves_all(
                        self.topology.declarations(),
                        placement::bdf_outcome(
                            self.topology.declarations(),
                            self.topology.reserved@,
                        )->Ok_0,
                        aperture::bar_outcome(self.topology.declarations(), memory)->Ok_0,
                        bus.plan().topology.plans(),
                    )
                },
                Err(error) => self.resolve_fault(nodes@, ranges) == Some(error@),
            },
    {
        match self.validate_graph_models(nodes) {
            Ok(()) => {},
            Err(error) => {
                return Err(error);
            },
        }
        let found = match ranges {
            Ok(found) => found,
            Err(error) => {
                return Err(error);
            },
        };
        let (ecam_window, memory_aperture) = match self.host_windows(found) {
            Ok(windows) => windows,
            Err(error) => {
                return Err(error);
            },
        };
        let resolved = match self.topology.resolve(memory_aperture) {
            Ok(resolved) => resolved,
            Err(error) => {
                return Err(pci_config_error("resolve PCI topology", error));
            },
        };
        let mut shared = self.shared;
        match shared.publish_plan(PciHostPlan { topology: resolved, ecam_window }) {
            Ok(()) => {},
            Err(error) => {
                return Err(pci_build_error("publish PCI topology", error));
            },
        }
        Ok(ResolvedPciBus { host_id: self.host_id, shared })
    }
}

/// PCI bus view shared by architecture firmware and runtime plans.
#[derive(Debug)]
pub struct ResolvedPciBus {
    pub host_id: DeviceNodeId,
    pub shared: PciBusShared,
}

impl ResolvedPciBus {
    /// The bus has a sound published plan.
    pub open spec fn wf(self) -> bool {
        self.shared.plan is Some && self.shared.wf()
    }

    /// The published plan.
    pub open spec fn plan(self) -> PciHostPlan {
        self.shared.plan->0
    }

    /// Returns the graph node that owns ECAM and the memory aperture.
    pub fn host_id(&self) -> (id: &DeviceNodeId)
        ensures
            *id == self.host_id,
    {
        &self.host_id
    }

    /// Returns the single topology consumed by firmware and runtime creation.
    pub fn topology(&self) -> (topology: &ResolvedPciTopology)
        requires
            self.wf(),
        ensures
            *topology == self.plan().topology,
    {
        match &self.shared.plan {
            Some(plan) => &plan.topology,
            None => vstd::pervasive::unreached(),
        }
    }

    /// Returns the resolved ECAM window.
    pub fn ecam_window(&self) -> (window: Range<u64>)
        requires
            self.wf(),
        ensures
            window == self.plan().ecam_window,
    {
        match &self.shared.plan {
            Some(plan) => plan.ecam_window.start..plan.ecam_window.end,
            None => 0..0,
        }
    }

    /// Returns the resolved memory aperture.
    pub fn memory_aperture(&self) -> (aperture: Range<u64>)
        requires
            self.wf(),
        ensures
            aperture == self.plan().topology.memory_aperture,
    {
        match &self.shared.plan {
            Some(plan) => {
                let aperture = plan.topology.memory_aperture();
                aperture.start..aperture.end
            },
            None => 0..0,
        }
    }
}

// ---------------------------------------------------------------------------
// Failures
// ---------------------------------------------------------------------------

/// A PCI failure of the configuration.
pub open spec fn config_fault(operation: Seq<char>, error: PciErrorView) -> DeviceManagerErrorView {
    DeviceManagerErrorView::InvalidConfig { operation, detail: error.message() }
}

/// A PCI failure of a build step.
pub open spec fn build_fault(operation: Seq<char>, error: PciErrorView) -> DeviceManagerErrorView {
    DeviceManagerErrorView::InvalidState { operation, detail: error.message() }
}

/// A failure to connect the bus to the device graph.
pub open spec fn integration_fault(
    operation: Seq<char>,
    detail: Seq<char>,
) -> DeviceManagerErrorView {
    DeviceManagerErrorView::InvalidConfig { operation, detail }
}

fn pci_config_error(operation: &'static str, error: PciError) -> (mapped: DeviceManagerError)
    ensures
        mapped@ == config_fault(operation@, error@),
{
    DeviceManagerError::InvalidConfig { operation, detail: error.message() }
}

fn pci_build_error(operation: &'static str, error: PciError) -> (mapped: DeviceManagerError)
    ensures
        mapped@ == build_fault(operation@, error@),
{
    DeviceManagerError::InvalidState { operation, detail: error.message() }
}

fn graph_integration_error(operation: &'static str, detail: &str) -> (mapped: DeviceManagerError)
    ensures
        mapped@ == integration_fault(operation@, detail@),
{
    DeviceManagerError::InvalidConfig { operation, detail: text::text_of(detail) }
}

/// A host is built at most once while its root lives: after a successful build
/// a second one fails, and after the root is released it succeeds again.
pub proof fn law_one_live_root_per_bus(
    before: PciBusShared,
    built: PciBusShared,
    released: PciBusShared,
    root: usize,
    claimed_ecam: (u64, u64),
    claimed_memory: (u64, u64),
)
    requires
        before.host_fault(claimed_ecam, claimed_memory) is None,
        built.plan == before.plan,
        built.root == Some(root),
        released.plan == built.plan,
        released.root is None,
    ensures
        built.host_fault(claimed_ecam, claimed_memory) == Some(
            build_fault("publish PCI root complex"@, PciErrorView::HostAlreadyRegistered),
        ),
        released.host_fault(claimed_ecam, claimed_memory) is None,
{
}

/// Ranges of a host whose windows were accepted are accepted as claims, and no
/// other ranges are: the drift guard lets exactly the resolved ranges pass.
pub proof fn law_only_resolved_ranges_build(
    plan: PciHostPlan,
    ranges: ResolvedHostRanges,
    claimed_ecam: (u64, u64),
    claimed_memory: (u64, u64),
)
    requires
        plan.wf(),
        ranges.ecam.1 == ECAM_SIZE,
        ranges.ecam.0 + ECAM_SIZE <= u64::MAX,
        ranges.memory.0 + ranges.memory.1 <= u64::MAX,
        plan.ecam_window == (ranges.ecam.0..(ranges.ecam.0 + ECAM_SIZE) as u64),
        plan.topology.memory_aperture == (ranges.memory.0..(ranges.memory.0
            + ranges.memory.1) as u64),
    ensures
        plan.matches_claims(claimed_ecam, claimed_memory) <==> claimed_ecam == ranges.ecam
            && claimed_memory == ranges.memory,
{
}

} // verus!
