//! The ivshmem PCI endpoint: one peer of a link behind three memory BARs.
//!
//! Link identity, register semantics, and the shared BAR2 bytes live in the
//! other modules; this one declares the PCI resources of an endpoint and routes
//! its BAR accesses to the registers and the link. Page-table updates are
//! performed outside; their outcome is an argument here.

use crate::bits;
use crate::device::{AccessWidth, DeviceError, DeviceErrorView, DeviceManagerError, DeviceManagerErrorView, DeviceManagerResult, DeviceNodeId, DeviceResult, ResourceRequest};
use crate::ivshmem::backing;
use crate::ivshmem::doorbell::{Doorbell, DoorbellEvent};
use crate::ivshmem::error::{IvshmemError, IvshmemErrorView};
use crate::ivshmem::layout;
use crate::ivshmem::layout::{Bar2Section, IvshmemMemoryLayout};
use crate::ivshmem::link::{DoorbellRoute, IvshmemLink, LinkView, PeerAttachment, PeerReservation, PeersView};
use crate::ivshmem::plan;
use crate::ivshmem::plan::IvshmemDirectPlan;
use crate::ivshmem::profile::{LinkProfile, PeerId, SHARED_MEMORY_SIZE};
use crate::ivshmem::registers;
use crate::ivshmem::registers::{IvshmemRegisters, DOORBELL_OFFSET, REGISTER_PAGE_SIZE, STATE_OFFSET};
use crate::le;
use crate::pci::address::PciBarIndex;
use crate::pci::bar::{PciBarDecodePolicy, PciMemoryBar, PciMemoryBarWidth};
use crate::pci::error::PciResult;
use crate::pci::function::{PciBarAccess, PciClass, PciEndpointIdentity};
use crate::pci::graph;
use crate::pci::graph::{PciFunctionRequirement, PciHostKey};
use crate::stage2::{DirectMapping, GpaRange};
use crate::text;
use vstd::arithmetic::mul;
use vstd::arithmetic::power2;
use vstd::prelude::*;
use vstd::string::StringExecFns;

verus! {

/// Model name of the endpoint.
pub const MODEL: &'static str = "ivshmem-pci";

/// Key of the PCI host that endpoints attach to.
pub const HOST_KEY: &'static str = "aarch64-ecam";

/// PCI vendor of ivshmem functions.
pub const IVSHMEM_VENDOR_ID: u16 = 0x1af4;

/// PCI device of ivshmem functions.
pub const IVSHMEM_DEVICE_ID: u16 = 0x1110;

/// Device revision of the ivshmem BAR and register model.
pub const IVSHMEM_REVISION: u8 = 1;

/// BAR slot of the register page.
pub const REGISTER_BAR_INDEX: u8 = 0;

/// BAR slot held for interrupt tables; reads as zero and ignores writes.
pub const MSIX_BAR_INDEX: u8 = 1;

/// Size of the BAR held for interrupt tables.
pub const MSIX_BAR_SIZE: u64 = 0x100;

/// BAR slot of the shared memory of the link.
pub const SHARED_MEMORY_BAR_INDEX: u8 = 2;

/// Why a BAR0 access of another shape is refused.
pub const REGISTER_ACCESS_WIDTH_DETAIL: &'static str =
    "ivshmem BAR0 registers only accept aligned 32-bit accesses";

// ---------------------------------------------------------------------------
// Declaration
// ---------------------------------------------------------------------------

/// A relocatable, automatically placed 32-bit BAR.
pub open spec fn plain_bar(index: u8, size: u64) -> PciMemoryBar {
    PciMemoryBar {
        index: PciBarIndex(index),
        size,
        width: PciMemoryBarWidth::Bits32,
        prefetchable: false,
        decode_policy: PciBarDecodePolicy::RelocatableWithinHostAperture,
        address: ResourceRequest::Auto,
    }
}

/// Creates one of the endpoint's BARs.
fn endpoint_bar(index: u8, size: u64) -> (bar: PciResult<PciMemoryBar>)
    requires
        index < 6,
        size == REGISTER_PAGE_SIZE || size == MSIX_BAR_SIZE || size == SHARED_MEMORY_SIZE,
    ensures
        bar matches Ok(bar) && bar == plain_bar(index, size) && bar.wf(),
{
    proof {
        power2::lemma2_to64();
        assert(power2::pow2(12) == 0x1000);
        assert(power2::pow2(8) == 0x100);
        assert(power2::pow2(16) == 0x1_0000);
        assert(bits::is_power_of_two(size));
    }
    PciMemoryBar::new(PciBarIndex(index), size, PciMemoryBarWidth::Bits32)
}

/// Declares the PCI function of one endpoint: a register page, a BAR held for
/// interrupt tables, and the shared memory of the link.
pub fn requirements(link: &IvshmemLink) -> (requirement: PciResult<PciFunctionRequirement>)
    ensures
        match requirement {
            Ok(requirement) => {
                &&& requirement.wf()
                &&& requirement.host.value@ == HOST_KEY@
                &&& requirement.identity == (PciEndpointIdentity {
                    vendor_id: IVSHMEM_VENDOR_ID,
                    device_id: IVSHMEM_DEVICE_ID,
                    class: PciClass { base: 0x05, subclass: 0, programming_interface: 0 },
                    revision: IVSHMEM_REVISION,
                    subsystem_vendor_id: 0,
                    subsystem_id: 0,
                })
                &&& requirement.bdf == ResourceRequest::<crate::pci::address::PciBdf>::Auto
                &&& requirement.bars@ == seq![
                    plain_bar(REGISTER_BAR_INDEX, REGISTER_PAGE_SIZE),
                    plain_bar(MSIX_BAR_INDEX, MSIX_BAR_SIZE),
                    plain_bar(SHARED_MEMORY_BAR_INDEX, SHARED_MEMORY_SIZE),
                ]
                &&& requirement.msix is None
            },
            Err(_) => false,
        },
{
    let register_bar = match endpoint_bar(REGISTER_BAR_INDEX, REGISTER_PAGE_SIZE) {
        Ok(bar) => bar,
        Err(error) => {
            return Err(error);
        },
    };
    let msix_bar = match endpoint_bar(MSIX_BAR_INDEX, MSIX_BAR_SIZE) {
        Ok(bar) => bar,
        Err(error) => {
            return Err(error);
        },
    };
    let shared_memory_bar = match endpoint_bar(SHARED_MEMORY_BAR_INDEX, link.bar2_size()) {
        Ok(bar) => bar,
        Err(error) => {
            return Err(error);
        },
    };
    let host = PciHostKey { value: text::text_of(HOST_KEY) };
    let identity = PciEndpointIdentity::new(
        IVSHMEM_VENDOR_ID,
        IVSHMEM_DEVICE_ID,
        PciClass::new(0x05, 0x00, 0x00),
    ).with_revision(IVSHMEM_REVISION);
    let first = match PciFunctionRequirement::new(host, identity).with_bar(register_bar) {
        Ok(requirement) => requirement,
        Err(error) => {
            return Err(error);
        },
    };
    let second = match first.with_bar(msix_bar) {
        Ok(requirement) => requirement,
        Err(error) => {
            return Err(error);
        },
    };
    match second.with_bar(shared_memory_bar) {
        Ok(requirement) => {
            assert(requirement.bars@ =~= seq![register_bar, msix_bar, shared_memory_bar]);
            assert(requirement.bars@[0].wf() && requirement.bars@[1].wf()
                && requirement.bars@[2].wf());
            Ok(requirement)
        },
        Err(error) => Err(error),
    }
}

/// The host key of endpoints is a valid host key.
pub proof fn law_endpoint_host_key_is_valid()
    ensures
        graph::host_key_ok(HOST_KEY@),
{
    reveal_strlit("aarch64-ecam");
}

// ---------------------------------------------------------------------------
// Endpoint
// ---------------------------------------------------------------------------

/// One runtime endpoint of a link.
#[derive(Debug)]
pub struct IvshmemPciFunction {
    pub attachment: PeerAttachment,
    pub registers: IvshmemRegisters,
    /// Graph node identity of this endpoint; direct mappings register per
    /// owner.
    pub owner: DeviceNodeId,
    /// Currently committed BAR2 plan, replaced on every BAR assignment or
    /// relocation.
    pub direct_plan: Option<IvshmemDirectPlan>,
}

/// The resolved address of one BAR.
#[derive(Clone, Copy, Debug, PartialEq, Eq, Structural)]
pub struct BarAssignment {
    pub bar: PciBarIndex,
    pub gpa: u64,
}

/// A new BAR2 plan and the page-table update that it asks for.
#[derive(Debug)]
pub struct PlanChange {
    pub plan: IvshmemDirectPlan,
    /// Ranges to revoke once the new mappings are installed; `None` when the
    /// committed mappings already are those of the plan.
    pub revoke: Option<Vec<GpaRange>>,
}

/// The device failure that a BAR access reports for a failure of the link.
pub open spec fn access_failure(error: IvshmemErrorView) -> DeviceErrorView {
    match error {
        IvshmemErrorView::SharedMemoryOutOfRange { offset, .. } => DeviceErrorView::OutOfRange {
            addr: offset,
        },
        IvshmemErrorView::InvalidRegisterAccess { .. } => DeviceErrorView::InvalidInput {
            operation: "access ivshmem BARs"@,
            detail: error.message(),
        },
        IvshmemErrorView::InvalidSharedMemoryWidth { .. } => DeviceErrorView::InvalidInput {
            operation: "access ivshmem BARs"@,
            detail: error.message(),
        },
        _ => DeviceErrorView::InvalidState {
            operation: "access ivshmem endpoint"@,
            detail: error.message(),
        },
    }
}

/// The failure of a write that the owning section denies to the peer.
pub open spec fn denial(offset: u64, peer: PeerId, section: Bar2Section) -> DeviceErrorView {
    DeviceErrorView::AccessDenied {
        operation: "write ivshmem BAR2"@,
        detail: "peer "@ + text::dec_text(peer.0 as nat) + " may not write "@ + section.name_text()
            + " at offset "@ + text::hex_text(offset as nat),
    }
}

/// The value of a BAR read, or its failure.
pub open spec fn read_outcome(
    registers: IvshmemRegisters,
    peer: PeerId,
    link: LinkView,
    access: PciBarAccess,
) -> Result<nat, DeviceErrorView> {
    if access.bar.0 == REGISTER_BAR_INDEX {
        if access.width != AccessWidth::Dword {
            Err(
                DeviceErrorView::InvalidInput {
                    operation: "read ivshmem BAR0 registers"@,
                    detail: REGISTER_ACCESS_WIDTH_DETAIL@,
                },
            )
        } else {
            match registers::register_fault(access.offset) {
                Some(fault) => Err(access_failure(fault)),
                None => Ok(
                    registers.value_at(access.offset, peer, link.profile.max_peers) as nat,
                ),
            }
        }
    } else if access.bar.0 == MSIX_BAR_INDEX {
        Ok(0)
    } else if access.bar.0 == SHARED_MEMORY_BAR_INDEX {
        if link.peers is None {
            Err(
                access_failure(
                    IvshmemErrorView::PeerNotReserved { link: link.id.0, peer: 0 },
                ),
            )
        } else {
            match backing::range_fault(
                access.offset,
                access.width.bytes() as usize,
                SHARED_MEMORY_SIZE as int,
            ) {
                Some(fault) => Err(access_failure(fault)),
                None => Ok(
                    le::le_value(
                        link.bytes.subrange(
                            access.offset as int,
                            access.offset + access.width.bytes(),
                        ),
                    ),
                ),
            }
        }
    } else {
        Err(DeviceErrorView::OutOfRange { addr: access.offset })
    }
}

/// What a BAR write leaves behind.
pub struct WriteOutcome {
    pub registers: IvshmemRegisters,
    pub link: LinkView,
    /// Where a doorbell goes, if the write rang one.
    pub result: Result<Option<DoorbellRoute>, DeviceErrorView>,
}

/// The outcome of a BAR0 write.
pub open spec fn register_write_outcome(
    registers: IvshmemRegisters,
    peer: PeerId,
    link: LinkView,
    access: PciBarAccess,
    value: u64,
) -> WriteOutcome {
    let refused = DeviceErrorView::InvalidInput {
        operation: "write ivshmem BAR0 registers"@,
        detail: REGISTER_ACCESS_WIDTH_DETAIL@,
    };
    if access.width != AccessWidth::Dword || value > u32::MAX {
        WriteOutcome { registers, link, result: Err(refused) }
    } else if access.offset == DOORBELL_OFFSET {
        let doorbell = Doorbell {
            target: PeerId((value / 0x1_0000) as u16),
            vector: (value % 0x1_0000) as u16,
        };
        let route = link.route(peer, doorbell);
        WriteOutcome { registers, link: link.routed(route), result: Ok(Some(route)) }
    } else {
        match registers::register_fault(access.offset) {
            Some(fault) => WriteOutcome { registers, link, result: Err(access_failure(fault)) },
            None => {
                let after = registers.after_write(access.offset, value as u32);
                if access.offset != STATE_OFFSET {
                    WriteOutcome { registers: after, link, result: Ok(None) }
                } else {
                    match link.publish_fault(peer) {
                        Some(fault) => WriteOutcome {
                            registers: after,
                            link,
                            result: Err(
                                DeviceErrorView::InvalidState {
                                    operation: "publish ivshmem state"@,
                                    detail: fault.message(),
                                },
                            ),
                        },
                        None => WriteOutcome {
                            registers: after,
                            link: link.published(peer, value as u32),
                            result: Ok(None),
                        },
                    }
                }
            },
        }
    }
}

/// Where the bytes of a BAR2 access end inside the BAR.
pub open spec fn access_end(access: PciBarAccess) -> int {
    if access.offset + access.width.bytes() <= SHARED_MEMORY_SIZE {
        access.offset + access.width.bytes()
    } else {
        SHARED_MEMORY_SIZE as int
    }
}

/// The outcome of a BAR2 write: the reserved tail ignores it; a byte in the
/// state table, in the output of another peer or in the reserved tail denies it
/// as a whole; the own output and a common section take it.
pub open spec fn shared_write_outcome(
    registers: IvshmemRegisters,
    peer: PeerId,
    link: LinkView,
    layout: IvshmemMemoryLayout,
    access: PciBarAccess,
    value: u64,
) -> WriteOutcome {
    let section = layout.section_at(access.offset as int);
    if section == Bar2Section::Reserved {
        WriteOutcome { registers, link, result: Ok(None) }
    } else if let Some(refused) = layout.first_refused(
        peer,
        access.offset as int,
        access_end(access),
    ) {
        WriteOutcome {
            registers,
            link,
            result: Err(denial(refused as u64, peer, layout.section_at(refused))),
        }
    } else if link.peers is None {
        WriteOutcome {
            registers,
            link,
            result: Err(
                access_failure(IvshmemErrorView::PeerNotReserved { link: link.id.0, peer: 0 }),
            ),
        }
    } else {
        match backing::range_fault(
            access.offset,
            access.width.bytes() as usize,
            SHARED_MEMORY_SIZE as int,
        ) {
            Some(fault) => WriteOutcome { registers, link, result: Err(access_failure(fault)) },
            None => WriteOutcome {
                registers,
                link: link.stored(access.offset, access.width.bytes() as nat, value as nat),
                result: Ok(None),
            },
        }
    }
}

/// The outcome of a BAR write.
pub open spec fn write_outcome(
    registers: IvshmemRegisters,
    peer: PeerId,
    link: LinkView,
    layout: IvshmemMemoryLayout,
    access: PciBarAccess,
    value: u64,
) -> WriteOutcome {
    if access.bar.0 == REGISTER_BAR_INDEX {
        register_write_outcome(registers, peer, link, access, value)
    } else if access.bar.0 == MSIX_BAR_INDEX {
        WriteOutcome { registers, link, result: Ok(None) }
    } else if access.bar.0 == SHARED_MEMORY_BAR_INDEX {
        shared_write_outcome(registers, peer, link, layout, access, value)
    } else {
        WriteOutcome {
            registers,
            link,
            result: Err(DeviceErrorView::OutOfRange { addr: access.offset }),
        }
    }
}

/// Why no plan can be derived for a BAR2 address, if none can.
pub open spec fn plan_fault(link: LinkView, bar2_gpa: u64) -> Option<DeviceErrorView> {
    let operation = "derive ivshmem direct-mapping plan"@;
    if link.peers is None {
        Some(
            DeviceErrorView::InvalidState {
                operation,
                detail: (IvshmemErrorView::PeerNotReserved { link: link.id.0, peer: 0 }).message(),
            },
        )
    } else {
        match plan::address_fault(bar2_gpa, link.allocation.hpa_base) {
            Some(detail) => Some(
                DeviceErrorView::InvalidState {
                    operation,
                    detail: (IvshmemErrorView::InvalidLayout { detail }).message(),
                },
            ),
            None => None,
        }
    }
}

/// The section addresses of a plan at `bar2_gpa` do not wrap around, where a
/// plan is derived at all.
pub open spec fn plan_computes(link: IvshmemLink, bar2_gpa: u64) -> bool {
    plan_fault(link@, bar2_gpa) is None ==> plan::sections_start(link.layout, bar2_gpa)
        && plan::sections_start(link.layout, link@.allocation.hpa_base)
}

impl IvshmemPciFunction {
    /// Builds the endpoint of a reserved peer.
    ///
    /// The reservation survives build retries; only one endpoint may be
    /// attached at a time. BAR2 maps directly into the guest, so the VM must
    /// offer a stage-2 update port; without one the attachment ends again.
    pub fn build(
        reservation: &PeerReservation,
        link: &mut IvshmemLink,
        has_stage2_port: bool,
        owner: DeviceNodeId,
        sink: usize,
    ) -> (function: DeviceManagerResult<Self>)
        requires
            old(link).wf(),
            old(link)@.id == reservation.link,
            old(link)@.generation.0 < u64::MAX,
        ensures
            final(link).wf(),
            match function {
                Ok(function) => {
                    let peers = old(link)@.peers->0;
                    let attached = peers.attached_to(reservation.peer.0 as int);
                    &&& old(link)@.attach_fault(reservation.peer) is None
                    &&& has_stage2_port
                    &&& function.attachment == (PeerAttachment {
                        link: reservation.link,
                        peer: reservation.peer,
                        generation: peers.next_generation(),
                    })
                    &&& function.registers == IvshmemRegisters::cleared()
                    &&& function.owner == owner
                    &&& function.direct_plan is None
                    &&& final(link)@ == (LinkView {
                        peers: Some(
                            PeersView {
                                sinks: attached.sinks.update(
                                    reservation.peer.0 as int,
                                    Some(sink),
                                ),
                                ..attached
                            },
                        ),
                        ..old(link)@
                    })
                },
                Err(error) => match old(link)@.attach_fault(reservation.peer) {
                    Some(fault) => final(link)@ == old(link)@ && error@ == (
                    DeviceManagerErrorView::InvalidState {
                        operation: "build ivshmem PCI endpoint"@,
                        detail: fault.message(),
                    }),
                    None => {
                        let peers = old(link)@.peers->0;
                        &&& !has_stage2_port
                        &&& error@ == (DeviceManagerErrorView::InvalidConfig {
                            operation: "build ivshmem PCI endpoint"@,
                            detail: "no stage-2 update port was injected into this VM"@,
                        })
                        &&& final(link)@ == old(link)@.settled(
                            peers.attached_to(reservation.peer.0 as int).detached(
                                reservation.peer.0 as int,
                                peers.next_generation(),
                            ),
                        )
                    },
                },
            },
    {
        let attachment = match reservation.attach(link) {
            Ok(attachment) => attachment,
            Err(error) => {
                return Err(
                    DeviceManagerError::InvalidState {
                        operation: "build ivshmem PCI endpoint",
                        detail: error.message(),
                    },
                );
            },
        };
        if !has_stage2_port {
            attachment.detach(link);
            return Err(
                DeviceManagerError::InvalidConfig {
                    operation: "build ivshmem PCI endpoint",
                    detail: text::text_of("no stage-2 update port was injected into this VM"),
                },
            );
        }
        match attachment.set_event_sink(link, sink) {
            Ok(()) => {},
            Err(error) => {
                return Err(
                    DeviceManagerError::InvalidState {
                        operation: "build ivshmem PCI endpoint",
                        detail: error.message(),
                    },
                );
            },
        }
        Ok(
            IvshmemPciFunction {
                attachment,
                registers: IvshmemRegisters::new(),
                owner,
                direct_plan: None,
            },
        )
    }

    /// Returns the name of the device.
    pub fn name(&self) -> (name: &'static str)
        ensures
            name@ == MODEL@,
    {
        MODEL
    }

    /// Refuses an access that does not come through a BAR.
    pub fn direct_access(&self) -> (error: DeviceError)
        ensures
            error@ == (DeviceErrorView::Unsupported {
                operation: "access ivshmem PCI endpoint"@,
                detail: "direct access is routed through the BARs"@,
            }),
    {
        DeviceError::Unsupported {
            operation: "access ivshmem PCI endpoint",
            detail: text::text_of("direct access is routed through the BARs"),
        }
    }

    /// Records a doorbell that the link routed to this endpoint.
    pub fn deliver(&mut self)
        ensures
            final(self).registers == (IvshmemRegisters {
                event_status: old(self).registers.event_status | registers::DOORBELL_EVENT,
                ..old(self).registers
            }),
            final(self).attachment == old(self).attachment,
            final(self).owner == old(self).owner,
            final(self).direct_plan == old(self).direct_plan,
    {
        self.registers.record_event();
    }

    /// Reads one BAR access.
    pub fn read_bar(&self, link: &IvshmemLink, access: &PciBarAccess) -> (value: DeviceResult<u64>)
        requires
            link.wf(),
            link@.id == self.attachment.link,
        ensures
            match value {
                Ok(value) => read_outcome(
                    self.registers,
                    self.attachment.peer,
                    link@,
                    *access,
                ) == Ok::<nat, DeviceErrorView>(value as nat),
                Err(error) => read_outcome(
                    self.registers,
                    self.attachment.peer,
                    link@,
                    *access,
                ) == Err::<nat, DeviceErrorView>(error@),
            },
    {
        let bar: u8 = access.bar().value();
        if bar == REGISTER_BAR_INDEX {
            if access.width() != AccessWidth::Dword {
                return Err(
                    DeviceError::InvalidInput {
                        operation: "read ivshmem BAR0 registers",
                        detail: text::text_of(REGISTER_ACCESS_WIDTH_DETAIL),
                    },
                );
            }
            match self.registers.read(
                access.offset(),
                self.attachment.peer_id(),
                link.max_peers(),
            ) {
                Ok(value) => Ok(value as u64),
                Err(error) => Err(bar_access_error(error)),
            }
        } else if bar == MSIX_BAR_INDEX {
            Ok(0)
        } else if bar == SHARED_MEMORY_BAR_INDEX {
            match link.backing() {
                Ok(backing) => match backing.read(access.offset(), access.width().size()) {
                    Ok(value) => Ok(value),
                    Err(error) => Err(bar_access_error(error)),
                },
                Err(error) => Err(bar_access_error(error)),
            }
        } else {
            Err(DeviceError::OutOfRange { addr: access.offset() })
        }
    }

    /// Writes one BAR access.
    ///
    /// A doorbell goes to the link before any register of this endpoint
    /// changes, so that a peer may ring itself. A State write changes the
    /// register first and then publishes the value. A BAR2 write takes place as a
    /// whole or not at all: one that reaches into a section which the peer may
    /// not write is denied, also where its first byte may be written.
    pub fn write_bar(&mut self, link: &mut IvshmemLink, access: &PciBarAccess, value: u64) -> (
        result: DeviceResult<Option<DoorbellRoute>>)
        requires
            old(link).wf(),
            old(link)@.id == old(self).attachment.link,
        ensures
            final(link).wf(),
            final(self).attachment == old(self).attachment,
            final(self).owner == old(self).owner,
            final(self).direct_plan == old(self).direct_plan,
            ({
                let outcome = write_outcome(
                    old(self).registers,
                    old(self).attachment.peer,
                    old(link)@,
                    old(link).layout,
                    *access,
                    value,
                );
                &&& final(self).registers == outcome.registers
                &&& final(link)@ == outcome.link
                &&& match result {
                    Ok(route) => outcome.result == Ok::<_, DeviceErrorView>(route),
                    Err(error) => outcome.result == Err::<Option<DoorbellRoute>, _>(error@),
                }
            }),
    {
        let bar: u8 = access.bar().value();
        if bar == REGISTER_BAR_INDEX {
            self.write_register(link, access, value)
        } else if bar == MSIX_BAR_INDEX {
            Ok(None)
        } else if bar == SHARED_MEMORY_BAR_INDEX {
            let peer = self.attachment.peer_id();
            let section = link.layout().classify(access.offset());
            if section == Bar2Section::Reserved {
                return Ok(None);
            }
            let start: u64 = access.offset();
            let size: u64 = access.width().size() as u64;
            let end: u64 = if start <= SHARED_MEMORY_SIZE - size {
                start + size
            } else {
                SHARED_MEMORY_SIZE
            };
            if let Some(refused) = link.layout().first_refused_offset(peer, start, end) {
                let section = link.layout().classify(refused);
                return Err(bar2_denial_error(refused, peer, section));
            }
            match link.write_backing(access.offset(), access.width().size(), value) {
                Ok(()) => Ok(None),
                Err(error) => Err(bar_access_error(error)),
            }
        } else {
            Err(DeviceError::OutOfRange { addr: access.offset() })
        }
    }

    /// Writes one register access.
    fn write_register(&mut self, link: &mut IvshmemLink, access: &PciBarAccess, value: u64) -> (
        result: DeviceResult<Option<DoorbellRoute>>)
        requires
            old(link).wf(),
            old(link)@.id == old(self).attachment.link,
        ensures
            final(link).wf(),
            final(self).attachment == old(self).attachment,
            final(self).owner == old(self).owner,
            final(self).direct_plan == old(self).direct_plan,
            ({
                let outcome = register_write_outcome(
                    old(self).registers,
                    old(self).attachment.peer,
                    old(link)@,
                    *access,
                    value,
                );
                &&& final(self).registers == outcome.registers
                &&& final(link)@ == outcome.link
                &&& match result {
                    Ok(route) => outcome.result == Ok::<_, DeviceErrorView>(route),
                    Err(error) => outcome.result == Err::<Option<DoorbellRoute>, _>(error@),
                }
            }),
    {
        if access.width() != AccessWidth::Dword || value > u32::MAX as u64 {
            return Err(
                DeviceError::InvalidInput {
                    operation: "write ivshmem BAR0 registers",
                    detail: text::text_of(REGISTER_ACCESS_WIDTH_DETAIL),
                },
            );
        }
        let written: u32 = value as u32;
        let peer = self.attachment.peer_id();
        if access.offset() == DOORBELL_OFFSET {
            let doorbell = Doorbell::from_write(written);
            assert(doorbell == (Doorbell {
                target: PeerId((value / 0x1_0000) as u16),
                vector: (value % 0x1_0000) as u16,
            }));
            let route = link.deliver_doorbell(peer, doorbell);
            return Ok(Some(route));
        }
        match self.registers.write(access.offset(), written) {
            Ok(()) => {},
            Err(error) => {
                return Err(bar_access_error(error));
            },
        }
        if access.offset() == STATE_OFFSET {
            match link.publish_state(peer, written) {
                Ok(()) => {},
                Err(error) => {
                    return Err(
                        DeviceError::InvalidState {
                            operation: "publish ivshmem state",
                            detail: error.message(),
                        },
                    );
                },
            }
        }
        Ok(None)
    }

    /// Resets the endpoint: the local registers clear and so does this peer's
    /// state-table entry; the rest of the shared bytes stays for the other
    /// peers.
    pub fn reset(&mut self, link: &mut IvshmemLink) -> (result: DeviceResult)
        requires
            old(link).wf(),
            old(link)@.id == old(self).attachment.link,
        ensures
            final(link).wf(),
            final(self).registers == IvshmemRegisters::cleared(),
            final(self).attachment == old(self).attachment,
            final(self).owner == old(self).owner,
            final(self).direct_plan == old(self).direct_plan,
            match old(link)@.publish_fault(old(self).attachment.peer) {
                None => result is Ok && final(link)@ == old(link)@.published(
                    old(self).attachment.peer,
                    0,
                ),
                Some(fault) => {
                    &&& final(link)@ == old(link)@
                    &&& result matches Err(error) && error@ == (DeviceErrorView::InvalidState {
                        operation: "reset ivshmem endpoint"@,
                        detail: fault.message(),
                    })
                },
            },
    {
        self.registers.reset();
        match link.clear_state(self.attachment.peer_id()) {
            Ok(()) => Ok(()),
            Err(error) => Err(
                DeviceError::InvalidState {
                    operation: "reset ivshmem endpoint",
                    detail: error.message(),
                },
            ),
        }
    }

    /// Derives this peer's direct-mapping plan from the resolved BAR2 address.
    pub fn derive_plan(&self, link: &IvshmemLink, bar2_gpa: u64) -> (derived: DeviceResult<
        IvshmemDirectPlan,
    >)
        requires
            link.wf(),
            link@.id == self.attachment.link,
            plan_computes(*link, bar2_gpa),
        ensures
            match derived {
                Ok(derived) => {
                    &&& plan_fault(link@, bar2_gpa) is None
                    &&& derived.bar2_gpa == bar2_gpa
                    &&& derived.bar2_size == SHARED_MEMORY_SIZE
                    &&& plan::mapping_views(derived.mappings@) == plan::planned_mappings(
                        link.layout,
                        bar2_gpa,
                        link@.allocation.hpa_base,
                        self.attachment.peer,
                    )
                    &&& plan::sections_fit(link.layout, bar2_gpa) ==> forall|i: int|
                        0 <= i < derived.mappings@.len() ==> (#[trigger] derived.mappings@[i]).wf()
                },
                Err(error) => plan_fault(link@, bar2_gpa) == Some(error@),
            },
    {
        let backing = match link.backing() {
            Ok(backing) => backing,
            Err(error) => {
                return Err(
                    DeviceError::InvalidState {
                        operation: "derive ivshmem direct-mapping plan",
                        detail: error.message(),
                    },
                );
            },
        };
        match IvshmemDirectPlan::derive(
            link.layout(),
            bar2_gpa,
            backing.allocation(),
            self.attachment.peer_id(),
        ) {
            Ok(derived) => Ok(derived),
            Err(error) => Err(
                DeviceError::InvalidState {
                    operation: "derive ivshmem direct-mapping plan",
                    detail: error.message(),
                },
            ),
        }
    }

    /// The ranges that a plan at the given address revokes, or `None` when the
    /// committed mappings already are those of the plan.
    pub open spec fn revocations(self, bar2_gpa: u64) -> Option<Seq<GpaRange>> {
        match self.direct_plan {
            Some(previous) => if previous.bar2_gpa == bar2_gpa {
                None
            } else {
                Some(
                    seq![GpaRange { base: previous.bar2_gpa, size: previous.bar2_size }],
                )
            },
            None => Some(Seq::empty()),
        }
    }

    /// Prepares the replacement of the committed plan.
    ///
    /// A relocation to a different address revokes the whole old BAR2 range;
    /// re-writing the same address changes nothing.
    pub fn prepare_plan(&self, new_plan: IvshmemDirectPlan) -> (change: PlanChange)
        ensures
            change.plan == new_plan,
            match change.revoke {
                Some(revoke) => self.revocations(new_plan.bar2_gpa) == Some(revoke@),
                None => self.revocations(new_plan.bar2_gpa) is None,
            },
    {
        let mut revoke: Vec<GpaRange> = Vec::new();
        if let Some(previous) = &self.direct_plan {
            if previous.bar2_gpa() == new_plan.bar2_gpa() {
                return PlanChange { plan: new_plan, revoke: None };
            }
            revoke.push(previous.revocation_range());
        }
        PlanChange { plan: new_plan, revoke: Some(revoke) }
    }

    /// Records a new plan once the page table was updated.
    ///
    /// `failure` is the detail of a failed update; the previous plan then
    /// stays committed.
    pub fn commit_plan(&mut self, plan: IvshmemDirectPlan, failure: Option<String>) -> (result:
        DeviceResult)
        ensures
            final(self).attachment == old(self).attachment,
            final(self).registers == old(self).registers,
            final(self).owner == old(self).owner,
            match failure {
                None => result is Ok && final(self).direct_plan == Some(plan),
                Some(detail) => {
                    &&& final(self).direct_plan == old(self).direct_plan
                    &&& result matches Err(error) && error@ == (DeviceErrorView::Backend {
                        operation: "commit ivshmem direct mappings"@,
                        detail: detail@,
                    })
                },
            },
    {
        match failure {
            None => {
                self.direct_plan = Some(plan);
                Ok(())
            },
            Some(detail) => Err(
                DeviceError::Backend { operation: "commit ivshmem direct mappings", detail },
            ),
        }
    }

    /// Prepares the plan for the resolved BARs of the function.
    pub fn notify_bar_assignment(&self, link: &IvshmemLink, bars: &Vec<BarAssignment>) -> (change:
        DeviceResult<PlanChange>)
        requires
            link.wf(),
            link@.id == self.attachment.link,
            assigned_at(bars@, 0) matches Some(gpa) ==> plan_computes(*link, gpa),
        ensures
            match assigned_at(bars@, 0) {
                None => change matches Err(error) && error@ == (DeviceErrorView::InvalidState {
                    operation: "bind ivshmem PCI endpoint"@,
                    detail: "the shared-memory BAR was not resolved"@,
                }),
                Some(gpa) => self.change_for(*link, gpa, change),
            },
    {
        let mut index: usize = 0;
        while index < bars.len() && bars[index].bar.value() != SHARED_MEMORY_BAR_INDEX
            invariant
                index <= bars.len(),
                assigned_at(bars@, 0) == assigned_at(bars@, index as int),
            decreases bars.len() - index,
        {
            index = index + 1;
        }
        if index >= bars.len() {
            return Err(
                DeviceError::InvalidState {
                    operation: "bind ivshmem PCI endpoint",
                    detail: text::text_of("the shared-memory BAR was not resolved"),
                },
            );
        }
        match self.derive_plan(link, bars[index].gpa) {
            Ok(derived) => Ok(self.prepare_plan(derived)),
            Err(error) => Err(error),
        }
    }

    /// Prepares the plan for a relocated BAR; only BAR2 has mappings.
    pub fn notify_bar_relocated(&self, link: &IvshmemLink, bar: PciBarIndex, new_gpa: u64) -> (
        change: DeviceResult<Option<PlanChange>>)
        requires
            link.wf(),
            link@.id == self.attachment.link,
            bar.0 == SHARED_MEMORY_BAR_INDEX ==> plan_computes(*link, new_gpa),
        ensures
            if bar.0 != SHARED_MEMORY_BAR_INDEX {
                change matches Ok(None)
            } else {
                match change {
                    Ok(change) => change matches Some(change) && self.change_for(
                        *link,
                        new_gpa,
                        Ok(change),
                    ),
                    Err(error) => self.change_for(*link, new_gpa, Err(error)),
                }
            },
    {
        if bar.value() != SHARED_MEMORY_BAR_INDEX {
            return Ok(None);
        }
        match self.derive_plan(link, new_gpa) {
            Ok(derived) => Ok(Some(self.prepare_plan(derived))),
            Err(error) => Err(error),
        }
    }

    /// `change` is what a BAR2 at the given address asks for.
    pub open spec fn change_for(
        self,
        link: IvshmemLink,
        gpa: u64,
        change: DeviceResult<PlanChange>,
    ) -> bool {
        match change {
            Ok(change) => {
                &&& plan_fault(link@, gpa) is None
                &&& change.plan.bar2_gpa == gpa
                &&& change.plan.bar2_size == SHARED_MEMORY_SIZE
                &&& plan::mapping_views(change.plan.mappings@) == plan::planned_mappings(
                    link.layout,
                    gpa,
                    link@.allocation.hpa_base,
                    self.attachment.peer,
                )
                &&& plan::sections_fit(link.layout, gpa) ==> forall|i: int|
                    0 <= i < change.plan.mappings@.len() ==> (
                    #[trigger] change.plan.mappings@[i]).wf()
                &&& match change.revoke {
                    Some(revoke) => self.revocations(gpa) == Some(revoke@),
                    None => self.revocations(gpa) is None,
                }
            },
            Err(error) => plan_fault(link@, gpa) == Some(error@),
        }
    }

    /// Returns the mappings of the committed plan.
    pub fn direct_mappings(&self) -> (mappings: Vec<DirectMapping>)
        ensures
            mappings@ == match self.direct_plan {
                Some(plan) => plan.mappings@,
                None => Seq::empty(),
            },
    {
        let mut mappings: Vec<DirectMapping> = Vec::new();
        if let Some(plan) = &self.direct_plan {
            let mut index: usize = 0;
            while index < plan.mappings.len()
                invariant
                    index <= plan.mappings.len(),
                    mappings@ == plan.mappings@.take(index as int),
                decreases plan.mappings.len() - index,
            {
                mappings.push(plan.mappings[index]);
                index = index + 1;
                assert(mappings@ =~= plan.mappings@.take(index as int));
            }
            assert(mappings@ =~= plan.mappings@);
        }
        mappings
    }
}

/// The address of the first shared-memory BAR from `from` on.
pub open spec fn assigned_at(bars: Seq<BarAssignment>, from: int) -> Option<u64>
    decreases bars.len() - from,
{
    if from < 0 || from >= bars.len() {
        None
    } else if bars[from].bar.0 == SHARED_MEMORY_BAR_INDEX {
        Some(bars[from].gpa)
    } else {
        assigned_at(bars, from + 1)
    }
}

/// The failure of a sink whose registers cannot be reached.
pub fn unreachable_registers(event: DoorbellEvent) -> (error: IvshmemError)
    ensures
        error@ == (IvshmemErrorView::EventDeliveryFailed {
            operation: "record doorbell event"@,
            detail: "peer "@ + text::dec_text(event.target.0 as nat)
                + " register lock is poisoned while recording a doorbell from peer "@
                + text::dec_text(event.source.0 as nat),
        }),
{
    let mut detail = text::text_of("peer ");
    text::push_dec(&mut detail, event.target().value() as u64);
    detail.append(" register lock is poisoned while recording a doorbell from peer ");
    text::push_dec(&mut detail, event.source().value() as u64);
    IvshmemError::EventDeliveryFailed { operation: "record doorbell event", detail }
}

fn bar2_denial_error(offset: u64, peer: PeerId, section: Bar2Section) -> (error: DeviceError)
    ensures
        error@ == denial(offset, peer, section),
{
    let mut detail = text::text_of("peer ");
    text::push_dec(&mut detail, peer.value() as u64);
    detail.append(" may not write ");
    detail.append(section.name());
    detail.append(" at offset ");
    text::push_hex(&mut detail, offset);
    DeviceError::AccessDenied { operation: "write ivshmem BAR2", detail }
}

fn bar_access_error(error: IvshmemError) -> (mapped: DeviceError)
    ensures
        mapped@ == access_failure(error@),
{
    let detail = error.message();
    match error {
        IvshmemError::SharedMemoryOutOfRange { offset, .. } => DeviceError::OutOfRange {
            addr: offset,
        },
        IvshmemError::InvalidRegisterAccess { .. } => DeviceError::InvalidInput {
            operation: "access ivshmem BARs",
            detail,
        },
        IvshmemError::InvalidSharedMemoryWidth { .. } => DeviceError::InvalidInput {
            operation: "access ivshmem BARs",
            detail,
        },
        _ => DeviceError::InvalidState { operation: "access ivshmem endpoint", detail },
    }
}

// ---------------------------------------------------------------------------
// Laws
// ---------------------------------------------------------------------------

/// A BAR2 that ends inside the address space has all its sections inside it, so
/// a plan can be derived at that address.
pub proof fn law_sections_stay_inside_their_bar(link: IvshmemLink, base: u64)
    requires
        link.wf(),
        base + SHARED_MEMORY_SIZE <= u64::MAX,
    ensures
        plan::sections_fit(link.layout, base),
        plan::sections_start(link.layout, base),
{
    let layout = link.layout;
    let profile = link.profile;
    mul::lemma_mul_inequality(0, profile.max_peers as int, profile.output_size as int);
    assert forall|i: int| 0 <= i < layout.outputs@.len() implies base + (
    #[trigger] layout.outputs@[i]).end() <= u64::MAX by {
        mul::lemma_mul_is_distributive_add_other_way(profile.output_size as int, i, 1);
        mul::lemma_mul_inequality(i + 1, profile.max_peers as int, profile.output_size as int);
        mul::lemma_mul_inequality(0, i, profile.output_size as int);
    }
    assert forall|i: int| 0 <= i < layout.outputs@.len() implies base + (
    #[trigger] layout.outputs@[i]).offset <= u64::MAX by {
        assert(base + layout.outputs@[i].end() <= u64::MAX);
    }
}

/// A BAR2 write with a byte that the peer may not write changes nothing. It is
/// ignored where its first byte is reserved, and denied elsewhere.
pub proof fn law_refused_writes_change_nothing(
    registers: IvshmemRegisters,
    peer: PeerId,
    link: IvshmemLink,
    access: PciBarAccess,
    value: u64,
    refused: int,
)
    requires
        link.wf(),
        access.bar.0 == SHARED_MEMORY_BAR_INDEX,
        access.offset <= refused < access.offset + access.width.bytes(),
        !link.layout.section_at(refused).writable_by(peer),
    ensures
        ({
            let outcome = write_outcome(registers, peer, link@, link.layout, access, value);
            &&& outcome.link == link@
            &&& outcome.registers == registers
            &&& outcome.result is Err <==> link.layout.section_at(access.offset as int)
                != Bar2Section::Reserved
        }),
{
    layout::law_derived_layouts_validate(link.layout, link.profile);
    layout::law_sections_own_their_offsets(link.layout, access.offset as int);
    layout::lemma_first_refused(link.layout, peer, access.offset as int, access_end(access));
}

/// A BAR2 write changes no byte outside the sections that the peer may write,
/// whatever its offset and width: the state table, the outputs of other peers and
/// the reserved tail are safe.
pub proof fn law_writes_stay_in_writable_sections(
    registers: IvshmemRegisters,
    peer: PeerId,
    link: IvshmemLink,
    access: PciBarAccess,
    value: u64,
    offset: int,
)
    requires
        link.wf(),
        access.bar.0 == SHARED_MEMORY_BAR_INDEX,
        0 <= offset < SHARED_MEMORY_SIZE,
        !link.layout.section_at(offset).writable_by(peer),
    ensures
        write_outcome(
            registers,
            peer,
            link@,
            link.layout,
            access,
            value,
        ).link.bytes[offset] == link@.bytes[offset],
{
    if access.offset <= offset < access.offset + access.width.bytes() {
        law_refused_writes_change_nothing(registers, peer, link, access, value, offset);
    }
}

/// No write to any BAR changes a byte of the reserved tail.
pub proof fn law_reserved_bytes_never_change(
    registers: IvshmemRegisters,
    peer: PeerId,
    link: IvshmemLink,
    access: PciBarAccess,
    value: u64,
    offset: int,
)
    requires
        link.wf(),
        0 <= offset < SHARED_MEMORY_SIZE,
        link.layout.section_at(offset) == Bar2Section::Reserved,
    ensures
        write_outcome(
            registers,
            peer,
            link@,
            link.layout,
            access,
            value,
        ).link.bytes[offset] == link@.bytes[offset],
{
    if access.bar.0 == SHARED_MEMORY_BAR_INDEX {
        law_writes_stay_in_writable_sections(registers, peer, link, access, value, offset);
    }
}

/// All bytes of the reserved tail are zero.
pub open spec fn reserved_is_zero(layout: IvshmemMemoryLayout, bytes: Seq<u8>) -> bool {
    forall|offset: int|
        0 <= offset < bytes.len() && layout.section_at(offset) == Bar2Section::Reserved
            ==> #[trigger] bytes[offset] == 0
}

/// The reserved tail of a new or newly activated link is zero, and it stays so
/// under every write to any BAR.
pub proof fn law_reserved_tail_stays_zero(
    registers: IvshmemRegisters,
    peer: PeerId,
    link: IvshmemLink,
    access: PciBarAccess,
    value: u64,
    allocation: backing::BackingAllocation,
)
    requires
        link.wf(),
    ensures
        reserved_is_zero(
            link.layout,
            LinkView::fresh(link@.id, link@.profile, allocation).bytes,
        ),
        link@.peers is None ==> reserved_is_zero(link.layout, link@.activated(allocation).bytes),
        reserved_is_zero(link.layout, link@.bytes) ==> reserved_is_zero(
            link.layout,
            write_outcome(registers, peer, link@, link.layout, access, value).link.bytes,
        ),
{
    let after = write_outcome(registers, peer, link@, link.layout, access, value).link.bytes;
    if reserved_is_zero(link.layout, link@.bytes) {
        assert forall|offset: int| 0 <= offset < after.len() && link.layout.section_at(offset)
            == Bar2Section::Reserved implies #[trigger] after[offset] == 0 by {
            law_reserved_bytes_never_change(registers, peer, link, access, value, offset);
            assert(link@.bytes[offset] == 0);
        }
    }
}

/// A read of the reserved tail gives zero while the tail is zero.
pub proof fn law_reserved_tail_reads_zero(
    registers: IvshmemRegisters,
    peer: PeerId,
    link: IvshmemLink,
    access: PciBarAccess,
)
    requires
        link.wf(),
        link@.peers is Some,
        reserved_is_zero(link.layout, link@.bytes),
        access.bar.0 == SHARED_MEMORY_BAR_INDEX,
        access.offset + access.width.bytes() <= SHARED_MEMORY_SIZE,
        link.layout.section_at(access.offset as int) == Bar2Section::Reserved,
    ensures
        read_outcome(registers, peer, link@, access) == Ok::<nat, DeviceErrorView>(0),
{
    let start = access.offset as int;
    let end = start + access.width.bytes();
    let bytes = link@.bytes.subrange(start, end);
    assert forall|i: int| 0 <= i < bytes.len() implies #[trigger] bytes[i] == 0 by {
        lemma_reserved_is_a_tail(link, start, start + i);
        assert(link@.bytes[start + i] == 0);
    }
    lemma_zero_value(bytes);
}

/// Behind a reserved offset all offsets are reserved.
proof fn lemma_reserved_is_a_tail(link: IvshmemLink, start: int, offset: int)
    requires
        link.wf(),
        0 <= start <= offset,
        link.layout.section_at(start) == Bar2Section::Reserved,
    ensures
        link.layout.section_at(offset) == Bar2Section::Reserved,
{
    let profile = link.profile;
    layout::law_derived_layouts_validate(link.layout, profile);
    layout::law_sections_own_their_offsets(link.layout, start);
    layout::law_sections_own_their_offsets(link.layout, offset);
    assert forall|i: int| 0 <= i < link.layout.outputs@.len() implies !(
    #[trigger] link.layout.outputs@[i]).holds(offset) by {
        lemma_behind_outputs(link, start, i);
    }
}

/// A reserved offset lies behind every output section.
proof fn lemma_behind_outputs(link: IvshmemLink, start: int, index: int)
    requires
        link.wf(),
        0 <= start,
        0 <= index < link.layout.outputs@.len(),
        link.layout.section_at(start) == Bar2Section::Reserved,
    ensures
        link.layout.outputs@[index].end() <= start,
    decreases index,
{
    let profile = link.profile;
    layout::law_derived_layouts_validate(link.layout, profile);
    layout::law_sections_own_their_offsets(link.layout, start);
    assert(!link.layout.outputs@[index].holds(start));
    layout::lemma_output_bounds(link.layout.bar2_size, profile, index);
    if index > 0 {
        lemma_behind_outputs(link, start, index - 1);
        layout::lemma_output_bounds(link.layout.bar2_size, profile, index - 1);
    }
}

/// Zero bytes spell zero.
proof fn lemma_zero_value(bytes: Seq<u8>)
    requires
        forall|i: int| 0 <= i < bytes.len() ==> #[trigger] bytes[i] == 0,
    ensures
        le::le_value(bytes) == 0,
    decreases bytes.len(),
{
    if bytes.len() > 0 {
        let rest = bytes.skip(1);
        assert forall|i: int| 0 <= i < rest.len() implies #[trigger] rest[i] == 0 by {
            assert(rest[i] == bytes[i + 1]);
        }
        lemma_zero_value(rest);
    }
}

/// A naturally aligned BAR2 write is decided by the section of its first byte:
/// where the peer may write that section of an active link, the bytes of the
/// value are stored.
pub proof fn law_aligned_writes_are_decided_by_their_first_byte(
    registers: IvshmemRegisters,
    peer: PeerId,
    link: IvshmemLink,
    access: PciBarAccess,
    value: u64,
)
    requires
        link.wf(),
        link@.peers is Some,
        access.bar.0 == SHARED_MEMORY_BAR_INDEX,
        access.offset as int % access.width.bytes() as int == 0,
        link.layout.section_at(access.offset as int).writable_by(peer),
    ensures
        ({
            let outcome = write_outcome(registers, peer, link@, link.layout, access, value);
            &&& outcome.result == Ok::<Option<DoorbellRoute>, DeviceErrorView>(None)
            &&& outcome.registers == registers
            &&& outcome.link == link@.stored(
                access.offset,
                access.width.bytes() as nat,
                value as nat,
            )
        }),
{
    let start = access.offset as int;
    let width = access.width.bytes() as int;
    layout::law_derived_layouts_validate(link.layout, link.profile);
    assert forall|offset: int| start <= offset < start + width implies (
    #[trigger] link.layout.section_at(offset)).writable_by(peer) && offset < SHARED_MEMORY_SIZE by {
        lemma_same_section(link.layout, start, offset, width);
        layout::law_sections_own_their_offsets(link.layout, offset);
    }
    let last = start + width - 1;
    assert(link.layout.section_at(last).writable_by(peer));
    layout::lemma_first_refused(link.layout, peer, start, access_end(access));
}

/// Offsets of one naturally aligned access lie in the same section.
proof fn lemma_same_section(layout: IvshmemMemoryLayout, start: int, offset: int, width: int)
    requires
        layout.wf(),
        width == 1 || width == 2 || width == 4 || width == 8,
        0 <= start,
        start % width == 0,
        start <= offset < start + width,
    ensures
        layout.section_at(start) == layout.section_at(offset),
{
    lemma_aligned_holds(layout.state_table, start, offset, width);
    if let Some(common) = layout.common {
        lemma_aligned_holds(common, start, offset, width);
    }
    lemma_same_output(layout, start, offset, width, 0);
}

/// A section with page-aligned bounds holds all offsets of a naturally aligned
/// access or none.
proof fn lemma_aligned_holds(section: layout::SectionDesc, start: int, offset: int, width: int)
    requires
        section.wf(),
        width == 1 || width == 2 || width == 4 || width == 8,
        start % width == 0,
        start <= offset < start + width,
    ensures
        section.holds(start) == section.holds(offset),
{
    assert(section.end() % 0x1000 == 0);
    lemma_same_side(section.offset as int, start, offset, width);
    lemma_same_side(section.end(), start, offset, width);
}

/// A naturally aligned access lies on one side of a page bound.
proof fn lemma_same_side(bound: int, start: int, offset: int, width: int)
    requires
        bound % 0x1000 == 0,
        width == 1 || width == 2 || width == 4 || width == 8,
        start % width == 0,
        start <= offset < start + width,
    ensures
        (start < bound) == (offset < bound),
{
    let pages = bound / 0x1000;
    let count = start / width;
    assert(start == count * width) by {
        vstd::arithmetic::div_mod::lemma_fundamental_div_mod(start, width);
        assert(width * count == count * width) by (nonlinear_arith);
    }
    lemma_side_of_multiples(pages, count, offset, width);
}

/// A multiple of a width and the offsets up to the next one lie on one side of
/// a page bound.
proof fn lemma_side_of_multiples(pages: int, count: int, offset: int, width: int)
    requires
        width == 1 || width == 2 || width == 4 || width == 8,
        count * width <= offset < count * width + width,
    ensures
        (count * width < pages * 0x1000) == (offset < pages * 0x1000),
{
    let bound = pages * (0x1000int / width);
    assert(bound * width == pages * 0x1000) by {
        if width == 1 {
            assert(0x1000int / 1 == 0x1000);
        } else if width == 2 {
            assert(0x1000int / 2 == 0x800);
        } else if width == 4 {
            assert(0x1000int / 4 == 0x400);
        } else {
            assert(0x1000int / 8 == 0x200);
        }
        let share = 0x1000int / width;
        assert(share * width == 0x1000);
        assert(pages * share * width == pages * (share * width)) by (nonlinear_arith);
    }
    if count < bound {
        assert(count * width + width <= bound * width) by (nonlinear_arith)
            requires
                count + 1 <= bound,
                width > 0,
        ;
    } else {
        assert(bound * width <= count * width) by (nonlinear_arith)
            requires
                bound <= count,
                width > 0,
        ;
    }
}

proof fn lemma_same_output(
    layout: IvshmemMemoryLayout,
    start: int,
    offset: int,
    width: int,
    from: int,
)
    requires
        layout.wf(),
        width == 1 || width == 2 || width == 4 || width == 8,
        start % width == 0,
        start <= offset < start + width,
        0 <= from <= layout.outputs@.len(),
    ensures
        layout::output_holding(layout.outputs@, start, from) == layout::output_holding(
            layout.outputs@,
            offset,
            from,
        ),
    decreases layout.outputs@.len() - from,
{
    if from < layout.outputs@.len() {
        lemma_aligned_holds(layout.outputs@[from], start, offset, width);
        lemma_same_output(layout, start, offset, width, from + 1);
    }
}

/// A State write is published: the peer's state-table entry then reads, through
/// every peer's BAR2, the written value.
pub proof fn law_state_writes_reach_every_peer(
    registers: IvshmemRegisters,
    peer: PeerId,
    link: LinkView,
    layout: IvshmemMemoryLayout,
    access: PciBarAccess,
    value: u32,
)
    requires
        link.wf(),
        link.publish_fault(peer) is None,
        access.bar.0 == REGISTER_BAR_INDEX,
        access.width == AccessWidth::Dword,
        access.offset == STATE_OFFSET,
    ensures
        ({
            let outcome = write_outcome(registers, peer, link, layout, access, value as u64);
            &&& outcome.result is Ok
            &&& outcome.registers.state == value
            &&& le::le_value(
                outcome.link.bytes.subrange(4 * peer.0, 4 * peer.0 + 4),
            ) == value
        }),
{
    crate::ivshmem::link::law_published_state_is_read_back(link, peer, peer, value);
}

/// A doorbell write never fails and changes neither the writer's registers nor
/// the shared bytes.
pub proof fn law_doorbells_never_fail(
    registers: IvshmemRegisters,
    peer: PeerId,
    link: LinkView,
    layout: IvshmemMemoryLayout,
    access: PciBarAccess,
    value: u32,
)
    requires
        access.bar.0 == REGISTER_BAR_INDEX,
        access.width == AccessWidth::Dword,
        access.offset == DOORBELL_OFFSET,
    ensures
        ({
            let outcome = write_outcome(registers, peer, link, layout, access, value as u64);
            &&& outcome.result is Ok
            &&& outcome.registers == registers
            &&& outcome.link.bytes == link.bytes
            &&& outcome.link.peers == link.peers
        }),
{
}

/// A reset clears only the entry of its own peer: every byte outside that entry
/// keeps its value.
pub proof fn law_reset_clears_only_its_entry(link: LinkView, peer: PeerId, offset: int)
    requires
        link.wf(),
        peer.0 < link.profile.max_peers,
        0 <= offset < link.bytes.len(),
    ensures
        ({
            let after = link.published(peer, 0).bytes;
            if 4 * peer.0 <= offset < 4 * peer.0 + 4 {
                after[offset] == 0
            } else {
                after[offset] == link.bytes[offset]
            }
        }),
{
    if 4 * peer.0 <= offset < 4 * peer.0 + 4 {
        let index = (offset - 4 * peer.0) as nat;
        le::lemma_span_positive(index);
        assert(0nat / le::byte_span(index) == 0) by (nonlinear_arith)
            requires
                le::byte_span(index) >= 1,
        ;
    }
}

} // verus!
