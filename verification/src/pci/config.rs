//! Type-0 config image and guest-writable function state.

use crate::le;
use crate::pci::address::CONFIG_SPACE_SIZE;
use crate::pci::bar;
use crate::pci::bar::{BarState, PciMemoryBarWidth, ResolvedBarPlan};
use crate::pci::capability;
use crate::pci::capability::{CapabilityView, PciCapability};
use crate::pci::error::{PciError, PciErrorView, PciResult};
use crate::pci::function;
use crate::pci::function::PciEndpointIdentity;
use crate::pci::msix::PciMsixDeclaration;
use vstd::prelude::*;

verus! {

/// Config-space location of the MSI-X capability.
pub const MSIX_CAP_OFFSET: usize = 0x40;

/// Status register bit 4: capability list present.
pub const STATUS_CAP_LIST_PRESENT: u8 = 0x10;

/// Header type bit 7: the device has several functions.
pub const HEADER_MULTIFUNCTION: u8 = 0x80;

/// Command bit 1, in the low command byte.
pub const COMMAND_MEMORY_SPACE_ENABLE: u8 = 0x02;

/// Command bit 2, in the low command byte.
pub const COMMAND_BUS_MASTER_ENABLE: u8 = 0x04;

/// Writable bits of the low command byte.
pub const COMMAND_LOW_WRITABLE: u8 = 0x06;

/// Command bit 10: bit 2 of the high command byte.
pub const COMMAND_INTX_DISABLE_HIGH: u8 = 0x04;

/// Standard command state of one function.
#[derive(Clone, Copy, Debug, PartialEq, Eq, Structural)]
pub struct PciCommandState {
    pub memory_space_enabled: bool,
    pub bus_master_enabled: bool,
    pub intx_disabled: bool,
}

/// The command state that a config image expresses.
pub open spec fn command_of(config: Seq<u8>) -> PciCommandState {
    PciCommandState {
        memory_space_enabled: config[4] & COMMAND_MEMORY_SPACE_ENABLE != 0,
        bus_master_enabled: config[4] & COMMAND_BUS_MASTER_ENABLE != 0,
        intx_disabled: config[5] & COMMAND_INTX_DISABLE_HIGH != 0,
    }
}

impl PciCommandState {
    /// Reads the command state out of a config image.
    pub fn from_config(config: &Vec<u8>) -> (command: Self)
        requires
            config@.len() >= 6,
        ensures
            command == command_of(config@),
    {
        PciCommandState {
            memory_space_enabled: config[4] & COMMAND_MEMORY_SPACE_ENABLE != 0,
            bus_master_enabled: config[4] & COMMAND_BUS_MASTER_ENABLE != 0,
            intx_disabled: config[5] & COMMAND_INTX_DISABLE_HIGH != 0,
        }
    }
}

/// The BAR takes the BAR register `slot`.
pub open spec fn owns_slot(plan: ResolvedBarPlan, slot: int) -> bool {
    plan.index.0 <= slot < plan.index.0 + bar::slots_of(plan.width)
}

/// No two BARs take the same BAR register.
pub open spec fn plans_are_distinct(plans: Seq<ResolvedBarPlan>) -> bool {
    forall|i: int, j: int, slot: int|
        0 <= i < plans.len() && 0 <= j < plans.len() && #[trigger] owns_slot(plans[i], slot)
            && #[trigger] owns_slot(plans[j], slot) ==> i == j
}

/// Every BAR can exist where it is planned, and no two share a register.
pub open spec fn plans_ok(plans: Seq<ResolvedBarPlan>) -> bool {
    &&& forall|i: int| 0 <= i < plans.len() ==> (#[trigger] plans[i]).wf()
    &&& plans_are_distinct(plans)
}

/// The BAR that takes the BAR register `slot`, if any.
pub open spec fn bar_at(plans: Seq<ResolvedBarPlan>, slot: int) -> Option<int> {
    if exists|i: int| 0 <= i < plans.len() && #[trigger] owns_slot(plans[i], slot) {
        Some(choose|i: int| 0 <= i < plans.len() && #[trigger] owns_slot(plans[i], slot))
    } else {
        None
    }
}

/// Byte `index` of the planned register contents of a BAR.
pub open spec fn plan_byte(plan: ResolvedBarPlan, index: int) -> u8 {
    if index < 4 {
        le::byte_of(bar::low_dword(plan.address, plan.attributes()) as nat, index as nat)
    } else {
        le::byte_of(bar::high_dword(plan.address) as nat, (index - 4) as nat)
    }
}

/// The power-on byte of the standard header at offset `o`.
pub open spec fn header_byte(
    identity: PciEndpointIdentity,
    plans: Seq<ResolvedBarPlan>,
    has_capabilities: bool,
    multifunction: bool,
    o: int,
) -> u8 {
    if 0 <= o < 2 {
        le::byte_of(identity.vendor_id as nat, o as nat)
    } else if 2 <= o < 4 {
        le::byte_of(identity.device_id as nat, (o - 2) as nat)
    } else if o == 6 && has_capabilities {
        STATUS_CAP_LIST_PRESENT
    } else if o == 8 {
        identity.revision
    } else if o == 9 {
        identity.class.programming_interface
    } else if o == 10 {
        identity.class.subclass
    } else if o == 11 {
        identity.class.base
    } else if o == 14 && multifunction {
        HEADER_MULTIFUNCTION
    } else if 0x10 <= o < 0x28 {
        match bar_at(plans, (o - 0x10) / 4) {
            Some(i) => plan_byte(plans[i], o - 0x10 - 4 * plans[i].index.0),
            None => 0,
        }
    } else if 0x2c <= o < 0x2e {
        le::byte_of(identity.subsystem_vendor_id as nat, (o - 0x2c) as nat)
    } else if 0x2e <= o < 0x30 {
        le::byte_of(identity.subsystem_id as nat, (o - 0x2e) as nat)
    } else if o == 0x34 && has_capabilities {
        capability::CAPABILITY_BASE as u8
    } else {
        0
    }
}

/// The guest-writable bits of the standard header at offset `o`.
pub open spec fn header_mask(o: int) -> u8 {
    if o == 4 {
        COMMAND_LOW_WRITABLE
    } else if o == 5 {
        COMMAND_INTX_DISABLE_HIGH
    } else {
        0
    }
}

/// Byte `r` of capability `k` in the chain: identifier, next pointer, body.
pub open spec fn unit_byte(chain: Seq<CapabilityView>, k: int, r: int) -> u8 {
    if r == 0 {
        chain[k].id
    } else if r == 1 {
        if k + 1 < chain.len() {
            capability::chain_offset(chain, k + 1) as u8
        } else {
            0
        }
    } else if r - 2 < chain[k].body.len() {
        chain[k].body[r - 2]
    } else {
        0
    }
}

/// The guest-writable bits of byte `r` of capability `k` in the chain.
pub open spec fn unit_mask(chain: Seq<CapabilityView>, k: int, r: int) -> u8 {
    if 2 <= r && r - 2 < chain[k].write_mask.len() {
        chain[k].write_mask[r - 2]
    } else {
        0
    }
}

/// The power-on config image of one function with its guest-writable bits.
#[derive(Debug)]
pub struct PowerOnConfig {
    pub bytes: Vec<u8>,
    pub write_mask: Vec<u8>,
}

/// The contents of a [`PowerOnConfig`].
pub struct PowerOnView {
    pub bytes: Seq<u8>,
    pub write_mask: Seq<u8>,
}

impl View for PowerOnConfig {
    type V = PowerOnView;

    open spec fn view(&self) -> PowerOnView {
        PowerOnView { bytes: self.bytes@, write_mask: self.write_mask@ }
    }
}

impl PowerOnView {
    /// Both images cover the config space.
    pub open spec fn wf(self) -> bool {
        self.bytes.len() == CONFIG_SPACE_SIZE && self.write_mask.len() == CONFIG_SPACE_SIZE
    }

    /// The image describes this function: the standard header, the capability
    /// chain from its base on, and read-only zeros after it.
    pub open spec fn describes(
        self,
        identity: PciEndpointIdentity,
        plans: Seq<ResolvedBarPlan>,
        chain: Seq<CapabilityView>,
        multifunction: bool,
    ) -> bool {
        &&& self.wf()
        &&& forall|o: int|
            0 <= o < 0x40 ==> #[trigger] self.bytes[o] == header_byte(
                identity,
                plans,
                chain.len() > 0,
                multifunction,
                o,
            )
        &&& forall|o: int| 0 <= o < 0x40 ==> #[trigger] self.write_mask[o] == header_mask(o)
        &&& forall|k: int, r: int|
            0 <= k < chain.len() && 0 <= r < chain[k].extent()
                ==> self.bytes[capability::chain_offset(chain, k) + r] == #[trigger] unit_byte(
                chain,
                k,
                r,
            )
        &&& forall|k: int, r: int|
            0 <= k < chain.len() && 0 <= r < chain[k].extent()
                ==> self.write_mask[capability::chain_offset(chain, k) + r] == #[trigger] unit_mask(
                chain,
                k,
                r,
            )
        &&& forall|o: int|
            capability::chain_offset(chain, chain.len() as int) <= o < CONFIG_SPACE_SIZE
                ==> #[trigger] self.bytes[o] == 0
        &&& forall|o: int|
            capability::chain_offset(chain, chain.len() as int) <= o < CONFIG_SPACE_SIZE
                ==> #[trigger] self.write_mask[o] == 0
    }
}

/// The bytes written for the first `count` BARs: the planned register contents
/// of each, and zeros in the registers that none of them takes.
spec fn bar_bytes_done(bytes: Seq<u8>, plans: Seq<ResolvedBarPlan>, count: int) -> bool {
    &&& forall|k: int, index: int|
        0 <= k < count && 0 <= index < 4 * bar::slots_of(plans[k].width) ==> bytes[0x10 + 4
            * plans[k].index.0 + index] == #[trigger] plan_byte(plans[k], index)
    &&& forall|o: int|
        0x10 <= o < 0x28 && (forall|k: int|
            0 <= k < count ==> !#[trigger] owns_slot(plans[k], (o - 0x10) / 4))
            ==> #[trigger] bytes[o] == 0
}

/// Writes the planned register contents of every BAR.
fn write_bars(bytes: &mut Vec<u8>, plans: &Vec<ResolvedBarPlan>)
    requires
        plans_ok(plans@),
        old(bytes)@.len() == CONFIG_SPACE_SIZE,
        forall|o: int| 0x10 <= o < 0x28 ==> #[trigger] old(bytes)@[o] == 0,
    ensures
        final(bytes)@.len() == CONFIG_SPACE_SIZE,
        bar_bytes_done(final(bytes)@, plans@, plans@.len() as int),
        forall|o: int|
            0 <= o < CONFIG_SPACE_SIZE && !(0x10 <= o < 0x28) ==> #[trigger] final(bytes)@[o]
                == old(bytes)@[o],
{
    let mut index: usize = 0;
    while index < plans.len()
        invariant
            index <= plans.len(),
            plans_ok(plans@),
            bytes@.len() == CONFIG_SPACE_SIZE,
            bar_bytes_done(bytes@, plans@, index as int),
            forall|o: int|
                0 <= o < CONFIG_SPACE_SIZE && !(0x10 <= o < 0x28) ==> #[trigger] bytes@[o]
                    == old(bytes)@[o],
        decreases plans.len() - index,
    {
        let plan = plans[index];
        assert(plans@[index as int].wf());
        let state = BarState::new(plan);
        let offset: usize = plan.index.config_offset() as usize;
        let ghost before = bytes@;
        le::write_bytes(bytes, offset, 4, state.committed_dword(false) as u64);
        if plan.width == PciMemoryBarWidth::Bits64 {
            le::write_bytes(bytes, offset + 4, 4, state.committed_dword(true) as u64);
        }
        proof {
            let after = bytes@;
            assert forall|k: int, i: int|
                0 <= k < index + 1 && 0 <= i < 4 * bar::slots_of(plans@[k].width) implies after[0x10
                + 4 * plans@[k].index.0 + i] == #[trigger] plan_byte(plans@[k], i) by {
                if k < index {
                    let slot = plans@[k].index.0 + i / 4;
                    assert(owns_slot(plans@[k], slot));
                    assert(!owns_slot(plans@[index as int], slot));
                    assert(before[0x10 + 4 * plans@[k].index.0 + i] == plan_byte(plans@[k], i));
                }
            }
            assert forall|o: int|
                0x10 <= o < 0x28 && (forall|k: int|
                    0 <= k < index + 1 ==> !#[trigger] owns_slot(plans@[k], (o - 0x10) / 4))
                implies #[trigger] after[o] == 0 by {
                assert(!owns_slot(plans@[index as int], (o - 0x10) / 4));
                assert(before[o] == 0);
            }
        }
        index = index + 1;
    }
}

/// The first `count` capabilities of the chain are written, and nothing after
/// them.
spec fn chain_bytes_done(
    bytes: Seq<u8>,
    write_mask: Seq<u8>,
    chain: Seq<CapabilityView>,
    count: int,
) -> bool {
    &&& forall|k: int, r: int|
        0 <= k < count && 0 <= r < chain[k].extent() ==> bytes[capability::chain_offset(chain, k)
            + r] == #[trigger] unit_byte(chain, k, r)
    &&& forall|k: int, r: int|
        0 <= k < count && 0 <= r < chain[k].extent() ==> write_mask[capability::chain_offset(
            chain,
            k,
        ) + r] == #[trigger] unit_mask(chain, k, r)
    &&& forall|o: int|
        capability::chain_offset(chain, count) <= o < CONFIG_SPACE_SIZE ==> #[trigger] bytes[o] == 0
    &&& forall|o: int|
        capability::chain_offset(chain, count) <= o < CONFIG_SPACE_SIZE
            ==> #[trigger] write_mask[o] == 0
}

/// Writes one capability at `start`.
fn write_capability(
    bytes: &mut Vec<u8>,
    write_mask: &mut Vec<u8>,
    start: usize,
    next: u8,
    unit: &PciCapability,
)
    requires
        old(bytes)@.len() == CONFIG_SPACE_SIZE,
        old(write_mask)@.len() == CONFIG_SPACE_SIZE,
        start + unit@.extent() <= CONFIG_SPACE_SIZE,
        unit.wf(),
        forall|o: int| start <= o < CONFIG_SPACE_SIZE ==> #[trigger] old(bytes)@[o] == 0,
        forall|o: int| start <= o < CONFIG_SPACE_SIZE ==> #[trigger] old(write_mask)@[o] == 0,
    ensures
        final(bytes)@.len() == CONFIG_SPACE_SIZE,
        final(write_mask)@.len() == CONFIG_SPACE_SIZE,
        final(bytes)@[start as int] == unit.id,
        final(bytes)@[start + 1] == next,
        forall|o: int|
            0 <= o < CONFIG_SPACE_SIZE && o != start && o != start + 1
                ==> #[trigger] final(bytes)@[o] == if start + 2 <= o < start + 2 + unit@.body.len() {
                unit@.body[o - start - 2]
            } else {
                old(bytes)@[o]
            },
        forall|o: int|
            0 <= o < CONFIG_SPACE_SIZE ==> #[trigger] final(write_mask)@[o] == if start + 2 <= o
                < start + 2 + unit@.body.len() {
                unit@.write_mask[o - start - 2]
            } else {
                old(write_mask)@[o]
            },
{
    bytes.set(start, unit.id);
    bytes.set(start + 1, next);
    let length: usize = unit.body.len();
    let mut index: usize = 0;
    while index < length
        invariant
            index <= length,
            length == unit.body@.len() == unit.write_mask@.len(),
            start + unit@.extent() <= CONFIG_SPACE_SIZE,
            bytes@.len() == CONFIG_SPACE_SIZE,
            write_mask@.len() == CONFIG_SPACE_SIZE,
            bytes@[start as int] == unit.id,
            bytes@[start + 1] == next,
            forall|o: int|
                0 <= o < CONFIG_SPACE_SIZE && o != start && o != start + 1 ==> #[trigger] bytes@[o]
                    == if start + 2 <= o < start + 2 + index {
                    unit@.body[o - start - 2]
                } else {
                    old(bytes)@[o]
                },
            forall|o: int|
                0 <= o < CONFIG_SPACE_SIZE ==> #[trigger] write_mask@[o] == if start + 2 <= o
                    < start + 2 + index {
                    unit@.write_mask[o - start - 2]
                } else {
                    old(write_mask)@[o]
                },
        decreases length - index,
    {
        bytes.set(start + 2 + index, unit.body[index]);
        write_mask.set(start + 2 + index, unit.write_mask[index]);
        index = index + 1;
    }
}

/// Writes the capability chain.
fn write_chain(
    bytes: &mut Vec<u8>,
    write_mask: &mut Vec<u8>,
    chain: &Vec<PciCapability>,
    offsets: &Vec<usize>,
)
    requires
        old(bytes)@.len() == CONFIG_SPACE_SIZE,
        old(write_mask)@.len() == CONFIG_SPACE_SIZE,
        forall|o: int| 0x40 <= o < CONFIG_SPACE_SIZE ==> #[trigger] old(bytes)@[o] == 0,
        forall|o: int| 0x40 <= o < CONFIG_SPACE_SIZE ==> #[trigger] old(write_mask)@[o] == 0,
        forall|i: int| 0 <= i < chain@.len() ==> (#[trigger] chain@[i]).wf(),
        capability::chain_fits(capability::capability_views(chain@), chain@.len() as int),
        offsets@.len() == chain@.len(),
        forall|i: int|
            0 <= i < chain@.len() ==> #[trigger] offsets@[i] == capability::chain_offset(
                capability::capability_views(chain@),
                i,
            ),
    ensures
        final(bytes)@.len() == CONFIG_SPACE_SIZE,
        final(write_mask)@.len() == CONFIG_SPACE_SIZE,
        chain_bytes_done(
            final(bytes)@,
            final(write_mask)@,
            capability::capability_views(chain@),
            chain@.len() as int,
        ),
        forall|o: int| 0 <= o < 0x40 ==> #[trigger] final(bytes)@[o] == old(bytes)@[o],
        forall|o: int| 0 <= o < 0x40 ==> #[trigger] final(write_mask)@[o] == old(write_mask)@[o],
{
    let ghost views = capability::capability_views(chain@);
    let mut index: usize = 0;
    while index < chain.len()
        invariant
            index <= chain.len(),
            views == capability::capability_views(chain@),
            bytes@.len() == CONFIG_SPACE_SIZE,
            write_mask@.len() == CONFIG_SPACE_SIZE,
            forall|i: int| 0 <= i < chain@.len() ==> (#[trigger] chain@[i]).wf(),
            capability::chain_fits(views, chain@.len() as int),
            offsets@.len() == chain@.len(),
            forall|i: int|
                0 <= i < chain@.len() ==> #[trigger] offsets@[i] == capability::chain_offset(
                    views,
                    i,
                ),
            chain_bytes_done(bytes@, write_mask@, views, index as int),
            forall|o: int| 0 <= o < 0x40 ==> #[trigger] bytes@[o] == old(bytes)@[o],
            forall|o: int| 0 <= o < 0x40 ==> #[trigger] write_mask@[o] == old(write_mask)@[o],
        decreases chain.len() - index,
    {
        let start: usize = offsets[index];
        let next: u8 = if index + 1 < chain.len() {
            proof {
                capability::lemma_chain_offset_grows(views, index + 1, chain@.len() as int);
            }
            offsets[index + 1] as u8
        } else {
            0
        };
        let ghost before = bytes@;
        let ghost mask_before = write_mask@;
        proof {
            capability::lemma_chain_offset_grows(views, index as int, chain@.len() as int);
            capability::lemma_chain_offset_grows(views, index as int, index + 1);
            capability::lemma_chain_offset_grows(views, index + 1, chain@.len() as int);
        }
        write_capability(bytes, write_mask, start, next, &chain[index]);
        proof {
            let after = bytes@;
            let mask_after = write_mask@;
            assert forall|k: int, r: int|
                0 <= k < index + 1 && 0 <= r
                    < views[k].extent() implies after[capability::chain_offset(views, k) + r]
                == #[trigger] unit_byte(views, k, r) by {
                if k < index {
                    capability::lemma_chain_offset_grows(views, k, index as int);
                    assert(before[capability::chain_offset(views, k) + r] == unit_byte(views, k, r));
                }
            }
            assert forall|k: int, r: int|
                0 <= k < index + 1 && 0 <= r
                    < views[k].extent() implies mask_after[capability::chain_offset(views, k) + r]
                == #[trigger] unit_mask(views, k, r) by {
                if k < index {
                    capability::lemma_chain_offset_grows(views, k, index as int);
                    assert(mask_before[capability::chain_offset(views, k) + r] == unit_mask(
                        views,
                        k,
                        r,
                    ));
                }
            }
        }
        index = index + 1;
    }
}

/// Why a function with this identity and capability chain cannot exist, if it
/// cannot.
pub open spec fn image_fault(
    identity: PciEndpointIdentity,
    chain: Seq<CapabilityView>,
    error: PciErrorView,
) -> bool {
    if identity.vendor_id == 0xffff {
        error == (PciErrorView::InvalidEndpointIdentity {
            detail: "vendor ID 0xffff denotes an absent function"@,
        })
    } else {
        exists|i: int| #[trigger]
            capability::chain_breaks_at(chain, i) && error == capability::chain_overflow(chain[i])
    }
}

impl PowerOnConfig {
    /// Builds the power-on image of one function.
    pub fn build(
        identity: PciEndpointIdentity,
        bars: &Vec<ResolvedBarPlan>,
        capabilities: &Vec<PciCapability>,
        multifunction: bool,
        msix: Option<PciMsixDeclaration>,
    ) -> (image: PciResult<Self>)
        requires
            plans_ok(bars@),
            forall|i: int| 0 <= i < capabilities@.len() ==> (#[trigger] capabilities@[i]).wf(),
            msix matches Some(msix) ==> msix.wf(),
        ensures
            ({
                let chain = function::chain_of(capability::capability_views(capabilities@), msix);
                match image {
                    Ok(image) => {
                        &&& identity.vendor_id != 0xffff
                        &&& capability::chain_fits(chain, chain.len() as int)
                        &&& image@.describes(identity, bars@, chain, multifunction)
                    },
                    Err(error) => image_fault(identity, chain, error@),
                }
            }),
    {
        if identity.vendor_id == 0xffff {
            return Err(
                PciError::InvalidEndpointIdentity {
                    detail: "vendor ID 0xffff denotes an absent function",
                },
            );
        }
        let chain = function::capability_chain(capabilities, msix);
        let ghost views = capability::capability_views(chain@);
        proof {
            let given = capability::capability_views(capabilities@);
            assert(views.len() == chain@.len());
            assert(given.len() == capabilities@.len());
            assert forall|i: int| 0 <= i < chain@.len() implies (#[trigger] chain@[i]).wf() by {
                assert(views[i] == chain@[i]@);
                match msix {
                    Some(declaration) => {
                        if i > 0 {
                            assert(views[i] == given[i - 1]);
                            assert(capabilities@[i - 1].wf());
                        } else {
                            assert(views[0] == capability::msix_capability_view(declaration));
                        }
                    },
                    None => {
                        assert(capabilities@[i].wf());
                    },
                }
            }
        }
        let offsets = match capability::capability_chain_offsets(&chain) {
            Ok(offsets) => offsets,
            Err(error) => {
                proof {
                    let i = choose|i: int| #[trigger]
                        capability::chain_breaks_at(views, i) && error@
                            == capability::chain_overflow(chain@[i]@);
                    assert(views[i] == chain@[i]@);
                }
                return Err(error);
            },
        };
        let mut bytes: Vec<u8> = vec![0u8; CONFIG_SPACE_SIZE];
        let mut write_mask: Vec<u8> = vec![0u8; CONFIG_SPACE_SIZE];
        write_mask.set(4, COMMAND_LOW_WRITABLE);
        write_mask.set(5, COMMAND_INTX_DISABLE_HIGH);
        le::write_bytes(&mut bytes, 0, 2, identity.vendor_id as u64);
        le::write_bytes(&mut bytes, 2, 2, identity.device_id as u64);
        bytes.set(8, identity.revision);
        bytes.set(9, identity.class.programming_interface);
        bytes.set(10, identity.class.subclass);
        bytes.set(11, identity.class.base);
        if multifunction {
            bytes.set(14, HEADER_MULTIFUNCTION);
        }
        le::write_bytes(&mut bytes, 0x2c, 2, identity.subsystem_vendor_id as u64);
        le::write_bytes(&mut bytes, 0x2e, 2, identity.subsystem_id as u64);
        if chain.len() > 0 {
            bytes.set(6, STATUS_CAP_LIST_PRESENT);
            bytes.set(0x34, capability::CAPABILITY_BASE as u8);
        }
        write_bars(&mut bytes, bars);
        proof {
            assert forall|o: int| 0 <= o < 0x40 implies #[trigger] bytes@[o] == header_byte(
                identity,
                bars@,
                chain@.len() > 0,
                multifunction,
                o,
            ) by {
                if 0x10 <= o < 0x28 {
                    let slot = (o - 0x10) / 4;
                    match bar_at(bars@, slot) {
                        Some(i) => {
                            assert(owns_slot(bars@[i], slot));
                            let index = o - 0x10 - 4 * bars@[i].index.0;
                            assert(bytes@[0x10 + 4 * bars@[i].index.0 + index] == plan_byte(
                                bars@[i],
                                index,
                            ));
                        },
                        None => {},
                    }
                }
            }
        }
        write_chain(&mut bytes, &mut write_mask, &chain, &offsets);
        Ok(PowerOnConfig { bytes, write_mask })
    }
}

} // verus!
