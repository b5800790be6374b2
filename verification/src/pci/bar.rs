//! Memory BAR descriptors and mutable decode state.
//!
//! Attribute bits are derived from the resolved plan on every read, so no
//! guest write can flip them. A rejected relocation write still clears the
//! probe latch of its dword, so the readback returns to the committed address.

use crate::bits;
use crate::device::{ResourceRequest, FOUR_GIB};
use crate::pci::address::PciBarIndex;
use crate::pci::error::{PciError, PciErrorView, PciResult};
use crate::text;
use std::ops::Range;
use vstd::prelude::*;

verus! {

/// Width encoded by a memory BAR.
#[derive(Clone, Copy, Debug, PartialEq, Eq, Structural)]
pub enum PciMemoryBarWidth {
    /// One 32-bit BAR register.
    Bits32,
    /// A low/high pair of BAR registers.
    Bits64,
}

/// Runtime decode policy of one memory BAR, independent of its initial
/// placement.
#[derive(Clone, Copy, Debug, PartialEq, Eq, Structural)]
pub enum PciBarDecodePolicy {
    /// The planned address is permanent: guest writes never move the decode.
    Fixed,
    /// The BAR may relocate inside the host memory aperture at runtime.
    RelocatableWithinHostAperture,
}

/// One memory BAR requested by a virtual PCI function.
#[derive(Clone, Copy, Debug, PartialEq, Eq)]
pub struct PciMemoryBar {
    pub index: PciBarIndex,
    pub size: u64,
    pub width: PciMemoryBarWidth,
    pub prefetchable: bool,
    pub decode_policy: PciBarDecodePolicy,
    pub address: ResourceRequest<u64>,
}

/// A BAR of this shape can exist.
pub open spec fn bar_shape_ok(index: PciBarIndex, size: u64, width: PciMemoryBarWidth) -> bool {
    &&& index.wf()
    &&& size >= 16
    &&& bits::is_power_of_two(size)
    &&& width == PciMemoryBarWidth::Bits32 ==> size <= FOUR_GIB
    &&& width == PciMemoryBarWidth::Bits64 ==> index.0 < 5
}

/// The number of BAR registers that a BAR of this width takes.
pub open spec fn slots_of(width: PciMemoryBarWidth) -> nat {
    match width {
        PciMemoryBarWidth::Bits32 => 1,
        PciMemoryBarWidth::Bits64 => 2,
    }
}

/// Why a BAR of this shape is refused, if it is.
pub open spec fn bar_shape_fault(index: PciBarIndex, size: u64, width: PciMemoryBarWidth) -> Option<
    Seq<char>,
> {
    if size < 16 || !bits::is_power_of_two(size) {
        Some("size must be a power of two of at least 16 bytes"@)
    } else if width == PciMemoryBarWidth::Bits32 && size > FOUR_GIB {
        Some("32-bit BAR size exceeds 4 GiB"@)
    } else if width == PciMemoryBarWidth::Bits64 && index.0 == 5 {
        Some("64-bit BAR requires a following BAR slot"@)
    } else {
        None
    }
}

impl PciMemoryBar {
    /// The BAR has a shape that can exist.
    pub open spec fn wf(self) -> bool {
        bar_shape_ok(self.index, self.size, self.width)
    }

    /// Creates an automatically placed memory BAR.
    ///
    /// The BAR defaults to non-prefetchable with a relocatable decode.
    pub fn new(index: PciBarIndex, size: u64, width: PciMemoryBarWidth) -> (bar: PciResult<Self>)
        requires
            index.wf(),
        ensures
            match bar {
                Ok(bar) => {
                    &&& bar_shape_fault(index, size, width) is None
                    &&& bar.wf()
                    &&& bar == (PciMemoryBar {
                        index,
                        size,
                        width,
                        prefetchable: false,
                        decode_policy: PciBarDecodePolicy::RelocatableWithinHostAperture,
                        address: ResourceRequest::Auto,
                    })
                },
                Err(error) => bar_shape_fault(index, size, width) is Some && error@ == (
                PciErrorView::InvalidBar {
                    bar: index,
                    detail: bar_shape_fault(index, size, width)->0,
                }),
            },
    {
        if size < 16 || !bits::power_of_two(size) {
            return Err(invalid_bar(index, "size must be a power of two of at least 16 bytes"));
        }
        if width == PciMemoryBarWidth::Bits32 && size > FOUR_GIB {
            return Err(invalid_bar(index, "32-bit BAR size exceeds 4 GiB"));
        }
        if width == PciMemoryBarWidth::Bits64 && index.value() == 5 {
            return Err(invalid_bar(index, "64-bit BAR requires a following BAR slot"));
        }
        Ok(
            PciMemoryBar {
                index,
                size,
                width,
                prefetchable: false,
                decode_policy: PciBarDecodePolicy::RelocatableWithinHostAperture,
                address: ResourceRequest::Auto,
            },
        )
    }

    /// Marks the BAR prefetchable.
    pub fn prefetchable(self) -> (bar: Self)
        ensures
            bar == (PciMemoryBar { prefetchable: true, ..self }),
    {
        PciMemoryBar { prefetchable: true, ..self }
    }

    /// Selects the runtime decode policy.
    pub fn with_decode_policy(self, decode_policy: PciBarDecodePolicy) -> (bar: Self)
        ensures
            bar == (PciMemoryBar { decode_policy, ..self }),
    {
        PciMemoryBar { decode_policy, ..self }
    }

    /// Selects automatic or fixed initial placement inside the host aperture.
    pub fn with_address(self, address: ResourceRequest<u64>) -> (bar: Self)
        ensures
            bar == (PciMemoryBar { address, ..self }),
    {
        PciMemoryBar { address, ..self }
    }

    /// Returns the first BAR slot.
    pub fn index(&self) -> (index: PciBarIndex)
        ensures
            index == self.index,
    {
        self.index
    }

    /// Returns the fixed BAR size.
    pub fn size(&self) -> (size: u64)
        ensures
            size == self.size,
    {
        self.size
    }

    /// Returns the encoded BAR width.
    pub fn width(&self) -> (width: PciMemoryBarWidth)
        ensures
            width == self.width,
    {
        self.width
    }

    /// Returns whether the BAR declares the prefetchable attribute.
    pub fn is_prefetchable(&self) -> (prefetchable: bool)
        ensures
            prefetchable == self.prefetchable,
    {
        self.prefetchable
    }

    /// Returns the runtime decode policy.
    pub fn decode_policy(&self) -> (policy: PciBarDecodePolicy)
        ensures
            policy == self.decode_policy,
    {
        self.decode_policy
    }

    /// Returns the requested placement.
    pub fn address_request(&self) -> (address: ResourceRequest<u64>)
        ensures
            address == self.address,
    {
        self.address
    }

    /// Returns the number of BAR registers that the BAR takes.
    pub fn occupied_slots(&self) -> (slots: u8)
        ensures
            slots == slots_of(self.width),
    {
        match self.width {
            PciMemoryBarWidth::Bits32 => 1,
            PciMemoryBarWidth::Bits64 => 2,
        }
    }

    /// The two BARs share a BAR register.
    pub open spec fn shares_slot(self, other: PciMemoryBar) -> bool {
        self.index.0 < other.index.0 + slots_of(other.width) && other.index.0 < self.index.0
            + slots_of(self.width)
    }
}

/// The immutable attribute bits of a memory BAR: bit 2 for a 64-bit pair,
/// bit 3 for prefetchable memory.
pub open spec fn attribute_bits(width: PciMemoryBarWidth, prefetchable: bool) -> int {
    (match width {
        PciMemoryBarWidth::Bits32 => 0int,
        PciMemoryBarWidth::Bits64 => 4int,
    }) + if prefetchable {
        8int
    } else {
        0int
    }
}

/// Encodes the immutable attribute bits of one memory BAR dword.
pub fn bar_attributes(width: PciMemoryBarWidth, prefetchable: bool) -> (attributes: u32)
    ensures
        attributes == attribute_bits(width, prefetchable),
{
    let width_bits: u32 = match width {
        PciMemoryBarWidth::Bits32 => 0,
        PciMemoryBarWidth::Bits64 => 4,
    };
    if prefetchable {
        proof {
            assert(width_bits | 0x8 == width_bits + 8) by (bit_vector)
                requires
                    width_bits == 0 || width_bits == 4,
            ;
        }
        width_bits | 0x8
    } else {
        width_bits
    }
}

/// One BAR with its planned address.
#[derive(Clone, Copy, Debug, PartialEq, Eq, Structural)]
pub struct ResolvedBarPlan {
    pub index: PciBarIndex,
    pub size: u64,
    pub width: PciMemoryBarWidth,
    pub prefetchable: bool,
    pub policy: PciBarDecodePolicy,
    pub address: u64,
}

/// `address` is a place where a BAR of this size and width can decode.
pub open spec fn decodable(address: u64, size: u64, width: PciMemoryBarWidth) -> bool {
    &&& bits::multiple_of(address as int, size as int)
    &&& address + size <= u64::MAX
    &&& width == PciMemoryBarWidth::Bits32 ==> address + size <= FOUR_GIB
}

impl ResolvedBarPlan {
    /// The BAR has a shape that can exist and is planned where it can decode.
    pub open spec fn wf(self) -> bool {
        &&& bar_shape_ok(self.index, self.size, self.width)
        &&& decodable(self.address, self.size, self.width)
    }

    /// The attribute bits of the BAR.
    pub open spec fn attributes(self) -> int {
        attribute_bits(self.width, self.prefetchable)
    }
}

/// The low dword of a BAR at `address`.
pub open spec fn low_dword(address: u64, attributes: int) -> int {
    address as int % 0x1_0000_0000 / 16 * 16 + attributes
}

/// The high dword of a BAR at `address`.
pub open spec fn high_dword(address: u64) -> int {
    address as int / 0x1_0000_0000
}

/// The size mask: the complement of `size - 1` in 64 bits.
pub open spec fn size_mask(size: u64) -> int {
    0x1_0000_0000_0000_0000 - size
}

/// Decode state of one BAR.
#[derive(Clone, Copy, Debug, PartialEq, Eq, Structural)]
pub struct BarState {
    pub plan: ResolvedBarPlan,
    pub address: u64,
    pub probe_low: bool,
    pub probe_high: bool,
}

impl BarState {
    /// The plan is sound, the BAR decodes where it can, and a BAR with a fixed
    /// decode sits at its planned address.
    pub open spec fn wf(self) -> bool {
        &&& self.plan.wf()
        &&& decodable(self.address, self.plan.size, self.plan.width)
        &&& self.plan.policy == PciBarDecodePolicy::Fixed ==> self.address == self.plan.address
    }

    /// The first address past the decoded range.
    pub open spec fn end(self) -> int {
        self.address + self.plan.size
    }

    /// The two decoded ranges have an address in common.
    pub open spec fn overlaps(self, other: BarState) -> bool {
        self.address < other.end() && other.address < self.end()
    }

    /// Starts decoding at the planned address.
    pub fn new(plan: ResolvedBarPlan) -> (bar: Self)
        ensures
            bar == (BarState { plan, address: plan.address, probe_low: false, probe_high: false }),
    {
        BarState { plan, address: plan.address, probe_low: false, probe_high: false }
    }

    /// Returns the first BAR slot.
    pub fn index(&self) -> (index: PciBarIndex)
        ensures
            index == self.plan.index,
    {
        self.plan.index
    }

    /// Returns the BAR size.
    pub fn size(&self) -> (size: u64)
        ensures
            size == self.plan.size,
    {
        self.plan.size
    }

    /// Returns the BAR width.
    pub fn width(&self) -> (width: PciMemoryBarWidth)
        ensures
            width == self.plan.width,
    {
        self.plan.width
    }

    /// Returns the decoded range, unless its end cannot be represented.
    pub fn range(&self) -> (range: Option<Range<u64>>)
        ensures
            match range {
                Some(range) => range.start == self.address && range.end == self.end(),
                None => self.end() > u64::MAX,
            },
    {
        match self.address.checked_add(self.plan.size) {
            Some(end) => Some(self.address..end),
            None => None,
        }
    }

    /// The committed register contents.
    pub open spec fn committed(self, high: bool) -> int {
        if high {
            high_dword(self.address)
        } else {
            low_dword(self.address, self.plan.attributes())
        }
    }

    /// The response to a size probe.
    pub open spec fn probe_response(self, high: bool) -> int {
        if !high {
            size_mask(self.plan.size) % 0x1_0000_0000 + self.plan.attributes()
        } else if self.plan.width == PciMemoryBarWidth::Bits64 {
            size_mask(self.plan.size) / 0x1_0000_0000
        } else {
            0
        }
    }

    /// The register contents that the guest reads.
    pub open spec fn visible(self, high: bool) -> int {
        if if high {
            self.probe_high
        } else {
            self.probe_low
        } {
            self.probe_response(high)
        } else {
            self.committed(high)
        }
    }

    /// The address that a write of `dword` asks for.
    pub open spec fn candidate(self, high: bool, dword: u32) -> int {
        let merged = if high {
            self.address as int % 0x1_0000_0000 + dword * 0x1_0000_0000
        } else {
            self.address as int / 0x1_0000_0000 * 0x1_0000_0000 + dword as int / 16 * 16
        };
        merged - merged % self.plan.size as int
    }

    /// Returns the register contents that the guest reads.
    pub fn raw_dword(&self, high: bool) -> (dword: u32)
        requires
            self.wf(),
        ensures
            dword == self.visible(high),
    {
        if high && self.probe_high {
            self.mask_high()
        } else if !high && self.probe_low {
            self.mask_low()
        } else {
            self.committed_dword(high)
        }
    }

    /// Returns the committed register contents.
    pub fn committed_dword(&self, high: bool) -> (dword: u32)
        ensures
            dword == self.committed(high),
    {
        let address: u64 = self.address;
        if high {
            proof {
                assert((address >> 32) as u32 == address / 0x1_0000_0000) by (bit_vector);
            }
            (address >> 32) as u32
        } else {
            let attributes: u32 = self.attributes();
            proof {
                assert(((address as u32 & 0xffff_fff0) | attributes) == address % 0x1_0000_0000 / 16
                    * 16 + attributes) by (bit_vector)
                    requires
                        attributes < 16,
                ;
            }
            (address as u32 & 0xffff_fff0) | attributes
        }
    }

    /// Latches the size-probe response of one dword.
    pub fn set_probe(&mut self, high: bool)
        ensures
            *final(self) == (if high {
                BarState { probe_high: true, ..*old(self) }
            } else {
                BarState { probe_low: true, ..*old(self) }
            }),
    {
        if high {
            self.probe_high = true;
        } else {
            self.probe_low = true;
        }
    }

    /// Clears the probe latch of one dword.
    pub fn clear_probe(&mut self, high: bool)
        ensures
            *final(self) == (if high {
                BarState { probe_high: false, ..*old(self) }
            } else {
                BarState { probe_low: false, ..*old(self) }
            }),
    {
        if high {
            self.probe_high = false;
        } else {
            self.probe_low = false;
        }
    }

    /// Returns the address that a write of `dword` asks for.
    pub fn candidate_address(&self, high: bool, dword: u32) -> (candidate: u64)
        requires
            self.plan.wf(),
        ensures
            candidate == self.candidate(high, dword),
            bits::multiple_of(candidate as int, self.plan.size as int),
    {
        let address: u64 = self.address;
        let merged: u64 = if high {
            proof {
                assert(((address & 0xffff_ffff) | ((dword as u64) << 32)) == address % 0x1_0000_0000
                    + dword * 0x1_0000_0000) by (bit_vector);
            }
            (address & 0xffff_ffff) | ((dword as u64) << 32)
        } else {
            proof {
                assert(((address & !0xffff_ffffu64) | ((dword & 0xffff_fff0) as u64)) == address
                    / 0x1_0000_0000 * 0x1_0000_0000 + dword / 16 * 16) by (bit_vector);
            }
            (address & !0xffff_ffffu64) | ((dword & 0xffff_fff0) as u64)
        };
        proof {
            bits::lemma_masks(merged, self.plan.size);
            let m = merged as int;
            let s = self.plan.size as int;
            assert((m - m % s) % s == 0) by (nonlinear_arith)
                requires
                    s >= 1,
                    m >= 0,
            ;
        }
        merged & !(self.plan.size - 1)
    }

    /// Ends a relocation write: clears the probe latch of its dword, and moves
    /// the decode if the address was accepted.
    pub fn finish_relocation(&mut self, high: bool, accepted: Option<u64>)
        ensures
            *final(self) == old(self).relocated(high, accepted),
    {
        self.clear_probe(high);
        match accepted {
            Some(address) => {
                self.address = address;
            },
            None => {},
        }
    }

    /// The state after a relocation write.
    pub open spec fn relocated(self, high: bool, accepted: Option<u64>) -> BarState {
        BarState {
            plan: self.plan,
            address: match accepted {
                Some(address) => address,
                None => self.address,
            },
            probe_low: high && self.probe_low,
            probe_high: !high && self.probe_high,
        }
    }

    /// Returns to the planned address without probe latches.
    pub fn reset(&mut self)
        ensures
            *final(self) == (BarState {
                plan: old(self).plan,
                address: old(self).plan.address,
                probe_low: false,
                probe_high: false,
            }),
    {
        self.address = self.plan.address;
        self.probe_low = false;
        self.probe_high = false;
    }

    /// Returns the attribute bits.
    pub fn attributes(&self) -> (attributes: u32)
        ensures
            attributes == self.plan.attributes(),
            attributes < 16,
    {
        bar_attributes(self.plan.width, self.plan.prefetchable)
    }

    /// Returns the decode policy.
    pub fn decode_policy(&self) -> (policy: PciBarDecodePolicy)
        ensures
            policy == self.plan.policy,
    {
        self.plan.policy
    }

    /// Returns the planned base that this BAR resets to.
    pub fn planned_address(&self) -> (address: u64)
        ensures
            address == self.plan.address,
    {
        self.plan.address
    }

    fn mask_low(&self) -> (mask: u32)
        requires
            self.plan.wf(),
        ensures
            mask == self.probe_response(false),
    {
        let size: u64 = self.plan.size;
        let attributes: u32 = self.attributes();
        proof {
            lemma_size_is_multiple_of_sixteen(size);
            lemma_complement(size);
            let mask = !((size - 1) as u64);
            assert(((mask as u32 & 0xffff_fff0) | attributes) == mask % 0x1_0000_0000 + attributes)
                by (bit_vector)
                requires
                    mask % 16 == 0,
                    attributes < 16,
            ;
        }
        (!(size - 1) as u32 & 0xffff_fff0) | attributes
    }

    fn mask_high(&self) -> (mask: u32)
        requires
            self.plan.wf(),
        ensures
            mask == self.probe_response(true),
    {
        let size: u64 = self.plan.size;
        match self.plan.width {
            PciMemoryBarWidth::Bits32 => 0,
            PciMemoryBarWidth::Bits64 => {
                proof {
                    lemma_complement(size);
                    let mask = !((size - 1) as u64);
                    assert((mask >> 32) as u32 == mask / 0x1_0000_0000) by (bit_vector);
                }
                (!(size - 1) >> 32) as u32
            },
        }
    }
}

proof fn lemma_complement(size: u64)
    requires
        size >= 1,
    ensures
        !((size - 1) as u64) == size_mask(size),
{
    let less = (size - 1) as u64;
    assert(!less == 0xffff_ffff_ffff_ffffu64 - less) by (bit_vector);
}

pub proof fn lemma_size_is_multiple_of_sixteen(size: u64)
    requires
        size >= 16,
        bits::is_power_of_two(size),
    ensures
        size % 16 == 0,
{
    let exponent = choose|exponent: nat| size == #[trigger] vstd::arithmetic::power2::pow2(exponent);
    vstd::arithmetic::power2::lemma2_to64();
    if exponent < 4 {
        vstd::arithmetic::power2::lemma_pow2_strictly_increases(exponent, 4);
    }
    vstd::arithmetic::power2::lemma_pow2_adds(4, (exponent - 4) as nat);
    let rest = vstd::arithmetic::power2::pow2((exponent - 4) as nat);
    assert(size == 16 * rest);
}

fn invalid_bar(index: PciBarIndex, detail: &str) -> (error: PciError)
    ensures
        error@ == (PciErrorView::InvalidBar { bar: index, detail: detail@ }),
{
    PciError::InvalidBar { bar: index, detail: text::text_of(detail) }
}

/// Attribute bits never change: whatever the guest wrote, the low register of
/// a BAR ends in the attribute bits of its plan.
pub proof fn law_attributes_survive(bar: BarState)
    requires
        bar.wf(),
    ensures
        bar.visible(false) % 16 == bar.plan.attributes(),
{
    lemma_size_is_multiple_of_sixteen(bar.plan.size);
    let mask = size_mask(bar.plan.size);
    assert(mask % 16 == 0);
    assert(mask % 0x1_0000_0000 % 16 == 0);
}

/// A relocation write touches only the probe latch of its own dword, and one
/// that is not accepted leaves the decoded address alone.
pub proof fn law_rejected_relocation_keeps_the_address(bar: BarState, high: bool)
    ensures
        bar.relocated(high, None).address == bar.address,
        bar.relocated(high, None).visible(high) == bar.committed(high),
        bar.relocated(high, None).visible(!high) == bar.visible(!high),
{
}

/// A BAR can exist exactly when its size is a power of two from 16 on, at most 4 GiB
/// for a 32-bit BAR, and a 64-bit BAR has a register behind its first; such a BAR of
/// one of the six registers is sound. What is reported is the first that fails.
pub proof fn law_bar_shapes(index: PciBarIndex, size: u64, width: PciMemoryBarWidth)
    requires
        index.0 < 6,
    ensures
        ({
            let fault = bar_shape_fault(index, size, width);
            let power = size >= 16 && bits::is_power_of_two(size);
            let fits = width == PciMemoryBarWidth::Bits32 ==> size <= 0x1_0000_0000;
            let paired = width == PciMemoryBarWidth::Bits64 ==> index.0 <= 4;
            &&& fault is None <==> power && fits && paired
            &&& fault is None <==> bar_shape_ok(index, size, width)
            &&& !power ==> fault == Some("size must be a power of two of at least 16 bytes"@)
            &&& power && !fits ==> fault == Some("32-bit BAR size exceeds 4 GiB"@)
            &&& power && fits && !paired ==> fault == Some(
                "64-bit BAR requires a following BAR slot"@,
            )
        }),
{
}

/// A BAR can decode exactly at the multiples of its size from which it ends inside
/// the address space, which for a 32-bit BAR ends at 4 GiB.
pub proof fn law_decodable_addresses(address: u64, size: u64, width: PciMemoryBarWidth)
    requires
        size > 0,
    ensures
        decodable(address, size, width) <==> address % size == 0 && address + size <= u64::MAX && (
        width == PciMemoryBarWidth::Bits32 ==> address + size <= 0x1_0000_0000),
{
}

} // verus!
