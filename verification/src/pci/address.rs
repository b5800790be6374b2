//! Typed PCI function, BAR, and config-space addresses.

use crate::device::AccessWidth;
use crate::pci::error::{PciError, PciErrorView, PciResult};
use crate::text;
use vstd::prelude::*;
use vstd::string::StringExecFns;

verus! {

/// Size of one PCIe function's config space.
pub const CONFIG_SPACE_SIZE: usize = 0x1000;

/// Highest device number on one bus.
pub const MAX_DEVICE: u8 = 31;

/// Highest function number of one device.
pub const MAX_FUNCTION: u8 = 7;

/// One PCI segment number.
#[derive(Clone, Copy, Debug, PartialEq, Eq, PartialOrd, Ord, Structural)]
pub struct PciSegment(pub u16);

impl PciSegment {
    /// Creates a segment number.
    pub fn new(value: u16) -> (segment: Self)
        ensures
            segment == PciSegment(value),
    {
        PciSegment(value)
    }

    /// Returns the numeric segment.
    pub fn value(self) -> (value: u16)
        ensures
            value == self.0,
    {
        self.0
    }
}

impl Default for PciSegment {
    fn default() -> (segment: Self)
        ensures
            segment == PciSegment(0),
    {
        PciSegment(0)
    }
}

/// A PCI segment:bus:device.function address.
#[derive(Clone, Copy, Debug, PartialEq, Eq, PartialOrd, Ord, Structural)]
pub struct PciBdf {
    pub segment: PciSegment,
    pub bus: u8,
    pub device: u8,
    pub function: u8,
}

impl PciBdf {
    /// The device and function numbers exist on a bus.
    pub open spec fn wf(self) -> bool {
        self.device < 32 && self.function < 8
    }

    /// Position of the address in segment, bus, device and function order.
    pub open spec fn rank(self) -> int {
        ((self.segment.0 * 256 + self.bus) * 256 + self.device) * 256 + self.function
    }

    /// The address as written in diagnostics.
    pub open spec fn text(self) -> Seq<char> {
        text::padded_hex_text(self.segment.0 as nat, 4) + ":"@ + text::padded_hex_text(self.bus as nat, 2)
            + ":"@ + text::padded_hex_text(self.device as nat, 2) + "."@ + text::dec_text(self.function as nat)
    }

    /// Creates a BDF after validating device and function fields.
    pub fn new(segment: PciSegment, bus: u8, device: u8, function: u8) -> (bdf: PciResult<Self>)
        ensures
            match bdf {
                Ok(bdf) => device < 32 && function < 8 && bdf == (PciBdf {
                    segment,
                    bus,
                    device,
                    function,
                }),
                Err(error) => if device >= 32 {
                    error@ == (PciErrorView::InvalidAddress {
                        component: "device"@,
                        value: device as u64,
                    })
                } else {
                    function >= 8 && error@ == (PciErrorView::InvalidAddress {
                        component: "function"@,
                        value: function as u64,
                    })
                },
            },
    {
        if device > MAX_DEVICE {
            return Err(PciError::InvalidAddress { component: "device", value: device as u64 });
        }
        if function > MAX_FUNCTION {
            return Err(PciError::InvalidAddress { component: "function", value: function as u64 });
        }
        Ok(PciBdf { segment, bus, device, function })
    }

    /// Returns the segment.
    pub fn segment(self) -> (segment: PciSegment)
        ensures
            segment == self.segment,
    {
        self.segment
    }

    /// Returns the bus number.
    pub fn bus(self) -> (bus: u8)
        ensures
            bus == self.bus,
    {
        self.bus
    }

    /// Returns the device number.
    pub fn device(self) -> (device: u8)
        ensures
            device == self.device,
    {
        self.device
    }

    /// Returns the function number.
    pub fn function(self) -> (function: u8)
        ensures
            function == self.function,
    {
        self.function
    }

    /// Offset of this function's config space in a conventional ECAM window.
    pub open spec fn window_offset(self) -> int {
        self.bus * 0x10_0000 + self.device * 0x8000 + self.function * 0x1000
    }

    /// Returns this function's offset in a conventional ECAM window.
    pub fn ecam_offset(self) -> (offset: u64)
        requires
            self.wf(),
        ensures
            offset == self.window_offset(),
    {
        let bus: u64 = self.bus as u64;
        let device: u64 = self.device as u64;
        let function: u64 = self.function as u64;
        proof {
            assert(((bus << 20) | (device << 15) | (function << 12)) == bus * 0x10_0000 + device
                * 0x8000 + function * 0x1000) by (bit_vector)
                requires
                    bus < 256,
                    device < 32,
                    function < 8,
            ;
        }
        (bus << 20) | (device << 15) | (function << 12)
    }

    /// Returns the bus-0 function with the given combined device and function
    /// number; bits above the low eight are ignored.
    pub fn bus_zero(devfn: u16) -> (bdf: Self)
        ensures
            bdf.wf(),
            bdf.segment == PciSegment(0),
            bdf.bus == 0,
            bdf.device == devfn as int / 8 % 32,
            bdf.function == devfn % 8,
    {
        proof {
            assert((devfn >> 3) & 0x1f == devfn / 8 % 32) by (bit_vector);
            assert(devfn & 0x7 == devfn % 8) by (bit_vector);
        }
        PciBdf {
            segment: PciSegment(0),
            bus: 0,
            device: ((devfn >> 3) & 0x1f) as u8,
            function: (devfn & 0x7) as u8,
        }
    }

    /// Tells whether this address comes before `other`.
    pub fn precedes(self, other: PciBdf) -> (less: bool)
        ensures
            less == (self.rank() < other.rank()),
    {
        if self.segment.0 != other.segment.0 {
            return self.segment.0 < other.segment.0;
        }
        if self.bus != other.bus {
            return self.bus < other.bus;
        }
        if self.device != other.device {
            return self.device < other.device;
        }
        self.function < other.function
    }

    /// Appends the address as written in diagnostics.
    pub fn push_text(&self, out: &mut String)
        ensures
            final(out)@ == old(out)@ + self.text(),
    {
        text::push_padded_hex(out, self.segment.0 as u64, 4);
        out.append(":");
        text::push_padded_hex(out, self.bus as u64, 2);
        out.append(":");
        text::push_padded_hex(out, self.device as u64, 2);
        out.append(".");
        text::push_dec(out, self.function as u64);
        assert(out@ =~= old(out)@ + self.text());
    }

    /// Returns the address as written in diagnostics.
    pub fn to_text(&self) -> (text: String)
        ensures
            text@ == self.text(),
    {
        let mut out = String::new();
        self.push_text(&mut out);
        assert(out@ =~= self.text());
        out
    }
}

/// Two addresses with the same rank are the same address.
pub proof fn lemma_rank_is_injective(left: PciBdf, right: PciBdf)
    requires
        left.rank() == right.rank(),
    ensures
        left == right,
{
}

/// A Type-0 BAR index.
#[derive(Clone, Copy, Debug, PartialEq, Eq, PartialOrd, Ord, Structural)]
pub struct PciBarIndex(pub u8);

impl PciBarIndex {
    /// The index names one of the six BAR registers.
    pub open spec fn wf(self) -> bool {
        self.0 < 6
    }

    /// Creates a BAR index in `0..=5`.
    pub fn new(value: u8) -> (index: PciResult<Self>)
        ensures
            match index {
                Ok(index) => value < 6 && index == PciBarIndex(value),
                Err(error) => value >= 6 && error@ == (PciErrorView::InvalidAddress {
                    component: "BAR index"@,
                    value: value as u64,
                }),
            },
    {
        if value >= 6 {
            return Err(PciError::InvalidAddress { component: "BAR index", value: value as u64 });
        }
        Ok(PciBarIndex(value))
    }

    /// Returns the numeric BAR index.
    pub fn value(self) -> (value: u8)
        ensures
            value == self.0,
    {
        self.0
    }

    /// Returns the config-space offset of the BAR register.
    pub fn config_offset(self) -> (offset: u16)
        ensures
            offset == 0x10 + 4 * self.0,
    {
        0x10 + self.0 as u16 * 4
    }
}

/// A byte offset in one 4 KiB PCIe function config space.
#[derive(Clone, Copy, Debug, PartialEq, Eq, PartialOrd, Ord, Structural)]
pub struct ConfigOffset(pub u16);

impl ConfigOffset {
    /// The offset lies in one function's config space.
    pub open spec fn wf(self) -> bool {
        self.0 < CONFIG_SPACE_SIZE
    }

    /// Creates a config-space offset below 4 KiB.
    pub fn new(value: u16) -> (offset: PciResult<Self>)
        ensures
            match offset {
                Ok(offset) => value < 0x1000 && offset == ConfigOffset(value),
                Err(error) => value >= 0x1000 && error@ == (PciErrorView::InvalidAddress {
                    component: "config offset"@,
                    value: value as u64,
                }),
            },
    {
        if value as usize >= CONFIG_SPACE_SIZE {
            return Err(PciError::InvalidAddress { component: "config offset", value: value as u64 });
        }
        Ok(ConfigOffset(value))
    }

    /// Returns the numeric byte offset.
    pub fn value(self) -> (value: u16)
        ensures
            value == self.0,
    {
        self.0
    }

    /// What is wrong with an access of `width` at this offset, if anything.
    ///
    /// An access that is no wider than 32 bits and naturally aligned never
    /// leaves its config DWORD, and so never the config space either.
    pub open spec fn access_fault(self, width: AccessWidth) -> Option<Seq<char>> {
        if width == AccessWidth::Qword {
            Some("config accesses are limited to 32 bits"@)
        } else if self.0 as int % width.bytes() as int != 0 {
            Some("access is not naturally aligned"@)
        } else if self.0 + width.bytes() > CONFIG_SPACE_SIZE {
            Some("access crosses the function config-space boundary"@)
        } else {
            None
        }
    }

    /// Checks one config access and returns its size in bytes.
    pub fn validate_access(self, width: AccessWidth) -> (size: PciResult<usize>)
        ensures
            match size {
                Ok(size) => self.access_fault(width) is None && size == width.bytes(),
                Err(error) => self.access_fault(width) is Some && error@ == (
                PciErrorView::InvalidConfigAccess {
                    offset: self.0,
                    width,
                    detail: self.access_fault(width)->0,
                }),
            },
    {
        let size: usize = match width {
            AccessWidth::Byte | AccessWidth::Word | AccessWidth::Dword => width.size(),
            AccessWidth::Qword => {
                return Err(
                    PciError::InvalidConfigAccess {
                        offset: self.0,
                        width,
                        detail: "config accesses are limited to 32 bits",
                    },
                );
            },
        };
        let offset: usize = self.0 as usize;
        if offset % size != 0 {
            return Err(
                PciError::InvalidConfigAccess {
                    offset: self.0,
                    width,
                    detail: "access is not naturally aligned",
                },
            );
        }
        let end: usize = offset + size;
        if end > CONFIG_SPACE_SIZE {
            return Err(
                PciError::InvalidConfigAccess {
                    offset: self.0,
                    width,
                    detail: "access crosses the function config-space boundary",
                },
            );
        }
        let first_dword: usize = offset / 4;
        let last_dword: usize = (end - 1) / 4;
        if first_dword != last_dword {
            return Err(
                PciError::InvalidConfigAccess {
                    offset: self.0,
                    width,
                    detail: "access crosses a config DWORD boundary",
                },
            );
        }
        Ok(size)
    }
}

/// Splits a relative conventional-ECAM window offset into the addressed bus-0
/// function and its in-function config offset.
pub fn decode_ecam_offset(relative: u64) -> (target: (PciBdf, ConfigOffset))
    ensures
        target.0.wf(),
        target.0.segment == PciSegment(0),
        target.0.bus == 0,
        target.1.wf(),
        target.0.window_offset() + target.1.0 == relative % 0x10_0000,
{
    proof {
        assert((relative >> 12) & 0xff == relative / 0x1000 % 0x100) by (bit_vector);
        assert(relative & 0xfff == relative % 0x1000) by (bit_vector);
    }
    let bdf = PciBdf::bus_zero(((relative >> 12) & 0xff) as u16);
    let offset = ConfigOffset((relative & 0xfff) as u16);
    (bdf, offset)
}

/// Decoding inverts encoding: the window offset of a bus-0 function plus a
/// config offset determines both.
pub proof fn law_ecam_offsets_identify_functions(
    left: PciBdf,
    left_offset: ConfigOffset,
    right: PciBdf,
    right_offset: ConfigOffset,
)
    requires
        left.wf(),
        right.wf(),
        left_offset.wf(),
        right_offset.wf(),
        left.segment == right.segment,
        left.window_offset() + left_offset.0 == right.window_offset() + right_offset.0,
    ensures
        left == right,
        left_offset == right_offset,
{
}

/// Every naturally aligned access of at most 32 bits inside the config space is
/// accepted, and it stays within one config DWORD.
pub proof fn law_aligned_accesses_stay_in_one_dword(offset: ConfigOffset, width: AccessWidth)
    requires
        offset.wf(),
        width != AccessWidth::Qword,
        offset.0 as int % width.bytes() as int == 0,
    ensures
        offset.access_fault(width) is None,
        offset.0 as int / 4 == (offset.0 + width.bytes() - 1) / 4,
{
}

/// Addresses are ordered by segment, then bus, then device, then function, and two
/// addresses of the same rank are the same.
pub proof fn law_addresses_are_ordered_by_their_parts(left: PciBdf, right: PciBdf)
    ensures
        left.rank() < right.rank() <==> {
            ||| left.segment.0 < right.segment.0
            ||| left.segment.0 == right.segment.0 && left.bus < right.bus
            ||| left.segment.0 == right.segment.0 && left.bus == right.bus && left.device
                < right.device
            ||| left.segment.0 == right.segment.0 && left.bus == right.bus && left.device
                == right.device && left.function < right.function
        },
        left.rank() == right.rank() ==> left == right,
{
}

/// An access is refused exactly when it is wider than 32 bits, not aligned to its
/// width, or leaves the 4 KiB of the config space, and for the first of these.
pub proof fn law_config_accesses_are_aligned(offset: ConfigOffset, width: AccessWidth)
    ensures
        ({
            let size: int = match width {
                AccessWidth::Byte => 1,
                AccessWidth::Word => 2,
                AccessWidth::Dword => 4,
                AccessWidth::Qword => 8,
            };
            let fault = offset.access_fault(width);
            &&& fault is None <==> size <= 4 && offset.0 as int % size == 0 && offset.0 + size
                <= 0x1000
            &&& size == 8 ==> fault == Some("config accesses are limited to 32 bits"@)
            &&& size <= 4 && offset.0 as int % size != 0 ==> fault == Some(
                "access is not naturally aligned"@,
            )
            &&& size <= 4 && offset.0 as int % size == 0 && offset.0 + size > 0x1000 ==> fault
                == Some("access crosses the function config-space boundary"@)
        }),
{
}

/// An address is written as four hexadecimal digits of segment, two of bus, two of
/// device and one of function, with colons and a dot between them.
pub proof fn law_addresses_are_written_in_hexadecimal(bdf: PciBdf)
    requires
        bdf.wf(),
    ensures
        ({
            let text = bdf.text();
            &&& text.len() == 12
            &&& text[4] == ':'
            &&& text[7] == ':'
            &&& text[10] == '.'
            &&& text::number_in(text.take(4), 16) == bdf.segment.0
            &&& text::number_in(text.subrange(5, 7), 16) == bdf.bus
            &&& text::number_in(text.subrange(8, 10), 16) == bdf.device
            &&& text::number_in(text.skip(11), 10) == bdf.function
        }),
{
    let segment = text::padded_hex_text(bdf.segment.0 as nat, 4);
    let bus = text::padded_hex_text(bdf.bus as nat, 2);
    let device = text::padded_hex_text(bdf.device as nat, 2);
    let function = text::dec_text(bdf.function as nat);
    text::law_number_texts_spell_their_number(bdf.segment.0 as nat, 4);
    text::law_number_texts_spell_their_number(bdf.bus as nat, 2);
    text::law_number_texts_spell_their_number(bdf.device as nat, 2);
    text::law_number_texts_spell_their_number(bdf.function as nat, 0);
    text::law_written_numbers_are_read_back(bdf.function as nat, 10);
    text::lemma_padded_length(bdf.segment.0 as nat, 4);
    text::lemma_padded_length(bdf.bus as nat, 2);
    text::lemma_padded_length(bdf.device as nat, 2);
    reveal_strlit(":");
    reveal_strlit(".");
    let text = bdf.text();
    assert(text.take(4) =~= segment);
    assert(text.subrange(5, 7) =~= bus);
    assert(text.subrange(8, 10) =~= device);
    assert(text.skip(11) =~= function);
}

} // verus!
