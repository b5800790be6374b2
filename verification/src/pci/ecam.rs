//! ECAM host frontend: window validation, address decoding, and delegation.
//!
//! The ECAM device owns and reports only its own 1 MiB window. It decodes an
//! access into a bus-0 function plus config offset, applies the ECAM-specific
//! width and alignment rules, and delegates the already-typed access to the
//! shared [`PciRootState`]. Host window invariants are checked once by
//! [`validate_host_windows`] before any runtime device is published.

use crate::device::{AccessWidth, BusKind, DeviceAccess, DeviceError, DeviceErrorView, DeviceResult, Resource, FOUR_GIB};
use crate::pci::address;
use crate::pci::address::{ConfigOffset, PciBdf, PciSegment};
use crate::pci::error::{PciError, PciErrorView, PciResult};
use crate::pci::root;
use crate::pci::root::{PciConfigWriteEffect, PciRootState};
use std::ops::Range;
use vstd::prelude::*;

verus! {

/// Size of a segment-0, bus-0 ECAM window.
pub const ECAM_SIZE: u64 = 0x10_0000;

/// What is wrong with an ECAM window and a memory aperture, if anything.
pub open spec fn host_windows_fault(ecam: Range<u64>, aperture: Range<u64>) -> Option<Seq<char>> {
    if ecam.start % ECAM_SIZE != 0 {
        Some("ECAM base is not 1 MiB aligned"@)
    } else if ecam.start + ECAM_SIZE != ecam.end {
        Some("ECAM window must be exactly 1 MiB"@)
    } else if aperture.start >= aperture.end {
        Some("memory aperture is empty"@)
    } else if aperture.end > FOUR_GIB {
        Some("memory aperture extends above 4 GiB"@)
    } else if ecam.start < aperture.end && aperture.start < ecam.end {
        Some("ECAM and memory aperture overlap"@)
    } else {
        None
    }
}

/// Validates one resolved ECAM window against one PCI memory aperture.
///
/// The ECAM window must be a 1 MiB-aligned range of exactly 1 MiB, the aperture
/// must not be empty nor extend above 4 GiB, and the two must not overlap.
pub fn validate_host_windows(ecam: Range<u64>, aperture: Range<u64>) -> (result: PciResult)
    ensures
        match result {
            Ok(()) => host_windows_fault(ecam, aperture) is None,
            Err(error) => host_windows_fault(ecam, aperture) matches Some(detail) && error@ == (
            PciErrorView::InvalidHostAperture { detail }),
        },
{
    let start: u64 = ecam.start;
    proof {
        assert(start & 0xf_ffff == start % 0x10_0000) by (bit_vector);
    }
    if start & (ECAM_SIZE - 1) != 0 {
        return Err(invalid_host("ECAM base is not 1 MiB aligned"));
    }
    let exact = match start.checked_add(ECAM_SIZE) {
        Some(end) => end == ecam.end,
        None => false,
    };
    if !exact {
        return Err(invalid_host("ECAM window must be exactly 1 MiB"));
    }
    if aperture.start >= aperture.end {
        return Err(invalid_host("memory aperture is empty"));
    }
    if aperture.end > FOUR_GIB {
        return Err(invalid_host("memory aperture extends above 4 GiB"));
    }
    if ecam.start < aperture.end && aperture.start < ecam.end {
        return Err(invalid_host("ECAM and memory aperture overlap"));
    }
    Ok(())
}

/// Segment-0, bus-0 virtual PCI ECAM config frontend.
#[derive(Debug)]
pub struct PciEcamDevice {
    pub window: Range<u64>,
}

/// The bus-0 function whose config space holds a window offset.
pub open spec fn decoded_bdf(relative: int) -> PciBdf {
    PciBdf {
        segment: PciSegment(0),
        bus: 0,
        device: (relative / 0x8000 % 32) as u8,
        function: (relative / 0x1000 % 8) as u8,
    }
}

/// The offset in that function's config space.
pub open spec fn decoded_offset(relative: int) -> ConfigOffset {
    ConfigOffset((relative % 0x1000) as u16)
}

/// Why an access to the window fails, if it does.
pub open spec fn ecam_fault(window: Range<u64>, access: DeviceAccess) -> Option<DeviceErrorView> {
    let offset = decoded_offset(access.address - window.start);
    if access.bus != BusKind::Mmio || !root::covers(window, access) {
        Some(DeviceErrorView::OutOfRange { addr: access.address })
    } else {
        match offset.access_fault(access.width) {
            Some(detail) => Some(
                DeviceErrorView::InvalidInput {
                    operation: "access PCI configuration space"@,
                    detail: (PciErrorView::InvalidConfigAccess {
                        offset: offset.0,
                        width: access.width,
                        detail,
                    }).message(),
                },
            ),
            None => None,
        }
    }
}

impl PciEcamDevice {
    /// Creates the ECAM frontend for one resolved 1 MiB window.
    pub fn new(window: Range<u64>) -> (device: Self)
        ensures
            device.window == window,
    {
        PciEcamDevice { window }
    }

    /// Returns the name of the device.
    pub fn name(&self) -> (name: &'static str)
        ensures
            name@ == "pci-ecam"@,
    {
        "pci-ecam"
    }

    /// Returns the one range that the device occupies.
    pub fn resources(&self) -> (resources: Vec<Resource>)
        ensures
            resources@ == seq![Resource::MmioRange { base: self.window.start, size: ECAM_SIZE }],
    {
        let mut resources: Vec<Resource> = Vec::new();
        resources.push(Resource::MmioRange { base: self.window.start, size: ECAM_SIZE });
        resources
    }

    /// Decodes an access to the window into its function, config offset and
    /// size.
    fn target(&self, access: &DeviceAccess) -> (target: DeviceResult<(PciBdf, usize, usize)>)
        ensures
            match target {
                Ok((bdf, offset, size)) => {
                    let relative = access.address - self.window.start;
                    &&& ecam_fault(self.window, *access) is None
                    &&& bdf == decoded_bdf(relative)
                    &&& offset == decoded_offset(relative).0
                    &&& size == access.width.bytes()
                    &&& root::direct_fault(offset, size) is None
                    &&& offset as int % 4 + size <= 4
                },
                Err(error) => ecam_fault(self.window, *access) == Some(error@),
            },
    {
        match root::ensure_mmio_access(access) {
            Ok(()) => {},
            Err(error) => {
                return Err(error);
            },
        }
        if !root::contains_access(&self.window, access) {
            return Err(DeviceError::OutOfRange { addr: access.address });
        }
        let relative: u64 = access.address - self.window.start;
        let (bdf, offset) = address::decode_ecam_offset(relative);
        proof {
            lemma_decoding(relative as int, bdf, offset);
        }
        match offset.validate_access(access.width) {
            Ok(size) => {
                proof {
                    lemma_aligned_access(offset, access.width);
                }
                Ok((bdf, offset.value() as usize, size))
            },
            Err(error) => Err(config_access_error(error)),
        }
    }

    /// Reads one config access of the window.
    pub fn read(&self, root: &PciRootState, access: &DeviceAccess) -> (value: DeviceResult<u64>)
        requires
            root.wf(),
        ensures
            match value {
                Ok(value) => {
                    let relative = access.address - self.window.start;
                    &&& ecam_fault(self.window, *access) is None
                    &&& value == root::config_value(
                        root.states(),
                        decoded_bdf(relative),
                        decoded_offset(relative).0 as int,
                        access.width.bytes() as int,
                    )
                },
                Err(error) => ecam_fault(self.window, *access) == Some(error@),
            },
    {
        match self.target(access) {
            Ok((bdf, offset, size)) => match root.read_config(bdf, offset, size) {
                Ok(value) => Ok(value),
                Err(error) => Err(config_access_error(error)),
            },
            Err(error) => Err(error),
        }
    }

    /// Writes one config access of the window and reports the command
    /// transition, if any.
    pub fn write(&self, root: &mut PciRootState, access: &DeviceAccess, value: u64) -> (effect:
        DeviceResult<Option<PciConfigWriteEffect>>)
        requires
            old(root).wf(),
        ensures
            final(root).wf(),
            final(root).memory_aperture == old(root).memory_aperture,
            final(root).next_binding_generation == old(root).next_binding_generation,
            match effect {
                Ok(effect) => {
                    let relative = access.address - self.window.start;
                    &&& ecam_fault(self.window, *access) is None
                    &&& final(root).states() == root::config_written(
                        old(root).states(),
                        old(root).memory_aperture,
                        decoded_bdf(relative),
                        decoded_offset(relative).0 as int,
                        access.width.bytes() as int,
                        value as nat,
                    )
                    &&& effect == root::config_effect(
                        old(root).states(),
                        old(root).memory_aperture,
                        decoded_bdf(relative),
                        decoded_offset(relative).0 as int,
                        access.width.bytes() as int,
                        value as nat,
                    )
                },
                Err(error) => ecam_fault(self.window, *access) == Some(error@) && *final(root)
                    == *old(root),
            },
    {
        match self.target(access) {
            Ok((bdf, offset, size)) => match root.write_config_locked(bdf, offset, size, value) {
                Ok(effect) => Ok(effect),
                Err(error) => Err(config_access_error(error)),
            },
            Err(error) => Err(error),
        }
    }
}

/// A window offset is made of its device, function and register parts.
proof fn lemma_window_parts(relative: int)
    requires
        relative >= 0,
    ensures
        relative % 0x10_0000 == relative / 0x8000 % 32 * 0x8000 + relative / 0x1000 % 8 * 0x1000
            + relative % 0x1000,
{
    let pages = relative / 0x1000;
    assert(pages / 8 == relative / 0x8000);
    assert(relative / 0x8000 / 32 == relative / 0x10_0000);
}

/// The parts of a window offset are those that it decodes to.
proof fn lemma_decoding(relative: int, bdf: PciBdf, offset: ConfigOffset)
    requires
        relative >= 0,
        bdf.wf(),
        bdf.segment == PciSegment(0),
        bdf.bus == 0,
        offset.wf(),
        bdf.window_offset() + offset.0 == relative % 0x10_0000,
    ensures
        bdf == decoded_bdf(relative),
        offset == decoded_offset(relative),
{
    let expected = decoded_bdf(relative);
    lemma_window_parts(relative);
    address::law_ecam_offsets_identify_functions(
        bdf,
        offset,
        expected,
        decoded_offset(relative),
    );
}

/// An accepted access stays in its dword and in the config space.
proof fn lemma_aligned_access(offset: ConfigOffset, width: AccessWidth)
    requires
        offset.wf(),
        offset.access_fault(width) is None,
    ensures
        offset.0 as int % 4 + width.bytes() <= 4,
        offset.0 + width.bytes() <= address::CONFIG_SPACE_SIZE,
{
    address::law_aligned_accesses_stay_in_one_dword(offset, width);
}

fn invalid_host(detail: &'static str) -> (error: PciError)
    ensures
        error@ == (PciErrorView::InvalidHostAperture { detail: detail@ }),
{
    PciError::InvalidHostAperture { detail }
}

fn config_access_error(error: PciError) -> (mapped: DeviceError)
    ensures
        mapped@ == (DeviceErrorView::InvalidInput {
            operation: "access PCI configuration space"@,
            detail: error@.message(),
        }),
{
    DeviceError::InvalidInput {
        operation: "access PCI configuration space",
        detail: error.message(),
    }
}

/// An access that the window accepts reaches the function whose ECAM offset it
/// names: base plus function offset plus config offset decodes to exactly that
/// function and offset.
pub proof fn law_window_addresses_reach_their_function(
    bdf: PciBdf,
    offset: ConfigOffset,
    relative: int,
)
    requires
        bdf.wf(),
        offset.wf(),
        bdf.segment == PciSegment(0),
        bdf.bus == 0,
        relative == bdf.window_offset() + offset.0,
    ensures
        decoded_bdf(relative) == bdf,
        decoded_offset(relative) == offset,
{
}

/// An access outside the window, or of another bus, is out of range at its address;
/// one inside that the config space refuses is an invalid input.
pub proof fn law_window_faults_have_two_kinds(window: Range<u64>, access: DeviceAccess)
    ensures
        ({
            let inside = access.bus == BusKind::Mmio && window.start <= access.address
                && access.address + access.width.bytes() <= window.end;
            &&& !inside ==> ecam_fault(window, access) == Some(
                DeviceErrorView::OutOfRange { addr: access.address },
            )
            &&& inside && ecam_fault(window, access) is Some ==> ecam_fault(window, access)->0
                is InvalidInput
        }),
{
}

} // verus!
