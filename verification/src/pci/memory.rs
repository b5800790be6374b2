//! PCI memory aperture frontend delegating BAR accesses to the root state.
//!
//! The device owns and reports the whole CPU-visible PCI memory aperture
//! resource. It holds no config state of its own: every access is resolved
//! against the shared [`PciRootState`], and whoever dispatches the access calls
//! the endpoint handler after the root is released. This device is also the
//! single lifecycle owner, so a runtime reset restores the root exactly once
//! even though the ECAM frontend shares the same state.

use crate::device::{BusKind, DeviceAccess, DeviceError, DeviceErrorView, DeviceManagerError, DeviceManagerErrorView, DeviceManagerResult, DeviceResult, Resource};
use crate::pci::root;
use crate::pci::root::{BarRoute, PciRootState};
use std::ops::Range;
use vstd::prelude::*;

verus! {

/// The CPU-visible PCI memory aperture.
#[derive(Debug)]
pub struct PciMemoryApertureDevice {
    pub aperture: Range<u64>,
}

impl PciMemoryApertureDevice {
    /// Creates the aperture frontend for one resolved PCI memory window.
    pub fn new(aperture: Range<u64>) -> (device: Self)
        ensures
            device.aperture == aperture,
    {
        PciMemoryApertureDevice { aperture }
    }

    /// Returns the name of the device.
    pub fn name(&self) -> (name: &'static str)
        ensures
            name@ == "pci-memory-aperture"@,
    {
        "pci-memory-aperture"
    }

    /// Returns the one range that the device occupies.
    pub fn resources(&self) -> (resources: Vec<Resource>)
        requires
            self.aperture.start <= self.aperture.end,
        ensures
            resources@ == seq![
                Resource::MmioRange {
                    base: self.aperture.start,
                    size: (self.aperture.end - self.aperture.start) as u64,
                },
            ],
    {
        let mut resources: Vec<Resource> = Vec::new();
        resources.push(
            Resource::MmioRange {
                base: self.aperture.start,
                size: self.aperture.end - self.aperture.start,
            },
        );
        resources
    }

    /// Finds the handler behind one access to the aperture.
    ///
    /// An access outside the aperture is out of range; one inside that no
    /// enabled and bound BAR covers finds nothing.
    pub fn route(&self, root: &PciRootState, access: &DeviceAccess) -> (route: DeviceResult<
        BarRoute,
    >)
        requires
            root.wf(),
        ensures
            match route {
                Ok(route) => {
                    &&& access.bus == BusKind::Mmio
                    &&& root::covers(self.aperture, *access)
                    &&& exists|k: int, b: int| #[trigger]
                        root::answers(root.states(), k, b, *access) && route == root::route_to(
                            root.states(),
                            k,
                            b,
                            *access,
                        )
                },
                Err(error) => if access.bus != BusKind::Mmio || !root::covers(
                    self.aperture,
                    *access,
                ) {
                    error@ == (DeviceErrorView::OutOfRange { addr: access.address })
                } else {
                    &&& error@ == DeviceErrorView::NotFound
                    &&& forall|k: int, b: int| !#[trigger]
                        root::answers(root.states(), k, b, *access)
                },
            },
    {
        match root::ensure_mmio_access(access) {
            Ok(()) => {},
            Err(error) => {
                return Err(error);
            },
        }
        if !root::contains_access(&self.aperture, access) {
            return Err(DeviceError::OutOfRange { addr: access.address });
        }
        match root.resolve_bar(access) {
            Some(route) => Ok(route),
            None => Err(DeviceError::NotFound),
        }
    }
}

/// The first failure among the outcomes from `from` on.
pub open spec fn first_failure(outcomes: Seq<DeviceResult>, from: int) -> Option<DeviceErrorView>
    decreases outcomes.len() - from,
{
    if from < 0 || from >= outcomes.len() {
        None
    } else {
        match outcomes[from] {
            Err(error) => Some(error@),
            Ok(()) => first_failure(outcomes, from + 1),
        }
    }
}

/// Collects the outcomes of all endpoint resets.
///
/// Every endpoint is reset whatever the others answered; the first failure is
/// the outcome of the whole reset.
pub fn reset_outcome(outcomes: Vec<DeviceResult>) -> (result: DeviceManagerResult)
    ensures
        match result {
            Ok(()) => first_failure(outcomes@, 0) is None,
            Err(error) => first_failure(outcomes@, 0) matches Some(first) && error@
                == DeviceManagerErrorView::Device(first),
        },
{
    let ghost all = outcomes@;
    let mut rest: Vec<DeviceResult> = outcomes;
    let mut first_error: Option<DeviceError> = None;
    while rest.len() > 0
        invariant
            rest@.len() <= all.len(),
            rest@ == all.take(rest@.len() as int),
            match first_error {
                Some(error) => first_failure(all, rest@.len() as int) == Some(error@),
                None => first_failure(all, rest@.len() as int) is None,
            },
        decreases rest@.len(),
    {
        if let Some(outcome) = rest.pop() {
            assert(outcome == all[rest@.len() as int]);
            if let Err(error) = outcome {
                first_error = Some(error);
            }
        }
    }
    match first_error {
        Some(error) => Err(DeviceManagerError::Device(error)),
        None => Ok(()),
    }
}

} // verus!
