//! Interrupt bindings of probed devices.
//!
//! What interrupt routing outside answers for a PCI endpoint is an argument
//! here. Network and USB controllers are named by number.

use crate::irq;
use crate::irq::{FdtInfo, IrqSource, IrqSourceView};
use crate::text;
use vstd::prelude::*;
use vstd::string::StringExecFns;

verus! {

/// What a probed device knows about its interrupt.
#[derive(Debug)]
pub struct BindingInfo {
    pub irq_source: Option<IrqSource>,
}

/// What probing knows about one PCI endpoint; the address is given as written
/// in diagnostics.
#[derive(Debug)]
pub struct PciInfo {
    pub address: String,
    pub interrupt_pin: u8,
    pub interrupt_line: u8,
}

/// What interrupt routing answers for one endpoint. A table that does not exist
/// or cannot be read answers `None`.
#[derive(Clone, Copy, Debug, PartialEq, Eq, Structural)]
pub struct PciIrqRoutes {
    /// Route of the pin in the ACPI tables.
    pub acpi: Option<usize>,
    /// Route of the pin in the device tree.
    pub fdt: Option<usize>,
    /// Route of the pin that a legacy host configured.
    pub legacy: Option<usize>,
    /// Number of the endpoint's interrupt line.
    pub line: usize,
}

/// The interrupt of an endpoint: its pin's route in the ACPI tables, in the
/// device tree, or of a legacy host, else its line, if it has one.
pub open spec fn pci_irq(info: PciInfo, routes: PciIrqRoutes) -> Option<usize> {
    if info.interrupt_pin != 0 && routes.acpi is Some {
        routes.acpi
    } else if info.interrupt_pin != 0 && routes.fdt is Some {
        routes.fdt
    } else if routes.legacy is Some {
        routes.legacy
    } else if info.interrupt_line == 0 || info.interrupt_line == u8::MAX {
        None
    } else {
        Some(routes.line)
    }
}

fn pci_irq_source(info: &PciInfo, routes: PciIrqRoutes) -> (source: Option<IrqSource>)
    ensures
        irq::optional_source(source) == match pci_irq(*info, routes) {
            Some(number) => Some(IrqSourceView::Number(number)),
            None => None,
        },
{
    if info.interrupt_pin != 0 {
        if let Some(number) = routes.acpi {
            return Some(IrqSource::Number(number));
        }
    }
    if info.interrupt_pin != 0 {
        if let Some(number) = routes.fdt {
            return Some(IrqSource::Number(number));
        }
    }
    if let Some(number) = routes.legacy {
        return Some(IrqSource::Number(number));
    }
    if info.interrupt_line == 0 || info.interrupt_line == u8::MAX {
        return None;
    }
    Some(IrqSource::Number(routes.line))
}

impl BindingInfo {
    /// The interrupt source.
    pub open spec fn source(self) -> Option<IrqSourceView> {
        irq::optional_source(self.irq_source)
    }

    /// Creates a binding without interrupt.
    pub fn empty() -> (info: Self)
        ensures
            info.irq_source is None,
    {
        BindingInfo { irq_source: None }
    }

    /// Binds the first interrupt of a device-tree node.
    pub fn from_fdt(info: &FdtInfo) -> (binding: Self)
        ensures
            binding.source() == if info.interrupts@.len() == 0 {
                None
            } else {
                irq::fdt_view(irq::source_of(*info, info.interrupts@[0]))
            },
    {
        BindingInfo::with_irq_source(irq::first_fdt_irq_source(info))
    }

    /// Binds the interrupt of a PCI endpoint, if it has one.
    pub fn from_pci_optional(info: PciInfo, routes: PciIrqRoutes) -> (binding: Self)
        ensures
            binding.source() == match pci_irq(info, routes) {
                Some(number) => Some(IrqSourceView::Number(number)),
                None => None,
            },
    {
        BindingInfo::with_irq_source(pci_irq_source(&info, routes))
    }

    /// Binds the interrupt of a PCI endpoint, which must have one.
    pub fn from_pci_required(info: PciInfo, routes: PciIrqRoutes) -> (binding: Result<Self, String>)
        ensures
            match binding {
                Ok(binding) => pci_irq(info, routes) matches Some(number) && binding.source()
                    == Some(IrqSourceView::Number(number)),
                Err(message) => pci_irq(info, routes) is None && message@
                    == "failed to resolve IRQ for PCI endpoint "@ + info.address@,
            },
    {
        match pci_irq_source(&info, routes) {
            Some(source) => Ok(BindingInfo::with_irq_source(Some(source))),
            None => {
                let mut message = text::text_of("failed to resolve IRQ for PCI endpoint ");
                message.append(info.address.as_str());
                Err(message)
            },
        }
    }

    /// Creates a binding with the given source.
    pub fn with_irq_source(irq_source: Option<IrqSource>) -> (info: Self)
        ensures
            info.irq_source == irq_source,
    {
        BindingInfo { irq_source }
    }

    /// Returns the source.
    pub fn irq_source(&self) -> (source: Option<&IrqSource>)
        ensures
            match source {
                Some(source) => self.irq_source == Some(*source),
                None => self.irq_source is None,
            },
    {
        match &self.irq_source {
            Some(source) => Some(source),
            None => None,
        }
    }

    /// Returns a copy of the source.
    pub fn irq_source_copy(&self) -> (source: Option<IrqSource>)
        ensures
            irq::optional_source(source) == self.source(),
    {
        match &self.irq_source {
            Some(source) => Some(source.clone()),
            None => None,
        }
    }

    /// Returns the number of a source that is one.
    pub fn irq_num(&self) -> (number: Option<usize>)
        ensures
            number == match self.source() {
                Some(IrqSourceView::Number(number)) => Some(number),
                _ => None,
            },
    {
        match &self.irq_source {
            Some(IrqSource::Number(number)) => Some(*number),
            _ => None,
        }
    }
}

// ---------------------------------------------------------------------------
// Network devices
// ---------------------------------------------------------------------------

/// A registered network device, whose controller can be taken once.
#[derive(Debug)]
pub struct PlatformNetDevice {
    pub name: &'static str,
    pub info: BindingInfo,
    pub net: Option<usize>,
}

/// A network controller with its name and interrupt.
#[derive(Debug)]
pub struct TakenNet {
    pub net: usize,
    pub name: &'static str,
    pub irq_source: Option<IrqSource>,
}

/// A network device cannot be taken.
#[derive(Clone, Copy, Debug, PartialEq, Eq, Structural)]
pub enum NetTakeError {
    /// Another user holds the device.
    Locked,
    /// The controller was taken before.
    AlreadyTaken,
}

impl NetTakeError {
    /// Returns the diagnostic text of the failure.
    pub fn message(self) -> (message: &'static str)
        ensures
            message@ == match self {
                NetTakeError::Locked => "device locked"@,
                NetTakeError::AlreadyTaken => "device already taken"@,
            },
    {
        match self {
            NetTakeError::Locked => "device locked",
            NetTakeError::AlreadyTaken => "device already taken",
        }
    }
}

impl PlatformNetDevice {
    /// Creates a device that holds its controller.
    pub fn new(name: &'static str, net: usize, info: BindingInfo) -> (device: Self)
        ensures
            device == (PlatformNetDevice { name, info, net: Some(net) }),
    {
        PlatformNetDevice { name, info, net: Some(net) }
    }

    /// Takes the controller out, if it is still there.
    pub fn take_net(&mut self) -> (taken: Option<TakenNet>)
        ensures
            final(self).name == old(self).name,
            final(self).info == old(self).info,
            final(self).net is None,
            match taken {
                Some(taken) => {
                    &&& old(self).net == Some(taken.net)
                    &&& taken.name == old(self).name
                    &&& irq::optional_source(taken.irq_source) == old(self).info.source()
                },
                None => old(self).net is None,
            },
    {
        match self.net {
            Some(net) => {
                self.net = None;
                Some(
                    TakenNet { net, name: self.name, irq_source: self.info.irq_source_copy() },
                )
            },
            None => None,
        }
    }

    /// Returns the name of the device.
    pub fn name(&self) -> (name: &'static str)
        ensures
            name == self.name,
    {
        self.name
    }
}

/// Creates the device of a probed network controller, and returns its interrupt
/// beside it.
pub fn register_net_with_info(name: &'static str, net: usize, info: BindingInfo) -> (registered: (
    PlatformNetDevice,
    Option<IrqSource>,
))
    ensures
        registered.0 == (PlatformNetDevice { name, info, net: Some(net) }),
        irq::optional_source(registered.1) == info.source(),
{
    let irq_source = info.irq_source_copy();
    (PlatformNetDevice::new(name, net, info), irq_source)
}

/// Takes the controller of a device; `locked` tells that another user holds the
/// device.
pub fn take_rd_net_device(device: &mut PlatformNetDevice, locked: bool) -> (taken: Result<
    TakenNet,
    NetTakeError,
>)
    ensures
        match taken {
            Ok(taken) => {
                &&& !locked
                &&& old(device).net == Some(taken.net)
                &&& taken.name == old(device).name
                &&& irq::optional_source(taken.irq_source) == old(device).info.source()
                &&& *final(device) == (PlatformNetDevice { net: None, ..*old(device) })
            },
            Err(NetTakeError::Locked) => locked && *final(device) == *old(device),
            Err(NetTakeError::AlreadyTaken) => !locked && old(device).net is None && *final(device)
                == *old(device),
        },
{
    if locked {
        return Err(NetTakeError::Locked);
    }
    match device.take_net() {
        Some(taken) => Ok(taken),
        None => Err(NetTakeError::AlreadyTaken),
    }
}

// ---------------------------------------------------------------------------
// USB hosts
// ---------------------------------------------------------------------------

/// A registered USB host controller; a stub has no controller behind it.
#[derive(Debug)]
pub struct PlatformUsbHost {
    pub name: &'static str,
    pub info: BindingInfo,
    pub host: Option<usize>,
}

impl PlatformUsbHost {
    /// Creates a host.
    pub fn new(name: &'static str, host: usize, info: BindingInfo) -> (device: Self)
        ensures
            device == (PlatformUsbHost { name, info, host: Some(host) }),
    {
        PlatformUsbHost { name, info, host: Some(host) }
    }

    /// Creates a host without controller.
    pub fn new_stub(name: &'static str, info: BindingInfo) -> (device: Self)
        ensures
            device == (PlatformUsbHost { name, info, host: None }),
    {
        PlatformUsbHost { name, info, host: None }
    }

    /// Returns the controller.
    pub fn host(&self) -> (host: Option<usize>)
        ensures
            host == self.host,
    {
        self.host
    }

    /// Returns the interrupt number, if the source is one.
    pub fn irq_num(&self) -> (number: Option<usize>)
        ensures
            number == match self.info.source() {
                Some(IrqSourceView::Number(number)) => Some(number),
                _ => None,
            },
    {
        self.info.irq_num()
    }

    /// Returns the interrupt source.
    pub fn irq_source(&self) -> (source: Option<&IrqSource>)
        ensures
            match source {
                Some(source) => self.info.irq_source == Some(*source),
                None => self.info.irq_source is None,
            },
    {
        self.info.irq_source()
    }

    /// Returns the binding.
    pub fn info(&self) -> (info: &BindingInfo)
        ensures
            *info == self.info,
    {
        &self.info
    }

    /// Returns the name of the device.
    pub fn name(&self) -> (name: &'static str)
        ensures
            name == self.name,
    {
        self.name
    }
}

/// Creates the device of a probed USB controller, and returns its interrupt
/// beside it.
pub fn register_usb_host_with_info(name: &'static str, host: usize, info: BindingInfo) -> (registered:
    (PlatformUsbHost, Option<IrqSource>))
    ensures
        registered.0 == (PlatformUsbHost { name, info, host: Some(host) }),
        irq::optional_source(registered.1) == info.source(),
{
    let irq_source = info.irq_source_copy();
    (PlatformUsbHost::new(name, host, info), irq_source)
}

/// Creates a device without controller, and returns its interrupt beside it.
pub fn register_usb_host_stub_with_info(name: &'static str, info: BindingInfo) -> (registered: (
    PlatformUsbHost,
    Option<IrqSource>,
))
    ensures
        registered.0 == (PlatformUsbHost { name, info, host: None }),
        irq::optional_source(registered.1) == info.source(),
{
    let irq_source = info.irq_source_copy();
    (PlatformUsbHost::new_stub(name, info), irq_source)
}

/// Rounds a size up to whole 4 KiB pages.
pub fn align_up_4k(size: usize) -> (aligned: usize)
    requires
        size + 0xfff <= usize::MAX,
    ensures
        aligned % 0x1000 == 0,
        size <= aligned < size + 0x1000,
{
    let sum: usize = size + 0xfff;
    proof {
        assert(sum & !0xfffusize == sum - sum % 0x1000) by (bit_vector);
    }
    sum & !0xfffusize
}

/// The routes of an endpoint's pin come before the host's, those before the line.
/// Without a pin no route of a pin counts; a line of 0 or 255 is none.
pub proof fn law_interrupt_routes_have_an_order(info: PciInfo, routes: PciIrqRoutes)
    ensures
        pci_irq(info, routes) is None <==> routes.legacy is None && (info.interrupt_line == 0
            || info.interrupt_line == 255) && (info.interrupt_pin == 0 || (routes.acpi is None
            && routes.fdt is None)),
        info.interrupt_pin != 0 && routes.acpi is Some ==> pci_irq(info, routes) == routes.acpi,
        info.interrupt_pin != 0 && routes.acpi is None && routes.fdt is Some ==> pci_irq(
            info,
            routes,
        ) == routes.fdt,
        info.interrupt_pin == 0 && routes.legacy is Some ==> pci_irq(info, routes)
            == routes.legacy,
        routes.acpi is None && routes.fdt is None && routes.legacy is Some ==> pci_irq(info, routes)
            == routes.legacy,
        info.interrupt_pin == 0 && routes.legacy is None && 0 < info.interrupt_line < 255
            ==> pci_irq(info, routes) == Some(routes.line),
        routes.acpi is None && routes.fdt is None && routes.legacy is None && 0
            < info.interrupt_line < 255 ==> pci_irq(info, routes) == Some(routes.line),
{
}

} // verus!
