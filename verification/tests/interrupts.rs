use axdevice::binding::{
    align_up_4k, register_net_with_info, register_usb_host_stub_with_info,
    register_usb_host_with_info, take_rd_net_device, BindingInfo, NetTakeError, PciInfo,
    PciIrqRoutes,
};
use axdevice::irq::{
    decode_fdt_irq, decode_interrupt, first_fdt_irq_source, named_fdt_irq_source, ControllerAnswer,
    DeviceId, FdtInfo, FdtIrqSource, InterruptRef, IrqSource, Phandle,
};

const NO_ROUTES: PciIrqRoutes = PciIrqRoutes { acpi: None, fdt: None, legacy: None, line: 0 };

fn endpoint(interrupt_pin: u8, interrupt_line: u8) -> PciInfo {
    PciInfo { address: String::from("0000:00:00.0"), interrupt_pin, interrupt_line }
}

fn interrupt(parent: u32, specifier: Vec<u32>, name: &str) -> InterruptRef {
    InterruptRef {
        interrupt_parent: Phandle::from(parent),
        cells: specifier.len() as u32,
        specifier,
        name: Some(String::from(name)),
    }
}

fn device() -> FdtInfo {
    FdtInfo {
        path: String::from("/device@0"),
        interrupts: vec![interrupt(1, vec![0, 42, 4], "main"), interrupt(9, vec![7], "spare")],
        devices: vec![(Phandle::from(1), DeviceId::from(12))],
    }
}

#[test]
fn empty_binding_info_has_no_irq() {
    let info = BindingInfo::empty();

    assert_eq!(info.irq_source(), None);
    assert_eq!(info.irq_num(), None);
}

#[test]
fn explicit_binding_info_reports_numbered_irq() {
    let info = BindingInfo::with_irq_source(Some(IrqSource::Number(33)));

    assert_eq!(info.irq_source(), Some(&IrqSource::Number(33)));
    assert_eq!(info.irq_num(), Some(33));
}

#[test]
fn optional_pci_binding_info_can_be_empty() {
    let info = BindingInfo::from_pci_optional(endpoint(0, 0), NO_ROUTES);

    assert_eq!(info.irq_source(), None);
    assert_eq!(info.irq_num(), None);
}

#[test]
fn required_pci_binding_info_reports_unresolved_irq() {
    let err = BindingInfo::from_pci_required(endpoint(0, 0), NO_ROUTES).unwrap_err();

    assert!(err.contains("failed to resolve IRQ"));
    assert_eq!(err, "failed to resolve IRQ for PCI endpoint 0000:00:00.0");
}

#[test]
fn fdt_binding_info_uses_first_fdt_irq_source() {
    let info = BindingInfo::from_fdt(&device());
    let Some(IrqSource::Fdt(source)) = info.irq_source() else {
        panic!("expected FDT IRQ source");
    };

    assert_eq!(info.irq_num(), None);
    assert_eq!(source.parent_phandle, Phandle::from(1));
    assert_eq!(source.cells, 3);
    assert_eq!(source.specifier, [0, 42, 4]);
    assert_eq!(source.name.as_deref(), Some("main"));
    assert_eq!(source.node_path.as_deref(), Some("/device@0"));
}

#[test]
fn pci_routes_are_tried_in_order() {
    let routes = PciIrqRoutes { acpi: Some(1), fdt: Some(2), legacy: Some(3), line: 4 };
    let number = |pin, line, routes| {
        BindingInfo::from_pci_optional(endpoint(pin, line), routes).irq_num()
    };
    assert_eq!(number(1, 9, routes), Some(1));
    assert_eq!(number(1, 9, PciIrqRoutes { acpi: None, ..routes }), Some(2));
    // Without a pin only the legacy route and the line count.
    assert_eq!(number(0, 9, routes), Some(3));
    assert_eq!(number(0, 9, PciIrqRoutes { legacy: None, ..routes }), Some(4));
    assert_eq!(number(0, 0, PciIrqRoutes { legacy: None, ..routes }), None);
    assert_eq!(number(0, 255, PciIrqRoutes { legacy: None, ..routes }), None);
    assert_eq!(
        BindingInfo::from_pci_required(endpoint(1, 9), routes).unwrap().irq_num(),
        Some(1)
    );
}

#[test]
fn number_source_is_displayable() {
    assert_eq!(IrqSource::number(44).to_text(), "irq#44");
}

#[test]
fn fdt_source_keeps_parent_and_specifier() {
    let source = FdtIrqSource::new(
        DeviceId::from(3),
        Phandle::from(7),
        2,
        vec![44, 4],
        Some(String::from("serial")),
        Some(String::from("/serial@04140000")),
    );

    assert_eq!(source.interrupt_parent, DeviceId::from(3));
    assert_eq!(source.specifier, vec![44, 4]);
    assert_eq!(
        IrqSource::Fdt(source).to_text(),
        "fdt:/serial@04140000:serial parent=DeviceId(3) spec=[44, 4]"
    );
}

#[test]
fn sources_without_path_show_their_handle() {
    let source = FdtIrqSource::new(DeviceId::from(3), Phandle::from(7), 0, vec![], None, None);
    assert_eq!(
        IrqSource::Fdt(source).to_text(),
        "fdt:phandlePhandle(7) parent=DeviceId(3) spec=[]"
    );
}

#[test]
fn named_interrupts_need_a_known_parent() {
    let info = device();
    assert_eq!(first_fdt_irq_source(&info), named_fdt_irq_source(&info, "main"));
    // The parent of the spare interrupt is no known device.
    assert_eq!(named_fdt_irq_source(&info, "spare"), None);
    assert_eq!(named_fdt_irq_source(&info, "other"), None);
}

#[test]
fn interrupts_decode_through_their_controller() {
    let info = device();
    assert_eq!(decode_fdt_irq(&info, ControllerAnswer::Irq(74)), Some(74));
    assert_eq!(decode_fdt_irq(&info, ControllerAnswer::Missing), None);
    assert_eq!(decode_fdt_irq(&info, ControllerAnswer::Locked), None);
    assert_eq!(decode_interrupt(&info, &info.interrupts[1], ControllerAnswer::Irq(74)), None);
}

#[test]
fn network_controllers_are_taken_once() {
    let info = BindingInfo::with_irq_source(Some(IrqSource::Number(5)));
    let (mut device, source) = register_net_with_info("eth", 3, info);
    assert_eq!(source, Some(IrqSource::Number(5)));
    assert_eq!(take_rd_net_device(&mut device, true).unwrap_err(), NetTakeError::Locked);
    let taken = take_rd_net_device(&mut device, false).unwrap();
    assert_eq!(taken.net, 3);
    assert_eq!(taken.name, "eth");
    assert_eq!(taken.irq_source, Some(IrqSource::Number(5)));
    let error = take_rd_net_device(&mut device, false).unwrap_err();
    assert_eq!(error.message(), "device already taken");
    assert!(device.take_net().is_none());
}

#[test]
fn usb_hosts_report_their_binding() {
    let info = BindingInfo::with_irq_source(Some(IrqSource::Number(9)));
    let (host, source) = register_usb_host_with_info("xhci", 1, info);
    assert_eq!(source, Some(IrqSource::Number(9)));
    assert_eq!(host.irq_num(), Some(9));
    assert_eq!(host.irq_source(), Some(&IrqSource::Number(9)));
    assert_eq!(host.host(), Some(1));
    let (stub, source) = register_usb_host_stub_with_info("stub", BindingInfo::empty());
    assert_eq!(source, None);
    assert_eq!(stub.host(), None);
    assert_eq!(stub.name(), "stub");
    assert_eq!(align_up_4k(0), 0);
    assert_eq!(align_up_4k(1), 0x1000);
    assert_eq!(align_up_4k(0x2000), 0x2000);
}
