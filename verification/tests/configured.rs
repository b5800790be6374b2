use axdevice::aarch64_pci::{Aarch64PciPlanBuilder, PciPlanError};
use axdevice::configured::{
    accept_pci_endpoint, request_device_id, ConfiguredDeviceCatalog, ConfiguredDeviceError,
    ConfiguredModelRegistration, ConfiguredPciEndpoint, ConfiguredPciModelRegistration,
    DeviceInstantiationContext, FixedDeviceBindings, FixedWiredBinding, ModelAttachment,
    VirtualDeviceRequest,
};
use axdevice::device::DeviceNodeId;
use axdevice::pci::address::PciBarIndex;
use axdevice::pci::bar::{PciMemoryBar, PciMemoryBarWidth};
use axdevice::pci::function::{PciClass, PciEndpointIdentity, PciFunctionSpec};
use axdevice::pci::graph::{ResolvedGraphNode, ResolvedHostRanges};

const PCI_REGISTRATION: ConfiguredPciModelRegistration =
    ConfiguredPciModelRegistration { model: "test-pci", create: 7, default_fixed_resources: None };
const PLATFORM_REGISTRATION: ConfiguredModelRegistration =
    ConfiguredModelRegistration { model: "test-pci", create: 8, default_fixed_resources: None };

fn endpoint(id: &str) -> ConfiguredPciEndpoint {
    let function = PciFunctionSpec::new(
        DeviceNodeId::new(id),
        PciEndpointIdentity::new(0x110a, 0x4106, PciClass::new(0xff, 0, 0)),
    )
    .with_bar(
        PciMemoryBar::new(PciBarIndex::new(0).unwrap(), 0x1000, PciMemoryBarWidth::Bits32).unwrap(),
    )
    .unwrap();
    ConfiguredPciEndpoint::new(function, 3)
}

fn built_in_catalog() -> ConfiguredDeviceCatalog {
    let serial = vec![
        ConfiguredModelRegistration { model: "pl011", create: 1, default_fixed_resources: Some(2) },
        ConfiguredModelRegistration { model: "uart16550", create: 3, default_fixed_resources: None },
    ];
    let inter_vm = vec![ConfiguredModelRegistration {
        model: "ivc",
        create: 4,
        default_fixed_resources: None,
    }];
    ConfiguredDeviceCatalog::new(&serial, &inter_vm)
}

fn request() -> VirtualDeviceRequest {
    VirtualDeviceRequest { id: String::from("pci0"), model: String::from("test-pci") }
}

fn checked() -> Result<DeviceNodeId, String> {
    Ok(DeviceNodeId::new("pci0"))
}

#[test]
fn pci_registration_preserves_typed_bus_attachment() {
    let mut catalog = built_in_catalog();
    catalog.register_pci_model(PCI_REGISTRATION).unwrap();
    let selected = catalog.instantiate(&request(), checked()).unwrap();
    assert_eq!(selected.model.attachment, ModelAttachment::Pci);
    assert_eq!(selected.model.create, 7);
    let endpoint = accept_pci_endpoint(&request(), &selected.id, endpoint("pci0")).unwrap();

    assert_eq!(endpoint.function().id().as_str(), "pci0");
    assert!(matches!(
        catalog.instantiate_node(&request(), checked()),
        Err(ConfiguredDeviceError::ModelAttachmentMismatch { .. })
    ));
}

#[test]
fn pci_constructor_must_preserve_the_requested_device_id() {
    let mut catalog = built_in_catalog();
    catalog.register_pci_model(PCI_REGISTRATION).unwrap();

    let selected = catalog.instantiate(&request(), checked()).unwrap();
    let error = accept_pci_endpoint(&request(), &selected.id, endpoint("wrong-id")).unwrap_err();
    assert!(matches!(error, ConfiguredDeviceError::Instantiation { .. }));
    assert!(error.message().contains("wrong-id"));
}

#[test]
fn platform_and_pci_models_share_one_name_namespace() {
    let mut catalog = built_in_catalog();
    catalog.register_pci_model(PCI_REGISTRATION).unwrap();

    assert!(matches!(
        catalog.register_pci_model(PCI_REGISTRATION),
        Err(ConfiguredDeviceError::DuplicateModel { .. })
    ));
    assert!(matches!(
        catalog.register(PLATFORM_REGISTRATION),
        Err(ConfiguredDeviceError::DuplicateModel { .. })
    ));
}

#[test]
fn catalog_faults_name_their_device() {
    let mut catalog = built_in_catalog();
    assert!(matches!(
        catalog.instantiate(&request(), checked()),
        Err(ConfiguredDeviceError::UnknownVirtualDeviceModel { .. })
    ));
    let unnamed = ConfiguredModelRegistration { model: "", ..PLATFORM_REGISTRATION };
    assert!(matches!(
        catalog.register(unnamed),
        Err(ConfiguredDeviceError::InvalidModelName { .. })
    ));
    let error = request_device_id(&request(), Err(String::from("bad character"))).unwrap_err();
    assert!(matches!(error, ConfiguredDeviceError::InvalidDeviceId { .. }));
    assert!(error.message().contains("bad character"));
    let platform =
        ConfiguredModelRegistration { default_fixed_resources: Some(4), ..PLATFORM_REGISTRATION };
    catalog.register(platform).unwrap();
    assert_eq!(catalog.default_fixed_resources("test-pci"), Some(4));
    assert_eq!(catalog.default_fixed_resources("other"), None);
    assert_eq!(catalog.instantiate_node(&request(), checked()).unwrap().model.create, 8);
}

#[test]
fn fixed_bindings_are_found_by_slot() {
    let wired = FixedWiredBinding { controller: 1, input: 33, trigger: 0, sharing: 0 };
    let fixed = FixedDeviceBindings::default()
        .with_mmio("regs", 0x1000, 0x100)
        .with_mmio("regs", 0x2000, 0x200)
        .with_pio("ports", 0x60, 4)
        .with_wired("irq", wired);
    // A later binding of a slot replaces the earlier one.
    assert_eq!(fixed.mmio("regs"), Some((0x2000, 0x200)));
    assert_eq!(fixed.mmio("other"), None);
    assert_eq!(fixed.pio("ports"), Some((0x60, 4)));
    assert_eq!(fixed.wired("irq"), Some(wired));
    let context = DeviceInstantiationContext::new()
        .with_vm_id(5)
        .with_default_wired_controller(DeviceNodeId::new("vgic"), 2)
        .with_fixed_bindings(fixed);
    assert_eq!(context.vm_id(), Some(5));
    assert_eq!(context.default_wired_controller(), Some(2));
    assert_eq!(context.default_wired_controller_node().unwrap().as_str(), "vgic");
    assert_eq!(context.fixed_bindings().pio("ports"), Some((0x60, 4)));
}

#[test]
fn empty_endpoint_set_creates_no_host_nodes() {
    let controller = DeviceNodeId::new("vgic");
    assert!(Aarch64PciPlanBuilder::declare(true, &controller, 1, Vec::new()).unwrap().is_none());
}

#[test]
fn endpoint_creates_vgic_host_endpoint_order_and_resolved_firmware() {
    let controller = DeviceNodeId::new("vgic");
    let (builder, nodes) =
        Aarch64PciPlanBuilder::declare(true, &controller, 1, vec![endpoint("endpoint0")])
            .unwrap()
            .unwrap();
    let mut resolved = vec![ResolvedGraphNode { id: controller, model: None }];
    let mut ids = vec![String::from("vgic")];
    // Every node depends on the one before it.
    for node in nodes {
        assert_eq!(node.dependency.as_ref().unwrap().as_str(), ids.last().unwrap());
        ids.push(node.id.to_text());
        resolved.push(ResolvedGraphNode { id: node.id, model: Some(node.model) });
    }

    assert_eq!(ids, ["vgic", "pci-host", "endpoint0"]);
    let ranges = ResolvedHostRanges {
        ecam: (0x0b00_0000, 0x10_0000),
        memory: (0x0c00_0000, 0x0400_0000),
    };
    let plan = builder.resolve(&resolved, Ok(ranges)).unwrap();
    assert_eq!(plan.firmware().ecam_base(), 0x0b00_0000);
    assert_eq!(plan.firmware().memory_base(), 0x0c00_0000);
    assert_eq!(plan.firmware().memory_size(), 0x0400_0000);
}

#[test]
fn pci_endpoint_without_guest_dtb_is_rejected() {
    let controller = DeviceNodeId::new("vgic");
    let error = Aarch64PciPlanBuilder::declare(false, &controller, 1, vec![endpoint("endpoint0")])
        .err()
        .unwrap();

    let PciPlanError::Unsupported { detail, .. } = error else {
        panic!("expected an unsupported configuration");
    };
    assert!(detail.contains("require a guest DTB"));
}

#[test]
fn built_in_models_are_registered_from_the_start() {
    let mut catalog = built_in_catalog();
    assert_eq!(catalog.registrations.len(), 3);
    for (model, create) in [("pl011", 1), ("uart16550", 3), ("ivc", 4)] {
        let request = VirtualDeviceRequest { id: String::from("pci0"), model: model.into() };
        let selected = catalog.instantiate_node(&request, checked()).unwrap();
        assert_eq!(selected.model.attachment, ModelAttachment::Platform);
        assert_eq!(selected.model.create, create);
    }
    assert_eq!(catalog.default_fixed_resources("pl011"), Some(2));
    // Their names are taken.
    assert!(matches!(
        catalog.register(ConfiguredModelRegistration { model: "ivc", ..PLATFORM_REGISTRATION }),
        Err(ConfiguredDeviceError::DuplicateModel { .. })
    ));
    assert!(ConfiguredDeviceCatalog::new(&vec![], &vec![]).registrations.is_empty());
}

#[test]
fn contexts_start_without_serial_defaults() {
    let context = DeviceInstantiationContext::new();
    assert_eq!(context.serial_profile(), None);
    assert_eq!(context.serial_backend_factory(), None);
    assert!(!context.host_console_by_default());
    let fixed = FixedDeviceBindings::default().with_mmio("regs", 0x1000, 0x100);
    let context = context.with_vm_id(9).with_serial_defaults(1, 2, fixed, Some(3), true);
    assert_eq!(context.vm_id(), Some(9));
    assert_eq!(context.serial_profile(), Some(1));
    assert_eq!(context.serial_backend_factory(), Some(2));
    assert_eq!(context.firmware_binding(), Some(3));
    assert_eq!(context.fixed_bindings().mmio("regs"), Some((0x1000, 0x100)));
    assert!(context.host_console_by_default());
}

#[test]
fn contexts_and_requests_can_be_copied() {
    let fixed = FixedDeviceBindings::default().with_pio("ports", 0x60, 4);
    let context = DeviceInstantiationContext::default().with_vm_id(5).with_fixed_bindings(fixed);
    let copy = context.clone();
    assert_eq!(copy.vm_id(), Some(5));
    assert_eq!(copy.fixed_bindings().pio("ports"), Some((0x60, 4)));
    assert_eq!(DeviceInstantiationContext::default().vm_id(), None);
    let request = request().clone();
    assert_eq!(request.model, "test-pci");
    let error = ConfiguredDeviceError::DuplicateModel { model: String::from("x") };
    assert_eq!(error.clone(), error);
}
