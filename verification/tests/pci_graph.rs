use axdevice::device::{
    AccessWidth, BusKind, DeviceAccess, DeviceManagerError, DeviceNodeId, DeviceVcpuId,
};
use axdevice::pci::address::{PciBarIndex, PciBdf};
use axdevice::pci::bar::{PciMemoryBar, PciMemoryBarWidth};
use axdevice::pci::error::PciError;
use axdevice::pci::function::{PciClass, PciEndpointIdentity, PciFunctionSpec};
use axdevice::pci::graph::{
    PciBusGraphBuilder, PciBusShared, PciHostDevices, PciHostKey, PciHostPlan,
    PciHostResourceRequirements, ResolvedGraphNode, ResolvedHostRanges, ResolvedPciBus, ECAM_SLOT,
    MEMORY_SLOT,
};
use axdevice::pci::topology::PciTopologyBuilder;

const PCI_MEMORY_SIZE: u64 = 0x10_0000;
const HOST_MODEL: usize = 50;
const ENDPOINT_MODEL: usize = 51;
const RANGES: ResolvedHostRanges =
    ResolvedHostRanges { ecam: (0x1000_0000, 0x10_0000), memory: (0x1010_0000, PCI_MEMORY_SIZE) };

fn graph_with_host(host_id: &str) -> PciBusGraphBuilder {
    let resources = PciHostResourceRequirements::new(PCI_MEMORY_SIZE, PCI_MEMORY_SIZE).unwrap();
    PciBusGraphBuilder::new(DeviceNodeId::new(host_id), resources, HOST_MODEL)
}

fn endpoint_spec(id: &str) -> PciFunctionSpec {
    let identity = PciEndpointIdentity::new(0x110a, 0x4106, PciClass::new(0xff, 0, 1));
    let bar = PciMemoryBar::new(PciBarIndex::new(0).unwrap(), 0x1000, PciMemoryBarWidth::Bits32)
        .unwrap();
    PciFunctionSpec::new(DeviceNodeId::new(id), identity).with_bar(bar).unwrap()
}

fn resolved_bus(endpoint: &str) -> ResolvedPciBus {
    let mut pci = graph_with_host("pci-host");
    let host = pci.host_node();
    let node = pci.endpoint_node(endpoint_spec(endpoint), ENDPOINT_MODEL).unwrap();
    assert_eq!(node.dependency.as_ref().unwrap().as_str(), "pci-host");
    let nodes = vec![
        ResolvedGraphNode { id: host.id, model: Some(host.model) },
        ResolvedGraphNode { id: node.id, model: Some(node.model) },
    ];
    pci.resolve(&nodes, Ok(RANGES)).unwrap()
}

fn build_host(bus: &mut ResolvedPciBus, root: usize) -> PciHostDevices {
    bus.shared.build_host(RANGES.ecam, RANGES.memory, root).unwrap()
}

fn access(address: u64) -> DeviceAccess {
    DeviceAccess::new(DeviceVcpuId::new(0), BusKind::Mmio, address, AccessWidth::Dword)
}

fn read_config(devices: &PciHostDevices, bdf: PciBdf, offset: u64) -> u64 {
    let address = devices.ecam.window.start + bdf.ecam_offset() + offset;
    devices.ecam.read(&devices.root, &access(address)).unwrap()
}

fn write_config(devices: &mut PciHostDevices, bdf: PciBdf, offset: u64, value: u64) {
    let address = devices.ecam.window.start + bdf.ecam_offset() + offset;
    devices.ecam.write(&mut devices.root, &access(address), value).unwrap();
}

#[test]
fn graph_resources_freeze_one_topology_before_host_and_endpoint_build() {
    // Before the plan is published no host can be built.
    let mut unresolved = PciBusShared::new();
    assert!(unresolved.build_host(RANGES.ecam, RANGES.memory, 1).is_err());
    assert!(matches!(unresolved.plan(), Err(PciError::TopologyNotResolved)));

    let mut pci = resolved_bus("ivshmem0");
    assert_eq!(pci.host_id().as_str(), "pci-host");
    assert_eq!(pci.ecam_window(), 0x1000_0000..0x1010_0000);
    assert_eq!(pci.memory_aperture(), 0x1010_0000..0x1020_0000);

    let mut devices = build_host(&mut pci, 1);
    let id = DeviceNodeId::new("ivshmem0");
    pci.shared.bind_endpoint(&mut devices.root, &id, 9).unwrap();
    let function = pci.topology().function(&id).unwrap();
    let bdf = function.bdf();
    let bar = function.bar(PciBarIndex::new(0).unwrap()).unwrap();

    assert_eq!(read_config(&devices, bdf, 0), 0x4106_110a);
    write_config(&mut devices, bdf, 4, 2);
    let route = devices.memory.route(&devices.root, &access(bar.address() + 0x20)).unwrap();
    assert_eq!(route.handler, 9);
    assert_eq!(route.access.bdf(), bdf);
    assert_eq!(route.access.bar(), PciBarIndex::new(0).unwrap());
    assert_eq!(route.access.offset(), 0x20);
}

#[test]
fn host_bundle_registration_failure_releases_root_and_resource_claims_for_retry() {
    let mut pci = resolved_bus("endpoint");
    let _devices = build_host(&mut pci, 1);
    // While the first root lives no second one can be published.
    assert!(pci.shared.build_host(RANGES.ecam, RANGES.memory, 2).is_err());
    pci.shared.release_root(1);
    let mut retried = build_host(&mut pci, 2);
    pci.shared.bind_endpoint(&mut retried.root, &DeviceNodeId::new("endpoint"), 9).unwrap();
    // A release by the earlier root leaves the newer one published.
    pci.shared.release_root(1);
    assert_eq!(pci.shared.root_lock(&DeviceNodeId::new("endpoint")).unwrap(), 2);
}

#[test]
fn pci_resolution_rejects_a_declared_endpoint_node_omitted_from_the_graph() {
    let mut pci = graph_with_host("pci-host");
    let host = pci.host_node();
    let _omitted = pci.endpoint_node(endpoint_spec("omitted-endpoint"), ENDPOINT_MODEL).unwrap();
    let nodes = vec![ResolvedGraphNode { id: host.id, model: Some(host.model) }];

    assert!(pci.resolve(&nodes, Ok(RANGES)).is_err());
}

#[test]
fn unfinished_endpoint_claim_releases_function_binding_for_retry() {
    let mut pci = resolved_bus("finish-retry-endpoint");
    let id = DeviceNodeId::new("finish-retry-endpoint");
    let mut devices = build_host(&mut pci, 1);
    let generation = pci.shared.bind_endpoint(&mut devices.root, &id, 9).unwrap();
    // A bound function cannot be bound again until the first build gives up.
    assert!(pci.shared.bind_endpoint(&mut devices.root, &id, 10).is_err());
    devices.root.unbind_function(&id, generation);
    pci.shared.bind_endpoint(&mut devices.root, &id, 10).unwrap();

    let function = pci.topology().function(&id).unwrap();
    let bar = function.bar(PciBarIndex::new(0).unwrap()).unwrap();
    write_config(&mut devices, function.bdf(), 4, 2);
    let route = devices.memory.route(&devices.root, &access(bar.address())).unwrap();
    assert_eq!(route.handler, 10);
}

#[test]
fn endpoint_bundle_registration_failure_releases_function_binding_for_retry() {
    let mut pci = resolved_bus("retry-endpoint");
    let id = DeviceNodeId::new("retry-endpoint");
    let mut devices = build_host(&mut pci, 1);
    // The bundle of the first build fails to register and drops its binding.
    let failed = pci.shared.bind_endpoint(&mut devices.root, &id, 9).unwrap();
    devices.root.unbind_function(&id, failed);
    let retried = pci.shared.bind_endpoint(&mut devices.root, &id, 10).unwrap();
    assert_ne!(retried, failed);
    // A late drop of the failed build leaves the retried one bound.
    devices.root.unbind_function(&id, failed);

    let function = pci.topology().function(&id).unwrap();
    let bar = function.bar(PciBarIndex::new(0).unwrap()).unwrap();
    write_config(&mut devices, function.bdf(), 4, 2);
    let route = devices.memory.route(&devices.root, &access(bar.address())).unwrap();
    assert_eq!(route.handler, 10);
}

#[test]
fn host_build_rejects_claims_that_drift_from_the_resolved_plan() {
    let mut shared = PciBusShared::new();
    let mut builder = PciTopologyBuilder::new();
    builder
        .add_function(PciFunctionSpec::new(
            DeviceNodeId::new("endpoint"),
            PciEndpointIdentity::new(0x1234, 0x5678, PciClass::new(0xff, 0, 0)),
        ))
        .unwrap();
    let topology = builder.resolve(0x2000_0000..0x2010_0000).unwrap();
    shared
        .publish_plan(PciHostPlan { topology, ecam_window: 0x3000_0000..0x3010_0000 })
        .unwrap();

    // The planner hands out slots far away from the published windows.
    let error = shared
        .build_host((0x1000_0000, 0x10_0000), (0x1010_0000, 0x10_0000), 1)
        .err()
        .unwrap();
    let detail = match error {
        DeviceManagerError::InvalidInput { detail, .. }
        | DeviceManagerError::InvalidConfig { detail, .. }
        | DeviceManagerError::InvalidState { detail, .. } => detail,
        DeviceManagerError::Device(error) => format!("{error:?}"),
    };
    assert!(
        detail.contains("claimed host ranges differ from the resolved PCI topology"),
        "unexpected error: {detail}"
    );
    // The drift guard must fire before anything is published.
    assert!(matches!(
        shared.root_lock(&DeviceNodeId::new("pci-host")),
        Err(PciError::HostUnavailable { .. })
    ));
}

#[test]
fn host_requirements_name_their_slots() {
    assert!(PciHostResourceRequirements::new(0, 0x1000).is_err());
    let requirements =
        PciHostResourceRequirements::new(PCI_MEMORY_SIZE, PCI_MEMORY_SIZE).unwrap();
    let slots = requirements.device_requirements();
    assert_eq!(slots[0].slot, ECAM_SLOT);
    assert_eq!(slots[0].size, 0x10_0000);
    assert_eq!(slots[1].slot, MEMORY_SLOT);
    assert_eq!(slots[1].alignment, PCI_MEMORY_SIZE);
    assert_eq!(PciHostKey::new("aarch64-ecam").unwrap().as_str(), "aarch64-ecam");
    assert!(PciHostKey::new("").is_err());
}
