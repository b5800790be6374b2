use axdevice::configured::{
    create_ivshmem_node, ConfiguredDeviceError, IvshmemPciOptions, VirtualDeviceRequest,
};
use axdevice::device::{
    AccessWidth, BusKind, DeviceAccess, DeviceError, DeviceNodeId, DeviceResult, DeviceVcpuId,
    ResourceRequest,
};
use axdevice::ivshmem::backing::BackingAllocation;
use axdevice::ivshmem::endpoint::{
    requirements, BarAssignment, IvshmemPciFunction, IVSHMEM_DEVICE_ID, IVSHMEM_REVISION,
    IVSHMEM_VENDOR_ID, HOST_KEY, MODEL, MSIX_BAR_INDEX, MSIX_BAR_SIZE, REGISTER_BAR_INDEX,
    SHARED_MEMORY_BAR_INDEX,
};
use axdevice::ivshmem::error::IvshmemError;
use axdevice::ivshmem::link::{DoorbellRoute, IvshmemLink, IvshmemLinkRegistry, PeerReservation};
use axdevice::ivshmem::profile::{LinkId, SHARED_MEMORY_SIZE};
use axdevice::ivshmem::registers::{
    DOORBELL_OFFSET, EVENT_STATUS_OFFSET, ID_OFFSET, MAXIMUM_PEERS_OFFSET, REGISTER_PAGE_SIZE,
    STATE_OFFSET,
};
use axdevice::pci::address::{PciBarIndex, PciBdf};
use axdevice::pci::bar::{PciMemoryBar, PciMemoryBarWidth};
use axdevice::pci::function::{PciClass, PciEndpointIdentity};
use axdevice::pci::memory::{reset_outcome, PciMemoryApertureDevice};
use axdevice::pci::root::PciRootState;
use axdevice::pci::topology::PciTopologyBuilder;
use axdevice::stage2::{DirectMapping, Stage2Registry};

const APERTURE_BASE: u64 = 0x0c00_0000;
const APERTURE_SIZE: u64 = 0x0400_0000;
// Shared-region scratch offset: the first BAR2 page is the host-maintained
// state table, so test payloads live past 0x1000.
const TEST_OFFSET: u64 = 0x1100;
const TEST_VALUE: u64 = 0x4956_5348_4d45_4d31;

fn id(value: &str) -> DeviceNodeId {
    DeviceNodeId::new(value)
}

fn memory() -> Result<BackingAllocation, IvshmemError> {
    Ok(BackingAllocation::from_parts(0x8_0000_0000, SHARED_MEMORY_SIZE))
}

/// One endpoint with the root complex of its VM.
struct TestEndpoint {
    _reservation: PeerReservation,
    function: IvshmemPciFunction,
    stage2: Stage2Registry,
    root: PciRootState,
    memory: PciMemoryApertureDevice,
    bdf: PciBdf,
    register_bar: u64,
    msix_bar: u64,
    shared_bar: u64,
}

/// The links of a host with the endpoints of its VMs.
struct World {
    registry: IvshmemLinkRegistry,
    link: u32,
    peers: Vec<TestEndpoint>,
}

impl World {
    fn new() -> Self {
        World { registry: IvshmemLinkRegistry::new(), link: 1, peers: vec![] }
    }

    fn link(&mut self) -> &mut IvshmemLink {
        let index = self.registry.index_of(LinkId::new(self.link)).unwrap();
        &mut self.registry.links[index]
    }

    fn build_endpoint(&mut self, node_id: &str, peer_id: u16) -> usize {
        let reservation = self.registry.reserve(self.link, peer_id, memory()).unwrap();
        let sink = self.peers.len();
        let spec = requirements(self.link()).unwrap().function_spec(id(node_id)).unwrap();
        let mut builder = PciTopologyBuilder::new();
        builder.add_function(spec).unwrap();
        let aperture = APERTURE_BASE..APERTURE_BASE + APERTURE_SIZE;
        let topology = builder.resolve(aperture.clone()).unwrap();
        let mut root = PciRootState::new(&topology);
        let function =
            IvshmemPciFunction::build(&reservation, self.link(), true, id(node_id), sink).unwrap();
        root.bind_function(&id(node_id), sink).unwrap();
        let resolved = topology.function(&id(node_id)).unwrap();
        let bar = |index: u8| resolved.bar(PciBarIndex::new(index).unwrap()).unwrap().address();
        self.peers.push(TestEndpoint {
            _reservation: reservation,
            function,
            stage2: Stage2Registry::new(),
            root,
            memory: PciMemoryApertureDevice::new(aperture),
            bdf: resolved.bdf(),
            register_bar: bar(REGISTER_BAR_INDEX),
            msix_bar: bar(MSIX_BAR_INDEX),
            shared_bar: bar(SHARED_MEMORY_BAR_INDEX),
        });
        self.assign_bars(sink, node_id);
        sink
    }

    fn assign_bars(&mut self, peer: usize, owner: &str) {
        let bars = vec![BarAssignment {
            bar: PciBarIndex::new(SHARED_MEMORY_BAR_INDEX).unwrap(),
            gpa: self.peers[peer].shared_bar,
        }];
        let index = self.registry.index_of(LinkId::new(self.link)).unwrap();
        let change =
            self.peers[peer].function.notify_bar_assignment(&self.registry.links[index], &bars);
        let change = change.unwrap();
        let endpoint = &mut self.peers[peer];
        let commit: Vec<DirectMapping> = change.plan.mappings().clone();
        let revoke = change.revoke.unwrap_or_default();
        endpoint.stage2.plan_update(&id(owner), &revoke, &commit).unwrap();
        endpoint.stage2.finish_update(&id(owner), commit, None).unwrap();
        endpoint.function.commit_plan(change.plan, None).unwrap();
    }

    fn write_config(&mut self, peer: usize, offset: usize, size: usize, value: u64) {
        let bdf = self.peers[peer].bdf;
        self.peers[peer].root.write_config_locked(bdf, offset, size, value).unwrap();
    }

    fn enable_memory(&mut self, peer: usize) {
        // Command register bit 1 is Memory Space Enable.
        self.write_config(peer, 4, 2, 2);
    }

    fn read_bar(&mut self, peer: usize, address: u64, width: AccessWidth) -> DeviceResult<u64> {
        let index = self.registry.index_of(LinkId::new(self.link)).unwrap();
        let endpoint = &self.peers[peer];
        let access = DeviceAccess::new(DeviceVcpuId::new(0), BusKind::Mmio, address, width);
        let route = endpoint.memory.route(&endpoint.root, &access)?;
        endpoint.function.read_bar(&self.registry.links[index], &route.access)
    }

    fn write_bar(
        &mut self,
        peer: usize,
        address: u64,
        width: AccessWidth,
        value: u64,
    ) -> DeviceResult {
        let index = self.registry.index_of(LinkId::new(self.link)).unwrap();
        let access = DeviceAccess::new(DeviceVcpuId::new(0), BusKind::Mmio, address, width);
        let route = self.peers[peer].memory.route(&self.peers[peer].root, &access)?;
        let delivery = self.peers[peer].function.write_bar(
            &mut self.registry.links[index],
            &route.access,
            value,
        )?;
        if let Some(DoorbellRoute::Deliver { sink, .. }) = delivery {
            self.peers[sink].function.deliver();
        }
        Ok(())
    }

    fn reset(&mut self, peer: usize) {
        let index = self.registry.index_of(LinkId::new(self.link)).unwrap();
        let endpoint = &mut self.peers[peer];
        let targets = endpoint.root.reset_collecting_handlers();
        assert_eq!(targets.len(), 1);
        let outcome = endpoint.function.reset(&mut self.registry.links[index]);
        reset_outcome(vec![outcome]).unwrap();
    }

    fn read_register(&mut self, peer: usize, offset: u64, width: AccessWidth) -> DeviceResult<u64> {
        let base = self.peers[peer].register_bar;
        self.read_bar(peer, base + offset, width)
    }

    fn write_register(&mut self, peer: usize, offset: u64, value: u32) -> DeviceResult {
        let base = self.peers[peer].register_bar;
        self.write_bar(peer, base + offset, AccessWidth::Dword, u64::from(value))
    }

    fn read_shared(&mut self, peer: usize, offset: u64, width: AccessWidth) -> DeviceResult<u64> {
        let base = self.peers[peer].shared_bar;
        self.read_bar(peer, base + offset, width)
    }

    fn write_shared(
        &mut self,
        peer: usize,
        offset: u64,
        width: AccessWidth,
        value: u64,
    ) -> DeviceResult {
        let base = self.peers[peer].shared_bar;
        self.write_bar(peer, base + offset, width, value)
    }

    fn event_status(&mut self, peer: usize) -> u64 {
        self.read_register(peer, EVENT_STATUS_OFFSET, AccessWidth::Dword).unwrap()
    }
}

fn two_peers() -> World {
    let mut world = World::new();
    assert_eq!(world.build_endpoint("ivshmem0", 0), 0);
    assert_eq!(world.build_endpoint("ivshmem1", 1), 1);
    world.enable_memory(0);
    world.enable_memory(1);
    world
}

fn doorbell(target: u32, vector: u32) -> u32 {
    (target << 16) | vector
}

#[test]
fn requirements_declare_the_full_bar_inventory() {
    let mut registry = IvshmemLinkRegistry::new();
    let _reservation = registry.reserve(7, 1, memory()).unwrap();
    let function = requirements(&registry.links[0]).unwrap();
    assert_eq!(function.host().as_str(), HOST_KEY);
    assert_eq!(
        function.identity,
        PciEndpointIdentity::new(
            IVSHMEM_VENDOR_ID,
            IVSHMEM_DEVICE_ID,
            PciClass::new(0x05, 0, 0),
        )
        .with_revision(IVSHMEM_REVISION)
    );
    let bar = |index: u8, size: u64| {
        PciMemoryBar::new(PciBarIndex::new(index).unwrap(), size, PciMemoryBarWidth::Bits32)
            .unwrap()
    };
    assert_eq!(
        function.bars,
        vec![
            bar(REGISTER_BAR_INDEX, REGISTER_PAGE_SIZE),
            bar(MSIX_BAR_INDEX, MSIX_BAR_SIZE),
            bar(SHARED_MEMORY_BAR_INDEX, SHARED_MEMORY_SIZE),
        ]
    );
    assert_eq!(function.bdf, ResourceRequest::Auto);
}

fn request(id: &str) -> VirtualDeviceRequest {
    VirtualDeviceRequest { id: String::from(id), model: String::from(MODEL) }
}

fn options(link_id: u32, peer_id: u16) -> Result<IvshmemPciOptions, String> {
    Ok(IvshmemPciOptions { link_id, peer_id })
}

#[test]
fn options_require_link_and_peer_identity() {
    let mut registry = Some(IvshmemLinkRegistry::new());

    // Options that cannot be read are passed on with their reason.
    let missing = create_ivshmem_node(
        &request("ivshmem0"),
        Err(String::from("missing field `link_id`")),
        &mut registry,
        Some(1),
        memory(),
    )
    .unwrap_err();
    assert!(matches!(missing, ConfiguredDeviceError::InvalidOptions { .. }));

    let unknown = create_ivshmem_node(
        &request("ivshmem0"),
        Err(String::from("unknown field `peer_count`")),
        &mut registry,
        Some(1),
        memory(),
    )
    .unwrap_err();
    assert!(matches!(unknown, ConfiguredDeviceError::InvalidOptions { .. }));

    let out_of_profile =
        create_ivshmem_node(&request("ivshmem0"), options(1, 2), &mut registry, Some(1), memory())
            .unwrap_err();
    let ConfiguredDeviceError::Instantiation { detail, .. } = out_of_profile else {
        panic!("expected an instantiation error");
    };
    assert!(detail.contains("outside the current profile"));
}

#[test]
fn duplicate_peer_reservations_fail_the_second_vm() {
    let mut registry = Some(IvshmemLinkRegistry::new());
    let _first =
        create_ivshmem_node(&request("ivshmem0"), options(1, 0), &mut registry, Some(1), memory())
            .unwrap();
    let error =
        create_ivshmem_node(&request("ivshmem1"), options(1, 0), &mut registry, Some(2), memory())
            .unwrap_err();
    let ConfiguredDeviceError::Instantiation { detail, .. } = error else {
        panic!("expected an instantiation error");
    };
    assert!(detail.contains("already reserved"));
}

#[test]
fn instantiation_requires_an_injected_registry() {
    let error =
        create_ivshmem_node(&request("ivshmem0"), options(1, 0), &mut None, Some(1), memory())
            .unwrap_err();
    let ConfiguredDeviceError::Instantiation { detail, .. } = error else {
        panic!("expected an instantiation error");
    };
    assert!(detail.contains("ivshmem link registry"));
}

#[test]
fn graph_routes_shared_backing_across_two_roots() {
    let mut world = two_peers();

    // Shared BAR2 bytes cross the two roots.
    world.write_shared(0, TEST_OFFSET, AccessWidth::Qword, TEST_VALUE).unwrap();
    assert_eq!(world.read_shared(1, TEST_OFFSET, AccessWidth::Qword).unwrap(), TEST_VALUE);

    // The register page exposes the link identity, not per-VM values.
    assert_eq!(world.read_register(0, ID_OFFSET, AccessWidth::Dword).unwrap(), 0);
    assert_eq!(world.read_register(1, ID_OFFSET, AccessWidth::Dword).unwrap(), 1);
    assert_eq!(world.read_register(0, MAXIMUM_PEERS_OFFSET, AccessWidth::Dword).unwrap(), 2);

    // BAR1 stays an inventory placeholder.
    let msix_bar = world.peers[0].msix_bar;
    assert_eq!(world.read_bar(0, msix_bar, AccessWidth::Dword).unwrap(), 0);

    // State registers are endpoint-local.
    world.write_register(0, STATE_OFFSET, 0x1234).unwrap();
    assert_eq!(world.read_register(0, STATE_OFFSET, AccessWidth::Dword).unwrap(), 0x1234);
    assert_eq!(world.read_register(1, STATE_OFFSET, AccessWidth::Dword).unwrap(), 0);

    // BAR0 rejects widths other than Dword and unaligned offsets.
    assert!(matches!(
        world.read_register(0, ID_OFFSET, AccessWidth::Byte),
        Err(DeviceError::InvalidInput { .. })
    ));
    assert!(matches!(
        world.read_register(0, 2, AccessWidth::Dword),
        Err(DeviceError::InvalidInput { .. })
    ));

    // A different link stays isolated from this one.
    let _other = world.registry.reserve(2, 0, memory()).unwrap();
    let other = world.registry.index_of(LinkId::new(2)).unwrap();
    world.registry.links[other].write_backing(TEST_OFFSET, 8, 0xee).unwrap();
    assert_eq!(world.read_shared(0, TEST_OFFSET, AccessWidth::Qword).unwrap(), TEST_VALUE);

    // Relocating BAR2 keeps the shared backing reachable through the new
    // route, while the peer keeps its own route to the same bytes.
    const RELOCATED_BAR2: u64 = 0x0ffe_0000;
    world.write_config(0, 0x18, 4, RELOCATED_BAR2);
    let bdf = world.peers[0].bdf;
    assert_eq!(world.peers[0].root.read_config(bdf, 0x18, 4).unwrap(), RELOCATED_BAR2);
    world
        .write_bar(0, RELOCATED_BAR2 + TEST_OFFSET, AccessWidth::Qword, TEST_VALUE)
        .unwrap();
    assert_eq!(world.read_shared(1, TEST_OFFSET, AccessWidth::Qword).unwrap(), TEST_VALUE);
    assert!(matches!(
        world.read_shared(0, TEST_OFFSET, AccessWidth::Qword),
        Err(DeviceError::NotFound)
    ));
}

#[test]
fn endpoint_reset_clears_registers_but_not_shared_backing() {
    let mut world = two_peers();
    world.write_shared(0, TEST_OFFSET, AccessWidth::Qword, TEST_VALUE).unwrap();
    world.write_register(0, STATE_OFFSET, 0x99).unwrap();

    world.reset(0);
    world.enable_memory(0);
    assert_eq!(world.read_register(0, STATE_OFFSET, AccessWidth::Dword).unwrap(), 0);
    // The peer keeps observing the shared backing after the reset.
    assert_eq!(world.read_shared(1, TEST_OFFSET, AccessWidth::Qword).unwrap(), TEST_VALUE);
}

#[test]
fn doorbell_sets_only_the_target_event_status() {
    let mut world = two_peers();

    // Peer 0 writes `target << 16 | vector`; peer 1 observes the event.
    world.write_register(0, DOORBELL_OFFSET, doorbell(1, 0)).unwrap();
    assert_eq!(world.event_status(1), 1);
    assert_eq!(world.event_status(0), 0);

    // Repeated doorbells merge into the single pending bit.
    world.write_register(0, DOORBELL_OFFSET, doorbell(1, 0)).unwrap();
    assert_eq!(world.event_status(1), 1);

    // W1C clear, then the next doorbell pends again.
    world.write_register(1, EVENT_STATUS_OFFSET, 1).unwrap();
    assert_eq!(world.event_status(1), 0);
    world.write_register(0, DOORBELL_OFFSET, doorbell(1, 0)).unwrap();
    assert_eq!(world.event_status(1), 1);
}

#[test]
fn doorbell_ignores_inactive_targets_and_unsupported_vectors() {
    let mut world = two_peers();

    // Vector 1 is outside the current profile.
    world.write_register(0, DOORBELL_OFFSET, doorbell(1, 1)).unwrap();
    // Target 9 is outside the two-peer profile.
    world.write_register(0, DOORBELL_OFFSET, doorbell(9, 0)).unwrap();
    assert_eq!(world.event_status(1), 0);

    // A self-addressed doorbell reaches the writing endpoint.
    world.write_register(0, DOORBELL_OFFSET, doorbell(0, 0)).unwrap();
    assert_eq!(world.event_status(0), 1);
}

#[test]
fn doorbell_leaves_other_registers_and_shared_bytes_untouched() {
    let mut world = two_peers();
    world.write_register(0, STATE_OFFSET, 0x1234).unwrap();
    world.write_shared(0, TEST_OFFSET, AccessWidth::Qword, TEST_VALUE).unwrap();

    world.write_register(0, DOORBELL_OFFSET, doorbell(1, 0)).unwrap();

    assert_eq!(world.event_status(1), 1);
    // The doorbell write value never leaks into the writer's registers.
    assert_eq!(world.read_register(0, STATE_OFFSET, AccessWidth::Dword).unwrap(), 0x1234);
    // The receiver's local registers and the shared bytes stay intact.
    assert_eq!(world.read_register(1, STATE_OFFSET, AccessWidth::Dword).unwrap(), 0);
    assert_eq!(world.read_shared(1, TEST_OFFSET, AccessWidth::Qword).unwrap(), TEST_VALUE);
}

#[test]
fn bar2_derives_direct_mappings_for_each_peer_view() {
    let world = two_peers();

    // Each endpoint committed three mappings: the read-only state table,
    // its own writable output, and the peer's read-only output.
    for (endpoint, own_peer) in [(&world.peers[0], 0u16), (&world.peers[1], 1u16)] {
        let committed: Vec<DirectMapping> = endpoint
            .stage2
            .committed
            .iter()
            .flat_map(|record| record.mappings.iter().copied())
            .collect();
        assert_eq!(committed.len(), 3);
        // The state table maps read-only at the resolved BAR2 address.
        assert_eq!(committed[0].gpa_base(), endpoint.shared_bar);
        assert!(!committed[0].writable());
        // The peer's own output maps read-write, the other read-only.
        assert_eq!(committed[1].writable(), own_peer == 0);
        assert_eq!(committed[2].writable(), own_peer == 1);
        assert_eq!(endpoint.function.direct_mappings(), committed);
    }
    // Both peers map the same backing: identical HPA bases.
    assert_eq!(
        world.peers[0].stage2.committed[0].mappings[0].hpa_base(),
        world.peers[1].stage2.committed[0].mappings[0].hpa_base()
    );
}

#[test]
fn state_writes_propagate_into_the_shared_state_table() {
    let mut world = two_peers();

    // The BAR0 State write publishes into the state-table entry, which
    // is readable through every peer's BAR2 mapping.
    world.write_register(0, STATE_OFFSET, 0x0001_0002).unwrap();
    assert_eq!(world.read_shared(0, 0, AccessWidth::Dword).unwrap(), 0x0001_0002);
    assert_eq!(world.read_shared(1, 0, AccessWidth::Dword).unwrap(), 0x0001_0002);

    // Each peer owns its own entry: peer 1 writes its state and both
    // peers observe the same values at the same offsets.
    assert_eq!(world.read_shared(1, 4, AccessWidth::Dword).unwrap(), 0);
    world.write_register(1, STATE_OFFSET, 2).unwrap();
    assert_eq!(world.read_shared(0, 4, AccessWidth::Dword).unwrap(), 2);

    // Reserved bytes inside the state-table page read zero.
    assert_eq!(world.read_shared(0, 8, AccessWidth::Dword).unwrap(), 0);
    assert_eq!(world.read_shared(0, 0xffc, AccessWidth::Dword).unwrap(), 0);
}

#[test]
fn output_section_permissions_follow_the_owner_matrix() {
    let mut world = two_peers();

    // Peer 0 writes its own output section (0x1000..0x8000); peer 1
    // reads the same bytes through its own BAR2.
    world.write_shared(0, 0x1000, AccessWidth::Dword, 0x0aa0).unwrap();
    assert_eq!(world.read_shared(1, 0x1000, AccessWidth::Dword).unwrap(), 0x0aa0);

    // Peer 1 may not write peer 0's output: the write is denied and the
    // owner's data stays intact.
    let denied = world.write_shared(1, 0x1000, AccessWidth::Dword, 0x0bad_0bad);
    let Err(DeviceError::AccessDenied { detail, .. }) = denied else {
        panic!("cross-peer output write must be denied");
    };
    assert!(detail.contains("peer 1 may not write output section"));
    assert_eq!(world.read_shared(0, 0x1000, AccessWidth::Dword).unwrap(), 0x0aa0);

    // Peer 1's own output section starts at 0x8000 and is writable.
    world.write_shared(1, 0x8000, AccessWidth::Dword, 0x0bb1).unwrap();
    assert_eq!(world.read_shared(0, 0x8000, AccessWidth::Dword).unwrap(), 0x0bb1);

    // The reserved tail is silently ignored: the write succeeds without
    // touching the backing, so reads still observe zeroes.
    world.write_shared(0, 0xf000, AccessWidth::Dword, 0x0cc2).unwrap();
    assert_eq!(world.read_shared(0, 0xf000, AccessWidth::Dword).unwrap(), 0);
}

fn denial_detail(outcome: DeviceResult) -> String {
    match outcome {
        Err(DeviceError::AccessDenied { detail, .. }) => detail,
        other => panic!("the write must be denied: {other:?}"),
    }
}

#[test]
fn writes_across_a_section_boundary_are_denied_as_a_whole() {
    let mut world = two_peers();
    world.write_shared(0, 0x7ffc, AccessWidth::Dword, 0x1111_1111).unwrap();
    world.write_shared(1, 0x8000, AccessWidth::Dword, 0x2222_2222).unwrap();

    // From the own output into that of the next peer: no byte changes.
    let detail = denial_detail(world.write_shared(0, 0x7ffe, AccessWidth::Dword, u64::MAX >> 32));
    assert_eq!(detail, "peer 0 may not write output section at offset 0x8000");
    assert_eq!(world.read_shared(0, 0x7ffc, AccessWidth::Dword).unwrap(), 0x1111_1111);
    assert_eq!(world.read_shared(0, 0x8000, AccessWidth::Dword).unwrap(), 0x2222_2222);
    // The owner of the last byte alone may not either.
    let detail = denial_detail(world.write_shared(1, 0x7ffe, AccessWidth::Dword, 0));
    assert_eq!(detail, "peer 1 may not write output section at offset 0x7ffe");

    // From the state table into the own output.
    let detail = denial_detail(world.write_shared(0, 0xffe, AccessWidth::Dword, 0));
    assert_eq!(detail, "peer 0 may not write state table at offset 0xffe");

    // From the last output into the reserved tail, which stays zero.
    let detail = denial_detail(world.write_shared(1, 0xeffc, AccessWidth::Qword, u64::MAX));
    assert_eq!(detail, "peer 1 may not write reserved region at offset 0xf000");
    assert_eq!(world.read_shared(1, 0xeffc, AccessWidth::Dword).unwrap(), 0);
    assert_eq!(world.read_shared(1, 0xf000, AccessWidth::Dword).unwrap(), 0);

    // Unaligned writes inside a section, up to its last byte, take place.
    world.write_shared(0, 0x7ffb, AccessWidth::Dword, 0x3333_3333).unwrap();
    assert_eq!(world.read_shared(1, 0x7ffb, AccessWidth::Dword).unwrap(), 0x3333_3333);
}

#[test]
fn state_table_writes_from_bar2_are_denied() {
    let mut world = two_peers();

    // Entry 0 (peer 0) and the last word of the state-table page both
    // reject direct BAR2 writes.
    for offset in [0, 0xffc] {
        let denied = world.write_shared(0, offset, AccessWidth::Dword, 0x1234);
        assert!(
            matches!(denied, Err(DeviceError::AccessDenied { .. })),
            "offset {offset:#x} must be rejected with AccessDenied"
        );
    }
    // The denied writes did not corrupt the entries.
    assert_eq!(world.read_shared(0, 0, AccessWidth::Dword).unwrap(), 0);
    // Shared-region writes keep working past the state-table page.
    world.write_shared(0, 0x1000, AccessWidth::Dword, 0xaa).unwrap();
    assert_eq!(world.read_shared(1, 0x1000, AccessWidth::Dword).unwrap(), 0xaa);
}

#[test]
fn endpoint_reset_clears_only_the_owning_state_entry() {
    let mut world = two_peers();
    world.write_register(0, STATE_OFFSET, 0x11).unwrap();
    world.write_register(1, STATE_OFFSET, 0x22).unwrap();
    world.write_shared(0, 0x1000, AccessWidth::Dword, 0x33).unwrap();

    world.reset(0);
    world.enable_memory(0);

    // Peer 0's entry is zero; peer 1's entry and the shared bytes stay.
    assert_eq!(world.read_shared(0, 0, AccessWidth::Dword).unwrap(), 0);
    assert_eq!(world.read_shared(1, 4, AccessWidth::Dword).unwrap(), 0x22);
    assert_eq!(world.read_shared(1, 0x1000, AccessWidth::Dword).unwrap(), 0x33);
}

#[test]
fn doorbell_reads_stay_zero_and_reset_clears_pending_events() {
    let mut world = two_peers();
    world.write_register(0, DOORBELL_OFFSET, doorbell(1, 0)).unwrap();
    // The doorbell register is write-only by specification.
    assert_eq!(world.read_register(0, DOORBELL_OFFSET, AccessWidth::Dword).unwrap(), 0);

    // Endpoint reset clears the pending event; the link and the sink
    // keep working for the next doorbell.
    world.reset(1);
    world.enable_memory(1);
    assert_eq!(world.event_status(1), 0);
    world.write_register(0, DOORBELL_OFFSET, doorbell(1, 0)).unwrap();
    assert_eq!(world.event_status(1), 1);
}

#[test]
fn refused_stage2_updates_keep_the_previous_plan() {
    let mut world = two_peers();
    let before = world.peers[0].function.direct_mappings();
    let bar = PciBarIndex::new(SHARED_MEMORY_BAR_INDEX).unwrap();
    let index = world.registry.index_of(LinkId::new(1)).unwrap();
    let change = world.peers[0]
        .function
        .notify_bar_relocated(&world.registry.links[index], bar, 0x0ffe_0000)
        .unwrap()
        .unwrap();
    assert!(change.revoke.is_some());
    assert!(world.peers[0]
        .function
        .commit_plan(change.plan, Some(String::from("page table is full")))
        .is_err());
    assert_eq!(world.peers[0].function.direct_mappings(), before);
    // Other BARs need no mappings, wherever they are.
    let other = PciBarIndex::new(REGISTER_BAR_INDEX).unwrap();
    assert!(world.peers[0]
        .function
        .notify_bar_relocated(&world.registry.links[index], other, u64::MAX)
        .unwrap()
        .is_none());
}
