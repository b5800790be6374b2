use axdevice::address_space::{
    emulated_ranges, emulated_resources, passthrough_assignment, passthrough_assignments,
    split_emulated_range, stage2_guest_address_space_size, validate_guest_dtb, AddressSpaceError,
    DeviceNodeKind, HostDeviceAssignment, HostMapping,
};
use axdevice::arm_vcpu::{
    ArmAccessWidth, ArmGuestAbortFrame, ArmGuestPhysAddr, ArmSysRegAddr, ArmVcpuError,
};
use axdevice::device::{DeviceNodeId, Resource};
use axdevice::stage2::{
    stage2_flags, DirectMapping, DirectMappingFault, GpaRange, Stage2Registry, Stage2Step,
};

fn node(name: &str) -> DeviceNodeId {
    DeviceNodeId::new(name)
}

#[test]
fn accepts_page_aligned_mappings() {
    let mapping = DirectMapping::new(0x1000, 0x5000, 0x2000, true, "output section").unwrap();
    assert_eq!(mapping.gpa_base(), 0x1000);
    assert_eq!(mapping.hpa_base(), 0x5000);
    assert_eq!(mapping.size(), 0x2000);
    assert!(mapping.writable());
    assert_eq!(mapping.label(), "output section");
}

#[test]
fn rejects_misaligned_or_empty_mappings() {
    assert!(DirectMapping::new(0x800, 0x1000, 0x1000, true, "x").is_err());
    assert!(DirectMapping::new(0x1000, 0x1800, 0x1000, false, "x").is_err());
    assert!(DirectMapping::new(0x1000, 0x1000, 0x800, true, "x").is_err());
    assert!(DirectMapping::new(0x1000, 0x1000, 0, true, "x").is_err());
}

#[test]
fn gpa_ranges_expose_their_bounds() {
    let range = GpaRange::new(0x2000, 0x3000);
    assert_eq!(range.base(), 0x2000);
    assert_eq!(range.size(), 0x3000);
}

#[test]
fn fault_diagnoses_carry_owner_and_permission() {
    let fault = DirectMappingFault::new(node("ivshmem0"), "state table", false);
    assert_eq!(*fault.owner(), node("ivshmem0"));
    assert_eq!(fault.label(), "state table");
    assert!(!fault.writable());
}

#[test]
fn committed_mappings_are_diagnosed_and_conflicts_refused() {
    let mut registry = Stage2Registry::new();
    let mapping = DirectMapping::new(0x1000, 0x5000, 0x1000, false, "state table").unwrap();
    let steps = registry.plan_update(&node("a"), &vec![], &vec![mapping]).unwrap();
    assert_eq!(steps.len(), 1);
    assert!(matches!(steps[0], Stage2Step::Install(_)));
    registry.finish_update(&node("a"), vec![mapping], None).unwrap();
    let fault = registry.diagnose(0x1800).unwrap();
    assert_eq!(*fault.owner(), node("a"));
    assert_eq!(fault.label(), "state table");
    assert!(registry.diagnose(0x2000).is_none());
    // Another device cannot take the same guest addresses.
    assert!(registry.plan_update(&node("b"), &vec![], &vec![mapping]).is_err());
    // The owner can move, new mappings first.
    let moved = DirectMapping::new(0x9000, 0x5000, 0x1000, false, "state table").unwrap();
    let steps = registry
        .plan_update(&node("a"), &vec![GpaRange::new(0x1000, 0x1000)], &vec![moved])
        .unwrap();
    assert!(matches!(steps[0], Stage2Step::Install(_)));
    assert!(matches!(steps[1], Stage2Step::Revoke(_)));
    assert!(stage2_flags(true).write);
    assert!(!stage2_flags(false).write);
}

#[test]
fn data_abort_frame_for_el0_write_targets_lower_el_vector() {
    let frame = ArmGuestAbortFrame::data_abort(0x1000, 0x0, 0xffff_0000_0800_0000, true);

    assert_eq!(frame.guest_pc, 0x1000);
    assert_eq!(frame.guest_spsr, 0x0);
    assert_eq!(frame.entry_pc, 0xffff_0000_0800_0400);
    assert_eq!(frame.entry_spsr, 0x3c5);
    assert_eq!(frame.far_el1, 0);
    assert_eq!(frame.esr_el1 >> 26, 0x24);
    assert!(frame.esr_el1 & (1 << 25) != 0);
    assert!(frame.esr_el1 & (1 << 6) != 0);
    assert_eq!(frame.esr_el1 & 0x3f, 0x10);
}

#[test]
fn data_abort_frame_for_el1h_read_targets_current_el_vector() {
    let frame = ArmGuestAbortFrame::data_abort(0x2000, 0x5, 0xffff_0000_0800_0000, false);

    assert_eq!(frame.entry_pc, 0xffff_0000_0800_0200);
    assert_eq!(frame.esr_el1 >> 26, 0x25);
    assert!(frame.esr_el1 & (1 << 6) == 0);
}

#[test]
fn data_abort_frame_for_el1t_uses_sp0_vector() {
    let frame = ArmGuestAbortFrame::data_abort(0x2000, 0x4, 0xffff_0000_0800_0000, false);

    assert_eq!(frame.entry_pc, 0xffff_0000_0800_0000);
    assert_eq!(frame.esr_el1 >> 26, 0x25);
}

#[test]
fn access_widths_convert_both_ways() {
    for (bytes, width) in [
        (1, ArmAccessWidth::Byte),
        (2, ArmAccessWidth::Word),
        (4, ArmAccessWidth::Dword),
        (8, ArmAccessWidth::Qword),
    ] {
        assert_eq!(ArmAccessWidth::try_from(bytes), Ok(width));
        assert_eq!(usize::from(width), bytes);
    }
    assert_eq!(ArmAccessWidth::try_from(3), Err(ArmVcpuError::InvalidInput));
    assert_eq!(usize::from(ArmGuestPhysAddr::from(0x1234)), 0x1234);
    assert_eq!(usize::from(ArmSysRegAddr::from(0x42)), 0x42);
}

/// Size of the guest address space.
const VM_ASPACE_SIZE: usize = 0x7fff_ffff_f000;

#[test]
fn guest_address_space_is_capped_by_stage2_gpa_width() {
    assert_eq!(stage2_guest_address_space_size(39, VM_ASPACE_SIZE), 1usize << 39);
    assert_eq!(stage2_guest_address_space_size(48, VM_ASPACE_SIZE), VM_ASPACE_SIZE);
}

#[test]
fn direct_ranges_are_cut_out_of_emulated_resources() {
    let whole = Resource::MmioRange { base: 0x1000, size: 0x4000 };
    assert_eq!(
        split_emulated_range(whole, &vec![0x2000..0x3000]),
        vec![
            Resource::MmioRange { base: 0x1000, size: 0x1000 },
            Resource::MmioRange { base: 0x3000, size: 0x2000 },
        ]
    );
    // Covered ranges vanish, untouched ranges and ports stay.
    assert_eq!(split_emulated_range(whole, &vec![0..0x8000]), vec![]);
    assert_eq!(split_emulated_range(whole, &vec![0x8000..0x9000]), vec![whole]);
    let port = Resource::PortRange { base: 0x60, size: 4 };
    assert_eq!(split_emulated_range(port, &vec![0..0x8000]), vec![port]);
    let mapping = DirectMapping::new(0x1000, 0x5000, 0x1000, true, "x").unwrap();
    assert_eq!(
        emulated_resources(&vec![(0x1000, 0x4000)], &vec![mapping]),
        vec![Resource::MmioRange { base: 0x2000, size: 0x3000 }]
    );
}

#[test]
fn passthrough_ranges_and_device_trees_are_checked() {
    let assignment = passthrough_assignment(0x1000, 0x2000, 0x3000).unwrap();
    assert_eq!(assignment.base_gpa, 0x1000);
    assert_eq!(assignment.base_hpa, 0x2000);
    assert_eq!(assignment.length, 0x3000);
    assert!(validate_guest_dtb(Some(0x1000), true).is_ok());
    assert!(validate_guest_dtb(None, false).is_ok());
    assert!(matches!(
        validate_guest_dtb(Some(0x1000), false),
        Err(AddressSpaceError::InvalidConfig { .. })
            | Err(AddressSpaceError::InvalidInput { .. })
    ));
}

#[test]
fn only_emulated_nodes_contribute_ranges() {
    let nodes = vec![
        (DeviceNodeKind::Virtual, vec![(0x1000, 0x100), (0x3000, 0x200)]),
        (DeviceNodeKind::Other, vec![(0x5000, 0x100)]),
        (DeviceNodeKind::HostReplacement, vec![(0x2000, 0x100)]),
    ];
    assert_eq!(emulated_ranges(&nodes), vec![(0x1000, 0x100), (0x3000, 0x200), (0x2000, 0x100)]);
}

#[test]
fn passthrough_mappings_become_assignments_in_order() {
    let mappings = vec![
        HostMapping { guest_base: 0x1000, host_base: 0x2000, length: 0x3000 },
        HostMapping { guest_base: 0x8000, host_base: 0x9000, length: 0x1000 },
    ];
    assert_eq!(
        passthrough_assignments(&mappings).unwrap(),
        vec![
            HostDeviceAssignment { base_gpa: 0x1000, base_hpa: 0x2000, length: 0x3000 },
            HostDeviceAssignment { base_gpa: 0x8000, base_hpa: 0x9000, length: 0x1000 },
        ]
    );
    assert_eq!(passthrough_assignments(&vec![]).unwrap(), vec![]);
}
