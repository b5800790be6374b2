use axdevice::ivshmem::backing::BackingAllocation;
use axdevice::ivshmem::error::IvshmemError;
use axdevice::ivshmem::layout::{Bar2Section, IvshmemMemoryLayout, SectionDesc};
use axdevice::ivshmem::plan::IvshmemDirectPlan;
use axdevice::ivshmem::profile::{LinkProfile, PeerId, SHARED_MEMORY_SIZE};

fn two_peer_layout() -> IvshmemMemoryLayout {
    IvshmemMemoryLayout::derive(SHARED_MEMORY_SIZE, LinkProfile::baseline()).unwrap()
}

fn peer(value: u16) -> PeerId {
    PeerId::new(value)
}

#[test]
fn derives_the_frozen_two_peer_profile() {
    let layout = two_peer_layout();
    assert_eq!(layout.bar2_size(), SHARED_MEMORY_SIZE);
    assert_eq!(layout.state_table().offset(), 0);
    assert_eq!(layout.state_table().size(), 0x1000);
    assert_eq!(layout.common(), None);
    let outputs = layout.outputs();
    assert_eq!(outputs.len(), 2);
    assert_eq!(outputs[0].offset(), 0x1000);
    assert_eq!(outputs[0].size(), 0x7000);
    assert_eq!(outputs[1].offset(), 0x8000);
    assert_eq!(outputs[1].size(), 0x7000);
    // Both peer entries fit inside the state-table page.
    assert_eq!(layout.state_entry_offset(PeerId::new(0), 2).unwrap(), 0);
    assert_eq!(layout.state_entry_offset(PeerId::new(1), 2).unwrap(), 4);
    layout.validate().unwrap();
}

#[test]
fn classifies_every_offset_boundary_into_its_section() {
    let layout = two_peer_layout();
    let expectations: &[(u64, Bar2Section)] = &[
        (0, Bar2Section::StateTable),
        (4, Bar2Section::StateTable),
        (0xfff, Bar2Section::StateTable),
        (0x1000, Bar2Section::Output(PeerId::new(0))),
        (0x7fff, Bar2Section::Output(PeerId::new(0))),
        (0x8000, Bar2Section::Output(PeerId::new(1))),
        (0xefff, Bar2Section::Output(PeerId::new(1))),
        (0xf000, Bar2Section::Reserved),
        (0xffff, Bar2Section::Reserved),
    ];
    for (offset, expected) in expectations {
        assert_eq!(layout.classify(*offset), *expected, "offset {offset:#x}");
    }
}

#[test]
fn write_permissions_follow_the_owner_matrix() {
    let peer0 = PeerId::new(0);
    let peer1 = PeerId::new(1);
    // The state table is never writable through BAR2.
    assert!(!Bar2Section::StateTable.allows_write(peer0));
    assert!(!Bar2Section::StateTable.allows_write(peer1));
    // Common would be writable by everyone (absent in this profile).
    assert!(Bar2Section::Common.allows_write(peer0));
    assert!(Bar2Section::Common.allows_write(peer1));
    // Output sections are writable by their owner only.
    assert!(Bar2Section::Output(peer0).allows_write(peer0));
    assert!(!Bar2Section::Output(peer0).allows_write(peer1));
    assert!(Bar2Section::Output(peer1).allows_write(peer1));
    assert!(!Bar2Section::Output(peer1).allows_write(peer0));
    // Reserved writes are ignored by the caller, never granted.
    assert!(!Bar2Section::Reserved.allows_write(peer0));
    // Section names are stable, non-empty diagnostics.
    assert!(!Bar2Section::StateTable.name().is_empty());
    assert_eq!(Bar2Section::Output(peer1).name(), "output section");
}

#[test]
fn rejects_bar2_sizes_that_cannot_host_the_sections() {
    // Zero bytes cannot host the state-table page (any page-aligned size
    // below one page is zero).
    assert!(IvshmemMemoryLayout::derive(0, LinkProfile::baseline())
        .unwrap_err()
        .message()
        .contains("cannot host"));
    // Not enough room for the baseline output sections.
    assert!(IvshmemMemoryLayout::derive(0x2000, LinkProfile::baseline())
        .unwrap_err()
        .message()
        .contains("beyond the"));
    // Unaligned BAR2 size.
    assert!(IvshmemMemoryLayout::derive(0x1800, LinkProfile::baseline()).is_err());
    // Empty peer profile is rejected by the profile itself.
    assert!(LinkProfile::new(0, 0, 0x1000).is_err());
    // A reduced profile fits a smaller BAR2: state page plus one output
    // page per peer, with no reserved tail.
    let tight =
        IvshmemMemoryLayout::derive(0x3000, LinkProfile::new(2, 0, 0x1000).unwrap()).unwrap();
    assert_eq!(tight.outputs()[0].size(), 0x1000);
    assert_eq!(tight.outputs()[1].size(), 0x1000);
    assert_eq!(tight.classify(0x3000), Bar2Section::Reserved);
}

#[test]
fn rejects_entries_outside_the_derived_profile() {
    let layout = two_peer_layout();
    assert_eq!(
        layout.state_entry_offset(PeerId::new(2), 2),
        Err(IvshmemError::PeerOutOfProfile { peer: 2, max_peers: 2 })
    );
    // The count that the layout was derived from bounds the peer too.
    assert_eq!(
        layout.state_entry_offset(PeerId::new(2), 5),
        Err(IvshmemError::PeerOutOfProfile { peer: 2, max_peers: 5 })
    );
}

#[test]
fn sections_reject_unaligned_or_empty_bounds() {
    let expected_detail = |detail: &str| IvshmemError::InvalidLayout { detail: detail.into() };
    assert_eq!(
        SectionDesc::new(0x800, 0x1000),
        Err(expected_detail("section offset 0x800 is not 0x1000-aligned"))
    );
    assert_eq!(
        SectionDesc::new(0, 0x800),
        Err(expected_detail("section size 0x800 is not 0x1000-aligned"))
    );
    assert_eq!(SectionDesc::new(0, 0), Err(expected_detail("section size is zero")));
}

#[test]
fn section_contains_its_range_exclusively() {
    let section = SectionDesc::new(0x1000, 0x2000).unwrap();
    assert!(section.contains(0x1000));
    assert!(section.contains(0x2fff));
    assert!(!section.contains(0xfff));
    assert!(!section.contains(0x3000));
}

#[test]
fn validate_rejects_overlaps_and_sections_leaving_the_bar2() {
    // A hand-built layout whose second output extends past the BAR2.
    let layout = IvshmemMemoryLayout {
        state_table: SectionDesc::new(0, 0x1000).unwrap(),
        common: None,
        outputs: vec![
            SectionDesc::new(0x1000, 0x7000).unwrap(),
            SectionDesc::new(0x8000, 0x9000).unwrap(),
        ],
        bar2_size: SHARED_MEMORY_SIZE,
    };
    let error = layout.validate().unwrap_err();
    assert!(error.message().contains("leaves the"));
    assert_eq!(layout.classify(0xf000), Bar2Section::Output(PeerId::new(1)));

    // A hand-built layout with overlapping sections.
    let layout = IvshmemMemoryLayout {
        state_table: SectionDesc::new(0, 0x1000).unwrap(),
        common: Some(SectionDesc::new(0x1000, 0x2000).unwrap()),
        outputs: vec![SectionDesc::new(0x2000, 0x1000).unwrap()],
        bar2_size: SHARED_MEMORY_SIZE,
    };
    let error = layout.validate().unwrap_err();
    assert!(error.message().contains("overlaps"));
}

#[test]
fn validate_accepts_a_common_section_between_outputs() {
    let layout = IvshmemMemoryLayout {
        state_table: SectionDesc::new(0, 0x1000).unwrap(),
        common: Some(SectionDesc::new(0x1000, 0x1000).unwrap()),
        outputs: vec![
            SectionDesc::new(0x2000, 0x1000).unwrap(),
            SectionDesc::new(0x3000, 0x1000).unwrap(),
        ],
        bar2_size: SHARED_MEMORY_SIZE,
    };
    layout.validate().unwrap();
    assert_eq!(layout.classify(0x1000), Bar2Section::Common);
    assert_eq!(layout.classify(0x2000), Bar2Section::Output(peer(0)));
    assert_eq!(layout.classify(0x3000), Bar2Section::Output(peer(1)));
}

#[test]
fn derived_layouts_validate_with_a_common_section() {
    let profile = LinkProfile::new(3, 0x1000, 0x2000).unwrap();
    let layout = IvshmemMemoryLayout::derive(SHARED_MEMORY_SIZE, profile).unwrap();
    layout.validate().unwrap();
    assert_eq!(layout.common().unwrap().offset(), 0x1000);
    assert_eq!(layout.outputs()[2].offset(), 0x6000);
    assert_eq!(layout.classify(0x5fff), Bar2Section::Output(peer(1)));
    assert_eq!(layout.classify(0x8000), Bar2Section::Reserved);
}

fn backing() -> BackingAllocation {
    BackingAllocation::from_parts(0x8_0000_0000, SHARED_MEMORY_SIZE)
}

#[test]
fn owner_and_visitor_views_differ_only_in_output_writability() {
    let layout = two_peer_layout();
    let owner =
        IvshmemDirectPlan::derive(&layout, 0x0c00_0000, &backing(), PeerId::new(0)).unwrap();
    let visitor =
        IvshmemDirectPlan::derive(&layout, 0x0c00_0000, &backing(), PeerId::new(1)).unwrap();

    // Both views carry state table + two outputs; the reserved tail is
    // absent from both, and the section sequence is identical.
    assert_eq!(owner.mappings().len(), 3);
    assert_eq!(visitor.mappings().len(), 3);
    let owner_labels = owner.mappings().iter().map(|mapping| mapping.label()).collect::<Vec<_>>();
    let visitor_labels =
        visitor.mappings().iter().map(|mapping| mapping.label()).collect::<Vec<_>>();
    assert_eq!(owner_labels, visitor_labels);
    // The state table is read-only in every view.
    assert!(!owner.mappings()[0].writable());
    assert_eq!(owner.mappings()[0].gpa_base(), 0x0c00_0000);
    assert_eq!(owner.mappings()[0].hpa_base(), 0x8_0000_0000);
    // Peer 0's own output is writable, peer 1's is read-only.
    assert!(owner.mappings()[1].writable());
    assert!(!owner.mappings()[2].writable());
    // The visitor view flips the writability.
    assert!(!visitor.mappings()[1].writable());
    assert!(visitor.mappings()[2].writable());
}

#[test]
fn mappings_cover_the_layout_sections_exactly() {
    let layout = two_peer_layout();
    let plan = IvshmemDirectPlan::derive(&layout, 0x0c00_0000, &backing(), PeerId::new(0)).unwrap();
    let outputs = layout.outputs();
    assert_eq!(plan.mappings()[1].gpa_base(), 0x0c00_0000 + outputs[0].offset());
    assert_eq!(plan.mappings()[1].size(), outputs[0].size());
    assert_eq!(plan.mappings()[2].gpa_base(), 0x0c00_0000 + outputs[1].offset());
    assert_eq!(plan.mappings()[2].size(), outputs[1].size());
}

#[test]
fn revocation_covers_the_whole_bar2() {
    let layout = two_peer_layout();
    let plan = IvshmemDirectPlan::derive(&layout, 0x0c00_0000, &backing(), PeerId::new(1)).unwrap();
    assert_eq!(plan.bar2_gpa(), 0x0c00_0000);
    let range = plan.revocation_range();
    assert_eq!(range.base(), 0x0c00_0000);
    assert_eq!(range.size(), SHARED_MEMORY_SIZE);
}

#[test]
fn rejects_misaligned_addresses() {
    let layout = two_peer_layout();
    assert!(IvshmemDirectPlan::derive(&layout, 0x0c00_0800, &backing(), PeerId::new(0)).is_err());
    let unaligned_backing = BackingAllocation::from_parts(0x8_0000_0800, SHARED_MEMORY_SIZE);
    assert!(
        IvshmemDirectPlan::derive(&layout, 0x0c00_0000, &unaligned_backing, PeerId::new(0)).is_err()
    );
}

#[test]
fn one_page_outputs_derive_without_reserved_mappings() {
    // A three-page BAR2 with one output page per peer hosts the state
    // table plus both outputs; nothing remains for the reserved tail.
    let profile = LinkProfile::new(2, 0, 0x1000).unwrap();
    let layout = IvshmemMemoryLayout::derive(0x3000, profile).unwrap();
    let plan = IvshmemDirectPlan::derive(&layout, 0x0c00_0000, &backing(), PeerId::new(0)).unwrap();
    assert_eq!(plan.mappings().len(), 3);
}

#[test]
fn misaligned_addresses_are_refused_at_the_end_of_the_address_space() {
    let layout = two_peer_layout();
    assert!(
        IvshmemDirectPlan::derive(&layout, u64::MAX - 0x7ff, &backing(), PeerId::new(0)).is_err()
    );
    assert!(layout.state_entry_offset(PeerId::new(u16::MAX), 2).is_err());
}

#[test]
fn refused_offsets_are_found_inside_a_range() {
    let layout =
        IvshmemMemoryLayout::derive(0x10000, LinkProfile::new(2, 0x1000, 0x2000).unwrap()).unwrap();
    let first = |peer, start, end| layout.first_refused_offset(PeerId::new(peer), start, end);
    // The common section takes every peer, and each output its owner.
    assert_eq!(first(0, 0x1000, 0x2000), None);
    assert_eq!(first(0, 0x2ffe, 0x3002), None);
    assert_eq!(first(0, 0x3ffe, 0x4002), Some(0x4000));
    assert_eq!(first(1, 0x3ffe, 0x4002), Some(0x3ffe));
    assert_eq!(first(1, 0x5ffe, 0x6002), Some(0x6000));
    assert_eq!(first(0, 0xffe, 0x1002), Some(0xffe));
    assert_eq!(first(0, 0xffe, 0xffe), None);
}
