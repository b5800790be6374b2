use axdevice::ivshmem::backing::{BackingAllocation, BackingEffect};
use axdevice::ivshmem::doorbell::{Doorbell, DoorbellEvent};
use axdevice::ivshmem::error::IvshmemError;
use axdevice::ivshmem::link::{
    DoorbellRoute, IgnoredDoorbellCounters, IvshmemLink, IvshmemLinkRegistry, PeerAttachment,
    PeerReservation, DOORBELL_DIAGNOSTIC_INTERVAL,
};
use axdevice::ivshmem::profile::{LinkId, LinkProfile, PeerId, MAX_PEERS, SHARED_MEMORY_SIZE};
use axdevice::ivshmem::registers::{IvshmemRegisters, EVENT_STATUS_OFFSET};

type Allocation = Result<BackingAllocation, IvshmemError>;

fn memory() -> Allocation {
    Ok(BackingAllocation::from_parts(0x8_0000_0000, SHARED_MEMORY_SIZE))
}

fn link_of(registry: &mut IvshmemLinkRegistry, id: u32) -> &mut IvshmemLink {
    let index = registry.index_of(LinkId::new(id)).unwrap();
    &mut registry.links[index]
}

fn doorbell(target: u16, vector: u16) -> Doorbell {
    Doorbell::from_write(((target as u32) << 16) | vector as u32)
}

fn attached_pair() -> (IvshmemLinkRegistry, PeerReservation, PeerReservation) {
    let mut registry = IvshmemLinkRegistry::new();
    let peer0 = registry.reserve(1, 0, memory()).unwrap();
    let peer1 = registry.reserve(1, 1, memory()).unwrap();
    (registry, peer0, peer1)
}

#[test]
fn reserves_both_peers_of_one_link() {
    let mut registry = IvshmemLinkRegistry::new();
    let peer0 = registry.reserve(1, 0, memory()).unwrap();
    let peer1 = registry.reserve(1, 1, memory()).unwrap();
    assert_eq!(peer0.link(), peer1.link());
    assert_eq!(registry.links.len(), 1);
    assert_eq!(link_of(&mut registry, 1).max_peers(), MAX_PEERS);
    assert_eq!(link_of(&mut registry, 1).bar2_size(), SHARED_MEMORY_SIZE);
}

#[test]
fn rejects_duplicate_reservations_and_out_of_profile_peers() {
    let mut registry = IvshmemLinkRegistry::new();
    let _peer0 = registry.reserve(1, 0, memory()).unwrap();
    assert_eq!(
        registry.reserve(1, 0, memory()).unwrap_err(),
        IvshmemError::PeerAlreadyReserved { link: 1, peer: 0 }
    );
    assert_eq!(
        registry.reserve(1, 2, memory()).unwrap_err(),
        IvshmemError::PeerOutOfProfile { peer: 2, max_peers: MAX_PEERS }
    );
}

#[test]
fn shares_backing_across_reservations_and_isolates_links() {
    let mut registry = IvshmemLinkRegistry::new();
    let peer0 = registry.reserve(1, 0, memory()).unwrap();
    let peer1 = registry.reserve(1, 1, memory()).unwrap();
    let other = registry.reserve(2, 0, memory()).unwrap();
    link_of(&mut registry, peer0.link().value()).write_backing(0x40, 8, 0x1234).unwrap();
    assert_eq!(
        link_of(&mut registry, peer1.link().value()).backing().unwrap().read(0x40, 8).unwrap(),
        0x1234
    );
    assert_eq!(
        link_of(&mut registry, other.link().value()).backing().unwrap().read(0x40, 8).unwrap(),
        0
    );
    assert_ne!(peer0.link(), other.link());
}

#[test]
fn recreating_a_dead_link_zeroes_the_backing() {
    let mut registry = IvshmemLinkRegistry::new();
    let peer = registry.reserve(1, 0, memory()).unwrap();
    link_of(&mut registry, 1).write_backing(0, 4, 0xa5a5_a5a5).unwrap();
    peer.release(link_of(&mut registry, 1));
    assert!(link_of(&mut registry, 1).backing().is_err());
    let _recreated = registry.reserve(1, 0, memory()).unwrap();
    assert_eq!(link_of(&mut registry, 1).backing().unwrap().read(0, 4).unwrap(), 0);
}

#[test]
fn retired_peer_blocks_reservation_until_the_link_is_destroyed() {
    let mut registry = IvshmemLinkRegistry::new();
    let peer0 = registry.reserve(1, 0, memory()).unwrap();
    let peer1 = registry.reserve(1, 1, memory()).unwrap();
    peer0.release(link_of(&mut registry, 1));
    assert_eq!(
        registry.reserve(1, 0, memory()).unwrap_err(),
        IvshmemError::PeerRetired { link: 1, peer: 0 }
    );
    // The surviving peer keeps the link alive.
    assert!(registry.reserve(1, 1, memory()).is_err());
    peer1.release(link_of(&mut registry, 1));
    let recreated = registry.reserve(1, 0, memory()).unwrap();
    assert_eq!(recreated.peer_id().value(), 0);
}

#[test]
fn attach_toggles_the_peer_slot() {
    let mut registry = IvshmemLinkRegistry::new();
    let reservation = registry.reserve(1, 0, memory()).unwrap();
    let link = link_of(&mut registry, 1);
    let attachment = reservation.attach(link).unwrap();
    assert_eq!(
        reservation.attach(link).unwrap_err(),
        IvshmemError::PeerAlreadyAttached { link: 1, peer: 0 }
    );
    assert_eq!(attachment.peer_id().value(), 0);
    assert_eq!(attachment.link().value(), 1);
    attachment.detach(link);
    // Bundle retries reuse the same reservation.
    let retried = reservation.attach(link).unwrap();
    retried.detach(link);
}

#[test]
fn reservation_drop_while_attached_stays_consistent() {
    let mut registry = IvshmemLinkRegistry::new();
    let reservation = registry.reserve(1, 0, memory()).unwrap();
    let attachment = reservation.attach(link_of(&mut registry, 1)).unwrap();
    reservation.release(link_of(&mut registry, 1));
    // The dropped reservation retired the slot; the stale attachment must
    // not resurrect it, and the link stays alive through the attachment.
    assert_eq!(
        registry.reserve(1, 0, memory()).unwrap_err(),
        IvshmemError::PeerRetired { link: 1, peer: 0 }
    );
    attachment.detach(link_of(&mut registry, 1));
    let recreated = registry.reserve(1, 0, memory()).unwrap();
    recreated.attach(link_of(&mut registry, 1)).unwrap();
}

#[test]
fn many_links_can_coexist_in_one_registry() {
    let mut registry = IvshmemLinkRegistry::new();
    let mut links = Vec::new();
    for link_id in 0..8u32 {
        links.push(registry.reserve(link_id, 0, memory()).unwrap());
    }
    for (index, link) in links.iter().enumerate() {
        assert_eq!(link.link().value(), index as u32);
    }
}

#[test]
fn routes_a_doorbell_to_the_target_and_not_to_others() {
    let (mut registry, peer0, peer1) = attached_pair();
    let link = link_of(&mut registry, 1);
    let attachment0 = peer0.attach(link).unwrap();
    let attachment1 = peer1.attach(link).unwrap();
    attachment0.set_event_sink(link, 100).unwrap();
    attachment1.set_event_sink(link, 101).unwrap();

    let written = doorbell(1, 0);
    assert_eq!(
        link.deliver_doorbell(attachment0.peer_id(), written),
        DoorbellRoute::Deliver {
            sink: 101,
            event: DoorbellEvent::new(attachment0.peer_id(), written),
        }
    );
}

#[test]
fn repeated_doorbells_merge_into_one_pending_bit() {
    let (mut registry, peer0, peer1) = attached_pair();
    let link = link_of(&mut registry, 1);
    let attachment0 = peer0.attach(link).unwrap();
    let attachment1 = peer1.attach(link).unwrap();
    attachment1.set_event_sink(link, 101).unwrap();
    let mut registers = IvshmemRegisters::new();
    let mut ring = |link: &mut IvshmemLink, registers: &mut IvshmemRegisters| {
        if let DoorbellRoute::Deliver { sink: 101, .. } =
            link.deliver_doorbell(attachment0.peer_id(), doorbell(1, 0))
        {
            registers.record_event();
        }
    };
    let pending = |registers: &IvshmemRegisters| {
        registers.read(EVENT_STATUS_OFFSET, PeerId::new(0), MAX_PEERS).unwrap()
    };

    ring(link, &mut registers);
    ring(link, &mut registers);
    assert_eq!(pending(&registers), 1);

    // The guest clears via W1C and the next doorbell pends again.
    registers.write(EVENT_STATUS_OFFSET, 1).unwrap();
    assert_eq!(pending(&registers), 0);
    ring(link, &mut registers);
    assert_eq!(pending(&registers), 1);
}

#[test]
fn inactive_targets_and_unsupported_vectors_are_ignored() {
    // Peer 0 stays reserved without attaching: it is the inactive target.
    let (mut registry, _peer0, peer1) = attached_pair();
    let link = link_of(&mut registry, 1);
    let attachment1 = peer1.attach(link).unwrap();
    attachment1.set_event_sink(link, 101).unwrap();

    // Peer 0 is reserved but not attached: the doorbell is a no-op.
    assert_eq!(
        link.deliver_doorbell(attachment1.peer_id(), doorbell(0, 0)),
        DoorbellRoute::NotAttached { log: true }
    );
    // Vector 1 is not supported by the current profile: also a no-op.
    assert_eq!(
        link.deliver_doorbell(attachment1.peer_id(), doorbell(1, 1)),
        DoorbellRoute::UnsupportedVector { log: true }
    );
    // An out-of-profile target is a no-op, not a device error.
    assert_eq!(
        link.deliver_doorbell(attachment1.peer_id(), doorbell(9, 0)),
        DoorbellRoute::OutOfProfile { log: true }
    );
}

#[test]
fn a_failing_sink_is_ignored_without_panicking() {
    let (mut registry, peer0, _peer1) = attached_pair();
    let link = link_of(&mut registry, 1);
    let attachment0 = peer0.attach(link).unwrap();
    attachment0.set_event_sink(link, 100).unwrap();
    let route = link.deliver_doorbell(attachment0.peer_id(), doorbell(0, 0));
    assert!(matches!(route, DoorbellRoute::Deliver { sink: 100, .. }));
    assert!(link.delivery_failed());
    assert!(!link.delivery_failed());
}

#[test]
fn a_detached_endpoint_stops_receiving_doorbells() {
    let (mut registry, peer0, peer1) = attached_pair();
    let link = link_of(&mut registry, 1);
    let attachment0 = peer0.attach(link).unwrap();
    let attachment1 = peer1.attach(link).unwrap();
    attachment1.set_event_sink(link, 101).unwrap();
    attachment1.detach(link);

    let route = link.deliver_doorbell(attachment0.peer_id(), doorbell(1, 0));
    assert!(!matches!(route, DoorbellRoute::Deliver { .. }));
}

#[test]
fn a_stale_sink_does_not_survive_reattachment() {
    let mut registry = IvshmemLinkRegistry::new();
    let reservation = registry.reserve(1, 0, memory()).unwrap();
    let link = link_of(&mut registry, 1);
    let stale = reservation.attach(link).unwrap();
    stale.set_event_sink(link, 100).unwrap();
    stale.detach(link);
    // Bundle retries attach a new generation and must start without the
    // previous attachment's sink.
    let _fresh = reservation.attach(link).unwrap();
    assert_eq!(link.deliver_doorbell(PeerId::new(1), doorbell(0, 0)), DoorbellRoute::NoSink);
}

#[test]
fn set_event_sink_requires_the_current_attachment_generation() {
    let mut registry = IvshmemLinkRegistry::new();
    let reservation = registry.reserve(1, 0, memory()).unwrap();
    let link = link_of(&mut registry, 1);
    let current = reservation.attach(link).unwrap();
    let stale = PeerAttachment {
        link: reservation.link(),
        peer: reservation.peer_id(),
        generation: current.generation.wrapping_sub(1),
    };
    assert_eq!(
        stale.set_event_sink(link, 100),
        Err(IvshmemError::PeerNotReserved { link: 1, peer: 0 })
    );
    current.set_event_sink(link, 101).unwrap();
}

#[test]
fn state_writes_publish_into_the_shared_state_table() {
    let (mut registry, peer0, peer1) = attached_pair();
    assert_eq!(peer0.link(), peer1.link());
    let link = link_of(&mut registry, 1);

    link.publish_state(PeerId::new(0), 0x0001_0002).unwrap();
    // One shared state table serves both peers.
    assert_eq!(link.backing().unwrap().read(0, 4).unwrap(), 0x0001_0002);
    // The second peer's entry stays untouched.
    assert_eq!(link.backing().unwrap().read(4, 4).unwrap(), 0);

    // Reserved bytes inside the state-table page read zero even after
    // entries are published.
    assert_eq!(link.backing().unwrap().read(0x8, 4).unwrap(), 0);
    assert_eq!(link.backing().unwrap().read(0xffc, 4).unwrap(), 0);

    // Clearing zeroes the entry without touching the shared region.
    link.clear_state(PeerId::new(0)).unwrap();
    assert_eq!(link.backing().unwrap().read(0, 4).unwrap(), 0);
}

#[test]
fn state_publish_rejects_unknown_peers() {
    let mut registry = IvshmemLinkRegistry::new();
    let _reservation = registry.reserve(1, 0, memory()).unwrap();
    assert_eq!(
        link_of(&mut registry, 1).publish_state(PeerId::new(2), 0),
        Err(IvshmemError::PeerOutOfProfile { peer: 2, max_peers: MAX_PEERS })
    );
}

#[test]
fn link_profile_rejects_invalid_configurations() {
    assert!(LinkProfile::new(0, 0, 0x1000).is_err());
    assert!(LinkProfile::new(65, 0, 0x1000).is_err());
    assert!(LinkProfile::new(2, 0x800, 0x1000).is_err());
    assert!(LinkProfile::new(2, 0, 0).is_err());
    assert!(LinkProfile::new(2, 0, 0x800).is_err());
    // The baseline is a valid profile.
    assert_eq!(LinkProfile::baseline().max_peers(), 2);
    assert_eq!(LinkProfile::baseline().common_size(), 0);
}

#[test]
fn reservations_must_declare_matching_profiles() {
    let mut registry = IvshmemLinkRegistry::new();
    let _peer0 = registry
        .reserve_with_profile(1, 0, LinkProfile::new(3, 0x1000, 0x2000).unwrap(), memory())
        .unwrap();
    // A different profile for the same link mismatches.
    let error =
        registry.reserve_with_profile(1, 1, LinkProfile::baseline(), memory()).unwrap_err();
    assert!(matches!(error, IvshmemError::LinkProfileMismatch { link: 1, .. }));
    // The matching profile reserves normally.
    registry
        .reserve_with_profile(1, 1, LinkProfile::new(3, 0x1000, 0x2000).unwrap(), memory())
        .unwrap();
}

#[test]
fn generation_advances_when_the_lifecycle_ends() {
    let mut registry = IvshmemLinkRegistry::new();
    let reservation =
        registry.reserve_with_profile(1, 0, LinkProfile::baseline(), memory()).unwrap();
    assert_eq!(link_of(&mut registry, 1).generation().value(), 0);
    reservation.release(link_of(&mut registry, 1));
    // The skeleton survives with an advanced generation.
    assert_eq!(link_of(&mut registry, 1).generation().value(), 1);
    // Re-reserving lands in the fresh lifecycle.
    assert!(registry.needs_backing(1, LinkProfile::baseline()));
    let _reattached =
        registry.reserve_with_profile(1, 0, LinkProfile::baseline(), memory()).unwrap();
    assert_eq!(link_of(&mut registry, 1).generation().value(), 1);
    // The rebuilt backing is zeroed: old state is structurally invalid.
    assert_eq!(link_of(&mut registry, 1).backing().unwrap().read(0, 4).unwrap(), 0);
}

#[test]
fn three_peers_route_without_cross_talk() {
    let mut registry = IvshmemLinkRegistry::new();
    let profile = LinkProfile::new(3, 0, 0x2000).unwrap();
    let reservations = [
        registry.reserve_with_profile(1, 0, profile, memory()).unwrap(),
        registry.reserve_with_profile(1, 1, profile, memory()).unwrap(),
        registry.reserve_with_profile(1, 2, profile, memory()).unwrap(),
    ];
    let link = link_of(&mut registry, 1);
    let attachments = [
        reservations[0].attach(link).unwrap(),
        reservations[1].attach(link).unwrap(),
        reservations[2].attach(link).unwrap(),
    ];
    for (index, attachment) in attachments.iter().enumerate() {
        attachment.set_event_sink(link, 100 + index).unwrap();
    }

    // Peer 1 rings peer 2 only.
    let route = link.deliver_doorbell(attachments[1].peer_id(), doorbell(2, 0));
    assert!(matches!(route, DoorbellRoute::Deliver { sink: 102, .. }));

    // Peer 0 rings peer 0 (self) only.
    let route = link.deliver_doorbell(attachments[0].peer_id(), doorbell(0, 0));
    assert!(matches!(route, DoorbellRoute::Deliver { sink: 100, .. }));
}

#[test]
fn doorbell_diagnostics_log_once_per_interval() {
    let mut counter = 0u32;
    assert!(IgnoredDoorbellCounters::should_log(&mut counter));
    // Occurrences 2..1023 stay silent; 1024 logs again.
    for _ in 1..DOORBELL_DIAGNOSTIC_INTERVAL - 1 {
        assert!(!IgnoredDoorbellCounters::should_log(&mut counter));
    }
    assert!(IgnoredDoorbellCounters::should_log(&mut counter));
}

#[test]
fn failed_allocations_leave_no_reservation() {
    let mut registry = IvshmemLinkRegistry::new();
    let refused: Allocation =
        Err(IvshmemError::AllocationFailed { operation: "allocate ivshmem link backing" });
    assert_eq!(
        registry.reserve(1, 0, refused).unwrap_err(),
        IvshmemError::AllocationFailed { operation: "allocate ivshmem link backing" }
    );
    registry.reserve(1, 0, memory()).unwrap();
}

#[test]
fn lifecycle_end_zeroes_and_reactivation_replaces_the_memory() {
    let size = SHARED_MEMORY_SIZE;
    let first = BackingAllocation::from_parts(0x8_0000_0000, size);
    let second = BackingAllocation::from_parts(0x9_0000_0000, size);
    let mut registry = IvshmemLinkRegistry::new();
    let reservation = registry.reserve(1, 0, Ok(first)).unwrap();
    let link = link_of(&mut registry, 1);
    assert_eq!(link.take_effects(), vec![BackingEffect::Zero { allocation: first, size }]);
    reservation.release(link);
    assert_eq!(link.take_effects(), vec![BackingEffect::Zero { allocation: first, size }]);
    let _again = registry.reserve(1, 0, Ok(second)).unwrap();
    assert_eq!(
        link_of(&mut registry, 1).take_effects(),
        vec![
            BackingEffect::Zero { allocation: second, size },
            BackingEffect::Release { allocation: first },
        ]
    );
    assert_eq!(registry.take_effects(), vec![]);
    assert_eq!(registry.release(), vec![BackingEffect::Release { allocation: second }]);
}

#[test]
fn memory_of_an_impossible_link_goes_back() {
    let size = SHARED_MEMORY_SIZE;
    let allocation = memory().unwrap();
    let mut registry = IvshmemLinkRegistry::new();
    let profile = LinkProfile::new(2, 0, size).unwrap();
    assert!(matches!(
        registry.reserve_with_profile(1, 0, profile, memory()),
        Err(IvshmemError::InvalidLayout { .. })
    ));
    assert!(registry.links.is_empty());
    assert_eq!(
        registry.take_effects(),
        vec![BackingEffect::Zero { allocation, size }, BackingEffect::Release { allocation }]
    );
    assert_eq!(registry.release(), vec![]);
}

#[test]
fn published_states_reach_the_memory() {
    let (mut registry, peer0, _peer1) = attached_pair();
    let link = link_of(&mut registry, 1);
    let attachment = peer0.attach(link).unwrap();
    link.take_effects();
    link.publish_state(attachment.peer_id(), 0x0102_0304).unwrap();
    assert_eq!(
        link.take_effects(),
        vec![BackingEffect::Store {
            allocation: memory().unwrap(),
            offset: 0,
            bytes: vec![4, 3, 2, 1],
        }]
    );
    link.observe(0x2000, &vec![7]).unwrap();
    assert_eq!(link.backing().unwrap().read(0x2000, 1).unwrap(), 7);
    assert_eq!(link.take_effects(), vec![]);
}
