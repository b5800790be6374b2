use axdevice::ivshmem::doorbell::{Doorbell, DoorbellEvent};
use axdevice::ivshmem::error::IvshmemError;
use axdevice::ivshmem::profile::PeerId;
use axdevice::ivshmem::registers::{
    IvshmemRegisters, DOORBELL_OFFSET, EVENT_STATUS_OFFSET, ID_OFFSET, INTERRUPT_CONTROL_ENABLE,
    INTERRUPT_CONTROL_OFFSET, MAXIMUM_PEERS_OFFSET, REGISTER_PAGE_SIZE, STATE_OFFSET,
};

const PEER: PeerId = PeerId(1);
const MAX_PEERS: u16 = 2;

fn doorbell(target: u16, vector: u16) -> Doorbell {
    Doorbell::from_write(((target as u32) << 16) | vector as u32)
}

#[test]
fn decodes_target_and_vector_from_the_written_dword() {
    let decoded = doorbell(1, 2);
    assert_eq!(decoded.target(), PeerId::new(1));
    assert_eq!(decoded.vector(), 2);
    assert_eq!(Doorbell::from_write(0), doorbell(0, 0));
    // Every u32 decodes: the upper and lower halves partition cleanly.
    let saturated = Doorbell::from_write(0xffff_ffff);
    assert_eq!(saturated.target(), PeerId::new(0xffff));
    assert_eq!(saturated.vector(), 0xffff);
}

#[test]
fn events_take_the_source_from_the_link_not_the_write() {
    let event = DoorbellEvent::new(PeerId::new(0), doorbell(1, 0));
    assert_eq!(event.source(), PeerId::new(0));
    assert_eq!(event.target(), PeerId::new(1));
    assert_eq!(event.vector(), 0);
}

#[test]
fn doorbell_values_render_for_diagnostics() {
    assert_eq!(
        format!("{:?}", doorbell(1, 0)),
        "Doorbell { target: PeerId(1), vector: 0 }"
    );
}

#[test]
fn reads_identity_from_the_link_not_from_mutable_state() {
    let registers = IvshmemRegisters::new();
    assert_eq!(registers.read(ID_OFFSET, PEER, MAX_PEERS).unwrap(), 1);
    assert_eq!(registers.read(MAXIMUM_PEERS_OFFSET, PEER, MAX_PEERS).unwrap(), 2);
    // Identity registers are read-only.
    let mut registers = registers;
    registers.write(ID_OFFSET, 0xffff).unwrap();
    registers.write(MAXIMUM_PEERS_OFFSET, 0xffff).unwrap();
    assert_eq!(registers.read(ID_OFFSET, PEER, MAX_PEERS).unwrap(), 1);
    assert_eq!(registers.read(MAXIMUM_PEERS_OFFSET, PEER, MAX_PEERS).unwrap(), 2);
}

#[test]
fn interrupt_control_keeps_only_the_enable_bit() {
    let mut registers = IvshmemRegisters::new();
    registers.write(INTERRUPT_CONTROL_OFFSET, 0xffff_ffff).unwrap();
    assert_eq!(
        registers.read(INTERRUPT_CONTROL_OFFSET, PEER, MAX_PEERS).unwrap(),
        INTERRUPT_CONTROL_ENABLE
    );
    registers.write(INTERRUPT_CONTROL_OFFSET, 0).unwrap();
    assert_eq!(registers.read(INTERRUPT_CONTROL_OFFSET, PEER, MAX_PEERS).unwrap(), 0);
}

#[test]
fn state_register_stores_the_full_dword() {
    let mut registers = IvshmemRegisters::new();
    registers.write(STATE_OFFSET, 0xdead_beef).unwrap();
    assert_eq!(registers.read(STATE_OFFSET, PEER, MAX_PEERS).unwrap(), 0xdead_beef);
}

#[test]
fn doorbell_reads_zero_and_ignores_writes() {
    let mut registers = IvshmemRegisters::new();
    registers.write(DOORBELL_OFFSET, 0x0001_0002).unwrap();
    assert_eq!(registers.read(DOORBELL_OFFSET, PEER, MAX_PEERS).unwrap(), 0);
    // The ignored doorbell must not leak into neighbour registers.
    assert_eq!(registers.state, 0);
    assert_eq!(registers.interrupt_control, 0);
}

#[test]
fn event_status_starts_clear_and_only_clears_on_write_one() {
    let mut registers = IvshmemRegisters::new();
    assert_eq!(registers.read(EVENT_STATUS_OFFSET, PEER, MAX_PEERS).unwrap(), 0);
    registers.write(EVENT_STATUS_OFFSET, 0xffff_ffff).unwrap();
    assert_eq!(registers.read(EVENT_STATUS_OFFSET, PEER, MAX_PEERS).unwrap(), 0);
}

#[test]
fn recorded_events_merge_and_clear_on_write_one() {
    let mut registers = IvshmemRegisters::new();
    registers.record_event();
    registers.record_event();
    assert_eq!(registers.read(EVENT_STATUS_OFFSET, PEER, MAX_PEERS).unwrap(), 1);
    // Writing zero keeps the event.
    registers.write(EVENT_STATUS_OFFSET, 0).unwrap();
    assert_eq!(registers.read(EVENT_STATUS_OFFSET, PEER, MAX_PEERS).unwrap(), 1);
    registers.write(EVENT_STATUS_OFFSET, 1).unwrap();
    assert_eq!(registers.read(EVENT_STATUS_OFFSET, PEER, MAX_PEERS).unwrap(), 0);
}

#[test]
fn unknown_aligned_offsets_read_zero_and_ignore_writes() {
    let mut registers = IvshmemRegisters::new();
    for offset in [0x18, 0x800, REGISTER_PAGE_SIZE - 4] {
        registers.write(offset, 0xffff).unwrap();
        assert_eq!(registers.read(offset, PEER, MAX_PEERS).unwrap(), 0);
    }
}

#[test]
fn rejects_unaligned_and_out_of_page_accesses() {
    let registers = IvshmemRegisters::new();
    let expected = |offset: u64| IvshmemError::InvalidRegisterAccess {
        offset,
        page_size: REGISTER_PAGE_SIZE,
    };
    for offset in [1, 2, 3, 5, 0x102, REGISTER_PAGE_SIZE, REGISTER_PAGE_SIZE + 4] {
        assert_eq!(registers.read(offset, PEER, MAX_PEERS), Err(expected(offset)));
    }
    assert_eq!(
        expected(2).message(),
        "ivshmem register access at offset 0x2 is not an aligned 32-bit offset inside the \
         0x1000-byte register page"
    );
}

#[test]
fn reset_clears_local_registers_only() {
    let mut registers = IvshmemRegisters::new();
    registers.write(INTERRUPT_CONTROL_OFFSET, 1).unwrap();
    registers.write(STATE_OFFSET, 0x1234).unwrap();
    registers.reset();
    assert_eq!(registers, IvshmemRegisters::new());
}
