use std::ops::Range;

use axdevice::device::{DeviceNodeId, ResourceRequest};
use axdevice::pci::address::{PciBarIndex, PciBdf, CONFIG_SPACE_SIZE};
use axdevice::pci::bar::{PciBarDecodePolicy, PciMemoryBar, PciMemoryBarWidth, ResolvedBarPlan};
use axdevice::pci::config::PowerOnConfig;
use axdevice::pci::error::PciError;
use axdevice::pci::function::{PciClass, PciEndpointIdentity, PciFunctionSpec};
use axdevice::pci::msix::{MsixState, PciMsixDeclaration, MSIX_BAR_SIZE, MSIX_PBA_OFFSET};
use axdevice::pci::root::{IgnoredRelocation, PciConfigWriteEffect, PciRootState};
use axdevice::pci::state::FunctionState;
use axdevice::pci::topology::PciTopologyBuilder;

const APERTURE: Range<u64> = 0x2000_0000..0x2010_0000;

fn identity() -> PciEndpointIdentity {
    PciEndpointIdentity::new(0x1234, 0x5678, PciClass::new(0x05, 0x00, 0x00))
}

fn plan(bar: &PciMemoryBar, address: u64) -> ResolvedBarPlan {
    ResolvedBarPlan {
        index: bar.index(),
        size: bar.size(),
        width: PciMemoryBarWidth::Bits32,
        prefetchable: false,
        policy: PciBarDecodePolicy::RelocatableWithinHostAperture,
        address,
    }
}

fn function(power_on: PowerOnConfig, plans: &Vec<ResolvedBarPlan>) -> FunctionState {
    FunctionState::new(DeviceNodeId::new("endpoint"), PciBdf::bus_zero(1), power_on, plans, None)
}

#[test]
fn function_state_keeps_unimplemented_header_fields_read_only() {
    let bar =
        PciMemoryBar::new(PciBarIndex::new(2).unwrap(), 0x1_0000, PciMemoryBarWidth::Bits32)
            .unwrap();
    let plans = vec![plan(&bar, 0x2000_0000)];
    let power_on = PowerOnConfig::build(identity(), &plans, &vec![], false, None).unwrap();
    let mut state = function(power_on, &plans);

    state.write_non_bar(0, 4, 0);

    assert_eq!(state.read(0, 4), 0x5678_1234);
}

#[test]
fn msix_capability_is_visible_and_gated_by_the_write_mask() {
    let register_bar =
        PciMemoryBar::new(PciBarIndex::new(0).unwrap(), 0x1000, PciMemoryBarWidth::Bits32)
            .unwrap();
    let msix_bar =
        PciMemoryBar::new(PciBarIndex::new(1).unwrap(), MSIX_BAR_SIZE, PciMemoryBarWidth::Bits32)
            .unwrap();
    let plans = vec![plan(&register_bar, 0x2000_0000), plan(&msix_bar, 0x2001_0000)];
    let msix = PciMsixDeclaration::new(1).unwrap();
    let power_on = PowerOnConfig::build(identity(), &plans, &vec![], false, Some(msix)).unwrap();
    let mut state = FunctionState::new(
        DeviceNodeId::new("endpoint"),
        PciBdf::bus_zero(1),
        power_on,
        &plans,
        Some(msix),
    );

    // The capability list is advertised and points at the frozen offset.
    assert_eq!(state.config[6] & 0x10, 0x10);
    assert_eq!(state.config[0x34], 0x40);
    assert_eq!(state.config[0x40], 0x11);
    assert_eq!(state.config[0x41], 0);
    // Message Control starts with the read-only table size (1 vector → 0)
    // and the frozen Table/PBA BIR dwords point at BAR 1.
    assert_eq!(u16::from_le_bytes([state.config[0x42], state.config[0x43]]), 0);
    assert_eq!(state.config[0x44], 0x01);
    let pba = u32::from_le_bytes([
        state.config[0x48],
        state.config[0x49],
        state.config[0x4a],
        state.config[0x4b],
    ]);
    assert_eq!(pba & 0x7, 1);
    assert_eq!(pba >> 3, 0x100);

    // Guest writes flip only the writable Enable/Function Mask bits.
    state.write_non_bar(0x42, 2, 0x8fff);
    assert_eq!(state.msix_message_control().unwrap(), 0x8000);
    state.write_non_bar(0x42, 2, 0x4000);
    assert_eq!(state.msix_message_control().unwrap(), 0x4000);
    // A function without MSI-X reports no control value.
    let plain_power_on = PowerOnConfig::build(identity(), &plans, &vec![], false, None).unwrap();
    let plain = function(plain_power_on, &plans);
    assert!(plain.msix_message_control().is_none());
}

#[test]
fn declaration_validates_the_vector_count() {
    assert_eq!(PciMsixDeclaration::new(1).unwrap().vectors(), 1);
    assert!(PciMsixDeclaration::new(0).is_err());
    assert!(PciMsixDeclaration::new(2049).is_err());
}

#[test]
fn message_control_exposes_only_writable_bits() {
    let mut state = MsixState::new();
    assert!(!state.enabled());
    assert!(!state.function_masked());
    // Table Size (bits 10:0) and BIR fields ignore writes.
    state.write_message_control(0x0007);
    assert_eq!(state.read_message_control(), 0);
    state.write_message_control(0x8000);
    assert!(state.enabled());
    assert!(!state.function_masked());
    state.write_message_control(0xC000);
    assert!(state.enabled());
    assert!(state.function_masked());
}

#[test]
fn table_window_round_trips_all_four_words() {
    let mut state = MsixState::new();
    state.write_bar(0x0, 0xdead_beef).unwrap();
    state.write_bar(0x4, 0x1).unwrap();
    state.write_bar(0x8, 0x42).unwrap();
    state.write_bar(0xc, 0x1).unwrap();
    let entry = state.table_entry(0).unwrap();
    assert_eq!(entry.message_address(), 0xdead_beef);
    assert_eq!(entry.message_upper_address(), 1);
    assert_eq!(entry.message_data(), 0x42);
    assert!(entry.masked());
    assert_eq!(state.read_bar(0x0).unwrap(), 0xdead_beef);
    assert_eq!(state.read_bar(0xc).unwrap(), 1);
}

#[test]
fn per_vector_mask_unmasks_the_entry() {
    let mut state = MsixState::new();
    state.write_bar(0xc, 0x1).unwrap();
    assert!(state.table_entry(0).unwrap().masked());
    state.write_bar(0xc, 0x0).unwrap();
    assert!(!state.table_entry(0).unwrap().masked());
}

#[test]
fn pba_is_write_one_to_clear() {
    let mut state = MsixState::new();
    assert!(state.set_pending(0));
    assert!(state.pending(0));
    // Writing one clears and reports the pending bit.
    assert!(state.write_bar(MSIX_PBA_OFFSET, 1).unwrap());
    assert!(!state.pending(0));
    // Writing zero changes nothing.
    state.set_pending(0);
    assert!(!state.write_bar(MSIX_PBA_OFFSET, 0).unwrap());
    assert!(state.pending(0));
    // Writing one when clear reports nothing to re-deliver.
    state.write_bar(MSIX_PBA_OFFSET, 1).unwrap();
    assert!(!state.write_bar(MSIX_PBA_OFFSET, 1).unwrap());
}

#[test]
fn rejects_unaligned_and_out_of_range_accesses() {
    let mut state = MsixState::new();
    assert!(state.read_bar(2).is_err());
    assert!(state.write_bar(2, 0).is_err());
    // 0x10 is past the single-entry table window: reserved, reads zero.
    assert_eq!(state.read_bar(0x10).unwrap(), 0);
    assert!(state.read_bar(MSIX_BAR_SIZE).is_err());
    assert!(state.write_bar(MSIX_BAR_SIZE, 0).is_err());
    // Reserved BAR bytes read zero and ignore writes.
    assert_eq!(state.read_bar(0x804).unwrap(), 0);
    state.write_bar(0x804, 0xffff_ffff).unwrap();
    assert_eq!(state.read_bar(0x804).unwrap(), 0);
}

#[test]
fn reset_clears_everything() {
    let mut state = MsixState::new();
    state.write_message_control(0xC000);
    state.write_bar(0x0, 0x1234).unwrap();
    state.set_pending(0);
    state.reset();
    assert_eq!(state, MsixState::new());
}

#[test]
fn vector_blocked_follows_the_gate_chain() {
    let mut state = MsixState::new();
    // Disabled: blocked regardless of masks.
    assert!(state.vector_blocked(0));
    state.write_message_control(0x8000);
    assert!(!state.vector_blocked(0));
    // Function mask blocks.
    state.write_message_control(0xC000);
    assert!(state.vector_blocked(0));
    state.write_message_control(0x8000);
    // Vector mask blocks.
    state.write_bar(0xc, 0x1).unwrap();
    assert!(state.vector_blocked(0));
    state.write_bar(0xc, 0x0).unwrap();
    assert!(!state.vector_blocked(0));
    // Unknown vectors are always blocked.
    assert!(state.vector_blocked(3));
}

fn root_with_one_function() -> PciRootState {
    let mut builder = PciTopologyBuilder::new();
    builder
        .add_function(PciFunctionSpec::new(
            DeviceNodeId::new("endpoint"),
            PciEndpointIdentity::new(0x1234, 0x5678, PciClass::new(0xff, 0, 0)),
        ))
        .unwrap();
    let topology = builder.resolve(APERTURE).unwrap();
    PciRootState::new(&topology)
}

fn assert_rejected(state: &mut PciRootState, offset: usize, size: usize) {
    let bdf = state.functions[0].bdf();
    assert!(
        matches!(
            state.read_config(bdf, offset, size),
            Err(PciError::InvalidDirectConfigAccess { .. })
        ),
        "read offset {offset:#x} size {size} must be rejected"
    );
    assert!(
        matches!(
            state.write_config_locked(bdf, offset, size, 0),
            Err(PciError::InvalidDirectConfigAccess { .. })
        ),
        "write offset {offset:#x} size {size} must be rejected"
    );
}

#[test]
fn rejects_zero_length_config_accesses() {
    let mut state = root_with_one_function();
    assert_rejected(&mut state, 0, 0);
}

#[test]
fn rejects_qword_config_accesses() {
    let mut state = root_with_one_function();
    assert_rejected(&mut state, 0, 8);
    assert_rejected(&mut state, 0x100, 8);
}

#[test]
fn rejects_size_width_mismatches() {
    let mut state = root_with_one_function();
    for size in [3usize, 5, 16] {
        assert_rejected(&mut state, 0, size);
    }
}

#[test]
fn rejects_config_accesses_past_the_tail() {
    let mut state = root_with_one_function();
    assert_rejected(&mut state, 0x1000 - 3, 4);
    assert_rejected(&mut state, CONFIG_SPACE_SIZE - 1, 2);
}

#[test]
fn rejects_overflowing_config_offsets() {
    let mut state = root_with_one_function();
    assert_rejected(&mut state, usize::MAX - 2, 4);
}

fn root_with_fixed_bar() -> PciRootState {
    let bar = PciMemoryBar::new(PciBarIndex::new(0).unwrap(), 0x1000, PciMemoryBarWidth::Bits32)
        .unwrap()
        .with_decode_policy(PciBarDecodePolicy::Fixed)
        .with_address(ResourceRequest::Fixed(0x2000_4000));
    let mut builder = PciTopologyBuilder::new();
    builder
        .add_function(
            PciFunctionSpec::new(DeviceNodeId::new("endpoint"), identity()).with_bar(bar).unwrap(),
        )
        .unwrap();
    PciRootState::new(&builder.resolve(APERTURE).unwrap())
}

#[test]
fn rejects_config_accesses_across_a_bar_register() {
    let mut state = root_with_fixed_bar();
    assert_rejected(&mut state, 0x12, 4);
    let bdf = state.functions[0].bdf();
    // Only the register that an access starts in counts.
    assert!(state.read_config(bdf, 0x0e, 4).is_ok());
    assert_eq!(state.read_config(bdf, 0x12, 2).unwrap(), 0x2000);
}

#[test]
fn ignored_relocations_of_fixed_bars_are_reported() {
    let mut state = root_with_fixed_bar();
    let bdf = state.functions[0].bdf();
    let ignored = IgnoredRelocation {
        bar: PciBarIndex::new(0).unwrap(),
        candidate: 0x2000_8000,
        planned: 0x2000_4000,
    };
    assert_eq!(
        state.write_config_locked(bdf, 0x10, 4, 0x2000_8000).unwrap(),
        Some(PciConfigWriteEffect { command: None, ignored_relocation: Some(ignored) })
    );
    // The planned address is no relocation.
    assert_eq!(state.write_config_locked(bdf, 0x10, 4, 0x2000_4000).unwrap(), None);
}

#[test]
fn absent_bdf_reads_all_ones_and_ignores_writes_without_effects() {
    let mut state = root_with_one_function();
    let absent = PciBdf::bus_zero(31 * 8 + 7);
    assert_eq!(state.read_config(absent, 0, 1).unwrap(), 0xff);
    assert!(state.write_config_locked(absent, 4, 2, 0xffff).unwrap().is_none());
}

#[test]
fn stale_unbinds_keep_the_newer_binding() {
    let mut state = root_with_one_function();
    let id = DeviceNodeId::new("endpoint");
    let first = state.bind_function(&id, 1).unwrap();
    assert!(matches!(
        state.bind_function(&id, 2),
        Err(PciError::FunctionAlreadyBound { .. })
    ));
    state.unbind_function(&id, first);
    let second = state.bind_function(&id, 2).unwrap();
    assert_ne!(first, second);
    state.unbind_function(&id, first);
    assert_eq!(state.functions[0].handler(), Some(2));
    assert!(matches!(
        state.bind_function(&DeviceNodeId::new("absent"), 3),
        Err(PciError::FunctionNotFound { .. })
    ));
}

#[test]
fn pci_errors_explain_themselves() {
    let bdf = PciBdf::bus_zero(5 * 8 + 1);
    assert_eq!(bdf.to_text(), "0000:00:05.1");
    let message = PciError::DuplicateBdf {
        bdf,
        first: String::from("a"),
        second: String::from("b"),
    }
    .message();
    assert!(message.contains("0000:00:05.1"));
}
