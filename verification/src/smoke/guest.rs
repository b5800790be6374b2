//! The guest side of the ivshmem smoke test.
//!
//! A guest first sets its endpoint up, one device access after the other, and
//! then works through the steps of its role. Performing the accesses and
//! telling the time is left to the caller; what to do next, and what counts as
//! a failure, is decided here.

use crate::smoke::mailbox::SuiteRoute;
use crate::text;
use vstd::prelude::*;
use vstd::string::StringExecFns;

verus! {

/// Guest physical base of the configuration window.
pub const ECAM_BASE: usize = 0x0b00_0000;

/// Size of the configuration window.
pub const ECAM_SIZE: usize = 0x10_0000;

/// Offset of the endpoint (device 1, function 0) in the configuration window.
pub const IVSHMEM_ECAM_OFFSET: usize = 0x8000;

/// Offset of the identity in the configuration space of a function.
pub const PCI_ID_OFFSET: usize = 0x00;

/// Offset of the command register in the configuration space of a function.
pub const PCI_COMMAND_OFFSET: usize = 0x04;

/// Offset of the first BAR in the configuration space of a function.
pub const PCI_BAR0_OFFSET: usize = 0x10;

/// Offset of the third BAR in the configuration space of a function.
pub const PCI_BAR2_OFFSET: usize = 0x18;

/// Memory decoding enable of the command register.
pub const PCI_COMMAND_MEMORY_ENABLE: u16 = 2;

/// Device and vendor of the endpoint.
pub const IVSHMEM_PCI_ID: u32 = 0x1110_1af4;

/// Size of the shared memory.
pub const IVSHMEM_BAR_SIZE: usize = 0x1_0000;

/// Size of the register page.
pub const IVSHMEM_BAR0_SIZE: usize = 0x1000;

pub const IVSHMEM_REG_ID: usize = 0x00;

pub const IVSHMEM_REG_MAX_PEERS: usize = 0x04;

pub const IVSHMEM_REG_DOORBELL: usize = 0x0c;

pub const IVSHMEM_REG_STATE: usize = 0x10;

pub const IVSHMEM_REG_EVENT_STATUS: usize = 0x14;

/// Offset of the first output section.
pub const SMOKE_OUTPUT_SECTION_BASE: u64 = 0x1000;

/// Distance of output sections with two peers.
pub const SMOKE_OUTPUT_SECTION_STRIDE: u64 = 0x7000;

/// Distance of output sections with three peers.
pub const SUITE_OUTPUT_SECTION_STRIDE: u64 = 0x5000;

/// Offset of the test value in the output section.
pub const TEST_OFFSET_IN_SECTION: u64 = 0x100;

/// The test value.
pub const TEST_VALUE: u64 = 0x4956_5348_4d45_4d31;

pub const SUITE_MAX_PEERS: u32 = 3;

pub const SUITE_LINUX_PEER: u32 = 0;

pub const SUITE_ARCEOS_PEER: u32 = 1;

pub const SUITE_PORTABLE_PEER: u32 = 2;

pub const HANDSHAKE_STATE_SELF: u32 = 0x0001_0002;

pub const HANDSHAKE_STATE_INITIATOR: u32 = 0x0001_0003;

pub const HANDSHAKE_STATE_RESPONDER: u32 = 0x0001_0004;

pub const HANDSHAKE_STATE_READY: u32 = 0x0001_0005;

pub const SUITE_STATE_LINUX_IRQ_READY: u32 = 0x3100_0101;

pub const SUITE_STATE_LINUX_IRQ_REPLIED: u32 = 0x3100_0103;

pub const SUITE_STATE_ARCEOS_BOOTSTRAP: u32 = 0x3200_0000;

pub const SUITE_STATE_ARCEOS_OBSERVER_ARMED: u32 = 0x3200_0001;

pub const SUITE_STATE_ARCEOS_OBSERVER_CLEAN: u32 = 0x3200_0002;

pub const SUITE_STATE_ARCEOS_REQUEST: u32 = 0x3200_0003;

pub const SUITE_STATE_ARCEOS_DONE: u32 = 0x3200_0004;

pub const SUITE_STATE_PORTABLE_RECEIVED: u32 = 0x3300_0002;

pub const SUITE_STATE_PORTABLE_OBSERVER_ARMED: u32 = 0x3300_0004;

pub const SUITE_PHASE_ARCEOS_TO_LINUX_IRQ: u32 = 2;

pub const SUITE_SEQUENCE_ARCEOS_TO_LINUX_IRQ: u32 = 2;

/// How long an answer of another guest may take.
pub const HANDSHAKE_TIMEOUT_NANOS: u64 = 30_000_000_000;

/// How long an own doorbell may take.
pub const SELF_DOORBELL_TIMEOUT_NANOS: u64 = 5_000_000_000;

/// How long to watch for an event that must not come.
pub const SELF_DOORBELL_UNAVAILABLE_WAIT_NANOS: u64 = 200_000_000;

/// How long a published state of the other peer may take to show.
pub const REMOTE_STATE_TIMEOUT_NANOS: u64 = 1_000_000_000;

/// What the boot arguments ask the guest to do.
#[derive(Clone, Copy, Debug, PartialEq, Eq, Structural)]
pub struct GuestCase {
    /// Run the three-peer suite.
    pub suite: bool,
    /// Run the two-peer handshake.
    pub cross_peer: bool,
}

/// The case of boot arguments.
pub open spec fn case_of(bootargs: Option<&str>) -> GuestCase {
    match bootargs {
        Some(bootargs) => GuestCase {
            suite: text::occurs_in(bootargs@, "axvisor.pci_case=ivshmem-suite-arceos"@),
            cross_peer: text::occurs_in(bootargs@, "axvisor.pci_case=ivshmem-cross-peer"@),
        },
        None => GuestCase { suite: false, cross_peer: false },
    }
}

/// Reads the case from the boot arguments.
pub fn guest_case(bootargs: Option<&str>) -> (case: GuestCase)
    ensures
        case == case_of(bootargs),
{
    match bootargs {
        Some(bootargs) => GuestCase {
            suite: text::text_contains(bootargs, "axvisor.pci_case=ivshmem-suite-arceos"),
            cross_peer: text::text_contains(bootargs, "axvisor.pci_case=ivshmem-cross-peer"),
        },
        None => GuestCase { suite: false, cross_peer: false },
    }
}

// ---------------------------------------------------------------------------
// Setup
// ---------------------------------------------------------------------------

/// What the setup reads next.
#[derive(Clone, Copy, Debug, PartialEq, Eq, Structural)]
pub enum SetupStage {
    Identity,
    Bar2,
    Command,
    Bar0,
    PeerId,
    MaxPeers,
    Readback,
    State,
    Ready,
}

/// The setup of an endpoint: what was learned so far and what is read next.
#[derive(Clone, Copy, Debug, PartialEq, Eq, Structural)]
pub struct GuestSetup {
    pub case: GuestCase,
    pub stage: SetupStage,
    pub identity: u32,
    pub bar2: u32,
    pub bar0: u32,
    pub peer_id: u32,
}

/// A value to read.
#[derive(Clone, Copy, Debug, PartialEq, Eq, Structural)]
pub enum SetupRead {
    Config16 { offset: usize },
    Config32 { offset: usize },
    Register { offset: usize },
    Shared32 { offset: u64 },
    Shared64 { offset: u64 },
}

/// A device access that the setup performs before the next read.
#[derive(Clone, Copy, Debug, PartialEq, Eq, Structural)]
pub enum SetupEffect {
    WriteConfig16 { offset: usize, value: u16 },
    MapRegisters { base: u32, size: usize },
    MapShared { base: u32, size: usize },
    WriteShared64 { offset: u64, value: u64 },
    WriteRegister { offset: usize, value: u32 },
}

/// Peers that the profile of a case has.
pub open spec fn expected_peers(case: GuestCase) -> u32 {
    if case.suite {
        SUITE_MAX_PEERS
    } else {
        2
    }
}

/// Distance of output sections in a case.
pub open spec fn stride(case: GuestCase) -> u64 {
    if case.suite {
        SUITE_OUTPUT_SECTION_STRIDE
    } else {
        SMOKE_OUTPUT_SECTION_STRIDE
    }
}

/// Offset of the output section of a peer.
pub open spec fn section_offset(case: GuestCase, peer_id: u32) -> int {
    SMOKE_OUTPUT_SECTION_BASE + peer_id * stride(case)
}

/// Offset of the test value of a peer.
pub open spec fn test_offset_of(case: GuestCase, peer_id: u32) -> int {
    section_offset(case, peer_id) + TEST_OFFSET_IN_SECTION
}

/// State that the setup publishes.
pub open spec fn bootstrap_state(case: GuestCase) -> u32 {
    if case.suite {
        SUITE_STATE_ARCEOS_BOOTSTRAP
    } else {
        HANDSHAKE_STATE_SELF
    }
}

/// The address bits of a base address register.
pub open spec fn bar_base(raw: int) -> u32 {
    (raw - raw % 16) as u32
}

/// A 32-bit word as written in diagnostics.
pub open spec fn word_text(value: nat) -> Seq<char> {
    "0x"@ + text::padded_hex_text(value, 8)
}

/// A 64-bit word as written in diagnostics.
pub open spec fn long_text(value: nat) -> Seq<char> {
    "0x"@ + text::padded_hex_text(value, 16)
}

/// Largest value that a read can give.
pub open spec fn read_limit(stage: SetupStage) -> int {
    match stage {
        SetupStage::Command => u16::MAX as int,
        SetupStage::Readback => u64::MAX as int,
        _ => u32::MAX as int,
    }
}

/// What the setup reads at a stage.
pub open spec fn stage_read(setup: GuestSetup) -> Option<SetupRead> {
    match setup.stage {
        SetupStage::Identity => Some(SetupRead::Config32 { offset: (IVSHMEM_ECAM_OFFSET + PCI_ID_OFFSET) as usize }),
        SetupStage::Bar2 => Some(SetupRead::Config32 { offset: (IVSHMEM_ECAM_OFFSET + PCI_BAR2_OFFSET) as usize }),
        SetupStage::Command => Some(SetupRead::Config16 { offset: (IVSHMEM_ECAM_OFFSET + PCI_COMMAND_OFFSET) as usize }),
        SetupStage::Bar0 => Some(SetupRead::Config32 { offset: (IVSHMEM_ECAM_OFFSET + PCI_BAR0_OFFSET) as usize }),
        SetupStage::PeerId => Some(SetupRead::Register { offset: IVSHMEM_REG_ID }),
        SetupStage::MaxPeers => Some(SetupRead::Register { offset: IVSHMEM_REG_MAX_PEERS }),
        SetupStage::Readback => Some(
            SetupRead::Shared64 { offset: test_offset_of(setup.case, setup.peer_id) as u64 },
        ),
        SetupStage::State => Some(SetupRead::Shared32 { offset: (setup.peer_id * 4) as u64 }),
        SetupStage::Ready => None,
    }
}

/// Why a reading ends the setup.
pub open spec fn setup_fault(setup: GuestSetup, reading: u64) -> Option<Seq<char>> {
    let case = setup.case;
    match setup.stage {
        SetupStage::Identity => if reading != IVSHMEM_PCI_ID {
            Some(
                "unexpected PCI identity "@ + word_text(reading as nat) + ", expected "@
                    + word_text(IVSHMEM_PCI_ID as nat),
            )
        } else {
            None
        },
        SetupStage::Bar2 => if reading < 16 {
            Some("BAR2 was not assigned"@)
        } else {
            None
        },
        SetupStage::Bar0 => if reading < 16 {
            Some("BAR0 was not assigned"@)
        } else {
            None
        },
        SetupStage::MaxPeers => if reading != expected_peers(case) || (case.suite && setup.peer_id
            != SUITE_ARCEOS_PEER) {
            Some(
                "profile peer_id="@ + text::dec_text(setup.peer_id as nat) + " max_peers="@
                    + text::dec_text(reading as nat) + ", expected peer_id="@ + text::dec_text(
                    if case.suite {
                        SUITE_ARCEOS_PEER as nat
                    } else {
                        setup.peer_id as nat
                    },
                ) + " max_peers="@ + text::dec_text(expected_peers(case) as nat),
            )
        } else {
            None
        },
        SetupStage::Readback => if reading != TEST_VALUE {
            Some(
                "BAR2 readback mismatch: expected "@ + long_text(TEST_VALUE as nat) + ", got "@
                    + long_text(reading as nat),
            )
        } else {
            None
        },
        SetupStage::State => if reading != bootstrap_state(case) {
            Some(
                "BAR0 state write did not surface in the state table: "@ + word_text(
                    reading as nat,
                ),
            )
        } else {
            None
        },
        _ => None,
    }
}

/// The setup after a reading that does not end it.
pub open spec fn setup_after(setup: GuestSetup, reading: u64) -> GuestSetup {
    match setup.stage {
        SetupStage::Identity => GuestSetup {
            stage: SetupStage::Bar2,
            identity: reading as u32,
            ..setup
        },
        SetupStage::Bar2 => GuestSetup {
            stage: SetupStage::Command,
            bar2: bar_base(reading as int),
            ..setup
        },
        SetupStage::Command => GuestSetup { stage: SetupStage::Bar0, ..setup },
        SetupStage::Bar0 => GuestSetup {
            stage: SetupStage::PeerId,
            bar0: bar_base(reading as int),
            ..setup
        },
        SetupStage::PeerId => GuestSetup {
            stage: SetupStage::MaxPeers,
            peer_id: reading as u32,
            ..setup
        },
        SetupStage::MaxPeers => GuestSetup { stage: SetupStage::Readback, ..setup },
        SetupStage::Readback => GuestSetup { stage: SetupStage::State, ..setup },
        SetupStage::State => GuestSetup { stage: SetupStage::Ready, ..setup },
        SetupStage::Ready => setup,
    }
}

/// The accesses that follow a reading that does not end the setup.
pub open spec fn setup_effects(setup: GuestSetup, reading: u64) -> Seq<SetupEffect> {
    match setup.stage {
        SetupStage::Command => seq![
            SetupEffect::WriteConfig16 {
                offset: (IVSHMEM_ECAM_OFFSET + PCI_COMMAND_OFFSET) as usize,
                value: reading as u16 | PCI_COMMAND_MEMORY_ENABLE,
            },
        ],
        SetupStage::Bar0 => seq![
            SetupEffect::MapRegisters {
                base: bar_base(reading as int),
                size: IVSHMEM_BAR0_SIZE,
            },
        ],
        SetupStage::MaxPeers => seq![
            SetupEffect::MapShared { base: setup.bar2, size: IVSHMEM_BAR_SIZE },
            SetupEffect::WriteShared64 {
                offset: test_offset_of(setup.case, setup.peer_id) as u64,
                value: TEST_VALUE,
            },
        ],
        SetupStage::Readback => seq![
            SetupEffect::WriteRegister {
                offset: IVSHMEM_REG_STATE,
                value: bootstrap_state(setup.case),
            },
        ],
        _ => Seq::empty(),
    }
}

/// The line that reports a finished setup.
pub open spec fn setup_text(setup: GuestSetup) -> Seq<char> {
    "ivshmem-pci identity="@ + word_text(setup.identity as nat) + " bar2="@ + text::hex_text(
        setup.bar2 as nat,
    ) + " peer_id="@ + text::dec_text(setup.peer_id as nat) + " test_offset="@ + text::hex_text(
        test_offset_of(setup.case, setup.peer_id) as nat,
    ) + " cross_peer="@ + flag_text(setup.case.cross_peer) + " suite="@ + flag_text(
        setup.case.suite,
    )
}

/// A flag as written in diagnostics.
pub open spec fn flag_text(flag: bool) -> Seq<char> {
    if flag {
        "true"@
    } else {
        "false"@
    }
}

fn push_flag(out: &mut String, flag: bool)
    ensures
        final(out)@ == old(out)@ + flag_text(flag),
{
    if flag {
        out.append("true");
    } else {
        out.append("false");
    }
}

fn push_word(out: &mut String, value: u64, digits: usize)
    ensures
        final(out)@ == old(out)@ + ("0x"@ + text::padded_hex_text(value as nat, digits as nat)),
{
    out.append("0x");
    text::push_padded_hex(out, value, digits);
    assert(out@ =~= old(out)@ + ("0x"@ + text::padded_hex_text(value as nat, digits as nat)));
}

/// Returns the offset of the output section of a peer.
pub fn output_section(case: GuestCase, peer_id: u32) -> (offset: u64)
    ensures
        offset == section_offset(case, peer_id),
{
    let distance: u64 = if case.suite {
        SUITE_OUTPUT_SECTION_STRIDE
    } else {
        SMOKE_OUTPUT_SECTION_STRIDE
    };
    assert(peer_id * distance <= 0xffff_ffff * 0x7000) by (nonlinear_arith)
        requires
            peer_id <= 0xffff_ffff,
            distance <= 0x7000,
    ;
    SMOKE_OUTPUT_SECTION_BASE + peer_id as u64 * distance
}

impl GuestSetup {
    /// Begins the setup.
    pub fn new(case: GuestCase) -> (setup: Self)
        ensures
            setup == (GuestSetup {
                case,
                stage: SetupStage::Identity,
                identity: 0,
                bar2: 0,
                bar0: 0,
                peer_id: 0,
            }),
    {
        GuestSetup {
            case,
            stage: SetupStage::Identity,
            identity: 0,
            bar2: 0,
            bar0: 0,
            peer_id: 0,
        }
    }

    /// Returns what to read next; nothing when the setup is finished.
    pub fn next_read(&self) -> (read: Option<SetupRead>)
        ensures
            read == stage_read(*self),
    {
        match self.stage {
            SetupStage::Identity => Some(SetupRead::Config32 { offset: IVSHMEM_ECAM_OFFSET + PCI_ID_OFFSET }),
            SetupStage::Bar2 => Some(SetupRead::Config32 { offset: IVSHMEM_ECAM_OFFSET + PCI_BAR2_OFFSET }),
            SetupStage::Command => Some(SetupRead::Config16 { offset: IVSHMEM_ECAM_OFFSET + PCI_COMMAND_OFFSET }),
            SetupStage::Bar0 => Some(SetupRead::Config32 { offset: IVSHMEM_ECAM_OFFSET + PCI_BAR0_OFFSET }),
            SetupStage::PeerId => Some(SetupRead::Register { offset: IVSHMEM_REG_ID }),
            SetupStage::MaxPeers => Some(SetupRead::Register { offset: IVSHMEM_REG_MAX_PEERS }),
            SetupStage::Readback => Some(SetupRead::Shared64 { offset: self.test_offset() }),
            SetupStage::State => Some(SetupRead::Shared32 { offset: self.peer_id as u64 * 4 }),
            SetupStage::Ready => None,
        }
    }

    /// Returns the offset of the test value in the shared memory.
    pub fn test_offset(&self) -> (offset: u64)
        ensures
            offset == test_offset_of(self.case, self.peer_id),
    {
        let section: u64 = output_section(self.case, self.peer_id);
        assert(self.peer_id * stride(self.case) <= 0xffff_ffff * 0x7000) by (nonlinear_arith)
            requires
                self.peer_id <= 0xffff_ffff,
                stride(self.case) <= 0x7000,
        ;
        section + TEST_OFFSET_IN_SECTION
    }

    /// Takes what was read, and returns the accesses to perform before the next
    /// read, or why the setup failed.
    pub fn advance(&mut self, reading: u64) -> (effects: Result<Vec<SetupEffect>, String>)
        requires
            reading <= read_limit(old(self).stage),
        ensures
            match effects {
                Ok(effects) => {
                    &&& setup_fault(*old(self), reading) is None
                    &&& *final(self) == setup_after(*old(self), reading)
                    &&& effects@ == setup_effects(*old(self), reading)
                },
                Err(message) => {
                    &&& setup_fault(*old(self), reading) == Some(message@)
                    &&& *final(self) == *old(self)
                },
            },
    {
        let mut effects: Vec<SetupEffect> = Vec::new();
        match self.stage {
            SetupStage::Identity => {
                if reading != IVSHMEM_PCI_ID as u64 {
                    let mut message = text::text_of("unexpected PCI identity ");
                    push_word(&mut message, reading, 8);
                    message.append(", expected ");
                    push_word(&mut message, IVSHMEM_PCI_ID as u64, 8);
                    assert(message@ =~= setup_fault(*old(self), reading)->0);
                    return Err(message);
                }
                self.identity = reading as u32;
                self.stage = SetupStage::Bar2;
            },
            SetupStage::Bar2 => {
                let bar2: u32 = (reading - reading % 16) as u32;
                if bar2 == 0 {
                    return Err(text::text_of("BAR2 was not assigned"));
                }
                self.bar2 = bar2;
                self.stage = SetupStage::Command;
            },
            SetupStage::Command => {
                effects.push(
                    SetupEffect::WriteConfig16 {
                        offset: IVSHMEM_ECAM_OFFSET + PCI_COMMAND_OFFSET,
                        value: reading as u16 | PCI_COMMAND_MEMORY_ENABLE,
                    },
                );
                self.stage = SetupStage::Bar0;
            },
            SetupStage::Bar0 => {
                let bar0: u32 = (reading - reading % 16) as u32;
                if bar0 == 0 {
                    return Err(text::text_of("BAR0 was not assigned"));
                }
                self.bar0 = bar0;
                effects.push(SetupEffect::MapRegisters { base: bar0, size: IVSHMEM_BAR0_SIZE });
                self.stage = SetupStage::PeerId;
            },
            SetupStage::PeerId => {
                self.peer_id = reading as u32;
                self.stage = SetupStage::MaxPeers;
            },
            SetupStage::MaxPeers => {
                let suite = self.case.suite;
                let expected: u32 = if suite {
                    SUITE_MAX_PEERS
                } else {
                    2
                };
                if reading != expected as u64 || (suite && self.peer_id != SUITE_ARCEOS_PEER) {
                    let mut message = text::text_of("profile peer_id=");
                    text::push_dec(&mut message, self.peer_id as u64);
                    message.append(" max_peers=");
                    text::push_dec(&mut message, reading);
                    message.append(", expected peer_id=");
                    let expected_peer: u32 = if suite {
                        SUITE_ARCEOS_PEER
                    } else {
                        self.peer_id
                    };
                    text::push_dec(&mut message, expected_peer as u64);
                    message.append(" max_peers=");
                    text::push_dec(&mut message, expected as u64);
                    assert(message@ =~= setup_fault(*old(self), reading)->0);
                    return Err(message);
                }
                effects.push(SetupEffect::MapShared { base: self.bar2, size: IVSHMEM_BAR_SIZE });
                effects.push(
                    SetupEffect::WriteShared64 { offset: self.test_offset(), value: TEST_VALUE },
                );
                self.stage = SetupStage::Readback;
            },
            SetupStage::Readback => {
                if reading != TEST_VALUE {
                    let mut message = text::text_of("BAR2 readback mismatch: expected ");
                    push_word(&mut message, TEST_VALUE, 16);
                    message.append(", got ");
                    push_word(&mut message, reading, 16);
                    assert(message@ =~= setup_fault(*old(self), reading)->0);
                    return Err(message);
                }
                let state: u32 = if self.case.suite {
                    SUITE_STATE_ARCEOS_BOOTSTRAP
                } else {
                    HANDSHAKE_STATE_SELF
                };
                effects.push(
                    SetupEffect::WriteRegister { offset: IVSHMEM_REG_STATE, value: state },
                );
                self.stage = SetupStage::State;
            },
            SetupStage::State => {
                let state: u32 = if self.case.suite {
                    SUITE_STATE_ARCEOS_BOOTSTRAP
                } else {
                    HANDSHAKE_STATE_SELF
                };
                if reading != state as u64 {
                    let mut message = text::text_of(
                        "BAR0 state write did not surface in the state table: ",
                    );
                    push_word(&mut message, reading, 8);
                    return Err(message);
                }
                self.stage = SetupStage::Ready;
            },
            SetupStage::Ready => {},
        }
        assert(effects@ =~= setup_effects(*old(self), reading));
        Ok(effects)
    }

    /// Returns the line that reports the setup.
    pub fn report(&self) -> (line: String)
        ensures
            line@ == setup_text(*self),
    {
        let mut line = text::text_of("ivshmem-pci identity=");
        push_word(&mut line, self.identity as u64, 8);
        line.append(" bar2=");
        text::push_hex(&mut line, self.bar2 as u64);
        line.append(" peer_id=");
        text::push_dec(&mut line, self.peer_id as u64);
        line.append(" test_offset=");
        text::push_hex(&mut line, self.test_offset());
        line.append(" cross_peer=");
        push_flag(&mut line, self.case.cross_peer);
        line.append(" suite=");
        push_flag(&mut line, self.case.suite);
        assert(line@ =~= setup_text(*self));
        line
    }
}

// ---------------------------------------------------------------------------
// Roles
// ---------------------------------------------------------------------------

/// Why a step of a role failed.
#[derive(Clone, Copy, Debug, PartialEq, Eq, Structural)]
pub enum GuestFault {
    FirstSelfDoorbell,
    EventNotCleared,
    SecondSelfDoorbell,
    UnsupportedVector,
    CrossPeerReply,
    CrossPeerRequest,
    SuiteReply,
}

impl GuestFault {
    /// The diagnostic text of the failure.
    pub open spec fn text(self) -> Seq<char> {
        match self {
            GuestFault::FirstSelfDoorbell => "first self doorbell timed out"@,
            GuestFault::EventNotCleared => "event status was not cleared by the wait"@,
            GuestFault::SecondSelfDoorbell => "second self doorbell timed out"@,
            GuestFault::UnsupportedVector => "an unsupported vector produced an event"@,
            GuestFault::CrossPeerReply => "cross-peer reply event timed out"@,
            GuestFault::CrossPeerRequest => "cross-peer request event timed out"@,
            GuestFault::SuiteReply => "suite interrupt reply timed out"@,
        }
    }

    /// Returns the diagnostic text of the failure.
    pub fn message(self) -> (message: &'static str)
        ensures
            message@ == self.text(),
    {
        match self {
            GuestFault::FirstSelfDoorbell => "first self doorbell timed out",
            GuestFault::EventNotCleared => "event status was not cleared by the wait",
            GuestFault::SecondSelfDoorbell => "second self doorbell timed out",
            GuestFault::UnsupportedVector => "an unsupported vector produced an event",
            GuestFault::CrossPeerReply => "cross-peer reply event timed out",
            GuestFault::CrossPeerRequest => "cross-peer request event timed out",
            GuestFault::SuiteReply => "suite interrupt reply timed out",
        }
    }
}

/// A point of progress that is reported.
#[derive(Clone, Copy, Debug, PartialEq, Eq, Structural)]
pub enum Checkpoint {
    CrossPeerRequest,
    CrossPeerReply,
    CrossPeerReady,
    CrossPeerRelay,
    ObserverReady,
    ObserverClean,
    InterruptRequestSent,
    RolePassed,
}

impl Checkpoint {
    /// The line that reports the progress.
    pub open spec fn text(self) -> Seq<char> {
        match self {
            Checkpoint::CrossPeerRequest => "ivshmem-pci checkpoint cross-peer-request"@,
            Checkpoint::CrossPeerReply => "ivshmem-pci checkpoint cross-peer-reply"@,
            Checkpoint::CrossPeerReady => "ivshmem-pci checkpoint cross-peer-ready"@,
            Checkpoint::CrossPeerRelay => "ivshmem-pci checkpoint cross-peer-relay"@,
            Checkpoint::ObserverReady => "IVSHMEM_PCI_SUITE_CHECKPOINT peer=1 role=arceos phase=observer step=ready"@,
            Checkpoint::ObserverClean => "IVSHMEM_PCI_SUITE_CHECKPOINT peer=1 role=arceos phase=observer step=clean"@,
            Checkpoint::InterruptRequestSent => "IVSHMEM_PCI_SUITE_CHECKPOINT peer=1 role=arceos phase=interrupt-request step=sent"@,
            Checkpoint::RolePassed => "IVSHMEM_PCI_SUITE_ROLE_PASSED peer=1 role=arceos"@,
        }
    }

    /// Returns the line that reports the progress.
    pub fn message(self) -> (message: &'static str)
        ensures
            message@ == self.text(),
    {
        match self {
            Checkpoint::CrossPeerRequest => "ivshmem-pci checkpoint cross-peer-request",
            Checkpoint::CrossPeerReply => "ivshmem-pci checkpoint cross-peer-reply",
            Checkpoint::CrossPeerReady => "ivshmem-pci checkpoint cross-peer-ready",
            Checkpoint::CrossPeerRelay => "ivshmem-pci checkpoint cross-peer-relay",
            Checkpoint::ObserverReady => "IVSHMEM_PCI_SUITE_CHECKPOINT peer=1 role=arceos phase=observer step=ready",
            Checkpoint::ObserverClean => "IVSHMEM_PCI_SUITE_CHECKPOINT peer=1 role=arceos phase=observer step=clean",
            Checkpoint::InterruptRequestSent => "IVSHMEM_PCI_SUITE_CHECKPOINT peer=1 role=arceos phase=interrupt-request step=sent",
            Checkpoint::RolePassed => "IVSHMEM_PCI_SUITE_ROLE_PASSED peer=1 role=arceos",
        }
    }
}

/// One step of a role.
#[derive(Clone, Copy, Debug, PartialEq, Eq, Structural)]
pub enum GuestStep {
    /// Publish a state.
    SetState(u32),
    /// Order the stores before against the doorbell after.
    Fence,
    /// Ring the doorbell of a peer.
    Ring { target: u32, vector: u32 },
    /// Wait for an event, and clear it; its absence is a failure.
    AwaitEvent { timeout_nanos: u64, fault: GuestFault },
    /// Watch for an event; its presence is a failure.
    RefuseEvent { wait_nanos: u64, fault: GuestFault },
    /// A pending event is a failure.
    ExpectIdle(GuestFault),
    /// Wait for the state of the other peer.
    AwaitRemoteState { peer: u32, expected: u32 },
    /// Wait for the state of a suite peer.
    AwaitSuiteState { peer: u32, expected: u32 },
    /// Watch that no event comes until a suite peer reaches a state.
    WatchUntilState { peer: u32, expected: u32 },
    /// Write the own mailbox with a payload pattern.
    FillMailbox { peer: u32, seed: u32 },
    /// Check the mailbox of the other peer.
    CheckMailbox { peer: u32 },
    /// Write the request into the own suite mailbox.
    SendSuiteRequest,
    /// Check the reply in the suite mailbox of the primary peer.
    CheckSuiteReply,
    /// Report progress.
    Report(Checkpoint),
}

/// The doorbell checks that a peer runs against itself.
pub open spec fn self_doorbell_steps(peer_id: u32) -> Seq<GuestStep> {
    seq![
        GuestStep::Ring { target: peer_id, vector: 0 },
        GuestStep::AwaitEvent {
            timeout_nanos: SELF_DOORBELL_TIMEOUT_NANOS,
            fault: GuestFault::FirstSelfDoorbell,
        },
        GuestStep::ExpectIdle(GuestFault::EventNotCleared),
        GuestStep::Ring { target: peer_id, vector: 0 },
        GuestStep::AwaitEvent {
            timeout_nanos: SELF_DOORBELL_TIMEOUT_NANOS,
            fault: GuestFault::SecondSelfDoorbell,
        },
        GuestStep::Ring { target: peer_id, vector: 1 },
        GuestStep::RefuseEvent {
            wait_nanos: SELF_DOORBELL_UNAVAILABLE_WAIT_NANOS,
            fault: GuestFault::UnsupportedVector,
        },
    ]
}

/// The exchange of the peer that sends the request.
pub open spec fn initiator_steps(peer_id: u32) -> Seq<GuestStep> {
    seq![
        GuestStep::FillMailbox { peer: peer_id, seed: 0x5a },
        GuestStep::SetState(HANDSHAKE_STATE_INITIATOR),
        GuestStep::Fence,
        GuestStep::Ring { target: peer_id ^ 1, vector: 0 },
        GuestStep::Report(Checkpoint::CrossPeerRequest),
        GuestStep::AwaitEvent {
            timeout_nanos: HANDSHAKE_TIMEOUT_NANOS,
            fault: GuestFault::CrossPeerReply,
        },
        GuestStep::AwaitRemoteState { peer: peer_id ^ 1, expected: HANDSHAKE_STATE_RESPONDER },
        GuestStep::CheckMailbox { peer: peer_id ^ 1 },
        GuestStep::Report(Checkpoint::CrossPeerReply),
    ]
}

/// What the peer that replies does before its own doorbell checks.
pub open spec fn responder_opening(peer_id: u32) -> Seq<GuestStep> {
    seq![
        GuestStep::SetState(HANDSHAKE_STATE_READY),
        GuestStep::Fence,
        GuestStep::Report(Checkpoint::CrossPeerReady),
        GuestStep::AwaitEvent {
            timeout_nanos: HANDSHAKE_TIMEOUT_NANOS,
            fault: GuestFault::CrossPeerRequest,
        },
        GuestStep::AwaitRemoteState { peer: peer_id ^ 1, expected: HANDSHAKE_STATE_INITIATOR },
        GuestStep::CheckMailbox { peer: peer_id ^ 1 },
    ]
}

/// The reply.
pub open spec fn responder_reply(peer_id: u32) -> Seq<GuestStep> {
    seq![
        GuestStep::FillMailbox { peer: peer_id, seed: 0xa5 },
        GuestStep::SetState(HANDSHAKE_STATE_RESPONDER),
        GuestStep::Fence,
        GuestStep::Ring { target: peer_id ^ 1, vector: 0 },
        GuestStep::Report(Checkpoint::CrossPeerRelay),
    ]
}

/// The two-peer exchange of a peer.
pub open spec fn exchange_steps(peer_id: u32) -> Seq<GuestStep> {
    if peer_id == 0 {
        initiator_steps(peer_id)
    } else {
        responder_opening(peer_id) + self_doorbell_steps(peer_id) + responder_reply(peer_id)
    }
}

/// The suite role.
pub open spec fn suite_steps() -> Seq<GuestStep> {
    seq![
        GuestStep::Report(Checkpoint::ObserverReady),
        GuestStep::SetState(SUITE_STATE_ARCEOS_OBSERVER_ARMED),
        GuestStep::WatchUntilState {
            peer: SUITE_PORTABLE_PEER,
            expected: SUITE_STATE_PORTABLE_RECEIVED,
        },
        GuestStep::SetState(SUITE_STATE_ARCEOS_OBSERVER_CLEAN),
        GuestStep::Report(Checkpoint::ObserverClean),
        GuestStep::AwaitSuiteState {
            peer: SUITE_PORTABLE_PEER,
            expected: SUITE_STATE_PORTABLE_OBSERVER_ARMED,
        },
        GuestStep::AwaitSuiteState {
            peer: SUITE_LINUX_PEER,
            expected: SUITE_STATE_LINUX_IRQ_READY,
        },
        GuestStep::SendSuiteRequest,
        GuestStep::SetState(SUITE_STATE_ARCEOS_REQUEST),
        GuestStep::Fence,
        GuestStep::Ring { target: SUITE_LINUX_PEER, vector: 0 },
        GuestStep::Report(Checkpoint::InterruptRequestSent),
        GuestStep::AwaitEvent {
            timeout_nanos: HANDSHAKE_TIMEOUT_NANOS,
            fault: GuestFault::SuiteReply,
        },
        GuestStep::AwaitSuiteState {
            peer: SUITE_LINUX_PEER,
            expected: SUITE_STATE_LINUX_IRQ_REPLIED,
        },
        GuestStep::CheckSuiteReply,
        GuestStep::SetState(SUITE_STATE_ARCEOS_DONE),
        GuestStep::Report(Checkpoint::RolePassed),
    ]
}

/// All steps of a peer after its setup.
pub open spec fn role_steps(case: GuestCase, peer_id: u32) -> Seq<GuestStep> {
    if case.suite {
        self_doorbell_steps(peer_id) + suite_steps()
    } else if case.cross_peer {
        if peer_id == 0 {
            self_doorbell_steps(peer_id) + exchange_steps(peer_id)
        } else {
            exchange_steps(peer_id)
        }
    } else {
        self_doorbell_steps(peer_id)
    }
}

fn self_doorbell_tests(steps: &mut Vec<GuestStep>, peer_id: u32)
    ensures
        final(steps)@ == old(steps)@ + self_doorbell_steps(peer_id),
{
    steps.push(GuestStep::Ring { target: peer_id, vector: 0 });
    steps.push(
        GuestStep::AwaitEvent {
            timeout_nanos: SELF_DOORBELL_TIMEOUT_NANOS,
            fault: GuestFault::FirstSelfDoorbell,
        },
    );
    steps.push(GuestStep::ExpectIdle(GuestFault::EventNotCleared));
    steps.push(GuestStep::Ring { target: peer_id, vector: 0 });
    steps.push(
        GuestStep::AwaitEvent {
            timeout_nanos: SELF_DOORBELL_TIMEOUT_NANOS,
            fault: GuestFault::SecondSelfDoorbell,
        },
    );
    steps.push(GuestStep::Ring { target: peer_id, vector: 1 });
    steps.push(
        GuestStep::RefuseEvent {
            wait_nanos: SELF_DOORBELL_UNAVAILABLE_WAIT_NANOS,
            fault: GuestFault::UnsupportedVector,
        },
    );
    assert(steps@ =~= old(steps)@ + self_doorbell_steps(peer_id));
}

fn cross_peer_exchange(steps: &mut Vec<GuestStep>, peer_id: u32)
    ensures
        final(steps)@ == old(steps)@ + exchange_steps(peer_id),
{
    let target: u32 = peer_id ^ 1;
    if peer_id == 0 {
        steps.push(GuestStep::FillMailbox { peer: peer_id, seed: 0x5a });
        steps.push(GuestStep::SetState(HANDSHAKE_STATE_INITIATOR));
        steps.push(GuestStep::Fence);
        steps.push(GuestStep::Ring { target, vector: 0 });
        steps.push(GuestStep::Report(Checkpoint::CrossPeerRequest));
        steps.push(
            GuestStep::AwaitEvent {
                timeout_nanos: HANDSHAKE_TIMEOUT_NANOS,
                fault: GuestFault::CrossPeerReply,
            },
        );
        steps.push(
            GuestStep::AwaitRemoteState { peer: target, expected: HANDSHAKE_STATE_RESPONDER },
        );
        steps.push(GuestStep::CheckMailbox { peer: target });
        steps.push(GuestStep::Report(Checkpoint::CrossPeerReply));
        assert(steps@ =~= old(steps)@ + exchange_steps(peer_id));
    } else {
        steps.push(GuestStep::SetState(HANDSHAKE_STATE_READY));
        steps.push(GuestStep::Fence);
        steps.push(GuestStep::Report(Checkpoint::CrossPeerReady));
        steps.push(
            GuestStep::AwaitEvent {
                timeout_nanos: HANDSHAKE_TIMEOUT_NANOS,
                fault: GuestFault::CrossPeerRequest,
            },
        );
        steps.push(
            GuestStep::AwaitRemoteState { peer: target, expected: HANDSHAKE_STATE_INITIATOR },
        );
        steps.push(GuestStep::CheckMailbox { peer: target });
        assert(steps@ =~= old(steps)@ + responder_opening(peer_id));
        self_doorbell_tests(steps, peer_id);
        let ghost before = steps@;
        steps.push(GuestStep::FillMailbox { peer: peer_id, seed: 0xa5 });
        steps.push(GuestStep::SetState(HANDSHAKE_STATE_RESPONDER));
        steps.push(GuestStep::Fence);
        steps.push(GuestStep::Ring { target, vector: 0 });
        steps.push(GuestStep::Report(Checkpoint::CrossPeerRelay));
        assert(steps@ =~= before + responder_reply(peer_id));
        assert(steps@ =~= old(steps)@ + exchange_steps(peer_id));
    }
}

fn run_suite_arceos_peer(steps: &mut Vec<GuestStep>)
    ensures
        final(steps)@ == old(steps)@ + suite_steps(),
{
    steps.push(GuestStep::Report(Checkpoint::ObserverReady));
    steps.push(GuestStep::SetState(SUITE_STATE_ARCEOS_OBSERVER_ARMED));
    steps.push(
        GuestStep::WatchUntilState {
            peer: SUITE_PORTABLE_PEER,
            expected: SUITE_STATE_PORTABLE_RECEIVED,
        },
    );
    steps.push(GuestStep::SetState(SUITE_STATE_ARCEOS_OBSERVER_CLEAN));
    steps.push(GuestStep::Report(Checkpoint::ObserverClean));
    steps.push(
        GuestStep::AwaitSuiteState {
            peer: SUITE_PORTABLE_PEER,
            expected: SUITE_STATE_PORTABLE_OBSERVER_ARMED,
        },
    );
    steps.push(
        GuestStep::AwaitSuiteState {
            peer: SUITE_LINUX_PEER,
            expected: SUITE_STATE_LINUX_IRQ_READY,
        },
    );
    steps.push(GuestStep::SendSuiteRequest);
    steps.push(GuestStep::SetState(SUITE_STATE_ARCEOS_REQUEST));
    steps.push(GuestStep::Fence);
    steps.push(GuestStep::Ring { target: SUITE_LINUX_PEER, vector: 0 });
    steps.push(GuestStep::Report(Checkpoint::InterruptRequestSent));
    steps.push(
        GuestStep::AwaitEvent {
            timeout_nanos: HANDSHAKE_TIMEOUT_NANOS,
            fault: GuestFault::SuiteReply,
        },
    );
    steps.push(
        GuestStep::AwaitSuiteState {
            peer: SUITE_LINUX_PEER,
            expected: SUITE_STATE_LINUX_IRQ_REPLIED,
        },
    );
    steps.push(GuestStep::CheckSuiteReply);
    steps.push(GuestStep::SetState(SUITE_STATE_ARCEOS_DONE));
    steps.push(GuestStep::Report(Checkpoint::RolePassed));
    assert(steps@ =~= old(steps)@ + suite_steps());
}

/// Returns all steps of a peer after its setup.
pub fn guest_steps(case: GuestCase, peer_id: u32) -> (steps: Vec<GuestStep>)
    ensures
        steps@ == role_steps(case, peer_id),
{
    let mut steps: Vec<GuestStep> = Vec::new();
    if case.suite {
        self_doorbell_tests(&mut steps, peer_id);
        run_suite_arceos_peer(&mut steps);
    } else if case.cross_peer {
        if peer_id == 0 {
            self_doorbell_tests(&mut steps, peer_id);
        }
        cross_peer_exchange(&mut steps, peer_id);
    } else {
        self_doorbell_tests(&mut steps, peer_id);
    }
    assert(steps@ =~= role_steps(case, peer_id));
    steps
}

/// Returns the doorbell register value that rings a vector of a peer.
pub fn doorbell_value(target: u32, vector: u32) -> (value: u32)
    ensures
        value == (target << 16) | vector,
{
    (target << 16) | vector
}

/// Returns the route of the suite request, or of its reply.
pub fn suite_route(reply: bool) -> (route: SuiteRoute)
    ensures
        route == (SuiteRoute {
            phase: SUITE_PHASE_ARCEOS_TO_LINUX_IRQ,
            sequence: SUITE_SEQUENCE_ARCEOS_TO_LINUX_IRQ,
            source_peer: if reply {
                SUITE_LINUX_PEER
            } else {
                SUITE_ARCEOS_PEER
            },
            target_peer: if reply {
                SUITE_ARCEOS_PEER
            } else {
                SUITE_LINUX_PEER
            },
        }),
{
    let (source_peer, target_peer): (u32, u32) = if reply {
        (SUITE_LINUX_PEER, SUITE_ARCEOS_PEER)
    } else {
        (SUITE_ARCEOS_PEER, SUITE_LINUX_PEER)
    };
    SuiteRoute {
        phase: SUITE_PHASE_ARCEOS_TO_LINUX_IRQ,
        sequence: SUITE_SEQUENCE_ARCEOS_TO_LINUX_IRQ,
        source_peer,
        target_peer,
    }
}

/// Returns the message of the suite request, or of its reply.
pub fn suite_message(reply: bool) -> (message: &'static str)
    ensures
        message@ == if reply {
            "Hello ArceOS, Linux primary received the MSI-X message."@
        } else {
            "Hello Linux primary, ArceOS requests an MSI-X round trip."@
        },
{
    if reply {
        "Hello ArceOS, Linux primary received the MSI-X message."
    } else {
        "Hello Linux primary, ArceOS requests an MSI-X round trip."
    }
}

// ---------------------------------------------------------------------------
// Waiting
// ---------------------------------------------------------------------------

/// What a wait does next.
#[derive(Clone, Copy, Debug, PartialEq, Eq, Structural)]
pub enum WaitStep {
    /// What was waited for is there.
    Reached,
    /// The time is over.
    TimedOut,
    /// Look again.
    Again,
}

/// Whether the event status has the doorbell event pending.
pub open spec fn is_pending(status: u32) -> bool {
    status & 1 != 0
}

/// Returns when a wait ends; the end of time is not passed.
pub fn deadline(now: u64, timeout_nanos: u64) -> (end: u64)
    ensures
        end == if now + timeout_nanos > u64::MAX {
            u64::MAX as int
        } else {
            now + timeout_nanos
        },
{
    if timeout_nanos > u64::MAX - now {
        u64::MAX
    } else {
        now + timeout_nanos
    }
}

/// Decides one look of waiting for an event. A reached event is cleared by
/// writing one to its status bit.
pub fn wait_event(now: u64, end: u64, status: u32) -> (step: WaitStep)
    ensures
        step == if now >= end {
            WaitStep::TimedOut
        } else if is_pending(status) {
            WaitStep::Reached
        } else {
            WaitStep::Again
        },
{
    if now >= end {
        return WaitStep::TimedOut;
    }
    if status & 1 != 0 {
        WaitStep::Reached
    } else {
        WaitStep::Again
    }
}

/// Judges a step that waited for an event or watched for one.
pub fn judge_event(step: GuestStep, observed: bool) -> (result: Result<(), GuestFault>)
    ensures
        result == match step {
            GuestStep::AwaitEvent { fault, .. } => if observed {
                Ok::<(), GuestFault>(())
            } else {
                Err(fault)
            },
            GuestStep::RefuseEvent { fault, .. } => if observed {
                Err(fault)
            } else {
                Ok(())
            },
            GuestStep::ExpectIdle(fault) => if observed {
                Err(fault)
            } else {
                Ok(())
            },
            _ => Ok(()),
        },
{
    match step {
        GuestStep::AwaitEvent { fault, .. } => if observed {
            Ok(())
        } else {
            Err(fault)
        },
        GuestStep::RefuseEvent { fault, .. } => if observed {
            Err(fault)
        } else {
            Ok(())
        },
        GuestStep::ExpectIdle(fault) => if observed {
            Err(fault)
        } else {
            Ok(())
        },
        _ => Ok(()),
    }
}

/// Decides one look of waiting for a state.
pub fn wait_state(actual: u32, expected: u32, now: u64, end: u64) -> (step: WaitStep)
    ensures
        step == if actual == expected {
            WaitStep::Reached
        } else if now >= end {
            WaitStep::TimedOut
        } else {
            WaitStep::Again
        },
{
    if actual == expected {
        WaitStep::Reached
    } else if now >= end {
        WaitStep::TimedOut
    } else {
        WaitStep::Again
    }
}

/// Returns why waiting for the other peer failed.
pub fn remote_state_message(expected: u32) -> (message: String)
    ensures
        message@ == "remote peer state did not reach "@ + word_text(expected as nat),
{
    let mut message = text::text_of("remote peer state did not reach ");
    push_word(&mut message, expected as u64, 8);
    message
}

/// Returns why waiting for a suite peer failed.
pub fn suite_state_message(peer: u32, actual: u32, expected: u32) -> (message: String)
    ensures
        message@ == "suite peer "@ + text::dec_text(peer as nat) + " state is "@ + word_text(
            actual as nat,
        ) + ", expected "@ + word_text(expected as nat),
{
    let mut message = text::text_of("suite peer ");
    text::push_dec(&mut message, peer as u64);
    message.append(" state is ");
    push_word(&mut message, actual as u64, 8);
    message.append(", expected ");
    push_word(&mut message, expected as u64, 8);
    message
}

/// Decides one look of watching that no event comes until a peer reaches a
/// state; later states count as reached.
pub fn ensure_no_event_until_state(actual: u32, expected: u32, status: u32, now: u64, end: u64) -> (step:
    Result<WaitStep, &'static str>)
    ensures
        match step {
            Ok(WaitStep::Reached) => actual >= expected && !is_pending(status),
            Ok(WaitStep::Again) => actual < expected && !is_pending(status) && now < end,
            Ok(WaitStep::TimedOut) => false,
            Err(fault) => if actual >= expected {
                is_pending(status) && fault@ == "ArceOS observer has a pending event"@
            } else if is_pending(status) {
                fault@ == "portable-directed doorbell reached ArceOS"@
            } else {
                now >= end && fault@ == "portable peer did not receive the directed doorbell"@
            },
        },
{
    let pending = status & 1 != 0;
    if actual < expected {
        if pending {
            return Err("portable-directed doorbell reached ArceOS");
        }
        if now >= end {
            return Err("portable peer did not receive the directed doorbell");
        }
        return Ok(WaitStep::Again);
    }
    if pending {
        return Err("ArceOS observer has a pending event");
    }
    Ok(WaitStep::Reached)
}

// ---------------------------------------------------------------------------
// Laws
// ---------------------------------------------------------------------------

/// Whether a step publishes a mailbox.
pub open spec fn publishes(step: GuestStep) -> bool {
    step is FillMailbox || step is SendSuiteRequest
}

/// **Law.** A peer rings another peer only after it wrote its mailbox and then
/// its state, and ordered both against the doorbell.
pub proof fn law_mailboxes_precede_doorbells(case: GuestCase, peer_id: u32, k: int)
    requires
        case.suite ==> peer_id == SUITE_ARCEOS_PEER,
        0 <= k < role_steps(case, peer_id).len(),
        role_steps(case, peer_id)[k] matches GuestStep::Ring { target, .. } && target != peer_id,
    ensures
        k >= 3,
        role_steps(case, peer_id)[k - 1] == GuestStep::Fence,
        role_steps(case, peer_id)[k - 2] is SetState,
        publishes(role_steps(case, peer_id)[k - 3]),
{
}

/// **Law.** A replying peer checks the request, and all its own doorbells,
/// before it writes its reply.
pub proof fn law_replies_follow_checks(case: GuestCase, peer_id: u32, k: int)
    requires
        !case.suite,
        case.cross_peer,
        peer_id != 0,
        0 <= k < role_steps(case, peer_id).len(),
        publishes(role_steps(case, peer_id)[k]),
    ensures
        k == 13,
        role_steps(case, peer_id)[5] == (GuestStep::CheckMailbox { peer: peer_id ^ 1 }),
        role_steps(case, peer_id).subrange(6, 13) == self_doorbell_steps(peer_id),
{
    assert(role_steps(case, peer_id).subrange(6, 13) =~= self_doorbell_steps(peer_id));
}

/// **Law.** The test value and the mailbox of a peer lie in its own output
/// section: sections of different peers do not overlap, and none reaches the
/// state table.
pub proof fn law_output_sections_are_disjoint(case: GuestCase, first: u32, second: u32)
    requires
        first < second,
    ensures
        section_offset(case, first) >= SMOKE_OUTPUT_SECTION_BASE,
        section_offset(case, first) <= test_offset_of(case, first),
        test_offset_of(case, first) + 8 <= section_offset(case, first) + stride(case),
        section_offset(case, first) + stride(case) <= section_offset(case, second),
{
    let distance = stride(case) as int;
    assert(first * distance + distance <= second * distance) by (nonlinear_arith)
        requires
            first < second,
            distance >= 0,
    ;
    assert(0 <= first * distance) by (nonlinear_arith)
        requires
            0 <= first,
            distance >= 0,
    ;
}

} // verus!
