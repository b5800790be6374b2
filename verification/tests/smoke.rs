use axdevice::smoke::binaries::{
    build_arceos_smoke, build_smoke_binaries, build_smoke_binaries_with, missing_config_message,
    missing_image_message, read_uio_modules, workspace_relative_path, BuildStep,
};
use axdevice::smoke::guest::{
    deadline, doorbell_value, ensure_no_event_until_state, guest_case, guest_steps, judge_event,
    output_section, remote_state_message, suite_message, suite_route, suite_state_message, wait_event,
    wait_state,
    GuestCase, GuestFault, GuestSetup, GuestStep, SetupEffect, SetupRead, SetupStage, WaitStep,
    IVSHMEM_PCI_ID, TEST_VALUE,
};
use axdevice::smoke::mailbox::{
    fill_mailbox, fill_suite_mailbox, log_suite_mailbox, payload_checksum, validate_mailbox,
    validate_suite_mailbox, MailboxWrite, SuiteReading, SuiteRoute, MAILBOX_MAGIC,
    SUITE_MAILBOX_MAGIC,
};

const WORKSPACE: &str = "/work";

#[test]
fn arceos_smoke_build_config_must_stay_inside_workspace() {
    let variable = "AXVISOR_TEST_IVSHMEM_ARCEOS_SMOKE";
    assert_eq!(
        workspace_relative_path(WORKSPACE, "apps/arceos/build.toml", variable).unwrap(),
        "/work/apps/arceos/build.toml"
    );
    assert!(workspace_relative_path(WORKSPACE, "../outside", variable).is_err());
    assert!(workspace_relative_path(WORKSPACE, "/outside", variable).is_err());
    assert_eq!(
        workspace_relative_path(WORKSPACE, "a/../b", variable).unwrap_err(),
        "AXVISOR_TEST_IVSHMEM_ARCEOS_SMOKE must be a workspace-relative path without parent \
         traversal"
    );
    assert!(workspace_relative_path(WORKSPACE, "a/..", variable).is_err());
    assert!(workspace_relative_path(WORKSPACE, "./a..b/...", variable).is_ok());
}

#[test]
fn uio_modules_must_come_from_a_workspace_relative_directory() {
    let (core, ivshmem) = read_uio_modules(WORKSPACE, "kernel-modules").unwrap();
    assert_eq!(core, "/work/kernel-modules/uio.ko");
    assert_eq!(ivshmem, "/work/kernel-modules/uio_ivshmem.ko");
    assert!(read_uio_modules(WORKSPACE, "../outside").is_err());
    assert!(read_uio_modules(WORKSPACE, "/outside").is_err());
}

#[test]
fn unsupported_architectures_are_rejected() {
    assert!(build_smoke_binaries(WORKSPACE, "riscv64", "riscv64-linux-musl-gcc").is_err());
    assert!(build_arceos_smoke(WORKSPACE, "riscv64", "unused.toml").is_err());
}

fn command(step: &BuildStep) -> String {
    match step {
        BuildStep::CreateDir(path) => format!("mkdir {path}"),
        BuildStep::Run(command) => format!("{} {}", command.program, command.args.join(" ")),
    }
}

#[test]
fn smoke_binaries_are_compiled_archived_and_linked() {
    let plan = build_smoke_binaries(WORKSPACE, "aarch64", "bin/aarch64-linux-musl-gcc").unwrap();
    let out = "/work/target/axbuild/ivshmem-smoke/aarch64/bin_aarch64-linux-musl-gcc";
    assert_eq!(plan.steps.len(), 10);
    assert_eq!(command(&plan.steps[0]), format!("mkdir {out}"));
    let failure = |step: &BuildStep| match step {
        BuildStep::CreateDir(_) => String::new(),
        BuildStep::Run(command) => command.failure.clone(),
    };
    assert!(failure(&plan.steps[1]).starts_with("failed to compile "));
    assert!(failure(&plan.steps[1]).ends_with("lib/discovery.c"));
    assert_eq!(failure(&plan.steps[7]), "failed to archive the ivshmem adapter library");
    assert_eq!(failure(&plan.steps[8]), format!("failed to link {out}/ivshmem-bar2-smoke"));
    assert_eq!(
        command(&plan.steps[1]),
        format!(
            "bin/aarch64-linux-musl-gcc -std=c11 -Os -g0 -Wall -Wextra -Werror \
             -ffunction-sections -fdata-sections -I/work/apps/linux/ivshmem/lib -c -o \
             {out}/discovery.o /work/apps/linux/ivshmem/lib/discovery.c"
        )
    );
    assert_eq!(command(&plan.steps[5]), format!("mkdir {out}/suite"));
    assert_eq!(
        command(&plan.steps[7]),
        format!(
            "bin/aarch64-linux-musl-ar rcs {out}/libivshmem.a {out}/discovery.o \
             {out}/backend_polling.o {out}/errors.o"
        )
    );
    assert_eq!(
        command(&plan.steps[9]),
        format!(
            "bin/aarch64-linux-musl-gcc -o {out}/ivshmem-pci-suite {out}/suite/main.o \
             {out}/libivshmem.a -static -Wl,--gc-sections"
        )
    );
    assert_eq!(plan.legacy, format!("{out}/ivshmem-bar2-smoke"));
    assert_eq!(plan.suite, format!("{out}/ivshmem-pci-suite"));
    // A compiler without the usual name gets the default archiver.
    let host = build_smoke_binaries_with(WORKSPACE, "aarch64", "cc", &vec![]).unwrap();
    assert!(command(&host.steps[7]).starts_with("aarch64-linux-musl-ar rcs "));
}

#[test]
fn the_peer_image_is_built_from_its_configuration() {
    let plan = build_arceos_smoke("/work/", "aarch64", "peer.toml").unwrap();
    assert_eq!(plan.config, "/work/peer.toml");
    assert_eq!(
        plan.args,
        ["arceos", "build", "--package", "arceos-ivshmem-pci", "--config", "/work/peer.toml"]
    );
    assert_eq!(
        plan.image,
        "/work/target/aarch64-unknown-linux-musl/release/arceos-ivshmem-pci.bin"
    );
    assert!(build_arceos_smoke(WORKSPACE, "aarch64", "/peer.toml").is_err());
    assert_eq!(missing_config_message("x.toml"), "x.toml does not exist");
    assert_eq!(
        missing_image_message("x.bin"),
        "ArceOS ivshmem build did not produce x.bin"
    );
}

#[test]
fn checksums_fold_every_byte() {
    assert_eq!(payload_checksum(&[]), 0x4956_5348);
    assert_eq!(payload_checksum(&[1]), 0x4956_5348u32.wrapping_mul(31).wrapping_add(1));
    assert_ne!(payload_checksum(&[1, 2]), payload_checksum(&[2, 1]));
}

fn store(writes: &[MailboxWrite]) -> Vec<u8> {
    let mut memory = vec![0xeeu8; 0x400];
    for write in writes {
        match *write {
            MailboxWrite::Byte { offset, value } => memory[offset] = value,
            MailboxWrite::Word { offset, value } => {
                memory[offset..offset + 4].copy_from_slice(&value.to_le_bytes())
            }
            MailboxWrite::Fence => {}
        }
    }
    memory
}

fn word(memory: &[u8], offset: usize) -> u32 {
    u32::from_le_bytes([
        memory[offset],
        memory[offset + 1],
        memory[offset + 2],
        memory[offset + 3],
    ])
}

#[test]
fn written_mailboxes_validate() {
    let writes = fill_mailbox(0x5a);
    let memory = store(&writes);
    assert_eq!(memory[0x10], 0x5a);
    assert_eq!(memory[0x11], 0x61);
    let payload = &memory[0x10..0x110];
    validate_mailbox(word(&memory, 0), word(&memory, 4), payload).unwrap();
    assert_eq!(
        validate_mailbox(1, word(&memory, 4), payload).unwrap_err(),
        "cross-peer mailbox magic mismatch: 0x00000001"
    );
    assert_eq!(
        validate_mailbox(MAILBOX_MAGIC, 0, payload).unwrap_err(),
        "cross-peer payload checksum mismatch"
    );
    // The magic comes after the payload.
    assert_eq!(
        writes[writes.len() - 2],
        MailboxWrite::Word { offset: 0, value: MAILBOX_MAGIC }
    );
}

fn read_suite(memory: &[u8]) -> SuiteReading {
    SuiteReading {
        magic: word(memory, 0x00),
        version: word(memory, 0x04),
        route: SuiteRoute {
            phase: word(memory, 0x08),
            sequence: word(memory, 0x0c),
            source_peer: word(memory, 0x10),
            target_peer: word(memory, 0x14),
        },
        checksum: word(memory, 0x18),
        size: word(memory, 0x1c),
        payload: memory[0x20..0x120].to_vec(),
    }
}

#[test]
fn written_suite_mailboxes_validate() {
    let route = suite_route(false);
    let writes = fill_suite_mailbox(route, b"hello").unwrap();
    assert_eq!(writes[0], MailboxWrite::Word { offset: 0, value: 0 });
    assert_eq!(
        writes[writes.len() - 1],
        MailboxWrite::Word { offset: 0, value: SUITE_MAILBOX_MAGIC }
    );
    // The header is visible before the magic is.
    assert_eq!(writes[writes.len() - 2], MailboxWrite::Fence);
    let memory = store(&writes);
    validate_suite_mailbox(&read_suite(&memory), route, b"hello").unwrap();
    let fault = |change: fn(&mut SuiteReading), expected: &[u8]| {
        let mut reading = read_suite(&memory);
        change(&mut reading);
        validate_suite_mailbox(&reading, route, expected).unwrap_err()
    };
    assert_eq!(fault(|r| r.magic = 0, b"hello"), "suite mailbox magic mismatch");
    assert_eq!(fault(|r| r.version = 2, b"hello"), "suite mailbox protocol version mismatch");
    assert_eq!(
        fault(|r| r.route.sequence = 9, b"hello"),
        "suite mailbox phase or sequence mismatch"
    );
    assert_eq!(fault(|r| r.route.target_peer = 2, b"hello"), "suite mailbox route mismatch");
    assert_eq!(fault(|_| (), b"hell"), "suite mailbox payload size mismatch");
    assert_eq!(fault(|r| r.checksum = 0, b"hello"), "suite mailbox payload checksum mismatch");
    assert_eq!(fault(|_| (), b"hellx"), "suite mailbox message content mismatch");
    assert_eq!(
        fill_suite_mailbox(route, b"").unwrap_err(),
        "outgoing suite message length is invalid"
    );
    assert!(fill_suite_mailbox(route, &[0; 0x101]).is_err());
    assert_eq!(
        log_suite_mailbox("tx", &read_suite(&memory), "doorbell").unwrap(),
        "IVSHMEM_PCI_SUITE_MESSAGE action=tx phase=2 sequence=2 source=1 target=0 path=doorbell \
         content=\"hello\""
    );
    let logged = |change: fn(&mut SuiteReading)| {
        let mut reading = read_suite(&memory);
        change(&mut reading);
        log_suite_mailbox("rx", &reading, "polling")
    };
    assert_eq!(
        logged(|r| r.size = 0x101).unwrap_err(),
        "suite mailbox payload is too large to log"
    );
    assert_eq!(
        logged(|r| r.payload[1] = 0xff).unwrap_err(),
        "suite mailbox message is not UTF-8"
    );
    // Only the bytes of the message are decoded, and characters may take several.
    assert!(logged(|r| r.payload[5] = 0xff).is_ok());
    let wide = logged(|r| {
        r.payload[..5].copy_from_slice(&"h\u{e9}\u{20ac}".as_bytes()[..5]);
    });
    assert!(wide.is_err());
    let wide = logged(|r| {
        r.size = 6;
        r.payload[..6].copy_from_slice("h\u{e9}\u{20ac}".as_bytes());
    });
    assert!(wide.unwrap().ends_with("content=\"h\u{e9}\u{20ac}\""));
}

#[test]
fn boot_arguments_select_the_case() {
    assert_eq!(guest_case(None), GuestCase { suite: false, cross_peer: false });
    assert_eq!(
        guest_case(Some("quiet axvisor.pci_case=ivshmem-cross-peer rw")),
        GuestCase { suite: false, cross_peer: true }
    );
    assert_eq!(
        guest_case(Some("axvisor.pci_case=ivshmem-suite-arceos")),
        GuestCase { suite: true, cross_peer: false }
    );
    assert_eq!(guest_case(Some("")), GuestCase { suite: false, cross_peer: false });
}

const PLAIN: GuestCase = GuestCase { suite: false, cross_peer: false };

#[test]
fn a_guest_sets_its_endpoint_up() {
    let mut setup = GuestSetup::new(PLAIN);
    let readings = [
        IVSHMEM_PCI_ID as u64,
        0x1001_0008,
        0x0400,
        0x1000_0000,
        1,
        2,
        TEST_VALUE,
        0x0001_0002,
    ];
    let mut effects = vec![];
    for reading in readings {
        assert!(setup.next_read().is_some());
        effects.extend(setup.advance(reading).unwrap());
    }
    assert_eq!(setup.stage, SetupStage::Ready);
    assert_eq!(setup.next_read(), None);
    assert_eq!(
        effects,
        [
            SetupEffect::WriteConfig16 { offset: 0x8004, value: 0x0402 },
            SetupEffect::MapRegisters { base: 0x1000_0000, size: 0x1000 },
            SetupEffect::MapShared { base: 0x1001_0000, size: 0x1_0000 },
            SetupEffect::WriteShared64 { offset: 0x8100, value: TEST_VALUE },
            SetupEffect::WriteRegister { offset: 0x10, value: 0x0001_0002 },
        ]
    );
    assert_eq!(
        setup.report(),
        "ivshmem-pci identity=0x11101af4 bar2=0x10010000 peer_id=1 test_offset=0x8100 \
         cross_peer=false suite=false"
    );
}

#[test]
fn setup_failures_are_explained() {
    let at = |stage: SetupStage, suite: bool, peer_id: u32, reading: u64| {
        let mut setup = GuestSetup::new(GuestCase { suite, cross_peer: false });
        setup.stage = stage;
        setup.peer_id = peer_id;
        let error = setup.advance(reading).unwrap_err();
        assert_eq!(setup.stage, stage);
        error
    };
    assert_eq!(
        at(SetupStage::Identity, false, 0, 0xffff_ffff),
        "unexpected PCI identity 0xffffffff, expected 0x11101af4"
    );
    assert_eq!(at(SetupStage::Bar2, false, 0, 0x0c), "BAR2 was not assigned");
    assert_eq!(at(SetupStage::Bar0, false, 0, 0), "BAR0 was not assigned");
    assert_eq!(
        at(SetupStage::MaxPeers, false, 5, 3),
        "profile peer_id=5 max_peers=3, expected peer_id=5 max_peers=2"
    );
    assert_eq!(
        at(SetupStage::MaxPeers, true, 2, 3),
        "profile peer_id=2 max_peers=3, expected peer_id=1 max_peers=3"
    );
    assert_eq!(
        at(SetupStage::Readback, false, 0, 0),
        "BAR2 readback mismatch: expected 0x495653484d454d31, got 0x0000000000000000"
    );
    assert_eq!(
        at(SetupStage::State, false, 0, 1),
        "BAR0 state write did not surface in the state table: 0x00000001"
    );
    let mut setup = GuestSetup::new(PLAIN);
    assert_eq!(setup.next_read(), Some(SetupRead::Config32 { offset: 0x8000 }));
    setup.stage = SetupStage::State;
    setup.peer_id = 3;
    assert_eq!(setup.next_read(), Some(SetupRead::Shared32 { offset: 12 }));
}

#[test]
fn roles_publish_before_they_ring() {
    let suite = GuestCase { suite: true, cross_peer: false };
    let cross = GuestCase { suite: false, cross_peer: true };
    for (case, peer) in [(suite, 1u32), (cross, 0), (cross, 1)] {
        let steps = guest_steps(case, peer);
        let mut rings = 0;
        for (index, step) in steps.iter().enumerate() {
            if let GuestStep::Ring { target, .. } = step {
                if *target != peer {
                    rings += 1;
                    assert_eq!(steps[index - 1], GuestStep::Fence);
                    assert!(matches!(steps[index - 2], GuestStep::SetState(_)));
                }
            }
        }
        assert_eq!(rings, 1);
    }
    assert_eq!(guest_steps(PLAIN, 0).len(), 7);
    assert_eq!(guest_steps(cross, 0).len(), 16);
    assert_eq!(guest_steps(cross, 1).len(), 18);
    assert_eq!(guest_steps(suite, 1).len(), 24);
    assert_eq!(doorbell_value(2, 1), 0x0002_0001);
    assert_eq!(output_section(suite, 2), 0xb000);
    assert_eq!(output_section(PLAIN, 1), 0x8000);
}

#[test]
fn waits_end_at_their_deadline() {
    assert_eq!(deadline(5, 10), 15);
    assert_eq!(deadline(u64::MAX - 1, 10), u64::MAX);
    assert_eq!(wait_event(1, 10, 1), WaitStep::Reached);
    assert_eq!(wait_event(1, 10, 2), WaitStep::Again);
    assert_eq!(wait_event(10, 10, 1), WaitStep::TimedOut);
    assert_eq!(wait_state(7, 7, 99, 10), WaitStep::Reached);
    assert_eq!(wait_state(6, 7, 10, 10), WaitStep::TimedOut);
    assert_eq!(wait_state(6, 7, 9, 10), WaitStep::Again);
    assert_eq!(remote_state_message(0x10003), "remote peer state did not reach 0x00010003");
    assert_eq!(
        suite_state_message(2, 1, 3),
        "suite peer 2 state is 0x00000001, expected 0x00000003"
    );
    assert_eq!(ensure_no_event_until_state(5, 4, 0, 99, 10), Ok(WaitStep::Reached));
    assert_eq!(ensure_no_event_until_state(3, 4, 0, 9, 10), Ok(WaitStep::Again));
    assert_eq!(
        ensure_no_event_until_state(3, 4, 1, 9, 10),
        Err("portable-directed doorbell reached ArceOS")
    );
    assert_eq!(
        ensure_no_event_until_state(3, 4, 0, 10, 10),
        Err("portable peer did not receive the directed doorbell")
    );
    assert_eq!(
        ensure_no_event_until_state(4, 4, 1, 9, 10),
        Err("ArceOS observer has a pending event")
    );
}

#[test]
fn events_are_judged_by_their_step() {
    let fault = GuestFault::FirstSelfDoorbell;
    let awaiting = GuestStep::AwaitEvent { timeout_nanos: 1, fault };
    assert_eq!(judge_event(awaiting, true), Ok(()));
    assert_eq!(judge_event(awaiting, false), Err(fault));
    let refusing = GuestStep::RefuseEvent { wait_nanos: 1, fault };
    assert_eq!(judge_event(refusing, true), Err(fault));
    assert_eq!(judge_event(refusing, false), Ok(()));
    assert_eq!(judge_event(GuestStep::ExpectIdle(fault), true), Err(fault));
    assert_eq!(fault.message(), "first self doorbell timed out");
}

#[test]
fn suite_messages_are_fixed() {
    assert_eq!(suite_message(false), "Hello Linux primary, ArceOS requests an MSI-X round trip.");
    assert_eq!(suite_message(true), "Hello ArceOS, Linux primary received the MSI-X message.");
    let writes = fill_suite_mailbox(suite_route(false), suite_message(false).as_bytes()).unwrap();
    let memory = store(&writes);
    assert_eq!(word(&memory, 0x1c) as usize, suite_message(false).len());
}
