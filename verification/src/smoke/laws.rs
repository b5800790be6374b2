//! What the smoke test promises: its mailboxes, its protocol and its build.

use crate::smoke::binaries;
use crate::smoke::guest;
use crate::smoke::guest::{GuestCase, GuestFault, GuestSetup, GuestStep, SetupEffect, SetupRead, SetupStage};
use crate::smoke::mailbox;
use crate::smoke::mailbox::{MailboxWrite, SuiteReading, SuiteRoute};
use crate::text;
use vstd::arithmetic::div_mod;
use vstd::prelude::*;

verus! {

// ---------------------------------------------------------------------------
// Mailboxes
// ---------------------------------------------------------------------------

/// The checksum starts at a fixed word; every byte multiplies it by 31 and is added,
/// modulo 2^32.
pub proof fn law_checksums_fold_the_payload(payload: Seq<u8>, byte: u8)
    ensures
        mailbox::checksum_of(Seq::empty()) == 0x4956_5348,
        mailbox::checksum_of(payload.push(byte)) == (31 * mailbox::checksum_of(payload) + byte)
            % 0x1_0000_0000,
{
    assert(payload.push(byte).drop_last() =~= payload);
}

/// A pattern is 256 bytes; it begins with the seed and rises by seven from byte to
/// byte, modulo 256.
pub proof fn law_patterns_rise_by_seven(seed: u32, i: int)
    requires
        0 <= i < 255,
    ensures
        mailbox::pattern(seed).len() == 256,
        mailbox::pattern(seed)[0] == seed % 256,
        mailbox::pattern(seed)[i + 1] == (mailbox::pattern(seed)[i] + 7) % 256,
{
    let start = i * 7 + seed;
    assert((i + 1) * 7 + seed == start + 7);
    div_mod::lemma_add_mod_noop(start, 7, 256);
    assert(mailbox::pattern(seed)[i] == start % 256);
    assert(mailbox::pattern(seed)[i + 1] == (start + 7) % 256);
}

/// A mailbox is the payload from byte 16 on, then the magic word at 0, then the
/// checksum at 4.
pub proof fn law_mailboxes_have_a_fixed_layout(payload: Seq<u8>, i: int)
    requires
        payload.len() <= 0x1000,
        0 <= i < payload.len(),
    ensures
        ({
            let writes = mailbox::mailbox_writes(payload);
            let n = payload.len() as int;
            &&& writes.len() == n + 2
            &&& writes[i] == (MailboxWrite::Byte { offset: (16 + i) as usize, value: payload[i] })
            &&& writes[n] == (MailboxWrite::Word { offset: 0, value: 0x4956_4350 })
            &&& writes[n + 1] == (MailboxWrite::Word {
                offset: 4,
                value: mailbox::checksum_of(payload),
            })
        }),
{
}

/// A mailbox is accepted exactly when its magic and its checksum are right; a wrong
/// magic is reported before a wrong checksum.
pub proof fn law_mailboxes_are_accepted_by_magic_and_checksum(
    magic: u32,
    checksum: u32,
    payload: Seq<u8>,
)
    ensures
        mailbox::mailbox_fault(magic, checksum, payload) is None <==> magic == 0x4956_4350
            && checksum == mailbox::checksum_of(payload),
        magic != 0x4956_4350 ==> mailbox::mailbox_fault(magic, checksum, payload) == Some(
            "cross-peer mailbox magic mismatch: 0x"@ + text::padded_hex_text(magic as nat, 8),
        ),
        magic == 0x4956_4350 && checksum != mailbox::checksum_of(payload) ==> mailbox::mailbox_fault(
            magic,
            checksum,
            payload,
        ) == Some("cross-peer payload checksum mismatch"@),
{
}

/// A suite mailbox is accepted exactly when it holds the magic, the version, the
/// route, the size, the checksum and the bytes that are expected.
pub proof fn law_suite_mailboxes_are_accepted_by_every_field(
    reading: SuiteReading,
    route: SuiteRoute,
    expected: Seq<u8>,
)
    ensures
        mailbox::suite_fault(reading, route, expected) is None <==> {
            &&& reading.magic == 0x4956_5355
            &&& reading.version == 1
            &&& reading.route == route
            &&& reading.size == expected.len()
            &&& reading.size <= 256
            &&& reading.payload@.take(reading.size as int) == expected
            &&& reading.checksum == mailbox::checksum_of(expected)
        },
{
}

/// A suite mailbox first withdraws its magic, then clears 256 payload bytes from
/// byte 32 on and writes the message there, then writes the header words, and, after
/// a fence, the magic.
pub proof fn law_suite_mailboxes_have_a_fixed_layout(route: SuiteRoute, message: Seq<u8>, i: int)
    requires
        message.len() <= 256,
        0 <= i < 256,
    ensures
        ({
            let writes = mailbox::suite_writes(route, message);
            let header = writes.skip(257 + message.len() as int);
            let word = |offset: usize, value: u32| MailboxWrite::Word { offset, value };
            &&& writes.len() == 266 + message.len()
            &&& writes[0] == word(0, 0)
            &&& writes[1 + i] == (MailboxWrite::Byte { offset: (32 + i) as usize, value: 0 })
            &&& i < message.len() ==> writes[257 + i] == (MailboxWrite::Byte {
                offset: (32 + i) as usize,
                value: message[i],
            })
            &&& header[0] == word(4, 1)
            &&& header[1] == word(8, route.phase)
            &&& header[2] == word(12, route.sequence)
            &&& header[3] == word(16, route.source_peer)
            &&& header[4] == word(20, route.target_peer)
            &&& header[5] == word(24, mailbox::checksum_of(message))
            &&& header[6] == word(28, message.len() as u32)
            &&& header[7] == MailboxWrite::Fence
            &&& header[8] == word(0, 0x4956_5355)
        }),
{
}

/// What a list of stores leaves at an offset is what its last store there wrote.
pub proof fn law_the_last_store_counts(
    writes: Seq<MailboxWrite>,
    offset: usize,
    other: usize,
    word: u32,
    byte: u8,
)
    ensures
        mailbox::word_at(Seq::empty(), offset) is None,
        mailbox::byte_at(Seq::empty(), offset) is None,
        mailbox::word_at(writes.push(MailboxWrite::Word { offset, value: word }), offset) == Some(
            word,
        ),
        mailbox::byte_at(writes.push(MailboxWrite::Byte { offset, value: byte }), offset) == Some(
            byte,
        ),
        other != offset ==> mailbox::word_at(
            writes.push(MailboxWrite::Word { offset: other, value: word }),
            offset,
        ) == mailbox::word_at(writes, offset),
        other != offset ==> mailbox::byte_at(
            writes.push(MailboxWrite::Byte { offset: other, value: byte }),
            offset,
        ) == mailbox::byte_at(writes, offset),
        mailbox::word_at(writes.push(MailboxWrite::Fence), offset) == mailbox::word_at(
            writes,
            offset,
        ),
        mailbox::byte_at(writes.push(MailboxWrite::Fence), offset) == mailbox::byte_at(
            writes,
            offset,
        ),
{
    assert(writes.push(MailboxWrite::Word { offset, value: word }).drop_last() =~= writes);
    assert(writes.push(MailboxWrite::Byte { offset, value: byte }).drop_last() =~= writes);
    assert(writes.push(MailboxWrite::Word { offset: other, value: word }).drop_last() =~= writes);
    assert(writes.push(MailboxWrite::Byte { offset: other, value: byte }).drop_last() =~= writes);
    assert(writes.push(MailboxWrite::Fence).drop_last() =~= writes);
}

// ---------------------------------------------------------------------------
// Setup
// ---------------------------------------------------------------------------

/// A suite has three peers and output sections of 20 KiB; every other case has two
/// peers and sections of 28 KiB. The test value of a peer stands 256 bytes into its
/// section, behind the page of states.
pub proof fn law_cases_shape_the_memory(case: GuestCase, peer_id: u32)
    ensures
        guest::expected_peers(case) == (if case.suite {
            3u32
        } else {
            2u32
        }),
        guest::section_offset(case, peer_id) == 0x1000 + peer_id * (if case.suite {
            0x5000int
        } else {
            0x7000int
        }),
        guest::test_offset_of(case, peer_id) == guest::section_offset(case, peer_id) + 0x100,
        guest::bootstrap_state(case) == (if case.suite {
            0x3200_0000u32
        } else {
            0x0001_0002u32
        }),
{
}

/// The boot arguments name the case; without them it is neither.
pub proof fn law_boot_arguments_name_the_case(bootargs: Option<&str>)
    ensures
        bootargs is None ==> !guest::case_of(bootargs).suite && !guest::case_of(
            bootargs,
        ).cross_peer,
        bootargs matches Some(bootargs) ==> {
            &&& guest::case_of(Some(bootargs)).suite <==> text::occurs_in(
                bootargs@,
                "axvisor.pci_case=ivshmem-suite-arceos"@,
            )
            &&& guest::case_of(Some(bootargs)).cross_peer <==> text::occurs_in(
                bootargs@,
                "axvisor.pci_case=ivshmem-cross-peer"@,
            )
        },
{
}

/// The address of a BAR is the largest multiple of 16 that is no larger than the
/// register.
pub proof fn law_bar_addresses_drop_the_attributes(raw: u32)
    ensures
        guest::bar_base(raw as int) % 16 == 0,
        guest::bar_base(raw as int) <= raw,
        raw < guest::bar_base(raw as int) + 16,
{
}

/// The place of a stage in the setup.
pub open spec fn place(stage: SetupStage) -> int {
    match stage {
        SetupStage::Identity => 0,
        SetupStage::Bar2 => 1,
        SetupStage::Command => 2,
        SetupStage::Bar0 => 3,
        SetupStage::PeerId => 4,
        SetupStage::MaxPeers => 5,
        SetupStage::Readback => 6,
        SetupStage::State => 7,
        SetupStage::Ready => 8,
    }
}

/// Every accepted reading moves the setup one stage on, and records what it read:
/// the identity, the two BAR addresses and the peer. Nothing else changes.
pub proof fn law_setups_advance_stage_by_stage(setup: GuestSetup, reading: u64)
    requires
        reading <= guest::read_limit(setup.stage),
    ensures
        ({
            let after = guest::setup_after(setup, reading);
            let at = place(setup.stage);
            &&& at < 8 ==> place(after.stage) == at + 1
            &&& at == 8 ==> after == setup
            &&& after.case == setup.case
            &&& after.identity == (if at == 0 {
                reading as int
            } else {
                setup.identity as int
            })
            &&& at != 1 ==> after.bar2 == setup.bar2
            &&& at != 3 ==> after.bar0 == setup.bar0
            &&& at == 1 ==> after.bar2 == reading - reading % 16
            &&& at == 3 ==> after.bar0 == reading - reading % 16
            &&& after.peer_id == (if at == 4 {
                reading as int
            } else {
                setup.peer_id as int
            })
        }),
{
}

/// What the setup reads, stage by stage: the identity, BAR2, the command and BAR0 of
/// the function at 0x8000 of the config window, its own number and the number of
/// peers, the test value, and its own entry of the state table.
pub proof fn law_setup_reads(setup: GuestSetup)
    requires
        setup.peer_id <= 0xffff,
    ensures
        ({
            let read = guest::stage_read(setup);
            let at = place(setup.stage);
            &&& at == 0 ==> read == Some(SetupRead::Config32 { offset: 0x8000 })
            &&& at == 1 ==> read == Some(SetupRead::Config32 { offset: 0x8018 })
            &&& at == 2 ==> read == Some(SetupRead::Config16 { offset: 0x8004 })
            &&& at == 3 ==> read == Some(SetupRead::Config32 { offset: 0x8010 })
            &&& at == 4 ==> read == Some(SetupRead::Register { offset: 0 })
            &&& at == 5 ==> read == Some(SetupRead::Register { offset: 4 })
            &&& at == 6 ==> read == Some(
                SetupRead::Shared64 {
                    offset: (0x1100 + setup.peer_id * (if setup.case.suite {
                        0x5000int
                    } else {
                        0x7000int
                    })) as u64,
                },
            )
            &&& at == 7 ==> read == Some(SetupRead::Shared32 { offset: (4 * setup.peer_id) as u64 })
            &&& at == 8 ==> read is None
        }),
{
}

/// A reading ends the setup exactly when the identity is not the device's, a BAR has
/// no address, the profile is not that of the case, or what was written is not read
/// back.
pub proof fn law_setups_end_only_for_cause(setup: GuestSetup, reading: u64)
    ensures
        guest::setup_fault(setup, reading) is None <==> {
            let at = place(setup.stage);
            &&& at == 0 ==> reading == 0x1110_1af4
            &&& at == 1 || at == 3 ==> reading >= 16
            &&& at == 5 ==> reading == (if setup.case.suite {
                3int
            } else {
                2int
            }) && (setup.case.suite ==> setup.peer_id == 1)
            &&& at == 6 ==> reading == 0x4956_5348_4d45_4d31
            &&& at == 7 ==> reading == (if setup.case.suite {
                0x3200_0000int
            } else {
                0x0001_0002int
            })
        },
{
}

/// What the setup does after a reading: it turns memory decoding on, maps the
/// registers and the shared memory, writes the test value and publishes its state.
pub proof fn law_setup_effects(setup: GuestSetup, reading: u64)
    requires
        reading <= guest::read_limit(setup.stage),
        setup.peer_id <= 0xffff,
    ensures
        ({
            let effects = guest::setup_effects(setup, reading);
            let at = place(setup.stage);
            &&& at == 2 ==> effects.len() == 1 && effects[0] == (SetupEffect::WriteConfig16 {
                offset: 0x8004,
                value: reading as u16 | 2,
            })
            &&& at == 3 ==> effects.len() == 1 && effects[0] == (SetupEffect::MapRegisters {
                base: (reading - reading % 16) as u32,
                size: 0x1000,
            })
            &&& at == 5 ==> effects.len() == 2 && effects[0] == (SetupEffect::MapShared {
                base: setup.bar2,
                size: 0x1_0000,
            }) && effects[1] == (SetupEffect::WriteShared64 {
                offset: guest::test_offset_of(setup.case, setup.peer_id) as u64,
                value: 0x4956_5348_4d45_4d31,
            })
            &&& at == 6 ==> effects.len() == 1 && effects[0] == (SetupEffect::WriteRegister {
                offset: 0x10,
                value: guest::bootstrap_state(setup.case),
            })
            &&& at != 2 && at != 3 && at != 5 && at != 6 ==> effects.len() == 0
        }),
{
}

/// What the setup writes is what it reads back: the test value at its own offset,
/// and its own state.
pub proof fn law_setups_read_back_what_they_wrote(setup: GuestSetup, reading: u64)
    requires
        setup.stage == SetupStage::MaxPeers || setup.stage == SetupStage::Readback,
    ensures
        ({
            let effects = guest::setup_effects(setup, reading);
            let after = guest::setup_after(setup, reading);
            match effects.last() {
                SetupEffect::WriteShared64 { offset, value } => guest::stage_read(after) == Some(
                    SetupRead::Shared64 { offset },
                ) && guest::setup_fault(after, value) is None,
                SetupEffect::WriteRegister { value, .. } => guest::stage_read(after)
                    is Some && guest::setup_fault(after, value as u64) is None,
                _ => false,
            }
        }),
{
}

// ---------------------------------------------------------------------------
// Roles
// ---------------------------------------------------------------------------

/// A peer rings itself twice with vector 0, each time awaiting the event, with an
/// idle check between, and then with vector 1, which must give no event.
pub proof fn law_self_checks_ring_the_peer_itself(peer_id: u32)
    ensures
        ({
            let steps = guest::self_doorbell_steps(peer_id);
            let wait = |fault: GuestFault| GuestStep::AwaitEvent {
                timeout_nanos: 5_000_000_000,
                fault,
            };
            &&& steps.len() == 7
            &&& steps[0] == (GuestStep::Ring { target: peer_id, vector: 0 })
            &&& steps[1] == wait(GuestFault::FirstSelfDoorbell)
            &&& steps[2] == GuestStep::ExpectIdle(GuestFault::EventNotCleared)
            &&& steps[3] == steps[0]
            &&& steps[4] == wait(GuestFault::SecondSelfDoorbell)
            &&& steps[5] == (GuestStep::Ring { target: peer_id, vector: 1 })
            &&& steps[6] == (GuestStep::RefuseEvent {
                wait_nanos: 200_000_000,
                fault: GuestFault::UnsupportedVector,
            })
        }),
{
}

/// Peers 0 and 1 exchange a request and a reply: what one awaits, checks and is rung
/// for is what the other sets, fills and rings.
pub proof fn law_exchanges_fit_together()
    ensures
        ({
            let request = guest::exchange_steps(0);
            let reply = guest::exchange_steps(1);
            let n = reply.len() as int;
            &&& request.len() == 9
            &&& n == 18
            &&& request[0] matches GuestStep::FillMailbox { peer, seed } && peer == 0 && seed
                == 0x5a
            &&& reply[5] == (GuestStep::CheckMailbox { peer: 0 })
            &&& request[1] matches GuestStep::SetState(state) && reply[4] == (
            GuestStep::AwaitRemoteState { peer: 0, expected: state })
            &&& request[3] == (GuestStep::Ring { target: 1, vector: 0 })
            &&& reply[3] matches GuestStep::AwaitEvent { timeout_nanos, fault } && timeout_nanos
                == 30_000_000_000 && fault == GuestFault::CrossPeerRequest
            &&& reply[n - 5] matches GuestStep::FillMailbox { peer, seed } && peer == 1 && seed
                == 0xa5
            &&& request[7] == (GuestStep::CheckMailbox { peer: 1 })
            &&& reply[n - 4] matches GuestStep::SetState(state) && request[6] == (
            GuestStep::AwaitRemoteState { peer: 1, expected: state })
            &&& reply[n - 2] == (GuestStep::Ring { target: 0, vector: 0 })
            &&& request[5] matches GuestStep::AwaitEvent { timeout_nanos, fault } && timeout_nanos
                == 30_000_000_000 && fault == GuestFault::CrossPeerReply
            &&& request[2] == GuestStep::Fence && reply[n - 3] == GuestStep::Fence
            &&& reply.subrange(6, 13) == guest::self_doorbell_steps(1)
        }),
{
    assert(0u32 ^ 1u32 == 1u32 && 1u32 ^ 1u32 == 0u32) by (bit_vector);
    assert(guest::exchange_steps(1).subrange(6, 13) =~= guest::self_doorbell_steps(1));
}

/// Every role but that of a replying peer begins with the checks of its own
/// doorbell; the suite, then the exchange follow if the case asks for them.
pub proof fn law_roles_follow_the_case(case: GuestCase, peer_id: u32)
    ensures
        ({
            let steps = guest::role_steps(case, peer_id);
            let checks = guest::self_doorbell_steps(peer_id);
            &&& case.suite ==> steps == checks + guest::suite_steps()
            &&& !case.suite && !case.cross_peer ==> steps == checks
            &&& !case.suite && case.cross_peer && peer_id == 0 ==> steps == checks
                + guest::exchange_steps(0)
            &&& !case.suite && case.cross_peer && peer_id != 0 ==> steps == guest::exchange_steps(
                peer_id,
            )
        }),
{
}

/// The suite role arms its observer, waits for the portable peer under watch, waits
/// for both others, sends its request to peer 0 with one doorbell, awaits the event
/// and the state of the reply, checks it and ends.
pub proof fn law_the_suite_role_in_order()
    ensures
        ({
            let steps = guest::suite_steps();
            &&& steps.len() == 17
            &&& steps[1] == GuestStep::SetState(0x3200_0001)
            &&& steps[2] == (GuestStep::WatchUntilState { peer: 2, expected: 0x3300_0002 })
            &&& steps[3] == GuestStep::SetState(0x3200_0002)
            &&& steps[5] == (GuestStep::AwaitSuiteState { peer: 2, expected: 0x3300_0004 })
            &&& steps[6] == (GuestStep::AwaitSuiteState { peer: 0, expected: 0x3100_0101 })
            &&& steps[7] == GuestStep::SendSuiteRequest
            &&& steps[8] == GuestStep::SetState(0x3200_0003)
            &&& steps[9] == GuestStep::Fence
            &&& steps[10] == (GuestStep::Ring { target: 0, vector: 0 })
            &&& steps[12] == (GuestStep::AwaitEvent {
                timeout_nanos: 30_000_000_000,
                fault: GuestFault::SuiteReply,
            })
            &&& steps[13] == (GuestStep::AwaitSuiteState { peer: 0, expected: 0x3100_0103 })
            &&& steps[14] == GuestStep::CheckSuiteReply
            &&& steps[15] == GuestStep::SetState(0x3200_0004)
            &&& steps[0] is Report && steps[4] is Report && steps[11] is Report && steps[16]
                is Report
        }),
{
}

/// An event is pending exactly when the status is odd.
pub proof fn law_the_lowest_bit_is_the_event(status: u32)
    ensures
        guest::is_pending(status) <==> status % 2 == 1,
{
    assert(status & 1 == status % 2) by (bit_vector);
}

// ---------------------------------------------------------------------------
// Build
// ---------------------------------------------------------------------------

/// Joined paths have exactly one separator between them where the first has none at
/// its end; nothing goes before the second if the first is empty.
pub proof fn law_paths_join_at_one_separator(base: Seq<char>, rest: Seq<char>)
    ensures
        binaries::joined(Seq::empty(), rest) == rest,
        binaries::joined(base.push('/'), rest) == base + seq!['/'] + rest,
        base.len() > 0 && base.last() != '/' ==> binaries::joined(base, rest) == base + seq!['/']
            + rest,
{
    reveal_strlit("/");
    assert("/"@ =~= seq!['/']);
    assert(Seq::<char>::empty() + rest =~= rest);
    assert(base.push('/') + rest =~= base + seq!['/'] + rest);
}

/// A flattened name has no separator, and differs from the name only where one
/// stood.
pub proof fn law_flat_names_have_no_separator(name: Seq<char>, i: int)
    requires
        0 <= i < name.len(),
    ensures
        binaries::flattened(name).len() == name.len(),
        binaries::flattened(name)[i] != '/',
        name[i] != '/' ==> binaries::flattened(name)[i] == name[i],
        name[i] == '/' ==> binaries::flattened(name)[i] == '_',
{
}

/// A path stays inside exactly when it does not begin with a separator and has no
/// component of two dots.
pub proof fn law_inside_paths_have_no_parent_component(
    before: Seq<char>,
    after: Seq<char>,
    path: Seq<char>,
)
    requires
        before.len() == 0 || before.last() == '/',
        after.len() == 0 || after[0] == '/',
    ensures
        !binaries::stays_inside(seq!['/'] + path),
        !binaries::stays_inside(before + seq!['.', '.'] + after),
        path.len() > 0 && path[0] != '/' && (forall|i: int|
            0 <= i < path.len() - 1 ==> !(#[trigger] path[i] == '.' && path[i + 1] == '.'))
            ==> binaries::stays_inside(path),
{
    assert((seq!['/'] + path)[0] == '/');
    let climbing = before + seq!['.', '.'] + after;
    let at = before.len() as int;
    assert(climbing[at] == '.' && climbing[at + 1] == '.');
    if at > 0 {
        assert(climbing[at - 1] == before.last());
    }
    if after.len() > 0 {
        assert(climbing[at + 2] == after[0]);
    }
    assert(binaries::parent_at(climbing, at));
}

/// The archiver of a compiler `...-gcc` is `...-ar`; any other compiler has the
/// default one of the architecture.
pub proof fn law_archivers_match_their_compiler(arch: Seq<char>, toolchain: Seq<char>, compiler: Seq<char>)
    ensures
        binaries::archiver_of(arch, toolchain + "-gcc"@) == toolchain + "-ar"@,
        (compiler.len() < 4 || compiler.skip(compiler.len() - 4) != "-gcc"@)
            ==> binaries::archiver_of(arch, compiler) == arch + "-linux-musl-ar"@,
{
    reveal_strlit("-gcc");
    let named = toolchain + "-gcc"@;
    assert(named.skip(named.len() - 4) =~= "-gcc"@);
    assert(named.take(named.len() - 4) =~= toolchain);
}

/// A build compiles every object before the step that uses it: the archive takes the
/// objects of the three library sources, and each program links its own object with
/// that archive and the given flags.
pub proof fn law_builds_link_what_they_compiled(
    root: Seq<char>,
    arch: Seq<char>,
    compiler: Seq<char>,
    flags: Seq<Seq<char>>,
    i: int,
)
    requires
        0 <= i < flags.len(),
    ensures
        ({
            let steps = binaries::smoke_steps(root, arch, compiler, flags);
            let args = |k: int| steps[k]->args;
            &&& steps.len() == 10
            &&& steps[0] is CreateDir && steps[5] is CreateDir
            &&& forall|k: int|
                0 <= k < 10 && k != 0 && k != 5 && k != 7 ==> (#[trigger] steps[k])->program
                    == compiler
            &&& forall|k: int|
                (1 <= k <= 4 || k == 6) ==> (#[trigger] steps[k])->args.len() == 13
                    && steps[k]->args[9] == "-c"@ && steps[k]->args[10] == "-o"@
            &&& steps[7]->program == binaries::archiver_of(arch, compiler)
            &&& args(7) == seq!["rcs"@, args(8)[3], args(1)[11], args(2)[11], args(3)[11]]
            &&& args(8)[2] == args(4)[11]
            &&& args(9)[2] == args(6)[11]
            &&& args(8)[3] == args(9)[3]
            &&& args(8)[4 + i] == flags[i]
            &&& args(9)[4 + i] == flags[i]
            &&& args(8).len() == 4 + flags.len()
            &&& args(9).len() == 4 + flags.len()
        }),
{
}

} // verus!
