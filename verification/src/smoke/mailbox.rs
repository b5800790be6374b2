//! Mailboxes that peers exchange through their output sections.
//!
//! A mailbox is written as an ordered list of stores; the magic comes last, or
//! after the payload, so a reader that observes it also observes the payload.

use crate::text;
use vstd::prelude::*;
use vstd::string::StringExecFns;
use vstd::utf8;

verus! {

/// Magic of the two-peer mailbox.
pub const MAILBOX_MAGIC: u32 = 0x4956_4350;

/// Magic of the suite mailbox.
pub const SUITE_MAILBOX_MAGIC: u32 = 0x4956_5355;

/// Version of the suite protocol.
pub const SUITE_PROTOCOL_VERSION: u32 = 1;

/// Capacity of a mailbox payload.
pub const MAILBOX_PAYLOAD_SIZE: usize = 0x100;

/// Offset of the payload in the two-peer mailbox.
pub const MAILBOX_PAYLOAD_OFFSET: usize = 0x10;

/// Offset of the payload in the suite mailbox.
pub const SUITE_PAYLOAD_OFFSET: usize = 0x20;

/// Offset of the magic in either mailbox.
pub const MAGIC_OFFSET: usize = 0x00;

/// Offset of the checksum in the two-peer mailbox.
pub const MAILBOX_CHECKSUM_OFFSET: usize = 0x04;

/// Offset of the protocol version in the suite mailbox.
pub const SUITE_VERSION_OFFSET: usize = 0x04;

/// Offset of the phase in the suite mailbox.
pub const SUITE_PHASE_OFFSET: usize = 0x08;

/// Offset of the sequence number in the suite mailbox.
pub const SUITE_SEQUENCE_OFFSET: usize = 0x0c;

/// Offset of the sending peer in the suite mailbox.
pub const SUITE_SOURCE_OFFSET: usize = 0x10;

/// Offset of the receiving peer in the suite mailbox.
pub const SUITE_TARGET_OFFSET: usize = 0x14;

/// Offset of the checksum in the suite mailbox.
pub const SUITE_CHECKSUM_OFFSET: usize = 0x18;

/// Offset of the payload size in the suite mailbox.
pub const SUITE_SIZE_OFFSET: usize = 0x1c;

/// One store into a mailbox, or a fence between stores.
#[derive(Clone, Copy, Debug, PartialEq, Eq, Structural)]
pub enum MailboxWrite {
    Byte { offset: usize, value: u8 },
    Word { offset: usize, value: u32 },
    Fence,
}

/// The checksum of a payload.
pub open spec fn checksum_of(payload: Seq<u8>) -> u32
    decreases payload.len(),
{
    if payload.len() == 0 {
        0x4956_5348
    } else {
        ((checksum_of(payload.drop_last()) as int * 31 + payload.last()) % 0x1_0000_0000) as u32
    }
}

/// Computes the checksum of a payload.
pub fn payload_checksum(payload: &[u8]) -> (checksum: u32)
    ensures
        checksum == checksum_of(payload@),
{
    let mut checksum: u32 = 0x4956_5348;
    let mut index: usize = 0;
    assert(payload@.take(0) =~= Seq::<u8>::empty());
    while index < payload.len()
        invariant
            index <= payload@.len(),
            checksum == checksum_of(payload@.take(index as int)),
        decreases payload@.len() - index,
    {
        let byte: u8 = payload[index];
        let wide: u64 = checksum as u64 * 31 + byte as u64;
        let ghost before = checksum;
        checksum = (wide % 0x1_0000_0000) as u32;
        index = index + 1;
        assert(payload@.take(index as int).drop_last() =~= payload@.take(index - 1));
        assert(payload@.take(index as int).last() == byte);
    }
    assert(payload@.take(payload@.len() as int) =~= payload@);
    checksum
}

/// Stores of bytes from `base` on.
pub open spec fn byte_writes(base: int, bytes: Seq<u8>) -> Seq<MailboxWrite> {
    Seq::new(
        bytes.len(),
        |i: int| MailboxWrite::Byte { offset: (base + i) as usize, value: bytes[i] },
    )
}

/// The store of a word.
pub open spec fn word_write(offset: usize, value: u32) -> MailboxWrite {
    MailboxWrite::Word { offset, value }
}

/// The word that a list of stores leaves at an offset.
pub open spec fn word_at(writes: Seq<MailboxWrite>, offset: usize) -> Option<u32>
    decreases writes.len(),
{
    if writes.len() == 0 {
        None
    } else {
        match writes.last() {
            MailboxWrite::Word { offset: at, value } if at == offset => Some(value),
            _ => word_at(writes.drop_last(), offset),
        }
    }
}

/// The byte that a list of stores leaves at an offset of the payload.
pub open spec fn byte_at(writes: Seq<MailboxWrite>, offset: usize) -> Option<u8>
    decreases writes.len(),
{
    if writes.len() == 0 {
        None
    } else {
        match writes.last() {
            MailboxWrite::Byte { offset: at, value } if at == offset => Some(value),
            _ => byte_at(writes.drop_last(), offset),
        }
    }
}

fn push_bytes(writes: &mut Vec<MailboxWrite>, base: usize, bytes: &[u8])
    requires
        base + bytes@.len() <= usize::MAX,
    ensures
        final(writes)@ == old(writes)@ + byte_writes(base as int, bytes@),
{
    let mut index: usize = 0;
    assert(byte_writes(base as int, bytes@).take(0) =~= Seq::<MailboxWrite>::empty());
    assert(writes@ =~= old(writes)@ + byte_writes(base as int, bytes@).take(0));
    while index < bytes.len()
        invariant
            index <= bytes@.len(),
            base + bytes@.len() <= usize::MAX,
            writes@ == old(writes)@ + byte_writes(base as int, bytes@).take(index as int),
        decreases bytes@.len() - index,
    {
        writes.push(MailboxWrite::Byte { offset: base + index, value: bytes[index] });
        index = index + 1;
        assert(writes@ =~= old(writes)@ + byte_writes(base as int, bytes@).take(index as int));
    }
    assert(byte_writes(base as int, bytes@).take(bytes@.len() as int) =~= byte_writes(
        base as int,
        bytes@,
    ));
}

// ---------------------------------------------------------------------------
// The two-peer mailbox
// ---------------------------------------------------------------------------

/// The payload pattern of a seed.
pub open spec fn pattern(seed: u32) -> Seq<u8> {
    Seq::new(MAILBOX_PAYLOAD_SIZE as nat, |i: int| ((i * 7 + seed) % 256) as u8)
}

/// The stores of a two-peer mailbox.
pub open spec fn mailbox_writes(payload: Seq<u8>) -> Seq<MailboxWrite> {
    byte_writes(MAILBOX_PAYLOAD_OFFSET as int, payload).push(word_write(0, MAILBOX_MAGIC)).push(
        word_write(4, checksum_of(payload)),
    )
}

/// Why a two-peer mailbox is not accepted.
pub open spec fn mailbox_fault(magic: u32, checksum: u32, payload: Seq<u8>) -> Option<Seq<char>> {
    if magic != MAILBOX_MAGIC {
        Some(
            "cross-peer mailbox magic mismatch: 0x"@ + text::padded_hex_text(magic as nat, 8),
        )
    } else if checksum != checksum_of(payload) {
        Some("cross-peer payload checksum mismatch"@)
    } else {
        None
    }
}

fn payload_pattern(seed: u32) -> (payload: Vec<u8>)
    requires
        255 * 7 + seed <= u32::MAX,
    ensures
        payload@ == pattern(seed),
{
    let mut payload: Vec<u8> = Vec::new();
    let mut index: usize = 0;
    while index < MAILBOX_PAYLOAD_SIZE
        invariant
            index <= MAILBOX_PAYLOAD_SIZE,
            255 * 7 + seed <= u32::MAX,
            payload@ == pattern(seed).take(index as int),
        decreases MAILBOX_PAYLOAD_SIZE - index,
    {
        payload.push(((index as u32 * 7 + seed) % 256) as u8);
        index = index + 1;
        assert(payload@ =~= pattern(seed).take(index as int));
    }
    assert(pattern(seed).take(index as int) =~= pattern(seed));
    payload
}

/// Writes a two-peer mailbox with the payload pattern of `seed`: payload first,
/// then magic and checksum.
pub fn fill_mailbox(seed: u32) -> (writes: Vec<MailboxWrite>)
    requires
        255 * 7 + seed <= u32::MAX,
    ensures
        writes@ == mailbox_writes(pattern(seed)),
{
    let payload = payload_pattern(seed);
    let mut writes: Vec<MailboxWrite> = Vec::new();
    push_bytes(&mut writes, MAILBOX_PAYLOAD_OFFSET, payload.as_slice());
    assert(writes@ =~= byte_writes(MAILBOX_PAYLOAD_OFFSET as int, payload@));
    writes.push(MailboxWrite::Word { offset: 0, value: MAILBOX_MAGIC });
    let checksum: u32 = payload_checksum(payload.as_slice());
    writes.push(MailboxWrite::Word { offset: 4, value: checksum });
    writes
}

/// Checks a two-peer mailbox as read.
pub fn validate_mailbox(magic: u32, checksum: u32, payload: &[u8]) -> (result: Result<(), String>)
    ensures
        match result {
            Ok(()) => mailbox_fault(magic, checksum, payload@) is None,
            Err(message) => mailbox_fault(magic, checksum, payload@) == Some(message@),
        },
{
    if magic != MAILBOX_MAGIC {
        let mut message = text::text_of("cross-peer mailbox magic mismatch: 0x");
        text::push_padded_hex(&mut message, magic as u64, 8);
        return Err(message);
    }
    if checksum != payload_checksum(payload) {
        return Err(text::text_of("cross-peer payload checksum mismatch"));
    }
    Ok(())
}

// ---------------------------------------------------------------------------
// The suite mailbox
// ---------------------------------------------------------------------------

/// Which message of which exchange travels between which peers.
#[derive(Clone, Copy, Debug, PartialEq, Eq, Structural)]
pub struct SuiteRoute {
    pub phase: u32,
    pub sequence: u32,
    pub source_peer: u32,
    pub target_peer: u32,
}

/// A suite mailbox as read; the payload holds at least as many bytes as a valid
/// size names.
#[derive(Debug)]
pub struct SuiteReading {
    pub magic: u32,
    pub version: u32,
    pub route: SuiteRoute,
    pub checksum: u32,
    pub size: u32,
    pub payload: Vec<u8>,
}

/// An empty payload.
pub open spec fn empty_payload() -> Seq<u8> {
    Seq::new(MAILBOX_PAYLOAD_SIZE as nat, |i: int| 0u8)
}

/// The header stores of a suite mailbox; the magic comes last, behind a fence.
pub open spec fn suite_header(route: SuiteRoute, message: Seq<u8>) -> Seq<MailboxWrite> {
    seq![
        word_write(SUITE_VERSION_OFFSET, SUITE_PROTOCOL_VERSION),
        word_write(SUITE_PHASE_OFFSET, route.phase),
        word_write(SUITE_SEQUENCE_OFFSET, route.sequence),
        word_write(SUITE_SOURCE_OFFSET, route.source_peer),
        word_write(SUITE_TARGET_OFFSET, route.target_peer),
        word_write(SUITE_CHECKSUM_OFFSET, checksum_of(message)),
        word_write(SUITE_SIZE_OFFSET, message.len() as u32),
        MailboxWrite::Fence,
        word_write(MAGIC_OFFSET, SUITE_MAILBOX_MAGIC),
    ]
}

/// The stores of a suite mailbox: the old magic is withdrawn, the payload
/// cleared and written, then the header with the magic last.
pub open spec fn suite_writes(route: SuiteRoute, message: Seq<u8>) -> Seq<MailboxWrite> {
    seq![word_write(MAGIC_OFFSET, 0)] + byte_writes(SUITE_PAYLOAD_OFFSET as int, empty_payload())
        + byte_writes(SUITE_PAYLOAD_OFFSET as int, message) + suite_header(route, message)
}

/// Why a suite mailbox is not the expected one.
pub open spec fn suite_fault(
    reading: SuiteReading,
    route: SuiteRoute,
    expected: Seq<u8>,
) -> Option<Seq<char>> {
    if reading.magic != SUITE_MAILBOX_MAGIC {
        Some("suite mailbox magic mismatch"@)
    } else if reading.version != SUITE_PROTOCOL_VERSION {
        Some("suite mailbox protocol version mismatch"@)
    } else if reading.route.phase != route.phase || reading.route.sequence != route.sequence {
        Some("suite mailbox phase or sequence mismatch"@)
    } else if reading.route.source_peer != route.source_peer || reading.route.target_peer
        != route.target_peer {
        Some("suite mailbox route mismatch"@)
    } else if reading.size != expected.len() || reading.size > MAILBOX_PAYLOAD_SIZE {
        Some("suite mailbox payload size mismatch"@)
    } else if reading.checksum != checksum_of(reading.payload@.take(reading.size as int)) {
        Some("suite mailbox payload checksum mismatch"@)
    } else if reading.payload@.take(reading.size as int) != expected {
        Some("suite mailbox message content mismatch"@)
    } else {
        None
    }
}

fn zero_payload() -> (payload: Vec<u8>)
    ensures
        payload@ == empty_payload(),
{
    let mut payload: Vec<u8> = Vec::new();
    while payload.len() < MAILBOX_PAYLOAD_SIZE
        invariant
            payload.len() <= MAILBOX_PAYLOAD_SIZE,
            forall|i: int| 0 <= i < payload@.len() ==> payload@[i] == 0,
        decreases MAILBOX_PAYLOAD_SIZE - payload.len(),
    {
        payload.push(0);
    }
    assert(payload@ =~= empty_payload());
    payload
}

/// Writes a suite mailbox, if the message is neither empty nor too long.
pub fn fill_suite_mailbox(route: SuiteRoute, message: &[u8]) -> (writes: Result<
    Vec<MailboxWrite>,
    &'static str,
>)
    ensures
        match writes {
            Ok(writes) => 0 < message@.len() <= MAILBOX_PAYLOAD_SIZE && writes@ == suite_writes(
                route,
                message@,
            ),
            Err(fault) => !(0 < message@.len() <= MAILBOX_PAYLOAD_SIZE) && fault@
                == "outgoing suite message length is invalid"@,
        },
{
    if message.len() == 0 || message.len() > MAILBOX_PAYLOAD_SIZE {
        return Err("outgoing suite message length is invalid");
    }
    let mut writes: Vec<MailboxWrite> = Vec::new();
    writes.push(MailboxWrite::Word { offset: MAGIC_OFFSET, value: 0 });
    assert(writes@ =~= seq![word_write(MAGIC_OFFSET, 0)]);
    let zeros = zero_payload();
    push_bytes(&mut writes, SUITE_PAYLOAD_OFFSET, zeros.as_slice());
    push_bytes(&mut writes, SUITE_PAYLOAD_OFFSET, message);
    let ghost before = writes@;
    let checksum: u32 = payload_checksum(message);
    writes.push(MailboxWrite::Word { offset: SUITE_VERSION_OFFSET, value: SUITE_PROTOCOL_VERSION });
    writes.push(MailboxWrite::Word { offset: SUITE_PHASE_OFFSET, value: route.phase });
    writes.push(MailboxWrite::Word { offset: SUITE_SEQUENCE_OFFSET, value: route.sequence });
    writes.push(MailboxWrite::Word { offset: SUITE_SOURCE_OFFSET, value: route.source_peer });
    writes.push(MailboxWrite::Word { offset: SUITE_TARGET_OFFSET, value: route.target_peer });
    writes.push(MailboxWrite::Word { offset: SUITE_CHECKSUM_OFFSET, value: checksum });
    writes.push(MailboxWrite::Word { offset: SUITE_SIZE_OFFSET, value: message.len() as u32 });
    writes.push(MailboxWrite::Fence);
    writes.push(MailboxWrite::Word { offset: MAGIC_OFFSET, value: SUITE_MAILBOX_MAGIC });
    assert(writes@ =~= before + suite_header(route, message@));
    Ok(writes)
}

/// The first bytes of a payload.
fn leading_bytes(payload: &Vec<u8>, count: usize) -> (bytes: Vec<u8>)
    requires
        count <= payload@.len(),
    ensures
        bytes@ == payload@.take(count as int),
{
    let mut bytes: Vec<u8> = Vec::new();
    let mut index: usize = 0;
    while index < count
        invariant
            index <= count,
            count <= payload@.len(),
            bytes@ == payload@.take(index as int),
        decreases count - index,
    {
        bytes.push(payload[index]);
        index = index + 1;
        assert(bytes@ =~= payload@.take(index as int));
    }
    bytes
}

fn same_bytes(left: &Vec<u8>, right: &[u8]) -> (same: bool)
    ensures
        same == (left@ == right@),
{
    if left.len() != right.len() {
        return false;
    }
    let mut index: usize = 0;
    while index < left.len()
        invariant
            left@.len() == right@.len(),
            index <= left@.len(),
            forall|i: int| 0 <= i < index ==> left@[i] == right@[i],
        decreases left@.len() - index,
    {
        if left[index] != right[index] {
            assert(left@[index as int] != right@[index as int]);
            return false;
        }
        index = index + 1;
    }
    assert(left@ =~= right@);
    true
}

/// Checks that a suite mailbox is the expected one.
pub fn validate_suite_mailbox(
    reading: &SuiteReading,
    route: SuiteRoute,
    expected_message: &[u8],
) -> (result: Result<(), &'static str>)
    requires
        reading.size <= MAILBOX_PAYLOAD_SIZE ==> reading.size <= reading.payload@.len(),
    ensures
        match result {
            Ok(()) => suite_fault(*reading, route, expected_message@) is None,
            Err(fault) => suite_fault(*reading, route, expected_message@) == Some(fault@),
        },
{
    if reading.magic != SUITE_MAILBOX_MAGIC {
        return Err("suite mailbox magic mismatch");
    }
    if reading.version != SUITE_PROTOCOL_VERSION {
        return Err("suite mailbox protocol version mismatch");
    }
    if reading.route.phase != route.phase || reading.route.sequence != route.sequence {
        return Err("suite mailbox phase or sequence mismatch");
    }
    if reading.route.source_peer != route.source_peer || reading.route.target_peer
        != route.target_peer {
        return Err("suite mailbox route mismatch");
    }
    let size: usize = reading.size as usize;
    if size != expected_message.len() || size > MAILBOX_PAYLOAD_SIZE {
        return Err("suite mailbox payload size mismatch");
    }
    let message = leading_bytes(&reading.payload, size);
    if reading.checksum != payload_checksum(message.as_slice()) {
        return Err("suite mailbox payload checksum mismatch");
    }
    if !same_bytes(&message, expected_message) {
        return Err("suite mailbox message content mismatch");
    }
    Ok(())
}

/// The line that reports a suite message.
pub open spec fn suite_message_text(
    action: Seq<char>,
    route: SuiteRoute,
    path: Seq<char>,
    content: Seq<char>,
) -> Seq<char> {
    "IVSHMEM_PCI_SUITE_MESSAGE action="@ + action + " phase="@ + text::dec_text(
        route.phase as nat,
    ) + " sequence="@ + text::dec_text(route.sequence as nat) + " source="@ + text::dec_text(
        route.source_peer as nat,
    ) + " target="@ + text::dec_text(route.target_peer as nat) + " path="@ + path + " content=\""@
        + content + "\""@
}

/// Decodes UTF-8 with `std::str::from_utf8`.
///
/// Claimed of it is that it accepts exactly the bytes that are valid UTF-8, and
/// that the text holds the characters which they encode.
#[verifier::external_body]
fn utf8_text(bytes: &[u8]) -> (decoded: Option<String>)
    ensures
        match decoded {
            Some(decoded) => utf8::valid_utf8(bytes@) && decoded@ == utf8::decode_utf8(bytes@),
            None => !utf8::valid_utf8(bytes@),
        },
{
    match std::str::from_utf8(bytes) {
        Ok(decoded) => Some(String::from(decoded)),
        Err(_) => None,
    }
}

/// Reports the message that a suite mailbox holds.
pub fn log_suite_mailbox(action: &str, reading: &SuiteReading, path: &str) -> (line: Result<
    String,
    &'static str,
>)
    requires
        reading.size <= MAILBOX_PAYLOAD_SIZE ==> reading.size <= reading.payload@.len(),
    ensures
        ({
            let message = reading.payload@.take(reading.size as int);
            match line {
                Ok(line) => {
                    &&& reading.size <= MAILBOX_PAYLOAD_SIZE
                    &&& utf8::valid_utf8(message)
                    &&& line@ == suite_message_text(
                        action@,
                        reading.route,
                        path@,
                        utf8::decode_utf8(message),
                    )
                },
                Err(fault) => if reading.size > MAILBOX_PAYLOAD_SIZE {
                    fault@ == "suite mailbox payload is too large to log"@
                } else {
                    !utf8::valid_utf8(message) && fault@ == "suite mailbox message is not UTF-8"@
                },
            }
        }),
{
    let size: usize = reading.size as usize;
    if size > MAILBOX_PAYLOAD_SIZE {
        return Err("suite mailbox payload is too large to log");
    }
    let route = reading.route;
    let message = leading_bytes(&reading.payload, size);
    let content = match utf8_text(message.as_slice()) {
        Some(content) => content,
        None => {
            return Err("suite mailbox message is not UTF-8");
        },
    };
    let mut line = text::text_of("IVSHMEM_PCI_SUITE_MESSAGE action=");
    line.append(action);
    line.append(" phase=");
    text::push_dec(&mut line, route.phase as u64);
    line.append(" sequence=");
    text::push_dec(&mut line, route.sequence as u64);
    line.append(" source=");
    text::push_dec(&mut line, route.source_peer as u64);
    line.append(" target=");
    text::push_dec(&mut line, route.target_peer as u64);
    line.append(" path=");
    line.append(path);
    line.append(" content=\"");
    line.append(content.as_str());
    line.append("\"");
    assert(line@ =~= suite_message_text(action@, route, path@, content@));
    Ok(line)
}

// ---------------------------------------------------------------------------
// Laws
// ---------------------------------------------------------------------------

/// The bytes at the end of a list of stores are the ones that stay.
proof fn lemma_last_bytes_stay(before: Seq<MailboxWrite>, base: usize, bytes: Seq<u8>, i: int)
    requires
        base + bytes.len() <= usize::MAX,
        0 <= i < bytes.len(),
    ensures
        byte_at(before + byte_writes(base as int, bytes), (base + i) as usize) == Some(bytes[i]),
    decreases bytes.len(),
{
    let writes = before + byte_writes(base as int, bytes);
    assert(writes.last() == (MailboxWrite::Byte {
        offset: (base + bytes.len() - 1) as usize,
        value: bytes.last(),
    }));
    if i < bytes.len() - 1 {
        lemma_last_bytes_stay(before, base, bytes.drop_last(), i);
        assert(writes.drop_last() =~= before + byte_writes(base as int, bytes.drop_last()));
    }
}

/// Stores of words leave the payload bytes.
proof fn lemma_words_leave_bytes(
    before: Seq<MailboxWrite>,
    words: Seq<MailboxWrite>,
    offset: usize,
)
    requires
        forall|k: int| 0 <= k < words.len() ==> !(#[trigger] words[k] is Byte),
    ensures
        byte_at(before + words, offset) == byte_at(before, offset),
    decreases words.len(),
{
    if words.len() == 0 {
        assert(before + words =~= before);
    } else {
        assert((before + words).last() == words[words.len() - 1]);
        assert((before + words).drop_last() =~= before + words.drop_last());
        lemma_words_leave_bytes(before, words.drop_last(), offset);
    }
}

/// **Law.** A two-peer mailbox that was written is accepted when it is read.
pub proof fn law_written_mailbox_is_accepted(
    payload: Seq<u8>,
    magic: u32,
    checksum: u32,
    read_payload: Seq<u8>,
)
    requires
        payload.len() <= MAILBOX_PAYLOAD_SIZE,
        read_payload.len() == payload.len(),
        word_at(mailbox_writes(payload), 0) == Some(magic),
        word_at(mailbox_writes(payload), 4) == Some(checksum),
        forall|i: int|
            0 <= i < payload.len() ==> #[trigger] byte_at(
                mailbox_writes(payload),
                (MAILBOX_PAYLOAD_OFFSET + i) as usize,
            ) == Some(read_payload[i]),
    ensures
        mailbox_fault(magic, checksum, read_payload) is None,
{
    let bytes = byte_writes(MAILBOX_PAYLOAD_OFFSET as int, payload);
    let words = seq![word_write(0, MAILBOX_MAGIC), word_write(4, checksum_of(payload))];
    let writes = mailbox_writes(payload);
    assert(writes =~= bytes + words);
    assert(writes.drop_last() =~= bytes.push(word_write(0, MAILBOX_MAGIC)));
    reveal_with_fuel(word_at, 3);
    assert(writes.last() == word_write(4, checksum_of(payload)));
    assert(writes.drop_last().last() == word_write(0, MAILBOX_MAGIC));
    assert forall|i: int| 0 <= i < payload.len() implies payload[i] == read_payload[i] by {
        let offset = (MAILBOX_PAYLOAD_OFFSET + i) as usize;
        lemma_words_leave_bytes(bytes, words, offset);
        lemma_last_bytes_stay(Seq::empty(), MAILBOX_PAYLOAD_OFFSET, payload, i);
        assert(Seq::<MailboxWrite>::empty() + bytes =~= bytes);
        assert(byte_at(writes, (MAILBOX_PAYLOAD_OFFSET + i) as usize) == Some(read_payload[i]));
    }
    assert(payload =~= read_payload);
}

/// **Law.** A suite mailbox that was written is accepted by the peer that reads
/// it for the same message and route.
pub proof fn law_written_suite_mailbox_is_accepted(
    route: SuiteRoute,
    message: Seq<u8>,
    reading: SuiteReading,
)
    requires
        0 < message.len() <= MAILBOX_PAYLOAD_SIZE,
        message.len() <= reading.payload@.len(),
        word_at(suite_writes(route, message), 0x00) == Some(reading.magic),
        word_at(suite_writes(route, message), 0x04) == Some(reading.version),
        word_at(suite_writes(route, message), 0x08) == Some(reading.route.phase),
        word_at(suite_writes(route, message), 0x0c) == Some(reading.route.sequence),
        word_at(suite_writes(route, message), 0x10) == Some(reading.route.source_peer),
        word_at(suite_writes(route, message), 0x14) == Some(reading.route.target_peer),
        word_at(suite_writes(route, message), 0x18) == Some(reading.checksum),
        word_at(suite_writes(route, message), 0x1c) == Some(reading.size),
        forall|i: int|
            0 <= i < message.len() ==> #[trigger] byte_at(
                suite_writes(route, message),
                (SUITE_PAYLOAD_OFFSET + i) as usize,
            ) == Some(reading.payload@[i]),
    ensures
        suite_fault(reading, route, message) is None,
{
    let cleared = seq![word_write(0x00, 0)] + byte_writes(
        SUITE_PAYLOAD_OFFSET as int,
        empty_payload(),
    );
    let before = cleared + byte_writes(SUITE_PAYLOAD_OFFSET as int, message);
    let header = suite_header(route, message);
    let writes = suite_writes(route, message);
    assert(writes =~= before + header);
    reveal_with_fuel(word_at, 10);
    let w1 = writes.drop_last();
    let w2 = w1.drop_last();
    let w3 = w2.drop_last();
    let w4 = w3.drop_last();
    let w5 = w4.drop_last();
    let w6 = w5.drop_last();
    let w7 = w6.drop_last();
    let w8 = w7.drop_last();
    assert(writes.last() == header[8]);
    assert(w1.last() == header[7]);
    assert(w2.last() == header[6]);
    assert(w3.last() == header[5]);
    assert(w4.last() == header[4]);
    assert(w5.last() == header[3]);
    assert(w6.last() == header[2]);
    assert(w7.last() == header[1]);
    assert(w8.last() == header[0]);
    assert forall|i: int| 0 <= i < message.len() implies message[i] == reading.payload@[i] by {
        let offset = (SUITE_PAYLOAD_OFFSET + i) as usize;
        lemma_words_leave_bytes(before, header, offset);
        lemma_last_bytes_stay(cleared, SUITE_PAYLOAD_OFFSET, message, i);
        assert(byte_at(writes, (SUITE_PAYLOAD_OFFSET + i) as usize) == Some(reading.payload@[i]));
    }
    assert(reading.payload@.take(message.len() as int) =~= message);
}

/// **Law.** While a suite mailbox is being written its magic is withdrawn; it is
/// the last store that brings it back.
pub proof fn law_suite_magic_comes_last(route: SuiteRoute, message: Seq<u8>, count: int)
    requires
        0 < count < suite_writes(route, message).len(),
    ensures
        word_at(suite_writes(route, message).take(count), 0x00) == Some(0u32),
        word_at(suite_writes(route, message), 0x00) == Some(SUITE_MAILBOX_MAGIC),
    decreases count,
{
    let writes = suite_writes(route, message);
    let part = writes.take(count);
    assert(writes.last() == word_write(0x00, SUITE_MAILBOX_MAGIC));
    assert(part.last() == writes[count - 1]);
    if count == 1 {
        assert(part.last() == word_write(0x00, 0));
    } else {
        law_suite_magic_comes_last(route, message, count - 1);
        assert(part.drop_last() =~= writes.take(count - 1));
        let bytes = 1 + MAILBOX_PAYLOAD_SIZE + message.len();
        if count - 1 >= bytes {
            assert(writes[count - 1] == suite_header(route, message)[count - 1 - bytes]);
        }
    }
}

} // verus!
