//! What the terminals and the early console promise as a whole.

use crate::serial::console;
use crate::serial::console::{EarlySerial, EarlyconConfig, EarlyconPlatform};
use crate::serial::tty;
use crate::serial::tty::{ProcessMode, SerialDevice, SerialTtyEntry};
use crate::text;
use vstd::prelude::*;

verus! {

// ---------------------------------------------------------------------------
// Console text
// ---------------------------------------------------------------------------

/// A line feed leaves the console as a carriage return and a line feed, wherever
/// it stands.
pub proof fn law_line_feeds_follow_carriage_returns(before: Seq<char>, after: Seq<char>)
    ensures
        console::terminal_text(before + seq!['\n'] + after) == console::terminal_text(before)
            + seq!['\r', '\n'] + console::terminal_text(after),
{
    console::law_printing_is_piecewise(before + seq!['\n'], after);
    console::law_printing_is_piecewise(before, seq!['\n']);
    reveal_strlit("\r\n");
    let feed = seq!['\n'];
    assert(feed.drop_last() =~= Seq::<char>::empty());
    assert(console::terminal_text(feed.drop_last()) =~= Seq::<char>::empty());
    assert(console::terminal_text(feed) =~= seq!['\r', '\n']);
}

proof fn lemma_blanks(count: int)
    ensures
        console::blanks(count).len() == if count <= 0 {
            0
        } else {
            count
        },
        forall|i: int| 0 <= i < console::blanks(count).len() ==> console::blanks(count)[i] == ' ',
    decreases count,
{
    reveal_strlit(" ");
    if count > 0 {
        lemma_blanks(count - 1);
    }
}

/// Whether a text is `count` blanks, or none for a negative count.
pub open spec fn is_blank_filled(text: Seq<char>, count: int) -> bool {
    text.len() == (if count <= 0 {
        0
    } else {
        count
    }) && forall|i: int| 0 <= i < text.len() ==> text[i] == ' '
}

/// A range is written as its bounds in hexadecimal of at least sixteen digits, the
/// first included and the second not. A region's line gives the name filled with
/// blanks to twenty places, the range from its base over its size, and the size in
/// units of 1 MiB filled to five places; a remark stands behind it. A mapping's line
/// gives both ranges.
pub proof fn law_range_lines(
    name: Seq<char>,
    base: nat,
    other: nat,
    size: nat,
    remark: Seq<char>,
    first: Seq<char>,
    second: Seq<char>,
)
    requires
        is_blank_filled(first, 20 - name.len()),
        is_blank_filled(second, 5 - text::dec_text(size / 0x10_0000).len()),
    ensures
        ({
            let hex = |value: nat| text::padded_hex_text(value, 16);
            let range = |start: nat| "[0x"@ + hex(start) + ", 0x"@ + hex(start + size) + ")"@;
            let head = name + first + ": "@;
            let line = head + range(base) + " ("@ + second + text::dec_text(size / 0x10_0000)
                + " Mb)"@;
            &&& console::range_text(base, base + size) == range(base)
            &&& console::region_text(name, base, size) == line + "\n"@
            &&& console::remarked_region_text(name, base, size, remark) == line + " "@ + remark
                + "\n"@
            &&& console::mapping_text(name, base, other, size, remark) == head + range(base)
                + " -> "@ + range(other) + " ("@ + remark + ")\n"@
        }),
{
    let count = text::dec_text(size / 0x10_0000);
    lemma_blanks(20 - name.len());
    lemma_blanks(5 - count.len());
    assert(console::blanks(20 - name.len()) =~= first);
    assert(console::blanks(5 - count.len()) =~= second);
}

// ---------------------------------------------------------------------------
// The early console
// ---------------------------------------------------------------------------

/// A port device is selected exactly for an NS16550 behind I/O, on an architecture
/// with ports, with a base whose lowest 16 bits are the port, and with both halves
/// at hand.
pub proof fn law_port_consoles(config: EarlyconConfig, platform: EarlyconPlatform, base: u16)
    ensures
        console::earlycon_outcome(Some(config), platform) == Ok::<EarlySerial, Seq<char>>(
            EarlySerial::Ns16550Port { base },
        ) <==> {
            &&& config.uart_type@ == "ns16550"@
            &&& config.io_type@ == "io"@
            &&& platform.has_ports
            &&& platform.has_tx
            &&& platform.has_rx
            &&& config.base_addr matches Some(address) && address as int % 0x1_0000 == base
        },
{
    reveal_strlit("ns16550");
    reveal_strlit("pl011");
}

/// A memory-mapped NS16550 is selected exactly for that type with an I/O type of
/// `mmio`, `mmio16` or `mmio32`, whose registers are 1, 2 or 4 bytes wide, with a
/// base that could be mapped and both halves at hand.
pub proof fn law_mapped_consoles(
    config: EarlyconConfig,
    platform: EarlyconPlatform,
    base: usize,
    width: usize,
)
    ensures
        console::earlycon_outcome(Some(config), platform) == Ok::<EarlySerial, Seq<char>>(
            EarlySerial::Ns16550Mmio { base, width },
        ) <==> {
            &&& config.uart_type@ == "ns16550"@
            &&& config.io_type@ == "mmio"@ && width == 1 || config.io_type@ == "mmio16"@ && width
                == 2 || config.io_type@ == "mmio32"@ && width == 4
            &&& config.base_addr is Some
            &&& platform.mapped == Some(base)
            &&& platform.has_tx
            &&& platform.has_rx
        },
{
    reveal_strlit("ns16550");
    reveal_strlit("pl011");
    reveal_strlit("io");
    reveal_strlit("mmio");
    reveal_strlit("mmio16");
    reveal_strlit("mmio32");
    assert("ns16550"@.len() != "pl011"@.len());
    assert("io"@.len() != "mmio"@.len());
    assert("mmio16"@[4] != "mmio32"@[4]);
}

/// A PL011 is selected exactly for that type with a base that could be mapped and
/// both halves at hand.
pub proof fn law_pl011_consoles(config: EarlyconConfig, platform: EarlyconPlatform, base: usize)
    ensures
        console::earlycon_outcome(Some(config), platform) == Ok::<EarlySerial, Seq<char>>(
            EarlySerial::Pl011 { base },
        ) <==> {
            &&& config.uart_type@ == "pl011"@
            &&& config.base_addr is Some
            &&& platform.mapped == Some(base)
            &&& platform.has_tx
            &&& platform.has_rx
        },
{
    reveal_strlit("ns16550");
    reveal_strlit("pl011");
    assert("ns16550"@.len() != "pl011"@.len());
}

/// What is reported when no console is selected: the first thing that is missing.
pub proof fn law_missing_consoles_are_explained(config: EarlyconConfig, platform: EarlyconPlatform)
    ensures
        console::earlycon_outcome(None, platform) == Err::<EarlySerial, Seq<char>>(
            "No earlycon parameter found"@,
        ),
        ({
            let outcome = console::earlycon_outcome(Some(config), platform);
            let fails = |message: Seq<char>| outcome == Err::<EarlySerial, Seq<char>>(message);
            let ns16550 = config.uart_type@ == "ns16550"@;
            let pl011 = config.uart_type@ == "pl011"@;
            let io = ns16550 && config.io_type@ == "io"@;
            let mmio = ns16550 && config.io_type@ != "io"@;
            let placed = config.base_addr is Some;
            let reached = placed && platform.mapped is Some;
            let sized = config.io_type@ == "mmio"@ || config.io_type@ == "mmio16"@
                || config.io_type@ == "mmio32"@;
            &&& !ns16550 && !pl011 ==> fails("unsupported earlycon uart type"@)
            &&& io && !platform.has_ports ==> fails("io type not supported on this architecture"@)
            &&& io && platform.has_ports && !placed ==> fails("missing io base address"@)
            &&& io && platform.has_ports && placed && !platform.has_tx ==> fails(
                "failed to take io tx queue"@,
            )
            &&& io && platform.has_ports && placed && platform.has_tx && !platform.has_rx ==> fails(
                "failed to take io rx queue"@,
            )
            &&& mmio && !placed ==> fails("No base address specified for ns16550 earlycon"@)
            &&& mmio && placed && !reached ==> fails("Invalid base address for ns16550 earlycon"@)
            &&& mmio && reached && !sized ==> fails("Invalid io_type for ns16550 earlycon"@)
            &&& mmio && reached && sized && !platform.has_tx ==> fails(
                "failed to take ns16550 tx queue"@,
            )
            &&& mmio && reached && sized && platform.has_tx && !platform.has_rx ==> fails(
                "failed to take ns16550 rx queue"@,
            )
            &&& pl011 && !placed ==> fails("No base address specified for pl011 earlycon"@)
            &&& pl011 && placed && !reached ==> fails("Invalid base address for pl011 earlycon"@)
            &&& pl011 && reached && !platform.has_tx ==> fails("failed to take pl011 tx queue"@)
            &&& pl011 && reached && platform.has_tx && !platform.has_rx ==> fails(
                "failed to take pl011 rx queue"@,
            )
        }),
{
    reveal_strlit("ns16550");
    reveal_strlit("pl011");
    assert("ns16550"@.len() != "pl011"@.len());
}

// ---------------------------------------------------------------------------
// The console argument
// ---------------------------------------------------------------------------

proof fn lemma_decimal(digits: Seq<char>)
    requires
        forall|i: int| 0 <= i < digits.len() ==> '0' <= #[trigger] digits[i] <= '9',
    ensures
        text::number_in(digits, 10) >= 0,
        tty::decimal(digits) == Some(text::number_in(digits, 10) as nat),
    decreases digits.len(),
{
    if digits.len() > 0 {
        let rest = digits.drop_last();
        assert forall|i: int| 0 <= i < rest.len() implies '0' <= #[trigger] rest[i] <= '9' by {
            assert(rest[i] == digits[i]);
        }
        lemma_decimal(rest);
        assert('0' <= digits[digits.len() - 1] <= '9');
    }
}

proof fn lemma_no_decimal(digits: Seq<char>, at: int)
    requires
        0 <= at < digits.len(),
        !('0' <= digits[at] <= '9'),
    ensures
        tty::decimal(digits) is None,
    decreases digits.len(),
{
    if at < digits.len() - 1 {
        assert(digits.drop_last()[at] == digits[at]);
        lemma_no_decimal(digits.drop_last(), at);
    }
}

/// A number is a row of decimal digits, after an optional plus sign, that spells a
/// machine word; nothing else is one.
pub proof fn law_numbers_are_decimal(digits: Seq<char>, at: int)
    ensures
        tty::number_in(Seq::empty()) is None,
        tty::number_in(seq!['+']) is None,
        tty::number_in(seq!['+'] + digits) == tty::number_in(digits) || digits.len() > 0
            && digits[0] == '+',
        0 <= at < digits.len() && !('0' <= digits[at] <= '9') && (at > 0 || digits[at] != '+')
            ==> tty::number_in(digits) is None,
        digits.len() > 0 && (forall|i: int|
            0 <= i < digits.len() ==> '0' <= #[trigger] digits[i] <= '9') ==> tty::number_in(digits)
            == (if text::number_in(digits, 10) <= usize::MAX {
            Some(text::number_in(digits, 10) as usize)
        } else {
            None
        }),
{
    assert(seq!['+'].skip(1).len() == 0);
    let signed = seq!['+'] + digits;
    assert(signed.skip(1) =~= digits);
    if 0 <= at < digits.len() && !('0' <= digits[at] <= '9') && (at > 0 || digits[at] != '+') {
        if digits[0] == '+' {
            assert(digits.skip(1)[at - 1] == digits[at]);
            lemma_no_decimal(digits.skip(1), at - 1);
        } else {
            lemma_no_decimal(digits, at);
        }
    }
    if digits.len() > 0 && (forall|i: int|
        0 <= i < digits.len() ==> '0' <= #[trigger] digits[i] <= '9') {
        lemma_decimal(digits);
        assert('0' <= digits[0] <= '9');
    }
}

proof fn lemma_before_comma(name: Seq<char>, rest: Seq<char>, from: int)
    requires
        0 <= from <= name.len(),
        !name.contains(','),
        rest.len() == 0 || rest[0] == ',',
    ensures
        tty::before_comma(name + rest, from) == name,
    decreases name.len() - from,
{
    let chars = name + rest;
    if from < name.len() {
        assert(chars[from] == name[from]);
        assert(name.contains(name[from]));
        lemma_before_comma(name, rest, from + 1);
    } else if rest.len() > 0 {
        assert(chars[from] == rest[0]);
        assert(chars.take(from) =~= name);
    } else {
        assert(chars =~= name);
    }
}

/// The argument `console=ttyS` with a number, and with options behind a comma if
/// there are any, names the terminal with that number, for every number that a
/// terminal can have; an argument that does not begin so names none.
pub proof fn law_console_arguments_name_their_terminal(
    number: usize,
    options: Seq<char>,
    word: Seq<char>,
)
    requires
        options.len() == 0 || options[0] == ',',
    ensures
        tty::console_argument(
            "console="@ + ("ttyS"@ + text::dec_text(number as nat) + options),
        ) == Some(number),
        !"console=ttyS"@.is_prefix_of(word) ==> tty::console_argument(word) is None,
{
    let digits = text::dec_text(number as nat);
    let name = "ttyS"@ + digits;
    reveal_strlit("ttyS");
    reveal_strlit("console=");
    reveal_strlit("console=ttyS");
    text::law_number_texts_spell_their_number(number as nat, 0);
    text::law_written_numbers_are_read_back(number as nat, 10);
    assert(!name.contains(',')) by {
        assert forall|i: int| 0 <= i < name.len() implies name[i] != ',' by {
            if i >= 4 {
                assert(name[i] == digits[i - 4]);
            }
        }
    }
    let spec_text = name + options;
    let whole = "console="@ + spec_text;
    lemma_before_comma(name, options, 0);
    assert("console="@.is_prefix_of(whole)) by {
        assert(whole.take(8) =~= "console="@);
    }
    assert(whole.skip(8) =~= spec_text);
    assert("ttyS"@.is_prefix_of(name)) by {
        assert(name.take(4) =~= "ttyS"@);
    }
    assert(name.skip(4) =~= digits);
    law_numbers_are_decimal(digits, 0);
    if tty::console_argument(word) is Some {
        let rest = word.skip(8);
        let named = tty::before_comma(rest, 0);
        lemma_before_comma_is_prefix(rest, 0);
        assert(word.len() >= 12);
        assert forall|i: int| 0 <= i < 12 implies word[i] == "console=ttyS"@[i] by {
            if i < 8 {
                assert(word[i] == "console="@[i]);
            } else {
                assert(word[i] == rest[i - 8]);
                assert(rest[i - 8] == named[i - 8]);
                assert(named[i - 8] == "ttyS"@[i - 8]);
            }
        }
        assert("console=ttyS"@ =~= word.subrange(0, 12));
    }
}

proof fn lemma_before_comma_is_prefix(chars: Seq<char>, from: int)
    requires
        0 <= from <= chars.len(),
    ensures
        tty::before_comma(chars, from).is_prefix_of(chars),
    decreases chars.len() - from,
{
    if from < chars.len() && chars[from] != ',' {
        lemma_before_comma_is_prefix(chars, from + 1);
    }
}

proof fn lemma_words_from(chars: Seq<char>, rest: Seq<char>, at: int, word: Seq<char>)
    requires
        0 <= at <= chars.len(),
        rest.len() > 0,
        tty::is_separator(rest[0]),
    ensures
        tty::words(chars + rest, at, word) == tty::words(chars, at, word) + tty::words(
            chars + rest,
            chars.len() as int + 1,
            Seq::empty(),
        ),
    decreases chars.len() - at,
{
    let whole = chars + rest;
    let tail = tty::words(whole, chars.len() as int + 1, Seq::empty());
    if at == chars.len() {
        assert(whole[at] == rest[0]);
    } else {
        assert(whole[at] == chars[at]);
        if tty::is_separator(chars[at]) {
            lemma_words_from(chars, rest, at + 1, Seq::empty());
            let own = tty::as_word(word);
            assert(own + (tty::words(chars, at + 1, Seq::empty()) + tail) =~= own + tty::words(
                chars,
                at + 1,
                Seq::empty(),
            ) + tail);
        } else {
            lemma_words_from(chars, rest, at + 1, word.push(chars[at]));
        }
    }
}

proof fn lemma_words_shift(before: Seq<char>, chars: Seq<char>, at: int, word: Seq<char>)
    requires
        0 <= at <= chars.len(),
    ensures
        tty::words(before + chars, before.len() + at, word) == tty::words(chars, at, word),
    decreases chars.len() - at,
{
    let whole = before + chars;
    if at < chars.len() {
        assert(whole[before.len() + at] == chars[at]);
        if tty::is_separator(chars[at]) {
            lemma_words_shift(before, chars, at + 1, Seq::empty());
        } else {
            lemma_words_shift(before, chars, at + 1, word.push(chars[at]));
        }
    }
}

proof fn lemma_one_word(chars: Seq<char>, at: int)
    requires
        0 <= at <= chars.len(),
        forall|i: int| 0 <= i < chars.len() ==> !tty::is_separator(#[trigger] chars[i]),
    ensures
        tty::words(chars, at, chars.take(at)) == tty::as_word(chars),
    decreases chars.len() - at,
{
    if at < chars.len() {
        assert(chars.take(at).push(chars[at]) =~= chars.take(at + 1));
        lemma_one_word(chars, at + 1);
    } else {
        assert(chars.take(at) =~= chars);
    }
}

/// Blanks, tabs and line ends separate words, and nothing else does: text without
/// them is one word, or none if it is empty, and a separator parts a text into the
/// words before it and the words behind it.
pub proof fn law_words_are_parted_by_separators(
    before: Seq<char>,
    separator: char,
    after: Seq<char>,
    word: Seq<char>,
)
    ensures
        tty::is_separator(separator) <==> separator == ' ' || separator as int == 9 || separator
            as int == 10 || separator as int == 12 || separator as int == 13,
        tty::is_separator(separator) ==> tty::words(
            before + seq![separator] + after,
            0,
            Seq::empty(),
        ) == tty::words(before, 0, Seq::empty()) + tty::words(after, 0, Seq::empty()),
        (forall|i: int| 0 <= i < word.len() ==> !tty::is_separator(#[trigger] word[i]))
            ==> tty::words(word, 0, Seq::empty()) == (if word.len() == 0 {
            Seq::<Seq<char>>::empty()
        } else {
            seq![word]
        }),
{
    if tty::is_separator(separator) {
        let rest = seq![separator] + after;
        assert(before + seq![separator] + after =~= before + rest);
        lemma_words_from(before, rest, 0, Seq::empty());
        let head = before + seq![separator];
        assert(before + rest =~= head + after);
        lemma_words_shift(head, after, 0, Seq::empty());
        assert(head.len() + 0 == before.len() as int + 1);
    }
    if forall|i: int| 0 <= i < word.len() ==> !tty::is_separator(#[trigger] word[i]) {
        assert(word.take(0) =~= Seq::<char>::empty());
        lemma_one_word(word, 0);
    }
}

/// The first argument that names a terminal selects the console.
pub proof fn law_the_first_console_argument_wins(
    before: Seq<Seq<char>>,
    argument: Seq<char>,
    after: Seq<Seq<char>>,
)
    requires
        forall|i: int|
            0 <= i < before.len() ==> tty::console_argument(#[trigger] before[i]) is None,
    ensures
        tty::first_console(before) is None,
        tty::console_argument(argument) is Some ==> tty::first_console(
            before + seq![argument] + after,
        ) == tty::console_argument(argument),
    decreases before.len(),
{
    let whole = before + seq![argument] + after;
    if before.len() == 0 {
        assert(whole[0] == argument);
    } else {
        let rest = before.drop_first();
        assert forall|i: int| 0 <= i < rest.len() implies tty::console_argument(
            #[trigger] rest[i],
        ) is None by {
            assert(rest[i] == before[i + 1]);
        }
        law_the_first_console_argument_wins(rest, argument, after);
        assert(whole[0] == before[0]);
        assert(whole.drop_first() =~= rest + seq![argument] + after);
    }
}

/// Without boot arguments no console is selected; with them it is the first that
/// their words name.
pub proof fn law_boot_arguments_select_the_console(bootargs: Option<&str>)
    ensures
        bootargs is None ==> tty::selected(bootargs) is None,
        bootargs matches Some(text) ==> tty::selected(bootargs) == tty::first_console(
            tty::words(text@, 0, Seq::empty()),
        ),
{
}

// ---------------------------------------------------------------------------
// Terminals
// ---------------------------------------------------------------------------

/// A device that is the first with its alias has it as number. Any other device
/// has a number that is nobody's alias, and every smaller number is somebody's
/// alias or the number of a device before it.
pub proof fn law_aliases_are_kept_and_gaps_are_filled(
    aliases: Seq<Option<usize>>,
    numbers: Seq<Option<usize>>,
    i: int,
)
    requires
        tty::is_numbering(aliases, numbers),
        0 <= i < aliases.len(),
    ensures
        numbers.len() == aliases.len(),
        ({
            let first = aliases[i] is Some && !aliases.take(i).contains(aliases[i]);
            &&& first ==> numbers[i] == aliases[i]
            &&& !first ==> numbers[i] is Some && !aliases.contains(numbers[i])
            &&& !first ==> forall|m: usize|
                m < numbers[i]->0 ==> aliases.contains(Some(m)) || #[trigger] numbers.take(
                    i,
                ).contains(Some(m))
        }),
{
    assert(tty::numbered(aliases, numbers, i));
    let first = aliases[i] is Some && !aliases.take(i).contains(aliases[i]);
    if first {
        assert forall|j: int| 0 <= j < i implies #[trigger] aliases[j] != aliases[i] by {
            assert(aliases.take(i)[j] == aliases[j]);
        }
    } else {
        if tty::keeps_alias(aliases, i) {
            let j = choose|j: int|
                0 <= j < aliases.take(i).len() && aliases.take(i)[j] == aliases[i];
            assert(aliases[j] == aliases[i]);
        }
        let number = numbers[i]->0;
        assert(!tty::occupied(aliases, numbers, i, number));
        if aliases.contains(numbers[i]) {
            let j = choose|j: int| 0 <= j < aliases.len() && aliases[j] == numbers[i];
            assert(aliases[j] == Some(number));
            assert(tty::is_alias(aliases, number));
        }
        assert forall|m: usize| m < number implies aliases.contains(Some(m))
            || #[trigger] numbers.take(i).contains(Some(m)) by {
            assert(tty::occupied(aliases, numbers, i, m));
            if !tty::is_alias(aliases, m) {
                let j = choose|j: int|
                    0 <= j < i && !tty::keeps_alias(aliases, j) && #[trigger] numbers[j] == Some(m);
                assert(numbers.take(i)[j] == Some(m));
            }
        }
    }
}

/// Interrupts drive a terminal exactly when its device has an interrupt and a
/// handler for it and the platform accepted the handler.
pub proof fn law_terminals_carry_their_device(number: usize, serial: SerialDevice)
    ensures
        tty::mode_of(serial) == ProcessMode::InterruptDriven <==> serial.irq_num is Some
            && serial.irq_handler is Some && serial.irq_registered,
        tty::entry_of(number, serial) is Some <==> serial.tx is Some && serial.rx is Some,
        match tty::entry_of(number, serial) {
            Some(entry) => {
                &&& entry.number == number
                &&& entry.tty == serial.device
                &&& Some(entry.tx) == serial.tx
                &&& Some(entry.rx) == serial.rx
                &&& entry.process_mode == tty::mode_of(serial)
            },
            None => true,
        },
{
}

/// The terminals are those of the devices whose halves are both there, each once,
/// with rising numbers, and each under the number of its device.
pub proof fn law_terminals_are_those_of_the_devices(
    entries: Seq<SerialTtyEntry>,
    serials: Seq<SerialDevice>,
    numbers: Seq<Option<usize>>,
    k: int,
    i: int,
)
    requires
        tty::is_numbering(tty::aliases_of(serials), numbers),
        tty::lists(entries, serials, numbers, serials.len() as int),
        0 <= k < entries.len(),
        0 <= i < serials.len(),
    ensures
        k + 1 < entries.len() ==> entries[k].number < entries[k + 1].number,
        exists|d: int|
            0 <= d < serials.len() && (#[trigger] serials[d]).device == entries[k].tty
                && serials[d].tx == Some(entries[k].tx) && serials[d].rx == Some(entries[k].rx)
                && numbers[d] == Some(entries[k].number),
        serials[i].tx is Some && serials[i].rx is Some ==> exists|e: int|
            0 <= e < entries.len() && Some((#[trigger] entries[e]).number) == numbers[i]
                && entries[e].tty == serials[i].device,
        tty::aliases_of(serials).len() == serials.len(),
        tty::aliases_of(serials)[i] == serials[i].alias_index,
{
    let aliases = tty::aliases_of(serials);
    assert(tty::is_terminal(serials, numbers, serials.len() as int, entries[k]));
    let d = choose|d: int|
        0 <= d < serials.len() && #[trigger] tty::terminal_of(serials, numbers, d) == Some(
            entries[k],
        );
    assert(serials[d].device == entries[k].tty);
    law_aliases_are_kept_and_gaps_are_filled(aliases, numbers, i);
    if serials[i].tx is Some && serials[i].rx is Some {
        let entry = tty::terminal_of(serials, numbers, i)->0;
        assert(entries.contains(entry));
        let e = choose|e: int| 0 <= e < entries.len() && entries[e] == entry;
        assert(Some(entries[e].number) == numbers[i]);
    }
}

/// The console is the terminal with the selected number, if there is one.
pub proof fn law_the_console_is_the_selected_terminal(
    entries: Seq<SerialTtyEntry>,
    number: Option<usize>,
    index: Option<usize>,
    k: int,
)
    requires
        tty::is_console(entries, number, index),
        0 <= k < entries.len(),
    ensures
        index matches Some(index) ==> 0 <= index < entries.len() && number == Some(
            entries[index as int].number,
        ),
        index is None ==> number != Some(entries[k].number),
{
}

} // verus!
