//! The early console: its selection, its output text, and its input.

use crate::serial::ns16550::SerialEvent;
use crate::text;
use byte_unit::{Byte, UnitType};
use vstd::prelude::*;
use vstd::string::StringExecFns;

verus! {

// ---------------------------------------------------------------------------
// Output
// ---------------------------------------------------------------------------

/// A text as terminals expect it: every line feed after a carriage return.
pub open spec fn terminal_text(chars: Seq<char>) -> Seq<char>
    decreases chars.len(),
{
    if chars.len() == 0 {
        Seq::empty()
    } else if chars.last() == '\n' {
        terminal_text(chars.drop_last()) + "\r\n"@
    } else {
        terminal_text(chars.drop_last()).push(chars.last())
    }
}

/// Converts a text for a terminal: every line feed comes after a carriage
/// return.
pub fn console_text(chars: &str) -> (out: String)
    ensures
        out@ == terminal_text(chars@),
{
    let length: usize = chars.unicode_len();
    let mut out = String::new();
    let mut index: usize = 0;
    assert(chars@.take(0) =~= Seq::<char>::empty());
    while index < length
        invariant
            length == chars@.len(),
            index <= length,
            out@ == terminal_text(chars@.take(index as int)),
        decreases length - index,
    {
        let c = chars.get_char(index);
        let ghost before = out@;
        if c == '\n' {
            out.append("\r\n");
        } else {
            out.append(chars.substring_char(index, index + 1));
            assert(out@ =~= before.push(c));
        }
        index = index + 1;
        proof {
            assert(chars@.take(index as int).drop_last() =~= chars@.take(index - 1));
        }
    }
    assert(chars@.take(length as int) =~= chars@);
    out
}

/// **Law.** Text without line feeds is printed unchanged.
pub proof fn law_single_lines_are_unchanged(chars: Seq<char>)
    requires
        !chars.contains('\n'),
    ensures
        terminal_text(chars) == chars,
    decreases chars.len(),
{
    if chars.len() > 0 {
        assert(chars[chars.len() - 1] != '\n');
        assert forall|i: int| 0 <= i < chars.drop_last().len() implies chars.drop_last()[i]
            != '\n' by {
            assert(chars[i] != '\n');
        }
        law_single_lines_are_unchanged(chars.drop_last());
        assert(chars.drop_last().push(chars.last()) =~= chars);
    }
    assert(terminal_text(chars) =~= chars);
}

/// **Law.** Texts that are printed one after the other give the text of both.
pub proof fn law_printing_is_piecewise(first: Seq<char>, second: Seq<char>)
    ensures
        terminal_text(first + second) == terminal_text(first) + terminal_text(second),
    decreases second.len(),
{
    if second.len() == 0 {
        assert(first + second =~= first);
        assert(terminal_text(first) + terminal_text(second) =~= terminal_text(first));
    } else {
        assert((first + second).drop_last() =~= first + second.drop_last());
        law_printing_is_piecewise(first, second.drop_last());
        assert(terminal_text(first + second) =~= terminal_text(first) + terminal_text(second));
    }
}

/// How a byte count is written in its appropriate binary unit, rounded to two
/// places.
pub uninterp spec fn binary_size_text(size: usize) -> Seq<char>;

/// Writes a byte count with `byte_unit`: `Byte::from(size)`, then
/// `get_appropriate_unit(UnitType::Binary)`, then its `Display` in the alternate
/// form with precision two.
///
/// Claimed of it is only that the text depends on the byte count alone.
#[verifier::external_body]
fn size_text(size: usize) -> (out: String)
    ensures
        out@ == binary_size_text(size),
{
    format!("{:#.2}", Byte::from(size).get_appropriate_unit(UnitType::Binary))
}

/// Blanks.
pub open spec fn blanks(count: int) -> Seq<char>
    decreases count,
{
    if count <= 0 {
        Seq::empty()
    } else {
        blanks(count - 1) + " "@
    }
}

/// The half-open range from `start` to `end` as written in diagnostics.
pub open spec fn range_text(start: nat, end: nat) -> Seq<char> {
    "[0x"@ + text::padded_hex_text(start, 16) + ", 0x"@ + text::padded_hex_text(end, 16) + ")"@
}

/// The line for a mapping, with the size as the given text.
pub open spec fn mapping_text(
    name: Seq<char>,
    virt: nat,
    phys: nat,
    size: nat,
    size_name: Seq<char>,
) -> Seq<char> {
    name + blanks(20 - name.len()) + ": "@ + range_text(virt, virt + size) + " -> "@ + range_text(
        phys,
        phys + size,
    ) + " ("@ + size_name + ")\n"@
}

/// A memory range with its name and its size, as lines begin.
pub open spec fn region_head(name: Seq<char>, base: nat, size: nat) -> Seq<char> {
    let count = text::dec_text(size / 0x100000);
    name + blanks(20 - name.len()) + ": "@ + range_text(base, base + size) + " ("@ + blanks(
        5 - count.len(),
    ) + count + " Mb)"@
}

/// The line for a memory range.
pub open spec fn region_text(name: Seq<char>, base: nat, size: nat) -> Seq<char> {
    region_head(name, base, size) + "\n"@
}

/// The line for a memory range with a remark behind it.
pub open spec fn remarked_region_text(
    name: Seq<char>,
    base: nat,
    size: nat,
    remark: Seq<char>,
) -> Seq<char> {
    region_head(name, base, size) + " "@ + remark + "\n"@
}

fn push_blanks(out: &mut String, count: usize)
    ensures
        final(out)@ == old(out)@ + blanks(count as int),
{
    let mut done: usize = 0;
    assert(out@ + blanks(0) =~= out@);
    while done < count
        invariant
            done <= count,
            out@ == old(out)@ + blanks(done as int),
        decreases count - done,
    {
        out.append(" ");
        done = done + 1;
        assert(out@ =~= old(out)@ + blanks(done as int));
    }
}

fn push_name(out: &mut String, name: &str)
    ensures
        final(out)@ == old(out)@ + name@ + blanks(20 - name@.len()) + ": "@,
{
    out.append(name);
    let length: usize = name.unicode_len();
    if length < 20 {
        push_blanks(out, 20 - length);
    }
    out.append(": ");
    assert(out@ =~= old(out)@ + name@ + blanks(20 - name@.len()) + ": "@);
}

fn push_range(out: &mut String, start: usize, end: usize)
    ensures
        final(out)@ == old(out)@ + range_text(start as nat, end as nat),
{
    out.append("[0x");
    text::push_padded_hex(out, start as u64, 16);
    out.append(", 0x");
    text::push_padded_hex(out, end as u64, 16);
    out.append(")");
    assert(out@ =~= old(out)@ + range_text(start as nat, end as nat));
}

/// Writes the line for a mapping, with the size as the given text.
pub fn mapping_line(name: &str, virt: usize, phys: usize, size: usize, size_name: &str) -> (out:
    String)
    requires
        virt + size <= usize::MAX,
        phys + size <= usize::MAX,
    ensures
        out@ == mapping_text(name@, virt as nat, phys as nat, size as nat, size_name@),
{
    let mut out = String::new();
    push_name(&mut out, name);
    push_range(&mut out, virt, virt + size);
    out.append(" -> ");
    push_range(&mut out, phys, phys + size);
    out.append(" (");
    out.append(size_name);
    out.append(")\n");
    assert(out@ =~= mapping_text(name@, virt as nat, phys as nat, size as nat, size_name@));
    out
}

/// Writes the line for a mapping.
pub fn print_mapping(name: &str, virt: usize, phys: usize, size: usize) -> (out: String)
    requires
        virt + size <= usize::MAX,
        phys + size <= usize::MAX,
    ensures
        out@ == mapping_text(
            name@,
            virt as nat,
            phys as nat,
            size as nat,
            binary_size_text(size),
        ),
{
    let size_name = size_text(size);
    mapping_line(name, virt, phys, size, size_name.as_str())
}

fn push_region(out: &mut String, name: &str, base: usize, size: usize)
    requires
        base + size <= usize::MAX,
    ensures
        final(out)@ == old(out)@ + region_head(name@, base as nat, size as nat),
{
    push_name(out, name);
    push_range(out, base, base + size);
    out.append(" (");
    let mut count = String::new();
    text::push_dec(&mut count, (size / 0x100000) as u64);
    assert(count@ =~= text::dec_text((size / 0x100000) as nat));
    let digits: usize = count.as_str().unicode_len();
    if digits < 5 {
        push_blanks(out, 5 - digits);
    }
    out.append(count.as_str());
    out.append(" Mb)");
    assert(out@ =~= old(out)@ + region_head(name@, base as nat, size as nat));
}

/// Writes the line for a memory range.
pub fn region_line(name: &str, base: usize, size: usize) -> (out: String)
    requires
        base + size <= usize::MAX,
    ensures
        out@ == region_text(name@, base as nat, size as nat),
{
    let mut out = String::new();
    push_region(&mut out, name, base, size);
    out.append("\n");
    assert(out@ =~= region_text(name@, base as nat, size as nat));
    out
}

/// Writes the line for a memory range with a remark behind it.
pub fn remarked_region_line(name: &str, base: usize, size: usize, remark: &str) -> (out: String)
    requires
        base + size <= usize::MAX,
    ensures
        out@ == remarked_region_text(name@, base as nat, size as nat, remark@),
{
    let mut out = String::new();
    push_region(&mut out, name, base, size);
    out.append(" ");
    out.append(remark);
    out.append("\n");
    assert(out@ =~= remarked_region_text(name@, base as nat, size as nat, remark@));
    out
}

// ---------------------------------------------------------------------------
// Selection
// ---------------------------------------------------------------------------

/// Base address and kind of access of the debug console.
#[derive(Clone, Copy, Debug, PartialEq, Eq, Structural)]
pub struct DebugConsole {
    pub base: usize,
    pub is_mmio: bool,
}

/// A range of device registers.
#[derive(Clone, Copy, Debug, PartialEq, Eq, Structural)]
pub struct RegisterRange {
    pub base: usize,
    pub size: usize,
}

impl DebugConsole {
    /// Returns the registers that have to stay mapped, if the console is memory
    /// mapped.
    pub fn debug_to_memory_desc(&self) -> (range: Option<RegisterRange>)
        ensures
            range == if self.base == 0 || !self.is_mmio {
                None
            } else {
                Some(RegisterRange { base: self.base, size: 100 })
            },
    {
        if self.base == 0 || !self.is_mmio {
            return None;
        }
        Some(RegisterRange { base: self.base, size: 100 })
    }
}

/// The `earlycon` command line parameter.
#[derive(Debug)]
pub struct EarlyconConfig {
    pub uart_type: String,
    pub io_type: String,
    pub base_addr: Option<usize>,
}

/// What the platform offers for an early console.
#[derive(Clone, Copy, Debug, PartialEq, Eq, Structural)]
pub struct EarlyconPlatform {
    /// Whether the architecture has I/O ports.
    pub has_ports: bool,
    /// Where the device registers are mapped; `None` if they cannot be mapped.
    pub mapped: Option<usize>,
    /// Whether the sending half of the opened device can be taken.
    pub has_tx: bool,
    /// Whether the receiving half of the opened device can be taken.
    pub has_rx: bool,
}

/// The device behind the early console.
#[derive(Clone, Copy, Debug, PartialEq, Eq, Structural)]
pub enum EarlySerial {
    /// NS16550 behind I/O ports.
    Ns16550Port { base: u16 },
    /// NS16550 behind memory-mapped registers of the given width.
    Ns16550Mmio { base: usize, width: usize },
    /// PL011.
    Pl011 { base: usize },
}

/// The early console with its debug console record.
#[derive(Clone, Copy, Debug, PartialEq, Eq, Structural)]
pub struct Earlycon {
    pub serial: EarlySerial,
    pub debug: DebugConsole,
}

/// Width of the registers of an I/O type.
pub open spec fn register_width(io_type: Seq<char>) -> Option<usize> {
    if io_type == "mmio"@ {
        Some(1)
    } else if io_type == "mmio16"@ {
        Some(2)
    } else if io_type == "mmio32"@ {
        Some(4)
    } else {
        None
    }
}

/// Why the halves of a device are not available.
pub open spec fn half_fault(
    platform: EarlyconPlatform,
    tx: Seq<char>,
    rx: Seq<char>,
) -> Option<Seq<char>> {
    if !platform.has_tx {
        Some(tx)
    } else if !platform.has_rx {
        Some(rx)
    } else {
        None
    }
}

/// The outcome of selecting an NS16550 behind I/O ports.
pub open spec fn port_outcome(config: EarlyconConfig, platform: EarlyconPlatform) -> Result<
    EarlySerial,
    Seq<char>,
> {
    if !platform.has_ports {
        Err("io type not supported on this architecture"@)
    } else if config.base_addr is None {
        Err("missing io base address"@)
    } else {
        match half_fault(platform, "failed to take io tx queue"@, "failed to take io rx queue"@) {
            Some(fault) => Err(fault),
            None => Ok(
                EarlySerial::Ns16550Port { base: (config.base_addr->0 as int % 0x10000) as u16 },
            ),
        }
    }
}

/// The outcome of selecting a memory-mapped NS16550.
pub open spec fn mmio_outcome(config: EarlyconConfig, platform: EarlyconPlatform) -> Result<
    EarlySerial,
    Seq<char>,
> {
    if config.base_addr is None {
        Err("No base address specified for ns16550 earlycon"@)
    } else if platform.mapped is None {
        Err("Invalid base address for ns16550 earlycon"@)
    } else {
        match register_width(config.io_type@) {
            None => Err("Invalid io_type for ns16550 earlycon"@),
            Some(width) => match half_fault(
                platform,
                "failed to take ns16550 tx queue"@,
                "failed to take ns16550 rx queue"@,
            ) {
                Some(fault) => Err(fault),
                None => Ok(EarlySerial::Ns16550Mmio { base: platform.mapped->0, width }),
            },
        }
    }
}

/// The outcome of selecting a PL011.
pub open spec fn pl011_outcome(config: EarlyconConfig, platform: EarlyconPlatform) -> Result<
    EarlySerial,
    Seq<char>,
> {
    if config.base_addr is None {
        Err("No base address specified for pl011 earlycon"@)
    } else if platform.mapped is None {
        Err("Invalid base address for pl011 earlycon"@)
    } else {
        match half_fault(
            platform,
            "failed to take pl011 tx queue"@,
            "failed to take pl011 rx queue"@,
        ) {
            Some(fault) => Err(fault),
            None => Ok(EarlySerial::Pl011 { base: platform.mapped->0 }),
        }
    }
}

/// The outcome of selecting the early console.
pub open spec fn earlycon_outcome(
    config: Option<EarlyconConfig>,
    platform: EarlyconPlatform,
) -> Result<EarlySerial, Seq<char>> {
    match config {
        None => Err("No earlycon parameter found"@),
        Some(config) => if config.uart_type@ == "ns16550"@ {
            if config.io_type@ == "io"@ {
                port_outcome(config, platform)
            } else {
                mmio_outcome(config, platform)
            }
        } else if config.uart_type@ == "pl011"@ {
            pl011_outcome(config, platform)
        } else {
            Err("unsupported earlycon uart type"@)
        },
    }
}

/// Whether a selected device is the outcome.
pub open spec fn agrees(
    outcome: Result<EarlySerial, Seq<char>>,
    selected: Result<EarlySerial, &str>,
) -> bool {
    match selected {
        Ok(serial) => outcome == Ok::<EarlySerial, Seq<char>>(serial),
        Err(message) => outcome == Err::<EarlySerial, Seq<char>>(message@),
    }
}

fn set_16550_port(config: &EarlyconConfig, platform: EarlyconPlatform) -> (serial: Result<
    EarlySerial,
    &'static str,
>)
    ensures
        agrees(port_outcome(*config, platform), serial),
{
    if !platform.has_ports {
        return Err("io type not supported on this architecture");
    }
    let base: usize = match config.base_addr {
        Some(base) => base,
        None => {
            return Err("missing io base address");
        },
    };
    if !platform.has_tx {
        return Err("failed to take io tx queue");
    }
    if !platform.has_rx {
        return Err("failed to take io rx queue");
    }
    Ok(EarlySerial::Ns16550Port { base: (base % 0x10000) as u16 })
}

fn set_16550_mmio(config: &EarlyconConfig, platform: EarlyconPlatform) -> (serial: Result<
    EarlySerial,
    &'static str,
>)
    ensures
        agrees(mmio_outcome(*config, platform), serial),
{
    if config.base_addr.is_none() {
        return Err("No base address specified for ns16550 earlycon");
    }
    let base: usize = match platform.mapped {
        Some(base) => base,
        None => {
            return Err("Invalid base address for ns16550 earlycon");
        },
    };
    let width: usize = if text::text_eq(config.io_type.as_str(), "mmio") {
        1
    } else if text::text_eq(config.io_type.as_str(), "mmio16") {
        2
    } else if text::text_eq(config.io_type.as_str(), "mmio32") {
        4
    } else {
        return Err("Invalid io_type for ns16550 earlycon");
    };
    if !platform.has_tx {
        return Err("failed to take ns16550 tx queue");
    }
    if !platform.has_rx {
        return Err("failed to take ns16550 rx queue");
    }
    Ok(EarlySerial::Ns16550Mmio { base, width })
}

fn set_pl011(config: &EarlyconConfig, platform: EarlyconPlatform) -> (serial: Result<
    EarlySerial,
    &'static str,
>)
    ensures
        agrees(pl011_outcome(*config, platform), serial),
{
    if config.base_addr.is_none() {
        return Err("No base address specified for pl011 earlycon");
    }
    let base: usize = match platform.mapped {
        Some(base) => base,
        None => {
            return Err("Invalid base address for pl011 earlycon");
        },
    };
    if !platform.has_tx {
        return Err("failed to take pl011 tx queue");
    }
    if !platform.has_rx {
        return Err("failed to take pl011 rx queue");
    }
    Ok(EarlySerial::Pl011 { base })
}

/// Selects the early console that the command line names.
pub fn set_earlycon_by_cmdline(config: &Option<EarlyconConfig>, platform: EarlyconPlatform) -> (earlycon:
    Result<Earlycon, &'static str>)
    ensures
        match earlycon {
            Ok(earlycon) => {
                &&& earlycon_outcome(*config, platform) == Ok::<EarlySerial, Seq<char>>(
                    earlycon.serial,
                )
                &&& config matches Some(config) && earlycon.debug == (DebugConsole {
                    base: match config.base_addr {
                        Some(base) => base,
                        None => 0,
                    },
                    is_mmio: !(config.uart_type@ == "ns16550"@ && config.io_type@ == "io"@),
                })
            },
            Err(message) => earlycon_outcome(*config, platform) == Err::<EarlySerial, Seq<char>>(
                message@,
            ),
        },
{
    let config = match config {
        Some(config) => config,
        None => {
            return Err("No earlycon parameter found");
        },
    };
    let is_ns16550 = text::text_eq(config.uart_type.as_str(), "ns16550");
    let is_io = text::text_eq(config.io_type.as_str(), "io");
    let serial = if is_ns16550 {
        if is_io {
            set_16550_port(config, platform)
        } else {
            set_16550_mmio(config, platform)
        }
    } else if text::text_eq(config.uart_type.as_str(), "pl011") {
        set_pl011(config, platform)
    } else {
        return Err("unsupported earlycon uart type");
    };
    match serial {
        Err(message) => Err(message),
        Ok(serial) => {
            let base: usize = match config.base_addr {
                Some(base) => base,
                None => 0,
            };
            Ok(Earlycon { serial, debug: DebugConsole { base, is_mmio: !(is_ns16550 && is_io) } })
        },
    }
}

// ---------------------------------------------------------------------------
// Input
// ---------------------------------------------------------------------------

/// What an architecture adds to the console.
pub trait ArchConsoleOps {
    /// Sets the console of the architecture up, if it has one.
    fn init() -> (ready: bool)
        default_ensures
            !ready,
    {
        false
    }

    /// Reads a byte from the console of the architecture.
    fn read_byte() -> (byte: Option<u8>)
        default_ensures
            byte is None,
    {
        None
    }
}

/// Returns the byte that the console delivers: one of the architecture first,
/// else what the early console received.
///
/// `early` is what polling the early console reported, `received` what it
/// delivered when it was ready.
pub fn read_byte(arch: Option<u8>, early: Option<SerialEvent>, received: Option<u8>) -> (byte:
    Option<u8>)
    ensures
        byte == if arch is Some {
            arch
        } else {
            match early {
                Some(event) => if event.rx_ready {
                    received
                } else {
                    None
                },
                None => None,
            }
        },
{
    if arch.is_some() {
        return arch;
    }
    match early {
        Some(event) => {
            if !event.rx_ready() {
                return None;
            }
            received
        },
        None => None,
    }
}

} // verus!
