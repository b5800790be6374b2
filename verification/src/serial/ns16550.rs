//! Register logic of NS16550/16450 UARTs.
//!
//! Reading and writing registers is left to the caller: functions here take the
//! values that were read and return the writes to perform, in order.

use vstd::prelude::*;

verus! {

/// Receive buffer (read).
pub const UART_RBR: u8 = 0;

/// Transmit holding register (write).
pub const UART_THR: u8 = 0;

/// Low divisor byte, while the divisor latch is open.
pub const UART_DLL: u8 = 0;

/// Interrupt enable register.
pub const UART_IER: u8 = 1;

/// High divisor byte, while the divisor latch is open.
pub const UART_DLH: u8 = 1;

/// Interrupt identification register (read).
pub const UART_IIR: u8 = 2;

/// FIFO control register (write).
pub const UART_FCR: u8 = 2;

/// Line control register.
pub const UART_LCR: u8 = 3;

/// Modem control register.
pub const UART_MCR: u8 = 4;

/// Line status register.
pub const UART_LSR: u8 = 5;

pub const IER_RECEIVED_DATA_AVAILABLE: u8 = 0x01;

pub const IER_TRANSMITTER_HOLDING_EMPTY: u8 = 0x02;

pub const IER_RECEIVER_LINE_STATUS: u8 = 0x04;

pub const IIR_NO_INTERRUPT_PENDING: u8 = 0x01;

pub const IIR_INTERRUPT_ID_MASK: u8 = 0x0e;

pub const IIR_TRANSMITTER_HOLDING_EMPTY: u8 = 0x02;

pub const IIR_RECEIVED_DATA_AVAILABLE: u8 = 0x04;

pub const IIR_RECEIVER_LINE_STATUS: u8 = 0x06;

pub const IIR_CHARACTER_TIMEOUT: u8 = 0x0c;

pub const IIR_FIFO_ENABLE_MASK: u8 = 0xc0;

pub const FCR_ENABLE_FIFO: u8 = 0x01;

pub const FCR_CLEAR_RECEIVER_FIFO: u8 = 0x02;

pub const FCR_CLEAR_TRANSMITTER_FIFO: u8 = 0x04;

pub const FCR_TRIGGER_LEVEL_MASK: u8 = 0xc0;

pub const FCR_TRIGGER_1_BYTE: u8 = 0x00;

pub const FCR_TRIGGER_4_BYTES: u8 = 0x40;

pub const FCR_TRIGGER_8_BYTES: u8 = 0x80;

pub const FCR_TRIGGER_14_BYTES: u8 = 0xc0;

pub const LCR_WORD_LENGTH_MASK: u8 = 0x03;

pub const LCR_STOP_BITS: u8 = 0x04;

pub const LCR_PARITY_ENABLE: u8 = 0x08;

pub const LCR_EVEN_PARITY: u8 = 0x10;

pub const LCR_STICK_PARITY: u8 = 0x20;

pub const LCR_PARITY_MASK: u8 = 0x38;

pub const LCR_DIVISOR_LATCH_ACCESS: u8 = 0x80;

/// Data terminal ready and request to send.
pub const MCR_READY_MASK: u8 = 0x03;

pub const MCR_LOOPBACK_ENABLE: u8 = 0x10;

pub const LSR_DATA_READY: u8 = 0x01;

pub const LSR_OVERRUN_ERROR: u8 = 0x02;

pub const LSR_PARITY_ERROR: u8 = 0x04;

pub const LSR_FRAMING_ERROR: u8 = 0x08;

pub const LSR_BREAK_INTERRUPT: u8 = 0x10;

/// Parity error, framing error or break.
pub const LSR_CHARACTER_ERRORS: u8 = 0x1c;

pub const LSR_TRANSMITTER_HOLDING_EMPTY: u8 = 0x20;

/// One register write.
#[derive(Clone, Copy, Debug, PartialEq, Eq, Structural)]
pub struct RegisterWrite {
    pub register: u8,
    pub value: u8,
}

/// A line setting is not supported.
#[derive(Clone, Copy, Debug, PartialEq, Eq, Structural)]
pub enum ConfigError {
    InvalidBaudrate,
}

/// Data bits per character.
#[derive(Clone, Copy, Debug, PartialEq, Eq, Structural)]
pub enum DataBits {
    Five,
    Six,
    Seven,
    Eight,
}

/// Stop bits per character.
#[derive(Clone, Copy, Debug, PartialEq, Eq, Structural)]
pub enum StopBits {
    One,
    Two,
}

/// Parity of a character.
#[derive(Clone, Copy, Debug, PartialEq, Eq, Structural)]
pub enum Parity {
    NoParity,
    Odd,
    Even,
    Mark,
    Space,
}

/// Line settings to change.
#[derive(Clone, Copy, Debug, PartialEq, Eq, Structural)]
pub struct Config {
    pub baudrate: Option<u32>,
    pub data_bits: Option<DataBits>,
    pub stop_bits: Option<StopBits>,
    pub parity: Option<Parity>,
}

/// One line setting.
#[derive(Clone, Copy, Debug, PartialEq, Eq, Structural)]
pub enum LineSetting {
    Baudrate(u32),
    DataBits(DataBits),
    StopBits(StopBits),
    Parity(Parity),
}

/// Interrupts of a serial device.
#[derive(Clone, Copy, Debug, PartialEq, Eq, Structural)]
pub struct InterruptMask {
    pub rx_available: bool,
    pub tx_empty: bool,
}

/// What a serial device is ready for.
#[derive(Clone, Copy, Debug, PartialEq, Eq, Structural)]
pub struct SerialEvent {
    pub rx_ready: bool,
    pub rx_error: bool,
    pub overrun: bool,
    pub tx_ready: bool,
}

/// A character was received with an error.
#[derive(Clone, Copy, Debug, PartialEq, Eq, Structural)]
pub enum TransferError {
    Overrun(u8),
    Parity,
    Framing,
    Break,
}

/// A reception ended with an error after some bytes.
#[derive(Clone, Copy, Debug, PartialEq, Eq, Structural)]
pub struct TransBytesError {
    pub bytes_transferred: usize,
    pub kind: TransferError,
}

/// A queue belongs to another device.
#[derive(Clone, Copy, Debug, PartialEq, Eq, Structural)]
pub struct SetBackError {
    pub want: usize,
    pub actual: usize,
}

/// Whether a register value has every bit of a mask.
pub open spec fn flags_set(value: u8, mask: u8) -> bool {
    value & mask == mask
}

fn contains(value: u8, mask: u8) -> (set: bool)
    ensures
        set == flags_set(value, mask),
{
    value & mask == mask
}

// ---------------------------------------------------------------------------
// Line settings
// ---------------------------------------------------------------------------

/// The divisor of a baud rate, if the clock can produce the rate.
pub open spec fn divisor_of(clock_freq: u32, baudrate: u32) -> Option<int> {
    if baudrate == 0 || clock_freq == 0 {
        None
    } else {
        let divisor = clock_freq as int / (16 * baudrate);
        if 0 < divisor <= 0xffff {
            Some(divisor)
        } else {
            None
        }
    }
}

/// The writes that latch a divisor: open the latch, low byte, high byte, close
/// the latch.
pub open spec fn divisor_writes(lcr: u8, divisor: int) -> Seq<RegisterWrite> {
    let open = lcr | LCR_DIVISOR_LATCH_ACCESS;
    seq![
        RegisterWrite { register: UART_LCR, value: open },
        RegisterWrite { register: UART_DLL, value: (divisor % 256) as u8 },
        RegisterWrite { register: UART_DLH, value: (divisor / 256) as u8 },
        RegisterWrite { register: UART_LCR, value: open & !LCR_DIVISOR_LATCH_ACCESS },
    ]
}

/// Programs a baud rate; `lcr` is the line control register as read.
pub fn set_baudrate(clock_freq: u32, baudrate: u32, lcr: u8) -> (writes: Result<
    Vec<RegisterWrite>,
    ConfigError,
>)
    requires
        clock_freq != 0 ==> 16 * baudrate <= u32::MAX,
    ensures
        match writes {
            Ok(writes) => divisor_of(clock_freq, baudrate) matches Some(divisor) && writes@
                == divisor_writes(lcr, divisor),
            Err(error) => divisor_of(clock_freq, baudrate) is None && error
                == ConfigError::InvalidBaudrate,
        },
{
    if baudrate == 0 || clock_freq == 0 {
        return Err(ConfigError::InvalidBaudrate);
    }
    let divisor: u32 = clock_freq / (16 * baudrate);
    if divisor == 0 || divisor > 0xffff {
        return Err(ConfigError::InvalidBaudrate);
    }
    let open: u8 = lcr | LCR_DIVISOR_LATCH_ACCESS;
    let mut writes: Vec<RegisterWrite> = Vec::new();
    writes.push(RegisterWrite { register: UART_LCR, value: open });
    writes.push(RegisterWrite { register: UART_DLL, value: (divisor % 256) as u8 });
    writes.push(RegisterWrite { register: UART_DLH, value: (divisor / 256) as u8 });
    writes.push(RegisterWrite { register: UART_LCR, value: open & !LCR_DIVISOR_LATCH_ACCESS });
    assert(writes@ =~= divisor_writes(lcr, divisor as int));
    Ok(writes)
}

/// Returns the baud rate that a latched divisor produces, zero without divisor.
pub fn baudrate(clock_freq: u32, dll: u8, dlh: u8) -> (rate: u32)
    ensures
        rate == if dll == 0 && dlh == 0 {
            0
        } else {
            clock_freq as int / (16 * (dll + 256 * dlh))
        },
{
    let divisor: u32 = dll as u32 + 256 * (dlh as u32);
    if divisor == 0 {
        return 0;
    }
    clock_freq / (16 * divisor)
}

/// The word length field of a number of data bits.
pub open spec fn word_length(bits: DataBits) -> u8 {
    match bits {
        DataBits::Five => 0,
        DataBits::Six => 1,
        DataBits::Seven => 2,
        DataBits::Eight => 3,
    }
}

/// The parity field of a parity.
pub open spec fn parity_field(parity: Parity) -> u8 {
    match parity {
        Parity::NoParity => 0,
        Parity::Odd => LCR_PARITY_ENABLE,
        Parity::Even => LCR_PARITY_ENABLE | LCR_EVEN_PARITY,
        Parity::Mark => LCR_PARITY_ENABLE | LCR_STICK_PARITY,
        Parity::Space => (LCR_PARITY_ENABLE | LCR_EVEN_PARITY) | LCR_STICK_PARITY,
    }
}

/// The line control register after one setting other than the baud rate.
pub open spec fn line_control(lcr: u8, setting: LineSetting) -> u8 {
    match setting {
        LineSetting::Baudrate(_) => lcr,
        LineSetting::DataBits(bits) => (lcr & !LCR_WORD_LENGTH_MASK) | word_length(bits),
        LineSetting::StopBits(StopBits::One) => lcr & !LCR_STOP_BITS,
        LineSetting::StopBits(StopBits::Two) => lcr | LCR_STOP_BITS,
        LineSetting::Parity(parity) => (lcr & !LCR_PARITY_MASK) | parity_field(parity),
    }
}

/// The data bits of a line control register.
pub open spec fn data_bits_of(lcr: u8) -> DataBits {
    let length = lcr & LCR_WORD_LENGTH_MASK;
    if length == 0 {
        DataBits::Five
    } else if length == 1 {
        DataBits::Six
    } else if length == 2 {
        DataBits::Seven
    } else {
        DataBits::Eight
    }
}

/// The stop bits of a line control register.
pub open spec fn stop_bits_of(lcr: u8) -> StopBits {
    if flags_set(lcr, LCR_STOP_BITS) {
        StopBits::Two
    } else {
        StopBits::One
    }
}

/// The parity of a line control register.
pub open spec fn parity_of(lcr: u8) -> Parity {
    if !flags_set(lcr, LCR_PARITY_ENABLE) {
        Parity::NoParity
    } else if flags_set(lcr, LCR_STICK_PARITY) {
        if flags_set(lcr, LCR_EVEN_PARITY) {
            Parity::Space
        } else {
            Parity::Mark
        }
    } else if flags_set(lcr, LCR_EVEN_PARITY) {
        Parity::Even
    } else {
        Parity::Odd
    }
}

/// The settings of a configuration, in the order in which they are applied.
pub open spec fn settings_of(config: Config) -> Seq<LineSetting> {
    let rate = match config.baudrate {
        Some(rate) => seq![LineSetting::Baudrate(rate)],
        None => Seq::empty(),
    };
    let data = match config.data_bits {
        Some(bits) => seq![LineSetting::DataBits(bits)],
        None => Seq::empty(),
    };
    let stop = match config.stop_bits {
        Some(bits) => seq![LineSetting::StopBits(bits)],
        None => Seq::empty(),
    };
    let parity = match config.parity {
        Some(parity) => seq![LineSetting::Parity(parity)],
        None => Seq::empty(),
    };
    rate + data + stop + parity
}

impl Config {
    /// Returns the settings in the order in which they are applied.
    pub fn settings(&self) -> (settings: Vec<LineSetting>)
        ensures
            settings@ == settings_of(*self),
    {
        let mut settings: Vec<LineSetting> = Vec::new();
        if let Some(rate) = self.baudrate {
            settings.push(LineSetting::Baudrate(rate));
        }
        if let Some(bits) = self.data_bits {
            settings.push(LineSetting::DataBits(bits));
        }
        if let Some(bits) = self.stop_bits {
            settings.push(LineSetting::StopBits(bits));
        }
        if let Some(parity) = self.parity {
            settings.push(LineSetting::Parity(parity));
        }
        assert(settings@ =~= settings_of(*self));
        settings
    }
}

/// **Law.** A line setting is read back after it is written, and no setting
/// disturbs the others.
pub proof fn law_line_settings_round_trip(lcr: u8, setting: LineSetting)
    ensures
        ({
            let after = line_control(lcr, setting);
            match setting {
                LineSetting::Baudrate(_) => after == lcr,
                LineSetting::DataBits(bits) => data_bits_of(after) == bits && stop_bits_of(after)
                    == stop_bits_of(lcr) && parity_of(after) == parity_of(lcr),
                LineSetting::StopBits(bits) => stop_bits_of(after) == bits && data_bits_of(after)
                    == data_bits_of(lcr) && parity_of(after) == parity_of(lcr),
                LineSetting::Parity(parity) => parity_of(after) == parity && data_bits_of(after)
                    == data_bits_of(lcr) && stop_bits_of(after) == stop_bits_of(lcr),
            }
        }),
{
    match setting {
        LineSetting::Baudrate(_) => {},
        LineSetting::DataBits(bits) => {
            let length = word_length(bits);
            assert(((lcr & !0x03u8) | length) & 0x03u8 == length && ((lcr & !0x03u8) | length)
                & 0x04u8 == lcr & 0x04u8 && ((lcr & !0x03u8) | length) & 0x08u8 == lcr & 0x08u8
                && ((lcr & !0x03u8) | length) & 0x10u8 == lcr & 0x10u8 && ((lcr & !0x03u8)
                | length) & 0x20u8 == lcr & 0x20u8) by (bit_vector)
                requires
                    length <= 3,
            ;
        },
        LineSetting::StopBits(_) => {
            assert((lcr & !0x04u8) & 0x04u8 != 0x04u8 && (lcr | 0x04u8) & 0x04u8 == 0x04u8 && (lcr
                & !0x04u8) & 0x03u8 == lcr & 0x03u8 && (lcr | 0x04u8) & 0x03u8 == lcr & 0x03u8 && (
            lcr & !0x04u8) & 0x08u8 == lcr & 0x08u8 && (lcr | 0x04u8) & 0x08u8 == lcr & 0x08u8 && (
            lcr & !0x04u8) & 0x10u8 == lcr & 0x10u8 && (lcr | 0x04u8) & 0x10u8 == lcr & 0x10u8 && (
            lcr & !0x04u8) & 0x20u8 == lcr & 0x20u8 && (lcr | 0x04u8) & 0x20u8 == lcr & 0x20u8)
                by (bit_vector);
        },
        LineSetting::Parity(parity) => {
            assert((0x08u8 | 0x10u8) == 0x18u8 && (0x08u8 | 0x20u8) == 0x28u8 && ((0x08u8 | 0x10u8)
                | 0x20u8) == 0x38u8 && 0x18u8 & 0x08u8 == 0x08u8 && 0x28u8 & 0x08u8 == 0x08u8
                && 0x38u8 & 0x08u8 == 0x08u8 && 0u8 & 0x08u8 == 0u8 && 0x08u8 & 0x10u8 == 0u8
                && 0x08u8 & 0x20u8 == 0u8 && 0x18u8 & 0x10u8 == 0x10u8 && 0x18u8 & 0x20u8 == 0u8
                && 0x28u8 & 0x10u8 == 0u8 && 0x28u8 & 0x20u8 == 0x20u8 && 0x38u8 & 0x10u8 == 0x10u8
                && 0x38u8 & 0x20u8 == 0x20u8 && 0x08u8 & 0x08u8 == 0x08u8) by (bit_vector);
            let field = parity_field(parity);
            assert(((lcr & !0x38u8) | field) & 0x03u8 == lcr & 0x03u8 && ((lcr & !0x38u8) | field)
                & 0x04u8 == lcr & 0x04u8 && ((lcr & !0x38u8) | field) & 0x08u8 == field & 0x08u8
                && ((lcr & !0x38u8) | field) & 0x10u8 == field & 0x10u8 && ((lcr & !0x38u8)
                | field) & 0x20u8 == field & 0x20u8) by (bit_vector)
                requires
                    field == 0 || field == 0x08 || field == 0x18 || field == 0x28 || field == 0x38,
            ;
        },
    }
}

/// **Law.** The bytes that a baud rate latches give the rate that its divisor
/// produces, and the latch is closed afterwards.
pub proof fn law_latched_divisor_is_read_back(lcr: u8, divisor: int)
    requires
        0 < divisor <= 0xffff,
    ensures
        divisor_writes(lcr, divisor)[1].value + 256 * divisor_writes(lcr, divisor)[2].value
            == divisor,
        !flags_set(divisor_writes(lcr, divisor)[3].value, LCR_DIVISOR_LATCH_ACCESS),
{
    assert(((lcr | 0x80u8) & !0x80u8) & 0x80u8 != 0x80u8) by (bit_vector);
}

// ---------------------------------------------------------------------------
// Events
// ---------------------------------------------------------------------------

/// The events of a line status.
pub open spec fn event_of(lsr: u8) -> SerialEvent {
    SerialEvent {
        rx_ready: flags_set(lsr, LSR_DATA_READY),
        rx_error: lsr & LSR_CHARACTER_ERRORS != 0 || flags_set(lsr, LSR_OVERRUN_ERROR),
        overrun: flags_set(lsr, LSR_OVERRUN_ERROR),
        tx_ready: flags_set(lsr, LSR_TRANSMITTER_HOLDING_EMPTY),
    }
}

/// No event.
pub open spec fn no_event() -> SerialEvent {
    SerialEvent { rx_ready: false, rx_error: false, overrun: false, tx_ready: false }
}

/// The events of an interrupt with the given identification and line status.
pub open spec fn irq_event(iir: u8, lsr: u8) -> SerialEvent {
    let id = iir & IIR_INTERRUPT_ID_MASK;
    let line = event_of(lsr);
    if flags_set(iir, IIR_NO_INTERRUPT_PENDING) {
        no_event()
    } else if id == IIR_RECEIVER_LINE_STATUS {
        if !line.rx_ready && !line.rx_error {
            SerialEvent { rx_error: true, ..no_event() }
        } else {
            SerialEvent { tx_ready: false, ..line }
        }
    } else if id == IIR_RECEIVED_DATA_AVAILABLE || id == IIR_CHARACTER_TIMEOUT {
        SerialEvent { rx_ready: true, tx_ready: false, ..line }
    } else {
        SerialEvent { tx_ready: id == IIR_TRANSMITTER_HOLDING_EMPTY, ..no_event() }
    }
}

/// What the receiver delivers with a line status; `data` is the receive buffer.
pub open spec fn received(lsr: u8, data: u8) -> Option<Result<u8, TransferError>> {
    if flags_set(lsr, LSR_OVERRUN_ERROR) {
        Some(Err(TransferError::Overrun(data)))
    } else if flags_set(lsr, LSR_PARITY_ERROR) {
        Some(Err(TransferError::Parity))
    } else if flags_set(lsr, LSR_FRAMING_ERROR) {
        Some(Err(TransferError::Framing))
    } else if flags_set(lsr, LSR_BREAK_INTERRUPT) {
        Some(Err(TransferError::Break))
    } else if flags_set(lsr, LSR_DATA_READY) {
        Some(Ok(data))
    } else {
        None
    }
}

/// Reads the events of a line status.
pub fn serial_event_from_lsr(lsr: u8) -> (event: SerialEvent)
    ensures
        event == event_of(lsr),
{
    let overrun = contains(lsr, LSR_OVERRUN_ERROR);
    SerialEvent {
        rx_ready: contains(lsr, LSR_DATA_READY),
        rx_error: lsr & LSR_CHARACTER_ERRORS != 0 || overrun,
        overrun,
        tx_ready: contains(lsr, LSR_TRANSMITTER_HOLDING_EMPTY),
    }
}

impl SerialEvent {
    /// Creates an event set without events.
    pub fn empty() -> (event: Self)
        ensures
            event == no_event(),
    {
        SerialEvent { rx_ready: false, rx_error: false, overrun: false, tx_ready: false }
    }

    /// Whether data can be read.
    pub fn rx_ready(self) -> (ready: bool)
        ensures
            ready == self.rx_ready,
    {
        self.rx_ready
    }

    /// Whether data can be written.
    pub fn tx_ready(self) -> (ready: bool)
        ensures
            ready == self.tx_ready,
    {
        self.tx_ready
    }

    /// Whether the receiver has data or an error.
    pub fn wakes_reader(self) -> (wakes: bool)
        ensures
            wakes == (self.rx_ready || self.rx_error || self.overrun),
    {
        self.rx_ready || self.rx_error || self.overrun
    }
}

// ---------------------------------------------------------------------------
// The device
// ---------------------------------------------------------------------------

/// A UART with its register base and input clock.
#[derive(Debug)]
pub struct Ns16550 {
    pub base: usize,
    pub clock_freq: u32,
    pub tx_taken: bool,
    pub rx_taken: bool,
    pub irq_taken: bool,
}

/// The sending half of a UART.
#[derive(Debug)]
pub struct Ns16550TxQueue {
    pub base: usize,
}

/// The receiving half of a UART.
#[derive(Debug)]
pub struct Ns16550RxQueue {
    pub base: usize,
}

/// The interrupt half of a UART.
#[derive(Debug)]
pub struct Ns16550IrqHandler {
    pub base: usize,
}

/// The writes that disable interrupts and set the modem control register.
pub open spec fn modem_writes(mcr: u8) -> Seq<RegisterWrite> {
    seq![
        RegisterWrite { register: UART_IER, value: 0 },
        RegisterWrite { register: UART_MCR, value: mcr },
    ]
}

/// The interrupt enable register of a mask.
pub open spec fn interrupt_enable(mask: InterruptMask) -> u8 {
    let rx: u8 = if mask.rx_available {
        IER_RECEIVED_DATA_AVAILABLE | IER_RECEIVER_LINE_STATUS
    } else {
        0
    };
    if mask.tx_empty {
        rx | IER_TRANSMITTER_HOLDING_EMPTY
    } else {
        rx
    }
}

/// The mask of an interrupt enable register.
pub open spec fn interrupt_mask(ier: u8) -> InterruptMask {
    InterruptMask {
        rx_available: flags_set(ier, IER_RECEIVED_DATA_AVAILABLE),
        tx_empty: flags_set(ier, IER_TRANSMITTER_HOLDING_EMPTY),
    }
}

/// **Law.** The interrupt mask that was set is read back.
pub proof fn law_interrupt_mask_round_trips(mask: InterruptMask)
    ensures
        interrupt_mask(interrupt_enable(mask)) == mask,
{
    assert((0x01u8 | 0x04u8) & 0x01u8 == 0x01u8 && (0x01u8 | 0x04u8) & 0x02u8 != 0x02u8 && ((0x01u8
        | 0x04u8) | 0x02u8) & 0x01u8 == 0x01u8 && ((0x01u8 | 0x04u8) | 0x02u8) & 0x02u8 == 0x02u8
        && (0u8 | 0x02u8) & 0x02u8 == 0x02u8 && (0u8 | 0x02u8) & 0x01u8 != 0x01u8 && 0u8 & 0x01u8
        != 0x01u8 && 0u8 & 0x02u8 != 0x02u8) by (bit_vector);
}

/// The trigger field of a FIFO level.
pub open spec fn trigger_field(level: u8) -> u8 {
    if level <= 3 {
        FCR_TRIGGER_1_BYTE
    } else if level <= 7 {
        FCR_TRIGGER_4_BYTES
    } else if level <= 11 {
        FCR_TRIGGER_8_BYTES
    } else {
        FCR_TRIGGER_14_BYTES
    }
}

fn ensure_same_base(want: usize, actual: usize) -> (result: Result<(), SetBackError>)
    ensures
        match result {
            Ok(()) => want == actual,
            Err(error) => want != actual && error == (SetBackError { want, actual }),
        },
{
    if want == actual {
        Ok(())
    } else {
        Err(SetBackError { want, actual })
    }
}

impl Ns16550 {
    /// Creates a device whose halves are all in place.
    pub fn new(base: usize, clock_freq: u32) -> (device: Self)
        ensures
            device == (Ns16550 {
                base,
                clock_freq,
                tx_taken: false,
                rx_taken: false,
                irq_taken: false,
            }),
    {
        Ns16550 { base, clock_freq, tx_taken: false, rx_taken: false, irq_taken: false }
    }

    /// Returns the name of the device.
    pub fn name(&self) -> (name: &'static str)
        ensures
            name@ == "NS16550 UART"@,
    {
        "NS16550 UART"
    }

    /// Returns the register base.
    pub fn base_addr(&self) -> (base: usize)
        ensures
            base == self.base,
    {
        self.base
    }

    /// Returns the input clock, if it is known.
    pub fn clock_freq(&self) -> (clock: Option<u32>)
        ensures
            clock == if self.clock_freq == 0 {
                None
            } else {
                Some(self.clock_freq)
            },
    {
        if self.clock_freq == 0 {
            None
        } else {
            Some(self.clock_freq)
        }
    }

    /// Applies one line setting; `lcr` is the line control register as read.
    pub fn apply_setting(&self, setting: LineSetting, lcr: u8) -> (writes: Result<
        Vec<RegisterWrite>,
        ConfigError,
    >)
        requires
            setting matches LineSetting::Baudrate(rate) ==> self.clock_freq != 0 ==> 16 * rate
                <= u32::MAX,
        ensures
            match setting {
                LineSetting::Baudrate(rate) => match writes {
                    Ok(writes) => divisor_of(self.clock_freq, rate) matches Some(divisor)
                        && writes@ == divisor_writes(lcr, divisor),
                    Err(error) => divisor_of(self.clock_freq, rate) is None && error
                        == ConfigError::InvalidBaudrate,
                },
                _ => writes matches Ok(writes) && writes@ == seq![
                    RegisterWrite { register: UART_LCR, value: line_control(lcr, setting) },
                ],
            },
    {
        let value: u8 = match setting {
            LineSetting::Baudrate(rate) => {
                return set_baudrate(self.clock_freq, rate, lcr);
            },
            LineSetting::DataBits(bits) => {
                let length: u8 = match bits {
                    DataBits::Five => 0,
                    DataBits::Six => 1,
                    DataBits::Seven => 2,
                    DataBits::Eight => 3,
                };
                (lcr & !LCR_WORD_LENGTH_MASK) | length
            },
            LineSetting::StopBits(StopBits::One) => lcr & !LCR_STOP_BITS,
            LineSetting::StopBits(StopBits::Two) => lcr | LCR_STOP_BITS,
            LineSetting::Parity(parity) => {
                let field: u8 = match parity {
                    Parity::NoParity => 0,
                    Parity::Odd => LCR_PARITY_ENABLE,
                    Parity::Even => LCR_PARITY_ENABLE | LCR_EVEN_PARITY,
                    Parity::Mark => LCR_PARITY_ENABLE | LCR_STICK_PARITY,
                    Parity::Space => (LCR_PARITY_ENABLE | LCR_EVEN_PARITY) | LCR_STICK_PARITY,
                };
                (lcr & !LCR_PARITY_MASK) | field
            },
        };
        let mut writes: Vec<RegisterWrite> = Vec::new();
        writes.push(RegisterWrite { register: UART_LCR, value });
        assert(writes@ =~= seq![
            RegisterWrite { register: UART_LCR, value: line_control(lcr, setting) },
        ]);
        Ok(writes)
    }

    /// Returns the baud rate that the latched divisor produces.
    pub fn baudrate(&self, dll: u8, dlh: u8) -> (rate: u32)
        ensures
            rate == if dll == 0 && dlh == 0 {
                0
            } else {
                self.clock_freq as int / (16 * (dll + 256 * dlh))
            },
    {
        baudrate(self.clock_freq, dll, dlh)
    }

    /// Returns the data bits of the line control register.
    pub fn data_bits(&self, lcr: u8) -> (bits: DataBits)
        ensures
            bits == data_bits_of(lcr),
    {
        let length: u8 = lcr & LCR_WORD_LENGTH_MASK;
        if length == 0 {
            DataBits::Five
        } else if length == 1 {
            DataBits::Six
        } else if length == 2 {
            DataBits::Seven
        } else {
            DataBits::Eight
        }
    }

    /// Returns the stop bits of the line control register.
    pub fn stop_bits(&self, lcr: u8) -> (bits: StopBits)
        ensures
            bits == stop_bits_of(lcr),
    {
        if contains(lcr, LCR_STOP_BITS) {
            StopBits::Two
        } else {
            StopBits::One
        }
    }

    /// Returns the parity of the line control register.
    pub fn parity(&self, lcr: u8) -> (parity: Parity)
        ensures
            parity == parity_of(lcr),
    {
        if !contains(lcr, LCR_PARITY_ENABLE) {
            Parity::NoParity
        } else if contains(lcr, LCR_STICK_PARITY) {
            if contains(lcr, LCR_EVEN_PARITY) {
                Parity::Space
            } else {
                Parity::Mark
            }
        } else if contains(lcr, LCR_EVEN_PARITY) {
            Parity::Even
        } else {
            Parity::Odd
        }
    }

    /// Opens the device: interrupts off, terminal ready and request to send on.
    pub fn open(&self, mcr: u8) -> (writes: Vec<RegisterWrite>)
        ensures
            writes@ == modem_writes(mcr | MCR_READY_MASK),
    {
        let mut writes: Vec<RegisterWrite> = Vec::new();
        writes.push(RegisterWrite { register: UART_IER, value: 0 });
        writes.push(RegisterWrite { register: UART_MCR, value: mcr | MCR_READY_MASK });
        assert(writes@ =~= modem_writes(mcr | MCR_READY_MASK));
        writes
    }

    /// Closes the device: interrupts, terminal ready and request to send off.
    pub fn close(&self, mcr: u8) -> (writes: Vec<RegisterWrite>)
        ensures
            writes@ == modem_writes(mcr & !MCR_READY_MASK),
    {
        let mut writes: Vec<RegisterWrite> = Vec::new();
        writes.push(RegisterWrite { register: UART_IER, value: 0 });
        writes.push(RegisterWrite { register: UART_MCR, value: mcr & !MCR_READY_MASK });
        assert(writes@ =~= modem_writes(mcr & !MCR_READY_MASK));
        writes
    }

    /// Connects the sender to the receiver.
    pub fn enable_loopback(&self, mcr: u8) -> (write: RegisterWrite)
        ensures
            write == (RegisterWrite { register: UART_MCR, value: mcr | MCR_LOOPBACK_ENABLE }),
    {
        RegisterWrite { register: UART_MCR, value: mcr | MCR_LOOPBACK_ENABLE }
    }

    /// Disconnects the sender from the receiver.
    pub fn disable_loopback(&self, mcr: u8) -> (write: RegisterWrite)
        ensures
            write == (RegisterWrite { register: UART_MCR, value: mcr & !MCR_LOOPBACK_ENABLE }),
    {
        RegisterWrite { register: UART_MCR, value: mcr & !MCR_LOOPBACK_ENABLE }
    }

    /// Whether the sender is connected to the receiver.
    pub fn is_loopback_enabled(&self, mcr: u8) -> (enabled: bool)
        ensures
            enabled == flags_set(mcr, MCR_LOOPBACK_ENABLE),
    {
        contains(mcr, MCR_LOOPBACK_ENABLE)
    }

    /// Enables exactly the interrupts of a mask.
    pub fn set_irq_mask(&self, mask: InterruptMask) -> (write: RegisterWrite)
        ensures
            write == (RegisterWrite { register: UART_IER, value: interrupt_enable(mask) }),
    {
        let rx: u8 = if mask.rx_available {
            IER_RECEIVED_DATA_AVAILABLE | IER_RECEIVER_LINE_STATUS
        } else {
            0
        };
        let value: u8 = if mask.tx_empty {
            rx | IER_TRANSMITTER_HOLDING_EMPTY
        } else {
            rx
        };
        RegisterWrite { register: UART_IER, value }
    }

    /// Returns the interrupts that the enable register holds.
    pub fn get_irq_mask(&self, ier: u8) -> (mask: InterruptMask)
        ensures
            mask == interrupt_mask(ier),
    {
        InterruptMask {
            rx_available: contains(ier, IER_RECEIVED_DATA_AVAILABLE),
            tx_empty: contains(ier, IER_TRANSMITTER_HOLDING_EMPTY),
        }
    }

    /// Takes the sending half, if it is in place.
    pub fn take_tx(&mut self) -> (queue: Option<Ns16550TxQueue>)
        ensures
            *final(self) == (Ns16550 { tx_taken: true, ..*old(self) }),
            queue == if old(self).tx_taken {
                None
            } else {
                Some(Ns16550TxQueue { base: old(self).base })
            },
    {
        if self.tx_taken {
            return None;
        }
        self.tx_taken = true;
        Some(Ns16550TxQueue { base: self.base })
    }

    /// Takes the receiving half, if it is in place.
    pub fn take_rx(&mut self) -> (queue: Option<Ns16550RxQueue>)
        ensures
            *final(self) == (Ns16550 { rx_taken: true, ..*old(self) }),
            queue == if old(self).rx_taken {
                None
            } else {
                Some(Ns16550RxQueue { base: old(self).base })
            },
    {
        if self.rx_taken {
            return None;
        }
        self.rx_taken = true;
        Some(Ns16550RxQueue { base: self.base })
    }

    /// Takes the interrupt half, if it is in place.
    pub fn take_irq_handler(&mut self) -> (handler: Option<Ns16550IrqHandler>)
        ensures
            *final(self) == (Ns16550 { irq_taken: true, ..*old(self) }),
            handler == if old(self).irq_taken {
                None
            } else {
                Some(Ns16550IrqHandler { base: old(self).base })
            },
    {
        if self.irq_taken {
            return None;
        }
        self.irq_taken = true;
        Some(Ns16550IrqHandler { base: self.base })
    }

    /// Puts the sending half back, if it belongs to this device.
    pub fn set_tx(&mut self, tx: Ns16550TxQueue) -> (result: Result<(), SetBackError>)
        ensures
            match result {
                Ok(()) => tx.base == old(self).base && *final(self) == (Ns16550 {
                    tx_taken: false,
                    ..*old(self)
                }),
                Err(error) => tx.base != old(self).base && *final(self) == *old(self) && error == (
                SetBackError { want: old(self).base, actual: tx.base }),
            },
    {
        match ensure_same_base(self.base, tx.base) {
            Ok(()) => {
                self.tx_taken = false;
                Ok(())
            },
            Err(error) => Err(error),
        }
    }

    /// Puts the receiving half back, if it belongs to this device.
    pub fn set_rx(&mut self, rx: Ns16550RxQueue) -> (result: Result<(), SetBackError>)
        ensures
            match result {
                Ok(()) => rx.base == old(self).base && *final(self) == (Ns16550 {
                    rx_taken: false,
                    ..*old(self)
                }),
                Err(error) => rx.base != old(self).base && *final(self) == *old(self) && error == (
                SetBackError { want: old(self).base, actual: rx.base }),
            },
    {
        match ensure_same_base(self.base, rx.base) {
            Ok(()) => {
                self.rx_taken = false;
                Ok(())
            },
            Err(error) => Err(error),
        }
    }

    /// Puts the interrupt half back, if it belongs to this device.
    pub fn set_irq_handler(&mut self, irq: Ns16550IrqHandler) -> (result: Result<(), SetBackError>)
        ensures
            match result {
                Ok(()) => irq.base == old(self).base && *final(self) == (Ns16550 {
                    irq_taken: false,
                    ..*old(self)
                }),
                Err(error) => irq.base != old(self).base && *final(self) == *old(self) && error
                    == (SetBackError { want: old(self).base, actual: irq.base }),
            },
    {
        match ensure_same_base(self.base, irq.base) {
            Ok(()) => {
                self.irq_taken = false;
                Ok(())
            },
            Err(error) => Err(error),
        }
    }

    /// Whether the interrupt identification shows FIFOs.
    pub fn is_16550_plus(&self, iir: u8) -> (plus: bool)
        ensures
            plus == flags_set(iir, IIR_FIFO_ENABLE_MASK),
    {
        contains(iir, IIR_FIFO_ENABLE_MASK)
    }

    /// Enables cleared FIFOs where the device has them, or disables them.
    pub fn enable_fifo(&self, enable: bool, iir: u8) -> (write: RegisterWrite)
        ensures
            write.register == UART_FCR,
            write.value == if enable && flags_set(iir, IIR_FIFO_ENABLE_MASK) {
                ((FCR_ENABLE_FIFO | FCR_CLEAR_RECEIVER_FIFO) | FCR_CLEAR_TRANSMITTER_FIFO)
                    | FCR_TRIGGER_1_BYTE
            } else {
                0
            },
    {
        let value: u8 = if enable && self.is_16550_plus(iir) {
            ((FCR_ENABLE_FIFO | FCR_CLEAR_RECEIVER_FIFO) | FCR_CLEAR_TRANSMITTER_FIFO)
                | FCR_TRIGGER_1_BYTE
        } else {
            0
        };
        RegisterWrite { register: UART_FCR, value }
    }

    /// Sets the FIFO trigger level, if the device has FIFOs; `fcr` is the FIFO
    /// control register as read.
    pub fn set_fifo_trigger_level(&self, level: u8, iir: u8, fcr: u8) -> (write: Option<
        RegisterWrite,
    >)
        ensures
            write == if flags_set(iir, IIR_FIFO_ENABLE_MASK) {
                Some(
                    RegisterWrite {
                        register: UART_FCR,
                        value: (fcr & !FCR_TRIGGER_LEVEL_MASK) | trigger_field(level),
                    },
                )
            } else {
                None
            },
    {
        if !self.is_16550_plus(iir) {
            return None;
        }
        let field: u8 = if level <= 3 {
            FCR_TRIGGER_1_BYTE
        } else if level <= 7 {
            FCR_TRIGGER_4_BYTES
        } else if level <= 11 {
            FCR_TRIGGER_8_BYTES
        } else {
            FCR_TRIGGER_14_BYTES
        };
        Some(
            RegisterWrite { register: UART_FCR, value: (fcr & !FCR_TRIGGER_LEVEL_MASK) | field },
        )
    }

    /// Whether two readings of the interrupt identification show enabled FIFOs.
    pub fn is_fifo_enabled(&self, first: u8, second: u8) -> (enabled: bool)
        ensures
            enabled == (flags_set(first, IIR_FIFO_ENABLE_MASK) && flags_set(second, IIR_FIFO_ENABLE_MASK)),
    {
        if !self.is_16550_plus(first) {
            return false;
        }
        contains(second, IIR_FIFO_ENABLE_MASK)
    }
}

impl Ns16550TxQueue {
    /// Returns the register base.
    pub fn base_addr(&self) -> (base: usize)
        ensures
            base == self.base,
    {
        self.base
    }

    /// Returns the sending events of a line status.
    pub fn poll(&self, lsr: u8) -> (event: SerialEvent)
        ensures
            event == (SerialEvent { tx_ready: event_of(lsr).tx_ready, ..no_event() }),
    {
        SerialEvent {
            rx_ready: false,
            rx_error: false,
            overrun: false,
            tx_ready: serial_event_from_lsr(lsr).tx_ready,
        }
    }

    /// Decides the next step of sending `bytes` after `written` of them: the
    /// write of the next byte, or nothing when the sender is full or all bytes
    /// are out.
    pub fn submit_tx(&self, bytes: &[u8], written: usize, lsr: u8) -> (write: Option<RegisterWrite>)
        ensures
            write == if written < bytes@.len() && flags_set(lsr, LSR_TRANSMITTER_HOLDING_EMPTY) {
                Some(RegisterWrite { register: UART_THR, value: bytes@[written as int] })
            } else {
                None
            },
    {
        if written >= bytes.len() || !contains(lsr, LSR_TRANSMITTER_HOLDING_EMPTY) {
            return None;
        }
        Some(RegisterWrite { register: UART_THR, value: bytes[written] })
    }
}

impl Ns16550RxQueue {
    /// Returns the register base.
    pub fn base_addr(&self) -> (base: usize)
        ensures
            base == self.base,
    {
        self.base
    }

    /// Returns the receiving events of a line status.
    pub fn poll(&self, lsr: u8) -> (event: SerialEvent)
        ensures
            event == (SerialEvent { tx_ready: false, ..event_of(lsr) }),
    {
        let event = serial_event_from_lsr(lsr);
        SerialEvent {
            rx_ready: event.rx_ready,
            rx_error: event.rx_error,
            overrun: event.overrun,
            tx_ready: false,
        }
    }

    /// Whether a line status calls for reading the receive buffer.
    pub fn reads_buffer(&self, lsr: u8) -> (reads: bool)
        ensures
            reads == (received(lsr, 0) is Some),
    {
        contains(lsr, LSR_OVERRUN_ERROR) || contains(lsr, LSR_PARITY_ERROR) || contains(
            lsr,
            LSR_FRAMING_ERROR,
        ) || contains(lsr, LSR_BREAK_INTERRUPT) || contains(lsr, LSR_DATA_READY)
    }

    /// Decides the next step of receiving up to `capacity` bytes; `data` is the
    /// receive buffer where the line status calls for reading it.
    ///
    /// Nothing means that a byte was stored and the next one can be asked for.
    pub fn submit_rx(&self, bytes: &mut Vec<u8>, capacity: usize, lsr: u8, data: u8) -> (outcome:
        Option<Result<usize, TransBytesError>>)
        ensures
            if old(bytes)@.len() >= capacity {
                final(bytes)@ == old(bytes)@ && outcome == Some(
                    Ok::<usize, TransBytesError>(old(bytes).len()),
                )
            } else {
                match received(lsr, data) {
                    Some(Ok(byte)) => final(bytes)@ == old(bytes)@.push(byte) && outcome is None,
                    Some(Err(kind)) => final(bytes)@ == old(bytes)@ && outcome == Some(
                        Err::<usize, TransBytesError>(
                            TransBytesError { bytes_transferred: old(bytes).len(), kind },
                        ),
                    ),
                    None => final(bytes)@ == old(bytes)@ && outcome == Some(
                        Ok::<usize, TransBytesError>(old(bytes).len()),
                    ),
                }
            },
    {
        if bytes.len() >= capacity {
            return Some(Ok(bytes.len()));
        }
        let kind = if contains(lsr, LSR_OVERRUN_ERROR) {
            TransferError::Overrun(data)
        } else if contains(lsr, LSR_PARITY_ERROR) {
            TransferError::Parity
        } else if contains(lsr, LSR_FRAMING_ERROR) {
            TransferError::Framing
        } else if contains(lsr, LSR_BREAK_INTERRUPT) {
            TransferError::Break
        } else if contains(lsr, LSR_DATA_READY) {
            bytes.push(data);
            return None;
        } else {
            return Some(Ok(bytes.len()));
        };
        Some(Err(TransBytesError { bytes_transferred: bytes.len(), kind }))
    }
}

impl Ns16550IrqHandler {
    /// Returns the register base.
    pub fn base_addr(&self) -> (base: usize)
        ensures
            base == self.base,
    {
        self.base
    }

    /// Whether an interrupt identification calls for reading the line status.
    pub fn reads_line_status(&self, iir: u8) -> (reads: bool)
        ensures
            reads == ({
                let id = iir & IIR_INTERRUPT_ID_MASK;
                &&& !flags_set(iir, IIR_NO_INTERRUPT_PENDING)
                &&& id == IIR_RECEIVER_LINE_STATUS || id == IIR_RECEIVED_DATA_AVAILABLE || id
                    == IIR_CHARACTER_TIMEOUT
            }),
            !reads ==> forall|left: u8, right: u8| #[trigger]
                irq_event(iir, left) == #[trigger] irq_event(iir, right),
    {
        let id: u8 = iir & IIR_INTERRUPT_ID_MASK;
        !contains(iir, IIR_NO_INTERRUPT_PENDING) && (id == IIR_RECEIVER_LINE_STATUS || id
            == IIR_RECEIVED_DATA_AVAILABLE || id == IIR_CHARACTER_TIMEOUT)
    }

    /// Returns the events of an interrupt; `lsr` is the line status where the
    /// identification calls for reading it.
    pub fn handle_irq(&self, iir: u8, lsr: u8) -> (event: SerialEvent)
        ensures
            event == irq_event(iir, lsr),
    {
        if contains(iir, IIR_NO_INTERRUPT_PENDING) {
            return SerialEvent::empty();
        }
        let id: u8 = iir & IIR_INTERRUPT_ID_MASK;
        let line = serial_event_from_lsr(lsr);
        if id == IIR_RECEIVER_LINE_STATUS {
            SerialEvent {
                rx_ready: line.rx_ready,
                rx_error: line.rx_error || !line.rx_ready,
                overrun: line.overrun,
                tx_ready: false,
            }
        } else if id == IIR_RECEIVED_DATA_AVAILABLE || id == IIR_CHARACTER_TIMEOUT {
            SerialEvent {
                rx_ready: true,
                rx_error: line.rx_error,
                overrun: line.overrun,
                tx_ready: false,
            }
        } else {
            SerialEvent {
                rx_ready: false,
                rx_error: false,
                overrun: false,
                tx_ready: id == IIR_TRANSMITTER_HOLDING_EMPTY,
            }
        }
    }
}

/// **Law.** An interrupt that is pending is never without events, unless its
/// identification is unknown.
pub proof fn law_pending_interrupts_report_events(iir: u8, lsr: u8)
    requires
        !flags_set(iir, IIR_NO_INTERRUPT_PENDING),
        iir & IIR_INTERRUPT_ID_MASK == IIR_RECEIVER_LINE_STATUS || iir & IIR_INTERRUPT_ID_MASK
            == IIR_RECEIVED_DATA_AVAILABLE || iir & IIR_INTERRUPT_ID_MASK == IIR_CHARACTER_TIMEOUT
            || iir & IIR_INTERRUPT_ID_MASK == IIR_TRANSMITTER_HOLDING_EMPTY,
    ensures
        irq_event(iir, lsr) != no_event(),
{
}

} // verus!
