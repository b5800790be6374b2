//! What the registers of a UART hold, bit by bit.

use crate::serial::ns16550;
use crate::serial::ns16550::{Config, DataBits, InterruptMask, LineSetting, Parity, RegisterWrite, StopBits, TransferError};
use vstd::arithmetic::div_mod;
use vstd::prelude::*;

verus! {

/// The registers of a UART by number, and the bits of those that are written or
/// tested as a whole.
pub proof fn law_register_map()
    ensures
        ns16550::UART_RBR == 0,
        ns16550::UART_THR == 0,
        ns16550::UART_DLL == 0,
        ns16550::UART_IER == 1,
        ns16550::UART_DLH == 1,
        ns16550::UART_IIR == 2,
        ns16550::UART_FCR == 2,
        ns16550::UART_LCR == 3,
        ns16550::UART_MCR == 4,
        ns16550::UART_LSR == 5,
        ns16550::MCR_READY_MASK == 0x03,
        ns16550::MCR_LOOPBACK_ENABLE == 0x10,
        ns16550::IIR_FIFO_ENABLE_MASK == 0xc0,
        ns16550::FCR_ENABLE_FIFO == 0x01,
        ns16550::FCR_CLEAR_RECEIVER_FIFO == 0x02,
        ns16550::FCR_CLEAR_TRANSMITTER_FIFO == 0x04,
        ns16550::FCR_TRIGGER_LEVEL_MASK == 0xc0,
{
}

/// Single bits are set exactly when they are not clear.
proof fn lemma_single_bits(value: u8)
    ensures
        (value & 0x01 == 0x01) == (value & 0x01 != 0),
        (value & 0x02 == 0x02) == (value & 0x02 != 0),
        (value & 0x04 == 0x04) == (value & 0x04 != 0),
        (value & 0x08 == 0x08) == (value & 0x08 != 0),
        (value & 0x10 == 0x10) == (value & 0x10 != 0),
        (value & 0x20 == 0x20) == (value & 0x20 != 0),
        (value & 0x1e != 0) == (value & 0x1c != 0 || value & 0x02 != 0),
        value & 0x38 == (value & 0x08) + (value & 0x10) + (value & 0x20),
{
    assert((value & 0x01 == 0x01) == (value & 0x01 != 0) && (value & 0x02 == 0x02) == (value & 0x02
        != 0) && (value & 0x04 == 0x04) == (value & 0x04 != 0) && (value & 0x08 == 0x08) == (value
        & 0x08 != 0) && (value & 0x10 == 0x10) == (value & 0x10 != 0) && (value & 0x20 == 0x20)
        == (value & 0x20 != 0) && (value & 0x1e != 0) == (value & 0x1c != 0 || value & 0x02 != 0)
        && value & 0x38 == (value & 0x08) + (value & 0x10) + (value & 0x20)) by (bit_vector);
}

/// A line setting writes its own field of the line control register and keeps the
/// other bits: bits 0 and 1 hold the data bits less five, bit 2 stands for two
/// stop bits, and bits 3 to 5 are 0x00 without parity, 0x08 for odd, 0x18 for
/// even, 0x28 for mark and 0x38 for space parity.
pub proof fn law_line_settings_write_their_field(lcr: u8, setting: LineSetting)
    ensures
        ({
            let after = ns16550::line_control(lcr, setting);
            match setting {
                LineSetting::Baudrate(_) => after == lcr,
                LineSetting::DataBits(bits) => after & 0xfc == lcr & 0xfc && after & 0x03 == (
                match bits {
                    DataBits::Five => 0u8,
                    DataBits::Six => 1,
                    DataBits::Seven => 2,
                    DataBits::Eight => 3,
                }),
                LineSetting::StopBits(bits) => after & 0xfb == lcr & 0xfb && after & 0x04 == (
                match bits {
                    StopBits::One => 0u8,
                    StopBits::Two => 4,
                }),
                LineSetting::Parity(parity) => after & 0xc7 == lcr & 0xc7 && after & 0x38 == (
                match parity {
                    Parity::NoParity => 0u8,
                    Parity::Odd => 0x08,
                    Parity::Even => 0x18,
                    Parity::Mark => 0x28,
                    Parity::Space => 0x38,
                }),
            }
        }),
{
    let field: u8 = match setting {
        LineSetting::Baudrate(_) => 0,
        LineSetting::DataBits(bits) => ns16550::word_length(bits),
        LineSetting::StopBits(_) => 0,
        LineSetting::Parity(parity) => ns16550::parity_field(parity),
    };
    assert((0x08u8 | 0x10u8) == 0x18u8 && (0x08u8 | 0x20u8) == 0x28u8 && ((0x08u8 | 0x10u8)
        | 0x20u8) == 0x38u8) by (bit_vector);
    assert(field <= 3 ==> ((lcr & !0x03u8) | field) & 0xfc == lcr & 0xfc && ((lcr & !0x03u8)
        | field) & 0x03 == field) by (bit_vector);
    assert((lcr & !0x04u8) & 0xfb == lcr & 0xfb && (lcr & !0x04u8) & 0x04 == 0 && (lcr | 0x04u8)
        & 0xfb == lcr & 0xfb && (lcr | 0x04u8) & 0x04 == 4) by (bit_vector);
    assert((field == 0 || field == 0x08 || field == 0x18 || field == 0x28 || field == 0x38) ==> ((lcr
        & !0x38u8) | field) & 0xc7 == lcr & 0xc7 && ((lcr & !0x38u8) | field) & 0x38 == field)
        by (bit_vector);
}

/// The line settings of a register are read from the same fields.
pub proof fn law_line_settings_read_their_field(lcr: u8)
    ensures
        match ns16550::data_bits_of(lcr) {
            DataBits::Five => lcr & 0x03 == 0,
            DataBits::Six => lcr & 0x03 == 1,
            DataBits::Seven => lcr & 0x03 == 2,
            DataBits::Eight => lcr & 0x03 == 3,
        },
        match ns16550::stop_bits_of(lcr) {
            StopBits::One => lcr & 0x04 == 0,
            StopBits::Two => lcr & 0x04 == 4,
        },
        match ns16550::parity_of(lcr) {
            Parity::NoParity => lcr & 0x08 == 0,
            Parity::Odd => lcr & 0x38 == 0x08,
            Parity::Even => lcr & 0x38 == 0x18,
            Parity::Mark => lcr & 0x38 == 0x28,
            Parity::Space => lcr & 0x38 == 0x38,
        },
{
    lemma_single_bits(lcr);
    assert(lcr & 0x03 <= 3) by (bit_vector);
}

/// The settings of a configuration are those that it holds, in the order baud rate,
/// data bits, stop bits, parity.
pub proof fn law_settings_keep_their_order(config: Config, i: int, j: int)
    ensures
        ({
            let settings = ns16550::settings_of(config);
            &&& config.baudrate matches Some(rate) ==> settings.contains(
                LineSetting::Baudrate(rate),
            )
            &&& config.data_bits matches Some(bits) ==> settings.contains(
                LineSetting::DataBits(bits),
            )
            &&& config.stop_bits matches Some(bits) ==> settings.contains(
                LineSetting::StopBits(bits),
            )
            &&& config.parity matches Some(parity) ==> settings.contains(
                LineSetting::Parity(parity),
            )
            &&& 0 <= i < settings.len() ==> match settings[i] {
                LineSetting::Baudrate(rate) => config.baudrate == Some(rate),
                LineSetting::DataBits(bits) => config.data_bits == Some(bits),
                LineSetting::StopBits(bits) => config.stop_bits == Some(bits),
                LineSetting::Parity(parity) => config.parity == Some(parity),
            }
            &&& 0 <= i < j < settings.len() ==> setting_rank(settings[i]) < setting_rank(
                settings[j],
            )
        }),
{
    let rate: Seq<LineSetting> = match config.baudrate {
        Some(rate) => seq![LineSetting::Baudrate(rate)],
        None => Seq::empty(),
    };
    let data: Seq<LineSetting> = match config.data_bits {
        Some(bits) => seq![LineSetting::DataBits(bits)],
        None => Seq::empty(),
    };
    let stop: Seq<LineSetting> = match config.stop_bits {
        Some(bits) => seq![LineSetting::StopBits(bits)],
        None => Seq::empty(),
    };
    let settings = ns16550::settings_of(config);
    if let Some(rate) = config.baudrate {
        assert(settings[0] == LineSetting::Baudrate(rate));
    }
    if let Some(bits) = config.data_bits {
        assert(settings[rate.len() as int] == LineSetting::DataBits(bits));
    }
    if let Some(bits) = config.stop_bits {
        assert(settings[(rate.len() + data.len()) as int] == LineSetting::StopBits(bits));
    }
    if let Some(parity) = config.parity {
        assert(settings[(rate.len() + data.len() + stop.len()) as int] == LineSetting::Parity(
            parity,
        ));
    }
}

/// The place of a kind of setting among the others.
pub open spec fn setting_rank(setting: LineSetting) -> int {
    match setting {
        LineSetting::Baudrate(_) => 0,
        LineSetting::DataBits(_) => 1,
        LineSetting::StopBits(_) => 2,
        LineSetting::Parity(_) => 3,
    }
}

/// The divisor of a baud rate is the clock over sixteen times the rate, rounded
/// down; a rate has one exactly when that is from 1 to 65535.
pub proof fn law_divisors_divide_the_clock(clock: u32, rate: u32, divisor: int)
    ensures
        ns16550::divisor_of(clock, rate) == Some(divisor) <==> rate > 0 && 1 <= divisor <= 0xffff
            && divisor * (16 * rate) <= clock && clock < (divisor + 1) * (16 * rate),
{
    if rate > 0 {
        let step = 16 * rate as int;
        let quotient = clock as int / step;
        div_mod::lemma_fundamental_div_mod(clock as int, step);
        div_mod::lemma_mod_bound(clock as int, step);
        assert(step * quotient == quotient * step) by (nonlinear_arith);
        assert((quotient + 1) * step == quotient * step + step) by (nonlinear_arith);
        if divisor * step <= clock && clock < (divisor + 1) * step {
            assert(divisor == quotient) by (nonlinear_arith)
                requires
                    divisor * step <= clock,
                    clock < (divisor + 1) * step,
                    quotient * step <= clock,
                    clock < (quotient + 1) * step,
                    step > 0,
            ;
        }
        if clock == 0 && divisor >= 1 {
            assert(divisor * step > 0) by (nonlinear_arith)
                requires
                    divisor >= 1,
                    step > 0,
            ;
        }
    }
}

/// Latching a divisor opens the latch (bit 7 of the line control register), writes
/// the low and the high byte of the divisor and closes the latch, with the other
/// line control bits kept throughout.
pub proof fn law_divisors_are_latched(lcr: u8, divisor: int)
    requires
        0 < divisor <= 0xffff,
    ensures
        ({
            let writes = ns16550::divisor_writes(lcr, divisor);
            &&& writes.len() == 4
            &&& writes[0].register == 3
            &&& writes[0].value & 0x80 == 0x80
            &&& writes[0].value & 0x7f == lcr & 0x7f
            &&& writes[1].register == 0
            &&& writes[2].register == 1
            &&& writes[1].value + 256 * writes[2].value == divisor
            &&& writes[3].register == 3
            &&& writes[3].value == lcr & 0x7f
        }),
{
    assert((lcr | 0x80u8) & 0x80 == 0x80 && (lcr | 0x80u8) & 0x7f == lcr & 0x7f && (lcr | 0x80u8)
        & !0x80u8 == lcr & 0x7f) by (bit_vector);
}

/// Opening and closing begin by disabling all interrupts and then write the modem
/// control register.
pub proof fn law_modem_writes(mcr: u8)
    ensures
        ns16550::modem_writes(mcr) == seq![
            RegisterWrite { register: 1, value: 0 },
            RegisterWrite { register: 4, value: mcr },
        ],
{
}

/// The interrupt enable register holds bits 0 and 2 for reception and bit 1 for
/// transmission.
pub proof fn law_interrupt_masks_are_bits(mask: InterruptMask, ier: u8)
    ensures
        ns16550::interrupt_enable(mask) == (if mask.rx_available {
            5int
        } else {
            0
        }) + (if mask.tx_empty {
            2int
        } else {
            0
        }),
        ns16550::interrupt_mask(ier).rx_available == (ier & 0x01 != 0),
        ns16550::interrupt_mask(ier).tx_empty == (ier & 0x02 != 0),
{
    lemma_single_bits(ier);
    assert((0x01u8 | 0x04u8) == 5 && ((0x01u8 | 0x04u8) | 0x02u8) == 7 && (0u8 | 0x02u8) == 2)
        by (bit_vector);
}

/// A FIFO level selects the largest trigger of 1, 4, 8 and 14 bytes that it
/// reaches, in bits 6 and 7; levels from 12 on select 14.
pub proof fn law_fifo_triggers(level: u8)
    ensures
        ns16550::trigger_field(level) == (if level < 4 {
            0x00int
        } else if level < 8 {
            0x40
        } else if level < 12 {
            0x80
        } else {
            0xc0
        }),
{
}

/// The events of a line status: bit 0 is data, bit 1 an overrun, bits 1 to 4 an
/// error, bit 5 room to send.
pub proof fn law_line_status_bits(lsr: u8)
    ensures
        ({
            let event = ns16550::event_of(lsr);
            &&& event.rx_ready == (lsr & 0x01 != 0)
            &&& event.overrun == (lsr & 0x02 != 0)
            &&& event.rx_error == (lsr & 0x1e != 0)
            &&& event.tx_ready == (lsr & 0x20 != 0)
        }),
{
    lemma_single_bits(lsr);
}

/// What is received: an overrun comes before a parity error, a framing error, a
/// break and data; without any of them nothing is. An overrun carries the byte.
pub proof fn law_reception_order(lsr: u8, data: u8)
    ensures
        ns16550::received(lsr, data) == (if lsr & 0x02 != 0 {
            Some(Err::<u8, TransferError>(TransferError::Overrun(data)))
        } else if lsr & 0x04 != 0 {
            Some(Err::<u8, TransferError>(TransferError::Parity))
        } else if lsr & 0x08 != 0 {
            Some(Err::<u8, TransferError>(TransferError::Framing))
        } else if lsr & 0x10 != 0 {
            Some(Err::<u8, TransferError>(TransferError::Break))
        } else if lsr & 0x01 != 0 {
            Some(Ok::<u8, TransferError>(data))
        } else {
            None
        }),
{
    lemma_single_bits(lsr);
}

/// The events of an interrupt: none while bit 0 of the identification is set. Bits
/// 1 to 3 name the cause: 2 is room to send; 4 and 12 are data, with the errors of
/// the line status; 6 is the line status, which is an error where it shows neither
/// data nor an error; any other cause has no event.
pub proof fn law_interrupt_causes(iir: u8, lsr: u8)
    ensures
        ({
            let event = ns16550::irq_event(iir, lsr);
            let cause = iir & 0x0e;
            let pending = iir & 0x01 == 0;
            let data = pending && (cause == 4 || cause == 12);
            let line = pending && cause == 6;
            &&& event.tx_ready == (pending && cause == 2)
            &&& event.rx_ready == (data || line && lsr & 0x01 != 0)
            &&& event.overrun == ((data || line) && lsr & 0x02 != 0)
            &&& event.rx_error == ((data || line) && lsr & 0x1e != 0 || line && lsr & 0x01 == 0
                && lsr & 0x1e == 0)
        }),
{
    lemma_single_bits(lsr);
    lemma_single_bits(iir);
}

} // verus!
