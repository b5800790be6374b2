use axdevice::serial::console::{
    console_text, mapping_line, print_mapping, read_byte, region_line, remarked_region_line,
    set_earlycon_by_cmdline, DebugConsole, EarlySerial, EarlyconConfig, EarlyconPlatform,
    RegisterRange,
};
use axdevice::serial::ns16550::{
    baudrate, serial_event_from_lsr, set_baudrate, Config, ConfigError, DataBits, InterruptMask,
    LineSetting, Ns16550, Ns16550RxQueue, Ns16550TxQueue, Parity, RegisterWrite, SerialEvent,
    SetBackError, StopBits, TransBytesError, TransferError, UART_DLH, UART_DLL, UART_FCR, UART_IER,
    UART_LCR, UART_MCR, UART_THR,
};
use axdevice::serial::slots::{SerialDyn, SerialHalf};
use axdevice::serial::tty::{
    assign_tty_numbers, new_serial_tty, read_count, selected_console_tty, serial_tty_entries,
    termios_changed, transfer_step, ProcessMode, SerialDevice, SerialRegistry, SerialTtyError,
    TransferStep,
};

#[test]
fn aliases_keep_linux_ttys_numbering() {
    assert_eq!(assign_tty_numbers(&[Some(0), Some(2)]), [Some(0), Some(2)]);
}

#[test]
fn unaliased_serials_take_first_free_ttys_numbers() {
    assert_eq!(
        assign_tty_numbers(&[Some(0), None, Some(2), None]),
        [Some(0), Some(1), Some(2), Some(3)]
    );
}

#[test]
fn duplicate_alias_keeps_first_device_and_reassigns_later_one() {
    assert_eq!(assign_tty_numbers(&[Some(1), Some(1), None]), [Some(1), Some(0), Some(2)]);
}

#[test]
fn bootargs_select_first_serial_console_even_when_later_console_is_non_serial() {
    assert_eq!(selected_console_tty(Some("console=ttyS2,1500000 console=tty1")), Some(2));
}

#[test]
fn bootargs_missing_or_non_serial_console_falls_back() {
    assert_eq!(selected_console_tty(None), None);
    assert_eq!(selected_console_tty(Some("root=/dev/vda console=tty1")), None);
}

#[test]
fn malformed_serial_console_does_not_panic() {
    assert_eq!(selected_console_tty(Some("console=ttySx")), None);
}

#[test]
fn serial_console_numbers_are_decimal() {
    assert_eq!(selected_console_tty(Some("\tquiet\nconsole=ttyS+7")), Some(7));
    assert_eq!(selected_console_tty(Some("console=ttyS")), None);
    assert_eq!(selected_console_tty(Some("console=ttyS+")), None);
    assert_eq!(selected_console_tty(Some("console=ttySx console=ttyS3")), Some(3));
    assert_eq!(selected_console_tty(Some("console=ttyS99999999999999999999999")), None);
    assert_eq!(
        selected_console_tty(Some("console=ttyS18446744073709551615")),
        Some(usize::MAX)
    );
    assert_eq!(selected_console_tty(Some("xconsole=ttyS1")), None);
}

fn serial(device: usize, alias_index: Option<usize>) -> SerialDevice {
    SerialDevice {
        device,
        alias_index,
        tx: Some(device * 10),
        rx: Some(device * 10 + 1),
        irq_handler: None,
        irq_num: None,
        irq_registered: false,
    }
}

#[test]
fn discovered_terminals_are_ordered_and_the_console_is_found() {
    let mut busy = serial(4, None);
    busy.rx = None;
    let serials = vec![serial(1, Some(2)), busy, serial(2, None), serial(3, Some(0))];
    let registry = SerialRegistry::discover(&serials, Some("console=ttyS2"));
    // The busy device holds number 1 without a terminal.
    let numbers: Vec<usize> =
        serial_tty_entries(&registry).iter().map(|entry| entry.number()).collect();
    assert_eq!(numbers, [0, 2, 3]);
    let ttys: Vec<usize> = registry.entries().iter().map(|entry| entry.tty()).collect();
    assert_eq!(ttys, [3, 1, 2]);
    assert_eq!(registry.console_index, Some(1));
    assert_eq!(registry.console_device(), Some(1));
    assert_eq!(registry.entries()[1].tty_name(), "ttyS2");
    let without = SerialRegistry::discover(&serials, Some("console=ttyS9"));
    assert_eq!(without.console_device(), None);
}

#[test]
fn terminals_use_interrupts_where_they_can() {
    let mut device = serial(1, None);
    assert_eq!(new_serial_tty(0, &device).unwrap().process_mode, ProcessMode::Manual);
    device.irq_num = Some(33);
    device.irq_handler = Some(5);
    assert_eq!(new_serial_tty(0, &device).unwrap().process_mode, ProcessMode::Manual);
    device.irq_registered = true;
    assert_eq!(new_serial_tty(0, &device).unwrap().process_mode, ProcessMode::InterruptDriven);
    device.tx = None;
    assert_eq!(new_serial_tty(0, &device), Err(SerialTtyError::BadState));
}

#[test]
fn transfers_wait_when_nothing_is_accepted() {
    assert_eq!(transfer_step(0, 3, 8), TransferStep::More(3));
    assert_eq!(transfer_step(3, 0, 8), TransferStep::Wait(3));
    assert_eq!(transfer_step(3, 5, 8), TransferStep::Done);
    assert_eq!(read_count(Ok(4)), 4);
    let error = TransBytesError { bytes_transferred: 2, kind: TransferError::Parity };
    assert_eq!(read_count(Err(error)), 2);
    assert_eq!(termios_changed(Some(9600), Some(115200)), Some(115200));
    assert_eq!(termios_changed(Some(9600), Some(9600)), None);
    assert_eq!(termios_changed(Some(9600), None), None);
    assert_eq!(termios_changed(None, Some(9600)), Some(9600));
}

fn write(register: u8, value: u8) -> RegisterWrite {
    RegisterWrite { register, value }
}

#[test]
fn baud_rates_are_latched_as_divisors() {
    assert_eq!(
        set_baudrate(1_843_200, 9600, 0x03).unwrap(),
        [write(UART_LCR, 0x83), write(UART_DLL, 12), write(UART_DLH, 0), write(UART_LCR, 0x03)]
    );
    assert_eq!(baudrate(1_843_200, 12, 0), 9600);
    assert_eq!(baudrate(1_843_200, 0, 1), 450);
    assert_eq!(baudrate(1_843_200, 0, 0), 0);
    assert_eq!(set_baudrate(1_843_200, 0, 0), Err(ConfigError::InvalidBaudrate));
    assert_eq!(set_baudrate(0, 9600, 0), Err(ConfigError::InvalidBaudrate));
    assert_eq!(set_baudrate(0, u32::MAX, 0), Err(ConfigError::InvalidBaudrate));
    assert_eq!(set_baudrate(1_843_200, 1_000_000, 0), Err(ConfigError::InvalidBaudrate));
    assert_eq!(set_baudrate(u32::MAX, 1, 0), Err(ConfigError::InvalidBaudrate));
}

#[test]
fn line_settings_are_applied_in_order_and_read_back() {
    let uart = Ns16550::new(0x3f8, 1_843_200);
    let config = Config {
        baudrate: Some(9600),
        data_bits: Some(DataBits::Seven),
        stop_bits: Some(StopBits::Two),
        parity: Some(Parity::Space),
    };
    let settings = config.settings();
    assert_eq!(settings[0], LineSetting::Baudrate(9600));
    assert_eq!(settings.len(), 4);
    let mut lcr = 0xffu8;
    for setting in settings {
        for step in uart.apply_setting(setting, lcr).unwrap() {
            if step.register == UART_LCR {
                lcr = step.value;
            }
        }
    }
    assert_eq!(lcr, 0x7e);
    assert_eq!(uart.data_bits(lcr), DataBits::Seven);
    assert_eq!(uart.stop_bits(lcr), StopBits::Two);
    assert_eq!(uart.parity(lcr), Parity::Space);
    for parity in [Parity::NoParity, Parity::Odd, Parity::Even, Parity::Mark] {
        let writes = uart.apply_setting(LineSetting::Parity(parity), lcr).unwrap();
        assert_eq!(uart.parity(writes[0].value), parity);
        assert_eq!(uart.data_bits(writes[0].value), DataBits::Seven);
    }
}

#[test]
fn opening_and_closing_drive_the_modem_lines() {
    let uart = Ns16550::new(0x3f8, 0);
    assert_eq!(uart.name(), "NS16550 UART");
    assert_eq!(uart.clock_freq(), None);
    assert_eq!(uart.open(0x10), [write(UART_IER, 0), write(UART_MCR, 0x13)]);
    assert_eq!(uart.close(0x13), [write(UART_IER, 0), write(UART_MCR, 0x10)]);
    assert_eq!(uart.enable_loopback(0x03), write(UART_MCR, 0x13));
    assert_eq!(uart.disable_loopback(0x13), write(UART_MCR, 0x03));
    assert!(uart.is_loopback_enabled(0x13));
    let mask = InterruptMask { rx_available: true, tx_empty: false };
    assert_eq!(uart.set_irq_mask(mask), write(UART_IER, 0x05));
    assert_eq!(uart.get_irq_mask(0x05), mask);
    assert_eq!(uart.get_irq_mask(0x02), InterruptMask { rx_available: false, tx_empty: true });
}

#[test]
fn fifos_are_used_only_where_they_exist() {
    let uart = Ns16550::new(0x3f8, 0);
    assert_eq!(uart.enable_fifo(true, 0xc1), write(UART_FCR, 0x07));
    assert_eq!(uart.enable_fifo(true, 0x01), write(UART_FCR, 0));
    assert_eq!(uart.enable_fifo(false, 0xc1), write(UART_FCR, 0));
    for (level, value) in [(0, 0x01), (3, 0x01), (4, 0x41), (8, 0x81), (11, 0x81), (12, 0xc1)] {
        assert_eq!(
            uart.set_fifo_trigger_level(level, 0xc1, 0xc1),
            Some(write(UART_FCR, value))
        );
    }
    assert_eq!(uart.set_fifo_trigger_level(4, 0x41, 0), None);
    assert!(uart.is_fifo_enabled(0xc0, 0xc0));
    assert!(!uart.is_fifo_enabled(0xc0, 0x40));
    assert!(!uart.is_16550_plus(0x80));
}

#[test]
fn halves_are_taken_once_and_return_to_their_device() {
    let mut uart = Ns16550::new(0x3f8, 0);
    let tx = uart.take_tx().unwrap();
    assert!(uart.take_tx().is_none());
    assert_eq!(tx.base_addr(), 0x3f8);
    assert_eq!(
        uart.set_tx(Ns16550TxQueue { base: 0x2f8 }),
        Err(SetBackError { want: 0x3f8, actual: 0x2f8 })
    );
    uart.set_tx(tx).unwrap();
    assert!(uart.take_tx().is_some());
    let rx = uart.take_rx().unwrap();
    assert!(uart.take_rx().is_none());
    uart.set_rx(rx).unwrap();
    let irq = uart.take_irq_handler().unwrap();
    assert!(uart.take_irq_handler().is_none());
    uart.set_irq_handler(irq).unwrap();
    assert!(!uart.irq_taken);
}

#[test]
fn bytes_go_out_while_the_sender_is_empty() {
    let tx = Ns16550TxQueue { base: 0x3f8 };
    let mut written = 0;
    let mut sent = vec![];
    for lsr in [0x60, 0x20, 0x00, 0x20] {
        match tx.submit_tx(b"abcd", written, lsr) {
            Some(step) => {
                assert_eq!(step.register, UART_THR);
                sent.push(step.value);
                written += 1;
            }
            None => break,
        }
    }
    assert_eq!(sent, b"ab");
    assert_eq!(tx.submit_tx(b"ab", 2, 0x60), None);
    assert!(tx.poll(0x20).tx_ready());
    assert!(!tx.poll(0x01).rx_ready());
}

#[test]
fn reception_stops_at_errors_and_empty_buffers() {
    let rx = Ns16550RxQueue { base: 0x3f8 };
    let mut bytes = vec![];
    assert_eq!(rx.submit_rx(&mut bytes, 2, 0x01, b'x'), None);
    assert_eq!(rx.submit_rx(&mut bytes, 2, 0x00, 0), Some(Ok(1)));
    for (lsr, kind) in [
        (0x03, TransferError::Overrun(b'y')),
        (0x05, TransferError::Parity),
        (0x09, TransferError::Framing),
        (0x11, TransferError::Break),
    ] {
        assert_eq!(
            rx.submit_rx(&mut bytes, 2, lsr, b'y'),
            Some(Err(TransBytesError { bytes_transferred: 1, kind }))
        );
        assert!(rx.reads_buffer(lsr));
    }
    assert_eq!(rx.submit_rx(&mut bytes, 2, 0x01, b'z'), None);
    assert_eq!(rx.submit_rx(&mut bytes, 2, 0x01, b'w'), Some(Ok(2)));
    assert_eq!(bytes, b"xz");
    assert!(!rx.reads_buffer(0x60));
    assert_eq!(
        serial_event_from_lsr(0x23),
        SerialEvent { rx_ready: true, rx_error: true, overrun: true, tx_ready: true }
    );
}

#[test]
fn interrupts_report_what_is_pending() {
    let mut uart = Ns16550::new(0x3f8, 0);
    let handler = uart.take_irq_handler().unwrap();
    assert_eq!(handler.handle_irq(0x01, 0xff), SerialEvent::empty());
    assert!(!handler.reads_line_status(0x02));
    assert!(handler.reads_line_status(0x0c));
    // A line status interrupt without cause still counts as an error.
    let event = handler.handle_irq(0x06, 0x20);
    assert!(event.rx_error && !event.tx_ready);
    let event = handler.handle_irq(0x04, 0x00);
    assert!(event.rx_ready && !event.rx_error && event.wakes_reader());
    let event = handler.handle_irq(0x02, 0xff);
    assert_eq!(
        event,
        SerialEvent { rx_ready: false, rx_error: false, overrun: false, tx_ready: true }
    );
    assert!(!event.wakes_reader());
}

#[test]
fn lent_halves_come_back_to_their_slot() {
    let half = |inner| SerialHalf { base: 0x1000, inner };
    let mut device = SerialDyn::new_boxed(0x1000, Some(half(1)), Some(half(2)), None);
    let tx = device.take_tx().unwrap();
    assert!(device.take_tx().is_none());
    assert_eq!(tx.base_addr(), 0x1000);
    tx.release(&mut device);
    assert!(device.take_tx().is_some());
    assert!(device.take_irq_handler().is_none());
    let foreign = SerialHalf { base: 0x2000, inner: 3 };
    assert_eq!(
        device.set_irq_handler(foreign),
        Err(SetBackError { want: 0x1000, actual: 0x2000 })
    );
    device.set_irq_handler(half(4)).unwrap();
    assert_eq!(device.take_irq_handler().unwrap().inner, half(4));
}

#[test]
fn line_feeds_get_carriage_returns() {
    assert_eq!(console_text("a\nb\n\nc"), "a\r\nb\r\n\r\nc");
    assert_eq!(console_text(""), "");
    assert_eq!(console_text("plain"), "plain");
}

#[test]
fn mappings_are_listed_with_their_binary_size() {
    assert_eq!(
        print_mapping("kernel", 0x8000_0000, 0x4000_0000, 0x28_0000),
        "kernel              : [0x0000000080000000, 0x0000000080280000) -> \
         [0x0000000040000000, 0x0000000040280000) (2.5 MiB)\n"
    );
    assert_eq!(
        mapping_line("a name beyond twenty chars", 0, 0, 1, "1 B"),
        "a name beyond twenty chars: [0x0000000000000000, 0x0000000000000001) -> \
         [0x0000000000000000, 0x0000000000000001) (1 B)\n"
    );
    assert_eq!(
        region_line("ram", 0x4000_0000, 0x1000_0000),
        "ram                 : [0x0000000040000000, 0x0000000050000000) (  256 Mb)\n"
    );
    assert_eq!(
        remarked_region_line("ram", 0x4000_0000, 0x1000_0000, "kind: free"),
        "ram                 : [0x0000000040000000, 0x0000000050000000) (  256 Mb) kind: free\n"
    );
    // A remark without text leaves its blank.
    assert_eq!(
        remarked_region_line("a name of over twenty", 0, 0x10_0000, ""),
        "a name of over twenty: [0x0000000000000000, 0x0000000000100000) (    1 Mb) \n"
    );
}

fn earlycon(uart_type: &str, io_type: &str, base_addr: Option<usize>) -> Option<EarlyconConfig> {
    Some(EarlyconConfig {
        uart_type: String::from(uart_type),
        io_type: String::from(io_type),
        base_addr,
    })
}

const PLATFORM: EarlyconPlatform =
    EarlyconPlatform { has_ports: true, mapped: Some(0xffff_0000), has_tx: true, has_rx: true };

#[test]
fn early_consoles_follow_the_command_line() {
    let port = set_earlycon_by_cmdline(&earlycon("ns16550", "io", Some(0x1_03f8)), PLATFORM)
        .unwrap();
    assert_eq!(port.serial, EarlySerial::Ns16550Port { base: 0x03f8 });
    assert_eq!(port.debug, DebugConsole { base: 0x1_03f8, is_mmio: false });
    assert_eq!(port.debug.debug_to_memory_desc(), None);
    for (io_type, width) in [("mmio", 1), ("mmio16", 2), ("mmio32", 4)] {
        let mmio = set_earlycon_by_cmdline(&earlycon("ns16550", io_type, Some(0x1000)), PLATFORM)
            .unwrap();
        assert_eq!(mmio.serial, EarlySerial::Ns16550Mmio { base: 0xffff_0000, width });
        assert_eq!(
            mmio.debug.debug_to_memory_desc(),
            Some(RegisterRange { base: 0x1000, size: 100 })
        );
    }
    let pl011 =
        set_earlycon_by_cmdline(&earlycon("pl011", "mmio", Some(0x900_0000)), PLATFORM).unwrap();
    assert_eq!(pl011.serial, EarlySerial::Pl011 { base: 0xffff_0000 });
}

#[test]
fn early_console_faults_are_reported() {
    let fault = |config: Option<EarlyconConfig>, platform: EarlyconPlatform| {
        set_earlycon_by_cmdline(&config, platform).unwrap_err()
    };
    assert_eq!(fault(None, PLATFORM), "No earlycon parameter found");
    assert_eq!(
        fault(earlycon("8250", "mmio", None), PLATFORM),
        "unsupported earlycon uart type"
    );
    let no_ports = EarlyconPlatform { has_ports: false, ..PLATFORM };
    assert_eq!(
        fault(earlycon("ns16550", "io", Some(0x3f8)), no_ports),
        "io type not supported on this architecture"
    );
    assert_eq!(fault(earlycon("ns16550", "io", None), PLATFORM), "missing io base address");
    assert_eq!(
        fault(earlycon("ns16550", "mmio", None), PLATFORM),
        "No base address specified for ns16550 earlycon"
    );
    let unmapped = EarlyconPlatform { mapped: None, ..PLATFORM };
    assert_eq!(
        fault(earlycon("ns16550", "mmio64", Some(1)), unmapped),
        "Invalid base address for ns16550 earlycon"
    );
    assert_eq!(
        fault(earlycon("ns16550", "mmio64", Some(1)), PLATFORM),
        "Invalid io_type for ns16550 earlycon"
    );
    assert_eq!(
        fault(earlycon("pl011", "mmio", Some(1)), unmapped),
        "Invalid base address for pl011 earlycon"
    );
    let no_rx = EarlyconPlatform { has_rx: false, ..PLATFORM };
    assert_eq!(
        fault(earlycon("pl011", "mmio", Some(1)), no_rx),
        "failed to take pl011 rx queue"
    );
    let no_tx = EarlyconPlatform { has_tx: false, ..PLATFORM };
    assert_eq!(
        fault(earlycon("ns16550", "io", Some(1)), no_tx),
        "failed to take io tx queue"
    );
}

#[test]
fn console_input_prefers_the_architecture() {
    let ready = SerialEvent { rx_ready: true, rx_error: false, overrun: false, tx_ready: false };
    assert_eq!(read_byte(Some(1), Some(ready), Some(2)), Some(1));
    assert_eq!(read_byte(None, Some(ready), Some(2)), Some(2));
    assert_eq!(read_byte(None, Some(SerialEvent::empty()), Some(2)), None);
    assert_eq!(read_byte(None, None, Some(2)), None);
}
