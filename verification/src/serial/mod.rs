//! Serial devices: the NS16550 register logic, queue ownership, terminal
//! numbering and the early console.

pub mod console;
pub mod laws;
pub mod ns16550;
pub mod slots;
pub mod terminal_laws;
pub mod tty;
