//! Ownership of the halves of a serial device.
//!
//! A device lends its sending, receiving and interrupt halves out one at a
//! time; a half that is dropped goes back into its slot.

use crate::serial::ns16550::SetBackError;
use vstd::prelude::*;

verus! {

/// One half of a device: the queue or handler behind it and the register base
/// of the device that it belongs to.
#[derive(Clone, Copy, Debug, PartialEq, Eq, Structural)]
pub struct SerialHalf {
    pub base: usize,
    pub inner: usize,
}

/// A sending half that was lent out.
#[derive(Debug)]
pub struct TxQueue {
    pub inner: SerialHalf,
}

/// A receiving half that was lent out.
#[derive(Debug)]
pub struct RxQueue {
    pub inner: SerialHalf,
}

/// An interrupt half that was lent out.
#[derive(Debug)]
pub struct IrqHandler {
    pub inner: SerialHalf,
}

/// A device with a slot for each of its halves.
#[derive(Debug)]
pub struct SerialDyn {
    pub base: usize,
    pub tx: Option<SerialHalf>,
    pub rx: Option<SerialHalf>,
    pub irq: Option<SerialHalf>,
}

impl SerialDyn {
    /// Creates a device that holds all its halves; the interrupt half is
    /// optional.
    pub fn new_boxed(
        base: usize,
        tx: Option<SerialHalf>,
        rx: Option<SerialHalf>,
        irq: Option<SerialHalf>,
    ) -> (device: Self)
        requires
            tx is Some,
            rx is Some,
        ensures
            device == (SerialDyn { base, tx, rx, irq }),
    {
        SerialDyn { base, tx, rx, irq }
    }

    /// Returns the register base.
    pub fn base_addr(&self) -> (base: usize)
        ensures
            base == self.base,
    {
        self.base
    }

    /// Lends the sending half out, if it is in its slot.
    pub fn take_tx(&mut self) -> (queue: Option<TxQueue>)
        ensures
            *final(self) == (SerialDyn { tx: None, ..*old(self) }),
            queue == match old(self).tx {
                Some(inner) => Some(TxQueue { inner }),
                None => None,
            },
    {
        match self.tx {
            Some(inner) => {
                self.tx = None;
                Some(TxQueue { inner })
            },
            None => None,
        }
    }

    /// Lends the receiving half out, if it is in its slot.
    pub fn take_rx(&mut self) -> (queue: Option<RxQueue>)
        ensures
            *final(self) == (SerialDyn { rx: None, ..*old(self) }),
            queue == match old(self).rx {
                Some(inner) => Some(RxQueue { inner }),
                None => None,
            },
    {
        match self.rx {
            Some(inner) => {
                self.rx = None;
                Some(RxQueue { inner })
            },
            None => None,
        }
    }

    /// Lends the interrupt half out, if it is in its slot.
    pub fn take_irq_handler(&mut self) -> (handler: Option<IrqHandler>)
        ensures
            *final(self) == (SerialDyn { irq: None, ..*old(self) }),
            handler == match old(self).irq {
                Some(inner) => Some(IrqHandler { inner }),
                None => None,
            },
    {
        match self.irq {
            Some(inner) => {
                self.irq = None;
                Some(IrqHandler { inner })
            },
            None => None,
        }
    }

    /// Puts a sending half into its slot, if it belongs to this device.
    pub fn set_tx(&mut self, tx: SerialHalf) -> (result: Result<(), SetBackError>)
        ensures
            match result {
                Ok(()) => tx.base == old(self).base && *final(self) == (SerialDyn {
                    tx: Some(tx),
                    ..*old(self)
                }),
                Err(error) => tx.base != old(self).base && *final(self) == *old(self) && error == (
                SetBackError { want: old(self).base, actual: tx.base }),
            },
    {
        if tx.base != self.base {
            return Err(SetBackError { want: self.base, actual: tx.base });
        }
        self.tx = Some(tx);
        Ok(())
    }

    /// Puts a receiving half into its slot, if it belongs to this device.
    pub fn set_rx(&mut self, rx: SerialHalf) -> (result: Result<(), SetBackError>)
        ensures
            match result {
                Ok(()) => rx.base == old(self).base && *final(self) == (SerialDyn {
                    rx: Some(rx),
                    ..*old(self)
                }),
                Err(error) => rx.base != old(self).base && *final(self) == *old(self) && error == (
                SetBackError { want: old(self).base, actual: rx.base }),
            },
    {
        if rx.base != self.base {
            return Err(SetBackError { want: self.base, actual: rx.base });
        }
        self.rx = Some(rx);
        Ok(())
    }

    /// Puts an interrupt half into its slot, if it belongs to this device.
    pub fn set_irq_handler(&mut self, irq: SerialHalf) -> (result: Result<(), SetBackError>)
        ensures
            match result {
                Ok(()) => irq.base == old(self).base && *final(self) == (SerialDyn {
                    irq: Some(irq),
                    ..*old(self)
                }),
                Err(error) => irq.base != old(self).base && *final(self) == *old(self) && error
                    == (SetBackError { want: old(self).base, actual: irq.base }),
            },
    {
        if irq.base != self.base {
            return Err(SetBackError { want: self.base, actual: irq.base });
        }
        self.irq = Some(irq);
        Ok(())
    }
}

impl TxQueue {
    /// Returns the register base of the device behind the half.
    pub fn base_addr(&self) -> (base: usize)
        ensures
            base == self.inner.base,
    {
        self.inner.base
    }

    /// Gives the half back to the slot that it came from.
    pub fn release(self, device: &mut SerialDyn)
        ensures
            *final(device) == (SerialDyn { tx: Some(self.inner), ..*old(device) }),
    {
        device.tx = Some(self.inner);
    }
}

impl RxQueue {
    /// Returns the register base of the device behind the half.
    pub fn base_addr(&self) -> (base: usize)
        ensures
            base == self.inner.base,
    {
        self.inner.base
    }

    /// Gives the half back to the slot that it came from.
    pub fn release(self, device: &mut SerialDyn)
        ensures
            *final(device) == (SerialDyn { rx: Some(self.inner), ..*old(device) }),
    {
        device.rx = Some(self.inner);
    }
}

impl IrqHandler {
    /// Returns the register base of the device behind the half.
    pub fn base_addr(&self) -> (base: usize)
        ensures
            base == self.inner.base,
    {
        self.inner.base
    }

    /// Gives the half back to the slot that it came from.
    pub fn release(self, device: &mut SerialDyn)
        ensures
            *final(device) == (SerialDyn { irq: Some(self.inner), ..*old(device) }),
    {
        device.irq = Some(self.inner);
    }
}

} // verus!
