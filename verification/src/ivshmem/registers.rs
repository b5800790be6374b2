//! BAR0 register page state of one ivshmem endpoint.
//!
//! The offsets follow the Jailhouse v2 base order with one extension: `Event
//! Status` lets a polling guest confirm where an event came from. All registers
//! accept only aligned 32-bit accesses; unknown offsets read as zero and ignore
//! writes.

use crate::ivshmem::error::{IvshmemError, IvshmemErrorView};
use crate::ivshmem::profile::PeerId;
use vstd::prelude::*;

verus! {

/// Size of the BAR0 register page.
///
/// One full page keeps page-granular register mappings from exposing
/// neighbouring BARs.
pub const REGISTER_PAGE_SIZE: u64 = 0x1000;

/// Offset of the read-only peer ID register.
pub const ID_OFFSET: u64 = 0x00;

/// Offset of the read-only maximum-peer-count register.
pub const MAXIMUM_PEERS_OFFSET: u64 = 0x04;

/// Offset of the read/write notification-enable register; only bit 0 is
/// implemented, other bits read as zero and ignore writes.
pub const INTERRUPT_CONTROL_OFFSET: u64 = 0x08;

/// Offset of the write-only doorbell register (`target << 16 | vector`).
pub const DOORBELL_OFFSET: u64 = 0x0c;

/// Offset of the read/write endpoint state register.
pub const STATE_OFFSET: u64 = 0x10;

/// Offset of the write-one-to-clear event status register.
pub const EVENT_STATUS_OFFSET: u64 = 0x14;

/// The one implemented bit of the notification-enable register.
pub const INTERRUPT_CONTROL_ENABLE: u32 = 1;

/// The event status bit that stands for pending doorbells.
pub const DOORBELL_EVENT: u32 = 1;

/// Mutable BAR0 register state of one endpoint.
///
/// ID and Maximum Peers come from the link identity and are passed to
/// [`IvshmemRegisters::read`].
#[derive(Clone, Copy, Debug, PartialEq, Eq, Structural)]
pub struct IvshmemRegisters {
    pub interrupt_control: u32,
    pub state: u32,
    pub event_status: u32,
}

/// What is wrong with a register access, if anything.
pub open spec fn register_fault(offset: u64) -> Option<IvshmemErrorView> {
    if offset % 4 == 0 && offset < REGISTER_PAGE_SIZE {
        None
    } else {
        Some(IvshmemErrorView::InvalidRegisterAccess { offset, page_size: REGISTER_PAGE_SIZE })
    }
}

impl Default for IvshmemRegisters {
    fn default() -> (registers: Self)
        ensures
            registers == IvshmemRegisters::cleared(),
    {
        IvshmemRegisters::new()
    }
}

impl IvshmemRegisters {
    /// Notification disabled, state zero and no pending event.
    pub open spec fn cleared() -> Self {
        IvshmemRegisters { interrupt_control: 0, state: 0, event_status: 0 }
    }

    /// The value of the register at an offset.
    pub open spec fn value_at(self, offset: u64, peer: PeerId, max_peers: u16) -> u32 {
        if offset == ID_OFFSET {
            peer.0 as u32
        } else if offset == MAXIMUM_PEERS_OFFSET {
            max_peers as u32
        } else if offset == INTERRUPT_CONTROL_OFFSET {
            self.interrupt_control
        } else if offset == STATE_OFFSET {
            self.state
        } else if offset == EVENT_STATUS_OFFSET {
            self.event_status
        } else {
            0
        }
    }

    /// The registers after a write.
    pub open spec fn after_write(self, offset: u64, value: u32) -> Self {
        if offset == INTERRUPT_CONTROL_OFFSET {
            IvshmemRegisters { interrupt_control: value & INTERRUPT_CONTROL_ENABLE, ..self }
        } else if offset == STATE_OFFSET {
            IvshmemRegisters { state: value, ..self }
        } else if offset == EVENT_STATUS_OFFSET {
            IvshmemRegisters { event_status: self.event_status & !value, ..self }
        } else {
            self
        }
    }

    /// Creates power-on registers with notification disabled and no pending
    /// event.
    pub fn new() -> (registers: Self)
        ensures
            registers == IvshmemRegisters::cleared(),
    {
        IvshmemRegisters { interrupt_control: 0, state: 0, event_status: 0 }
    }

    /// Clears locally mutable registers without touching the shared backing.
    pub fn reset(&mut self)
        ensures
            *final(self) == IvshmemRegisters::cleared(),
    {
        *self = Self::new();
    }

    /// Reads one aligned dword of the BAR0 register page.
    pub fn read(&self, offset: u64, peer: PeerId, max_peers: u16) -> (value: Result<
        u32,
        IvshmemError,
    >)
        ensures
            match value {
                Ok(value) => register_fault(offset) is None && value == self.value_at(
                    offset,
                    peer,
                    max_peers,
                ),
                Err(error) => register_fault(offset) == Some(error@),
            },
    {
        match Self::validate_access(offset) {
            Ok(()) => {},
            Err(error) => {
                return Err(error);
            },
        }
        let value: u32 = if offset == ID_OFFSET {
            peer.value() as u32
        } else if offset == MAXIMUM_PEERS_OFFSET {
            max_peers as u32
        } else if offset == INTERRUPT_CONTROL_OFFSET {
            self.interrupt_control
        } else if offset == STATE_OFFSET {
            self.state
        } else if offset == EVENT_STATUS_OFFSET {
            self.event_status
        } else {
            0
        };
        Ok(value)
    }

    /// Writes one aligned dword of the BAR0 register page.
    ///
    /// Doorbell writes stay inert here; routing them to the target peer is the
    /// link's concern. Read-only registers and unknown offsets ignore writes.
    pub fn write(&mut self, offset: u64, value: u32) -> (result: Result<(), IvshmemError>)
        ensures
            match result {
                Ok(()) => register_fault(offset) is None && *final(self) == old(self).after_write(
                    offset,
                    value,
                ),
                Err(error) => register_fault(offset) == Some(error@) && *final(self) == *old(self),
            },
    {
        match Self::validate_access(offset) {
            Ok(()) => {},
            Err(error) => {
                return Err(error);
            },
        }
        if offset == INTERRUPT_CONTROL_OFFSET {
            self.interrupt_control = value & INTERRUPT_CONTROL_ENABLE;
        } else if offset == STATE_OFFSET {
            self.state = value;
        } else if offset == EVENT_STATUS_OFFSET {
            self.event_status = self.event_status & !value;
        }
        Ok(())
    }

    /// Records one delivered event; events merge until the guest clears them.
    pub fn record_event(&mut self)
        ensures
            *final(self) == (IvshmemRegisters {
                event_status: old(self).event_status | DOORBELL_EVENT,
                ..*old(self)
            }),
    {
        self.event_status = self.event_status | DOORBELL_EVENT;
    }

    fn validate_access(offset: u64) -> (result: Result<(), IvshmemError>)
        ensures
            match result {
                Ok(()) => register_fault(offset) is None,
                Err(error) => register_fault(offset) == Some(error@),
            },
    {
        if offset % 4 == 0 && offset < REGISTER_PAGE_SIZE {
            Ok(())
        } else {
            Err(
                IvshmemError::InvalidRegisterAccess { offset, page_size: REGISTER_PAGE_SIZE },
            )
        }
    }
}

/// Recording an event twice pends it once, clearing it removes it, and a clear
/// without a pending event changes nothing.
pub proof fn law_events_merge_and_clear(registers: IvshmemRegisters)
    ensures
        (registers.event_status | DOORBELL_EVENT) | DOORBELL_EVENT == registers.event_status
            | DOORBELL_EVENT,
        (registers.event_status | DOORBELL_EVENT) & DOORBELL_EVENT == DOORBELL_EVENT,
        (IvshmemRegisters {
            event_status: registers.event_status | DOORBELL_EVENT,
            ..registers
        }).after_write(EVENT_STATUS_OFFSET, DOORBELL_EVENT).event_status & DOORBELL_EVENT == 0,
        registers.event_status & DOORBELL_EVENT == 0 ==> registers.after_write(
            EVENT_STATUS_OFFSET,
            DOORBELL_EVENT,
        ) == registers,
{
    let status = registers.event_status;
    assert((status | 1) | 1 == status | 1 && (status | 1) & 1 == 1 && ((status | 1) & !1u32) & 1 == 0
        && (status & 1 == 0 ==> status & !1u32 == status)) by (bit_vector);
}

/// A write to the identity registers or the doorbell never changes what any
/// register reads.
pub proof fn law_identity_is_read_only(
    registers: IvshmemRegisters,
    offset: u64,
    value: u32,
)
    requires
        offset == ID_OFFSET || offset == MAXIMUM_PEERS_OFFSET || offset == DOORBELL_OFFSET,
    ensures
        registers.after_write(offset, value) == registers,
{
}

} // verus!
