//! Emulated MSI-X capability and table state of one PCI endpoint.
//!
//! The table is the single source of truth: the device keeps no shadow copy of
//! the message configuration.

use crate::device::{DeviceError, DeviceErrorView};
use crate::pci::error::{PciError, PciErrorView};
use crate::text;
use vstd::prelude::*;
use vstd::string::StringExecFns;

verus! {

/// Size of the MSI-X BAR: one 4 KiB page keeps table and PBA page-aligned.
pub const MSIX_BAR_SIZE: u64 = 0x1000;

/// BAR slot carrying the table/PBA window.
pub const MSIX_BAR_INDEX: u8 = 1;

/// Offset of the MSI-X table inside the BAR.
pub const MSIX_TABLE_OFFSET: u64 = 0x0000;

/// Offset of the MSI-X PBA inside the BAR.
pub const MSIX_PBA_OFFSET: u64 = 0x0800;

/// Table entry layout: address, upper address, data, vector control.
pub const MSIX_TABLE_ENTRY_SIZE: u64 = 16;

/// Message Control bit that enables MSI-X.
pub const MSIX_MESSAGE_CONTROL_ENABLE: u16 = 0x8000;

/// Message Control bit that masks the whole function.
pub const MSIX_MESSAGE_CONTROL_FUNCTION_MASK: u16 = 0x4000;

/// Largest number of vectors that one function can declare.
pub const MSIX_MAX_VECTORS: u16 = 2048;

/// One vector's guest-programmed table content.
#[derive(Clone, Copy, Debug, PartialEq, Eq, Structural)]
pub struct MsixTableEntry {
    pub message_address: u32,
    pub message_upper_address: u32,
    pub message_data: u32,
    pub vector_control: u32,
}

impl Default for MsixTableEntry {
    fn default() -> (entry: Self)
        ensures
            entry == MsixTableEntry::empty(),
    {
        MsixTableEntry::new()
    }
}

impl MsixTableEntry {
    /// The disabled, unmasked, empty entry.
    pub open spec fn empty() -> Self {
        MsixTableEntry {
            message_address: 0,
            message_upper_address: 0,
            message_data: 0,
            vector_control: 0,
        }
    }

    /// The entry's word at a byte offset.
    pub open spec fn word(self, offset: int) -> u32 {
        if offset == 0 {
            self.message_address
        } else if offset == 4 {
            self.message_upper_address
        } else if offset == 8 {
            self.message_data
        } else {
            self.vector_control
        }
    }

    /// The entry with one word replaced.
    pub open spec fn with_word(self, offset: int, value: u32) -> Self {
        if offset == 0 {
            MsixTableEntry { message_address: value, ..self }
        } else if offset == 4 {
            MsixTableEntry { message_upper_address: value, ..self }
        } else if offset == 8 {
            MsixTableEntry { message_data: value, ..self }
        } else {
            MsixTableEntry { vector_control: value, ..self }
        }
    }

    /// The per-vector mask bit is set.
    pub open spec fn is_masked(self) -> bool {
        self.vector_control & 1 != 0
    }

    /// Creates disabled, unmasked, empty entry state.
    pub fn new() -> (entry: Self)
        ensures
            entry == MsixTableEntry::empty(),
    {
        MsixTableEntry {
            message_address: 0,
            message_upper_address: 0,
            message_data: 0,
            vector_control: 0,
        }
    }

    /// Returns the low 32 bits of the message address.
    pub fn message_address(self) -> (value: u32)
        ensures
            value == self.message_address,
    {
        self.message_address
    }

    /// Returns the upper 32 bits of the message address.
    pub fn message_upper_address(self) -> (value: u32)
        ensures
            value == self.message_upper_address,
    {
        self.message_upper_address
    }

    /// Returns the message data value.
    pub fn message_data(self) -> (value: u32)
        ensures
            value == self.message_data,
    {
        self.message_data
    }

    /// Returns whether the per-vector mask bit (bit 0 of vector control) is
    /// set.
    pub fn masked(self) -> (masked: bool)
        ensures
            masked == self.is_masked(),
    {
        self.vector_control & 1 != 0
    }

    /// Returns the entry with `mask` applied to bit 0 of vector control.
    pub fn with_mask(self, mask: bool) -> (entry: Self)
        ensures
            entry.is_masked() == mask,
            entry.vector_control as int / 2 == self.vector_control as int / 2,
            entry == (MsixTableEntry { vector_control: entry.vector_control, ..self }),
    {
        let control: u32 = self.vector_control;
        proof {
            assert((control | 1) & 1 != 0 && (control | 1) / 2 == control / 2 && (control & !1u32)
                & 1 == 0 && (control & !1u32) / 2 == control / 2) by (bit_vector);
        }
        let vector_control: u32 = if mask {
            control | 1
        } else {
            control & !1u32
        };
        MsixTableEntry { vector_control, ..self }
    }
}

/// MSI-X capability of one function.
#[derive(Clone, Copy, Debug, PartialEq, Eq, Structural)]
pub struct PciMsixDeclaration {
    pub vectors: u16,
}

impl PciMsixDeclaration {
    /// The vector count fits the table size field.
    pub open spec fn wf(self) -> bool {
        1 <= self.vectors <= MSIX_MAX_VECTORS
    }

    /// Declares an MSI-X capability with `vectors` vectors, from one up to
    /// 2048.
    pub fn new(vectors: u16) -> (declaration: Result<Self, PciError>)
        ensures
            match declaration {
                Ok(declaration) => declaration.wf() && declaration.vectors == vectors,
                Err(error) => !(1 <= vectors <= 2048) && error@ == (PciErrorView::InvalidMsix {
                    detail: "MSI-X vector count "@ + text::dec_text(vectors as nat)
                        + " must be within 1..=2048"@,
                }),
            },
    {
        if vectors == 0 || vectors > MSIX_MAX_VECTORS {
            let mut detail = text::text_of("MSI-X vector count ");
            text::push_dec(&mut detail, vectors as u64);
            detail.append(" must be within 1..=2048");
            return Err(PciError::InvalidMsix { detail });
        }
        Ok(PciMsixDeclaration { vectors })
    }

    /// Returns the declared vector count.
    pub fn vectors(self) -> (vectors: u16)
        ensures
            vectors == self.vectors,
    {
        self.vectors
    }
}

/// Emulated MSI-X capability and BAR state of one endpoint with one vector.
#[derive(Clone, Copy, Debug, PartialEq, Eq, Structural)]
pub struct MsixState {
    pub message_control: u16,
    pub table: MsixTableEntry,
    pub pba: u32,
}

impl Default for MsixState {
    fn default() -> (state: Self)
        ensures
            state == MsixState::initial(),
    {
        MsixState::new()
    }
}

/// What is wrong with a dword access to the MSI-X BAR at `offset`, if
/// anything.
pub open spec fn msix_access_fault(operation: Seq<char>, offset: u64) -> Option<DeviceErrorView> {
    if offset % 4 != 0 {
        Some(
            DeviceErrorView::InvalidInput {
                operation,
                detail: "MSI-X BAR offset "@ + text::hex_text(offset as nat)
                    + " is not 4-byte aligned"@,
            },
        )
    } else if offset >= MSIX_BAR_SIZE {
        Some(DeviceErrorView::OutOfRange { addr: offset })
    } else {
        None
    }
}

fn misaligned(operation: &'static str, offset: u64) -> (error: DeviceError)
    ensures
        error@ == (DeviceErrorView::InvalidInput {
            operation: operation@,
            detail: "MSI-X BAR offset "@ + text::hex_text(offset as nat)
                + " is not 4-byte aligned"@,
        }),
{
    let mut detail = text::text_of("MSI-X BAR offset ");
    text::push_hex(&mut detail, offset);
    detail.append(" is not 4-byte aligned");
    DeviceError::InvalidInput { operation, detail }
}

impl MsixState {
    /// The disabled, unmasked, empty state.
    pub open spec fn initial() -> Self {
        MsixState { message_control: 0, table: MsixTableEntry::empty(), pba: 0 }
    }

    /// MSI-X is enabled.
    pub open spec fn is_enabled(self) -> bool {
        self.message_control & MSIX_MESSAGE_CONTROL_ENABLE != 0
    }

    /// The whole function is masked.
    pub open spec fn is_function_masked(self) -> bool {
        self.message_control & MSIX_MESSAGE_CONTROL_FUNCTION_MASK != 0
    }

    /// A message of `vector` cannot be sent now.
    pub open spec fn blocks(self, vector: u16) -> bool {
        !self.is_enabled() || self.is_function_masked() || vector != 0 || self.table.is_masked()
    }

    /// A message of `vector` waits to be sent.
    pub open spec fn is_pending(self, vector: u16) -> bool {
        vector == 0 && self.pba & 1 != 0
    }

    /// The dword that the guest reads at a valid BAR offset.
    pub open spec fn bar_word(self, offset: u64) -> u32 {
        if offset < MSIX_TABLE_ENTRY_SIZE {
            self.table.word(offset as int)
        } else if offset == MSIX_PBA_OFFSET {
            self.pba
        } else {
            0
        }
    }

    /// The state after the guest writes a dword at a valid BAR offset.
    pub open spec fn after_bar_write(self, offset: u64, value: u32) -> Self {
        if offset < MSIX_TABLE_ENTRY_SIZE {
            MsixState { table: self.table.with_word(offset as int, value), ..self }
        } else if offset == MSIX_PBA_OFFSET {
            MsixState { pba: self.pba & !value, ..self }
        } else {
            self
        }
    }

    /// Creates disabled, unmasked, empty state.
    pub fn new() -> (state: Self)
        ensures
            state == MsixState::initial(),
    {
        MsixState { message_control: 0, table: MsixTableEntry::new(), pba: 0 }
    }

    /// Reads the Message Control register.
    pub fn read_message_control(self) -> (value: u16)
        ensures
            value == self.message_control,
    {
        self.message_control
    }

    /// Writes the Message Control register; only Enable and Function Mask
    /// are writable.
    pub fn write_message_control(&mut self, value: u16)
        ensures
            *final(self) == (MsixState {
                message_control: (old(self).message_control & 0x3fff) | (value & 0xc000),
                ..*old(self)
            }),
    {
        let writable: u16 = MSIX_MESSAGE_CONTROL_ENABLE | MSIX_MESSAGE_CONTROL_FUNCTION_MASK;
        proof {
            assert(0x8000u16 | 0x4000u16 == 0xc000u16 && !0xc000u16 == 0x3fffu16) by (bit_vector);
        }
        self.message_control = (self.message_control & !writable) | (value & writable);
    }

    /// Returns whether MSI-X is enabled.
    pub fn enabled(self) -> (enabled: bool)
        ensures
            enabled == self.is_enabled(),
    {
        self.message_control & MSIX_MESSAGE_CONTROL_ENABLE != 0
    }

    /// Returns whether the function mask is set.
    pub fn function_masked(self) -> (masked: bool)
        ensures
            masked == self.is_function_masked(),
    {
        self.message_control & MSIX_MESSAGE_CONTROL_FUNCTION_MASK != 0
    }

    /// Reads one aligned dword of the MSI-X BAR; reserved bytes read zero.
    pub fn read_bar(&self, offset: u64) -> (word: Result<u32, DeviceError>)
        ensures
            match word {
                Ok(word) => msix_access_fault("read ivshmem MSI-X BAR"@, offset) is None && word
                    == self.bar_word(offset),
                Err(error) => msix_access_fault("read ivshmem MSI-X BAR"@, offset) == Some(error@),
            },
    {
        if offset % 4 != 0 {
            return Err(misaligned("read ivshmem MSI-X BAR", offset));
        }
        if offset < MSIX_TABLE_OFFSET + MSIX_TABLE_ENTRY_SIZE {
            let word: u64 = (offset - MSIX_TABLE_OFFSET) / 4;
            let value: u32 = match word {
                0 => self.table.message_address,
                1 => self.table.message_upper_address,
                2 => self.table.message_data,
                _ => self.table.vector_control,
            };
            return Ok(value);
        }
        if offset == MSIX_PBA_OFFSET {
            return Ok(self.pba);
        }
        if offset >= MSIX_BAR_SIZE {
            return Err(DeviceError::OutOfRange { addr: offset });
        }
        Ok(0)
    }

    /// Writes one aligned dword of the MSI-X BAR.
    ///
    /// Table writes update the entry; PBA writes are write-1-to-clear and
    /// report whether a pending bit was cleared, which is the caller's trigger
    /// to attempt a delivery. Reserved bytes ignore writes.
    pub fn write_bar(&mut self, offset: u64, value: u32) -> (cleared: Result<bool, DeviceError>)
        ensures
            match cleared {
                Ok(cleared) => {
                    &&& msix_access_fault("write ivshmem MSI-X BAR"@, offset) is None
                    &&& *final(self) == old(self).after_bar_write(offset, value)
                    &&& cleared == (offset == MSIX_PBA_OFFSET && old(self).pba & value != 0)
                },
                Err(error) => {
                    &&& msix_access_fault("write ivshmem MSI-X BAR"@, offset) == Some(error@)
                    &&& *final(self) == *old(self)
                },
            },
    {
        if offset % 4 != 0 {
            return Err(misaligned("write ivshmem MSI-X BAR", offset));
        }
        if offset < MSIX_TABLE_OFFSET + MSIX_TABLE_ENTRY_SIZE {
            let word: u64 = (offset - MSIX_TABLE_OFFSET) / 4;
            match word {
                0 => {
                    self.table.message_address = value;
                },
                1 => {
                    self.table.message_upper_address = value;
                },
                2 => {
                    self.table.message_data = value;
                },
                _ => {
                    self.table.vector_control = value;
                },
            }
            return Ok(false);
        }
        if offset == MSIX_PBA_OFFSET {
            let cleared = self.pba & value != 0;
            self.pba = self.pba & !value;
            return Ok(cleared);
        }
        if offset >= MSIX_BAR_SIZE {
            return Err(DeviceError::OutOfRange { addr: offset });
        }
        Ok(false)
    }

    /// Returns the current table entry of one vector, if the vector exists.
    pub fn table_entry(&self, vector: u16) -> (entry: Option<MsixTableEntry>)
        ensures
            entry == (if vector == 0 {
                Some(self.table)
            } else {
                None
            }),
    {
        if vector == 0 {
            Some(self.table)
        } else {
            None
        }
    }

    /// Returns whether `vector` is blocked from immediate delivery: MSI-X
    /// disabled, function masked, or the per-vector mask set.
    pub fn vector_blocked(&self, vector: u16) -> (blocked: bool)
        ensures
            blocked == self.blocks(vector),
    {
        if !self.enabled() || self.function_masked() {
            return true;
        }
        match self.table_entry(vector) {
            Some(entry) => entry.masked(),
            None => true,
        }
    }

    /// Sets the PBA bit of `vector`; returns true when it was previously
    /// clear.
    pub fn set_pending(&mut self, vector: u16) -> (was_clear: bool)
        ensures
            was_clear == (vector == 0 && !old(self).is_pending(0)),
            vector != 0 ==> *final(self) == *old(self),
            vector == 0 ==> final(self).is_pending(0) && *final(self) == (MsixState {
                pba: old(self).pba | 1,
                ..*old(self)
            }),
    {
        if vector != 0 {
            return false;
        }
        let was_clear = self.pba & 1 == 0;
        let pba: u32 = self.pba;
        proof {
            assert((pba | 1) & 1 != 0) by (bit_vector);
        }
        self.pba = pba | 1;
        was_clear
    }

    /// Returns the PBA bit of `vector`.
    pub fn pending(&self, vector: u16) -> (pending: bool)
        ensures
            pending == self.is_pending(vector),
    {
        if vector == 0 {
            self.pba & 1 != 0
        } else {
            false
        }
    }

    /// Clears Enable, function mask, table runtime state and PBA.
    pub fn reset(&mut self)
        ensures
            *final(self) == MsixState::initial(),
    {
        *self = MsixState::new();
    }
}

/// A table word reads back what was written to it, and a write to it leaves
/// every other word of the BAR alone.
pub proof fn law_table_words_round_trip(state: MsixState, offset: u64, value: u32, other: u64)
    requires
        msix_access_fault("write ivshmem MSI-X BAR"@, offset) is None,
        msix_access_fault("read ivshmem MSI-X BAR"@, other) is None,
        offset < MSIX_TABLE_ENTRY_SIZE,
    ensures
        state.after_bar_write(offset, value).bar_word(other) == if other == offset {
            value
        } else {
            state.bar_word(other)
        },
{
}

/// Writing one clears the pending bit, writing zero keeps it.
pub proof fn law_pending_is_write_one_to_clear(state: MsixState, value: u32)
    ensures
        state.after_bar_write(MSIX_PBA_OFFSET, value).is_pending(0) == (state.is_pending(0) && value
            & 1 == 0),
{
    let pba = state.pba;
    assert((pba & !value) & 1 != 0 <==> (pba & 1 != 0 && value & 1 == 0)) by (bit_vector);
}

} // verus!
