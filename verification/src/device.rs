//! Plain values that device models exchange with their frontends.

use crate::text;
use vstd::prelude::*;

verus! {

/// Number of bytes that one 4 GiB address space spans.
pub const FOUR_GIB: u64 = 0x1_0000_0000;

/// Stage-2 page granularity.
pub const PAGE_SIZE: u64 = 0x1000;

/// Width of one device access.
#[derive(Clone, Copy, Debug, PartialEq, Eq, Structural)]
pub enum AccessWidth {
    /// 8 bits.
    Byte,
    /// 16 bits.
    Word,
    /// 32 bits.
    Dword,
    /// 64 bits.
    Qword,
}

impl AccessWidth {
    /// The access width in bytes.
    pub open spec fn bytes(self) -> nat {
        match self {
            AccessWidth::Byte => 1,
            AccessWidth::Word => 2,
            AccessWidth::Dword => 4,
            AccessWidth::Qword => 8,
        }
    }

    /// The name of the width in diagnostics.
    pub open spec fn name_text(self) -> Seq<char> {
        match self {
            AccessWidth::Byte => "Byte"@,
            AccessWidth::Word => "Word"@,
            AccessWidth::Dword => "Dword"@,
            AccessWidth::Qword => "Qword"@,
        }
    }

    /// Returns the access width in bytes.
    pub fn size(self) -> (size: usize)
        ensures
            size == self.bytes(),
    {
        match self {
            AccessWidth::Byte => 1,
            AccessWidth::Word => 2,
            AccessWidth::Dword => 4,
            AccessWidth::Qword => 8,
        }
    }

    /// Returns the name of the width in diagnostics.
    pub fn name(self) -> (name: &'static str)
        ensures
            name@ == self.name_text(),
    {
        match self {
            AccessWidth::Byte => "Byte",
            AccessWidth::Word => "Word",
            AccessWidth::Dword => "Dword",
            AccessWidth::Qword => "Qword",
        }
    }
}

/// The bus on which an access arrives.
#[derive(Clone, Copy, Debug, PartialEq, Eq, Structural)]
pub enum BusKind {
    /// Memory-mapped I/O.
    Mmio,
    /// Port I/O.
    Port,
    /// System registers.
    SysReg,
}

/// The vCPU that issues an access.
#[derive(Clone, Copy, Debug, PartialEq, Eq, Structural)]
pub struct DeviceVcpuId(pub usize);

impl DeviceVcpuId {
    /// Creates a vCPU identity.
    pub fn new(value: usize) -> (id: Self)
        ensures
            id == DeviceVcpuId(value),
    {
        DeviceVcpuId(value)
    }
}

/// One access of a vCPU to a bus address.
#[derive(Clone, Copy, Debug, PartialEq, Eq, Structural)]
pub struct DeviceAccess {
    pub source_vcpu: DeviceVcpuId,
    pub bus: BusKind,
    pub address: u64,
    pub width: AccessWidth,
}

impl DeviceAccess {
    /// Creates an access.
    pub fn new(source_vcpu: DeviceVcpuId, bus: BusKind, address: u64, width: AccessWidth) -> (access:
        Self)
        ensures
            access == (DeviceAccess { source_vcpu, bus, address, width }),
    {
        DeviceAccess { source_vcpu, bus, address, width }
    }
}

/// A request for a resource: any free one, or exactly one.
#[derive(Clone, Copy, Debug, PartialEq, Eq)]
pub enum ResourceRequest<T> {
    /// The planner chooses.
    Auto,
    /// The request names its resource.
    Fixed(T),
}

/// One resource that a device occupies.
#[derive(Clone, Copy, Debug, PartialEq, Eq, Structural)]
pub enum Resource {
    /// A range of guest-physical addresses.
    MmioRange { base: u64, size: u64 },
    /// A range of I/O ports.
    PortRange { base: u16, size: u16 },
}

/// Stable identity of one node of the device graph.
///
/// Identities are ordered by their characters.
#[derive(Debug, PartialEq, Eq, PartialOrd, Ord)]
pub struct DeviceNodeId {
    pub name: String,
}

impl View for DeviceNodeId {
    type V = Seq<char>;

    open spec fn view(&self) -> Seq<char> {
        self.name@
    }
}

impl Clone for DeviceNodeId {
    fn clone(&self) -> (copy: Self)
        ensures
            copy@ == self@,
    {
        DeviceNodeId { name: text::text_of(self.name.as_str()) }
    }
}

impl DeviceNodeId {
    /// Creates the identity with the given name.
    pub fn new(name: &str) -> (id: Self)
        ensures
            id@ == name@,
    {
        DeviceNodeId { name: text::text_of(name) }
    }

    /// Returns the name.
    pub fn as_str(&self) -> (name: &str)
        ensures
            name@ == self@,
    {
        self.name.as_str()
    }

    /// Returns a copy of the name.
    pub fn to_text(&self) -> (name: String)
        ensures
            name@ == self@,
    {
        text::text_of(self.name.as_str())
    }

    /// Compares two identities.
    pub fn same(&self, other: &DeviceNodeId) -> (same: bool)
        ensures
            same == (self@ == other@),
    {
        text::text_eq(self.name.as_str(), other.name.as_str())
    }

    /// Tells whether this identity comes before `other`.
    pub fn precedes(&self, other: &DeviceNodeId) -> (less: bool)
        ensures
            less == text::text_less(self@, other@),
    {
        text::text_precedes(self.name.as_str(), other.name.as_str())
    }
}

/// A device access or operation failed.
#[derive(Debug, PartialEq, Eq)]
pub enum DeviceError {
    /// The access itself is malformed.
    InvalidInput { operation: &'static str, detail: String },
    /// No device owns the address.
    OutOfRange { addr: u64 },
    /// The address is owned, but nothing answers there.
    NotFound,
    /// The device is not in a state to serve the operation.
    InvalidState { operation: &'static str, detail: String },
    /// The device does not serve the operation.
    Unsupported { operation: &'static str, detail: String },
    /// A service behind the device failed.
    Backend { operation: &'static str, detail: String },
    /// The access is well-formed, but its issuer may not perform it.
    AccessDenied { operation: &'static str, detail: String },
    /// A resource belongs to another device.
    ResourceBusy { resource: String, operation: &'static str },
}

/// The contents of a [`DeviceError`].
pub enum DeviceErrorView {
    InvalidInput { operation: Seq<char>, detail: Seq<char> },
    OutOfRange { addr: u64 },
    NotFound,
    InvalidState { operation: Seq<char>, detail: Seq<char> },
    Unsupported { operation: Seq<char>, detail: Seq<char> },
    Backend { operation: Seq<char>, detail: Seq<char> },
    AccessDenied { operation: Seq<char>, detail: Seq<char> },
    ResourceBusy { resource: Seq<char>, operation: Seq<char> },
}

impl View for DeviceError {
    type V = DeviceErrorView;

    open spec fn view(&self) -> DeviceErrorView {
        match *self {
            DeviceError::InvalidInput { operation, detail } => DeviceErrorView::InvalidInput {
                operation: operation@,
                detail: detail@,
            },
            DeviceError::OutOfRange { addr } => DeviceErrorView::OutOfRange { addr },
            DeviceError::NotFound => DeviceErrorView::NotFound,
            DeviceError::InvalidState { operation, detail } => DeviceErrorView::InvalidState {
                operation: operation@,
                detail: detail@,
            },
            DeviceError::Unsupported { operation, detail } => DeviceErrorView::Unsupported {
                operation: operation@,
                detail: detail@,
            },
            DeviceError::Backend { operation, detail } => DeviceErrorView::Backend {
                operation: operation@,
                detail: detail@,
            },
            DeviceError::AccessDenied { operation, detail } => DeviceErrorView::AccessDenied {
                operation: operation@,
                detail: detail@,
            },
            DeviceError::ResourceBusy { resource, operation } => DeviceErrorView::ResourceBusy {
                resource: resource@,
                operation: operation@,
            },
        }
    }
}

/// Result of a device access.
pub type DeviceResult<T = ()> = Result<T, DeviceError>;

/// Planning or building a device failed.
#[derive(Debug, PartialEq, Eq)]
pub enum DeviceManagerError {
    /// A declared value is malformed.
    InvalidInput { operation: &'static str, detail: String },
    /// The configuration cannot be realised.
    InvalidConfig { operation: &'static str, detail: String },
    /// The operation comes at the wrong time.
    InvalidState { operation: &'static str, detail: String },
    /// A device operation failed.
    Device(DeviceError),
}

/// The contents of a [`DeviceManagerError`].
pub enum DeviceManagerErrorView {
    InvalidInput { operation: Seq<char>, detail: Seq<char> },
    InvalidConfig { operation: Seq<char>, detail: Seq<char> },
    InvalidState { operation: Seq<char>, detail: Seq<char> },
    Device(DeviceErrorView),
}

impl View for DeviceManagerError {
    type V = DeviceManagerErrorView;

    open spec fn view(&self) -> DeviceManagerErrorView {
        match *self {
            DeviceManagerError::InvalidInput { operation, detail } => {
                DeviceManagerErrorView::InvalidInput { operation: operation@, detail: detail@ }
            },
            DeviceManagerError::InvalidConfig { operation, detail } => {
                DeviceManagerErrorView::InvalidConfig { operation: operation@, detail: detail@ }
            },
            DeviceManagerError::InvalidState { operation, detail } => {
                DeviceManagerErrorView::InvalidState { operation: operation@, detail: detail@ }
            },
            DeviceManagerError::Device(error) => DeviceManagerErrorView::Device(error@),
        }
    }
}

/// Result of planning or building a device.
pub type DeviceManagerResult<T = ()> = Result<T, DeviceManagerError>;

/// Access widths double from one byte to eight.
pub proof fn law_access_widths_double()
    ensures
        AccessWidth::Byte.bytes() == 1,
        AccessWidth::Word.bytes() == 2 * AccessWidth::Byte.bytes(),
        AccessWidth::Dword.bytes() == 2 * AccessWidth::Word.bytes(),
        AccessWidth::Qword.bytes() == 2 * AccessWidth::Dword.bytes(),
{
}

} // verus!
