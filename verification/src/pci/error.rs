//! Structured virtual PCI construction failures.

use crate::device::AccessWidth;
use crate::pci::address::{PciBarIndex, PciBdf};
use crate::text;
use vstd::prelude::*;
use vstd::string::StringExecFns;

verus! {

/// Result returned by virtual PCI topology and configuration operations.
pub type PciResult<T = ()> = Result<T, PciError>;

/// A virtual PCI address, descriptor, or topology is invalid.
#[derive(Debug, PartialEq, Eq)]
pub enum PciError {
    /// One numeric PCI address component is outside its architectural range.
    InvalidAddress { component: &'static str, value: u64 },
    /// A Type-0 identity would be interpreted as an absent function.
    InvalidEndpointIdentity { detail: &'static str },
    /// A config-space access violates width, alignment, or range rules.
    InvalidConfigAccess { offset: u16, width: AccessWidth, detail: &'static str },
    /// A root-level config access violates size or boundary rules.
    InvalidDirectConfigAccess { offset: usize, size: usize, detail: &'static str },
    /// The ECAM window or the memory aperture is malformed.
    InvalidHostAperture { detail: &'static str },
    /// A graph-backed host was built before its topology was resolved.
    TopologyNotResolved,
    /// One graph-backed PCI bus attempted to publish a second topology.
    TopologyAlreadyResolved,
    /// A graph-backed bus attempted to publish a second live root complex.
    HostAlreadyRegistered,
    /// An endpoint was built before its host root complex was registered.
    HostUnavailable { function: String },
    /// A runtime binding names no function in the resolved topology.
    FunctionNotFound { function: String },
    /// A runtime function already has a live binding.
    FunctionAlreadyBound { function: String },
    /// The per-root binding generation cannot be advanced safely.
    BindingGenerationExhausted,
    /// One function identity was declared more than once.
    DuplicateFunction { function: String },
    /// Two functions request the same BDF.
    DuplicateBdf { bdf: PciBdf, first: String, second: String },
    /// A function requests a BDF that the platform holds back.
    BdfReserved { bdf: PciBdf, function: String },
    /// A non-zero function has no function zero at the same device.
    MissingFunctionZero { bdf: PciBdf },
    /// No device remains free in the supported segment and bus.
    BdfExhausted { function: String },
    /// A BAR descriptor is malformed or conflicts with another slot.
    InvalidBar { bar: PciBarIndex, detail: String },
    /// A fixed BAR overlaps an already resolved BAR.
    BarConflict { function: String, bar: PciBarIndex, start: u64, end: u64 },
    /// The PCI memory aperture cannot fit a BAR.
    BarApertureExhausted { function: String, bar: PciBarIndex, size: u64 },
    /// A standard capability descriptor or layout is malformed.
    InvalidCapability { id: u8, detail: String },
    /// An MSI-X declaration is malformed.
    InvalidMsix { detail: String },
}

/// The contents of a [`PciError`].
pub enum PciErrorView {
    InvalidAddress { component: Seq<char>, value: u64 },
    InvalidEndpointIdentity { detail: Seq<char> },
    InvalidConfigAccess { offset: u16, width: AccessWidth, detail: Seq<char> },
    InvalidDirectConfigAccess { offset: usize, size: usize, detail: Seq<char> },
    InvalidHostAperture { detail: Seq<char> },
    TopologyNotResolved,
    TopologyAlreadyResolved,
    HostAlreadyRegistered,
    HostUnavailable { function: Seq<char> },
    FunctionNotFound { function: Seq<char> },
    FunctionAlreadyBound { function: Seq<char> },
    BindingGenerationExhausted,
    DuplicateFunction { function: Seq<char> },
    DuplicateBdf { bdf: PciBdf, first: Seq<char>, second: Seq<char> },
    BdfReserved { bdf: PciBdf, function: Seq<char> },
    MissingFunctionZero { bdf: PciBdf },
    BdfExhausted { function: Seq<char> },
    InvalidBar { bar: PciBarIndex, detail: Seq<char> },
    BarConflict { function: Seq<char>, bar: PciBarIndex, start: u64, end: u64 },
    BarApertureExhausted { function: Seq<char>, bar: PciBarIndex, size: u64 },
    InvalidCapability { id: u8, detail: Seq<char> },
    InvalidMsix { detail: Seq<char> },
}

impl View for PciError {
    type V = PciErrorView;

    open spec fn view(&self) -> PciErrorView {
        match *self {
            PciError::InvalidAddress { component, value } => PciErrorView::InvalidAddress {
                component: component@,
                value,
            },
            PciError::InvalidEndpointIdentity { detail } => PciErrorView::InvalidEndpointIdentity {
                detail: detail@,
            },
            PciError::InvalidConfigAccess { offset, width, detail } => {
                PciErrorView::InvalidConfigAccess { offset, width, detail: detail@ }
            },
            PciError::InvalidDirectConfigAccess { offset, size, detail } => {
                PciErrorView::InvalidDirectConfigAccess { offset, size, detail: detail@ }
            },
            PciError::InvalidHostAperture { detail } => PciErrorView::InvalidHostAperture {
                detail: detail@,
            },
            PciError::TopologyNotResolved => PciErrorView::TopologyNotResolved,
            PciError::TopologyAlreadyResolved => PciErrorView::TopologyAlreadyResolved,
            PciError::HostAlreadyRegistered => PciErrorView::HostAlreadyRegistered,
            PciError::HostUnavailable { function } => PciErrorView::HostUnavailable {
                function: function@,
            },
            PciError::FunctionNotFound { function } => PciErrorView::FunctionNotFound {
                function: function@,
            },
            PciError::FunctionAlreadyBound { function } => PciErrorView::FunctionAlreadyBound {
                function: function@,
            },
            PciError::BindingGenerationExhausted => PciErrorView::BindingGenerationExhausted,
            PciError::DuplicateFunction { function } => PciErrorView::DuplicateFunction {
                function: function@,
            },
            PciError::DuplicateBdf { bdf, first, second } => PciErrorView::DuplicateBdf {
                bdf,
                first: first@,
                second: second@,
            },
            PciError::BdfReserved { bdf, function } => PciErrorView::BdfReserved {
                bdf,
                function: function@,
            },
            PciError::MissingFunctionZero { bdf } => PciErrorView::MissingFunctionZero { bdf },
            PciError::BdfExhausted { function } => PciErrorView::BdfExhausted {
                function: function@,
            },
            PciError::InvalidBar { bar, detail } => PciErrorView::InvalidBar {
                bar,
                detail: detail@,
            },
            PciError::BarConflict { function, bar, start, end } => PciErrorView::BarConflict {
                function: function@,
                bar,
                start,
                end,
            },
            PciError::BarApertureExhausted { function, bar, size } => {
                PciErrorView::BarApertureExhausted { function: function@, bar, size }
            },
            PciError::InvalidCapability { id, detail } => PciErrorView::InvalidCapability {
                id,
                detail: detail@,
            },
            PciError::InvalidMsix { detail } => PciErrorView::InvalidMsix { detail: detail@ },
        }
    }
}

impl PciErrorView {
    /// The diagnostic sentence of the error.
    pub open spec fn message(self) -> Seq<char> {
        match self {
            PciErrorView::InvalidAddress { component, value } => "PCI "@ + component + " value "@
                + text::hex_text(value as nat) + " is outside the supported range"@,
            PciErrorView::InvalidEndpointIdentity { detail } => "invalid PCI endpoint identity: "@
                + detail,
            PciErrorView::InvalidConfigAccess { offset, width, detail } => {
                "invalid PCI config access at "@ + text::hex_text(offset as nat) + " with width "@
                    + width.name_text() + ": "@ + detail
            },
            PciErrorView::InvalidDirectConfigAccess { offset, size, detail } => {
                "invalid PCI config access at "@ + text::hex_text(offset as nat) + " with size "@
                    + text::dec_text(size as nat) + ": "@ + detail
            },
            PciErrorView::InvalidHostAperture { detail } => "invalid PCI host aperture: "@ + detail,
            PciErrorView::TopologyNotResolved => {
                "PCI topology has not been resolved from the device graph"@
            },
            PciErrorView::TopologyAlreadyResolved => {
                "PCI topology is already resolved for this graph bus"@
            },
            PciErrorView::HostAlreadyRegistered => {
                "PCI root complex already has a live graph registration"@
            },
            PciErrorView::HostUnavailable { function } => {
                "PCI root complex is unavailable while binding function "@ + function
            },
            PciErrorView::FunctionNotFound { function } => "PCI function "@ + function
                + " is absent from the resolved topology"@,
            PciErrorView::FunctionAlreadyBound { function } => "PCI function "@ + function
                + " already has a runtime binding"@,
            PciErrorView::BindingGenerationExhausted => {
                "PCI function binding generation is exhausted"@
            },
            PciErrorView::DuplicateFunction { function } => "PCI function identity "@ + function
                + " is declared more than once"@,
            PciErrorView::DuplicateBdf { bdf, first, second } => "PCI BDF "@ + bdf.text()
                + " is requested by both "@ + first + " and "@ + second,
            PciErrorView::BdfReserved { bdf, function } => "PCI BDF "@ + bdf.text()
                + " requested by "@ + function + " is reserved"@,
            PciErrorView::MissingFunctionZero { bdf } => "PCI function "@ + bdf.text()
                + " has no function zero at the same device"@,
            PciErrorView::BdfExhausted { function } => "PCI bus 0000:00 has no free function for "@
                + function,
            PciErrorView::InvalidBar { bar, detail } => "invalid PCI BAR"@ + text::dec_text(bar.0 as nat)
                + ": "@ + detail,
            PciErrorView::BarConflict { function, bar, start, end } => "PCI BAR range ["@
                + text::hex_text(start as nat) + ", "@ + text::hex_text(end as nat) + ") for "@ + function
                + " BAR"@ + text::dec_text(bar.0 as nat) + " conflicts with another BAR"@,
            PciErrorView::BarApertureExhausted { function, bar, size } => {
                "PCI memory aperture cannot place "@ + function + " BAR"@ + text::dec_text(bar.0 as nat)
                    + " with size "@ + text::hex_text(size as nat)
            },
            PciErrorView::InvalidCapability { id, detail } => "invalid PCI capability "@ + text::hex_text(
                id as nat,
            ) + ": "@ + detail,
            PciErrorView::InvalidMsix { detail } => "invalid PCI MSI-X declaration: "@ + detail,
        }
    }
}

impl PciError {
    /// Returns the diagnostic sentence of the error.
    pub fn message(&self) -> (message: String)
        ensures
            message@ == self@.message(),
    {
        let mut out = String::new();
        match self {
            PciError::InvalidAddress { component, value } => {
                out.append("PCI ");
                out.append(component);
                out.append(" value ");
                text::push_hex(&mut out, *value);
                out.append(" is outside the supported range");
            },
            PciError::InvalidEndpointIdentity { detail } => {
                out.append("invalid PCI endpoint identity: ");
                out.append(detail);
            },
            PciError::InvalidConfigAccess { offset, width, detail } => {
                out.append("invalid PCI config access at ");
                text::push_hex(&mut out, *offset as u64);
                out.append(" with width ");
                out.append(width.name());
                out.append(": ");
                out.append(detail);
            },
            PciError::InvalidDirectConfigAccess { offset, size, detail } => {
                out.append("invalid PCI config access at ");
                text::push_hex(&mut out, *offset as u64);
                out.append(" with size ");
                text::push_dec(&mut out, *size as u64);
                out.append(": ");
                out.append(detail);
            },
            PciError::InvalidHostAperture { detail } => {
                out.append("invalid PCI host aperture: ");
                out.append(detail);
            },
            PciError::TopologyNotResolved => {
                out.append("PCI topology has not been resolved from the device graph");
            },
            PciError::TopologyAlreadyResolved => {
                out.append("PCI topology is already resolved for this graph bus");
            },
            PciError::HostAlreadyRegistered => {
                out.append("PCI root complex already has a live graph registration");
            },
            PciError::HostUnavailable { function } => {
                out.append("PCI root complex is unavailable while binding function ");
                out.append(function.as_str());
            },
            PciError::FunctionNotFound { function } => {
                out.append("PCI function ");
                out.append(function.as_str());
                out.append(" is absent from the resolved topology");
            },
            PciError::FunctionAlreadyBound { function } => {
                out.append("PCI function ");
                out.append(function.as_str());
                out.append(" already has a runtime binding");
            },
            PciError::BindingGenerationExhausted => {
                out.append("PCI function binding generation is exhausted");
            },
            PciError::DuplicateFunction { function } => {
                out.append("PCI function identity ");
                out.append(function.as_str());
                out.append(" is declared more than once");
            },
            PciError::DuplicateBdf { bdf, first, second } => {
                out.append("PCI BDF ");
                bdf.push_text(&mut out);
                out.append(" is requested by both ");
                out.append(first.as_str());
                out.append(" and ");
                out.append(second.as_str());
            },
            PciError::BdfReserved { bdf, function } => {
                out.append("PCI BDF ");
                bdf.push_text(&mut out);
                out.append(" requested by ");
                out.append(function.as_str());
                out.append(" is reserved");
            },
            PciError::MissingFunctionZero { bdf } => {
                out.append("PCI function ");
                bdf.push_text(&mut out);
                out.append(" has no function zero at the same device");
            },
            PciError::BdfExhausted { function } => {
                out.append("PCI bus 0000:00 has no free function for ");
                out.append(function.as_str());
            },
            PciError::InvalidBar { bar, detail } => {
                out.append("invalid PCI BAR");
                text::push_dec(&mut out, bar.0 as u64);
                out.append(": ");
                out.append(detail.as_str());
            },
            PciError::BarConflict { function, bar, start, end } => {
                out.append("PCI BAR range [");
                text::push_hex(&mut out, *start);
                out.append(", ");
                text::push_hex(&mut out, *end);
                out.append(") for ");
                out.append(function.as_str());
                out.append(" BAR");
                text::push_dec(&mut out, bar.0 as u64);
                out.append(" conflicts with another BAR");
            },
            PciError::BarApertureExhausted { function, bar, size } => {
                out.append("PCI memory aperture cannot place ");
                out.append(function.as_str());
                out.append(" BAR");
                text::push_dec(&mut out, bar.0 as u64);
                out.append(" with size ");
                text::push_hex(&mut out, *size);
            },
            PciError::InvalidCapability { id, detail } => {
                out.append("invalid PCI capability ");
                text::push_hex(&mut out, *id as u64);
                out.append(": ");
                out.append(detail.as_str());
            },
            PciError::InvalidMsix { detail } => {
                out.append("invalid PCI MSI-X declaration: ");
                out.append(detail.as_str());
            },
        }
        assert(out@ =~= self@.message());
        out
    }
}

} // verus!
