//! OS-neutral AArch64 vCPU values: addresses, access widths, exit reasons, and
//! the frame that injects a data abort into a guest.

use crate::text;
use vstd::prelude::*;
use vstd::std_specs::convert::{FromSpecImpl, TryFromSpecImpl};
use vstd::string::StringExecFns;

verus! {

/// Result type returned by the AArch64 vCPU core.
pub type ArmVcpuResult<T = ()> = Result<T, ArmVcpuError>;

/// Errors produced by the AArch64 vCPU core.
#[derive(Clone, Copy, Debug, PartialEq, Eq, Structural)]
pub enum ArmVcpuError {
    /// A caller supplied an invalid argument or unsupported hardware encoding.
    InvalidInput,
    /// The requested operation is not supported by this CPU or this vCPU core.
    Unsupported,
    /// Hardware or software state is inconsistent with the requested
    /// transition.
    BadState,
}

/// Guest physical address.
#[derive(Clone, Copy, Debug, PartialEq, Eq, PartialOrd, Ord, Structural)]
pub struct ArmGuestPhysAddr(pub usize);

impl ArmGuestPhysAddr {
    /// Creates a guest physical address from a raw `usize`.
    pub fn from_usize(addr: usize) -> (address: Self)
        ensures
            address == ArmGuestPhysAddr(addr),
    {
        ArmGuestPhysAddr(addr)
    }

    /// Returns the raw address value.
    pub fn as_usize(self) -> (addr: usize)
        ensures
            addr == self.0,
    {
        self.0
    }

    /// Returns the address as written in diagnostics.
    pub fn to_text(self) -> (text: String)
        ensures
            text@ == "GPA("@ + text::hex_text(self.0 as nat) + ")"@,
    {
        let mut out = text::text_of("GPA(");
        text::push_hex(&mut out, self.0 as u64);
        out.append(")");
        out
    }
}

impl From<usize> for ArmGuestPhysAddr {
    fn from(value: usize) -> (address: Self) {
        ArmGuestPhysAddr::from_usize(value)
    }
}

impl FromSpecImpl<usize> for ArmGuestPhysAddr {
    open spec fn obeys_from_spec() -> bool {
        true
    }

    open spec fn from_spec(value: usize) -> Self {
        ArmGuestPhysAddr(value)
    }
}

impl From<ArmGuestPhysAddr> for usize {
    fn from(value: ArmGuestPhysAddr) -> (address: Self) {
        value.as_usize()
    }
}

impl FromSpecImpl<ArmGuestPhysAddr> for usize {
    open spec fn obeys_from_spec() -> bool {
        true
    }

    open spec fn from_spec(value: ArmGuestPhysAddr) -> Self {
        value.0
    }
}

/// AArch64 system-register address encoding used by trapped MRS/MSR exits.
#[derive(Clone, Copy, Debug, PartialEq, Eq, PartialOrd, Ord, Structural)]
pub struct ArmSysRegAddr(pub usize);

impl ArmSysRegAddr {
    /// Creates a system-register address from the ISS-derived encoding.
    pub fn new(addr: usize) -> (address: Self)
        ensures
            address == ArmSysRegAddr(addr),
    {
        ArmSysRegAddr(addr)
    }

    /// Returns the raw register address encoding.
    pub fn addr(self) -> (addr: usize)
        ensures
            addr == self.0,
    {
        self.0
    }

    /// Returns the address as written in diagnostics.
    pub fn to_text(self) -> (text: String)
        ensures
            text@ == "ArmSysRegAddr("@ + text::hex_text(self.0 as nat) + ")"@,
    {
        let mut out = text::text_of("ArmSysRegAddr(");
        text::push_hex(&mut out, self.0 as u64);
        out.append(")");
        out
    }
}

impl From<usize> for ArmSysRegAddr {
    fn from(value: usize) -> (address: Self) {
        ArmSysRegAddr::new(value)
    }
}

impl FromSpecImpl<usize> for ArmSysRegAddr {
    open spec fn obeys_from_spec() -> bool {
        true
    }

    open spec fn from_spec(value: usize) -> Self {
        ArmSysRegAddr(value)
    }
}

impl From<ArmSysRegAddr> for usize {
    fn from(value: ArmSysRegAddr) -> (address: Self) {
        value.addr()
    }
}

impl FromSpecImpl<ArmSysRegAddr> for usize {
    open spec fn obeys_from_spec() -> bool {
        true
    }

    open spec fn from_spec(value: ArmSysRegAddr) -> Self {
        value.0
    }
}

/// Width of a trapped guest memory access.
#[derive(Clone, Copy, Debug, PartialEq, Eq, PartialOrd, Ord, Structural)]
pub enum ArmAccessWidth {
    /// 8-bit access.
    Byte,
    /// 16-bit access.
    Word,
    /// 32-bit access.
    Dword,
    /// 64-bit access.
    Qword,
}

impl ArmAccessWidth {
    /// The access width in bytes.
    pub open spec fn bytes(self) -> usize {
        match self {
            ArmAccessWidth::Byte => 1,
            ArmAccessWidth::Word => 2,
            ArmAccessWidth::Dword => 4,
            ArmAccessWidth::Qword => 8,
        }
    }

    /// Returns this access width in bytes.
    pub fn size(self) -> (size: usize)
        ensures
            size == self.bytes(),
    {
        match self {
            ArmAccessWidth::Byte => 1,
            ArmAccessWidth::Word => 2,
            ArmAccessWidth::Dword => 4,
            ArmAccessWidth::Qword => 8,
        }
    }
}

impl TryFrom<usize> for ArmAccessWidth {
    type Error = ArmVcpuError;

    fn try_from(value: usize) -> (width: Result<Self, ArmVcpuError>) {
        match value {
            1 => Ok(ArmAccessWidth::Byte),
            2 => Ok(ArmAccessWidth::Word),
            4 => Ok(ArmAccessWidth::Dword),
            8 => Ok(ArmAccessWidth::Qword),
            _ => Err(ArmVcpuError::InvalidInput),
        }
    }
}

impl TryFromSpecImpl<usize> for ArmAccessWidth {
    open spec fn obeys_try_from_spec() -> bool {
        true
    }

    open spec fn try_from_spec(value: usize) -> Result<Self, ArmVcpuError> {
        width_of(value)
    }
}

/// The access width of a number of bytes.
pub open spec fn width_of(value: usize) -> Result<ArmAccessWidth, ArmVcpuError> {
    if value == 1 {
        Ok(ArmAccessWidth::Byte)
    } else if value == 2 {
        Ok(ArmAccessWidth::Word)
    } else if value == 4 {
        Ok(ArmAccessWidth::Dword)
    } else if value == 8 {
        Ok(ArmAccessWidth::Qword)
    } else {
        Err(ArmVcpuError::InvalidInput)
    }
}

impl From<ArmAccessWidth> for usize {
    fn from(value: ArmAccessWidth) -> (size: Self) {
        value.size()
    }
}

impl FromSpecImpl<ArmAccessWidth> for usize {
    open spec fn obeys_from_spec() -> bool {
        true
    }

    open spec fn from_spec(value: ArmAccessWidth) -> Self {
        value.bytes()
    }
}

// ---------------------------------------------------------------------------
// Abort injection
// ---------------------------------------------------------------------------

/// ESR exception class for a data abort from a lower exception level.
pub const ESR_EC_DATA_ABORT_LOWER: u64 = 0x24;

/// ESR exception class for a data abort from the current exception level.
pub const ESR_EC_DATA_ABORT_CURRENT: u64 = 0x25;

/// ESR instruction-length bit (always set for AArch64).
pub const ESR_IL: u64 = 0x200_0000;

/// ESR write-not-read bit.
pub const ESR_WNR: u64 = 0x40;

/// ESR fault status code for a synchronous external abort.
pub const ESR_FSC_EXTERNAL_ABORT: u64 = 0x10;

/// PSTATE mode field mask.
pub const SPSR_MODE_MASK: u64 = 0xf;

/// PSTATE mode value for EL0t.
pub const SPSR_MODE_EL0T: u64 = 0x0;

/// PSTATE mode value for EL1t.
pub const SPSR_MODE_EL1T: u64 = 0x4;

/// Vector offset for exceptions from a lower AArch64 exception level.
pub const VECTOR_OFFSET_LOWER_AARCH64: u64 = 0x400;

/// Vector offset for exceptions from the current level using SP_ELx.
pub const VECTOR_OFFSET_CURRENT_SPX: u64 = 0x200;

/// Vector offset for exceptions from the current level using SP_EL0.
pub const VECTOR_OFFSET_CURRENT_SP0: u64 = 0x000;

/// PSTATE for the injected vector entry: EL1h with D/A/I/F masked.
pub const PSTATE_EL1H_MASKED: u64 = 0x3c5;

/// Reconstructed register state for injecting a synchronous data abort into a
/// guest after the VMM refuses to service a stage-2 permission fault.
///
/// The frame redirects the next guest entry to the guest's own synchronous
/// exception vector with `ELR_EL1`/`SPSR_EL1` describing the faulting context,
/// so the guest handles the access exactly like a hardware-reported external
/// abort. `FAR_EL1` is zero because the guest virtual address cannot be
/// recovered; a zero FAR guarantees the guest kernel takes its bad-area path.
#[derive(Clone, Copy, Debug, PartialEq, Eq, Structural)]
pub struct ArmGuestAbortFrame {
    /// `ELR_EL1`: faulting guest PC reported to the guest handler.
    pub guest_pc: u64,
    /// `SPSR_EL1`: guest PSTATE reported to the guest handler.
    pub guest_spsr: u64,
    /// `ESR_EL1`: reconstructed syndrome (data abort, external-abort FSC).
    pub esr_el1: u32,
    /// `FAR_EL1`: always zero; see the type-level documentation.
    pub far_el1: u64,
    /// `ELR_EL2`: guest synchronous exception vector for the next entry.
    pub entry_pc: u64,
    /// `SPSR_EL2`: EL1h with all exceptions masked for the vector entry.
    pub entry_spsr: u64,
}

/// The exception class and the vector offset for an abort of this context.
pub open spec fn abort_target(source_spsr: u64) -> (int, int) {
    if source_spsr % 16 == SPSR_MODE_EL0T {
        (ESR_EC_DATA_ABORT_LOWER as int, VECTOR_OFFSET_LOWER_AARCH64 as int)
    } else if source_spsr % 16 == SPSR_MODE_EL1T {
        (ESR_EC_DATA_ABORT_CURRENT as int, VECTOR_OFFSET_CURRENT_SP0 as int)
    } else {
        (ESR_EC_DATA_ABORT_CURRENT as int, VECTOR_OFFSET_CURRENT_SPX as int)
    }
}

impl ArmGuestAbortFrame {
    /// Builds the injection frame for one denied guest access.
    ///
    /// `fault_pc` and `source_spsr` describe the faulting guest context;
    /// `vbar_el1` is the guest vector base.
    pub fn data_abort(fault_pc: u64, source_spsr: u64, vbar_el1: u64, is_write: bool) -> (frame:
        Self)
        requires
            vbar_el1 + abort_target(source_spsr).1 <= u64::MAX,
        ensures
            frame.guest_pc == fault_pc,
            frame.guest_spsr == source_spsr,
            frame.esr_el1 == abort_target(source_spsr).0 * 0x400_0000 + ESR_IL + (if is_write {
                ESR_WNR as int
            } else {
                0
            }) + ESR_FSC_EXTERNAL_ABORT,
            frame.far_el1 == 0,
            frame.entry_pc == vbar_el1 + abort_target(source_spsr).1,
            frame.entry_spsr == PSTATE_EL1H_MASKED,
    {
        proof {
            assert(source_spsr & 0xf == source_spsr % 16) by (bit_vector);
            assert((0x24u64 << 26u64) | 0x200_0000u64 | 0x10u64 == 0x9200_0010u64 && (0x25u64
                << 26u64) | 0x200_0000u64 | 0x10u64 == 0x9600_0010u64 && 0x9200_0010u64 | 0x40u64
                == 0x9200_0050u64 && 0x9600_0010u64 | 0x40u64 == 0x9600_0050u64) by (bit_vector);
        }
        let mode: u64 = source_spsr & SPSR_MODE_MASK;
        let (exception_class, vector_offset): (u64, u64) = if mode == SPSR_MODE_EL0T {
            (ESR_EC_DATA_ABORT_LOWER, VECTOR_OFFSET_LOWER_AARCH64)
        } else if mode == SPSR_MODE_EL1T {
            (ESR_EC_DATA_ABORT_CURRENT, VECTOR_OFFSET_CURRENT_SP0)
        } else {
            (ESR_EC_DATA_ABORT_CURRENT, VECTOR_OFFSET_CURRENT_SPX)
        };
        let mut esr: u64 = (exception_class << 26u64) | ESR_IL | ESR_FSC_EXTERNAL_ABORT;
        if is_write {
            esr = esr | ESR_WNR;
        }
        ArmGuestAbortFrame {
            guest_pc: fault_pc,
            guest_spsr: source_spsr,
            esr_el1: esr as u32,
            far_el1: 0,
            entry_pc: vbar_el1 + vector_offset,
            entry_spsr: PSTATE_EL1H_MASKED,
        }
    }
}

// ---------------------------------------------------------------------------
// Configuration and exits
// ---------------------------------------------------------------------------

/// Stage-2 page table configuration selected by the embedding VMM.
#[derive(Clone, Copy, Debug, PartialEq, Eq, Structural)]
pub struct ArmNestedPagingConfig {
    /// Root physical address of the stage-2 page table.
    pub root_paddr: usize,
    /// Number of stage-2 page-table levels.
    pub levels: usize,
    /// Guest physical address width in bits.
    pub gpa_bits: usize,
    /// Hardware-specific mode value; carries host PA bits when non-zero.
    pub mode: usize,
}

impl ArmNestedPagingConfig {
    /// Creates a nested paging configuration.
    pub fn new(root_paddr: usize, levels: usize, gpa_bits: usize, mode: usize) -> (config: Self)
        ensures
            config == (ArmNestedPagingConfig { root_paddr, levels, gpa_bits, mode }),
    {
        ArmNestedPagingConfig { root_paddr, levels, gpa_bits, mode }
    }
}

/// Common GICv3 CPU-interface register trapped by the vCPU core.
#[derive(Clone, Copy, Debug, PartialEq, Eq, Structural)]
pub enum ArmGicCpuInterfaceRegister {
    /// `ICC_CTLR_EL1`, the common CPU-interface control register.
    Control,
    /// `ICC_PMR_EL1`, the virtual priority-mask register.
    PriorityMask,
    /// `ICC_RPR_EL1`, the virtual running-priority register.
    RunningPriority,
}

/// VM-exit reason returned by the AArch64 vCPU core.
#[non_exhaustive]
#[derive(Debug)]
pub enum ArmVmExit {
    /// A guest instruction triggered a hypercall.
    Hypercall { nr: u64, args: [u64; 6] },
    /// The guest performed an MMIO read.
    MmioRead {
        addr: ArmGuestPhysAddr,
        width: ArmAccessWidth,
        reg: usize,
        reg_width: ArmAccessWidth,
        signed_ext: bool,
    },
    /// The guest performed an MMIO write.
    MmioWrite { addr: ArmGuestPhysAddr, width: ArmAccessWidth, data: u64 },
    /// The guest performed a system-register read.
    SysRegRead { addr: ArmSysRegAddr, reg: usize },
    /// The guest performed a system-register write.
    SysRegWrite { addr: ArmSysRegAddr, value: u64 },
    /// The guest read a trapped GICv3 common CPU-interface register.
    GicCpuInterfaceRead { register: ArmGicCpuInterfaceRegister, destination: usize },
    /// The guest wrote a trapped GICv3 common CPU-interface register.
    GicCpuInterfaceWrite { register: ArmGicCpuInterfaceRegister, value: u64 },
    /// The guest faulted on stage-2 permissions for a mapped address.
    NestedPageFault { addr: ArmGuestPhysAddr, is_write: bool },
    /// A physical host interrupt should be handled by the embedding VMM; the
    /// token is `None` for a spurious interrupt.
    ExternalInterrupt { token: Option<usize> },
    /// A guest WFI or WFE instruction was trapped.
    WaitForInterrupt,
    /// A guest PSCI CPU_OFF call was trapped.
    CpuDown { state: u64 },
    /// A guest PSCI CPU_ON call was trapped.
    CpuUp { target_cpu: u64, entry_point: ArmGuestPhysAddr, arg: u64 },
    /// The guest requested system power-off.
    SystemDown,
    /// The guest wrote a GIC SGI system register.
    SendIPI { value: u64 },
    /// The guest wrote `ICC_DIR_EL1` while deactivation trapping was enabled.
    DeactivateInterrupt { intid: u32 },
    /// The vCPU handled the event internally.
    Nothing,
}

/// The width of every size that converts has exactly that size, and the size of
/// every width converts back to it.
pub proof fn law_access_widths_round_trip(value: usize, width: ArmAccessWidth)
    ensures
        width_of(width.bytes()) == Ok::<_, ArmVcpuError>(width),
        width_of(value) matches Ok(width) ==> width.bytes() == value,
{
}

/// An injected abort always enters the guest at EL1h with everything masked,
/// reports no fault address, and names the vector group of the level that the
/// fault came from.
pub proof fn law_abort_vectors_follow_the_source_level(left: u64, right: u64)
    requires
        left % 16 == right % 16,
    ensures
        abort_target(left) == abort_target(right),
{
}

/// Exactly the sizes 1, 2, 4 and 8 convert, each to the width of its name.
pub proof fn law_access_widths_are_powers_of_two(value: usize)
    ensures
        width_of(value) is Ok <==> value == 1 || value == 2 || value == 4 || value == 8,
        width_of(value) is Err ==> width_of(value) == Err::<ArmAccessWidth, _>(
            ArmVcpuError::InvalidInput,
        ),
        ArmAccessWidth::Byte.bytes() == 1,
        2 * ArmAccessWidth::Byte.bytes() == ArmAccessWidth::Word.bytes(),
        2 * ArmAccessWidth::Word.bytes() == ArmAccessWidth::Dword.bytes(),
        2 * ArmAccessWidth::Dword.bytes() == ArmAccessWidth::Qword.bytes(),
{
}

/// An abort from EL0 (mode bits zero) has the exception class of a lower level and
/// the vector at 0x400; any other has the class of the current level, with the
/// vector at 0 in EL1t (mode bits four) and at 0x200 otherwise. The syndrome holds
/// the instruction length, the write bit and the status of an external abort.
pub proof fn law_abort_targets(source_spsr: u64)
    ensures
        abort_target(source_spsr).0 == 0x24 <==> source_spsr % 16 == 0,
        abort_target(source_spsr).0 == 0x25 <==> source_spsr % 16 != 0,
        abort_target(source_spsr).1 == 0x400 <==> source_spsr % 16 == 0,
        abort_target(source_spsr).1 == 0 <==> source_spsr % 16 == 4,
        abort_target(source_spsr).1 == 0x200 <==> source_spsr % 16 != 0 && source_spsr % 16 != 4,
        ESR_IL == 0x200_0000,
        ESR_WNR == 0x40,
        ESR_FSC_EXTERNAL_ABORT == 0x10,
        PSTATE_EL1H_MASKED == 0x3c5,
{
}

} // verus!
