//! Virtual device models: PCI, inter-VM shared memory and serial consoles.

pub mod aarch64_pci;
pub mod address_space;
pub mod arm_vcpu;
pub mod binding;
pub mod bits;
pub mod configured;
pub mod device;
pub mod irq;
pub mod ivshmem;
pub mod le;
pub mod pci;
pub mod serial;
pub mod smoke;
pub mod stage2;
pub mod text;
