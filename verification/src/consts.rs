//! Architectural constants of the GICv2 and of the virtual distributor.

use vstd::prelude::*;

verus! {

/// Number of software-generated interrupts (ids 0..16).
pub const GIC_SGIS_NUM: usize = 16;

/// Number of private peripheral interrupts (ids 16..32).
pub const GIC_PPIS_NUM: usize = 16;

/// Number of interrupts that are private to a CPU interface.
pub const GIC_PRIVINT_NUM: usize = GIC_SGIS_NUM + GIC_PPIS_NUM;

/// Number of interrupt ids the architecture defines.
pub const GIC_INTS_MAX: usize = 1024;

/// Number of shared peripheral interrupts.
pub const GIC_SPI_MAX: usize = GIC_INTS_MAX - GIC_PRIVINT_NUM;

/// Number of list registers the register block has room for.
pub const GIC_LIST_REGS_NUM: usize = 64;

/// The hypervisor control register's list-register-entry-not-present enable bit.
pub const GICH_HCR_LRENPIE_BIT: usize = 1 << 2;

/// Number of the 128-byte register group that holds the control register.
pub const VGICD_REG_OFFSET_PREFIX_CTLR: usize = 0x0;

/// Number of the register group of the set-enable registers.
pub const VGICD_REG_OFFSET_PREFIX_ISENABLER: usize = 0x2;

/// Number of the register group of the clear-enable registers.
pub const VGICD_REG_OFFSET_PREFIX_ICENABLER: usize = 0x3;

/// Number of the register group of the set-pending registers.
pub const VGICD_REG_OFFSET_PREFIX_ISPENDR: usize = 0x4;

/// Number of the register group of the clear-pending registers.
pub const VGICD_REG_OFFSET_PREFIX_ICPENDR: usize = 0x5;

/// Number of the register group of the set-active registers.
pub const VGICD_REG_OFFSET_PREFIX_ISACTIVER: usize = 0x6;

/// Number of the register group of the clear-active registers.
pub const VGICD_REG_OFFSET_PREFIX_ICACTIVER: usize = 0x7;

/// Number of the register group of the configuration registers.
pub const VGICD_REG_OFFSET_PREFIX_ICFGR: usize = 0x18;

/// Number of the register group of the software-generated-interrupt registers.
pub const VGICD_REG_OFFSET_PREFIX_SGIR: usize = 0x1e;

/// Width of one interrupt's field in the target registers.
pub const GIC_TARGET_BITS: usize = 8;

/// Number of CPU interfaces an interrupt can target.
pub const GIC_TARGETS_MAX: usize = GIC_TARGET_BITS;

/// Width of one interrupt's field in the priority registers.
pub const GIC_PRIO_BITS: usize = 8;

/// Width of one interrupt's field in the configuration registers.
pub const GIC_CONFIG_BITS: usize = 2;

/// Mask of a five-bit field of the type register.
pub const GICD_TYPER_CPUNUM_MSK: usize = 0b11111;

/// Position of the CPU-count field in the type register.
pub const GICD_TYPER_CPUNUM_OFF: usize = 5;

} // verus!
