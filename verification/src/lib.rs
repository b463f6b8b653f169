//! A virtual ARM generic interrupt controller: the per-interrupt state
//! machine, the list-register allocation engine and the maintenance handler,
//! stated over a register-level model of the hypervisor interface.

pub mod config;
pub mod consts;
pub mod effects;
pub mod gich;
pub mod init;
pub mod ipi;
pub mod irq;
pub mod laws;
pub mod lists;
pub mod lr;
pub mod lr_bits;
pub mod lr_proofs;
pub mod maintenance;
pub mod mutators;
pub mod occupancy;
pub mod reg_access;
pub mod spilled;
pub mod utils;
pub mod vcpu;
pub mod vgic;
pub mod vgic_state;
pub mod vint;
pub mod vint_private;
