//! Configuration of the virtual interrupt controller, fixed at start-up.

use vstd::prelude::*;

verus! {

/// What the engine needs to know of the machine: the number of list
/// registers, the maintenance interrupt, the number of virtual CPUs a
/// controller may serve, and the type and identification words of the
/// physical distributor.
#[derive(Clone, Copy, Debug, PartialEq, Eq, Structural)]
pub struct VgicGlobal {
    pub nr_lr: u32,
    pub mainten_irq: u32,
    pub max_gic_vcpus: u32,
    pub typer: u32,
    pub iidr: u32,
}

impl VgicGlobal {
    /// The content of the configuration slot once `vgg` is installed in it.
    pub fn new(vgg: VgicGlobal) -> (slot: Option<VgicGlobal>)
        ensures
            slot == Some(vgg),
    {
        Some(vgg)
    }
}

} // verus!
