//! A virtual interrupt and the rules by which virtual CPUs own it.

use vstd::prelude::*;
use crate::consts::{GIC_INTS_MAX, GIC_LIST_REGS_NUM, GIC_PRIVINT_NUM, GIC_SGIS_NUM};
use crate::gich::{lr_id, lr_state, lr_val_id, lr_val_state, GicHypervisorInterface, GichView};
use crate::irq::IrqState;
use crate::vcpu::Vcpu;

verus! {

/// The mutable part of a virtual interrupt.
#[derive(Clone, Copy, Debug, PartialEq, Eq)]
pub struct VgicIntInnerMut {
    /// The virtual CPU that may program list registers for the interrupt.
    pub owner: Option<Vcpu>,
    /// Whether the interrupt's state lives in a list register.
    pub in_lr: bool,
    /// Which list register; meaningful while `in_lr`.
    pub lr: u16,
    pub enabled: bool,
    pub state: IrqState,
    /// Lower numbers are more urgent.
    pub prio: u8,
    /// Bitmask of the virtual CPUs the interrupt targets.
    pub targets: u8,
    pub cfg: u8,
    /// Whether the interrupt is on a pending list.
    pub in_pend: bool,
    /// Whether the interrupt is on an active list.
    pub in_act: bool,
}

impl VgicIntInnerMut {
    /// The state of a shared interrupt that nobody has touched.
    pub fn new() -> (r: Self)
        ensures
            r == (VgicIntInnerMut {
                owner: None,
                in_lr: false,
                lr: 0,
                enabled: false,
                state: IrqState::IrqSInactive,
                prio: 0xff,
                targets: 0,
                cfg: 0,
                in_pend: false,
                in_act: false,
            }),
    {
        VgicIntInnerMut {
            owner: None,
            in_lr: false,
            lr: 0,
            enabled: false,
            state: IrqState::IrqSInactive,
            prio: 0xff,
            targets: 0,
            cfg: 0,
            in_pend: false,
            in_act: false,
        }
    }

    /// The state of a private interrupt of `owner` that nobody has touched.
    /// The targets are the low eight bits of `targets`.
    pub fn priv_new(owner: Vcpu, targets: usize, enabled: bool) -> (r: Self)
        ensures
            r == (VgicIntInnerMut {
                owner: Some(owner),
                in_lr: false,
                lr: 0,
                enabled,
                state: IrqState::IrqSInactive,
                prio: 0xff,
                targets: (targets & 0xff) as u8,
                cfg: 0,
                in_pend: false,
                in_act: false,
            }),
    {
        assert(targets & 0xff <= 0xff) by (bit_vector);
        VgicIntInnerMut {
            owner: Some(owner),
            in_lr: false,
            lr: 0,
            enabled,
            state: IrqState::IrqSInactive,
            prio: 0xff,
            targets: (targets & 0xff) as u8,
            cfg: 0,
            in_pend: false,
            in_act: false,
        }
    }
}

/// A virtual interrupt: its identity, whether it is backed by a physical
/// interrupt, and its mutable state.
#[derive(Clone, Copy, Debug, PartialEq, Eq)]
pub struct VgicInt {
    pub id: u16,
    pub hw: bool,
    pub inner: VgicIntInnerMut,
}

/// Whether interrupt `int_id` is private to a CPU interface.
pub open spec fn spec_gic_is_priv(int_id: usize) -> bool {
    int_id < GIC_PRIVINT_NUM
}

/// Tells whether interrupt `int_id` is private to a CPU interface.
#[verifier::when_used_as_spec(spec_gic_is_priv)]
pub fn gic_is_priv(int_id: usize) -> (r: bool)
    ensures
        r == spec_gic_is_priv(int_id),
{
    int_id < 32
}

impl VgicInt {
    /// The id is an interrupt id and the list register index is one of the bank.
    pub open spec fn wf(self) -> bool {
        &&& self.id < GIC_INTS_MAX
        &&& self.inner.lr < GIC_LIST_REGS_NUM
    }

    /// The list flags say what the state's bits say.
    pub open spec fn flags_agree(self) -> bool {
        &&& self.inner.in_pend == self.inner.state.pending()
        &&& self.inner.in_act == self.inner.state.active()
    }

    /// The interrupt with the owner replaced.
    pub open spec fn with_owner(self, owner: Option<Vcpu>) -> VgicInt {
        VgicInt { inner: VgicIntInnerMut { owner, ..self.inner }, ..self }
    }

    /// The interrupt with the in-a-list-register flag replaced.
    pub open spec fn with_in_lr(self, in_lr: bool) -> VgicInt {
        VgicInt { inner: VgicIntInnerMut { in_lr, ..self.inner }, ..self }
    }

    /// The interrupt with the index of its list register replaced.
    pub open spec fn with_lr(self, lr: u16) -> VgicInt {
        VgicInt { inner: VgicIntInnerMut { lr, ..self.inner }, ..self }
    }

    /// The interrupt with the enablement replaced.
    pub open spec fn with_enabled(self, enabled: bool) -> VgicInt {
        VgicInt { inner: VgicIntInnerMut { enabled, ..self.inner }, ..self }
    }

    /// The interrupt with the state replaced.
    pub open spec fn with_state(self, state: IrqState) -> VgicInt {
        VgicInt { inner: VgicIntInnerMut { state, ..self.inner }, ..self }
    }

    /// The interrupt with the priority replaced.
    pub open spec fn with_prio(self, prio: u8) -> VgicInt {
        VgicInt { inner: VgicIntInnerMut { prio, ..self.inner }, ..self }
    }

    /// The interrupt with the targets replaced.
    pub open spec fn with_targets(self, targets: u8) -> VgicInt {
        VgicInt { inner: VgicIntInnerMut { targets, ..self.inner }, ..self }
    }

    /// The interrupt with the configuration replaced.
    pub open spec fn with_cfg(self, cfg: u8) -> VgicInt {
        VgicInt { inner: VgicIntInnerMut { cfg, ..self.inner }, ..self }
    }

    /// The interrupt with the pending-list flag replaced.
    pub open spec fn with_in_pend(self, in_pend: bool) -> VgicInt {
        VgicInt { inner: VgicIntInnerMut { in_pend, ..self.inner }, ..self }
    }

    /// The interrupt with the active-list flag replaced.
    pub open spec fn with_in_act(self, in_act: bool) -> VgicInt {
        VgicInt { inner: VgicIntInnerMut { in_act, ..self.inner }, ..self }
    }

    /// The interrupt with the hardware backing replaced.
    pub open spec fn with_hw(self, hw: bool) -> VgicInt {
        VgicInt { hw, ..self }
    }

    /// The interrupt as it is once its state went into list register `lr`.
    pub open spec fn latched(self, lr: u16) -> VgicInt {
        VgicInt {
            inner: VgicIntInnerMut { state: IrqState::IrqSInactive, in_lr: true, lr, ..self.inner },
            ..self
        }
    }

    /// The physical core of the owner, if there is an owner.
    pub open spec fn spec_owner_phys_id(self) -> Option<usize> {
        match self.inner.owner {
            Some(o) => Some(o.phys_id),
            None => None,
        }
    }

    /// The virtual CPU index of the owner, if there is an owner.
    pub open spec fn spec_owner_id(self) -> Option<usize> {
        match self.inner.owner {
            Some(o) => Some(o.id),
            None => None,
        }
    }

    /// The shared interrupt with index `id` in the shared array, which has
    /// the interrupt id `id + 32`: inactive, disabled, without owner.
    pub fn new(id: usize) -> (r: Self)
        requires
            id < GIC_INTS_MAX - GIC_PRIVINT_NUM,
        ensures
            r.id == id + GIC_PRIVINT_NUM,
            !r.hw,
            r.inner.owner.is_none(),
            !r.inner.in_lr && r.inner.lr == 0,
            !r.inner.enabled,
            r.inner.state == IrqState::IrqSInactive,
            r.inner.prio == 0xff && r.inner.targets == 0 && r.inner.cfg == 0,
            !r.inner.in_pend && !r.inner.in_act,
            r.wf(),
            r.flags_agree(),
    {
        VgicInt { id: (id + GIC_PRIVINT_NUM) as u16, hw: false, inner: VgicIntInnerMut::new() }
    }

    /// The private interrupt `id` of `owner`: inactive, owned, with the given
    /// targets (their low eight bits) and enablement.
    pub fn priv_new(id: usize, owner: Vcpu, targets: usize, enabled: bool) -> (r: Self)
        requires
            id < GIC_PRIVINT_NUM,
        ensures
            r.id == id,
            !r.hw,
            r.inner.owner == Some(owner),
            !r.inner.in_lr && r.inner.lr == 0,
            r.inner.enabled == enabled,
            r.inner.state == IrqState::IrqSInactive,
            r.inner.prio == 0xff && r.inner.targets == (targets & 0xff) as u8 && r.inner.cfg == 0,
            !r.inner.in_pend && !r.inner.in_act,
            r.wf(),
            r.flags_agree(),
    {
        VgicInt { id: id as u16, hw: false, inner: VgicIntInnerMut::priv_new(owner, targets, enabled) }
    }

    /// Makes `owner` the owner.
    pub fn set_owner(&mut self, owner: Vcpu)
        ensures
            *final(self) == old(self).with_owner(Some(owner)),
    {
        self.inner.owner = Some(owner);
    }

    /// The owner, if there is one.
    pub fn owner(&self) -> (r: Option<Vcpu>)
        ensures
            r == self.inner.owner,
    {
        self.inner.owner
    }

    /// Whether the interrupt is flagged as on a pending list.
    pub fn in_pend(&self) -> (r: bool)
        ensures
            r == self.inner.in_pend,
    {
        self.inner.in_pend
    }

    /// Whether the interrupt is flagged as on an active list.
    pub fn in_act(&self) -> (r: bool)
        ensures
            r == self.inner.in_act,
    {
        self.inner.in_act
    }

    /// Sets the enablement.
    pub fn set_enabled(&mut self, enabled: bool)
        ensures
            *final(self) == old(self).with_enabled(enabled),
    {
        self.inner.enabled = enabled;
    }

    /// Sets the targets.
    pub fn set_targets(&mut self, targets: u8)
        ensures
            *final(self) == old(self).with_targets(targets),
    {
        self.inner.targets = targets;
    }

    /// Sets the priority.
    pub fn set_prio(&mut self, prio: u8)
        ensures
            *final(self) == old(self).with_prio(prio),
    {
        self.inner.prio = prio;
    }

    /// Sets whether the interrupt's state lives in a list register.
    pub fn set_in_lr(&mut self, in_lr: bool)
        ensures
            *final(self) == old(self).with_in_lr(in_lr),
    {
        self.inner.in_lr = in_lr;
    }

    /// Sets the state.
    pub fn set_state(&mut self, state: IrqState)
        ensures
            *final(self) == old(self).with_state(state),
    {
        self.inner.state = state;
    }

    /// Leaves the interrupt without owner.
    pub fn clear_owner(&mut self)
        ensures
            *final(self) == old(self).with_owner(None),
    {
        self.inner.owner = None;
    }

    /// Sets whether the interrupt is backed by a physical interrupt.
    pub fn set_hw(&mut self, hw: bool)
        ensures
            *final(self) == old(self).with_hw(hw),
    {
        self.hw = hw;
    }

    /// Sets the configuration.
    pub fn set_cfg(&mut self, cfg: u8)
        ensures
            *final(self) == old(self).with_cfg(cfg),
    {
        self.inner.cfg = cfg;
    }

    /// The index of the list register; meaningful while the interrupt is in one.
    pub fn lr(&self) -> (r: u16)
        ensures
            r == self.inner.lr,
    {
        self.inner.lr
    }

    /// Whether the interrupt's state lives in a list register.
    pub fn in_lr(&self) -> (r: bool)
        ensures
            r == self.inner.in_lr,
    {
        self.inner.in_lr
    }

    /// The interrupt id.
    #[inline]
    pub fn id(&self) -> (r: u16)
        ensures
            r == self.id,
    {
        self.id
    }

    /// Whether the interrupt is enabled.
    pub fn enabled(&self) -> (r: bool)
        ensures
            r == self.inner.enabled,
    {
        self.inner.enabled
    }

    /// The priority.
    pub fn prio(&self) -> (r: u8)
        ensures
            r == self.inner.prio,
    {
        self.inner.prio
    }

    /// The targets.
    pub fn targets(&self) -> (r: u8)
        ensures
            r == self.inner.targets,
    {
        self.inner.targets
    }

    /// Whether the interrupt is backed by a physical interrupt.
    #[inline]
    pub fn hw(&self) -> (r: bool)
        ensures
            r == self.hw,
    {
        self.hw
    }

    /// The state that software recorded.
    pub fn state(&self) -> (r: IrqState)
        ensures
            r == self.inner.state,
    {
        self.inner.state
    }

    /// The configuration.
    pub fn cfg(&self) -> (r: u8)
        ensures
            r == self.inner.cfg,
    {
        self.inner.cfg
    }

    /// The physical core of the owner, if there is an owner.
    pub fn owner_phys_id(&self) -> (r: Option<usize>)
        ensures
            r == self.spec_owner_phys_id(),
    {
        match self.inner.owner {
            Some(owner) => Some(owner.phys_id),
            None => None,
        }
    }

    /// The virtual CPU index of the owner, if there is an owner.
    pub fn owner_id(&self) -> (r: Option<usize>)
        ensures
            r == self.spec_owner_id(),
    {
        match self.inner.owner {
            Some(owner) => Some(owner.id),
            None => None,
        }
    }
}

/// Whether `vcpu` owns the interrupt: a private interrupt belongs to the
/// virtual CPU whose bank holds it; a shared one to the recorded owner, told
/// by virtual CPU index and physical core.
pub open spec fn vgic_owns(vcpu: Vcpu, interrupt: VgicInt) -> bool {
    spec_gic_is_priv(interrupt.id as usize) || (interrupt.inner.owner matches Some(o) && o.id == vcpu.id
        && o.phys_id == vcpu.phys_id)
}

/// Whether `vcpu` holds the interrupt after trying to claim it: an interrupt
/// without owner is claimed; one with an owner is held by the virtual CPU
/// with the owner's machine and index.
pub open spec fn claim_result(vcpu: Vcpu, interrupt: VgicInt) -> bool {
    match interrupt.inner.owner {
        Some(o) => o.vm_id == vcpu.vm_id && o.id == vcpu.id,
        None => true,
    }
}

/// The interrupt after `vcpu` tried to claim it.
pub open spec fn claimed(vcpu: Vcpu, interrupt: VgicInt) -> VgicInt {
    match interrupt.inner.owner {
        Some(o) => interrupt,
        None => interrupt.with_owner(Some(vcpu)),
    }
}

/// Whether `vcpu` gives the interrupt up when asked to: it owns it, the
/// interrupt is shared and in no list register, and its state has no active
/// bit.
pub open spec fn yields(vcpu: Vcpu, interrupt: VgicInt) -> bool {
    &&& vgic_owns(vcpu, interrupt)
    &&& !interrupt.inner.in_lr
    &&& !spec_gic_is_priv(interrupt.id as usize)
    &&& !interrupt.inner.state.active()
}

/// The interrupt after `vcpu` was asked to give it up.
pub open spec fn yielded(vcpu: Vcpu, interrupt: VgicInt) -> VgicInt {
    if yields(vcpu, interrupt) {
        interrupt.with_owner(None)
    } else {
        interrupt
    }
}

/// What the interrupt's list register holds for it, as seen from the core of
/// bank `g`: nothing unless the interrupt is in a list register of this core,
/// and that register still carries its id and a valid state.
pub open spec fn spec_gich_get_lr(g: GichView, interrupt: VgicInt) -> Option<u32> {
    if !interrupt.inner.in_lr || interrupt.spec_owner_phys_id() != Some(g.cpu_id) {
        None
    } else {
        let lr_val = g.lr[interrupt.inner.lr as int];
        if lr_id(lr_val) == interrupt.id as u32 && lr_state(lr_val) != 0 {
            Some(lr_val)
        } else {
            None
        }
    }
}

/// The state of the interrupt as a number: the state of its list register
/// where that register holds it, else the state that software recorded.
pub open spec fn spec_vgic_get_state(g: GichView, interrupt: VgicInt) -> usize {
    match spec_gich_get_lr(g, interrupt) {
        Some(lr_val) => lr_state(lr_val) as usize,
        None => interrupt.inner.state.spec_to_num(),
    }
}

/// Whether the interrupt is backed by a physical interrupt. Software-generated
/// interrupts never are.
pub open spec fn spec_vgic_int_is_hw(interrupt: VgicInt) -> bool {
    interrupt.id as usize >= GIC_SGIS_NUM && interrupt.hw
}

/// Tells whether `vcpu` owns the interrupt.
pub fn vgic_int_owns(vcpu: &Vcpu, interrupt: &VgicInt) -> (r: bool)
    ensures
        r == vgic_owns(*vcpu, *interrupt),
{
    if gic_is_priv(interrupt.id() as usize) {
        return true;
    }
    let vcpu_id = vcpu.id;
    let pcpu_id = vcpu.phys_id;
    match interrupt.owner() {
        Some(owner) => {
            let owner_vcpu_id = owner.id;
            let owner_pcpu_id = owner.phys_id;
            owner_vcpu_id == vcpu_id && owner_pcpu_id == pcpu_id
        },
        None => false,
    }
}

/// Releases the interrupt if `vcpu` owns it and it is idle enough: shared, in
/// no list register, and not active.
pub fn vgic_int_yield_owner(vcpu: &Vcpu, interrupt: &mut VgicInt)
    ensures
        *final(interrupt) == yielded(*vcpu, *old(interrupt)),
{
    if !vgic_int_owns(vcpu, interrupt) || interrupt.in_lr() || gic_is_priv(interrupt.id() as usize) {
        return;
    }
    if !interrupt.state().is_active() {
        interrupt.clear_owner();
    }
}

/// Claims the interrupt for `vcpu` if it has no owner, and tells whether
/// `vcpu` holds it afterwards.
pub fn vgic_int_get_owner(vcpu: &Vcpu, interrupt: &mut VgicInt) -> (r: bool)
    ensures
        r == claim_result(*vcpu, *old(interrupt)),
        *final(interrupt) == claimed(*vcpu, *old(interrupt)),
{
    let vcpu_id = vcpu.id;
    let vcpu_vm_id = vcpu.vm_id;
    match interrupt.owner() {
        Some(owner) => {
            let owner_vcpu_id = owner.id;
            let owner_vm_id = owner.vm_id;
            owner_vm_id == vcpu_vm_id && owner_vcpu_id == vcpu_id
        },
        None => {
            interrupt.set_owner(*vcpu);
            true
        },
    }
}

/// Reads the list register that holds the interrupt, where it still does.
pub fn gich_get_lr(gich: &GicHypervisorInterface, interrupt: &VgicInt) -> (r: Option<u32>)
    requires
        gich.wf(),
        interrupt.wf(),
    ensures
        r == spec_gich_get_lr(gich@, *interrupt),
{
    let cpu_id = gich.cpu_id;
    let on_this_core = match interrupt.owner_phys_id() {
        Some(phys_id) => phys_id == cpu_id,
        None => false,
    };
    if !interrupt.in_lr() || !on_this_core {
        return None;
    }
    let lr_val = gich.lr(interrupt.lr() as usize);
    if lr_val_id(lr_val) == interrupt.id() as u32 && lr_val_state(lr_val) != 0 {
        return Some(lr_val);
    }
    None
}

/// The state of the interrupt, refreshed from its list register where one
/// holds it.
pub fn vgic_get_state(gich: &GicHypervisorInterface, interrupt: &VgicInt) -> (r: usize)
    requires
        gich.wf(),
        interrupt.wf(),
    ensures
        r == spec_vgic_get_state(gich@, *interrupt),
        r <= 3,
{
    match gich_get_lr(gich, interrupt) {
        Some(lr_val) => lr_val_state(lr_val) as usize,
        None => interrupt.state().to_num(),
    }
}

/// Tells whether the interrupt is backed by a physical interrupt.
pub fn vgic_int_is_hw(interrupt: &VgicInt) -> (r: bool)
    ensures
        r == spec_vgic_int_is_hw(*interrupt),
{
    interrupt.id() as usize >= GIC_SGIS_NUM && interrupt.hw()
}

} // verus!
