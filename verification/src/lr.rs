//! The list-register engine: how the state of a virtual interrupt moves into
//! a list register and back, which register is taken, and which occupant has
//! to make room.

use vstd::prelude::*;
use crate::consts::{GIC_INTS_MAX, GIC_LIST_REGS_NUM, GIC_SGIS_NUM, GIC_TARGETS_MAX};
use crate::effects::Effect;
use crate::gich::{
    lr_cpuid,
    lr_id,
    lr_prio,
    lr_state,
    lr_val_cpuid,
    lr_val_id,
    lr_val_prio,
    lr_val_state,
    GicHypervisorInterface,
    GichView,
};
use crate::ipi::{InitcEvent, IpiInitcMessage};
use crate::irq::IrqState;
use crate::lr_proofs::{lemma_add_lr, lemma_remove_lr, lemma_set_lr, lemma_write_lr};
use crate::occupancy::{lemma_add_lr_occ, lemma_remove_lr_occ, lemma_write_lr_occ, lemma_yielded_occ, occ_inv};
use crate::utils::{bitmap_find_nth, first_set_bit, lemma_first_set_bit};
use crate::vcpu::Vcpu;
use crate::vgic::{sys_of, Sys, Vgic, VgicView};
use crate::vint::{
    gic_is_priv,
    gich_get_lr,
    spec_gic_is_priv,
    spec_gich_get_lr,
    spec_vgic_get_state,
    spec_vgic_int_is_hw,
    vgic_get_state,
    vgic_int_is_hw,
    vgic_int_owns,
    vgic_int_yield_owner,
    vgic_owns,
    yielded,
    VgicInt,
};
use crate::vint_private::Sgis;

verus! {

/// The control word with the no-pending maintenance interrupt (bit 3) enabled.
pub open spec fn hcr_with_npie(hcr: u32) -> u32 {
    hcr | (1u32 << 3)
}

/// Whether a state number has the pending bit.
pub open spec fn num_pending(state: usize) -> bool {
    state == 1 || state == 3
}

/// Whether a state number has the active bit.
pub open spec fn num_active(state: usize) -> bool {
    state == 2 || state == 3
}

/// The highest source CPU at or below `idx` whose bit is set in `pend`.
pub open spec fn highest_source_from(pend: u8, idx: int) -> Option<u8>
    decreases idx + 1,
{
    if idx < 0 {
        None
    } else if pend & (1u8 << (idx as u8)) != 0 {
        Some(idx as u8)
    } else {
        highest_source_from(pend, idx - 1)
    }
}

/// The highest source CPU whose bit is set in `pend`.
pub open spec fn highest_source(pend: u8) -> Option<u8> {
    highest_source_from(pend, 7)
}

/// The part of a list register value that every interrupt has: its id in
/// bits 0..10 and the top five bits of its priority in bits 23..28.
pub open spec fn lr_base(int_id: u32, prio: u8) -> u32 {
    (int_id & 0b1111111111) | ((((prio as u32) >> 3) & 0b11111) << 23)
}

/// The list register value of a hardware-backed interrupt: the hardware bit,
/// the physical id in bits 10..20, and the state, where pending-and-active
/// goes in as active.
pub open spec fn lr_val_hw(int_id: u32, prio: u8, state: usize) -> u32 {
    lr_base(int_id, prio) | (1u32 << 31) | ((0b1111111111 & int_id) << 10) | ((if state == 3 {
        2u32
    } else {
        state as u32
    }) << 28)
}

/// The source that an active software-generated interrupt with the active
/// sources `act` shows: the highest of them, or source 0 where none is
/// recorded.
pub open spec fn active_source(act: u8) -> u8 {
    match highest_source(act) {
        Some(idx) => idx,
        None => 0,
    }
}

/// The list register value of an active software-generated interrupt: its
/// active source in bits 10..13, the state active, and the maintenance bit
/// where sources are pending.
pub open spec fn lr_val_sgi_act(int_id: u32, prio: u8, sgis: Sgis) -> u32 {
    let lr = lr_base(int_id, prio) | (((active_source(sgis.act) as u32) & 0b111) << 10) | (2u32 << 28);
    if sgis.pend != 0 {
        lr | (1u32 << 19)
    } else {
        lr
    }
}

/// The pending sources of a software-generated interrupt that stay behind
/// when its highest pending source goes into a list register.
pub open spec fn sgi_pend_rest(pend: u8) -> u8 {
    match highest_source(pend) {
        Some(idx) => pend & !(1u8 << idx),
        None => pend,
    }
}

/// The list register value of a software-generated interrupt that is not
/// active: its highest pending source in bits 10..13 with the state pending,
/// or no state where no source is pending; and the maintenance bit where
/// other sources stay behind.
pub open spec fn lr_val_sgi_pend(int_id: u32, prio: u8, pend: u8) -> u32 {
    let lr = match highest_source(pend) {
        Some(idx) => lr_base(int_id, prio) | (((idx as u32) & 0b111) << 10) | (1u32 << 28),
        None => lr_base(int_id, prio),
    };
    if sgi_pend_rest(pend) != 0 {
        lr | (1u32 << 19)
    } else {
        lr
    }
}

/// The list register value of any other interrupt: its state, and the
/// maintenance bit where it is shared.
pub open spec fn lr_val_other(int_id: u32, prio: u8, state: usize) -> u32 {
    (if !spec_gic_is_priv(int_id as usize) {
        lr_base(int_id, prio) | (1u32 << 19)
    } else {
        lr_base(int_id, prio)
    }) | ((state as u32) << 28)
}

/// What a pass over the list registers finds: how many hold an active and how
/// many a pending interrupt, and of each kind the first register with the
/// largest priority value.
pub struct LrScan {
    pub pend_found: nat,
    pub act_found: nat,
    pub min_prio_act: u32,
    pub min_prio_pend: u32,
    pub act_ind: Option<usize>,
    pub pend_ind: Option<usize>,
}

impl LrScan {
    /// The scan before any register was looked at.
    pub open spec fn start() -> LrScan {
        LrScan { pend_found: 0, act_found: 0, min_prio_act: 0, min_prio_pend: 0, act_ind: None, pend_ind: None }
    }

    /// The scan after list register `i`, which holds `lr`, was looked at. A
    /// register with the active bit counts as active, else one with the
    /// pending bit as pending.
    pub open spec fn step(self, i: usize, lr: u32) -> LrScan {
        let prio = lr_prio(lr);
        let state = lr_state(lr);
        if state == 2 || state == 3 {
            if self.act_ind.is_none() || prio > self.min_prio_act {
                LrScan { min_prio_act: prio, act_ind: Some(i), act_found: self.act_found + 1, ..self }
            } else {
                LrScan { act_found: self.act_found + 1, ..self }
            }
        } else if state == 1 {
            if self.pend_ind.is_none() || prio > self.min_prio_pend {
                LrScan { min_prio_pend: prio, pend_ind: Some(i), pend_found: self.pend_found + 1, ..self }
            } else {
                LrScan { pend_found: self.pend_found + 1, ..self }
            }
        } else {
            self
        }
    }

    /// The register to evict: the least urgent of the active ones if more
    /// than one is active, else the least urgent of the pending ones if more
    /// than one is pending.
    pub open spec fn victim(self) -> Option<usize> {
        if self.act_found > 1 {
            self.act_ind
        } else if self.pend_found > 1 {
            self.pend_ind
        } else {
            None
        }
    }
}

/// The scan of the list registers `0..n`.
pub open spec fn scan_lrs(lr: Seq<u32>, n: int) -> LrScan
    decreases n,
{
    if n <= 0 {
        LrScan::start()
    } else {
        scan_lrs(lr, n - 1).step((n - 1) as usize, lr[n - 1])
    }
}

/// The list register that has to make room when none is empty.
pub open spec fn victim_lr(g: GichView) -> Option<usize> {
    scan_lrs(g.lr, g.lrs as int).victim()
}

/// The sources of a software-generated interrupt after a list register
/// value with state `state` and source `cpuid` was taken back: an active
/// state adds the source to the active sources, else a pending state adds it
/// to the pending sources.
pub open spec fn fold_source(sgis: Sgis, state: IrqState, cpuid: u32) -> Sgis {
    if state.active() {
        Sgis { act: sgis.act | (1u8 << (cpuid as u8)), ..sgis }
    } else if state.pending() {
        Sgis { pend: sgis.pend | (1u8 << (cpuid as u8)), ..sgis }
    } else {
        sgis
    }
}

/// Taking interrupt `int_id` out of its list register, on behalf of `vcpu`:
/// the controller and the bank afterwards, and whether a valid state came
/// back.
///
/// Nothing happens unless `vcpu` owns the interrupt and it is in a list
/// register. The register is cleared if it still holds the interrupt with a
/// valid state. That state becomes the interrupt's state, the source of a
/// software-generated interrupt is folded back, the lists follow, and the
/// no-pending maintenance interrupt is enabled where the interrupt is
/// pending and enabled.
#[verifier::opaque]
pub open spec fn remove_lr(v: VgicView, g: GichView, vcpu: Vcpu, int_id: int) -> (VgicView, GichView, bool) {
    let i = v.irq(vcpu.id as int, int_id);
    if !vgic_owns(vcpu, i) || !i.inner.in_lr {
        (v, g, false)
    } else {
        match spec_gich_get_lr(g, i) {
            Some(lr_val) => {
                let g1 = g.set_lr(i.inner.lr as int, 0);
                let state = IrqState::spec_num_to_state(lr_state(lr_val) as usize);
                let v1 = v.set_int(vcpu.id as int, i.with_in_lr(false).with_state(state));
                let v2 = if int_id < GIC_SGIS_NUM {
                    v1.set_sgis(
                        vcpu.id as int,
                        int_id,
                        fold_source(v1.cpus[vcpu.id as int].sgis[int_id], state, lr_cpuid(lr_val)),
                    )
                } else {
                    v1
                };
                let v3 = v2.update_int_list(vcpu.id as int, int_id);
                let g2 = if state.pending() && i.inner.enabled {
                    g1.set_hcr(hcr_with_npie(g1.hcr))
                } else {
                    g1
                };
                (v3, g2, true)
            },
            None => (v.set_int(vcpu.id as int, i.with_in_lr(false)), g, false),
        }
    }
}

/// The controller after the occupant that list register `lr_ind` of `vcpu`
/// is recorded to have, if it is another interrupt than `int_id` and still in
/// that register under `vcpu`, was marked as out of it and, where shared,
/// given up.
#[verifier::opaque]
pub open spec fn release_prev(v: VgicView, vcpu: Vcpu, int_id: int, lr_ind: int) -> VgicView {
    let prev_id = v.cpus[vcpu.id as int].curr_lrs[lr_ind] as int;
    if prev_id != int_id && prev_id < GIC_INTS_MAX {
        let p = v.irq(vcpu.id as int, prev_id);
        if vgic_owns(vcpu, p) && p.inner.in_lr && p.inner.lr == lr_ind as u16 {
            let freed = p.with_in_lr(false);
            v.set_int(
                vcpu.id as int,
                if !spec_gic_is_priv(prev_id as usize) {
                    yielded(vcpu, freed)
                } else {
                    freed
                },
            )
        } else {
            v
        }
    } else {
        v
    }
}

impl Sys {
    /// The interrupt `int_id` as `vcpu` sees it.
    pub open spec fn irq(self, vcpu: Vcpu, int_id: int) -> VgicInt {
        self.vgic.irq(vcpu.id as int, int_id)
    }

    /// The system with `interrupt` stored at its id.
    pub open spec fn set_int(self, vcpu: Vcpu, interrupt: VgicInt) -> Sys {
        self.with_vgic(self.vgic.set_int(vcpu.id as int, interrupt))
    }

    /// The system after `vcpu` was asked to give interrupt `int_id` up.
    pub open spec fn yield_owner(self, vcpu: Vcpu, int_id: int) -> Sys {
        self.set_int(vcpu, yielded(vcpu, self.irq(vcpu, int_id)))
    }

    /// The system after the lists of `vcpu` followed the state of `int_id`.
    pub open spec fn update_int_list(self, vcpu: Vcpu, int_id: int) -> Sys {
        self.with_vgic(self.vgic.update_int_list(vcpu.id as int, int_id))
    }

    /// The system with the no-pending maintenance interrupt enabled.
    pub open spec fn enable_npie(self) -> Sys {
        self.with_gich(self.gich.set_hcr(hcr_with_npie(self.gich.hcr)))
    }

    /// The system after interrupt `int_id` was taken out of its list register.
    pub open spec fn remove_lr(self, vcpu: Vcpu, int_id: int) -> Sys {
        let r = remove_lr(self.vgic, self.gich, vcpu, int_id);
        Sys { vgic: r.0, gich: r.1, ..self }
    }

    /// The system after the occupant that list register `lr_ind` is recorded
    /// to have, if it is another interrupt than `int_id` and still in that
    /// register under `vcpu`, was marked as out of it and, where shared,
    /// given up.
    pub open spec fn release_prev(self, vcpu: Vcpu, int_id: int, lr_ind: int) -> Sys {
        self.with_vgic(release_prev(self.vgic, vcpu, int_id, lr_ind))
    }

    /// The system after interrupt `int_id` went into list register `lr_ind`
    /// with the value `lr`: its state now lives in the register, the occupant
    /// is recorded, the register is written, and the lists follow.
    #[verifier::opaque]
    pub open spec fn latch(self, vcpu: Vcpu, int_id: int, lr_ind: int, lr: u32) -> Sys {
        let s3 = self.set_int(vcpu, self.irq(vcpu, int_id).latched(lr_ind as u16));
        let s4 = s3.with_vgic(s3.vgic.set_curr_lr(vcpu.id as int, lr_ind, int_id as u16));
        let s5 = s4.with_gich(s4.gich.set_lr(lr_ind, lr));
        s5.update_int_list(vcpu, int_id)
    }

    /// The value that goes into a list register for interrupt `int_id`.
    #[verifier::opaque]
    pub open spec fn lr_value(self, vcpu: Vcpu, int_id: int) -> u32 {
        let i = self.irq(vcpu, int_id);
        let state = spec_vgic_get_state(self.gich, i);
        if spec_vgic_int_is_hw(i) {
            lr_val_hw(int_id as u32, i.inner.prio, state)
        } else if int_id < GIC_SGIS_NUM {
            let sgis = self.vgic.cpus[vcpu.id as int].sgis[int_id];
            if num_active(state) {
                lr_val_sgi_act(int_id as u32, i.inner.prio, sgis)
            } else {
                lr_val_sgi_pend(int_id as u32, i.inner.prio, sgis.pend)
            }
        } else {
            lr_val_other(int_id as u32, i.inner.prio, state)
        }
    }

    /// The system after the side effects of composing the list register
    /// value for `int_id`: a hardware-backed interrupt is made active in the
    /// physical distributor; a software-generated interrupt that is not
    /// active gives its highest pending source to the register.
    #[verifier::opaque]
    pub open spec fn lr_value_effects(self, vcpu: Vcpu, int_id: int) -> Sys {
        let i = self.irq(vcpu, int_id);
        let state = spec_vgic_get_state(self.gich, i);
        if spec_vgic_int_is_hw(i) {
            self.emit(Effect::GicdEnsureState { int_id: int_id as usize, state: 2 })
        } else if int_id < GIC_SGIS_NUM && !num_active(state) {
            let sgis = self.vgic.cpus[vcpu.id as int].sgis[int_id];
            self.with_vgic(
                self.vgic.set_sgis(vcpu.id as int, int_id, Sgis { pend: sgi_pend_rest(sgis.pend), ..sgis }),
            )
        } else {
            self
        }
    }

    /// The system after interrupt `int_id` was written into list register
    /// `lr_ind`: the register's former occupant is released, the value is
    /// composed, the interrupt's state now lives in the register, the
    /// occupant is recorded, the register is written, and the lists follow.
    #[verifier::opaque]
    pub open spec fn write_lr(self, vcpu: Vcpu, int_id: int, lr_ind: int) -> Sys {
        let s1 = self.release_prev(vcpu, int_id, lr_ind);
        let lr = s1.lr_value(vcpu, int_id);
        s1.lr_value_effects(vcpu, int_id).latch(vcpu, int_id, lr_ind, lr)
    }

    /// The system after the occupant of list register `idx` was evicted:
    /// taken out of the register and given up where possible.
    pub open spec fn evict(self, vcpu: Vcpu, idx: int) -> Sys {
        let spilled = lr_id(self.gich.lr[idx]) as int;
        self.remove_lr(vcpu, spilled).yield_owner(vcpu, spilled)
    }

    /// Whether [`Sys::add_lr`] puts interrupt `int_id` into a list register.
    pub open spec fn add_lr_result(self, vcpu: Vcpu, int_id: int) -> bool {
        let i = self.irq(vcpu, int_id);
        i.inner.enabled && !i.inner.in_lr && (first_set_bit(self.gich.elrsr, self.gich.lrs).is_some()
            || victim_lr(self.gich).is_some())
    }

    /// The system after an attempt to put interrupt `int_id` into a list
    /// register. A disabled interrupt and one that is in a list register are
    /// left alone. The lowest empty register is taken; if none is empty, the
    /// occupant of the victim register is evicted; if there is no victim, the
    /// no-pending maintenance interrupt is enabled where the interrupt is
    /// pending.
    #[verifier::opaque]
    pub open spec fn add_lr(self, vcpu: Vcpu, int_id: int) -> Sys {
        let i = self.irq(vcpu, int_id);
        if !i.inner.enabled || i.inner.in_lr {
            self
        } else {
            match first_set_bit(self.gich.elrsr, self.gich.lrs) {
                Some(idx) => self.write_lr(vcpu, int_id, idx as int),
                None => match victim_lr(self.gich) {
                    Some(idx) => self.evict(vcpu, idx as int).write_lr(vcpu, int_id, idx as int),
                    None => if num_pending(spec_vgic_get_state(self.gich, i)) {
                        self.enable_npie()
                    } else {
                        self
                    },
                },
            }
        }
    }

    /// The system after interrupt `int_id` was routed: nothing for an
    /// inactive or disabled interrupt; else it goes to a list register if it
    /// targets the core of `vcpu`, and if it is in none afterwards and
    /// targets another core, `vcpu` gives it up and the machine's other
    /// cores are told to route it.
    #[verifier::opaque]
    pub open spec fn route(self, vcpu: Vcpu, int_id: int) -> Sys {
        let i = self.irq(vcpu, int_id);
        if i.inner.state == IrqState::IrqSInactive || !i.inner.enabled {
            self
        } else {
            let bit = 1u8 << (vcpu.phys_id as u8);
            let s1 = if i.inner.targets & bit != 0 {
                self.add_lr(vcpu, int_id)
            } else {
                self
            };
            if !s1.irq(vcpu, int_id).inner.in_lr && (i.inner.targets & !bit) != 0 {
                s1.yield_owner(vcpu, int_id).emit(
                    Effect::IpiBroadcast {
                        vm_id: vcpu.vm_id,
                        msg: IpiInitcMessage {
                            event: InitcEvent::VgicdRoute,
                            vm_id: vcpu.vm_id,
                            int_id: i.id,
                            val: 0,
                        },
                    },
                )
            } else {
                s1
            }
        }
    }
}

/// Finds the highest source CPU whose bit is set in `mask`.
pub fn highest_set_source(mask: u8) -> (found: Option<u8>)
    ensures
        found == highest_source(mask),
        found matches Some(k) ==> k < 8,
{
    let mut idx: usize = GIC_TARGETS_MAX;
    let mut found: Option<u8> = None;
    while idx > 0
        invariant_except_break
            idx <= GIC_TARGETS_MAX,
            found.is_none(),
            highest_source(mask) == highest_source_from(mask, idx - 1),
        ensures
            found == highest_source(mask),
            found matches Some(k) ==> k < 8,
        decreases idx,
    {
        idx = idx - 1;
        if mask & (1u8 << (idx as u8)) != 0 {
            found = Some(idx as u8);
            break ;
        }
    }
    found
}

impl Vgic {
    /// Asks `vcpu` to give interrupt `int_id` up.
    pub fn yield_owner(&mut self, vcpu: &Vcpu, int_id: usize)
        requires
            old(self).wf(),
            vcpu.id < old(self)@.cpus.len(),
            int_id < GIC_INTS_MAX,
        ensures
            final(self)@ == old(self)@.set_int(
                vcpu.id as int,
                yielded(*vcpu, old(self)@.irq(vcpu.id as int, int_id as int)),
            ),
            occ_inv(old(self)@, *vcpu) ==> occ_inv(final(self)@, *vcpu),
            final(self).wf(),
            final(self)@.cpus.len() == old(self)@.cpus.len(),
            old(self).inv() ==> final(self).inv(),
            old(self)@.lists_inv() ==> final(self)@.lists_inv(),
    {
        proof {
            lemma_yielded_occ(self@, *vcpu, int_id as int);
        }
        let mut interrupt = self.irq(vcpu.id, int_id);
        vgic_int_yield_owner(vcpu, &mut interrupt);
        self.set_int(vcpu.id, interrupt);
    }

    /// Takes interrupt `int_id` out of its list register, on behalf of
    /// `vcpu`, and tells whether a valid state came back from the register.
    pub fn remove_lr(&mut self, gich: &mut GicHypervisorInterface, vcpu: &Vcpu, int_id: usize) -> (r: bool)
        requires
            old(self).wf(),
            old(gich).wf(),
            vcpu.id < old(self)@.cpus.len(),
            int_id < GIC_INTS_MAX,
        ensures
            (final(self)@, final(gich)@, r) == remove_lr(old(self)@, old(gich)@, *vcpu, int_id as int),
            vgic_owns(*vcpu, old(self)@.irq(vcpu.id as int, int_id as int)) ==> !final(self)@.irq(
                vcpu.id as int,
                int_id as int,
            ).inner.in_lr,
            r ==> final(gich)@.lr[old(self)@.irq(vcpu.id as int, int_id as int).inner.lr as int] == 0,
            occ_inv(old(self)@, *vcpu) ==> occ_inv(final(self)@, *vcpu),
            final(self).wf(),
            final(self)@.cpus.len() == old(self)@.cpus.len(),
            final(gich).wf(),
            old(self).inv() ==> final(self).inv(),
            old(self)@.lists_inv() ==> final(self)@.lists_inv(),
    {
        proof {
            reveal(remove_lr);
            lemma_remove_lr(self@, gich@, *vcpu, int_id as int);
            lemma_remove_lr_occ(Sys { vgic: self@, gich: gich@, fx: Seq::empty() }, *vcpu, int_id as int);
        }
        let vcpu_id = vcpu.id;
        let mut interrupt = self.irq(vcpu_id, int_id);
        if !vgic_int_owns(vcpu, &interrupt) {
            return false;
        }
        let int_lr = interrupt.lr();
        if !interrupt.in_lr() {
            return false;
        }
        match gich_get_lr(gich, &interrupt) {
            Some(lr_val) => {
                gich.set_lr(int_lr as usize, 0);
                interrupt.set_in_lr(false);
                let state = IrqState::num_to_state(lr_val_state(lr_val) as usize);
                interrupt.set_state(state);
                self.set_int(vcpu_id, interrupt);
                if int_id < GIC_SGIS_NUM {
                    assert(self@.cpus[vcpu_id as int].wf());
                    if state.is_active() {
                        let act = self.cpu_priv_sgis_act(vcpu_id, int_id);
                        self.set_cpu_priv_sgis_act(vcpu_id, int_id, act | (1u8 << (lr_val_cpuid(lr_val) as u8)));
                    } else if state.is_pending() {
                        let pend = self.cpu_priv_sgis_pend(vcpu_id, int_id);
                        self.set_cpu_priv_sgis_pend(
                            vcpu_id,
                            int_id,
                            pend | (1u8 << (lr_val_cpuid(lr_val) as u8)),
                        );
                    } else {
                        assert(self@.cpus[vcpu_id as int].sgis =~= self@.cpus[vcpu_id as int].sgis.update(
                            int_id as int,
                            self@.cpus[vcpu_id as int].sgis[int_id as int],
                        ));
                        assert(self@.cpus =~= self@.set_sgis(
                            vcpu_id as int,
                            int_id as int,
                            self@.cpus[vcpu_id as int].sgis[int_id as int],
                        ).cpus);
                    }
                }
                self.update_int_list(vcpu_id, int_id);
                if state.is_pending() && interrupt.enabled() {
                    let hcr = gich.hcr();
                    gich.set_hcr(hcr | (1u32 << 3));
                }
                true
            },
            None => {
                interrupt.set_in_lr(false);
                self.set_int(vcpu_id, interrupt);
                false
            },
        }
    }

    /// Marks the recorded occupant of list register `lr_ind` as out of it, if
    /// it is another interrupt than `int_id` and still in that register.
    fn release_prev(&mut self, vcpu: &Vcpu, int_id: usize, lr_ind: usize)
        requires
            old(self).wf(),
            vcpu.id < old(self)@.cpus.len(),
            int_id < GIC_INTS_MAX,
            lr_ind < GIC_LIST_REGS_NUM,
        ensures
            final(self)@ == release_prev(old(self)@, *vcpu, int_id as int, lr_ind as int),
            final(self).wf(),
            final(self)@.cpus.len() == old(self)@.cpus.len(),
            old(self).inv() ==> final(self).inv(),
            old(self)@.lists_inv() ==> final(self)@.lists_inv(),
    {
        proof {
            reveal(release_prev);
        }
        let vcpu_id = vcpu.id;
        let prev_int_id = self.cpu_priv_curr_lrs(vcpu_id, lr_ind) as usize;
        if prev_int_id != int_id && prev_int_id < GIC_INTS_MAX {
            let mut prev_interrupt = self.irq(vcpu_id, prev_int_id);
            if vgic_int_owns(vcpu, &prev_interrupt) && prev_interrupt.in_lr() && prev_interrupt.lr()
                == lr_ind as u16 {
                prev_interrupt.set_in_lr(false);
                if !gic_is_priv(prev_int_id) {
                    vgic_int_yield_owner(vcpu, &mut prev_interrupt);
                }
                self.set_int(vcpu_id, prev_interrupt);
            }
        }
    }

    /// Moves the state of interrupt `int_id` into list register `lr_ind`,
    /// which gets the value `lr`.
    fn latch(&mut self, gich: &mut GicHypervisorInterface, vcpu: &Vcpu, int_id: usize, lr_ind: usize, lr: u32)
        requires
            old(self).wf(),
            old(gich).wf(),
            vcpu.id < old(self)@.cpus.len(),
            int_id < GIC_INTS_MAX,
            lr_ind < GIC_LIST_REGS_NUM,
        ensures
            forall|fx: Seq<Effect>|
                (Sys { vgic: final(self)@, gich: final(gich)@, fx }) == (#[trigger] Sys {
                    vgic: old(self)@,
                    gich: old(gich)@,
                    fx,
                }.latch(*vcpu, int_id as int, lr_ind as int, lr)),
            final(self).wf(),
            final(self)@.cpus.len() == old(self)@.cpus.len(),
            final(gich).wf(),
            old(self).inv() ==> final(self).inv(),
            old(self)@.lists_inv() ==> final(self)@.lists_inv(),
    {
        proof {
            reveal(Sys::latch);
        }
        let vcpu_id = vcpu.id;
        let mut interrupt = self.irq(vcpu_id, int_id);
        interrupt.set_state(IrqState::IrqSInactive);
        interrupt.set_in_lr(true);
        interrupt.inner.lr = lr_ind as u16;
        self.set_int(vcpu_id, interrupt);
        self.set_cpu_priv_curr_lrs(vcpu_id, lr_ind, int_id as u16);
        gich.set_lr(lr_ind, lr);
        self.update_int_list(vcpu_id, int_id);
    }

    /// Composes the list register value for interrupt `int_id` and carries
    /// out what composing it entails.
    fn compose_lr(
        &mut self,
        gich: &GicHypervisorInterface,
        fx: &mut Vec<Effect>,
        vcpu: &Vcpu,
        int_id: usize,
    ) -> (lr: u32)
        requires
            old(self).wf(),
            gich.wf(),
            vcpu.id < old(self)@.cpus.len(),
            int_id < GIC_INTS_MAX,
        ensures
            lr == sys_of(old(self), gich, old(fx)).lr_value(*vcpu, int_id as int),
            sys_of(final(self), gich, final(fx)) == sys_of(old(self), gich, old(fx)).lr_value_effects(
                *vcpu,
                int_id as int,
            ),
            final(self).wf(),
            final(self)@.cpus.len() == old(self)@.cpus.len(),
            old(self).inv() ==> final(self).inv(),
            old(self)@.lists_inv() ==> final(self)@.lists_inv(),
            occ_inv(old(self)@, *vcpu) ==> occ_inv(final(self)@, *vcpu),
    {
        proof {
            reveal(Sys::lr_value);
            reveal(Sys::lr_value_effects);
        }
        let vcpu_id = vcpu.id;
        let interrupt = self.irq(vcpu_id, int_id);
        let int_prio = interrupt.prio();
        let state = vgic_get_state(gich, &interrupt);
        let id32 = int_id as u32;
        let mut lr: u32 = (id32 & 0b1111111111) | ((((int_prio as u32) >> 3) & 0b11111) << 23);
        if vgic_int_is_hw(&interrupt) {
            lr = lr | (1u32 << 31);
            lr = lr | ((0b1111111111 & id32) << 10);
            if state == 3 {
                lr = lr | (2u32 << 28);
            } else {
                lr = lr | ((state as u32) << 28);
            }
            fx.push(Effect::GicdEnsureState { int_id, state: 2 });
        } else if int_id < GIC_SGIS_NUM {
            assert(self@.cpus[vcpu_id as int].wf());
            if state == 2 || state == 3 {
                let source = match highest_set_source(self.cpu_priv_sgis_act(vcpu_id, int_id)) {
                    Some(k) => k,
                    None => 0,
                };
                lr = lr | (((source as u32) & 0b111) << 10);
                lr = lr | (2u32 << 28);
            } else {
                let pend = self.cpu_priv_sgis_pend(vcpu_id, int_id);
                let found = highest_set_source(pend);
                match found {
                    Some(k) => {
                        lr = lr | (((k as u32) & 0b111) << 10);
                        self.set_cpu_priv_sgis_pend(vcpu_id, int_id, pend & !(1u8 << k));
                        lr = lr | (1u32 << 28);
                    },
                    None => {
                        assert(self@.cpus[vcpu_id as int].sgis =~= self@.cpus[vcpu_id as int].sgis.update(
                            int_id as int,
                            self@.cpus[vcpu_id as int].sgis[int_id as int],
                        ));
                        assert(self@.cpus =~= self@.set_sgis(
                            vcpu_id as int,
                            int_id as int,
                            self@.cpus[vcpu_id as int].sgis[int_id as int],
                        ).cpus);
                    },
                }
            }
            if self.cpu_priv_sgis_pend(vcpu_id, int_id) != 0 {
                lr = lr | (1u32 << 19);
            }
        } else {
            if !gic_is_priv(int_id) {
                lr = lr | (1u32 << 19);
            }
            lr = lr | ((state as u32) << 28);
        }
        lr
    }

    /// Writes interrupt `int_id` into list register `lr_ind`.
    pub fn write_lr(
        &mut self,
        gich: &mut GicHypervisorInterface,
        fx: &mut Vec<Effect>,
        vcpu: &Vcpu,
        int_id: usize,
        lr_ind: usize,
    )
        requires
            old(self).wf(),
            old(gich).wf(),
            vcpu.id < old(self)@.cpus.len(),
            int_id < GIC_INTS_MAX,
            lr_ind < GIC_LIST_REGS_NUM,
        ensures
            sys_of(final(self), final(gich), final(fx)) == sys_of(old(self), old(gich), old(fx)).write_lr(
                *vcpu,
                int_id as int,
                lr_ind as int,
            ),
            final(self)@.irq(vcpu.id as int, int_id as int) == old(self)@.irq(vcpu.id as int, int_id as int).latched(
                lr_ind as u16,
            ).with_in_pend(false).with_in_act(false),
            final(gich)@.lr[lr_ind as int] == sys_of(old(self), old(gich), old(fx)).release_prev(
                *vcpu,
                int_id as int,
                lr_ind as int,
            ).lr_value(*vcpu, int_id as int),
            occ_inv(old(self)@, *vcpu) ==> occ_inv(final(self)@, *vcpu),
            final(self).wf(),
            final(self)@.cpus.len() == old(self)@.cpus.len(),
            final(gich).wf(),
            old(self).inv() ==> final(self).inv(),
            old(self)@.lists_inv() ==> final(self)@.lists_inv(),
    {
        proof {
            reveal(Sys::write_lr);
            lemma_write_lr(sys_of(self, gich, fx), *vcpu, int_id as int, lr_ind as int);
            if occ_inv(self@, *vcpu) {
                lemma_write_lr_occ(sys_of(self, gich, fx), *vcpu, int_id as int, lr_ind as int);
            }
            lemma_set_lr(
                gich@,
                lr_ind as int,
                sys_of(self, gich, fx).release_prev(*vcpu, int_id as int, lr_ind as int).lr_value(
                    *vcpu,
                    int_id as int,
                ),
            );
        }
        self.release_prev(vcpu, int_id, lr_ind);
        let lr = self.compose_lr(gich, fx, vcpu, int_id);
        self.latch(gich, vcpu, int_id, lr_ind, lr);
    }

    /// Finds the list register whose occupant has to make room when none is
    /// empty.
    fn find_victim(gich: &GicHypervisorInterface) -> (r: Option<usize>)
        requires
            gich.wf(),
        ensures
            r == victim_lr(gich@),
            r matches Some(idx) ==> idx < gich@.lrs,
    {
        let gic_lrs = gich.lrs;
        let mut pend_found: usize = 0;
        let mut act_found: usize = 0;
        let mut min_prio_act: u32 = 0;
        let mut min_prio_pend: u32 = 0;
        let mut act_ind: Option<usize> = None;
        let mut pend_ind: Option<usize> = None;
        let mut i: usize = 0;
        while i < gic_lrs
            invariant
                gich.wf(),
                gic_lrs == gich@.lrs,
                i <= gic_lrs,
                pend_found <= i,
                act_found <= i,
                scan_lrs(gich@.lr, i as int) == (LrScan {
                    pend_found: pend_found as nat,
                    act_found: act_found as nat,
                    min_prio_act,
                    min_prio_pend,
                    act_ind,
                    pend_ind,
                }),
                act_ind matches Some(k) ==> k < i,
                pend_ind matches Some(k) ==> k < i,
            decreases gic_lrs - i,
        {
            let lr = gich.lr(i);
            let lr_prio = lr_val_prio(lr);
            let lr_state = lr_val_state(lr);
            if lr_state == 2 || lr_state == 3 {
                if act_ind.is_none() || lr_prio > min_prio_act {
                    min_prio_act = lr_prio;
                    act_ind = Some(i);
                }
                act_found = act_found + 1;
            } else if lr_state == 1 {
                if pend_ind.is_none() || lr_prio > min_prio_pend {
                    min_prio_pend = lr_prio;
                    pend_ind = Some(i);
                }
                pend_found = pend_found + 1;
            }
            i = i + 1;
        }
        if act_found > 1 {
            act_ind
        } else if pend_found > 1 {
            pend_ind
        } else {
            None
        }
    }

    /// Tries to put interrupt `int_id` into a list register and tells
    /// whether it is in one now because of this.
    pub fn add_lr(
        &mut self,
        gich: &mut GicHypervisorInterface,
        fx: &mut Vec<Effect>,
        vcpu: &Vcpu,
        int_id: usize,
    ) -> (r: bool)
        requires
            old(self).wf(),
            old(gich).wf(),
            vcpu.id < old(self)@.cpus.len(),
            int_id < GIC_INTS_MAX,
        ensures
            sys_of(final(self), final(gich), final(fx)) == sys_of(old(self), old(gich), old(fx)).add_lr(
                *vcpu,
                int_id as int,
            ),
            r == sys_of(old(self), old(gich), old(fx)).add_lr_result(*vcpu, int_id as int),
            r ==> final(self)@.irq(vcpu.id as int, int_id as int).inner.in_lr,
            !r ==> final(self)@ == old(self)@ && final(fx)@ == old(fx)@,
            occ_inv(old(self)@, *vcpu) ==> occ_inv(final(self)@, *vcpu),
            final(self).wf(),
            final(self)@.cpus.len() == old(self)@.cpus.len(),
            final(gich).wf(),
            old(self).inv() ==> final(self).inv(),
            old(self)@.lists_inv() ==> final(self)@.lists_inv(),
    {
        proof {
            reveal(Sys::add_lr);
            lemma_add_lr(sys_of(self, gich, fx), *vcpu, int_id as int);
            if occ_inv(self@, *vcpu) {
                lemma_add_lr_occ(sys_of(self, gich, fx), *vcpu, int_id as int);
            }
        }
        let interrupt = self.irq(vcpu.id, int_id);
        if !interrupt.enabled() || interrupt.in_lr() {
            return false;
        }
        let gic_lrs = gich.lrs;
        let mut lr_ind = bitmap_find_nth(gich.elrsr, 0, gic_lrs, 1, true);
        proof {
            lemma_first_set_bit(gich@.elrsr, gic_lrs);
        }
        if lr_ind.is_none() {
            lr_ind = Self::find_victim(gich);
            if let Some(idx) = lr_ind {
                let spilled_id = lr_val_id(gich.lr(idx)) as usize;
                self.remove_lr(gich, vcpu, spilled_id);
                self.yield_owner(vcpu, spilled_id);
            }
        }
        match lr_ind {
            Some(idx) => {
                self.write_lr(gich, fx, vcpu, int_id, idx);
                true
            },
            None => {
                let state = vgic_get_state(gich, &interrupt);
                if state == 1 || state == 3 {
                    let hcr = gich.hcr();
                    gich.set_hcr(hcr | (1u32 << 3));
                }
                false
            },
        }
    }

    /// Routes interrupt `int_id`: to a list register of this core if it
    /// targets it, else, or if that fails, towards the other cores it targets.
    pub fn route(
        &mut self,
        gich: &mut GicHypervisorInterface,
        fx: &mut Vec<Effect>,
        vcpu: &Vcpu,
        int_id: usize,
    )
        requires
            old(self).wf(),
            old(gich).wf(),
            old(self)@.valid_vcpu(*vcpu),
            int_id < GIC_INTS_MAX,
        ensures
            sys_of(final(self), final(gich), final(fx)) == sys_of(old(self), old(gich), old(fx)).route(
                *vcpu,
                int_id as int,
            ),
            final(self).wf(),
            final(self)@.cpus.len() == old(self)@.cpus.len(),
            final(gich).wf(),
            old(self).inv() ==> final(self).inv(),
            old(self)@.lists_inv() ==> final(self)@.lists_inv(),
            occ_inv(old(self)@, *vcpu) ==> occ_inv(final(self)@, *vcpu),
    {
        proof {
            reveal(Sys::route);
        }
        let cpu_id = vcpu.phys_id;
        let interrupt = self.irq(vcpu.id, int_id);
        if let IrqState::IrqSInactive = interrupt.state() {
            return ;
        }
        if !interrupt.enabled() {
            return ;
        }
        let int_targets = interrupt.targets();
        let bit: u8 = 1u8 << (cpu_id as u8);
        if (int_targets & bit) != 0 {
            self.add_lr(gich, fx, vcpu, int_id);
        }
        if !self.irq(vcpu.id, int_id).in_lr() && (int_targets & !bit) != 0 {
            let vcpu_vm_id = vcpu.vm_id;
            let ipi_msg = IpiInitcMessage {
                event: InitcEvent::VgicdRoute,
                vm_id: vcpu_vm_id,
                int_id: interrupt.id(),
                val: 0,
            };
            self.yield_owner(vcpu, int_id);
            fx.push(Effect::IpiBroadcast { vm_id: vcpu_vm_id, msg: ipi_msg });
        }
    }
}

} // verus!
