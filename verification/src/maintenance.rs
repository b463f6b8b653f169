//! The maintenance handler: what the engine does when the hypervisor
//! interface reports that list registers need attention.

use vstd::prelude::*;
use crate::consts::{GIC_INTS_MAX, GIC_LIST_REGS_NUM, GIC_SGIS_NUM};
use crate::effects::Effect;
use crate::gich::{lr_id, lr_state, lr_val_id, lr_val_state, status_bit, GicHypervisorInterface, GichView};
use crate::lr::num_pending;
use crate::lr_proofs::{
    lemma_add_lr,
    lemma_irq_wf,
    lemma_lr_id_bound,
    lemma_lr_zero,
    lemma_others_kept_config,
    lemma_set_int_wf,
    lemma_set_lr,
    lemma_step_trans,
    lemma_write_lr,
    lemma_yield_owner,
    same_frame,
    status_subset,
    step_ok,
};
use crate::occupancy::{claimed_cleanly, occ_inv};
use crate::spilled::{act_list, all_spilled, lemma_end_of_interrupt_spills};
use crate::utils::{
    bit_matches,
    bitmap_find_nth,
    count_matches,
    first_set_bit,
    lemma_count_strict_subset,
    lemma_first_set_bit,
};
use crate::vcpu::Vcpu;
use crate::vgic::{sys_of, Sys, Vgic};
use crate::vint::{claimed, spec_vgic_int_is_hw, vgic_int_get_owner, vgic_int_is_hw};

verus! {

/// Whether one of the list registers `0..n` holds a pending interrupt.
pub open spec fn lrs_have_pending(lr: Seq<u32>, n: int) -> bool
    decreases n,
{
    if n <= 0 {
        false
    } else {
        lrs_have_pending(lr, n - 1) || num_pending(lr_state(lr[n - 1]) as usize)
    }
}

/// The control word with the no-pending maintenance interrupt (bit 3)
/// disabled.
pub open spec fn hcr_without_npie(hcr: u32) -> u32 {
    hcr & !(1u32 << 3)
}

/// The count of spilled active interrupts in the control word (bits 27..32).
pub open spec fn hcr_eoi_count(hcr: u32) -> u32 {
    hcr & (0b11111u32 << 27)
}

impl Sys {
    /// How many list registers in use signal an end of interrupt.
    pub open spec fn eisr_count(self) -> nat {
        count_matches(self.gich.eisr, 0, self.gich.lrs as int, true)
    }

    /// How many entries the pending and the active list of `vcpu` have.
    pub open spec fn lists_len(self, vcpu: Vcpu) -> nat {
        self.vgic.cpus[vcpu.id as int].pend_list.len() + self.vgic.cpus[vcpu.id as int].act_list.len()
    }

    /// The system after the end of interrupt that list register `lr_idx`
    /// signals was handled: the register is cleared, its interrupt counts as
    /// out of it, and is put into a list register again if it is
    /// software-generated, else given up if possible.
    pub open spec fn eoir_step(self, vcpu: Vcpu, lr_idx: int) -> Sys {
        let id = lr_id(self.gich.lr[lr_idx]) as int;
        let s1 = self.with_gich(self.gich.set_lr(lr_idx, 0));
        let s2 = s1.set_int(vcpu, s1.irq(vcpu, id).with_in_lr(false));
        if id < GIC_SGIS_NUM {
            s2.add_lr(vcpu, id)
        } else {
            s2.yield_owner(vcpu, id)
        }
    }

    /// The system after every end of interrupt that a list register in use
    /// signals was handled, lowest register first.
    pub open spec fn handle_trapped_eoir(self, vcpu: Vcpu) -> Sys
        decreases self.eisr_count(),
        when self.wf() && vcpu.id < self.vgic.cpus.len()
    {
        match first_set_bit(self.gich.eisr, self.gich.lrs) {
            Some(lr_idx) => {
                proof {
                    lemma_eoir_step(self, vcpu, lr_idx);
                }
                self.eoir_step(vcpu, lr_idx as int).handle_trapped_eoir(vcpu)
            },
            None => self,
        }
    }

    /// The interrupt that goes into the next empty list register, and
    /// whether it comes from the pending list: the head of the active list
    /// if a register holds a pending interrupt (`has_pending`) and that head
    /// is in no register, else the head of the pending list if it is in no
    /// register.
    pub open spec fn refill_candidate(self, vcpu: Vcpu, has_pending: bool) -> Option<(int, bool)> {
        let c = self.vgic.cpus[vcpu.id as int];
        if has_pending && c.act_list.len() > 0 && !self.irq(vcpu, c.act_list[0] as int).inner.in_lr {
            Some((c.act_list[0] as int, false))
        } else if c.pend_list.len() > 0 && !self.irq(vcpu, c.pend_list[0] as int).inner.in_lr {
            Some((c.pend_list[0] as int, true))
        } else {
            None
        }
    }

    /// The system after `vcpu` claimed interrupt `int_id` if it can and the
    /// interrupt went into the empty list register `lr_idx`.
    pub open spec fn refill_step(self, vcpu: Vcpu, int_id: int, lr_idx: int) -> Sys {
        self.set_int(vcpu, claimed(vcpu, self.irq(vcpu, int_id))).write_lr(vcpu, int_id, lr_idx)
    }

    /// The system after the empty list registers were filled from the lists
    /// of `vcpu`, lowest register first, until no register is empty or no
    /// candidate is left; in the latter case the no-pending maintenance
    /// interrupt is disabled.
    pub open spec fn refill_loop(self, vcpu: Vcpu, has_pending: bool) -> Sys
        decreases self.lists_len(vcpu),
        when self.wf() && vcpu.id < self.vgic.cpus.len()
    {
        match first_set_bit(self.gich.elrsr, self.gich.lrs) {
            Some(lr_idx) => match self.refill_candidate(vcpu, has_pending) {
                Some((int_id, prev_pend)) => {
                    proof {
                        lemma_first_set_bit(self.gich.elrsr, self.gich.lrs);
                        lemma_refill_step(self, vcpu, has_pending, lr_idx as int);
                    }
                    self.refill_step(vcpu, int_id, lr_idx as int).refill_loop(vcpu, has_pending || prev_pend)
                },
                None => self.with_gich(self.gich.set_hcr(hcr_without_npie(self.gich.hcr))),
            },
            None => self,
        }
    }

    /// The system after the empty list registers were filled from the lists
    /// of `vcpu`.
    pub open spec fn refill_lrs(self, vcpu: Vcpu) -> Sys {
        self.refill_loop(vcpu, lrs_have_pending(self.gich.lr, self.gich.lrs as int))
    }

    /// The system after the interrupt at the head of the active list of
    /// `vcpu` got its end of interrupt: `vcpu` claims it if it can,
    /// its active bit is cleared and the lists follow; a hardware-backed
    /// interrupt is deactivated in the physical distributor, any other goes
    /// into a list register if it is still pending.
    pub open spec fn eoir_highest_spilled_active(self, vcpu: Vcpu) -> Sys {
        let list = self.vgic.cpus[vcpu.id as int].act_list;
        if list.len() == 0 {
            self
        } else {
            let id = list[0] as int;
            let i = claimed(vcpu, self.irq(vcpu, id));
            let s2 = self.set_int(vcpu, i.with_state(i.inner.state.with_active(false))).update_int_list(vcpu, id);
            if spec_vgic_int_is_hw(i) {
                s2.emit(Effect::GicdSetAct { int_id: id as usize, act: false })
            } else if i.inner.state.pending() {
                s2.add_lr(vcpu, id)
            } else {
                s2
            }
        }
    }

    /// The system after one spilled active interrupt got its end of
    /// interrupt, if the control word counts one: the interrupt at the head
    /// of the active list gets it, and the count goes down by one in the
    /// control word as it was read before. With a count of zero nothing
    /// changes.
    pub open spec fn eoi_count_step(self, vcpu: Vcpu) -> Sys {
        if hcr_eoi_count(self.gich.hcr) != 0 {
            let s1 = self.eoir_highest_spilled_active(vcpu);
            s1.with_gich(s1.gich.set_hcr((self.gich.hcr - (1u32 << 27)) as u32))
        } else {
            self
        }
    }

    /// The system after the spilled active interrupts that the control word
    /// counts got their end of interrupt, one by one. After each, the count
    /// goes down by one in the control word as it was read before.
    pub open spec fn eoi_count_loop(self, vcpu: Vcpu) -> Sys
        decreases self.gich.hcr,
    {
        if hcr_eoi_count(self.gich.hcr) != 0 {
            proof {
                lemma_eoi_count(self.gich.hcr);
            }
            let s1 = self.eoir_highest_spilled_active(vcpu);
            s1.with_gich(s1.gich.set_hcr((self.gich.hcr - (1u32 << 27)) as u32)).eoi_count_loop(vcpu)
        } else {
            self
        }
    }

    /// The system after the list registers got the attention that the
    /// maintenance status word asks for: bit 0 asks for the ends of
    /// interrupt to be handled, bit 3 for the list registers to be refilled.
    pub open spec fn attend_list_registers(self, vcpu: Vcpu) -> Sys {
        let misr = self.gich.misr;
        let s1 = if misr & 1 != 0 {
            self.handle_trapped_eoir(vcpu)
        } else {
            self
        };
        if misr & (1u32 << 3) != 0 {
            s1.refill_lrs(vcpu)
        } else {
            s1
        }
    }

    /// The system after the maintenance interrupt was handled for the
    /// running virtual CPU `vcpu`, by the bits of the maintenance status
    /// word: bit 0 asks for the ends of interrupt to be handled, bit 3 for
    /// the list registers to be refilled, bit 2 for the spilled active
    /// interrupts to get their end of interrupt.
    pub open spec fn gic_maintenance_handler(self, vcpu: Vcpu) -> Sys {
        let s2 = self.attend_list_registers(vcpu);
        if self.gich.misr & (1u32 << 2) != 0 {
            s2.eoi_count_loop(vcpu)
        } else {
            s2
        }
    }
}

/// A control word that counts a spilled active interrupt is at least one
/// count large, and one count less is a smaller word with the count one
/// lower.
pub proof fn lemma_eoi_count(hcr: u32)
    requires
        hcr_eoi_count(hcr) != 0,
    ensures
        hcr >= (1u32 << 27),
        hcr - (1u32 << 27) < hcr,
        hcr_eoi_count((hcr - (1u32 << 27)) as u32) == hcr_eoi_count(hcr) - (1u32 << 27),
{
    assert(hcr & (0b11111u32 << 27) != 0 ==> hcr >= (1u32 << 27) && (hcr - (1u32 << 27)) as u32 & (0b11111u32
        << 27) == (hcr & (0b11111u32 << 27)) - (1u32 << 27)) by (bit_vector);
    assert((1u32 << 27) > 0) by (bit_vector);
}

/// Handling one end of interrupt is a step of the engine after which fewer
/// list registers signal an end of interrupt.
pub proof fn lemma_eoir_step(s: Sys, vcpu: Vcpu, lr_ind: usize)
    requires
        s.wf(),
        vcpu.id < s.vgic.cpus.len(),
        first_set_bit(s.gich.eisr, s.gich.lrs) == Some(lr_ind),
    ensures
        step_ok(s, s.eoir_step(vcpu, lr_ind as int)),
        s.eoir_step(vcpu, lr_ind as int).eisr_count() < s.eisr_count(),
        lr_ind < s.gich.lrs,
{
    let lr_idx = lr_ind as int;
    lemma_first_set_bit(s.gich.eisr, s.gich.lrs);
    lemma_lr_zero();
    lemma_lr_id_bound(s.gich.lr[lr_idx]);
    let id = lr_id(s.gich.lr[lr_idx]) as int;
    lemma_set_lr(s.gich, lr_idx, 0);
    let s1 = s.with_gich(s.gich.set_lr(lr_idx, 0));
    lemma_irq_wf(s1.vgic, vcpu.id as int, id);
    let i = s1.irq(vcpu, id).with_in_lr(false);
    lemma_set_int_wf(s1.vgic, vcpu.id as int, i);
    let s2 = s1.set_int(vcpu, i);
    assert(s1.vgic.inv() ==> s1.vgic.inv_except(vcpu.id as int, id));
    lemma_others_kept_config(s1.vgic, s2.vgic, vcpu.id as int, id);
    assert(step_ok(s, s2));
    lemma_add_lr(s2, vcpu, id);
    lemma_yield_owner(s2, vcpu, id);
    let s3 = s.eoir_step(vcpu, lr_idx);
    lemma_step_trans(s, s2, s3);
    assert(status_subset(s3.gich.eisr, s2.gich.eisr));
    assert forall|j: int| 0 <= j < s.gich.lrs && #[trigger] bit_matches(s3.gich.eisr, j, true) implies bit_matches(
        s.gich.eisr,
        j,
        true,
    ) by {
        assert(status_bit(s3.gich.eisr, j) ==> status_bit(s2.gich.eisr, j));
        assert(status_bit(s2.gich.eisr, j) == (if j == lr_idx {
            false
        } else {
            status_bit(s.gich.eisr, j)
        }));
    }
    assert(!status_bit(s2.gich.eisr, lr_idx));
    assert(status_bit(s3.gich.eisr, lr_idx) ==> status_bit(s2.gich.eisr, lr_idx));
    lemma_count_strict_subset(s3.gich.eisr, s.gich.eisr, s.gich.lrs as int, lr_idx);
}

/// Filling one list register is a step of the engine after which the lists
/// of the virtual CPU are shorter.
pub proof fn lemma_refill_step(s: Sys, vcpu: Vcpu, has_pending: bool, lr_idx: int)
    requires
        s.wf(),
        vcpu.id < s.vgic.cpus.len(),
        0 <= lr_idx < GIC_LIST_REGS_NUM,
        s.refill_candidate(vcpu, has_pending).is_some(),
    ensures
        s.refill_step(vcpu, s.refill_candidate(vcpu, has_pending).unwrap().0, lr_idx).wf(),
        same_frame(s, s.refill_step(vcpu, s.refill_candidate(vcpu, has_pending).unwrap().0, lr_idx)),
        s.inv() ==> s.refill_step(vcpu, s.refill_candidate(vcpu, has_pending).unwrap().0, lr_idx).inv(),
        s.refill_step(vcpu, s.refill_candidate(vcpu, has_pending).unwrap().0, lr_idx).lists_len(vcpu)
            < s.lists_len(vcpu),
        0 <= s.refill_candidate(vcpu, has_pending).unwrap().0 < GIC_INTS_MAX,
{
    let c = s.vgic.cpus[vcpu.id as int];
    assert(c.wf());
    let int_id = s.refill_candidate(vcpu, has_pending).unwrap().0;
    lemma_irq_wf(s.vgic, vcpu.id as int, int_id);
    let i = claimed(vcpu, s.irq(vcpu, int_id));
    lemma_set_int_wf(s.vgic, vcpu.id as int, i);
    let s1 = s.set_int(vcpu, i);
    assert(s.vgic.inv() ==> s.vgic.inv_except(vcpu.id as int, int_id));
    lemma_write_lr(s1, vcpu, int_id, lr_idx);
    c.pend_list.index_of_first_ensures(int_id as u16);
    c.act_list.index_of_first_ensures(int_id as u16);
    assert(s1.vgic.cpus[vcpu.id as int].pend_list == c.pend_list);
    assert(s1.vgic.cpus[vcpu.id as int].act_list == c.act_list);
}

impl Vgic {
    /// Handles the end of interrupt that list register `lr_idx` signals.
    fn eoir_step(&mut self, gich: &mut GicHypervisorInterface, fx: &mut Vec<Effect>, vcpu: &Vcpu, lr_idx: usize)
        requires
            old(self).wf(),
            old(gich).wf(),
            vcpu.id < old(self)@.cpus.len(),
            lr_idx < GIC_LIST_REGS_NUM,
        ensures
            sys_of(final(self), final(gich), final(fx)) == sys_of(old(self), old(gich), old(fx)).eoir_step(
                *vcpu,
                lr_idx as int,
            ),
            final(self).wf(),
            final(self)@.cpus.len() == old(self)@.cpus.len(),
            final(gich).wf(),
            old(self).inv() ==> final(self).inv(),
            old(self)@.lists_inv() ==> final(self)@.lists_inv(),
            occ_inv(old(self)@, *vcpu) ==> occ_inv(final(self)@, *vcpu),
    {
        let lr_val = gich.lr(lr_idx);
        gich.set_lr(lr_idx, 0);
        let id = lr_val_id(lr_val) as usize;
        let mut interrupt = self.irq(vcpu.id, id);
        interrupt.set_in_lr(false);
        self.set_int(vcpu.id, interrupt);
        if id < GIC_SGIS_NUM {
            self.add_lr(gich, fx, vcpu, id);
        } else {
            self.yield_owner(vcpu, id);
        }
    }

    /// Handles every end of interrupt that a list register in use signals.
    pub fn handle_trapped_eoir(&mut self, gich: &mut GicHypervisorInterface, fx: &mut Vec<Effect>, vcpu: &Vcpu)
        requires
            old(self).wf(),
            old(gich).wf(),
            vcpu.id < old(self)@.cpus.len(),
        ensures
            sys_of(final(self), final(gich), final(fx)) == sys_of(
                old(self),
                old(gich),
                old(fx),
            ).handle_trapped_eoir(*vcpu),
            final(self).wf(),
            final(self)@.cpus.len() == old(self)@.cpus.len(),
            final(gich).wf(),
            same_frame(sys_of(old(self), old(gich), old(fx)), sys_of(final(self), final(gich), final(fx))),
            old(self).inv() ==> final(self).inv(),
            old(self)@.lists_inv() ==> final(self)@.lists_inv(),
            occ_inv(old(self)@, *vcpu) ==> occ_inv(final(self)@, *vcpu),
    {
        let gic_lrs = gich.lrs;
        let mut lr_idx_opt = bitmap_find_nth(gich.eisr, 0, gic_lrs, 1, true);
        while lr_idx_opt.is_some()
            invariant
                self.wf(),
                gich.wf(),
                vcpu.id < self@.cpus.len(),
                self@.cpus.len() == old(self)@.cpus.len(),
                gic_lrs == gich@.lrs,
                lr_idx_opt == first_set_bit(gich@.eisr, gich@.lrs),
                same_frame(sys_of(old(self), old(gich), old(fx)), sys_of(self, gich, fx)),
                old(self).inv() ==> self.inv(),
                old(self)@.lists_inv() ==> self@.lists_inv(),
                occ_inv(old(self)@, *vcpu) ==> occ_inv(self@, *vcpu),
                sys_of(self, gich, fx).handle_trapped_eoir(*vcpu) == sys_of(
                    old(self),
                    old(gich),
                    old(fx),
                ).handle_trapped_eoir(*vcpu),
            decreases sys_of(self, gich, fx).eisr_count(),
        {
            let lr_idx = lr_idx_opt.unwrap();
            proof {
                lemma_eoir_step(sys_of(self, gich, fx), *vcpu, lr_idx);
            }
            self.eoir_step(gich, fx, vcpu, lr_idx);
            lr_idx_opt = bitmap_find_nth(gich.eisr, 0, gic_lrs, 1, true);
        }
    }

    /// Tells whether a list register in use holds a pending interrupt.
    fn lrs_have_pending(gich: &GicHypervisorInterface) -> (r: bool)
        requires
            gich.wf(),
        ensures
            r == lrs_have_pending(gich@.lr, gich@.lrs as int),
    {
        let gic_lrs = gich.lrs;
        let mut has_pending = false;
        let mut i: usize = 0;
        while i < gic_lrs
            invariant
                gich.wf(),
                gic_lrs == gich@.lrs,
                i <= gic_lrs,
                has_pending == lrs_have_pending(gich@.lr, i as int),
            decreases gic_lrs - i,
        {
            let state = lr_val_state(gich.lr(i));
            if state == 1 || state == 3 {
                has_pending = true;
            }
            i = i + 1;
        }
        has_pending
    }

    /// Picks the interrupt that goes into the next empty list register.
    fn refill_candidate(&self, vcpu: &Vcpu, has_pending: bool) -> (r: Option<(usize, bool)>)
        requires
            self.wf(),
            vcpu.id < self@.cpus.len(),
        ensures
            match r {
                Some((id, prev_pend)) => id < GIC_INTS_MAX && forall|g: GichView, fx: Seq<Effect>|
                    (#[trigger] Sys { vgic: self@, gich: g, fx }.refill_candidate(*vcpu, has_pending)) == Some(
                        (id as int, prev_pend),
                    ),
                None => forall|g: GichView, fx: Seq<Effect>|
                    (#[trigger] Sys { vgic: self@, gich: g, fx }.refill_candidate(*vcpu, has_pending)).is_none(),
            },
    {
        let act_head = self.int_list_head(vcpu.id, false);
        let pend_head = self.int_list_head(vcpu.id, true);
        assert(self@.cpus[vcpu.id as int].wf());
        if has_pending {
            if let Some(act_int) = act_head {
                if !act_int.in_lr() {
                    return Some((act_int.id() as usize, false));
                }
            }
        }
        if let Some(pend_int) = pend_head {
            if !pend_int.in_lr() {
                return Some((pend_int.id() as usize, true));
            }
        }
        None
    }

    /// Fills the empty list registers from the lists of `vcpu`.
    pub fn refill_lrs(&mut self, gich: &mut GicHypervisorInterface, fx: &mut Vec<Effect>, vcpu: &Vcpu)
        requires
            old(self).wf(),
            old(gich).wf(),
            vcpu.id < old(self)@.cpus.len(),
        ensures
            sys_of(final(self), final(gich), final(fx)) == sys_of(old(self), old(gich), old(fx)).refill_lrs(*vcpu),
            final(self).wf(),
            final(self)@.cpus.len() == old(self)@.cpus.len(),
            final(gich).wf(),
            same_frame(sys_of(old(self), old(gich), old(fx)), sys_of(final(self), final(gich), final(fx))),
            old(self).inv() ==> final(self).inv(),
            old(self)@.lists_inv() ==> final(self)@.lists_inv(),
            occ_inv(old(self)@, *vcpu) ==> occ_inv(final(self)@, *vcpu),
    {
        let gic_lrs = gich.lrs;
        let mut has_pending = Self::lrs_have_pending(gich);
        let mut lr_idx_opt = bitmap_find_nth(gich.elrsr, 0, gic_lrs, 1, true);
        while lr_idx_opt.is_some()
            invariant_except_break
                lr_idx_opt == first_set_bit(gich@.elrsr, gich@.lrs),
                sys_of(self, gich, fx).refill_loop(*vcpu, has_pending) == sys_of(
                    old(self),
                    old(gich),
                    old(fx),
                ).refill_lrs(*vcpu),
            invariant
                self.wf(),
                gich.wf(),
                vcpu.id < self@.cpus.len(),
                self@.cpus.len() == old(self)@.cpus.len(),
                gic_lrs == gich@.lrs,
                same_frame(sys_of(old(self), old(gich), old(fx)), sys_of(self, gich, fx)),
                old(self).inv() ==> self.inv(),
                old(self)@.lists_inv() ==> self@.lists_inv(),
                occ_inv(old(self)@, *vcpu) ==> occ_inv(self@, *vcpu),
            ensures
                self.wf(),
                gich.wf(),
                self@.cpus.len() == old(self)@.cpus.len(),
                same_frame(sys_of(old(self), old(gich), old(fx)), sys_of(self, gich, fx)),
                old(self).inv() ==> self.inv(),
                old(self)@.lists_inv() ==> self@.lists_inv(),
                occ_inv(old(self)@, *vcpu) ==> occ_inv(self@, *vcpu),
                sys_of(self, gich, fx) == sys_of(old(self), old(gich), old(fx)).refill_lrs(*vcpu),
            decreases sys_of(self, gich, fx).lists_len(*vcpu),
        {
            let lr_idx = lr_idx_opt.unwrap();
            proof {
                lemma_first_set_bit(gich@.elrsr, gich@.lrs);
            }
            match self.refill_candidate(vcpu, has_pending) {
                Some((int_id, prev_pend)) => {
                    proof {
                        lemma_refill_step(sys_of(self, gich, fx), *vcpu, has_pending, lr_idx as int);
                    }
                    self.claim(vcpu, int_id);
                    self.write_lr(gich, fx, vcpu, int_id, lr_idx);
                    has_pending = has_pending || prev_pend;
                },
                None => {
                    let hcr = gich.hcr();
                    gich.set_hcr(hcr & !(1u32 << 3));
                    break ;
                },
            }
            lr_idx_opt = bitmap_find_nth(gich.elrsr, 0, gic_lrs, 1, true);
        }
    }

    /// Gives the oldest active interrupt of `vcpu` its end of interrupt.
    #[verifier::rlimit(40)]
    pub fn eoir_highest_spilled_active(
        &mut self,
        gich: &mut GicHypervisorInterface,
        fx: &mut Vec<Effect>,
        vcpu: &Vcpu,
    )
        requires
            old(self).wf(),
            old(gich).wf(),
            vcpu.id < old(self)@.cpus.len(),
        ensures
            sys_of(final(self), final(gich), final(fx)) == sys_of(
                old(self),
                old(gich),
                old(fx),
            ).eoir_highest_spilled_active(*vcpu),
            final(self).wf(),
            final(self)@.cpus.len() == old(self)@.cpus.len(),
            final(gich).wf(),
            final(gich)@.misr == old(gich)@.misr,
            old(self).inv() ==> final(self).inv(),
            old(self)@.lists_inv() ==> final(self)@.lists_inv(),
            occ_inv(old(self)@, *vcpu) && (old(self)@.cpus[vcpu.id as int].act_list.len() > 0 ==> claimed_cleanly(
                old(self)@,
                *vcpu,
                old(self)@.cpus[vcpu.id as int].act_list[0] as int,
            )) ==> occ_inv(final(self)@, *vcpu),
    {
        assert(self@.cpus[vcpu.id as int].wf());
        if let Some(head) = self.int_list_head(vcpu.id, false) {
            let id = head.id() as usize;
            let mut interrupt = self.irq(vcpu.id, id);
            vgic_int_get_owner(vcpu, &mut interrupt);
            let state = interrupt.state();
            interrupt.set_state(crate::irq::IrqState::of_bits(state.is_pending(), false));
            self.set_int(vcpu.id, interrupt);
            self.update_int_list(vcpu.id, id);
            if vgic_int_is_hw(&interrupt) {
                fx.push(Effect::GicdSetAct { int_id: id, act: false });
            } else if interrupt.state().is_pending() {
                proof {
                    lemma_add_lr(sys_of(self, gich, fx), *vcpu, id as int);
                }
                self.add_lr(gich, fx, vcpu, id);
            }
        }
    }
}

/// Gives the list registers the attention that the maintenance status word
/// asks for, for the running virtual CPU `vcpu`: the ends of interrupt are
/// handled and the list registers refilled. Says whether the status word
/// also asks for the spilled active interrupts to get their end of
/// interrupt, which [`end_spilled_interrupt`] does one at a time.
pub fn attend_list_registers(
    vgic: &mut Vgic,
    gich: &mut GicHypervisorInterface,
    fx: &mut Vec<Effect>,
    vcpu: &Vcpu,
) -> (spilled: bool)
    requires
        old(vgic).inv(),
        old(gich).wf(),
        vcpu.id < old(vgic)@.cpus.len(),
    ensures
        sys_of(final(vgic), final(gich), final(fx)) == sys_of(old(vgic), old(gich), old(fx)).attend_list_registers(
            *vcpu,
        ),
        spilled == (old(gich)@.misr & (1u32 << 2) != 0),
        final(vgic).inv(),
        old(vgic)@.lists_inv() ==> final(vgic)@.lists_inv(),
        occ_inv(old(vgic)@, *vcpu) ==> occ_inv(final(vgic)@, *vcpu),
        final(vgic)@.cpus.len() == old(vgic)@.cpus.len(),
        final(gich).wf(),
        final(gich)@.misr == old(gich)@.misr,
{
    let misr = gich.misr();
    if misr & 1 != 0 {
        vgic.handle_trapped_eoir(gich, fx, vcpu);
    }
    if misr & (1u32 << 3) != 0 {
        vgic.refill_lrs(gich, fx, vcpu);
    }
    misr & (1u32 << 2) != 0
}

/// Gives one spilled active interrupt of `vcpu` its end of interrupt, if the
/// control word counts one, and takes one off the count of the control word
/// as it was read. Says whether the control word counted one; where it did
/// not, nothing changes.
pub fn end_spilled_interrupt(
    vgic: &mut Vgic,
    gich: &mut GicHypervisorInterface,
    fx: &mut Vec<Effect>,
    vcpu: &Vcpu,
) -> (counted: bool)
    requires
        old(vgic).inv(),
        old(gich).wf(),
        vcpu.id < old(vgic)@.cpus.len(),
    ensures
        sys_of(final(vgic), final(gich), final(fx)) == sys_of(old(vgic), old(gich), old(fx)).eoi_count_step(*vcpu),
        counted == (hcr_eoi_count(old(gich)@.hcr) != 0),
        counted ==> final(gich)@.hcr == old(gich)@.hcr - (1u32 << 27),
        final(vgic).inv(),
        old(vgic)@.lists_inv() ==> final(vgic)@.lists_inv(),
        occ_inv(old(vgic)@, *vcpu) && all_spilled(sys_of(old(vgic), old(gich), old(fx)), *vcpu) ==> occ_inv(
            final(vgic)@,
            *vcpu,
        ),
        all_spilled(sys_of(old(vgic), old(gich), old(fx)), *vcpu) ==> all_spilled(
            sys_of(final(vgic), final(gich), final(fx)),
            *vcpu,
        ),
        final(vgic)@.cpus.len() == old(vgic)@.cpus.len(),
        final(gich).wf(),
        final(gich)@.misr == old(gich)@.misr,
{
    let hcr = gich.hcr();
    if hcr & (0b11111u32 << 27) != 0 {
        proof {
            lemma_eoi_count(hcr);
            let s = sys_of(vgic, gich, fx);
            assert(s.vgic.cpus[vcpu.id as int].wf());
            if all_spilled(s, *vcpu) && act_list(s, *vcpu).len() > 0 {
                lemma_end_of_interrupt_spills(s, *vcpu);
                assert(!s.irq(*vcpu, act_list(s, *vcpu)[0] as int).inner.in_lr);
            }
        }
        vgic.eoir_highest_spilled_active(gich, fx, vcpu);
        gich.set_hcr(hcr - (1u32 << 27));
        true
    } else {
        false
    }
}

/// Handles the maintenance interrupt for the running virtual CPU `vcpu` on
/// the register bank `gich`: the list registers get their attention, and
/// then, if the status word asks for it, the spilled active interrupts get
/// their end of interrupt one by one until the control word counts none.
pub fn gic_maintenance_handler(
    vgic: &mut Vgic,
    gich: &mut GicHypervisorInterface,
    fx: &mut Vec<Effect>,
    vcpu: &Vcpu,
)
    requires
        old(vgic).inv(),
        old(gich).wf(),
        vcpu.id < old(vgic)@.cpus.len(),
    ensures
        sys_of(final(vgic), final(gich), final(fx)) == sys_of(
            old(vgic),
            old(gich),
            old(fx),
        ).gic_maintenance_handler(*vcpu),
        final(vgic).inv(),
        old(vgic)@.lists_inv() ==> final(vgic)@.lists_inv(),
        final(vgic)@.cpus.len() == old(vgic)@.cpus.len(),
        final(gich).wf(),
        old(gich)@.misr & (1u32 << 2) != 0 ==> hcr_eoi_count(final(gich)@.hcr) == 0,
        occ_inv(old(vgic)@, *vcpu) && all_spilled(
            sys_of(old(vgic), old(gich), old(fx)).attend_list_registers(*vcpu),
            *vcpu,
        ) ==> occ_inv(final(vgic)@, *vcpu),
{
    if attend_list_registers(vgic, gich, fx, vcpu) {
        let mut counted = true;
        while counted
            invariant
                vgic.inv(),
                old(vgic)@.lists_inv() ==> vgic@.lists_inv(),
                occ_inv(old(vgic)@, *vcpu) && all_spilled(
                    sys_of(old(vgic), old(gich), old(fx)).attend_list_registers(*vcpu),
                    *vcpu,
                ) ==> occ_inv(vgic@, *vcpu),
                all_spilled(sys_of(old(vgic), old(gich), old(fx)).attend_list_registers(*vcpu), *vcpu)
                    ==> all_spilled(sys_of(vgic, gich, fx), *vcpu),
                gich.wf(),
                vcpu.id < vgic@.cpus.len(),
                vgic@.cpus.len() == old(vgic)@.cpus.len(),
                !counted ==> hcr_eoi_count(gich@.hcr) == 0,
                sys_of(vgic, gich, fx).eoi_count_loop(*vcpu) == sys_of(
                    old(vgic),
                    old(gich),
                    old(fx),
                ).gic_maintenance_handler(*vcpu),
            decreases gich@.hcr + (if counted { 1int } else { 0int }),
        {
            proof {
                if hcr_eoi_count(gich@.hcr) != 0 {
                    lemma_eoi_count(gich@.hcr);
                }
            }
            counted = end_spilled_interrupt(vgic, gich, fx, vcpu);
        }
    }
}

} // verus!
