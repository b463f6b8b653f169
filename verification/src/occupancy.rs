//! Who claims a list register: the record of occupants agrees with the
//! interrupts that are in a register, so that no register has two claimants
//! among the interrupts of a virtual CPU.

use vstd::prelude::*;
use crate::consts::{GIC_INTS_MAX, GIC_LIST_REGS_NUM, GIC_PRIVINT_NUM};
use crate::gich::lr_id;
use crate::lr::{release_prev, remove_lr};
use crate::lr_proofs::{
    is_irq,
    lemma_irq_wf,
    lemma_latch,
    lemma_lr_id_bound,
    lemma_lr_value_effects,
    lemma_release_prev,
    lemma_remove_lr,
    lemma_set_int_wf,
    lemma_sys_remove_lr,
    lemma_victim_bound,
    lemma_yield_owner,
    others_kept,
};
use crate::lr::victim_lr;
use crate::utils::{first_set_bit, lemma_first_set_bit};
use crate::vcpu::Vcpu;
use crate::vgic::{Sys, VgicView};
use crate::vint::{claimed, vgic_owns, yielded, VgicInt};

verus! {

/// Whether the interrupt, as `vcpu` sees it, is accounted for: if `vcpu`
/// owns it and it is in a list register, the register is recorded as
/// holding it.
pub open spec fn accounted(v: VgicView, vcpu: Vcpu, id: int) -> bool {
    let i = v.irq(vcpu.id as int, id);
    i.inner.in_lr && vgic_owns(vcpu, i) ==> v.cpus[vcpu.id as int].curr_lrs[i.inner.lr as int] == id
}

/// The record of the list registers of `vcpu` agrees with the interrupts
/// that it owns: each of them that is in a register is recorded as the
/// occupant of that register.
pub open spec fn occ_inv(v: VgicView, vcpu: Vcpu) -> bool {
    forall|id: int| 0 <= id < GIC_INTS_MAX ==> #[trigger] accounted(v, vcpu, id)
}

/// Whether `b` comes from `a` by a step that lets no interrupt of `vcpu`
/// into a list register and changes no record: what is in a register in `b`
/// was in that register in `a`, with the same owner.
pub open spec fn occ_step(a: VgicView, b: VgicView, vcpu: Vcpu) -> bool {
    &&& a.cpus.len() == b.cpus.len()
    &&& b.cpus[vcpu.id as int].curr_lrs == a.cpus[vcpu.id as int].curr_lrs
    &&& forall|id: int|
        0 <= id < GIC_INTS_MAX && (#[trigger] b.irq(vcpu.id as int, id)).inner.in_lr ==> a.irq(
            vcpu.id as int,
            id,
        ).inner.in_lr && b.irq(vcpu.id as int, id).inner.lr == a.irq(vcpu.id as int, id).inner.lr && b.irq(
            vcpu.id as int,
            id,
        ).inner.owner == a.irq(vcpu.id as int, id).inner.owner
}

/// Whether claiming interrupt `id` leaves the record alone: an id beyond the
/// last interrupt names nothing to claim, and an interrupt is claimed
/// cleanly unless it is shared, in a list register and without owner.
pub open spec fn claimed_cleanly(v: VgicView, vcpu: Vcpu, id: int) -> bool {
    0 <= id < GIC_INTS_MAX ==> !(v.irq(vcpu.id as int, id).inner.in_lr && v.irq(
        vcpu.id as int,
        id,
    ).inner.owner.is_none() && id >= GIC_PRIVINT_NUM)
}

/// Under the invariant no list register has two claimants among the
/// interrupts that a virtual CPU owns: two of them that are in the same
/// register are one.
pub proof fn law_one_claimant(v: VgicView, vcpu: Vcpu, a: int, b: int)
    requires
        occ_inv(v, vcpu),
        0 <= a < GIC_INTS_MAX,
        0 <= b < GIC_INTS_MAX,
        v.irq(vcpu.id as int, a).inner.in_lr,
        v.irq(vcpu.id as int, b).inner.in_lr,
        vgic_owns(vcpu, v.irq(vcpu.id as int, a)),
        vgic_owns(vcpu, v.irq(vcpu.id as int, b)),
        v.irq(vcpu.id as int, a).inner.lr == v.irq(vcpu.id as int, b).inner.lr,
    ensures
        a == b,
{
    assert(accounted(v, vcpu, a));
    assert(accounted(v, vcpu, b));
}

/// A step that lets nothing into a register keeps the invariant.
pub proof fn lemma_occ_step(a: VgicView, b: VgicView, vcpu: Vcpu)
    requires
        a.wf(),
        b.wf(),
        vcpu.id < a.cpus.len(),
        occ_step(a, b, vcpu),
    ensures
        occ_inv(a, vcpu) ==> occ_inv(b, vcpu),
{
    if occ_inv(a, vcpu) {
        assert forall|id: int| 0 <= id < GIC_INTS_MAX implies #[trigger] accounted(b, vcpu, id) by {
            assert(accounted(a, vcpu, id));
            lemma_irq_wf(a, vcpu.id as int, id);
            lemma_irq_wf(b, vcpu.id as int, id);
        }
    }
}

/// Steps that let nothing into a register compose.
pub proof fn lemma_occ_step_trans(a: VgicView, b: VgicView, c: VgicView, vcpu: Vcpu)
    requires
        occ_step(a, b, vcpu),
        occ_step(b, c, vcpu),
    ensures
        occ_step(a, c, vcpu),
{
    assert forall|id: int| 0 <= id < GIC_INTS_MAX && (#[trigger] c.irq(vcpu.id as int, id)).inner.in_lr implies a.irq(
        vcpu.id as int,
        id,
    ).inner.in_lr && c.irq(vcpu.id as int, id).inner.lr == a.irq(vcpu.id as int, id).inner.lr && c.irq(
        vcpu.id as int,
        id,
    ).inner.owner == a.irq(vcpu.id as int, id).inner.owner by {
        assert(b.irq(vcpu.id as int, id).inner.in_lr);
    }
}

/// A controller in which one interrupt changed, and that interrupt is out of
/// its register or in it as before with the owner it had, came by a step that
/// lets nothing into a register.
pub proof fn lemma_occ_one(a: VgicView, b: VgicView, vcpu: Vcpu, int_id: int)
    requires
        a.wf(),
        vcpu.id < a.cpus.len(),
        0 <= int_id < GIC_INTS_MAX,
        others_kept(a, b, vcpu.id as int, int_id),
        b.cpus[vcpu.id as int].curr_lrs == a.cpus[vcpu.id as int].curr_lrs,
        b.irq(vcpu.id as int, int_id).inner.in_lr ==> a.irq(vcpu.id as int, int_id).inner.in_lr && b.irq(
            vcpu.id as int,
            int_id,
        ).inner.lr == a.irq(vcpu.id as int, int_id).inner.lr && b.irq(vcpu.id as int, int_id).inner.owner == a.irq(
            vcpu.id as int,
            int_id,
        ).inner.owner,
    ensures
        occ_step(a, b, vcpu),
{
    assert forall|id: int| 0 <= id < GIC_INTS_MAX && (#[trigger] b.irq(vcpu.id as int, id)).inner.in_lr implies a.irq(
        vcpu.id as int,
        id,
    ).inner.in_lr && b.irq(vcpu.id as int, id).inner.lr == a.irq(vcpu.id as int, id).inner.lr && b.irq(
        vcpu.id as int,
        id,
    ).inner.owner == a.irq(vcpu.id as int, id).inner.owner by {
        if !is_irq(vcpu.id as int, int_id, vcpu.id as int, id) {
            assert(b.irq(vcpu.id as int, id) == a.irq(vcpu.id as int, id));
        }
    }
}

/// Storing an interrupt keeps the invariant if the interrupt, where `vcpu`
/// owns it and it is in a register, was in that register and owned by `vcpu`
/// before.
pub proof fn lemma_set_int_occ(v: VgicView, vcpu: Vcpu, i: VgicInt)
    requires
        v.wf(),
        vcpu.id < v.cpus.len(),
        i.wf(),
        occ_inv(v, vcpu),
        i.inner.in_lr && vgic_owns(vcpu, i) ==> v.irq(vcpu.id as int, i.id as int).inner.in_lr && i.inner.lr == v.irq(
            vcpu.id as int,
            i.id as int,
        ).inner.lr && vgic_owns(vcpu, v.irq(vcpu.id as int, i.id as int)),
    ensures
        occ_inv(v.set_int(vcpu.id as int, i), vcpu),
{
    let c = vcpu.id as int;
    let w = v.set_int(c, i);
    lemma_set_int_wf(v, c, i);
    assert forall|id: int| 0 <= id < GIC_INTS_MAX implies #[trigger] accounted(w, vcpu, id) by {
        assert(accounted(v, vcpu, id));
        lemma_irq_wf(v, c, id);
        if !is_irq(c, i.id as int, c, id) {
            assert(w.irq(c, id) == v.irq(c, id));
        }
    }
}

/// Bringing the lists in line with the state of an interrupt keeps the
/// invariant.
pub proof fn lemma_update_int_list_occ(v: VgicView, vcpu: Vcpu, int_id: int)
    requires
        v.wf(),
        vcpu.id < v.cpus.len(),
        0 <= int_id < GIC_INTS_MAX,
        occ_inv(v, vcpu),
    ensures
        occ_inv(v.update_int_list(vcpu.id as int, int_id), vcpu),
{
    crate::lr_proofs::lemma_update_int_list_wf(v, vcpu.id as int, int_id);
    lemma_occ_one(v, v.update_int_list(vcpu.id as int, int_id), vcpu, int_id);
    lemma_occ_step(v, v.update_int_list(vcpu.id as int, int_id), vcpu);
}

/// Replacing the sources of a software-generated interrupt keeps the
/// invariant.
pub proof fn lemma_set_sgis_occ(v: VgicView, vcpu: Vcpu, idx: int, sgis: crate::vint_private::Sgis)
    requires
        v.wf(),
        vcpu.id < v.cpus.len(),
        0 <= idx < crate::consts::GIC_SGIS_NUM,
        occ_inv(v, vcpu),
    ensures
        occ_inv(v.set_sgis(vcpu.id as int, idx, sgis), vcpu),
{
    crate::lr_proofs::lemma_set_sgis_wf(v, vcpu.id as int, idx, sgis);
    let w = v.set_sgis(vcpu.id as int, idx, sgis);
    assert(others_kept(v, w, vcpu.id as int, 0)) by {
        assert(others_kept(v, w, -1, -1));
    }
    assert(w.irq(vcpu.id as int, 0) == v.irq(vcpu.id as int, 0)) by {
        assert(!is_irq(-1, -1, vcpu.id as int, 0));
    }
    lemma_occ_one(v, w, vcpu, 0);
    lemma_occ_step(v, w, vcpu);
}

/// Taking an interrupt out of its list register keeps the invariant.
pub proof fn lemma_remove_lr_occ(s: Sys, vcpu: Vcpu, int_id: int)
    requires
        s.wf(),
        vcpu.id < s.vgic.cpus.len(),
        0 <= int_id < GIC_INTS_MAX,
    ensures
        occ_step(s.vgic, s.remove_lr(vcpu, int_id).vgic, vcpu),
        occ_inv(s.vgic, vcpu) ==> occ_inv(s.remove_lr(vcpu, int_id).vgic, vcpu),
{
    lemma_remove_lr(s.vgic, s.gich, vcpu, int_id);
    lemma_sys_remove_lr(s, vcpu, int_id);
    lemma_occ_one(s.vgic, s.remove_lr(vcpu, int_id).vgic, vcpu, int_id);
    lemma_occ_step(s.vgic, s.remove_lr(vcpu, int_id).vgic, vcpu);
}

/// Giving an interrupt up keeps the invariant: only an interrupt that is in
/// no register is given up.
pub proof fn lemma_yield_owner_occ(s: Sys, vcpu: Vcpu, int_id: int)
    requires
        s.wf(),
        vcpu.id < s.vgic.cpus.len(),
        0 <= int_id < GIC_INTS_MAX,
    ensures
        occ_step(s.vgic, s.yield_owner(vcpu, int_id).vgic, vcpu),
        occ_inv(s.vgic, vcpu) ==> occ_inv(s.yield_owner(vcpu, int_id).vgic, vcpu),
{
    lemma_yield_owner(s, vcpu, int_id);
    lemma_occ_one(s.vgic, s.yield_owner(vcpu, int_id).vgic, vcpu, int_id);
    lemma_occ_step(s.vgic, s.yield_owner(vcpu, int_id).vgic, vcpu);
}

/// Claiming an interrupt keeps the invariant, unless the interrupt is shared,
/// in a list register and without owner: a register that was written for
/// nobody may have been given away since.
pub proof fn lemma_claimed_occ(v: VgicView, vcpu: Vcpu, int_id: int)
    requires
        v.wf(),
        vcpu.id < v.cpus.len(),
        0 <= int_id < GIC_INTS_MAX,
        occ_inv(v, vcpu),
        !(v.irq(vcpu.id as int, int_id).inner.in_lr && v.irq(vcpu.id as int, int_id).inner.owner.is_none()
            && int_id >= GIC_PRIVINT_NUM),
    ensures
        occ_inv(v.set_int(vcpu.id as int, claimed(vcpu, v.irq(vcpu.id as int, int_id))), vcpu),
{
    let c = vcpu.id as int;
    lemma_irq_wf(v, c, int_id);
    let j = claimed(vcpu, v.irq(c, int_id));
    let w = v.set_int(c, j);
    lemma_set_int_wf(v, c, j);
    assert forall|id: int| 0 <= id < GIC_INTS_MAX implies #[trigger] accounted(w, vcpu, id) by {
        assert(accounted(v, vcpu, id));
        lemma_irq_wf(v, c, id);
        if !is_irq(c, int_id, c, id) {
            assert(w.irq(c, id) == v.irq(c, id));
        }
    }
}

/// Storing what giving an interrupt up leaves of it keeps the invariant.
pub proof fn lemma_yielded_occ(v: VgicView, vcpu: Vcpu, int_id: int)
    requires
        v.wf(),
        vcpu.id < v.cpus.len(),
        0 <= int_id < GIC_INTS_MAX,
    ensures
        occ_inv(v, vcpu) ==> occ_inv(v.set_int(vcpu.id as int, yielded(vcpu, v.irq(vcpu.id as int, int_id))), vcpu),
{
    let c = vcpu.id as int;
    lemma_irq_wf(v, c, int_id);
    let w = v.set_int(c, yielded(vcpu, v.irq(c, int_id)));
    lemma_set_int_wf(v, c, yielded(vcpu, v.irq(c, int_id)));
    lemma_occ_one(v, w, vcpu, int_id);
    lemma_occ_step(v, w, vcpu);
}

/// Releasing the recorded occupant of a list register keeps the invariant,
/// and afterwards no other interrupt that `vcpu` owns is in that register.
pub proof fn lemma_release_prev_occ(v: VgicView, vcpu: Vcpu, int_id: int, lr_ind: int)
    requires
        v.wf(),
        vcpu.id < v.cpus.len(),
        0 <= int_id < GIC_INTS_MAX,
        0 <= lr_ind < GIC_LIST_REGS_NUM,
    ensures
        occ_step(v, release_prev(v, vcpu, int_id, lr_ind), vcpu),
        occ_inv(v, vcpu) ==> occ_inv(release_prev(v, vcpu, int_id, lr_ind), vcpu),
        occ_inv(v, vcpu) ==> forall|j: int|
            0 <= j < GIC_INTS_MAX && j != int_id && (#[trigger] release_prev(v, vcpu, int_id, lr_ind).irq(
                vcpu.id as int,
                j,
            )).inner.in_lr && vgic_owns(vcpu, release_prev(v, vcpu, int_id, lr_ind).irq(vcpu.id as int, j))
                ==> release_prev(v, vcpu, int_id, lr_ind).irq(vcpu.id as int, j).inner.lr != lr_ind,
{
    reveal(release_prev);
    lemma_release_prev(v, vcpu, int_id, lr_ind);
    let c = vcpu.id as int;
    let w = release_prev(v, vcpu, int_id, lr_ind);
    assert(v.cpus[c].wf());
    let prev_id = v.cpus[c].curr_lrs[lr_ind] as int;
    if prev_id != int_id && prev_id < GIC_INTS_MAX {
        lemma_irq_wf(v, c, prev_id);
        let p = v.irq(c, prev_id);
        let freed = p.with_in_lr(false);
        lemma_set_int_wf(v, c, freed);
        lemma_set_int_wf(v, c, yielded(vcpu, freed));
        lemma_occ_one(v, w, vcpu, prev_id);
    } else {
        lemma_occ_one(v, w, vcpu, int_id);
    }
    lemma_occ_step(v, w, vcpu);
    if occ_inv(v, vcpu) {
        assert forall|j: int|
            0 <= j < GIC_INTS_MAX && j != int_id && (#[trigger] w.irq(c, j)).inner.in_lr && vgic_owns(
                vcpu,
                w.irq(c, j),
            ) implies w.irq(c, j).inner.lr != lr_ind by {
            assert(accounted(v, vcpu, j));
            assert(v.irq(c, j).inner.in_lr);
            lemma_irq_wf(v, c, j);
            lemma_irq_wf(w, c, j);
            if w.irq(c, j).inner.lr == lr_ind {
                assert(prev_id == j);
            }
        }
    }
}

/// Writing an interrupt into a list register keeps the invariant: the
/// register's former claimant is released, and the record names the new one.
pub proof fn lemma_write_lr_occ(s: Sys, vcpu: Vcpu, int_id: int, lr_ind: int)
    requires
        s.wf(),
        vcpu.id < s.vgic.cpus.len(),
        0 <= int_id < GIC_INTS_MAX,
        0 <= lr_ind < GIC_LIST_REGS_NUM,
        occ_inv(s.vgic, vcpu),
    ensures
        occ_inv(s.write_lr(vcpu, int_id, lr_ind).vgic, vcpu),
{
    reveal(Sys::write_lr);
    reveal(Sys::latch);
    let c = vcpu.id as int;
    lemma_irq_wf(s.vgic, c, int_id);
    lemma_release_prev(s.vgic, vcpu, int_id, lr_ind);
    lemma_release_prev_occ(s.vgic, vcpu, int_id, lr_ind);
    let s1 = s.release_prev(vcpu, int_id, lr_ind);
    lemma_lr_value_effects(s1, vcpu, int_id);
    let s2 = s1.lr_value_effects(vcpu, int_id);
    let lr = s1.lr_value(vcpu, int_id);
    lemma_latch(s2, vcpu, int_id, lr_ind, lr);
    let s3 = s2.latch(vcpu, int_id, lr_ind, lr);
    assert(s3 == s.write_lr(vcpu, int_id, lr_ind));
    // the record after the write
    let i = s2.irq(vcpu, int_id);
    lemma_irq_wf(s2.vgic, c, int_id);
    lemma_set_int_wf(s2.vgic, c, i.latched(lr_ind as u16));
    let v3 = s2.vgic.set_int(c, i.latched(lr_ind as u16));
    crate::lr_proofs::lemma_set_curr_lr_wf(v3, c, lr_ind, int_id as u16);
    let v4 = v3.set_curr_lr(c, lr_ind, int_id as u16);
    crate::lr_proofs::lemma_update_int_list_wf(v4, c, int_id);
    assert(s3.vgic == v4.update_int_list(c, int_id));
    assert(s3.vgic.cpus[c].curr_lrs == s.vgic.cpus[c].curr_lrs.update(lr_ind, int_id as u16));
    assert(s.vgic.cpus[c].wf());
    assert forall|j: int| 0 <= j < GIC_INTS_MAX implies #[trigger] accounted(s3.vgic, vcpu, j) by {
        lemma_irq_wf(s3.vgic, c, j);
        if j != int_id {
            assert(!is_irq(c, int_id, c, j));
            assert(s3.vgic.irq(c, j) == s2.vgic.irq(c, j));
            assert(s2.vgic.irq(c, j) == s1.vgic.irq(c, j)) by {
                if j < GIC_PRIVINT_NUM {
                    assert(s2.vgic.cpus[c].interrupts == s1.vgic.cpus[c].interrupts);
                }
            }
            assert(accounted(s1.vgic, vcpu, j));
        }
    }
}

/// Evicting the occupant of a list register keeps the invariant.
pub proof fn lemma_evict_occ(s: Sys, vcpu: Vcpu, idx: int)
    requires
        s.wf(),
        vcpu.id < s.vgic.cpus.len(),
        0 <= idx < GIC_LIST_REGS_NUM,
    ensures
        occ_step(s.vgic, s.evict(vcpu, idx).vgic, vcpu),
        occ_inv(s.vgic, vcpu) ==> occ_inv(s.evict(vcpu, idx).vgic, vcpu),
{
    let spilled = lr_id(s.gich.lr[idx]) as int;
    lemma_lr_id_bound(s.gich.lr[idx]);
    lemma_sys_remove_lr(s, vcpu, spilled);
    lemma_remove_lr_occ(s, vcpu, spilled);
    let s1 = s.remove_lr(vcpu, spilled);
    lemma_yield_owner_occ(s1, vcpu, spilled);
    lemma_occ_step_trans(s.vgic, s1.vgic, s1.yield_owner(vcpu, spilled).vgic, vcpu);
    lemma_yield_owner(s1, vcpu, spilled);
    lemma_occ_step(s.vgic, s.evict(vcpu, idx).vgic, vcpu);
}

/// Putting an interrupt into a list register keeps the invariant.
pub proof fn lemma_add_lr_occ(s: Sys, vcpu: Vcpu, int_id: int)
    requires
        s.wf(),
        vcpu.id < s.vgic.cpus.len(),
        0 <= int_id < GIC_INTS_MAX,
        occ_inv(s.vgic, vcpu),
    ensures
        occ_inv(s.add_lr(vcpu, int_id).vgic, vcpu),
{
    reveal(Sys::add_lr);
    let c = vcpu.id as int;
    let i = s.irq(vcpu, int_id);
    lemma_first_set_bit(s.gich.elrsr, s.gich.lrs);
    lemma_victim_bound(s.gich);
    if i.inner.enabled && !i.inner.in_lr {
        match first_set_bit(s.gich.elrsr, s.gich.lrs) {
            Some(idx) => {
                lemma_write_lr_occ(s, vcpu, int_id, idx as int);
            },
            None => match victim_lr(s.gich) {
                Some(idx) => {
                    let spilled = lr_id(s.gich.lr[idx as int]) as int;
                    lemma_lr_id_bound(s.gich.lr[idx as int]);
                    crate::lr_proofs::lemma_evict(s, vcpu, idx as int);
                    lemma_evict_occ(s, vcpu, idx as int);
                    let s1 = s.evict(vcpu, idx as int);
                    lemma_write_lr_occ(s1, vcpu, int_id, idx as int);
                },
                None => {},
            },
        }
    }
}

} // verus!
