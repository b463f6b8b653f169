//! Facts about the list-register engine's model: what its operations keep
//! and what they leave alone.

use vstd::prelude::*;
use crate::consts::{GIC_INTS_MAX, GIC_LIST_REGS_NUM, GIC_PRIVINT_NUM, GIC_SGIS_NUM};
use crate::gich::{
    lemma_with_status_bit,
    lr_cpuid,
    lr_has_eoi,
    lr_id,
    lr_is_empty,
    lr_state,
    status_bit,
    GichView,
};
use crate::irq::IrqState;
use crate::lr::{fold_source, num_active, release_prev, remove_lr, scan_lrs, sgi_pend_rest, victim_lr};
use crate::lr_bits::{lemma_lr_val_sgi_act, lemma_lr_val_sgi_pend};
use crate::utils::{first_set_bit, lemma_first_set_bit};
use crate::vcpu::Vcpu;
use crate::vgic::{followed, lemma_follow_lists_wf, Sys, VgicView};
use crate::vint::{spec_gich_get_lr, spec_vgic_get_state, spec_vgic_int_is_hw, vgic_owns, yielded, VgicInt};
use crate::vint_private::Sgis;

verus! {

/// What an operation of the engine never changes: the number of virtual
/// CPUs, the core and the size of the register bank, and everything about
/// the distributor that is not an interrupt.
pub open spec fn same_frame(a: Sys, b: Sys) -> bool {
    &&& a.vgic.cpus.len() == b.vgic.cpus.len()
    &&& a.gich.cpu_id == b.gich.cpu_id
    &&& a.gich.lrs == b.gich.lrs
    &&& a.gich.vtr == b.gich.vtr
    &&& a.gich.misr == b.gich.misr
}

/// Whether two values of an interrupt agree in what only a guest's request
/// changes: identity, hardware backing, enablement, priority, targets and
/// configuration.
pub open spec fn same_config(a: VgicInt, b: VgicInt) -> bool {
    &&& a.id == b.id
    &&& a.hw == b.hw
    &&& a.inner.enabled == b.inner.enabled
    &&& a.inner.prio == b.inner.prio
    &&& a.inner.targets == b.inner.targets
    &&& a.inner.cfg == b.inner.cfg
}

/// Whether `id` as virtual CPU `c` sees it is the interrupt `int_id` as
/// virtual CPU `vcpu_id` sees it.
pub open spec fn is_irq(vcpu_id: int, int_id: int, c: int, id: int) -> bool {
    id == int_id && (c == vcpu_id || id >= GIC_PRIVINT_NUM)
}

/// Every interrupt of `b` has the configuration it has in `a`.
pub open spec fn config_kept(a: VgicView, b: VgicView) -> bool {
    &&& a.cpus.len() == b.cpus.len()
    &&& forall|c: int, id: int|
        0 <= c < a.cpus.len() && 0 <= id < GIC_INTS_MAX ==> same_config(#[trigger] b.irq(c, id), a.irq(c, id))
}

/// Every interrupt of `b` but `int_id` as `vcpu_id` sees it is as in `a`.
pub open spec fn others_kept(a: VgicView, b: VgicView, vcpu_id: int, int_id: int) -> bool {
    &&& a.cpus.len() == b.cpus.len()
    &&& forall|c: int, id: int|
        0 <= c < a.cpus.len() && 0 <= id < GIC_INTS_MAX && !is_irq(vcpu_id, int_id, c, id) ==> #[trigger] b.irq(
            c,
            id,
        ) == a.irq(c, id)
}

/// Every interrupt of `b` has the owner it has in `a`, or none.
pub open spec fn owners_weakened(a: VgicView, b: VgicView) -> bool {
    &&& a.cpus.len() == b.cpus.len()
    &&& forall|c: int, id: int|
        0 <= c < a.cpus.len() && 0 <= id < GIC_INTS_MAX ==> (#[trigger] b.irq(c, id)).inner.owner == a.irq(
            c,
            id,
        ).inner.owner || b.irq(c, id).inner.owner.is_none()
}

/// What every step of the engine keeps: well-formedness, the frame, the
/// configuration of every interrupt, and the invariant; and no interrupt
/// gets another owner.
pub open spec fn step_ok(a: Sys, b: Sys) -> bool {
    &&& b.wf()
    &&& same_frame(a, b)
    &&& config_kept(a.vgic, b.vgic)
    &&& owners_weakened(a.vgic, b.vgic)
    &&& (a.inv() ==> b.inv())
}

/// Steps compose.
pub proof fn lemma_step_trans(a: Sys, b: Sys, c: Sys)
    requires
        step_ok(a, b),
        step_ok(b, c),
    ensures
        step_ok(a, c),
{
    assert forall|k: int, id: int| 0 <= k < a.vgic.cpus.len() && 0 <= id < GIC_INTS_MAX implies same_config(
        #[trigger] c.vgic.irq(k, id),
        a.vgic.irq(k, id),
    ) by {
        assert(same_config(b.vgic.irq(k, id), a.vgic.irq(k, id)));
    }
    assert forall|k: int, id: int| 0 <= k < a.vgic.cpus.len() && 0 <= id < GIC_INTS_MAX implies (
    #[trigger] c.vgic.irq(k, id)).inner.owner == a.vgic.irq(k, id).inner.owner || c.vgic.irq(
        k,
        id,
    ).inner.owner.is_none() by {
        assert(b.vgic.irq(k, id).inner.owner == a.vgic.irq(k, id).inner.owner || b.vgic.irq(
            k,
            id,
        ).inner.owner.is_none());
    }
}

/// A system that changed in one interrupt's state only took a step.
pub proof fn lemma_others_kept_config(a: VgicView, b: VgicView, vcpu_id: int, int_id: int)
    requires
        a.wf(),
        0 <= vcpu_id < a.cpus.len(),
        0 <= int_id < GIC_INTS_MAX,
        others_kept(a, b, vcpu_id, int_id),
        same_config(b.irq(vcpu_id, int_id), a.irq(vcpu_id, int_id)),
    ensures
        config_kept(a, b),
        b.irq(vcpu_id, int_id).inner.owner == a.irq(vcpu_id, int_id).inner.owner || b.irq(
            vcpu_id,
            int_id,
        ).inner.owner.is_none() ==> owners_weakened(a, b),
{
    assert forall|c: int, id: int| 0 <= c < a.cpus.len() && 0 <= id < GIC_INTS_MAX implies same_config(
        #[trigger] b.irq(c, id),
        a.irq(c, id),
    ) by {
        if is_irq(vcpu_id, int_id, c, id) {
            assert(b.irq(c, id) == b.irq(vcpu_id, int_id));
            assert(a.irq(c, id) == a.irq(vcpu_id, int_id));
        }
    }
    if b.irq(vcpu_id, int_id).inner.owner == a.irq(vcpu_id, int_id).inner.owner || b.irq(
        vcpu_id,
        int_id,
    ).inner.owner.is_none() {
        assert forall|c: int, id: int| 0 <= c < a.cpus.len() && 0 <= id < GIC_INTS_MAX implies (
        #[trigger] b.irq(c, id)).inner.owner == a.irq(c, id).inner.owner || b.irq(c, id).inner.owner.is_none() by {
            if is_irq(vcpu_id, int_id, c, id) {
                assert(b.irq(c, id) == b.irq(vcpu_id, int_id));
                assert(a.irq(c, id) == a.irq(vcpu_id, int_id));
            }
        }
    }
}

/// Storing a well-formed interrupt at its own id keeps the controller well
/// formed.
pub proof fn lemma_set_int_wf(v: VgicView, vcpu_id: int, i: VgicInt)
    requires
        v.wf(),
        0 <= vcpu_id < v.cpus.len(),
        i.wf(),
    ensures
        v.set_int(vcpu_id, i).wf(),
        v.set_int(vcpu_id, i).cpus.len() == v.cpus.len(),
        v.set_int(vcpu_id, i).irq(vcpu_id, i.id as int) == i,
        others_kept(v, v.set_int(vcpu_id, i), vcpu_id, i.id as int),
        forall|c: int|
            0 <= c < v.cpus.len() ==> (#[trigger] v.set_int(vcpu_id, i).cpus[c]).pend_list == v.cpus[c].pend_list
                && v.set_int(vcpu_id, i).cpus[c].act_list == v.cpus[c].act_list && v.set_int(
                vcpu_id,
                i,
            ).cpus[c].sgis == v.cpus[c].sgis && v.set_int(vcpu_id, i).cpus[c].curr_lrs == v.cpus[c].curr_lrs,
        v.inv_except(vcpu_id, i.id as int) ==> v.set_int(vcpu_id, i).inv_except(vcpu_id, i.id as int),
        v.inv_except(vcpu_id, i.id as int) && i.flags_agree() ==> v.set_int(vcpu_id, i).inv(),
{
    assert(v.cpus[vcpu_id].wf());
}

/// Bringing the lists in line keeps the controller well formed and makes
/// the interrupt's flags agree with its state.
pub proof fn lemma_update_int_list_wf(v: VgicView, vcpu_id: int, int_id: int)
    requires
        v.wf(),
        0 <= vcpu_id < v.cpus.len(),
        0 <= int_id < GIC_INTS_MAX,
    ensures
        v.update_int_list(vcpu_id, int_id).wf(),
        v.update_int_list(vcpu_id, int_id).cpus.len() == v.cpus.len(),
        v.inv_except(vcpu_id, int_id) ==> v.update_int_list(vcpu_id, int_id).inv(),
        v.update_int_list(vcpu_id, int_id).irq(vcpu_id, int_id) == v.irq(vcpu_id, int_id).with_in_pend(
            v.irq(vcpu_id, int_id).inner.state.pending(),
        ).with_in_act(v.irq(vcpu_id, int_id).inner.state.active()),
        others_kept(v, v.update_int_list(vcpu_id, int_id), vcpu_id, int_id),
        config_kept(v, v.update_int_list(vcpu_id, int_id)),
        owners_weakened(v, v.update_int_list(vcpu_id, int_id)),
        forall|c: int|
            0 <= c < v.cpus.len() ==> (#[trigger] v.update_int_list(vcpu_id, int_id).cpus[c]).sgis
                == v.cpus[c].sgis && v.update_int_list(vcpu_id, int_id).cpus[c].curr_lrs == v.cpus[c].curr_lrs,
        v.update_int_list(vcpu_id, int_id).cpus[vcpu_id].pend_list == followed(
            v.cpus[vcpu_id].pend_list,
            int_id as u16,
            v.irq(vcpu_id, int_id).inner.state.pending(),
            v.irq(vcpu_id, int_id).inner.in_pend,
            true,
            int_id >= GIC_PRIVINT_NUM,
        ),
        v.update_int_list(vcpu_id, int_id).cpus[vcpu_id].act_list == followed(
            v.cpus[vcpu_id].act_list,
            int_id as u16,
            v.irq(vcpu_id, int_id).inner.state.active(),
            v.irq(vcpu_id, int_id).inner.in_act,
            true,
            int_id >= GIC_PRIVINT_NUM,
        ),
{
    let i = v.irq(vcpu_id, int_id);
    let pend = i.inner.state.pending();
    let act = i.inner.state.active();
    lemma_follow_lists_wf(v, vcpu_id, int_id, v.cpus.len() as int);
    let v1 = v.follow_lists(vcpu_id, int_id, v.cpus.len() as int);
    let i2 = i.with_in_pend(pend).with_in_act(act);
    lemma_irq_wf(v, vcpu_id, int_id);
    lemma_set_int_wf(v1, vcpu_id, i2);
    assert(v.inv_except(vcpu_id, int_id) ==> v1.inv_except(vcpu_id, int_id));
    let v2 = v1.set_int(vcpu_id, i2);
    assert forall|k: int, id: int|
        0 <= k < v.cpus.len() && 0 <= id < GIC_INTS_MAX && !is_irq(vcpu_id, int_id, k, id) implies #[trigger] v2.irq(
        k,
        id,
    ) == v.irq(k, id) by {
        assert(v2.irq(k, id) == v1.irq(k, id));
        assert(v1.cpus[k].interrupts == v.cpus[k].interrupts);
    }
    assert(v1.cpus[vcpu_id].interrupts == v.cpus[vcpu_id].interrupts);
    lemma_irq_wf(v, vcpu_id, int_id);
    lemma_others_kept_config(v, v2, vcpu_id, int_id);
}

/// Every bit that is set in `a` is set in `b`.
pub open spec fn status_subset(a: u64, b: u64) -> bool {
    forall|j: int| 0 <= j < 64 ==> (#[trigger] status_bit(a, j) ==> status_bit(b, j))
}

/// The value zero is an empty list register without end of interrupt.
pub proof fn lemma_lr_zero()
    ensures
        lr_is_empty(0),
        !lr_has_eoi(0),
        lr_state(0) == 0,
        lr_id(0) == 0,
{
    assert(lr_is_empty(0) && !lr_has_eoi(0) && lr_state(0) == 0 && lr_id(0) == 0) by (bit_vector);
}

/// Writing a list register keeps the bank well formed, changes that
/// register and its two status bits, and nothing else.
pub proof fn lemma_set_lr(g: GichView, idx: int, val: u32)
    requires
        g.wf(),
        0 <= idx < GIC_LIST_REGS_NUM,
    ensures
        g.set_lr(idx, val).wf(),
        g.set_lr(idx, val).cpu_id == g.cpu_id,
        g.set_lr(idx, val).lrs == g.lrs,
        g.set_lr(idx, val).hcr == g.hcr,
        g.set_lr(idx, val).lr[idx] == val,
        forall|j: int| 0 <= j < GIC_LIST_REGS_NUM && j != idx ==> #[trigger] g.set_lr(idx, val).lr[j] == g.lr[j],
        forall|j: int|
            0 <= j < 64 ==> #[trigger] status_bit(g.set_lr(idx, val).eisr, j) == (if j == idx {
                lr_has_eoi(val)
            } else {
                status_bit(g.eisr, j)
            }),
        forall|j: int|
            0 <= j < 64 ==> #[trigger] status_bit(g.set_lr(idx, val).elrsr, j) == (if j == idx {
                lr_is_empty(val)
            } else {
                status_bit(g.elrsr, j)
            }),
        !lr_has_eoi(val) ==> status_subset(g.set_lr(idx, val).eisr, g.eisr),
{
    assert forall|j: int| 0 <= j < 64 implies #[trigger] status_bit(g.set_lr(idx, val).eisr, j) == (if j == idx {
        lr_has_eoi(val)
    } else {
        status_bit(g.eisr, j)
    }) by {
        lemma_with_status_bit(g.eisr, idx, lr_has_eoi(val), j);
    }
    assert forall|j: int| 0 <= j < 64 implies #[trigger] status_bit(g.set_lr(idx, val).elrsr, j) == (if j
        == idx {
        lr_is_empty(val)
    } else {
        status_bit(g.elrsr, j)
    }) by {
        lemma_with_status_bit(g.elrsr, idx, lr_is_empty(val), j);
    }
}

/// Replacing the sources of a software-generated interrupt keeps the
/// controller well formed and touches no interrupt and no list.
pub proof fn lemma_set_sgis_wf(v: VgicView, vcpu_id: int, idx: int, sgis: Sgis)
    requires
        v.wf(),
        0 <= vcpu_id < v.cpus.len(),
        0 <= idx < GIC_SGIS_NUM,
    ensures
        v.set_sgis(vcpu_id, idx, sgis).wf(),
        v.set_sgis(vcpu_id, idx, sgis).cpus.len() == v.cpus.len(),
        v.set_sgis(vcpu_id, idx, sgis).spis == v.spis,
        others_kept(v, v.set_sgis(vcpu_id, idx, sgis), -1, -1),
        config_kept(v, v.set_sgis(vcpu_id, idx, sgis)),
        owners_weakened(v, v.set_sgis(vcpu_id, idx, sgis)),
        forall|c: int|
            0 <= c < v.cpus.len() ==> (#[trigger] v.set_sgis(vcpu_id, idx, sgis).cpus[c]).interrupts
                == v.cpus[c].interrupts && v.set_sgis(vcpu_id, idx, sgis).cpus[c].pend_list
                == v.cpus[c].pend_list && v.set_sgis(vcpu_id, idx, sgis).cpus[c].act_list == v.cpus[c].act_list
                && v.set_sgis(vcpu_id, idx, sgis).cpus[c].curr_lrs == v.cpus[c].curr_lrs,
        forall|c: int, i: int| #[trigger] v.inv_except(c, i) ==> v.set_sgis(vcpu_id, idx, sgis).inv_except(c, i),
        v.inv() ==> v.set_sgis(vcpu_id, idx, sgis).inv(),
{
    assert(v.cpus[vcpu_id].wf());
    let v1 = v.set_sgis(vcpu_id, idx, sgis);
    assert forall|k: int| 0 <= k < v1.cpus.len() implies (#[trigger] v1.cpus[k]).wf() by {
        if k != vcpu_id {
            assert(v1.cpus[k] == v.cpus[k]);
        }
    }
    assert forall|c: int, i: int| #[trigger] v.inv_except(c, i) implies v1.inv_except(c, i) by {
        assert forall|k: int, j: int|
            0 <= k < v1.cpus.len() && 0 <= j < GIC_PRIVINT_NUM && !(k == c && j == i) implies (
        #[trigger] v1.cpus[k].interrupts[j]).flags_agree() by {
            assert(v1.cpus[k].interrupts[j] == v.cpus[k].interrupts[j]);
        }
    }
    assert(v.inv() ==> v1.inv()) by {
        if v.inv() {
            assert(v.inv_except(-1, -1));
            assert(v1.inv_except(-1, -1));
        }
    }
}

/// Recording the occupant of a list register keeps the controller well
/// formed and touches no interrupt and no list.
pub proof fn lemma_set_curr_lr_wf(v: VgicView, vcpu_id: int, idx: int, val: u16)
    requires
        v.wf(),
        0 <= vcpu_id < v.cpus.len(),
        0 <= idx < GIC_LIST_REGS_NUM,
    ensures
        v.set_curr_lr(vcpu_id, idx, val).wf(),
        v.set_curr_lr(vcpu_id, idx, val).cpus.len() == v.cpus.len(),
        v.set_curr_lr(vcpu_id, idx, val).spis == v.spis,
        others_kept(v, v.set_curr_lr(vcpu_id, idx, val), -1, -1),
        config_kept(v, v.set_curr_lr(vcpu_id, idx, val)),
        owners_weakened(v, v.set_curr_lr(vcpu_id, idx, val)),
        forall|c: int|
            0 <= c < v.cpus.len() ==> (#[trigger] v.set_curr_lr(vcpu_id, idx, val).cpus[c]).interrupts
                == v.cpus[c].interrupts && v.set_curr_lr(vcpu_id, idx, val).cpus[c].pend_list
                == v.cpus[c].pend_list && v.set_curr_lr(vcpu_id, idx, val).cpus[c].act_list
                == v.cpus[c].act_list && v.set_curr_lr(vcpu_id, idx, val).cpus[c].sgis == v.cpus[c].sgis,
        forall|c: int, i: int| #[trigger] v.inv_except(c, i) ==> v.set_curr_lr(vcpu_id, idx, val).inv_except(c, i),
        v.inv() ==> v.set_curr_lr(vcpu_id, idx, val).inv(),
{
    assert(v.cpus[vcpu_id].wf());
    let v1 = v.set_curr_lr(vcpu_id, idx, val);
    assert forall|k: int| 0 <= k < v1.cpus.len() implies (#[trigger] v1.cpus[k]).wf() by {
        if k != vcpu_id {
            assert(v1.cpus[k] == v.cpus[k]);
        }
    }
    assert forall|c: int, i: int| #[trigger] v.inv_except(c, i) implies v1.inv_except(c, i) by {
        assert forall|k: int, j: int|
            0 <= k < v1.cpus.len() && 0 <= j < GIC_PRIVINT_NUM && !(k == c && j == i) implies (
        #[trigger] v1.cpus[k].interrupts[j]).flags_agree() by {
            assert(v1.cpus[k].interrupts[j] == v.cpus[k].interrupts[j]);
        }
    }
    assert(v.inv() ==> v1.inv()) by {
        if v.inv() {
            assert(v.inv_except(-1, -1));
            assert(v1.inv_except(-1, -1));
        }
    }
}

/// An interrupt of a well-formed controller is well formed and sits at its id.
pub proof fn lemma_irq_wf(v: VgicView, vcpu_id: int, int_id: int)
    requires
        v.wf(),
        0 <= vcpu_id < v.cpus.len(),
        0 <= int_id < GIC_INTS_MAX,
    ensures
        v.irq(vcpu_id, int_id).wf(),
        v.irq(vcpu_id, int_id).id == int_id,
        v.inv() ==> v.irq(vcpu_id, int_id).flags_agree(),
        forall|c: int, i: int|
            v.inv_except(c, i) && !(i == int_id && (c == vcpu_id || int_id >= GIC_PRIVINT_NUM)) ==> v.irq(
                vcpu_id,
                int_id,
            ).flags_agree(),
{
    assert(v.cpus[vcpu_id].wf());
    if int_id < GIC_PRIVINT_NUM {
        assert(v.cpus[vcpu_id].interrupts[int_id].wf());
    } else {
        assert(v.spis[int_id - GIC_PRIVINT_NUM].wf());
    }
}

/// An interrupt after it was taken out of its list register on behalf of
/// `vcpu`: untouched unless `vcpu` owns it and it is in a register; else out
/// of the register, with the state that the register held, if it held one,
/// and list flags to match.
pub open spec fn removed(interrupt: VgicInt, g: GichView, vcpu: Vcpu) -> VgicInt {
    if !vgic_owns(vcpu, interrupt) || !interrupt.inner.in_lr {
        interrupt
    } else {
        match spec_gich_get_lr(g, interrupt) {
            Some(lr_val) => {
                let state = IrqState::spec_num_to_state(lr_state(lr_val) as usize);
                interrupt.with_in_lr(false).with_state(state).with_in_pend(state.pending()).with_in_act(
                    state.active(),
                )
            },
            None => interrupt.with_in_lr(false),
        }
    }
}

/// Taking an interrupt out of its list register keeps controller and bank
/// well formed and the invariant, sets no end-of-interrupt bit, and changes
/// no list register but the interrupt's own.
pub proof fn lemma_remove_lr(v: VgicView, g: GichView, vcpu: Vcpu, int_id: int)
    requires
        v.wf(),
        g.wf(),
        vcpu.id < v.cpus.len(),
        0 <= int_id < GIC_INTS_MAX,
    ensures
        remove_lr(v, g, vcpu, int_id).0.wf(),
        remove_lr(v, g, vcpu, int_id).1.wf(),
        remove_lr(v, g, vcpu, int_id).0.cpus.len() == v.cpus.len(),
        remove_lr(v, g, vcpu, int_id).1.cpu_id == g.cpu_id,
        remove_lr(v, g, vcpu, int_id).1.lrs == g.lrs,
        v.inv() ==> remove_lr(v, g, vcpu, int_id).0.inv(),
        status_subset(remove_lr(v, g, vcpu, int_id).1.eisr, g.eisr),
        !remove_lr(v, g, vcpu, int_id).0.irq(vcpu.id as int, int_id).inner.in_lr || !vgic_owns(
            vcpu,
            v.irq(vcpu.id as int, int_id),
        ),
        remove_lr(v, g, vcpu, int_id).0.irq(vcpu.id as int, int_id).inner.owner == v.irq(
            vcpu.id as int,
            int_id,
        ).inner.owner,
        others_kept(v, remove_lr(v, g, vcpu, int_id).0, vcpu.id as int, int_id),
        config_kept(v, remove_lr(v, g, vcpu, int_id).0),
        owners_weakened(v, remove_lr(v, g, vcpu, int_id).0),
        remove_lr(v, g, vcpu, int_id).0.irq(vcpu.id as int, int_id) == removed(
            v.irq(vcpu.id as int, int_id),
            g,
            vcpu,
        ),
        forall|c: int, j: int|
            0 <= c < v.cpus.len() && 0 <= j < GIC_SGIS_NUM && !(c == vcpu.id && j == int_id) ==> (
            #[trigger] remove_lr(v, g, vcpu, int_id).0.cpus[c].sgis[j]) == v.cpus[c].sgis[j],
        forall|c: int|
            0 <= c < v.cpus.len() ==> (#[trigger] remove_lr(v, g, vcpu, int_id).0.cpus[c]).curr_lrs
                == v.cpus[c].curr_lrs,
        forall|j: int|
            0 <= j < GIC_LIST_REGS_NUM && !(vgic_owns(vcpu, v.irq(vcpu.id as int, int_id)) && v.irq(
                vcpu.id as int,
                int_id,
            ).inner.in_lr && j == v.irq(vcpu.id as int, int_id).inner.lr) ==> #[trigger] remove_lr(
                v,
                g,
                vcpu,
                int_id,
            ).1.lr[j] == g.lr[j],
{
    reveal(remove_lr);
    lemma_lr_zero();
    lemma_irq_wf(v, vcpu.id as int, int_id);
    let i = v.irq(vcpu.id as int, int_id);
    let c = vcpu.id as int;
    if vgic_owns(vcpu, i) && i.inner.in_lr {
        match spec_gich_get_lr(g, i) {
            Some(lr_val) => {
                lemma_set_lr(g, i.inner.lr as int, 0);
                let state = IrqState::spec_num_to_state(lr_state(lr_val) as usize);
                let i1 = i.with_in_lr(false).with_state(state);
                lemma_set_int_wf(v, c, i1);
                let v1 = v.set_int(c, i1);
                assert(v.inv() ==> v.inv_except(c, int_id));
                if int_id < GIC_SGIS_NUM {
                    assert(v1.cpus[c].wf());
                    lemma_set_sgis_wf(v1, c, int_id, fold_source(v1.cpus[c].sgis[int_id], state, lr_cpuid(lr_val)));
                }
                let v2 = if int_id < GIC_SGIS_NUM {
                    v1.set_sgis(c, int_id, fold_source(v1.cpus[c].sgis[int_id], state, lr_cpuid(lr_val)))
                } else {
                    v1
                };
                assert(v2.irq(c, int_id) == i1);
                lemma_update_int_list_wf(v2, c, int_id);
                let v3 = v2.update_int_list(c, int_id);
                assert forall|k: int, id: int|
                    0 <= k < v.cpus.len() && 0 <= id < GIC_INTS_MAX && !is_irq(c, int_id, k, id) implies #[trigger] v3.irq(
                    k,
                    id,
                ) == v.irq(k, id) by {
                    assert(v3.irq(k, id) == v2.irq(k, id));
                    assert(v2.irq(k, id) == v1.irq(k, id));
                    assert(v1.irq(k, id) == v.irq(k, id));
                }
                lemma_others_kept_config(v, v3, c, int_id);
            },
            None => {
                lemma_set_int_wf(v, c, i.with_in_lr(false));
                assert(v.inv() ==> v.inv_except(c, int_id));
                lemma_others_kept_config(v, v.set_int(c, i.with_in_lr(false)), c, int_id);
            },
        }
    } else {
        lemma_others_kept_config(v, v, c, int_id);
    }
}

/// Giving an interrupt up keeps the system well formed and the invariant,
/// and changes nothing but the interrupt's owner.
pub proof fn lemma_yield_owner(s: Sys, vcpu: Vcpu, int_id: int)
    requires
        s.wf(),
        vcpu.id < s.vgic.cpus.len(),
        0 <= int_id < GIC_INTS_MAX,
    ensures
        s.yield_owner(vcpu, int_id).wf(),
        same_frame(s, s.yield_owner(vcpu, int_id)),
        s.yield_owner(vcpu, int_id).gich == s.gich,
        s.yield_owner(vcpu, int_id).fx == s.fx,
        s.inv() ==> s.yield_owner(vcpu, int_id).inv(),
        s.yield_owner(vcpu, int_id).irq(vcpu, int_id) == yielded(vcpu, s.irq(vcpu, int_id)),
        others_kept(s.vgic, s.yield_owner(vcpu, int_id).vgic, vcpu.id as int, int_id),
        step_ok(s, s.yield_owner(vcpu, int_id)),
        forall|c: int|
            0 <= c < s.vgic.cpus.len() ==> (#[trigger] s.yield_owner(vcpu, int_id).vgic.cpus[c]).pend_list
                == s.vgic.cpus[c].pend_list && s.yield_owner(vcpu, int_id).vgic.cpus[c].act_list
                == s.vgic.cpus[c].act_list && s.yield_owner(vcpu, int_id).vgic.cpus[c].sgis
                == s.vgic.cpus[c].sgis && s.yield_owner(vcpu, int_id).vgic.cpus[c].curr_lrs
                == s.vgic.cpus[c].curr_lrs,
{
    lemma_irq_wf(s.vgic, vcpu.id as int, int_id);
    lemma_set_int_wf(s.vgic, vcpu.id as int, yielded(vcpu, s.irq(vcpu, int_id)));
    assert(s.vgic.inv() ==> s.vgic.inv_except(vcpu.id as int, int_id));
    lemma_others_kept_config(s.vgic, s.yield_owner(vcpu, int_id).vgic, vcpu.id as int, int_id);
}

/// Releasing the former occupant of a list register keeps the controller
/// well formed and the invariant, and touches no list, no source of a
/// software-generated interrupt and no interrupt but that occupant.
pub proof fn lemma_release_prev(v: VgicView, vcpu: Vcpu, int_id: int, lr_ind: int)
    requires
        v.wf(),
        vcpu.id < v.cpus.len(),
        0 <= int_id < GIC_INTS_MAX,
        0 <= lr_ind < GIC_LIST_REGS_NUM,
    ensures
        release_prev(v, vcpu, int_id, lr_ind).wf(),
        release_prev(v, vcpu, int_id, lr_ind).cpus.len() == v.cpus.len(),
        v.inv() ==> release_prev(v, vcpu, int_id, lr_ind).inv(),
        release_prev(v, vcpu, int_id, lr_ind).irq(vcpu.id as int, int_id) == v.irq(vcpu.id as int, int_id),
        config_kept(v, release_prev(v, vcpu, int_id, lr_ind)),
        owners_weakened(v, release_prev(v, vcpu, int_id, lr_ind)),
        forall|c: int|
            0 <= c < v.cpus.len() ==> (#[trigger] release_prev(v, vcpu, int_id, lr_ind).cpus[c]).pend_list
                == v.cpus[c].pend_list && release_prev(v, vcpu, int_id, lr_ind).cpus[c].act_list
                == v.cpus[c].act_list && release_prev(v, vcpu, int_id, lr_ind).cpus[c].sgis == v.cpus[c].sgis
                && release_prev(v, vcpu, int_id, lr_ind).cpus[c].curr_lrs == v.cpus[c].curr_lrs,
{
    reveal(release_prev);
    let c = vcpu.id as int;
    assert(v.cpus[c].wf());
    let prev_id = v.cpus[c].curr_lrs[lr_ind] as int;
    if prev_id != int_id && prev_id < GIC_INTS_MAX {
        lemma_irq_wf(v, c, prev_id);
        let p = v.irq(c, prev_id);
        let freed = p.with_in_lr(false);
        lemma_set_int_wf(v, c, freed);
        lemma_set_int_wf(v, c, yielded(vcpu, freed));
        assert(v.inv() ==> v.inv_except(c, prev_id));
        lemma_others_kept_config(v, v.set_int(c, freed), c, prev_id);
        lemma_others_kept_config(v, v.set_int(c, yielded(vcpu, freed)), c, prev_id);
        assert(!is_irq(c, prev_id, c, int_id));
    }
    lemma_others_kept_config(v, v, c, int_id);
}

/// Composing a list register value keeps the system well formed and the
/// invariant, and touches no interrupt, no list and no register.
pub proof fn lemma_lr_value_effects(s: Sys, vcpu: Vcpu, int_id: int)
    requires
        s.wf(),
        vcpu.id < s.vgic.cpus.len(),
        0 <= int_id < GIC_INTS_MAX,
    ensures
        s.lr_value_effects(vcpu, int_id).wf(),
        same_frame(s, s.lr_value_effects(vcpu, int_id)),
        s.lr_value_effects(vcpu, int_id).gich == s.gich,
        s.inv() ==> s.lr_value_effects(vcpu, int_id).inv(),
        s.lr_value_effects(vcpu, int_id).vgic.spis == s.vgic.spis,
        step_ok(s, s.lr_value_effects(vcpu, int_id)),
        forall|c: int|
            0 <= c < s.vgic.cpus.len() ==> (#[trigger] s.lr_value_effects(vcpu, int_id).vgic.cpus[c]).pend_list
                == s.vgic.cpus[c].pend_list && s.lr_value_effects(vcpu, int_id).vgic.cpus[c].act_list
                == s.vgic.cpus[c].act_list && s.lr_value_effects(vcpu, int_id).vgic.cpus[c].interrupts
                == s.vgic.cpus[c].interrupts && s.lr_value_effects(vcpu, int_id).vgic.cpus[c].curr_lrs
                == s.vgic.cpus[c].curr_lrs,
{
    reveal(Sys::lr_value_effects);
    let i = s.irq(vcpu, int_id);
    let state = spec_vgic_get_state(s.gich, i);
    if !spec_vgic_int_is_hw(i) && int_id < GIC_SGIS_NUM && !num_active(state) {
        let sgis = s.vgic.cpus[vcpu.id as int].sgis[int_id];
        lemma_set_sgis_wf(s.vgic, vcpu.id as int, int_id, Sgis { pend: sgi_pend_rest(sgis.pend), ..sgis });
    }
    lemma_irq_wf(s.vgic, vcpu.id as int, int_id);
    lemma_others_kept_config(s.vgic, s.vgic, vcpu.id as int, int_id);
}

/// Moving an interrupt's state into a list register keeps the system well
/// formed and the invariant. Afterwards the interrupt is the latched one with
/// both list flags clear, it is on neither list of the virtual CPU, and the
/// register holds the value.
pub proof fn lemma_latch(s: Sys, vcpu: Vcpu, int_id: int, lr_ind: int, lr: u32)
    requires
        s.wf(),
        vcpu.id < s.vgic.cpus.len(),
        0 <= int_id < GIC_INTS_MAX,
        0 <= lr_ind < GIC_LIST_REGS_NUM,
    ensures
        s.latch(vcpu, int_id, lr_ind, lr).wf(),
        same_frame(s, s.latch(vcpu, int_id, lr_ind, lr)),
        s.latch(vcpu, int_id, lr_ind, lr).fx == s.fx,
        s.latch(vcpu, int_id, lr_ind, lr).gich == s.gich.set_lr(lr_ind, lr),
        s.inv() ==> s.latch(vcpu, int_id, lr_ind, lr).inv(),
        s.latch(vcpu, int_id, lr_ind, lr).irq(vcpu, int_id) == s.irq(vcpu, int_id).latched(
            lr_ind as u16,
        ).with_in_pend(false).with_in_act(false),
        others_kept(s.vgic, s.latch(vcpu, int_id, lr_ind, lr).vgic, vcpu.id as int, int_id),
        step_ok(s, s.latch(vcpu, int_id, lr_ind, lr)),
        s.latch(vcpu, int_id, lr_ind, lr).vgic.cpus[vcpu.id as int].pend_list
            == s.vgic.cpus[vcpu.id as int].pend_list.remove_value(int_id as u16),
        s.latch(vcpu, int_id, lr_ind, lr).vgic.cpus[vcpu.id as int].act_list
            == s.vgic.cpus[vcpu.id as int].act_list.remove_value(int_id as u16),
        forall|c: int|
            0 <= c < s.vgic.cpus.len() ==> (#[trigger] s.latch(vcpu, int_id, lr_ind, lr).vgic.cpus[c]).sgis
                == s.vgic.cpus[c].sgis,
{
    reveal(Sys::latch);
    let c = vcpu.id as int;
    lemma_irq_wf(s.vgic, c, int_id);
    let i = s.irq(vcpu, int_id);
    let i1 = i.latched(lr_ind as u16);
    lemma_set_int_wf(s.vgic, c, i1);
    let v3 = s.vgic.set_int(c, i1);
    lemma_set_curr_lr_wf(v3, c, lr_ind, int_id as u16);
    let v4 = v3.set_curr_lr(c, lr_ind, int_id as u16);
    lemma_set_lr(s.gich, lr_ind, lr);
    assert(v4.irq(c, int_id) == i1);
    lemma_update_int_list_wf(v4, c, int_id);
    assert(s.vgic.inv() ==> s.vgic.inv_except(c, int_id));
    let v5 = v4.update_int_list(c, int_id);
    assert forall|k: int, id: int|
        0 <= k < s.vgic.cpus.len() && 0 <= id < GIC_INTS_MAX && !is_irq(c, int_id, k, id) implies #[trigger] v5.irq(
        k,
        id,
    ) == s.vgic.irq(k, id) by {
        assert(v5.irq(k, id) == v4.irq(k, id));
        assert(v4.irq(k, id) == v3.irq(k, id));
        assert(v3.irq(k, id) == s.vgic.irq(k, id));
    }
    lemma_others_kept_config(s.vgic, v5, c, int_id);
    assert(v4.cpus[c].pend_list == s.vgic.cpus[c].pend_list);
    assert(v4.cpus[c].act_list == s.vgic.cpus[c].act_list);
}

/// Writing an interrupt into a list register keeps the system well formed
/// and the invariant. Afterwards the interrupt has its state in the register
/// and is on neither list of the virtual CPU; its owner, enablement,
/// priority, targets and configuration are as before; the register holds the
/// composed value; no other register and no other list changed.
pub proof fn lemma_write_lr(s: Sys, vcpu: Vcpu, int_id: int, lr_ind: int)
    requires
        s.wf(),
        vcpu.id < s.vgic.cpus.len(),
        0 <= int_id < GIC_INTS_MAX,
        0 <= lr_ind < GIC_LIST_REGS_NUM,
    ensures
        step_ok(s, s.write_lr(vcpu, int_id, lr_ind)),
        s.write_lr(vcpu, int_id, lr_ind).gich == s.gich.set_lr(lr_ind, s.release_prev(vcpu, int_id, lr_ind).lr_value(vcpu, int_id)),
        s.write_lr(vcpu, int_id, lr_ind).irq(vcpu, int_id) == s.irq(vcpu, int_id).latched(
            lr_ind as u16,
        ).with_in_pend(false).with_in_act(false),
        s.write_lr(vcpu, int_id, lr_ind).vgic.cpus[vcpu.id as int].pend_list
            == s.vgic.cpus[vcpu.id as int].pend_list.remove_value(int_id as u16),
        s.write_lr(vcpu, int_id, lr_ind).vgic.cpus[vcpu.id as int].act_list
            == s.vgic.cpus[vcpu.id as int].act_list.remove_value(int_id as u16),
{
    reveal(Sys::write_lr);
    let c = vcpu.id as int;
    lemma_release_prev(s.vgic, vcpu, int_id, lr_ind);
    let s1 = s.release_prev(vcpu, int_id, lr_ind);
    let lr = s1.lr_value(vcpu, int_id);
    lemma_lr_value_effects(s1, vcpu, int_id);
    let s2 = s1.lr_value_effects(vcpu, int_id);
    assert(s2.vgic.cpus[c].interrupts == s1.vgic.cpus[c].interrupts);
    assert(s2.irq(vcpu, int_id) == s.irq(vcpu, int_id));
    lemma_latch(s2, vcpu, int_id, lr_ind, lr);
    assert(s2.vgic.cpus[c].pend_list == s.vgic.cpus[c].pend_list);
    assert(s2.vgic.cpus[c].act_list == s.vgic.cpus[c].act_list);
    assert(step_ok(s, s1));
    lemma_step_trans(s, s1, s2);
    lemma_step_trans(s, s2, s2.latch(vcpu, int_id, lr_ind, lr));
}

/// The interrupt id in a list register is an interrupt id.
pub proof fn lemma_lr_id_bound(lr: u32)
    ensures
        lr_id(lr) < GIC_INTS_MAX,
{
    crate::gich::lemma_lr_field_bounds(lr);
}

/// Taking an interrupt out of its list register is a step of the engine that
/// leaves the log alone and sets no end-of-interrupt bit.
pub proof fn lemma_sys_remove_lr(s: Sys, vcpu: Vcpu, int_id: int)
    requires
        s.wf(),
        vcpu.id < s.vgic.cpus.len(),
        0 <= int_id < GIC_INTS_MAX,
    ensures
        step_ok(s, s.remove_lr(vcpu, int_id)),
        s.remove_lr(vcpu, int_id).fx == s.fx,
        status_subset(s.remove_lr(vcpu, int_id).gich.eisr, s.gich.eisr),
        others_kept(s.vgic, s.remove_lr(vcpu, int_id).vgic, vcpu.id as int, int_id),
{
    lemma_remove_lr(s.vgic, s.gich, vcpu, int_id);
    reveal(remove_lr);
    lemma_lr_zero();
    let i = s.vgic.irq(vcpu.id as int, int_id);
    lemma_irq_wf(s.vgic, vcpu.id as int, int_id);
    if vgic_owns(vcpu, i) && i.inner.in_lr {
        lemma_set_lr(s.gich, i.inner.lr as int, 0);
    }
}

/// The register that has to make room is one of those in use.
pub proof fn lemma_victim_bound(g: GichView)
    requires
        g.wf(),
    ensures
        victim_lr(g) matches Some(idx) ==> idx < g.lrs,
{
    lemma_scan_bound(g.lr, g.lrs as int);
}

/// The registers that a scan remembers are among those it looked at.
proof fn lemma_scan_bound(lr: Seq<u32>, n: int)
    requires
        0 <= n,
    ensures
        scan_lrs(lr, n).act_ind matches Some(k) ==> k < n,
        scan_lrs(lr, n).pend_ind matches Some(k) ==> k < n,
    decreases n,
{
    if n > 0 {
        lemma_scan_bound(lr, n - 1);
    }
}

/// Evicting the occupant of a list register is a step of the engine that
/// leaves the log alone and sets no end-of-interrupt bit.
pub proof fn lemma_evict(s: Sys, vcpu: Vcpu, idx: int)
    requires
        s.wf(),
        vcpu.id < s.vgic.cpus.len(),
        0 <= idx < GIC_LIST_REGS_NUM,
    ensures
        step_ok(s, s.evict(vcpu, idx)),
        s.evict(vcpu, idx).fx == s.fx,
        status_subset(s.evict(vcpu, idx).gich.eisr, s.gich.eisr),
        others_kept(s.vgic, s.evict(vcpu, idx).vgic, vcpu.id as int, lr_id(s.gich.lr[idx]) as int),
{
    let spilled = lr_id(s.gich.lr[idx]) as int;
    lemma_lr_id_bound(s.gich.lr[idx]);
    lemma_sys_remove_lr(s, vcpu, spilled);
    let s1 = s.remove_lr(vcpu, spilled);
    lemma_yield_owner(s1, vcpu, spilled);
    lemma_step_trans(s, s1, s1.yield_owner(vcpu, spilled));
    let s2 = s1.yield_owner(vcpu, spilled);
    assert forall|c: int, id: int|
        0 <= c < s.vgic.cpus.len() && 0 <= id < GIC_INTS_MAX && !is_irq(vcpu.id as int, spilled, c, id) implies #[trigger] s2.vgic.irq(
        c,
        id,
    ) == s.vgic.irq(c, id) by {
        assert(s2.vgic.irq(c, id) == s1.vgic.irq(c, id));
    }
}

/// Trying to put an interrupt into a list register is a step of the engine.
/// If it succeeds, the interrupt's state lives in a register afterwards; if
/// not, the interrupt is as before. For a software-generated interrupt no
/// end-of-interrupt bit gets set.
pub proof fn lemma_add_lr(s: Sys, vcpu: Vcpu, int_id: int)
    requires
        s.wf(),
        vcpu.id < s.vgic.cpus.len(),
        0 <= int_id < GIC_INTS_MAX,
    ensures
        step_ok(s, s.add_lr(vcpu, int_id)),
        s.add_lr_result(vcpu, int_id) ==> s.add_lr(vcpu, int_id).irq(vcpu, int_id).inner.in_lr && s.add_lr(
            vcpu,
            int_id,
        ).irq(vcpu, int_id).inner.state == IrqState::IrqSInactive,
        !s.add_lr_result(vcpu, int_id) ==> s.add_lr(vcpu, int_id).vgic == s.vgic && s.add_lr(vcpu, int_id).fx
            == s.fx,
        int_id < GIC_SGIS_NUM ==> status_subset(s.add_lr(vcpu, int_id).gich.eisr, s.gich.eisr),
{
    reveal(Sys::add_lr);
    let i = s.irq(vcpu, int_id);
    lemma_irq_wf(s.vgic, vcpu.id as int, int_id);
    lemma_others_kept_config(s.vgic, s.vgic, vcpu.id as int, int_id);
    if i.inner.enabled && !i.inner.in_lr {
        lemma_first_set_bit(s.gich.elrsr, s.gich.lrs);
        lemma_victim_bound(s.gich);
        match first_set_bit(s.gich.elrsr, s.gich.lrs) {
            Some(idx) => {
                lemma_write_lr(s, vcpu, int_id, idx as int);
                if int_id < GIC_SGIS_NUM {
                    lemma_sgi_write_no_eoi(s, vcpu, int_id, idx as int);
                }
            },
            None => match victim_lr(s.gich) {
                Some(idx) => {
                    lemma_evict(s, vcpu, idx as int);
                    let s1 = s.evict(vcpu, idx as int);
                    lemma_write_lr(s1, vcpu, int_id, idx as int);
                    lemma_step_trans(s, s1, s1.write_lr(vcpu, int_id, idx as int));
                    if int_id < GIC_SGIS_NUM {
                        lemma_sgi_write_no_eoi(s1, vcpu, int_id, idx as int);
                    }
                },
                None => {},
            },
        }
    }
}

/// Writing a software-generated interrupt into a list register sets no
/// end-of-interrupt bit: its value has a state whenever it has the
/// maintenance bit.
pub proof fn lemma_sgi_write_no_eoi(s: Sys, vcpu: Vcpu, int_id: int, lr_ind: int)
    requires
        s.wf(),
        vcpu.id < s.vgic.cpus.len(),
        0 <= int_id < GIC_SGIS_NUM,
        0 <= lr_ind < GIC_LIST_REGS_NUM,
    ensures
        status_subset(s.write_lr(vcpu, int_id, lr_ind).gich.eisr, s.gich.eisr),
{
    lemma_write_lr(s, vcpu, int_id, lr_ind);
    let s1 = s.release_prev(vcpu, int_id, lr_ind);
    lemma_release_prev(s.vgic, vcpu, int_id, lr_ind);
    reveal(Sys::lr_value);
    let i = s1.irq(vcpu, int_id);
    lemma_irq_wf(s1.vgic, vcpu.id as int, int_id);
    let sgis = s1.vgic.cpus[vcpu.id as int].sgis[int_id];
    lemma_lr_val_sgi_act(int_id as u32, i.inner.prio, sgis);
    lemma_lr_val_sgi_pend(int_id as u32, i.inner.prio, sgis.pend);
    lemma_set_lr(s.gich, lr_ind, s1.lr_value(vcpu, int_id));
}

/// Routing an interrupt is a step of the engine.
pub proof fn lemma_route(s: Sys, vcpu: Vcpu, int_id: int)
    requires
        s.wf(),
        vcpu.id < s.vgic.cpus.len(),
        0 <= int_id < GIC_INTS_MAX,
    ensures
        step_ok(s, s.route(vcpu, int_id)),
{
    reveal(Sys::route);
    let i = s.irq(vcpu, int_id);
    lemma_irq_wf(s.vgic, vcpu.id as int, int_id);
    lemma_others_kept_config(s.vgic, s.vgic, vcpu.id as int, int_id);
    lemma_add_lr(s, vcpu, int_id);
    let bit = 1u8 << (vcpu.phys_id as u8);
    let s1 = if i.inner.targets & bit != 0 {
        s.add_lr(vcpu, int_id)
    } else {
        s
    };
    lemma_yield_owner(s1, vcpu, int_id);
    lemma_step_trans(s, s1, s1.yield_owner(vcpu, int_id));
}

} // verus!
