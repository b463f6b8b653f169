//! The active list under ends of interrupt: what a step of the engine does
//! to the list of a virtual CPU whose listed interrupts are in no list
//! register.

use vstd::prelude::*;
use crate::consts::{GIC_INTS_MAX, GIC_LIST_REGS_NUM, GIC_SGIS_NUM};
use crate::irq::IrqState;
use crate::laws::{composite_state, eoi_step, eoi_steps, law_one_end_of_interrupt_per_count, spilled_count, taken};
use crate::lr::{fold_source, num_active, release_prev, remove_lr, victim_lr};
use crate::lr_bits::{lemma_lr_val_hw, lemma_lr_val_other, lemma_lr_val_sgi_act, lemma_lr_val_sgi_pend};
use crate::lr_proofs::{
    is_irq,
    lemma_evict,
    lemma_irq_wf,
    lemma_latch,
    lemma_lr_id_bound,
    lemma_lr_value_effects,
    lemma_lr_zero,
    lemma_release_prev,
    lemma_remove_lr,
    lemma_set_int_wf,
    lemma_set_lr,
    lemma_set_sgis_wf,
    lemma_sys_remove_lr,
    lemma_update_int_list_wf,
    lemma_victim_bound,
    lemma_write_lr,
    lemma_yield_owner,
};
use crate::gich::{lr_cpuid, lr_id, lr_state};
use crate::utils::{first_set_bit, lemma_first_set_bit};
use crate::vcpu::Vcpu;
use crate::vgic::Sys;
use crate::vint::{claimed, spec_gich_get_lr, spec_vgic_int_is_hw, vgic_owns, yielded};

verus! {

/// The active list of `vcpu`.
pub open spec fn act_list(s: Sys, vcpu: Vcpu) -> Seq<u16> {
    s.vgic.cpus[vcpu.id as int].act_list
}

/// Whether the active list of `vcpu` holds spilled interrupts only: no
/// interrupt is listed twice, and each listed interrupt is in no list
/// register.
pub open spec fn all_spilled(s: Sys, vcpu: Vcpu) -> bool {
    &&& act_list(s, vcpu).no_duplicates()
    &&& forall|j: int|
        0 <= j < act_list(s, vcpu).len() ==> !s.irq(vcpu, #[trigger] act_list(s, vcpu)[j] as int).inner.in_lr
}

/// Whether no interrupt of `vcpu` but `except` is in a list register in `b`
/// that was in none in `a`.
pub open spec fn none_latched(a: Sys, b: Sys, vcpu: Vcpu, except: int) -> bool {
    forall|x: int|
        0 <= x < GIC_INTS_MAX && x != except && (#[trigger] b.irq(vcpu, x)).inner.in_lr ==> a.irq(
            vcpu,
            x,
        ).inner.in_lr
}

/// Whether `b` is the list `a`, or `a` with `x` at its end where `fresh`
/// allows it.
pub open spec fn grown_by(a: Seq<u16>, b: Seq<u16>, x: u16, fresh: bool) -> bool {
    b == a || (fresh && b == a.push(x))
}

/// Whether interrupt `x` has had its end of interrupt for good: its state
/// has no active bit, neither as software records it nor as its list
/// register holds it, and it is not on the active list of `vcpu`.
pub open spec fn retired(s: Sys, vcpu: Vcpu, x: int) -> bool {
    &&& !s.irq(vcpu, x).inner.state.active()
    &&& !num_active(composite_state(s, vcpu, x))
    &&& !act_list(s, vcpu).contains(x as u16)
}

/// Whether the step from `a` to `b` left interrupt `x` alone: its state as
/// software records it is the same, the interrupt is the same or in no list
/// register, and each list register is as it was, or empty, or holds
/// another interrupt.
pub open spec fn left_alone(a: Sys, b: Sys, vcpu: Vcpu, x: int) -> bool {
    &&& b.gich.cpu_id == a.gich.cpu_id
    &&& b.irq(vcpu, x).inner.state == a.irq(vcpu, x).inner.state
    &&& (b.irq(vcpu, x) == a.irq(vcpu, x) || !b.irq(vcpu, x).inner.in_lr)
    &&& forall|j: int|
        0 <= j < GIC_LIST_REGS_NUM ==> #[trigger] b.gich.lr[j] == a.gich.lr[j] || b.gich.lr[j] == 0 || lr_id(
            b.gich.lr[j],
        ) != x
}

/// A step that leaves a retired interrupt alone and does not put it on the
/// active list leaves it retired.
proof fn lemma_left_alone(a: Sys, b: Sys, vcpu: Vcpu, x: int)
    requires
        a.wf(),
        b.wf(),
        vcpu.id < a.vgic.cpus.len(),
        a.vgic.cpus.len() == b.vgic.cpus.len(),
        0 <= x < GIC_INTS_MAX,
        retired(a, vcpu, x),
        left_alone(a, b, vcpu, x),
        !act_list(b, vcpu).contains(x as u16),
    ensures
        retired(b, vcpu, x),
{
    let c = vcpu.id as int;
    lemma_irq_wf(a.vgic, c, x);
    lemma_irq_wf(b.vgic, c, x);
    lemma_lr_zero();
    let i = b.irq(vcpu, x);
    match spec_gich_get_lr(b.gich, i) {
        Some(v) => {
            assert(i == a.irq(vcpu, x));
            assert(v == b.gich.lr[i.inner.lr as int]);
            assert(v == a.gich.lr[i.inner.lr as int]);
            assert(spec_gich_get_lr(a.gich, a.irq(vcpu, x)) == Some(v));
        },
        None => {},
    }
}

/// The value that goes into a list register for an interrupt carries the
/// interrupt's id, and no active state for an interrupt that is not active.
proof fn lemma_lr_value(s: Sys, vcpu: Vcpu, id: int)
    requires
        s.wf(),
        vcpu.id < s.vgic.cpus.len(),
        0 <= id < GIC_INTS_MAX,
    ensures
        lr_id(s.lr_value(vcpu, id)) == id,
        !num_active(composite_state(s, vcpu, id)) ==> !num_active(lr_state(s.lr_value(vcpu, id)) as usize),
{
    let c = vcpu.id as int;
    lemma_irq_wf(s.vgic, c, id);
    let i = s.irq(vcpu, id);
    assert(s.vgic.cpus[c].wf());
    let state = composite_state(s, vcpu, id);
    assert(state <= 3) by {
        match spec_gich_get_lr(s.gich, i) {
            Some(v) => {
                crate::gich::lemma_lr_field_bounds(v);
            },
            None => {},
        }
    }
    reveal(Sys::lr_value);
    lemma_lr_val_hw(id as u32, i.inner.prio, state);
    lemma_lr_val_other(id as u32, i.inner.prio, state);
    if id < GIC_SGIS_NUM {
        let sgis = s.vgic.cpus[c].sgis[id];
        lemma_lr_val_sgi_act(id as u32, i.inner.prio, sgis);
        lemma_lr_val_sgi_pend(id as u32, i.inner.prio, sgis.pend);
    }
}

/// Removing a value from a list that does not hold it leaves the list.
proof fn lemma_remove_absent(list: Seq<u16>, x: u16)
    requires
        !list.contains(x),
    ensures
        list.remove_value(x) == list,
{
    list.index_of_first_ensures(x);
}

/// Taking an interrupt out of its list register leaves the active list as
/// it is, or puts the interrupt at its end, or takes it off the list; the
/// list changes only if the interrupt was in a list register, and it is in
/// none afterwards. No interrupt gets into a list register.
proof fn lemma_remove_spills(s: Sys, vcpu: Vcpu, id: int)
    requires
        s.wf(),
        vcpu.id < s.vgic.cpus.len(),
        0 <= id < GIC_INTS_MAX,
    ensures
        s.remove_lr(vcpu, id).wf(),
        s.remove_lr(vcpu, id).vgic.cpus.len() == s.vgic.cpus.len(),
        act_list(s.remove_lr(vcpu, id), vcpu) == act_list(s, vcpu) || (s.irq(vcpu, id).inner.in_lr && !s.remove_lr(
            vcpu,
            id,
        ).irq(vcpu, id).inner.in_lr && (act_list(s.remove_lr(vcpu, id), vcpu) == act_list(s, vcpu).push(id as u16)
            || act_list(s.remove_lr(vcpu, id), vcpu) == act_list(s, vcpu).remove_value(id as u16))),
        none_latched(s, s.remove_lr(vcpu, id), vcpu, -1),
        !s.remove_lr(vcpu, id).irq(vcpu, id).inner.state.active() ==> act_list(s.remove_lr(vcpu, id), vcpu)
            == act_list(s, vcpu) || act_list(s.remove_lr(vcpu, id), vcpu) == act_list(s, vcpu).remove_value(
            id as u16,
        ),
        forall|x: int| 0 <= x < GIC_INTS_MAX && x != id ==> #[trigger] left_alone(s, s.remove_lr(vcpu, id), vcpu, x),
        retired(s, vcpu, id) ==> retired(s.remove_lr(vcpu, id), vcpu, id),
{
    let c = vcpu.id as int;
    let v = s.vgic;
    let g = s.gich;
    lemma_remove_lr(v, g, vcpu, id);
    lemma_sys_remove_lr(s, vcpu, id);
    lemma_irq_wf(v, c, id);
    lemma_lr_zero();
    let i = v.irq(c, id);
    let r = s.remove_lr(vcpu, id);
    lemma_irq_wf(r.vgic, c, id);
    if i.inner.in_lr && vgic_owns(vcpu, i) {
        lemma_set_lr(g, i.inner.lr as int, 0);
    }
    assert forall|x: int| 0 <= x < GIC_INTS_MAX && x != id implies #[trigger] left_alone(s, r, vcpu, x) by {
        assert(!is_irq(c, id, c, x));
        assert(r.vgic.irq(c, x) == v.irq(c, x));
        reveal(remove_lr);
    }
    if retired(s, vcpu, id) {
        assert(!r.irq(vcpu, id).inner.state.active() && !num_active(composite_state(r, vcpu, id))) by {
            reveal(remove_lr);
            if vgic_owns(vcpu, i) && i.inner.in_lr {
                match spec_gich_get_lr(g, i) {
                    Some(lr_val) => {
                        crate::gich::lemma_lr_field_bounds(lr_val);
                    },
                    None => {},
                }
            }
        }
        assert(!act_list(r, vcpu).contains(id as u16)) by {
            reveal(remove_lr);
            lemma_remove_absent(act_list(s, vcpu), id as u16);
            if vgic_owns(vcpu, i) && i.inner.in_lr {
                match spec_gich_get_lr(g, i) {
                    Some(lr_val) => {
                        let state = IrqState::spec_num_to_state(lr_state(lr_val) as usize);
                        let i1 = i.with_in_lr(false).with_state(state);
                        lemma_set_int_wf(v, c, i1);
                        let v1 = v.set_int(c, i1);
                        if id < GIC_SGIS_NUM {
                            assert(v1.cpus[c].wf());
                            lemma_set_sgis_wf(v1, c, id, fold_source(v1.cpus[c].sgis[id], state, lr_cpuid(lr_val)));
                        }
                        let v2 = if id < GIC_SGIS_NUM {
                            v1.set_sgis(c, id, fold_source(v1.cpus[c].sgis[id], state, lr_cpuid(lr_val)))
                        } else {
                            v1
                        };
                        assert(v2.cpus[c].act_list == v.cpus[c].act_list);
                        lemma_update_int_list_wf(v2, c, id);
                    },
                    None => {
                        lemma_set_int_wf(v, c, i.with_in_lr(false));
                    },
                }
            }
        }
    }
    assert forall|x: int| 0 <= x < GIC_INTS_MAX && (#[trigger] r.irq(vcpu, x)).inner.in_lr implies s.irq(
        vcpu,
        x,
    ).inner.in_lr by {
        if x != id {
            assert(!is_irq(c, id, c, x));
            assert(r.vgic.irq(c, x) == v.irq(c, x));
        }
    }
    reveal(remove_lr);
    if vgic_owns(vcpu, i) && i.inner.in_lr {
        match spec_gich_get_lr(g, i) {
            Some(lr_val) => {
                let state = IrqState::spec_num_to_state(lr_state(lr_val) as usize);
                let i1 = i.with_in_lr(false).with_state(state);
                lemma_set_int_wf(v, c, i1);
                let v1 = v.set_int(c, i1);
                if id < GIC_SGIS_NUM {
                    assert(v1.cpus[c].wf());
                    lemma_set_sgis_wf(v1, c, id, fold_source(v1.cpus[c].sgis[id], state, lr_cpuid(lr_val)));
                }
                let v2 = if id < GIC_SGIS_NUM {
                    v1.set_sgis(c, id, fold_source(v1.cpus[c].sgis[id], state, lr_cpuid(lr_val)))
                } else {
                    v1
                };
                assert(v2.cpus[c].act_list == v.cpus[c].act_list);
                lemma_update_int_list_wf(v2, c, id);
            },
            None => {
                lemma_set_int_wf(v, c, i.with_in_lr(false));
            },
        }
    }
}

/// Evicting the occupant of a list register leaves an active list of
/// spilled interrupts as it is or puts the occupant at its end, and the list
/// still holds spilled interrupts only. No interrupt gets into a list
/// register.
proof fn lemma_evict_spills(s: Sys, vcpu: Vcpu, idx: int)
    requires
        s.wf(),
        vcpu.id < s.vgic.cpus.len(),
        0 <= idx < GIC_LIST_REGS_NUM,
        all_spilled(s, vcpu),
    ensures
        s.evict(vcpu, idx).wf(),
        s.evict(vcpu, idx).vgic.cpus.len() == s.vgic.cpus.len(),
        all_spilled(s.evict(vcpu, idx), vcpu),
        grown_by(
            act_list(s, vcpu),
            act_list(s.evict(vcpu, idx), vcpu),
            lr_id(s.gich.lr[idx]) as u16,
            s.irq(vcpu, lr_id(s.gich.lr[idx]) as int).inner.in_lr,
        ),
        none_latched(s, s.evict(vcpu, idx), vcpu, -1),
        forall|y: int|
            0 <= y < GIC_INTS_MAX && #[trigger] retired(s, vcpu, y) ==> retired(s.evict(vcpu, idx), vcpu, y),
        s.evict(vcpu, idx).irq(vcpu, lr_id(s.gich.lr[idx]) as int).inner.in_lr ==> act_list(
            s.evict(vcpu, idx),
            vcpu,
        ) == act_list(s, vcpu),
        forall|y: int|
            0 <= y < GIC_INTS_MAX && !s.irq(vcpu, y).inner.in_lr ==> #[trigger] left_alone(
                s,
                s.evict(vcpu, idx),
                vcpu,
                y,
            ) && !(act_list(s.evict(vcpu, idx), vcpu) == act_list(s, vcpu).push(y as u16)),
{
    let c = vcpu.id as int;
    let x = lr_id(s.gich.lr[idx]) as int;
    lemma_lr_id_bound(s.gich.lr[idx]);
    lemma_evict(s, vcpu, idx);
    lemma_remove_spills(s, vcpu, x);
    let s1 = s.remove_lr(vcpu, x);
    lemma_yield_owner(s1, vcpu, x);
    let e = s.evict(vcpu, idx);
    let list = act_list(s, vcpu);
    lemma_irq_wf(s.vgic, c, x);
    lemma_irq_wf(s1.vgic, c, x);
    assert(act_list(e, vcpu) == act_list(s1, vcpu));
    assert(e.irq(vcpu, x) == yielded(vcpu, s1.irq(vcpu, x)));
    assert forall|y: int| 0 <= y < GIC_INTS_MAX && (#[trigger] e.irq(vcpu, y)).inner.in_lr implies s.irq(
        vcpu,
        y,
    ).inner.in_lr by {
        if y != x {
            assert(!is_irq(c, x, c, y));
            assert(e.vgic.irq(c, y) == s1.vgic.irq(c, y));
        }
        assert(s1.irq(vcpu, y).inner.in_lr);
    }
    if s.irq(vcpu, x).inner.in_lr {
        assert(!list.contains(x as u16)) by {
            if list.contains(x as u16) {
                let j = choose|j: int| 0 <= j < list.len() && list[j] == x as u16;
                assert(!s.irq(vcpu, list[j] as int).inner.in_lr);
            }
        }
        lemma_remove_absent(list, x as u16);
    }
    let grown = act_list(e, vcpu);
    assert forall|j: int| 0 <= j < grown.len() implies !e.irq(vcpu, #[trigger] grown[j] as int).inner.in_lr by {
        if j < list.len() {
            assert(grown[j] == list[j]);
            assert(!s.irq(vcpu, list[j] as int).inner.in_lr);
        }
    }
    assert forall|y: int| 0 <= y < GIC_INTS_MAX implies #[trigger] left_alone(s1, e, vcpu, y) by {
        if y != x {
            assert(!is_irq(c, x, c, y));
            assert(e.vgic.irq(c, y) == s1.vgic.irq(c, y));
        }
    }
    assert forall|y: int| 0 <= y < GIC_INTS_MAX && !s.irq(vcpu, y).inner.in_lr implies #[trigger] left_alone(
        s,
        e,
        vcpu,
        y,
    ) && !(act_list(e, vcpu) == list.push(y as u16)) by {
        assert(left_alone(s1, e, vcpu, y));
        if y != x {
            assert(left_alone(s, s1, vcpu, y));
            assert(e.gich == s1.gich);
            if act_list(e, vcpu) == list.push(y as u16) {
                assert(act_list(e, vcpu) != list);
                assert(act_list(e, vcpu) == list.push(x as u16));
                assert(list.push(x as u16)[list.len() as int] == x as u16);
                assert(list.push(y as u16)[list.len() as int] == y as u16);
            }
        } else {
            reveal(remove_lr);
            assert(s1 == s);
            if act_list(e, vcpu) == list.push(y as u16) {
                assert(list.push(y as u16).len() == list.len() + 1);
            }
        }
    }
    assert forall|y: int| 0 <= y < GIC_INTS_MAX && #[trigger] retired(s, vcpu, y) implies retired(e, vcpu, y) by {
        if y != x {
            assert(left_alone(s, s1, vcpu, y));
            assert(!act_list(s1, vcpu).contains(y as u16)) by {
                let l1 = act_list(s1, vcpu);
                if l1.contains(y as u16) {
                    let j = choose|j: int| 0 <= j < l1.len() && l1[j] == y as u16;
                    if l1 == list.push(x as u16) {
                        if j < list.len() {
                            assert(list[j] == y as u16);
                        }
                    } else if l1 == list.remove_value(x as u16) {
                        list.index_of_first_ensures(x as u16);
                        match list.index_of_first(x as u16) {
                            Some(q) => {
                                if j < q {
                                    assert(list[j] == y as u16);
                                } else {
                                    assert(list[j + 1] == y as u16);
                                }
                            },
                            None => {},
                        }
                    }
                }
            }
            lemma_left_alone(s, s1, vcpu, y);
        }
        lemma_left_alone(s1, e, vcpu, y);
    }
}

/// Writing an interrupt into a list register takes it off the active list
/// and puts no other interrupt into a list register.
proof fn lemma_write_spills(s: Sys, vcpu: Vcpu, id: int, idx: int)
    requires
        s.wf(),
        vcpu.id < s.vgic.cpus.len(),
        0 <= id < GIC_INTS_MAX,
        0 <= idx < GIC_LIST_REGS_NUM,
    ensures
        s.write_lr(vcpu, id, idx).wf(),
        s.write_lr(vcpu, id, idx).vgic.cpus.len() == s.vgic.cpus.len(),
        act_list(s.write_lr(vcpu, id, idx), vcpu) == act_list(s, vcpu).remove_value(id as u16),
        none_latched(s, s.write_lr(vcpu, id, idx), vcpu, id),
        forall|x: int|
            0 <= x < GIC_INTS_MAX && x != id ==> #[trigger] left_alone(s, s.write_lr(vcpu, id, idx), vcpu, x),
        !num_active(composite_state(s, vcpu, id)) ==> !num_active(
            composite_state(s.write_lr(vcpu, id, idx), vcpu, id),
        ) && !s.write_lr(vcpu, id, idx).irq(vcpu, id).inner.state.active(),
{
    let c = vcpu.id as int;
    lemma_write_lr(s, vcpu, id, idx);
    reveal(Sys::write_lr);
    lemma_release_prev(s.vgic, vcpu, id, idx);
    let s1 = s.release_prev(vcpu, id, idx);
    lemma_lr_value(s1, vcpu, id);
    lemma_set_lr(s.gich, idx, s1.lr_value(vcpu, id));
    lemma_irq_wf(s.vgic, c, id);
    assert(composite_state(s1, vcpu, id) == composite_state(s, vcpu, id));
    assert forall|x: int| 0 <= x < GIC_INTS_MAX && x != id implies (#[trigger] s1.irq(vcpu, x)).inner.state == s.irq(
        vcpu,
        x,
    ).inner.state && (s1.irq(vcpu, x) == s.irq(vcpu, x) || !s1.irq(vcpu, x).inner.in_lr) by {
        reveal(release_prev);
        assert(s.vgic.cpus[c].wf());
        let prev_id = s.vgic.cpus[c].curr_lrs[idx] as int;
        if prev_id != id && prev_id < GIC_INTS_MAX {
            lemma_irq_wf(s.vgic, c, prev_id);
            let p = s.vgic.irq(c, prev_id);
            lemma_set_int_wf(s.vgic, c, p.with_in_lr(false));
            lemma_set_int_wf(s.vgic, c, yielded(vcpu, p.with_in_lr(false)));
            if x != prev_id {
                assert(!is_irq(c, prev_id, c, x));
            }
        }
    }
    assert forall|x: int| 0 <= x < GIC_INTS_MAX && (#[trigger] s1.irq(vcpu, x)).inner.in_lr implies s.irq(
        vcpu,
        x,
    ).inner.in_lr by {
        reveal(release_prev);
        assert(s.vgic.cpus[c].wf());
        let prev_id = s.vgic.cpus[c].curr_lrs[idx] as int;
        if prev_id != id && prev_id < GIC_INTS_MAX {
            lemma_irq_wf(s.vgic, c, prev_id);
            let p = s.vgic.irq(c, prev_id);
            lemma_set_int_wf(s.vgic, c, p.with_in_lr(false));
            lemma_set_int_wf(s.vgic, c, yielded(vcpu, p.with_in_lr(false)));
            if x != prev_id {
                assert(!is_irq(c, prev_id, c, x));
            }
        }
    }
    let lr = s1.lr_value(vcpu, id);
    lemma_lr_value_effects(s1, vcpu, id);
    let s2 = s1.lr_value_effects(vcpu, id);
    lemma_latch(s2, vcpu, id, idx, lr);
    let w = s.write_lr(vcpu, id, idx);
    assert forall|x: int| 0 <= x < GIC_INTS_MAX && x != id && (#[trigger] w.irq(vcpu, x)).inner.in_lr implies s.irq(
        vcpu,
        x,
    ).inner.in_lr by {
        assert(!is_irq(c, id, c, x));
        assert(w.vgic.irq(c, x) == s2.vgic.irq(c, x));
        assert(s2.irq(vcpu, x) == s1.irq(vcpu, x));
    }
    assert forall|x: int| 0 <= x < GIC_INTS_MAX && x != id implies #[trigger] left_alone(s, w, vcpu, x) by {
        assert(!is_irq(c, id, c, x));
        assert(w.vgic.irq(c, x) == s2.vgic.irq(c, x));
        assert(s2.irq(vcpu, x) == s1.irq(vcpu, x));
        assert(s1.irq(vcpu, x).inner.state == s.irq(vcpu, x).inner.state);
    }
    lemma_irq_wf(w.vgic, c, id);
}

/// Putting an interrupt that is not on the active list into a list register
/// leaves an active list of spilled interrupts as it is, or puts the
/// interrupt that had to make room at its end; the list still holds spilled
/// interrupts only.
proof fn lemma_add_spills(s: Sys, vcpu: Vcpu, id: int)
    requires
        s.wf(),
        vcpu.id < s.vgic.cpus.len(),
        0 <= id < GIC_INTS_MAX,
        all_spilled(s, vcpu),
        !act_list(s, vcpu).contains(id as u16),
    ensures
        s.add_lr(vcpu, id).wf(),
        s.add_lr(vcpu, id).vgic.cpus.len() == s.vgic.cpus.len(),
        all_spilled(s.add_lr(vcpu, id), vcpu),
        act_list(s, vcpu).is_prefix_of(act_list(s.add_lr(vcpu, id), vcpu)),
        forall|y: int| 0 <= y < GIC_INTS_MAX && #[trigger] retired(s, vcpu, y) ==> retired(s.add_lr(vcpu, id), vcpu, y),
{
    reveal(Sys::add_lr);
    let list = act_list(s, vcpu);
    let i = s.irq(vcpu, id);
    let a = s.add_lr(vcpu, id);
    assert(list.is_prefix_of(list));
    if i.inner.enabled && !i.inner.in_lr {
        lemma_first_set_bit(s.gich.elrsr, s.gich.lrs);
        lemma_victim_bound(s.gich);
        match first_set_bit(s.gich.elrsr, s.gich.lrs) {
            Some(idx) => {
                lemma_write_spills(s, vcpu, id, idx as int);
                lemma_remove_absent(list, id as u16);
                lemma_written_spilled(s, s.write_lr(vcpu, id, idx as int), vcpu, id);
                assert forall|y: int| 0 <= y < GIC_INTS_MAX && #[trigger] retired(s, vcpu, y) implies retired(
                    a,
                    vcpu,
                    y,
                ) by {
                    if y != id {
                        assert(left_alone(s, a, vcpu, y));
                        lemma_left_alone(s, a, vcpu, y);
                    }
                }
            },
            None => match victim_lr(s.gich) {
                Some(idx) => {
                    let x = lr_id(s.gich.lr[idx as int]) as int;
                    lemma_lr_id_bound(s.gich.lr[idx as int]);
                    lemma_evict_spills(s, vcpu, idx as int);
                    let e = s.evict(vcpu, idx as int);
                    let grown = act_list(e, vcpu);
                    assert(!grown.contains(id as u16)) by {
                        if grown.contains(id as u16) {
                            let j = choose|j: int| 0 <= j < grown.len() && grown[j] == id as u16;
                            if j < list.len() {
                                assert(list[j] == id as u16);
                            }
                        }
                    }
                    lemma_write_spills(e, vcpu, id, idx as int);
                    lemma_remove_absent(grown, id as u16);
                    lemma_written_spilled(e, e.write_lr(vcpu, id, idx as int), vcpu, id);
                    assert(list.is_prefix_of(grown));
                    assert forall|y: int| 0 <= y < GIC_INTS_MAX && #[trigger] retired(s, vcpu, y) implies retired(
                        a,
                        vcpu,
                        y,
                    ) by {
                        assert(retired(e, vcpu, y));
                        if y != id {
                            assert(left_alone(e, a, vcpu, y));
                            lemma_left_alone(e, a, vcpu, y);
                        }
                    }
                },
                None => {
                    assert forall|y: int| 0 <= y < GIC_INTS_MAX && #[trigger] retired(s, vcpu, y) implies retired(
                        a,
                        vcpu,
                        y,
                    ) by {
                        assert(a.vgic == s.vgic);
                        assert(a.gich.lr == s.gich.lr && a.gich.cpu_id == s.gich.cpu_id);
                    }
                },
            },
        }
    }
}

/// A step that keeps the active list, which does not hold `id`, and puts
/// no interrupt but `id` into a list register keeps a list of spilled
/// interrupts one.
proof fn lemma_written_spilled(a: Sys, b: Sys, vcpu: Vcpu, id: int)
    requires
        all_spilled(a, vcpu),
        act_list(b, vcpu) == act_list(a, vcpu),
        !act_list(a, vcpu).contains(id as u16),
        0 <= id < GIC_INTS_MAX,
        a.wf(),
        vcpu.id < a.vgic.cpus.len(),
        none_latched(a, b, vcpu, id),
    ensures
        all_spilled(b, vcpu),
{
    let list = act_list(a, vcpu);
    assert(a.vgic.cpus[vcpu.id as int].wf());
    assert forall|j: int| 0 <= j < list.len() implies !b.irq(vcpu, #[trigger] list[j] as int).inner.in_lr by {
        assert(!a.irq(vcpu, list[j] as int).inner.in_lr);
        assert(list[j] as int != id) by {
            if list[j] as int == id {
                assert(list[j] == id as u16);
            }
        }
        assert(0 <= list[j] as int && (list[j] as int) < GIC_INTS_MAX);
    }
}

/// An end of interrupt takes the head off an active list of spilled
/// interrupts and leaves the entries behind it where they are; what it may
/// add comes after them. The list still holds spilled interrupts only.
pub proof fn lemma_end_of_interrupt_spills(s: Sys, vcpu: Vcpu)
    requires
        s.wf(),
        vcpu.id < s.vgic.cpus.len(),
        all_spilled(s, vcpu),
        act_list(s, vcpu).len() > 0,
    ensures
        s.eoir_highest_spilled_active(vcpu).wf(),
        s.eoir_highest_spilled_active(vcpu).vgic.cpus.len() == s.vgic.cpus.len(),
        all_spilled(s.eoir_highest_spilled_active(vcpu), vcpu),
        act_list(s, vcpu).skip(1).is_prefix_of(act_list(s.eoir_highest_spilled_active(vcpu), vcpu)),
        retired(s.eoir_highest_spilled_active(vcpu), vcpu, act_list(s, vcpu)[0] as int),
        forall|y: int|
            0 <= y < GIC_INTS_MAX && #[trigger] retired(s, vcpu, y) ==> retired(
                s.eoir_highest_spilled_active(vcpu),
                vcpu,
                y,
            ),
{
    let c = vcpu.id as int;
    assert(s.vgic.cpus[c].wf());
    let list = act_list(s, vcpu);
    let rest = list.skip(1);
    let id = list[0] as int;
    lemma_irq_wf(s.vgic, c, id);
    let i = claimed(vcpu, s.irq(vcpu, id));
    let j = i.with_state(i.inner.state.with_active(false));
    lemma_set_int_wf(s.vgic, c, j);
    let s1 = s.set_int(vcpu, j);
    lemma_update_int_list_wf(s1.vgic, c, id);
    let s2 = s1.update_int_list(vcpu, id);
    assert(s1.vgic.cpus[c].act_list == list);
    list.index_of_first_ensures(list[0]);
    assert(list.remove_value(list[0]) =~= rest);
    assert(act_list(s2, vcpu) == rest);
    assert(rest.is_prefix_of(rest));
    assert(!rest.contains(id as u16)) by {
        if rest.contains(id as u16) {
            let k = choose|k: int| 0 <= k < rest.len() && rest[k] == id as u16;
            assert(list[k + 1] == list[0]);
        }
    }
    assert forall|k: int| 0 <= k < rest.len() implies !s2.irq(vcpu, #[trigger] rest[k] as int).inner.in_lr by {
        assert(rest[k] == list[k + 1]);
        assert(!s.irq(vcpu, list[k + 1] as int).inner.in_lr);
        assert(list[k + 1] != list[0]);
        assert(!is_irq(c, id, c, rest[k] as int));
        assert(s2.vgic.irq(c, rest[k] as int) == s1.vgic.irq(c, rest[k] as int));
        assert(s1.vgic.irq(c, rest[k] as int) == s.vgic.irq(c, rest[k] as int));
    }
    assert(all_spilled(s2, vcpu));
    assert(!s.irq(vcpu, list[0] as int).inner.in_lr);
    lemma_irq_wf(s2.vgic, c, id);
    assert(retired(s2, vcpu, id));
    assert forall|y: int| 0 <= y < GIC_INTS_MAX && #[trigger] retired(s, vcpu, y) implies retired(s2, vcpu, y) by {
        assert(y != id) by {
            if y == id {
                assert(list[0] == y as u16);
            }
        }
        assert(!is_irq(c, id, c, y));
        assert(s2.vgic.irq(c, y) == s1.vgic.irq(c, y));
        assert(s1.vgic.irq(c, y) == s.vgic.irq(c, y));
        assert(!rest.contains(y as u16)) by {
            if rest.contains(y as u16) {
                let k = choose|k: int| 0 <= k < rest.len() && rest[k] == y as u16;
                assert(list[k + 1] == y as u16);
            }
        }
        assert(left_alone(s, s2, vcpu, y));
        lemma_left_alone(s, s2, vcpu, y);
    }
    if !spec_vgic_int_is_hw(i) && i.inner.state.pending() {
        lemma_add_spills(s2, vcpu, id);
    }
}

/// Ends of interrupt for spilled active interrupts work the active list off
/// from its head and touch no entry behind: after `k` of them, each of the
/// first `k` interrupts of the list (of all, if the list has fewer) has no
/// active bit, neither as software records it nor in a list register, and
/// is not on the list; and the list begins with what followed those
/// entries, in the same order. What comes after that are interrupts that
/// had to make room in a list register in between. The list still holds
/// spilled interrupts only.
///
/// This is stated of a list on which no interrupt occurs twice and whose
/// interrupts are each in no list register.
pub proof fn law_ends_of_interrupt_keep_the_rest(s: Sys, vcpu: Vcpu, k: nat)
    requires
        s.wf(),
        vcpu.id < s.vgic.cpus.len(),
        all_spilled(s, vcpu),
    ensures
        eoi_steps(s, vcpu, k).wf(),
        eoi_steps(s, vcpu, k).vgic.cpus.len() == s.vgic.cpus.len(),
        all_spilled(eoi_steps(s, vcpu, k), vcpu),
        act_list(s, vcpu).skip(taken(s, vcpu, k)).is_prefix_of(act_list(eoi_steps(s, vcpu, k), vcpu)),
        forall|j: int|
            0 <= j < taken(s, vcpu, k) ==> retired(eoi_steps(s, vcpu, k), vcpu, #[trigger] act_list(s, vcpu)[j] as int),
        forall|y: int|
            0 <= y < GIC_INTS_MAX && #[trigger] retired(s, vcpu, y) ==> retired(eoi_steps(s, vcpu, k), vcpu, y),
    decreases k,
{
    let list = act_list(s, vcpu);
    let m = taken(s, vcpu, k);
    if k == 0 {
        assert(list.skip(0) =~= list);
        assert(list.is_prefix_of(list));
    } else if list.len() == 0 {
        let s1 = eoi_step(s, vcpu);
        assert(s1.vgic == s.vgic);
        assert(s1.gich.lr == s.gich.lr && s1.gich.cpu_id == s.gich.cpu_id);
        assert forall|y: int| 0 <= y < GIC_INTS_MAX && retired(s, vcpu, y) implies #[trigger] retired(s1, vcpu, y) by {
            assert(composite_state(s1, vcpu, y) == composite_state(s, vcpu, y));
        }
        law_ends_of_interrupt_keep_the_rest(s1, vcpu, (k - 1) as nat);
        assert(list.skip(0) =~= list);
        assert forall|y: int| 0 <= y < GIC_INTS_MAX && #[trigger] retired(s, vcpu, y) implies retired(
            eoi_steps(s, vcpu, k),
            vcpu,
            y,
        ) by {
            assert(retired(s1, vcpu, y));
        }
    } else {
        assert(s.vgic.cpus[vcpu.id as int].wf());
        lemma_end_of_interrupt_spills(s, vcpu);
        let r = s.eoir_highest_spilled_active(vcpu);
        let s1 = eoi_step(s, vcpu);
        assert(s1.vgic == r.vgic);
        assert(s1.gich.lr == r.gich.lr && s1.gich.cpu_id == r.gich.cpu_id);
        let next = act_list(s1, vcpu);
        let rest = list.skip(1);
        assert(all_spilled(s1, vcpu));
        assert forall|y: int| 0 <= y < GIC_INTS_MAX && retired(r, vcpu, y) implies #[trigger] retired(s1, vcpu, y) by {
            assert(composite_state(s1, vcpu, y) == composite_state(r, vcpu, y));
        }
        law_ends_of_interrupt_keep_the_rest(s1, vcpu, (k - 1) as nat);
        let m1 = taken(s1, vcpu, (k - 1) as nat);
        let last_sys = eoi_steps(s, vcpu, k);
        let last = act_list(last_sys, vcpu);
        let want = list.skip(m);
        assert(m - 1 <= m1);
        if k <= list.len() {
            assert(m1 == k - 1);
            assert(want =~= rest.skip(k - 1));
            assert(want.len() <= last.len());
            assert forall|j: int| 0 <= j < want.len() implies want[j] == last[j] by {
                assert(next.skip(k - 1)[j] == last.subrange(0, next.skip(k - 1).len() as int)[j]);
                assert(rest[j + k - 1] == next.subrange(0, rest.len() as int)[j + k - 1]);
            }
        }
        assert(want =~= last.subrange(0, want.len() as int));
        assert forall|j: int| 0 <= j < m implies retired(last_sys, vcpu, #[trigger] list[j] as int) by {
            if j == 0 {
                assert(retired(r, vcpu, list[0] as int));
                assert(retired(s1, vcpu, list[0] as int));
            } else {
                assert(rest[j - 1] == list[j]);
                assert(rest[j - 1] == next.subrange(0, rest.len() as int)[j - 1]);
                assert(retired(last_sys, vcpu, next[j - 1] as int));
            }
        }
        assert forall|y: int| 0 <= y < GIC_INTS_MAX && #[trigger] retired(s, vcpu, y) implies retired(
            last_sys,
            vcpu,
            y,
        ) by {
            assert(retired(r, vcpu, y));
            assert(retired(s1, vcpu, y));
        }
    }
}

/// The maintenance handler, asked to give the spilled active interrupts
/// their end of interrupt, takes as many interrupts off the head of the
/// active list as the control word counts, or all if the list has fewer:
/// each of them ends up without active bit and off the list, the entries
/// behind them stay where they are, in their order, and the control word
/// counts none afterwards.
///
/// The list is taken as it is once the list registers got their attention.
/// This is stated of a list on which no interrupt occurs twice and whose
/// interrupts are each in no list register.
pub proof fn law_maintenance_takes_the_spilled(s: Sys, vcpu: Vcpu)
    requires
        s.gich.misr & (1u32 << 2) != 0,
        s.attend_list_registers(vcpu).wf(),
        vcpu.id < s.attend_list_registers(vcpu).vgic.cpus.len(),
        all_spilled(s.attend_list_registers(vcpu), vcpu),
    ensures
        spilled_count(s.gic_maintenance_handler(vcpu).gich.hcr) == 0,
        all_spilled(s.gic_maintenance_handler(vcpu), vcpu),
        act_list(s.attend_list_registers(vcpu), vcpu).skip(
            taken(s.attend_list_registers(vcpu), vcpu, spilled_count(s.attend_list_registers(vcpu).gich.hcr)),
        ).is_prefix_of(act_list(s.gic_maintenance_handler(vcpu), vcpu)),
        forall|j: int|
            0 <= j < taken(
                s.attend_list_registers(vcpu),
                vcpu,
                spilled_count(s.attend_list_registers(vcpu).gich.hcr),
            ) ==> retired(
                s.gic_maintenance_handler(vcpu),
                vcpu,
                #[trigger] act_list(s.attend_list_registers(vcpu), vcpu)[j] as int,
            ),
{
    let a = s.attend_list_registers(vcpu);
    law_one_end_of_interrupt_per_count(a, vcpu);
    law_ends_of_interrupt_keep_the_rest(a, vcpu, spilled_count(a.gich.hcr));
}

} // verus!
