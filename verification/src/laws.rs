//! Laws of the engine: statements that relate several of its operations or
//! hold of every state.

use vstd::prelude::*;
use crate::consts::{GIC_INTS_MAX, GIC_LIST_REGS_NUM, GIC_SGIS_NUM};
use crate::gich::{lr_cpuid, lr_id, lr_prio, lr_state, GichView};
use crate::effects::Effect;
use crate::ipi::{InitcEvent, IpiInitcMessage};
use crate::irq::IrqState;
use crate::lr::{fold_source, num_active, num_pending, remove_lr, scan_lrs, sgi_pend_rest, victim_lr};
use crate::mutators::source_bit;
use crate::lists::{bit_of, law_lists_follow_state, list_of};
use crate::lr_bits::{
    lemma_highest_source,
    lemma_lr_val_hw,
    lemma_lr_val_other,
    lemma_lr_val_sgi_act,
    lemma_lr_val_sgi_pend,
};
use crate::maintenance::hcr_eoi_count;
use crate::lr_proofs::{
    is_irq,
    lemma_add_lr,
    lemma_evict,
    lemma_irq_wf,
    lemma_latch,
    lemma_lr_id_bound,
    lemma_lr_value_effects,
    lemma_lr_zero,
    lemma_release_prev,
    lemma_remove_lr,
    lemma_route,
    lemma_set_int_wf,
    lemma_set_lr,
    lemma_set_sgis_wf,
    lemma_sys_remove_lr,
    lemma_update_int_list_wf,
    lemma_victim_bound,
    lemma_write_lr,
    lemma_yield_owner,
    others_kept,
    same_config,
    step_ok,
};
use crate::utils::{first_set_bit, lemma_first_set_bit, spec_int_id_field, spec_source_field};
use crate::vint_private::Sgis;
use crate::vcpu::Vcpu;
use crate::vgic::Sys;
use crate::vint::{
    claim_result,
    claimed,
    spec_gic_is_priv,
    spec_gich_get_lr,
    spec_vgic_get_state,
    spec_vgic_int_is_hw,
    vgic_owns,
    VgicInt,
};

verus! {

/// A shared interrupt has at most one owner: two virtual CPUs that both own
/// it have the same index and run on the same physical core.
pub proof fn law_at_most_one_owner(a: Vcpu, b: Vcpu, interrupt: VgicInt)
    requires
        !spec_gic_is_priv(interrupt.id as usize),
        vgic_owns(a, interrupt),
        vgic_owns(b, interrupt),
    ensures
        a.id == b.id,
        a.phys_id == b.phys_id,
{
}

/// An interrupt that one virtual CPU holds after claiming it cannot be
/// claimed by a virtual CPU of another index or machine, and claiming it again
/// changes nothing.
pub proof fn law_claim_excludes(a: Vcpu, b: Vcpu, interrupt: VgicInt)
    requires
        interrupt.inner.owner.is_none(),
    ensures
        claim_result(a, interrupt),
        claim_result(b, claimed(a, interrupt)) <==> (b.vm_id == a.vm_id && b.id == a.id),
        claimed(b, claimed(a, interrupt)) == claimed(a, interrupt),
{
}

/// A request about an interrupt that the calling virtual CPU does not hold
/// changes neither the controller nor the register bank: all that happens is
/// that one message with the request goes to the core of the owner.
///
/// `id` is the id of an interrupt that is not software-generated and that
/// `vcpu` cannot claim.
pub proof fn law_request_of_another_is_forwarded(s: Sys, vcpu: Vcpu, id: usize, flag: bool, val: u8)
    requires
        s.wf(),
        vcpu.id < s.vgic.cpus.len(),
        GIC_SGIS_NUM <= id < GIC_INTS_MAX,
        !s.claims(vcpu, id as int),
    ensures
        s.irq(vcpu, id as int).inner.owner.is_some(),
        s.set_enable(vcpu, id as int, flag) == s.forward(vcpu, id as int, InitcEvent::VgicdSetEn, flag_value(flag)),
        s.set_pend(vcpu, id, flag) == s.forward(vcpu, id as int, InitcEvent::VgicdSetPend, flag_value(flag)),
        s.set_active(vcpu, id, flag) == s.forward(vcpu, id as int, InitcEvent::VgicdSetAct, flag_value(flag)),
        s.set_icfgr(vcpu, id as int, val) == s.forward(vcpu, id as int, InitcEvent::VgicdSetCfg, val),
        s.set_trgt(vcpu, id as int, val) == s.forward(vcpu, id as int, InitcEvent::VgicdSetTrgt, val),
        s.set_prio(vcpu, id as int, val) == s.forward(vcpu, id as int, InitcEvent::VgicdSetPrio, val & 0xf0),
        forall|event: InitcEvent, v: u8|
            #![trigger s.forward(vcpu, id as int, event, v)]
            s.forward(vcpu, id as int, event, v).vgic == s.vgic && s.forward(vcpu, id as int, event, v).gich
                == s.gich && s.forward(vcpu, id as int, event, v).fx == s.fx.push(
                Effect::IpiSend {
                    target: s.irq(vcpu, id as int).inner.owner.unwrap().phys_id,
                    msg: IpiInitcMessage { event, vm_id: vcpu.vm_id, int_id: id as u16, val: v },
                },
            ),
{
    lemma_irq_wf(s.vgic, vcpu.id as int, id as int);
    assert(id < 1024 ==> (id >> 0usize) & (((1usize << 10usize) - 1) as usize) == id) by (bit_vector);
}

/// The value that a message carries for a flag.
pub open spec fn flag_value(flag: bool) -> u8 {
    if flag {
        1
    } else {
        0
    }
}

/// Whether list register `i` holds an interrupt with the active bit.
pub open spec fn lr_active(lr: Seq<u32>, i: int) -> bool {
    lr_state(lr[i]) == 2 || lr_state(lr[i]) == 3
}

/// Whether list register `i` holds an interrupt that is pending and not
/// active.
pub open spec fn lr_pending(lr: Seq<u32>, i: int) -> bool {
    lr_state(lr[i]) == 1
}

/// Whether register `k` is the least urgent of the registers `0..n` of its
/// kind, active (`active`) or pending: it is of the kind, none of the kind
/// has a larger priority value, and none before it has the same.
pub open spec fn least_urgent(lr: Seq<u32>, n: int, active: bool, k: int) -> bool {
    &&& 0 <= k < n
    &&& of_kind(lr, k, active)
    &&& forall|i: int| 0 <= i < n && #[trigger] of_kind(lr, i, active) ==> lr_prio(lr[i]) <= lr_prio(lr[k])
    &&& forall|i: int| 0 <= i < k && #[trigger] of_kind(lr, i, active) ==> lr_prio(lr[i]) < lr_prio(lr[k])
}

/// Whether list register `i` holds an active (`active`) or a pending
/// interrupt.
pub open spec fn of_kind(lr: Seq<u32>, i: int, active: bool) -> bool {
    if active {
        lr_active(lr, i)
    } else {
        lr_pending(lr, i)
    }
}

/// How many of the list registers `0..n` hold an interrupt of the kind.
pub open spec fn count_kind(lr: Seq<u32>, n: int, active: bool) -> nat
    decreases n,
{
    if n <= 0 {
        0
    } else {
        count_kind(lr, n - 1, active) + if of_kind(lr, n - 1, active) {
            1nat
        } else {
            0nat
        }
    }
}

/// A register of the kind counts.
proof fn lemma_count_one(lr: Seq<u32>, n: int, active: bool, a: int)
    requires
        0 <= a < n,
        of_kind(lr, a, active),
    ensures
        count_kind(lr, n, active) >= 1,
    decreases n,
{
    if a < n - 1 {
        lemma_count_one(lr, n - 1, active, a);
    }
}

/// Two registers of the kind count twice.
proof fn lemma_count_two(lr: Seq<u32>, n: int, active: bool, a: int, b: int)
    requires
        0 <= a < b < n,
        of_kind(lr, a, active),
        of_kind(lr, b, active),
    ensures
        count_kind(lr, n, active) >= 2,
    decreases n,
{
    if b < n - 1 {
        lemma_count_two(lr, n - 1, active, a, b);
    } else {
        lemma_count_one(lr, n - 1, active, a);
    }
}

/// Where at most one register is of the kind, the count is at most one.
proof fn lemma_count_at_most_one(lr: Seq<u32>, n: int, active: bool)
    requires
        forall|i: int, j: int|
            0 <= i < n && 0 <= j < n && #[trigger] of_kind(lr, i, active) && #[trigger] of_kind(lr, j, active) ==> i
                == j,
    ensures
        count_kind(lr, n, active) <= 1,
        count_kind(lr, n, active) == 1 ==> exists|i: int| 0 <= i < n && #[trigger] of_kind(lr, i, active),
    decreases n,
{
    if n > 0 {
        lemma_count_at_most_one(lr, n - 1, active);
        if of_kind(lr, n - 1, active) && count_kind(lr, n - 1, active) == 1 {
            let i = choose|i: int| 0 <= i < n - 1 && #[trigger] of_kind(lr, i, active);
            assert(of_kind(lr, i, active) && of_kind(lr, n - 1, active));
        }
    }
}

/// What a scan finds: of each kind the count, and, where there is a register
/// of the kind, the least urgent one.
proof fn lemma_scan(lr: Seq<u32>, n: int)
    requires
        0 <= n <= lr.len(),
        n <= GIC_LIST_REGS_NUM,
    ensures
        scan_lrs(lr, n).act_found == count_kind(lr, n, true),
        scan_lrs(lr, n).pend_found == count_kind(lr, n, false),
        scan_lrs(lr, n).act_ind.is_none() <==> count_kind(lr, n, true) == 0,
        scan_lrs(lr, n).pend_ind.is_none() <==> count_kind(lr, n, false) == 0,
        scan_lrs(lr, n).act_ind matches Some(k) ==> least_urgent(lr, n, true, k as int) && lr_prio(lr[k as int])
            == scan_lrs(lr, n).min_prio_act,
        scan_lrs(lr, n).pend_ind matches Some(k) ==> least_urgent(lr, n, false, k as int) && lr_prio(
            lr[k as int],
        ) == scan_lrs(lr, n).min_prio_pend,
    decreases n,
{
    if n > 0 {
        lemma_scan(lr, n - 1);
        let p = scan_lrs(lr, n - 1);
        let q = scan_lrs(lr, n);
        assert(q == p.step((n - 1) as usize, lr[n - 1]));
        lemma_scan_kind(lr, n, true, p.act_ind, q.act_ind, p.min_prio_act);
        lemma_scan_kind(lr, n, false, p.pend_ind, q.pend_ind, p.min_prio_pend);
    }
}

/// One step of a scan keeps the least urgent register of a kind: `prev` is
/// what the scan of the registers `0..n - 1` remembers and `next` what the
/// step makes of it.
proof fn lemma_scan_kind(lr: Seq<u32>, n: int, active: bool, prev: Option<usize>, next: Option<usize>, min: u32)
    requires
        0 < n <= lr.len(),
        n <= GIC_LIST_REGS_NUM,
        prev.is_none() <==> count_kind(lr, n - 1, active) == 0,
        prev matches Some(k) ==> least_urgent(lr, n - 1, active, k as int) && lr_prio(lr[k as int]) == min,
        next == (if of_kind(lr, n - 1, active) && (prev.is_none() || lr_prio(lr[n - 1]) > min) {
            Some((n - 1) as usize)
        } else {
            prev
        }),
    ensures
        next matches Some(k) ==> least_urgent(lr, n, active, k as int),
{
    match next {
        Some(k) => {
            let kk = k as int;
            assert forall|i: int| 0 <= i < n && #[trigger] of_kind(lr, i, active) implies lr_prio(lr[i]) <= lr_prio(
                lr[kk],
            ) by {
                if i < n - 1 {
                    lemma_count_one(lr, n - 1, active, i);
                    let k0 = prev.unwrap() as int;
                    assert(least_urgent(lr, n - 1, active, k0));
                }
            }
            assert forall|i: int| 0 <= i < kk && #[trigger] of_kind(lr, i, active) implies lr_prio(lr[i]) < lr_prio(
                lr[kk],
            ) by {
                lemma_count_one(lr, n - 1, active, i);
                let k0 = prev.unwrap() as int;
                assert(least_urgent(lr, n - 1, active, k0));
            }
        },
        None => {},
    }
}

/// When more than one list register in use holds an active interrupt, the
/// register that has to make room is the least urgent of them: none of them
/// has a larger priority value and none before it has the same. Pending
/// interrupts do not matter. And when no register is empty, putting an
/// enabled interrupt that is in no register into one evicts that register's
/// occupant and takes the register.
///
/// `a` and `b` name two of the registers with an active interrupt.
pub proof fn law_eviction_picks_least_urgent_active(s: Sys, vcpu: Vcpu, int_id: int, a: int, b: int)
    requires
        s.gich.wf(),
        0 <= a < s.gich.lrs,
        0 <= b < s.gich.lrs,
        a != b,
        lr_active(s.gich.lr, a),
        lr_active(s.gich.lr, b),
    ensures
        victim_lr(s.gich) matches Some(k) && least_urgent(s.gich.lr, s.gich.lrs as int, true, k as int),
        first_set_bit(s.gich.elrsr, s.gich.lrs).is_none() && s.irq(vcpu, int_id).inner.enabled && !s.irq(
            vcpu,
            int_id,
        ).inner.in_lr ==> s.add_lr(vcpu, int_id) == s.evict(vcpu, victim_lr(s.gich).unwrap() as int).write_lr(
            vcpu,
            int_id,
            victim_lr(s.gich).unwrap() as int,
        ),
{
    let n = s.gich.lrs as int;
    lemma_scan(s.gich.lr, n);
    if a < b {
        lemma_count_two(s.gich.lr, n, true, a, b);
    } else {
        lemma_count_two(s.gich.lr, n, true, b, a);
    }
    reveal(Sys::add_lr);
}

/// When at most one list register in use holds an active interrupt and more
/// than one a pending interrupt, the register that has to make room is the
/// least urgent of the pending ones.
///
/// `a` and `b` name two of the registers with a pending interrupt.
pub proof fn law_eviction_falls_back_to_pending(g: GichView, a: int, b: int)
    requires
        g.wf(),
        0 <= a < g.lrs,
        0 <= b < g.lrs,
        a != b,
        lr_pending(g.lr, a),
        lr_pending(g.lr, b),
        forall|i: int, j: int|
            0 <= i < g.lrs && 0 <= j < g.lrs && #[trigger] of_kind(g.lr, i, true) && #[trigger] of_kind(
                g.lr,
                j,
                true,
            ) ==> i == j,
    ensures
        victim_lr(g) matches Some(k) && least_urgent(g.lr, g.lrs as int, false, k as int),
{
    let n = g.lrs as int;
    lemma_scan(g.lr, n);
    lemma_count_at_most_one(g.lr, n, true);
    if a < b {
        lemma_count_two(g.lr, n, false, a, b);
    } else {
        lemma_count_two(g.lr, n, false, b, a);
    }
}

/// When at most one list register in use holds an active interrupt and at
/// most one a pending interrupt, no register has to make room.
pub proof fn law_no_eviction_without_redundancy(g: GichView)
    requires
        g.wf(),
        forall|i: int, j: int|
            0 <= i < g.lrs && 0 <= j < g.lrs && #[trigger] of_kind(g.lr, i, true) && #[trigger] of_kind(
                g.lr,
                j,
                true,
            ) ==> i == j,
        forall|i: int, j: int|
            0 <= i < g.lrs && 0 <= j < g.lrs && #[trigger] of_kind(g.lr, i, false) && #[trigger] of_kind(
                g.lr,
                j,
                false,
            ) ==> i == j,
    ensures
        victim_lr(g).is_none(),
{
    let n = g.lrs as int;
    lemma_scan(g.lr, n);
    lemma_count_at_most_one(g.lr, n, true);
    lemma_count_at_most_one(g.lr, n, false);
}

/// Whether a list register can hold the state of interrupt `int_id` without
/// loss: an interrupt that is both pending and active fits only if it is
/// neither hardware-backed nor software-generated, and a software-generated
/// interrupt is pending exactly if it has a pending source.
pub open spec fn state_fits_lr(s: Sys, vcpu: Vcpu, int_id: int) -> bool {
    let i = s.irq(vcpu, int_id);
    let pend = s.vgic.cpus[vcpu.id as int].sgis[int_id].pend;
    &&& spec_vgic_int_is_hw(i) ==> i.inner.state != IrqState::IrqSPendActive
    &&& int_id < GIC_SGIS_NUM ==> i.inner.state != IrqState::IrqSPendActive && (i.inner.state
        == IrqState::IrqSPend ==> pend != 0) && (i.inner.state == IrqState::IrqSInactive ==> pend == 0)
}

/// Writing an interrupt into a list register and taking it out again, with
/// no change of the register in between, gives the interrupt back as it was
/// but for the index of the register: state, owner, enablement, priority,
/// targets, configuration and list flags are restored.
///
/// This holds of an interrupt that is in no register, that the virtual CPU
/// owns on the core of the register bank, and whose state a register can
/// hold without loss.
pub proof fn law_write_remove_round_trip(s: Sys, vcpu: Vcpu, int_id: int, lr_ind: int)
    requires
        s.inv(),
        vcpu.id < s.vgic.cpus.len(),
        0 <= int_id < GIC_INTS_MAX,
        0 <= lr_ind < GIC_LIST_REGS_NUM,
        !s.irq(vcpu, int_id).inner.in_lr,
        vgic_owns(vcpu, s.irq(vcpu, int_id)),
        s.irq(vcpu, int_id).spec_owner_phys_id() == Some(s.gich.cpu_id),
        state_fits_lr(s, vcpu, int_id),
    ensures
        s.write_lr(vcpu, int_id, lr_ind).remove_lr(vcpu, int_id).irq(vcpu, int_id) == s.irq(vcpu, int_id).with_lr(
            lr_ind as u16,
        ),
        int_id < GIC_SGIS_NUM && !s.irq(vcpu, int_id).inner.state.active() ==> s.write_lr(
            vcpu,
            int_id,
            lr_ind,
        ).remove_lr(vcpu, int_id).vgic.cpus[vcpu.id as int].sgis[int_id].pend
            == s.vgic.cpus[vcpu.id as int].sgis[int_id].pend,
{
    let c = vcpu.id as int;
    let i = s.irq(vcpu, int_id);
    lemma_irq_wf(s.vgic, c, int_id);
    lemma_write_lr(s, vcpu, int_id, lr_ind);
    let sw = s.write_lr(vcpu, int_id, lr_ind);
    let s1 = s.release_prev(vcpu, int_id, lr_ind);
    lemma_release_prev(s.vgic, vcpu, int_id, lr_ind);
    assert(s.vgic.cpus[c].wf());
    let sgis = s.vgic.cpus[c].sgis[int_id];
    assert(s1.vgic.cpus[c].sgis == s.vgic.cpus[c].sgis);
    let lrv = s1.lr_value(vcpu, int_id);
    let state = i.inner.state.spec_to_num();
    assert(spec_vgic_get_state(s1.gich, i) == state);
    reveal(Sys::lr_value);
    lemma_lr_val_hw(int_id as u32, i.inner.prio, state);
    lemma_lr_val_other(int_id as u32, i.inner.prio, state);
    lemma_lr_val_sgi_act(int_id as u32, i.inner.prio, sgis);
    lemma_lr_val_sgi_pend(int_id as u32, i.inner.prio, sgis.pend);
    lemma_set_lr(s.gich, lr_ind, lrv);
    lemma_remove_lr(sw.vgic, sw.gich, vcpu, int_id);
    let i2 = sw.irq(vcpu, int_id);
    assert(sw.gich.lr[i2.inner.lr as int] == lrv);
    assert(lr_id(lrv) == int_id);
    if int_id < GIC_SGIS_NUM && !i.inner.state.active() {
        reveal(remove_lr);
        reveal(Sys::write_lr);
        reveal(Sys::lr_value_effects);
        reveal(Sys::latch);
        let s2 = s1.lr_value_effects(vcpu, int_id);
        lemma_lr_value_effects(s1, vcpu, int_id);
        lemma_latch(s2, vcpu, int_id, lr_ind, lrv);
        lemma_lr_zero();
        lemma_set_lr(sw.gich, lr_ind, 0);
        assert(sw.vgic.cpus[c].sgis == s2.vgic.cpus[c].sgis);
        assert(sw.vgic.cpus[c].sgis[int_id].pend == sgi_pend_rest(sgis.pend));
        lemma_highest_source(sgis.pend);
        if i.inner.state == IrqState::IrqSPend {
            let st = IrqState::spec_num_to_state(lr_state(lrv) as usize);
            let v1 = sw.vgic.set_int(c, i2.with_in_lr(false).with_state(st));
            lemma_set_int_wf(sw.vgic, c, i2.with_in_lr(false).with_state(st));
            assert(v1.cpus[c].wf());
            let folded = fold_source(v1.cpus[c].sgis[int_id], st, lr_cpuid(lrv));
            lemma_set_sgis_wf(v1, c, int_id, folded);
            lemma_update_int_list_wf(v1.set_sgis(c, int_id, folded), c, int_id);
        }
    }
}

/// Putting an interrupt into a list register and taking it out again, with
/// no change of the registers in between, gives the interrupt back as it was
/// but for the index of the register.
///
/// This holds of an enabled interrupt that is in no register, that the
/// virtual CPU owns on the core of the register bank, whose state a register
/// can hold without loss, for which a register is found, and whose id the
/// register that has to make room does not hold.
pub proof fn law_add_remove_round_trip(s: Sys, vcpu: Vcpu, int_id: int)
    requires
        s.inv(),
        vcpu.id < s.vgic.cpus.len(),
        0 <= int_id < GIC_INTS_MAX,
        s.add_lr_result(vcpu, int_id),
        vgic_owns(vcpu, s.irq(vcpu, int_id)),
        s.irq(vcpu, int_id).spec_owner_phys_id() == Some(s.gich.cpu_id),
        state_fits_lr(s, vcpu, int_id),
        first_set_bit(s.gich.elrsr, s.gich.lrs).is_none() ==> lr_id(
            s.gich.lr[victim_lr(s.gich).unwrap() as int],
        ) != int_id,
    ensures
        s.add_lr(vcpu, int_id).remove_lr(vcpu, int_id).irq(vcpu, int_id) == s.irq(vcpu, int_id).with_lr(
            s.add_lr(vcpu, int_id).irq(vcpu, int_id).inner.lr,
        ),
        same_config(s.add_lr(vcpu, int_id).remove_lr(vcpu, int_id).irq(vcpu, int_id), s.irq(vcpu, int_id)),
        s.add_lr(vcpu, int_id).remove_lr(vcpu, int_id).irq(vcpu, int_id).inner.state == s.irq(
            vcpu,
            int_id,
        ).inner.state,
{
    reveal(Sys::add_lr);
    let c = vcpu.id as int;
    lemma_first_set_bit(s.gich.elrsr, s.gich.lrs);
    lemma_victim_bound(s.gich);
    match first_set_bit(s.gich.elrsr, s.gich.lrs) {
        Some(idx) => {
            law_write_remove_round_trip(s, vcpu, int_id, idx as int);
            lemma_write_lr(s, vcpu, int_id, idx as int);
        },
        None => {
            let idx = victim_lr(s.gich).unwrap() as int;
            let spilled = lr_id(s.gich.lr[idx]) as int;
            lemma_lr_id_bound(s.gich.lr[idx]);
            lemma_evict(s, vcpu, idx);
            let s1 = s.evict(vcpu, idx);
            assert(!is_irq(c, spilled, c, int_id));
            assert(s1.vgic.irq(c, int_id) == s.vgic.irq(c, int_id));
            lemma_sys_remove_lr(s, vcpu, spilled);
            lemma_remove_lr(s.vgic, s.gich, vcpu, spilled);
            lemma_yield_owner(s.remove_lr(vcpu, spilled), vcpu, spilled);
            assert(s.vgic.cpus[c].wf());
            if int_id < GIC_SGIS_NUM {
                assert(s.remove_lr(vcpu, spilled).vgic.cpus[c].sgis[int_id] == s.vgic.cpus[c].sgis[int_id]);
                assert(s1.vgic.cpus[c].sgis[int_id] == s.vgic.cpus[c].sgis[int_id]);
            }
            law_write_remove_round_trip(s1, vcpu, int_id, idx);
            lemma_write_lr(s1, vcpu, int_id, idx);
        },
    }
}

/// What a request of the holder to enable or disable an interrupt does to
/// the interrupt: it ends up with the wanted enablement and otherwise its
/// configuration; its owner is the holder or nobody; and if disabled by a
/// holder that owns it, it is in no list register.
proof fn lemma_set_enable(s: Sys, vcpu: Vcpu, int_id: int, en: bool)
    requires
        s.inv(),
        s.vgic.valid_vcpu(vcpu),
        GIC_SGIS_NUM <= int_id < GIC_INTS_MAX,
        s.claims(vcpu, int_id),
    ensures
        s.set_enable(vcpu, int_id, en).inv(),
        s.set_enable(vcpu, int_id, en).vgic.cpus.len() == s.vgic.cpus.len(),
        same_config(
            s.set_enable(vcpu, int_id, en).irq(vcpu, int_id),
            s.irq(vcpu, int_id).with_enabled(en),
        ),
        s.set_enable(vcpu, int_id, en).irq(vcpu, int_id).inner.owner == claimed(
            vcpu,
            s.irq(vcpu, int_id),
        ).inner.owner || s.set_enable(vcpu, int_id, en).irq(vcpu, int_id).inner.owner.is_none(),
        !en && vgic_owns(vcpu, claimed(vcpu, s.irq(vcpu, int_id))) && s.irq(vcpu, int_id).inner.enabled ==> !s.set_enable(
            vcpu,
            int_id,
            en,
        ).irq(vcpu, int_id).inner.in_lr,
{
    let c = vcpu.id as int;
    lemma_irq_wf(s.vgic, c, int_id);
    let i = s.irq(vcpu, int_id);
    let i0 = claimed(vcpu, i);
    lemma_set_int_wf(s.vgic, c, i0);
    assert(s.vgic.inv() ==> s.vgic.inv_except(c, int_id));
    let s0 = s.claim(vcpu, int_id);
    assert(s0.irq(vcpu, int_id) == i0);
    if i0.inner.enabled != en {
        lemma_set_int_wf(s0.vgic, c, i0.with_enabled(en));
        assert(s0.vgic.inv() ==> s0.vgic.inv_except(c, int_id));
        let s1 = s0.set_int(vcpu, i0.with_enabled(en));
        assert(s1.irq(vcpu, int_id) == i0.with_enabled(en));
        lemma_route(s1, vcpu, int_id);
        lemma_sys_remove_lr(s1, vcpu, int_id);
        lemma_remove_lr(s1.vgic, s1.gich, vcpu, int_id);
        let s2 = if en {
            s1.route(vcpu, int_id)
        } else {
            s1.remove_lr(vcpu, int_id)
        };
        assert(step_ok(s1, s2));
        let s3 = if i0.hw {
            s2.emit(crate::effects::Effect::GicdSetEnable { int_id: i0.id as usize, en })
        } else {
            s2
        };
        lemma_yield_owner(s3, vcpu, int_id);
    } else {
        lemma_yield_owner(s0, vcpu, int_id);
    }
}

/// Whether a list register of this core holds the state `st` for interrupt
/// `id`, which `vcpu` owns: the interrupt is in a register of the bank, and
/// that register carries its id and the state.
pub open spec fn lr_holds(s: Sys, vcpu: Vcpu, id: int, st: IrqState) -> bool {
    let i = s.irq(vcpu, id);
    &&& i.inner.in_lr
    &&& i.inner.state == IrqState::IrqSInactive
    &&& !i.inner.in_pend && !i.inner.in_act
    &&& vgic_owns(vcpu, i)
    &&& i.spec_owner_phys_id() == Some(s.gich.cpu_id)
    &&& lr_id(s.gich.lr[i.inner.lr as int]) == id
    &&& lr_state(s.gich.lr[i.inner.lr as int]) == st.spec_to_num()
}

/// Writing an interrupt into a list register makes the register hold the
/// interrupt's state, if a register can hold it without loss.
proof fn lemma_write_holds(s: Sys, vcpu: Vcpu, int_id: int, lr_ind: int)
    requires
        s.inv(),
        vcpu.id < s.vgic.cpus.len(),
        0 <= int_id < GIC_INTS_MAX,
        0 <= lr_ind < GIC_LIST_REGS_NUM,
        !s.irq(vcpu, int_id).inner.in_lr,
        vgic_owns(vcpu, s.irq(vcpu, int_id)),
        s.irq(vcpu, int_id).spec_owner_phys_id() == Some(s.gich.cpu_id),
        state_fits_lr(s, vcpu, int_id),
    ensures
        lr_holds(s.write_lr(vcpu, int_id, lr_ind), vcpu, int_id, s.irq(vcpu, int_id).inner.state),
        s.write_lr(vcpu, int_id, lr_ind).inv(),
{
    let c = vcpu.id as int;
    let i = s.irq(vcpu, int_id);
    lemma_irq_wf(s.vgic, c, int_id);
    lemma_write_lr(s, vcpu, int_id, lr_ind);
    let s1 = s.release_prev(vcpu, int_id, lr_ind);
    lemma_release_prev(s.vgic, vcpu, int_id, lr_ind);
    assert(s.vgic.cpus[c].wf());
    let sgis = s.vgic.cpus[c].sgis[int_id];
    assert(s1.vgic.cpus[c].sgis == s.vgic.cpus[c].sgis);
    let lrv = s1.lr_value(vcpu, int_id);
    let state = i.inner.state.spec_to_num();
    reveal(Sys::lr_value);
    lemma_lr_val_hw(int_id as u32, i.inner.prio, state);
    lemma_lr_val_other(int_id as u32, i.inner.prio, state);
    lemma_lr_val_sgi_act(int_id as u32, i.inner.prio, sgis);
    lemma_lr_val_sgi_pend(int_id as u32, i.inner.prio, sgis.pend);
    lemma_set_lr(s.gich, lr_ind, lrv);
}

/// Taking an interrupt out of the list register that holds its state gives
/// it that state back.
proof fn lemma_remove_held(s: Sys, vcpu: Vcpu, int_id: int, st: IrqState)
    requires
        s.wf(),
        vcpu.id < s.vgic.cpus.len(),
        0 <= int_id < GIC_INTS_MAX,
        lr_holds(s, vcpu, int_id, st),
    ensures
        s.remove_lr(vcpu, int_id).irq(vcpu, int_id).inner.state == st,
        !s.remove_lr(vcpu, int_id).irq(vcpu, int_id).inner.in_lr,
{
    lemma_remove_lr(s.vgic, s.gich, vcpu, int_id);
}

/// Putting an interrupt into a list register either leaves it as it was or
/// makes a register hold its state.
proof fn lemma_add_holds(s: Sys, vcpu: Vcpu, int_id: int)
    requires
        s.inv(),
        vcpu.id < s.vgic.cpus.len(),
        0 <= int_id < GIC_INTS_MAX,
        !s.irq(vcpu, int_id).inner.in_lr,
        vgic_owns(vcpu, s.irq(vcpu, int_id)),
        s.irq(vcpu, int_id).spec_owner_phys_id() == Some(s.gich.cpu_id),
        state_fits_lr(s, vcpu, int_id),
        first_set_bit(s.gich.elrsr, s.gich.lrs).is_none() && victim_lr(s.gich).is_some() ==> lr_id(
            s.gich.lr[victim_lr(s.gich).unwrap() as int],
        ) != int_id,
    ensures
        if s.add_lr_result(vcpu, int_id) {
            lr_holds(s.add_lr(vcpu, int_id), vcpu, int_id, s.irq(vcpu, int_id).inner.state)
        } else {
            s.add_lr(vcpu, int_id).irq(vcpu, int_id) == s.irq(vcpu, int_id)
        },
{
    reveal(Sys::add_lr);
    let c = vcpu.id as int;
    lemma_first_set_bit(s.gich.elrsr, s.gich.lrs);
    lemma_victim_bound(s.gich);
    lemma_add_lr(s, vcpu, int_id);
    if s.add_lr_result(vcpu, int_id) {
        match first_set_bit(s.gich.elrsr, s.gich.lrs) {
            Some(idx) => {
                lemma_write_holds(s, vcpu, int_id, idx as int);
            },
            None => {
                let idx = victim_lr(s.gich).unwrap() as int;
                let spilled = lr_id(s.gich.lr[idx]) as int;
                lemma_lr_id_bound(s.gich.lr[idx]);
                lemma_evict(s, vcpu, idx);
                let s1 = s.evict(vcpu, idx);
                assert(!is_irq(c, spilled, c, int_id));
                assert(s1.vgic.irq(c, int_id) == s.vgic.irq(c, int_id));
                lemma_sys_remove_lr(s, vcpu, spilled);
                lemma_remove_lr(s.vgic, s.gich, vcpu, spilled);
                lemma_yield_owner(s.remove_lr(vcpu, spilled), vcpu, spilled);
                assert(s.vgic.cpus[c].wf());
                if int_id < GIC_SGIS_NUM {
                    assert(s.remove_lr(vcpu, spilled).vgic.cpus[c].sgis[int_id] == s.vgic.cpus[c].sgis[int_id]);
                    assert(s1.vgic.cpus[c].sgis[int_id] == s.vgic.cpus[c].sgis[int_id]);
                }
                lemma_write_holds(s1, vcpu, int_id, idx);
            },
        }
    }
}

/// Enabling an interrupt and then disabling it leaves it disabled and in no
/// list register, with the priority, targets and configuration it had.
///
/// This holds of an interrupt that is not software-generated and that the
/// virtual CPU can claim and then owns: one without owner, or one it owns.
pub proof fn law_enable_disable_round_trip(s: Sys, vcpu: Vcpu, int_id: int)
    requires
        s.inv(),
        s.vgic.valid_vcpu(vcpu),
        GIC_SGIS_NUM <= int_id < GIC_INTS_MAX,
        s.claims(vcpu, int_id),
        s.irq(vcpu, int_id).inner.owner.is_none() || vgic_owns(vcpu, s.irq(vcpu, int_id)),
    ensures
        !s.set_enable(vcpu, int_id, true).set_enable(vcpu, int_id, false).irq(vcpu, int_id).inner.in_lr,
        !s.set_enable(vcpu, int_id, true).set_enable(vcpu, int_id, false).irq(vcpu, int_id).inner.enabled,
        same_config(
            s.set_enable(vcpu, int_id, true).set_enable(vcpu, int_id, false).irq(vcpu, int_id),
            s.irq(vcpu, int_id).with_enabled(false),
        ),
        s.set_enable(vcpu, int_id, true).set_enable(vcpu, int_id, false).inv(),
{
    lemma_set_enable(s, vcpu, int_id, true);
    let s1 = s.set_enable(vcpu, int_id, true);
    lemma_set_enable(s1, vcpu, int_id, false);
}

/// What enabling a disabled interrupt that is in no list register does to
/// its state: the state either stays, or it goes into a list register that
/// holds it from then on.
proof fn lemma_enable_outcome(s: Sys, vcpu: Vcpu, int_id: int)
    requires
        s.inv(),
        s.vgic.valid_vcpu(vcpu),
        GIC_SGIS_NUM <= int_id < GIC_INTS_MAX,
        s.irq(vcpu, int_id).inner.owner.is_none() || s.irq(vcpu, int_id).inner.owner == Some(vcpu),
        vcpu.phys_id == s.gich.cpu_id,
        !s.irq(vcpu, int_id).inner.in_lr,
        !s.irq(vcpu, int_id).inner.enabled,
        state_fits_lr(s, vcpu, int_id),
        first_set_bit(s.gich.elrsr, s.gich.lrs).is_none() && victim_lr(s.gich).is_some() ==> lr_id(
            s.gich.lr[victim_lr(s.gich).unwrap() as int],
        ) != int_id,
    ensures
        s.set_enable(vcpu, int_id, true).inv(),
        s.set_enable(vcpu, int_id, true).vgic.cpus.len() == s.vgic.cpus.len(),
        s.set_enable(vcpu, int_id, true).gich.cpu_id == s.gich.cpu_id,
        s.set_enable(vcpu, int_id, true).irq(vcpu, int_id).inner.enabled,
        s.set_enable(vcpu, int_id, true).irq(vcpu, int_id).inner.owner.is_none() || s.set_enable(
            vcpu,
            int_id,
            true,
        ).irq(vcpu, int_id).inner.owner == Some(vcpu),
        if s.set_enable(vcpu, int_id, true).irq(vcpu, int_id).inner.in_lr {
            lr_holds(s.set_enable(vcpu, int_id, true), vcpu, int_id, s.irq(vcpu, int_id).inner.state)
        } else {
            s.set_enable(vcpu, int_id, true).irq(vcpu, int_id).inner.state == s.irq(vcpu, int_id).inner.state
        },
{
    let c = vcpu.id as int;
    lemma_irq_wf(s.vgic, c, int_id);
    let i = s.irq(vcpu, int_id);
    let i0 = claimed(vcpu, i);
    lemma_set_int_wf(s.vgic, c, i0);
    assert(s.vgic.inv() ==> s.vgic.inv_except(c, int_id));
    let s0 = s.claim(vcpu, int_id);
    lemma_set_int_wf(s0.vgic, c, i0.with_enabled(true));
    assert(s0.vgic.inv() ==> s0.vgic.inv_except(c, int_id));
    let s1 = s0.set_int(vcpu, i0.with_enabled(true));
    let i1 = s1.irq(vcpu, int_id);
    assert(i1 == i0.with_enabled(true));
    assert(s1.vgic.cpus[c].sgis == s.vgic.cpus[c].sgis);
    reveal(Sys::route);
    lemma_route(s1, vcpu, int_id);
    lemma_add_lr(s1, vcpu, int_id);
    lemma_add_holds(s1, vcpu, int_id);
    let s2 = s1.route(vcpu, int_id);
    let bit = 1u8 << (vcpu.phys_id as u8);
    let sa = if i1.inner.targets & bit != 0 {
        s1.add_lr(vcpu, int_id)
    } else {
        s1
    };
    lemma_yield_owner(sa, vcpu, int_id);
    let s3 = if i0.hw {
        s2.emit(Effect::GicdSetEnable { int_id: i0.id as usize, en: true })
    } else {
        s2
    };
    lemma_yield_owner(s3, vcpu, int_id);
}

/// Taking an interrupt out of the list register that holds a state for it
/// clears that register.
proof fn lemma_remove_clears(s: Sys, vcpu: Vcpu, int_id: int, st: IrqState)
    requires
        s.wf(),
        vcpu.id < s.vgic.cpus.len(),
        0 <= int_id < GIC_INTS_MAX,
        lr_holds(s, vcpu, int_id, st),
        st != IrqState::IrqSInactive,
    ensures
        s.remove_lr(vcpu, int_id).gich.lr[s.irq(vcpu, int_id).inner.lr as int] == 0,
{
    reveal(remove_lr);
    lemma_irq_wf(s.vgic, vcpu.id as int, int_id);
    lemma_set_lr(s.gich, s.irq(vcpu, int_id).inner.lr as int, 0);
}

/// Enabling an interrupt and then disabling it, with no change of the list
/// registers in between, gives the interrupt back as it was: state, list
/// flags, enablement, priority, targets and configuration are what they
/// were and it is in no list register; only its owner, who is the virtual
/// CPU or nobody, and the index of the register it last had may differ. A
/// list register that it had in between is cleared.
///
/// This holds of a disabled interrupt that is not software-generated and in
/// no list register, without owner or owned by the virtual CPU, on the core
/// of the register bank, whose
/// state a register can hold without loss and whose id the register that has
/// to make room does not hold.
pub proof fn law_enable_disable_keeps_state(s: Sys, vcpu: Vcpu, int_id: int)
    requires
        s.inv(),
        s.vgic.valid_vcpu(vcpu),
        GIC_SGIS_NUM <= int_id < GIC_INTS_MAX,
        s.irq(vcpu, int_id).inner.owner.is_none() || s.irq(vcpu, int_id).inner.owner == Some(vcpu),
        vcpu.phys_id == s.gich.cpu_id,
        !s.irq(vcpu, int_id).inner.in_lr,
        !s.irq(vcpu, int_id).inner.enabled,
        state_fits_lr(s, vcpu, int_id),
        first_set_bit(s.gich.elrsr, s.gich.lrs).is_none() && victim_lr(s.gich).is_some() ==> lr_id(
            s.gich.lr[victim_lr(s.gich).unwrap() as int],
        ) != int_id,
    ensures
        s.set_enable(vcpu, int_id, true).set_enable(vcpu, int_id, false).irq(vcpu, int_id).inner.state == s.irq(
            vcpu,
            int_id,
        ).inner.state,
        s.set_enable(vcpu, int_id, true).set_enable(vcpu, int_id, false).irq(vcpu, int_id) == s.irq(
            vcpu,
            int_id,
        ).with_owner(
            s.set_enable(vcpu, int_id, true).set_enable(vcpu, int_id, false).irq(vcpu, int_id).inner.owner,
        ).with_lr(s.set_enable(vcpu, int_id, true).set_enable(vcpu, int_id, false).irq(vcpu, int_id).inner.lr),
        s.set_enable(vcpu, int_id, true).set_enable(vcpu, int_id, false).irq(vcpu, int_id).inner.owner.is_none()
            || s.set_enable(vcpu, int_id, true).set_enable(vcpu, int_id, false).irq(vcpu, int_id).inner.owner
            == Some(vcpu),
        s.set_enable(vcpu, int_id, true).irq(vcpu, int_id).inner.in_lr ==> s.set_enable(vcpu, int_id, true).set_enable(
            vcpu,
            int_id,
            false,
        ).gich.lr[s.set_enable(vcpu, int_id, true).irq(vcpu, int_id).inner.lr as int] == 0,
{
    let c = vcpu.id as int;
    lemma_enable_outcome(s, vcpu, int_id);
    law_enable_disable_round_trip(s, vcpu, int_id);
    let t = s.set_enable(vcpu, int_id, true);
    let st = s.irq(vcpu, int_id).inner.state;
    lemma_irq_wf(t.vgic, c, int_id);
    let i = t.irq(vcpu, int_id);
    let i0 = claimed(vcpu, i);
    lemma_set_int_wf(t.vgic, c, i0);
    assert(t.vgic.inv() ==> t.vgic.inv_except(c, int_id));
    let t0 = t.claim(vcpu, int_id);
    lemma_set_int_wf(t0.vgic, c, i0.with_enabled(false));
    assert(t0.vgic.inv() ==> t0.vgic.inv_except(c, int_id));
    let t1 = t0.set_int(vcpu, i0.with_enabled(false));
    assert(t1.irq(vcpu, int_id) == i0.with_enabled(false));
    assert(t1.gich == t.gich);
    lemma_sys_remove_lr(t1, vcpu, int_id);
    lemma_remove_lr(t1.vgic, t1.gich, vcpu, int_id);
    if i.inner.in_lr {
        assert(lr_holds(t1, vcpu, int_id, st));
        lemma_remove_held(t1, vcpu, int_id, st);
        lemma_enabled_in_register(s, vcpu, int_id);
        lemma_remove_clears(t1, vcpu, int_id, st);
    }
    let t2 = t1.remove_lr(vcpu, int_id);
    let t3 = if i0.hw {
        t2.emit(Effect::GicdSetEnable { int_id: i0.id as usize, en: false })
    } else {
        t2
    };
    lemma_yield_owner(t3, vcpu, int_id);
    let f = t.set_enable(vcpu, int_id, false);
    assert(f == t3.yield_owner(vcpu, int_id));
    lemma_irq_wf(s.vgic, c, int_id);
    lemma_irq_wf(f.vgic, c, int_id);
}

/// An interrupt that enabling put into a list register was not inactive.
proof fn lemma_enabled_in_register(s: Sys, vcpu: Vcpu, int_id: int)
    requires
        s.inv(),
        s.vgic.valid_vcpu(vcpu),
        GIC_SGIS_NUM <= int_id < GIC_INTS_MAX,
        s.claims(vcpu, int_id),
        !s.irq(vcpu, int_id).inner.in_lr,
        !s.irq(vcpu, int_id).inner.enabled,
        s.set_enable(vcpu, int_id, true).irq(vcpu, int_id).inner.in_lr,
    ensures
        s.irq(vcpu, int_id).inner.state != IrqState::IrqSInactive,
{
    let c = vcpu.id as int;
    lemma_irq_wf(s.vgic, c, int_id);
    let i0 = claimed(vcpu, s.irq(vcpu, int_id));
    lemma_set_int_wf(s.vgic, c, i0);
    let s0 = s.claim(vcpu, int_id);
    lemma_set_int_wf(s0.vgic, c, i0.with_enabled(true));
    let s1 = s0.set_int(vcpu, i0.with_enabled(true));
    assert(s1.irq(vcpu, int_id) == i0.with_enabled(true));
    reveal(Sys::route);
    lemma_route(s1, vcpu, int_id);
    let s2 = s1.route(vcpu, int_id);
    let s3 = if i0.hw {
        s2.emit(Effect::GicdSetEnable { int_id: i0.id as usize, en: true })
    } else {
        s2
    };
    lemma_yield_owner(s3, vcpu, int_id);
}

/// Whether interrupt `id` and the list registers of this core agree: if the
/// interrupt counts as in a list register, `vcpu` owns it on this core and
/// that register holds a state under its id; and no other list register
/// holds its id.
pub open spec fn in_step(s: Sys, vcpu: Vcpu, id: int) -> bool {
    let i = s.irq(vcpu, id);
    &&& i.inner.in_lr ==> {
        &&& i.inner.state == IrqState::IrqSInactive
        &&& vgic_owns(vcpu, i)
        &&& i.spec_owner_phys_id() == Some(s.gich.cpu_id)
        &&& lr_id(s.gich.lr[i.inner.lr as int]) == id
        &&& lr_state(s.gich.lr[i.inner.lr as int]) != 0
    }
    &&& forall|j: int|
        0 <= j < GIC_LIST_REGS_NUM && lr_id(#[trigger] s.gich.lr[j]) == id ==> i.inner.in_lr && i.inner.lr == j
}

/// The state with the pending (`pending`) or the active bit replaced.
pub open spec fn with_bit(st: IrqState, pending: bool, val: bool) -> IrqState {
    if pending {
        st.with_pending(val)
    } else {
        st.with_active(val)
    }
}

/// Taking an interrupt that agrees with the list registers out of its
/// register gives it the state it had there, and leaves its id in no list
/// register.
proof fn lemma_taken_out(s: Sys, vcpu: Vcpu, id: int)
    requires
        s.inv(),
        s.vgic.valid_vcpu(vcpu),
        GIC_SGIS_NUM <= id < GIC_INTS_MAX,
        in_step(s, vcpu, id),
    ensures
        s.remove_lr(vcpu, id).inv(),
        s.remove_lr(vcpu, id).vgic.cpus.len() == s.vgic.cpus.len(),
        s.remove_lr(vcpu, id).gich.cpu_id == s.gich.cpu_id,
        !s.remove_lr(vcpu, id).irq(vcpu, id).inner.in_lr,
        s.remove_lr(vcpu, id).irq(vcpu, id).inner.state.spec_to_num() == composite_state(s, vcpu, id),
        s.remove_lr(vcpu, id).irq(vcpu, id).inner.owner == s.irq(vcpu, id).inner.owner,
        same_config(s.remove_lr(vcpu, id).irq(vcpu, id), s.irq(vcpu, id)),
        forall|j: int| 0 <= j < GIC_LIST_REGS_NUM ==> lr_id(#[trigger] s.remove_lr(vcpu, id).gich.lr[j]) != id,
{
    let c = vcpu.id as int;
    let i = s.irq(vcpu, id);
    lemma_irq_wf(s.vgic, c, id);
    lemma_sys_remove_lr(s, vcpu, id);
    lemma_remove_lr(s.vgic, s.gich, vcpu, id);
    lemma_lr_zero();
    let r = s.remove_lr(vcpu, id);
    if i.inner.in_lr {
        let lr_val = s.gich.lr[i.inner.lr as int];
        crate::gich::lemma_lr_field_bounds(lr_val);
        let st = IrqState::spec_num_to_state(lr_state(lr_val) as usize);
        assert(lr_holds(s, vcpu, id, st));
        lemma_remove_held(s, vcpu, id, st);
        lemma_remove_clears(s, vcpu, id, st);
        assert forall|j: int| 0 <= j < GIC_LIST_REGS_NUM implies lr_id(#[trigger] r.gich.lr[j]) != id by {
            if j != i.inner.lr {
                assert(r.gich.lr[j] == s.gich.lr[j]);
            }
        }
    } else {
        reveal(remove_lr);
    }
}

/// Putting an interrupt whose id no list register holds into a list
/// register either makes one register hold its state, and no other its id,
/// or leaves the interrupt as it was and its id in no register.
proof fn lemma_add_in_step(s: Sys, vcpu: Vcpu, id: int)
    requires
        s.inv(),
        s.vgic.valid_vcpu(vcpu),
        GIC_SGIS_NUM <= id < GIC_INTS_MAX,
        !s.irq(vcpu, id).inner.in_lr,
        vgic_owns(vcpu, s.irq(vcpu, id)),
        s.irq(vcpu, id).spec_owner_phys_id() == Some(s.gich.cpu_id),
        s.irq(vcpu, id).inner.state != IrqState::IrqSInactive,
        state_fits_lr(s, vcpu, id),
        forall|j: int| 0 <= j < GIC_LIST_REGS_NUM ==> lr_id(#[trigger] s.gich.lr[j]) != id,
    ensures
        s.add_lr(vcpu, id).inv(),
        s.add_lr(vcpu, id).vgic.cpus.len() == s.vgic.cpus.len(),
        s.add_lr(vcpu, id).gich.cpu_id == s.gich.cpu_id,
        in_step(s.add_lr(vcpu, id), vcpu, id),
        composite_state(s.add_lr(vcpu, id), vcpu, id) == s.irq(vcpu, id).inner.state.spec_to_num(),
        s.add_lr(vcpu, id).irq(vcpu, id).inner.owner == s.irq(vcpu, id).inner.owner,
        same_config(s.add_lr(vcpu, id).irq(vcpu, id), s.irq(vcpu, id)),
        !s.add_lr(vcpu, id).irq(vcpu, id).inner.in_lr ==> s.add_lr(vcpu, id).irq(vcpu, id) == s.irq(vcpu, id),
{
    let c = vcpu.id as int;
    let i = s.irq(vcpu, id);
    lemma_irq_wf(s.vgic, c, id);
    lemma_first_set_bit(s.gich.elrsr, s.gich.lrs);
    lemma_victim_bound(s.gich);
    lemma_add_lr(s, vcpu, id);
    lemma_add_holds(s, vcpu, id);
    lemma_lr_zero();
    let a = s.add_lr(vcpu, id);
    reveal(Sys::add_lr);
    if i.inner.enabled {
        match first_set_bit(s.gich.elrsr, s.gich.lrs) {
            Some(idx) => {
                lemma_write_lr(s, vcpu, id, idx as int);
                lemma_set_lr(s.gich, idx as int, s.release_prev(vcpu, id, idx as int).lr_value(vcpu, id));
            },
            None => match victim_lr(s.gich) {
                Some(idx) => {
                    let x = lr_id(s.gich.lr[idx as int]) as int;
                    lemma_lr_id_bound(s.gich.lr[idx as int]);
                    lemma_evict(s, vcpu, idx as int);
                    let e = s.evict(vcpu, idx as int);
                    lemma_evicted_registers(s, vcpu, x);
                    lemma_write_lr(e, vcpu, id, idx as int);
                    lemma_set_lr(e.gich, idx as int, e.release_prev(vcpu, id, idx as int).lr_value(vcpu, id));
                },
                None => {},
            },
        }
    }
}

/// Taking an interrupt out of its list register and giving it up leaves
/// each list register as it was or empty.
proof fn lemma_evicted_registers(s: Sys, vcpu: Vcpu, x: int)
    requires
        s.wf(),
        vcpu.id < s.vgic.cpus.len(),
        0 <= x < GIC_INTS_MAX,
    ensures
        forall|j: int|
            0 <= j < GIC_LIST_REGS_NUM ==> #[trigger] s.remove_lr(vcpu, x).yield_owner(vcpu, x).gich.lr[j]
                == s.gich.lr[j] || s.remove_lr(vcpu, x).yield_owner(vcpu, x).gich.lr[j] == 0,
{
    let c = vcpu.id as int;
    lemma_irq_wf(s.vgic, c, x);
    lemma_sys_remove_lr(s, vcpu, x);
    lemma_remove_lr(s.vgic, s.gich, vcpu, x);
    lemma_yield_owner(s.remove_lr(vcpu, x), vcpu, x);
    let i = s.irq(vcpu, x);
    reveal(remove_lr);
    if vgic_owns(vcpu, i) && i.inner.in_lr {
        lemma_set_lr(s.gich, i.inner.lr as int, 0);
    }
}

/// What setting or clearing a state bit of an interrupt that `vcpu` owns
/// does: state and list registers agree afterwards, and the interrupt's
/// state, wherever it lives, is the former one with the bit replaced.
proof fn lemma_state_bit(s: Sys, vcpu: Vcpu, id: int, pending: bool, val: bool)
    requires
        s.inv(),
        s.vgic.valid_vcpu(vcpu),
        GIC_SGIS_NUM <= id < GIC_INTS_MAX,
        s.irq(vcpu, id).inner.owner == Some(vcpu),
        vcpu.phys_id == s.gich.cpu_id,
        in_step(s, vcpu, id),
        s.irq(vcpu, id).hw ==> with_bit(
            IrqState::spec_num_to_state(composite_state(s, vcpu, id)),
            pending,
            val,
        ) != IrqState::IrqSPendActive,
    ensures
        s.set_state_bit(vcpu, id, pending, val).inv(),
        s.set_state_bit(vcpu, id, pending, val).vgic.cpus.len() == s.vgic.cpus.len(),
        s.set_state_bit(vcpu, id, pending, val).gich.cpu_id == s.gich.cpu_id,
        in_step(s.set_state_bit(vcpu, id, pending, val), vcpu, id),
        composite_state(s.set_state_bit(vcpu, id, pending, val), vcpu, id) == with_bit(
            IrqState::spec_num_to_state(composite_state(s, vcpu, id)),
            pending,
            val,
        ).spec_to_num(),
        s.set_state_bit(vcpu, id, pending, val).irq(vcpu, id).inner.owner == Some(vcpu) || s.set_state_bit(
            vcpu,
            id,
            pending,
            val,
        ).irq(vcpu, id).inner.owner.is_none(),
        same_config(s.set_state_bit(vcpu, id, pending, val).irq(vcpu, id), s.irq(vcpu, id)),
{
    let c = vcpu.id as int;
    lemma_irq_wf(s.vgic, c, id);
    lemma_taken_out(s, vcpu, id);
    let s1 = s.remove_lr(vcpu, id);
    let i1 = s1.irq(vcpu, id);
    lemma_irq_wf(s1.vgic, c, id);
    let st0 = i1.inner.state;
    assert(st0 == IrqState::spec_num_to_state(composite_state(s, vcpu, id)));
    let st1 = with_bit(st0, pending, val);
    lemma_set_int_wf(s1.vgic, c, i1.with_state(st1));
    assert(s1.vgic.inv() ==> s1.vgic.inv_except(c, id));
    let s2 = s1.set_int(vcpu, i1.with_state(st1));
    lemma_update_int_list_wf(s2.vgic, c, id);
    let s3 = s2.update_int_list(vcpu, id);
    let s4 = s3.mirror_state(vcpu, id);
    let i4 = s4.irq(vcpu, id);
    assert(s4.vgic == s3.vgic);
    assert(s4.gich == s1.gich);
    assert(i4.inner.state == st1);
    assert(i4.inner.owner == Some(vcpu));
    assert(s4.inv());
    lemma_route(s4, vcpu, id);
    reveal(Sys::route);
    let bit = 1u8 << (vcpu.phys_id as u8);
    if st1 != IrqState::IrqSInactive && i4.inner.enabled {
        if i4.inner.targets & bit != 0 {
            lemma_add_in_step(s4, vcpu, id);
        }
        let s5 = if i4.inner.targets & bit != 0 {
            s4.add_lr(vcpu, id)
        } else {
            s4
        };
        lemma_yield_owner(s5, vcpu, id);
    }
    let s6 = s4.route(vcpu, id);
    lemma_yield_owner(s6, vcpu, id);
}

/// Asking twice to make an interrupt pending is asking once: after the
/// second request the interrupt's state, wherever it lives, is what it was
/// after the first, which is the former state with the pending bit set;
/// its configuration is untouched, and state and list registers agree.
///
/// This holds of an interrupt that is not software-generated, without owner
/// or owned by the virtual CPU, on the core of the register bank, that
/// agrees with the list registers, and that is not active where it is
/// backed by a physical interrupt: a list register holds such an interrupt
/// as active and not as pending.
pub proof fn law_set_pend_idempotent(s: Sys, vcpu: Vcpu, int_id: usize)
    requires
        s.inv(),
        s.vgic.valid_vcpu(vcpu),
        GIC_SGIS_NUM <= spec_int_id_field(int_id) < GIC_INTS_MAX,
        s.irq(vcpu, spec_int_id_field(int_id) as int).inner.owner.is_none() || s.irq(
            vcpu,
            spec_int_id_field(int_id) as int,
        ).inner.owner == Some(vcpu),
        vcpu.phys_id == s.gich.cpu_id,
        in_step(s, vcpu, spec_int_id_field(int_id) as int),
        s.irq(vcpu, spec_int_id_field(int_id) as int).hw ==> !num_active(
            composite_state(s, vcpu, spec_int_id_field(int_id) as int),
        ),
    ensures
        composite_state(s.set_pend(vcpu, int_id, true), vcpu, spec_int_id_field(int_id) as int)
            == IrqState::spec_num_to_state(
            composite_state(s, vcpu, spec_int_id_field(int_id) as int),
        ).with_pending(true).spec_to_num(),
        num_pending(composite_state(s.set_pend(vcpu, int_id, true), vcpu, spec_int_id_field(int_id) as int)),
        composite_state(
            s.set_pend(vcpu, int_id, true).set_pend(vcpu, int_id, true),
            vcpu,
            spec_int_id_field(int_id) as int,
        ) == composite_state(s.set_pend(vcpu, int_id, true), vcpu, spec_int_id_field(int_id) as int),
        same_config(
            s.set_pend(vcpu, int_id, true).set_pend(vcpu, int_id, true).irq(vcpu, spec_int_id_field(int_id) as int),
            s.irq(vcpu, spec_int_id_field(int_id) as int),
        ),
        in_step(s.set_pend(vcpu, int_id, true).set_pend(vcpu, int_id, true), vcpu, spec_int_id_field(int_id) as int),
        s.set_pend(vcpu, int_id, true).set_pend(vcpu, int_id, true).inv(),
{
    let id = spec_int_id_field(int_id) as int;
    lemma_claimed_in_step(s, vcpu, id);
    let s0 = s.claim(vcpu, id);
    lemma_state_bit(s0, vcpu, id, true, true);
    let one = s.set_pend(vcpu, int_id, true);
    assert(one == s0.set_state_bit(vcpu, id, true, true));
    lemma_claimed_in_step(one, vcpu, id);
    let t0 = one.claim(vcpu, id);
    lemma_state_bit(t0, vcpu, id, true, true);
    assert(one.set_pend(vcpu, int_id, true) == t0.set_state_bit(vcpu, id, true, true));
}

/// Claiming an interrupt that has no owner, or that the virtual CPU owns,
/// makes the virtual CPU its owner and changes nothing else: its state,
/// wherever it lives, stays, and state and list registers still agree.
proof fn lemma_claimed_in_step(s: Sys, vcpu: Vcpu, id: int)
    requires
        s.inv(),
        s.vgic.valid_vcpu(vcpu),
        GIC_SGIS_NUM <= id < GIC_INTS_MAX,
        s.irq(vcpu, id).inner.owner.is_none() || s.irq(vcpu, id).inner.owner == Some(vcpu),
        in_step(s, vcpu, id),
    ensures
        s.claims(vcpu, id),
        s.claim(vcpu, id).inv(),
        s.claim(vcpu, id).vgic.cpus.len() == s.vgic.cpus.len(),
        s.claim(vcpu, id).gich == s.gich,
        s.claim(vcpu, id).irq(vcpu, id) == s.irq(vcpu, id).with_owner(Some(vcpu)),
        in_step(s.claim(vcpu, id), vcpu, id),
        composite_state(s.claim(vcpu, id), vcpu, id) == composite_state(s, vcpu, id),
{
    let c = vcpu.id as int;
    lemma_irq_wf(s.vgic, c, id);
    let i0 = claimed(vcpu, s.irq(vcpu, id));
    lemma_set_int_wf(s.vgic, c, i0);
    assert(s.vgic.inv() ==> s.vgic.inv_except(c, id));
}

/// The sources of software-generated interrupt `id` that are pending for
/// `vcpu`: those recorded in its mask, and the one that its list register
/// holds as pending.
pub open spec fn sgi_pending_sources(s: Sys, vcpu: Vcpu, id: int) -> u8 {
    let pend = s.vgic.cpus[vcpu.id as int].sgis[id].pend;
    match spec_gich_get_lr(s.gich, s.irq(vcpu, id)) {
        Some(lr_val) => if lr_state(lr_val) == 1 {
            pend | (1u8 << (lr_cpuid(lr_val) as u8))
        } else {
            pend
        },
        None => pend,
    }
}

/// The state of interrupt `id` as a number, refreshed from its list register.
pub open spec fn composite_state(s: Sys, vcpu: Vcpu, id: int) -> usize {
    spec_vgic_get_state(s.gich, s.irq(vcpu, id))
}

/// Whether `vcpu` can work on its software-generated interrupt `id` with the
/// register bank of `s`: the interrupt is one of its bank, owned on the core
/// of the register bank.
pub open spec fn sgi_at_home(s: Sys, vcpu: Vcpu, id: int) -> bool {
    &&& s.inv()
    &&& s.vgic.valid_vcpu(vcpu)
    &&& 0 <= id < GIC_SGIS_NUM
    &&& s.irq(vcpu, id).spec_owner_phys_id() == Some(s.gich.cpu_id)
}

/// Setting and clearing the bits of `b` in `a`.
proof fn lemma_bits(a: u8, b: u8)
    ensures
        a | b == 0 ==> a == 0,
        (a | b) | b == a | b,
        (a | b) & !b == a & !b,
        (a & !b) & !b == a & !b,
        b != 0 ==> a | b != 0,
        (a | b) & !b != a | b || b == 0,
{
    assert((a | b == 0 ==> a == 0) && (a | b) | b == a | b && (a | b) & !b == a & !b && (a & !b) & !b == a & !b
        && (b != 0 ==> a | b != 0) && ((a | b) & !b != a | b || b == 0)) by (bit_vector);
}

/// Writing a software-generated interrupt that is in no list register into
/// one keeps its pending sources, and leaves it active if it was active,
/// else pending if it has a pending source, else inactive.
proof fn lemma_sgi_write(s: Sys, vcpu: Vcpu, id: int, lr_ind: int)
    requires
        sgi_at_home(s, vcpu, id),
        0 <= lr_ind < GIC_LIST_REGS_NUM,
        !s.irq(vcpu, id).inner.in_lr,
    ensures
        sgi_at_home(s.write_lr(vcpu, id, lr_ind), vcpu, id),
        sgi_pending_sources(s.write_lr(vcpu, id, lr_ind), vcpu, id) == s.vgic.cpus[vcpu.id as int].sgis[id].pend,
        composite_state(s.write_lr(vcpu, id, lr_ind), vcpu, id) == (if s.irq(vcpu, id).inner.state.active() {
            2usize
        } else if s.vgic.cpus[vcpu.id as int].sgis[id].pend != 0 {
            1usize
        } else {
            0usize
        }),
{
    let c = vcpu.id as int;
    let i = s.irq(vcpu, id);
    lemma_irq_wf(s.vgic, c, id);
    lemma_write_lr(s, vcpu, id, lr_ind);
    let sw = s.write_lr(vcpu, id, lr_ind);
    let s1 = s.release_prev(vcpu, id, lr_ind);
    lemma_release_prev(s.vgic, vcpu, id, lr_ind);
    assert(s.vgic.cpus[c].wf());
    let sgis = s.vgic.cpus[c].sgis[id];
    assert(s1.vgic.cpus[c].sgis == s.vgic.cpus[c].sgis);
    let lrv = s1.lr_value(vcpu, id);
    reveal(Sys::lr_value);
    reveal(Sys::write_lr);
    reveal(Sys::lr_value_effects);
    lemma_lr_val_sgi_act(id as u32, i.inner.prio, sgis);
    lemma_lr_val_sgi_pend(id as u32, i.inner.prio, sgis.pend);
    lemma_highest_source(sgis.pend);
    lemma_set_lr(s.gich, lr_ind, lrv);
    let s2 = s1.lr_value_effects(vcpu, id);
    lemma_lr_value_effects(s1, vcpu, id);
    lemma_latch(s2, vcpu, id, lr_ind, lrv);
    assert(sw.vgic.cpus[c].sgis == s2.vgic.cpus[c].sgis);
    assert(sw.gich.lr[lr_ind] == lrv);
}

/// Evicting the occupant of a list register leaves alone a
/// software-generated interrupt that is in no list register.
proof fn lemma_evict_keeps_sgi(s: Sys, vcpu: Vcpu, idx: int, id: int)
    requires
        sgi_at_home(s, vcpu, id),
        0 <= idx < GIC_LIST_REGS_NUM,
        !s.irq(vcpu, id).inner.in_lr,
    ensures
        sgi_at_home(s.evict(vcpu, idx), vcpu, id),
        s.evict(vcpu, idx).irq(vcpu, id) == s.irq(vcpu, id),
        s.evict(vcpu, idx).vgic.cpus[vcpu.id as int].sgis[id] == s.vgic.cpus[vcpu.id as int].sgis[id],
{
    let c = vcpu.id as int;
    let spilled = lr_id(s.gich.lr[idx]) as int;
    lemma_lr_id_bound(s.gich.lr[idx]);
    lemma_irq_wf(s.vgic, c, id);
    lemma_evict(s, vcpu, idx);
    lemma_sys_remove_lr(s, vcpu, spilled);
    lemma_remove_lr(s.vgic, s.gich, vcpu, spilled);
    let s1 = s.remove_lr(vcpu, spilled);
    lemma_yield_owner(s1, vcpu, spilled);
    assert(s.vgic.cpus[c].wf());
    if spilled == id {
        reveal(remove_lr);
        lemma_set_int_wf(s.vgic, c, s.irq(vcpu, id));
        assert(s.vgic.cpus[c].interrupts.update(id, s.irq(vcpu, id)) =~= s.vgic.cpus[c].interrupts);
    } else {
        assert(!is_irq(c, spilled, c, id));
    }
}

/// What making a source of a software-generated interrupt pending or not
/// does: the source joins or leaves the pending sources and no other source
/// changes; an interrupt that was not active is not active afterwards, and
/// if the set of sources changed, it is pending afterwards exactly if a
/// source is left.
proof fn lemma_sgi_set_pend(s: Sys, vcpu: Vcpu, int_id: usize, pend: bool)
    requires
        sgi_at_home(s, vcpu, spec_int_id_field(int_id) as int),
    ensures
        sgi_at_home(s.sgi_set_pend(vcpu, int_id, pend), vcpu, spec_int_id_field(int_id) as int),
        sgi_pending_sources(s.sgi_set_pend(vcpu, int_id, pend), vcpu, spec_int_id_field(int_id) as int) == (if pend {
            sgi_pending_sources(s, vcpu, spec_int_id_field(int_id) as int) | source_bit(spec_source_field(int_id))
        } else {
            sgi_pending_sources(s, vcpu, spec_int_id_field(int_id) as int) & !source_bit(
                spec_source_field(int_id),
            )
        }),
        !num_active(composite_state(s, vcpu, spec_int_id_field(int_id) as int)) ==> !num_active(
            composite_state(s.sgi_set_pend(vcpu, int_id, pend), vcpu, spec_int_id_field(int_id) as int),
        ),
        !num_active(composite_state(s, vcpu, spec_int_id_field(int_id) as int)) && sgi_pending_sources(
            s.sgi_set_pend(vcpu, int_id, pend),
            vcpu,
            spec_int_id_field(int_id) as int,
        ) != sgi_pending_sources(s, vcpu, spec_int_id_field(int_id) as int) ==> (num_pending(
            composite_state(s.sgi_set_pend(vcpu, int_id, pend), vcpu, spec_int_id_field(int_id) as int),
        ) <==> sgi_pending_sources(s.sgi_set_pend(vcpu, int_id, pend), vcpu, spec_int_id_field(int_id) as int)
            != 0),
{
    let id = spec_int_id_field(int_id) as int;
    let c = vcpu.id as int;
    lemma_sgi_removed(s, vcpu, id);
    let s1 = s.remove_lr(vcpu, id);
    let i1 = s1.irq(vcpu, id);
    lemma_irq_wf(s1.vgic, c, id);
    assert(s1.vgic.cpus[c].wf());
    let sgis = s1.vgic.cpus[c].sgis[id];
    let bit = source_bit(spec_source_field(int_id));
    let new_pendstate = if pend {
        sgis.pend | bit
    } else {
        sgis.pend & !bit
    };
    lemma_bits(sgis.pend, bit);
    if sgis.pend != new_pendstate {
        let v2 = s1.vgic.set_sgis(c, id, Sgis { pend: new_pendstate, ..sgis });
        lemma_set_sgis_wf(s1.vgic, c, id, Sgis { pend: new_pendstate, ..sgis });
        let s2 = s1.with_vgic(v2);
        assert(s2.irq(vcpu, id) == i1);
        let state = i1.inner.state.with_pending(new_pendstate != 0);
        lemma_set_int_wf(v2, c, i1.with_state(state));
        assert(v2.inv() ==> v2.inv_except(c, id));
        let v3 = v2.set_int(c, i1.with_state(state));
        lemma_update_int_list_wf(v3, c, id);
        let s3 = s2.set_int(vcpu, i1.with_state(state)).update_int_list(vcpu, id);
        let i3 = s3.irq(vcpu, id);
        assert(i3.inner.state == state);
        assert(s3.vgic.cpus[c].sgis[id].pend == new_pendstate);
        assert(sgi_at_home(s3, vcpu, id));
        if state != IrqState::IrqSInactive {
            reveal(Sys::add_lr);
            lemma_add_lr(s3, vcpu, id);
            lemma_first_set_bit(s3.gich.elrsr, s3.gich.lrs);
            lemma_victim_bound(s3.gich);
            if i3.inner.enabled {
                match first_set_bit(s3.gich.elrsr, s3.gich.lrs) {
                    Some(idx) => {
                        lemma_sgi_write(s3, vcpu, id, idx as int);
                    },
                    None => match victim_lr(s3.gich) {
                        Some(idx) => {
                            lemma_evict_keeps_sgi(s3, vcpu, idx as int, id);
                            lemma_sgi_write(s3.evict(vcpu, idx as int), vcpu, id, idx as int);
                        },
                        None => {},
                    },
                }
            }
        }
    }
}

/// Taking a software-generated interrupt out of its list register moves
/// the register's pending source into the mask and the register's state
/// into the interrupt: pending sources and state stay what they were.
proof fn lemma_sgi_removed(s: Sys, vcpu: Vcpu, id: int)
    requires
        sgi_at_home(s, vcpu, id),
    ensures
        sgi_at_home(s.remove_lr(vcpu, id), vcpu, id),
        !s.remove_lr(vcpu, id).irq(vcpu, id).inner.in_lr,
        s.remove_lr(vcpu, id).vgic.cpus[vcpu.id as int].sgis[id].pend == sgi_pending_sources(s, vcpu, id),
        s.remove_lr(vcpu, id).irq(vcpu, id).inner.state.spec_to_num() == composite_state(s, vcpu, id),
        sgi_pending_sources(s.remove_lr(vcpu, id), vcpu, id) == sgi_pending_sources(s, vcpu, id),
        composite_state(s.remove_lr(vcpu, id), vcpu, id) == composite_state(s, vcpu, id),
{
    let c = vcpu.id as int;
    let i = s.irq(vcpu, id);
    lemma_irq_wf(s.vgic, c, id);
    assert(s.vgic.cpus[c].wf());
    lemma_sys_remove_lr(s, vcpu, id);
    lemma_remove_lr(s.vgic, s.gich, vcpu, id);
    let s1 = s.remove_lr(vcpu, id);
    let i1 = s1.irq(vcpu, id);
    assert(vgic_owns(vcpu, i));
    assert(!i1.inner.in_lr);
    assert(s1.vgic.cpus[c].wf());
    let sgis = s1.vgic.cpus[c].sgis[id];
    assert(sgis.pend == sgi_pending_sources(s, vcpu, id) && i1.inner.state.spec_to_num() == composite_state(
        s,
        vcpu,
        id,
    )) by {
        reveal(remove_lr);
        if i.inner.in_lr {
            match spec_gich_get_lr(s.gich, i) {
                Some(lr_val) => {
                    let st = IrqState::spec_num_to_state(lr_state(lr_val) as usize);
                    let v1 = s.vgic.set_int(c, i.with_in_lr(false).with_state(st));
                    lemma_set_int_wf(s.vgic, c, i.with_in_lr(false).with_state(st));
                    assert(v1.cpus[c].wf());
                    let folded = fold_source(v1.cpus[c].sgis[id], st, lr_cpuid(lr_val));
                    lemma_set_sgis_wf(v1, c, id, folded);
                    lemma_update_int_list_wf(v1.set_sgis(c, id, folded), c, id);
                    crate::gich::lemma_lr_field_bounds(lr_val);
                },
                None => {
                    lemma_set_int_wf(s.vgic, c, i.with_in_lr(false));
                },
            }
        }
    }
    assert(spec_gich_get_lr(s1.gich, i1).is_none());
}

/// A request that changes no source of a software-generated interrupt
/// takes the interrupt out of its list register and does nothing else: the
/// pending sources and the state stay what they were.
proof fn lemma_sgi_same_sources(s: Sys, vcpu: Vcpu, int_id: usize, pend: bool)
    requires
        sgi_at_home(s, vcpu, spec_int_id_field(int_id) as int),
        sgi_pending_sources(s, vcpu, spec_int_id_field(int_id) as int) == (if pend {
            sgi_pending_sources(s, vcpu, spec_int_id_field(int_id) as int) | source_bit(spec_source_field(int_id))
        } else {
            sgi_pending_sources(s, vcpu, spec_int_id_field(int_id) as int) & !source_bit(
                spec_source_field(int_id),
            )
        }),
    ensures
        s.sgi_set_pend(vcpu, int_id, pend) == s.remove_lr(vcpu, spec_int_id_field(int_id) as int),
        composite_state(s.sgi_set_pend(vcpu, int_id, pend), vcpu, spec_int_id_field(int_id) as int)
            == composite_state(s, vcpu, spec_int_id_field(int_id) as int),
        !s.sgi_set_pend(vcpu, int_id, pend).irq(vcpu, spec_int_id_field(int_id) as int).inner.in_lr,
{
    lemma_sgi_removed(s, vcpu, spec_int_id_field(int_id) as int);
}

/// Taking away the last pending source of a software-generated interrupt
/// that is not active leaves it inactive, in no list register and not
/// flagged as pending, with an empty mask of pending sources.
proof fn lemma_sgi_last_source(s: Sys, vcpu: Vcpu, int_id: usize)
    requires
        sgi_at_home(s, vcpu, spec_int_id_field(int_id) as int),
        !num_active(composite_state(s, vcpu, spec_int_id_field(int_id) as int)),
        sgi_pending_sources(s, vcpu, spec_int_id_field(int_id) as int) != 0,
        sgi_pending_sources(s, vcpu, spec_int_id_field(int_id) as int) & !source_bit(spec_source_field(int_id))
            == 0,
    ensures
        sgi_rests(s.sgi_set_pend(vcpu, int_id, false), vcpu, spec_int_id_field(int_id) as int),
{
    let id = spec_int_id_field(int_id) as int;
    let c = vcpu.id as int;
    lemma_sgi_removed(s, vcpu, id);
    let s1 = s.remove_lr(vcpu, id);
    let i1 = s1.irq(vcpu, id);
    assert(s1.vgic.cpus[c].wf());
    let sgis = s1.vgic.cpus[c].sgis[id];
    let v2 = s1.vgic.set_sgis(c, id, Sgis { pend: 0, ..sgis });
    lemma_set_sgis_wf(s1.vgic, c, id, Sgis { pend: 0, ..sgis });
    let s2 = s1.with_vgic(v2);
    assert(s2.irq(vcpu, id) == i1);
    let state = i1.inner.state.with_pending(false);
    assert(state == IrqState::IrqSInactive);
    lemma_irq_wf(s1.vgic, c, id);
    lemma_set_int_wf(v2, c, i1.with_state(state));
    assert(v2.inv() ==> v2.inv_except(c, id));
    lemma_update_int_list_wf(v2.set_int(c, i1.with_state(state)), c, id);
}

/// Whether software-generated interrupt `id` of `vcpu` is at rest: no source
/// is pending in its mask, it is in no list register, and it is inactive
/// and not flagged as pending.
pub open spec fn sgi_rests(s: Sys, vcpu: Vcpu, id: int) -> bool {
    &&& s.vgic.cpus[vcpu.id as int].sgis[id].pend == 0
    &&& !s.irq(vcpu, id).inner.in_lr
    &&& s.irq(vcpu, id).inner.state == IrqState::IrqSInactive
    &&& !s.irq(vcpu, id).inner.in_pend
    &&& sgi_pending_sources(s, vcpu, id) == 0
    &&& composite_state(s, vcpu, id) == 0
}

/// Making the same source of a software-generated interrupt pending twice
/// counts it once: after the second request the pending sources are what
/// they were after the first, the former sources and the new one, and the
/// state is what it was after the first. Where no source was pending
/// before, the one source is the only pending source after the first
/// request and after the second.
///
/// A source that a mask of eight sources can name, and that is new to an
/// interrupt that is not active, leaves the interrupt pending after the
/// first request and after the second.
pub proof fn law_sgi_source_idempotent(s: Sys, vcpu: Vcpu, int_id: usize)
    requires
        sgi_at_home(s, vcpu, spec_int_id_field(int_id) as int),
    ensures
        sgi_pending_sources(
            s.sgi_set_pend(vcpu, int_id, true).sgi_set_pend(vcpu, int_id, true),
            vcpu,
            spec_int_id_field(int_id) as int,
        ) == sgi_pending_sources(s.sgi_set_pend(vcpu, int_id, true), vcpu, spec_int_id_field(int_id) as int),
        sgi_pending_sources(s.sgi_set_pend(vcpu, int_id, true), vcpu, spec_int_id_field(int_id) as int)
            == sgi_pending_sources(s, vcpu, spec_int_id_field(int_id) as int) | source_bit(
            spec_source_field(int_id),
        ),
        sgi_pending_sources(s, vcpu, spec_int_id_field(int_id) as int) == 0 ==> sgi_pending_sources(
            s.sgi_set_pend(vcpu, int_id, true).sgi_set_pend(vcpu, int_id, true),
            vcpu,
            spec_int_id_field(int_id) as int,
        ) == source_bit(spec_source_field(int_id)),
        composite_state(
            s.sgi_set_pend(vcpu, int_id, true).sgi_set_pend(vcpu, int_id, true),
            vcpu,
            spec_int_id_field(int_id) as int,
        ) == composite_state(s.sgi_set_pend(vcpu, int_id, true), vcpu, spec_int_id_field(int_id) as int),
        spec_source_field(int_id) < 8 && !num_active(composite_state(s, vcpu, spec_int_id_field(int_id) as int))
            && sgi_pending_sources(s, vcpu, spec_int_id_field(int_id) as int) & source_bit(
            spec_source_field(int_id),
        ) == 0 ==> num_pending(
            composite_state(
                s.sgi_set_pend(vcpu, int_id, true).sgi_set_pend(vcpu, int_id, true),
                vcpu,
                spec_int_id_field(int_id) as int,
            ),
        ),
{
    let id = spec_int_id_field(int_id) as int;
    let p = sgi_pending_sources(s, vcpu, id);
    let bit = source_bit(spec_source_field(int_id));
    lemma_sgi_set_pend(s, vcpu, int_id, true);
    let s1 = s.sgi_set_pend(vcpu, int_id, true);
    lemma_sgi_set_pend(s1, vcpu, int_id, true);
    lemma_bits(p, bit);
    lemma_sgi_same_sources(s1, vcpu, int_id, true);
    let k = spec_source_field(int_id) as u8;
    assert(k < 8 ==> 1u8 << k != 0) by (bit_vector);
    assert(0u8 | bit == bit) by (bit_vector);
    assert(p & bit == 0 && bit != 0 ==> p | bit != p) by (bit_vector);
}

/// Making a source of a software-generated interrupt pending and then not
/// pending leaves the other sources as they were, and leaves the interrupt
/// pending exactly if another source is pending. Where no other source is
/// pending, the interrupt is at rest afterwards: its mask is empty, it is
/// in no list register, inactive and not flagged as pending.
///
/// This holds of an interrupt that is not active, and of a source that a
/// mask of eight sources can name.
pub proof fn law_sgi_source_set_clear(s: Sys, vcpu: Vcpu, int_id: usize)
    requires
        sgi_at_home(s, vcpu, spec_int_id_field(int_id) as int),
        !num_active(composite_state(s, vcpu, spec_int_id_field(int_id) as int)),
        spec_source_field(int_id) < 8,
    ensures
        sgi_pending_sources(
            s.sgi_set_pend(vcpu, int_id, true).sgi_set_pend(vcpu, int_id, false),
            vcpu,
            spec_int_id_field(int_id) as int,
        ) == sgi_pending_sources(s, vcpu, spec_int_id_field(int_id) as int) & !source_bit(
            spec_source_field(int_id),
        ),
        num_pending(
            composite_state(
                s.sgi_set_pend(vcpu, int_id, true).sgi_set_pend(vcpu, int_id, false),
                vcpu,
                spec_int_id_field(int_id) as int,
            ),
        ) <==> sgi_pending_sources(s, vcpu, spec_int_id_field(int_id) as int) & !source_bit(
            spec_source_field(int_id),
        ) != 0,
        sgi_pending_sources(s, vcpu, spec_int_id_field(int_id) as int) & !source_bit(spec_source_field(int_id))
            == 0 ==> sgi_rests(
            s.sgi_set_pend(vcpu, int_id, true).sgi_set_pend(vcpu, int_id, false),
            vcpu,
            spec_int_id_field(int_id) as int,
        ),
{
    let id = spec_int_id_field(int_id) as int;
    let bit = source_bit(spec_source_field(int_id));
    let p = sgi_pending_sources(s, vcpu, id);
    lemma_sgi_set_pend(s, vcpu, int_id, true);
    let s1 = s.sgi_set_pend(vcpu, int_id, true);
    lemma_sgi_set_pend(s1, vcpu, int_id, false);
    lemma_bits(p, bit);
    let k = spec_source_field(int_id) as u8;
    assert(k < 8 ==> 1u8 << k != 0) by (bit_vector);
    if p & !bit == 0 {
        assert((p | bit) & !bit == 0);
        lemma_sgi_last_source(s1, vcpu, int_id);
    }
}

/// Making one of two pending sources of a software-generated interrupt not
/// pending leaves the other pending, and the interrupt with it.
///
/// This holds of an interrupt that is not active; `other` is a source that
/// is pending beside the one that `int_id` names.
pub proof fn law_sgi_clear_one_of_two(s: Sys, vcpu: Vcpu, int_id: usize, other: usize)
    requires
        sgi_at_home(s, vcpu, spec_int_id_field(int_id) as int),
        !num_active(composite_state(s, vcpu, spec_int_id_field(int_id) as int)),
        spec_source_field(int_id) < 8,
        other < 8,
        other != spec_source_field(int_id),
        sgi_pending_sources(s, vcpu, spec_int_id_field(int_id) as int) & source_bit(spec_source_field(int_id)) != 0,
        sgi_pending_sources(s, vcpu, spec_int_id_field(int_id) as int) & source_bit(other) != 0,
    ensures
        sgi_pending_sources(s.sgi_set_pend(vcpu, int_id, false), vcpu, spec_int_id_field(int_id) as int)
            & source_bit(spec_source_field(int_id)) == 0,
        sgi_pending_sources(s.sgi_set_pend(vcpu, int_id, false), vcpu, spec_int_id_field(int_id) as int)
            & source_bit(other) != 0,
        num_pending(composite_state(s.sgi_set_pend(vcpu, int_id, false), vcpu, spec_int_id_field(int_id) as int)),
{
    let id = spec_int_id_field(int_id) as int;
    lemma_sgi_set_pend(s, vcpu, int_id, false);
    let p = sgi_pending_sources(s, vcpu, id);
    let x = spec_source_field(int_id) as u8;
    let y = other as u8;
    assert(x < 8 && y < 8 && x != y && p & (1u8 << x) != 0 && p & (1u8 << y) != 0 ==> (p & !(1u8 << x)) & (1u8 << x)
        == 0 && (p & !(1u8 << x)) & (1u8 << y) != 0 && p & !(1u8 << x) != p && p & !(1u8 << x) != 0)
        by (bit_vector);
}

/// One end of interrupt for a spilled active interrupt: the interrupt at the
/// head of the active list gets it, and the count of the control word as it
/// was read goes down by one.
pub open spec fn eoi_step(s: Sys, vcpu: Vcpu) -> Sys {
    let s1 = s.eoir_highest_spilled_active(vcpu);
    s1.with_gich(s1.gich.set_hcr((s.gich.hcr - (1u32 << 27)) as u32))
}

/// The system after `k` ends of interrupt, one after the other.
pub open spec fn eoi_steps(s: Sys, vcpu: Vcpu, k: nat) -> Sys
    decreases k,
{
    if k == 0 {
        s
    } else {
        eoi_steps(eoi_step(s, vcpu), vcpu, (k - 1) as nat)
    }
}

/// The number of spilled active interrupts that a control word counts.
pub open spec fn spilled_count(hcr: u32) -> nat {
    (hcr >> 27) as nat
}

/// The spilled active interrupts that the control word counts get their end
/// of interrupt one by one, as many times as the count says and no more, and
/// the count is zero afterwards.
pub proof fn law_one_end_of_interrupt_per_count(s: Sys, vcpu: Vcpu)
    ensures
        s.eoi_count_loop(vcpu) == eoi_steps(s, vcpu, spilled_count(s.gich.hcr)),
        spilled_count(s.eoi_count_loop(vcpu).gich.hcr) == 0,
    decreases spilled_count(s.gich.hcr),
{
    let h = s.gich.hcr;
    assert((h & (0b11111u32 << 27) != 0) == (h >> 27 != 0) && (h >> 27 != 0 ==> h >= (1u32 << 27) && ((h - (1u32
        << 27)) as u32) >> 27 == (h >> 27) - 1)) by (bit_vector);
    if hcr_eoi_count(h) != 0 {
        law_one_end_of_interrupt_per_count(eoi_step(s, vcpu), vcpu);
    }
}

/// An end of interrupt for a spilled active interrupt takes the interrupt at
/// the head of the active list: afterwards its state has no active bit, it
/// is not flagged as active, and, where the lists follow the flags, it is on
/// no active list.
pub proof fn law_end_of_interrupt_takes_the_head(s: Sys, vcpu: Vcpu)
    requires
        s.inv(),
        vcpu.id < s.vgic.cpus.len(),
        s.vgic.cpus[vcpu.id as int].act_list.len() > 0,
    ensures
        !s.eoir_highest_spilled_active(vcpu).irq(
            vcpu,
            s.vgic.cpus[vcpu.id as int].act_list[0] as int,
        ).inner.state.active(),
        !s.eoir_highest_spilled_active(vcpu).irq(vcpu, s.vgic.cpus[vcpu.id as int].act_list[0] as int).inner.in_act,
        s.eoir_highest_spilled_active(vcpu).inv(),
{
    let c = vcpu.id as int;
    assert(s.vgic.cpus[c].wf());
    let id = s.vgic.cpus[c].act_list[0] as int;
    lemma_irq_wf(s.vgic, c, id);
    let i = claimed(vcpu, s.irq(vcpu, id));
    let j = i.with_state(i.inner.state.with_active(false));
    lemma_set_int_wf(s.vgic, c, j);
    assert(s.vgic.inv() ==> s.vgic.inv_except(c, id));
    let s1 = s.set_int(vcpu, j);
    lemma_update_int_list_wf(s1.vgic, c, id);
    let s2 = s1.update_int_list(vcpu, id);
    lemma_add_lr(s2, vcpu, id);
    lemma_irq_wf(s2.add_lr(vcpu, id).vgic, c, id);
}

/// Whether the end of interrupt of interrupt `id` touches no list register:
/// the interrupt is backed by a physical interrupt, or it is not pending.
pub open spec fn ends_outside_registers(s: Sys, vcpu: Vcpu, id: int) -> bool {
    spec_vgic_int_is_hw(s.irq(vcpu, id)) || !s.irq(vcpu, id).inner.state.pending()
}

/// An end of interrupt that touches no list register takes the head off the
/// active list and clears its active bit, and leaves every other interrupt
/// and the register bank as they were.
proof fn lemma_end_outside_registers(s: Sys, vcpu: Vcpu)
    requires
        s.wf(),
        vcpu.id < s.vgic.cpus.len(),
        s.vgic.cpus[vcpu.id as int].act_list.len() > 0,
        ends_outside_registers(s, vcpu, s.vgic.cpus[vcpu.id as int].act_list[0] as int),
    ensures
        s.eoir_highest_spilled_active(vcpu).wf(),
        s.eoir_highest_spilled_active(vcpu).vgic.cpus.len() == s.vgic.cpus.len(),
        s.eoir_highest_spilled_active(vcpu).gich == s.gich,
        s.eoir_highest_spilled_active(vcpu).vgic.cpus[vcpu.id as int].act_list
            == s.vgic.cpus[vcpu.id as int].act_list.skip(1),
        others_kept(
            s.vgic,
            s.eoir_highest_spilled_active(vcpu).vgic,
            vcpu.id as int,
            s.vgic.cpus[vcpu.id as int].act_list[0] as int,
        ),
        !s.eoir_highest_spilled_active(vcpu).irq(
            vcpu,
            s.vgic.cpus[vcpu.id as int].act_list[0] as int,
        ).inner.state.active(),
        ends_outside_registers(
            s.eoir_highest_spilled_active(vcpu),
            vcpu,
            s.vgic.cpus[vcpu.id as int].act_list[0] as int,
        ),
{
    let c = vcpu.id as int;
    assert(s.vgic.cpus[c].wf());
    let list = s.vgic.cpus[c].act_list;
    let id = list[0] as int;
    lemma_irq_wf(s.vgic, c, id);
    let i = claimed(vcpu, s.irq(vcpu, id));
    let j = i.with_state(i.inner.state.with_active(false));
    lemma_set_int_wf(s.vgic, c, j);
    let s1 = s.set_int(vcpu, j);
    lemma_update_int_list_wf(s1.vgic, c, id);
    let s2 = s1.update_int_list(vcpu, id);
    assert(s1.vgic.cpus[c].act_list == list);
    list.index_of_first_ensures(list[0]);
    assert(list.remove_value(list[0]) =~= list.skip(1));
    assert forall|k: int, x: int|
        0 <= k < s.vgic.cpus.len() && 0 <= x < GIC_INTS_MAX && !is_irq(c, id, k, x) implies #[trigger] s2.vgic.irq(
        k,
        x,
    ) == s.vgic.irq(k, x) by {
        assert(s2.vgic.irq(k, x) == s1.vgic.irq(k, x));
    }
}

/// Ends of interrupt that touch no list register take the interrupts off
/// the active list from its head, one for each end of interrupt and in the
/// order of the list, until the list is empty: after `k` of them the first
/// `k` interrupts of the list (all, if the list has fewer) have no active
/// bit, the rest of the list is what is left of it, and every interrupt
/// that was not among the first `k` and every list register is as it was.
///
/// This is stated of an active list whose interrupts are each backed by a
/// physical interrupt or not pending: the end of interrupt of any other
/// puts it into a list register, which can bring the interrupt that has to
/// make room onto the end of the active list.
pub proof fn law_ends_of_interrupt_shorten_the_active_list(s: Sys, vcpu: Vcpu, k: nat)
    requires
        s.wf(),
        vcpu.id < s.vgic.cpus.len(),
        forall|j: int|
            0 <= j < s.vgic.cpus[vcpu.id as int].act_list.len() ==> ends_outside_registers(
                s,
                vcpu,
                #[trigger] s.vgic.cpus[vcpu.id as int].act_list[j] as int,
            ),
    ensures
        eoi_steps(s, vcpu, k).wf(),
        eoi_steps(s, vcpu, k).vgic.cpus.len() == s.vgic.cpus.len(),
        eoi_steps(s, vcpu, k).gich.lr == s.gich.lr,
        eoi_steps(s, vcpu, k).vgic.cpus[vcpu.id as int].act_list == s.vgic.cpus[vcpu.id as int].act_list.skip(
            taken(s, vcpu, k),
        ),
        forall|j: int|
            0 <= j < taken(s, vcpu, k) ==> !eoi_steps(s, vcpu, k).irq(
                vcpu,
                #[trigger] s.vgic.cpus[vcpu.id as int].act_list[j] as int,
            ).inner.state.active(),
        forall|id: int|
            0 <= id < GIC_INTS_MAX && !among_first(s.vgic.cpus[vcpu.id as int].act_list, taken(s, vcpu, k), id)
                ==> #[trigger] eoi_steps(s, vcpu, k).irq(vcpu, id) == s.irq(vcpu, id),
    decreases k,
{
    let c = vcpu.id as int;
    let list = s.vgic.cpus[c].act_list;
    let m = taken(s, vcpu, k);
    if k == 0 {
        assert(list.skip(0) =~= list);
    } else if list.len() == 0 {
        let s1 = eoi_step(s, vcpu);
        assert(s1.vgic == s.vgic);
        law_ends_of_interrupt_shorten_the_active_list(s1, vcpu, (k - 1) as nat);
    } else {
        let h = list[0] as int;
        assert(s.vgic.cpus[c].wf());
        assert(ends_outside_registers(s, vcpu, list[0] as int));
        lemma_end_outside_registers(s, vcpu);
        let s1 = eoi_step(s, vcpu);
        let rest = list.skip(1);
        assert(s1.vgic.cpus[c].act_list == rest);
        assert forall|j: int| 0 <= j < rest.len() implies ends_outside_registers(
            s1,
            vcpu,
            #[trigger] rest[j] as int,
        ) by {
            assert(rest[j] == list[j + 1]);
            assert(ends_outside_registers(s, vcpu, list[j + 1] as int));
            if rest[j] as int != h {
                assert(!is_irq(c, h, c, rest[j] as int));
                assert(s1.vgic.irq(c, rest[j] as int) == s.vgic.irq(c, rest[j] as int));
            }
        }
        law_ends_of_interrupt_shorten_the_active_list(s1, vcpu, (k - 1) as nat);
        let r = eoi_steps(s, vcpu, k);
        assert(r == eoi_steps(s1, vcpu, (k - 1) as nat));
        let m1 = taken(s1, vcpu, (k - 1) as nat);
        assert(m == m1 + 1);
        assert(rest.skip(m1) =~= list.skip(m));
        assert forall|id: int| 0 <= id < GIC_INTS_MAX && !among_first(rest, m1, id) && id != h implies #[trigger] r.irq(
            vcpu,
            id,
        ) == s.irq(vcpu, id) by {
            assert(!is_irq(c, h, c, id));
            assert(s1.vgic.irq(c, id) == s.vgic.irq(c, id));
        }
        assert forall|id: int| 0 <= id < GIC_INTS_MAX && !among_first(list, m, id) implies #[trigger] r.irq(vcpu, id)
            == s.irq(vcpu, id) by {
            assert(list[0] as int != id);
            if among_first(rest, m1, id) {
                let j = choose|j: int| 0 <= j < m1 && rest[j] as int == id;
                assert(list[j + 1] == rest[j]);
            }
        }
        assert forall|j: int| 0 <= j < m implies !r.irq(vcpu, #[trigger] list[j] as int).inner.state.active() by {
            if j > 0 {
                assert(rest[j - 1] == list[j]);
            } else if among_first(rest, m1, h) {
                let q = choose|q: int| 0 <= q < m1 && rest[q] as int == h;
                assert(!r.irq(vcpu, rest[q] as int).inner.state.active());
            } else {
                assert(r.irq(vcpu, h) == s1.irq(vcpu, h));
            }
        }
    }
}

/// How many interrupts `k` ends of interrupt take off the active list of
/// `vcpu`: `k`, or all that the list has if it has fewer.
pub open spec fn taken(s: Sys, vcpu: Vcpu, k: nat) -> int {
    if k <= s.vgic.cpus[vcpu.id as int].act_list.len() {
        k as int
    } else {
        s.vgic.cpus[vcpu.id as int].act_list.len() as int
    }
}

/// Whether `id` is one of the first `m` entries of `list`.
pub open spec fn among_first(list: Seq<u16>, m: int, id: int) -> bool {
    exists|j: int| 0 <= j < m && j < list.len() && #[trigger] list[j] as int == id
}

/// Where the lists follow the flags, the interrupt that a refill takes has
/// the bit of the list it comes from: pending if it comes from the pending
/// list, active if it comes from the active list. No inactive interrupt goes
/// into a list register by a refill.
pub proof fn law_refill_takes_a_live_interrupt(s: Sys, vcpu: Vcpu, has_pending: bool)
    requires
        s.inv(),
        s.vgic.lists_inv(),
        vcpu.id < s.vgic.cpus.len(),
        s.refill_candidate(vcpu, has_pending).is_some(),
    ensures
        0 <= s.refill_candidate(vcpu, has_pending).unwrap().0 < GIC_INTS_MAX,
        bit_of(
            s.irq(vcpu, s.refill_candidate(vcpu, has_pending).unwrap().0),
            s.refill_candidate(vcpu, has_pending).unwrap().1,
        ),
        s.irq(vcpu, s.refill_candidate(vcpu, has_pending).unwrap().0).inner.state != IrqState::IrqSInactive,
{
    let c = vcpu.id as int;
    assert(s.vgic.cpus[c].wf());
    let id = s.refill_candidate(vcpu, has_pending).unwrap().0;
    let pend = s.refill_candidate(vcpu, has_pending).unwrap().1;
    assert(list_of(s.vgic, c, pend)[0] == id);
    assert(list_of(s.vgic, c, pend).contains(id as u16));
    law_lists_follow_state(s.vgic, c, c, id, pend);
}

} // verus!
