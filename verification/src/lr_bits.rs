//! Facts about the encoding of list register values: which fields come back
//! out of a value that the engine composed.

use vstd::prelude::*;
use crate::gich::{lr_cpuid, lr_eoi, lr_has_eoi, lr_hw, lr_id, lr_is_empty, lr_prio, lr_state};
use crate::lr::{
    active_source,
    highest_source,
    highest_source_from,
    lr_base,
    lr_val_hw,
    lr_val_other,
    lr_val_sgi_act,
    lr_val_sgi_pend,
    sgi_pend_rest,
};
use crate::vint::spec_gic_is_priv;
use crate::vint_private::Sgis;

verus! {

/// The id and priority part of a value has no state, no maintenance bit and
/// no hardware bit, and gives back the id and the top five priority bits.
pub proof fn lemma_lr_base(int_id: u32, prio: u8)
    requires
        int_id < 1024,
    ensures
        lr_id(lr_base(int_id, prio)) == int_id,
        lr_prio(lr_base(int_id, prio)) == (prio >> 3) as u32,
        lr_state(lr_base(int_id, prio)) == 0,
        !lr_eoi(lr_base(int_id, prio)),
        !lr_hw(lr_base(int_id, prio)),
        lr_cpuid(lr_base(int_id, prio)) == 0,
{
    assert(int_id < 1024 ==> lr_id(lr_base(int_id, prio)) == int_id && lr_prio(lr_base(int_id, prio)) == (prio
        >> 3) as u32 && lr_state(lr_base(int_id, prio)) == 0 && !lr_eoi(lr_base(int_id, prio)) && !lr_hw(
        lr_base(int_id, prio),
    ) && lr_cpuid(lr_base(int_id, prio)) == 0) by (bit_vector);
}

/// What comes back out of the value of a hardware-backed interrupt.
pub proof fn lemma_lr_val_hw(int_id: u32, prio: u8, state: usize)
    requires
        int_id < 1024,
        state <= 3,
    ensures
        lr_id(lr_val_hw(int_id, prio, state)) == int_id,
        lr_prio(lr_val_hw(int_id, prio, state)) == (prio >> 3) as u32,
        lr_state(lr_val_hw(int_id, prio, state)) == (if state == 3 {
            2u32
        } else {
            state as u32
        }),
        lr_hw(lr_val_hw(int_id, prio, state)),
{
    let st: u32 = if state == 3 {
        2u32
    } else {
        state as u32
    };
    let lr = lr_base(int_id, prio) | (1u32 << 31) | ((0b1111111111 & int_id) << 10) | (st << 28);
    assert(int_id < 1024 && st <= 3 ==> lr_id(lr) == int_id && lr_prio(lr) == (prio >> 3) as u32 && lr_state(lr)
        == st && lr_hw(lr)) by (bit_vector)
        requires
            lr == lr_base(int_id, prio) | (1u32 << 31) | ((0b1111111111 & int_id) << 10) | (st << 28),
    ;
}

/// What comes back out of the value of an interrupt that is neither
/// hardware-backed nor software-generated.
pub proof fn lemma_lr_val_other(int_id: u32, prio: u8, state: usize)
    requires
        int_id < 1024,
        state <= 3,
    ensures
        lr_id(lr_val_other(int_id, prio, state)) == int_id,
        lr_prio(lr_val_other(int_id, prio, state)) == (prio >> 3) as u32,
        lr_state(lr_val_other(int_id, prio, state)) == state as u32,
        !lr_hw(lr_val_other(int_id, prio, state)),
        lr_eoi(lr_val_other(int_id, prio, state)) == !spec_gic_is_priv(int_id as usize),
{
    let st = state as u32;
    let a = lr_base(int_id, prio) | (1u32 << 19) | (st << 28);
    let b = lr_base(int_id, prio) | (st << 28);
    assert(int_id < 1024 && st <= 3 ==> lr_id(a) == int_id && lr_prio(a) == (prio >> 3) as u32 && lr_state(a)
        == st && !lr_hw(a) && lr_eoi(a) && lr_id(b) == int_id && lr_prio(b) == (prio >> 3) as u32 && lr_state(
        b,
    ) == st && !lr_hw(b) && !lr_eoi(b)) by (bit_vector)
        requires
            a == lr_base(int_id, prio) | (1u32 << 19) | (st << 28),
            b == lr_base(int_id, prio) | (st << 28),
    ;
}

/// What comes back out of the value of an active software-generated
/// interrupt.
pub proof fn lemma_lr_val_sgi_act(int_id: u32, prio: u8, sgis: Sgis)
    requires
        int_id < 1024,
    ensures
        lr_id(lr_val_sgi_act(int_id, prio, sgis)) == int_id,
        lr_prio(lr_val_sgi_act(int_id, prio, sgis)) == (prio >> 3) as u32,
        lr_state(lr_val_sgi_act(int_id, prio, sgis)) == 2,
        !lr_hw(lr_val_sgi_act(int_id, prio, sgis)),
        lr_cpuid(lr_val_sgi_act(int_id, prio, sgis)) == active_source(sgis.act) as u32,
        active_source(sgis.act) < 8,
        lr_eoi(lr_val_sgi_act(int_id, prio, sgis)) == (sgis.pend != 0),
{
    lemma_highest_source(sgis.act);
    let src = active_source(sgis.act);
    let a = lr_base(int_id, prio) | (((src as u32) & 0b111) << 10) | (2u32 << 28);
    let b = a | (1u32 << 19);
    assert(int_id < 1024 && src < 8 ==> lr_id(a) == int_id && lr_prio(a) == (prio >> 3) as u32 && lr_state(a) == 2
        && !lr_hw(a) && lr_cpuid(a) == src as u32 && !lr_eoi(a) && lr_id(b) == int_id && lr_prio(b) == (prio
        >> 3) as u32 && lr_state(b) == 2 && !lr_hw(b) && lr_cpuid(b) == src as u32 && lr_eoi(b)) by (bit_vector)
        requires
            a == lr_base(int_id, prio) | (((src as u32) & 0b111) << 10) | (2u32 << 28),
            b == a | (1u32 << 19),
    ;
}

/// The highest pending source is a set bit with no set bit above it; and
/// where there is none, no source is pending.
pub proof fn lemma_highest_source(pend: u8)
    ensures
        highest_source(pend) matches Some(idx) ==> idx < 8 && pend & (1u8 << idx) != 0 && pend >> idx == 1,
        highest_source(pend).is_none() <==> pend == 0,
{
    reveal_with_fuel(highest_source_from, 9);
    assert(pend & (1u8 << 7u8) == 0 && pend & (1u8 << 6u8) == 0 && pend & (1u8 << 5u8) == 0 && pend & (1u8
        << 4u8) == 0 && pend & (1u8 << 3u8) == 0 && pend & (1u8 << 2u8) == 0 && pend & (1u8 << 1u8) == 0
        && pend & (1u8 << 0u8) == 0 ==> pend == 0) by (bit_vector);
    assert(pend == 0 ==> pend & (1u8 << 7u8) == 0 && pend & (1u8 << 6u8) == 0 && pend & (1u8 << 5u8) == 0
        && pend & (1u8 << 4u8) == 0 && pend & (1u8 << 3u8) == 0 && pend & (1u8 << 2u8) == 0 && pend & (1u8
        << 1u8) == 0 && pend & (1u8 << 0u8) == 0) by (bit_vector);
    assert(forall|k: u8|
        k < 8 && pend & (1u8 << k) != 0 && (forall|j: u8| k < j < 8 ==> pend & (1u8 << j) == 0) ==> #[trigger] (
        pend >> k) == 1) by {
        assert forall|k: u8|
            k < 8 && pend & (1u8 << k) != 0 && (forall|j: u8| k < j < 8 ==> pend & (1u8 << j) == 0) implies #[trigger] (
        pend >> k) == 1 by {
            assert(pend & (1u8 << 7u8) == 0 || k >= 7);
            assert(pend & (1u8 << 6u8) == 0 || k >= 6);
            assert(pend & (1u8 << 5u8) == 0 || k >= 5);
            assert(pend & (1u8 << 4u8) == 0 || k >= 4);
            assert(pend & (1u8 << 3u8) == 0 || k >= 3);
            assert(pend & (1u8 << 2u8) == 0 || k >= 2);
            assert(pend & (1u8 << 1u8) == 0 || k >= 1);
            assert(k < 8 && pend & (1u8 << k) != 0 && (pend & (1u8 << 7u8) == 0 || k >= 7) && (pend & (1u8
                << 6u8) == 0 || k >= 6) && (pend & (1u8 << 5u8) == 0 || k >= 5) && (pend & (1u8 << 4u8) == 0
                || k >= 4) && (pend & (1u8 << 3u8) == 0 || k >= 3) && (pend & (1u8 << 2u8) == 0 || k >= 2) && (
            pend & (1u8 << 1u8) == 0 || k >= 1) ==> pend >> k == 1) by (bit_vector);
        }
    }
}

/// What comes back out of the value of a software-generated interrupt that
/// is not active: with a pending source, the state pending and that source;
/// without one, no state and no maintenance bit.
pub proof fn lemma_lr_val_sgi_pend(int_id: u32, prio: u8, pend: u8)
    requires
        int_id < 1024,
    ensures
        lr_id(lr_val_sgi_pend(int_id, prio, pend)) == int_id,
        lr_prio(lr_val_sgi_pend(int_id, prio, pend)) == (prio >> 3) as u32,
        !lr_hw(lr_val_sgi_pend(int_id, prio, pend)),
        lr_state(lr_val_sgi_pend(int_id, prio, pend)) == (if pend != 0 {
            1u32
        } else {
            0u32
        }),
        highest_source(pend) matches Some(idx) ==> lr_cpuid(lr_val_sgi_pend(int_id, prio, pend)) == idx,
        !lr_has_eoi(lr_val_sgi_pend(int_id, prio, pend)),
        pend == 0 ==> lr_is_empty(lr_val_sgi_pend(int_id, prio, pend)),
        highest_source(pend) matches Some(idx) ==> sgi_pend_rest(pend) | (1u8 << idx) == pend,
{
    lemma_highest_source(pend);
    lemma_lr_base(int_id, prio);
    match highest_source(pend) {
        Some(idx) => {
            let a = lr_base(int_id, prio) | (((idx as u32) & 0b111) << 10) | (1u32 << 28);
            let b = a | (1u32 << 19);
            assert(int_id < 1024 && idx < 8 ==> lr_id(a) == int_id && lr_prio(a) == (prio >> 3) as u32 && lr_state(
                a,
            ) == 1 && !lr_hw(a) && lr_cpuid(a) == idx as u32 && lr_id(b) == int_id && lr_prio(b) == (prio
                >> 3) as u32 && lr_state(b) == 1 && !lr_hw(b) && lr_cpuid(b) == idx as u32) by (bit_vector)
                requires
                    a == lr_base(int_id, prio) | (((idx as u32) & 0b111) << 10) | (1u32 << 28),
                    b == a | (1u32 << 19),
            ;
            assert(pend & (1u8 << idx) != 0 ==> (pend & !(1u8 << idx)) | (1u8 << idx) == pend) by (bit_vector);
        },
        None => {},
    }
}

} // verus!
