//! The pending and active lists follow the list flags of the interrupts:
//! the invariant, and the steps that keep it.

use vstd::prelude::*;
use crate::consts::{GIC_INTS_MAX, GIC_LIST_REGS_NUM, GIC_PRIVINT_NUM, GIC_SGIS_NUM};
use crate::vgic::{followed, VgicView};
use crate::vint::VgicInt;
use crate::vint_private::Sgis;

verus! {

/// Whether `id` occurs in `list` exactly once if `flag`, and not at all if
/// not.
pub open spec fn list_agrees(list: Seq<u16>, id: u16, flag: bool) -> bool {
    if flag {
        list.contains(id) && forall|i: int, j: int|
            0 <= i < list.len() && 0 <= j < list.len() && list[i] == id && list[j] == id ==> i == j
    } else {
        !list.contains(id)
    }
}

/// The pending (`pend`) or the active list of virtual CPU `c`.
pub open spec fn list_of(v: VgicView, c: int, pend: bool) -> Seq<u16> {
    if pend {
        v.cpus[c].pend_list
    } else {
        v.cpus[c].act_list
    }
}

/// The flag of an interrupt for the pending (`pend`) or the active list.
pub open spec fn flag_of(i: VgicInt, pend: bool) -> bool {
    if pend {
        i.inner.in_pend
    } else {
        i.inner.in_act
    }
}

/// Whether virtual CPU `c` is the one whose list holds the shared interrupt
/// `id`: its list holds the id once, and no other list holds it.
pub open spec fn holds_shared(v: VgicView, id: int, pend: bool, c: int) -> bool {
    &&& 0 <= c < v.cpus.len()
    &&& list_agrees(list_of(v, c, pend), id as u16, true)
    &&& forall|d: int| 0 <= d < v.cpus.len() && d != c ==> !(#[trigger] list_of(v, d, pend)).contains(id as u16)
}

/// Whether the lists agree with the flag of the shared interrupt `id`: if it
/// is flagged, one list holds it once and no other holds it; if it is not, no
/// list holds it.
pub open spec fn shared_agrees(v: VgicView, id: int, pend: bool) -> bool {
    if flag_of(v.spis[id - GIC_PRIVINT_NUM], pend) {
        exists|c: int| #[trigger] holds_shared(v, id, pend, c)
    } else {
        forall|c: int| 0 <= c < v.cpus.len() ==> !(#[trigger] list_of(v, c, pend)).contains(id as u16)
    }
}

/// Whether the lists of virtual CPU `c` agree with the flag of its private
/// interrupt `id`.
pub open spec fn private_agrees(v: VgicView, c: int, id: int, pend: bool) -> bool {
    list_agrees(list_of(v, c, pend), id as u16, flag_of(v.cpus[c].interrupts[id], pend))
}

impl VgicView {
    /// The lists follow the flags: a private interrupt is on the pending list
    /// of its virtual CPU once if it is flagged as pending and not at all if
    /// not; a shared interrupt that is flagged as pending is on the pending
    /// list of one virtual CPU, once, and one that is not flagged is on none;
    /// and so for the active lists.
    pub open spec fn lists_inv(self) -> bool {
        &&& forall|c: int, id: int, pend: bool|
            0 <= c < self.cpus.len() && 0 <= id < GIC_PRIVINT_NUM ==> #[trigger] private_agrees(self, c, id, pend)
        &&& forall|id: int, pend: bool|
            GIC_PRIVINT_NUM <= id < GIC_INTS_MAX ==> #[trigger] shared_agrees(self, id, pend)
    }
}

/// Appending a value to a list touches no other value's occurrences, and
/// makes a value that was absent occur once.
pub proof fn lemma_push_agrees(list: Seq<u16>, id: u16, other: u16, flag: bool)
    requires
        list_agrees(list, other, flag),
    ensures
        other != id ==> list_agrees(list.push(id), other, flag),
        other == id && !flag ==> list_agrees(list.push(id), id, true),
{
    let l2 = list.push(id);
    if other != id {
        if flag {
            let k = choose|k: int| 0 <= k < list.len() && list[k] == other;
            assert(l2[k] == other);
        } else {
            assert forall|k: int| 0 <= k < l2.len() implies l2[k] != other by {
                if k < list.len() {
                    assert(l2[k] == list[k]);
                }
            }
        }
    } else if !flag {
        assert(l2[list.len() as int] == id);
        assert forall|i: int, j: int|
            0 <= i < l2.len() && 0 <= j < l2.len() && l2[i] == id && l2[j] == id implies i == j by {
            if i < list.len() {
                assert(list[i] == id);
            }
            if j < list.len() {
                assert(list[j] == id);
            }
        }
    }
}

/// Removing the first occurrence of a value from a list touches no other
/// value's occurrences, and makes a value that occurred at most once absent.
pub proof fn lemma_remove_agrees(list: Seq<u16>, id: u16, other: u16, flag: bool)
    requires
        list_agrees(list, other, flag),
    ensures
        other != id ==> list_agrees(list.remove_value(id), other, flag),
        other == id ==> list_agrees(list.remove_value(id), id, false),
{
    list.index_of_first_ensures(id);
    let l2 = list.remove_value(id);
    match list.index_of_first(id) {
        Some(p) => {
            assert(l2 == list.remove(p));
            assert forall|k: int| 0 <= k < l2.len() implies l2[k] == (if k < p {
                list[k]
            } else {
                list[k + 1]
            }) by {}
            if other != id {
                if flag {
                    let k = choose|k: int| 0 <= k < list.len() && list[k] == other;
                    if k < p {
                        assert(l2[k] == other);
                    } else {
                        assert(l2[k - 1] == other);
                    }
                    assert forall|i: int, j: int|
                        0 <= i < l2.len() && 0 <= j < l2.len() && l2[i] == other && l2[j] == other implies i
                        == j by {
                        let i2 = if i < p {
                            i
                        } else {
                            i + 1
                        };
                        let j2 = if j < p {
                            j
                        } else {
                            j + 1
                        };
                        assert(list[i2] == other && list[j2] == other);
                    }
                } else {
                    assert forall|k: int| 0 <= k < l2.len() implies l2[k] != other by {
                        let k2 = if k < p {
                            k
                        } else {
                            k + 1
                        };
                        assert(list[k2] == l2[k]);
                    }
                }
            } else {
                assert forall|k: int| 0 <= k < l2.len() implies l2[k] != id by {
                    let k2 = if k < p {
                        k
                    } else {
                        k + 1
                    };
                    assert(list[k2] == l2[k]);
                    if l2[k] == id {
                        assert(list[p] == id);
                        assert(flag);
                        assert(k2 == p);
                    }
                }
            }
        },
        None => {
            assert(l2 == list);
        },
    }
}

/// A controller whose lists and list flags are those of another keeps the
/// lists in line with the flags.
pub proof fn lemma_lists_same(a: VgicView, b: VgicView)
    requires
        a.cpus.len() == b.cpus.len(),
        a.spis.len() == b.spis.len(),
        forall|c: int, pend: bool| 0 <= c < a.cpus.len() ==> #[trigger] list_of(b, c, pend) == list_of(a, c, pend),
        forall|c: int, id: int|
            0 <= c < a.cpus.len() && 0 <= id < GIC_PRIVINT_NUM ==> (#[trigger] b.cpus[c].interrupts[id]).inner.in_pend
                == a.cpus[c].interrupts[id].inner.in_pend && b.cpus[c].interrupts[id].inner.in_act
                == a.cpus[c].interrupts[id].inner.in_act,
        forall|k: int|
            0 <= k < GIC_INTS_MAX - GIC_PRIVINT_NUM ==> (#[trigger] b.spis[k]).inner.in_pend == a.spis[k].inner.in_pend
                && b.spis[k].inner.in_act == a.spis[k].inner.in_act,
    ensures
        a.lists_inv() ==> b.lists_inv(),
{
    if a.lists_inv() {
        assert forall|c: int, id: int, pend: bool|
            0 <= c < b.cpus.len() && 0 <= id < GIC_PRIVINT_NUM implies #[trigger] private_agrees(b, c, id, pend) by {
            assert(private_agrees(a, c, id, pend));
            assert(list_of(b, c, pend) == list_of(a, c, pend));
            assert(flag_of(b.cpus[c].interrupts[id], pend) == flag_of(a.cpus[c].interrupts[id], pend));
        }
        assert forall|id: int, pend: bool| GIC_PRIVINT_NUM <= id < GIC_INTS_MAX implies #[trigger] shared_agrees(
            b,
            id,
            pend,
        ) by {
            assert(shared_agrees(a, id, pend));
            assert(flag_of(b.spis[id - GIC_PRIVINT_NUM], pend) == flag_of(a.spis[id - GIC_PRIVINT_NUM], pend));
            if flag_of(a.spis[id - GIC_PRIVINT_NUM], pend) {
                let c = choose|c: int| #[trigger] holds_shared(a, id, pend, c);
                assert(list_of(b, c, pend) == list_of(a, c, pend));
                assert forall|d: int| 0 <= d < b.cpus.len() && d != c implies !(#[trigger] list_of(
                    b,
                    d,
                    pend,
                )).contains(id as u16) by {
                    assert(list_of(b, d, pend) == list_of(a, d, pend));
                }
                assert(holds_shared(b, id, pend, c));
            } else {
                assert forall|c: int| 0 <= c < b.cpus.len() implies !(#[trigger] list_of(b, c, pend)).contains(
                    id as u16,
                ) by {
                    assert(list_of(b, c, pend) == list_of(a, c, pend));
                }
            }
        }
    }
}

/// A controller with the same interrupts and the same per-CPU state keeps
/// the lists in line with the flags.
pub proof fn lemma_lists_frame(a: VgicView, b: VgicView)
    requires
        a.spis == b.spis,
        a.cpus == b.cpus,
    ensures
        a.lists_inv() ==> b.lists_inv(),
{
    lemma_lists_same(a, b);
}

/// Storing an interrupt with the list flags that its slot has keeps the
/// lists in line with the flags.
pub proof fn lemma_set_int_lists(v: VgicView, vcpu_id: int, i: VgicInt)
    requires
        v.wf(),
        0 <= vcpu_id < v.cpus.len(),
        i.wf(),
        v.lists_inv(),
        i.inner.in_pend == v.irq(vcpu_id, i.id as int).inner.in_pend,
        i.inner.in_act == v.irq(vcpu_id, i.id as int).inner.in_act,
    ensures
        v.set_int(vcpu_id, i).lists_inv(),
{
    assert(v.cpus[vcpu_id].wf());
    lemma_lists_same(v, v.set_int(vcpu_id, i));
}

/// Replacing the sources of a software-generated interrupt keeps the lists
/// in line with the flags.
pub proof fn lemma_set_sgis_lists(v: VgicView, vcpu_id: int, idx: int, sgis: Sgis)
    requires
        v.wf(),
        0 <= vcpu_id < v.cpus.len(),
        0 <= idx < GIC_SGIS_NUM,
        v.lists_inv(),
    ensures
        v.set_sgis(vcpu_id, idx, sgis).lists_inv(),
{
    lemma_lists_same(v, v.set_sgis(vcpu_id, idx, sgis));
}

/// Recording the occupant of a list register keeps the lists in line with
/// the flags.
pub proof fn lemma_set_curr_lr_lists(v: VgicView, vcpu_id: int, idx: int, val: u16)
    requires
        v.wf(),
        0 <= vcpu_id < v.cpus.len(),
        0 <= idx < GIC_LIST_REGS_NUM,
        v.lists_inv(),
    ensures
        v.set_curr_lr(vcpu_id, idx, val).lists_inv(),
{
    lemma_lists_same(v, v.set_curr_lr(vcpu_id, idx, val));
}

/// A list that followed a bit of the state of interrupt `id` holds every
/// other id as before, and holds `id` as the bit says where the list is
/// that of the acting virtual CPU and held it as the flag said.
pub proof fn lemma_followed(list: Seq<u16>, id: u16, bit: bool, flag: bool, here: bool, shared: bool, other: u16, f: bool)
    requires
        list_agrees(list, other, f),
    ensures
        other != id ==> list_agrees(followed(list, id, bit, flag, here, shared), other, f),
        other == id && here && f == flag ==> list_agrees(followed(list, id, bit, flag, here, shared), id, bit),
        other == id && !f ==> list_agrees(followed(list, id, bit, flag, here, shared), id, here && bit && !flag),
        other == id && !bit && (here || shared) ==> list_agrees(
            followed(list, id, bit, flag, here, shared),
            id,
            false,
        ),
        other == id && bit && (!here || flag) ==> followed(list, id, bit, flag, here, shared) == list,
{
    lemma_push_agrees(list, id, other, f);
    lemma_remove_agrees(list, id, other, f);
}

/// What the lists and the interrupts are after the lists were brought in
/// line with the state of an interrupt.
proof fn lemma_update_shape(v: VgicView, vcpu_id: int, int_id: int)
    requires
        v.wf(),
        0 <= vcpu_id < v.cpus.len(),
        0 <= int_id < GIC_INTS_MAX,
    ensures
        v.irq(vcpu_id, int_id).id == int_id,
        v.update_int_list(vcpu_id, int_id).cpus.len() == v.cpus.len(),
        v.update_int_list(vcpu_id, int_id).spis.len() == v.spis.len(),
        forall|c: int, pend: bool|
            0 <= c < v.cpus.len() ==> #[trigger] list_of(v.update_int_list(vcpu_id, int_id), c, pend) == followed(
                list_of(v, c, pend),
                int_id as u16,
                bit_of(v.irq(vcpu_id, int_id), pend),
                flag_of(v.irq(vcpu_id, int_id), pend),
                c == vcpu_id,
                int_id >= GIC_PRIVINT_NUM,
            ),
        forall|c: int, id: int, pend: bool|
            0 <= c < v.cpus.len() && 0 <= id < GIC_PRIVINT_NUM ==> #[trigger] flag_of(
                v.update_int_list(vcpu_id, int_id).cpus[c].interrupts[id],
                pend,
            ) == (if id == int_id && c == vcpu_id {
                bit_of(v.irq(vcpu_id, int_id), pend)
            } else {
                flag_of(v.cpus[c].interrupts[id], pend)
            }),
        forall|id: int, pend: bool|
            GIC_PRIVINT_NUM <= id < GIC_INTS_MAX ==> #[trigger] flag_of(
                v.update_int_list(vcpu_id, int_id).spis[id - GIC_PRIVINT_NUM],
                pend,
            ) == (if id == int_id {
                bit_of(v.irq(vcpu_id, int_id), pend)
            } else {
                flag_of(v.spis[id - GIC_PRIVINT_NUM], pend)
            }),
{
    let i = v.irq(vcpu_id, int_id);
    let n = v.cpus.len() as int;
    assert(v.cpus[vcpu_id].wf());
    if int_id < GIC_PRIVINT_NUM {
        assert(v.cpus[vcpu_id].interrupts[int_id].wf());
    } else {
        assert(v.spis[int_id - GIC_PRIVINT_NUM].wf());
    }
    let v1 = v.follow_lists(vcpu_id, int_id, n);
    let i2 = i.with_in_pend(i.inner.state.pending()).with_in_act(i.inner.state.active());
    let v2 = v1.set_int(vcpu_id, i2);
    assert forall|c: int, pend: bool| 0 <= c < n implies #[trigger] list_of(v2, c, pend) == followed(
        list_of(v, c, pend),
        int_id as u16,
        bit_of(i, pend),
        flag_of(i, pend),
        c == vcpu_id,
        int_id >= GIC_PRIVINT_NUM,
    ) by {
        assert(v2.cpus[c].pend_list == v1.cpus[c].pend_list);
        assert(v2.cpus[c].act_list == v1.cpus[c].act_list);
    }
    assert forall|c: int, id: int, pend: bool| 0 <= c < n && 0 <= id < GIC_PRIVINT_NUM implies #[trigger] flag_of(
        v2.cpus[c].interrupts[id],
        pend,
    ) == (if id == int_id && c == vcpu_id {
        bit_of(i, pend)
    } else {
        flag_of(v.cpus[c].interrupts[id], pend)
    }) by {
        assert(v1.cpus[c].interrupts == v.cpus[c].interrupts);
    }
}

/// Bringing the lists in line with the state of an interrupt keeps the lists
/// of virtual CPU `c` in line with the flag of its private interrupt `id`.
proof fn lemma_update_private(v: VgicView, vcpu_id: int, int_id: int, c: int, id: int, pend: bool)
    requires
        v.wf(),
        0 <= vcpu_id < v.cpus.len(),
        0 <= int_id < GIC_INTS_MAX,
        0 <= c < v.cpus.len(),
        0 <= id < GIC_PRIVINT_NUM,
        private_agrees(v, c, id, pend),
    ensures
        private_agrees(v.update_int_list(vcpu_id, int_id), c, id, pend),
{
    lemma_update_shape(v, vcpu_id, int_id);
    let i = v.irq(vcpu_id, int_id);
    let v2 = v.update_int_list(vcpu_id, int_id);
    let f = flag_of(v.cpus[c].interrupts[id], pend);
    assert(list_of(v2, c, pend) == followed(
        list_of(v, c, pend),
        int_id as u16,
        bit_of(i, pend),
        flag_of(i, pend),
        c == vcpu_id,
        int_id >= GIC_PRIVINT_NUM,
    ));
    lemma_followed(
        list_of(v, c, pend),
        int_id as u16,
        bit_of(i, pend),
        flag_of(i, pend),
        c == vcpu_id,
        int_id >= GIC_PRIVINT_NUM,
        id as u16,
        f,
    );
    assert(flag_of(v2.cpus[c].interrupts[id], pend) == (if id == int_id && c == vcpu_id {
        bit_of(i, pend)
    } else {
        f
    }));
}

/// Bringing the lists in line with the state of an interrupt keeps the lists
/// in line with the flag of the shared interrupt `id`.
proof fn lemma_update_shared(v: VgicView, vcpu_id: int, int_id: int, id: int, pend: bool)
    requires
        v.wf(),
        0 <= vcpu_id < v.cpus.len(),
        0 <= int_id < GIC_INTS_MAX,
        GIC_PRIVINT_NUM <= id < GIC_INTS_MAX,
        shared_agrees(v, id, pend),
    ensures
        shared_agrees(v.update_int_list(vcpu_id, int_id), id, pend),
{
    lemma_update_shape(v, vcpu_id, int_id);
    let i = v.irq(vcpu_id, int_id);
    let n = v.cpus.len() as int;
    let v2 = v.update_int_list(vcpu_id, int_id);
    let shared = int_id >= GIC_PRIVINT_NUM;
    let f = flag_of(v.spis[id - GIC_PRIVINT_NUM], pend);
    let bit = bit_of(i, pend);
    let flag = flag_of(i, pend);
    assert(flag_of(v2.spis[id - GIC_PRIVINT_NUM], pend) == (if id == int_id {
        bit
    } else {
        f
    }));
    if f {
        let h = choose|h: int| #[trigger] holds_shared(v, id, pend, h);
        assert forall|c: int| 0 <= c < n implies list_agrees(
            #[trigger] list_of(v2, c, pend),
            id as u16,
            c == h && !(id == int_id && !bit),
        ) by {
            assert(list_agrees(list_of(v, c, pend), id as u16, c == h));
            lemma_followed(list_of(v, c, pend), int_id as u16, bit, flag, c == vcpu_id, shared, id as u16, c == h);
            assert(list_of(v2, c, pend) == followed(
                list_of(v, c, pend),
                int_id as u16,
                bit,
                flag,
                c == vcpu_id,
                shared,
            ));
        }
        if !(id == int_id && !bit) {
            assert(list_agrees(list_of(v2, h, pend), id as u16, true));
            assert(holds_shared(v2, id, pend, h));
        }
    } else {
        assert forall|c: int| 0 <= c < n implies list_agrees(
            #[trigger] list_of(v2, c, pend),
            id as u16,
            id == int_id && bit && c == vcpu_id,
        ) by {
            assert(list_agrees(list_of(v, c, pend), id as u16, false));
            lemma_followed(list_of(v, c, pend), int_id as u16, bit, flag, c == vcpu_id, shared, id as u16, false);
            assert(list_of(v2, c, pend) == followed(
                list_of(v, c, pend),
                int_id as u16,
                bit,
                flag,
                c == vcpu_id,
                shared,
            ));
        }
        if id == int_id && bit {
            assert(list_agrees(list_of(v2, vcpu_id, pend), id as u16, true));
            assert(holds_shared(v2, id, pend, vcpu_id));
        }
    }
}

/// Bringing the lists in line with the state of an interrupt keeps them in
/// line with the flags of every interrupt.
pub proof fn lemma_update_int_list_lists(v: VgicView, vcpu_id: int, int_id: int)
    requires
        v.wf(),
        0 <= vcpu_id < v.cpus.len(),
        0 <= int_id < GIC_INTS_MAX,
        v.lists_inv(),
    ensures
        v.update_int_list(vcpu_id, int_id).lists_inv(),
{
    lemma_update_shape(v, vcpu_id, int_id);
    let v2 = v.update_int_list(vcpu_id, int_id);
    assert forall|c: int, id: int, pend: bool|
        0 <= c < v2.cpus.len() && 0 <= id < GIC_PRIVINT_NUM implies #[trigger] private_agrees(v2, c, id, pend) by {
        assert(private_agrees(v, c, id, pend));
        lemma_update_private(v, vcpu_id, int_id, c, id, pend);
    }
    assert forall|id: int, pend: bool| GIC_PRIVINT_NUM <= id < GIC_INTS_MAX implies #[trigger] shared_agrees(
        v2,
        id,
        pend,
    ) by {
        assert(shared_agrees(v, id, pend));
        lemma_update_shared(v, vcpu_id, int_id, id, pend);
    }
}

/// The pending (`pend`) or the active bit of the state of an interrupt.
pub open spec fn bit_of(i: VgicInt, pend: bool) -> bool {
    if pend {
        i.inner.state.pending()
    } else {
        i.inner.state.active()
    }
}

/// Under the invariants a private interrupt is on a list of its virtual CPU
/// exactly if its state has the bit, and a shared interrupt is on the list of
/// some virtual CPU exactly if its state has the bit, and then on no other.
pub proof fn law_lists_follow_state(v: VgicView, c: int, d: int, id: int, pend: bool)
    requires
        v.inv(),
        v.lists_inv(),
        0 <= c < v.cpus.len(),
        0 <= d < v.cpus.len(),
        0 <= id < GIC_INTS_MAX,
    ensures
        flag_of(v.irq(c, id), pend) == bit_of(v.irq(c, id), pend),
        id < GIC_PRIVINT_NUM ==> (list_of(v, c, pend).contains(id as u16) <==> bit_of(v.irq(c, id), pend)),
        id >= GIC_PRIVINT_NUM ==> ((exists|h: int| 0 <= h < v.cpus.len() && #[trigger] list_of(v, h, pend).contains(
            id as u16,
        )) <==> bit_of(v.irq(c, id), pend)),
        id >= GIC_PRIVINT_NUM && list_of(v, c, pend).contains(id as u16) && list_of(v, d, pend).contains(id as u16)
            ==> c == d,
        list_agrees(list_of(v, c, pend), id as u16, list_of(v, c, pend).contains(id as u16)),
{
    assert(v.cpus[c].wf());
    if id < GIC_PRIVINT_NUM {
        assert(private_agrees(v, c, id, pend));
        assert(v.cpus[c].interrupts[id].flags_agree());
    } else {
        assert(shared_agrees(v, id, pend));
        assert(v.spis[id - GIC_PRIVINT_NUM].flags_agree());
        if flag_of(v.spis[id - GIC_PRIVINT_NUM], pend) {
            let h = choose|h: int| #[trigger] holds_shared(v, id, pend, h);
            assert(list_of(v, h, pend).contains(id as u16));
            if c != h {
                assert(!list_of(v, c, pend).contains(id as u16));
            }
            if d != h {
                assert(!list_of(v, d, pend).contains(id as u16));
            }
        }
    }
}

} // verus!
