//! The interrupt state that is private to one virtual CPU: its bank of
//! private interrupts, the occupants of its list registers, the sources of
//! its software-generated interrupts, and its pending and active lists.

use vstd::prelude::*;
use std::collections::VecDeque;
use crate::consts::{GIC_INTS_MAX, GIC_LIST_REGS_NUM, GIC_PRIVINT_NUM, GIC_SGIS_NUM};
use crate::vint::VgicInt;

verus! {

/// The sources of one software-generated interrupt: a bit per source CPU
/// that has it pending, and a bit per source CPU whose instance is active.
#[derive(Clone, Copy, Debug, Default, PartialEq, Eq)]
pub struct Sgis {
    pub pend: u8,
    pub act: u8,
}

/// The mutable bookkeeping of a virtual CPU. The two lists hold interrupt
/// ids in the order in which the interrupts became pending or active.
pub struct VgicCpuPrivMut {
    pub curr_lrs: Vec<u16>,
    pub sgis: Vec<Sgis>,
    pub pend_list: VecDeque<u16>,
    pub act_list: VecDeque<u16>,
}

/// The private interrupt state of a virtual CPU.
pub struct VgicCpuPriv {
    pub interrupts: Vec<VgicInt>,
    pub inner_mut: VgicCpuPrivMut,
}

/// The mathematical value of a [`VgicCpuPriv`].
pub struct CpuPrivView {
    pub interrupts: Seq<VgicInt>,
    pub curr_lrs: Seq<u16>,
    pub sgis: Seq<Sgis>,
    pub pend_list: Seq<u16>,
    pub act_list: Seq<u16>,
}

impl CpuPrivView {
    /// The tables have their sizes, each private interrupt sits at its id, and
    /// the lists hold interrupt ids.
    pub open spec fn wf(self) -> bool {
        &&& self.interrupts.len() == GIC_PRIVINT_NUM
        &&& forall|i: int|
            0 <= i < GIC_PRIVINT_NUM ==> (#[trigger] self.interrupts[i]).wf() && self.interrupts[i].id == i
        &&& self.curr_lrs.len() == GIC_LIST_REGS_NUM
        &&& self.sgis.len() == GIC_SGIS_NUM
        &&& forall|i: int| 0 <= i < self.pend_list.len() ==> #[trigger] self.pend_list[i] < GIC_INTS_MAX
        &&& forall|i: int| 0 <= i < self.act_list.len() ==> #[trigger] self.act_list[i] < GIC_INTS_MAX
    }
}

impl View for VgicCpuPriv {
    type V = CpuPrivView;

    open spec fn view(&self) -> CpuPrivView {
        CpuPrivView {
            interrupts: self.interrupts@,
            curr_lrs: self.inner_mut.curr_lrs@,
            sgis: self.inner_mut.sgis@,
            pend_list: self.inner_mut.pend_list@,
            act_list: self.inner_mut.act_list@,
        }
    }
}

/// Removes the first occurrence of `id` from `list`, if there is one.
pub fn queue_remove(list: &mut VecDeque<u16>, id: u16)
    ensures
        final(list)@ == old(list)@.remove_value(id),
{
    let n = list.len();
    let mut k: usize = 0;
    while k < n
        invariant
            *list == *old(list),
            n == list@.len(),
            k <= n,
            forall|j: int| 0 <= j < k ==> list@[j] != id,
        decreases n - k,
    {
        if list[k] == id {
            proof {
                list@.index_of_first_ensures(id);
            }
            list.remove(k);
            return;
        }
        k = k + 1;
    }
    proof {
        list@.index_of_first_ensures(id);
    }
}

impl VgicCpuPrivMut {
    /// Appends the interrupt to the pending list.
    pub fn pend_list_push(&mut self, interrupt: &VgicInt)
        ensures
            final(self).pend_list@ == old(self).pend_list@.push(interrupt.id),
            final(self).act_list == old(self).act_list,
            final(self).curr_lrs == old(self).curr_lrs,
            final(self).sgis == old(self).sgis,
    {
        self.pend_list.push_back(interrupt.id());
    }

    /// Takes the interrupt off the pending list, if it is on it.
    pub fn pend_list_remove(&mut self, interrupt: &VgicInt)
        ensures
            final(self).pend_list@ == old(self).pend_list@.remove_value(interrupt.id),
            final(self).act_list == old(self).act_list,
            final(self).curr_lrs == old(self).curr_lrs,
            final(self).sgis == old(self).sgis,
    {
        queue_remove(&mut self.pend_list, interrupt.id());
    }

    /// Appends the interrupt to the active list.
    pub fn act_list_push(&mut self, interrupt: &VgicInt)
        ensures
            final(self).act_list@ == old(self).act_list@.push(interrupt.id),
            final(self).pend_list == old(self).pend_list,
            final(self).curr_lrs == old(self).curr_lrs,
            final(self).sgis == old(self).sgis,
    {
        self.act_list.push_back(interrupt.id());
    }

    /// Takes the interrupt off the active list, if it is on it.
    pub fn act_list_remove(&mut self, interrupt: &VgicInt)
        ensures
            final(self).act_list@ == old(self).act_list@.remove_value(interrupt.id),
            final(self).pend_list == old(self).pend_list,
            final(self).curr_lrs == old(self).curr_lrs,
            final(self).sgis == old(self).sgis,
    {
        queue_remove(&mut self.act_list, interrupt.id());
    }
}

impl VgicCpuPriv {
    /// The state is well formed when its view is.
    pub open spec fn wf(&self) -> bool {
        self@.wf()
    }

    /// A bank without interrupts yet: every list register slot names
    /// interrupt 0, no software-generated interrupt has a source, and both
    /// lists are empty.
    pub fn default() -> (p: VgicCpuPriv)
        ensures
            p@.interrupts.len() == 0,
            p@.curr_lrs.len() == GIC_LIST_REGS_NUM,
            forall|i: int| 0 <= i < GIC_LIST_REGS_NUM ==> p@.curr_lrs[i] == 0,
            p@.sgis.len() == GIC_SGIS_NUM,
            forall|i: int| 0 <= i < GIC_SGIS_NUM ==> p@.sgis[i] == (Sgis { pend: 0, act: 0 }),
            p@.pend_list.len() == 0,
            p@.act_list.len() == 0,
    {
        let mut curr_lrs: Vec<u16> = Vec::new();
        let mut i: usize = 0;
        while i < GIC_LIST_REGS_NUM
            invariant
                i <= GIC_LIST_REGS_NUM,
                curr_lrs@.len() == i,
                forall|j: int| 0 <= j < i ==> curr_lrs@[j] == 0,
            decreases GIC_LIST_REGS_NUM - i,
        {
            curr_lrs.push(0);
            i = i + 1;
        }
        let mut sgis: Vec<Sgis> = Vec::new();
        let mut k: usize = 0;
        while k < GIC_SGIS_NUM
            invariant
                k <= GIC_SGIS_NUM,
                sgis@.len() == k,
                forall|j: int| 0 <= j < k ==> sgis@[j] == (Sgis { pend: 0, act: 0 }),
            decreases GIC_SGIS_NUM - k,
        {
            sgis.push(Sgis { pend: 0, act: 0 });
            k = k + 1;
        }
        VgicCpuPriv {
            interrupts: Vec::new(),
            inner_mut: VgicCpuPrivMut { curr_lrs, sgis, pend_list: VecDeque::new(), act_list: VecDeque::new() },
        }
    }
}

} // verus!
