//! The virtual distributor and the virtual interrupt controller of one
//! machine, with their mathematical model.

use vstd::prelude::*;
use core::ops::Range;
use crate::config::VgicGlobal;
use crate::consts::{
    GICD_TYPER_CPUNUM_MSK,
    GICD_TYPER_CPUNUM_OFF,
    GIC_INTS_MAX,
    GIC_LIST_REGS_NUM,
    GIC_PRIVINT_NUM,
    GIC_SGIS_NUM,
    GIC_SPI_MAX,
    GIC_TARGETS_MAX,
};
use crate::effects::Effect;
use crate::gich::{GicHypervisorInterface, GichView};
use crate::lists::{
    lemma_lists_frame,
    lemma_set_curr_lr_lists,
    lemma_set_int_lists,
    lemma_set_sgis_lists,
    lemma_update_int_list_lists,
};
use crate::occupancy::{
    lemma_set_int_occ,
    lemma_set_sgis_occ,
    lemma_update_int_list_occ,
    occ_inv,
};
use crate::vcpu::Vcpu;
use crate::vint::{vgic_owns, VgicInt};
use crate::vint_private::{CpuPrivView, Sgis, VgicCpuPriv};

verus! {

/// How many interrupt ids the passthrough bitmap covers.
pub const INT_BITMAP_BITS: usize = 4096;

/// The state of the virtual distributor: its control word, the type and
/// identification words shown to the guest, and the shared interrupts.
pub struct Vgicd {
    pub ctlr: u32,
    pub typer: u32,
    pub iidr: u32,
    pub interrupts: Vec<VgicInt>,
}

/// The virtual interrupt controller of one machine.
pub struct Vgic {
    /// Which interrupt ids are passed through to the machine.
    pub int_bitmap: Vec<bool>,
    /// The interrupt ids of the machine's emulated devices.
    pub emu_irq_map: Vec<u64>,
    /// The guest addresses that the distributor claims.
    pub address_range: Range<usize>,
    pub vgicd: Vgicd,
    /// The private state of each virtual CPU, by its index.
    pub cpu_priv: Vec<VgicCpuPriv>,
}

/// The mathematical value of a [`Vgic`].
pub struct VgicView {
    pub int_bitmap: Seq<bool>,
    pub emu_irq_map: Seq<u64>,
    pub base: usize,
    pub end: usize,
    pub ctlr: u32,
    pub typer: u32,
    pub iidr: u32,
    /// The shared interrupts; interrupt `id` sits at `id - 32`.
    pub spis: Seq<VgicInt>,
    pub cpus: Seq<CpuPrivView>,
}

impl VgicView {
    /// Every table has its size and every interrupt sits at its id.
    pub open spec fn wf(self) -> bool {
        &&& self.int_bitmap.len() == INT_BITMAP_BITS
        &&& self.spis.len() == GIC_SPI_MAX
        &&& forall|i: int|
            0 <= i < GIC_SPI_MAX ==> (#[trigger] self.spis[i]).wf() && self.spis[i].id == i + GIC_PRIVINT_NUM
        &&& forall|c: int| 0 <= c < self.cpus.len() ==> (#[trigger] self.cpus[c]).wf()
    }

    /// Well formed, and of every interrupt the list flags say what its
    /// state's bits say.
    pub open spec fn inv(self) -> bool {
        &&& self.wf()
        &&& forall|i: int| 0 <= i < GIC_SPI_MAX ==> (#[trigger] self.spis[i]).flags_agree()
        &&& forall|c: int, i: int|
            0 <= c < self.cpus.len() && 0 <= i < GIC_PRIVINT_NUM ==> (
            #[trigger] self.cpus[c].interrupts[i]).flags_agree()
    }

    /// Well formed, and of every interrupt but `int_id` as virtual CPU
    /// `vcpu_id` sees it the list flags say what its state's bits say.
    pub open spec fn inv_except(self, vcpu_id: int, int_id: int) -> bool {
        &&& self.wf()
        &&& forall|i: int|
            0 <= i < GIC_SPI_MAX && i + GIC_PRIVINT_NUM != int_id ==> (#[trigger] self.spis[i]).flags_agree()
        &&& forall|c: int, i: int|
            0 <= c < self.cpus.len() && 0 <= i < GIC_PRIVINT_NUM && !(c == vcpu_id && i == int_id) ==> (
            #[trigger] self.cpus[c].interrupts[i]).flags_agree()
    }

    /// Whether `vcpu` is a virtual CPU of this controller on a core that a
    /// target mask can name.
    pub open spec fn valid_vcpu(self, vcpu: Vcpu) -> bool {
        vcpu.id < self.cpus.len() && vcpu.phys_id < GIC_TARGETS_MAX
    }

    /// The interrupt `int_id` as virtual CPU `vcpu_id` sees it: a private id
    /// names an interrupt of its own bank, a shared id the shared interrupt.
    pub open spec fn get_int(self, vcpu_id: int, int_id: int) -> Option<VgicInt> {
        if 0 <= int_id < GIC_PRIVINT_NUM {
            if int_id < self.cpus[vcpu_id].interrupts.len() {
                Some(self.cpus[vcpu_id].interrupts[int_id])
            } else {
                None
            }
        } else if GIC_PRIVINT_NUM <= int_id < GIC_INTS_MAX {
            if int_id - GIC_PRIVINT_NUM < self.spis.len() {
                Some(self.spis[int_id - GIC_PRIVINT_NUM])
            } else {
                None
            }
        } else {
            None
        }
    }

    /// The interrupt `int_id` as virtual CPU `vcpu_id` sees it, for an id
    /// below 1024.
    pub open spec fn irq(self, vcpu_id: int, int_id: int) -> VgicInt {
        if int_id < GIC_PRIVINT_NUM {
            self.cpus[vcpu_id].interrupts[int_id]
        } else {
            self.spis[int_id - GIC_PRIVINT_NUM]
        }
    }

    /// The controller with `interrupt` stored at its id, in the bank of
    /// `vcpu_id` where the id is private.
    pub open spec fn set_int(self, vcpu_id: int, interrupt: VgicInt) -> VgicView {
        if interrupt.id < GIC_PRIVINT_NUM {
            VgicView {
                cpus: self.cpus.update(
                    vcpu_id,
                    CpuPrivView {
                        interrupts: self.cpus[vcpu_id].interrupts.update(interrupt.id as int, interrupt),
                        ..self.cpus[vcpu_id]
                    },
                ),
                ..self
            }
        } else {
            VgicView { spis: self.spis.update(interrupt.id - GIC_PRIVINT_NUM, interrupt), ..self }
        }
    }

    /// The controller with the occupant of list register `idx` of `vcpu_id`
    /// recorded as `val`.
    pub open spec fn set_curr_lr(self, vcpu_id: int, idx: int, val: u16) -> VgicView {
        VgicView {
            cpus: self.cpus.update(
                vcpu_id,
                CpuPrivView { curr_lrs: self.cpus[vcpu_id].curr_lrs.update(idx, val), ..self.cpus[vcpu_id] },
            ),
            ..self
        }
    }

    /// The controller with the sources of software-generated interrupt `idx`
    /// of `vcpu_id` replaced.
    pub open spec fn set_sgis(self, vcpu_id: int, idx: int, sgis: Sgis) -> VgicView {
        VgicView {
            cpus: self.cpus.update(
                vcpu_id,
                CpuPrivView { sgis: self.cpus[vcpu_id].sgis.update(idx, sgis), ..self.cpus[vcpu_id] },
            ),
            ..self
        }
    }

    /// The pending sources of software-generated interrupt `idx` of `vcpu_id`.
    pub open spec fn sgis_pend(self, vcpu_id: int, idx: int) -> u8 {
        self.cpus[vcpu_id].sgis[idx].pend
    }

    /// The active source of software-generated interrupt `idx` of `vcpu_id`.
    pub open spec fn sgis_act(self, vcpu_id: int, idx: int) -> u8 {
        self.cpus[vcpu_id].sgis[idx].act
    }

    /// The controller after the lists were brought in line with the state of
    /// interrupt `int_id`, as far as the virtual CPUs `0..upto` and `vcpu_id`
    /// go; see [`followed`].
    pub open spec fn follow_lists(self, vcpu_id: int, int_id: int, upto: int) -> VgicView {
        let i = self.irq(vcpu_id, int_id);
        let shared = int_id >= GIC_PRIVINT_NUM;
        VgicView {
            cpus: Seq::new(
                self.cpus.len(),
                |c: int|
                    if c == vcpu_id || c < upto {
                        CpuPrivView {
                            pend_list: followed(
                                self.cpus[c].pend_list,
                                i.id,
                                i.inner.state.pending(),
                                i.inner.in_pend,
                                c == vcpu_id,
                                shared,
                            ),
                            act_list: followed(
                                self.cpus[c].act_list,
                                i.id,
                                i.inner.state.active(),
                                i.inner.in_act,
                                c == vcpu_id,
                                shared,
                            ),
                            ..self.cpus[c]
                        }
                    } else {
                        self.cpus[c]
                    },
            ),
            ..self
        }
    }

    /// The controller after the lists were brought in line with the state of
    /// interrupt `int_id` on behalf of virtual CPU `vcpu_id`: the interrupt
    /// joins the end of the pending list of `vcpu_id` when its pending bit is
    /// set and it is not flagged as listed; it leaves the list when the bit
    /// is clear, and a shared interrupt then leaves the pending list of every
    /// other virtual CPU too. The same holds of the active list and bit. The
    /// flags then say what the bits say.
    pub open spec fn update_int_list(self, vcpu_id: int, int_id: int) -> VgicView {
        let i = self.irq(vcpu_id, int_id);
        self.follow_lists(vcpu_id, int_id, self.cpus.len() as int).set_int(
            vcpu_id,
            i.with_in_pend(i.inner.state.pending()).with_in_act(i.inner.state.active()),
        )
    }

    /// The interrupt at the head of the pending (`is_pend`) or active list of
    /// `vcpu_id`.
    pub open spec fn int_list_head(self, vcpu_id: int, is_pend: bool) -> Option<VgicInt> {
        let list = if is_pend {
            self.cpus[vcpu_id].pend_list
        } else {
            self.cpus[vcpu_id].act_list
        };
        if list.len() > 0 {
            self.get_int(vcpu_id, list[0] as int)
        } else {
            None
        }
    }
}

/// A list after it followed a bit of the state of interrupt `id`: on the
/// list of the virtual CPU that acts (`here`) the id joins the end when the
/// bit is set and the interrupt is not flagged as listed, and its first
/// occurrence leaves when the bit is clear; on the list of another virtual
/// CPU the first occurrence of a shared interrupt's id leaves when the bit is
/// clear.
pub open spec fn followed(list: Seq<u16>, id: u16, bit: bool, flag: bool, here: bool, shared: bool) -> Seq<
    u16,
> {
    if here {
        if bit && !flag {
            list.push(id)
        } else if !bit {
            list.remove_value(id)
        } else {
            list
        }
    } else if shared && !bit {
        list.remove_value(id)
    } else {
        list
    }
}

/// The controller, the register bank of the core it is served on, and the
/// log of requests to the outside: what the engine's operations transform.
pub struct Sys {
    pub vgic: VgicView,
    pub gich: GichView,
    pub fx: Seq<Effect>,
}

impl Sys {
    /// Controller and register bank are well formed.
    pub open spec fn wf(self) -> bool {
        self.vgic.wf() && self.gich.wf()
    }

    /// The controller's invariant holds and the register bank is well formed.
    pub open spec fn inv(self) -> bool {
        self.vgic.inv() && self.gich.wf()
    }

    /// The system with the controller replaced.
    pub open spec fn with_vgic(self, vgic: VgicView) -> Sys {
        Sys { vgic, ..self }
    }

    /// The system with the register bank replaced.
    pub open spec fn with_gich(self, gich: GichView) -> Sys {
        Sys { gich, ..self }
    }

    /// The system with one more request in the log.
    pub open spec fn emit(self, e: Effect) -> Sys {
        Sys { fx: self.fx.push(e), ..self }
    }
}

/// The system that the three pieces make up.
pub open spec fn sys_of(vgic: &Vgic, gich: &GicHypervisorInterface, fx: &Vec<Effect>) -> Sys {
    Sys { vgic: vgic@, gich: gich@, fx: fx@ }
}

impl View for Vgic {
    type V = VgicView;

    open spec fn view(&self) -> VgicView {
        VgicView {
            int_bitmap: self.int_bitmap@,
            emu_irq_map: self.emu_irq_map@,
            base: self.address_range.start,
            end: self.address_range.end,
            ctlr: self.vgicd.ctlr,
            typer: self.vgicd.typer,
            iidr: self.vgicd.iidr,
            spis: self.vgicd.interrupts@,
            cpus: Seq::new(self.cpu_priv@.len(), |i: int| self.cpu_priv@[i]@),
        }
    }
}

/// Bringing the lists in line with the state of an interrupt keeps the
/// controller well formed and touches nothing but the lists.
pub proof fn lemma_follow_lists_wf(v: VgicView, vcpu_id: int, int_id: int, upto: int)
    requires
        v.wf(),
        0 <= vcpu_id < v.cpus.len(),
        0 <= int_id < GIC_INTS_MAX,
    ensures
        v.follow_lists(vcpu_id, int_id, upto).wf(),
        v.follow_lists(vcpu_id, int_id, upto).cpus.len() == v.cpus.len(),
        v.follow_lists(vcpu_id, int_id, upto).spis == v.spis,
        forall|c: int|
            0 <= c < v.cpus.len() ==> (#[trigger] v.follow_lists(vcpu_id, int_id, upto).cpus[c]).interrupts
                == v.cpus[c].interrupts && v.follow_lists(vcpu_id, int_id, upto).cpus[c].sgis == v.cpus[c].sgis
                && v.follow_lists(vcpu_id, int_id, upto).cpus[c].curr_lrs == v.cpus[c].curr_lrs,
        forall|c: int, i: int| #[trigger] v.inv_except(c, i) ==> v.follow_lists(vcpu_id, int_id, upto).inv_except(c, i),
{
    let w = v.follow_lists(vcpu_id, int_id, upto);
    let id = v.irq(vcpu_id, int_id).id;
    assert(v.cpus[vcpu_id].wf());
    assert(id < GIC_INTS_MAX) by {
        if int_id < GIC_PRIVINT_NUM {
            assert(v.cpus[vcpu_id].interrupts[int_id].wf());
        } else {
            assert(v.spis[int_id - GIC_PRIVINT_NUM].wf());
        }
    }
    assert forall|c: int| 0 <= c < w.cpus.len() implies (#[trigger] w.cpus[c]).wf() by {
        assert(v.cpus[c].wf());
        lemma_remove_value_bound(v.cpus[c].pend_list, id);
        lemma_remove_value_bound(v.cpus[c].act_list, id);
    }
    assert forall|c: int, i: int| #[trigger] v.inv_except(c, i) implies w.inv_except(c, i) by {
        assert forall|k: int, j: int|
            0 <= k < w.cpus.len() && 0 <= j < GIC_PRIVINT_NUM && !(k == c && j == i) implies (
        #[trigger] w.cpus[k].interrupts[j]).flags_agree() by {
            assert(w.cpus[k].interrupts[j] == v.cpus[k].interrupts[j]);
        }
    }
}

/// Removing a value from a list of interrupt ids leaves a list of interrupt ids.
pub proof fn lemma_remove_value_bound(s: Seq<u16>, v: u16)
    requires
        forall|i: int| 0 <= i < s.len() ==> #[trigger] s[i] < GIC_INTS_MAX,
    ensures
        forall|i: int| 0 <= i < s.remove_value(v).len() ==> #[trigger] s.remove_value(v)[i] < GIC_INTS_MAX,
        s.remove_value(v).len() <= s.len(),
{
    s.index_of_first_ensures(v);
}

/// The type word that a distributor for `cpu_num` virtual CPUs shows: the
/// interrupt-lines field of the physical distributor's type word, joined with
/// what the CPU count, shifted to its field, leaves under the same mask.
pub open spec fn spec_vgicd_typer(hw_typer: u32, cpu_num: usize) -> u32 {
    let shifted: usize = (((cpu_num - 1) as usize) << GICD_TYPER_CPUNUM_OFF);
    (hw_typer & (GICD_TYPER_CPUNUM_MSK as u32)) | ((shifted & GICD_TYPER_CPUNUM_MSK) as u32)
}

impl Vgicd {
    /// A distributor without interrupts yet. It is disabled, reports the
    /// interrupt lines of the physical distributor, and identifies itself as
    /// the physical one does.
    pub fn new(cpu_num: usize, vgg: &VgicGlobal) -> (d: Vgicd)
        requires
            cpu_num >= 1,
        ensures
            d.ctlr == 0b10,
            d.typer == spec_vgicd_typer(vgg.typer, cpu_num),
            d.iidr == vgg.iidr,
            d.interrupts@.len() == 0,
    {
        let shifted: usize = (cpu_num - 1) << GICD_TYPER_CPUNUM_OFF;
        assert(shifted & 0b11111 <= 0b11111) by (bit_vector);
        Vgicd {
            ctlr: 0b10,
            typer: (vgg.typer & (GICD_TYPER_CPUNUM_MSK as u32)) | ((shifted & GICD_TYPER_CPUNUM_MSK) as u32),
            iidr: vgg.iidr,
            interrupts: Vec::new(),
        }
    }
}

impl Vgic {
    /// The controller is well formed when its view is.
    pub open spec fn wf(&self) -> bool {
        self@.wf()
    }

    /// The controller's invariant is that of its view.
    pub open spec fn inv(&self) -> bool {
        self@.inv()
    }

    /// A controller that claims `length` bytes from `base` and has neither
    /// interrupts nor virtual CPUs yet.
    pub fn new(base: usize, length: usize, cpu_num: usize, vgg: &VgicGlobal) -> (v: Vgic)
        requires
            base + length <= usize::MAX,
            cpu_num >= 1,
        ensures
            v@.base == base,
            v@.end == base + length,
            v@.ctlr == 0b10,
            v@.typer == spec_vgicd_typer(vgg.typer, cpu_num),
            v@.iidr == vgg.iidr,
            v@.spis.len() == 0,
            v@.cpus.len() == 0,
            v@.emu_irq_map.len() == 0,
            v@.int_bitmap.len() == INT_BITMAP_BITS,
            forall|i: int| 0 <= i < INT_BITMAP_BITS ==> !v@.int_bitmap[i],
    {
        let mut int_bitmap: Vec<bool> = Vec::new();
        let mut i: usize = 0;
        while i < INT_BITMAP_BITS
            invariant
                i <= INT_BITMAP_BITS,
                int_bitmap@.len() == i,
                forall|j: int| 0 <= j < i ==> !int_bitmap@[j],
            decreases INT_BITMAP_BITS - i,
        {
            int_bitmap.push(false);
            i = i + 1;
        }
        Vgic {
            int_bitmap,
            emu_irq_map: Vec::new(),
            address_range: base..base + length,
            vgicd: Vgicd::new(cpu_num, vgg),
            cpu_priv: Vec::new(),
        }
    }

    /// The guest addresses that the distributor claims.
    pub fn address_range(&self) -> (r: Range<usize>)
        ensures
            r.start == self@.base,
            r.end == self@.end,
    {
        self.address_range.start..self.address_range.end
    }

    /// Marks interrupt `idx` as passed through to the machine.
    pub fn set_bitmap(&mut self, idx: usize)
        requires
            old(self)@.int_bitmap.len() == INT_BITMAP_BITS,
            idx < INT_BITMAP_BITS,
        ensures
            final(self)@ == (VgicView { int_bitmap: old(self)@.int_bitmap.update(idx as int, true), ..old(self)@ }),
            old(self).inv() ==> final(self).inv(),
            old(self)@.lists_inv() ==> final(self)@.lists_inv(),
    {
        self.int_bitmap[idx] = true;
        assert(self@.cpus =~= old(self)@.cpus);
        proof {
            lemma_lists_frame(old(self)@, self@);
        }
    }

    /// Records `irq_id` as the interrupt of an emulated device.
    pub fn set_emu_irq_map(&mut self, irq_id: u64)
        ensures
            final(self)@ == (VgicView { emu_irq_map: old(self)@.emu_irq_map.push(irq_id), ..old(self)@ }),
            old(self).inv() ==> final(self).inv(),
            old(self)@.lists_inv() ==> final(self)@.lists_inv(),
    {
        self.emu_irq_map.push(irq_id);
        assert(self@.cpus =~= old(self)@.cpus);
        proof {
            lemma_lists_frame(old(self)@, self@);
        }
    }

    /// Whether interrupt `idx` is passed through to the machine.
    pub fn has_interrupt(&self, idx: usize) -> (r: bool)
        requires
            self@.int_bitmap.len() == INT_BITMAP_BITS,
            idx < INT_BITMAP_BITS,
        ensures
            r == self@.int_bitmap[idx as int],
    {
        self.int_bitmap[idx]
    }

    /// Whether interrupt `idx` belongs to an emulated device of the machine.
    pub fn emu_has_interrupt(&self, idx: usize) -> (r: bool)
        ensures
            r == self@.emu_irq_map.contains(idx as u64),
    {
        let n = self.emu_irq_map.len();
        let mut k: usize = 0;
        while k < n
            invariant
                k <= n,
                n == self.emu_irq_map@.len(),
                forall|j: int| 0 <= j < k ==> self.emu_irq_map@[j] != idx as u64,
            decreases n - k,
        {
            if self.emu_irq_map[k] == idx as u64 {
                return true;
            }
            k = k + 1;
        }
        false
    }

    /// Writes the distributor's control word.
    pub fn set_vgicd_ctlr(&mut self, ctlr: u32)
        ensures
            final(self)@ == (VgicView { ctlr, ..old(self)@ }),
            old(self).inv() ==> final(self).inv(),
            old(self)@.lists_inv() ==> final(self)@.lists_inv(),
    {
        self.vgicd.ctlr = ctlr;
        assert(self@.cpus =~= old(self)@.cpus);
        proof {
            lemma_lists_frame(old(self)@, self@);
        }
    }

    /// The distributor's control word.
    pub fn vgicd_ctlr(&self) -> (r: u32)
        ensures
            r == self@.ctlr,
    {
        self.vgicd.ctlr
    }

    /// The type word that the distributor shows.
    pub fn vgicd_typer(&self) -> (r: u32)
        ensures
            r == self@.typer,
    {
        self.vgicd.typer
    }

    /// The identification word that the distributor shows.
    pub fn vgicd_iidr(&self) -> (r: u32)
        ensures
            r == self@.iidr,
    {
        self.vgicd.iidr
    }

    /// The number of virtual CPUs the controller serves.
    pub fn cpu_num(&self) -> (n: usize)
        ensures
            n == self@.cpus.len(),
    {
        self.cpu_priv.len()
    }

    /// The id recorded as the occupant of list register `idx` of `cpu_id`.
    pub fn cpu_priv_curr_lrs(&self, cpu_id: usize, idx: usize) -> (r: u16)
        requires
            self.wf(),
            cpu_id < self@.cpus.len(),
            idx < GIC_LIST_REGS_NUM,
        ensures
            r == self@.cpus[cpu_id as int].curr_lrs[idx as int],
    {
        assert(self@.cpus[cpu_id as int].wf());
        self.cpu_priv[cpu_id].inner_mut.curr_lrs[idx]
    }

    /// The pending sources of software-generated interrupt `idx` of `cpu_id`.
    pub fn cpu_priv_sgis_pend(&self, cpu_id: usize, idx: usize) -> (r: u8)
        requires
            self.wf(),
            cpu_id < self@.cpus.len(),
            idx < GIC_SGIS_NUM,
        ensures
            r == self@.sgis_pend(cpu_id as int, idx as int),
    {
        assert(self@.cpus[cpu_id as int].wf());
        self.cpu_priv[cpu_id].inner_mut.sgis[idx].pend
    }

    /// The active source of software-generated interrupt `idx` of `cpu_id`.
    pub fn cpu_priv_sgis_act(&self, cpu_id: usize, idx: usize) -> (r: u8)
        requires
            self.wf(),
            cpu_id < self@.cpus.len(),
            idx < GIC_SGIS_NUM,
        ensures
            r == self@.sgis_act(cpu_id as int, idx as int),
    {
        assert(self@.cpus[cpu_id as int].wf());
        self.cpu_priv[cpu_id].inner_mut.sgis[idx].act
    }

    /// Records `val` as the occupant of list register `idx` of `cpu_id`.
    pub fn set_cpu_priv_curr_lrs(&mut self, cpu_id: usize, idx: usize, val: u16)
        requires
            old(self).wf(),
            cpu_id < old(self)@.cpus.len(),
            idx < GIC_LIST_REGS_NUM,
        ensures
            final(self)@ == old(self)@.set_curr_lr(cpu_id as int, idx as int, val),
            final(self).wf(),
            final(self)@.cpus.len() == old(self)@.cpus.len(),
            old(self).inv() ==> final(self).inv(),
            forall|c: int, i: int| #[trigger] old(self)@.inv_except(c, i) ==> final(self)@.inv_except(c, i),
            old(self)@.lists_inv() ==> final(self)@.lists_inv(),
    {
        proof {
            if self@.lists_inv() {
                lemma_set_curr_lr_lists(self@, cpu_id as int, idx as int, val);
            }
        }
        assert(self@.cpus[cpu_id as int].wf());
        self.cpu_priv[cpu_id].inner_mut.curr_lrs[idx] = val;
        assert(self@.cpus =~= old(self)@.set_curr_lr(cpu_id as int, idx as int, val).cpus);
    }

    /// Replaces the pending sources of software-generated interrupt `idx` of
    /// `cpu_id`.
    pub fn set_cpu_priv_sgis_pend(&mut self, cpu_id: usize, idx: usize, pend: u8)
        requires
            old(self).wf(),
            cpu_id < old(self)@.cpus.len(),
            idx < GIC_SGIS_NUM,
        ensures
            final(self)@ == old(self)@.set_sgis(
                cpu_id as int,
                idx as int,
                Sgis { pend, act: old(self)@.sgis_act(cpu_id as int, idx as int) },
            ),
            final(self).wf(),
            final(self)@.cpus.len() == old(self)@.cpus.len(),
            old(self).inv() ==> final(self).inv(),
            forall|c: int, i: int| #[trigger] old(self)@.inv_except(c, i) ==> final(self)@.inv_except(c, i),
            old(self)@.lists_inv() ==> final(self)@.lists_inv(),
            forall|vcpu: Vcpu|
                vcpu.id == cpu_id && #[trigger] occ_inv(old(self)@, vcpu) ==> occ_inv(final(self)@, vcpu),
    {
        proof {
            assert forall|vcpu: Vcpu| vcpu.id == cpu_id && #[trigger] occ_inv(self@, vcpu) implies occ_inv(
                self@.set_sgis(cpu_id as int, idx as int, Sgis { pend, act: self@.sgis_act(cpu_id as int, idx as int) }),
                vcpu,
            ) by {
                lemma_set_sgis_occ(self@, vcpu, idx as int, Sgis { pend, act: self@.sgis_act(cpu_id as int, idx as int) });
            }
            if self@.lists_inv() {
                lemma_set_sgis_lists(
                    self@,
                    cpu_id as int,
                    idx as int,
                    Sgis { pend, act: self@.sgis_act(cpu_id as int, idx as int) },
                );
            }
        }
        assert(self@.cpus[cpu_id as int].wf());
        self.cpu_priv[cpu_id].inner_mut.sgis[idx].pend = pend;
        assert(self@.cpus =~= old(self)@.set_sgis(
            cpu_id as int,
            idx as int,
            Sgis { pend, act: old(self)@.sgis_act(cpu_id as int, idx as int) },
        ).cpus);
    }

    /// Replaces the active source of software-generated interrupt `idx` of
    /// `cpu_id`.
    pub fn set_cpu_priv_sgis_act(&mut self, cpu_id: usize, idx: usize, act: u8)
        requires
            old(self).wf(),
            cpu_id < old(self)@.cpus.len(),
            idx < GIC_SGIS_NUM,
        ensures
            final(self)@ == old(self)@.set_sgis(
                cpu_id as int,
                idx as int,
                Sgis { pend: old(self)@.sgis_pend(cpu_id as int, idx as int), act },
            ),
            final(self).wf(),
            final(self)@.cpus.len() == old(self)@.cpus.len(),
            old(self).inv() ==> final(self).inv(),
            forall|c: int, i: int| #[trigger] old(self)@.inv_except(c, i) ==> final(self)@.inv_except(c, i),
            old(self)@.lists_inv() ==> final(self)@.lists_inv(),
            forall|vcpu: Vcpu|
                vcpu.id == cpu_id && #[trigger] occ_inv(old(self)@, vcpu) ==> occ_inv(final(self)@, vcpu),
    {
        proof {
            assert forall|vcpu: Vcpu| vcpu.id == cpu_id && #[trigger] occ_inv(self@, vcpu) implies occ_inv(
                self@.set_sgis(cpu_id as int, idx as int, Sgis { pend: self@.sgis_pend(cpu_id as int, idx as int), act }),
                vcpu,
            ) by {
                lemma_set_sgis_occ(self@, vcpu, idx as int, Sgis { pend: self@.sgis_pend(cpu_id as int, idx as int), act });
            }
            if self@.lists_inv() {
                lemma_set_sgis_lists(
                    self@,
                    cpu_id as int,
                    idx as int,
                    Sgis { pend: self@.sgis_pend(cpu_id as int, idx as int), act },
                );
            }
        }
        assert(self@.cpus[cpu_id as int].wf());
        self.cpu_priv[cpu_id].inner_mut.sgis[idx].act = act;
        assert(self@.cpus =~= old(self)@.set_sgis(
            cpu_id as int,
            idx as int,
            Sgis { pend: old(self)@.sgis_pend(cpu_id as int, idx as int), act },
        ).cpus);
    }

    /// Looks up interrupt `int_id` as `vcpu` sees it.
    pub fn get_int(&self, vcpu: &Vcpu, int_id: usize) -> (r: Option<&VgicInt>)
        requires
            int_id < GIC_PRIVINT_NUM ==> vcpu.id < self@.cpus.len(),
        ensures
            match r {
                Some(i) => self@.get_int(vcpu.id as int, int_id as int) == Some(*i),
                None => self@.get_int(vcpu.id as int, int_id as int).is_none(),
            },
            self.wf() && int_id < GIC_INTS_MAX && vcpu.id < self@.cpus.len() ==> r.is_some() && *r.unwrap()
                == self@.irq(vcpu.id as int, int_id as int) && r.unwrap().wf() && r.unwrap().id == int_id,
    {
        if int_id < GIC_PRIVINT_NUM {
            let vcpu_id = vcpu.id;
            if int_id < self.cpu_priv[vcpu_id].interrupts.len() {
                Some(&self.cpu_priv[vcpu_id].interrupts[int_id])
            } else {
                None
            }
        } else if int_id < GIC_INTS_MAX {
            if int_id - GIC_PRIVINT_NUM < self.vgicd.interrupts.len() {
                Some(&self.vgicd.interrupts[int_id - GIC_PRIVINT_NUM])
            } else {
                None
            }
        } else {
            None
        }
    }

    /// A copy of interrupt `int_id` as virtual CPU `vcpu_id` sees it.
    pub fn irq(&self, vcpu_id: usize, int_id: usize) -> (r: VgicInt)
        requires
            self.wf(),
            vcpu_id < self@.cpus.len(),
            int_id < GIC_INTS_MAX,
        ensures
            r == self@.irq(vcpu_id as int, int_id as int),
            self@.get_int(vcpu_id as int, int_id as int) == Some(r),
            r.wf(),
            r.id == int_id,
            self.inv() ==> r.flags_agree(),
    {
        if int_id < GIC_PRIVINT_NUM {
            self.cpu_priv[vcpu_id].interrupts[int_id]
        } else {
            self.vgicd.interrupts[int_id - GIC_PRIVINT_NUM]
        }
    }

    /// Stores `interrupt` at its id, in the bank of `vcpu_id` where the id is
    /// private.
    pub fn set_int(&mut self, vcpu_id: usize, interrupt: VgicInt)
        requires
            old(self).wf(),
            vcpu_id < old(self)@.cpus.len(),
            interrupt.wf(),
        ensures
            final(self)@ == old(self)@.set_int(vcpu_id as int, interrupt),
            final(self).wf(),
            final(self)@.cpus.len() == old(self)@.cpus.len(),
            old(self).inv() && interrupt.flags_agree() ==> final(self).inv(),
            old(self)@.inv_except(vcpu_id as int, interrupt.id as int) ==> final(self)@.inv_except(
                vcpu_id as int,
                interrupt.id as int,
            ),
            old(self)@.inv_except(vcpu_id as int, interrupt.id as int) && interrupt.flags_agree()
                ==> final(self).inv(),
            old(self)@.lists_inv() && interrupt.inner.in_pend == old(self)@.irq(
                vcpu_id as int,
                interrupt.id as int,
            ).inner.in_pend && interrupt.inner.in_act == old(self)@.irq(
                vcpu_id as int,
                interrupt.id as int,
            ).inner.in_act ==> final(self)@.lists_inv(),
            forall|vcpu: Vcpu|
                vcpu.id == vcpu_id && #[trigger] occ_inv(old(self)@, vcpu) && (interrupt.inner.in_lr && vgic_owns(
                    vcpu,
                    interrupt,
                ) ==> old(self)@.irq(vcpu_id as int, interrupt.id as int).inner.in_lr && interrupt.inner.lr == old(
                    self,
                )@.irq(vcpu_id as int, interrupt.id as int).inner.lr && vgic_owns(
                    vcpu,
                    old(self)@.irq(vcpu_id as int, interrupt.id as int),
                )) ==> occ_inv(final(self)@, vcpu),
    {
        proof {
            assert forall|vcpu: Vcpu|
                vcpu.id == vcpu_id && #[trigger] occ_inv(self@, vcpu) && (interrupt.inner.in_lr && vgic_owns(
                    vcpu,
                    interrupt,
                ) ==> self@.irq(vcpu_id as int, interrupt.id as int).inner.in_lr && interrupt.inner.lr == self@.irq(
                    vcpu_id as int,
                    interrupt.id as int,
                ).inner.lr && vgic_owns(vcpu, self@.irq(vcpu_id as int, interrupt.id as int))) implies occ_inv(
                self@.set_int(vcpu_id as int, interrupt),
                vcpu,
            ) by {
                lemma_set_int_occ(self@, vcpu, interrupt);
            }
            if self@.lists_inv() && interrupt.inner.in_pend == self@.irq(
                vcpu_id as int,
                interrupt.id as int,
            ).inner.in_pend && interrupt.inner.in_act == self@.irq(vcpu_id as int, interrupt.id as int).inner.in_act {
                lemma_set_int_lists(self@, vcpu_id as int, interrupt);
            }
        }
        let id = interrupt.id as usize;
        if id < GIC_PRIVINT_NUM {
            assert(self@.cpus[vcpu_id as int].wf());
            self.cpu_priv[vcpu_id].interrupts[id] = interrupt;
        } else {
            self.vgicd.interrupts[id - GIC_PRIVINT_NUM] = interrupt;
        }
        assert(self@.cpus =~= old(self)@.set_int(vcpu_id as int, interrupt).cpus);
    }

    /// Brings the lists in line with the state of interrupt `int_id`, on
    /// behalf of virtual CPU `vcpu_id`.
    pub fn update_int_list(&mut self, vcpu_id: usize, int_id: usize)
        requires
            old(self).wf(),
            vcpu_id < old(self)@.cpus.len(),
            int_id < GIC_INTS_MAX,
        ensures
            final(self)@ == old(self)@.update_int_list(vcpu_id as int, int_id as int),
            final(self).wf(),
            final(self)@.cpus.len() == old(self)@.cpus.len(),
            final(self)@.irq(vcpu_id as int, int_id as int).flags_agree(),
            old(self)@.inv_except(vcpu_id as int, int_id as int) ==> final(self).inv(),
            old(self)@.lists_inv() ==> final(self)@.lists_inv(),
            forall|vcpu: Vcpu|
                vcpu.id == vcpu_id && #[trigger] occ_inv(old(self)@, vcpu) ==> occ_inv(final(self)@, vcpu),
    {
        proof {
            assert forall|vcpu: Vcpu| vcpu.id == vcpu_id && #[trigger] occ_inv(self@, vcpu) implies occ_inv(
                self@.update_int_list(vcpu_id as int, int_id as int),
                vcpu,
            ) by {
                lemma_update_int_list_occ(self@, vcpu, int_id as int);
            }
            if self@.lists_inv() {
                lemma_update_int_list_lists(self@, vcpu_id as int, int_id as int);
            }
            lemma_follow_lists_wf(self@, vcpu_id as int, int_id as int, self@.cpus.len() as int);
        }
        let mut interrupt = self.irq(vcpu_id, int_id);
        let pend = interrupt.state().is_pending();
        let act = interrupt.state().is_active();
        if pend && !interrupt.in_pend() {
            self.cpu_priv[vcpu_id].inner_mut.pend_list_push(&interrupt);
        } else if !pend {
            self.cpu_priv[vcpu_id].inner_mut.pend_list_remove(&interrupt);
        }
        if act && !interrupt.in_act() {
            self.cpu_priv[vcpu_id].inner_mut.act_list_push(&interrupt);
        } else if !act {
            self.cpu_priv[vcpu_id].inner_mut.act_list_remove(&interrupt);
        }
        assert(self@.cpus =~= old(self)@.follow_lists(vcpu_id as int, int_id as int, 0).cpus);
        if int_id >= GIC_PRIVINT_NUM && (!pend || !act) {
            let n = self.cpu_priv.len();
            let mut c: usize = 0;
            while c < n
                invariant
                    c <= n,
                    n == old(self)@.cpus.len(),
                    n == self.cpu_priv@.len(),
                    vcpu_id < n,
                    int_id >= GIC_PRIVINT_NUM,
                    interrupt == old(self)@.irq(vcpu_id as int, int_id as int),
                    pend == interrupt.inner.state.pending(),
                    act == interrupt.inner.state.active(),
                    self@ == old(self)@.follow_lists(vcpu_id as int, int_id as int, c as int),
                decreases n - c,
            {
                let ghost before = self@;
                if c != vcpu_id {
                    if !pend {
                        self.cpu_priv[c].inner_mut.pend_list_remove(&interrupt);
                    }
                    if !act {
                        self.cpu_priv[c].inner_mut.act_list_remove(&interrupt);
                    }
                }
                proof {
                    let target = old(self)@.follow_lists(vcpu_id as int, int_id as int, c + 1);
                    assert(before.cpus[c as int] == old(self)@.cpus[c as int] || c == vcpu_id);
                    assert forall|k: int| 0 <= k < n implies self@.cpus[k] == target.cpus[k] by {
                        if k != c {
                            assert(self@.cpus[k] == before.cpus[k]);
                        } else if c != vcpu_id {
                            assert(self@.cpus[k].pend_list =~= target.cpus[k].pend_list);
                            assert(self@.cpus[k].act_list =~= target.cpus[k].act_list);
                        }
                    }
                    assert(self@.cpus =~= target.cpus);
                }
                c = c + 1;
            }
        } else {
            assert(self@.cpus =~= old(self)@.follow_lists(
                vcpu_id as int,
                int_id as int,
                old(self)@.cpus.len() as int,
            ).cpus);
        }
        interrupt.inner.in_pend = pend;
        interrupt.inner.in_act = act;
        self.set_int(vcpu_id, interrupt);
    }

    /// The interrupt at the head of the pending (`is_pend`) or active list of
    /// `vcpu_id`.
    pub fn int_list_head(&self, vcpu_id: usize, is_pend: bool) -> (r: Option<VgicInt>)
        requires
            self.wf(),
            vcpu_id < self@.cpus.len(),
        ensures
            r == self@.int_list_head(vcpu_id as int, is_pend),
            r matches Some(i) ==> i.wf() && self@.irq(vcpu_id as int, i.id as int) == i,
    {
        if is_pend {
            if self.cpu_priv[vcpu_id].inner_mut.pend_list.len() > 0 {
                let id = self.cpu_priv[vcpu_id].inner_mut.pend_list[0];
                Some(self.irq(vcpu_id, id as usize))
            } else {
                None
            }
        } else {
            if self.cpu_priv[vcpu_id].inner_mut.act_list.len() > 0 {
                let id = self.cpu_priv[vcpu_id].inner_mut.act_list[0];
                Some(self.irq(vcpu_id, id as usize))
            } else {
                None
            }
        }
    }

    /// Whether interrupt `int_id`, an id below 1024, is enabled.
    pub fn get_enable(&self, vcpu: &Vcpu, int_id: usize) -> (r: bool)
        requires
            self.wf(),
            vcpu.id < self@.cpus.len(),
            int_id < GIC_INTS_MAX,
        ensures
            r == self@.irq(vcpu.id as int, int_id as int).inner.enabled,
    {
        self.get_int(vcpu, int_id).unwrap().enabled()
    }

    /// The configuration of interrupt `int_id`, an id below 1024.
    pub fn get_icfgr(&self, vcpu: &Vcpu, int_id: usize) -> (r: u8)
        requires
            self.wf(),
            vcpu.id < self@.cpus.len(),
            int_id < GIC_INTS_MAX,
        ensures
            r == self@.irq(vcpu.id as int, int_id as int).inner.cfg,
    {
        self.get_int(vcpu, int_id).unwrap().cfg()
    }

    /// The priority of interrupt `int_id`, an id below 1024.
    pub fn get_prio(&self, vcpu: &Vcpu, int_id: usize) -> (r: u8)
        requires
            self.wf(),
            vcpu.id < self@.cpus.len(),
            int_id < GIC_INTS_MAX,
        ensures
            r == self@.irq(vcpu.id as int, int_id as int).inner.prio,
    {
        self.get_int(vcpu, int_id).unwrap().prio()
    }

    /// The targets of interrupt `int_id`, an id below 1024.
    pub fn get_trgt(&self, vcpu: &Vcpu, int_id: usize) -> (r: u8)
        requires
            self.wf(),
            vcpu.id < self@.cpus.len(),
            int_id < GIC_INTS_MAX,
        ensures
            r == self@.irq(vcpu.id as int, int_id as int).inner.targets,
    {
        self.get_int(vcpu, int_id).unwrap().targets()
    }
}

} // verus!
