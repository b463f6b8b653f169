//! A register-level model of the GIC hypervisor interface of one physical
//! core: control and status words and the bank of list registers.
//!
//! The model holds what software reads and writes. A write to a list register
//! refreshes that register's bit in the two status words the way the
//! architecture derives them from the register's contents; everything else is
//! plain storage.

use vstd::prelude::*;
use crate::consts::{GICH_HCR_LRENPIE_BIT, GIC_INTS_MAX, GIC_LIST_REGS_NUM};

verus! {

/// The interrupt id held in a list register (bits 0..10).
pub open spec fn lr_id(lr: u32) -> u32 {
    lr & 0b1111111111
}

/// The source CPU field of a list register (bits 10..13).
pub open spec fn lr_cpuid(lr: u32) -> u32 {
    (lr >> 10) & 0b111
}

/// The priority field of a list register (bits 23..28).
pub open spec fn lr_prio(lr: u32) -> u32 {
    (lr >> 23) & 0b11111
}

/// The state field of a list register (bits 28..30).
pub open spec fn lr_state(lr: u32) -> u32 {
    (lr >> 28) & 0b11
}

/// Whether the maintenance (EOI) bit, bit 19, of a list register is set.
pub open spec fn lr_eoi(lr: u32) -> bool {
    lr & (1u32 << 19) != 0
}

/// Whether the hardware bit, bit 31, of a list register is set.
pub open spec fn lr_hw(lr: u32) -> bool {
    lr & (1u32 << 31) != 0
}

/// A list register counts as empty when its state is invalid and no
/// end-of-interrupt maintenance is outstanding for it.
pub open spec fn lr_is_empty(lr: u32) -> bool {
    lr_state(lr) == 0 && (lr_hw(lr) || !lr_eoi(lr))
}

/// A list register signals an end of interrupt when its state is invalid,
/// it is not hardware-backed and its maintenance bit is set.
pub open spec fn lr_has_eoi(lr: u32) -> bool {
    lr_state(lr) == 0 && !lr_hw(lr) && lr_eoi(lr)
}

/// Bit `i` of a 64-bit status word.
pub open spec fn status_bit(w: u64, i: int) -> bool {
    (w >> (i as u64)) & 1 == 1
}

/// The status word `w` with bit `i` replaced by `b`.
pub open spec fn with_status_bit(w: u64, i: int, b: bool) -> u64 {
    if b {
        w | (1u64 << (i as u64))
    } else {
        w & !(1u64 << (i as u64))
    }
}

/// The 32-bit word of bank `idx` of a 64-bit status word.
pub open spec fn status_word(w: u64, idx: usize) -> u32 {
    if idx == 0 {
        (w & 0xffff_ffff) as u32
    } else {
        (w >> 32) as u32
    }
}

/// Reads the 32-bit word of bank `idx` of a 64-bit status word.
pub fn read_status_word(w: u64, idx: usize) -> (r: u32)
    ensures
        r == status_word(w, idx),
{
    assert(w & 0xffff_ffff <= 0xffff_ffff && w >> 32 <= 0xffff_ffff) by (bit_vector);
    if idx == 0 {
        (w & 0xffff_ffff) as u32
    } else {
        (w >> 32) as u32
    }
}

/// Replacing bit `i` changes bit `i` and no other.
pub proof fn lemma_with_status_bit(w: u64, i: int, b: bool, j: int)
    requires
        0 <= i < 64,
        0 <= j < 64,
    ensures
        status_bit(with_status_bit(w, i, b), j) == (if i == j {
            b
        } else {
            status_bit(w, j)
        }),
{
    let iu = i as u64;
    let ju = j as u64;
    assert(iu < 64 && ju < 64 ==> ((w | (1u64 << iu)) >> ju) & 1 == (if iu == ju {
        1u64
    } else {
        (w >> ju) & 1
    }) && ((w & !(1u64 << iu)) >> ju) & 1 == (if iu == ju {
        0u64
    } else {
        (w >> ju) & 1
    }) && ((w >> ju) & 1 == 0 || (w >> ju) & 1 == 1)) by (bit_vector);
}

/// The hypervisor-interface registers of one physical core.
pub struct GicHypervisorInterface {
    /// The physical core this bank belongs to.
    pub cpu_id: usize,
    /// How many list registers the engine uses.
    pub lrs: usize,
    pub hcr: u32,
    pub vtr: u32,
    pub vmcr: u32,
    pub misr: u32,
    pub apr: u32,
    /// End-of-interrupt status, one bit per list register.
    pub eisr: u64,
    /// Empty-list-register status, one bit per list register.
    pub elrsr: u64,
    pub lr: Vec<u32>,
}

/// The mathematical value of a [`GicHypervisorInterface`].
pub struct GichView {
    pub cpu_id: usize,
    pub lrs: usize,
    pub hcr: u32,
    pub vtr: u32,
    pub vmcr: u32,
    pub misr: u32,
    pub apr: u32,
    pub eisr: u64,
    pub elrsr: u64,
    pub lr: Seq<u32>,
}

impl GichView {
    /// The bank has all its list registers and uses no more than it has.
    pub open spec fn wf(self) -> bool {
        &&& self.lr.len() == GIC_LIST_REGS_NUM
        &&& self.lrs <= GIC_LIST_REGS_NUM
    }

    /// The bank after `val` went into list register `idx`.
    pub open spec fn set_lr(self, idx: int, val: u32) -> GichView {
        GichView {
            lr: self.lr.update(idx, val),
            elrsr: with_status_bit(self.elrsr, idx, lr_is_empty(val)),
            eisr: with_status_bit(self.eisr, idx, lr_has_eoi(val)),
            ..self
        }
    }

    /// The bank after `hcr` went into the control register.
    pub open spec fn set_hcr(self, hcr: u32) -> GichView {
        GichView { hcr, ..self }
    }

    /// The number of list registers that the type register reports.
    pub open spec fn lrs_num(self) -> usize {
        ((self.vtr & 0b11111) + 1) as usize
    }

    /// The bank after list registers `from..to` were cleared.
    pub open spec fn clear_lrs(self, from: int, to: int) -> GichView
        decreases to - from,
    {
        if to <= from {
            self
        } else {
            self.clear_lrs(from, to - 1).set_lr(to - 1, 0)
        }
    }

    /// The bank after [`GicHypervisorInterface::init`].
    pub open spec fn init(self) -> GichView {
        let g = self.clear_lrs(0, self.lrs_num() as int);
        g.set_hcr(g.hcr | (GICH_HCR_LRENPIE_BIT as u32))
    }
}

impl View for GicHypervisorInterface {
    type V = GichView;

    open spec fn view(&self) -> GichView {
        GichView {
            cpu_id: self.cpu_id,
            lrs: self.lrs,
            hcr: self.hcr,
            vtr: self.vtr,
            vmcr: self.vmcr,
            misr: self.misr,
            apr: self.apr,
            eisr: self.eisr,
            elrsr: self.elrsr,
            lr: self.lr@,
        }
    }
}

/// The fields of a list register value stay within their widths.
pub proof fn lemma_lr_field_bounds(lr: u32)
    ensures
        lr_id(lr) < GIC_INTS_MAX,
        lr_cpuid(lr) < 8,
        lr_prio(lr) < 32,
        lr_state(lr) <= 3,
{
    assert(lr & 0b1111111111 < 1024 && (lr >> 10) & 0b111 < 8 && (lr >> 23) & 0b11111 < 32 && (lr >> 28) & 0b11
        <= 3) by (bit_vector);
}

/// Reads the interrupt id of a list register value.
pub fn lr_val_id(lr: u32) -> (r: u32)
    ensures
        r == lr_id(lr),
        r < GIC_INTS_MAX,
{
    proof {
        lemma_lr_field_bounds(lr);
    }
    lr & 0b1111111111
}

/// Reads the source CPU field of a list register value.
pub fn lr_val_cpuid(lr: u32) -> (r: u32)
    ensures
        r == lr_cpuid(lr),
        r < 8,
{
    proof {
        lemma_lr_field_bounds(lr);
    }
    (lr >> 10) & 0b111
}

/// Reads the priority field of a list register value.
pub fn lr_val_prio(lr: u32) -> (r: u32)
    ensures
        r == lr_prio(lr),
        r < 32,
{
    proof {
        lemma_lr_field_bounds(lr);
    }
    (lr >> 23) & 0b11111
}

/// Reads the state field of a list register value.
pub fn lr_val_state(lr: u32) -> (r: u32)
    ensures
        r == lr_state(lr),
        r <= 3,
{
    proof {
        lemma_lr_field_bounds(lr);
    }
    (lr >> 28) & 0b11
}

/// Tells whether a list register value counts as empty.
pub fn lr_val_is_empty(lr: u32) -> (r: bool)
    ensures
        r == lr_is_empty(lr),
{
    (lr >> 28) & 0b11 == 0 && ((lr & (1u32 << 31)) != 0 || (lr & (1u32 << 19)) == 0)
}

/// Tells whether a list register value signals an end of interrupt.
pub fn lr_val_has_eoi(lr: u32) -> (r: bool)
    ensures
        r == lr_has_eoi(lr),
{
    (lr >> 28) & 0b11 == 0 && (lr & (1u32 << 31)) == 0 && (lr & (1u32 << 19)) != 0
}

impl GicHypervisorInterface {
    /// The bank is well formed when its view is.
    pub open spec fn wf(&self) -> bool {
        self@.wf()
    }

    /// A bank in its reset state for core `cpu_id`: every list register is
    /// zero and reported empty, and no register is in use by the engine yet.
    pub fn new(cpu_id: usize, vtr: u32) -> (g: GicHypervisorInterface)
        ensures
            g.wf(),
            g@.cpu_id == cpu_id,
            g@.vtr == vtr,
            g@.lrs == 0,
            g@.hcr == 0 && g@.vmcr == 0 && g@.misr == 0 && g@.apr == 0,
            g@.eisr == 0,
            g@.elrsr == u64::MAX,
            forall|i: int| 0 <= i < GIC_LIST_REGS_NUM ==> g@.lr[i] == 0,
    {
        let mut lr: Vec<u32> = Vec::new();
        let mut i: usize = 0;
        while i < GIC_LIST_REGS_NUM
            invariant
                i <= GIC_LIST_REGS_NUM,
                lr@.len() == i,
                forall|j: int| 0 <= j < i ==> lr@[j] == 0,
            decreases GIC_LIST_REGS_NUM - i,
        {
            lr.push(0);
            i = i + 1;
        }
        GicHypervisorInterface {
            cpu_id,
            lrs: 0,
            hcr: 0,
            vtr,
            vmcr: 0,
            misr: 0,
            apr: 0,
            eisr: 0,
            elrsr: u64::MAX,
            lr,
        }
    }

    /// Clears the implemented list registers and enables the maintenance
    /// interrupt for list register entries that are not present.
    pub fn init(&mut self)
        requires
            old(self).wf(),
        ensures
            final(self)@ == old(self)@.init(),
            final(self).wf(),
    {
        let n = self.gich_lrs_num();
        let mut i: usize = 0;
        while i < n
            invariant
                i <= n <= 32,
                n == old(self)@.lrs_num(),
                self.wf(),
                self@ == old(self)@.clear_lrs(0, i as int),
            decreases n - i,
        {
            self.set_lr(i, 0);
            i = i + 1;
        }
        let hcr_prev = self.hcr();
        self.set_hcr(hcr_prev | GICH_HCR_LRENPIE_BIT as u32);
    }

    /// The number of list registers that the type register reports.
    pub fn gich_lrs_num(&self) -> (n: usize)
        ensures
            n == self@.lrs_num(),
            1 <= n <= 32,
    {
        let vtr = self.vtr;
        assert(vtr & 0b11111 < 32) by (bit_vector);
        ((vtr & 0b11111) + 1) as usize
    }

    /// The control word.
    pub fn hcr(&self) -> (r: u32)
        ensures
            r == self@.hcr,
    {
        self.hcr
    }

    /// Writes the control word.
    pub fn set_hcr(&mut self, hcr: u32)
        ensures
            final(self)@ == old(self)@.set_hcr(hcr),
    {
        self.hcr = hcr;
    }

    /// The empty-list-register status word of bank `elsr_idx`.
    pub fn elrsr(&self, elsr_idx: usize) -> (r: u32)
        requires
            elsr_idx < GIC_LIST_REGS_NUM / 32,
        ensures
            r == status_word(self@.elrsr, elsr_idx),
    {
        read_status_word(self.elrsr, elsr_idx)
    }

    /// The end-of-interrupt status word of bank `eisr_idx`.
    pub fn eisr(&self, eisr_idx: usize) -> (r: u32)
        requires
            eisr_idx < GIC_LIST_REGS_NUM / 32,
        ensures
            r == status_word(self@.eisr, eisr_idx),
    {
        read_status_word(self.eisr, eisr_idx)
    }

    /// The value of list register `lr_idx`.
    pub fn lr(&self, lr_idx: usize) -> (r: u32)
        requires
            self.wf(),
            lr_idx < GIC_LIST_REGS_NUM,
        ensures
            r == self@.lr[lr_idx as int],
    {
        self.lr[lr_idx]
    }

    /// The maintenance interrupt status word.
    pub fn misr(&self) -> (r: u32)
        ensures
            r == self@.misr,
    {
        self.misr
    }

    /// The active priorities word.
    pub fn apr(&self) -> (r: u32)
        ensures
            r == self@.apr,
    {
        self.apr
    }

    /// Writes the active priorities word.
    pub fn set_apr(&mut self, val: u32)
        ensures
            final(self)@ == (GichView { apr: val, ..old(self)@ }),
    {
        self.apr = val;
    }

    /// Writes a list register and refreshes its two status bits.
    pub fn set_lr(&mut self, lr_idx: usize, val: u32)
        requires
            old(self).wf(),
            lr_idx < GIC_LIST_REGS_NUM,
        ensures
            final(self)@ == old(self)@.set_lr(lr_idx as int, val),
            final(self).wf(),
    {
        let empty = lr_val_is_empty(val);
        let eoi = lr_val_has_eoi(val);
        let bit: u64 = 1u64 << (lr_idx as u64);
        self.lr[lr_idx] = val;
        if empty {
            self.elrsr = self.elrsr | bit;
        } else {
            self.elrsr = self.elrsr & !bit;
        }
        if eoi {
            self.eisr = self.eisr | bit;
        } else {
            self.eisr = self.eisr & !bit;
        }
        assert(self@.lr =~= old(self)@.set_lr(lr_idx as int, val).lr);
    }
}

/// The number of list registers the engine uses on this bank.
pub fn gic_lrs(gich: &GicHypervisorInterface) -> (n: usize)
    ensures
        n == gich@.lrs,
{
    gich.lrs
}

/// Sets the number of list registers the engine uses on this bank.
pub fn set_gic_lrs(gich: &mut GicHypervisorInterface, lrs: usize)
    ensures
        final(gich)@ == (GichView { lrs, ..old(gich)@ }),
{
    gich.lrs = lrs;
}

} // verus!
