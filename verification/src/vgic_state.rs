//! A snapshot of the hypervisor interface of a core, taken when a virtual
//! CPU leaves the core and put back when it returns.

use vstd::prelude::*;
use crate::consts::GIC_LIST_REGS_NUM;
use crate::gich::{status_word, GicHypervisorInterface, GichView};

verus! {

/// The saved registers: control word, status words, active priorities, list
/// registers, and the control word of the CPU interface.
#[derive(Debug, Copy, Clone)]
pub struct GicState {
    pub hcr: u32,
    pub eisr: [u32; 2],
    pub elrsr: [u32; 2],
    pub apr: u32,
    pub lr: [u32; 64],
    pub ctlr: u32,
}

/// The bank after the list registers `0..n` were written from `lr`.
pub open spec fn restore_lrs(g: GichView, lr: Seq<u32>, n: int) -> GichView
    decreases n,
{
    if n <= 0 {
        g
    } else {
        restore_lrs(g, lr, n - 1).set_lr(n - 1, lr[n - 1])
    }
}

/// Bit `i` of a 32-bit status word.
pub open spec fn word_bit(w: u32, i: int) -> bool {
    w & (1u32 << (i as u32)) != 0
}

impl Default for GicState {
    fn default() -> (s: Self)
        ensures
            s.hcr == 0 && s.apr == 0 && s.ctlr == 0,
            forall|i: int| 0 <= i < 2 ==> s.eisr[i] == 0 && s.elrsr[i] == 0,
            forall|i: int| 0 <= i < GIC_LIST_REGS_NUM ==> s.lr[i] == 0,
    {
        GicState { hcr: 0, eisr: [0;2], elrsr: [0;2], apr: 0, lr: [0;64], ctlr: 0 }
    }
}

impl GicState {
    /// Takes the snapshot: the control word and the active priorities, the
    /// status words, the implemented list registers that the first status
    /// word does not report as empty, and zero for those it does; and the
    /// control word `gicc_ctlr` of the CPU interface.
    pub fn save_state(&mut self, gich: &GicHypervisorInterface, gicc_ctlr: u32)
        requires
            gich.wf(),
        ensures
            final(self).hcr == gich@.hcr,
            final(self).apr == gich@.apr,
            final(self).ctlr == gicc_ctlr,
            final(self).eisr[0] == status_word(gich@.eisr, 0),
            final(self).eisr[1] == status_word(gich@.eisr, 1),
            final(self).elrsr[0] == status_word(gich@.elrsr, 0),
            final(self).elrsr[1] == status_word(gich@.elrsr, 1),
            forall|i: int|
                0 <= i < gich@.lrs_num() ==> #[trigger] final(self).lr[i] == (if word_bit(final(self).elrsr[0], i) {
                    0u32
                } else {
                    gich@.lr[i]
                }),
            forall|i: int| gich@.lrs_num() <= i < GIC_LIST_REGS_NUM ==> #[trigger] final(self).lr[i] == old(self).lr[i],
    {
        self.hcr = gich.hcr();
        self.apr = gich.apr();
        self.eisr[0] = gich.eisr(0);
        self.elrsr[0] = gich.elrsr(0);
        self.eisr[1] = gich.eisr(1);
        self.elrsr[1] = gich.elrsr(1);
        let n = gich.gich_lrs_num();
        let mut i: usize = 0;
        while i < n
            invariant
                gich.wf(),
                n == gich@.lrs_num(),
                i <= n <= 32,
                self.hcr == gich@.hcr,
                self.apr == gich@.apr,
                self.eisr[0] == status_word(gich@.eisr, 0),
                self.eisr[1] == status_word(gich@.eisr, 1),
                self.elrsr[0] == status_word(gich@.elrsr, 0),
                self.elrsr[1] == status_word(gich@.elrsr, 1),
                forall|k: int|
                    0 <= k < i ==> #[trigger] self.lr[k] == (if word_bit(self.elrsr[0], k) {
                        0u32
                    } else {
                        gich@.lr[k]
                    }),
                forall|k: int| i <= k < GIC_LIST_REGS_NUM ==> #[trigger] self.lr[k] == old(self).lr[k],
            decreases n - i,
        {
            if self.elrsr[0] & (1u32 << (i as u32)) == 0 {
                self.lr[i] = gich.lr(i);
            } else {
                self.lr[i] = 0;
            }
            i = i + 1;
        }
        self.ctlr = gicc_ctlr;
    }

    /// Puts the snapshot back: the control word, the active priorities and
    /// the implemented list registers. Returns the control word that belongs
    /// into the CPU interface.
    pub fn restore_state(&self, gich: &mut GicHypervisorInterface) -> (ctlr: u32)
        requires
            old(gich).wf(),
        ensures
            ctlr == self.ctlr,
            final(gich).wf(),
            final(gich)@ == restore_lrs(
                GichView { hcr: self.hcr, apr: self.apr, ..old(gich)@ },
                self.lr@,
                old(gich)@.lrs_num() as int,
            ),
    {
        gich.set_hcr(self.hcr);
        gich.set_apr(self.apr);
        let n = gich.gich_lrs_num();
        let mut i: usize = 0;
        while i < n
            invariant
                gich.wf(),
                n == old(gich)@.lrs_num(),
                gich@.lrs_num() == n,
                i <= n <= 32,
                gich@ == restore_lrs(GichView { hcr: self.hcr, apr: self.apr, ..old(gich)@ }, self.lr@, i as int),
            decreases n - i,
        {
            gich.set_lr(i, self.lr[i]);
            i = i + 1;
        }
        self.ctlr
    }
}

} // verus!
