//! Building the virtual interrupt controller of a machine.

use vstd::prelude::*;
use crate::config::VgicGlobal;
use crate::consts::{GIC_INTS_MAX, GIC_PRIVINT_NUM, GIC_SGIS_NUM, GIC_SPI_MAX};
use crate::irq::IrqState;
use crate::vcpu::{Vcpu, Vm};
use crate::vgic::{spec_vgicd_typer, Vgic, VgicView, INT_BITMAP_BITS};
use crate::vint::{VgicInt, VgicIntInnerMut};
use crate::occupancy::{accounted, occ_inv};
use crate::vint_private::{CpuPrivView, Sgis, VgicCpuPriv};

verus! {

/// The shared interrupt `id` as it is when the controller is built.
pub open spec fn fresh_spi(id: int) -> VgicInt {
    VgicInt {
        id: id as u16,
        hw: false,
        inner: VgicIntInnerMut {
            owner: None,
            in_lr: false,
            lr: 0,
            enabled: false,
            state: IrqState::IrqSInactive,
            prio: 0xff,
            targets: 0,
            cfg: 0,
            in_pend: false,
            in_act: false,
        },
    }
}

/// The private interrupt `id` of `vcpu` as it is when the controller is
/// built: owned by `vcpu`, targeted at its physical core, and enabled if it
/// is software-generated.
pub open spec fn fresh_private(vcpu: Vcpu, id: int) -> VgicInt {
    VgicInt {
        id: id as u16,
        hw: false,
        inner: VgicIntInnerMut {
            owner: Some(vcpu),
            in_lr: false,
            lr: 0,
            enabled: id < GIC_SGIS_NUM,
            state: IrqState::IrqSInactive,
            prio: 0xff,
            targets: ((1usize << vcpu.phys_id) & 0xff) as u8,
            cfg: 0,
            in_pend: false,
            in_act: false,
        },
    }
}

/// Whether `v` is the controller that [`emu_intc_init`] builds for the
/// virtual CPUs `vcpus`.
pub open spec fn is_fresh(v: VgicView, base: usize, length: usize, typer: u32, iidr: u32, vcpus: Seq<Vcpu>) -> bool {
    &&& v.base == base
    &&& v.end == base + length
    &&& v.ctlr == 0b10
    &&& v.typer == spec_vgicd_typer(typer, vcpus.len() as usize)
    &&& v.iidr == iidr
    &&& v.emu_irq_map.len() == 0
    &&& v.int_bitmap.len() == INT_BITMAP_BITS
    &&& (forall|i: int| 0 <= i < INT_BITMAP_BITS ==> !#[trigger] v.int_bitmap[i])
    &&& v.spis.len() == GIC_SPI_MAX
    &&& (forall|i: int| 0 <= i < GIC_SPI_MAX ==> #[trigger] v.spis[i] == fresh_spi(i + GIC_PRIVINT_NUM))
    &&& v.cpus.len() == vcpus.len()
    &&& (forall|c: int|
        0 <= c < vcpus.len() ==> {
            &&& (#[trigger] v.cpus[c]).wf()
            &&& v.cpus[c].pend_list.len() == 0
            &&& v.cpus[c].act_list.len() == 0
            &&& (forall|i: int| 0 <= i < GIC_SGIS_NUM ==> #[trigger] v.cpus[c].sgis[i] == (Sgis { pend: 0, act: 0 }))
            &&& (forall|i: int| 0 <= i < v.cpus[c].curr_lrs.len() ==> #[trigger] v.cpus[c].curr_lrs[i] == 0)
            &&& (forall|i: int|
                0 <= i < GIC_PRIVINT_NUM ==> #[trigger] v.cpus[c].interrupts[i] == fresh_private(vcpus[c], i))
        })
}

/// Builds the interrupt controller of a machine with the virtual CPUs
/// `vcpu_list`, which claims `length` bytes of guest addresses from
/// `base_ipa`. Every shared interrupt is inactive, disabled and without
/// owner; every virtual CPU gets its bank of private interrupts.
pub fn emu_intc_init(base_ipa: usize, length: usize, vcpu_list: &Vec<Vcpu>, vgg: &VgicGlobal) -> (r: Result<
    Vgic,
    (),
>)
    requires
        base_ipa + length <= usize::MAX,
        vcpu_list@.len() >= 1,
        forall|i: int| 0 <= i < vcpu_list@.len() ==> (#[trigger] vcpu_list@[i]).phys_id < usize::BITS,
    ensures
        r.is_ok(),
        is_fresh(r.unwrap()@, base_ipa, length, vgg.typer, vgg.iidr, vcpu_list@),
        r.unwrap().inv(),
        r.unwrap()@.lists_inv(),
        forall|vcpu: Vcpu| vcpu.id < vcpu_list@.len() ==> #[trigger] occ_inv(r.unwrap()@, vcpu),
{
    let vcpu_num = vcpu_list.len();
    let mut vgic = Vgic::new(base_ipa, length, vcpu_num, vgg);
    let mut i: usize = 0;
    while i < GIC_SPI_MAX
        invariant
            i <= GIC_SPI_MAX,
            vgic.vgicd.interrupts@.len() == i,
            forall|k: int| 0 <= k < i ==> #[trigger] vgic.vgicd.interrupts@[k] == fresh_spi(k + GIC_PRIVINT_NUM),
            vgic.cpu_priv@.len() == 0,
            vgic@.base == base_ipa,
            vgic@.end == base_ipa + length,
            vgic@.ctlr == 0b10,
            vgic@.typer == spec_vgicd_typer(vgg.typer, vcpu_num),
            vgic@.iidr == vgg.iidr,
            vgic@.emu_irq_map.len() == 0,
            vgic@.int_bitmap.len() == INT_BITMAP_BITS,
            forall|k: int| 0 <= k < INT_BITMAP_BITS ==> !#[trigger] vgic@.int_bitmap[k],
        decreases GIC_SPI_MAX - i,
    {
        vgic.vgicd.interrupts.push(VgicInt::new(i));
        i = i + 1;
    }
    let mut c: usize = 0;
    while c < vcpu_num
        invariant
            c <= vcpu_num,
            vcpu_num == vcpu_list@.len(),
            forall|k: int| 0 <= k < vcpu_list@.len() ==> (#[trigger] vcpu_list@[k]).phys_id < usize::BITS,
            vgic.vgicd.interrupts@.len() == GIC_SPI_MAX,
            forall|k: int|
                0 <= k < GIC_SPI_MAX ==> #[trigger] vgic.vgicd.interrupts@[k] == fresh_spi(k + GIC_PRIVINT_NUM),
            vgic.cpu_priv@.len() == c,
            vgic@.base == base_ipa,
            vgic@.end == base_ipa + length,
            vgic@.ctlr == 0b10,
            vgic@.typer == spec_vgicd_typer(vgg.typer, vcpu_num),
            vgic@.iidr == vgg.iidr,
            vgic@.emu_irq_map.len() == 0,
            vgic@.int_bitmap.len() == INT_BITMAP_BITS,
            forall|k: int| 0 <= k < INT_BITMAP_BITS ==> !#[trigger] vgic@.int_bitmap[k],
            forall|k: int|
                0 <= k < c ==> {
                    &&& (#[trigger] vgic.cpu_priv@[k])@.wf()
                    &&& vgic.cpu_priv@[k]@.pend_list.len() == 0
                    &&& vgic.cpu_priv@[k]@.act_list.len() == 0
                    &&& (forall|j: int|
                        0 <= j < GIC_SGIS_NUM ==> #[trigger] vgic.cpu_priv@[k]@.sgis[j] == (Sgis { pend: 0, act: 0 }))
                    &&& (forall|j: int|
                        0 <= j < vgic.cpu_priv@[k]@.curr_lrs.len() ==> #[trigger] vgic.cpu_priv@[k]@.curr_lrs[j]
                            == 0)
                    &&& (forall|j: int|
                        0 <= j < GIC_PRIVINT_NUM ==> #[trigger] vgic.cpu_priv@[k]@.interrupts[j] == fresh_private(
                            vcpu_list@[k],
                            j,
                        ))
                },
        decreases vcpu_num - c,
    {
        let vcpu = vcpu_list[c];
        let mut cpu_priv = VgicCpuPriv::default();
        let mut int_idx: usize = 0;
        while int_idx < GIC_PRIVINT_NUM
            invariant
                int_idx <= GIC_PRIVINT_NUM,
                vcpu.phys_id < usize::BITS,
                cpu_priv@.interrupts.len() == int_idx,
                forall|j: int| 0 <= j < int_idx ==> #[trigger] cpu_priv@.interrupts[j] == fresh_private(vcpu, j),
                cpu_priv@.curr_lrs.len() == crate::consts::GIC_LIST_REGS_NUM,
                forall|j: int| 0 <= j < cpu_priv@.curr_lrs.len() ==> #[trigger] cpu_priv@.curr_lrs[j] == 0,
                cpu_priv@.sgis.len() == GIC_SGIS_NUM,
                forall|j: int| 0 <= j < GIC_SGIS_NUM ==> #[trigger] cpu_priv@.sgis[j] == (Sgis { pend: 0, act: 0 }),
                cpu_priv@.pend_list.len() == 0,
                cpu_priv@.act_list.len() == 0,
            decreases GIC_PRIVINT_NUM - int_idx,
        {
            let phys_id = vcpu.phys_id;
            cpu_priv.interrupts.push(
                VgicInt::priv_new(int_idx, vcpu, 1usize << phys_id, int_idx < GIC_SGIS_NUM),
            );
            int_idx = int_idx + 1;
        }
        vgic.cpu_priv.push(cpu_priv);
        c = c + 1;
    }
    proof {
        let v = vgic@;
        assert forall|k: int| 0 <= k < v.cpus.len() implies {
            &&& (#[trigger] v.cpus[k]).wf()
            &&& v.cpus[k].pend_list.len() == 0
            &&& v.cpus[k].act_list.len() == 0
            &&& (forall|j: int| 0 <= j < GIC_SGIS_NUM ==> #[trigger] v.cpus[k].sgis[j] == (Sgis { pend: 0, act: 0 }))
            &&& (forall|j: int| 0 <= j < v.cpus[k].curr_lrs.len() ==> #[trigger] v.cpus[k].curr_lrs[j] == 0)
            &&& (forall|j: int|
                0 <= j < GIC_PRIVINT_NUM ==> #[trigger] v.cpus[k].interrupts[j] == fresh_private(vcpu_list@[k], j))
        } by {
            assert(v.cpus[k] == vgic.cpu_priv@[k]@);
        }
        assert(v.lists_inv()) by {
            assert forall|k: int, id: int, pend: bool|
                0 <= k < v.cpus.len() && 0 <= id < GIC_PRIVINT_NUM implies #[trigger] crate::lists::private_agrees(
                v,
                k,
                id,
                pend,
            ) by {
                assert(v.cpus[k].wf());
                assert(v.cpus[k].interrupts[id] == fresh_private(vcpu_list@[k], id));
            }
            assert forall|id: int, pend: bool|
                GIC_PRIVINT_NUM <= id < GIC_INTS_MAX implies #[trigger] crate::lists::shared_agrees(v, id, pend) by {
                assert(v.spis[id - GIC_PRIVINT_NUM] == fresh_spi(id));
                assert forall|k: int| 0 <= k < v.cpus.len() implies !(#[trigger] crate::lists::list_of(
                    v,
                    k,
                    pend,
                )).contains(id as u16) by {
                    assert(v.cpus[k].wf());
                }
            }
        }
        assert forall|vcpu: Vcpu| vcpu.id < vcpu_list@.len() implies #[trigger] occ_inv(v, vcpu) by {
            assert forall|id: int| 0 <= id < GIC_INTS_MAX implies #[trigger] accounted(
                v,
                vcpu,
                id,
            ) by {
                let c = vcpu.id as int;
                assert(v.cpus[c].wf());
                if id < GIC_PRIVINT_NUM {
                    assert(v.cpus[c].interrupts[id] == fresh_private(vcpu_list@[c], id));
                } else {
                    assert(v.spis[id - GIC_PRIVINT_NUM] == fresh_spi(id));
                }
            }
        }
        assert(v.inv()) by {
            assert forall|k: int, j: int| 0 <= k < v.cpus.len() && 0 <= j < GIC_PRIVINT_NUM implies (
            #[trigger] v.cpus[k].interrupts[j]).flags_agree() by {
                assert(v.cpus[k].wf());
                assert(v.cpus[k].interrupts[j] == fresh_private(vcpu_list@[k], j));
            }
        }
    }
    Ok(vgic)
}

/// Whether one of the virtual CPUs `vcpus` has the index `c`.
pub open spec fn has_vcpu(vcpus: Seq<Vcpu>, c: int) -> bool {
    exists|i: int| 0 <= i < vcpus.len() && (#[trigger] vcpus[i]).id == c
}

/// The bank `cpu` with its private interrupt `int_id` marked as backed by a
/// physical interrupt.
pub open spec fn bank_with_hw(cpu: CpuPrivView, int_id: int) -> CpuPrivView {
    CpuPrivView { interrupts: cpu.interrupts.update(int_id, cpu.interrupts[int_id].with_hw(true)), ..cpu }
}

/// The controller `v` with interrupt `int_id` marked as backed by a physical
/// interrupt for the virtual CPUs `vcpus`: a private peripheral interrupt in
/// the bank of each of them, a shared interrupt once. Nothing else changes,
/// and a software-generated interrupt or an id that names no interrupt
/// changes nothing.
pub open spec fn with_hw_int(v: VgicView, vcpus: Seq<Vcpu>, int_id: int) -> VgicView {
    if int_id < GIC_SGIS_NUM || int_id >= GIC_INTS_MAX {
        v
    } else if int_id < GIC_PRIVINT_NUM {
        VgicView {
            cpus: Seq::new(
                v.cpus.len(),
                |c: int|
                    if has_vcpu(vcpus, c) {
                        bank_with_hw(v.cpus[c], int_id)
                    } else {
                        v.cpus[c]
                    },
            ),
            ..v
        }
    } else {
        VgicView { spis: v.spis.update(int_id - GIC_PRIVINT_NUM, v.spis[int_id - GIC_PRIVINT_NUM].with_hw(true)), ..v }
    }
}

/// Marks interrupt `int_id` of the machine `vm` as backed by a physical
/// interrupt: a private peripheral interrupt in the bank of each virtual
/// CPU of the machine, a shared one once. Software-generated interrupts and
/// ids beyond the last interrupt are left alone, and so is the rest of the
/// controller.
pub fn vgic_set_hw_int(vgic: &mut Vgic, vm: &Vm, int_id: usize)
    requires
        old(vgic).inv(),
        forall|i: int| 0 <= i < vm.vcpu_list@.len() ==> (#[trigger] vm.vcpu_list@[i]).id < old(vgic)@.cpus.len(),
        int_id >= GIC_PRIVINT_NUM ==> vm.vcpu_list@.len() > 0,
    ensures
        final(vgic)@ == with_hw_int(old(vgic)@, vm.vcpu_list@, int_id as int),
        final(vgic).inv(),
        old(vgic)@.lists_inv() ==> final(vgic)@.lists_inv(),
        forall|vcpu: Vcpu|
            vcpu.id < old(vgic)@.cpus.len() && #[trigger] occ_inv(old(vgic)@, vcpu) ==> occ_inv(final(vgic)@, vcpu),
        final(vgic)@.cpus.len() == old(vgic)@.cpus.len(),
        forall|c: int, id: int|
            0 <= c < old(vgic)@.cpus.len() && 0 <= id < GIC_INTS_MAX ==> #[trigger] final(vgic)@.irq(c, id) == (if id
                == int_id && id >= GIC_SGIS_NUM && (id >= GIC_PRIVINT_NUM || has_vcpu(vm.vcpu_list@, c)) {
                old(vgic)@.irq(c, id).with_hw(true)
            } else {
                old(vgic)@.irq(c, id)
            }),
{
    if int_id < GIC_SGIS_NUM {
        return ;
    }
    if int_id >= GIC_INTS_MAX {
        return ;
    }
    if int_id < GIC_PRIVINT_NUM {
        let n = vm.vcpu_list.len();
        let mut i: usize = 0;
        proof {
            assert(with_hw_int(vgic@, vm.vcpu_list@.take(0), int_id as int).cpus =~= vgic@.cpus);
        }
        while i < n
            invariant
                i <= n,
                n == vm.vcpu_list@.len(),
                GIC_SGIS_NUM <= int_id < GIC_PRIVINT_NUM,
                vgic.inv(),
                old(vgic).inv(),
                old(vgic)@.lists_inv() ==> vgic@.lists_inv(),
                forall|k: int| 0 <= k < vm.vcpu_list@.len() ==> (#[trigger] vm.vcpu_list@[k]).id < vgic@.cpus.len(),
                vgic@ == with_hw_int(old(vgic)@, vm.vcpu_list@.take(i as int), int_id as int),
            decreases n - i,
        {
            let vcpu = vm.vcpu_list[i];
            let mut interrupt = vgic.irq(vcpu.id, int_id);
            interrupt.set_hw(true);
            let ghost before = vgic@;
            vgic.set_int(vcpu.id, interrupt);
            proof {
                crate::lr_proofs::lemma_set_int_wf(before, vcpu.id as int, interrupt);
                assert(before.inv() ==> before.inv_except(vcpu.id as int, int_id as int));
                lemma_hw_step(old(vgic)@, vm.vcpu_list@, i as int, int_id as int);
            }
            i = i + 1;
        }
        proof {
            assert(vm.vcpu_list@.take(n as int) =~= vm.vcpu_list@);
        }
    } else {
        let vcpu = vm.vcpu_list[0];
        let mut interrupt = vgic.irq(vcpu.id, int_id);
        interrupt.set_hw(true);
        let ghost before = vgic@;
        vgic.set_int(vcpu.id, interrupt);
        proof {
            crate::lr_proofs::lemma_set_int_wf(before, vcpu.id as int, interrupt);
            assert(before.inv() ==> before.inv_except(vcpu.id as int, int_id as int));
        }
    }
    proof {
        lemma_hw_int(old(vgic)@, vm.vcpu_list@, int_id as int);
    }
}

/// Marking the interrupt for one more virtual CPU is storing the marked
/// interrupt in that virtual CPU's bank.
proof fn lemma_hw_step(v: VgicView, vcpus: Seq<Vcpu>, i: int, int_id: int)
    requires
        v.wf(),
        0 <= i < vcpus.len(),
        GIC_SGIS_NUM <= int_id < GIC_PRIVINT_NUM,
        vcpus[i].id < v.cpus.len(),
    ensures
        with_hw_int(v, vcpus.take(i + 1), int_id) == ({
            let w = with_hw_int(v, vcpus.take(i), int_id);
            w.set_int(vcpus[i].id as int, w.irq(vcpus[i].id as int, int_id).with_hw(true))
        }),
{
    let a = vcpus.take(i);
    let b = vcpus.take(i + 1);
    let w = with_hw_int(v, a, int_id);
    let t = vcpus[i].id as int;
    let r = w.set_int(t, w.irq(t, int_id).with_hw(true));
    let goal = with_hw_int(v, b, int_id);
    assert(v.cpus[t].wf());
    assert(v.cpus[t].interrupts[int_id].id == int_id);
    assert(b[i] == vcpus[i]);
    assert(has_vcpu(b, t));
    assert forall|c: int| 0 <= c < v.cpus.len() implies #[trigger] goal.cpus[c] == r.cpus[c] by {
        if has_vcpu(a, c) {
            let k = choose|k: int| 0 <= k < a.len() && (#[trigger] a[k]).id == c;
            assert(b[k] == a[k]);
            assert(has_vcpu(b, c));
        } else if c != t {
            if has_vcpu(b, c) {
                let k = choose|k: int| 0 <= k < b.len() && (#[trigger] b[k]).id == c;
                if k < i {
                    assert(a[k] == b[k]);
                }
            }
        }
        if c == t {
            assert(goal.cpus[c].interrupts =~= r.cpus[c].interrupts);
        }
    }
    assert(goal.cpus =~= r.cpus);
}

/// What marking an interrupt keeps: every other interrupt, the invariant's
/// reading of each virtual CPU's registers, and the size of the controller.
proof fn lemma_hw_int(v: VgicView, vcpus: Seq<Vcpu>, int_id: int)
    requires
        v.wf(),
        GIC_SGIS_NUM <= int_id < GIC_INTS_MAX,
    ensures
        with_hw_int(v, vcpus, int_id).cpus.len() == v.cpus.len(),
        forall|c: int, id: int|
            0 <= c < v.cpus.len() && 0 <= id < GIC_INTS_MAX ==> #[trigger] with_hw_int(v, vcpus, int_id).irq(c, id)
                == (if id == int_id && (id >= GIC_PRIVINT_NUM || has_vcpu(vcpus, c)) {
                v.irq(c, id).with_hw(true)
            } else {
                v.irq(c, id)
            }),
        forall|vcpu: Vcpu|
            vcpu.id < v.cpus.len() && #[trigger] occ_inv(v, vcpu) ==> occ_inv(with_hw_int(v, vcpus, int_id), vcpu),
{
    let w = with_hw_int(v, vcpus, int_id);
    assert forall|vcpu: Vcpu| vcpu.id < v.cpus.len() && #[trigger] occ_inv(v, vcpu) implies occ_inv(w, vcpu) by {
        assert forall|id: int| 0 <= id < GIC_INTS_MAX implies #[trigger] accounted(w, vcpu, id) by {
            assert(accounted(v, vcpu, id));
            assert(v.cpus[vcpu.id as int].wf());
        }
    }
}

} // verus!
