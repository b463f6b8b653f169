use arm_vgic::config::VgicGlobal;
use arm_vgic::effects::Effect;
use arm_vgic::gich::{set_gic_lrs, GicHypervisorInterface};
use arm_vgic::init::{emu_intc_init, vgic_set_hw_int};
use arm_vgic::ipi::{InitcEvent, IpiInitcMessage};
use arm_vgic::irq::IrqState;
use arm_vgic::vcpu::{Vcpu, Vm};
use arm_vgic::vgic::Vgic;
use arm_vgic::vint::{
    gich_get_lr, vgic_get_state, vgic_int_get_owner, vgic_int_is_hw, vgic_int_owns, vgic_int_yield_owner, VgicInt,
};

fn vcpu(id: usize, phys_id: usize) -> Vcpu {
    Vcpu { id, phys_id, vm_id: 0 }
}

fn machine(n: usize) -> (Vgic, Vec<Vcpu>) {
    let vcpus: Vec<Vcpu> = (0..n).map(|i| vcpu(i, i)).collect();
    let vgg = VgicGlobal { nr_lr: 4, mainten_irq: 25, max_gic_vcpus: 8, typer: 0x1f, iidr: 0x43b };
    let vgic = emu_intc_init(0x0800_0000, 0x1000, &vcpus, &vgg).unwrap();
    (vgic, vcpus)
}

fn bank(cpu_id: usize, lrs: usize) -> GicHypervisorInterface {
    let mut g = GicHypervisorInterface::new(cpu_id, (lrs - 1) as u32);
    set_gic_lrs(&mut g, lrs);
    g
}

fn int_of(vgic: &Vgic, v: &Vcpu, id: usize) -> VgicInt {
    *vgic.get_int(v, id).unwrap()
}

fn pend_list(vgic: &Vgic, c: usize) -> Vec<u16> {
    vgic.cpu_priv[c].inner_mut.pend_list.iter().copied().collect()
}

fn act_list(vgic: &Vgic, c: usize) -> Vec<u16> {
    vgic.cpu_priv[c].inner_mut.act_list.iter().copied().collect()
}

fn flags_follow_state(vgic: &Vgic, vcpus: &[Vcpu]) {
    for v in vcpus {
        for id in 0..32 {
            let i = int_of(vgic, v, id);
            assert_eq!(i.in_pend(), i.state().is_pending(), "pending flag of {}", id);
            assert_eq!(i.in_act(), i.state().is_active(), "active flag of {}", id);
            let on_pend = pend_list(vgic, v.id).iter().filter(|x| **x as usize == id).count();
            let on_act = act_list(vgic, v.id).iter().filter(|x| **x as usize == id).count();
            assert_eq!(on_pend, if i.in_pend() { 1 } else { 0 }, "pending list and {}", id);
            assert_eq!(on_act, if i.in_act() { 1 } else { 0 }, "active list and {}", id);
        }
    }
    for id in 32..1024 {
        let i = int_of(vgic, &vcpus[0], id);
        assert_eq!(i.in_pend(), i.state().is_pending(), "pending flag of {}", id);
        assert_eq!(i.in_act(), i.state().is_active(), "active flag of {}", id);
        let on_pend: usize =
            vcpus.iter().map(|v| pend_list(vgic, v.id).iter().filter(|x| **x as usize == id).count()).sum();
        let on_act: usize =
            vcpus.iter().map(|v| act_list(vgic, v.id).iter().filter(|x| **x as usize == id).count()).sum();
        assert_eq!(on_pend, if i.in_pend() { 1 } else { 0 }, "pending lists and {}", id);
        assert_eq!(on_act, if i.in_act() { 1 } else { 0 }, "active lists and {}", id);
    }
}

#[test]
fn fresh_controller() {
    let (vgic, vcpus) = machine(2);
    assert_eq!(vgic.cpu_num(), 2);
    assert_eq!(vgic.vgicd_ctlr(), 0b10);
    assert_eq!(vgic.vgicd_typer(), 0x1f);
    assert_eq!(vgic.vgicd_iidr(), 0x43b);
    let range = vgic.address_range();
    assert_eq!(range, 0x0800_0000..0x0800_1000);
    let spi = int_of(&vgic, &vcpus[0], 32);
    assert_eq!(spi.id(), 32);
    assert_eq!(spi.owner(), None);
    assert!(!spi.enabled());
    assert_eq!(spi.prio(), 0xff);
    assert_eq!(spi.targets(), 0);
    assert_eq!(spi.state(), IrqState::IrqSInactive);
    let sgi = int_of(&vgic, &vcpus[1], 7);
    assert_eq!(sgi.owner(), Some(vcpus[1]));
    assert!(sgi.enabled());
    assert_eq!(sgi.targets(), 0b10);
    let ppi = int_of(&vgic, &vcpus[1], 20);
    assert!(!ppi.enabled());
    assert_eq!(ppi.owner_phys_id(), Some(1));
    assert_eq!(ppi.owner_id(), Some(1));
    assert!(vgic.get_int(&vcpus[0], 1023).is_some());
    assert!(vgic.get_int(&vcpus[0], 1024).is_none());
    flags_follow_state(&vgic, &vcpus);
}

#[test]
fn at_most_one_owner() {
    let mut spi = VgicInt::new(8);
    assert_eq!(spi.id(), 40);
    let a = vcpu(0, 0);
    let b = vcpu(1, 1);
    let a_elsewhere = vcpu(0, 1);
    assert!(!vgic_int_owns(&a, &spi));
    assert!(vgic_int_get_owner(&a, &mut spi));
    assert!(vgic_int_owns(&a, &spi));
    assert!(!vgic_int_owns(&b, &spi));
    assert!(!vgic_int_owns(&a_elsewhere, &spi));
    assert!(!vgic_int_get_owner(&b, &mut spi));
    assert_eq!(spi.owner(), Some(a));
    assert!(vgic_int_get_owner(&a, &mut spi));
    let private = VgicInt::priv_new(3, a, 1, true);
    assert!(vgic_int_owns(&a, &private));
    assert!(vgic_int_owns(&b, &private));
}

#[test]
fn yield_needs_an_idle_shared_interrupt() {
    let a = vcpu(0, 0);
    let mut spi = VgicInt::new(8);
    spi.set_owner(a);
    spi.set_state(IrqState::IrqSActive);
    vgic_int_yield_owner(&a, &mut spi);
    assert_eq!(spi.owner(), Some(a));
    spi.set_state(IrqState::IrqSPend);
    spi.set_in_lr(true);
    vgic_int_yield_owner(&a, &mut spi);
    assert_eq!(spi.owner(), Some(a));
    spi.set_in_lr(false);
    vgic_int_yield_owner(&vcpu(1, 1), &mut spi);
    assert_eq!(spi.owner(), Some(a));
    vgic_int_yield_owner(&a, &mut spi);
    assert_eq!(spi.owner(), None);
    let mut private = VgicInt::priv_new(3, a, 1, true);
    vgic_int_yield_owner(&a, &mut private);
    assert_eq!(private.owner(), Some(a));
}

#[test]
fn state_comes_from_the_list_register_that_holds_the_interrupt() {
    let a = vcpu(0, 0);
    let mut g = bank(0, 4);
    let mut spi = VgicInt::new(8);
    spi.set_owner(a);
    spi.set_state(IrqState::IrqSPend);
    assert_eq!(vgic_get_state(&g, &spi), 1);
    assert_eq!(gich_get_lr(&g, &spi), None);
    spi.set_in_lr(true);
    g.set_lr(0, 40 | (2 << 28));
    assert_eq!(gich_get_lr(&g, &spi), Some(40 | (2 << 28)));
    assert_eq!(vgic_get_state(&g, &spi), 2);
    // a register that holds another interrupt, or none, yields nothing
    g.set_lr(0, 41 | (2 << 28));
    assert_eq!(gich_get_lr(&g, &spi), None);
    assert_eq!(vgic_get_state(&g, &spi), 1);
    g.set_lr(0, 40);
    assert_eq!(gich_get_lr(&g, &spi), None);
    // the bank of another core yields nothing
    let mut other = bank(1, 4);
    other.set_lr(0, 40 | (2 << 28));
    assert_eq!(gich_get_lr(&other, &spi), None);
    assert!(!vgic_int_is_hw(&spi));
}

#[test]
fn enable_then_target_then_pend_latches_into_first_free_register() {
    let (mut vgic, vcpus) = machine(1);
    let v0 = vcpus[0];
    let mut g = bank(0, 4);
    let mut fx: Vec<Effect> = Vec::new();
    let before = int_of(&vgic, &v0, 64);
    assert_eq!(before.state(), IrqState::IrqSInactive);
    assert!(!before.enabled());
    assert_eq!(before.owner(), None);

    vgic.set_enable(&mut g, &mut fx, &v0, 64, true);
    let i = int_of(&vgic, &v0, 64);
    assert!(i.enabled());
    assert!(!i.in_lr());
    assert_eq!(i.targets(), 0);

    vgic.set_prio(&mut g, &mut fx, &v0, 64, 0x00);
    vgic.set_trgt(&mut g, &mut fx, &v0, 64, 0x01);
    let i = int_of(&vgic, &v0, 64);
    assert_eq!(i.prio(), 0);
    assert_eq!(i.targets(), 1);
    assert!(!i.in_lr());
    assert_eq!(g.elrsr(0), 0xffff_ffff);

    vgic.set_pend(&mut g, &mut fx, &v0, 64, true);
    let i = int_of(&vgic, &v0, 64);
    assert!(i.in_lr());
    assert_eq!(i.lr(), 0);
    assert_eq!(i.owner(), Some(v0));
    assert_eq!(i.state(), IrqState::IrqSInactive);
    assert_eq!(g.lr(0), 64 | (1 << 19) | (1 << 28));
    assert_eq!(g.elrsr(0), 0xffff_fffe);
    assert_eq!(vgic.cpu_priv_curr_lrs(0, 0), 64);
    assert!(pend_list(&vgic, 0).is_empty());
    assert!(fx.is_empty());
    assert_eq!(vgic_get_state(&g, &i), 1);
    flags_follow_state(&vgic, &vcpus);
}

#[test]
fn request_about_an_interrupt_of_another_owner_is_forwarded() {
    let (mut vgic, vcpus) = machine(2);
    let (v0, v1) = (vcpus[0], vcpus[1]);
    let mut g0 = bank(0, 4);
    let mut g1 = bank(1, 4);
    let mut fx: Vec<Effect> = Vec::new();
    vgic.set_active(&mut g0, &mut fx, &v0, 70, true);
    assert_eq!(int_of(&vgic, &v0, 70).owner(), Some(v0));
    assert!(fx.is_empty());

    let before = int_of(&vgic, &v1, 70);
    let lists_before = (pend_list(&vgic, 0), act_list(&vgic, 0), pend_list(&vgic, 1), act_list(&vgic, 1));
    vgic.set_pend(&mut g1, &mut fx, &v1, 70, true);
    assert_eq!(
        fx,
        vec![Effect::IpiSend {
            target: 0,
            msg: IpiInitcMessage { event: InitcEvent::VgicdSetPend, vm_id: 0, int_id: 70, val: 1 },
        }]
    );
    assert_eq!(int_of(&vgic, &v1, 70), before);
    assert_eq!(
        (pend_list(&vgic, 0), act_list(&vgic, 0), pend_list(&vgic, 1), act_list(&vgic, 1)),
        lists_before
    );
    assert_eq!(g1.hcr(), 0);
    assert_eq!(g1.elrsr(0), 0xffff_ffff);
    for i in 0..4 {
        assert_eq!(g1.lr(i), 0);
    }
}

#[test]
fn every_forwarded_request_names_its_event() {
    let (mut vgic, vcpus) = machine(2);
    let (v0, v1) = (vcpus[0], vcpus[1]);
    let mut g0 = bank(0, 4);
    let mut g1 = bank(1, 4);
    let mut fx: Vec<Effect> = Vec::new();
    vgic.set_active(&mut g0, &mut fx, &v0, 70, true);
    vgic.set_enable(&mut g1, &mut fx, &v1, 70, true);
    vgic.set_active(&mut g1, &mut fx, &v1, 70, false);
    vgic.set_icfgr(&g1, &mut fx, &v1, 70, 2);
    vgic.set_trgt(&mut g1, &mut fx, &v1, 70, 3);
    vgic.set_prio(&mut g1, &mut fx, &v1, 70, 0x5f);
    let msg = |event, val| Effect::IpiSend { target: 0, msg: IpiInitcMessage { event, vm_id: 0, int_id: 70, val } };
    assert_eq!(
        fx,
        vec![
            msg(InitcEvent::VgicdSetEn, 1),
            msg(InitcEvent::VgicdSetAct, 0),
            msg(InitcEvent::VgicdSetCfg, 2),
            msg(InitcEvent::VgicdSetTrgt, 3),
            msg(InitcEvent::VgicdSetPrio, 0x50),
        ]
    );
    let i = int_of(&vgic, &v1, 70);
    assert!(!i.enabled());
    assert_eq!(i.state(), IrqState::IrqSActive);
    assert_eq!(i.prio(), 0xff);
}

#[test]
fn add_then_remove_restores_the_interrupt() {
    let (mut vgic, vcpus) = machine(1);
    let v0 = vcpus[0];
    let mut g = bank(0, 4);
    let mut fx: Vec<Effect> = Vec::new();
    vgic.set_enable(&mut g, &mut fx, &v0, 50, true);
    vgic.set_prio(&mut g, &mut fx, &v0, 50, 0xa0);
    vgic.set_pend(&mut g, &mut fx, &v0, 50, true);
    assert!(vgic.claim(&v0, 50));
    let before = int_of(&vgic, &v0, 50);
    assert_eq!(before.state(), IrqState::IrqSPend);
    assert!(!before.in_lr());
    assert_eq!(pend_list(&vgic, 0), vec![50]);

    assert!(vgic.add_lr(&mut g, &mut fx, &v0, 50));
    let latched = int_of(&vgic, &v0, 50);
    assert!(latched.in_lr());
    assert_eq!(latched.state(), IrqState::IrqSInactive);
    assert_eq!(g.lr(0), 50 | (20 << 23) | (1 << 19) | (1 << 28));
    assert!(pend_list(&vgic, 0).is_empty());
    // a second attempt leaves an interrupt that is in a register alone
    assert!(!vgic.add_lr(&mut g, &mut fx, &v0, 50));

    assert!(vgic.remove_lr(&mut g, &v0, 50));
    let after = int_of(&vgic, &v0, 50);
    assert_eq!(after, before);
    assert_eq!(g.lr(0), 0);
    assert_eq!(g.elrsr(0), 0xffff_ffff);
    assert_eq!(pend_list(&vgic, 0), vec![50]);
    // pending and enabled: the no-pending maintenance interrupt is on
    assert_eq!(g.hcr(), 1 << 3);
    assert!(!vgic.remove_lr(&mut g, &v0, 50));
    flags_follow_state(&vgic, &vcpus);
}

#[test]
fn remove_lr_is_for_the_owner_only() {
    let (mut vgic, vcpus) = machine(2);
    let (v0, v1) = (vcpus[0], vcpus[1]);
    let mut g = bank(0, 4);
    let mut fx: Vec<Effect> = Vec::new();
    vgic.set_enable(&mut g, &mut fx, &v0, 50, true);
    vgic.set_trgt(&mut g, &mut fx, &v0, 50, 1);
    vgic.set_pend(&mut g, &mut fx, &v0, 50, true);
    assert!(int_of(&vgic, &v0, 50).in_lr());
    assert!(!vgic.remove_lr(&mut g, &v1, 50));
    assert!(int_of(&vgic, &v0, 50).in_lr());
    assert_eq!(g.lr(0), 50 | (31 << 23) | (1 << 19) | (1 << 28));
}

#[test]
fn eviction_takes_the_least_urgent_active_register() {
    let (mut vgic, vcpus) = machine(1);
    let v0 = vcpus[0];
    let mut g = bank(0, 3);
    let mut fx: Vec<Effect> = Vec::new();
    for (id, prio) in [(40usize, 0x40u8), (41, 0x90), (42, 0x70)] {
        vgic.set_enable(&mut g, &mut fx, &v0, id, true);
        vgic.set_trgt(&mut g, &mut fx, &v0, id, 1);
        vgic.set_prio(&mut g, &mut fx, &v0, id, prio);
        vgic.set_pend(&mut g, &mut fx, &v0, id, true);
    }
    for (idx, id) in [(0usize, 40u16), (1, 41), (2, 42)] {
        let i = int_of(&vgic, &v0, id as usize);
        assert!(i.in_lr());
        assert_eq!(i.lr(), idx as u16);
        // the guest acknowledges the interrupt: pending becomes active
        let lr = g.lr(idx);
        g.set_lr(idx, (lr & !(3 << 28)) | (2 << 28));
    }
    assert_eq!(g.elrsr(0) & 0b111, 0);
    let lr0 = g.lr(0);
    let lr2 = g.lr(2);

    vgic.set_enable(&mut g, &mut fx, &v0, 43, true);
    vgic.set_trgt(&mut g, &mut fx, &v0, 43, 1);
    vgic.set_prio(&mut g, &mut fx, &v0, 43, 0x10);
    vgic.set_pend(&mut g, &mut fx, &v0, 43, true);

    let newcomer = int_of(&vgic, &v0, 43);
    assert!(newcomer.in_lr());
    assert_eq!(newcomer.lr(), 1);
    assert_eq!(g.lr(1), 43 | (2 << 23) | (1 << 19) | (1 << 28));
    assert_eq!(g.lr(0), lr0);
    assert_eq!(g.lr(2), lr2);
    let evicted = int_of(&vgic, &v0, 41);
    assert!(!evicted.in_lr());
    assert_eq!(evicted.state(), IrqState::IrqSActive);
    assert_eq!(evicted.owner(), Some(v0));
    assert_eq!(act_list(&vgic, 0), vec![41]);
    assert_eq!(vgic.cpu_priv_curr_lrs(0, 1), 43);
    flags_follow_state(&vgic, &vcpus);
}

#[test]
fn eviction_prefers_pending_registers_when_several_are_pending() {
    let (mut vgic, vcpus) = machine(1);
    let v0 = vcpus[0];
    let mut g = bank(0, 3);
    let mut fx: Vec<Effect> = Vec::new();
    for (id, prio) in [(40usize, 0x40u8), (41, 0x90), (42, 0xe0)] {
        vgic.set_enable(&mut g, &mut fx, &v0, id, true);
        vgic.set_trgt(&mut g, &mut fx, &v0, id, 1);
        vgic.set_prio(&mut g, &mut fx, &v0, id, prio);
        vgic.set_pend(&mut g, &mut fx, &v0, id, true);
    }
    // register 2 becomes active, 0 and 1 stay pending
    let lr = g.lr(2);
    g.set_lr(2, (lr & !(3 << 28)) | (2 << 28));
    vgic.set_enable(&mut g, &mut fx, &v0, 43, true);
    vgic.set_trgt(&mut g, &mut fx, &v0, 43, 1);
    vgic.set_pend(&mut g, &mut fx, &v0, 43, true);
    assert_eq!(int_of(&vgic, &v0, 43).lr(), 1);
    assert!(int_of(&vgic, &v0, 43).in_lr());
    let evicted = int_of(&vgic, &v0, 41);
    assert!(!evicted.in_lr());
    assert_eq!(evicted.state(), IrqState::IrqSPend);
    assert_eq!(pend_list(&vgic, 0), vec![41]);
    // the evicted interrupt is pending and enabled
    assert_eq!(g.hcr() & (1 << 3), 1 << 3);
}

#[test]
fn without_a_victim_the_interrupt_waits_for_maintenance() {
    let (mut vgic, vcpus) = machine(1);
    let v0 = vcpus[0];
    let mut g = bank(0, 1);
    let mut fx: Vec<Effect> = Vec::new();
    for id in [40usize, 41] {
        vgic.set_enable(&mut g, &mut fx, &v0, id, true);
        vgic.set_trgt(&mut g, &mut fx, &v0, id, 1);
    }
    vgic.set_pend(&mut g, &mut fx, &v0, 40, true);
    assert!(int_of(&vgic, &v0, 40).in_lr());
    assert_eq!(g.hcr(), 0);
    vgic.set_pend(&mut g, &mut fx, &v0, 41, true);
    let waiting = int_of(&vgic, &v0, 41);
    assert!(!waiting.in_lr());
    assert_eq!(waiting.state(), IrqState::IrqSPend);
    assert_eq!(g.hcr(), 1 << 3);
    assert_eq!(pend_list(&vgic, 0), vec![41]);
    assert_eq!(g.lr(0), 40 | (31 << 23) | (1 << 19) | (1 << 28));
}

#[test]
fn same_source_twice_counts_once() {
    let (mut vgic, vcpus) = machine(1);
    let v0 = vcpus[0];
    let mut g = bank(0, 4);
    let mut fx: Vec<Effect> = Vec::new();
    let sgi = 3 | (2 << 10);
    vgic.sgi_set_pend(&mut g, &mut fx, &v0, sgi, true);
    // the source went into the register
    assert_eq!(vgic.cpu_priv_sgis_pend(0, 3), 0);
    assert_eq!(g.lr(0), 3 | (2 << 10) | (31 << 23) | (1 << 28));
    assert!(int_of(&vgic, &v0, 3).in_lr());

    vgic.sgi_set_pend(&mut g, &mut fx, &v0, sgi, true);
    assert_eq!(vgic.cpu_priv_sgis_pend(0, 3), 0b100);
    let i = int_of(&vgic, &v0, 3);
    assert_eq!(i.state(), IrqState::IrqSPend);
    assert!(!i.in_lr());
    assert_eq!(g.lr(0), 0);
    assert_eq!(pend_list(&vgic, 0), vec![3]);

    vgic.sgi_set_pend(&mut g, &mut fx, &v0, sgi, false);
    assert_eq!(vgic.cpu_priv_sgis_pend(0, 3), 0);
    assert_eq!(int_of(&vgic, &v0, 3).state(), IrqState::IrqSInactive);
    assert!(pend_list(&vgic, 0).is_empty());
    assert!(fx.is_empty());
    flags_follow_state(&vgic, &vcpus);
}

#[test]
fn clearing_a_source_keeps_the_interrupt_pending_while_another_remains() {
    let (mut vgic, vcpus) = machine(1);
    let v0 = vcpus[0];
    let mut g = bank(0, 4);
    let mut fx: Vec<Effect> = Vec::new();
    vgic.sgi_set_pend(&mut g, &mut fx, &v0, 5 | (1 << 10), true);
    vgic.sgi_set_pend(&mut g, &mut fx, &v0, 5 | (6 << 10), true);
    // source 6 is in the register, source 1 waits, the maintenance bit asks for a refill
    assert_eq!(vgic.cpu_priv_sgis_pend(0, 5), 0b10);
    assert_eq!(g.lr(0), 5 | (6 << 10) | (1 << 19) | (31 << 23) | (1 << 28));

    vgic.sgi_set_pend(&mut g, &mut fx, &v0, 5 | (6 << 10), false);
    assert_eq!(vgic.cpu_priv_sgis_pend(0, 5), 0);
    assert_eq!(g.lr(0), 5 | (1 << 10) | (31 << 23) | (1 << 28));
    let i = int_of(&vgic, &v0, 5);
    assert!(i.in_lr());
    assert_eq!(vgic_get_state(&g, &i), 1);

    vgic.sgi_set_pend(&mut g, &mut fx, &v0, 5 | (1 << 10), false);
    assert_eq!(vgic.cpu_priv_sgis_pend(0, 5), 0);
    let i = int_of(&vgic, &v0, 5);
    assert!(!i.in_lr());
    assert_eq!(vgic_get_state(&g, &i), 0);
}

#[test]
fn sources_beyond_the_eighth_are_no_sources() {
    let (mut vgic, vcpus) = machine(1);
    let v0 = vcpus[0];
    let mut g = bank(0, 4);
    let mut fx: Vec<Effect> = Vec::new();
    vgic.set_pend(&mut g, &mut fx, &v0, 2 | (9 << 10), true);
    assert_eq!(vgic.cpu_priv_sgis_pend(0, 2), 0);
    assert_eq!(int_of(&vgic, &v0, 2).state(), IrqState::IrqSInactive);
    vgic.set_pend(&mut g, &mut fx, &v0, 2 | (7 << 10), true);
    assert_eq!(g.lr(0), 2 | (7 << 10) | (31 << 23) | (1 << 28));
}

#[test]
fn enable_then_disable_leaves_the_interrupt_out_of_any_register() {
    let (mut vgic, vcpus) = machine(1);
    let v0 = vcpus[0];
    let mut g = bank(0, 4);
    let mut fx: Vec<Effect> = Vec::new();
    vgic.set_trgt(&mut g, &mut fx, &v0, 64, 1);
    vgic.set_prio(&mut g, &mut fx, &v0, 64, 0x30);
    vgic.set_pend(&mut g, &mut fx, &v0, 64, true);
    let before = int_of(&vgic, &v0, 64);
    assert!(!before.in_lr());
    assert!(!before.enabled());
    assert_eq!(before.state(), IrqState::IrqSPend);

    vgic.set_enable(&mut g, &mut fx, &v0, 64, true);
    let enabled = int_of(&vgic, &v0, 64);
    assert!(enabled.enabled());
    assert!(enabled.in_lr());
    assert_eq!(g.lr(0), 64 | (6 << 23) | (1 << 19) | (1 << 28));

    vgic.set_enable(&mut g, &mut fx, &v0, 64, false);
    let after = int_of(&vgic, &v0, 64);
    assert!(!after.in_lr());
    assert!(!after.enabled());
    assert_eq!(after.state(), before.state());
    assert_eq!(after.prio(), before.prio());
    assert_eq!(after.targets(), before.targets());
    assert_eq!(after.cfg(), before.cfg());
    assert_eq!(g.lr(0), 0);
    assert!(fx.is_empty());
    flags_follow_state(&vgic, &vcpus);
}

#[test]
fn enable_ignores_software_generated_and_unknown_interrupts() {
    let (mut vgic, vcpus) = machine(1);
    let v0 = vcpus[0];
    let mut g = bank(0, 4);
    let mut fx: Vec<Effect> = Vec::new();
    vgic.set_enable(&mut g, &mut fx, &v0, 3, false);
    assert!(int_of(&vgic, &v0, 3).enabled());
    vgic.set_enable(&mut g, &mut fx, &v0, 5000, true);
    vgic.set_trgt(&mut g, &mut fx, &v0, 5000, 1);
    vgic.set_prio(&mut g, &mut fx, &v0, 5000, 1);
    assert!(fx.is_empty());
    assert!(vgic.get_enable(&v0, 16) == false);
    vgic.set_enable(&mut g, &mut fx, &v0, 16, true);
    assert!(vgic.get_enable(&v0, 16));
}

#[test]
fn priority_keeps_its_top_four_bits() {
    let (mut vgic, vcpus) = machine(1);
    let v0 = vcpus[0];
    let mut g = bank(0, 4);
    let mut fx: Vec<Effect> = Vec::new();
    vgic.set_prio(&mut g, &mut fx, &v0, 40, 0xab);
    assert_eq!(vgic.get_prio(&v0, 40), 0xa0);
    vgic.set_icfgr(&g, &mut fx, &v0, 40, 0b10);
    assert_eq!(vgic.get_icfgr(&v0, 40), 0b10);
    vgic.set_trgt(&mut g, &mut fx, &v0, 40, 0x81);
    assert_eq!(vgic.get_trgt(&v0, 40), 0x81);
}

#[test]
fn a_less_urgent_priority_does_not_route() {
    let (mut vgic, vcpus) = machine(1);
    let v0 = vcpus[0];
    let mut g = bank(0, 4);
    let mut fx: Vec<Effect> = Vec::new();
    vgic.set_prio(&mut g, &mut fx, &v0, 40, 0x20);
    vgic.set_trgt(&mut g, &mut fx, &v0, 40, 1);
    vgic.set_enable(&mut g, &mut fx, &v0, 40, true);
    vgic.set_pend(&mut g, &mut fx, &v0, 40, true);
    assert!(int_of(&vgic, &v0, 40).in_lr());
    // less urgent: taken out of the register and left out
    vgic.set_prio(&mut g, &mut fx, &v0, 40, 0x80);
    let i = int_of(&vgic, &v0, 40);
    assert!(!i.in_lr());
    assert_eq!(i.state(), IrqState::IrqSPend);
    assert_eq!(i.prio(), 0x80);
    // more urgent: taken out and routed again
    vgic.set_enable(&mut g, &mut fx, &v0, 40, false);
    vgic.set_enable(&mut g, &mut fx, &v0, 40, true);
    assert!(int_of(&vgic, &v0, 40).in_lr());
    vgic.set_prio(&mut g, &mut fx, &v0, 40, 0x10);
    let i = int_of(&vgic, &v0, 40);
    assert!(i.in_lr());
    assert_eq!(g.lr(i.lr() as usize), 40 | (2 << 23) | (1 << 19) | (1 << 28));
}

#[test]
fn hardware_backed_interrupt_goes_in_with_its_physical_id() {
    let (mut vgic, vcpus) = machine(1);
    let v0 = vcpus[0];
    let mut vm = Vm::new(0);
    vm.vcpu_list.push(v0);
    let mut g = bank(0, 4);
    let mut fx: Vec<Effect> = Vec::new();
    vgic_set_hw_int(&mut vgic, &vm, 64);
    assert!(int_of(&vgic, &v0, 64).hw());
    assert!(vgic_int_is_hw(&int_of(&vgic, &v0, 64)));
    assert!(!int_of(&vgic, &v0, 65).hw());

    vgic.set_enable(&mut g, &mut fx, &v0, 64, true);
    vgic.set_trgt(&mut g, &mut fx, &v0, 64, 1);
    vgic.set_prio(&mut g, &mut fx, &v0, 64, 0x80);
    vgic.set_icfgr(&g, &mut fx, &v0, 64, 2);
    assert_eq!(
        fx,
        vec![
            Effect::GicdSetEnable { int_id: 64, en: true },
            Effect::GicdSetTrgt { int_id: 64, trgt: 1 },
            Effect::GicdSetPriority { int_id: 64, prio: 0x80 },
            Effect::GicdSetIcfgr { int_id: 64, cfg: 2 },
        ]
    );
    fx.clear();
    vgic.inject(&mut g, &mut fx, &v0, 64);
    let i = int_of(&vgic, &v0, 64);
    assert!(i.in_lr());
    assert_eq!(i.owner(), Some(v0));
    assert_eq!(g.lr(0), 64 | (64 << 10) | (16 << 23) | (1 << 28) | (1 << 31));
    assert_eq!(fx, vec![Effect::GicdEnsureState { int_id: 64, state: 2 }]);
}

#[test]
fn hardware_backed_pending_and_active_goes_in_as_active() {
    let (mut vgic, vcpus) = machine(1);
    let v0 = vcpus[0];
    let mut vm = Vm::new(0);
    vm.vcpu_list.push(v0);
    let mut g = bank(0, 4);
    let mut fx: Vec<Effect> = Vec::new();
    vgic_set_hw_int(&mut vgic, &vm, 64);
    vgic.set_trgt(&mut g, &mut fx, &v0, 64, 1);
    vgic.set_active(&mut g, &mut fx, &v0, 64, true);
    vgic.set_pend(&mut g, &mut fx, &v0, 64, true);
    assert_eq!(int_of(&vgic, &v0, 64).state(), IrqState::IrqSPendActive);
    fx.clear();
    vgic.set_enable(&mut g, &mut fx, &v0, 64, true);
    assert_eq!(g.lr(0), 64 | (64 << 10) | (31 << 23) | (2 << 28) | (1 << 31));
    assert_eq!(
        fx,
        vec![Effect::GicdEnsureState { int_id: 64, state: 2 }, Effect::GicdSetEnable { int_id: 64, en: true }]
    );
}

#[test]
fn state_changes_of_a_hardware_backed_interrupt_are_mirrored() {
    let (mut vgic, vcpus) = machine(1);
    let v0 = vcpus[0];
    let mut vm = Vm::new(0);
    vm.vcpu_list.push(v0);
    let mut g = bank(0, 4);
    let mut fx: Vec<Effect> = Vec::new();
    vgic_set_hw_int(&mut vgic, &vm, 80);
    vgic.set_pend(&mut g, &mut fx, &v0, 80, true);
    vgic.set_active(&mut g, &mut fx, &v0, 80, true);
    vgic.set_pend(&mut g, &mut fx, &v0, 80, false);
    vgic.set_active(&mut g, &mut fx, &v0, 80, false);
    assert_eq!(
        fx,
        vec![
            Effect::GicdSetState { int_id: 80, state: 2 },
            Effect::GicdSetState { int_id: 80, state: 3 },
            Effect::GicdSetState { int_id: 80, state: 2 },
            Effect::GicdSetState { int_id: 80, state: 0 },
        ]
    );
}

#[test]
fn hardware_backing_of_private_interrupts_is_per_virtual_cpu() {
    let (mut vgic, vcpus) = machine(3);
    let mut vm = Vm::new(0);
    vm.vcpu_list.push(vcpus[0]);
    vm.vcpu_list.push(vcpus[2]);
    vgic_set_hw_int(&mut vgic, &vm, 27);
    assert!(int_of(&vgic, &vcpus[0], 27).hw());
    assert!(!int_of(&vgic, &vcpus[1], 27).hw());
    assert!(int_of(&vgic, &vcpus[2], 27).hw());
    vgic_set_hw_int(&mut vgic, &vm, 5);
    assert!(!int_of(&vgic, &vcpus[0], 5).hw());
    vgic_set_hw_int(&mut vgic, &vm, 4000);
}

#[test]
fn routing_hands_over_to_other_targets() {
    let (mut vgic, vcpus) = machine(2);
    let v0 = vcpus[0];
    let mut g = bank(0, 4);
    let mut fx: Vec<Effect> = Vec::new();
    vgic.set_enable(&mut g, &mut fx, &v0, 90, true);
    vgic.set_trgt(&mut g, &mut fx, &v0, 90, 0b10);
    vgic.set_pend(&mut g, &mut fx, &v0, 90, true);
    let i = int_of(&vgic, &v0, 90);
    assert!(!i.in_lr());
    assert_eq!(i.owner(), None);
    assert_eq!(i.state(), IrqState::IrqSPend);
    assert_eq!(
        fx,
        vec![Effect::IpiBroadcast {
            vm_id: 0,
            msg: IpiInitcMessage { event: InitcEvent::VgicdRoute, vm_id: 0, int_id: 90, val: 0 },
        }]
    );
}

#[test]
fn bookkeeping_of_passthrough_and_emulated_interrupts() {
    let (mut vgic, _) = machine(1);
    assert!(!vgic.has_interrupt(40));
    vgic.set_bitmap(40);
    assert!(vgic.has_interrupt(40));
    assert!(!vgic.has_interrupt(41));
    assert!(!vgic.emu_has_interrupt(27));
    vgic.set_emu_irq_map(27);
    assert!(vgic.emu_has_interrupt(27));
    vgic.set_vgicd_ctlr(1);
    assert_eq!(vgic.vgicd_ctlr(), 1);
}

#[test]
fn shared_interrupt_leaves_the_list_of_another_virtual_cpu() {
    let (mut vgic, vcpus) = machine(2);
    let (v0, v1) = (vcpus[0], vcpus[1]);
    let mut g0 = bank(0, 4);
    let mut g1 = bank(1, 4);
    let mut fx: Vec<Effect> = Vec::new();
    // disabled, so it stays out of the registers and is given up again
    vgic.set_pend(&mut g0, &mut fx, &v0, 64, true);
    assert_eq!(pend_list(&vgic, 0), vec![64]);
    assert_eq!(int_of(&vgic, &v0, 64).owner(), None);
    vgic.set_pend(&mut g1, &mut fx, &v1, 64, false);
    let i = int_of(&vgic, &v1, 64);
    assert_eq!(i.state(), IrqState::IrqSInactive);
    assert!(!i.in_pend());
    assert!(pend_list(&vgic, 0).is_empty());
    assert!(pend_list(&vgic, 1).is_empty());
    flags_follow_state(&vgic, &vcpus);

    // pending on one list, then active through the other virtual CPU
    vgic.set_pend(&mut g0, &mut fx, &v0, 65, true);
    vgic.set_active(&mut g1, &mut fx, &v1, 65, true);
    assert_eq!(pend_list(&vgic, 0), vec![65]);
    assert_eq!(act_list(&vgic, 1), vec![65]);
    vgic.set_pend(&mut g1, &mut fx, &v1, 65, false);
    assert!(pend_list(&vgic, 0).is_empty());
    assert_eq!(act_list(&vgic, 1), vec![65]);
    vgic.set_active(&mut g1, &mut fx, &v1, 65, false);
    assert!(act_list(&vgic, 1).is_empty());
    flags_follow_state(&vgic, &vcpus);
    assert!(fx.is_empty());
}

fn fill(vgic: &mut Vgic, g: &mut GicHypervisorInterface, fx: &mut Vec<Effect>, v: &Vcpu, ints: &[(usize, u8)]) {
    for (id, prio) in ints {
        vgic.set_enable(g, fx, v, *id, true);
        vgic.set_trgt(g, fx, v, *id, 1);
        vgic.set_prio(g, fx, v, *id, *prio);
        vgic.set_pend(g, fx, v, *id, true);
        assert!(int_of(vgic, v, *id).in_lr());
    }
}

fn make_active(g: &mut GicHypervisorInterface, idx: usize) {
    let lr = g.lr(idx);
    g.set_lr(idx, (lr & !(3 << 28)) | (2 << 28));
}

#[test]
fn eviction_prefers_an_active_register_when_several_are_active() {
    let (mut vgic, vcpus) = machine(1);
    let v0 = vcpus[0];
    let mut g = bank(0, 4);
    let mut fx: Vec<Effect> = Vec::new();
    fill(&mut vgic, &mut g, &mut fx, &v0, &[(40, 0x40), (41, 0xf0), (42, 0x70), (43, 0xe0)]);
    // registers 0 and 2 become active, 1 and 3 stay pending
    make_active(&mut g, 0);
    make_active(&mut g, 2);
    let (lr0, lr1, lr3) = (g.lr(0), g.lr(1), g.lr(3));
    fill(&mut vgic, &mut g, &mut fx, &v0, &[(44, 0x10)]);
    assert_eq!(int_of(&vgic, &v0, 44).lr(), 2);
    assert_eq!((g.lr(0), g.lr(1), g.lr(3)), (lr0, lr1, lr3));
    let evicted = int_of(&vgic, &v0, 42);
    assert!(!evicted.in_lr());
    assert_eq!(evicted.state(), IrqState::IrqSActive);
    for id in [40, 41, 43] {
        assert!(int_of(&vgic, &v0, id).in_lr());
    }
    flags_follow_state(&vgic, &vcpus);
}

#[test]
fn eviction_finds_a_victim_among_registers_of_priority_zero() {
    let (mut vgic, vcpus) = machine(1);
    let v0 = vcpus[0];
    let mut g = bank(0, 2);
    let mut fx: Vec<Effect> = Vec::new();
    fill(&mut vgic, &mut g, &mut fx, &v0, &[(40, 0x00), (41, 0x00)]);
    fill(&mut vgic, &mut g, &mut fx, &v0, &[(42, 0x00)]);
    // the first of the equally urgent makes room
    assert_eq!(int_of(&vgic, &v0, 42).lr(), 0);
    assert_eq!(g.lr(0), 42 | (1 << 19) | (1 << 28));
    let evicted = int_of(&vgic, &v0, 40);
    assert!(!evicted.in_lr());
    assert_eq!(evicted.state(), IrqState::IrqSPend);
    assert!(int_of(&vgic, &v0, 41).in_lr());
}

#[test]
fn ids_that_name_no_software_generated_interrupt_are_left_alone() {
    let (mut vgic, vcpus) = machine(1);
    let v0 = vcpus[0];
    let mut g = bank(0, 4);
    let mut fx: Vec<Effect> = Vec::new();
    for int_id in [16usize, 17, 31, 32, 1023, 16 | (3 << 10)] {
        vgic.sgi_set_pend(&mut g, &mut fx, &v0, int_id, true);
    }
    vgic.set_icfgr(&g, &mut fx, &v0, 1024, 2);
    vgic.set_icfgr(&g, &mut fx, &v0, 70000, 2);
    for id in 0..1024 {
        let i = int_of(&vgic, &v0, id);
        assert_eq!(i.state(), IrqState::IrqSInactive);
        assert_eq!(i.cfg(), 0);
        assert!(!i.in_lr());
    }
    for sgi in 0..16 {
        assert_eq!(vgic.cpu_priv_sgis_pend(0, sgi), 0);
    }
    assert!(pend_list(&vgic, 0).is_empty());
    assert_eq!(g.hcr(), 0);
    assert_eq!(g.elrsr(0), 0xffff_ffff);
    assert!(fx.is_empty());
}

#[test]
fn active_sources_of_a_software_generated_interrupt_are_merged() {
    let (mut vgic, vcpus) = machine(1);
    let v0 = vcpus[0];
    let mut g = bank(0, 4);
    let mut fx: Vec<Effect> = Vec::new();
    vgic.sgi_set_pend(&mut g, &mut fx, &v0, 3 | (2 << 10), true);
    assert_eq!(g.lr(0), 3 | (2 << 10) | (31 << 23) | (1 << 28));
    make_active(&mut g, 0);
    assert!(vgic.remove_lr(&mut g, &v0, 3));
    assert_eq!(int_of(&vgic, &v0, 3).state(), IrqState::IrqSActive);
    assert_eq!(vgic.cpu_priv_sgis_act(0, 3), 0b100);
    assert_eq!(vgic.cpu_priv_sgis_pend(0, 3), 0);

    // back into a register: the active source comes from the mask
    assert!(vgic.add_lr(&mut g, &mut fx, &v0, 3));
    assert_eq!(g.lr(0), 3 | (2 << 10) | (31 << 23) | (2 << 28));
    // the register comes back with another source: both are recorded
    g.set_lr(0, 3 | (5 << 10) | (31 << 23) | (2 << 28));
    assert!(vgic.remove_lr(&mut g, &v0, 3));
    assert_eq!(vgic.cpu_priv_sgis_act(0, 3), 0b10_0100);
    assert!(vgic.add_lr(&mut g, &mut fx, &v0, 3));
    assert_eq!(g.lr(0), 3 | (5 << 10) | (31 << 23) | (2 << 28));
    // the sources of the other interrupts are untouched
    for sgi in (0..16).filter(|s| *s != 3) {
        assert_eq!(vgic.cpu_priv_sgis_act(0, sgi), 0);
        assert_eq!(vgic.cpu_priv_sgis_pend(0, sgi), 0);
    }
}

fn one_claimant_per_register(vgic: &Vgic, v: &Vcpu) {
    let mut claimant: Vec<Option<usize>> = vec![None; 64];
    for id in 0..1024 {
        let i = int_of(vgic, v, id);
        if i.in_lr() && vgic_int_owns(v, &i) {
            let lr = i.lr() as usize;
            assert_eq!(claimant[lr], None, "register {} has two claimants", lr);
            claimant[lr] = Some(id);
            assert_eq!(vgic.cpu_priv_curr_lrs(v.id, lr) as usize, id, "record of register {}", lr);
        }
    }
}

#[test]
fn no_register_has_two_claimants() {
    let (mut vgic, vcpus) = machine(1);
    let v0 = vcpus[0];
    let mut g = bank(0, 3);
    let mut fx: Vec<Effect> = Vec::new();
    one_claimant_per_register(&vgic, &v0);
    fill(&mut vgic, &mut g, &mut fx, &v0, &[(40, 0x40), (41, 0x90), (42, 0x70)]);
    one_claimant_per_register(&vgic, &v0);
    // evictions, newcomers, software-generated interrupts and removals
    fill(&mut vgic, &mut g, &mut fx, &v0, &[(43, 0x10), (44, 0x20)]);
    one_claimant_per_register(&vgic, &v0);
    vgic.sgi_set_pend(&mut g, &mut fx, &v0, 3 | (1 << 10), true);
    one_claimant_per_register(&vgic, &v0);
    make_active(&mut g, 0);
    make_active(&mut g, 1);
    fill(&mut vgic, &mut g, &mut fx, &v0, &[(45, 0x00)]);
    one_claimant_per_register(&vgic, &v0);
    vgic.set_enable(&mut g, &mut fx, &v0, 45, false);
    vgic.set_prio(&mut g, &mut fx, &v0, 43, 0xf0);
    one_claimant_per_register(&vgic, &v0);
    // the guest is done with register 2; the freed register is refilled
    let lr = g.lr(2);
    g.set_lr(2, lr & !(3 << 28));
    g.misr = 1 | (1 << 3);
    arm_vgic::maintenance::gic_maintenance_handler(&mut vgic, &mut g, &mut fx, &v0);
    one_claimant_per_register(&vgic, &v0);
    let in_registers = (0..1024).filter(|id| int_of(&vgic, &v0, *id).in_lr()).count();
    assert!(in_registers <= 3);
    flags_follow_state(&vgic, &vcpus);
}

#[test]
fn setting_and_clearing_the_only_source_puts_the_interrupt_to_rest() {
    let (mut vgic, vcpus) = machine(1);
    let v0 = vcpus[0];
    let mut g = bank(0, 4);
    let mut fx: Vec<Effect> = Vec::new();
    let sgi = 7 | (4 << 10);
    vgic.sgi_set_pend(&mut g, &mut fx, &v0, sgi, true);
    let after_one = int_of(&vgic, &v0, 7);
    assert_eq!(vgic_get_state(&g, &after_one), 1);
    vgic.sgi_set_pend(&mut g, &mut fx, &v0, sgi, true);
    let after_two = int_of(&vgic, &v0, 7);
    // the state after the second request is the state after the first
    assert_eq!(vgic_get_state(&g, &after_two), 1);
    assert_eq!(vgic.cpu_priv_sgis_pend(0, 7), 1 << 4);

    vgic.sgi_set_pend(&mut g, &mut fx, &v0, sgi, false);
    let i = int_of(&vgic, &v0, 7);
    assert_eq!(vgic.cpu_priv_sgis_pend(0, 7), 0);
    assert!(!i.in_lr());
    assert_eq!(i.state(), IrqState::IrqSInactive);
    assert!(!i.in_pend());
    assert_eq!(vgic_get_state(&g, &i), 0);
    assert!(gich_get_lr(&g, &i).is_none());
    for idx in 0..4 {
        assert_eq!(g.lr(idx), 0);
    }
}

#[test]
fn enable_then_disable_gives_the_interrupt_back_but_for_its_owner() {
    for state in [IrqState::IrqSInactive, IrqState::IrqSPend, IrqState::IrqSActive, IrqState::IrqSPendActive] {
        let (mut vgic, vcpus) = machine(1);
        let v0 = vcpus[0];
        let mut g = bank(0, 4);
        let mut fx: Vec<Effect> = Vec::new();
        vgic.set_trgt(&mut g, &mut fx, &v0, 70, 1);
        vgic.set_prio(&mut g, &mut fx, &v0, 70, 0x90);
        vgic.set_icfgr(&g, &mut fx, &v0, 70, 2);
        vgic.set_pend(&mut g, &mut fx, &v0, 70, state.is_pending());
        vgic.set_active(&mut g, &mut fx, &v0, 70, state.is_active());
        let before = int_of(&vgic, &v0, 70);
        assert_eq!(before.state(), state);

        vgic.set_enable(&mut g, &mut fx, &v0, 70, true);
        let between = int_of(&vgic, &v0, 70);
        assert_eq!(between.in_lr(), state != IrqState::IrqSInactive);
        vgic.set_enable(&mut g, &mut fx, &v0, 70, false);

        let after = int_of(&vgic, &v0, 70);
        assert!(after.owner().is_none() || after.owner() == Some(v0));
        assert_eq!(after.id(), before.id());
        assert_eq!(after.hw(), before.hw());
        assert_eq!(after.enabled(), before.enabled());
        assert_eq!(after.state(), before.state());
        assert_eq!(after.prio(), before.prio());
        assert_eq!(after.targets(), before.targets());
        assert_eq!(after.cfg(), before.cfg());
        assert_eq!(after.in_lr(), before.in_lr());
        assert_eq!(after.in_pend(), before.in_pend());
        assert_eq!(after.in_act(), before.in_act());
        if between.in_lr() {
            assert_eq!(g.lr(between.lr() as usize), 0);
        }
        assert!(fx.is_empty());
        flags_follow_state(&vgic, &vcpus);
    }
}

#[test]
fn asking_twice_to_make_an_interrupt_pending_is_asking_once() {
    for (enabled, targets, active) in
        [(true, 1u8, false), (true, 1, true), (false, 1, false), (true, 0, false), (true, 0b10, true)]
    {
        let (mut vgic, vcpus) = machine(1);
        let v0 = vcpus[0];
        let mut g = bank(0, 4);
        let mut fx: Vec<Effect> = Vec::new();
        vgic.set_trgt(&mut g, &mut fx, &v0, 90, targets);
        vgic.set_active(&mut g, &mut fx, &v0, 90, active);
        vgic.set_enable(&mut g, &mut fx, &v0, 90, enabled);
        let before = vgic_get_state(&g, &int_of(&vgic, &v0, 90));
        assert_eq!(before, if active { 2 } else { 0 });

        vgic.set_pend(&mut g, &mut fx, &v0, 90, true);
        let one = int_of(&vgic, &v0, 90);
        let state_one = vgic_get_state(&g, &one);
        assert_eq!(state_one, before | 1);
        let lrs_one: Vec<u32> = (0..4).map(|i| g.lr(i)).collect();

        vgic.set_pend(&mut g, &mut fx, &v0, 90, true);
        let two = int_of(&vgic, &v0, 90);
        assert_eq!(vgic_get_state(&g, &two), state_one);
        assert_eq!(two.in_lr(), one.in_lr());
        assert_eq!(two.enabled(), enabled);
        assert_eq!(two.targets(), targets);
        assert_eq!(two.prio(), one.prio());
        let lrs_two: Vec<u32> = (0..4).map(|i| g.lr(i)).collect();
        assert_eq!(lrs_two, lrs_one);
        let copies = lrs_two.iter().filter(|lr| **lr & 0x3ff == 90 && (**lr >> 28) & 3 != 0).count();
        assert_eq!(copies, if two.in_lr() { 1 } else { 0 });
        flags_follow_state(&vgic, &vcpus);
    }
}
