use arm_vgic::config::VgicGlobal;
use arm_vgic::effects::Effect;
use arm_vgic::gich::{set_gic_lrs, GicHypervisorInterface};
use arm_vgic::init::{emu_intc_init, vgic_set_hw_int};
use arm_vgic::ipi::{vgic_ipi_handler, InitcEvent, IpiInitcMessage, IpiInnerMsg, IpiMessage, IpiType};
use arm_vgic::irq::IrqState;
use arm_vgic::maintenance::{attend_list_registers, end_spilled_interrupt, gic_maintenance_handler};
use arm_vgic::vcpu::{Pcpu, Vcpu, Vm};
use arm_vgic::vgic::Vgic;
use arm_vgic::vint::VgicInt;

fn setup(n: usize, lrs: usize) -> (Vgic, Vec<Vcpu>, GicHypervisorInterface, Vec<Effect>) {
    let vcpus: Vec<Vcpu> = (0..n).map(|i| Vcpu { id: i, phys_id: i, vm_id: 0 }).collect();
    let vgg = VgicGlobal { nr_lr: 4, mainten_irq: 25, max_gic_vcpus: 8, typer: 0, iidr: 0 };
    let vgic = emu_intc_init(0x0800_0000, 0x1000, &vcpus, &vgg).unwrap();
    let mut g = GicHypervisorInterface::new(0, (lrs - 1) as u32);
    set_gic_lrs(&mut g, lrs);
    (vgic, vcpus, g, Vec::new())
}

fn irq(vgic: &Vgic, v: &Vcpu, id: usize) -> VgicInt {
    *vgic.get_int(v, id).unwrap()
}

fn acts(vgic: &Vgic, c: usize) -> Vec<u16> {
    vgic.cpu_priv[c].inner_mut.act_list.iter().copied().collect()
}

fn pends(vgic: &Vgic, c: usize) -> Vec<u16> {
    vgic.cpu_priv[c].inner_mut.pend_list.iter().copied().collect()
}

#[test]
fn three_spilled_active_interrupts_get_their_end_of_interrupt() {
    let (mut vgic, vcpus, mut g, mut fx) = setup(1, 4);
    let v0 = vcpus[0];
    for id in [40, 41, 42, 43] {
        vgic.set_active(&mut g, &mut fx, &v0, id, true);
    }
    assert_eq!(acts(&vgic, 0), vec![40, 41, 42, 43]);
    g.set_hcr((3 << 27) | 1);
    g.misr = 1 << 2;
    gic_maintenance_handler(&mut vgic, &mut g, &mut fx, &v0);
    assert_eq!(g.hcr() >> 27, 0);
    assert_eq!(g.hcr(), 1);
    assert_eq!(acts(&vgic, 0), vec![43]);
    for id in [40, 41, 42] {
        assert_eq!(irq(&vgic, &v0, id).state(), IrqState::IrqSInactive);
        assert!(!irq(&vgic, &v0, id).in_act());
    }
    assert_eq!(irq(&vgic, &v0, 43).state(), IrqState::IrqSActive);
    assert!(fx.is_empty());
}

#[test]
fn the_count_goes_down_by_one_for_each_end_of_interrupt() {
    for count in 0..6u32 {
        let (mut vgic, vcpus, mut g, mut fx) = setup(1, 4);
        let v0 = vcpus[0];
        for id in 40..46 {
            vgic.set_active(&mut g, &mut fx, &v0, id, true);
        }
        g.set_hcr(count << 27);
        g.misr = 1 << 2;
        gic_maintenance_handler(&mut vgic, &mut g, &mut fx, &v0);
        assert_eq!(g.hcr(), 0);
        assert_eq!(acts(&vgic, 0).len(), 6 - count as usize);
    }
}

#[test]
fn without_the_status_bit_the_count_stays() {
    let (mut vgic, vcpus, mut g, mut fx) = setup(1, 4);
    let v0 = vcpus[0];
    vgic.set_active(&mut g, &mut fx, &v0, 40, true);
    g.set_hcr(2 << 27);
    g.misr = 0;
    gic_maintenance_handler(&mut vgic, &mut g, &mut fx, &v0);
    assert_eq!(g.hcr(), 2 << 27);
    assert_eq!(acts(&vgic, 0), vec![40]);
}

#[test]
fn spilled_interrupt_that_is_still_pending_goes_back_into_a_register() {
    let (mut vgic, vcpus, mut g, mut fx) = setup(1, 4);
    let v0 = vcpus[0];
    vgic.set_trgt(&mut g, &mut fx, &v0, 40, 1);
    vgic.set_active(&mut g, &mut fx, &v0, 40, true);
    vgic.set_pend(&mut g, &mut fx, &v0, 40, true);
    vgic.set_enable(&mut g, &mut fx, &v0, 40, true);
    // the register holds pending and active; take the interrupt out again
    assert!(vgic.remove_lr(&mut g, &v0, 40));
    assert_eq!(irq(&vgic, &v0, 40).state(), IrqState::IrqSPendActive);
    vgic.eoir_highest_spilled_active(&mut g, &mut fx, &v0);
    let i = irq(&vgic, &v0, 40);
    assert!(i.in_lr());
    assert_eq!(g.lr(i.lr() as usize), 40 | (31 << 23) | (1 << 19) | (1 << 28));
    assert!(acts(&vgic, 0).is_empty());
}

#[test]
fn spilled_hardware_backed_interrupt_is_deactivated_in_the_distributor() {
    let (mut vgic, vcpus, mut g, mut fx) = setup(1, 4);
    let v0 = vcpus[0];
    let mut vm = Vm::new(0);
    vm.vcpu_list.push(v0);
    vgic_set_hw_int(&mut vgic, &vm, 40);
    vgic.set_active(&mut g, &mut fx, &v0, 40, true);
    fx.clear();
    vgic.eoir_highest_spilled_active(&mut g, &mut fx, &v0);
    assert_eq!(fx, vec![Effect::GicdSetAct { int_id: 40, act: false }]);
    assert_eq!(irq(&vgic, &v0, 40).state(), IrqState::IrqSInactive);
    // nothing is left on the list
    vgic.eoir_highest_spilled_active(&mut g, &mut fx, &v0);
    assert_eq!(fx.len(), 1);
}

#[test]
fn end_of_interrupt_of_a_shared_interrupt_frees_register_and_owner() {
    let (mut vgic, vcpus, mut g, mut fx) = setup(1, 4);
    let v0 = vcpus[0];
    vgic.set_trgt(&mut g, &mut fx, &v0, 40, 1);
    vgic.set_enable(&mut g, &mut fx, &v0, 40, true);
    vgic.set_pend(&mut g, &mut fx, &v0, 40, true);
    assert_eq!(irq(&vgic, &v0, 40).owner(), Some(v0));
    // the guest handles the interrupt: the state goes, the maintenance bit stays
    let lr = g.lr(0);
    g.set_lr(0, lr & !(3 << 28));
    assert_eq!(g.eisr(0), 1);
    assert_eq!(g.elrsr(0) & 1, 0);
    g.misr = 1;
    gic_maintenance_handler(&mut vgic, &mut g, &mut fx, &v0);
    assert_eq!(g.lr(0), 0);
    assert_eq!(g.eisr(0), 0);
    assert_eq!(g.elrsr(0) & 1, 1);
    let i = irq(&vgic, &v0, 40);
    assert!(!i.in_lr());
    assert_eq!(i.owner(), None);
    assert_eq!(i.state(), IrqState::IrqSInactive);
}

#[test]
fn end_of_interrupt_of_a_software_generated_interrupt_latches_the_next_source() {
    let (mut vgic, vcpus, mut g, mut fx) = setup(1, 4);
    let v0 = vcpus[0];
    vgic.sgi_set_pend(&mut g, &mut fx, &v0, 5 | (1 << 10), true);
    vgic.sgi_set_pend(&mut g, &mut fx, &v0, 5 | (6 << 10), true);
    assert_eq!(g.lr(0), 5 | (6 << 10) | (1 << 19) | (31 << 23) | (1 << 28));
    let lr = g.lr(0);
    g.set_lr(0, lr & !(3 << 28));
    assert_eq!(g.eisr(0), 1);
    g.misr = 1;
    gic_maintenance_handler(&mut vgic, &mut g, &mut fx, &v0);
    assert_eq!(g.eisr(0), 0);
    assert_eq!(g.lr(0), 5 | (1 << 10) | (31 << 23) | (1 << 28));
    assert_eq!(vgic.cpu_priv_sgis_pend(0, 5), 0);
    assert!(irq(&vgic, &v0, 5).in_lr());
}

#[test]
fn freed_register_is_refilled_from_the_pending_list() {
    let (mut vgic, vcpus, mut g, mut fx) = setup(1, 2);
    let v0 = vcpus[0];
    for id in [40, 41, 42, 43] {
        vgic.set_trgt(&mut g, &mut fx, &v0, id, 1);
        vgic.set_enable(&mut g, &mut fx, &v0, id, true);
    }
    vgic.set_pend(&mut g, &mut fx, &v0, 40, true);
    vgic.set_pend(&mut g, &mut fx, &v0, 41, true);
    // both registers hold a pending interrupt: the least urgent is evicted for each newcomer
    vgic.set_prio(&mut g, &mut fx, &v0, 42, 0x10);
    vgic.set_pend(&mut g, &mut fx, &v0, 42, true);
    assert!(irq(&vgic, &v0, 42).in_lr());
    let waiting: Vec<u16> = pends(&vgic, 0);
    assert_eq!(waiting.len(), 1);
    let waiter = waiting[0] as usize;
    assert!(!irq(&vgic, &v0, waiter).in_lr());
    assert_eq!(g.hcr() & (1 << 3), 1 << 3);

    // the guest handles what register 0 holds
    let lr = g.lr(0);
    g.set_lr(0, lr & !(3 << 28));
    g.misr = 1 | (1 << 3);
    gic_maintenance_handler(&mut vgic, &mut g, &mut fx, &v0);
    let refilled = irq(&vgic, &v0, waiter);
    assert!(refilled.in_lr());
    assert_eq!(refilled.lr(), 0);
    assert_eq!(refilled.owner(), Some(v0));
    assert_eq!(g.lr(0) & 0x3ff, waiter as u32);
    assert_eq!((g.lr(0) >> 28) & 3, 1);
    assert!(pends(&vgic, 0).is_empty());
    assert_eq!(g.elrsr(0) & 0b11, 0);
}

#[test]
fn refill_without_candidates_turns_the_maintenance_interrupt_off() {
    let (mut vgic, vcpus, mut g, mut fx) = setup(1, 4);
    let v0 = vcpus[0];
    g.set_hcr(0b1001);
    vgic.refill_lrs(&mut g, &mut fx, &v0);
    assert_eq!(g.hcr(), 0b0001);
    for i in 0..4 {
        assert_eq!(g.lr(i), 0);
    }
}

#[test]
fn refill_fills_every_empty_register_in_order() {
    let (mut vgic, vcpus, mut g, mut fx) = setup(1, 3);
    let v0 = vcpus[0];
    for id in [50, 51] {
        vgic.set_pend(&mut g, &mut fx, &v0, id, true);
    }
    vgic.set_active(&mut g, &mut fx, &v0, 52, true);
    assert_eq!(pends(&vgic, 0), vec![50, 51]);
    assert_eq!(acts(&vgic, 0), vec![52]);
    g.set_hcr(1 << 3);
    vgic.refill_lrs(&mut g, &mut fx, &v0);
    // no register held a pending interrupt, so the pending list goes first;
    // once one does, the active list is served
    assert_eq!(g.lr(0) & 0x3ff, 50);
    assert_eq!(g.lr(1) & 0x3ff, 52);
    assert_eq!((g.lr(1) >> 28) & 3, 2);
    assert_eq!(g.lr(2) & 0x3ff, 51);
    assert!(pends(&vgic, 0).is_empty());
    assert!(acts(&vgic, 0).is_empty());
    assert_eq!(g.hcr(), 1 << 3);
    for id in [50, 51, 52] {
        assert!(irq(&vgic, &v0, id).in_lr());
        assert_eq!(irq(&vgic, &v0, id).owner(), Some(v0));
    }
}

fn core_hosting(v: Vcpu) -> Pcpu {
    let mut pcpu = Pcpu::new(v.phys_id);
    pcpu.vcpu_array.array[v.vm_id] = Some(v);
    pcpu.vcpu_array.len = 1;
    pcpu.active_vcpu = Some(v);
    pcpu
}

fn message(event: InitcEvent, vm_id: usize, int_id: u16, val: u8) -> IpiMessage {
    IpiMessage { ipi_type: IpiType::IpiTIntc, ipi_message: IpiInnerMsg::Initc(IpiInitcMessage { event, vm_id, int_id, val }) }
}

#[test]
fn messages_are_carried_out_for_the_hosted_virtual_cpu() {
    let (mut vgic, vcpus, mut g, mut fx) = setup(1, 4);
    let v0 = vcpus[0];
    let pcpu = core_hosting(v0);
    vgic_ipi_handler(&mut vgic, &mut g, &mut fx, &pcpu, message(InitcEvent::VgicdSetEn, 0, 70, 1));
    assert!(irq(&vgic, &v0, 70).enabled());
    vgic_ipi_handler(&mut vgic, &mut g, &mut fx, &pcpu, message(InitcEvent::VgicdSetPrio, 0, 70, 0x7f));
    assert_eq!(irq(&vgic, &v0, 70).prio(), 0x70);
    vgic_ipi_handler(&mut vgic, &mut g, &mut fx, &pcpu, message(InitcEvent::VgicdSetTrgt, 0, 70, 1));
    assert_eq!(irq(&vgic, &v0, 70).targets(), 1);
    vgic_ipi_handler(&mut vgic, &mut g, &mut fx, &pcpu, message(InitcEvent::VgicdSetPend, 0, 70, 1));
    assert!(irq(&vgic, &v0, 70).in_lr());
    assert_eq!(g.lr(0), 70 | (14 << 23) | (1 << 19) | (1 << 28));
    vgic_ipi_handler(&mut vgic, &mut g, &mut fx, &pcpu, message(InitcEvent::VgicdSetEn, 0, 70, 0));
    assert!(!irq(&vgic, &v0, 70).in_lr());
    assert!(!irq(&vgic, &v0, 70).enabled());
    assert!(fx.is_empty());
}

#[test]
fn enable_message_switches_the_hypervisor_interface() {
    let (mut vgic, vcpus, mut g, mut fx) = setup(1, 4);
    let pcpu = core_hosting(vcpus[0]);
    g.set_hcr(0b100);
    vgic_ipi_handler(&mut vgic, &mut g, &mut fx, &pcpu, message(InitcEvent::VgicdGichEn, 0, 0, 1));
    assert_eq!(g.hcr(), 0b101);
    vgic_ipi_handler(&mut vgic, &mut g, &mut fx, &pcpu, message(InitcEvent::VgicdGichEn, 0, 0, 0));
    assert_eq!(g.hcr(), 0b100);
}

#[test]
fn route_message_latches_an_interrupt_that_targets_this_core() {
    let (mut vgic, vcpus, mut g0, mut fx) = setup(2, 4);
    let (v0, v1) = (vcpus[0], vcpus[1]);
    vgic.set_enable(&mut g0, &mut fx, &v0, 90, true);
    vgic.set_trgt(&mut g0, &mut fx, &v0, 90, 0b10);
    vgic.set_pend(&mut g0, &mut fx, &v0, 90, true);
    assert_eq!(irq(&vgic, &v0, 90).owner(), None);
    fx.clear();
    let mut g1 = GicHypervisorInterface::new(1, 3);
    set_gic_lrs(&mut g1, 4);
    let pcpu1 = core_hosting(v1);
    vgic_ipi_handler(&mut vgic, &mut g1, &mut fx, &pcpu1, message(InitcEvent::VgicdRoute, 0, 90, 0));
    let i = irq(&vgic, &v1, 90);
    assert!(i.in_lr());
    assert_eq!(i.owner(), Some(v1));
    assert_eq!(g1.lr(0), 90 | (31 << 23) | (1 << 19) | (1 << 28));
    assert!(fx.is_empty());
}

#[test]
fn messages_for_other_machines_and_other_payloads_are_ignored() {
    let (mut vgic, vcpus, mut g, mut fx) = setup(1, 4);
    let v0 = vcpus[0];
    let mut pcpu = core_hosting(v0);
    vgic_ipi_handler(&mut vgic, &mut g, &mut fx, &pcpu, message(InitcEvent::VgicdSetEn, 5, 70, 1));
    assert!(!irq(&vgic, &v0, 70).enabled());
    vgic_ipi_handler(&mut vgic, &mut g, &mut fx, &pcpu, message(InitcEvent::VgicdSetEn, 64, 70, 1));
    assert!(!irq(&vgic, &v0, 70).enabled());
    // a slot that holds a virtual CPU of another machine
    pcpu.vcpu_array.array[3] = Some(v0);
    vgic_ipi_handler(&mut vgic, &mut g, &mut fx, &pcpu, message(InitcEvent::VgicdSetEn, 3, 70, 1));
    assert!(!irq(&vgic, &v0, 70).enabled());
    let empty = IpiMessage { ipi_type: IpiType::IpiTNone, ipi_message: IpiInnerMsg::Empty };
    vgic_ipi_handler(&mut vgic, &mut g, &mut fx, &pcpu, empty);
    vgic_ipi_handler(&mut vgic, &mut g, &mut fx, &pcpu, message(InitcEvent::Vgicdinject, 0, 70, 1));
    vgic_ipi_handler(&mut vgic, &mut g, &mut fx, &pcpu, message(InitcEvent::VgicdNone, 0, 70, 1));
    assert_eq!(irq(&vgic, &v0, 70).state(), IrqState::IrqSInactive);
    assert_eq!(g.hcr(), 0);
    assert!(fx.is_empty());
}

#[test]
fn every_forwarded_request_reaches_its_mutator() {
    let (mut vgic, vcpus, mut g, mut fx) = setup(1, 4);
    let v0 = vcpus[0];
    let pcpu = core_hosting(v0);
    vgic_ipi_handler(&mut vgic, &mut g, &mut fx, &pcpu, message(InitcEvent::VgicdSetAct, 0, 70, 1));
    assert_eq!(irq(&vgic, &v0, 70).state(), IrqState::IrqSActive);
    assert_eq!(acts(&vgic, 0), vec![70]);
    vgic_ipi_handler(&mut vgic, &mut g, &mut fx, &pcpu, message(InitcEvent::VgicdSetCfg, 0, 70, 2));
    assert_eq!(irq(&vgic, &v0, 70).cfg(), 2);
    vgic_ipi_handler(&mut vgic, &mut g, &mut fx, &pcpu, message(InitcEvent::VgicdSetPend, 0, 70, 1));
    assert_eq!(irq(&vgic, &v0, 70).state(), IrqState::IrqSPendActive);
    vgic_ipi_handler(&mut vgic, &mut g, &mut fx, &pcpu, message(InitcEvent::VgicdSetAct, 0, 70, 0));
    assert_eq!(irq(&vgic, &v0, 70).state(), IrqState::IrqSPend);
    assert!(acts(&vgic, 0).is_empty());
    assert_eq!(irq(&vgic, &v0, 70).prio(), 0xff);
    assert!(!irq(&vgic, &v0, 70).enabled());
    assert!(fx.is_empty());
}

#[test]
fn request_to_activate_travels_under_its_own_event() {
    let (mut vgic, vcpus, mut g0, mut fx) = setup(2, 4);
    let (v0, v1) = (vcpus[0], vcpus[1]);
    vgic.set_active(&mut g0, &mut fx, &v0, 70, true);
    let before = irq(&vgic, &v1, 70);
    let mut g1 = GicHypervisorInterface::new(1, 3);
    set_gic_lrs(&mut g1, 4);
    vgic.set_active(&mut g1, &mut fx, &v1, 70, false);
    assert_eq!(
        fx,
        vec![Effect::IpiSend {
            target: 0,
            msg: IpiInitcMessage { event: InitcEvent::VgicdSetAct, vm_id: 0, int_id: 70, val: 0 },
        }]
    );
    assert_eq!(irq(&vgic, &v1, 70), before);
    // the owner's core carries it out
    let pcpu0 = core_hosting(v0);
    fx.clear();
    vgic_ipi_handler(&mut vgic, &mut g0, &mut fx, &pcpu0, message(InitcEvent::VgicdSetAct, 0, 70, 0));
    assert_eq!(irq(&vgic, &v0, 70).state(), IrqState::IrqSInactive);
    assert_eq!(irq(&vgic, &v0, 70).owner(), None);
}

#[test]
fn one_end_of_interrupt_is_given_for_each_reading_of_the_count() {
    let (mut vgic, vcpus, mut g, mut fx) = setup(1, 4);
    let v0 = vcpus[0];
    for id in [40, 41, 42] {
        vgic.set_active(&mut g, &mut fx, &v0, id, true);
    }
    g.set_hcr((2 << 27) | 1);
    g.misr = 1 << 2;
    assert!(attend_list_registers(&mut vgic, &mut g, &mut fx, &v0));
    assert_eq!(g.hcr(), (2 << 27) | 1);
    assert_eq!(acts(&vgic, 0), vec![40, 41, 42]);

    assert!(end_spilled_interrupt(&mut vgic, &mut g, &mut fx, &v0));
    assert_eq!(g.hcr(), (1 << 27) | 1);
    assert_eq!(acts(&vgic, 0), vec![41, 42]);
    assert_eq!(irq(&vgic, &v0, 40).state(), IrqState::IrqSInactive);

    // the count as it reads now decides, not the count that was
    g.set_hcr((3 << 27) | 1);
    assert!(end_spilled_interrupt(&mut vgic, &mut g, &mut fx, &v0));
    assert_eq!(g.hcr(), (2 << 27) | 1);
    assert_eq!(acts(&vgic, 0), vec![42]);

    g.set_hcr(1);
    assert!(!end_spilled_interrupt(&mut vgic, &mut g, &mut fx, &v0));
    assert_eq!(g.hcr(), 1);
    assert_eq!(acts(&vgic, 0), vec![42]);
    assert_eq!(irq(&vgic, &v0, 42).state(), IrqState::IrqSActive);
    assert!(fx.is_empty());
}

#[test]
fn attention_to_the_list_registers_leaves_the_count_alone() {
    let (mut vgic, vcpus, mut g, mut fx) = setup(1, 4);
    let v0 = vcpus[0];
    vgic.set_enable(&mut g, &mut fx, &v0, 70, true);
    vgic.set_trgt(&mut g, &mut fx, &v0, 70, 1);
    vgic.set_active(&mut g, &mut fx, &v0, 41, true);
    g.set_hcr((1 << 27) | (1 << 3) | 1);
    g.misr = 1 << 3;
    assert!(!attend_list_registers(&mut vgic, &mut g, &mut fx, &v0));
    // nothing to refill from the pending list: the maintenance interrupt goes off
    assert_eq!(g.hcr(), (1 << 27) | 1);
    assert_eq!(acts(&vgic, 0), vec![41]);
}

#[test]
fn steps_taken_one_by_one_do_what_the_handler_does_at_once() {
    let (mut a, vcpus, mut ga, mut fa) = setup(1, 4);
    let (mut b, _, mut gb, mut fb) = setup(1, 4);
    let v0 = vcpus[0];
    for (vgic, g, fx) in [(&mut a, &mut ga, &mut fa), (&mut b, &mut gb, &mut fb)] {
        for id in [40, 41, 42, 43] {
            vgic.set_active(g, fx, &v0, id, true);
        }
        vgic.set_enable(g, fx, &v0, 41, true);
        vgic.set_trgt(g, fx, &v0, 41, 1);
        vgic.set_pend(g, fx, &v0, 41, true);
        g.set_hcr(3 << 27);
        g.misr = (1 << 2) | (1 << 3);
    }
    gic_maintenance_handler(&mut a, &mut ga, &mut fa, &v0);
    if attend_list_registers(&mut b, &mut gb, &mut fb, &v0) {
        while end_spilled_interrupt(&mut b, &mut gb, &mut fb, &v0) {}
    }
    assert_eq!(ga.hcr(), gb.hcr());
    assert_eq!(ga.lr, gb.lr);
    assert_eq!(fa, fb);
    assert_eq!(acts(&a, 0), acts(&b, 0));
    assert_eq!(pends(&a, 0), pends(&b, 0));
    for id in 40..44 {
        assert_eq!(irq(&a, &v0, id), irq(&b, &v0, id));
    }
}

#[test]
fn core_may_host_a_virtual_cpu_of_a_larger_machine() {
    let (mut vgic, vcpus, mut g, mut fx) = setup(1, 4);
    let v0 = vcpus[0];
    let mut pcpu = core_hosting(v0);
    // the fourth virtual CPU of another machine, which this controller does not have
    pcpu.vcpu_array.array[1] = Some(Vcpu { id: 3, phys_id: 0, vm_id: 1 });
    pcpu.vcpu_array.len = 2;
    vgic_ipi_handler(&mut vgic, &mut g, &mut fx, &pcpu, message(InitcEvent::VgicdSetEn, 0, 70, 1));
    assert!(irq(&vgic, &v0, 70).enabled());
    vgic_ipi_handler(&mut vgic, &mut g, &mut fx, &pcpu, message(InitcEvent::VgicdSetPrio, 0, 70, 0x40));
    assert_eq!(irq(&vgic, &v0, 70).prio(), 0x40);
    g.set_hcr(0b1000);
    vgic_ipi_handler(&mut vgic, &mut g, &mut fx, &pcpu, message(InitcEvent::VgicdGichEn, 0, 0, 1));
    assert_eq!(g.hcr(), 0b1001);
    // a slot whose virtual CPU is of another machine than the slot's: the message is dropped
    pcpu.vcpu_array.array[2] = Some(Vcpu { id: 9, phys_id: 0, vm_id: 5 });
    vgic_ipi_handler(&mut vgic, &mut g, &mut fx, &pcpu, message(InitcEvent::VgicdSetEn, 2, 71, 1));
    vgic_ipi_handler(&mut vgic, &mut g, &mut fx, &pcpu, message(InitcEvent::VgicdGichEn, 2, 0, 0));
    assert!(!irq(&vgic, &v0, 71).enabled());
    assert_eq!(g.hcr(), 0b1001);
    assert!(fx.is_empty());
}

#[test]
fn marking_an_interrupt_as_hardware_backed_changes_nothing_else() {
    let (mut vgic, vcpus, mut g, mut fx) = setup(2, 4);
    let (v0, v1) = (vcpus[0], vcpus[1]);
    vgic.set_enable(&mut g, &mut fx, &v0, 27, true);
    vgic.set_pend(&mut g, &mut fx, &v0, 27, true);
    vgic.set_active(&mut g, &mut fx, &v0, 50, true);
    vgic.vgicd.ctlr = 1;
    let mut vm = Vm::new(0);
    vm.vcpu_list.push(v0);
    let before: Vec<VgicInt> = (0..1024).map(|id| irq(&vgic, &v0, id)).collect();
    let before1: Vec<VgicInt> = (0..32).map(|id| irq(&vgic, &v1, id)).collect();
    let (p, a, lrs) = (pends(&vgic, 0), acts(&vgic, 0), vgic.cpu_priv[0].inner_mut.curr_lrs.clone());

    vgic_set_hw_int(&mut vgic, &vm, 27);
    vgic_set_hw_int(&mut vgic, &vm, 50);
    vgic_set_hw_int(&mut vgic, &vm, 3);
    vgic_set_hw_int(&mut vgic, &vm, 1024);

    assert_eq!(vgic.vgicd.ctlr, 1);
    assert_eq!(vgic.address_range, 0x0800_0000..0x0800_1000);
    assert_eq!((pends(&vgic, 0), acts(&vgic, 0)), (p, a));
    assert_eq!(vgic.cpu_priv[0].inner_mut.curr_lrs, lrs);
    for id in 0..1024usize {
        let now = irq(&vgic, &v0, id);
        assert_eq!(now.hw(), id == 27 || id == 50);
        let mut was = before[id];
        was.set_hw(now.hw());
        assert_eq!(now, was);
    }
    // the private interrupt of a virtual CPU of another machine is not marked
    for id in 0..32usize {
        assert_eq!(irq(&vgic, &v1, id), before1[id]);
    }
}

#[test]
fn interrupt_that_makes_room_joins_the_end_of_the_active_list() {
    let (mut vgic, vcpus, mut g, mut fx) = setup(1, 2);
    let v0 = vcpus[0];
    for (id, prio) in [(40, 0x40), (41, 0x50)] {
        vgic.set_enable(&mut g, &mut fx, &v0, id, true);
        vgic.set_trgt(&mut g, &mut fx, &v0, id, 1);
        vgic.set_prio(&mut g, &mut fx, &v0, id, prio);
        vgic.set_pend(&mut g, &mut fx, &v0, id, true);
        assert!(irq(&vgic, &v0, id).in_lr());
    }
    // one register pending, one active: nothing has to make room
    g.set_lr(1, (g.lr(1) & !(3 << 28)) | (2 << 28));
    vgic.set_enable(&mut g, &mut fx, &v0, 50, true);
    vgic.set_trgt(&mut g, &mut fx, &v0, 50, 1);
    vgic.set_active(&mut g, &mut fx, &v0, 50, true);
    vgic.set_pend(&mut g, &mut fx, &v0, 50, true);
    vgic.set_active(&mut g, &mut fx, &v0, 51, true);
    vgic.set_active(&mut g, &mut fx, &v0, 52, true);
    assert_eq!(acts(&vgic, 0), vec![50, 51, 52]);
    for id in [50, 51, 52] {
        assert!(!irq(&vgic, &v0, id).in_lr());
    }
    // both registers active now: the less urgent one makes room
    g.set_lr(0, (g.lr(0) & !(3 << 28)) | (2 << 28));
    g.set_hcr(1 << 27);
    g.misr = 1 << 2;
    fx.clear();
    gic_maintenance_handler(&mut vgic, &mut g, &mut fx, &v0);

    assert_eq!(g.hcr() >> 27, 0);
    assert_eq!(acts(&vgic, 0), vec![51, 52, 41]);
    let taken = irq(&vgic, &v0, 50);
    assert!(taken.in_lr());
    assert_eq!(taken.lr(), 1);
    assert_eq!(g.lr(1) & 0x3ff, 50);
    assert_eq!((g.lr(1) >> 28) & 3, 1);
    let evicted = irq(&vgic, &v0, 41);
    assert!(!evicted.in_lr());
    assert_eq!(evicted.state(), IrqState::IrqSActive);
    for id in [51, 52] {
        assert_eq!(irq(&vgic, &v0, id).state(), IrqState::IrqSActive);
        assert!(!irq(&vgic, &v0, id).in_lr());
    }
}

#[test]
fn more_ends_of_interrupt_than_spilled_interrupts_empty_the_list() {
    let (mut vgic, vcpus, mut g, mut fx) = setup(1, 4);
    let v0 = vcpus[0];
    for id in [60, 61] {
        vgic.set_active(&mut g, &mut fx, &v0, id, true);
    }
    vgic.set_active(&mut g, &mut fx, &v0, 20, true);
    assert_eq!(acts(&vgic, 0), vec![60, 61, 20]);
    g.set_hcr(5 << 27);
    g.misr = 1 << 2;
    let before: Vec<VgicInt> = (0..1024).map(|id| irq(&vgic, &v0, id)).collect();
    let lrs = g.lr.clone();
    gic_maintenance_handler(&mut vgic, &mut g, &mut fx, &v0);
    assert_eq!(g.hcr(), 0);
    assert!(acts(&vgic, 0).is_empty());
    assert_eq!(g.lr, lrs);
    for id in 0..1024usize {
        let now = irq(&vgic, &v0, id);
        if [60, 61, 20].contains(&id) {
            assert_eq!(now.state(), IrqState::IrqSInactive);
            assert!(!now.in_act());
            assert!(!now.in_lr());
        } else {
            assert_eq!(now, before[id]);
        }
    }
}
