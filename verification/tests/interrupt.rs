use arm_vgic::irq::IrqState;
use arm_vgic::vcpu::Vcpu;
use arm_vgic::vint::{VgicInt, VgicIntInnerMut};
use arm_vgic::vint_private::{queue_remove, Sgis, VgicCpuPriv};
use std::collections::VecDeque;

#[test]
fn untouched_shared_interrupt() {
    let i = VgicInt::new(0);
    assert_eq!(i.id(), 32);
    assert!(!i.hw());
    assert_eq!(i.inner, VgicIntInnerMut::new());
    assert_eq!(i.owner(), None);
    assert_eq!(i.owner_id(), None);
    assert_eq!(i.owner_phys_id(), None);
    assert!(!i.in_lr());
    assert_eq!(i.lr(), 0);
    assert!(!i.enabled());
    assert_eq!(i.state(), IrqState::IrqSInactive);
    assert_eq!(i.prio(), 0xff);
    assert_eq!(i.targets(), 0);
    assert_eq!(i.cfg(), 0);
    assert!(!i.in_pend());
    assert!(!i.in_act());
    assert_eq!(VgicInt::new(991).id(), 1023);
}

#[test]
fn untouched_private_interrupt() {
    let owner = Vcpu { id: 2, phys_id: 5, vm_id: 1 };
    let i = VgicInt::priv_new(17, owner, 1 << 5, false);
    assert_eq!(i.id(), 17);
    assert_eq!(i.owner(), Some(owner));
    assert_eq!(i.owner_id(), Some(2));
    assert_eq!(i.owner_phys_id(), Some(5));
    assert_eq!(i.targets(), 0b10_0000);
    assert!(!i.enabled());
    assert_eq!(i.prio(), 0xff);
    assert_eq!(i.inner, VgicIntInnerMut::priv_new(owner, 1 << 5, false));
    // targets beyond the eighth core fall off the mask
    assert_eq!(VgicInt::priv_new(3, owner, 1 << 9, true).targets(), 0);
    assert!(VgicInt::priv_new(3, owner, 1, true).enabled());
}

#[test]
fn setters_change_one_field() {
    let owner = Vcpu { id: 0, phys_id: 0, vm_id: 0 };
    let fresh = VgicInt::new(8);
    let mut i = fresh;
    i.set_prio(0x40);
    assert_eq!(i, VgicInt { inner: VgicIntInnerMut { prio: 0x40, ..fresh.inner }, ..fresh });
    i = fresh;
    i.set_targets(3);
    assert_eq!(i, VgicInt { inner: VgicIntInnerMut { targets: 3, ..fresh.inner }, ..fresh });
    i = fresh;
    i.set_cfg(2);
    assert_eq!(i, VgicInt { inner: VgicIntInnerMut { cfg: 2, ..fresh.inner }, ..fresh });
    i = fresh;
    i.set_enabled(true);
    assert_eq!(i, VgicInt { inner: VgicIntInnerMut { enabled: true, ..fresh.inner }, ..fresh });
    i = fresh;
    i.set_in_lr(true);
    assert_eq!(i, VgicInt { inner: VgicIntInnerMut { in_lr: true, ..fresh.inner }, ..fresh });
    i = fresh;
    i.set_state(IrqState::IrqSPendActive);
    assert_eq!(i, VgicInt { inner: VgicIntInnerMut { state: IrqState::IrqSPendActive, ..fresh.inner }, ..fresh });
    i = fresh;
    i.set_hw(true);
    assert_eq!(i, VgicInt { hw: true, ..fresh });
    i = fresh;
    i.set_owner(owner);
    assert_eq!(i, VgicInt { inner: VgicIntInnerMut { owner: Some(owner), ..fresh.inner }, ..fresh });
    i.clear_owner();
    assert_eq!(i, fresh);
}

#[test]
fn empty_private_state() {
    let p = VgicCpuPriv::default();
    assert!(p.interrupts.is_empty());
    assert_eq!(p.inner_mut.curr_lrs, vec![0u16; 64]);
    assert_eq!(p.inner_mut.sgis, vec![Sgis { pend: 0, act: 0 }; 16]);
    assert_eq!(Sgis::default(), Sgis { pend: 0, act: 0 });
    assert!(p.inner_mut.pend_list.is_empty());
    assert!(p.inner_mut.act_list.is_empty());
}

#[test]
fn lists_keep_the_order_of_arrival() {
    let mut p = VgicCpuPriv::default();
    let a = VgicInt::new(8);
    let b = VgicInt::new(1);
    let c = VgicInt::new(30);
    p.inner_mut.pend_list_push(&a);
    p.inner_mut.pend_list_push(&b);
    p.inner_mut.pend_list_push(&c);
    p.inner_mut.act_list_push(&b);
    assert_eq!(p.inner_mut.pend_list, VecDeque::from(vec![40, 33, 62]));
    assert_eq!(p.inner_mut.act_list, VecDeque::from(vec![33]));
    p.inner_mut.pend_list_remove(&b);
    assert_eq!(p.inner_mut.pend_list, VecDeque::from(vec![40, 62]));
    p.inner_mut.pend_list_remove(&b);
    assert_eq!(p.inner_mut.pend_list, VecDeque::from(vec![40, 62]));
    p.inner_mut.act_list_remove(&a);
    assert_eq!(p.inner_mut.act_list, VecDeque::from(vec![33]));
    p.inner_mut.act_list_remove(&b);
    assert!(p.inner_mut.act_list.is_empty());
}

#[test]
fn queue_remove_takes_the_first_occurrence() {
    let mut list = VecDeque::from(vec![5u16, 7, 5, 9]);
    queue_remove(&mut list, 5);
    assert_eq!(list, VecDeque::from(vec![7, 5, 9]));
    queue_remove(&mut list, 6);
    assert_eq!(list, VecDeque::from(vec![7, 5, 9]));
    queue_remove(&mut list, 9);
    queue_remove(&mut list, 7);
    queue_remove(&mut list, 5);
    assert!(list.is_empty());
    queue_remove(&mut list, 5);
    assert!(list.is_empty());
}
