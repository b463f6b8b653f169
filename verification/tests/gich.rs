use arm_vgic::gich::{
    gic_lrs, lr_val_cpuid, lr_val_has_eoi, lr_val_id, lr_val_is_empty, lr_val_prio, lr_val_state, set_gic_lrs,
    GicHypervisorInterface,
};
use arm_vgic::vgic_state::GicState;

#[test]
fn reset_bank_is_empty() {
    let g = GicHypervisorInterface::new(2, 3);
    assert_eq!(g.cpu_id, 2);
    assert_eq!(g.gich_lrs_num(), 4);
    assert_eq!(gic_lrs(&g), 0);
    assert_eq!(g.hcr(), 0);
    assert_eq!(g.elrsr(0), 0xffff_ffff);
    assert_eq!(g.elrsr(1), 0xffff_ffff);
    assert_eq!(g.eisr(0), 0);
    assert_eq!(g.eisr(1), 0);
    for i in 0..64 {
        assert_eq!(g.lr(i), 0);
    }
}

#[test]
fn lrs_num_comes_from_the_type_register() {
    assert_eq!(GicHypervisorInterface::new(0, 0).gich_lrs_num(), 1);
    assert_eq!(GicHypervisorInterface::new(0, 0x1f).gich_lrs_num(), 32);
    assert_eq!(GicHypervisorInterface::new(0, 0xffff_ffe3).gich_lrs_num(), 4);
}

#[test]
fn list_register_fields() {
    let lr: u32 = 0x9a5_2c45;
    assert_eq!(lr_val_id(lr), 0x045);
    assert_eq!(lr_val_cpuid(lr), 0b011);
    assert_eq!(lr_val_prio(lr), (lr >> 23) & 0x1f);
    assert_eq!(lr_val_state(lr), (lr >> 28) & 3);
    let pending = 34 | (1 << 28);
    assert_eq!(lr_val_id(pending), 34);
    assert_eq!(lr_val_state(pending), 1);
    assert!(!lr_val_is_empty(pending));
    assert!(!lr_val_has_eoi(pending));
}

#[test]
fn empty_and_end_of_interrupt_values() {
    assert!(lr_val_is_empty(0));
    assert!(!lr_val_has_eoi(0));
    let eoi = 34 | (1 << 19);
    assert!(!lr_val_is_empty(eoi));
    assert!(lr_val_has_eoi(eoi));
    let hw_idle = 34 | (1 << 31) | (1 << 19);
    assert!(lr_val_is_empty(hw_idle));
    assert!(!lr_val_has_eoi(hw_idle));
    let active = 34 | (2 << 28) | (1 << 19);
    assert!(!lr_val_is_empty(active));
    assert!(!lr_val_has_eoi(active));
}

#[test]
fn writing_a_list_register_refreshes_its_status_bits() {
    let mut g = GicHypervisorInterface::new(0, 3);
    g.set_lr(2, 40 | (1 << 28));
    assert_eq!(g.lr(2), 40 | (1 << 28));
    assert_eq!(g.elrsr(0), 0xffff_fffb);
    assert_eq!(g.eisr(0), 0);
    g.set_lr(2, 40 | (1 << 19));
    assert_eq!(g.elrsr(0), 0xffff_fffb);
    assert_eq!(g.eisr(0), 0b100);
    g.set_lr(2, 0);
    assert_eq!(g.elrsr(0), 0xffff_ffff);
    assert_eq!(g.eisr(0), 0);
    g.set_lr(40, 7 | (2 << 28));
    assert_eq!(g.elrsr(1), 0xffff_feff);
    assert_eq!(g.elrsr(0), 0xffff_ffff);
}

#[test]
fn init_clears_implemented_registers_and_enables_maintenance() {
    let mut g = GicHypervisorInterface::new(0, 1);
    g.set_lr(0, 33 | (1 << 28));
    g.set_lr(1, 34 | (1 << 19));
    g.set_lr(2, 35 | (1 << 28));
    g.set_hcr(1);
    g.init();
    assert_eq!(g.lr(0), 0);
    assert_eq!(g.lr(1), 0);
    assert_eq!(g.lr(2), 35 | (1 << 28));
    assert_eq!(g.hcr(), 0b101);
    assert_eq!(g.elrsr(0), 0xffff_fffb);
    assert_eq!(g.eisr(0), 0);
}

#[test]
fn control_and_priority_registers_are_plain_storage() {
    let mut g = GicHypervisorInterface::new(0, 3);
    g.set_hcr(0xdead_0001);
    g.set_apr(0x55);
    assert_eq!(g.hcr(), 0xdead_0001);
    assert_eq!(g.apr(), 0x55);
    assert_eq!(g.misr(), 0);
    set_gic_lrs(&mut g, 4);
    assert_eq!(gic_lrs(&g), 4);
}

#[test]
fn snapshot_saves_what_is_not_empty() {
    let mut g = GicHypervisorInterface::new(0, 3);
    g.set_hcr(5);
    g.set_apr(9);
    g.set_lr(0, 33 | (1 << 28));
    g.set_lr(3, 36 | (2 << 28));
    g.lr[1] = 77;
    let mut s = GicState::default();
    s.save_state(&g, 0x1e7);
    assert_eq!(s.hcr, 5);
    assert_eq!(s.apr, 9);
    assert_eq!(s.ctlr, 0x1e7);
    assert_eq!(s.elrsr[0], 0xffff_fff6);
    assert_eq!(s.elrsr[1], 0xffff_ffff);
    assert_eq!(s.eisr, [0, 0]);
    assert_eq!(s.lr[0], 33 | (1 << 28));
    assert_eq!(s.lr[1], 0);
    assert_eq!(s.lr[2], 0);
    assert_eq!(s.lr[3], 36 | (2 << 28));
}

#[test]
fn snapshot_restores_control_and_list_registers() {
    let mut s = GicState::default();
    s.hcr = 0x11;
    s.apr = 0x22;
    s.ctlr = 0x33;
    s.lr[0] = 40 | (1 << 28);
    s.lr[3] = 41 | (1 << 19);
    s.lr[4] = 42 | (1 << 28);
    let mut g = GicHypervisorInterface::new(1, 3);
    let ctlr = s.restore_state(&mut g);
    assert_eq!(ctlr, 0x33);
    assert_eq!(g.hcr(), 0x11);
    assert_eq!(g.apr(), 0x22);
    assert_eq!(g.lr(0), 40 | (1 << 28));
    assert_eq!(g.lr(3), 41 | (1 << 19));
    assert_eq!(g.lr(4), 0);
    assert_eq!(g.elrsr(0), 0xffff_fff6);
    assert_eq!(g.eisr(0), 0b1000);
}
