use arm_vgic::irq::IrqState;
use arm_vgic::utils::{bit_extract, bit_get, bit_set, bitmap_find_nth, int_id_field, source_field};
use arm_vgic::vint::gic_is_priv;

#[test]
fn bit_extract_takes_the_field() {
    assert_eq!(bit_extract(0b1011_0110, 1, 3), 0b011);
    assert_eq!(bit_extract(0xdead_beef, 16, 16), 0xdead);
    assert_eq!(bit_extract(0xffff, 4, 0), 0);
    assert_eq!(bit_extract(0x7c45, 0, 10), 0x45);
    assert_eq!(bit_extract(0x7c45, 10, 5), 0x1f);
}

#[test]
fn bit_get_reads_one_bit() {
    assert_eq!(bit_get(0b100, 2), 1);
    assert_eq!(bit_get(0b100, 1), 0);
    assert_eq!(bit_get(usize::MAX, 31), 1);
}

#[test]
fn bit_set_sets_one_bit() {
    assert_eq!(bit_set(0, 5), 32);
    assert_eq!(bit_set(0b101, 0), 0b101);
    assert_eq!(bit_set(0b101, 1), 0b111);
}

#[test]
fn bitmap_find_nth_counts_from_one() {
    // bits 1, 4 and 6 are set
    let map = 0b0101_0010u64;
    assert_eq!(bitmap_find_nth(map, 0, 8, 1, true), Some(1));
    assert_eq!(bitmap_find_nth(map, 0, 8, 2, true), Some(4));
    assert_eq!(bitmap_find_nth(map, 0, 8, 3, true), Some(6));
    assert_eq!(bitmap_find_nth(map, 0, 8, 4, true), None);
    assert_eq!(bitmap_find_nth(map, 0, 8, 1, false), Some(0));
    assert_eq!(bitmap_find_nth(map, 0, 8, 2, false), Some(2));
    assert_eq!(bitmap_find_nth(map, 2, 6, 1, true), Some(4));
}

#[test]
fn bitmap_find_nth_edges() {
    assert_eq!(bitmap_find_nth(u64::MAX, 0, 64, 64, true), Some(63));
    assert_eq!(bitmap_find_nth(u64::MAX, 1, 64, 1, true), None);
    assert_eq!(bitmap_find_nth(u64::MAX, 0, 0, 1, true), None);
    assert_eq!(bitmap_find_nth(u64::MAX, 0, 8, 0, true), None);
    assert_eq!(bitmap_find_nth(0, 0, 64, 1, true), None);
    assert_eq!(bitmap_find_nth(1 << 63, 0, 64, 1, true), Some(63));
}

#[test]
fn interrupt_id_and_source_fields() {
    let int_id = 5 | (3 << 10);
    assert_eq!(int_id_field(int_id), 5);
    assert_eq!(source_field(int_id), 3);
    assert_eq!(int_id_field(0xffff_ffff), 1023);
    assert_eq!(source_field(0xffff_ffff), 31);
}

#[test]
fn irq_state_numbers() {
    assert_eq!(IrqState::IrqSInactive.to_num(), 0);
    assert_eq!(IrqState::IrqSPend.to_num(), 1);
    assert_eq!(IrqState::IrqSActive.to_num(), 2);
    assert_eq!(IrqState::IrqSPendActive.to_num(), 3);
    for n in 0..4 {
        assert_eq!(IrqState::num_to_state(n).to_num(), n);
    }
    assert_eq!(IrqState::num_to_state(3), IrqState::IrqSPendActive);
}

#[test]
fn irq_state_bits() {
    for n in 0..4usize {
        let s = IrqState::num_to_state(n);
        let pending = if s.is_pending() { 1 } else { 0 };
        let active = if s.is_active() { 1 } else { 0 };
        assert_eq!(n, pending | (active << 1));
        assert_eq!(IrqState::of_bits(s.is_pending(), s.is_active()), s);
    }
}

#[test]
fn private_interrupts_are_below_32() {
    assert!(gic_is_priv(0));
    assert!(gic_is_priv(15));
    assert!(gic_is_priv(31));
    assert!(!gic_is_priv(32));
    assert!(!gic_is_priv(1023));
}
