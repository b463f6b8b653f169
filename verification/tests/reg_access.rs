use arm_vgic::config::VgicGlobal;
use arm_vgic::effects::Effect;
use arm_vgic::gich::{set_gic_lrs, GicHypervisorInterface};
use arm_vgic::init::emu_intc_init;
use arm_vgic::ipi::{InitcEvent, IpiInitcMessage};
use arm_vgic::irq::IrqState;
use arm_vgic::reg_access::{vgic_target_translate, vgicd_emu_access_is_vaild, EmuContext, EmuDeviceType};
use arm_vgic::vcpu::{active_vcpu_id, active_vm_id, active_vm_ncpu, Pcpu, PcpuTrait, Vcpu, VcpuArray, VcpuTrait, Vm, VmTrait};
use arm_vgic::vgic::Vgic;

const BASE: usize = 0x0800_0000;

fn ctx(offset: usize, width: usize, write: bool) -> EmuContext {
    EmuContext { address: BASE + offset, width, write, sign_ext: false, reg: 3, reg_width: 8 }
}

fn setup(phys: &[usize]) -> (Vgic, Vm, GicHypervisorInterface, Vec<Effect>) {
    let vcpus: Vec<Vcpu> = phys.iter().enumerate().map(|(i, p)| Vcpu { id: i, phys_id: *p, vm_id: 7 }).collect();
    let vgg = VgicGlobal { nr_lr: 4, mainten_irq: 25, max_gic_vcpus: 8, typer: 0x1f, iidr: 0x43b };
    let vgic = emu_intc_init(BASE, 0x1000, &vcpus, &vgg).unwrap();
    let mut vm = Vm::new(7);
    vm.vcpu_list = vcpus.clone();
    let mut g = GicHypervisorInterface::new(phys[0], 3);
    set_gic_lrs(&mut g, 4);
    (vgic, vm, g, Vec::new())
}

#[test]
fn word_registers_take_aligned_words_only() {
    for offset in [0x000, 0x100, 0x180, 0x200, 0x280, 0x300, 0x380, 0xc00] {
        assert!(vgicd_emu_access_is_vaild(&ctx(offset, 4, true)), "offset {:#x}", offset);
        assert!(vgicd_emu_access_is_vaild(&ctx(offset + 0x7c, 4, false)));
        assert!(!vgicd_emu_access_is_vaild(&ctx(offset, 2, true)));
        assert!(!vgicd_emu_access_is_vaild(&ctx(offset, 1, true)));
        assert!(!vgicd_emu_access_is_vaild(&ctx(offset + 2, 4, true)));
    }
}

#[test]
fn byte_registers_take_bytes_and_aligned_halfwords_and_words() {
    for offset in [0xf00, 0x400, 0x7fc, 0x800, 0xbfc] {
        assert!(vgicd_emu_access_is_vaild(&ctx(offset, 4, true)));
        assert!(vgicd_emu_access_is_vaild(&ctx(offset, 2, true)));
        assert!(vgicd_emu_access_is_vaild(&ctx(offset + 1, 1, true)));
        assert!(vgicd_emu_access_is_vaild(&ctx(offset + 2, 2, false)));
        assert!(!vgicd_emu_access_is_vaild(&ctx(offset + 1, 2, true)));
        assert!(!vgicd_emu_access_is_vaild(&ctx(offset + 2, 4, true)));
    }
    // anything else is accepted as it comes
    assert!(vgicd_emu_access_is_vaild(&ctx(0xd01, 4, true)));
    assert!(vgicd_emu_access_is_vaild(&ctx(0x081, 2, false)));
}

#[test]
fn misaligned_access_is_refused_and_changes_nothing() {
    let (mut vgic, vm, mut g, mut fx) = setup(&[0]);
    let v0 = vm.vcpu_list[0];
    vgic.set_bitmap(40);
    let r = vgic.handler(&mut g, &mut fx, &vm, &v0, BASE, &ctx(0x106, 4, true), 1 << 8);
    assert_eq!(r, (false, None));
    assert!(!vgic.get_enable(&v0, 40));
    assert_eq!(vgic.emu_type(), EmuDeviceType::EmuDeviceTGicd);
}

#[test]
fn enable_registers_set_clear_and_read_back() {
    let (mut vgic, vm, mut g, mut fx) = setup(&[0]);
    let v0 = vm.vcpu_list[0];
    vgic.set_bitmap(40);
    let r = vgic.handler(&mut g, &mut fx, &vm, &v0, BASE, &ctx(0x104, 4, true), (1 << 8) | (1 << 9));
    assert_eq!(r, (true, None));
    assert!(vgic.get_enable(&v0, 40));
    assert!(vgic.get_enable(&v0, 41));
    assert!(!vgic.get_enable(&v0, 42));
    let r = vgic.handler(&mut g, &mut fx, &vm, &v0, BASE, &ctx(0x104, 4, false), 0);
    assert_eq!(r, (true, Some((1 << 8) | (1 << 9))));
    let r = vgic.handler(&mut g, &mut fx, &vm, &v0, BASE, &ctx(0x184, 4, true), 1 << 9);
    assert_eq!(r, (true, None));
    let r = vgic.handler(&mut g, &mut fx, &vm, &v0, BASE, &ctx(0x184, 4, false), 0);
    assert_eq!(r, (true, Some(1 << 8)));
}

#[test]
fn interrupts_that_the_machine_lacks_are_ignored() {
    let (mut vgic, vm, mut g, mut fx) = setup(&[0]);
    let v0 = vm.vcpu_list[0];
    let r = vgic.handler(&mut g, &mut fx, &vm, &v0, BASE, &ctx(0x104, 4, true), 1 << 8);
    assert_eq!(r, (true, None));
    assert!(!vgic.get_enable(&v0, 40));
    // a load of set-enable is ignored too, one of clear-enable is not
    assert_eq!(vgic.handler(&mut g, &mut fx, &vm, &v0, BASE, &ctx(0x104, 4, false), 0), (true, None));
    assert_eq!(vgic.handler(&mut g, &mut fx, &vm, &v0, BASE, &ctx(0x184, 4, false), 0), (true, Some(0)));
    // an emulated device's interrupt counts
    vgic.set_emu_irq_map(63);
    vgic.handler(&mut g, &mut fx, &vm, &v0, BASE, &ctx(0x104, 4, true), 1 << 8);
    assert!(vgic.get_enable(&v0, 40));
}

#[test]
fn private_enable_bits_skip_software_generated_interrupts() {
    let (mut vgic, vm, mut g, mut fx) = setup(&[0]);
    let v0 = vm.vcpu_list[0];
    let r = vgic.handler(&mut g, &mut fx, &vm, &v0, BASE, &ctx(0x180, 4, true), 0xffff_ffff);
    assert_eq!(r, (true, None));
    vgic.handler(&mut g, &mut fx, &vm, &v0, BASE, &ctx(0x100, 4, true), 1 << 27);
    let r = vgic.handler(&mut g, &mut fx, &vm, &v0, BASE, &ctx(0x100, 4, false), 0);
    assert_eq!(r, (true, Some(0xffff | (1 << 27))));
}

#[test]
fn pending_and_active_registers() {
    let (mut vgic, vm, mut g, mut fx) = setup(&[0]);
    let v0 = vm.vcpu_list[0];
    vgic.set_bitmap(32);
    vgic.set_bitmap(64);
    assert_eq!(vgic.handler(&mut g, &mut fx, &vm, &v0, BASE, &ctx(0x204, 4, true), 0b101), (true, None));
    assert_eq!(vgic.get_int(&v0, 32).unwrap().state(), IrqState::IrqSPend);
    assert_eq!(vgic.get_int(&v0, 34).unwrap().state(), IrqState::IrqSPend);
    assert_eq!(vgic.handler(&mut g, &mut fx, &vm, &v0, BASE, &ctx(0x204, 4, false), 0), (true, Some(0b101)));
    assert_eq!(vgic.handler(&mut g, &mut fx, &vm, &v0, BASE, &ctx(0x284, 4, true), 0b100), (true, None));
    assert_eq!(vgic.handler(&mut g, &mut fx, &vm, &v0, BASE, &ctx(0x284, 4, false), 0), (true, Some(0b001)));

    assert_eq!(vgic.handler(&mut g, &mut fx, &vm, &v0, BASE, &ctx(0x308, 4, true), 1 << 31), (true, None));
    assert_eq!(vgic.get_int(&v0, 95).unwrap().state(), IrqState::IrqSActive);
    assert_eq!(vgic.handler(&mut g, &mut fx, &vm, &v0, BASE, &ctx(0x308, 4, false), 0), (true, Some(1 << 31)));
    assert_eq!(vgic.handler(&mut g, &mut fx, &vm, &v0, BASE, &ctx(0x388, 4, true), 1 << 31), (true, None));
    assert_eq!(vgic.handler(&mut g, &mut fx, &vm, &v0, BASE, &ctx(0x388, 4, false), 0), (true, Some(0)));
    assert!(fx.is_empty());
}

#[test]
fn pending_register_reads_the_state_in_the_list_register() {
    let (mut vgic, vm, mut g, mut fx) = setup(&[0]);
    let v0 = vm.vcpu_list[0];
    vgic.set_bitmap(32);
    vgic.set_enable(&mut g, &mut fx, &v0, 40, true);
    vgic.set_trgt(&mut g, &mut fx, &v0, 40, 1);
    vgic.set_pend(&mut g, &mut fx, &v0, 40, true);
    assert!(vgic.get_int(&v0, 40).unwrap().in_lr());
    assert_eq!(vgic.handler(&mut g, &mut fx, &vm, &v0, BASE, &ctx(0x204, 4, false), 0), (true, Some(1 << 8)));
    assert_eq!(vgic.handler(&mut g, &mut fx, &vm, &v0, BASE, &ctx(0x304, 4, false), 0), (true, Some(0)));
    let lr = g.lr(0);
    g.set_lr(0, (lr & !(3 << 28)) | (2 << 28));
    assert_eq!(vgic.handler(&mut g, &mut fx, &vm, &v0, BASE, &ctx(0x204, 4, false), 0), (true, Some(0)));
    assert_eq!(vgic.handler(&mut g, &mut fx, &vm, &v0, BASE, &ctx(0x304, 4, false), 0), (true, Some(1 << 8)));
}

#[test]
fn priority_registers_by_byte_and_word() {
    let (mut vgic, vm, mut g, mut fx) = setup(&[0]);
    let v0 = vm.vcpu_list[0];
    vgic.set_bitmap(40);
    assert_eq!(vgic.handler(&mut g, &mut fx, &vm, &v0, BASE, &ctx(0x400 + 40, 1, true), 0x5c), (true, None));
    assert_eq!(vgic.get_prio(&v0, 40), 0x50);
    assert_eq!(vgic.handler(&mut g, &mut fx, &vm, &v0, BASE, &ctx(0x400 + 40, 4, true), 0x10_20_30_40), (true, None));
    assert_eq!(vgic.get_prio(&v0, 40), 0x40);
    assert_eq!(vgic.get_prio(&v0, 41), 0x30);
    assert_eq!(vgic.get_prio(&v0, 42), 0x20);
    assert_eq!(vgic.get_prio(&v0, 43), 0x10);
    assert_eq!(
        vgic.handler(&mut g, &mut fx, &vm, &v0, BASE, &ctx(0x400 + 40, 4, false), 0),
        (true, Some(0x10_20_30_40))
    );
    assert_eq!(vgic.handler(&mut g, &mut fx, &vm, &v0, BASE, &ctx(0x400 + 42, 2, false), 0), (true, Some(0x10_20)));
    // a store to interrupts that the machine lacks is ignored, a load is not
    assert_eq!(vgic.handler(&mut g, &mut fx, &vm, &v0, BASE, &ctx(0x400 + 80, 1, true), 0x50), (true, None));
    assert_eq!(vgic.handler(&mut g, &mut fx, &vm, &v0, BASE, &ctx(0x400 + 80, 1, false), 0), (true, Some(0xff)));
}

#[test]
fn target_registers_map_between_virtual_cpus_and_cores() {
    let (mut vgic, vm, mut g, mut fx) = setup(&[2, 1]);
    let v0 = vm.vcpu_list[0];
    assert_eq!(vgic.handler(&mut g, &mut fx, &vm, &v0, BASE, &ctx(0x800 + 40, 1, true), 0b01), (true, None));
    assert_eq!(vgic.get_trgt(&v0, 40), 0b100);
    assert_eq!(vgic.handler(&mut g, &mut fx, &vm, &v0, BASE, &ctx(0x800 + 41, 1, true), 0b11), (true, None));
    assert_eq!(vgic.get_trgt(&v0, 41), 0b110);
    assert_eq!(vgic.handler(&mut g, &mut fx, &vm, &v0, BASE, &ctx(0x800 + 40, 2, false), 0), (true, Some(0x0301)));
    assert_eq!(vgic_target_translate(&vm, 0x0102_0300, true), 0x0402_0600);
    assert_eq!(vgic_target_translate(&vm, 0x0402_0600, false), 0x0102_0300);
    assert_eq!(vgic_target_translate(&vm, 0xf8f8_f8f8, true), 0);
}

#[test]
fn configuration_registers_hold_two_bits_per_interrupt() {
    let (mut vgic, vm, mut g, mut fx) = setup(&[0]);
    let v0 = vm.vcpu_list[0];
    vgic.set_bitmap(64);
    let r = vgic.handler(&mut g, &mut fx, &vm, &v0, BASE, &ctx(0xc10, 4, true), 0b10 | (0b11 << 30) | (0b01 << 4));
    assert_eq!(r, (true, None));
    assert_eq!(vgic.get_icfgr(&v0, 64), 0b10);
    assert_eq!(vgic.get_icfgr(&v0, 65), 0);
    assert_eq!(vgic.get_icfgr(&v0, 66), 0b01);
    assert_eq!(vgic.get_icfgr(&v0, 79), 0b11);
    let r = vgic.handler(&mut g, &mut fx, &vm, &v0, BASE, &ctx(0xc10, 4, false), 0);
    assert_eq!(r, (true, Some(0b10 | (0b11 << 30) | (0b01 << 4))));
}

#[test]
fn control_register_switches_the_interface_and_tells_the_others() {
    let (mut vgic, vm, mut g, mut fx) = setup(&[0]);
    let v0 = vm.vcpu_list[0];
    assert_eq!(vgic.handler(&mut g, &mut fx, &vm, &v0, BASE, &ctx(0, 4, false), 0), (true, Some(0b10)));
    assert_eq!(vgic.handler(&mut g, &mut fx, &vm, &v0, BASE, &ctx(0, 4, true), 0xff), (true, None));
    assert_eq!(vgic.vgicd_ctlr(), 1);
    assert_eq!(g.hcr(), 1);
    let told = |val| Effect::IpiBroadcast {
        vm_id: 7,
        msg: IpiInitcMessage { event: InitcEvent::VgicdGichEn, vm_id: 7, int_id: 0, val },
    };
    assert_eq!(fx, vec![told(1)]);
    // the same value again changes nothing
    assert_eq!(vgic.handler(&mut g, &mut fx, &vm, &v0, BASE, &ctx(0, 4, true), 1), (true, None));
    assert_eq!(fx.len(), 1);
    assert_eq!(vgic.handler(&mut g, &mut fx, &vm, &v0, BASE, &ctx(0, 4, true), 0), (true, None));
    assert_eq!(g.hcr(), 0);
    assert_eq!(fx, vec![told(1), told(0)]);
}

#[test]
fn type_and_identification_registers_are_read_only() {
    let (mut vgic, vm, mut g, mut fx) = setup(&[0]);
    let v0 = vm.vcpu_list[0];
    assert_eq!(vgic.handler(&mut g, &mut fx, &vm, &v0, BASE, &ctx(4, 4, false), 0), (true, Some(0x1f)));
    assert_eq!(vgic.handler(&mut g, &mut fx, &vm, &v0, BASE, &ctx(8, 4, false), 0), (true, Some(0x43b)));
    assert_eq!(vgic.handler(&mut g, &mut fx, &vm, &v0, BASE, &ctx(4, 4, true), 9), (true, None));
    assert_eq!(vgic.vgicd_typer(), 0x1f);
    assert_eq!(vgic.handler(&mut g, &mut fx, &vm, &v0, BASE, &ctx(0x0c, 4, false), 0), (true, Some(0)));
    assert_eq!(vgic.handler(&mut g, &mut fx, &vm, &v0, BASE, &ctx(0xd00, 4, false), 0), (true, Some(0)));
    assert_eq!(vgic.handler(&mut g, &mut fx, &vm, &v0, BASE, &ctx(0xd00, 4, true), 5), (true, None));
}

#[test]
fn software_generated_interrupt_register_sends_to_the_named_cores() {
    let (mut vgic, vm, mut g, mut fx) = setup(&[2, 1]);
    let v1 = vm.vcpu_list[1];
    let sent = |target| Effect::IpiSend {
        target,
        msg: IpiInitcMessage { event: InitcEvent::VgicdSetPend, vm_id: 7, int_id: 5 | (1 << 10), val: 1 },
    };
    // to this core
    let r = vgic.handler(&mut g, &mut fx, &vm, &v1, BASE, &ctx(0xf00, 4, true), 5 | (2 << 24));
    assert_eq!(r, (true, None));
    assert_eq!(fx, vec![sent(1)]);
    fx.clear();
    // to the listed virtual CPUs
    vgic.handler(&mut g, &mut fx, &vm, &v1, BASE, &ctx(0xf00, 4, true), 5 | (0b11 << 16));
    assert_eq!(fx, vec![sent(1), sent(2)]);
    fx.clear();
    // the reserved filter, a load, and the neighbouring registers do nothing
    vgic.handler(&mut g, &mut fx, &vm, &v1, BASE, &ctx(0xf00, 4, true), 5 | (3 << 24));
    vgic.handler(&mut g, &mut fx, &vm, &v1, BASE, &ctx(0xf00, 4, false), 0);
    vgic.handler(&mut g, &mut fx, &vm, &v1, BASE, &ctx(0xf10, 4, true), 5 | (2 << 24));
    assert!(fx.is_empty());
}

#[test]
fn core_and_machine_descriptions() {
    let v = Vcpu { id: 1, phys_id: 3, vm_id: 2 };
    assert_eq!((v.if_id(), v.if_phys_id(), v.if_vm_id()), (1, 3, 2));
    let mut vm = Vm::new(2);
    assert_eq!(vm.if_id(), 2);
    assert_eq!(vm.cpu_num(), 0);
    assert_eq!(vm.vcpu(0), None);
    vm.vcpu_list.push(Vcpu { id: 0, phys_id: 5, vm_id: 2 });
    vm.vcpu_list.push(v);
    assert_eq!(vm.vcpu(1), Some(v));
    assert_eq!(vm.vcpu(2), None);
    assert_eq!(active_vm_ncpu(&vm), 2);
    assert_eq!(vm.vcpu_to_pcpu_mask(0b11, 8), (1 << 5) | (1 << 3));
    assert_eq!(vm.vcpu_to_pcpu_mask(0b10, 8), 1 << 3);
    assert_eq!(vm.vcpu_to_pcpu_mask(0b11, 1), 1 << 5);
    assert_eq!(vm.vcpu_to_pcpu_mask(0b100, 8), 0);
    assert_eq!(vm.pcpu_to_vcpu_mask((1 << 5) | (1 << 3) | 1, 8), 0b11);
    assert_eq!(vm.vcpu_on(3), Some(v));
    assert_eq!(vm.vcpu_on(4), None);

    let mut pcpu = Pcpu::new(3);
    assert_eq!(pcpu.id(), 3);
    assert_eq!(pcpu.active_vcpu, None);
    assert_eq!(pcpu.vcpu_array.pop_vcpu_through_vmid(2), None);
    pcpu.vcpu_array.array[2] = Some(v);
    pcpu.active_vcpu = Some(v);
    assert_eq!(pcpu.vcpu_array.pop_vcpu_through_vmid(2), Some(v));
    assert_eq!(pcpu.vcpu_array.pop_vcpu_through_vmid(64), None);
    assert_eq!(active_vm_id(&pcpu), 2);
    assert_eq!(active_vcpu_id(&pcpu), 1);
    assert_eq!(VcpuArray::new().array.len(), 64);
}
