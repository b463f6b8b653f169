use arm_vgic::config::VgicGlobal;

#[test]
fn test1() {
    let vgg = VgicGlobal { nr_lr: 1, mainten_irq: 32, max_gic_vcpus: 32, typer: 0, iidr: 0 };
    let slot = VgicGlobal::new(vgg);
    let outcome: Result<(), String> = match slot {
        Some(installed) if installed == vgg => Ok(()),
        _ => Err(String::from("test1 failed")),
    };
    assert_eq!(outcome, Ok(()));
}
