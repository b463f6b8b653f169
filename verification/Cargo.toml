[package]
name = "arm_vgic"
version = "0.1.0"
edition = "2021"
publish = false

[dependencies]
arm-gic = "*"
lazy_static = "*"
log = "*"
spin = "*"
tock-registers = "*"
