//! The guest's view of the distributor: decoding a trapped access to a
//! distributor register into requests to the engine.
//!
//! An access is described by an [`EmuContext`]. For a store the caller passes
//! the value of the guest register that is stored; for a load the functions
//! return the value that belongs into the guest register.

use vstd::prelude::*;
use crate::consts::{
    GIC_INTS_MAX,
    GIC_SGIS_NUM,
    VGICD_REG_OFFSET_PREFIX_CTLR,
    VGICD_REG_OFFSET_PREFIX_ICACTIVER,
    VGICD_REG_OFFSET_PREFIX_ICENABLER,
    VGICD_REG_OFFSET_PREFIX_ICFGR,
    VGICD_REG_OFFSET_PREFIX_ICPENDR,
    VGICD_REG_OFFSET_PREFIX_ISACTIVER,
    VGICD_REG_OFFSET_PREFIX_ISENABLER,
    VGICD_REG_OFFSET_PREFIX_ISPENDR,
    VGICD_REG_OFFSET_PREFIX_SGIR,
};
use crate::effects::Effect;
use crate::gich::{GicHypervisorInterface, GichView};
use crate::ipi::{hcr_with_enable, InitcEvent, IpiInitcMessage};
use crate::lr::{num_active, num_pending};
use crate::utils::{bit_extract, bit_get, spec_bit_extract, spec_bit_get};
use crate::vcpu::{Vcpu, Vm};
use crate::vgic::{sys_of, Sys, Vgic, VgicView, INT_BITMAP_BITS};
use crate::vint::{spec_vgic_get_state, vgic_get_state};

verus! {

/// A trapped guest access to an emulated device.
#[derive(Clone, Copy, Debug, PartialEq, Eq, Structural)]
pub struct EmuContext {
    /// The guest address that was accessed.
    pub address: usize,
    /// The width of the access in bytes.
    pub width: usize,
    /// Whether the access is a store.
    pub write: bool,
    pub sign_ext: bool,
    /// The guest register that is stored or loaded.
    pub reg: usize,
    pub reg_width: usize,
}

/// The kinds of emulated devices.
#[derive(Clone, Copy, Debug, PartialEq, Eq, Structural)]
pub enum EmuDeviceType {
    EmuDeviceTConsole,
    EmuDeviceTGicd,
}

/// The offset of an address within the distributor's register block.
pub open spec fn access_offset(address: usize) -> usize {
    address & 0xfff
}

/// The number of the 128-byte group of registers that an address lies in.
pub open spec fn access_prefix(address: usize) -> usize {
    (access_offset(address) & 0xf80) >> 7
}

/// Whether an access of two or four bytes is not aligned to its width.
pub open spec fn access_misaligned(ctx: EmuContext) -> bool {
    (ctx.width == 4 && ctx.address & 0x3 != 0) || (ctx.width == 2 && ctx.address & 0x1 != 0)
}

/// Whether the group of registers takes aligned word accesses only.
pub open spec fn word_only_prefix(prefix: usize) -> bool {
    prefix == VGICD_REG_OFFSET_PREFIX_CTLR || prefix == VGICD_REG_OFFSET_PREFIX_ISENABLER || prefix
        == VGICD_REG_OFFSET_PREFIX_ISPENDR || prefix == VGICD_REG_OFFSET_PREFIX_ISACTIVER || prefix
        == VGICD_REG_OFFSET_PREFIX_ICENABLER || prefix == VGICD_REG_OFFSET_PREFIX_ICPENDR || prefix
        == VGICD_REG_OFFSET_PREFIX_ICACTIVER || prefix == VGICD_REG_OFFSET_PREFIX_ICFGR
}

/// Whether the distributor accepts the access: the word-only groups take
/// aligned word accesses; the software-generated-interrupt registers and the
/// priority and target registers take any access that is not a misaligned
/// halfword or word; everything else is accepted.
pub open spec fn access_is_valid(ctx: EmuContext) -> bool {
    let offset = access_offset(ctx.address);
    let prefix = access_prefix(ctx.address);
    if word_only_prefix(prefix) {
        ctx.width == 4 && ctx.address & 0x3 == 0
    } else if prefix == VGICD_REG_OFFSET_PREFIX_SGIR {
        !access_misaligned(ctx)
    } else if 0x400 <= offset < 0xc00 {
        !access_misaligned(ctx)
    } else {
        true
    }
}

/// Tells whether the distributor accepts the access.
pub fn vgicd_emu_access_is_vaild(emu_ctx: &EmuContext) -> (r: bool)
    ensures
        r == access_is_valid(*emu_ctx),
{
    let offset = emu_ctx.address & 0xfff;
    let offset_prefix = (offset & 0xf80) >> 7;
    if offset_prefix == VGICD_REG_OFFSET_PREFIX_CTLR || offset_prefix == VGICD_REG_OFFSET_PREFIX_ISENABLER
        || offset_prefix == VGICD_REG_OFFSET_PREFIX_ISPENDR || offset_prefix == VGICD_REG_OFFSET_PREFIX_ISACTIVER
        || offset_prefix == VGICD_REG_OFFSET_PREFIX_ICENABLER || offset_prefix == VGICD_REG_OFFSET_PREFIX_ICPENDR
        || offset_prefix == VGICD_REG_OFFSET_PREFIX_ICACTIVER || offset_prefix == VGICD_REG_OFFSET_PREFIX_ICFGR {
        if emu_ctx.width != 4 || emu_ctx.address & 0x3 != 0 {
            return false;
        }
    } else if offset_prefix == VGICD_REG_OFFSET_PREFIX_SGIR {
        if (emu_ctx.width == 4 && emu_ctx.address & 0x3 != 0) || (emu_ctx.width == 2 && emu_ctx.address & 0x1
            != 0) {
            return false;
        }
    } else {
        if 0x400 <= offset && offset < 0xc00 && ((emu_ctx.width == 4 && emu_ctx.address & 0x3 != 0) || (
        emu_ctx.width == 2 && emu_ctx.address & 0x1 != 0)) {
            return false;
        }
    }
    true
}

/// The first interrupt of the one-bit-per-interrupt register at `address`.
pub open spec fn bitmap_first_int(address: usize) -> usize {
    (((address & 0b1111111) / 4) * 32) as usize
}

/// The first interrupt of the configuration register at `address`.
pub open spec fn icfgr_first_int(address: usize) -> usize {
    ((16 * spec_bit_extract(address, 0, 9)) / 4) as usize
}

/// The first interrupt of the byte-per-interrupt register at `address`.
pub open spec fn byte_first_int(address: usize) -> usize {
    spec_bit_extract(address, 0, 9)
}

/// Whether the machine has one of the `n` interrupts from `first`, passed
/// through or of an emulated device.
pub open spec fn has_interrupt_in(v: VgicView, first: int, n: int) -> bool
    decreases n,
{
    if n <= 0 {
        false
    } else {
        has_interrupt_in(v, first, n - 1) || v.int_bitmap[first + n - 1] || v.emu_irq_map.contains(
            (first + n - 1) as u64,
        )
    }
}

/// Whether an access to the registers of the interrupts from `first` is
/// ignored: the machine has none of the `n` interrupts from `first`, and
/// `first` is beyond the software-generated interrupts.
pub open spec fn access_ignored(v: VgicView, first: int, n: int) -> bool {
    first >= GIC_SGIS_NUM && !has_interrupt_in(v, first, n)
}

/// The word with bit `i` set for each of the `n` interrupts from `first`
/// that is enabled.
pub open spec fn enable_word(v: VgicView, vcpu_id: int, first: int, n: int) -> usize
    decreases n,
{
    if n <= 0 {
        0
    } else {
        let w = enable_word(v, vcpu_id, first, n - 1);
        if v.irq(vcpu_id, first + n - 1).inner.enabled {
            w | (1usize << ((n - 1) as usize))
        } else {
            w
        }
    }
}

/// The word that is `val` with bit `i` set for each of the `n` interrupts
/// from `first` whose state has the pending (`pending`) or the active bit.
pub open spec fn state_word(v: VgicView, g: GichView, vcpu: Vcpu, first: int, n: int, pending: bool) -> usize
    decreases n,
{
    if n <= 0 {
        0
    } else {
        let w = state_word(v, g, vcpu, first, n - 1, pending);
        let state = spec_vgic_get_state(g, v.irq(vcpu.id as int, first + n - 1));
        if (pending && num_pending(state)) || (!pending && num_active(state)) {
            w | (1usize << ((n - 1) as usize))
        } else {
            w
        }
    }
}

/// The word with the two configuration bits of each of the `n` interrupts
/// from `first` at bit `2 * i`.
pub open spec fn icfgr_word(v: VgicView, vcpu_id: int, first: int, n: int) -> usize
    decreases n,
{
    if n <= 0 {
        0
    } else {
        icfgr_word(v, vcpu_id, first, n - 1) | ((v.irq(vcpu_id, first + n - 1).inner.cfg as usize) << ((2 * (n
            - 1)) as usize))
    }
}

/// The word with the priority of each of the `n` interrupts from `first` at
/// byte `i`.
pub open spec fn prio_word(v: VgicView, vcpu_id: int, first: int, n: int) -> usize
    decreases n,
{
    if n <= 0 {
        0
    } else {
        prio_word(v, vcpu_id, first, n - 1) | ((v.irq(vcpu_id, first + n - 1).inner.prio as usize) << ((8 * (n
            - 1)) as usize))
    }
}

/// The word with the targets of each of the `n` interrupts from `first` at
/// byte `i`.
pub open spec fn trgt_word(v: VgicView, vcpu_id: int, first: int, n: int) -> usize
    decreases n,
{
    if n <= 0 {
        0
    } else {
        trgt_word(v, vcpu_id, first, n - 1) | ((v.irq(vcpu_id, first + n - 1).inner.targets as usize) << ((8
            * (n - 1)) as usize))
    }
}

/// The four target bytes of `trgt`, bytes `0..n`, with each byte, a mask of
/// virtual CPUs, replaced by the mask of their physical cores (`v2p`), or
/// the other way round.
pub open spec fn spec_target_translate(vm: &Vm, trgt: u32, v2p: bool, n: int) -> u32
    decreases n,
{
    if n <= 0 {
        0
    } else {
        let x = ((trgt >> ((8 * (n - 1)) as u32)) & 0xff) as usize;
        let m = if v2p {
            vm.spec_vcpu_to_pcpu_mask(x, 8) as u32
        } else {
            vm.spec_pcpu_to_vcpu_mask(x, 8) as u32
        };
        spec_target_translate(vm, trgt, v2p, n - 1) | (m << ((8 * (n - 1)) as u32))
    }
}

/// Converts the four target bytes of `trgt` between masks of virtual CPUs
/// and masks of physical cores.
pub fn vgic_target_translate(vm: &Vm, trgt: u32, v2p: bool) -> (r: u32)
    requires
        vm.wf(),
    ensures
        r == spec_target_translate(vm, trgt, v2p, 4),
{
    let mut result: u32 = 0;
    let mut idx: usize = 0;
    while idx < 4
        invariant
            vm.wf(),
            idx <= 4,
            result == spec_target_translate(vm, trgt, v2p, idx as int),
        decreases 4 - idx,
    {
        let x = ((trgt >> ((8 * idx) as u32)) & 0xff) as usize;
        let m = if v2p {
            #[verifier::truncate]
            (vm.vcpu_to_pcpu_mask(x, 8) as u32)
        } else {
            #[verifier::truncate]
            (vm.pcpu_to_vcpu_mask(x, 8) as u32)
        };
        result = result | (m << ((8 * idx) as u32));
        idx = idx + 1;
    }
    result
}

impl Sys {
    /// The system after each of the `n` interrupts from `first` whose bit is
    /// set in `val` was enabled or disabled.
    pub open spec fn set_enable_bits(self, vcpu: Vcpu, first: int, val: usize, en: bool, n: int) -> Sys
        decreases n,
    {
        if n <= 0 {
            self
        } else {
            let s = self.set_enable_bits(vcpu, first, val, en, n - 1);
            if spec_bit_get(val, (n - 1) as usize) != 0 {
                s.set_enable(vcpu, first + n - 1, en)
            } else {
                s
            }
        }
    }

    /// The system after each of the `n` interrupts from `first` whose bit is
    /// set in `val` was made pending or not.
    pub open spec fn set_pend_bits(self, vcpu: Vcpu, first: int, val: usize, set: bool, n: int) -> Sys
        decreases n,
    {
        if n <= 0 {
            self
        } else {
            let s = self.set_pend_bits(vcpu, first, val, set, n - 1);
            if spec_bit_get(val, (n - 1) as usize) != 0 {
                s.set_pend(vcpu, (first + n - 1) as usize, set)
            } else {
                s
            }
        }
    }

    /// The system after each of the `n` interrupts from `first` whose bit is
    /// set in `val` was made active or not.
    pub open spec fn set_active_bits(self, vcpu: Vcpu, first: int, val: usize, set: bool, n: int) -> Sys
        decreases n,
    {
        if n <= 0 {
            self
        } else {
            let s = self.set_active_bits(vcpu, first, val, set, n - 1);
            if spec_bit_get(val, (n - 1) as usize) != 0 {
                s.set_active(vcpu, (first + n - 1) as usize, set)
            } else {
                s
            }
        }
    }

    /// The system after each of the `n` interrupts from `first` got the two
    /// configuration bits at bit `2 * i` of `cfg`.
    pub open spec fn set_icfgr_fields(self, vcpu: Vcpu, first: int, cfg: usize, n: int) -> Sys
        decreases n,
    {
        if n <= 0 {
            self
        } else {
            self.set_icfgr_fields(vcpu, first, cfg, n - 1).set_icfgr(
                vcpu,
                first + n - 1,
                spec_bit_extract(cfg, (2 * (n - 1)) as usize, 2) as u8,
            )
        }
    }

    /// The system after each of the `n` interrupts from `first` got the
    /// priority in byte `i` of `val`.
    pub open spec fn set_prio_bytes(self, vcpu: Vcpu, first: int, val: usize, n: int) -> Sys
        decreases n,
    {
        if n <= 0 {
            self
        } else {
            self.set_prio_bytes(vcpu, first, val, n - 1).set_prio(
                vcpu,
                first + n - 1,
                spec_bit_extract(val, (8 * (n - 1)) as usize, 8) as u8,
            )
        }
    }

    /// The system after each of the `n` interrupts from `first` got the
    /// targets in byte `i` of `val`.
    pub open spec fn set_trgt_bytes(self, vcpu: Vcpu, first: int, val: usize, n: int) -> Sys
        decreases n,
    {
        if n <= 0 {
            self
        } else {
            self.set_trgt_bytes(vcpu, first, val, n - 1).set_trgt(
                vcpu,
                first + n - 1,
                spec_bit_extract(val, (8 * (n - 1)) as usize, 8) as u8,
            )
        }
    }

    /// The system after `msg` was sent to each of the cores `0..n` whose bit
    /// is set in `trgtlist`.
    pub open spec fn send_to_cores(self, trgtlist: usize, msg: IpiInitcMessage, n: int) -> Sys {
        Sys { fx: sent_to_cores(self.fx, trgtlist, msg, n), ..self }
    }
}

/// The log after `msg` was sent to each of the cores `0..n` whose bit is set
/// in `trgtlist`.
pub open spec fn sent_to_cores(fx: Seq<Effect>, trgtlist: usize, msg: IpiInitcMessage, n: int) -> Seq<Effect>
    decreases n,
{
    if n <= 0 {
        fx
    } else {
        let fx1 = sent_to_cores(fx, trgtlist, msg, n - 1);
        if trgtlist & (1usize << ((n - 1) as usize)) != 0 {
            fx1.push(Effect::IpiSend { target: (n - 1) as usize, msg })
        } else {
            fx1
        }
    }
}

/// What an access to a set-enable (`en`) or clear-enable register does and
/// returns. A store enables or disables the interrupts whose bit is set; a
/// load returns the enable bits. An access to interrupts that the machine
/// does not have is ignored, except for a load of clear-enable.
pub open spec fn emu_enabler(s: Sys, vcpu: Vcpu, ctx: EmuContext, val: usize, en: bool) -> (Sys, Option<usize>) {
    let first = bitmap_first_int(ctx.address) as int;
    if (en || ctx.write) && access_ignored(s.vgic, first, 32) {
        (s, None)
    } else if ctx.write {
        (s.set_enable_bits(vcpu, first, val, en, 32), None)
    } else {
        (s, Some(enable_word(s.vgic, vcpu.id as int, first, 32)))
    }
}

/// What an access to a set-pending (`set`) or clear-pending register does
/// and returns.
pub open spec fn emu_pendr(s: Sys, vcpu: Vcpu, ctx: EmuContext, val: usize, set: bool) -> (Sys, Option<usize>) {
    let first = bitmap_first_int(ctx.address) as int;
    if access_ignored(s.vgic, first, ctx.width as int) {
        (s, None)
    } else if ctx.write {
        (s.set_pend_bits(vcpu, first, val, set, 32), None)
    } else {
        (s, Some(state_word(s.vgic, s.gich, vcpu, first, 32, true)))
    }
}

/// What an access to a set-active (`set`) or clear-active register does and
/// returns.
pub open spec fn emu_activer(s: Sys, vcpu: Vcpu, ctx: EmuContext, val: usize, set: bool) -> (Sys, Option<usize>) {
    let first = bitmap_first_int(ctx.address) as int;
    if access_ignored(s.vgic, first, 32) {
        (s, None)
    } else if ctx.write {
        (s.set_active_bits(vcpu, first, val, set, 32), None)
    } else {
        (s, Some(state_word(s.vgic, s.gich, vcpu, first, 32, false)))
    }
}

/// What an access to a configuration register does and returns.
pub open spec fn emu_icfgr(s: Sys, vcpu: Vcpu, ctx: EmuContext, val: usize) -> (Sys, Option<usize>) {
    let first = icfgr_first_int(ctx.address) as int;
    if ctx.write {
        if access_ignored(s.vgic, first, ctx.width * 8) {
            (s, None)
        } else {
            (s.set_icfgr_fields(vcpu, first, val, ctx.width * 4), None)
        }
    } else {
        (s, Some(icfgr_word(s.vgic, vcpu.id as int, first, ctx.width * 4)))
    }
}

/// What an access to a priority register does and returns.
pub open spec fn emu_ipriorityr(s: Sys, vcpu: Vcpu, ctx: EmuContext, val: usize) -> (Sys, Option<usize>) {
    let first = byte_first_int(ctx.address) as int;
    if ctx.write {
        if access_ignored(s.vgic, first, ctx.width as int) {
            (s, None)
        } else {
            (s.set_prio_bytes(vcpu, first, val, ctx.width as int), None)
        }
    } else {
        (s, Some(prio_word(s.vgic, vcpu.id as int, first, ctx.width as int)))
    }
}

/// What an access to a target register does and returns. The guest names
/// virtual CPUs; the engine keeps the physical cores they run on.
pub open spec fn emu_itargetr(s: Sys, vm: &Vm, vcpu: Vcpu, ctx: EmuContext, val: usize) -> (Sys, Option<usize>) {
    let first = byte_first_int(ctx.address) as int;
    if ctx.write {
        (
            s.set_trgt_bytes(
                vcpu,
                first,
                spec_target_translate(vm, val as u32, true, 4) as usize,
                ctx.width as int,
            ),
            None,
        )
    } else {
        (
            s,
            Some(
                spec_target_translate(
                    vm,
                    trgt_word(s.vgic, vcpu.id as int, first, ctx.width as int) as u32,
                    false,
                    4,
                ) as usize,
            ),
        )
    }
}

/// What an access to the control register does and returns. A store keeps
/// the enable bit; if it changes, the hypervisor interface is enabled or
/// disabled, and the machine's other cores are told.
pub open spec fn emu_ctrl(s: Sys, vcpu: Vcpu, ctx: EmuContext, val: usize) -> (Sys, Option<usize>) {
    if ctx.write {
        let ctlr = (val as u32) & 0x1;
        let s1 = s.with_vgic(VgicView { ctlr, ..s.vgic });
        if s.vgic.ctlr != ctlr {
            let enable = ctlr != 0;
            (
                s1.with_gich(s1.gich.set_hcr(hcr_with_enable(s1.gich.hcr, enable))).emit(
                    Effect::IpiBroadcast {
                        vm_id: vcpu.vm_id,
                        msg: IpiInitcMessage {
                            event: InitcEvent::VgicdGichEn,
                            vm_id: vcpu.vm_id,
                            int_id: 0,
                            val: if enable {
                                1
                            } else {
                                0
                            },
                        },
                    },
                ),
                None,
            )
        } else {
            (s1, None)
        }
    } else {
        (s, Some(s.vgic.ctlr as usize))
    }
}

/// The cores that a store of `val` to the software-generated-interrupt
/// register names, by its filter field: the listed virtual CPUs' cores, or
/// the machine's CPU count without the bit of this core, or this core.
pub open spec fn sgir_targets(vm: &Vm, vcpu: Vcpu, val: usize) -> usize {
    let flt = spec_bit_extract(val, 24, 2);
    if flt == 0 {
        spec_target_translate(vm, spec_bit_extract(val, 16, 8) as u32, true, 4) as usize
    } else if flt == 1 {
        vm.vcpu_list@.len() as usize & !(1usize << vcpu.phys_id)
    } else if flt == 2 {
        1usize << vcpu.phys_id
    } else {
        0
    }
}

/// What an access to the registers of software-generated interrupts does. A
/// store to the register itself asks each core that it names to make the
/// interrupt pending with this virtual CPU as its source; everything else is
/// ignored.
pub open spec fn emu_sgiregs(s: Sys, vm: &Vm, vcpu: Vcpu, gicd_base: usize, ctx: EmuContext, val: usize) -> Sys {
    if spec_bit_extract(ctx.address, 0, 12) == spec_bit_extract((gicd_base + 0x0f00) as usize, 0, 12) && ctx.write
        && spec_bit_extract(val, 24, 2) != 3 {
        s.send_to_cores(
            sgir_targets(vm, vcpu, val),
            IpiInitcMessage {
                event: InitcEvent::VgicdSetPend,
                vm_id: vcpu.vm_id,
                int_id: (spec_bit_extract(val, 0, 8) | (vcpu.id << 10usize)) as u16,
                val: 1,
            },
            8,
        )
    } else {
        s
    }
}

/// What an access below the interrupt registers does and returns: the
/// control, type and identification registers; a load of anything else
/// reads as zero.
pub open spec fn emu_misc(s: Sys, vcpu: Vcpu, ctx: EmuContext, val: usize) -> (Sys, Option<usize>) {
    let offset = access_offset(ctx.address);
    if offset == 0 {
        emu_ctrl(s, vcpu, ctx, val)
    } else if offset == 0x004 {
        (s, if ctx.write { None } else { Some(s.vgic.typer as usize) })
    } else if offset == 0x008 {
        (s, if ctx.write { None } else { Some(s.vgic.iidr as usize) })
    } else {
        (s, if ctx.write { None } else { Some(0usize) })
    }
}

/// What a trapped access to the distributor does, whether it is accepted,
/// and what a load returns.
pub open spec fn emu_handler(s: Sys, vm: &Vm, vcpu: Vcpu, gicd_base: usize, ctx: EmuContext, val: usize) -> (
    Sys,
    bool,
    Option<usize>,
) {
    let offset = access_offset(ctx.address);
    let prefix = offset >> 7;
    if !access_is_valid(ctx) {
        (s, false, None)
    } else if prefix == VGICD_REG_OFFSET_PREFIX_ISENABLER {
        (emu_enabler(s, vcpu, ctx, val, true).0, true, emu_enabler(s, vcpu, ctx, val, true).1)
    } else if prefix == VGICD_REG_OFFSET_PREFIX_ISPENDR {
        (emu_pendr(s, vcpu, ctx, val, true).0, true, emu_pendr(s, vcpu, ctx, val, true).1)
    } else if prefix == VGICD_REG_OFFSET_PREFIX_ISACTIVER {
        (emu_activer(s, vcpu, ctx, val, true).0, true, emu_activer(s, vcpu, ctx, val, true).1)
    } else if prefix == VGICD_REG_OFFSET_PREFIX_ICENABLER {
        (emu_enabler(s, vcpu, ctx, val, false).0, true, emu_enabler(s, vcpu, ctx, val, false).1)
    } else if prefix == VGICD_REG_OFFSET_PREFIX_ICPENDR {
        (emu_pendr(s, vcpu, ctx, val, false).0, true, emu_pendr(s, vcpu, ctx, val, false).1)
    } else if prefix == VGICD_REG_OFFSET_PREFIX_ICACTIVER {
        (emu_activer(s, vcpu, ctx, val, false).0, true, emu_activer(s, vcpu, ctx, val, false).1)
    } else if prefix == VGICD_REG_OFFSET_PREFIX_ICFGR {
        (emu_icfgr(s, vcpu, ctx, val).0, true, emu_icfgr(s, vcpu, ctx, val).1)
    } else if prefix == VGICD_REG_OFFSET_PREFIX_SGIR {
        (emu_sgiregs(s, vm, vcpu, gicd_base, ctx, val), true, None)
    } else {
        let m = emu_misc(s, vcpu, ctx, val);
        if 0x400 <= offset < 0x800 {
            let p = emu_ipriorityr(m.0, vcpu, ctx, val);
            (p.0, true, if p.1.is_some() { p.1 } else { m.1 })
        } else if 0x800 <= offset < 0xc00 {
            let p = emu_itargetr(m.0, vm, vcpu, ctx, val);
            (p.0, true, if p.1.is_some() { p.1 } else { m.1 })
        } else {
            (m.0, true, m.1)
        }
    }
}

/// The first interrupt of a one-bit-per-interrupt register is below 1024
/// with its 32 interrupts.
fn bitmap_first(address: usize) -> (first: usize)
    ensures
        first == bitmap_first_int(address),
        first + 32 <= GIC_INTS_MAX,
{
    assert(address & 0b1111111 <= 0b1111111) by (bit_vector);
    ((address & 0b1111111) / 4) * 32
}

/// The first interrupt of a byte-per-interrupt register.
fn byte_first(address: usize) -> (first: usize)
    ensures
        first == byte_first_int(address),
        first < 512,
{
    let r = bit_extract(address, 0, 9);
    assert(r < 512) by (bit_vector)
        requires
            r == (address >> 0usize) & (((1usize << 9usize) - 1) as usize),
    ;
    r
}

impl Vgic {
    /// The kind of device that the controller emulates.
    pub fn emu_type(&self) -> (r: EmuDeviceType)
        ensures
            r == EmuDeviceType::EmuDeviceTGicd,
    {
        EmuDeviceType::EmuDeviceTGicd
    }

    /// Tells whether the machine has one of the `n` interrupts from `first`.
    fn has_interrupt_in(&self, first: usize, n: usize) -> (r: bool)
        requires
            self.wf(),
            first + n <= INT_BITMAP_BITS,
        ensures
            r == has_interrupt_in(self@, first as int, n as int),
    {
        let mut i: usize = 0;
        while i < n
            invariant
                self.wf(),
                first + n <= INT_BITMAP_BITS,
                i <= n,
                !has_interrupt_in(self@, first as int, i as int),
            ensures
                i <= n,
                (i < n) == has_interrupt_in(self@, first as int, n as int),
            decreases n - i,
        {
            if self.has_interrupt(first + i) || self.emu_has_interrupt(first + i) {
                proof {
                    lemma_has_interrupt_mono(self@, first as int, i as int + 1, n as int);
                }
                break ;
            }
            i = i + 1;
        }
        i < n
    }

    /// Carries out an access to a set-enable (`en`) or clear-enable register.
    fn emu_enabler_access(
        &mut self,
        gich: &mut GicHypervisorInterface,
        fx: &mut Vec<Effect>,
        vcpu: &Vcpu,
        emu_ctx: &EmuContext,
        val: usize,
        en: bool,
    ) -> (r: Option<usize>)
        requires
            old(self).inv(),
            old(gich).wf(),
            old(self)@.valid_vcpu(*vcpu),
        ensures
            (sys_of(final(self), final(gich), final(fx)), r) == emu_enabler(
                sys_of(old(self), old(gich), old(fx)),
                *vcpu,
                *emu_ctx,
                val,
                en,
            ),
            final(self).inv(),
            old(self)@.lists_inv() ==> final(self)@.lists_inv(),
            final(self)@.cpus.len() == old(self)@.cpus.len(),
            final(gich).wf(),
    {
        let first_int = bitmap_first(emu_ctx.address);
        if en || emu_ctx.write {
            let vm_has_interrupt_flag = self.has_interrupt_in(first_int, 32);
            if first_int >= 16 && !vm_has_interrupt_flag {
                return None;
            }
        }
        if emu_ctx.write {
            let mut i: usize = 0;
            while i < 32
                invariant
                    i <= 32,
                    first_int + 32 <= GIC_INTS_MAX,
                    self.inv(),
                old(self)@.lists_inv() ==> self@.lists_inv(),
                    old(self)@.lists_inv() ==> self@.lists_inv(),
                    gich.wf(),
                    self@.valid_vcpu(*vcpu),
                    self@.cpus.len() == old(self)@.cpus.len(),
                    sys_of(self, gich, fx) == sys_of(old(self), old(gich), old(fx)).set_enable_bits(
                        *vcpu,
                        first_int as int,
                        val,
                        en,
                        i as int,
                    ),
                decreases 32 - i,
            {
                if bit_get(val, i) != 0 {
                    self.set_enable(gich, fx, vcpu, first_int + i, en);
                }
                i = i + 1;
            }
            None
        } else {
            let mut w: usize = 0;
            let mut i: usize = 0;
            while i < 32
                invariant
                    i <= 32,
                    first_int + 32 <= GIC_INTS_MAX,
                    self.wf(),
                    vcpu.id < self@.cpus.len(),
                    w == enable_word(self@, vcpu.id as int, first_int as int, i as int),
                decreases 32 - i,
            {
                if self.get_enable(vcpu, first_int + i) {
                    w = w | (1usize << i);
                }
                i = i + 1;
            }
            Some(w)
        }
    }

    /// Reads the pending (`pending`) or active bits of the 32 interrupts from
    /// `first_int`.
    fn emu_state_word(&self, gich: &GicHypervisorInterface, vcpu: &Vcpu, first_int: usize, pending: bool) -> (w:
        usize)
        requires
            self.wf(),
            gich.wf(),
            vcpu.id < self@.cpus.len(),
            first_int + 32 <= GIC_INTS_MAX,
        ensures
            w == state_word(self@, gich@, *vcpu, first_int as int, 32, pending),
    {
        let mut w: usize = 0;
        let mut i: usize = 0;
        while i < 32
            invariant
                i <= 32,
                first_int + 32 <= GIC_INTS_MAX,
                self.wf(),
                gich.wf(),
                vcpu.id < self@.cpus.len(),
                w == state_word(self@, gich@, *vcpu, first_int as int, i as int, pending),
            decreases 32 - i,
        {
            let interrupt = self.irq(vcpu.id, first_int + i);
            let state = vgic_get_state(gich, &interrupt);
            if (pending && (state == 1 || state == 3)) || (!pending && (state == 2 || state == 3)) {
                w = w | (1usize << i);
            }
            i = i + 1;
        }
        w
    }

    /// Carries out an access to a set-pending (`set`) or clear-pending
    /// register.
    fn emu_pendr_access(
        &mut self,
        gich: &mut GicHypervisorInterface,
        fx: &mut Vec<Effect>,
        vcpu: &Vcpu,
        emu_ctx: &EmuContext,
        val: usize,
        set: bool,
    ) -> (r: Option<usize>)
        requires
            old(self).inv(),
            old(gich).wf(),
            old(self)@.valid_vcpu(*vcpu),
            emu_ctx.width <= 4,
        ensures
            (sys_of(final(self), final(gich), final(fx)), r) == emu_pendr(
                sys_of(old(self), old(gich), old(fx)),
                *vcpu,
                *emu_ctx,
                val,
                set,
            ),
            final(self).inv(),
            old(self)@.lists_inv() ==> final(self)@.lists_inv(),
            final(self)@.cpus.len() == old(self)@.cpus.len(),
            final(gich).wf(),
    {
        let first_int = bitmap_first(emu_ctx.address);
        let vm_has_interrupt_flag = self.has_interrupt_in(first_int, emu_ctx.width);
        if first_int >= 16 && !vm_has_interrupt_flag {
            return None;
        }
        if emu_ctx.write {
            let mut i: usize = 0;
            while i < 32
                invariant
                    i <= 32,
                    first_int + 32 <= GIC_INTS_MAX,
                    self.inv(),
                old(self)@.lists_inv() ==> self@.lists_inv(),
                    old(self)@.lists_inv() ==> self@.lists_inv(),
                    gich.wf(),
                    self@.valid_vcpu(*vcpu),
                    self@.cpus.len() == old(self)@.cpus.len(),
                    sys_of(self, gich, fx) == sys_of(old(self), old(gich), old(fx)).set_pend_bits(
                        *vcpu,
                        first_int as int,
                        val,
                        set,
                        i as int,
                    ),
                decreases 32 - i,
            {
                if bit_get(val, i) != 0 {
                    self.set_pend(gich, fx, vcpu, first_int + i, set);
                }
                i = i + 1;
            }
            None
        } else {
            Some(self.emu_state_word(gich, vcpu, first_int, true))
        }
    }

    /// Carries out an access to a set-active (`set`) or clear-active register.
    fn emu_activer_access(
        &mut self,
        gich: &mut GicHypervisorInterface,
        fx: &mut Vec<Effect>,
        vcpu: &Vcpu,
        emu_ctx: &EmuContext,
        val: usize,
        set: bool,
    ) -> (r: Option<usize>)
        requires
            old(self).inv(),
            old(gich).wf(),
            old(self)@.valid_vcpu(*vcpu),
        ensures
            (sys_of(final(self), final(gich), final(fx)), r) == emu_activer(
                sys_of(old(self), old(gich), old(fx)),
                *vcpu,
                *emu_ctx,
                val,
                set,
            ),
            final(self).inv(),
            old(self)@.lists_inv() ==> final(self)@.lists_inv(),
            final(self)@.cpus.len() == old(self)@.cpus.len(),
            final(gich).wf(),
    {
        let first_int = bitmap_first(emu_ctx.address);
        let vm_has_interrupt_flag = self.has_interrupt_in(first_int, 32);
        if first_int >= 16 && !vm_has_interrupt_flag {
            return None;
        }
        if emu_ctx.write {
            let mut i: usize = 0;
            while i < 32
                invariant
                    i <= 32,
                    first_int + 32 <= GIC_INTS_MAX,
                    self.inv(),
                old(self)@.lists_inv() ==> self@.lists_inv(),
                    old(self)@.lists_inv() ==> self@.lists_inv(),
                    gich.wf(),
                    self@.valid_vcpu(*vcpu),
                    self@.cpus.len() == old(self)@.cpus.len(),
                    sys_of(self, gich, fx) == sys_of(old(self), old(gich), old(fx)).set_active_bits(
                        *vcpu,
                        first_int as int,
                        val,
                        set,
                        i as int,
                    ),
                decreases 32 - i,
            {
                if bit_get(val, i) != 0 {
                    self.set_active(gich, fx, vcpu, first_int + i, set);
                }
                i = i + 1;
            }
            None
        } else {
            Some(self.emu_state_word(gich, vcpu, first_int, false))
        }
    }

    /// Carries out an access to a configuration register.
    fn emu_icfgr_access(
        &mut self,
        gich: &mut GicHypervisorInterface,
        fx: &mut Vec<Effect>,
        vcpu: &Vcpu,
        emu_ctx: &EmuContext,
        val: usize,
    ) -> (r: Option<usize>)
        requires
            old(self).inv(),
            old(gich).wf(),
            old(self)@.valid_vcpu(*vcpu),
            emu_ctx.width <= 4,
            icfgr_first_int(emu_ctx.address) + 16 <= GIC_INTS_MAX,
        ensures
            (sys_of(final(self), final(gich), final(fx)), r) == emu_icfgr(
                sys_of(old(self), old(gich), old(fx)),
                *vcpu,
                *emu_ctx,
                val,
            ),
            final(self).inv(),
            old(self)@.lists_inv() ==> final(self)@.lists_inv(),
            final(self)@.cpus.len() == old(self)@.cpus.len(),
            final(gich).wf(),
            final(gich)@ == old(gich)@,
    {
        let first_int = (16 * byte_first(emu_ctx.address)) / 4;
        let count = emu_ctx.width * 4;
        if emu_ctx.write {
            let vm_has_interrupt_flag = self.has_interrupt_in(first_int, emu_ctx.width * 8);
            if first_int >= 16 && !vm_has_interrupt_flag {
                return None;
            }
            let cfg = val;
            let mut k: usize = 0;
            while k < count
                invariant
                    k <= count <= 16,
                    first_int + 16 <= GIC_INTS_MAX,
                    self.inv(),
                old(self)@.lists_inv() ==> self@.lists_inv(),
                    old(self)@.lists_inv() ==> self@.lists_inv(),
                    gich.wf(),
                    gich@ == old(gich)@,
                    self@.valid_vcpu(*vcpu),
                    self@.cpus.len() == old(self)@.cpus.len(),
                    sys_of(self, gich, fx) == sys_of(old(self), old(gich), old(fx)).set_icfgr_fields(
                        *vcpu,
                        first_int as int,
                        cfg,
                        k as int,
                    ),
                decreases count - k,
            {
                let field = bit_extract(cfg, 2 * k, 2);
                self.set_icfgr(
                    gich,
                    fx,
                    vcpu,
                    first_int + k,
                    #[verifier::truncate]
                    (field as u8),
                );
                k = k + 1;
            }
            None
        } else {
            let mut cfg: usize = 0;
            let mut k: usize = 0;
            while k < count
                invariant
                    k <= count <= 16,
                    first_int + 16 <= GIC_INTS_MAX,
                    self.wf(),
                    vcpu.id < self@.cpus.len(),
                    cfg == icfgr_word(self@, vcpu.id as int, first_int as int, k as int),
                decreases count - k,
            {
                cfg = cfg | ((self.get_icfgr(vcpu, first_int + k) as usize) << (2 * k));
                k = k + 1;
            }
            Some(cfg)
        }
    }

    /// Carries out an access to a priority register.
    fn emu_ipriorityr_access(
        &mut self,
        gich: &mut GicHypervisorInterface,
        fx: &mut Vec<Effect>,
        vcpu: &Vcpu,
        emu_ctx: &EmuContext,
        val: usize,
    ) -> (r: Option<usize>)
        requires
            old(self).inv(),
            old(gich).wf(),
            old(self)@.valid_vcpu(*vcpu),
            emu_ctx.width <= 4,
        ensures
            (sys_of(final(self), final(gich), final(fx)), r) == emu_ipriorityr(
                sys_of(old(self), old(gich), old(fx)),
                *vcpu,
                *emu_ctx,
                val,
            ),
            final(self).inv(),
            old(self)@.lists_inv() ==> final(self)@.lists_inv(),
            final(self)@.cpus.len() == old(self)@.cpus.len(),
            final(gich).wf(),
    {
        let first_int = byte_first(emu_ctx.address);
        let width = emu_ctx.width;
        if emu_ctx.write {
            let vm_has_interrupt_flag = self.has_interrupt_in(first_int, width);
            if first_int >= 16 && !vm_has_interrupt_flag {
                return None;
            }
            let mut i: usize = 0;
            while i < width
                invariant
                    i <= width <= 4,
                    first_int < 512,
                    self.inv(),
                old(self)@.lists_inv() ==> self@.lists_inv(),
                    old(self)@.lists_inv() ==> self@.lists_inv(),
                    gich.wf(),
                    self@.valid_vcpu(*vcpu),
                    self@.cpus.len() == old(self)@.cpus.len(),
                    sys_of(self, gich, fx) == sys_of(old(self), old(gich), old(fx)).set_prio_bytes(
                        *vcpu,
                        first_int as int,
                        val,
                        i as int,
                    ),
                decreases width - i,
            {
                let field = bit_extract(val, 8 * i, 8);
                self.set_prio(
                    gich,
                    fx,
                    vcpu,
                    first_int + i,
                    #[verifier::truncate]
                    (field as u8),
                );
                i = i + 1;
            }
            None
        } else {
            let mut w: usize = 0;
            let mut i: usize = 0;
            while i < width
                invariant
                    i <= width <= 4,
                    first_int < 512,
                    self.wf(),
                    vcpu.id < self@.cpus.len(),
                    w == prio_word(self@, vcpu.id as int, first_int as int, i as int),
                decreases width - i,
            {
                w = w | ((self.get_prio(vcpu, first_int + i) as usize) << (8 * i));
                i = i + 1;
            }
            Some(w)
        }
    }

    /// Carries out an access to a target register.
    fn emu_itargetr_access(
        &mut self,
        gich: &mut GicHypervisorInterface,
        fx: &mut Vec<Effect>,
        vm: &Vm,
        vcpu: &Vcpu,
        emu_ctx: &EmuContext,
        val: usize,
    ) -> (r: Option<usize>)
        requires
            old(self).inv(),
            old(gich).wf(),
            old(self)@.valid_vcpu(*vcpu),
            vm.wf(),
            emu_ctx.width <= 4,
        ensures
            (sys_of(final(self), final(gich), final(fx)), r) == emu_itargetr(
                sys_of(old(self), old(gich), old(fx)),
                vm,
                *vcpu,
                *emu_ctx,
                val,
            ),
            final(self).inv(),
            old(self)@.lists_inv() ==> final(self)@.lists_inv(),
            final(self)@.cpus.len() == old(self)@.cpus.len(),
            final(gich).wf(),
    {
        let first_int = byte_first(emu_ctx.address);
        let width = emu_ctx.width;
        if emu_ctx.write {
            let val = vgic_target_translate(
                vm,
                #[verifier::truncate]
                (val as u32),
                true,
            ) as usize;
            let mut i: usize = 0;
            while i < width
                invariant
                    i <= width <= 4,
                    first_int < 512,
                    self.inv(),
                old(self)@.lists_inv() ==> self@.lists_inv(),
                    old(self)@.lists_inv() ==> self@.lists_inv(),
                    gich.wf(),
                    self@.valid_vcpu(*vcpu),
                    self@.cpus.len() == old(self)@.cpus.len(),
                    sys_of(self, gich, fx) == sys_of(old(self), old(gich), old(fx)).set_trgt_bytes(
                        *vcpu,
                        first_int as int,
                        val,
                        i as int,
                    ),
                decreases width - i,
            {
                let field = bit_extract(val, 8 * i, 8);
                self.set_trgt(
                    gich,
                    fx,
                    vcpu,
                    first_int + i,
                    #[verifier::truncate]
                    (field as u8),
                );
                i = i + 1;
            }
            None
        } else {
            let mut w: usize = 0;
            let mut i: usize = 0;
            while i < width
                invariant
                    i <= width <= 4,
                    first_int < 512,
                    self.wf(),
                    vcpu.id < self@.cpus.len(),
                    w == trgt_word(self@, vcpu.id as int, first_int as int, i as int),
                decreases width - i,
            {
                w = w | ((self.get_trgt(vcpu, first_int + i) as usize) << (8 * i));
                i = i + 1;
            }
            let val = vgic_target_translate(
                vm,
                #[verifier::truncate]
                (w as u32),
                false,
            ) as usize;
            Some(val)
        }
    }

    /// Carries out an access to the control register.
    fn emu_ctrl_access(
        &mut self,
        gich: &mut GicHypervisorInterface,
        fx: &mut Vec<Effect>,
        vcpu: &Vcpu,
        emu_ctx: &EmuContext,
        val: usize,
    ) -> (r: Option<usize>)
        requires
            old(self).inv(),
            old(gich).wf(),
        ensures
            (sys_of(final(self), final(gich), final(fx)), r) == emu_ctrl(
                sys_of(old(self), old(gich), old(fx)),
                *vcpu,
                *emu_ctx,
                val,
            ),
            final(self).inv(),
            old(self)@.lists_inv() ==> final(self)@.lists_inv(),
            final(self)@.cpus.len() == old(self)@.cpus.len(),
            final(gich).wf(),
    {
        if emu_ctx.write {
            let prev_ctlr = self.vgicd_ctlr();
            self.set_vgicd_ctlr(
                #[verifier::truncate]
                (val as u32) & 0x1,
            );
            if prev_ctlr != self.vgicd_ctlr() {
                let enable = self.vgicd_ctlr() != 0;
                let hcr = gich.hcr();
                if enable {
                    gich.set_hcr(hcr | 1);
                } else {
                    gich.set_hcr(hcr & !1u32);
                }
                let m = IpiInitcMessage {
                    event: InitcEvent::VgicdGichEn,
                    vm_id: vcpu.vm_id,
                    int_id: 0,
                    val: enable as u8,
                };
                fx.push(Effect::IpiBroadcast { vm_id: vcpu.vm_id, msg: m });
            }
            None
        } else {
            Some(self.vgicd_ctlr() as usize)
        }
    }

    /// Carries out an access to the type register, which is read-only.
    fn emu_typer_access(&self, emu_ctx: &EmuContext) -> (r: Option<usize>)
        ensures
            r == (if emu_ctx.write {
                None
            } else {
                Some(self@.typer as usize)
            }),
    {
        if !emu_ctx.write {
            Some(self.vgicd_typer() as usize)
        } else {
            None
        }
    }

    /// Carries out an access to the identification register, which is
    /// read-only.
    fn emu_iidr_access(&self, emu_ctx: &EmuContext) -> (r: Option<usize>)
        ensures
            r == (if emu_ctx.write {
                None
            } else {
                Some(self@.iidr as usize)
            }),
    {
        if !emu_ctx.write {
            Some(self.vgicd_iidr() as usize)
        } else {
            None
        }
    }

    /// Carries out an access to the registers of software-generated
    /// interrupts.
    fn emu_sgiregs_access(
        &self,
        fx: &mut Vec<Effect>,
        vm: &Vm,
        vcpu: &Vcpu,
        gicd_base: usize,
        emu_ctx: &EmuContext,
        val: usize,
    )
        requires
            vm.wf(),
            vcpu.phys_id < 8,
            gicd_base + 0x0f00 <= usize::MAX,
        ensures
            forall|g: GichView|
                (Sys { vgic: self@, gich: g, fx: final(fx)@ }) == #[trigger] emu_sgiregs(
                    Sys { vgic: self@, gich: g, fx: old(fx)@ },
                    vm,
                    *vcpu,
                    gicd_base,
                    *emu_ctx,
                    val,
                ),
    {
        if bit_extract(emu_ctx.address, 0, 12) == bit_extract(gicd_base + 0x0f00, 0, 12) {
            if emu_ctx.write {
                let sgir_trglstflt = bit_extract(val, 24, 2);
                let mut trgtlist: usize = 0;
                if sgir_trglstflt == 0 {
                    let listed = bit_extract(val, 16, 8);
                    trgtlist = vgic_target_translate(
                        vm,
                        #[verifier::truncate]
                        (listed as u32),
                        true,
                    ) as usize;
                } else if sgir_trglstflt == 1 {
                    trgtlist = vm.cpu_num() & !(1usize << vcpu.phys_id);
                } else if sgir_trglstflt == 2 {
                    trgtlist = 1usize << vcpu.phys_id;
                } else if sgir_trglstflt == 3 {
                    return ;
                }
                let sgi = bit_extract(val, 0, 8) | (vcpu.id << 10usize);
                let m = IpiInitcMessage {
                    event: InitcEvent::VgicdSetPend,
                    vm_id: vcpu.vm_id,
                    int_id: #[verifier::truncate]
                    (sgi as u16),
                    val: 1,
                };
                let ghost fx0 = fx@;
                let mut i: usize = 0;
                while i < 8
                    invariant
                        i <= 8,
                        fx@ == sent_to_cores(fx0, trgtlist, m, i as int),
                    decreases 8 - i,
                {
                    if trgtlist & (1usize << i) != 0 {
                        fx.push(Effect::IpiSend { target: i, msg: m });
                    }
                    i = i + 1;
                }
            }
        }
    }

    /// Carries out a trapped access of the virtual CPU `vcpu` of the machine
    /// `vm` to the distributor. `val` is the value of the guest register for
    /// a store. Returns whether the access is accepted, and for a load the
    /// value that belongs into the guest register.
    pub fn handler(
        &mut self,
        gich: &mut GicHypervisorInterface,
        fx: &mut Vec<Effect>,
        vm: &Vm,
        vcpu: &Vcpu,
        gicd_base: usize,
        emu_ctx: &EmuContext,
        val: usize,
    ) -> (r: (bool, Option<usize>))
        requires
            old(self).inv(),
            old(gich).wf(),
            old(self)@.valid_vcpu(*vcpu),
            vm.wf(),
            gicd_base + 0x0f00 <= usize::MAX,
            emu_ctx.width == 1 || emu_ctx.width == 2 || emu_ctx.width == 4,
        ensures
            (sys_of(final(self), final(gich), final(fx)), r.0, r.1) == emu_handler(
                sys_of(old(self), old(gich), old(fx)),
                vm,
                *vcpu,
                gicd_base,
                *emu_ctx,
                val,
            ),
            r.0 == access_is_valid(*emu_ctx),
            final(self).inv(),
            old(self)@.lists_inv() ==> final(self)@.lists_inv(),
            final(self)@.cpus.len() == old(self)@.cpus.len(),
            final(gich).wf(),
    {
        let offset = emu_ctx.address & 0xfff;
        let vgicd_offset_prefix = offset >> 7;
        if !vgicd_emu_access_is_vaild(emu_ctx) {
            return (false, None);
        }
        if vgicd_offset_prefix == VGICD_REG_OFFSET_PREFIX_ISENABLER {
            (true, self.emu_enabler_access(gich, fx, vcpu, emu_ctx, val, true))
        } else if vgicd_offset_prefix == VGICD_REG_OFFSET_PREFIX_ISPENDR {
            (true, self.emu_pendr_access(gich, fx, vcpu, emu_ctx, val, true))
        } else if vgicd_offset_prefix == VGICD_REG_OFFSET_PREFIX_ISACTIVER {
            (true, self.emu_activer_access(gich, fx, vcpu, emu_ctx, val, true))
        } else if vgicd_offset_prefix == VGICD_REG_OFFSET_PREFIX_ICENABLER {
            (true, self.emu_enabler_access(gich, fx, vcpu, emu_ctx, val, false))
        } else if vgicd_offset_prefix == VGICD_REG_OFFSET_PREFIX_ICPENDR {
            (true, self.emu_pendr_access(gich, fx, vcpu, emu_ctx, val, false))
        } else if vgicd_offset_prefix == VGICD_REG_OFFSET_PREFIX_ICACTIVER {
            (true, self.emu_activer_access(gich, fx, vcpu, emu_ctx, val, false))
        } else if vgicd_offset_prefix == VGICD_REG_OFFSET_PREFIX_ICFGR {
            let address = emu_ctx.address;
            assert((address & 0xfff) >> 7 == 0x18 ==> (address >> 0usize) & (((1usize << 9usize) - 1) as usize)
                <= 0x7f) by (bit_vector);
            (true, self.emu_icfgr_access(gich, fx, vcpu, emu_ctx, val))
        } else if vgicd_offset_prefix == VGICD_REG_OFFSET_PREFIX_SGIR {
            self.emu_sgiregs_access(fx, vm, vcpu, gicd_base, emu_ctx, val);
            (true, None)
        } else {
            let mut reg = if offset == 0 {
                self.emu_ctrl_access(gich, fx, vcpu, emu_ctx, val)
            } else if offset == 0x004 {
                self.emu_typer_access(emu_ctx)
            } else if offset == 0x008 {
                self.emu_iidr_access(emu_ctx)
            } else {
                if !emu_ctx.write {
                    Some(0usize)
                } else {
                    None
                }
            };
            if 0x400 <= offset && offset < 0x800 {
                let r = self.emu_ipriorityr_access(gich, fx, vcpu, emu_ctx, val);
                if r.is_some() {
                    reg = r;
                }
            } else if 0x800 <= offset && offset < 0xc00 {
                let r = self.emu_itargetr_access(gich, fx, vm, vcpu, emu_ctx, val);
                if r.is_some() {
                    reg = r;
                }
            }
            (true, reg)
        }
    }
}

/// If the machine has one of the first `i` interrupts from `first`, it has
/// one of the first `n`.
proof fn lemma_has_interrupt_mono(v: VgicView, first: int, i: int, n: int)
    requires
        0 <= i <= n,
        has_interrupt_in(v, first, i),
    ensures
        has_interrupt_in(v, first, n),
    decreases n - i,
{
    if i < n {
        lemma_has_interrupt_mono(v, first, i + 1, n);
    }
}

} // verus!
