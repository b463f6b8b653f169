//! Messages between physical cores about a virtual interrupt controller.

use vstd::prelude::*;
use crate::consts::GIC_TARGETS_MAX;
use crate::effects::Effect;
use crate::gich::GicHypervisorInterface;
use crate::occupancy::{claimed_cleanly, occ_inv};
use crate::utils::{int_id_field, spec_int_id_field};
use crate::vcpu::{Pcpu, Vcpu};
use crate::vgic::{sys_of, Sys, Vgic};

verus! {

/// What an interrupt-controller message asks the receiving core to do.
#[derive(Clone, Copy, Debug, PartialEq, Eq, Structural)]
pub enum InitcEvent {
    VgicdGichEn,
    VgicdSetEn,
    VgicdSetAct,
    VgicdSetPend,
    VgicdSetPrio,
    VgicdSetTrgt,
    VgicdSetCfg,
    VgicdRoute,
    Vgicdinject,
    /// No event.
    VgicdNone,
}

/// An interrupt-controller message: the event, the machine and interrupt it
/// is about, and the new value.
#[derive(Clone, Copy, Debug, PartialEq, Eq, Structural)]
pub struct IpiInitcMessage {
    pub event: InitcEvent,
    pub vm_id: usize,
    pub int_id: u16,
    pub val: u8,
}

/// The payload of an inter-processor message.
#[derive(Clone, Copy, Debug, PartialEq, Eq, Structural)]
pub enum IpiInnerMsg {
    Initc(IpiInitcMessage),
    /// No payload.
    Empty,
}

/// The channel of an inter-processor message.
#[derive(Clone, Copy, Debug, PartialEq, Eq, Structural)]
pub enum IpiType {
    IpiTIntc,
    IpiTNone,
}

/// An inter-processor message as the transport delivers it.
#[derive(Clone, Copy, Debug, PartialEq, Eq, Structural)]
pub struct IpiMessage {
    pub ipi_type: IpiType,
    pub ipi_message: IpiInnerMsg,
}

/// The control word with the interface enabled (bit 0) or disabled.
pub open spec fn hcr_with_enable(hcr: u32, en: bool) -> u32 {
    if en {
        hcr | 0b1
    } else {
        hcr & !0b1u32
    }
}

impl Sys {
    /// The system after a request to route interrupt `int_id` arrived at the
    /// core `cpu_id` for its virtual CPU `vcpu`: if `vcpu` can claim the
    /// interrupt, the interrupt goes into a list register if it targets this
    /// core, and `vcpu` gives it up again if it can.
    pub open spec fn route_request(self, vcpu: Vcpu, int_id: int, cpu_id: usize) -> Sys {
        if self.claims(vcpu, int_id) {
            let s0 = self.claim(vcpu, int_id);
            let s1 = if s0.irq(vcpu, int_id).inner.targets & (1u8 << (cpu_id as u8)) != 0 {
                s0.add_lr(vcpu, int_id)
            } else {
                s0
            };
            s1.yield_owner(vcpu, int_id)
        } else {
            self
        }
    }

    /// The system after the interrupt-controller message `intc` was carried
    /// out for `vcpu` on the core `cpu_id`.
    pub open spec fn handle_initc(self, vcpu: Vcpu, cpu_id: usize, intc: IpiInitcMessage) -> Sys {
        match intc.event {
            InitcEvent::VgicdGichEn => self.with_gich(
                self.gich.set_hcr(hcr_with_enable(self.gich.hcr, intc.val != 0)),
            ),
            InitcEvent::VgicdSetEn => self.set_enable(vcpu, intc.int_id as int, intc.val != 0),
            InitcEvent::VgicdSetPend => self.set_pend(vcpu, intc.int_id as usize, intc.val != 0),
            InitcEvent::VgicdSetAct => self.set_active(vcpu, intc.int_id as usize, intc.val != 0),
            InitcEvent::VgicdSetCfg => self.set_icfgr(vcpu, intc.int_id as int, intc.val),
            InitcEvent::VgicdSetPrio => self.set_prio(vcpu, intc.int_id as int, intc.val),
            InitcEvent::VgicdSetTrgt => self.set_trgt(vcpu, intc.int_id as int, intc.val),
            InitcEvent::VgicdRoute => self.route_request(
                vcpu,
                spec_int_id_field(intc.int_id as usize) as int,
                cpu_id,
            ),
            _ => self,
        }
    }

    /// The system after the message `msg` arrived at the core `pcpu`. Only
    /// an interrupt-controller message for a machine of which the core hosts
    /// a virtual CPU has an effect.
    pub open spec fn vgic_ipi_handler(self, pcpu: &Pcpu, msg: IpiMessage) -> Sys {
        match msg.ipi_message {
            IpiInnerMsg::Initc(intc) => match pcpu.vcpu_array.lookup(intc.vm_id) {
                Some(trgt_vcpu) => if intc.vm_id != trgt_vcpu.vm_id {
                    self
                } else {
                    self.handle_initc(trgt_vcpu, pcpu.id, intc)
                },
                None => self,
            },
            _ => self,
        }
    }
}

/// Carries out a message that arrived at the core `pcpu` for the controller
/// `vgic`, on behalf of the virtual CPU that the core hosts for the
/// message's machine. Only that virtual CPU has to be one of the
/// controller's; the core may host virtual CPUs of other machines. Any
/// other message changes nothing.
pub fn vgic_ipi_handler(
    vgic: &mut Vgic,
    gich: &mut GicHypervisorInterface,
    fx: &mut Vec<Effect>,
    pcpu: &Pcpu,
    msg: IpiMessage,
)
    requires
        old(vgic).inv(),
        old(gich).wf(),
        pcpu.id < GIC_TARGETS_MAX,
        msg.ipi_message matches IpiInnerMsg::Initc(intc) ==> (pcpu.vcpu_array.lookup(intc.vm_id) matches Some(v)
            ==> (v.vm_id == intc.vm_id ==> old(vgic)@.valid_vcpu(v))),
    ensures
        sys_of(final(vgic), final(gich), final(fx)) == sys_of(old(vgic), old(gich), old(fx)).vgic_ipi_handler(
            pcpu,
            msg,
        ),
        final(vgic).inv(),
        old(vgic)@.lists_inv() ==> final(vgic)@.lists_inv(),
        forall|vcpu: Vcpu|
            #![trigger occ_inv(old(vgic)@, vcpu)]
            msg.ipi_message matches IpiInnerMsg::Initc(intc) && pcpu.vcpu_array.lookup(intc.vm_id) == Some(vcpu)
                && occ_inv(old(vgic)@, vcpu) && claimed_cleanly(old(vgic)@, vcpu, intc.int_id as int)
                && claimed_cleanly(old(vgic)@, vcpu, spec_int_id_field(intc.int_id as usize) as int) ==> occ_inv(
                final(vgic)@,
                vcpu,
            ),
        !(msg.ipi_message matches IpiInnerMsg::Initc(intc) && (pcpu.vcpu_array.lookup(intc.vm_id) matches Some(v)
            && v.vm_id == intc.vm_id)) ==> final(vgic)@ == old(vgic)@ && final(gich)@ == old(gich)@ && final(fx)@
            == old(fx)@,
        final(vgic)@.cpus.len() == old(vgic)@.cpus.len(),
        final(gich).wf(),
{
    if let IpiInnerMsg::Initc(intc) = msg.ipi_message {
        let vm_id = intc.vm_id;
        let int_id = intc.int_id;
        let val = intc.val;
        let trgt_vcpu = match pcpu.vcpu_array.pop_vcpu_through_vmid(vm_id) {
            None => {
                return ;
            },
            Some(vcpu) => vcpu,
        };
        if vm_id != trgt_vcpu.vm_id {
            return ;
        }
        match intc.event {
            InitcEvent::VgicdGichEn => {
                let hcr = gich.hcr();
                if val != 0 {
                    gich.set_hcr(hcr | 0b1);
                } else {
                    gich.set_hcr(hcr & !0b1u32);
                }
            },
            InitcEvent::VgicdSetEn => {
                vgic.set_enable(gich, fx, &trgt_vcpu, int_id as usize, val != 0);
            },
            InitcEvent::VgicdSetPend => {
                vgic.set_pend(gich, fx, &trgt_vcpu, int_id as usize, val != 0);
            },
            InitcEvent::VgicdSetAct => {
                vgic.set_active(gich, fx, &trgt_vcpu, int_id as usize, val != 0);
            },
            InitcEvent::VgicdSetCfg => {
                vgic.set_icfgr(gich, fx, &trgt_vcpu, int_id as usize, val);
            },
            InitcEvent::VgicdSetPrio => {
                vgic.set_prio(gich, fx, &trgt_vcpu, int_id as usize, val);
            },
            InitcEvent::VgicdSetTrgt => {
                vgic.set_trgt(gich, fx, &trgt_vcpu, int_id as usize, val);
            },
            InitcEvent::VgicdRoute => {
                let id = int_id_field(int_id as usize);
                if vgic.claim(&trgt_vcpu, id) {
                    if (vgic.irq(trgt_vcpu.id, id).targets() & (1u8 << (pcpu.id as u8))) != 0 {
                        vgic.add_lr(gich, fx, &trgt_vcpu, id);
                    }
                    vgic.yield_owner(&trgt_vcpu, id);
                }
            },
            _ => {},
        }
    }
}

} // verus!
