//! What a guest can ask of an interrupt through the distributor: enable,
//! pending and active state, priority, targets, configuration, and injection.
//!
//! Each request first tries to claim the interrupt for the calling virtual
//! CPU. The holder changes the interrupt here; anyone else forwards the
//! request to the core of the owner.

use vstd::prelude::*;
use crate::consts::{GIC_INTS_MAX, GIC_SGIS_NUM};
use crate::effects::Effect;
use crate::gich::GicHypervisorInterface;
use crate::ipi::{InitcEvent, IpiInitcMessage};
use crate::irq::IrqState;
use crate::occupancy::{claimed_cleanly, lemma_claimed_occ, occ_inv};
use crate::utils::{int_id_field, source_field, spec_int_id_field, spec_source_field};
use crate::vcpu::Vcpu;
use crate::vgic::{sys_of, Sys, Vgic};
use crate::vint::{claim_result, claimed, spec_vgic_get_state, vgic_get_state, vgic_int_get_owner, VgicInt};
use crate::vint_private::Sgis;

verus! {

/// The state that the physical distributor is given for a hardware-backed
/// interrupt in state `state`: a pending interrupt counts as active.
pub open spec fn gicd_state(state: usize) -> usize {
    if state == 1 {
        2
    } else {
        state
    }
}

/// The bit of source CPU `source` in a mask of pending sources; sources
/// beyond the eighth have none.
pub open spec fn source_bit(source: usize) -> u8 {
    if source < 8 {
        1u8 << (source as u8)
    } else {
        0
    }
}

/// The message that carries a request about `interrupt` to another core.
pub open spec fn request(vcpu: Vcpu, interrupt: VgicInt, event: InitcEvent, val: u8) -> IpiInitcMessage {
    IpiInitcMessage { event, vm_id: vcpu.vm_id, int_id: interrupt.id, val }
}

impl Sys {
    /// Whether `vcpu` holds interrupt `int_id` after trying to claim it.
    pub open spec fn claims(self, vcpu: Vcpu, int_id: int) -> bool {
        claim_result(vcpu, self.irq(vcpu, int_id))
    }

    /// The system after `vcpu` tried to claim interrupt `int_id`.
    pub open spec fn claim(self, vcpu: Vcpu, int_id: int) -> Sys {
        self.set_int(vcpu, claimed(vcpu, self.irq(vcpu, int_id)))
    }

    /// The system after a request about interrupt `int_id` was forwarded to
    /// the core of the interrupt's owner.
    pub open spec fn forward(self, vcpu: Vcpu, int_id: int, event: InitcEvent, val: u8) -> Sys {
        let i = self.irq(vcpu, int_id);
        self.emit(Effect::IpiSend { target: i.inner.owner.unwrap().phys_id, msg: request(vcpu, i, event, val) })
    }

    /// The system after the state of interrupt `int_id` was mirrored to the
    /// physical distributor, if the interrupt is hardware-backed.
    pub open spec fn mirror_state(self, vcpu: Vcpu, int_id: int) -> Sys {
        let i = self.irq(vcpu, int_id);
        if i.hw {
            self.emit(
                Effect::GicdSetState { int_id: i.id as usize, state: gicd_state(i.inner.state.spec_to_num()) },
            )
        } else {
            self
        }
    }

    /// The system after `vcpu` asked to enable or disable interrupt `int_id`.
    ///
    /// Software-generated interrupts and ids beyond the last interrupt are
    /// left alone. The holder changes the enable bit if it differs; the
    /// interrupt is then routed if enabled and taken out of its list register
    /// if disabled, and a hardware-backed interrupt is enabled or disabled
    /// in the physical distributor. In the end the holder gives the
    /// interrupt up if it can.
    pub open spec fn set_enable(self, vcpu: Vcpu, int_id: int, en: bool) -> Sys {
        if int_id < GIC_SGIS_NUM || int_id >= GIC_INTS_MAX {
            self
        } else if self.claims(vcpu, int_id) {
            let s0 = self.claim(vcpu, int_id);
            let i = s0.irq(vcpu, int_id);
            let s3 = if i.inner.enabled != en {
                let s1 = s0.set_int(vcpu, i.with_enabled(en));
                let s2 = if en {
                    s1.route(vcpu, int_id)
                } else {
                    s1.remove_lr(vcpu, int_id)
                };
                if i.hw {
                    s2.emit(Effect::GicdSetEnable { int_id: i.id as usize, en })
                } else {
                    s2
                }
            } else {
                s0
            };
            s3.yield_owner(vcpu, int_id)
        } else {
            self.forward(
                vcpu,
                int_id,
                InitcEvent::VgicdSetEn,
                if en {
                    1
                } else {
                    0
                },
            )
        }
    }

    /// The system after the holder set or cleared the pending (`pending`) or
    /// the active bit of interrupt `id`: the interrupt leaves its list
    /// register, the bit changes, the lists follow, a hardware-backed
    /// interrupt's state is mirrored, the interrupt is routed, and the holder
    /// gives it up if it can.
    pub open spec fn set_state_bit(self, vcpu: Vcpu, id: int, pending: bool, val: bool) -> Sys {
        let s1 = self.remove_lr(vcpu, id);
        let i = s1.irq(vcpu, id);
        let state = if pending {
            i.inner.state.with_pending(val)
        } else {
            i.inner.state.with_active(val)
        };
        s1.set_int(vcpu, i.with_state(state)).update_int_list(vcpu, id).mirror_state(vcpu, id).route(
            vcpu,
            id,
        ).yield_owner(vcpu, id)
    }

    /// The system after a source of a software-generated interrupt was made
    /// pending or not. `int_id` holds the interrupt id in its low ten bits
    /// and the source CPU above them.
    ///
    /// The interrupt leaves its list register. If the source's bit changes,
    /// the interrupt is pending exactly if a source is left, the lists
    /// follow, and an interrupt that is not inactive goes to a list register.
    pub open spec fn sgi_set_pend(self, vcpu: Vcpu, int_id: usize, pend: bool) -> Sys {
        let id = spec_int_id_field(int_id) as int;
        if id >= GIC_SGIS_NUM {
            self
        } else {
            let s1 = self.remove_lr(vcpu, id);
            let sgis = s1.vgic.cpus[vcpu.id as int].sgis[id];
            let bit = source_bit(spec_source_field(int_id));
            let new_pendstate = if pend {
                sgis.pend | bit
            } else {
                sgis.pend & !bit
            };
            if sgis.pend != new_pendstate {
                let s2 = s1.with_vgic(s1.vgic.set_sgis(vcpu.id as int, id, Sgis { pend: new_pendstate, ..sgis }));
                let i = s2.irq(vcpu, id);
                let state = i.inner.state.with_pending(new_pendstate != 0);
                let s3 = s2.set_int(vcpu, i.with_state(state)).update_int_list(vcpu, id);
                if state != IrqState::IrqSInactive {
                    s3.add_lr(vcpu, id)
                } else {
                    s3
                }
            } else {
                s1
            }
        }
    }

    /// The system after `vcpu` asked to make interrupt `int_id` pending or
    /// not. The interrupt id is in the low ten bits of `int_id`. A
    /// software-generated interrupt goes by its sources; of any other, the
    /// holder changes the pending bit and anyone else forwards the request.
    pub open spec fn set_pend(self, vcpu: Vcpu, int_id: usize, pend: bool) -> Sys {
        let id = spec_int_id_field(int_id) as int;
        if id < GIC_SGIS_NUM {
            self.sgi_set_pend(vcpu, int_id, pend)
        } else if self.claims(vcpu, id) {
            self.claim(vcpu, id).set_state_bit(vcpu, id, true, pend)
        } else {
            self.forward(
                vcpu,
                id,
                InitcEvent::VgicdSetPend,
                if pend {
                    1
                } else {
                    0
                },
            )
        }
    }

    /// The system after `vcpu` asked to make interrupt `int_id` active or
    /// not. The interrupt id is in the low ten bits of `int_id`. The holder
    /// changes the active bit; anyone else forwards the request.
    pub open spec fn set_active(self, vcpu: Vcpu, int_id: usize, act: bool) -> Sys {
        let id = spec_int_id_field(int_id) as int;
        if self.claims(vcpu, id) {
            self.claim(vcpu, id).set_state_bit(vcpu, id, false, act)
        } else {
            self.forward(
                vcpu,
                id,
                InitcEvent::VgicdSetAct,
                if act {
                    1
                } else {
                    0
                },
            )
        }
    }

    /// The system after `vcpu` asked to configure interrupt `int_id`. Ids
    /// beyond the last interrupt are left alone. The holder stores the
    /// configuration, mirrors it for a hardware-backed interrupt, and gives
    /// the interrupt up if it can.
    pub open spec fn set_icfgr(self, vcpu: Vcpu, int_id: int, cfg: u8) -> Sys {
        if int_id >= GIC_INTS_MAX {
            self
        } else if self.claims(vcpu, int_id) {
            let s0 = self.claim(vcpu, int_id);
            let i = s0.irq(vcpu, int_id);
            let s1 = s0.set_int(vcpu, i.with_cfg(cfg));
            let s2 = if i.hw {
                s1.emit(Effect::GicdSetIcfgr { int_id: i.id as usize, cfg })
            } else {
                s1
            };
            s2.yield_owner(vcpu, int_id)
        } else {
            self.forward(vcpu, int_id, InitcEvent::VgicdSetCfg, cfg)
        }
    }

    /// The system after interrupt `int_id` was injected for `vcpu`. The
    /// interrupt id is in the low ten bits of `int_id`. A hardware-backed
    /// interrupt becomes pending, owned by `vcpu` and out of any list
    /// register, and is routed; any other is made pending.
    pub open spec fn inject(self, vcpu: Vcpu, int_id: usize) -> Sys {
        let id = spec_int_id_field(int_id) as int;
        let i = self.irq(vcpu, id);
        if i.hw {
            self.set_int(
                vcpu,
                i.with_owner(Some(vcpu)).with_state(IrqState::IrqSPend).with_in_lr(false),
            ).update_int_list(vcpu, id).route(vcpu, id)
        } else {
            self.set_pend(vcpu, int_id, true)
        }
    }

    /// The system after `vcpu` asked to target interrupt `int_id` at the
    /// virtual CPUs in `trgt`. Ids beyond the last interrupt are left alone.
    /// The holder stores targets that differ, mirrors them for a
    /// hardware-backed interrupt, routes the interrupt unless it is
    /// inactive, and gives it up if it can.
    pub open spec fn set_trgt(self, vcpu: Vcpu, int_id: int, trgt: u8) -> Sys {
        if int_id >= GIC_INTS_MAX {
            self
        } else if self.claims(vcpu, int_id) {
            let s0 = self.claim(vcpu, int_id);
            let i = s0.irq(vcpu, int_id);
            let s3 = if i.inner.targets != trgt {
                let s1 = s0.set_int(vcpu, i.with_targets(trgt));
                let s2 = if i.hw {
                    s1.emit(Effect::GicdSetTrgt { int_id: i.id as usize, trgt })
                } else {
                    s1
                };
                if spec_vgic_get_state(s2.gich, s2.irq(vcpu, int_id)) != 0 {
                    s2.route(vcpu, int_id)
                } else {
                    s2
                }
            } else {
                s0
            };
            s3.yield_owner(vcpu, int_id)
        } else {
            self.forward(vcpu, int_id, InitcEvent::VgicdSetTrgt, trgt)
        }
    }

    /// The system after `vcpu` asked to give interrupt `int_id` the priority
    /// `prio`, of which the top four bits count. Ids beyond the last
    /// interrupt are left alone. The holder takes an interrupt whose priority
    /// differs out of its list register, stores the priority, routes the
    /// interrupt if it did not get less urgent, mirrors the priority for a
    /// hardware-backed interrupt, and gives the interrupt up if it can.
    pub open spec fn set_prio(self, vcpu: Vcpu, int_id: int, prio: u8) -> Sys {
        let prio = prio & 0xf0;
        if int_id >= GIC_INTS_MAX {
            self
        } else if self.claims(vcpu, int_id) {
            let s0 = self.claim(vcpu, int_id);
            let prev_prio = s0.irq(vcpu, int_id).inner.prio;
            let s4 = if prev_prio != prio {
                let s1 = s0.remove_lr(vcpu, int_id);
                let i = s1.irq(vcpu, int_id);
                let s2 = s1.set_int(vcpu, i.with_prio(prio));
                let s3 = if prio <= prev_prio {
                    s2.route(vcpu, int_id)
                } else {
                    s2
                };
                if i.hw {
                    s3.emit(Effect::GicdSetPriority { int_id: i.id as usize, prio })
                } else {
                    s3
                }
            } else {
                s0
            };
            s4.yield_owner(vcpu, int_id)
        } else {
            self.forward(vcpu, int_id, InitcEvent::VgicdSetPrio, prio)
        }
    }
}

/// Maps the index of a CPU to the number of its CPU interface.
pub fn cpuid_to_cpuif(cpuid: usize) -> (r: usize)
    ensures
        r == cpuid,
{
    cpuid
}

impl Vgic {
    /// Tries to claim interrupt `int_id` for `vcpu`; tells whether `vcpu`
    /// holds it afterwards.
    pub fn claim(&mut self, vcpu: &Vcpu, int_id: usize) -> (r: bool)
        requires
            old(self).wf(),
            vcpu.id < old(self)@.cpus.len(),
            int_id < GIC_INTS_MAX,
        ensures
            r == claim_result(*vcpu, old(self)@.irq(vcpu.id as int, int_id as int)),
            final(self)@ == old(self)@.set_int(
                vcpu.id as int,
                claimed(*vcpu, old(self)@.irq(vcpu.id as int, int_id as int)),
            ),
            !r ==> final(self)@ == old(self)@,
            !r ==> old(self)@.irq(vcpu.id as int, int_id as int).inner.owner.is_some(),
            final(self).wf(),
            final(self)@.cpus.len() == old(self)@.cpus.len(),
            old(self).inv() ==> final(self).inv(),
            old(self)@.lists_inv() ==> final(self)@.lists_inv(),
            occ_inv(old(self)@, *vcpu) && claimed_cleanly(old(self)@, *vcpu, int_id as int) ==> occ_inv(final(self)@, *vcpu),
    {
        proof {
            if occ_inv(self@, *vcpu) && claimed_cleanly(self@, *vcpu, int_id as int) {
                lemma_claimed_occ(self@, *vcpu, int_id as int);
            }
        }
        let mut interrupt = self.irq(vcpu.id, int_id);
        let r = vgic_int_get_owner(vcpu, &mut interrupt);
        if r {
            self.set_int(vcpu.id, interrupt);
        } else {
            proof {
                let v = old(self)@;
                let c = vcpu.id as int;
                assert(v.cpus[c].wf());
                if int_id < 32 {
                    assert(v.cpus[c].interrupts.update(int_id as int, interrupt) =~= v.cpus[c].interrupts);
                    assert(v.cpus.update(c, v.cpus[c]) =~= v.cpus);
                } else {
                    assert(v.spis.update(int_id - 32, interrupt) =~= v.spis);
                }
            }
        }
        r
    }

    /// Forwards a request about interrupt `int_id` to the core of its owner.
    fn forward(&self, fx: &mut Vec<Effect>, vcpu: &Vcpu, int_id: usize, event: InitcEvent, val: u8)
        requires
            self.wf(),
            vcpu.id < self@.cpus.len(),
            int_id < GIC_INTS_MAX,
            self@.irq(vcpu.id as int, int_id as int).inner.owner.is_some(),
        ensures
            forall|g: crate::gich::GichView|
                (Sys { vgic: self@, gich: g, fx: final(fx)@ }) == (#[trigger] Sys {
                    vgic: self@,
                    gich: g,
                    fx: old(fx)@,
                }.forward(*vcpu, int_id as int, event, val)),
    {
        let interrupt = self.irq(vcpu.id, int_id);
        let m = IpiInitcMessage { event, vm_id: vcpu.vm_id, int_id: interrupt.id(), val };
        let phys_id = interrupt.owner_phys_id().unwrap();
        fx.push(Effect::IpiSend { target: phys_id, msg: m });
    }

    /// Enables or disables interrupt `int_id` on behalf of `vcpu`.
    pub fn set_enable(
        &mut self,
        gich: &mut GicHypervisorInterface,
        fx: &mut Vec<Effect>,
        vcpu: &Vcpu,
        int_id: usize,
        en: bool,
    )
        requires
            old(self).inv(),
            old(gich).wf(),
            old(self)@.valid_vcpu(*vcpu),
        ensures
            sys_of(final(self), final(gich), final(fx)) == sys_of(old(self), old(gich), old(fx)).set_enable(
                *vcpu,
                int_id as int,
                en,
            ),
            final(self).inv(),
            old(self)@.lists_inv() ==> final(self)@.lists_inv(),
            occ_inv(old(self)@, *vcpu) && claimed_cleanly(old(self)@, *vcpu, int_id as int) ==> occ_inv(final(self)@, *vcpu),
            final(self)@.cpus.len() == old(self)@.cpus.len(),
            final(gich).wf(),
    {
        if int_id < GIC_SGIS_NUM {
            return ;
        }
        if int_id >= GIC_INTS_MAX {
            return ;
        }
        if self.claim(vcpu, int_id) {
            let mut interrupt = self.irq(vcpu.id, int_id);
            if interrupt.enabled() != en {
                interrupt.set_enabled(en);
                self.set_int(vcpu.id, interrupt);
                if interrupt.enabled() {
                    self.route(gich, fx, vcpu, int_id);
                } else {
                    self.remove_lr(gich, vcpu, int_id);
                }
                if interrupt.hw() {
                    fx.push(Effect::GicdSetEnable { int_id: interrupt.id() as usize, en });
                }
            }
            self.yield_owner(vcpu, int_id);
        } else {
            self.forward(fx, vcpu, int_id, InitcEvent::VgicdSetEn, en as u8);
        }
    }

    /// Mirrors the state of interrupt `int_id` to the physical distributor
    /// if the interrupt is hardware-backed.
    fn mirror_state(&self, fx: &mut Vec<Effect>, vcpu: &Vcpu, int_id: usize)
        requires
            self.wf(),
            vcpu.id < self@.cpus.len(),
            int_id < GIC_INTS_MAX,
        ensures
            forall|g: crate::gich::GichView|
                (Sys { vgic: self@, gich: g, fx: final(fx)@ }) == (#[trigger] Sys {
                    vgic: self@,
                    gich: g,
                    fx: old(fx)@,
                }.mirror_state(*vcpu, int_id as int)),
    {
        let interrupt = self.irq(vcpu.id, int_id);
        let state = interrupt.state().to_num();
        if interrupt.hw() {
            let vgic_int_id = interrupt.id() as usize;
            fx.push(
                Effect::GicdSetState {
                    int_id: vgic_int_id,
                    state: if state == 1 {
                        2
                    } else {
                        state
                    },
                },
            );
        }
    }

    /// Sets or clears the pending (`pending`) or the active bit of interrupt
    /// `id`, which `vcpu` holds.
    fn set_state_bit(
        &mut self,
        gich: &mut GicHypervisorInterface,
        fx: &mut Vec<Effect>,
        vcpu: &Vcpu,
        id: usize,
        pending: bool,
        val: bool,
    )
        requires
            old(self).inv(),
            old(gich).wf(),
            old(self)@.valid_vcpu(*vcpu),
            id < GIC_INTS_MAX,
        ensures
            sys_of(final(self), final(gich), final(fx)) == sys_of(old(self), old(gich), old(fx)).set_state_bit(
                *vcpu,
                id as int,
                pending,
                val,
            ),
            final(self).inv(),
            old(self)@.lists_inv() ==> final(self)@.lists_inv(),
            occ_inv(old(self)@, *vcpu) ==> occ_inv(final(self)@, *vcpu),
            final(self)@.cpus.len() == old(self)@.cpus.len(),
            final(gich).wf(),
    {
        self.remove_lr(gich, vcpu, id);
        let mut interrupt = self.irq(vcpu.id, id);
        let state = interrupt.state();
        if pending {
            interrupt.set_state(IrqState::of_bits(val, state.is_active()));
        } else {
            interrupt.set_state(IrqState::of_bits(state.is_pending(), val));
        }
        self.set_int(vcpu.id, interrupt);
        self.update_int_list(vcpu.id, id);
        self.mirror_state(fx, vcpu, id);
        self.route(gich, fx, vcpu, id);
        self.yield_owner(vcpu, id);
    }

    /// Makes a source of a software-generated interrupt pending or not. The
    /// interrupt id is in the low ten bits of `int_id` and the source CPU
    /// above them.
    pub fn sgi_set_pend(
        &mut self,
        gich: &mut GicHypervisorInterface,
        fx: &mut Vec<Effect>,
        vcpu: &Vcpu,
        int_id: usize,
        pend: bool,
    )
        requires
            old(self).inv(),
            old(gich).wf(),
            old(self)@.valid_vcpu(*vcpu),
        ensures
            sys_of(final(self), final(gich), final(fx)) == sys_of(old(self), old(gich), old(fx)).sgi_set_pend(
                *vcpu,
                int_id,
                pend,
            ),
            final(self).inv(),
            old(self)@.lists_inv() ==> final(self)@.lists_inv(),
            occ_inv(old(self)@, *vcpu) ==> occ_inv(final(self)@, *vcpu),
            final(self)@.cpus.len() == old(self)@.cpus.len(),
            final(gich).wf(),
    {
        let id = int_id_field(int_id);
        if id >= GIC_SGIS_NUM {
            return ;
        }
        let source = source_field(int_id);
        self.remove_lr(gich, vcpu, id);
        let vcpu_id = vcpu.id;
        assert(self@.cpus[vcpu_id as int].wf());
        let pendstate = self.cpu_priv_sgis_pend(vcpu_id, id);
        let bit: u8 = if source < 8 {
            1u8 << (source as u8)
        } else {
            0
        };
        let new_pendstate = if pend {
            pendstate | bit
        } else {
            pendstate & !bit
        };
        if pendstate != new_pendstate {
            self.set_cpu_priv_sgis_pend(vcpu_id, id, new_pendstate);
            let mut interrupt = self.irq(vcpu_id, id);
            let state = IrqState::of_bits(new_pendstate != 0, interrupt.state().is_active());
            interrupt.set_state(state);
            self.set_int(vcpu_id, interrupt);
            self.update_int_list(vcpu_id, id);
            match state {
                IrqState::IrqSInactive => {},
                _ => {
                    self.add_lr(gich, fx, vcpu, id);
                },
            }
        }
    }

    /// Makes interrupt `int_id` pending or not on behalf of `vcpu`. The
    /// interrupt id is in the low ten bits of `int_id`.
    pub fn set_pend(
        &mut self,
        gich: &mut GicHypervisorInterface,
        fx: &mut Vec<Effect>,
        vcpu: &Vcpu,
        int_id: usize,
        pend: bool,
    )
        requires
            old(self).inv(),
            old(gich).wf(),
            old(self)@.valid_vcpu(*vcpu),
        ensures
            sys_of(final(self), final(gich), final(fx)) == sys_of(old(self), old(gich), old(fx)).set_pend(
                *vcpu,
                int_id,
                pend,
            ),
            final(self).inv(),
            old(self)@.lists_inv() ==> final(self)@.lists_inv(),
            occ_inv(old(self)@, *vcpu) && claimed_cleanly(old(self)@, *vcpu, spec_int_id_field(int_id) as int) ==> occ_inv(final(self)@, *vcpu),
            final(self)@.cpus.len() == old(self)@.cpus.len(),
            final(gich).wf(),
    {
        let id = int_id_field(int_id);
        if id < GIC_SGIS_NUM {
            self.sgi_set_pend(gich, fx, vcpu, int_id, pend);
            return ;
        }
        if self.claim(vcpu, id) {
            self.set_state_bit(gich, fx, vcpu, id, true, pend);
        } else {
            self.forward(fx, vcpu, id, InitcEvent::VgicdSetPend, pend as u8);
        }
    }

    /// Makes interrupt `int_id` active or not on behalf of `vcpu`. The
    /// interrupt id is in the low ten bits of `int_id`.
    pub fn set_active(
        &mut self,
        gich: &mut GicHypervisorInterface,
        fx: &mut Vec<Effect>,
        vcpu: &Vcpu,
        int_id: usize,
        act: bool,
    )
        requires
            old(self).inv(),
            old(gich).wf(),
            old(self)@.valid_vcpu(*vcpu),
        ensures
            sys_of(final(self), final(gich), final(fx)) == sys_of(old(self), old(gich), old(fx)).set_active(
                *vcpu,
                int_id,
                act,
            ),
            final(self).inv(),
            old(self)@.lists_inv() ==> final(self)@.lists_inv(),
            occ_inv(old(self)@, *vcpu) && claimed_cleanly(old(self)@, *vcpu, spec_int_id_field(int_id) as int) ==> occ_inv(final(self)@, *vcpu),
            final(self)@.cpus.len() == old(self)@.cpus.len(),
            final(gich).wf(),
    {
        let id = int_id_field(int_id);
        if self.claim(vcpu, id) {
            self.set_state_bit(gich, fx, vcpu, id, false, act);
        } else {
            self.forward(fx, vcpu, id, InitcEvent::VgicdSetAct, act as u8);
        }
    }

    /// Stores the configuration of interrupt `int_id` on behalf of `vcpu`.
    pub fn set_icfgr(
        &mut self,
        gich: &GicHypervisorInterface,
        fx: &mut Vec<Effect>,
        vcpu: &Vcpu,
        int_id: usize,
        cfg: u8,
    )
        requires
            old(self).inv(),
            old(self)@.valid_vcpu(*vcpu),
        ensures
            sys_of(final(self), gich, final(fx)) == sys_of(old(self), gich, old(fx)).set_icfgr(
                *vcpu,
                int_id as int,
                cfg,
            ),
            final(self).inv(),
            old(self)@.lists_inv() ==> final(self)@.lists_inv(),
            occ_inv(old(self)@, *vcpu) && claimed_cleanly(old(self)@, *vcpu, int_id as int) ==> occ_inv(final(self)@, *vcpu),
            final(self)@.cpus.len() == old(self)@.cpus.len(),
    {
        if int_id >= GIC_INTS_MAX {
            return ;
        }
        if self.claim(vcpu, int_id) {
            let mut interrupt = self.irq(vcpu.id, int_id);
            interrupt.set_cfg(cfg);
            self.set_int(vcpu.id, interrupt);
            if interrupt.hw() {
                fx.push(Effect::GicdSetIcfgr { int_id: interrupt.id() as usize, cfg });
            }
            self.yield_owner(vcpu, int_id);
        } else {
            self.forward(fx, vcpu, int_id, InitcEvent::VgicdSetCfg, cfg);
        }
    }

    /// Injects interrupt `int_id` for `vcpu`. The interrupt id is in the low
    /// ten bits of `int_id`.
    pub fn inject(&mut self, gich: &mut GicHypervisorInterface, fx: &mut Vec<Effect>, vcpu: &Vcpu, int_id: usize)
        requires
            old(self).inv(),
            old(gich).wf(),
            old(self)@.valid_vcpu(*vcpu),
        ensures
            sys_of(final(self), final(gich), final(fx)) == sys_of(old(self), old(gich), old(fx)).inject(
                *vcpu,
                int_id,
            ),
            final(self).inv(),
            old(self)@.lists_inv() ==> final(self)@.lists_inv(),
            occ_inv(old(self)@, *vcpu) && claimed_cleanly(old(self)@, *vcpu, spec_int_id_field(int_id) as int) ==> occ_inv(final(self)@, *vcpu),
            final(self)@.cpus.len() == old(self)@.cpus.len(),
            final(gich).wf(),
    {
        let id = int_id_field(int_id);
        let mut interrupt = self.irq(vcpu.id, id);
        if interrupt.hw() {
            interrupt.set_owner(*vcpu);
            interrupt.set_state(IrqState::IrqSPend);
            interrupt.set_in_lr(false);
            self.set_int(vcpu.id, interrupt);
            self.update_int_list(vcpu.id, id);
            self.route(gich, fx, vcpu, id);
        } else {
            self.set_pend(gich, fx, vcpu, int_id, true);
        }
    }

    /// Targets interrupt `int_id` at the virtual CPUs in `trgt`, on behalf of
    /// `vcpu`.
    pub fn set_trgt(
        &mut self,
        gich: &mut GicHypervisorInterface,
        fx: &mut Vec<Effect>,
        vcpu: &Vcpu,
        int_id: usize,
        trgt: u8,
    )
        requires
            old(self).inv(),
            old(gich).wf(),
            old(self)@.valid_vcpu(*vcpu),
        ensures
            sys_of(final(self), final(gich), final(fx)) == sys_of(old(self), old(gich), old(fx)).set_trgt(
                *vcpu,
                int_id as int,
                trgt,
            ),
            final(self).inv(),
            old(self)@.lists_inv() ==> final(self)@.lists_inv(),
            occ_inv(old(self)@, *vcpu) && claimed_cleanly(old(self)@, *vcpu, int_id as int) ==> occ_inv(final(self)@, *vcpu),
            final(self)@.cpus.len() == old(self)@.cpus.len(),
            final(gich).wf(),
    {
        if int_id >= GIC_INTS_MAX {
            return ;
        }
        if self.claim(vcpu, int_id) {
            let mut interrupt = self.irq(vcpu.id, int_id);
            if interrupt.targets() != trgt {
                interrupt.set_targets(trgt);
                self.set_int(vcpu.id, interrupt);
                let ptrgt = physical_targets(trgt);
                if interrupt.hw() {
                    fx.push(Effect::GicdSetTrgt { int_id: interrupt.id() as usize, trgt: ptrgt });
                }
                if vgic_get_state(gich, &interrupt) != 0 {
                    self.route(gich, fx, vcpu, int_id);
                }
            }
            self.yield_owner(vcpu, int_id);
        } else {
            self.forward(fx, vcpu, int_id, InitcEvent::VgicdSetTrgt, trgt);
        }
    }

    /// Gives interrupt `int_id` the priority `prio`, on behalf of `vcpu`.
    pub fn set_prio(
        &mut self,
        gich: &mut GicHypervisorInterface,
        fx: &mut Vec<Effect>,
        vcpu: &Vcpu,
        int_id: usize,
        prio: u8,
    )
        requires
            old(self).inv(),
            old(gich).wf(),
            old(self)@.valid_vcpu(*vcpu),
        ensures
            sys_of(final(self), final(gich), final(fx)) == sys_of(old(self), old(gich), old(fx)).set_prio(
                *vcpu,
                int_id as int,
                prio,
            ),
            final(self).inv(),
            old(self)@.lists_inv() ==> final(self)@.lists_inv(),
            occ_inv(old(self)@, *vcpu) && claimed_cleanly(old(self)@, *vcpu, int_id as int) ==> occ_inv(final(self)@, *vcpu),
            final(self)@.cpus.len() == old(self)@.cpus.len(),
            final(gich).wf(),
    {
        if int_id >= GIC_INTS_MAX {
            return ;
        }
        let prio = prio & 0xf0;
        if self.claim(vcpu, int_id) {
            let prev_prio = self.irq(vcpu.id, int_id).prio();
            if prev_prio != prio {
                self.remove_lr(gich, vcpu, int_id);
                let mut interrupt = self.irq(vcpu.id, int_id);
                interrupt.set_prio(prio);
                self.set_int(vcpu.id, interrupt);
                if prio <= prev_prio {
                    self.route(gich, fx, vcpu, int_id);
                }
                if interrupt.hw() {
                    fx.push(Effect::GicdSetPriority { int_id: interrupt.id() as usize, prio });
                }
            }
            self.yield_owner(vcpu, int_id);
        } else {
            self.forward(fx, vcpu, int_id, InitcEvent::VgicdSetPrio, prio);
        }
    }
}

/// Maps a mask of virtual CPU targets to the mask of their CPU interfaces,
/// bit by bit.
pub fn physical_targets(trgt: u8) -> (ptrgt: u8)
    ensures
        ptrgt == trgt,
{
    let mut ptrgt: u8 = 0;
    let mut cpuid: usize = 0;
    assert(trgt & low_mask(0) == 0) by (bit_vector);
    while cpuid < 8
        invariant
            cpuid <= 8,
            ptrgt == trgt & low_mask(cpuid as u8),
        decreases 8 - cpuid,
    {
        let cpuif = cpuid_to_cpuif(cpuid);
        let c = cpuid as u8;
        assert(((trgt >> c) & 1 != 0 ==> (trgt & low_mask(c)) | (1u8 << c) == trgt & low_mask((c + 1) as u8))
            && ((trgt >> c) & 1 == 0 ==> trgt & low_mask(c) == trgt & low_mask((c + 1) as u8))) by (bit_vector)
            requires
                c < 8,
        ;
        if (trgt >> c) & 1 != 0 {
            ptrgt = ptrgt | (1u8 << (cpuif as u8));
        }
        cpuid = cpuid + 1;
    }
    assert(trgt & low_mask(8) == trgt) by (bit_vector);
    ptrgt
}

/// The byte with the low `n` bits set.
pub open spec fn low_mask(n: u8) -> u8 {
    ((((1u16 << (n as u16)) - 1) as u16) & 0xff) as u8
}

} // verus!
