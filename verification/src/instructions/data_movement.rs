//! Data movement: MOVE, MOVEA, MOVEM, LEA, PEA, EXG, LINK, UNLK, SWAP, and
//! the effective-address read/write helpers the other instructions share.

use vstd::prelude::*;
use crate::cpu::{CpuCore, flushed, RUN_MODE_BERR_AERR_RESET};
use crate::ea::{AddressingMode, EaResult, ea_ok, mode_ok, resolved, stream_only};
use crate::exceptions::{frame_write, address_error_taken};
use crate::instructions::integer_arith::{ccr_logic, sized_write, sext16, reg_frame, m68000_finished};
use crate::flags::n_of;
use crate::ea::{ea_time_spec, ea_dest_spec, lea_cycles_spec, movem_calc_spec, lea_ea_cycles_68000, ea_step};
use crate::mem_ops::{access_faults, pushed, log_extends, lemma_log_extends_append, lemma_log_extends_trans};
use crate::types::lemma_mask_bounds;
use crate::memory::AddressBus;
use crate::mem_ops::{checked_access, checked_pair, refilled, lemma_even_steps, sync_events, refill_events, refilled_pending};
use crate::memory::BusEvent;
use crate::types::{CpuType, Size, size_mask, size_bytes};

verus! {

/// Value read from a register or immediate operand.
pub open spec fn direct_value(cpu: CpuCore, ea: EaResult, size: Size) -> u32 {
    match ea {
        EaResult::DataReg(r) => cpu.dar[r as int] & size_mask(size),
        EaResult::AddrReg(r) => cpu.dar[8 + r] & size_mask(size),
        EaResult::Immediate(v) => v & size_mask(size),
        EaResult::Memory(_) => 0,
    }
}

/// Effects of a read of `ea`: registers and immediates are read without a
/// bus access; memory reads report clocks or raise an address error.
pub open spec fn read_effects(old: CpuCore, new: CpuCore, ea: EaResult, size: Size, r: u32) -> bool {
    match ea {
        EaResult::Memory(addr) => frame_write(old, new) && (size == Size::Byte ==> flushed(old, new))
            && (size != Size::Byte ==> checked_access(old, new, addr, size)),
        _ => new == old && r == direct_value(old, ea, size),
    }
}

/// The long word popped by UNLK from two word reads: `hi` then `lo`.
pub open spec fn unlk_popped(value: u32, hi: u16, lo: u16) -> bool {
    value == ((hi as u32) << 16u32) | (lo as u32)
}

/// Whether `t` writes a long word as two word cycles (the 16-bit-bus
/// models).
pub open spec fn splits_long_writes(t: CpuType) -> bool {
    t == CpuType::M68000 || t == CpuType::M68010 || t == CpuType::SCC68070
}

/// The bus writes that store `value` of `size` at `addr` (bus mask `m`):
/// one cycle, or on the 16-bit-bus models a long as two word cycles, the
/// low word (at `addr + 2`) first.
pub open spec fn write_data_events(t: CpuType, m: u32, addr: u32, size: Size, value: u32) -> Seq<BusEvent> {
    match size {
        Size::Byte => seq![BusEvent::WriteByte(addr & m, value as u8)],
        Size::Word => seq![BusEvent::WriteWord(addr & m, value as u16)],
        Size::Long => if splits_long_writes(t) {
            seq![
                BusEvent::WriteWord(addr.wrapping_add(2) & m, value as u16),
                BusEvent::WriteWord(addr & m, (value >> 16u32) as u16),
            ]
        } else {
            seq![BusEvent::WriteLong(addr & m, value)]
        },
    }
}

/// The bus calls of a read-modify-write store of `value` to memory at
/// `addr` from `old`: the final prefetch (with the IPL sample when
/// `poll`), the pending clocks, then the write cycles; `new` holds the
/// refilled queue.
pub open spec fn rmw_store_events(old: CpuCore, new: CpuCore, poll: bool, addr: u32, size: Size, value: u32) -> Seq<BusEvent> {
    refill_events(old, new) + (if poll {
        seq![BusEvent::IplHold]
    } else {
        seq![]
    }) + sync_events(refilled_pending(old)) + write_data_events(old.cpu_type, old.address_mask, addr, size, value)
}

/// The address MOVE stores to through `-(An)` from `cpu`.
pub open spec fn predec_target(cpu: CpuCore, n: u8, size: Size) -> u32 {
    cpu.dar[8 + n].wrapping_sub(ea_step(size, n))
}

/// The bus log `events` ends with the 68000 MOVE store of `v` of `size`
/// through `-(An)` to `a` (bus mask `m`): a long as two word cycles, the
/// low word (at `a + 2`) first.
pub open spec fn predec_store_ends(events: Seq<BusEvent>, m: u32, a: u32, size: Size, v: u32) -> bool {
    match size {
        Size::Byte => events.len() >= 1 && events.last() == BusEvent::WriteByte(a & m, v as u8),
        Size::Word => events.len() >= 1 && events.last() == BusEvent::WriteWord(a & m, v as u16),
        Size::Long => {
            &&& events.len() >= 2
            &&& events[events.len() - 2] == BusEvent::WriteWord(a.wrapping_add(2) & m, (v & 0xFFFF) as u16)
            &&& events.last() == BusEvent::WriteWord(a & m, (v >> 16u32) as u16)
        },
    }
}

/// The single bus write of `v` of `size` at `addr`.
pub open spec fn write_event(addr: u32, size: Size, v: u32) -> BusEvent {
    match size {
        Size::Byte => BusEvent::WriteByte(addr, v as u8),
        Size::Word => BusEvent::WriteWord(addr, v as u16),
        Size::Long => BusEvent::WriteLong(addr, v),
    }
}

/// The bus read of `size` at `addr` that returned `v`.
pub open spec fn read_event(addr: u32, size: Size, v: u32) -> BusEvent {
    match size {
        Size::Byte => BusEvent::ReadByte(addr, v as u8),
        Size::Word => BusEvent::ReadWord(addr, v as u16),
        Size::Long => BusEvent::ReadLong(addr, v),
    }
}

/// The operand at `ea` is in memory at an address that the model's bus
/// cannot take for `size` (an address error).
pub open spec fn source_faults(cpu: CpuCore, ea: EaResult, size: Size) -> bool {
    ea matches EaResult::Memory(addr) && access_faults(cpu.is_pre_68020, addr, size)
}

/// Effects of a write of `value` to `ea`: register writes are exact, memory
/// writes touch only the bus-sequencing state (or raise an address error).
pub open spec fn write_effects(old: CpuCore, new: CpuCore, ea: EaResult, size: Size, value: u32) -> bool {
    match ea {
        EaResult::DataReg(r) => new.dar@ =~= old.dar@.update(
            r as int,
            sized_write(old.dar[r as int], value, size),
        ) && new == (CpuCore { dar: new.dar, ..old }),
        EaResult::AddrReg(r) => new.dar@ =~= old.dar@.update(8 + r, value) && new == (CpuCore {
            dar: new.dar,
            ..old
        }),
        EaResult::Immediate(_) => new == old,
        EaResult::Memory(_) => frame_write(old, new) && (size == Size::Byte ==> new == (CpuCore {
            prefetch_queue: new.prefetch_queue,
            prefetch_count: new.prefetch_count,
            pending_sync_clocks: new.pending_sync_clocks,
            ..old
        })),
    }
}

impl CpuCore {
    /// Read the operand at an already-resolved effective address.
    pub fn read_resolved_ea<B: AddressBus>(&mut self, bus: &mut B, ea: EaResult, size: Size) -> (r: u32)
        requires
            ea_ok(ea),
        ensures
            read_effects(*old(self), *final(self), ea, size, r),
            !(ea is Memory) ==> final(bus).events() == old(bus).events(),
            ea matches EaResult::Memory(addr) ==> r <= size_mask(size) && (!access_faults(
                old(self).is_pre_68020,
                addr,
                size,
            ) ==> final(bus).events() == (old(bus).events() + sync_events(old(self).pending_sync_clocks)).push(
                read_event(addr & old(self).address_mask, size, r),
            )),
            !old(self).is_pre_68020 ==> log_extends(old(bus).events(), final(bus).events()),
    {
        let r = self.read_resolved_ea_value(bus, ea, size);
        proof {
            lemma_log_extends_append(old(bus).events(), Seq::empty());
            if let EaResult::Memory(addr) = ea {
                if !old(self).is_pre_68020 {
                    let tail = sync_events(old(self).pending_sync_clocks).push(
                        read_event(addr & old(self).address_mask, size, r),
                    );
                    lemma_log_extends_append(old(bus).events(), tail);
                    assert(bus.events() =~= old(bus).events() + tail);
                }
            }
        }
        r
    }

    /// The operand read of `read_resolved_ea`.
    fn read_resolved_ea_value<B: AddressBus>(&mut self, bus: &mut B, ea: EaResult, size: Size) -> (r: u32)
        requires
            ea_ok(ea),
        ensures
            read_effects(*old(self), *final(self), ea, size, r),
            !(ea is Memory) ==> final(bus).events() == old(bus).events(),
            ea matches EaResult::Memory(addr) ==> r <= size_mask(size) && (!access_faults(
                old(self).is_pre_68020,
                addr,
                size,
            ) ==> final(bus).events() == (old(bus).events() + sync_events(old(self).pending_sync_clocks)).push(
                read_event(addr & old(self).address_mask, size, r),
            )),
    {
        match ea {
            EaResult::DataReg(reg) => self.dar[reg as usize] & size.mask(),
            EaResult::AddrReg(reg) => self.dar[8 + reg as usize] & size.mask(),
            EaResult::Memory(addr) => match size {
                Size::Byte => {
                    let b = self.read_8(bus, addr) as u32;
                    proof {
                        lemma_flushed_frame(*old(self), *self);
                    }
                    b
                },
                Size::Word => self.read_16(bus, addr) as u32,
                Size::Long => self.read_32(bus, addr),
            },
            EaResult::Immediate(value) => value & size.mask(),
        }
    }

    /// Resolve `mode` and read its operand.
    pub fn read_ea<B: AddressBus>(&mut self, bus: &mut B, mode: AddressingMode, size: Size) -> (r: u32)
        requires
            mode_ok(mode),
        ensures
            mode is DataDirect ==> *final(self) == *old(self) && r == old(self).dar[mode->DataDirect_0 as int]
                & size_mask(size),
            mode is AddressDirect ==> *final(self) == *old(self) && r == old(self).dar[8
                + mode->AddressDirect_0] & size_mask(size),
            mode is DataDirect || mode is AddressDirect ==> final(bus).events() == old(bus).events(),
            final(self).cpu_type == old(self).cpu_type,
            final(self).is_pre_68020 == old(self).is_pre_68020,
            ccr_kept(*old(self), *final(self)),
            forall|i: int| 0 <= i < 8 ==> final(self).dar[i] == old(self).dar[i],
            final(self).run_mode == old(self).run_mode || final(self).run_mode
                == RUN_MODE_BERR_AERR_RESET,
            final(self).sst_m68000_compat == old(self).sst_m68000_compat,
            exists|ea: EaResult, mid: CpuCore|
                #[trigger] resolved(*old(self), mid, mode, size, ea) && read_effects(mid, *final(self), ea, size, r)
                    && (ea matches EaResult::Memory(addr) ==> r <= size_mask(size) && (!access_faults(
                    mid.is_pre_68020,
                    addr,
                    size,
                ) ==> final(bus).events().len() > 0 && final(bus).events().last() == read_event(addr & mid.address_mask, size, r))),
            !old(self).is_pre_68020 ==> log_extends(old(bus).events(), final(bus).events()),
    {
        let ea = self.resolve_ea(bus, mode, size);
        let ghost mid = *self;
        let ghost e1 = bus.events();
        let r = self.read_resolved_ea(bus, ea, size);
        proof {
            assert(resolved(*old(self), mid, mode, size, ea) && read_effects(mid, *self, ea, size, r));
            if !old(self).is_pre_68020 {
                assert(mid.is_pre_68020 == old(self).is_pre_68020);
                lemma_log_extends_trans(old(bus).events(), e1, bus.events());
            }
        }
        r
    }

    /// RMW writeback to an already-resolved effective address; the IPL
    /// sample rides the write.
    pub fn write_resolved_ea<B: AddressBus>(&mut self, bus: &mut B, ea: EaResult, size: Size, value: u32)
        requires
            ea_ok(ea),
        ensures
            write_effects(*old(self), *final(self), ea, size, value),
            !(ea is Memory) ==> final(bus).events() == old(bus).events(),
            (match ea {
                EaResult::Memory(addr) => !access_faults(old(self).is_pre_68020, addr, size) ==> final(bus).events()
                    == old(bus).events() + rmw_store_events(*old(self), *final(self), false, addr, size, value),
                _ => true,
            }),
            (match ea {
                EaResult::Memory(addr) => !access_faults(old(self).is_pre_68020, addr, size) ==> final(self).run_mode
                    == old(self).run_mode,
                _ => true,
            }),
    {
        self.write_resolved_ea_impl(bus, ea, size, value, false);
    }

    /// RMW writeback whose IPL sample is the final prefetch before the
    /// write.
    pub fn write_resolved_ea_np_poll<B: AddressBus>(&mut self, bus: &mut B, ea: EaResult, size: Size, value: u32)
        requires
            ea_ok(ea),
        ensures
            write_effects(*old(self), *final(self), ea, size, value),
            !(ea is Memory) ==> final(bus).events() == old(bus).events(),
            (match ea {
                EaResult::Memory(addr) => !access_faults(old(self).is_pre_68020, addr, size) ==> final(bus).events()
                    == old(bus).events() + rmw_store_events(*old(self), *final(self), true, addr, size, value),
                _ => true,
            }),
            (match ea {
                EaResult::Memory(addr) => !access_faults(old(self).is_pre_68020, addr, size) ==> final(self).run_mode
                    == old(self).run_mode,
                _ => true,
            }),
    {
        self.write_resolved_ea_impl(bus, ea, size, value, true);
    }

    /// RMW writeback. On the 68000 the final prefetch precedes a memory
    /// write; the 16-bit-bus models write a long as two word cycles, low
    /// word first.
    /// The write cycles of a store of `value` of `size` at `addr`: one
    /// cycle, or on the 16-bit-bus models a long as two word cycles, low
    /// word first.
    fn write_data<B: AddressBus>(&mut self, bus: &mut B, addr: u32, size: Size, value: u32)
        ensures
            frame_write(*old(self), *final(self)),
            size == Size::Byte ==> flushed(*old(self), *final(self)),
            !access_faults(old(self).is_pre_68020, addr, size) ==> flushed(*old(self), *final(self)),
            !access_faults(old(self).is_pre_68020, addr, size) ==> final(bus).events() == old(bus).events()
                + sync_events(old(self).pending_sync_clocks) + write_data_events(
                old(self).cpu_type,
                old(self).address_mask,
                addr,
                size,
                value,
            ),
    {
        proof {
            if addr & 1 != 1 {
                lemma_even_steps(addr);
            }
            assert(sync_events(0) =~= Seq::<BusEvent>::empty());
        }
        match size {
            Size::Byte => {
                self.write_8(bus, addr, value as u8);
                proof {
                    lemma_flushed_frame(*old(self), *self);
                }
            },
            Size::Word => self.write_16(bus, addr, value as u16),
            Size::Long => {
                if matches!(self.cpu_type, CpuType::M68000 | CpuType::M68010 | CpuType::SCC68070) {
                    self.write_16(bus, addr.wrapping_add(2), value as u16);
                    self.write_16(bus, addr, (value >> 16u32) as u16);
                } else {
                    self.write_32(bus, addr, value);
                }
            },
        }
    }

    /// RMW writeback to memory: the final prefetch (with the IPL sample when
    /// `np_poll`), the pending clocks, then the write cycles.
    #[verifier::rlimit(40)]
    #[verifier::spinoff_prover]
    fn write_memory_operand<B: AddressBus>(&mut self, bus: &mut B, addr: u32, size: Size, value: u32, np_poll: bool)
        ensures
            write_effects(*old(self), *final(self), EaResult::Memory(addr), size, value),
            !access_faults(old(self).is_pre_68020, addr, size) ==> final(bus).events() == old(bus).events()
                + rmw_store_events(*old(self), *final(self), np_poll, addr, size, value),
            !access_faults(old(self).is_pre_68020, addr, size) ==> final(self).run_mode == old(self).run_mode,
    {
        let ghost e0 = bus.events();
        self.top_up_prefetch(bus);
        if np_poll {
            self.ipl_poll_point(bus);
        }
        proof {
            lemma_refilled_frame(*old(self), *self);
            assert(bus.events() =~= e0 + refill_events(*old(self), *self) + (if np_poll {
                seq![BusEvent::IplHold]
            } else {
                seq![]
            }));
            if addr & 1 != 1 {
                lemma_even_steps(addr);
            }
            assert(sync_events(0) =~= Seq::<BusEvent>::empty());
        }
        let ghost mid = *self;
        proof {
            assert(mid.pending_sync_clocks == refilled_pending(*old(self)));
        }
        let ghost e1 = bus.events();
        self.write_data(bus, addr, size, value);
        proof {
            if !access_faults(old(self).is_pre_68020, addr, size) {
                assert(self.run_mode == mid.run_mode);
                assert(mid.run_mode == old(self).run_mode);
                assert(self.prefetch_queue == mid.prefetch_queue);
                assert(refill_events(*old(self), *self) == refill_events(*old(self), mid));
                assert(bus.events() =~= old(bus).events() + rmw_store_events(
                    *old(self),
                    *self,
                    np_poll,
                    addr,
                    size,
                    value,
                ));
            }
        }
    }

    fn write_resolved_ea_impl<B: AddressBus>(
        &mut self,
        bus: &mut B,
        ea: EaResult,
        size: Size,
        value: u32,
        np_poll: bool,
    )
        requires
            ea_ok(ea),
        ensures
            write_effects(*old(self), *final(self), ea, size, value),
            !(ea is Memory) ==> final(bus).events() == old(bus).events(),
            (match ea {
                EaResult::Memory(addr) => !access_faults(old(self).is_pre_68020, addr, size) ==> final(bus).events()
                    == old(bus).events() + rmw_store_events(*old(self), *final(self), np_poll, addr, size, value),
                _ => true,
            }),
            (match ea {
                EaResult::Memory(addr) => !access_faults(old(self).is_pre_68020, addr, size) ==> final(self).run_mode
                    == old(self).run_mode,
                _ => true,
            }),
    {
        match ea {
            EaResult::DataReg(reg) => {
                let reg = reg as usize;
                match size {
                    Size::Byte => self.dar[reg] = (self.dar[reg] & 0xFFFFFF00) | (value & 0xFF),
                    Size::Word => self.dar[reg] = (self.dar[reg] & 0xFFFF0000) | (value & 0xFFFF),
                    Size::Long => self.dar[reg] = value,
                }
            },
            EaResult::AddrReg(reg) => self.dar[8 + reg as usize] = value,
            EaResult::Memory(addr) => self.write_memory_operand(bus, addr, size, value, np_poll),
            EaResult::Immediate(_) => {},
        }
    }

    /// Resolve `mode` and write `value` to it.
    pub fn write_ea<B: AddressBus>(&mut self, bus: &mut B, mode: AddressingMode, size: Size, value: u32)
        requires
            mode_ok(mode),
        ensures
            mode is DataDirect ==> final(self).dar@ == old(self).dar@.update(
                mode->DataDirect_0 as int,
                sized_write(old(self).dar[mode->DataDirect_0 as int], value, size),
            ) && *final(self) == (CpuCore { dar: final(self).dar, ..*old(self) }),
            mode is AddressDirect ==> final(self).dar@ == old(self).dar@.update(
                8 + mode->AddressDirect_0,
                value,
            ) && *final(self) == (CpuCore { dar: final(self).dar, ..*old(self) }),
            final(self).cpu_type == old(self).cpu_type,
            final(self).is_pre_68020 == old(self).is_pre_68020,
            ccr_kept(*old(self), *final(self)),
            exists|ea: EaResult, mid: CpuCore|
                #[trigger] resolved(*old(self), mid, mode, size, ea) && match ea {
                    EaResult::Memory(addr) => !access_faults(mid.is_pre_68020, addr, size) ==> flushed(mid, *final(self))
                        && final(bus).events().last() == write_event(addr & mid.address_mask, size, value),
                    _ => true,
                },
            !old(self).is_pre_68020 ==> log_extends(old(bus).events(), final(bus).events()),
    {
        let ea = self.resolve_ea(bus, mode, size);
        let ghost mid = *self;
        let ghost e1 = bus.events();
        match ea {
            EaResult::DataReg(reg) => {
                let reg = reg as usize;
                match size {
                    Size::Byte => {
                        self.dar[reg] = (self.dar[reg] & 0xFFFFFF00) | (value & 0xFF);
                    },
                    Size::Word => {
                        self.dar[reg] = (self.dar[reg] & 0xFFFF0000) | (value & 0xFFFF);
                    },
                    Size::Long => {
                        self.dar[reg] = value;
                    },
                }
            },
            EaResult::AddrReg(reg) => {
                self.dar[8 + reg as usize] = value;
            },
            EaResult::Memory(addr) => match size {
                Size::Byte => self.write_8(bus, addr, value as u8),
                Size::Word => self.write_16(bus, addr, value as u16),
                Size::Long => self.write_32(bus, addr, value),
            },
            EaResult::Immediate(_) => {},
        }
        proof {
            assert(resolved(*old(self), mid, mode, size, ea));
            if !old(self).is_pre_68020 {
                assert(bus.events().subrange(0, e1.len() as int) =~= e1);
                lemma_log_extends_trans(old(bus).events(), e1, bus.events());
            }
        }
    }

    /// The address of a control operand (LEA/PEA/JMP/JSR); 0 for the
    /// register and immediate forms, which have none.
    pub fn get_ea_address<B: AddressBus>(&mut self, bus: &mut B, mode: AddressingMode, size: Size) -> (r: u32)
        requires
            mode_ok(mode),
        ensures
            mode is AddressIndirect ==> r == old(self).dar[8 + mode->AddressIndirect_0] && *final(self) == *old(
                self),
            (mode is DataDirect || mode is AddressDirect || mode is Immediate) ==> r == 0,
            mode is PostIncrement ==> r == old(self).dar[8 + mode->PostIncrement_0],
            final(self).cpu_type == old(self).cpu_type,
            final(self).is_pre_68020 == old(self).is_pre_68020,
            final(self).exception_processing == old(self).exception_processing,
            final(self).run_mode == old(self).run_mode,
            (mode is Displacement || mode is Index || mode is AbsoluteShort || mode is AbsoluteLong
                || mode is PcDisplacement || mode is PcIndex) ==> stream_only(*old(self), *final(self)),
            ccr_kept(*old(self), *final(self)),
            !(mode is PostIncrement) && !(mode is PreDecrement) ==> final(self).dar == old(self).dar,
            mode is AddressIndirect || mode is PostIncrement ==> final(bus).events() == old(bus).events(),
            forall|i: int|
                0 <= i < 16 && !(mode matches AddressingMode::PostIncrement(n) && i == 8 + n) && !(
                mode matches AddressingMode::PreDecrement(n) && i == 8 + n) ==> #[trigger] final(self).dar[i]
                    == old(self).dar[i],
            final(self).address_mask == old(self).address_mask,
            !old(self).is_pre_68020 ==> log_extends(old(bus).events(), final(bus).events()),
    {
        match self.resolve_ea(bus, mode, size) {
            EaResult::Memory(addr) => addr,
            _ => 0,
        }
    }
}

/// The condition codes of `new` are those of `old`.
pub open spec fn ccr_kept(old: CpuCore, new: CpuCore) -> bool {
    &&& new.x_flag == old.x_flag
    &&& new.n_flag == old.n_flag
    &&& new.not_z_flag == old.not_z_flag
    &&& new.v_flag == old.v_flag
    &&& new.c_flag == old.c_flag
}

/// Clocks of MOVE: the 68000's base plus source and destination times;
/// later models a flat 2, plus the data-return latency of a memory or
/// immediate source.
pub open spec fn move_cycles(t: CpuType, src: AddressingMode, dst: AddressingMode, size: Size) -> i32 {
    if t == CpuType::M68000 {
        (4 + ea_time_spec(src, size) + ea_dest_spec(dst, size)) as i32
    } else if src is DataDirect || src is AddressDirect {
        2
    } else if size == Size::Long {
        13
    } else {
        9
    }
}

/// Stack pointer `sp` moved by the signed LINK displacement `d`.
pub open spec fn link_sp(sp: u32, d: i32) -> u32 {
    (sp as i32).wrapping_add(d) as u32
}

/// Stack pointer `sp` moved by the signed word displacement `d`.
pub open spec fn link_sp16(sp: u32, d: i16) -> u32 {
    link_sp(sp, d as i32)
}

/// The 68000 MOVE store of `v` of `size` at `a` (bus mask `m`) through
/// `(An)`, `(An)+` and the indexed forms: a long as two word cycles, the high
/// word first.
pub open spec fn move_dest_events(m: u32, a: u32, size: Size, v: u32) -> Seq<BusEvent> {
    match size {
        Size::Byte => seq![BusEvent::WriteByte(a & m, v as u8)],
        Size::Word => seq![BusEvent::WriteWord(a & m, v as u16)],
        Size::Long => seq![
            BusEvent::WriteWord(a & m, (v >> 16u32) as u16),
            BusEvent::WriteWord(a.wrapping_add(2) & m, v as u16),
        ],
    }
}

/// The bus log `events` ends with the 68000 MOVE store `move_dest_events`
/// followed by the interrupt sample.
pub open spec fn move_dest_ends(events: Seq<BusEvent>, m: u32, a: u32, size: Size, v: u32) -> bool {
    let tail = move_dest_events(m, a, size, v).push(BusEvent::IplHold);
    &&& events.len() >= tail.len()
    &&& events.subrange(events.len() - tail.len(), events.len() as int) == tail
}

/// The log holds a read of `size` at `addr` that returned `v`.
pub open spec fn read_logged(ev: Seq<BusEvent>, addr: u32, size: Size, v: u32) -> bool {
    exists|k: int| 0 <= k < ev.len() && ev[k] == read_event(addr, size, v)
}

/// The 16-bit-bus models end a register instruction with a full prefetch
/// queue; the pending clocks are reported when the queue was topped up.
pub open spec fn m68000_finished_queue(old: CpuCore, new: CpuCore) -> bool {
    &&& new.prefetch_count == (if old.is_pre_68020 && old.prefetch_count < 2 { 2 } else { old.prefetch_count })
    &&& new.pending_sync_clocks == refilled_pending(old)
}

/// The long word LINK pushes: An, except that the 68040 pushes A7 already
/// decremented for `LINK A7`.
pub open spec fn link_pushed(old: CpuCore, reg: int) -> u32 {
    if reg == 7 && (old.cpu_type == CpuType::M68EC040 || old.cpu_type == CpuType::M68LC040
        || old.cpu_type == CpuType::M68040) {
        old.dar[15].wrapping_sub(4)
    } else {
        old.dar[8 + reg]
    }
}

/// What LINK An,#disp16 does from `old` (bus log `eo`) to `new` (log `en`)
/// when its push does not fault: An holds the decremented stack pointer,
/// the other registers but A7 are kept, the push of `link_pushed` is
/// followed by the interrupt sample, and A7 moves by the displacement word
/// from the instruction stream.
pub open spec fn link_effect(old: CpuCore, new: CpuCore, eo: Seq<BusEvent>, en: Seq<BusEvent>, reg: int) -> bool {
    let sp = old.dar[15].wrapping_sub(4);
    &&& reg != 7 ==> new.dar[8 + reg] == sp
    &&& forall|i: int| 0 <= i < 15 && i != 8 + reg ==> new.dar[i] == old.dar[i]
    &&& new.address_mask == old.address_mask
    &&& new.is_pre_68020 == old.is_pre_68020
    &&& en.len() >= 2
    &&& en.last() == BusEvent::IplHold
    &&& en[en.len() - 2] == BusEvent::WriteLong(sp & old.address_mask, link_pushed(old, reg))
    &&& exists|d: i16| new.dar[15] == #[trigger] link_sp16(sp, d)
    &&& old.is_pre_68020 && old.prefetch_count >= 1 ==> new.dar[15] == link_sp16(sp, old.prefetch_queue[0] as i16)
    &&& !old.is_pre_68020 ==> exists|w: u16|
        #[trigger] link_sp16(sp, w as i16) == new.dar[15] && en == eo + sync_events(old.pending_sync_clocks)
            + seq![
            BusEvent::ReadWord(old.pc & old.address_mask, w),
            BusEvent::WriteLong(sp & old.address_mask, link_pushed(old, reg)),
            BusEvent::IplHold,
        ]
}

/// What UNLK An (An not A7) does from `old` to `new` on a model with a
/// 32-bit bus: A7 is An + 4, the other registers but An are kept, and An
/// is the long word read at the old An.
pub open spec fn unlk_effect32(old: CpuCore, new: CpuCore, eo: Seq<BusEvent>, en: Seq<BusEvent>, reg: int) -> bool {
    &&& new.dar[15] == old.dar[8 + reg].wrapping_add(4)
    &&& forall|i: int| 0 <= i < 15 && i != 8 + reg ==> new.dar[i] == old.dar[i]
    &&& en == (eo + sync_events(old.pending_sync_clocks)).push(
        BusEvent::ReadLong(old.dar[8 + reg] & old.address_mask, new.dar[8 + reg]),
    )
}

/// UNLK undoes LINK: after LINK An,#d and then UNLK An (An not A7, 32-bit
/// bus), UNLK reads the long word at the very address LINK wrote, A7 is
/// back to its value before LINK, and when memory returns the long word
/// LINK stored there, An and every other register but A7 hold their
/// values from before LINK.
pub proof fn lemma_unlk_undoes_link(
    s0: CpuCore,
    s1: CpuCore,
    s2: CpuCore,
    e0: Seq<BusEvent>,
    e1: Seq<BusEvent>,
    e2: Seq<BusEvent>,
    reg: int,
)
    requires
        0 <= reg < 7,
        !s0.is_pre_68020,
        link_effect(s0, s1, e0, e1, reg),
        unlk_effect32(s1, s2, e1, e2, reg),
    ensures
        e1[e1.len() - 2] matches BusEvent::WriteLong(a, _) && e2.last() matches BusEvent::ReadLong(b, _) && a == b,
        s2.dar[15] == s0.dar[15],
        e2.last() == BusEvent::ReadLong(s0.dar[15].wrapping_sub(4) & s0.address_mask, link_pushed(s0, reg))
            ==> forall|i: int| 0 <= i < 15 ==> s2.dar[i] == s0.dar[i],
{
    assert(e2.last() == BusEvent::ReadLong(s1.dar[8 + reg] & s1.address_mask, s2.dar[8 + reg]));
}

/// The two halves of a long word exchanged.
pub open spec fn swap_halves(v: u32) -> u32 {
    (v >> 16u32) | (v << 16u32)
}

/// Registers after EXG with the given opcode: data, address, or data and
/// address registers exchanged; any other opmode leaves them as they are.
pub open spec fn exg_result(dar: Seq<u32>, opcode: u16) -> Seq<u32> {
    let rx = ((opcode >> 9u16) & 7) as int;
    let ry = (opcode & 7) as int;
    let mode = (opcode >> 3u16) & 0x1F;
    if mode == 0x08 {
        dar.update(rx, dar[ry]).update(ry, dar[rx])
    } else if mode == 0x09 {
        dar.update(8 + rx, dar[8 + ry]).update(8 + ry, dar[8 + rx])
    } else if mode == 0x11 {
        dar.update(rx, dar[8 + ry]).update(8 + ry, dar[rx])
    } else {
        dar
    }
}

/// Number of set bits of `mask` below bit `n`.
pub open spec fn bits_below(mask: u16, n: nat) -> nat
    decreases n,
{
    if n == 0 {
        0
    } else {
        bits_below(mask, (n - 1) as nat) + (if mask & (1u16 << ((n - 1) as u16)) != 0 {
            1nat
        } else {
            0nat
        })
    }
}

/// Whether register `i` (D0-D7, A0-A7) is in the MOVEM register list.
pub open spec fn movem_listed(mask: u16, i: int) -> bool {
    mask & (1u16 << (i as u16)) != 0
}

/// Address of the transfer for register `n` of an incrementing MOVEM from
/// `base`: each listed register below `n` moves it up by `step` bytes.
pub open spec fn movem_addr(base: u32, step: u32, mask: u16, n: nat) -> u32
    decreases n,
{
    if n == 0 {
        base
    } else {
        let prev = movem_addr(base, step, mask, (n - 1) as nat);
        if movem_listed(mask, n - 1) {
            prev.wrapping_add(step)
        } else {
            prev
        }
    }
}

/// The base address of an incrementing MOVEM from memory in modes
/// `(An)` and `(An)+`.
pub open spec fn movem_register_base(cpu: CpuCore, mode: AddressingMode) -> Option<u32> {
    match mode {
        AddressingMode::AddressIndirect(r) => Some(cpu.dar[8 + r]),
        AddressingMode::PostIncrement(r) => Some(cpu.dar[8 + r]),
        _ => None,
    }
}

/// `v` is what MOVEM loads from a read of `size` at `addr` found in the
/// bus log `events`: the long word read, or the word read sign-extended.
pub open spec fn movem_loaded(events: Seq<BusEvent>, addr: u32, size: Size, v: u32) -> bool {
    match size {
        Size::Long => events.contains(BusEvent::ReadLong(addr, v)),
        Size::Word => exists|w: u16| #[trigger] events.contains(BusEvent::ReadWord(addr, w)) && v == sext16(w as u32),
        Size::Byte => false,
    }
}

/// What MOVEM from memory in modes `(An)` and `(An)+` loads, when its
/// accesses cannot raise an address error: every listed register (but the
/// `(An)+` base register, which receives the final address) holds what
/// the bus returned for its slot, a word being sign-extended.
pub open spec fn movem_loads(
    old: CpuCore,
    new: CpuCore,
    events: Seq<BusEvent>,
    mode: AddressingMode,
    mask: u16,
    size: Size,
) -> bool {
    match movem_register_base(old, mode) {
        Some(base) => size != Size::Byte && (!old.is_pre_68020 || base & 1 != 1) ==> forall|i: int|
            0 <= i < 16 && movem_listed(mask, i) && !(mode matches AddressingMode::PostIncrement(r) && i == 8 + r)
                ==> #[trigger] movem_loaded(
                events,
                movem_addr(base, size_bytes(size), mask, i as nat) & old.address_mask,
                size,
                new.dar[i],
            ),
        None => true,
    }
}

/// What else MOVEM from memory in modes `(An)` and `(An)+` does, when its
/// accesses cannot raise an address error: the registers not listed keep
/// their values, and for `(An)+` An receives the address after the last
/// transfer.
pub open spec fn movem_load_frame(old: CpuCore, new: CpuCore, mode: AddressingMode, mask: u16, size: Size) -> bool {
    match movem_register_base(old, mode) {
        Some(base) => size != Size::Byte && (!old.is_pre_68020 || base & 1 != 1) ==> {
            &&& forall|i: int|
                0 <= i < 16 && !movem_listed(mask, i) && !(mode matches AddressingMode::PostIncrement(r) && i == 8 + r)
                    ==> #[trigger] new.dar[i] == old.dar[i]
            &&& (mode matches AddressingMode::PostIncrement(r) ==> new.dar[8 + r] == movem_addr(
                base,
                size_bytes(size),
                mask,
                16,
            ))
        },
        None => true,
    }
}

/// The store of `v` of `size` at `addr` is found in the bus log `events`.
pub open spec fn movem_stored(events: Seq<BusEvent>, addr: u32, size: Size, v: u32) -> bool {
    match size {
        Size::Long => events.contains(BusEvent::WriteLong(addr, v)),
        Size::Word => events.contains(BusEvent::WriteWord(addr, v as u16)),
        Size::Byte => false,
    }
}

/// What MOVEM to memory in mode `(An)` stores, when its accesses cannot
/// raise an address error: every listed register, in its slot from `An`
/// upwards (a word register its low word).
pub open spec fn movem_stores(old: CpuCore, events: Seq<BusEvent>, mode: AddressingMode, mask: u16, size: Size) -> bool {
    match mode {
        AddressingMode::AddressIndirect(r) => {
            let base = old.dar[8 + r];
            size != Size::Byte && (!old.is_pre_68020 || base & 1 != 1) ==> forall|i: int|
            0 <= i < 16 && movem_listed(mask, i) ==> #[trigger] movem_stored(
                events,
                movem_addr(base, size_bytes(size), mask, i as nat) & old.address_mask,
                size,
                old.dar[i],
            )
        },
        _ => true,
    }
}

/// Address of the slot of list bit `n` of a decrementing MOVEM from
/// `base`: each listed bit up to and including `n - 1` moves it down by
/// `step` bytes.
pub open spec fn movem_down(base: u32, step: u32, mask: u16, n: nat) -> u32
    decreases n,
{
    if n == 0 {
        base
    } else {
        let prev = movem_down(base, step, mask, (n - 1) as nat);
        if movem_listed(mask, n - 1) {
            prev.wrapping_sub(step)
        } else {
            prev
        }
    }
}

/// The value `-(An)` MOVEM stores for register `k`: the register, except
/// that on the 68020 and later the base register is stored already
/// decremented by one operand.
pub open spec fn movem_pre_value(cpu: CpuCore, r: u8, size: Size, k: int) -> u32 {
    if k == 8 + r && !cpu.is_pre_68020 {
        cpu.dar[k].wrapping_sub(size_bytes(size))
    } else {
        cpu.dar[k]
    }
}

/// The store of `v` of `size` at `a` is found in the log `events`: on the
/// 68000 a long is two word cycles, the low word at `a + 2`.
pub open spec fn movem_pre_stored(events: Seq<BusEvent>, t: CpuType, m: u32, a: u32, size: Size, v: u32) -> bool {
    let split = t == CpuType::M68000;
    match size {
        Size::Word => events.contains(BusEvent::WriteWord(a & m, v as u16)),
        Size::Long => if split {
            events.contains(BusEvent::WriteWord(a.wrapping_add(2) & m, (v & 0xFFFF) as u16)) && events.contains(
                BusEvent::WriteWord(a & m, (v >> 16u32) as u16),
            )
        } else {
            events.contains(BusEvent::WriteLong(a & m, v))
        },
        Size::Byte => false,
    }
}

/// What MOVEM to memory in mode `-(An)` does when its accesses cannot
/// raise an address error: list bit `i` stores register `15 - i` (A7 down
/// to D0) into the next slot below `An`, and `An` ends at the last slot.
pub open spec fn movem_predec_stores(
    old: CpuCore,
    new: CpuCore,
    events: Seq<BusEvent>,
    mode: AddressingMode,
    mask: u16,
    size: Size,
) -> bool {
    match mode {
        AddressingMode::PreDecrement(r) => {
            let base = old.dar[8 + r];
            let step = size_bytes(size);
            size != Size::Byte && (!old.is_pre_68020 || base & 1 != 1) ==> {
                &&& forall|i: int|
                    0 <= i < 16 && movem_listed(mask, i) ==> #[trigger] movem_pre_stored(
                        events,
                        old.cpu_type,
                        old.address_mask,
                        movem_down(base, step, mask, (i + 1) as nat),
                        size,
                        movem_pre_value(old, r, size, 15 - i),
                    )
                &&& new.dar[8 + r] == movem_down(base, step, mask, 16)
            }
        },
        _ => true,
    }
}

/// A `-(An)` MOVEM store found in a log stays found as the log grows.
pub proof fn lemma_pre_stored_stays(
    a: Seq<BusEvent>,
    b: Seq<BusEvent>,
    y: BusEvent,
    t: CpuType,
    m: u32,
    addr: u32,
    size: Size,
    v: u32,
)
    requires
        movem_pre_stored(a, t, m, addr, size, v),
    ensures
        movem_pre_stored((a + b).push(y), t, m, addr, size, v),
{
    let split = t == CpuType::M68000;
    match size {
        Size::Word => lemma_logged_stays(a, b, y, BusEvent::WriteWord(addr & m, v as u16)),
        Size::Long => if split {
            lemma_logged_stays(a, b, y, BusEvent::WriteWord(addr.wrapping_add(2) & m, (v & 0xFFFF) as u16));
            lemma_logged_stays(a, b, y, BusEvent::WriteWord(addr & m, (v >> 16u32) as u16));
        } else {
            lemma_logged_stays(a, b, y, BusEvent::WriteLong(addr & m, v));
        },
        Size::Byte => {},
    }
}

/// A MOVEM store found in a log stays found as the log grows.
pub proof fn lemma_stored_stays(a: Seq<BusEvent>, b: Seq<BusEvent>, y: BusEvent, addr: u32, size: Size, v: u32)
    requires
        movem_stored(a, addr, size, v),
    ensures
        movem_stored((a + b).push(y), addr, size, v),
{
    match size {
        Size::Long => lemma_logged_stays(a, b, y, BusEvent::WriteLong(addr, v)),
        Size::Word => lemma_logged_stays(a, b, y, BusEvent::WriteWord(addr, v as u16)),
        Size::Byte => {},
    }
}

/// A call logged on the bus stays logged as the log grows.
pub proof fn lemma_logged_stays(a: Seq<BusEvent>, b: Seq<BusEvent>, y: BusEvent, x: BusEvent)
    requires
        a.contains(x),
    ensures
        (a + b).push(y).contains(x),
        (a + b).contains(x),
{
    let k = choose|k: int| 0 <= k < a.len() && a[k] == x;
    assert((a + b)[k] == x);
    assert((a + b).push(y)[k] == x);
}

/// What MOVEM loads into a register from the raw value `v` read.
pub open spec fn movem_value(v: u32, size: Size) -> u32 {
    if size == Size::Word {
        sext16(v)
    } else {
        v
    }
}

/// The reads of an incrementing MOVEM load from `base` over the first `n`
/// registers, in order: one per listed register, returning `vals` at its
/// index, with the clocks `p0` reported before the first.
pub open spec fn movem_read_log(
    base: u32,
    step: u32,
    m: u32,
    mask: u16,
    size: Size,
    vals: Seq<u32>,
    p0: u32,
    n: nat,
) -> Seq<BusEvent>
    decreases n,
{
    if n == 0 {
        seq![]
    } else {
        let k = (n - 1) as nat;
        let prev = movem_read_log(base, step, m, mask, size, vals, p0, k);
        if movem_listed(mask, k as int) {
            prev + sync_events(if bits_below(mask, k) == 0 {
                p0
            } else {
                0
            }).push(read_event(movem_addr(base, step, mask, k) & m, size, vals[k as int]))
        } else {
            prev
        }
    }
}

/// The read log of the first `n` registers depends on the values at their
/// indices only.
proof fn lemma_read_log_prefix(
    base: u32,
    step: u32,
    m: u32,
    mask: u16,
    size: Size,
    vals: Seq<u32>,
    p0: u32,
    n: nat,
    k: int,
    x: u32,
)
    requires
        n <= k < vals.len(),
    ensures
        movem_read_log(base, step, m, mask, size, vals.update(k, x), p0, n) == movem_read_log(
            base,
            step,
            m,
            mask,
            size,
            vals,
            p0,
            n,
        ),
    decreases n,
{
    if n > 0 {
        lemma_read_log_prefix(base, step, m, mask, size, vals, p0, (n - 1) as nat, k, x);
    }
}

/// The whole bus log of a MOVEM load from `base` in `(An)`/`(An)+`: on
/// the 68000 a discarded word read at `base` before long transfers
/// (`w0`), the transfers in register order, and on the 68000 a discarded
/// word read after the last word transfer (`w1`).
pub open spec fn movem_load_shape(
    old: CpuCore,
    before: Seq<BusEvent>,
    after: Seq<BusEvent>,
    base: u32,
    mask: u16,
    size: Size,
    vals: Seq<u32>,
    w0: u16,
    w1: u16,
) -> bool {
    let m = old.address_mask;
    let step = size_bytes(size);
    let dummy_first = old.cpu_type == CpuType::M68000 && size == Size::Long;
    let dummy_last = old.cpu_type == CpuType::M68000 && size == Size::Word;
    let head = if dummy_first {
        sync_events(old.pending_sync_clocks).push(BusEvent::ReadWord(base & m, w0))
    } else {
        seq![]
    };
    let p = if dummy_first {
        0
    } else {
        old.pending_sync_clocks
    };
    let p_end = if bits_below(mask, 16) == 0 {
        p
    } else {
        0
    };
    let tail = if dummy_last {
        sync_events(p_end).push(BusEvent::ReadWord(movem_addr(base, step, mask, 16) & m, w1))
    } else {
        seq![]
    };
    &&& vals.len() == 16
    &&& after == before + head + movem_read_log(base, step, m, mask, size, vals, p, 16) + tail
}

/// MOVEM from memory in `(An)`/`(An)+` from `base` (An) without an address
/// error: the bus log is exactly `movem_load_shape`, and each listed
/// register (but the `(An)+` base register) holds what its read returned.
pub open spec fn movem_load_log(
    old: CpuCore,
    new: CpuCore,
    before: Seq<BusEvent>,
    after: Seq<BusEvent>,
    mode: AddressingMode,
    base: u32,
    mask: u16,
    size: Size,
) -> bool {
    size != Size::Byte && (!old.is_pre_68020 || base & 1 != 1) ==> exists|vals: Seq<u32>, w0: u16, w1: u16|
        #[trigger] movem_load_shape(old, before, after, base, mask, size, vals, w0, w1) && forall|i: int|
            0 <= i < 16 && movem_listed(mask, i) && !(mode matches AddressingMode::PostIncrement(r) && i == 8 + r)
                ==> new.dar[i] == movem_value(vals[i], size)
}

/// A MOVEM load found in a log stays found as the log grows.
pub proof fn lemma_loaded_stays(a: Seq<BusEvent>, b: Seq<BusEvent>, y: BusEvent, addr: u32, size: Size, v: u32)
    requires
        movem_loaded(a, addr, size, v),
    ensures
        movem_loaded((a + b).push(y), addr, size, v),
        movem_loaded(a + b, addr, size, v),
{
    match size {
        Size::Long => lemma_logged_stays(a, b, y, BusEvent::ReadLong(addr, v)),
        Size::Word => {
            let w = choose|w: u16| #[trigger] a.contains(BusEvent::ReadWord(addr, w)) && v == sext16(w as u32);
            lemma_logged_stays(a, b, y, BusEvent::ReadWord(addr, w));
        },
        Size::Byte => {},
    }
}

/// Clocks of MOVEM: base, per-register transfer time, and on the 68000 the
/// address calculation.
pub open spec fn movem_cycles(t: CpuType, base: int, mode: AddressingMode, mask: u16, size: Size) -> i32 {
    (base + bits_below(mask, 16) * (if size == Size::Long {
        8int
    } else {
        4int
    }) + (if t == CpuType::M68000 {
        movem_calc_spec(mode) as int
    } else {
        0int
    })) as i32
}

/// A mask has at most as many set bits below `n` as there are bits.
pub proof fn lemma_bits_below_bound(mask: u16, n: nat)
    ensures
        bits_below(mask, n) <= n,
    decreases n,
{
    if n > 0 {
        lemma_bits_below_bound(mask, (n - 1) as nat);
    }
}

/// SWAP is its own inverse.
pub proof fn lemma_swap_involution(v: u32)
    ensures
        swap_halves(swap_halves(v)) == v,
{
    assert(((((v >> 16u32) | (v << 16u32)) >> 16u32) | (((v >> 16u32) | (v << 16u32)) << 16u32)) == v)
        by (bit_vector);
}

/// EXG with the same operands twice restores the register file.
pub proof fn lemma_exg_involution(dar: Seq<u32>, opcode: u16)
    requires
        dar.len() == 16,
    ensures
        exg_result(exg_result(dar, opcode), opcode) =~= dar,
{
    lemma_exg_fields(opcode);
}

/// EXG exchanges exactly the two registers its encoding names: EXG Dx,Dy
/// (0xC140) two data registers, EXG Ax,Ay (0xC148) two address registers
/// and EXG Dx,Ay (0xC188) a data register with an address register; every
/// other register keeps its value.
pub proof fn lemma_exg_exchanges(dar: Seq<u32>, x: u16, y: u16)
    requires
        dar.len() == 16,
        x < 8,
        y < 8,
    ensures
        exg_result(dar, 0xC140u16 | (x << 9u16) | y).len() == 16,
        exg_result(dar, 0xC140u16 | (x << 9u16) | y)[x as int] == dar[y as int],
        exg_result(dar, 0xC140u16 | (x << 9u16) | y)[y as int] == dar[x as int],
        forall|i: int|
            0 <= i < 16 && i != x && i != y ==> #[trigger] exg_result(dar, 0xC140u16 | (x << 9u16) | y)[i] == dar[i],
        exg_result(dar, 0xC148u16 | (x << 9u16) | y).len() == 16,
        exg_result(dar, 0xC148u16 | (x << 9u16) | y)[8 + x] == dar[8 + y],
        exg_result(dar, 0xC148u16 | (x << 9u16) | y)[8 + y] == dar[8 + x],
        forall|i: int|
            0 <= i < 16 && i != 8 + x && i != 8 + y ==> #[trigger] exg_result(dar, 0xC148u16 | (x << 9u16) | y)[i]
                == dar[i],
        exg_result(dar, 0xC188u16 | (x << 9u16) | y).len() == 16,
        exg_result(dar, 0xC188u16 | (x << 9u16) | y)[x as int] == dar[8 + y],
        exg_result(dar, 0xC188u16 | (x << 9u16) | y)[8 + y] == dar[x as int],
        forall|i: int|
            0 <= i < 16 && i != x && i != 8 + y ==> #[trigger] exg_result(dar, 0xC188u16 | (x << 9u16) | y)[i]
                == dar[i],
{
    crate::types::lemma_encoding_fields(x, y, 0, 8, 0, 0);
}

/// Register fields of an EXG opcode are register numbers.
pub proof fn lemma_exg_fields(opcode: u16)
    ensures
        (opcode >> 9u16) & 7 < 8,
        opcode & 7 < 8,
{
    crate::instructions::mul_div_long::lemma_ext_fields(0, opcode);
}

impl CpuCore {
    /// MOVE <ea>,<ea>: N and Z from the moved value, V and C cleared. The
    /// 68000 orders its final prefetch against the write by destination
    /// mode.
    pub fn exec_move<B: AddressBus>(
        &mut self,
        bus: &mut B,
        size: Size,
        src_mode: AddressingMode,
        dst_mode: AddressingMode,
    ) -> (r: i32)
        requires
            mode_ok(src_mode),
            mode_ok(dst_mode),
        ensures
            r == move_cycles(old(self).cpu_type, src_mode, dst_mode, size),
            final(self).x_flag == old(self).x_flag,
            final(self).v_flag == 0,
            final(self).c_flag == 0,
            (src_mode is DataDirect || src_mode is AddressDirect) && dst_mode is DataDirect ==> ({
                let v = direct_value(*old(self), if src_mode is DataDirect {
                    EaResult::DataReg(src_mode->DataDirect_0)
                } else {
                    EaResult::AddrReg(src_mode->AddressDirect_0)
                }, size);
                let reg = dst_mode->DataDirect_0 as int;
                &&& final(self).dar@ == old(self).dar@.update(reg, sized_write(old(self).dar[reg], v, size))
                &&& ccr_logic(*old(self), CpuCore { dar: old(self).dar, ..*final(self) }, v, size)
            }),
            src_mode is DataDirect || src_mode is AddressDirect ==> ({
                let v = direct_value(*old(self), if src_mode is DataDirect {
                    EaResult::DataReg(src_mode->DataDirect_0)
                } else {
                    EaResult::AddrReg(src_mode->AddressDirect_0)
                }, size);
                &&& final(self).n_flag == n_of(v, size)
                &&& final(self).not_z_flag == v & size_mask(size)
                &&& old(self).cpu_type == CpuType::M68000 ==> match dst_mode {
                    AddressingMode::PreDecrement(n) => !access_faults(
                        old(self).is_pre_68020,
                        predec_target(*old(self), n, size),
                        size,
                    ) ==> final(self).dar[8 + n] == predec_target(*old(self), n, size) && predec_store_ends(
                        final(bus).events(),
                        old(self).address_mask,
                        predec_target(*old(self), n, size),
                        size,
                        v,
                    ),
                    AddressingMode::PostIncrement(n) => !access_faults(
                        old(self).is_pre_68020,
                        old(self).dar[8 + n],
                        size,
                    ) ==> final(self).dar[8 + n] == old(self).dar[8 + n].wrapping_add(ea_step(size, n)) && move_dest_ends(
                        final(bus).events(),
                        old(self).address_mask,
                        old(self).dar[8 + n],
                        size,
                        v,
                    ),
                    _ => true,
                }
                &&& old(self).cpu_type != CpuType::M68000 ==> exists|ea: EaResult, mid: CpuCore|
                    #[trigger] resolved(*old(self), mid, dst_mode, size, ea) && match ea {
                        EaResult::Memory(addr) => !access_faults(mid.is_pre_68020, addr, size) ==> final(bus).events().last() == write_event(addr & mid.address_mask, size, v),
                        _ => true,
                    }
            }),
            old(self).cpu_type != CpuType::M68000 && !old(self).is_pre_68020 && !(src_mode is DataDirect
                || src_mode is AddressDirect || src_mode is Immediate) ==> exists|addr: u32, v: u32|
                #[trigger] read_logged(final(bus).events(), addr, size, v) && final(self).n_flag == n_of(v, size)
                    && final(self).not_z_flag == v & size_mask(size) && (src_mode matches AddressingMode::AddressIndirect(
                    n,
                ) ==> addr == old(self).dar[8 + n] & old(self).address_mask),
    {
        let value = self.read_ea(bus, src_mode, size);
        let ghost e1 = bus.events();
        let ghost s1 = *self;
        if self.cpu_type == CpuType::M68000 {
            self.move_write_68000(bus, size, src_mode, dst_mode, value);
        } else {
            self.write_ea(bus, dst_mode, size, value);
        }
        self.set_logic_flags(value, size);
        proof {
            if old(self).cpu_type != CpuType::M68000 && !old(self).is_pre_68020 && !(src_mode is DataDirect
                || src_mode is AddressDirect || src_mode is Immediate) {
                let (ea, mid) = choose|ea: EaResult, mid: CpuCore|
                    #[trigger] resolved(*old(self), mid, src_mode, size, ea) && read_effects(mid, s1, ea, size, value) && (
                    ea matches EaResult::Memory(addr) ==> value <= size_mask(size) && (!access_faults(
                        mid.is_pre_68020,
                        addr,
                        size,
                    ) ==> e1.len() > 0 && e1.last() == read_event(addr & mid.address_mask, size, value)));
                if let EaResult::Memory(addr) = ea {
                    let ev = bus.events();
                    assert(log_extends(e1, ev));
                    assert(ev.subrange(0, e1.len() as int)[e1.len() - 1] == ev[e1.len() - 1]);
                    assert(ev[e1.len() - 1] == e1[e1.len() - 1]);
                    assert(read_logged(ev, addr & mid.address_mask, size, value));
                }
            }
        }
        if self.cpu_type == CpuType::M68000 {
            4 + self.ea_source_cycles(src_mode, size) + self.ea_dest_cycles(dst_mode, size)
        } else {
            let mut c: i32 = 2;
            if !src_mode.is_register_direct() {
                c = c + if size == Size::Long {
                    11
                } else {
                    7
                };
            }
            c
        }
    }

    /// The 68000's MOVE destination write: the final prefetch is ordered
    /// against the write by destination mode.
    fn move_write_68000<B: AddressBus>(
        &mut self,
        bus: &mut B,
        size: Size,
        src_mode: AddressingMode,
        dst_mode: AddressingMode,
        value: u32,
    )
        requires
            mode_ok(dst_mode),
        ensures
            ccr_kept(*old(self), *final(self)),
            final(self).cpu_type == old(self).cpu_type,
            dst_mode is DataDirect ==> final(self).dar@ == old(self).dar@.update(
                dst_mode->DataDirect_0 as int,
                sized_write(old(self).dar[dst_mode->DataDirect_0 as int], value, size),
            ) && *final(self) == (CpuCore { dar: final(self).dar, ..*old(self) }),
            (match dst_mode {
                AddressingMode::PreDecrement(n) => !access_faults(
                    old(self).is_pre_68020,
                    predec_target(*old(self), n, size),
                    size,
                ) ==> final(self).dar[8 + n] == predec_target(*old(self), n, size) && predec_store_ends(
                    final(bus).events(),
                    old(self).address_mask,
                    predec_target(*old(self), n, size),
                    size,
                    value,
                ),
                AddressingMode::PostIncrement(n) => !access_faults(
                    old(self).is_pre_68020,
                    old(self).dar[8 + n],
                    size,
                ) ==> final(self).dar[8 + n] == old(self).dar[8 + n].wrapping_add(ea_step(size, n)) && move_dest_ends(
                    final(bus).events(),
                    old(self).address_mask,
                    old(self).dar[8 + n],
                    size,
                    value,
                ),
                _ => true,
            }),
    {
        let memory_source = !matches!(
            src_mode,
            AddressingMode::DataDirect(_) | AddressingMode::AddressDirect(_) | AddressingMode::Immediate
        );
        let class2_abs_long = memory_source;
        let split_long = size == Size::Long && !memory_source && matches!(
            dst_mode,
            AddressingMode::AddressIndirect(_) | AddressingMode::Displacement(_) | AddressingMode::Index(_)
        );
        if matches!(dst_mode, AddressingMode::PreDecrement(_)) {
            let ea = self.resolve_ea(bus, dst_mode, size);
            self.pending_sync_clocks = self.pending_sync_clocks.saturating_sub(2);
            self.top_up_prefetch(bus);
            self.ipl_poll_point(bus);
            if let EaResult::Memory(addr) = ea {
                match size {
                    Size::Byte => self.write_8(bus, addr, value as u8),
                    Size::Word => self.write_16(bus, addr, value as u16),
                    Size::Long => {
                        proof {
                            if addr & 1 != 1 {
                                lemma_even_steps(addr);
                            }
                        }
                        self.write_16(bus, addr.wrapping_add(2), (value & 0xFFFF) as u16);
                        let ghost e1 = bus.events();
                        self.write_16(bus, addr, (value >> 16u32) as u16);
                        proof {
                            if !access_faults(self.is_pre_68020, addr, Size::Long) {
                                assert(bus.events()[bus.events().len() - 2] == e1.last());
                            }
                        }
                    },
                }
            }
        } else if matches!(dst_mode, AddressingMode::PostIncrement(_)) || split_long {
            let ea = self.resolve_ea(bus, dst_mode, size);
            let ghost e1 = bus.events();
            let ghost s1 = *self;
            if let EaResult::Memory(addr) = ea {
                self.write_move_dest_68000(bus, addr, size, value);
            }
            self.ipl_poll_point(bus);
            proof {
                if let AddressingMode::PostIncrement(n) = dst_mode {
                    if !access_faults(old(self).is_pre_68020, old(self).dar[8 + n], size) {
                        let tail = move_dest_events(old(self).address_mask, old(self).dar[8 + n], size, value).push(
                            BusEvent::IplHold,
                        );
                        assert(bus.events() =~= e1 + sync_events(s1.pending_sync_clocks) + tail);
                        assert(bus.events().subrange(bus.events().len() - tail.len(), bus.events().len() as int) =~= tail);
                    }
                }
            }
        } else if matches!(dst_mode, AddressingMode::AbsoluteLong) && class2_abs_long {
            let hi = self.read_imm_16(bus) as u32;
            self.consume_without_prefetch = true;
            let lo = self.read_imm_16(bus) as u32;
            self.consume_without_prefetch = false;
            let addr = (hi << 16u32) | lo;
            match size {
                Size::Byte => self.write_8(bus, addr, value as u8),
                Size::Word => self.write_16(bus, addr, value as u16),
                Size::Long => self.write_32(bus, addr, value),
            }
        } else {
            self.write_ea(bus, dst_mode, size, value);
        }
    }

    /// MOVE destination write on the 68000, split into word bus cycles,
    /// high word first.
    fn write_move_dest_68000<B: AddressBus>(&mut self, bus: &mut B, addr: u32, size: Size, value: u32)
        ensures
            frame_write(*old(self), *final(self)),
            size == Size::Long ==> checked_pair(*old(self), *final(self), addr, size),
            size != Size::Long ==> checked_access(*old(self), *final(self), addr, size),
            !access_faults(old(self).is_pre_68020, addr, size) ==> final(bus).events() == old(bus).events()
                + sync_events(old(self).pending_sync_clocks) + move_dest_events(old(self).address_mask, addr, size, value),
    {
        proof {
            assert(sync_events(0u32) =~= Seq::<BusEvent>::empty());
        }
        match size {
            Size::Byte => {
                self.write_8(bus, addr, value as u8);
                proof {
                    lemma_flushed_frame(*old(self), *self);
                }
            },
            Size::Word => self.write_16(bus, addr, value as u16),
            Size::Long => {
                let ghost s0 = *self;
                self.write_16(bus, addr, (value >> 16u32) as u16);
                let ghost s1 = *self;
                proof {
                    if addr & 1 == 1 {
                        lemma_even_steps(addr);
                    } else {
                        lemma_even_steps(addr);
                    }
                }
                self.write_16(bus, addr.wrapping_add(2), value as u16);
                proof {
                    if access_faults(s0.is_pre_68020, addr, size) {
                        assert(address_error_taken(s0, s1) && address_error_taken(s1, *self));
                    } else {
                        assert(bus.events() =~= old(bus).events() + sync_events(old(self).pending_sync_clocks)
                            + move_dest_events(old(self).address_mask, addr, size, value));
                    }
                }
            },
        }
    }

    /// MOVEA <ea>,An: a word source is sign-extended; no flags change.
    pub fn exec_movea<B: AddressBus>(
        &mut self,
        bus: &mut B,
        size: Size,
        src_mode: AddressingMode,
        dst_reg: usize,
    ) -> (r: i32)
        requires
            mode_ok(src_mode),
            dst_reg < 8,
        ensures
            r == (if old(self).cpu_type == CpuType::M68000 {
                (4 + ea_time_spec(src_mode, size)) as i32
            } else {
                4
            }),
            ccr_kept(*old(self), *final(self)),
            src_mode is DataDirect ==> ({
                let v = old(self).dar[src_mode->DataDirect_0 as int] & size_mask(size);
                final(self).dar@ == old(self).dar@.update(8 + dst_reg as int, if size == Size::Word {
                    sext16(v)
                } else {
                    v
                })
            }),
            src_mode is AddressDirect ==> ({
                let v = old(self).dar[8 + src_mode->AddressDirect_0] & size_mask(size);
                final(self).dar@ == old(self).dar@.update(8 + dst_reg as int, if size == Size::Word {
                    sext16(v)
                } else {
                    v
                })
            }),
            src_mode is DataDirect || src_mode is AddressDirect ==> ({
                &&& final(bus).events() == old(bus).events() + refill_events(*old(self), *final(self)) + (if old(
                    self,
                ).is_pre_68020 {
                    seq![BusEvent::IplHold]
                } else {
                    seq![]
                })
                &&& final(self).pc == old(self).pc
                &&& m68000_finished_queue(*old(self), *final(self))
            }),
    {
        let value = self.read_ea(bus, src_mode, size);
        let value = if size == Size::Word {
            crate::instructions::integer_arith::sign_extend_word(value)
        } else {
            value
        };
        if self.prefetch_enabled() {
            self.top_up_prefetch(bus);
            self.ipl_poll_point(bus);
        }
        self.set_a(dst_reg, value);
        if self.cpu_type == CpuType::M68000 {
            4 + self.ea_source_cycles(src_mode, size)
        } else {
            4
        }
    }

    /// LEA <ea>,An: the effective address itself into An.
    pub fn exec_lea<B: AddressBus>(&mut self, bus: &mut B, src_mode: AddressingMode, dst_reg: usize) -> (r: i32)
        requires
            mode_ok(src_mode),
            dst_reg < 8,
        ensures
            r == (if old(self).is_pre_68020 {
                lea_cycles_spec(src_mode)
            } else {
                4
            }),
            ccr_kept(*old(self), *final(self)),
            src_mode is AddressIndirect ==> final(self).dar@ == old(self).dar@.update(
                8 + dst_reg as int,
                old(self).dar[8 + src_mode->AddressIndirect_0],
            ),
    {
        let ea = self.get_ea_address(bus, src_mode, Size::Long);
        if matches!(src_mode, AddressingMode::Index(_) | AddressingMode::PcIndex) {
            self.internal_cycles(2);
        }
        self.set_a(dst_reg, ea);
        if self.is_pre_68020 {
            lea_ea_cycles_68000(src_mode)
        } else {
            4
        }
    }

    /// PEA <ea>: push the effective address.
    pub fn exec_pea<B: AddressBus>(&mut self, bus: &mut B, src_mode: AddressingMode) -> (r: i32)
        requires
            mode_ok(src_mode),
        ensures
            r == 12,
            ccr_kept(*old(self), *final(self)),
            src_mode is AddressIndirect && !access_faults(
                old(self).is_pre_68020,
                old(self).dar[15].wrapping_sub(4),
                Size::Long,
            ) ==> final(self).dar@ == old(self).dar@.update(15, old(self).dar[15].wrapping_sub(4)),
    {
        let ea = self.get_ea_address(bus, src_mode, Size::Long);
        if matches!(src_mode, AddressingMode::Index(_) | AddressingMode::PcIndex) {
            self.internal_cycles(2);
        }
        if self.cpu_type == CpuType::M68000 && matches!(
            src_mode,
            AddressingMode::AbsoluteShort | AddressingMode::AbsoluteLong
        ) {
            self.push_32(bus, ea);
            self.top_up_prefetch(bus);
        } else {
            self.top_up_prefetch(bus);
            self.ipl_poll_point(bus);
            self.push_32(bus, ea);
        }
        12
    }

    /// EXG Rx,Ry: exchange two registers; the final prefetch and two
    /// internal clocks precede the end of the instruction.
    pub fn exec_exg<B: AddressBus>(&mut self, bus: &mut B, opcode: u16) -> (r: i32)
        ensures
            r == 6,
            final(self).dar@ == exg_result(old(self).dar@, opcode),
            reg_frame(*old(self), *final(self)),
            ccr_kept(*old(self), *final(self)),
            m68000_finished(*old(self), *final(self)),
    {
        proof {
            lemma_exg_fields(opcode);
        }
        let rx = ((opcode >> 9u16) & 7) as usize;
        let ry = (opcode & 7) as usize;
        let mode = (opcode >> 3u16) & 0x1F;
        if mode == 0x08 {
            let tmp = self.d(rx);
            let v = self.d(ry);
            self.set_d(rx, v);
            self.set_d(ry, tmp);
        } else if mode == 0x09 {
            let tmp = self.a(rx);
            let v = self.a(ry);
            self.set_a(rx, v);
            self.set_a(ry, tmp);
        } else if mode == 0x11 {
            let tmp = self.d(rx);
            let v = self.a(ry);
            self.set_d(rx, v);
            self.set_a(ry, tmp);
        }
        self.top_up_prefetch(bus);
        self.ipl_poll_point(bus);
        self.internal_cycles(2);
        self.flush_sync(bus);
        6
    }

    /// Whether LINK decrements A7 before reading the source register (the
    /// 68040 alone does).
    fn link_predecrements_first(&self) -> (r: bool)
        ensures
            r == (self.cpu_type == CpuType::M68EC040 || self.cpu_type == CpuType::M68LC040
                || self.cpu_type == CpuType::M68040),
    {
        matches!(self.cpu_type, CpuType::M68EC040 | CpuType::M68LC040 | CpuType::M68040)
    }

    /// LINK An,#disp16: push An, An = SP, SP += displacement. The 68000
    /// consumes the displacement before the push.
    pub fn exec_link<B: AddressBus>(&mut self, bus: &mut B, reg: usize) -> (r: i32)
        requires
            reg < 8,
        ensures
            r == 16,
            ccr_kept(*old(self), *final(self)),
            !access_faults(old(self).is_pre_68020, old(self).dar[15].wrapping_sub(4), Size::Long) ==> link_effect(
                *old(self),
                *final(self),
                old(bus).events(),
                final(bus).events(),
                reg as int,
            ),
    {
        let ghost e0 = bus.events();
        let w = self.read_imm_16(bus);
        let disp16 = w as i16;
        let disp = disp16 as i32;
        let an = if self.link_predecrements_first() && reg == 7 {
            self.a(7).wrapping_sub(4)
        } else {
            self.a(reg)
        };
        self.push_32(bus, an);
        self.ipl_poll_point(bus);
        let sp = self.dar[15];
        self.set_a(reg, sp);
        self.dar[15] = (self.dar[15] as i32).wrapping_add(disp) as u32;
        proof {
            if !access_faults(old(self).is_pre_68020, old(self).dar[15].wrapping_sub(4), Size::Long) {
                assert(self.dar[15] == link_sp16(old(self).dar[15].wrapping_sub(4), disp16));
                assert(an == link_pushed(*old(self), reg as int));
                if !old(self).is_pre_68020 {
                    assert(sync_events(0) =~= Seq::<BusEvent>::empty());
                    assert(bus.events() =~= e0 + sync_events(old(self).pending_sync_clocks) + seq![
                        BusEvent::ReadWord(old(self).pc & old(self).address_mask, w),
                        BusEvent::WriteLong(old(self).dar[15].wrapping_sub(4) & old(self).address_mask, an),
                        BusEvent::IplHold,
                    ]);
                    assert(link_sp16(old(self).dar[15].wrapping_sub(4), w as i16) == self.dar[15]);
                }
            }
        }
        16
    }

    /// LINK.L An,#disp32 (68020+).
    pub fn exec_link_long<B: AddressBus>(&mut self, bus: &mut B, reg: usize) -> (r: i32)
        requires
            reg < 8,
        ensures
            r == 16,
            ccr_kept(*old(self), *final(self)),
            !access_faults(old(self).is_pre_68020, old(self).dar[15].wrapping_sub(4), Size::Long) ==> ({
                &&& reg != 7 ==> final(self).dar[8 + reg] == old(self).dar[15].wrapping_sub(4)
                &&& exists|d: i32| final(self).dar[15] == #[trigger] link_sp(old(self).dar[15].wrapping_sub(4), d)
                &&& forall|i: int| 0 <= i < 15 && i != 8 + reg ==> final(self).dar[i] == old(self).dar[i]
            }),
    {
        let an = if self.link_predecrements_first() && reg == 7 {
            self.a(7).wrapping_sub(4)
        } else {
            self.a(reg)
        };
        self.push_32(bus, an);
        let sp = self.dar[15];
        self.set_a(reg, sp);
        let disp = self.read_imm_32(bus) as i32;
        self.dar[15] = (self.dar[15] as i32).wrapping_add(disp) as u32;
        proof {
            if !access_faults(old(self).is_pre_68020, old(self).dar[15].wrapping_sub(4), Size::Long) {
                assert(self.dar[15] == link_sp(old(self).dar[15].wrapping_sub(4), disp));
            }
        }
        16
    }

    /// UNLK An: SP = An, then An is popped. The 68000/010 split the pop
    /// into its two word reads.
    pub fn exec_unlk<B: AddressBus>(&mut self, bus: &mut B, reg: usize) -> (r: i32)
        requires
            reg < 8,
        ensures
            r == 12,
            ccr_kept(*old(self), *final(self)),
            reg != 7 && !access_faults(old(self).is_pre_68020, old(self).dar[8 + reg], Size::Long)
                ==> final(self).dar[15] == old(self).dar[8 + reg].wrapping_add(4) && forall|i: int|
                0 <= i < 15 && i != 8 + reg ==> final(self).dar[i] == old(self).dar[i],
            reg != 7 && !old(self).is_pre_68020 ==> unlk_effect32(
                *old(self),
                *final(self),
                old(bus).events(),
                final(bus).events(),
                reg as int,
            ),
            reg != 7 && old(self).is_pre_68020 && !access_faults(true, old(self).dar[8 + reg], Size::Long)
                ==> exists|hi: u16, lo: u16|
                #[trigger] unlk_popped(final(self).dar[8 + reg], hi, lo) && final(bus).events() == old(bus).events()
                    + sync_events(old(self).pending_sync_clocks) + seq![
                    BusEvent::ReadWord(old(self).dar[8 + reg] & old(self).address_mask, hi),
                    BusEvent::ReadWord(old(self).dar[8 + reg].wrapping_add(2) & old(self).address_mask, lo),
                    BusEvent::IplHold,
                ],
    {
        let ghost e0 = bus.events();
        let ghost mut gh: u16 = 0;
        let ghost mut gl: u16 = 0;
        self.dar[15] = self.a(reg);
        let value = if self.prefetch_enabled() {
            let sp = self.dar[15];
            proof {
                if sp & 1 != 1 {
                    lemma_even_steps(sp);
                }
            }
            let hi = self.read_16(bus, sp) as u32;
            let lo = self.read_16(bus, sp.wrapping_add(2)) as u32;
            self.ipl_poll_point(bus);
            self.dar[15] = sp.wrapping_add(4);
            proof {
                assert(sync_events(0) =~= Seq::<BusEvent>::empty());
                gh = hi as u16;
                gl = lo as u16;
                if reg != 7 && !access_faults(true, sp, Size::Long) {
                    assert(unlk_popped((hi << 16u32) | lo, hi as u16, lo as u16));
                    if old(self).is_pre_68020 {
                        assert(bus.events() =~= e0 + sync_events(old(self).pending_sync_clocks) + seq![
                            BusEvent::ReadWord(old(self).dar[8 + reg] & old(self).address_mask, hi as u16),
                            BusEvent::ReadWord(old(self).dar[8 + reg].wrapping_add(2) & old(self).address_mask, lo as u16),
                            BusEvent::IplHold,
                        ]);
                    }
                }
            }
            (hi << 16u32) | lo
        } else {
            self.pull_32(bus)
        };
        self.set_a(reg, value);
        proof {
            if reg != 7 && old(self).is_pre_68020 && !access_faults(true, old(self).dar[8 + reg], Size::Long) {
                assert(unlk_popped(self.dar[8 + reg], gh, gl));
            }
        }
        12
    }

    /// MOVEM <list>,<ea>: store the listed registers. For -(An) the list is
    /// walked from A7 down to D0 and An is written back once at the end
    /// (the 68020+ store a listed An already decremented by one transfer).
    pub fn exec_movem_to_mem<B: AddressBus>(
        &mut self,
        bus: &mut B,
        size: Size,
        mode: AddressingMode,
        mask: u16,
    ) -> (r: i32)
        requires
            mode_ok(mode),
        ensures
            r == movem_cycles(old(self).cpu_type, 8, mode, mask, size),
            ccr_kept(*old(self), *final(self)),
            movem_stores(*old(self), final(bus).events(), mode, mask, size),
            movem_predec_stores(*old(self), *final(self), final(bus).events(), mode, mask, size),
    {
        let mut count: i32 = 0;
        let mut addr = match mode {
            AddressingMode::PreDecrement(reg) => self.a(reg as usize),
            _ => self.get_ea_address(bus, mode, size),
        };
        if let AddressingMode::PreDecrement(preg) = mode {
            let base_reg = 8 + preg as usize;
            let base_adjust = if self.is_pre_68020 {
                0
            } else {
                size.bytes()
            };
            let ghost base = addr;
            let ghost good = size != Size::Byte && (!old(self).is_pre_68020 || base & 1 != 1);
            let ghost m = self.address_mask;
            let ghost split = self.cpu_type == CpuType::M68000;
            let ghost ct = self.cpu_type;
            let mut i: usize = 0;
            while i < 16
                invariant
                    i <= 16,
                    count == bits_below(mask, i as nat),
                    ccr_kept(*old(self), *self),
                    self.cpu_type == old(self).cpu_type,
                    base_reg < 16,
                    base_reg == 8 + preg,
                    mode == AddressingMode::PreDecrement(preg),
                    base == old(self).dar[8 + preg],
                    base_adjust == (if old(self).is_pre_68020 { 0 } else { size_bytes(size) }),
                    self.is_pre_68020 == old(self).is_pre_68020,
                    self.address_mask == m,
                    m == old(self).address_mask,
                    split == (old(self).cpu_type == CpuType::M68000),
                    ct == old(self).cpu_type,
                    good ==> self.dar == old(self).dar,
                    good ==> addr == movem_down(base, size_bytes(size), mask, i as nat),
                    good ==> !self.is_pre_68020 || addr & 1 != 1,
                    good ==> size != Size::Byte,
                    good ==> forall|j: int|
                        0 <= j < i && movem_listed(mask, j) ==> #[trigger] movem_pre_stored(
                            bus.events(),
                            ct,
                            m,
                            movem_down(base, size_bytes(size), mask, (j + 1) as nat),
                            size,
                            movem_pre_value(*old(self), preg, size, 15 - j),
                        ),
                decreases 16 - i,
            {
                proof {
                    lemma_bits_below_bound(mask, i as nat);
                    if good && self.is_pre_68020 {
                        lemma_even_steps(addr);
                        lemma_even_steps(addr.wrapping_sub(2));
                    }
                }
                if mask & (1u16 << (i as u16)) != 0 {
                    let reg_idx = 15 - i;
                    let mut value = self.dar[reg_idx];
                    if reg_idx == base_reg {
                        value = value.wrapping_sub(base_adjust);
                    }
                    let ghost e_before = bus.events();
                    let ghost pend = self.pending_sync_clocks;
                    let ghost a_before = addr;
                    match size {
                        Size::Word => {
                            addr = addr.wrapping_sub(2);
                            self.write_16(bus, addr, value as u16);
                        },
                        Size::Long => {
                            if self.cpu_type == CpuType::M68000 {
                                addr = addr.wrapping_sub(2);
                                self.write_16(bus, addr, (value & 0xFFFF) as u16);
                                addr = addr.wrapping_sub(2);
                                self.write_16(bus, addr, (value >> 16u32) as u16);
                            } else {
                                addr = addr.wrapping_sub(4);
                                self.write_32(bus, addr, value);
                            }
                        },
                        Size::Byte => {},
                    }
                    proof {
                        if good {
                            assert(value == movem_pre_value(*old(self), preg, size, 15 - i));
                            assert(addr == movem_down(base, size_bytes(size), mask, (i + 1) as nat));
                            if size == Size::Long && split {
                                assert(addr.wrapping_add(2) == a_before.wrapping_sub(2)) by (bit_vector)
                                    requires
                                        addr == a_before.wrapping_sub(2).wrapping_sub(2),
                                ;
                            }
                            let ev = bus.events();
                            assert(ev.len() >= 1);
                            let y = ev.last();
                            let tail = ev.subrange(e_before.len() as int, ev.len() - 1);
                            assert(ev =~= (e_before + tail).push(y));
                            assert forall|j: int|
                                0 <= j < i + 1 && movem_listed(mask, j) implies #[trigger] movem_pre_stored(
                                bus.events(),
                                ct,
                                m,
                                movem_down(base, size_bytes(size), mask, (j + 1) as nat),
                                size,
                                movem_pre_value(*old(self), preg, size, 15 - j),
                            ) by {
                                if j < i {
                                    lemma_pre_stored_stays(
                                        e_before,
                                        tail,
                                        y,
                                        ct,
                                        m,
                                        movem_down(base, size_bytes(size), mask, (j + 1) as nat),
                                        size,
                                        movem_pre_value(*old(self), preg, size, 15 - j),
                                    );
                                } else {
                                    assert(ev[ev.len() - 1] == y);
                                    assert(ev.contains(y));
                                    if size == Size::Long && split {
                                        assert(ev[ev.len() - 2] == ev[ev.len() - 2]);
                                        assert(ev.contains(ev[ev.len() - 2]));
                                    }
                                }
                            }
                        }
                    }
                    count = count + 1;
                }
                i = i + 1;
            }
            self.set_a(preg as usize, addr);
        } else {
            let ghost base = addr;
            let ghost good = size != Size::Byte && mode is AddressIndirect && base == old(self).dar[8
                + mode->AddressIndirect_0] && (!old(self).is_pre_68020 || base & 1 != 1);
            let ghost m = self.address_mask;
            let mut i: usize = 0;
            while i < 16
                invariant
                    i <= 16,
                    count == bits_below(mask, i as nat),
                    ccr_kept(*old(self), *self),
                    self.cpu_type == old(self).cpu_type,
                    self.is_pre_68020 == old(self).is_pre_68020,
                    self.address_mask == m,
                    good ==> m == old(self).address_mask,
                    good ==> self.dar == old(self).dar,
                    good ==> addr == movem_addr(base, size_bytes(size), mask, i as nat),
                    good ==> !self.is_pre_68020 || addr & 1 != 1,
                    good ==> size != Size::Byte,
                    good ==> forall|j: int|
                        0 <= j < i && movem_listed(mask, j) ==> #[trigger] movem_stored(
                            bus.events(),
                            movem_addr(base, size_bytes(size), mask, j as nat) & m,
                            size,
                            old(self).dar[j],
                        ),
                decreases 16 - i,
            {
                proof {
                    lemma_bits_below_bound(mask, i as nat);
                }
                if mask & (1u16 << (i as u16)) != 0 {
                    let value = self.dar[i];
                    let ghost e_before = bus.events();
                    let ghost pend = self.pending_sync_clocks;
                    match size {
                        Size::Word => self.write_16(bus, addr, value as u16),
                        Size::Long => self.write_32(bus, addr, value),
                        Size::Byte => {},
                    }
                    proof {
                        if good {
                            let ev = bus.events();
                            let y = ev.last();
                            assert(ev =~= (e_before + sync_events(pend)).push(y));
                            assert forall|j: int|
                                0 <= j < i + 1 && movem_listed(mask, j) implies #[trigger] movem_stored(
                                bus.events(),
                                movem_addr(base, size_bytes(size), mask, j as nat) & m,
                                size,
                                old(self).dar[j],
                            ) by {
                                if j < i {
                                    lemma_stored_stays(
                                        e_before,
                                        sync_events(pend),
                                        y,
                                        movem_addr(base, size_bytes(size), mask, j as nat) & m,
                                        size,
                                        old(self).dar[j],
                                    );
                                } else {
                                    assert(ev[ev.len() - 1] == y);
                                    assert(ev.contains(y));
                                }
                            }
                            if self.is_pre_68020 {
                                lemma_even_steps(addr);
                            }
                        }
                    }
                    addr = addr.wrapping_add(size.bytes());
                    count = count + 1;
                }
                i = i + 1;
            }
        }
        proof {
            lemma_bits_below_bound(mask, 16);
        }
        let base = 8 + count * if size == Size::Long {
            8
        } else {
            4
        };
        if self.cpu_type == CpuType::M68000 {
            base + self.movem_ea_calc_cycles(mode)
        } else {
            base
        }
    }

    /// MOVEM <ea>,<list>: load the listed registers; words are
    /// sign-extended. The 68000 makes one discarded word read: before long
    /// transfers, after word transfers.
    #[verifier::rlimit(50)]
    #[verifier::spinoff_prover]
    pub fn exec_movem_to_reg<B: AddressBus>(
        &mut self,
        bus: &mut B,
        size: Size,
        mode: AddressingMode,
        mask: u16,
    ) -> (r: i32)
        requires
            mode_ok(mode),
        ensures
            r == movem_cycles(old(self).cpu_type, 12, mode, mask, size),
            ccr_kept(*old(self), *final(self)),
            movem_loads(*old(self), *final(self), final(bus).events(), mode, mask, size),
            movem_load_frame(*old(self), *final(self), mode, mask, size),
            movem_register_base(*old(self), mode) matches Some(base) ==> movem_load_log(
                *old(self),
                *final(self),
                old(bus).events(),
                final(bus).events(),
                mode,
                base,
                mask,
                size,
            ),
    {
        let mut count: i32 = 0;
        let mut addr = match mode {
            AddressingMode::PostIncrement(reg) => self.a(reg as usize),
            AddressingMode::PreDecrement(reg) => self.a(reg as usize),
            _ => self.get_ea_address(bus, mode, size),
        };
        if let AddressingMode::PreDecrement(preg) = mode {
            let mut i: usize = 0;
            while i < 16
                invariant
                    i <= 16,
                    count == bits_below(mask, i as nat),
                    ccr_kept(*old(self), *self),
                    self.cpu_type == old(self).cpu_type,
                decreases 16 - i,
            {
                proof {
                    lemma_bits_below_bound(mask, i as nat);
                }
                if mask & (1u16 << (i as u16)) != 0 {
                    let reg_idx = 15 - i;
                    addr = addr.wrapping_sub(size.bytes());
                    let value = match size {
                        Size::Word => crate::instructions::integer_arith::sign_extend_word(
                            self.read_16(bus, addr) as u32,
                        ),
                        Size::Long => self.read_32(bus, addr),
                        Size::Byte => 0,
                    };
                    self.dar[reg_idx] = value;
                    count = count + 1;
                }
                i = i + 1;
            }
            self.set_a(preg as usize, addr);
        } else {
            let ghost base = addr;
            let ghost good = size != Size::Byte && movem_register_base(*old(self), mode) == Some(base) && (
            !old(self).is_pre_68020 || base & 1 != 1);
            let ghost m = self.address_mask;
            proof {
                if good && self.is_pre_68020 {
                    lemma_even_steps(base);
                }
            }
            let ghost e_start = bus.events();
            let ghost mut w0: u16 = 0;
            if self.cpu_type == CpuType::M68000 && size == Size::Long {
                let d0 = self.read_16(bus, addr);
                proof {
                    w0 = d0;
                }
            }
            let ghost e_loop = bus.events();
            let ghost p_loop = self.pending_sync_clocks;
            let ghost mut vals: Seq<u32> = Seq::new(16, |j: int| 0u32);
            proof {
                assert(sync_events(0u32) =~= Seq::<BusEvent>::empty());
                if good {
                    assert(e_loop == e_start + (if self.cpu_type == CpuType::M68000 && size == Size::Long {
                        sync_events(old(self).pending_sync_clocks).push(BusEvent::ReadWord(base & m, w0))
                    } else {
                        seq![]
                    }));
                    assert(bus.events() =~= e_loop + movem_read_log(base, size_bytes(size), m, mask, size, vals, p_loop, 0));
                }
            }
            let mut i: usize = 0;
            while i < 16
                invariant
                    i <= 16,
                    count == bits_below(mask, i as nat),
                    ccr_kept(*old(self), *self),
                    self.cpu_type == old(self).cpu_type,
                    self.is_pre_68020 == old(self).is_pre_68020,
                    self.address_mask == m,
                    good ==> m == old(self).address_mask,
                    good ==> addr == movem_addr(base, size_bytes(size), mask, i as nat),
                    good ==> !self.is_pre_68020 || addr & 1 != 1,
                    good ==> size != Size::Byte,
                    good ==> forall|j: int|
                        0 <= j < 16 && !(j < i && movem_listed(mask, j)) ==> #[trigger] self.dar[j] == old(self).dar[j],
                    vals.len() == 16,
                    good ==> bus.events() == e_loop + movem_read_log(base, size_bytes(size), m, mask, size, vals, p_loop, i as nat),
                    good ==> self.pending_sync_clocks == (if bits_below(mask, i as nat) == 0 {
                        p_loop
                    } else {
                        0
                    }),
                    good ==> forall|j: int| 0 <= j < i && movem_listed(mask, j) ==> #[trigger] self.dar[j] == movem_value(vals[j], size),
                    good ==> forall|j: int|
                        0 <= j < i && movem_listed(mask, j) ==> #[trigger] movem_loaded(
                            bus.events(),
                            movem_addr(base, size_bytes(size), mask, j as nat) & m,
                            size,
                            self.dar[j],
                        ),
                decreases 16 - i,
            {
                proof {
                    lemma_bits_below_bound(mask, i as nat);
                }
                if mask & (1u16 << (i as u16)) != 0 {
                    let ghost e_before = bus.events();
                    let ghost pend = self.pending_sync_clocks;
                    let ghost vals0 = vals;
                    let raw: u32 = match size {
                        Size::Word => self.read_16(bus, addr) as u32,
                        Size::Long => self.read_32(bus, addr),
                        Size::Byte => 0,
                    };
                    let value = match size {
                        Size::Word => crate::instructions::integer_arith::sign_extend_word(raw),
                        _ => raw,
                    };
                    self.dar[i] = value;
                    proof {
                        vals = vals.update(i as int, raw);
                        if good {
                            lemma_read_log_prefix(base, size_bytes(size), m, mask, size, vals0, p_loop, i as nat, i as int, raw);
                            assert(bus.events() =~= e_loop + movem_read_log(base, size_bytes(size), m, mask, size, vals, p_loop, (i + 1) as nat));
                        }
                        if good {
                            let ev = bus.events();
                            assert(ev.last() == ev[ev.len() - 1]);
                            let y = ev.last();
                            assert(ev =~= (e_before + sync_events(pend)).push(y));
                            assert forall|j: int|
                                0 <= j < i + 1 && movem_listed(mask, j) implies #[trigger] movem_loaded(
                                bus.events(),
                                movem_addr(base, size_bytes(size), mask, j as nat) & m,
                                size,
                                self.dar[j],
                            ) by {
                                if j < i {
                                    lemma_loaded_stays(
                                        e_before,
                                        sync_events(pend),
                                        y,
                                        movem_addr(base, size_bytes(size), mask, j as nat) & m,
                                        size,
                                        self.dar[j],
                                    );
                                } else {
                                    assert((e_before + sync_events(pend)).push(y)[ev.len() - 1] == y);
                                    if size == Size::Word {
                                        assert(ev.contains(y));
                                    } else {
                                        assert(ev.contains(y));
                                    }
                                }
                            }
                            if self.is_pre_68020 {
                                lemma_even_steps(addr);
                            }
                        }
                    }
                    addr = addr.wrapping_add(size.bytes());
                    count = count + 1;
                }
                i = i + 1;
            }
            if let AddressingMode::PostIncrement(preg) = mode {
                self.set_a(preg as usize, addr);
            }
            let ghost e_before = bus.events();
            let ghost pend = self.pending_sync_clocks;
            let ghost mut w1: u16 = 0;
            if self.cpu_type == CpuType::M68000 && size == Size::Word {
                let d1 = self.read_16(bus, addr);
                proof {
                    w1 = d1;
                }
                proof {
                    if good {
                        let ev = bus.events();
                        let y = ev.last();
                        assert(ev =~= (e_before + sync_events(pend)).push(y));
                        assert forall|j: int|
                            0 <= j < 16 && movem_listed(mask, j) && !(mode matches AddressingMode::PostIncrement(r) && j
                                == 8 + r) implies #[trigger] movem_loaded(
                            bus.events(),
                            movem_addr(base, size_bytes(size), mask, j as nat) & m,
                            size,
                            self.dar[j],
                        ) by {
                            lemma_loaded_stays(
                                e_before,
                                sync_events(pend),
                                y,
                                movem_addr(base, size_bytes(size), mask, j as nat) & m,
                                size,
                                self.dar[j],
                            );
                        }
                    }
                }
            }
            proof {
                if good {
                    let p = if old(self).cpu_type == CpuType::M68000 && size == Size::Long {
                        0
                    } else {
                        old(self).pending_sync_clocks
                    };
                    assert(p_loop == p);
                    assert(e_before == e_loop + movem_read_log(base, size_bytes(size), m, mask, size, vals, p_loop, 16));
                    assert(movem_load_shape(*old(self), old(bus).events(), bus.events(), base, mask, size, vals, w0, w1));
                    assert forall|j: int|
                        0 <= j < 16 && movem_listed(mask, j) && !(mode matches AddressingMode::PostIncrement(r) && j == 8
                            + r) implies self.dar[j] == movem_value(vals[j], size) by {}
                    assert(movem_load_log(*old(self), *self, old(bus).events(), bus.events(), mode, base, mask, size));
                }
            }
        }
        proof {
            lemma_bits_below_bound(mask, 16);
        }
        let base = 12 + count * if size == Size::Long {
            8
        } else {
            4
        };
        if self.cpu_type == CpuType::M68000 {
            base + self.movem_ea_calc_cycles(mode)
        } else {
            base
        }
    }

    /// SWAP Dn: exchange the register's halves; N and Z from the result.
    pub fn exec_swap<B: AddressBus>(&mut self, bus: &mut B, reg: usize) -> (r: i32)
        requires
            reg < 8,
        ensures
            r == 4,
            final(self).dar@ == old(self).dar@.update(reg as int, swap_halves(old(self).dar[reg as int])),
            ccr_logic(
                *old(self),
                CpuCore { dar: old(self).dar, prefetch_queue: old(self).prefetch_queue, prefetch_count: old(self).prefetch_count, pending_sync_clocks: old(self).pending_sync_clocks, ..*final(self) },
                swap_halves(old(self).dar[reg as int]),
                Size::Long,
            ),
            old(self).is_pre_68020 && old(self).prefetch_count < 2 ==> final(self).prefetch_count == 2,
            final(bus).events() == old(bus).events() + refill_events(*old(self), *final(self)).push(BusEvent::IplHold),
    {
        let value = self.d(reg);
        let result = (value >> 16u32) | (value << 16u32);
        self.top_up_prefetch(bus);
        self.ipl_poll_point(bus);
        self.set_d(reg, result);
        self.set_logic_flags(result, Size::Long);
        4
    }
}

/// A flush is a frame write.
pub proof fn lemma_flushed_frame(a: CpuCore, b: CpuCore)
    requires
        flushed(a, b),
    ensures
        frame_write(a, b),
{
}

/// A prefetch refill is a frame write.
pub proof fn lemma_refilled_frame(a: CpuCore, b: CpuCore)
    requires
        refilled(a, b),
    ensures
        frame_write(a, b),
{
}

} // verus!
