//! MOVES: move to or from the address space that SFC/DFC select (68010+).
//! The data cycle runs with the function code overridden, so the PMMU
//! translates it in that space; condition codes are not affected.

use vstd::prelude::*;
use crate::cpu::{CpuCore, RUN_MODE_BERR_AERR_RESET};
use crate::ea::{AddressingMode, ea_decode_spec, ea_calc_spec};
use crate::exceptions::{exception_cycles_of, simple_entry, stack_usable};
use crate::instructions::data_movement::ccr_kept;
use crate::memory::{AddressBus, BusEvent};
use crate::mem_ops::{access_faults, sync_events, log_extends, lemma_log_extends_append, lemma_log_extends_trans};
use crate::instructions::data_movement::{read_event, write_event};
use crate::instructions::integer_arith::sized_write;
use crate::instructions::mul_div_long::ext_word_fetched;
use crate::types::{CpuType, Size};
use crate::vector;

verus! {

/// The 68010's internal clocks between the address calculation and the
/// data cycle of MOVES.
pub open spec fn moves_sync_spec(mode: AddressingMode) -> u32 {
    match mode {
        AddressingMode::AddressIndirect(_) | AddressingMode::PreDecrement(_) => 6,
        AddressingMode::PostIncrement(_) => 8,
        AddressingMode::Index(_) => 6,
        AddressingMode::Displacement(_) | AddressingMode::AbsoluteShort
        | AddressingMode::AbsoluteLong => 4,
        _ => 0,
    }
}

/// Whether an address-register MOVES store writes the register's value
/// from before the effective-address update: the 68060 always, the
/// 68010 for long transfers.
pub open spec fn stores_pre_update(t: CpuType, size: Size) -> bool {
    t == CpuType::M68060 || ((t == CpuType::M68010 || t == CpuType::SCC68070) && size == Size::Long)
}

/// Clocks of MOVES through `mode`: on the 68010 the extension and final
/// prefetches, the address calculation, the internal clocks and the data
/// cycle; 4 on later models.
pub open spec fn moves_cycles(pre_68020: bool, mode: AddressingMode, size: Size) -> i32 {
    if pre_68020 {
        (4 + ea_calc_spec(mode) + moves_sync_spec(mode) + (if size == Size::Long {
            8int
        } else {
            4int
        }) + 4) as i32
    } else {
        4
    }
}

/// A loaded operand of `size` sign-extended to 32 bits (address registers).
pub open spec fn moves_sext(v: u32, size: Size) -> u32 {
    match size {
        Size::Byte => v as u8 as i8 as i32 as u32,
        Size::Word => v as u16 as i16 as i32 as u32,
        Size::Long => v,
    }
}

/// The value a MOVES store writes from register `reg` (0..7 in the data or
/// address bank) of `cpu`: an address register that the effective address
/// moved is stored as it was before (`before`) on the models that do so.
pub open spec fn moves_store_value(
    cpu: CpuCore,
    size: Size,
    is_areg: bool,
    reg: int,
    mode: AddressingMode,
    before: Option<u32>,
) -> u32 {
    if is_areg && (mode is PostIncrement || mode is PreDecrement) && stores_pre_update(cpu.cpu_type, size) {
        match before {
            Some(v) => v,
            None => 0,
        }
    } else if is_areg {
        cpu.dar[8 + reg]
    } else {
        cpu.dar[reg]
    }
}

/// Registers after a MOVES load of `v`: an address register takes it
/// sign-extended, a data register in its low `size` bits.
pub open spec fn moves_loaded(dar: Seq<u32>, size: Size, is_areg: bool, reg: int, v: u32) -> Seq<u32> {
    if is_areg {
        dar.update(8 + reg, moves_sext(v, size))
    } else {
        dar.update(reg, sized_write(dar[reg], v, size))
    }
}

/// What a privileged MOVES with extension word `ext` did when its data
/// cycle at `addr` cannot fault: the last bus call is that cycle, a store
/// of the named register or a load into it, and on the 32-bit-bus models
/// `ext` is the word fetched after the opcode.
pub open spec fn moves_done(
    old: CpuCore,
    new: CpuCore,
    before: Seq<BusEvent>,
    after: Seq<BusEvent>,
    mode: AddressingMode,
    size: Size,
    ext: u16,
    addr: u32,
    v: u32,
) -> bool {
    let reg = ((ext >> 12u16) & 7) as int;
    let is_areg = (ext >> 12u16) & 0xF >= 8;
    &&& !old.is_pre_68020 ==> ext_word_fetched(before, after, old, ext)
    &&& (mode matches AddressingMode::AddressIndirect(n) ==> addr == old.dar[8 + n])
    &&& (mode matches AddressingMode::PostIncrement(n) ==> addr == old.dar[8 + n])
    &&& !access_faults(old.is_pre_68020, addr, size) ==> after.len() > 0 && if (ext >> 11u16) & 1 == 1 {
        &&& after.last() == write_event(addr & old.address_mask, size, v)
        &&& !(mode is PostIncrement || mode is PreDecrement) ==> v == moves_store_value(old, size, is_areg, reg, mode, None)
        &&& is_areg && stores_pre_update(old.cpu_type, size) ==> v == old.dar[8 + reg]
    } else {
        &&& after.last() == read_event(addr & old.address_mask, size, v)
        &&& !is_areg ==> new.dar[reg] == sized_write(old.dar[reg], v, size)
        &&& is_areg ==> new.dar[8 + reg] == moves_sext(v, size)
    }
}

/// The operand size of the MOVES size field.
pub open spec fn moves_size(opcode: u16) -> Option<Size> {
    let bits = (opcode >> 6u16) & 3;
    if bits == 0 {
        Some(Size::Byte)
    } else if bits == 1 {
        Some(Size::Word)
    } else if bits == 2 {
        Some(Size::Long)
    } else {
        None
    }
}

/// Internal clocks of the 68010 between address calculation and access.
fn moves_sync(mode: AddressingMode) -> (r: u32)
    ensures
        r == moves_sync_spec(mode),
{
    match mode {
        AddressingMode::AddressIndirect(_) | AddressingMode::PreDecrement(_) => 6,
        AddressingMode::PostIncrement(_) => 8,
        AddressingMode::Index(_) => 6,
        AddressingMode::Displacement(_) | AddressingMode::AbsoluteShort
        | AddressingMode::AbsoluteLong => 4,
        _ => 0,
    }
}

impl CpuCore {
    /// The MOVES data cycle, with the function code taken from DFC for a
    /// store and from SFC for a load.
    fn moves_transfer<B: AddressBus>(
        &mut self,
        bus: &mut B,
        addr: u32,
        size: Size,
        to_memory: bool,
        is_areg: bool,
        reg_idx: usize,
        mode: AddressingMode,
        source_before_ea: Option<u32>,
    )
        requires
            reg_idx < 8,
        ensures
            ccr_kept(*old(self), *final(self)),
            final(self).mmu_fc_override is None,
            final(self).is_pre_68020 == old(self).is_pre_68020,
            final(self).cpu_type == old(self).cpu_type,
            to_memory && !access_faults(old(self).is_pre_68020, addr, size) ==> final(bus).events() == (old(
                bus,
            ).events() + sync_events(old(self).pending_sync_clocks)).push(
                write_event(
                    addr & old(self).address_mask,
                    size,
                    moves_store_value(*old(self), size, is_areg, reg_idx as int, mode, source_before_ea),
                ),
            ),
            !to_memory && !access_faults(old(self).is_pre_68020, addr, size) ==> exists|v: u32|
                final(bus).events() == (old(bus).events() + sync_events(old(self).pending_sync_clocks)).push(
                    #[trigger] read_event(addr & old(self).address_mask, size, v),
                ) && final(self).dar@ == moves_loaded(old(self).dar@, size, is_areg, reg_idx as int, v),
    {
        if to_memory {
            let ea_updates_register = matches!(
                mode,
                AddressingMode::PostIncrement(_) | AddressingMode::PreDecrement(_)
            );
            let stores_orig = match self.cpu_type {
                CpuType::M68060 => true,
                CpuType::M68010 | CpuType::SCC68070 => size == Size::Long,
                _ => false,
            };
            let value = if is_areg && ea_updates_register && stores_orig {
                match source_before_ea {
                    Some(v) => v,
                    None => 0,
                }
            } else if is_areg {
                self.a(reg_idx)
            } else {
                self.d(reg_idx)
            };
            self.mmu_fc_override = Some((self.dfc & 7) as u8);
            match size {
                Size::Byte => self.write_8(bus, addr, value as u8),
                Size::Word => self.write_16(bus, addr, value as u16),
                Size::Long => self.write_32(bus, addr, value),
            }
            self.mmu_fc_override = None;
        } else {
            self.mmu_fc_override = Some((self.sfc & 7) as u8);
            let value = match size {
                Size::Byte => self.read_8(bus, addr) as u32,
                Size::Word => self.read_16(bus, addr) as u32,
                Size::Long => self.read_32(bus, addr),
            };
            self.mmu_fc_override = None;
            let ghost e1 = bus.events();
            let ghost d1 = self.dar@;
            proof {
                crate::types::lemma_merge_low(old(self).dar[reg_idx as int], value);
                crate::types::lemma_mask_bounds(value);
            }
            if is_areg {
                let extended = match size {
                    Size::Byte => value as u8 as i8 as i32 as u32,
                    Size::Word => value as u16 as i16 as i32 as u32,
                    Size::Long => value,
                };
                self.set_a(reg_idx, extended);
            } else {
                let d = self.d(reg_idx);
                match size {
                    Size::Byte => self.set_d(reg_idx, (d & 0xFFFF_FF00) | value),
                    Size::Word => self.set_d(reg_idx, (d & 0xFFFF_0000) | value),
                    Size::Long => self.set_d(reg_idx, value),
                }
            }
            proof {
                if !access_faults(old(self).is_pre_68020, addr, size) {
                    assert(d1 == old(self).dar@);
                    assert(self.dar@ == moves_loaded(old(self).dar@, size, is_areg, reg_idx as int, value));
                    assert(bus.events() == e1);
                    assert(e1 == (old(bus).events() + sync_events(old(self).pending_sync_clocks)).push(
                        read_event(addr & old(self).address_mask, size, value),
                    ));
                }
            }
        }
    }

    /// MOVES Rn,<ea> / MOVES <ea>,Rn (privileged). The extension word names
    /// the register (bits 15..12) and the direction (bit 11: register to
    /// memory). An address register loaded from memory is sign-extended.
    #[verifier::rlimit(60)]
    #[verifier::spinoff_prover]
    pub fn exec_moves<B: AddressBus>(&mut self, bus: &mut B, opcode: u16) -> (r: i32)
        ensures
            old(self).s_flag == 0 ==> r == (if old(self).exception_processing {
                0i32
            } else {
                exception_cycles_of(vector::PRIVILEGE_VIOLATION)
            }),
            old(self).s_flag == 0 && !old(self).exception_processing && stack_usable(*old(self)) ==> simple_entry(
                *old(self),
                *final(self),
                old(bus).events(),
                final(bus).events(),
                vector::PRIVILEGE_VIOLATION,
            ),
            old(self).s_flag == 0 && old(self).exception_processing ==> r == 0 && *final(self) == (CpuCore {
                stopped: 1,
                run_mode: RUN_MODE_BERR_AERR_RESET,
                ..*old(self)
            }) && final(bus).events() == old(bus).events(),
            old(self).s_flag != 0 && moves_size(opcode) is None ==> r == 0 && *final(self) == *old(self),
            old(self).s_flag != 0 && moves_size(opcode) is Some ==> ({
                let mode = ea_decode_spec(((opcode >> 3u16) & 7) as u8, (opcode & 7) as u8);
                &&& mode is None ==> r == 0
                &&& mode is Some ==> r == moves_cycles(
                    old(self).is_pre_68020,
                    mode->0,
                    moves_size(opcode)->0,
                ) && ccr_kept(*old(self), *final(self)) && final(self).mmu_fc_override is None
            }),
            old(self).s_flag != 0 ==> match (
                moves_size(opcode),
                ea_decode_spec(((opcode >> 3u16) & 7) as u8, (opcode & 7) as u8),
            ) {
                (Some(size), Some(mode)) => exists|ext: u16, addr: u32, v: u32|
                    #[trigger] moves_done(
                        *old(self),
                        *final(self),
                        old(bus).events(),
                        final(bus).events(),
                        mode,
                        size,
                        ext,
                        addr,
                        v,
                    ),
                _ => true,
            },
    {
        if self.s_flag == 0 {
            return self.take_exception(bus, vector::PRIVILEGE_VIOLATION);
        }
        let bits = (opcode >> 6u16) & 3;
        let size = if bits == 0 {
            Size::Byte
        } else if bits == 1 {
            Size::Word
        } else if bits == 2 {
            Size::Long
        } else {
            return 0;
        };
        proof {
            crate::instructions::mul_div_long::lemma_ext_fields(0, opcode);
        }
        let ea_mode = ((opcode >> 3u16) & 7) as u8;
        let ea_reg = (opcode & 7) as u8;
        let ext = self.read_imm_16(bus);
        let ghost e1 = bus.events();
        proof {
            crate::instructions::mul_div_long::lemma_ext_fields(ext, 0);
            lemma_log_extends_append(e1, Seq::empty());
        }
        let reg_num = ((ext >> 12u16) & 0xF) as usize;
        let is_areg = reg_num >= 8;
        let reg_idx = ((ext >> 12u16) & 7) as usize;
        let direction = (ext >> 11u16) & 1;
        let mode = match AddressingMode::decode(ea_mode, ea_reg) {
            Some(m) => m,
            None => return 0,
        };
        let source_before_ea = if is_areg {
            Some(self.a(reg_idx))
        } else {
            None
        };
        let addr = self.get_ea_address(bus, mode, size);
        let sync = moves_sync(mode);
        if self.prefetch_enabled() {
            self.internal_cycles(sync);
        }
        let ghost e3 = bus.events();
        let ghost s3 = *self;
        self.moves_transfer(bus, addr, size, direction == 1, is_areg, reg_idx, mode, source_before_ea);
        self.trace_t0_68040_sync();
        proof {
            let v: u32 = if direction == 1 {
                moves_store_value(s3, size, is_areg, reg_idx as int, mode, source_before_ea)
            } else {
                choose|v: u32|
                    bus.events() == (e3 + sync_events(s3.pending_sync_clocks)).push(
                        #[trigger] read_event(addr & s3.address_mask, size, v),
                    ) && self.dar@ == moves_loaded(s3.dar@, size, is_areg, reg_idx as int, v)
            };
            if !old(self).is_pre_68020 {
                lemma_log_extends_trans(e1, e1, e3);
                lemma_log_extends_append(e3, sync_events(s3.pending_sync_clocks).push(bus.events().last()));
                if !access_faults(s3.is_pre_68020, addr, size) {
                    assert(bus.events() =~= e3 + sync_events(s3.pending_sync_clocks).push(bus.events().last()));
                }
                lemma_log_extends_trans(e1, e3, bus.events());
            }
            let reg = ((ext >> 12u16) & 7) as int;
            assert(reg == reg_idx as int);
            assert(is_areg == ((ext >> 12u16) & 0xF >= 8));
            assert(s3.dar[reg] == old(self).dar[reg]);
            assert(!(mode is PostIncrement || mode is PreDecrement) ==> s3.dar[8 + reg] == old(self).dar[8 + reg]);
            assert(s3.address_mask == old(self).address_mask);
            assert(s3.is_pre_68020 == old(self).is_pre_68020);
            assert(!old(self).is_pre_68020 ==> ext_word_fetched(old(bus).events(), bus.events(), *old(self), ext));
            assert(mode matches AddressingMode::AddressIndirect(n) ==> addr == old(self).dar[8 + n]);
            assert(mode matches AddressingMode::PostIncrement(n) ==> addr == old(self).dar[8 + n]);
            assert(moves_done(*old(self), *self, old(bus).events(), bus.events(), mode, size, ext, addr, v));
        }
        if self.prefetch_enabled() {
            let access: i32 = if size == Size::Long {
                8
            } else {
                4
            };
            4 + self.ea_calc_cycles(mode) + sync as i32 + access + 4
        } else {
            4
        }
    }
}

} // verus!
