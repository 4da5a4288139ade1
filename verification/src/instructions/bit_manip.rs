//! Single-bit instructions: BTST, BSET, BCLR, BCHG, and TAS.

use vstd::prelude::*;
use crate::cpu::CpuCore;
use crate::ea::{AddressingMode, EaResult, mode_ok, ea_time_spec};
use crate::instructions::integer_arith::{ccr_logic, sized_write, m68000_finished};
use crate::memory::{AddressBus, BusEvent};
use crate::mem_ops::{finish_events, refill_events};
use crate::types::{CpuType, Size};

verus! {

/// The bit a bit instruction addresses: modulo 32 in a data register,
/// modulo 8 in a memory byte.
pub open spec fn bit_index(mode: AddressingMode, bit_num: u32) -> u32 {
    if mode is DataDirect || mode is AddressDirect {
        bit_num & 31
    } else {
        bit_num & 7
    }
}

/// Z after testing bit `bit` of `v`: the flag is clear (nonzero) when the
/// bit is set.
pub open spec fn tested_z(v: u32, bit: u32) -> u32 {
    if v & (1u32 << bit) != 0 {
        1
    } else {
        0
    }
}

/// `new` differs from `old` only in register `reg`, which holds `value`,
/// in Z, which holds `z`, and in the instruction-stream state.
pub open spec fn bit_reg_effect(old: CpuCore, new: CpuCore, reg: int, value: u32, z: u32) -> bool {
    &&& new.dar@ =~= old.dar@.update(reg, value)
    &&& new == (CpuCore {
        dar: new.dar,
        not_z_flag: z,
        prefetch_queue: new.prefetch_queue,
        prefetch_count: new.prefetch_count,
        pending_sync_clocks: new.pending_sync_clocks,
        ..old
    })
}

/// Clocks of BSET and BCHG.
pub open spec fn bset_cycles(pre_68020: bool, mode: AddressingMode, bit: u32) -> i32 {
    if mode is DataDirect || mode is AddressDirect {
        if pre_68020 {
            if bit >= 16 {
                8
            } else {
                6
            }
        } else {
            8
        }
    } else {
        (8 + ea_time_spec(mode, Size::Byte)) as i32
    }
}

/// Bit laws: after BSET the tested bit is set, after BCLR it is clear,
/// and BCHG twice restores the operand.
pub proof fn lemma_bit_ops(v: u32, bit: u32)
    requires
        bit < 32,
    ensures
        tested_z(v | (1u32 << bit), bit) == 1,
        tested_z(v & !(1u32 << bit), bit) == 0,
        (v ^ (1u32 << bit)) ^ (1u32 << bit) == v,
        tested_z(v ^ (1u32 << bit), bit) != tested_z(v, bit),
{
    assert((v | (1u32 << bit)) & (1u32 << bit) != 0 && (v & !(1u32 << bit)) & (1u32 << bit) == 0
        && (v ^ (1u32 << bit)) ^ (1u32 << bit) == v && (((v ^ (1u32 << bit)) & (1u32 << bit) != 0)
        != (v & (1u32 << bit) != 0))) by (bit_vector)
        requires
            bit < 32,
    ;
}

impl CpuCore {
    /// 68000 register-destination bit operation: final prefetch (with the
    /// IPL sample when `poll_ipl`), then the remaining internal clocks.
    #[verifier::rlimit(40)]
    fn finish_m68000_register_bitop<B: AddressBus>(&mut self, bus: &mut B, internal_clocks: u32, poll_ipl: bool)
        ensures
            old(self).cpu_type != CpuType::M68000 ==> *final(self) == *old(self),
            old(self).cpu_type == CpuType::M68000 ==> m68000_finished(*old(self), *final(self)),
            *final(self) == (CpuCore {
                prefetch_queue: final(self).prefetch_queue,
                prefetch_count: final(self).prefetch_count,
                pending_sync_clocks: final(self).pending_sync_clocks,
                ..*old(self)
            }),
            old(self).cpu_type != CpuType::M68000 ==> final(bus).events() == old(bus).events(),
            old(self).cpu_type == CpuType::M68000 ==> final(bus).events() == old(bus).events() + finish_events(
                *old(self),
                *final(self),
                internal_clocks,
                poll_ipl,
            ),
    {
        if self.cpu_type != CpuType::M68000 {
            return ;
        }
        self.top_up_prefetch(bus);
        if poll_ipl {
            self.ipl_poll_point(bus);
        }
        self.internal_cycles(internal_clocks);
        self.flush_sync(bus);
    }

    /// BTST: Z from the addressed bit; nothing else changes.
    pub fn exec_btst<B: AddressBus>(&mut self, bus: &mut B, bit_num: u32, mode: AddressingMode) -> (r: i32)
        requires
            mode_ok(mode),
        ensures
            r == (if mode is DataDirect || mode is AddressDirect {
                6i32
            } else {
                4i32
            }),
            mode is DataDirect ==> ({
                let reg = mode->DataDirect_0 as int;
                bit_reg_effect(
                    *old(self),
                    *final(self),
                    reg,
                    old(self).dar[reg],
                    tested_z(old(self).dar[reg], bit_num & 31),
                )
            }),
            mode is DataDirect && old(self).cpu_type == CpuType::M68000 ==> final(bus).events() == old(bus).events()
                + finish_events(*old(self), *final(self), 2, false),
            mode is DataDirect && old(self).cpu_type != CpuType::M68000 ==> final(bus).events() == old(bus).events(),
            mode is DataDirect && old(self).cpu_type == CpuType::M68000 ==> m68000_finished(*old(self), *final(self)),
    {
        let reg_direct = mode.is_register_direct();
        let size = if reg_direct {
            Size::Long
        } else {
            Size::Byte
        };
        let bit = if reg_direct {
            bit_num & 31
        } else {
            bit_num & 7
        };
        proof {
            crate::types::lemma_mask_bounds(bit_num);
        }
        let value = self.read_ea(bus, mode, size);
        self.not_z_flag = if value & (1u32 << bit) != 0 {
            1
        } else {
            0
        };
        if size == Size::Long {
            self.finish_m68000_register_bitop(bus, 2, false);
        }
        proof {
            crate::types::lemma_mask_bounds(old(self).dar[mode->DataDirect_0 as int]);
        }
        if size == Size::Long {
            6
        } else {
            4
        }
    }

    /// BSET: Z from the addressed bit, then the bit is set.
    pub fn exec_bset<B: AddressBus>(&mut self, bus: &mut B, bit_num: u32, mode: AddressingMode) -> (r: i32)
        requires
            mode_ok(mode),
        ensures
            r == bset_cycles(old(self).is_pre_68020, mode, bit_index(mode, bit_num)),
            mode is DataDirect ==> ({
                let reg = mode->DataDirect_0 as int;
                let bit = bit_num & 31;
                bit_reg_effect(
                    *old(self),
                    *final(self),
                    reg,
                    old(self).dar[reg] | (1u32 << bit),
                    tested_z(old(self).dar[reg], bit),
                )
            }),
            mode is DataDirect && old(self).cpu_type == CpuType::M68000 ==> final(bus).events() == old(bus).events()
                + finish_events(*old(self), *final(self), (if bit_num & 31 > 15 { 4u32 } else { 2u32 }), true),
            mode is DataDirect && old(self).cpu_type != CpuType::M68000 ==> final(bus).events() == old(bus).events(),
            mode is DataDirect && old(self).cpu_type == CpuType::M68000 ==> m68000_finished(*old(self), *final(self)),
    {
        let reg_direct = mode.is_register_direct();
        let size = if reg_direct {
            Size::Long
        } else {
            Size::Byte
        };
        let bit = if reg_direct {
            bit_num & 31
        } else {
            bit_num & 7
        };
        proof {
            crate::types::lemma_mask_bounds(bit_num);
        }
        let ea = self.resolve_ea(bus, mode, size);
        let value = self.read_resolved_ea(bus, ea, size);
        self.not_z_flag = if value & (1u32 << bit) != 0 {
            1
        } else {
            0
        };
        let result = value | (1u32 << bit);
        proof {
            crate::types::lemma_mask_bounds(result);
            crate::types::lemma_mask_bounds(old(self).dar[mode->DataDirect_0 as int]);
        }
        if self.cpu_type == CpuType::M68000 && size == Size::Long {
            self.finish_m68000_register_bitop(
                bus,
                if bit > 15 {
                    4
                } else {
                    2
                },
                true,
            );
            self.write_resolved_ea(bus, ea, size, result & size.mask());
        } else {
            self.write_resolved_ea_np_poll(bus, ea, size, result & size.mask());
        }
        if size == Size::Long {
            if self.is_pre_68020 {
                if bit >= 16 {
                    8
                } else {
                    6
                }
            } else {
                8
            }
        } else {
            8 + self.ea_time(mode, Size::Byte)
        }
    }

    /// BCLR: Z from the addressed bit, then the bit is cleared.
    pub fn exec_bclr<B: AddressBus>(&mut self, bus: &mut B, bit_num: u32, mode: AddressingMode) -> (r: i32)
        requires
            mode_ok(mode),
        ensures
            r == (if mode is DataDirect || mode is AddressDirect {
                10i32
            } else {
                8i32
            }),
            mode is DataDirect ==> ({
                let reg = mode->DataDirect_0 as int;
                let bit = bit_num & 31;
                bit_reg_effect(
                    *old(self),
                    *final(self),
                    reg,
                    old(self).dar[reg] & !(1u32 << bit),
                    tested_z(old(self).dar[reg], bit),
                )
            }),
            mode is DataDirect && old(self).cpu_type == CpuType::M68000 ==> final(bus).events() == old(bus).events()
                + finish_events(*old(self), *final(self), (if bit_num & 31 > 15 { 6u32 } else { 4u32 }), true),
            mode is DataDirect && old(self).cpu_type != CpuType::M68000 ==> final(bus).events() == old(bus).events(),
            mode is DataDirect && old(self).cpu_type == CpuType::M68000 ==> m68000_finished(*old(self), *final(self)),
    {
        let reg_direct = mode.is_register_direct();
        let size = if reg_direct {
            Size::Long
        } else {
            Size::Byte
        };
        let bit = if reg_direct {
            bit_num & 31
        } else {
            bit_num & 7
        };
        proof {
            crate::types::lemma_mask_bounds(bit_num);
        }
        let ea = self.resolve_ea(bus, mode, size);
        let value = self.read_resolved_ea(bus, ea, size);
        self.not_z_flag = if value & (1u32 << bit) != 0 {
            1
        } else {
            0
        };
        let result = value & !(1u32 << bit);
        proof {
            crate::types::lemma_mask_bounds(result);
            crate::types::lemma_mask_bounds(old(self).dar[mode->DataDirect_0 as int]);
        }
        if self.cpu_type == CpuType::M68000 && size == Size::Long {
            self.finish_m68000_register_bitop(
                bus,
                if bit > 15 {
                    6
                } else {
                    4
                },
                true,
            );
            self.write_resolved_ea(bus, ea, size, result & size.mask());
        } else {
            self.write_resolved_ea_np_poll(bus, ea, size, result & size.mask());
        }
        if size == Size::Long {
            10
        } else {
            8
        }
    }

    /// BCHG: Z from the addressed bit, then the bit is inverted.
    pub fn exec_bchg<B: AddressBus>(&mut self, bus: &mut B, bit_num: u32, mode: AddressingMode) -> (r: i32)
        requires
            mode_ok(mode),
        ensures
            r == bset_cycles(old(self).is_pre_68020, mode, bit_index(mode, bit_num)),
            mode is DataDirect ==> ({
                let reg = mode->DataDirect_0 as int;
                let bit = bit_num & 31;
                bit_reg_effect(
                    *old(self),
                    *final(self),
                    reg,
                    old(self).dar[reg] ^ (1u32 << bit),
                    tested_z(old(self).dar[reg], bit),
                )
            }),
            mode is DataDirect && old(self).cpu_type == CpuType::M68000 ==> final(bus).events() == old(bus).events()
                + finish_events(*old(self), *final(self), (if bit_num & 31 > 15 { 4u32 } else { 2u32 }), true),
            mode is DataDirect && old(self).cpu_type != CpuType::M68000 ==> final(bus).events() == old(bus).events(),
            mode is DataDirect && old(self).cpu_type == CpuType::M68000 ==> m68000_finished(*old(self), *final(self)),
    {
        let reg_direct = mode.is_register_direct();
        let size = if reg_direct {
            Size::Long
        } else {
            Size::Byte
        };
        let bit = if reg_direct {
            bit_num & 31
        } else {
            bit_num & 7
        };
        proof {
            crate::types::lemma_mask_bounds(bit_num);
        }
        let ea = self.resolve_ea(bus, mode, size);
        let value = self.read_resolved_ea(bus, ea, size);
        self.not_z_flag = if value & (1u32 << bit) != 0 {
            1
        } else {
            0
        };
        let result = value ^ (1u32 << bit);
        proof {
            crate::types::lemma_mask_bounds(result);
            crate::types::lemma_mask_bounds(old(self).dar[mode->DataDirect_0 as int]);
        }
        if self.cpu_type == CpuType::M68000 && size == Size::Long {
            self.finish_m68000_register_bitop(
                bus,
                if bit > 15 {
                    4
                } else {
                    2
                },
                true,
            );
            self.write_resolved_ea(bus, ea, size, result & size.mask());
        } else {
            self.write_resolved_ea_np_poll(bus, ea, size, result & size.mask());
        }
        if size == Size::Long {
            if self.is_pre_68020 {
                if bit >= 16 {
                    8
                } else {
                    6
                }
            } else {
                8
            }
        } else {
            8 + self.ea_time(mode, Size::Byte)
        }
    }

    /// TAS: logical flags from the byte, then bit 7 is set. The 68000
    /// writes a memory operand before its final prefetch.
    pub fn exec_tas<B: AddressBus>(&mut self, bus: &mut B, mode: AddressingMode) -> (r: i32)
        requires
            mode_ok(mode),
        ensures
            r == 4,
            mode is DataDirect ==> ({
                let reg = mode->DataDirect_0 as int;
                let v = old(self).dar[reg] & 0xFF;
                &&& final(self).dar@ == old(self).dar@.update(reg, sized_write(old(self).dar[reg], v | 0x80, Size::Byte))
                &&& ccr_logic(
                    *old(self),
                    CpuCore { dar: old(self).dar, change_of_flow: old(self).change_of_flow, ..*final(self) },
                    v,
                    Size::Byte,
                )
            }),
    {
        let ea = self.resolve_ea(bus, mode, Size::Byte);
        let value = self.read_resolved_ea(bus, ea, Size::Byte);
        self.set_logic_flags(value, Size::Byte);
        let result = value | 0x80;
        if self.cpu_type == CpuType::M68000 {
            if let EaResult::Memory(addr) = ea {
                self.internal_cycles(2);
                self.write_8(bus, addr, result as u8);
            } else {
                self.write_resolved_ea(bus, ea, Size::Byte, result);
            }
        } else {
            self.write_resolved_ea(bus, ea, Size::Byte, result);
        }
        self.trace_t0_68040_sync();
        4
    }
}

} // verus!
