//! Register-only operations shared by the decoded-operation cache and the
//! trace executor: each works on the register file and condition codes
//! alone, with no bus access, and states its effect exactly.

use vstd::prelude::*;
use crate::cpu::{CpuCore, condition_holds};
use crate::flags::n_of;
use crate::instructions::data_movement::{exg_result, swap_halves};
use crate::instructions::integer_arith::{
    ccr_add, ccr_sub, ccr_compare, ccr_logic, sized_write, sext16, addx_result, subx_result,
    sticky_z, x_bit,
};
use crate::instructions::bcd::{abcd_effect, sbcd_effect};
use crate::instructions::shift::{shifted, shift_spec};
use crate::flags::{add_v_of, sub_v_of, unsigned_of, modulus};
use crate::types::{Size, size_mask};

verus! {

/// Operand of a register source: data register `reg`, or address register
/// `reg` when `is_addr`, in the operand width.
pub open spec fn reg_operand(cpu: CpuCore, is_addr: bool, reg: u8, size: Size) -> u32 {
    (if is_addr {
        cpu.dar[8 + reg]
    } else {
        cpu.dar[reg as int]
    }) & size_mask(size)
}

/// `new` holds `value` in data register `reg` (width `size`) and flags
/// satisfying `flags` relative to `old` with that register written.
pub open spec fn data_written(old: CpuCore, new: CpuCore, reg: int, value: u32, size: Size) -> bool {
    new.dar@ =~= old.dar@.update(reg, sized_write(old.dar[reg], value, size))
}

/// The state before the flag update: `old` with `new`'s register file.
pub open spec fn regs_of(old: CpuCore, new: CpuCore) -> CpuCore {
    CpuCore { dar: new.dar, ..old }
}

/// Effect of a unary operation (0 CLR, 1 NEG, 2 NEGX, 3 NOT, 4 TST) on
/// data register `reg`.
pub open spec fn unary_effect(old: CpuCore, new: CpuCore, kind: u8, reg: int, size: Size) -> bool {
    let m = size_mask(size);
    let src = old.dar[reg] & m;
    if kind == 0 {
        data_written(old, new, reg, 0, size) && ccr_logic(regs_of(old, new), new, 0, size)
    } else if kind == 1 {
        let res = 0u32.wrapping_sub(src);
        data_written(old, new, reg, res, size) && ccr_sub(regs_of(old, new), new, src, 0, res, size)
    } else if kind == 2 {
        let res = subx_result(src, 0, old.x_flag, size);
        &&& data_written(old, new, reg, res, size)
        &&& new.n_flag == n_of(res, size)
        &&& new.not_z_flag == sticky_z(old.not_z_flag, res)
        &&& new.v_flag == sub_v_of(src, 0, res, size)
        &&& (new.c_flag != 0) == (unsigned_of(src, size) + x_bit(old.x_flag) > 0)
        &&& new.x_flag == new.c_flag
        &&& new == (CpuCore { dar: new.dar, x_flag: new.x_flag, n_flag: new.n_flag, not_z_flag: new.not_z_flag, v_flag: new.v_flag, c_flag: new.c_flag, ..old })
    } else if kind == 3 {
        let res = !src & m;
        data_written(old, new, reg, res, size) && ccr_logic(regs_of(old, new), new, res, size)
    } else {
        ccr_logic(old, new, src, size)
    }
}

/// Effect of a two-operand data-register operation (0 ADD, 1 SUB, 2 AND,
/// 3 OR, 4 EOR, 5 CMP) of source value `s` into data register `dst`.
pub open spec fn binary_effect(old: CpuCore, new: CpuCore, kind: u8, s: u32, dst: int, size: Size) -> bool {
    let m = size_mask(size);
    let d = old.dar[dst] & m;
    if kind == 0 {
        let res = d.wrapping_add(s);
        data_written(old, new, dst, res, size) && ccr_add(regs_of(old, new), new, s, d, res, size)
    } else if kind == 1 {
        let res = d.wrapping_sub(s);
        data_written(old, new, dst, res, size) && ccr_sub(regs_of(old, new), new, s, d, res, size)
    } else if kind == 2 {
        let res = (s & d) & m;
        data_written(old, new, dst, res, size) && ccr_logic(regs_of(old, new), new, res, size)
    } else if kind == 3 {
        let res = (s | d) & m;
        data_written(old, new, dst, res, size) && ccr_logic(regs_of(old, new), new, res, size)
    } else if kind == 4 {
        let res = (s ^ d) & m;
        data_written(old, new, dst, res, size) && ccr_logic(regs_of(old, new), new, res, size)
    } else {
        ccr_compare(old, new, s, d, d.wrapping_sub(s), size)
    }
}

/// Effect of ADDA (0), SUBA (1) or CMPA (2) of source value `s` (a word
/// source sign-extended) into address register `dst`.
pub open spec fn addr_effect(old: CpuCore, new: CpuCore, kind: u8, s: u32, dst: int, size: Size) -> bool {
    let sx = if size == Size::Word {
        sext16(s)
    } else {
        s
    };
    let d = old.dar[8 + dst];
    if kind == 0 {
        new.dar@ =~= old.dar@.update(8 + dst, d.wrapping_add(sx)) && new == regs_of(old, new)
    } else if kind == 1 {
        new.dar@ =~= old.dar@.update(8 + dst, d.wrapping_sub(sx)) && new == regs_of(old, new)
    } else {
        ccr_compare(old, new, sx, d, d.wrapping_sub(sx), Size::Long)
    }
}

/// Effect of ADDX (`is_sub` false) or SUBX on data registers.
pub open spec fn addsubx_effect(old: CpuCore, new: CpuCore, src: int, dst: int, size: Size, is_sub: bool) -> bool {
    let m = size_mask(size);
    let s = old.dar[src] & m;
    let d = old.dar[dst] & m;
    let res = if is_sub {
        subx_result(s, d, old.x_flag, size)
    } else {
        addx_result(s, d, old.x_flag, size)
    };
    &&& data_written(old, new, dst, res, size)
    &&& new.n_flag == n_of(res, size)
    &&& new.not_z_flag == sticky_z(old.not_z_flag, res)
    &&& new.v_flag == (if is_sub {
        sub_v_of(s, d, res, size)
    } else {
        add_v_of(s, d, res, size)
    })
    &&& (new.c_flag != 0) == (if is_sub {
        unsigned_of(s, size) + x_bit(old.x_flag) > unsigned_of(d, size)
    } else {
        unsigned_of(d, size) + unsigned_of(s, size) + x_bit(old.x_flag) >= modulus(size)
    })
    &&& new.x_flag == new.c_flag
    &&& new == (CpuCore { dar: new.dar, x_flag: new.x_flag, n_flag: new.n_flag, not_z_flag: new.not_z_flag, v_flag: new.v_flag, c_flag: new.c_flag, ..old })
}

/// Effect of BTST (0), BCHG (1), BCLR (2) or BSET (3) of the bit that data
/// register `bit_reg` numbers (modulo 32) in data register `dst`.
pub open spec fn bit_effect(old: CpuCore, new: CpuCore, kind: u8, bit_reg: int, dst: int) -> bool {
    let bit = old.dar[bit_reg] & 31;
    let mask = 1u32 << bit;
    let v = old.dar[dst];
    let z: u32 = if v & mask != 0 {
        1
    } else {
        0
    };
    let res = if kind == 0 {
        v
    } else if kind == 1 {
        v ^ mask
    } else if kind == 2 {
        v & !mask
    } else {
        v | mask
    };
    new.dar@ =~= old.dar@.update(dst, res) && new == (CpuCore { dar: new.dar, not_z_flag: z, ..old })
}

/// Effect of SWAP on data register `reg`: its halves exchanged, N and Z
/// from the result, V and C cleared.
pub open spec fn swap_effect(old: CpuCore, new: CpuCore, reg: int) -> bool {
    let res = swap_halves(old.dar[reg]);
    new.dar@ == old.dar@.update(reg, res) && ccr_logic(regs_of(old, new), new, res, Size::Long)
}

/// Effect of ABCD (`is_sub` false) or SBCD between data registers: the
/// decimal result in the low byte of `dst`, flags as the memory forms.
pub open spec fn bcd_reg_effect(old: CpuCore, new: CpuCore, src: int, dst: int, is_sub: bool) -> bool {
    let s = old.dar[src] & 0xFF;
    let d = old.dar[dst] & 0xFF;
    let res = new.dar[dst] & 0xFF;
    let flags = CpuCore { dar: old.dar, ..new };
    &&& !is_sub ==> abcd_effect(old, flags, s, d, res)
    &&& is_sub ==> sbcd_effect(old, flags, s, d, res)
    &&& new.dar@ == old.dar@.update(dst, sized_write(old.dar[dst], res, Size::Byte))
}

/// The count of a register shift: a data register modulo 64, or an
/// immediate 1..8 (0 meaning 8).
pub open spec fn shift_count(cpu: CpuCore, count_or_reg: u8, count_is_register: bool) -> u32 {
    if count_is_register {
        cpu.dar[count_or_reg as int] & 63
    } else if count_or_reg == 0 {
        8
    } else {
        count_or_reg as u32
    }
}

/// Effect of a register shift or rotate (`kind` 0 arithmetic, 1 logical,
/// 2 through X, 3 rotate; `direction` 1 left) taking `r` clocks.
pub open spec fn shift_reg_effect(
    old: CpuCore,
    new: CpuCore,
    reg: int,
    size: Size,
    count_or_reg: u8,
    count_is_register: bool,
    direction: u8,
    kind: u8,
    r: i32,
) -> bool {
    let n = shift_count(old, count_or_reg, count_is_register);
    let v = old.dar[reg] & size_mask(size);
    let flags = CpuCore { dar: old.dar, ..new };
    let res = shift_spec(kind, direction == 1, size, n as u64, (v & size_mask(size)) as u64, old.x_flag & 0x100 != 0).0 as u32;
    &&& shifted(old, flags, kind, direction == 1, size, n, v, (res, r))
    &&& new.dar@ == old.dar@.update(reg, sized_write(old.dar[reg], res, size))
}

impl CpuCore {
    /// Write the low `size` bits of `value` into data register `reg`.
    pub fn write_data_bits(&mut self, reg: usize, size: Size, value: u32)
        requires
            reg < 8,
        ensures
            data_written(*old(self), *final(self), reg as int, value, size),
            *final(self) == regs_of(*old(self), *final(self)),
    {
        match size {
            Size::Byte => self.dar[reg] = (self.dar[reg] & 0xFFFF_FF00) | (value & 0xFF),
            Size::Word => self.dar[reg] = (self.dar[reg] & 0xFFFF_0000) | (value & 0xFFFF),
            Size::Long => self.dar[reg] = value,
        }
    }

    /// Read a register source operand.
    pub fn read_reg_operand(&self, is_addr: bool, reg: u8, size: Size) -> (r: u32)
        requires
            reg < 8,
        ensures
            r == reg_operand(*self, is_addr, reg, size),
    {
        if is_addr {
            self.dar[8 + reg as usize] & size.mask()
        } else {
            self.dar[reg as usize] & size.mask()
        }
    }

    /// CLR, NEG, NEGX, NOT or TST of a data register.
    pub fn op_unary(&mut self, kind: u8, reg: usize, size: Size)
        requires
            reg < 8,
        ensures
            unary_effect(*old(self), *final(self), kind, reg as int, size),
    {
        let mask = size.mask();
        let src = self.dar[reg] & mask;
        if kind == 0 {
            self.write_data_bits(reg, size, 0);
            self.set_logic_flags(0, size);
        } else if kind == 1 {
            let result = 0u32.wrapping_sub(src);
            self.write_data_bits(reg, size, result);
            self.set_sub_flags(src, 0, result, size);
        } else if kind == 2 {
            let result = self.exec_subx(size, src, 0);
            self.write_data_bits(reg, size, result);
            proof {
                crate::instructions::integer_arith::lemma_zero_masks();
            }
        } else if kind == 3 {
            let result = !src & mask;
            self.write_data_bits(reg, size, result);
            self.set_logic_flags(result, size);
        } else {
            self.set_logic_flags(src, size);
        }
    }

    /// ADD, SUB, AND, OR, EOR or CMP of a source value into a data register.
    pub fn op_binary(&mut self, kind: u8, src: u32, dst: usize, size: Size)
        requires
            dst < 8,
        ensures
            binary_effect(*old(self), *final(self), kind, src, dst as int, size),
    {
        let mask = size.mask();
        let dst_value = self.dar[dst] & mask;
        if kind == 0 {
            let result = dst_value.wrapping_add(src);
            self.write_data_bits(dst, size, result);
            self.set_add_flags(src, dst_value, result, size);
        } else if kind == 1 {
            let result = dst_value.wrapping_sub(src);
            self.write_data_bits(dst, size, result);
            self.set_sub_flags(src, dst_value, result, size);
        } else if kind == 2 {
            let result = (src & dst_value) & mask;
            self.write_data_bits(dst, size, result);
            self.set_logic_flags(result, size);
        } else if kind == 3 {
            let result = (src | dst_value) & mask;
            self.write_data_bits(dst, size, result);
            self.set_logic_flags(result, size);
        } else if kind == 4 {
            let result = (src ^ dst_value) & mask;
            self.write_data_bits(dst, size, result);
            self.set_logic_flags(result, size);
        } else {
            self.op_compare(src, dst_value, size);
        }
    }

    /// Flags of a comparison `dst - src`.
    fn op_compare(&mut self, src: u32, dst_value: u32, size: Size)
        ensures
            ccr_compare(*old(self), *final(self), src, dst_value, dst_value.wrapping_sub(src), size),
    {
        let result = dst_value.wrapping_sub(src);
        self.set_cmp_flags(src, dst_value, result, size);
    }

    /// ADDA, SUBA or CMPA of a source value into an address register.
    pub fn op_addr(&mut self, kind: u8, src: u32, dst: usize, size: Size)
        requires
            dst < 8,
        ensures
            addr_effect(*old(self), *final(self), kind, src, dst as int, size),
    {
        let src = if size == Size::Word {
            crate::instructions::integer_arith::sign_extend_word(src)
        } else {
            src
        };
        let dst_value = self.dar[8 + dst];
        if kind == 0 {
            self.dar[8 + dst] = dst_value.wrapping_add(src);
        } else if kind == 1 {
            self.dar[8 + dst] = dst_value.wrapping_sub(src);
        } else {
            self.op_compare(src, dst_value, Size::Long);
        }
    }

    /// ADDX or SUBX between data registers.
    pub fn op_addsubx(&mut self, src: usize, dst: usize, size: Size, is_sub: bool)
        requires
            src < 8,
            dst < 8,
        ensures
            addsubx_effect(*old(self), *final(self), src as int, dst as int, size, is_sub),
    {
        let mask = size.mask();
        let src_value = self.dar[src] & mask;
        let dst_value = self.dar[dst] & mask;
        let result = if is_sub {
            self.exec_subx(size, src_value, dst_value)
        } else {
            self.exec_addx(size, src_value, dst_value)
        };
        self.write_data_bits(dst, size, result);
        proof {
            crate::types::lemma_mask_bounds(old(self).dar[src as int]);
            crate::types::lemma_mask_bounds(old(self).dar[dst as int]);
        }
    }

    /// BTST, BCHG, BCLR or BSET with a register bit number; returns the bit
    /// number (modulo 32).
    pub fn op_bit(&mut self, kind: u8, bit_reg: usize, dst: usize) -> (r: u32)
        requires
            bit_reg < 8,
            dst < 8,
        ensures
            bit_effect(*old(self), *final(self), kind, bit_reg as int, dst as int),
            r == old(self).dar[bit_reg as int] & 31,
            r < 32,
    {
        let bit = self.dar[bit_reg] & 31;
        proof {
            crate::types::lemma_mask_bounds(self.dar[bit_reg as int]);
        }
        let mask = 1u32 << bit;
        let value = self.dar[dst];
        self.not_z_flag = if value & mask != 0 {
            1
        } else {
            0
        };
        if kind == 1 {
            self.dar[dst] = value ^ mask;
        } else if kind == 2 {
            self.dar[dst] = value & !mask;
        } else if kind >= 3 {
            self.dar[dst] = value | mask;
        }
        bit
    }

    /// Scc to a data register: the low byte becomes all ones when the
    /// condition holds, zero otherwise; returns whether it held.
    pub fn op_scc(&mut self, condition: u8, reg: usize) -> (r: bool)
        requires
            condition < 16,
            reg < 8,
        ensures
            r == condition_holds(condition, old(self).n_flag, old(self).not_z_flag, old(self).v_flag, old(self).c_flag),
            data_written(*old(self), *final(self), reg as int, if r {
                0xFFu32
            } else {
                0u32
            }, Size::Byte),
            *final(self) == regs_of(*old(self), *final(self)),
    {
        let holds = self.test_condition(condition);
        let value: u32 = if holds {
            0xFF
        } else {
            0
        };
        self.write_data_bits(reg, Size::Byte, value);
        holds
    }

    /// SWAP without bus sequencing: exchange the halves of a data register;
    /// N and Z from the result.
    pub fn op_swap(&mut self, reg: usize)
        requires
            reg < 8,
        ensures
            swap_effect(*old(self), *final(self), reg as int),
    {
        let value = self.dar[reg];
        let result = (value >> 16u32) | (value << 16u32);
        self.dar[reg] = result;
        self.set_logic_flags(result, Size::Long);
    }

    /// EXG without bus sequencing.
    pub fn op_exg(&mut self, opcode: u16)
        ensures
            final(self).dar@ == exg_result(old(self).dar@, opcode),
            *final(self) == regs_of(*old(self), *final(self)),
    {
        proof {
            crate::instructions::mul_div_long::lemma_ext_fields(0, opcode);
        }
        let rx = ((opcode >> 9u16) & 7) as usize;
        let ry = (opcode & 7) as usize;
        let mode = (opcode >> 3u16) & 0x1F;
        if mode == 0x08 {
            let tmp = self.dar[rx];
            self.dar[rx] = self.dar[ry];
            self.dar[ry] = tmp;
        } else if mode == 0x09 {
            let tmp = self.dar[8 + rx];
            self.dar[8 + rx] = self.dar[8 + ry];
            self.dar[8 + ry] = tmp;
        } else if mode == 0x11 {
            let tmp = self.dar[rx];
            self.dar[rx] = self.dar[8 + ry];
            self.dar[8 + ry] = tmp;
        }
    }

    /// ABCD (`is_sub` false) or SBCD between data registers, without bus
    /// sequencing.
    pub fn op_bcd(&mut self, src: usize, dst: usize, is_sub: bool)
        requires
            src < 8,
            dst < 8,
        ensures
            bcd_reg_effect(*old(self), *final(self), src as int, dst as int, is_sub),
    {
        let s = self.dar[src] & 0xFF;
        let d = self.dar[dst] & 0xFF;
        let result = if is_sub {
            self.bcd_sub(s, d)
        } else {
            self.bcd_add(s, d)
        };
        let ghost mid = *self;
        self.write_data_bits(dst, Size::Byte, result);
        proof {
            crate::types::lemma_merge_low(old(self).dar[dst as int], result);
            crate::types::lemma_merge_low(old(self).dar[dst as int], self.dar[dst as int]);
            assert(CpuCore { dar: old(self).dar, ..*self } == mid);
        }
    }

    /// A register shift or rotate: `kind` 0 arithmetic, 1 logical, 2 through
    /// X, 3 rotate; `direction` 1 left. The count is a register (modulo 64)
    /// or an immediate 1..8 (0 meaning 8). Returns the clocks.
    pub fn op_shift(
        &mut self,
        reg: usize,
        size: Size,
        count_or_reg: u8,
        count_is_register: bool,
        direction: u8,
        kind: u8,
    ) -> (r: i32)
        requires
            reg < 8,
            count_or_reg < 8,
            kind < 4,
        ensures
            shift_reg_effect(*old(self), *final(self), reg as int, size, count_or_reg, count_is_register, direction, kind, r),
            6 <= r <= 134,
    {
        let shift = if count_is_register {
            self.dar[count_or_reg as usize] & 63
        } else {
            let c = count_or_reg as u32;
            if c == 0 {
                8
            } else {
                c
            }
        };
        proof {
            crate::types::lemma_mask_bounds(old(self).dar[count_or_reg as int]);
        }
        let value = self.dar[reg] & size.mask();
        let left = direction == 1;
        let (result, cycles) = self.apply_shift(kind, left, size, shift, value);
        let ghost flags = *self;
        self.write_data_bits(reg, size, result);
        proof {
            assert(CpuCore { dar: old(self).dar, ..*self } == flags);
            assert(shifted(*old(self), flags, kind, direction == 1, size, shift, value, (result, cycles)));
        }
        cycles
    }
}

} // verus!
