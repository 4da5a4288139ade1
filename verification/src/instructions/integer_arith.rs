//! Integer arithmetic: ADD, ADDA, ADDQ, ADDX, SUB, SUBA, SUBQ, SUBX, CMP,
//! CMPA, NEG, NEGX, CLR, NOT, EXT, EXTB, TST, CHK.

use vstd::prelude::*;
use crate::cpu::{CpuCore, CFLAG_SET, VFLAG_SET, RUN_MODE_BERR_AERR_RESET, flushed, sat_add};
use crate::exceptions::{frame_write, group2_entry, stack_usable};
use crate::vector;
use crate::ea::{AddressingMode, EaResult, mode_ok, ea_time_spec};
use crate::flags::{n_of, add_v_of, add_c_of, sub_v_of, sub_c_of, compare_c_of, with_ccr, unsigned_of, modulus};
use crate::memory::{AddressBus, BusEvent};
use crate::mem_ops::{finish_events, refill_events};
use crate::mem_ops::refilled;
use crate::types::{CpuType, Size, size_mask, size_msb, lemma_mask_bounds};

verus! {

/// A data register after a write of `size`: the bits outside the operand
/// are kept.
pub open spec fn sized_write(old: u32, value: u32, size: Size) -> u32 {
    match size {
        Size::Byte => (old & 0xFFFF_FF00) | (value & 0xFF),
        Size::Word => (old & 0xFFFF_0000) | (value & 0xFFFF),
        Size::Long => value,
    }
}

/// The word operand sign-extended to 32 bits.
pub open spec fn sext16(v: u32) -> u32 {
    v as u16 as i16 as i32 as u32
}

/// The byte operand sign-extended to 32 bits.
pub open spec fn sext8(v: u32) -> u32 {
    v as u8 as i8 as i32 as u32
}

/// Flags after an addition `r = s + d` (X follows C).
pub open spec fn ccr_add(old: CpuCore, new: CpuCore, s: u32, d: u32, r: u32, size: Size) -> bool {
    with_ccr(
        old,
        new,
        add_c_of(s, d, r, size),
        n_of(r, size),
        r & size_mask(size),
        add_v_of(s, d, r, size),
        add_c_of(s, d, r, size),
    )
}

/// Flags after a subtraction `r = d - s` (X follows C).
pub open spec fn ccr_sub(old: CpuCore, new: CpuCore, s: u32, d: u32, r: u32, size: Size) -> bool {
    with_ccr(
        old,
        new,
        sub_c_of(s, d, r, size),
        n_of(r, size),
        r & size_mask(size),
        sub_v_of(s, d, r, size),
        sub_c_of(s, d, r, size),
    )
}

/// Flags after a comparison `r = d - s` (X unchanged).
pub open spec fn ccr_compare(old: CpuCore, new: CpuCore, s: u32, d: u32, r: u32, size: Size) -> bool {
    with_ccr(
        old,
        new,
        old.x_flag,
        n_of(r, size),
        r & size_mask(size),
        sub_v_of(s, d, r, size),
        compare_c_of(s, d, size),
    )
}

/// Flags after a logic operation or move of `value` (V and C cleared, X
/// unchanged).
pub open spec fn ccr_logic(old: CpuCore, new: CpuCore, value: u32, size: Size) -> bool {
    with_ccr(old, new, old.x_flag, n_of(value, size), value & size_mask(size), 0, 0)
}

/// ADDX/SUBX/NEGX: Z is only ever cleared.
pub open spec fn sticky_z(old_z: u32, r: u32) -> u32 {
    if r != 0 {
        r
    } else {
        old_z
    }
}

/// The extend bit as 0 or 1.
pub open spec fn x_bit(x: u32) -> int {
    if x != 0 {
        1
    } else {
        0
    }
}

/// ADDX result: `(d + s + X)` in the operand width.
pub open spec fn addx_result(s: u32, d: u32, x: u32, size: Size) -> u32 {
    ((unsigned_of(d, size) + unsigned_of(s, size) + x_bit(x)) % modulus(size)) as u32
}

/// SUBX result: `(d - s - X)` in the operand width.
pub open spec fn subx_result(s: u32, d: u32, x: u32, size: Size) -> u32 {
    ((unsigned_of(d, size) - unsigned_of(s, size) - x_bit(x)) % modulus(size)) as u32
}

impl CpuCore {
    /// Set N, Z, V, C and X after an addition `result = src + dst`.
    pub fn set_add_flags(&mut self, src: u32, dst: u32, result: u32, size: Size)
        ensures
            ccr_add(*old(self), *final(self), src, dst, result, size),
    {
        let msb = size.msb_mask();
        let mask = size.mask();
        let s = src & mask;
        let d = dst & mask;
        let r = result & mask;
        proof {
            lemma_mask_bounds(src);
            lemma_mask_bounds(dst);
            lemma_mask_bounds(result);
        }
        self.n_flag = if r & msb != 0 {
            0x80
        } else {
            0
        };
        self.not_z_flag = r;
        let v = (s ^ r) & (d ^ r) & msb;
        self.v_flag = if v != 0 {
            0x80
        } else {
            0
        };
        let carry = match size {
            Size::Byte => (s + d) & 0x100 != 0,
            Size::Word => (s + d) & 0x10000 != 0,
            Size::Long => ((s & d) | (!r & (s | d))) & 0x80000000 != 0,
        };
        self.c_flag = if carry {
            CFLAG_SET
        } else {
            0
        };
        self.x_flag = self.c_flag;
        proof {
            lemma_n_masked(result, size);
        }
    }

    /// Set N, Z, V, C and X after a subtraction `result = dst - src`.
    pub fn set_sub_flags(&mut self, src: u32, dst: u32, result: u32, size: Size)
        ensures
            ccr_sub(*old(self), *final(self), src, dst, result, size),
    {
        let msb = size.msb_mask();
        let mask = size.mask();
        let r = result & mask;
        let s = src & mask;
        let d = dst & mask;
        self.n_flag = if r & msb != 0 {
            0x80
        } else {
            0
        };
        self.not_z_flag = r;
        let v = (s ^ d) & (r ^ d) & msb;
        self.v_flag = if v != 0 {
            0x80
        } else {
            0
        };
        let carry = match size {
            Size::Byte => s > d,
            Size::Word => s > d,
            Size::Long => ((s & r) | (!d & (s | r))) & 0x80000000 != 0,
        };
        self.c_flag = if carry {
            CFLAG_SET
        } else {
            0
        };
        self.x_flag = self.c_flag;
        proof {
            lemma_n_masked(result, size);
        }
    }

    /// Set N, Z, V and C after a comparison `result = dst - src`; X is
    /// unaffected.
    pub fn set_cmp_flags(&mut self, src: u32, dst: u32, result: u32, size: Size)
        ensures
            ccr_compare(*old(self), *final(self), src, dst, result, size),
    {
        let msb = size.msb_mask();
        let mask = size.mask();
        let r = result & mask;
        let s = src & mask;
        let d = dst & mask;
        self.n_flag = if r & msb != 0 {
            0x80
        } else {
            0
        };
        self.not_z_flag = r;
        let overflow = ((s ^ d) & (r ^ d) & msb) != 0;
        self.v_flag = if overflow {
            VFLAG_SET
        } else {
            0
        };
        let carry = s > d;
        self.c_flag = if carry {
            CFLAG_SET
        } else {
            0
        };
        proof {
            lemma_n_masked(result, size);
        }
    }

    /// Set N and Z from `value`; clear V and C.
    pub fn set_logic_flags(&mut self, value: u32, size: Size)
        ensures
            ccr_logic(*old(self), *final(self), value, size),
    {
        let msb = size.msb_mask();
        self.n_flag = if value & msb != 0 {
            0x80
        } else {
            0
        };
        self.not_z_flag = value & size.mask();
        self.v_flag = 0;
        self.c_flag = 0;
    }

    /// Write the low `size` bits of `value` to data register `reg`.
    pub fn write_data_reg_sized(&mut self, reg: usize, size: Size, value: u32)
        requires
            reg < 8,
        ensures
            final(self).dar@ == old(self).dar@.update(
                reg as int,
                sized_write(old(self).dar[reg as int], value, size),
            ),
            *final(self) == (CpuCore { dar: final(self).dar, ..*old(self) }),
    {
        match size {
            Size::Byte => self.dar[reg] = (self.dar[reg] & 0xFFFF_FF00) | (value & 0xFF),
            Size::Word => self.dar[reg] = (self.dar[reg] & 0xFFFF_0000) | (value & 0xFFFF),
            Size::Long => self.dar[reg] = value,
        }
    }

    /// ADD: returns `(src + dst)` in the operand width, and 4 clocks.
    pub fn exec_add<B: AddressBus>(&mut self, _bus: &mut B, size: Size, src: u32, dst: u32) -> (r: (u32, i32))
        ensures
            r.0 == src.wrapping_add(dst) & size_mask(size),
            r.1 == 4,
            ccr_add(*old(self), *final(self), src, dst, src.wrapping_add(dst), size),
            final(_bus).events() == old(_bus).events(),
    {
        let result = src.wrapping_add(dst);
        self.set_add_flags(src, dst, result, size);
        (result & size.mask(), 4)
    }

    /// SUB: returns `(dst - src)` in the operand width, and 4 clocks.
    pub fn exec_sub<B: AddressBus>(&mut self, _bus: &mut B, size: Size, src: u32, dst: u32) -> (r: (u32, i32))
        ensures
            r.0 == dst.wrapping_sub(src) & size_mask(size),
            r.1 == 4,
            ccr_sub(*old(self), *final(self), src, dst, dst.wrapping_sub(src), size),
            final(_bus).events() == old(_bus).events(),
    {
        let result = dst.wrapping_sub(src);
        self.set_sub_flags(src, dst, result, size);
        (result & size.mask(), 4)
    }

    /// ADDA: `An += src` (a word source is sign-extended); no flags.
    pub fn exec_adda<B: AddressBus>(&mut self, _bus: &mut B, size: Size, src: u32, dst_reg: usize) -> (r: i32)
        requires
            dst_reg < 8,
        ensures
            r == 8,
            final(self).dar@ == old(self).dar@.update(
                8 + dst_reg,
                old(self).dar[8 + dst_reg].wrapping_add(
                    if size == Size::Word {
                        sext16(src)
                    } else {
                        src
                    },
                ),
            ),
            *final(self) == (CpuCore { dar: final(self).dar, ..*old(self) }),
    {
        let src = if size == Size::Word {
            src as u16 as i16 as i32 as u32
        } else {
            src
        };
        let dst = self.a(dst_reg);
        self.set_a(dst_reg, dst.wrapping_add(src));
        8
    }

    /// SUBA: `An -= src` (a word source is sign-extended); no flags.
    pub fn exec_suba<B: AddressBus>(&mut self, _bus: &mut B, size: Size, src: u32, dst_reg: usize) -> (r: i32)
        requires
            dst_reg < 8,
        ensures
            r == 8,
            final(self).dar@ == old(self).dar@.update(
                8 + dst_reg,
                old(self).dar[8 + dst_reg].wrapping_sub(
                    if size == Size::Word {
                        sext16(src)
                    } else {
                        src
                    },
                ),
            ),
            *final(self) == (CpuCore { dar: final(self).dar, ..*old(self) }),
    {
        let src = if size == Size::Word {
            src as u16 as i16 as i32 as u32
        } else {
            src
        };
        let dst = self.a(dst_reg);
        self.set_a(dst_reg, dst.wrapping_sub(src));
        8
    }

    /// CMP: flags of `dst - src`; X unaffected.
    pub fn exec_cmp(&mut self, size: Size, src: u32, dst: u32) -> (r: i32)
        ensures
            r == 4,
            ccr_compare(*old(self), *final(self), src, dst, dst.wrapping_sub(src), size),
    {
        let result = dst.wrapping_sub(src);
        self.set_cmp_flags(src, dst, result, size);
        4
    }

    /// CMPA: long comparison of `An` with the (sign-extended) source.
    pub fn exec_cmpa(&mut self, size: Size, src: u32, dst_reg: usize) -> (r: i32)
        requires
            dst_reg < 8,
        ensures
            r == 6,
            ({
                let s = if size == Size::Word {
                    sext16(src)
                } else {
                    src
                };
                ccr_compare(
                    *old(self),
                    *final(self),
                    s,
                    old(self).dar[8 + dst_reg],
                    old(self).dar[8 + dst_reg].wrapping_sub(s),
                    Size::Long,
                )
            }),
    {
        let src = if size == Size::Word {
            sign_extend_word(src)
        } else {
            src
        };
        let dst = self.a(dst_reg);
        let result = dst.wrapping_sub(src);
        self.set_cmp_flags(src, dst, result, Size::Long);
        6
    }

    /// ADDX: `dst + src + X` in the operand width. Z is only cleared, never
    /// set, so multi-precision sums test zero over all their parts.
    #[verifier::rlimit(40)]
    pub fn exec_addx(&mut self, size: Size, src: u32, dst: u32) -> (r: u32)
        ensures
            r == addx_result(src, dst, old(self).x_flag, size),
            with_ccr(
                *old(self),
                *final(self),
                final(self).c_flag,
                n_of(r, size),
                sticky_z(old(self).not_z_flag, r),
                final(self).v_flag,
                final(self).c_flag,
            ),
            (final(self).c_flag != 0) == (unsigned_of(dst, size) + unsigned_of(src, size) + x_bit(
                old(self).x_flag,
            ) >= modulus(size)),
            final(self).c_flag == 0 || final(self).c_flag == CFLAG_SET,
            final(self).v_flag == add_v_of(src, dst, r, size),
    {
        let mask = size.mask();
        let msb = size.msb_mask();
        let extend: u64 = if self.x_flag != 0 {
            1
        } else {
            0
        };
        let d = (dst & mask) as u64;
        let s = (src & mask) as u64;
        let sum = d + s + extend;
        let r = (sum as u32) & mask;
        proof {
            lemma_mask_bounds(src);
            lemma_mask_bounds(dst);
            lemma_truncate_sum(sum, size);
            lemma_n_masked(r, size);
            lemma_v_masked(src, dst, r, size);
        }
        self.n_flag = if (r & msb) != 0 {
            0x80
        } else {
            0
        };
        if r != 0 {
            self.not_z_flag = r;
        }
        let v = (src ^ r) & (dst ^ r) & msb;
        self.v_flag = if v != 0 {
            VFLAG_SET
        } else {
            0
        };
        let carry = sum > (mask as u64);
        self.c_flag = if carry {
            CFLAG_SET
        } else {
            0
        };
        self.x_flag = self.c_flag;
        r
    }

    /// SUBX: `dst - src - X` in the operand width. Z is only cleared; V
    /// uses the unmodified source operand.
    #[verifier::rlimit(30)]
    pub fn exec_subx(&mut self, size: Size, src: u32, dst: u32) -> (r: u32)
        ensures
            r == subx_result(src, dst, old(self).x_flag, size),
            with_ccr(
                *old(self),
                *final(self),
                final(self).c_flag,
                n_of(r, size),
                sticky_z(old(self).not_z_flag, r),
                final(self).v_flag,
                final(self).c_flag,
            ),
            (final(self).c_flag != 0) == (unsigned_of(src, size) + x_bit(old(self).x_flag)
                > unsigned_of(dst, size)),
            final(self).c_flag == 0 || final(self).c_flag == CFLAG_SET,
            final(self).v_flag == sub_v_of(src, dst, r, size),
    {
        let mask = size.mask();
        let msb = size.msb_mask();
        let extend: u64 = if self.x_flag != 0 {
            1
        } else {
            0
        };
        let d = (dst & mask) as u64;
        let s = (src & mask) as u64;
        let sub = s + extend;
        let t = (d.wrapping_sub(sub)) as u32;
        let r = t & mask;
        proof {
            lemma_mask_bounds(t);
            lemma_mask_bounds(src);
            lemma_mask_bounds(dst);
            lemma_truncate_diff(d, sub, size);
            lemma_n_masked(r, size);
        }
        self.n_flag = if (r & msb) != 0 {
            0x80
        } else {
            0
        };
        if r != 0 {
            self.not_z_flag = r;
        }
        let src_masked = src & mask;
        let dst_masked = dst & mask;
        self.v_flag = if ((src_masked ^ dst_masked) & (r ^ dst_masked) & msb) != 0 {
            VFLAG_SET
        } else {
            0
        };
        proof {
            lemma_sub_v_masked(src, dst, r, size);
        }
        let borrow = sub > d;
        self.c_flag = if borrow {
            CFLAG_SET
        } else {
            0
        };
        self.x_flag = self.c_flag;
        r
    }

    /// EXT.W sign-extends the low byte into the low word; EXT.L the low
    /// word into the long word. N and Z from the result; V, C cleared.
    pub fn exec_ext(&mut self, size: Size, reg: usize) -> (r: i32)
        requires
            reg < 8,
        ensures
            r == 4,
            ({
                let v = old(self).dar[reg as int];
                let res = match size {
                    Size::Word => (sext8(v) & 0xFFFF) | (v & 0xFFFF0000),
                    Size::Long => sext16(v),
                    Size::Byte => v,
                };
                &&& final(self).dar@ == old(self).dar@.update(reg as int, res)
                &&& ccr_logic(
                    CpuCore { dar: final(self).dar, ..*old(self) },
                    *final(self),
                    res,
                    size,
                )
            }),
    {
        let value = self.d(reg);
        let result = match size {
            Size::Word => (value as u8 as i8 as i16 as u16) as u32 | (value & 0xFFFF0000),
            Size::Long => value as u16 as i16 as i32 as u32,
            Size::Byte => value,
        };
        proof {
            lemma_sext_word(value);
        }
        self.set_d(reg, result);
        self.set_logic_flags(result, size);
        4
    }

    /// EXTB.L (68020+): sign-extend the low byte to a long word.
    pub fn exec_extb(&mut self, reg: usize) -> (r: i32)
        requires
            reg < 8,
        ensures
            r == 4,
            final(self).dar@ == old(self).dar@.update(reg as int, sext8(old(self).dar[reg as int])),
            ccr_logic(
                CpuCore { dar: final(self).dar, ..*old(self) },
                *final(self),
                sext8(old(self).dar[reg as int]),
                Size::Long,
            ),
    {
        let value = self.d(reg);
        let result = value as u8 as i8 as i32 as u32;
        self.set_d(reg, result);
        self.set_logic_flags(result, Size::Long);
        4
    }
}

/// `new` differs from `old` only in the registers, the condition codes and
/// the bus-sequencing state of a register-destination instruction.
pub open spec fn reg_frame(old: CpuCore, new: CpuCore) -> bool {
    new == (CpuCore {
        dar: new.dar,
        x_flag: new.x_flag,
        n_flag: new.n_flag,
        not_z_flag: new.not_z_flag,
        v_flag: new.v_flag,
        c_flag: new.c_flag,
        prefetch_queue: new.prefetch_queue,
        prefetch_count: new.prefetch_count,
        pending_sync_clocks: new.pending_sync_clocks,
        ..old
    })
}

/// The 68000's end-of-instruction sequencing for a register destination:
/// the prefetch queue is full and the internal clocks have been reported.
pub open spec fn m68000_finished(old: CpuCore, new: CpuCore) -> bool {
    &&& old.is_pre_68020 && old.prefetch_count < 2 ==> new.prefetch_count == 2
    &&& new.pending_sync_clocks == 0
}

/// The four arithmetic flags and X hold the values of an addition.
pub open spec fn flags_add(new: CpuCore, s: u32, d: u32, r: u32, size: Size) -> bool {
    &&& new.x_flag == add_c_of(s, d, r, size)
    &&& new.n_flag == n_of(r, size)
    &&& new.not_z_flag == r & size_mask(size)
    &&& new.v_flag == add_v_of(s, d, r, size)
    &&& new.c_flag == add_c_of(s, d, r, size)
}

/// The four arithmetic flags and X hold the values of a subtraction.
pub open spec fn flags_sub(new: CpuCore, s: u32, d: u32, r: u32, size: Size) -> bool {
    &&& new.x_flag == sub_c_of(s, d, r, size)
    &&& new.n_flag == n_of(r, size)
    &&& new.not_z_flag == r & size_mask(size)
    &&& new.v_flag == sub_v_of(s, d, r, size)
    &&& new.c_flag == sub_c_of(s, d, r, size)
}

/// N and Z from `value`, V and C clear, X as in `old`.
pub open spec fn flags_logic(old: CpuCore, new: CpuCore, value: u32, size: Size) -> bool {
    &&& new.x_flag == old.x_flag
    &&& new.n_flag == n_of(value, size)
    &&& new.not_z_flag == value & size_mask(size)
    &&& new.v_flag == 0
    &&& new.c_flag == 0
}

/// The CHK operand, sign-extended from `size`.
pub open spec fn chk_signed(v: u32, size: Size) -> int {
    match size {
        Size::Word => v as i16 as int,
        Size::Long => v as i32 as int,
        Size::Byte => v as i8 as int,
    }
}

/// Clocks CHK returns for operand `val` and bound `limit`: the upper bound
/// is compared first and traps on the short exception path; a negative
/// operand traps on the long path, except that a 68000 word compare whose
/// `Dn - bound` overflowed starts on the short path.
pub open spec fn chk_cycles(val: int, limit: int, m68000_word: bool) -> i32 {
    if val > limit {
        38
    } else if val < 0 {
        if m68000_word && !(-32768 <= val - limit <= 32767) {
            38
        } else {
            40
        }
    } else {
        10
    }
}

/// The 68000's end of CLR/NEG/NEGX/NOT on Dn: the prefetch queue is
/// full, and the pending clocks were reported when the queue was topped up
/// or the long form spent its internal clocks.
pub open spec fn unary_finished(old: CpuCore, new: CpuCore, size: Size) -> bool {
    &&& old.is_pre_68020 && old.prefetch_count < 2 ==> new.prefetch_count == 2
    &&& new.pending_sync_clocks == (if size == Size::Long || (old.is_pre_68020 && old.prefetch_count < 2) {
        0
    } else {
        old.pending_sync_clocks
    })
}

/// Internal clocks CHK spends before its trap, by the clocks it reports:
/// eight on the 68000's short word path (38 clocks), ten otherwise.
pub open spec fn chk_trap_clocks(r: i32) -> u32 {
    if r == 38 {
        8
    } else {
        10
    }
}

impl CpuCore {
    /// 68000 CLR/NEG/NEGX/NOT to Dn: final prefetch and IPL sample, then
    /// (long forms) two internal clocks, then the register write.
    #[verifier::rlimit(40)]
    pub fn finish_m68000_register_unary_rmw<B: AddressBus>(
        &mut self,
        bus: &mut B,
        reg: usize,
        size: Size,
        value: u32,
    ) -> (r: i32)
        requires
            reg < 8,
        ensures
            r == (if size == Size::Long { 6i32 } else { 4i32 }),
            final(self).dar@ == old(self).dar@.update(
                reg as int,
                sized_write(old(self).dar[reg as int], value, size),
            ),
            *final(self) == (CpuCore {
                dar: final(self).dar,
                prefetch_queue: final(self).prefetch_queue,
                prefetch_count: final(self).prefetch_count,
                pending_sync_clocks: final(self).pending_sync_clocks,
                ..*old(self)
            }),
            old(self).is_pre_68020 && old(self).prefetch_count < 2 ==> final(self).prefetch_count
                == 2,
            final(self).pending_sync_clocks == (if size == Size::Long || (old(self).is_pre_68020
                && old(self).prefetch_count < 2) {
                0
            } else {
                old(self).pending_sync_clocks
            }),
            final(bus).events() == old(bus).events() + (if size == Size::Long {
                finish_events(*old(self), *final(self), 2, true)
            } else {
                refill_events(*old(self), *final(self)).push(BusEvent::IplHold)
            }),
    {
        self.top_up_prefetch(bus);
        self.ipl_poll_point(bus);
        if size == Size::Long {
            self.internal_cycles(2);
            self.flush_sync(bus);
        }
        self.write_data_reg_sized(reg, size, value);
        if size == Size::Long {
            6
        } else {
            4
        }
    }

    /// 68000 ADDQ/SUBQ to a register: final prefetch and IPL sample, then
    /// the trailing internal clocks, reported before the register update.
    #[verifier::rlimit(40)]
    pub fn finish_m68000_register_quickop<B: AddressBus>(&mut self, bus: &mut B, internal_clocks: u32)
        ensures
            old(self).cpu_type != CpuType::M68000 ==> *final(self) == *old(self),
            old(self).cpu_type == CpuType::M68000 ==> m68000_finished(*old(self), *final(self)),
            *final(self) == (CpuCore {
                prefetch_queue: final(self).prefetch_queue,
                prefetch_count: final(self).prefetch_count,
                pending_sync_clocks: final(self).pending_sync_clocks,
                ..*old(self)
            }),
            old(self).cpu_type != CpuType::M68000 ==> final(bus).events() == old(bus).events(),
            old(self).cpu_type == CpuType::M68000 ==> final(bus).events() == old(bus).events() + finish_events(
                *old(self),
                *final(self),
                internal_clocks,
                true,
            ),
    {
        if self.cpu_type != CpuType::M68000 {
            return ;
        }
        self.top_up_prefetch(bus);
        self.ipl_poll_point(bus);
        self.internal_cycles(internal_clocks);
        self.flush_sync(bus);
    }

    /// ADDQ #data,<ea>. To an address register the whole register is
    /// incremented and no flags change; to a data register or memory the
    /// operand width is added with the flags of ADD.
    pub fn exec_addq<B: AddressBus>(&mut self, bus: &mut B, size: Size, data: u32, mode: AddressingMode) -> (r: i32)
        requires
            mode_ok(mode),
        ensures
            mode is AddressDirect ==> ({
                let reg = mode->AddressDirect_0;
                &&& final(self).dar@ == old(self).dar@.update(
                    8 + reg,
                    old(self).dar[8 + reg].wrapping_add(data),
                )
                &&& r == (if old(self).cpu_type == CpuType::M68000 { 8i32 } else { 4i32 })
                &&& reg_frame(*old(self), *final(self))
                &&& final(self).n_flag == old(self).n_flag && final(self).not_z_flag == old(
                    self).not_z_flag && final(self).v_flag == old(self).v_flag && final(self).c_flag
                    == old(self).c_flag && final(self).x_flag == old(self).x_flag
                &&& old(self).cpu_type == CpuType::M68000 ==> m68000_finished(*old(self), *final(self))
            }),
            mode is DataDirect ==> ({
                let reg = mode->DataDirect_0;
                let d = old(self).dar[reg as int];
                let sum = data.wrapping_add(d);
                &&& final(self).dar@ == old(self).dar@.update(
                    reg as int,
                    sized_write(d, sum & size_mask(size), size),
                )
                &&& flags_add(*final(self), data, d, sum, size)
                &&& r == (if old(self).cpu_type == CpuType::M68000 && size == Size::Long {
                    8i32
                } else {
                    4i32
                })
                &&& reg_frame(*old(self), *final(self))
                &&& old(self).cpu_type == CpuType::M68000 ==> m68000_finished(*old(self), *final(self))
            }),
            !(mode is AddressDirect) && !(mode is DataDirect) ==> r == 4,
            (mode is AddressDirect || mode is DataDirect) && old(self).cpu_type == CpuType::M68000
                ==> final(bus).events() == old(bus).events() + finish_events(
                *old(self),
                *final(self),
                (if mode is AddressDirect || size == Size::Long {
                    4u32
                } else {
                    0u32
                }),
                true,
            ),
            (mode is AddressDirect || mode is DataDirect) && old(self).cpu_type != CpuType::M68000
                ==> final(bus).events() == old(bus).events(),
    {
        if let AddressingMode::AddressDirect(reg) = mode {
            let reg = reg as usize;
            let result = self.a(reg).wrapping_add(data);
            if self.cpu_type == CpuType::M68000 {
                self.finish_m68000_register_quickop(bus, 4);
                self.set_a(reg, result);
                return 8;
            }
            self.set_a(reg, result);
            return 4;
        }
        if let AddressingMode::DataDirect(reg) = mode {
            let reg = reg as usize;
            let dst = self.d(reg);
            let (result, _) = self.exec_add::<B>(bus, size, data, dst);
            if self.cpu_type == CpuType::M68000 {
                let internal_clocks = if size == Size::Long {
                    4
                } else {
                    0
                };
                self.finish_m68000_register_quickop(bus, internal_clocks);
            }
            self.write_data_reg_sized(reg, size, result);
            return if self.cpu_type == CpuType::M68000 && size == Size::Long {
                8
            } else {
                4
            };
        }
        let ea = self.resolve_ea(bus, mode, size);
        let dst = self.read_resolved_ea(bus, ea, size);
        let (result, _) = self.exec_add::<B>(bus, size, data, dst);
        self.write_resolved_ea_np_poll(bus, ea, size, result);
        4
    }

    /// SUBQ #data,<ea>: as ADDQ, subtracting.
    pub fn exec_subq<B: AddressBus>(&mut self, bus: &mut B, size: Size, data: u32, mode: AddressingMode) -> (r: i32)
        requires
            mode_ok(mode),
        ensures
            mode is AddressDirect ==> ({
                let reg = mode->AddressDirect_0;
                &&& final(self).dar@ == old(self).dar@.update(
                    8 + reg,
                    old(self).dar[8 + reg].wrapping_sub(data),
                )
                &&& r == (if old(self).cpu_type == CpuType::M68000 { 8i32 } else { 4i32 })
                &&& reg_frame(*old(self), *final(self))
                &&& final(self).n_flag == old(self).n_flag && final(self).not_z_flag == old(
                    self).not_z_flag && final(self).v_flag == old(self).v_flag && final(self).c_flag
                    == old(self).c_flag && final(self).x_flag == old(self).x_flag
                &&& old(self).cpu_type == CpuType::M68000 ==> m68000_finished(*old(self), *final(self))
            }),
            mode is DataDirect ==> ({
                let reg = mode->DataDirect_0;
                let d = old(self).dar[reg as int];
                let diff = d.wrapping_sub(data);
                &&& final(self).dar@ == old(self).dar@.update(
                    reg as int,
                    sized_write(d, diff & size_mask(size), size),
                )
                &&& flags_sub(*final(self), data, d, diff, size)
                &&& r == (if old(self).cpu_type == CpuType::M68000 && size == Size::Long {
                    8i32
                } else {
                    4i32
                })
                &&& reg_frame(*old(self), *final(self))
                &&& old(self).cpu_type == CpuType::M68000 ==> m68000_finished(*old(self), *final(self))
            }),
            !(mode is AddressDirect) && !(mode is DataDirect) ==> r == 4,
            (mode is AddressDirect || mode is DataDirect) && old(self).cpu_type == CpuType::M68000
                ==> final(bus).events() == old(bus).events() + finish_events(
                *old(self),
                *final(self),
                (if mode is AddressDirect || size == Size::Long {
                    4u32
                } else {
                    0u32
                }),
                true,
            ),
            (mode is AddressDirect || mode is DataDirect) && old(self).cpu_type != CpuType::M68000
                ==> final(bus).events() == old(bus).events(),
    {
        if let AddressingMode::AddressDirect(reg) = mode {
            let reg = reg as usize;
            let result = self.a(reg).wrapping_sub(data);
            if self.cpu_type == CpuType::M68000 {
                self.finish_m68000_register_quickop(bus, 4);
                self.set_a(reg, result);
                return 8;
            }
            self.set_a(reg, result);
            return 4;
        }
        if let AddressingMode::DataDirect(reg) = mode {
            let reg = reg as usize;
            let dst = self.d(reg);
            let (result, _) = self.exec_sub::<B>(bus, size, data, dst);
            if self.cpu_type == CpuType::M68000 {
                let internal_clocks = if size == Size::Long {
                    4
                } else {
                    0
                };
                self.finish_m68000_register_quickop(bus, internal_clocks);
            }
            self.write_data_reg_sized(reg, size, result);
            return if self.cpu_type == CpuType::M68000 && size == Size::Long {
                8
            } else {
                4
            };
        }
        let ea = self.resolve_ea(bus, mode, size);
        let dst = self.read_resolved_ea(bus, ea, size);
        let (result, _) = self.exec_sub::<B>(bus, size, data, dst);
        self.write_resolved_ea_np_poll(bus, ea, size, result);
        4
    }
}

/// Clocks of CLR/NEG/NEGX/NOT to a data register.
pub open spec fn unary_reg_cycles(cpu: CpuCore, size: Size) -> i32 {
    if (cpu.cpu_type == CpuType::M68000 || cpu.is_pre_68020) && size == Size::Long {
        6
    } else {
        4
    }
}

/// CLR/NEG/NEGX/NOT to a data register run to completion: the 68000 takes
/// its own path, the others stop only if an earlier fault aborted the
/// instruction.
pub open spec fn unary_reg_runs(cpu: CpuCore) -> bool {
    cpu.cpu_type == CpuType::M68000 || cpu.run_mode != RUN_MODE_BERR_AERR_RESET
}

impl CpuCore {
    /// CLR <ea>: write zero; N, V, C cleared, Z set. The 68000 reads the
    /// memory destination before writing it.
    pub fn exec_clr<B: AddressBus>(&mut self, bus: &mut B, size: Size, mode: AddressingMode) -> (r: i32)
        requires
            mode_ok(mode),
        ensures
            mode is DataDirect && unary_reg_runs(*old(self)) ==> ({
                let reg = mode->DataDirect_0;
                &&& final(self).dar@ == old(self).dar@.update(
                    reg as int,
                    sized_write(old(self).dar[reg as int], 0, size),
                )
                &&& flags_logic(*old(self), *final(self), 0, size)
                &&& r == unary_reg_cycles(*old(self), size)
                &&& reg_frame(*old(self), *final(self))
            }),
            mode is DataDirect && old(self).cpu_type == CpuType::M68000 ==> unary_finished(*old(self), *final(self), size),
            mode is DataDirect && old(self).cpu_type == CpuType::M68000 ==> final(bus).events() == old(bus).events()
                + (if size == Size::Long {
                finish_events(*old(self), *final(self), 2, true)
            } else {
                refill_events(*old(self), *final(self)).push(BusEvent::IplHold)
            }),
    {
        proof {
            lemma_zero_masks();
        }
        if self.cpu_type == CpuType::M68000 {
            if let AddressingMode::DataDirect(reg) = mode {
                let cycles = self.finish_m68000_register_unary_rmw(bus, reg as usize, size, 0);
                self.n_flag = 0;
                self.not_z_flag = 0;
                self.v_flag = 0;
                self.c_flag = 0;
                return cycles;
            }
        }
        let ea = self.resolve_ea(bus, mode, size);
        if self.run_mode == RUN_MODE_BERR_AERR_RESET {
            return 50;
        }
        if self.cpu_type == CpuType::M68000 {
            let _ = self.read_resolved_ea(bus, ea, size);
            if self.run_mode == RUN_MODE_BERR_AERR_RESET {
                return 50;
            }
        }
        self.write_resolved_ea_np_poll(bus, ea, size, 0);
        if self.run_mode == RUN_MODE_BERR_AERR_RESET {
            return 50;
        }
        self.n_flag = 0;
        self.not_z_flag = 0;
        self.v_flag = 0;
        self.c_flag = 0;
        proof {
            lemma_zero_masks();
        }
        if self.is_pre_68020 {
            let long = size == Size::Long;
            if matches!(mode, AddressingMode::DataDirect(_)) {
                if long {
                    6
                } else {
                    4
                }
            } else {
                (if long {
                    12
                } else {
                    8
                }) + self.ea_time(mode, size)
            }
        } else {
            4
        }
    }

    /// NEG <ea>: `0 - operand`, with the flags of SUB.
    pub fn exec_neg<B: AddressBus>(&mut self, bus: &mut B, size: Size, mode: AddressingMode) -> (r: i32)
        requires
            mode_ok(mode),
        ensures
            mode is DataDirect && unary_reg_runs(*old(self)) ==> ({
                let reg = mode->DataDirect_0;
                let src = old(self).dar[reg as int] & size_mask(size);
                let res = 0u32.wrapping_sub(src);
                &&& final(self).dar@ == old(self).dar@.update(
                    reg as int,
                    sized_write(old(self).dar[reg as int], res & size_mask(size), size),
                )
                &&& flags_sub(*final(self), src, 0, res, size)
                &&& r == unary_reg_cycles(*old(self), size)
                &&& reg_frame(*old(self), *final(self))
            }),
            mode is DataDirect && old(self).cpu_type == CpuType::M68000 ==> unary_finished(*old(self), *final(self), size),
            mode is DataDirect && old(self).cpu_type == CpuType::M68000 ==> final(bus).events() == old(bus).events()
                + (if size == Size::Long {
                finish_events(*old(self), *final(self), 2, true)
            } else {
                refill_events(*old(self), *final(self)).push(BusEvent::IplHold)
            }),
    {
        if self.cpu_type == CpuType::M68000 {
            if let AddressingMode::DataDirect(reg) = mode {
                let reg = reg as usize;
                let src = self.d(reg) & size.mask();
                let result = 0u32.wrapping_sub(src);
                let cycles = self.finish_m68000_register_unary_rmw(bus, reg, size, result & size.mask());
                self.set_sub_flags(src, 0, result, size);
                return cycles;
            }
        }
        let ea = self.resolve_ea(bus, mode, size);
        let src = self.read_resolved_ea(bus, ea, size);
        if self.run_mode == RUN_MODE_BERR_AERR_RESET {
            return 50;
        }
        let result = 0u32.wrapping_sub(src);
        self.write_resolved_ea_np_poll(bus, ea, size, result & size.mask());
        if self.run_mode == RUN_MODE_BERR_AERR_RESET {
            return 50;
        }
        self.set_sub_flags(src, 0, result, size);
        proof {
            lemma_mask_bounds(result);
        }
        if self.is_pre_68020 {
            let long = size == Size::Long;
            if matches!(mode, AddressingMode::DataDirect(_)) {
                if long {
                    6
                } else {
                    4
                }
            } else {
                (if long {
                    12
                } else {
                    8
                }) + self.ea_time(mode, size)
            }
        } else {
            4
        }
    }

    /// NEGX <ea>: `0 - operand - X`, with the flags of SUBX.
    pub fn exec_negx<B: AddressBus>(&mut self, bus: &mut B, size: Size, mode: AddressingMode) -> (r: i32)
        requires
            mode_ok(mode),
        ensures
            mode is DataDirect && unary_reg_runs(*old(self)) ==> ({
                let reg = mode->DataDirect_0;
                let src = old(self).dar[reg as int] & size_mask(size);
                let res = subx_result(src, 0, old(self).x_flag, size);
                &&& final(self).dar@ == old(self).dar@.update(
                    reg as int,
                    sized_write(old(self).dar[reg as int], res, size),
                )
                &&& final(self).n_flag == n_of(res, size)
                &&& final(self).not_z_flag == sticky_z(old(self).not_z_flag, res)
                &&& (final(self).c_flag != 0) == (unsigned_of(src, size) + x_bit(old(self).x_flag) > 0)
                &&& final(self).x_flag == final(self).c_flag
                &&& r == unary_reg_cycles(*old(self), size)
                &&& reg_frame(*old(self), *final(self))
            }),
            mode is DataDirect && old(self).cpu_type == CpuType::M68000 ==> unary_finished(*old(self), *final(self), size),
            mode is DataDirect && old(self).cpu_type == CpuType::M68000 ==> final(bus).events() == old(bus).events()
                + (if size == Size::Long {
                finish_events(*old(self), *final(self), 2, true)
            } else {
                refill_events(*old(self), *final(self)).push(BusEvent::IplHold)
            }),
    {
        proof {
            lemma_zero_masks();
        }
        if self.cpu_type == CpuType::M68000 {
            if let AddressingMode::DataDirect(reg) = mode {
                let reg = reg as usize;
                let src = self.d(reg) & size.mask();
                let result = self.exec_subx(size, src, 0);
                return self.finish_m68000_register_unary_rmw(bus, reg, size, result);
            }
        }
        let ea = self.resolve_ea(bus, mode, size);
        let src = self.read_resolved_ea(bus, ea, size);
        if self.run_mode == RUN_MODE_BERR_AERR_RESET {
            return 50;
        }
        let result = self.exec_subx(size, src, 0);
        self.write_resolved_ea_np_poll(bus, ea, size, result);
        if self.run_mode == RUN_MODE_BERR_AERR_RESET {
            return 50;
        }
        proof {
            lemma_zero_masks();
        }
        if self.is_pre_68020 {
            let long = size == Size::Long;
            if matches!(mode, AddressingMode::DataDirect(_)) {
                if long {
                    6
                } else {
                    4
                }
            } else {
                (if long {
                    12
                } else {
                    8
                }) + self.ea_time(mode, size)
            }
        } else {
            4
        }
    }

    /// NOT <ea>: bitwise complement, with the flags of a logic operation.
    pub fn exec_not<B: AddressBus>(&mut self, bus: &mut B, size: Size, mode: AddressingMode) -> (r: i32)
        requires
            mode_ok(mode),
        ensures
            mode is DataDirect && unary_reg_runs(*old(self)) ==> ({
                let reg = mode->DataDirect_0;
                let res = !(old(self).dar[reg as int] & size_mask(size)) & size_mask(size);
                &&& final(self).dar@ == old(self).dar@.update(
                    reg as int,
                    sized_write(old(self).dar[reg as int], res, size),
                )
                &&& flags_logic(*old(self), *final(self), res, size)
                &&& r == unary_reg_cycles(*old(self), size)
                &&& reg_frame(*old(self), *final(self))
            }),
            mode is DataDirect && old(self).cpu_type == CpuType::M68000 ==> unary_finished(*old(self), *final(self), size),
            mode is DataDirect && old(self).cpu_type == CpuType::M68000 ==> final(bus).events() == old(bus).events()
                + (if size == Size::Long {
                finish_events(*old(self), *final(self), 2, true)
            } else {
                refill_events(*old(self), *final(self)).push(BusEvent::IplHold)
            }),
    {
        if self.cpu_type == CpuType::M68000 {
            if let AddressingMode::DataDirect(reg) = mode {
                let reg = reg as usize;
                let src = self.d(reg) & size.mask();
                let result = !src & size.mask();
                let cycles = self.finish_m68000_register_unary_rmw(bus, reg, size, result);
                self.set_logic_flags(result, size);
                return cycles;
            }
        }
        let ea = self.resolve_ea(bus, mode, size);
        let src = self.read_resolved_ea(bus, ea, size);
        if self.run_mode == RUN_MODE_BERR_AERR_RESET {
            return 50;
        }
        let result = !src & size.mask();
        self.write_resolved_ea_np_poll(bus, ea, size, result);
        if self.run_mode == RUN_MODE_BERR_AERR_RESET {
            return 50;
        }
        self.set_logic_flags(result, size);
        if self.is_pre_68020 {
            let long = size == Size::Long;
            if matches!(mode, AddressingMode::DataDirect(_)) {
                if long {
                    6
                } else {
                    4
                }
            } else {
                (if long {
                    12
                } else {
                    8
                }) + self.ea_time(mode, size)
            }
        } else {
            4
        }
    }

    /// TST <ea>: N and Z from the operand; V and C cleared.
    pub fn exec_tst<B: AddressBus>(&mut self, bus: &mut B, size: Size, mode: AddressingMode) -> (r: i32)
        requires
            mode_ok(mode),
        ensures
            mode is DataDirect && old(self).run_mode != RUN_MODE_BERR_AERR_RESET ==> ({
                let reg = mode->DataDirect_0;
                &&& flags_logic(*old(self), *final(self), old(self).dar[reg as int] & size_mask(size), size)
                &&& r == 4
                &&& final(self).dar == old(self).dar
                &&& reg_frame(*old(self), *final(self))
            }),
    {
        let ea = self.resolve_ea(bus, mode, size);
        let value = self.read_resolved_ea(bus, ea, size);
        if self.run_mode == RUN_MODE_BERR_AERR_RESET {
            return 50;
        }
        self.set_logic_flags(value, size);
        proof {
            lemma_mask_bounds(value);
        }
        4 + self.ea_time(mode, size)
    }

    /// CHK <bound>,Dn: trap through vector 6 when `Dn < 0` or `Dn > bound`
    /// (signed, at the operand size). N reflects the sign of Dn; Z, V and C
    /// are cleared.
    pub fn exec_chk<B: AddressBus>(&mut self, bus: &mut B, size: Size, bound: u32, reg: usize) -> (r: i32)
        requires
            reg < 8,
        ensures
            r == chk_cycles(
                chk_signed(old(self).dar[reg as int], size),
                chk_signed(bound, size),
                old(self).cpu_type == CpuType::M68000 && size == Size::Word,
            ),
            final(self).n_flag == (if chk_signed(old(self).dar[reg as int], size) < 0 {
                0x80u32
            } else {
                0u32
            }),
            final(self).not_z_flag == 1,
            final(self).v_flag == 0,
            final(self).c_flag == 0,
            final(self).x_flag == old(self).x_flag,
            r == 10 ==> final(self).dar == old(self).dar,
            r != 10 ==> final(self).s_flag == 4,
            r != 10 ==> r == 38 || r == 40,
            r != 10 && stack_usable(*old(self)) ==> group2_entry(
                CpuCore {
                    n_flag: final(self).n_flag,
                    not_z_flag: 1,
                    v_flag: 0,
                    c_flag: 0,
                    pending_sync_clocks: sat_add(old(self).pending_sync_clocks, chk_trap_clocks(r)),
                    ..*old(self)
                },
                *final(self),
                old(bus).events(),
                final(bus).events(),
                vector::CHK,
                sat_add(old(self).pending_sync_clocks, chk_trap_clocks(r)),
            ),
    {
        let (val, limit) = match size {
            Size::Word => (self.d(reg) as i16 as i32, bound as i16 as i32),
            Size::Long => (self.d(reg) as i32, bound as i32),
            Size::Byte => (self.d(reg) as i8 as i32, bound as i8 as i32),
        };
        self.n_flag = if val < 0 {
            0x80
        } else {
            0
        };
        self.not_z_flag = 1;
        self.v_flag = 0;
        self.c_flag = 0;
        if val > limit {
            self.internal_cycles(8);
            return self.exception_chk(bus) - 2;
        }
        if val < 0 {
            if self.cpu_type == CpuType::M68000 && size == Size::Word && (val as i16).checked_sub(
                limit as i16,
            ).is_none() {
                self.internal_cycles(8);
                return self.exception_chk(bus) - 2;
            }
            self.internal_cycles(10);
            return self.exception_chk(bus);
        }
        self.internal_cycles(6);
        10
    }
}

/// Zero under every operand mask.
pub proof fn lemma_zero_masks()
    ensures
        0u32 & size_mask(Size::Byte) == 0,
        0u32 & size_mask(Size::Word) == 0,
        0u32 & size_mask(Size::Long) == 0,
        n_of(0, Size::Byte) == 0 && n_of(0, Size::Word) == 0 && n_of(0, Size::Long) == 0,
{
    lemma_mask_bounds(0);
    crate::cpu::lemma_flag_constants();
}

/// Sign-extend the low word of `v` to 32 bits.
pub fn sign_extend_word(v: u32) -> (r: u32)
    ensures
        r == sext16(v),
{
    v as u16 as i16 as i32 as u32
}

/// Sign-extend the low byte of `v` to 32 bits.
pub fn sign_extend_byte(v: u32) -> (r: u32)
    ensures
        r == sext8(v),
{
    v as u8 as i8 as i32 as u32
}

/// The sign bit of a value equals the sign bit of its operand bits.
pub proof fn lemma_n_masked(x: u32, size: Size)
    ensures
        (x & size_mask(size)) & size_msb(size) == x & size_msb(size),
        n_of(x & size_mask(size), size) == n_of(x, size),
{
    lemma_mask_bounds(x);
}

/// Overflow of ADDX computed on unmasked operands equals the masked form.
pub proof fn lemma_v_masked(s: u32, d: u32, r: u32, size: Size)
    ensures
        (if (s ^ r) & (d ^ r) & size_msb(size) != 0 {
            0x80u32
        } else {
            0u32
        }) == add_v_of(s, d, r, size),
{
    lemma_xor_msb(s, d, r);
}

/// Overflow of SUBX computed on masked operands equals the spec form.
pub proof fn lemma_sub_v_masked(s: u32, d: u32, r: u32, size: Size)
    requires
        r == r & size_mask(size),
    ensures
        (if ((s & size_mask(size)) ^ (d & size_mask(size))) & (r ^ (d & size_mask(size)))
            & size_msb(size) != 0 {
            0x80u32
        } else {
            0u32
        }) == sub_v_of(s, d, r, size),
{
}

/// Masking commutes with the sign-bit tests the overflow formulas use.
pub proof fn lemma_xor_msb(s: u32, d: u32, r: u32)
    by (bit_vector)
    ensures
        (s ^ r) & (d ^ r) & 0x80 == ((s & 0xFF) ^ (r & 0xFF)) & ((d & 0xFF) ^ (r & 0xFF)) & 0x80,
        (s ^ r) & (d ^ r) & 0x8000 == ((s & 0xFFFF) ^ (r & 0xFFFF)) & ((d & 0xFFFF) ^ (r
            & 0xFFFF)) & 0x8000,
        (s ^ r) & (d ^ r) & 0x8000_0000 == ((s & 0xFFFF_FFFF) ^ (r & 0xFFFF_FFFF)) & ((d
            & 0xFFFF_FFFF) ^ (r & 0xFFFF_FFFF)) & 0x8000_0000,
{
}

/// Truncating a sum of masked operands to the operand width is the sum
/// modulo the width.
pub proof fn lemma_truncate_sum(sum: u64, size: Size)
    requires
        sum <= 0x1_FFFF_FFFF,
    ensures
        (sum as u32) & size_mask(size) == (sum as int % modulus(size)) as u32,
{
    lemma_truncate_u64(sum);
}

/// Truncation of a 64-bit value to the three operand widths.
pub proof fn lemma_truncate_u64(v: u64)
    by (bit_vector)
    ensures
        (v as u32) & 0xFF == (v % 0x100) as u32,
        (v as u32) & 0xFFFF == (v % 0x1_0000) as u32,
        (v as u32) & 0xFFFF_FFFF == (v % 0x1_0000_0000) as u32,
{
}

/// Truncating a wrapped 64-bit difference to the operand width is the
/// difference modulo the width.
pub proof fn lemma_truncate_diff(d: u64, s: u64, size: Size)
    requires
        d <= 0xFFFF_FFFF,
        s <= 0x1_0000_0000,
    ensures
        ((d.wrapping_sub(s)) as u32) & size_mask(size) == ((d - s) % modulus(size)) as u32,
{
    let w = d.wrapping_sub(s);
    lemma_truncate_u64(w);
    if d >= s {
        assert(w == d - s);
    } else {
        assert(w as int == d - s + 0x1_0000_0000_0000_0000);
        assert((w as int) % modulus(size) == (d - s) % modulus(size)) by {
            match size {
                Size::Byte => vstd::arithmetic::div_mod::lemma_mod_multiples_vanish(
                    0x100_0000_0000_0000,
                    d - s,
                    0x100,
                ),
                Size::Word => vstd::arithmetic::div_mod::lemma_mod_multiples_vanish(
                    0x1_0000_0000_0000,
                    d - s,
                    0x1_0000,
                ),
                Size::Long => vstd::arithmetic::div_mod::lemma_mod_multiples_vanish(
                    0x1_0000_0000,
                    d - s,
                    0x1_0000_0000,
                ),
            }
        }
    }
}

/// Sign extension of a byte into a word, and of a word into a long.
pub proof fn lemma_sext_word(v: u32)
    ensures
        (v as u8 as i8 as i16 as u16) as u32 == sext8(v) & 0xFFFF,
{
    assert((v as u8 as i8 as i16 as u16) as u32 == (v as u8 as i8 as i32 as u32) & 0xFFFF)
        by (bit_vector);
}

} // verus!
