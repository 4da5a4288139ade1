//! Word multiply and divide: MULU, MULS, DIVU, DIVS, with the 68000's
//! data-dependent timing.

use vstd::prelude::*;
use crate::cpu::{CpuCore, RUN_MODE_BERR_AERR_RESET};
use crate::ea::{AddressingMode, EaResult, mode_ok, ea_time_spec, resolved};
use crate::exceptions::{address_error_taken, stack_usable};
use crate::instructions::data_movement::{source_faults, read_effects};
use crate::instructions::data_movement::bits_below;
use crate::instructions::integer_arith::m68000_finished;
use crate::memory::{AddressBus, BusEvent};
use crate::mem_ops::{finish_events, refill_events};
use crate::types::{CpuType, Size};

verus! {

/// Number of one bits of a word.
pub open spec fn ones16(v: u16) -> nat {
    bits_below(v, 16)
}

/// MULS multiplier transitions: the `01`/`10` bit pairs of the source
/// word with a 0 appended below bit 0.
pub open spec fn transitions(src: u16) -> nat {
    let s = (src as u32) << 1u32;
    ones16(((s ^ (s >> 1u32)) & 0xFFFF) as u16)
}

/// The 68000's DIVU restoring-division loop: `steps` iterations from the
/// shifted dividend `d`, counting machine cycles from `m`.
pub open spec fn divu_loop(d: u32, hdivisor: u32, steps: nat, m: int) -> int
    decreases steps,
{
    if steps == 0 {
        m
    } else {
        let shifted = d << 1u32;
        if d >= 0x8000_0000 {
            divu_loop(shifted.wrapping_sub(hdivisor), hdivisor, (steps - 1) as nat, m)
        } else if shifted >= hdivisor {
            divu_loop(shifted.wrapping_sub(hdivisor), hdivisor, (steps - 1) as nat, m + 1)
        } else {
            divu_loop(shifted, hdivisor, (steps - 1) as nat, m + 2)
        }
    }
}

/// 68000 DIVU.W clocks without the operand fetch: 10 on an early overflow,
/// else twice the cycles of the division loop.
pub open spec fn divu_clocks(dividend: u32, divisor: u16) -> int {
    if (dividend >> 16u32) >= divisor {
        10
    } else {
        2 * divu_loop(dividend, (divisor as u32) << 16u32, 15, 38)
    }
}

/// The DIVS quotient loop: one cycle for each of `steps` leading bits of
/// `q` that is clear.
pub open spec fn divs_loop(q: u16, steps: nat, m: int) -> int
    decreases steps,
{
    if steps == 0 {
        m
    } else {
        divs_loop(q << 1u16, (steps - 1) as nat, if q < 0x8000 {
            m + 1
        } else {
            m
        })
    }
}

/// Magnitude of a 32-bit signed value.
pub open spec fn abs_i32(v: i32) -> int {
    if v < 0 {
        -(v as int)
    } else {
        v as int
    }
}

/// 68000 DIVS.W clocks without the operand fetch.
pub open spec fn divs_clocks(dividend: i32, divisor: i16) -> int {
    let m0: int = if dividend < 0 {
        7
    } else {
        6
    };
    let ad = abs_i32(dividend);
    let av = abs_i32(divisor as i32);
    if ad / 0x10000 >= av {
        (m0 + 2) * 2
    } else {
        let m1 = m0 + 55 + (if divisor >= 0 {
            if dividend >= 0 {
                -1int
            } else {
                1int
            }
        } else {
            0int
        });
        2 * divs_loop(((ad / av) % 0x10000) as u16, 15, m1)
    }
}

/// Quotient of a division rounded toward zero.
pub open spec fn trunc_div(a: int, b: int) -> int {
    let q = (if a < 0 {
        -a
    } else {
        a
    }) / (if b < 0 {
        -b
    } else {
        b
    });
    if (a < 0) != (b < 0) {
        -q
    } else {
        q
    }
}

/// Remainder of a division rounded toward zero: it has the dividend's
/// sign.
pub open spec fn trunc_rem(a: int, b: int) -> int {
    let r = (if a < 0 {
        -a
    } else {
        a
    }) % (if b < 0 {
        -b
    } else {
        b
    });
    if a < 0 {
        -r
    } else {
        r
    }
}

/// The loop adds at most two cycles per step.
pub proof fn lemma_divu_loop_bounds(d: u32, h: u32, steps: nat, m: int)
    ensures
        m <= divu_loop(d, h, steps, m) <= m + 2 * steps,
    decreases steps,
{
    if steps > 0 {
        let shifted = d << 1u32;
        lemma_divu_loop_bounds(shifted.wrapping_sub(h), h, (steps - 1) as nat, m);
        lemma_divu_loop_bounds(shifted.wrapping_sub(h), h, (steps - 1) as nat, m + 1);
        lemma_divu_loop_bounds(shifted, h, (steps - 1) as nat, m + 2);
    }
}

/// The loop adds at most one cycle per step.
pub proof fn lemma_divs_loop_bounds(q: u16, steps: nat, m: int)
    ensures
        m <= divs_loop(q, steps, m) <= m + steps,
    decreases steps,
{
    if steps > 0 {
        lemma_divs_loop_bounds(q << 1u16, (steps - 1) as nat, m);
        lemma_divs_loop_bounds(q << 1u16, (steps - 1) as nat, m + 1);
    }
}

/// Timing law of DIVU.W on the 68000: without early overflow the division
/// takes between 76 and 136 clocks; with it, 10.
pub proof fn lemma_divu_clock_range(dividend: u32, divisor: u16)
    ensures
        (dividend >> 16u32) >= divisor ==> divu_clocks(dividend, divisor) == 10,
        (dividend >> 16u32) < divisor ==> 76 <= divu_clocks(dividend, divisor) <= 136,
{
    lemma_divu_loop_bounds(dividend, (divisor as u32) << 16u32, 15, 38);
}

/// Timing law of DIVS.W on the 68000: without early overflow the division
/// takes between 120 and 156 clocks; with it, 16 or 18.
pub proof fn lemma_divs_clock_range(dividend: i32, divisor: i16)
    ensures
        16 <= divs_clocks(dividend, divisor) <= 156,
        abs_i32(dividend) / 0x10000 < abs_i32(divisor as i32) ==> 120 <= divs_clocks(dividend, divisor),
{
    let ad = abs_i32(dividend);
    let av = abs_i32(divisor as i32);
    if av > 0 && ad / 0x10000 < av {
        let m0: int = if dividend < 0 {
            7
        } else {
            6
        };
        let m1 = m0 + 55 + (if divisor >= 0 {
            if dividend >= 0 {
                -1int
            } else {
                1int
            }
        } else {
            0int
        });
        lemma_divs_loop_bounds(((ad / av) % 0x10000) as u16, 15, m1);
    }
}

/// Division law of the truncating quotient and remainder: the dividend is
/// rebuilt from them, and the remainder is smaller than the divisor.
pub proof fn lemma_trunc_div_rem(a: int, b: int)
    requires
        b != 0,
    ensures
        trunc_div(a, b) * b + trunc_rem(a, b) == a,
        0 <= (if trunc_rem(a, b) < 0 {
            -trunc_rem(a, b)
        } else {
            trunc_rem(a, b)
        }) < (if b < 0 {
            -b
        } else {
            b
        }),
        trunc_rem(a, b) != 0 ==> (trunc_rem(a, b) < 0) == (a < 0),
{
    let aa = if a < 0 {
        -a
    } else {
        a
    };
    let ab = if b < 0 {
        -b
    } else {
        b
    };
    let q = aa / ab;
    let r = aa % ab;
    vstd::arithmetic::div_mod::lemma_fundamental_div_mod(aa, ab);
    assert(aa == ab * q + r);
    if a < 0 && b < 0 {
        assert(trunc_div(a, b) * b == q * b);
        assert(q * b == -(q * ab)) by (nonlinear_arith)
            requires
                ab == -b,
        ;
    } else if a < 0 {
        assert(trunc_div(a, b) * b == (-q) * b);
        assert((-q) * b == -(q * ab)) by (nonlinear_arith)
            requires
                ab == b,
        ;
    } else if b < 0 {
        assert(trunc_div(a, b) * b == (-q) * b);
        assert((-q) * b == q * ab) by (nonlinear_arith)
            requires
                ab == -b,
        ;
    } else {
        assert(q * b == q * ab);
    }
    assert(q * ab == ab * q) by (nonlinear_arith);
}

/// One-bit count of a word.
fn count_ones16(v: u16) -> (r: u32)
    ensures
        r == ones16(v),
        r <= 16,
{
    let mut count: u32 = 0;
    let mut i: u16 = 0;
    while i < 16
        invariant
            i <= 16,
            count == bits_below(v, i as nat),
            count <= i,
        decreases 16 - i,
    {
        if v & (1u16 << i) != 0 {
            count = count + 1;
        }
        i = i + 1;
    }
    count
}

/// MULS multiplier-dependent cycle count (see [`transitions`]).
fn muls_transitions(src: u16) -> (r: u32)
    ensures
        r == transitions(src),
        r <= 16,
{
    let s = (src as u32) << 1u32;
    count_ones16(((s ^ (s >> 1u32)) & 0xFFFF) as u16)
}

/// Internal clocks of MULU: 34 plus two per one bit of the source.
fn mulu_internal_clocks(src: u16) -> (r: u32)
    ensures
        r == 34 + 2 * ones16(src),
{
    34 + 2 * count_ones16(src)
}

/// Internal clocks of MULS: 34 plus two per transition of the source.
fn muls_internal_clocks(src: u16) -> (r: u32)
    ensures
        r == 34 + 2 * transitions(src),
{
    34 + 2 * muls_transitions(src)
}

/// 68000 DIVU.W compute clocks (without the operand fetch).
fn divu_cycles(dividend: u32, divisor: u16) -> (r: i32)
    requires
        divisor != 0,
    ensures
        r == divu_clocks(dividend, divisor),
{
    let div = divisor as u32;
    if (dividend >> 16u32) >= div {
        return 10;
    }
    let hdivisor = div << 16u32;
    let mut mcycles: i32 = 38;
    let mut dividend = dividend;
    let ghost d0 = dividend;
    let mut i: u32 = 0;
    while i < 15
        invariant
            i <= 15,
            38 <= mcycles <= 38 + 2 * i,
            divu_loop(dividend, hdivisor, (15 - i) as nat, mcycles as int) == divu_loop(
                d0,
                hdivisor,
                15,
                38,
            ),
        decreases 15 - i,
    {
        let temp = dividend;
        dividend = dividend << 1u32;
        proof {
            assert(((temp as i32) < 0) == (temp >= 0x8000_0000)) by (bit_vector);
        }
        if (temp as i32) < 0 {
            dividend = dividend.wrapping_sub(hdivisor);
        } else {
            mcycles = mcycles + 2;
            if dividend >= hdivisor {
                dividend = dividend.wrapping_sub(hdivisor);
                mcycles = mcycles - 1;
            }
        }
        i = i + 1;
    }
    mcycles * 2
}

/// 68000 DIVS.W compute clocks (without the operand fetch).
fn divs_cycles(dividend: i32, divisor: i16) -> (r: i32)
    requires
        divisor != 0,
    ensures
        r == divs_clocks(dividend, divisor),
{
    let mut mcycles: i32 = 6;
    if dividend < 0 {
        mcycles = mcycles + 1;
    }
    let adivisor: u32 = if divisor < 0 {
        (-(divisor as i32)) as u32
    } else {
        divisor as u32
    };
    let adividend: u32 = if dividend < 0 {
        (-(dividend as i64)) as u32
    } else {
        dividend as u32
    };
    proof {
        assert(adividend >> 16u32 == adividend / 0x10000) by (bit_vector);
    }
    if (adividend >> 16u32) >= adivisor {
        return (mcycles + 2) * 2;
    }
    mcycles = mcycles + 55;
    if divisor >= 0 {
        if dividend >= 0 {
            mcycles = mcycles - 1;
        } else {
            mcycles = mcycles + 1;
        }
    }
    let aquotient = adividend / adivisor;
    let mut q = (aquotient & 0xFFFF) as u16;
    proof {
        assert(aquotient & 0xFFFF == aquotient % 0x10000) by (bit_vector);
    }
    let ghost q0 = q;
    let ghost m1 = mcycles as int;
    let mut i: u32 = 0;
    while i < 15
        invariant
            i <= 15,
            m1 <= mcycles <= m1 + i,
            m1 <= 63,
            divs_loop(q, (15 - i) as nat, mcycles as int) == divs_loop(q0, 15, m1),
        decreases 15 - i,
    {
        proof {
            assert(((q as i16) >= 0) == (q < 0x8000)) by (bit_vector);
        }
        if (q as i16) >= 0 {
            mcycles = mcycles + 1;
        }
        q = q << 1u16;
        i = i + 1;
    }
    mcycles * 2
}

/// Result of MULU/MULS into `dst`: the register holds `product`, N and Z
/// come from it, V and C are clear, X is kept.
pub open spec fn mul_effect(old: CpuCore, new: CpuCore, dst: int, product: u32) -> bool {
    &&& new.dar[dst] == product
    &&& new.not_z_flag == product
    &&& new.n_flag == (if product & 0x8000_0000 != 0 {
        0x80u32
    } else {
        0u32
    })
    &&& new.v_flag == 0
    &&& new.c_flag == 0
    &&& new.x_flag == old.x_flag
}

/// Clocks of MULU for source word `s` from `mode`.
pub open spec fn mulu_cycles(t: CpuType, mode: AddressingMode, s: u16) -> int {
    if t == CpuType::M68000 {
        38 + 2 * ones16(s) + ea_time_spec(mode, Size::Word)
    } else {
        42
    }
}

/// Clocks of MULS for source word `s` from `mode`.
pub open spec fn muls_cycles(t: CpuType, mode: AddressingMode, s: u16) -> int {
    if t == CpuType::M68000 {
        38 + 2 * transitions(s) + ea_time_spec(mode, Size::Word)
    } else {
        42
    }
}

/// The word a register-direct source holds.
pub open spec fn reg_source(cpu: CpuCore, mode: AddressingMode) -> u32 {
    if mode is DataDirect {
        cpu.dar[mode->DataDirect_0 as int] & 0xFFFF
    } else {
        cpu.dar[8 + mode->AddressDirect_0] & 0xFFFF
    }
}

impl CpuCore {
    /// 68000 multiply: the final prefetch precedes the multiplier's
    /// internal clocks.
    #[verifier::rlimit(40)]
    fn finish_m68000_mul<B: AddressBus>(&mut self, bus: &mut B, internal_clocks: u32)
        ensures
            *final(self) == (CpuCore {
                prefetch_queue: final(self).prefetch_queue,
                prefetch_count: final(self).prefetch_count,
                pending_sync_clocks: final(self).pending_sync_clocks,
                ..*old(self)
            }),
            final(self).pending_sync_clocks == 0,
            old(self).is_pre_68020 && old(self).prefetch_count < 2 ==> final(self).prefetch_count == 2,
            final(bus).events() == old(bus).events() + finish_events(*old(self), *final(self), internal_clocks, false),
    {
        self.top_up_prefetch(bus);
        self.internal_cycles(internal_clocks);
        self.flush_sync(bus);
    }

    /// MULU <ea>,Dn: unsigned 16x16 -> 32. The product is exact.
    pub fn exec_mulu<B: AddressBus>(&mut self, bus: &mut B, mode: AddressingMode, dst_reg: usize) -> (r: i32)
        requires
            mode_ok(mode),
            dst_reg < 8,
        ensures
            final(self).run_mode == RUN_MODE_BERR_AERR_RESET ==> r == 50,
            final(self).run_mode != RUN_MODE_BERR_AERR_RESET ==> exists|s: u32|
                s <= 0xFFFF && #[trigger] mul_effect(
                    *old(self),
                    *final(self),
                    dst_reg as int,
                    (s * (old(self).dar[dst_reg as int] & 0xFFFF)) as u32,
                ) && r == mulu_cycles(old(self).cpu_type, mode, s as u16),
            final(self).run_mode != RUN_MODE_BERR_AERR_RESET && (mode is DataDirect
                || mode is AddressDirect) ==> mul_effect(
                *old(self),
                *final(self),
                dst_reg as int,
                (reg_source(*old(self), mode) * (old(self).dar[dst_reg as int] & 0xFFFF)) as u32,
            ),
            (mode is DataDirect || mode is AddressDirect) && old(self).cpu_type == CpuType::M68000
                && old(self).run_mode != RUN_MODE_BERR_AERR_RESET ==> m68000_finished(*old(self), *final(self))
                && final(bus).events() == old(bus).events() + finish_events(
                *old(self),
                *final(self),
                (34 + 2 * ones16(reg_source(*old(self), mode) as u16)) as u32,
                false,
            ),
            (mode is DataDirect || mode is AddressDirect) && old(self).cpu_type != CpuType::M68000
                ==> final(bus).events() == old(bus).events(),
    {
        let raw = self.read_ea(bus, mode, Size::Word);
        proof {
            crate::types::lemma_mask_bounds(raw);
        }
        let src = raw & 0xFFFF;
        if self.run_mode == RUN_MODE_BERR_AERR_RESET {
            return 50;
        }
        let draw = self.d(dst_reg);
        proof {
            crate::types::lemma_mask_bounds(draw);
        }
        let dst = draw & 0xFFFF;
        proof {
            assert(src * dst <= 0xFFFF * 0xFFFF) by (nonlinear_arith)
                requires
                    src <= 0xFFFF,
                    dst <= 0xFFFF,
            ;
            crate::types::lemma_mask_bounds(old(self).dar[mode->DataDirect_0 as int]);
            crate::types::lemma_mask_bounds(old(self).dar[8 + mode->AddressDirect_0]);
        }
        let result = src * dst;
        if self.cpu_type == CpuType::M68000 {
            self.finish_m68000_mul(bus, mulu_internal_clocks(src as u16));
        }
        self.set_d(dst_reg, result);
        self.not_z_flag = result;
        self.n_flag = if result & 0x8000_0000 != 0 {
            0x80
        } else {
            0
        };
        self.v_flag = 0;
        self.c_flag = 0;
        let cycles = if self.cpu_type == CpuType::M68000 {
            38 + 2 * count_ones16(src as u16) as i32 + self.ea_source_cycles(mode, Size::Word)
        } else {
            42
        };
        proof {
            assert(mul_effect(*old(self), *self, dst_reg as int, (src * (old(self).dar[dst_reg as int] & 0xFFFF)) as u32));
        }
        cycles
    }

    /// MULS <ea>,Dn: signed 16x16 -> 32. The product is exact.
    pub fn exec_muls<B: AddressBus>(&mut self, bus: &mut B, mode: AddressingMode, dst_reg: usize) -> (r: i32)
        requires
            mode_ok(mode),
            dst_reg < 8,
        ensures
            final(self).run_mode == RUN_MODE_BERR_AERR_RESET ==> r == 50,
            final(self).run_mode != RUN_MODE_BERR_AERR_RESET ==> exists|s: i16|
                #[trigger] mul_effect(
                    *old(self),
                    *final(self),
                    dst_reg as int,
                    (s as int * (old(self).dar[dst_reg as int] as i16) as int) as i32 as u32,
                ) && r == muls_cycles(old(self).cpu_type, mode, s as u16),
            final(self).run_mode != RUN_MODE_BERR_AERR_RESET && (mode is DataDirect
                || mode is AddressDirect) ==> mul_effect(
                *old(self),
                *final(self),
                dst_reg as int,
                ((reg_source(*old(self), mode) as u16 as i16) as int * (old(self).dar[dst_reg as int] as i16) as int) as i32 as u32,
            ),
            (mode is DataDirect || mode is AddressDirect) && old(self).cpu_type == CpuType::M68000
                && old(self).run_mode != RUN_MODE_BERR_AERR_RESET ==> m68000_finished(*old(self), *final(self))
                && final(bus).events() == old(bus).events() + finish_events(
                *old(self),
                *final(self),
                (34 + 2 * transitions((reg_source(*old(self), mode) as i16) as u16)) as u32,
                false,
            ),
            (mode is DataDirect || mode is AddressDirect) && old(self).cpu_type != CpuType::M68000
                ==> final(bus).events() == old(bus).events(),
    {
        let src16 = self.read_ea(bus, mode, Size::Word) as i16;
        let src = src16 as i32;
        if self.run_mode == RUN_MODE_BERR_AERR_RESET {
            return 50;
        }
        let dst = self.d(dst_reg) as i16 as i32;
        proof {
            assert(-32768 * 32767 <= src * dst <= 32768 * 32768) by (nonlinear_arith)
                requires
                    -32768 <= src <= 32767,
                    -32768 <= dst <= 32767,
            ;
            crate::types::lemma_mask_bounds(self.dar[mode->DataDirect_0 as int]);
            crate::types::lemma_mask_bounds(self.dar[8 + mode->AddressDirect_0]);
        }
        let result = (src * dst) as u32;
        if self.cpu_type == CpuType::M68000 {
            self.finish_m68000_mul(bus, muls_internal_clocks(src as u16));
        }
        self.set_d(dst_reg, result);
        self.not_z_flag = result;
        self.n_flag = if result & 0x8000_0000 != 0 {
            0x80
        } else {
            0
        };
        self.v_flag = 0;
        self.c_flag = 0;
        let cycles = if self.cpu_type == CpuType::M68000 {
            38 + 2 * muls_transitions(src as u16) as i32 + self.ea_source_cycles(mode, Size::Word)
        } else {
            42
        };
        proof {
            assert(src as u16 == src16 as u16);
            assert((src16 as u16 as i16) == src16) by (bit_vector);
            let ghost p = (src16 as int * (old(self).dar[dst_reg as int] as i16) as int) as i32 as u32;
            assert(dst == (old(self).dar[dst_reg as int] as i16) as int);
            assert(src == src16 as int);
            assert(result == p);
            assert(self.dar[dst_reg as int] == p);
            assert(mul_effect(*old(self), *self, dst_reg as int, p));
        }
        cycles
    }
}

/// Outcome of DIVU.W of register `dst` by the source word `s`; a zero
/// divisor traps and leaves the register as it was.
pub open spec fn divu_outcome(old: CpuCore, new: CpuCore, dst: int, mode: AddressingMode, s: u32, r: i32) -> bool {
    let d = old.dar[dst];
    if s == 0 {
        r == 38 && new.s_flag == 4 && new.dar[dst] == old.dar[dst]
    } else {
        let q = d / s;
        let rem = d % s;
        &&& r == (if old.cpu_type == CpuType::M68000 {
            divu_clocks(d, s as u16) + ea_time_spec(mode, Size::Word)
        } else {
            140
        })
        &&& if q >= 0x10000 {
            &&& new.dar[dst] == d
            &&& new.v_flag == 0x80
            &&& old.sst_m68000_compat ==> new.n_flag == 0x80 && new.not_z_flag == 1 && new.c_flag == 0
        } else {
            &&& new.dar[dst] == (rem << 16u32) | q
            &&& new.not_z_flag == q
            &&& new.n_flag == (if q & 0x8000 != 0 {
                0x80u32
            } else {
                0u32
            })
            &&& new.v_flag == 0
            &&& new.c_flag == 0
        }
    }
}

/// Outcome of DIVS.W of register `dst` by the source word `s`; a zero
/// divisor traps and leaves the register as it was.
pub open spec fn divs_outcome(old: CpuCore, new: CpuCore, dst: int, mode: AddressingMode, s: i16, r: i32) -> bool {
    let d = old.dar[dst] as i32;
    if s == 0 {
        r == 38 && new.s_flag == 4 && new.dar[dst] == old.dar[dst]
    } else {
        let q = trunc_div(d as int, s as int);
        let rem = trunc_rem(d as int, s as int);
        &&& r == (if old.cpu_type == CpuType::M68000 {
            divs_clocks(d, s) + ea_time_spec(mode, Size::Word)
        } else {
            158
        })
        &&& if d == i32::MIN && s == -1 {
            &&& new.dar[dst] == 0
            &&& new.not_z_flag == 0 && new.n_flag == 0 && new.v_flag == 0 && new.c_flag == 0
        } else if !(-32768 <= q <= 32767) {
            &&& new.dar[dst] == old.dar[dst]
            &&& new.v_flag == 0x80
            &&& old.sst_m68000_compat ==> new.n_flag == 0x80 && new.not_z_flag == 1 && new.c_flag == 0
        } else {
            let qw = q as i16 as u16 as u32;
            &&& new.dar[dst] == ((rem as i16 as u16 as u32) << 16u32) | qw
            &&& new.not_z_flag == qw
            &&& new.n_flag == (if qw & 0x8000 != 0 {
                0x80u32
            } else {
                0u32
            })
            &&& new.v_flag == 0
            &&& new.c_flag == 0
        }
    }
}

/// Outcome of DIVU.W whose word source is read from memory or an
/// immediate: the source resolves to `ea` (from state `mid`); a source
/// address the bus cannot take raises an address error and the instruction
/// ends with 50 clocks, and otherwise the division runs on the word read.
pub open spec fn divu_source_outcome(
    old: CpuCore,
    new: CpuCore,
    dst: int,
    mode: AddressingMode,
    ea: EaResult,
    mid: CpuCore,
    r: i32,
) -> bool {
    &&& resolved(old, mid, mode, Size::Word, ea)
    &&& if source_faults(mid, ea, Size::Word) {
        r == 50 && address_error_taken(mid, new)
    } else {
        r != 50 && exists|s: u32| s <= 0xFFFF && #[trigger] divu_outcome(old, new, dst, mode, s, r)
    }
}

/// Outcome of DIVS.W whose word source is read from memory or an
/// immediate, as for DIVU.W.
pub open spec fn divs_source_outcome(
    old: CpuCore,
    new: CpuCore,
    dst: int,
    mode: AddressingMode,
    ea: EaResult,
    mid: CpuCore,
    r: i32,
) -> bool {
    &&& resolved(old, mid, mode, Size::Word, ea)
    &&& if source_faults(mid, ea, Size::Word) {
        r == 50 && address_error_taken(mid, new)
    } else {
        r != 50 && exists|s: i16| #[trigger] divs_outcome(old, new, dst, mode, s, r)
    }
}

/// Two words packed into a long word read back unchanged.
pub proof fn lemma_pack_words(hi: u32, lo: u32)
    by (bit_vector)
    requires
        hi <= 0xFFFF,
        lo <= 0xFFFF,
    ensures
        ((hi << 16u32) | lo) & 0xFFFF == lo,
        ((hi << 16u32) | lo) >> 16u32 == hi,
{
}

/// Division law of DIVU.W: when the quotient fits a word, the result's
/// low word times the divisor plus its high word is the dividend, and the
/// high word is below the divisor.
pub proof fn lemma_divu_result(d: u32, s: u32)
    requires
        0 < s <= 0xFFFF,
        d / s < 0x10000,
    ensures
        ({
            let v = ((d % s) << 16u32) | (d / s);
            &&& (v & 0xFFFF) * s + (v >> 16u32) == d
            &&& (v >> 16u32) < s
        }),
{
    vstd::arithmetic::div_mod::lemma_fundamental_div_mod(d as int, s as int);
    lemma_pack_words(d % s, d / s);
    assert((d / s) * s == s * (d / s)) by (nonlinear_arith);
}

/// Division law of DIVS.W: when the quotient fits a signed word, the
/// result's low word (signed) times the divisor plus its high word
/// (signed) is the dividend; the remainder is smaller than the divisor
/// and has the dividend's sign.
pub proof fn lemma_divs_result(d: i32, s: i16)
    requires
        s != 0,
        -32768 <= trunc_div(d as int, s as int) <= 32767,
    ensures
        trunc_div(d as int, s as int) * s + trunc_rem(d as int, s as int) == d,
        -32768 <= trunc_rem(d as int, s as int) <= 32767,
        trunc_rem(d as int, s as int) != 0 ==> (trunc_rem(d as int, s as int) < 0) == (d < 0),
{
    lemma_trunc_div_rem(d as int, s as int);
}

impl CpuCore {
    /// DIVU <ea>,Dn: unsigned 32/16. A zero divisor traps (the 68000 first
    /// spends eight internal clocks); a quotient over 16 bits sets V and
    /// leaves Dn; otherwise Dn = remainder:quotient.
    pub fn exec_divu<B: AddressBus>(&mut self, bus: &mut B, mode: AddressingMode, dst_reg: usize) -> (r: i32)
        requires
            mode_ok(mode),
            dst_reg < 8,
        ensures
            old(self).run_mode == RUN_MODE_BERR_AERR_RESET ==> r == 50,
            old(self).run_mode != RUN_MODE_BERR_AERR_RESET ==> exists|ea: EaResult, mid: CpuCore|
                #[trigger] divu_source_outcome(*old(self), *final(self), dst_reg as int, mode, ea, mid, r),
            old(self).run_mode != RUN_MODE_BERR_AERR_RESET && (mode is DataDirect
                || mode is AddressDirect) ==> divu_outcome(
                *old(self),
                *final(self),
                dst_reg as int,
                mode,
                reg_source(*old(self), mode),
                r,
            ),
    {
        let raw = self.read_ea(bus, mode, Size::Word);
        let ghost (ea0, mid0) = choose|ea: EaResult, mid: CpuCore|
            resolved(*old(self), mid, mode, Size::Word, ea) && read_effects(mid, *self, ea, Size::Word, raw);
        proof {
            crate::types::lemma_mask_bounds(raw);
            crate::types::lemma_mask_bounds(old(self).dar[mode->DataDirect_0 as int]);
            crate::types::lemma_mask_bounds(old(self).dar[8 + mode->AddressDirect_0]);
        }
        let src = raw & 0xFFFF;
        if self.run_mode == RUN_MODE_BERR_AERR_RESET {
            proof {
                if old(self).run_mode != RUN_MODE_BERR_AERR_RESET {
                    assert(source_faults(mid0, ea0, Size::Word));
                    assert(divu_source_outcome(*old(self), *self, dst_reg as int, mode, ea0, mid0, 50));
                }
            }
            return 50;
        }
        proof {
            assert(!source_faults(mid0, ea0, Size::Word));
        }
        let dst = self.d(dst_reg);
        let m68000 = self.cpu_type == CpuType::M68000;
        if src == 0 {
            if m68000 {
                self.internal_cycles(8);
            }
            let r = self.exception_zero_divide(bus);
            proof {
                assert(divu_outcome(*old(self), *self, dst_reg as int, mode, src, r));
                assert(divu_source_outcome(*old(self), *self, dst_reg as int, mode, ea0, mid0, r));
            }
            return r;
        }
        let div_clocks = if m68000 {
            divu_cycles(dst, src as u16)
        } else {
            140
        };
        proof {
            lemma_divu_clock_range(dst, src as u16);
        }
        let cycles = if m68000 {
            div_clocks + self.ea_source_cycles(mode, Size::Word)
        } else {
            140
        };
        if m68000 {
            self.top_up_prefetch(bus);
            if div_clocks > 4 {
                self.internal_cycles((div_clocks - 4) as u32);
                self.flush_sync(bus);
            }
        }
        let quotient = dst / src;
        let remainder = dst % src;
        if quotient >= 0x10000 {
            self.v_flag = 0x80;
            if self.sst_m68000_compat {
                self.n_flag = 0x80;
                self.not_z_flag = 1;
                self.c_flag = 0;
            }
            proof {
                assert(divu_outcome(*old(self), *self, dst_reg as int, mode, src, cycles));
                assert(divu_source_outcome(*old(self), *self, dst_reg as int, mode, ea0, mid0, cycles));
            }
            return cycles;
        }
        proof {
            assert(remainder < 0x10000);
        }
        self.set_d(dst_reg, (remainder << 16u32) | (quotient & 0xFFFF));
        proof {
            crate::types::lemma_merge_low(0, quotient);
        }
        self.not_z_flag = quotient;
        self.n_flag = if quotient & 0x8000 != 0 {
            0x80
        } else {
            0
        };
        self.v_flag = 0;
        self.c_flag = 0;
        proof {
            assert(divu_outcome(*old(self), *self, dst_reg as int, mode, src, cycles));
                assert(divu_source_outcome(*old(self), *self, dst_reg as int, mode, ea0, mid0, cycles));
        }
        cycles
    }

    /// DIVS <ea>,Dn: signed 32/16 rounding toward zero. A zero divisor
    /// traps; `0x80000000 / -1` leaves Dn = 0 with clear flags; a quotient
    /// outside a signed word sets V and leaves Dn; otherwise Dn =
    /// remainder:quotient.
    pub fn exec_divs<B: AddressBus>(&mut self, bus: &mut B, mode: AddressingMode, dst_reg: usize) -> (r: i32)
        requires
            mode_ok(mode),
            dst_reg < 8,
        ensures
            old(self).run_mode == RUN_MODE_BERR_AERR_RESET ==> r == 50,
            old(self).run_mode != RUN_MODE_BERR_AERR_RESET ==> exists|ea: EaResult, mid: CpuCore|
                #[trigger] divs_source_outcome(*old(self), *final(self), dst_reg as int, mode, ea, mid, r),
            old(self).run_mode != RUN_MODE_BERR_AERR_RESET && (mode is DataDirect
                || mode is AddressDirect) ==> divs_outcome(
                *old(self),
                *final(self),
                dst_reg as int,
                mode,
                reg_source(*old(self), mode) as u16 as i16,
                r,
            ),
    {
        let raw = self.read_ea(bus, mode, Size::Word);
        let ghost (ea0, mid0) = choose|ea: EaResult, mid: CpuCore|
            resolved(*old(self), mid, mode, Size::Word, ea) && read_effects(mid, *self, ea, Size::Word, raw);
        let src16 = raw as i16;
        let src = src16 as i32;
        proof {
            crate::types::lemma_mask_bounds(old(self).dar[mode->DataDirect_0 as int]);
            crate::types::lemma_mask_bounds(old(self).dar[8 + mode->AddressDirect_0]);
            let rs = reg_source(*old(self), mode);
            if mode is DataDirect || mode is AddressDirect {
                assert(raw == rs);
                assert((rs as i16) == (rs as u16 as i16)) by (bit_vector)
                    requires
                        rs <= 0xFFFF,
                ;
            }
        }
        if self.run_mode == RUN_MODE_BERR_AERR_RESET {
            proof {
                if old(self).run_mode != RUN_MODE_BERR_AERR_RESET {
                    assert(source_faults(mid0, ea0, Size::Word));
                    assert(divs_source_outcome(*old(self), *self, dst_reg as int, mode, ea0, mid0, 50));
                }
            }
            return 50;
        }
        proof {
            assert(!source_faults(mid0, ea0, Size::Word));
        }
        let dst = self.d(dst_reg) as i32;
        let m68000 = self.cpu_type == CpuType::M68000;
        if src == 0 {
            if m68000 {
                self.internal_cycles(8);
            }
            let r = self.exception_zero_divide(bus);
            proof {
                assert(divs_outcome(*old(self), *self, dst_reg as int, mode, src16, r));
                assert(divs_source_outcome(*old(self), *self, dst_reg as int, mode, ea0, mid0, r));
            }
            return r;
        }
        let div_clocks = if m68000 {
            divs_cycles(dst, src16)
        } else {
            158
        };
        proof {
            lemma_divs_clock_range(dst, src16);
        }
        let cycles = if m68000 {
            div_clocks + self.ea_source_cycles(mode, Size::Word)
        } else {
            158
        };
        if m68000 {
            self.top_up_prefetch(bus);
            if div_clocks > 4 {
                self.internal_cycles((div_clocks - 4) as u32);
                self.flush_sync(bus);
            }
        }
        if dst == i32::MIN && src == -1 {
            self.set_d(dst_reg, 0);
            self.not_z_flag = 0;
            self.n_flag = 0;
            self.v_flag = 0;
            self.c_flag = 0;
            proof {
                assert(divs_outcome(*old(self), *self, dst_reg as int, mode, src16, cycles));
                assert(divs_source_outcome(*old(self), *self, dst_reg as int, mode, ea0, mid0, cycles));
            }
            return cycles;
        }
        let neg_d = dst < 0;
        let neg_s = src < 0;
        let ad: u32 = if neg_d {
            (-(dst as i64)) as u32
        } else {
            dst as u32
        };
        let av: u32 = if neg_s {
            (-src) as u32
        } else {
            src as u32
        };
        let aq = ad / av;
        let ar = ad % av;
        let quotient: i64 = if neg_d != neg_s {
            -(aq as i64)
        } else {
            aq as i64
        };
        let remainder: i64 = if neg_d {
            -(ar as i64)
        } else {
            ar as i64
        };
        proof {
            assert(quotient == trunc_div(dst as int, src as int));
            assert(remainder == trunc_rem(dst as int, src as int));
            lemma_trunc_div_rem(dst as int, src as int);
        }
        if !(-32768 <= quotient && quotient <= 32767) {
            self.v_flag = 0x80;
            if self.sst_m68000_compat {
                self.n_flag = 0x80;
                self.not_z_flag = 1;
                self.c_flag = 0;
            }
            proof {
                assert(divs_outcome(*old(self), *self, dst_reg as int, mode, src16, cycles));
                assert(divs_source_outcome(*old(self), *self, dst_reg as int, mode, ea0, mid0, cycles));
            }
            return cycles;
        }
        let quotient_u16 = quotient as i16 as u16 as u32;
        let remainder_u16 = remainder as i16 as u16 as u32;
        self.set_d(dst_reg, (remainder_u16 << 16u32) | quotient_u16);
        self.not_z_flag = quotient_u16;
        self.n_flag = if quotient_u16 & 0x8000 != 0 {
            0x80
        } else {
            0
        };
        self.v_flag = 0;
        self.c_flag = 0;
        proof {
            assert(divs_outcome(*old(self), *self, dst_reg as int, mode, src16, cycles));
                assert(divs_source_outcome(*old(self), *self, dst_reg as int, mode, ea0, mid0, cycles));
        }
        cycles
    }
}

} // verus!
