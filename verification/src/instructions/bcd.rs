//! Binary-coded decimal: ABCD, SBCD, NBCD, PACK, UNPK.

use vstd::prelude::*;
use crate::cpu::{CpuCore, CFLAG_SET, NFLAG_SET, XFLAG_SET, RUN_MODE_BERR_AERR_RESET};
use crate::ea::{AddressingMode, EaResult, mode_ok, ea_ok};
use crate::flags::with_ccr;
use crate::instructions::integer_arith::{reg_frame, m68000_finished};
use crate::memory::{AddressBus, BusEvent};
use crate::mem_ops::{finish_events, refill_events};
use crate::types::{CpuType, Size, lemma_mask_bounds, lemma_merge_low};
use crate::ea::{ea_step, ea_time_spec, resolved};
use crate::instructions::integer_arith::sized_write;
use crate::instructions::data_movement::{read_effects, write_effects, direct_value, read_event, read_logged};
use crate::mem_ops::{access_faults, refilled};
use crate::cpu::flushed;

verus! {

/// Value of a packed-BCD byte whose two nibbles are decimal digits.
pub open spec fn bcd_value(v: u32) -> int {
    ((v >> 4u32) & 0xF) * 10 + (v & 0xF)
}

/// The packed-BCD byte of `n` (0..99).
pub open spec fn to_bcd(n: int) -> u32 {
    (((n / 10) as u32) << 4u32) | ((n % 10) as u32)
}

/// Both nibbles of the low byte of `v` are decimal digits.
pub open spec fn is_bcd(v: u32) -> bool {
    v <= 0xFF && (v & 0xF) <= 9 && ((v >> 4u32) & 0xF) <= 9
}

/// The extend bit as a number.
pub open spec fn xb(x: u32) -> u32 {
    if x != 0 {
        1
    } else {
        0
    }
}

/// ABCD on the hardware model: the low digit gets +6 when the digit sum
/// exceeds 9; the +0x60 correction and the carry come from the corrected
/// sum's upper bits. Returns (uncorrected sum, corrected sum, carry).
pub open spec fn abcd_model(src: u32, dst: u32, x: u32) -> (u32, u32, bool) {
    let lo = (src & 0x0F) + (dst & 0x0F) + xb(x);
    let hi = (src & 0xF0) + (dst & 0xF0);
    let tmp = (hi + lo) as u32;
    let newv = if lo > 9 {
        (tmp + 6) as u32
    } else {
        tmp
    };
    let carry = newv & 0x3F0 > 0x90;
    (tmp, if carry {
        (newv + 0x60) as u32
    } else {
        newv
    }, carry)
}

/// SBCD on the hardware model: the low digit gets -6 only on a digit
/// borrow, and the -0x60 correction follows the uncorrected byte borrow.
/// Returns (uncorrected difference, corrected difference, borrow).
pub open spec fn sbcd_model(src: u32, dst: u32, x: u32) -> (u16, u16, bool) {
    let newv_lo = ((dst & 0x0F) as u16).wrapping_sub((src & 0x0F) as u16).wrapping_sub(
        xb(x) as u16,
    );
    let newv_hi = ((dst & 0xF0) as u16).wrapping_sub((src & 0xF0) as u16);
    let tmp = newv_hi.wrapping_add(newv_lo);
    let bcd: u32 = if newv_lo & 0xF0 != 0 {
        6
    } else {
        0
    };
    let v1 = if newv_lo & 0xF0 != 0 {
        tmp.wrapping_sub(6)
    } else {
        tmp
    };
    let v2 = if dst.wrapping_sub(src).wrapping_sub(xb(x)) & 0x100 != 0 {
        v1.wrapping_sub(0x60)
    } else {
        v1
    };
    let carry = dst.wrapping_sub(src).wrapping_sub(bcd).wrapping_sub(xb(x)) & 0x300 != 0;
    (tmp, v2, carry)
}

/// NBCD on the hardware model (`0 - dst - X`). Returns (uncorrected,
/// corrected, borrow).
pub open spec fn nbcd_model(dst: u32, x: u32) -> (u16, u16, bool) {
    let d8 = (dst & 0xFF) as u16;
    let newv_lo = 0u16.wrapping_sub(d8 & 0x0F).wrapping_sub(xb(x) as u16);
    let newv_hi = 0u16.wrapping_sub(d8 & 0xF0);
    let tmp = newv_hi.wrapping_add(newv_lo);
    let corrected_lo = if newv_lo > 9 {
        newv_lo.wrapping_sub(6)
    } else {
        newv_lo
    };
    let newv = newv_hi.wrapping_add(corrected_lo);
    let carry = (newv & 0x1F0) > 0x90;
    (tmp, if carry {
        newv.wrapping_sub(0x60)
    } else {
        newv
    }, carry)
}

/// Undefined-flag policy level of a model: 0 for the 68000/010 (N and V
/// from the corrections), 2 for the 020/030 (N derived, V cleared), 4 for
/// the 040/060 (N and V unchanged).
pub open spec fn bcd_level(t: CpuType) -> u8 {
    match t {
        CpuType::Invalid | CpuType::M68000 | CpuType::M68010 | CpuType::SCC68070 => 0,
        CpuType::M68EC020 | CpuType::M68020 | CpuType::M68EC030 | CpuType::M68030 => 2,
        _ => 4,
    }
}

/// The condition codes after a BCD operation with result `res8`, carry
/// `carry` and 68000-style overflow `v_set`. Z is sticky on every model.
pub open spec fn bcd_ccr(old: CpuCore, new: CpuCore, res8: u32, carry: bool, v_set: bool) -> bool {
    let c: u32 = if carry {
        0x100
    } else {
        0
    };
    let level = bcd_level(old.cpu_type);
    with_ccr(
        old,
        new,
        c,
        if level < 4 {
            if res8 & 0x80 != 0 {
                0x80
            } else {
                0
            }
        } else {
            old.n_flag
        },
        old.not_z_flag | res8,
        if level < 4 {
            if level < 2 && v_set {
                0x80
            } else {
                0
            }
        } else {
            old.v_flag
        },
        c,
    )
}

/// ABCD result byte and flags, for either BCD model the CPU is set to.
pub open spec fn abcd_effect(old: CpuCore, new: CpuCore, src: u32, dst: u32, r: u32) -> bool {
    if old.sst_m68000_compat {
        let (res, carry) = abcd_sst_model(src, dst, old.x_flag);
        let c: u32 = if carry {
            0x100
        } else {
            0
        };
        r == res && with_ccr(
            old,
            new,
            c,
            old.n_flag,
            if res != 0 {
                res
            } else {
                old.not_z_flag
            },
            old.v_flag,
            c,
        )
    } else {
        let (tmp, newv, carry) = abcd_model(src, dst, old.x_flag);
        r == newv & 0xFF && bcd_ccr(old, new, newv & 0xFF, carry, (tmp & 0x80) == 0 && (newv & 0x80) != 0)
    }
}

/// SBCD result byte and flags, for either BCD model the CPU is set to.
pub open spec fn sbcd_effect(old: CpuCore, new: CpuCore, src: u32, dst: u32, r: u32) -> bool {
    if old.sst_m68000_compat {
        let (res, carry) = sbcd_sst_model(src, dst, old.x_flag);
        let c: u32 = if carry {
            0x100
        } else {
            0
        };
        r == res && with_ccr(
            old,
            new,
            c,
            old.n_flag,
            if res != 0 {
                res
            } else {
                old.not_z_flag
            },
            old.v_flag,
            c,
        )
    } else {
        let (tmp, newv, carry) = sbcd_model(src & 0xFF, dst & 0xFF, old.x_flag);
        r == (newv & 0xFF) as u32 && bcd_ccr(
            old,
            new,
            (newv & 0xFF) as u32,
            carry,
            (tmp & 0x80) != 0 && (newv & 0x80) == 0,
        )
    }
}

/// NBCD result byte and flags, for either BCD model the CPU is set to.
pub open spec fn nbcd_effect(old: CpuCore, new: CpuCore, dst: u32, r: u32) -> bool {
    if old.sst_m68000_compat {
        sbcd_effect(old, new, dst, 0, r)
    } else {
        let (tmp, newv, carry) = nbcd_model(dst, old.x_flag);
        r == (newv & 0xFF) as u32 && bcd_ccr(
            old,
            new,
            (newv & 0xFF) as u32,
            carry,
            (tmp & 0x80) != 0 && (newv & 0x80) == 0,
        )
    }
}

/// `new` with the register file and the bus-sequencing state put back to
/// those of `old`: what is left is the effect on the condition codes.
pub open spec fn seq_restored(old: CpuCore, new: CpuCore) -> CpuCore {
    CpuCore {
        dar: old.dar,
        pc: old.pc,
        prefetch_queue: old.prefetch_queue,
        prefetch_count: old.prefetch_count,
        pending_sync_clocks: old.pending_sync_clocks,
        ..new
    }
}

/// Register file after the two byte pre-decrements of a memory-to-memory
/// BCD/PACK/UNPK form: first the source, then the destination register.
pub open spec fn predec_pair(dar: Seq<u32>, src: int, src_step: u32, dst: int, dst_step: u32) -> Seq<u32> {
    let a1 = dar.update(8 + src, dar[8 + src].wrapping_sub(src_step));
    a1.update(8 + dst, a1[8 + dst].wrapping_sub(dst_step))
}

/// PACK: the low nibbles of the two bytes of `v` side by side.
pub open spec fn pack_word(v: u16) -> u32 {
    (((v >> 4u16) & 0xF0) | (v & 0x0F)) as u32
}

/// UNPK: the two nibbles of the byte `b` spread into the two bytes of a
/// word.
pub open spec fn unpack_byte(b: u32) -> u32 {
    (((b >> 4u32) & 0xF) << 8u32) | (b & 0xF)
}

/// The SingleStepTests ABCD: carry threshold 0x9F. Returns (byte, carry).
pub open spec fn abcd_sst_model(src: u32, dst: u32, x: u32) -> (u32, bool) {
    let s = src & 0xFF;
    let d = dst & 0xFF;
    let lo = (s & 0x0F) + (d & 0x0F) + xb(x);
    let res = s + d + xb(x) + (if lo > 9 {
        6int
    } else {
        0int
    });
    let carry = res > 0x9F;
    ((((if carry {
        res + 0x60
    } else {
        res
    }) as u32) & 0xFF), carry)
}

/// The SingleStepTests SBCD. Returns (byte, borrow).
pub open spec fn sbcd_sst_model(src: u32, dst: u32, x: u32) -> (u32, bool) {
    let s = (src & 0xFF) as int;
    let d = (dst & 0xFF) as int;
    let base = d - s - xb(x);
    let low_borrow = ((dst & 0x0F) as int) - ((src & 0x0F) as int) - xb(x) < 0;
    let borrow = base < 0;
    let res = base - (if low_borrow {
        6int
    } else {
        0int
    });
    let xc = res < 0 || borrow;
    let fin = res - (if borrow {
        0x60int
    } else {
        0int
    });
    (((fin % 0x1_0000_0000) as u32) & 0xFF, xc)
}

/// Decimal digit addition of two BCD bytes with carry-in `xx`:
/// (high digit, low digit, carry out).
pub open spec fn digit_add(src: u32, dst: u32, xx: u32) -> (int, int, bool) {
    let ls = (src & 0xF) + (dst & 0xF) + xx;
    let lc = ls > 9;
    let ld = if lc {
        ls - 10
    } else {
        ls as int
    };
    let hs = ((src >> 4u32) & 0xF) + ((dst >> 4u32) & 0xF) + (if lc {
        1int
    } else {
        0int
    });
    let hc = hs > 9;
    (if hc {
        hs - 10
    } else {
        hs
    }, ld, hc)
}

/// Decimal digit subtraction `dst - src - xx` of two BCD bytes:
/// (high digit, low digit, borrow out).
pub open spec fn digit_sub(src: u32, dst: u32, xx: u32) -> (int, int, bool) {
    let ls = (dst & 0xF) - (src & 0xF) - xx;
    let lb = ls < 0;
    let ld = if lb {
        ls + 10
    } else {
        ls
    };
    let hs = ((dst >> 4u32) & 0xF) - ((src >> 4u32) & 0xF) - (if lb {
        1int
    } else {
        0int
    });
    let hb = hs < 0;
    (if hb {
        hs + 10
    } else {
        hs
    }, ld, hb)
}

/// Decimal law of ABCD: on valid BCD operands the hardware model computes
/// the decimal sum modulo 100, and the carry is the decimal carry.
pub proof fn lemma_abcd_decimal(src: u32, dst: u32, x: u32)
    requires
        is_bcd(src),
        is_bcd(dst),
    ensures
        ({
            let (tmp, newv, carry) = abcd_model(src, dst, x);
            let sum = bcd_value(src) + bcd_value(dst) + xb(x);
            &&& newv & 0xFF == to_bcd(sum % 100)
            &&& carry == (sum >= 100)
        }),
{
    let xx = xb(x);
    assert(xx <= 1);
    lemma_abcd_digits(src, dst, xx);
    let (hd, ld, hc) = digit_add(src, dst, xx);
    let sum = bcd_value(src) + bcd_value(dst) + xx;
    assert(sum % 100 == hd * 10 + ld && (sum >= 100) == hc);
    lemma_to_bcd_digits(hd, ld);
}

/// Bit-level core of the ABCD decimal law: the corrected byte holds the
/// decimal digits of the sum, and the carry is the decimal carry.
pub proof fn lemma_abcd_digits(src: u32, dst: u32, xx: u32)
    by (bit_vector)
    requires
        src <= 0xFF,
        dst <= 0xFF,
        (src & 0xF) <= 9,
        ((src >> 4u32) & 0xF) <= 9,
        (dst & 0xF) <= 9,
        ((dst >> 4u32) & 0xF) <= 9,
        xx <= 1,
    ensures
        ({
            let (tmp, fin, carry) = abcd_model(src, dst, xx);
            let (hd, ld, hc) = digit_add(src, dst, xx);
            &&& fin & 0xFF == hd * 16 + ld
            &&& carry == hc
        }),
{
}

/// Decimal law of SBCD: on valid BCD operands the hardware model computes
/// the decimal difference `dst - src - X` modulo 100, and the borrow is
/// the decimal borrow.
pub proof fn lemma_sbcd_decimal(src: u32, dst: u32, x: u32)
    requires
        is_bcd(src),
        is_bcd(dst),
    ensures
        ({
            let (tmp, newv, carry) = sbcd_model(src, dst, x);
            let diff = bcd_value(dst) - bcd_value(src) - xb(x);
            &&& (newv & 0xFF) as u32 == to_bcd(if diff < 0 {
                diff + 100
            } else {
                diff
            })
            &&& carry == (diff < 0)
        }),
{
    let xx = xb(x);
    assert(xx <= 1);
    lemma_sbcd_digits(src, dst, xx);
    let (hd, ld, hb) = digit_sub(src, dst, xx);
    let diff = bcd_value(dst) - bcd_value(src) - xx;
    assert((if diff < 0 {
        diff + 100
    } else {
        diff
    }) == hd * 10 + ld && (diff < 0) == hb);
    lemma_to_bcd_digits(hd, ld);
}

/// Bit-level core of the SBCD decimal law.
pub proof fn lemma_sbcd_digits(src: u32, dst: u32, xx: u32)
    by (bit_vector)
    requires
        src <= 0xFF,
        dst <= 0xFF,
        (src & 0xF) <= 9,
        ((src >> 4u32) & 0xF) <= 9,
        (dst & 0xF) <= 9,
        ((dst >> 4u32) & 0xF) <= 9,
        xx <= 1,
    ensures
        ({
            let (tmp, fin, carry) = sbcd_model(src, dst, xx);
            let (hd, ld, hb) = digit_sub(src, dst, xx);
            &&& (fin & 0xFF) as int == hd * 16 + ld
            &&& carry == hb
        }),
{
}

/// Decimal law of NBCD: on a valid BCD operand the hardware model computes
/// the decimal `0 - dst - X` modulo 100, and the borrow is the decimal
/// borrow.
pub proof fn lemma_nbcd_decimal(dst: u32, x: u32)
    requires
        is_bcd(dst),
    ensures
        ({
            let (tmp, newv, carry) = nbcd_model(dst, x);
            let diff = 0 - bcd_value(dst) - xb(x);
            &&& (newv & 0xFF) as u32 == to_bcd(if diff < 0 {
                diff + 100
            } else {
                diff
            })
            &&& carry == (diff < 0)
        }),
{
    let xx = xb(x);
    assert(xx <= 1);
    lemma_nbcd_digits(dst, xx);
    let (hd, ld, hb) = digit_sub(dst, 0, xx);
    assert(0u32 & 0xF == 0 && (0u32 >> 4u32) & 0xF == 0) by (bit_vector);
    let diff = 0 - bcd_value(dst) - xx;
    assert((if diff < 0 {
        diff + 100
    } else {
        diff
    }) == hd * 10 + ld && (diff < 0) == hb);
    lemma_to_bcd_digits(hd, ld);
}

/// Bit-level core of the NBCD decimal law.
pub proof fn lemma_nbcd_digits(dst: u32, xx: u32)
    by (bit_vector)
    requires
        dst <= 0xFF,
        (dst & 0xF) <= 9,
        ((dst >> 4u32) & 0xF) <= 9,
        xx <= 1,
    ensures
        ({
            let (tmp, fin, carry) = nbcd_model(dst, xx);
            let (hd, ld, hb) = digit_sub(dst, 0, xx);
            &&& (fin & 0xFF) as int == hd * 16 + ld
            &&& carry == hb
        }),
{
}

/// PACK and UNPK with zero adjustments are inverse on a byte: unpacking a
/// byte and packing the word gives the byte back.
pub proof fn lemma_pack_unpack(b: u32)
    requires
        b <= 0xFF,
    ensures
        pack_word(unpack_byte(b) as u16) == b,
{
    assert(b <= 0xFF ==> (((((((b >> 4u32) & 0xF) << 8u32) | (b & 0xF)) as u16) >> 4u16) & 0xF0
        | ((((((b >> 4u32) & 0xF) << 8u32) | (b & 0xF)) as u16) & 0x0F)) as u32 == b)
        by (bit_vector);
}

/// The packed-BCD byte of a two-digit number is its digits side by side.
pub proof fn lemma_to_bcd_digits(hd: int, ld: int)
    requires
        0 <= hd <= 9,
        0 <= ld <= 9,
    ensures
        to_bcd(hd * 10 + ld) == hd * 16 + ld,
{
    assert((hd * 10 + ld) / 10 == hd && (hd * 10 + ld) % 10 == ld);
    lemma_pack_digits(hd as u32, ld as u32);
}

/// Two digits packed by shift and or are the digits weighted 16 and 1.
pub proof fn lemma_pack_digits(h: u32, l: u32)
    by (bit_vector)
    requires
        h <= 9,
        l <= 9,
    ensures
        (h << 4u32) | l == h * 16 + l,
{
}

impl CpuCore {
    /// The model's undefined-flag policy level for BCD results.
    pub fn bcd_nv_level(&self) -> (r: u8)
        ensures
            r == bcd_level(self.cpu_type),
    {
        match self.cpu_type {
            CpuType::Invalid | CpuType::M68000 | CpuType::M68010 | CpuType::SCC68070 => 0,
            CpuType::M68EC020 | CpuType::M68020 | CpuType::M68EC030 | CpuType::M68030 => 2,
            CpuType::M68EC040 | CpuType::M68LC040 | CpuType::M68040 | CpuType::M68060 => 4,
        }
    }

    /// Apply the model's N/V/Z policy for a BCD result byte; `v_set` is
    /// the 68000/010 overflow.
    pub fn bcd_set_nvz(&mut self, res8: u32, v_set: bool)
        ensures
            final(self).not_z_flag == old(self).not_z_flag | res8,
            bcd_level(old(self).cpu_type) < 4 ==> final(self).n_flag == (if res8 & 0x80 != 0 {
                0x80u32
            } else {
                0u32
            }) && final(self).v_flag == (if bcd_level(old(self).cpu_type) < 2 && v_set {
                0x80u32
            } else {
                0u32
            }),
            bcd_level(old(self).cpu_type) >= 4 ==> final(self).n_flag == old(self).n_flag
                && final(self).v_flag == old(self).v_flag,
            *final(self) == (CpuCore {
                not_z_flag: final(self).not_z_flag,
                n_flag: final(self).n_flag,
                v_flag: final(self).v_flag,
                ..*old(self)
            }),
    {
        self.not_z_flag = self.not_z_flag | res8;
        let level = self.bcd_nv_level();
        if level < 4 {
            self.n_flag = if (res8 & 0x80) != 0 {
                NFLAG_SET
            } else {
                0
            };
            self.v_flag = if level < 2 && v_set {
                0x80
            } else {
                0
            };
        }
    }

    /// ABCD with the SingleStepTests carry threshold.
    pub fn bcd_add_sst(&mut self, src: u32, dst: u32) -> (r: u32)
        ensures
            ({
                let (res, carry) = abcd_sst_model(src, dst, old(self).x_flag);
                let c: u32 = if carry {
                    0x100
                } else {
                    0
                };
                &&& r == res
                &&& r <= 0xFF
                &&& with_ccr(
                    *old(self),
                    *final(self),
                    c,
                    old(self).n_flag,
                    if res != 0 {
                        res
                    } else {
                        old(self).not_z_flag
                    },
                    old(self).v_flag,
                    c,
                )
            }),
    {
        let x: u32 = if self.x_flag != 0 {
            1
        } else {
            0
        };
        proof {
            lemma_mask_bounds(src);
            lemma_mask_bounds(dst);
        }
        let src = src & 0xFF;
        let dst = dst & 0xFF;
        proof {
            lemma_nibble_bounds(src);
            lemma_nibble_bounds(dst);
        }
        let lo = (src & 0x0F) + (dst & 0x0F) + x;
        let mut res = src + dst + x;
        if lo > 9 {
            res = res + 0x06;
        }
        let carry = res > 0x9F;
        if carry {
            res = res + 0x60;
        }
        let res8 = res & 0xFF;
        self.x_flag = if carry {
            XFLAG_SET
        } else {
            0
        };
        self.c_flag = if carry {
            CFLAG_SET
        } else {
            0
        };
        if res8 != 0 {
            self.not_z_flag = res8;
        }
        proof {
            lemma_mask_bounds(res);
        }
        res8
    }

    /// SBCD with the SingleStepTests correction rules.
    pub fn bcd_sub_sst(&mut self, src: u32, dst: u32) -> (r: u32)
        ensures
            ({
                let (res, carry) = sbcd_sst_model(src, dst, old(self).x_flag);
                let c: u32 = if carry {
                    0x100
                } else {
                    0
                };
                &&& r == res
                &&& r <= 0xFF
                &&& with_ccr(
                    *old(self),
                    *final(self),
                    c,
                    old(self).n_flag,
                    if res != 0 {
                        res
                    } else {
                        old(self).not_z_flag
                    },
                    old(self).v_flag,
                    c,
                )
            }),
    {
        let x: i32 = if self.x_flag != 0 {
            1
        } else {
            0
        };
        proof {
            lemma_mask_bounds(src);
            lemma_mask_bounds(dst);
            lemma_nibble_bounds(src);
            lemma_nibble_bounds(dst);
        }
        let s = (src & 0xFF) as i32;
        let d = (dst & 0xFF) as i32;
        let base = d - s - x;
        let low_borrow = ((dst & 0x0F) as i32 - (src & 0x0F) as i32 - x) < 0;
        let borrow = base < 0;
        let mut res = base;
        if low_borrow {
            res = res - 6;
        }
        let xc = res < 0 || borrow;
        if borrow {
            res = res - 0x60;
        }
        let res8 = (res as u32) & 0xFF;
        proof {
            lemma_i32_as_u32(res);
            lemma_mask_bounds(res as u32);
        }
        self.x_flag = if xc {
            XFLAG_SET
        } else {
            0
        };
        self.c_flag = if xc {
            CFLAG_SET
        } else {
            0
        };
        if res8 != 0 {
            self.not_z_flag = res8;
        }
        res8
    }

    /// BCD addition `src + dst + X` on the low bytes.
    pub fn bcd_add(&mut self, src: u32, dst: u32) -> (r: u32)
        ensures
            abcd_effect(*old(self), *final(self), src, dst, r),
            r <= 0xFF,
    {
        if self.sst_m68000_compat {
            let r = self.bcd_add_sst(src, dst);
            return r;
        }
        let x: u32 = if self.x_flag != 0 {
            1
        } else {
            0
        };
        proof {
            lemma_nibble_bounds(src);
            lemma_nibble_bounds(dst);
        }
        let src = src & 0xFF;
        let dst = dst & 0xFF;
        let newv_lo = (src & 0x0F) + (dst & 0x0F) + x;
        let newv_hi = (src & 0xF0) + (dst & 0xF0);
        let tmp_newv = newv_hi + newv_lo;
        let mut newv = tmp_newv;
        if newv_lo > 9 {
            newv = newv + 6;
        }
        let carry = (newv & 0x3F0) > 0x90;
        if carry {
            newv = newv + 0x60;
        }
        self.x_flag = if carry {
            XFLAG_SET
        } else {
            0
        };
        self.c_flag = if carry {
            CFLAG_SET
        } else {
            0
        };
        let res8 = newv & 0xFF;
        proof {
            lemma_mask_bounds(newv);
            lemma_byte_masks(src, dst);
        }
        self.bcd_set_nvz(res8, (tmp_newv & 0x80) == 0 && (newv & 0x80) != 0);
        res8
    }

    /// BCD subtraction `dst - src - X` on the low bytes.
    pub fn bcd_sub(&mut self, src: u32, dst: u32) -> (r: u32)
        ensures
            sbcd_effect(*old(self), *final(self), src, dst, r),
            r <= 0xFF,
    {
        if self.sst_m68000_compat {
            let r = self.bcd_sub_sst(src, dst);
            return r;
        }
        let x: u32 = if self.x_flag != 0 {
            1
        } else {
            0
        };
        proof {
            lemma_byte_masks(src, dst);
        }
        let src = src & 0xFF;
        let dst = dst & 0xFF;
        let newv_lo = ((dst & 0x0F) as u16).wrapping_sub((src & 0x0F) as u16).wrapping_sub(
            x as u16,
        );
        let newv_hi = ((dst & 0xF0) as u16).wrapping_sub((src & 0xF0) as u16);
        let tmp_newv = newv_hi.wrapping_add(newv_lo);
        let mut newv = tmp_newv;
        let mut bcd: u32 = 0;
        if newv_lo & 0xF0 != 0 {
            newv = newv.wrapping_sub(6);
            bcd = 6;
        }
        if dst.wrapping_sub(src).wrapping_sub(x) & 0x100 != 0 {
            newv = newv.wrapping_sub(0x60);
        }
        let carry = dst.wrapping_sub(src).wrapping_sub(bcd).wrapping_sub(x) & 0x300 != 0;
        self.x_flag = if carry {
            XFLAG_SET
        } else {
            0
        };
        self.c_flag = if carry {
            CFLAG_SET
        } else {
            0
        };
        let res8 = (newv & 0xFF) as u32;
        proof {
            lemma_u16_byte(newv);
        }
        self.bcd_set_nvz(res8, (tmp_newv & 0x80) != 0 && (newv & 0x80) == 0);
        res8
    }
}

/// NBCD on a memory operand at `addr`: the decimal negation of the byte
/// `d` read there into `res`, with `res` written back by the last bus
/// call (`addr` is An for `(An)`).
pub open spec fn nbcd_transfer(
    old: CpuCore,
    new: CpuCore,
    ev: Seq<BusEvent>,
    mode: AddressingMode,
    addr: u32,
    d: u32,
    res: u32,
) -> bool {
    &&& nbcd_effect(old, seq_restored(old, new), d, res)
    &&& read_logged(ev, addr & old.address_mask, Size::Byte, d)
    &&& ev.len() > 0
    &&& ev.last() == BusEvent::WriteByte(addr & old.address_mask, res as u8)
    &&& (mode matches AddressingMode::AddressIndirect(n) ==> addr == old.dar[8 + n])
}

/// A log that ends with a read of the byte `d` at `a`, continued by a
/// read-modify-write store ending with the write of `res` there, holds both.
proof fn lemma_nbcd_logged(e1: Seq<BusEvent>, e2: Seq<BusEvent>, a: u32, d: u32, res: u32)
    requires
        e1.len() > 0,
        e1.last() == read_event(a, Size::Byte, d),
        e2.len() > e1.len(),
        e2.subrange(0, e1.len() as int) == e1,
        e2.last() == BusEvent::WriteByte(a, res as u8),
    ensures
        read_logged(e2, a, Size::Byte, d),
{
    assert(e2.subrange(0, e1.len() as int)[e1.len() - 1] == e2[e1.len() - 1]);
    assert(e2[e1.len() - 1] == read_event(a, Size::Byte, d));
}

impl CpuCore {
    /// 68000 byte write of a BCD result to Dn: final prefetch and IPL
    /// sample, two internal clocks reported, then the register write.
    #[verifier::rlimit(40)]
    fn finish_bcd_register_write<B: AddressBus>(&mut self, bus: &mut B, reg: usize, value: u32)
        requires
            reg < 8,
        ensures
            final(self).dar@ == old(self).dar@.update(
                reg as int,
                sized_write(old(self).dar[reg as int], value, Size::Byte),
            ),
            *final(self) == (CpuCore {
                dar: final(self).dar,
                prefetch_queue: final(self).prefetch_queue,
                prefetch_count: final(self).prefetch_count,
                pending_sync_clocks: final(self).pending_sync_clocks,
                ..*old(self)
            }),
            m68000_finished(*old(self), *final(self)),
            final(bus).events() == old(bus).events() + finish_events(*old(self), *final(self), 2, true),
    {
        self.top_up_prefetch(bus);
        self.ipl_poll_point(bus);
        self.internal_cycles(2);
        self.flush_sync(bus);
        self.set_d(reg, (self.d(reg) & 0xFFFF_FF00) | (value & 0xFF));
    }

    /// ABCD Dy,Dx: `Dx.b = Dx.b + Dy.b + X` in decimal.
    pub fn exec_abcd_rr<B: AddressBus>(&mut self, bus: &mut B, src_reg: usize, dst_reg: usize) -> (r: i32)
        requires
            src_reg < 8,
            dst_reg < 8,
        ensures
            r == 6,
            abcd_effect(
                *old(self),
                seq_restored(*old(self), *final(self)),
                old(self).dar[src_reg as int] & 0xFF,
                old(self).dar[dst_reg as int] & 0xFF,
                final(self).dar[dst_reg as int] & 0xFF,
            ),
            final(self).dar@ == old(self).dar@.update(
                dst_reg as int,
                sized_write(old(self).dar[dst_reg as int], final(self).dar[dst_reg as int], Size::Byte),
            ),
            final(self).pc == old(self).pc,
            m68000_finished(*old(self), *final(self)),
            final(bus).events() == old(bus).events() + finish_events(*old(self), *final(self), 2, true),
    {
        let src = self.d(src_reg) & 0xFF;
        let dst = self.d(dst_reg) & 0xFF;
        let result = self.bcd_add(src, dst);
        let ghost mid = *self;
        self.finish_bcd_register_write(bus, dst_reg, result);
        proof {
            lemma_bcd_effect_transfer(*old(self), *old(self), mid, src, dst, result);
            assert(seq_restored(*old(self), *self) == seq_restored(*old(self), mid));
            lemma_merge_low(old(self).dar[dst_reg as int], result);
            lemma_mask_bounds(result);
            lemma_merge_low(old(self).dar[dst_reg as int], self.dar[dst_reg as int]);
        }
        6
    }

    /// ABCD -(Ay),-(Ax): both operands pre-decremented (two internal
    /// clocks first), the result written back to the destination byte.
    pub fn exec_abcd_mm<B: AddressBus>(&mut self, bus: &mut B, src_reg: usize, dst_reg: usize) -> (r: i32)
        requires
            src_reg < 8,
            dst_reg < 8,
        ensures
            r == 18,
            final(self).dar@ == predec_pair(
                old(self).dar@,
                src_reg as int,
                ea_step(Size::Byte, src_reg as u8),
                dst_reg as int,
                ea_step(Size::Byte, dst_reg as u8),
            ),
            exists|s: u32, d: u32, res: u32|
                abcd_effect(*old(self), seq_restored(*old(self), *final(self)), s, d, res),
            final(self).pending_sync_clocks == 0,
    {
        self.internal_cycles(2);
        let src_dec: u32 = if src_reg == 7 {
            2
        } else {
            1
        };
        let src_addr = self.a(src_reg).wrapping_sub(src_dec);
        self.set_a(src_reg, src_addr);
        let dst_dec: u32 = if dst_reg == 7 {
            2
        } else {
            1
        };
        let dst_addr = self.a(dst_reg).wrapping_sub(dst_dec);
        self.set_a(dst_reg, dst_addr);
        let src = self.read_8(bus, src_addr) as u32;
        let dst = self.read_8(bus, dst_addr) as u32;
        self.ipl_poll_point(bus);
        let ghost before = *self;
        let result = self.bcd_add(src, dst);
        let ghost after = *self;
        self.top_up_prefetch(bus);
        self.write_8(bus, dst_addr, result as u8);
        proof {
            assert(seq_restored(*old(self), before) == *old(self));
            lemma_bcd_effect_transfer(*old(self), before, after, src, dst, result);
            assert(seq_restored(*old(self), *self) == seq_restored(*old(self), after));
            assert(abcd_effect(*old(self), seq_restored(*old(self), *self), src, dst, result));
        }
        18
    }

    /// SBCD Dy,Dx: `Dx.b = Dx.b - Dy.b - X` in decimal.
    pub fn exec_sbcd_rr<B: AddressBus>(&mut self, bus: &mut B, src_reg: usize, dst_reg: usize) -> (r: i32)
        requires
            src_reg < 8,
            dst_reg < 8,
        ensures
            r == 6,
            sbcd_effect(
                *old(self),
                seq_restored(*old(self), *final(self)),
                old(self).dar[src_reg as int] & 0xFF,
                old(self).dar[dst_reg as int] & 0xFF,
                final(self).dar[dst_reg as int] & 0xFF,
            ),
            final(self).dar@ == old(self).dar@.update(
                dst_reg as int,
                sized_write(old(self).dar[dst_reg as int], final(self).dar[dst_reg as int], Size::Byte),
            ),
            final(self).pc == old(self).pc,
            m68000_finished(*old(self), *final(self)),
            final(bus).events() == old(bus).events() + finish_events(*old(self), *final(self), 2, true),
    {
        let src = self.d(src_reg) & 0xFF;
        let dst = self.d(dst_reg) & 0xFF;
        let result = self.bcd_sub(src, dst);
        let ghost mid = *self;
        self.finish_bcd_register_write(bus, dst_reg, result);
        proof {
            lemma_bcd_effect_transfer(*old(self), *old(self), mid, src, dst, result);
            assert(seq_restored(*old(self), *self) == seq_restored(*old(self), mid));
            lemma_merge_low(old(self).dar[dst_reg as int], result);
            lemma_mask_bounds(result);
            lemma_merge_low(old(self).dar[dst_reg as int], self.dar[dst_reg as int]);
        }
        6
    }

    /// SBCD -(Ay),-(Ax).
    pub fn exec_sbcd_mm<B: AddressBus>(&mut self, bus: &mut B, src_reg: usize, dst_reg: usize) -> (r: i32)
        requires
            src_reg < 8,
            dst_reg < 8,
        ensures
            r == 18,
            final(self).dar@ == predec_pair(
                old(self).dar@,
                src_reg as int,
                ea_step(Size::Byte, src_reg as u8),
                dst_reg as int,
                ea_step(Size::Byte, dst_reg as u8),
            ),
            exists|s: u32, d: u32, res: u32|
                sbcd_effect(*old(self), seq_restored(*old(self), *final(self)), s, d, res),
            final(self).pending_sync_clocks == 0,
    {
        self.internal_cycles(2);
        let src_dec: u32 = if src_reg == 7 {
            2
        } else {
            1
        };
        let src_addr = self.a(src_reg).wrapping_sub(src_dec);
        self.set_a(src_reg, src_addr);
        let dst_dec: u32 = if dst_reg == 7 {
            2
        } else {
            1
        };
        let dst_addr = self.a(dst_reg).wrapping_sub(dst_dec);
        self.set_a(dst_reg, dst_addr);
        let src = self.read_8(bus, src_addr) as u32;
        let dst = self.read_8(bus, dst_addr) as u32;
        self.ipl_poll_point(bus);
        let ghost before = *self;
        let result = self.bcd_sub(src, dst);
        let ghost after = *self;
        self.top_up_prefetch(bus);
        self.write_8(bus, dst_addr, result as u8);
        proof {
            assert(seq_restored(*old(self), before) == *old(self));
            lemma_bcd_effect_transfer(*old(self), before, after, src, dst, result);
            assert(seq_restored(*old(self), *self) == seq_restored(*old(self), after));
            assert(sbcd_effect(*old(self), seq_restored(*old(self), *self), src, dst, result));
        }
        18
    }
}

impl CpuCore {
    /// NBCD <ea>: `0 - operand - X` in decimal. The 68000 writes a data
    /// register after its final prefetch and two internal clocks.
    #[verifier::rlimit(60)]
    #[verifier::spinoff_prover]
    pub fn exec_nbcd<B: AddressBus>(&mut self, bus: &mut B, mode: AddressingMode) -> (r: i32)
        requires
            mode_ok(mode),
        ensures
            mode is DataDirect ==> ({
                let reg = mode->DataDirect_0 as int;
                &&& r == 6
                &&& nbcd_effect(
                    *old(self),
                    seq_restored(*old(self), *final(self)),
                    old(self).dar[reg] & 0xFF,
                    final(self).dar[reg] & 0xFF,
                )
                &&& final(self).dar@ == old(self).dar@.update(
                    reg,
                    sized_write(old(self).dar[reg], final(self).dar[reg], Size::Byte),
                )
                &&& final(self).pc == old(self).pc
                &&& old(self).cpu_type == CpuType::M68000 && !old(self).sst_m68000_compat
                    ==> m68000_finished(*old(self), *final(self))
                &&& old(self).cpu_type == CpuType::M68000 && !old(self).sst_m68000_compat
                    ==> final(bus).events() == old(bus).events() + finish_events(*old(self), *final(self), 2, true)
            }),
            !(mode is DataDirect) ==> r == (if mode is AddressDirect {
                6
            } else if old(self).sst_m68000_compat {
                8
            } else {
                8 + ea_time_spec(mode, Size::Byte)
            }),
            exists|d: u32, res: u32|
                nbcd_effect(*old(self), seq_restored(*old(self), *final(self)), d, res),
            !(mode is DataDirect) && !(mode is AddressDirect) && !(mode is Immediate) ==> exists|addr: u32, d: u32, res: u32|
                #[trigger] nbcd_transfer(*old(self), *final(self), final(bus).events(), mode, addr, d, res),
    {
        let is_reg = mode.is_register_direct();
        let ea = self.resolve_ea(bus, mode, Size::Byte);
        let ghost s1 = *self;
        let dst = self.read_resolved_ea(bus, ea, Size::Byte);
        let ghost e1 = bus.events();
        let ghost before = *self;
        proof {
            assert(seq_restored(*old(self), before) == *old(self));
        }
        if self.sst_m68000_compat {
            let res = self.bcd_sub_sst(dst, 0);
            let ghost after = *self;
            self.write_resolved_ea_np_poll(bus, ea, Size::Byte, res);
            proof {
                lemma_bcd_effect_transfer(*old(self), before, after, dst, 0, res);
                assert(seq_restored(*old(self), *self) == seq_restored(*old(self), after));
                assert(nbcd_effect(*old(self), seq_restored(*old(self), *self), dst, res));
                lemma_merge_low(old(self).dar[mode->DataDirect_0 as int], res);
                if let EaResult::Memory(addr) = ea {
                    assert(bus.events().subrange(0, e1.len() as int) =~= e1);
                    lemma_nbcd_logged(e1, bus.events(), addr & s1.address_mask, dst, res);
                    assert(nbcd_transfer(*old(self), *self, bus.events(), mode, addr, dst, res));
                }
            }
            return if is_reg {
                6
            } else {
                8
            };
        }
        let res8 = self.bcd_neg_hw(dst);
        let ghost after = *self;
        proof {
            lemma_bcd_effect_transfer(*old(self), before, after, dst, 0, res8);
            lemma_merge_low(old(self).dar[mode->DataDirect_0 as int], res8);
            lemma_mask_bounds(res8);
        }
        if self.cpu_type == CpuType::M68000 {
            if let EaResult::DataReg(reg) = ea {
                let reg = reg as usize;
                proof {
                    assert(bus.events() == old(bus).events());
                    assert(finish_events(after, after, 2, true) == finish_events(*old(self), after, 2, true));
                }
                let ghost e1 = bus.events();
                self.finish_bcd_register_write(bus, reg, res8);
                proof {
                    assert(seq_restored(*old(self), *self) == seq_restored(*old(self), after));
                    assert(finish_events(after, *self, 2, true) == finish_events(*old(self), *self, 2, true));
                    lemma_merge_low(old(self).dar[reg as int], self.dar[reg as int]);
                }
                return 6;
            }
        }
        self.write_resolved_ea_np_poll(bus, ea, Size::Byte, res8);
        proof {
            assert(seq_restored(*old(self), *self) == seq_restored(*old(self), after));
            assert(nbcd_effect(*old(self), seq_restored(*old(self), *self), dst, res8));
            if let EaResult::Memory(addr) = ea {
                assert(bus.events().subrange(0, e1.len() as int) =~= e1);
                lemma_nbcd_logged(e1, bus.events(), addr & s1.address_mask, dst, res8);
                assert(nbcd_transfer(*old(self), *self, bus.events(), mode, addr, dst, res8));
            }
        }
        if is_reg {
            6
        } else {
            8 + self.ea_time(mode, Size::Byte)
        }
    }

    /// The hardware NBCD: `0 - dst - X` with the low digit corrected when it
    /// underflows or exceeds 9, then the -0x60 correction and borrow from
    /// the intermediate's upper bits.
    fn bcd_neg_hw(&mut self, dst: u32) -> (r: u32)
        requires
            !old(self).sst_m68000_compat,
        ensures
            nbcd_effect(*old(self), *final(self), dst, r),
            r <= 0xFF,
    {
        let x: u16 = if self.x_flag != 0 {
            1
        } else {
            0
        };
        let dst8 = (dst & 0xFF) as u16;
        let newv_lo = 0u16.wrapping_sub(dst8 & 0x0F).wrapping_sub(x);
        let newv_hi = 0u16.wrapping_sub(dst8 & 0xF0);
        let tmp_newv = newv_hi.wrapping_add(newv_lo);
        let corrected_lo = if newv_lo > 9 {
            newv_lo.wrapping_sub(6)
        } else {
            newv_lo
        };
        let mut newv = newv_hi.wrapping_add(corrected_lo);
        let carry = (newv & 0x1F0) > 0x90;
        if carry {
            newv = newv.wrapping_sub(0x60);
        }
        self.x_flag = if carry {
            XFLAG_SET
        } else {
            0
        };
        self.c_flag = if carry {
            CFLAG_SET
        } else {
            0
        };
        let res8 = (newv & 0xFF) as u32;
        proof {
            lemma_u16_byte(newv);
        }
        self.bcd_set_nvz(res8, (tmp_newv & 0x80) != 0 && (newv & 0x80) == 0);
        res8
    }

    /// PACK Ds,Dd,#adj: the adjustment is added to the source word, then
    /// its two low nibbles are packed into the destination byte.
    pub fn exec_pack_rr(&mut self, src_reg: usize, dst_reg: usize, adj: u16) -> (r: i32)
        requires
            src_reg < 8,
            dst_reg < 8,
        ensures
            r == 6,
            final(self).dar@ == old(self).dar@.update(
                dst_reg as int,
                sized_write(
                    old(self).dar[dst_reg as int],
                    pack_word((old(self).dar[src_reg as int] as u16).wrapping_add(adj)),
                    Size::Byte,
                ),
            ),
            *final(self) == (CpuCore { dar: final(self).dar, ..*old(self) }),
    {
        let val = (self.d(src_reg) as u16).wrapping_add(adj);
        let packed = (((val >> 4u16) & 0xF0) | (val & 0x0F)) as u32;
        proof {
            lemma_pack_bounds(val, 0);
            lemma_merge_low(self.dar[dst_reg as int], packed);
        }
        self.set_d(dst_reg, (self.d(dst_reg) & 0xFFFF_FF00) | packed);
        6
    }

    /// PACK -(As),-(Ad),#adj: a word from the pre-decremented source, one
    /// packed byte to the pre-decremented destination (A7 stays even).
    pub fn exec_pack_mm<B: AddressBus>(&mut self, bus: &mut B, src_reg: usize, dst_reg: usize, adj: u16) -> (r: i32)
        requires
            src_reg < 8,
            dst_reg < 8,
        ensures
            r == 13,
            !access_faults(old(self).is_pre_68020, old(self).dar[8 + src_reg].wrapping_sub(2), Size::Word)
                ==> final(self).dar@ == predec_pair(
                old(self).dar@,
                src_reg as int,
                2,
                dst_reg as int,
                ea_step(Size::Byte, dst_reg as u8),
            ) && seq_restored(*old(self), *final(self)) == *old(self),
    {
        let src_addr = self.a(src_reg).wrapping_sub(2);
        self.set_a(src_reg, src_addr);
        let val = self.read_16(bus, src_addr).wrapping_add(adj);
        let result = ((val >> 4u16) & 0xF0) as u8 | (val & 0x0F) as u8;
        let dst_dec: u32 = if dst_reg == 7 {
            2
        } else {
            1
        };
        let dst_addr = self.a(dst_reg).wrapping_sub(dst_dec);
        self.set_a(dst_reg, dst_addr);
        self.write_8(bus, dst_addr, result);
        13
    }

    /// UNPK Ds,Dd,#adj: the two nibbles of the source byte spread into a
    /// word, plus the adjustment, into the destination word.
    pub fn exec_unpk_rr(&mut self, src_reg: usize, dst_reg: usize, adj: u16) -> (r: i32)
        requires
            src_reg < 8,
            dst_reg < 8,
        ensures
            r == 8,
            final(self).dar@ == old(self).dar@.update(
                dst_reg as int,
                sized_write(
                    old(self).dar[dst_reg as int],
                    (unpack_byte(old(self).dar[src_reg as int] & 0xFF) + adj) as u32 & 0xFFFF,
                    Size::Word,
                ),
            ),
            *final(self) == (CpuCore { dar: final(self).dar, ..*old(self) }),
    {
        let src = self.d(src_reg) & 0xFF;
        let unpacked = (((src >> 4u32) & 0xF) << 8u32) | (src & 0xF);
        proof {
            lemma_pack_bounds(0, src);
        }
        let result = (unpacked + adj as u32) & 0xFFFF;
        proof {
            lemma_merge_low(self.dar[dst_reg as int], result);
            lemma_mask_bounds((unpacked + adj as u32) as u32);
        }
        self.set_d(dst_reg, (self.d(dst_reg) & 0xFFFF_0000) | result);
        8
    }

    /// UNPK -(As),-(Ad),#adj: one byte from the pre-decremented source
    /// (A7 stays even), one word to the pre-decremented destination.
    pub fn exec_unpk_mm<B: AddressBus>(&mut self, bus: &mut B, src_reg: usize, dst_reg: usize, adj: u16) -> (r: i32)
        requires
            src_reg < 8,
            dst_reg < 8,
        ensures
            r == 13,
            final(self).dar@ == predec_pair(
                old(self).dar@,
                src_reg as int,
                ea_step(Size::Byte, src_reg as u8),
                dst_reg as int,
                2,
            ) || final(self).run_mode == RUN_MODE_BERR_AERR_RESET,
    {
        let src_dec: u32 = if src_reg == 7 {
            2
        } else {
            1
        };
        let src_addr = self.a(src_reg).wrapping_sub(src_dec);
        self.set_a(src_reg, src_addr);
        let src = self.read_8(bus, src_addr) as u32;
        let unpacked = (((src >> 4u32) & 0xF) << 8u32) | (src & 0xF);
        proof {
            lemma_pack_bounds(0, src);
        }
        let result = ((unpacked + adj as u32) & 0xFFFF) as u16;
        let dst_addr = self.a(dst_reg).wrapping_sub(2);
        self.set_a(dst_reg, dst_addr);
        self.write_16(bus, dst_addr, result);
        13
    }
}

/// The BCD effects see only the condition codes and the model fields of
/// the state they start from, so they carry over to a state that differs
/// from it in the registers and bus-sequencing state alone.
pub proof fn lemma_bcd_effect_transfer(old: CpuCore, before: CpuCore, after: CpuCore, s: u32, d: u32, r: u32)
    requires
        seq_restored(old, before) == old,
    ensures
        abcd_effect(before, after, s, d, r) ==> abcd_effect(old, seq_restored(old, after), s, d, r),
        sbcd_effect(before, after, s, d, r) ==> sbcd_effect(old, seq_restored(old, after), s, d, r),
        nbcd_effect(before, after, d, r) ==> nbcd_effect(old, seq_restored(old, after), d, r),
{
}

/// Nibble masks of a byte are bounded.
pub proof fn lemma_nibble_bounds(v: u32)
    ensures
        v & 0x0F <= 0x0F,
        v & 0xF0 <= 0xF0,
        (v & 0xFF) & 0x0F == v & 0x0F,
        (v & 0xFF) & 0xF0 == v & 0xF0,
{
    lemma_byte_masks(v, v);
}

/// PACK and UNPK results fit their destinations.
pub proof fn lemma_pack_bounds(val: u16, src: u32)
    by (bit_vector)
    ensures
        (((val >> 4u16) & 0xF0) | (val & 0x0F)) as u32 <= 0xFF,
        (((src >> 4u32) & 0xF) << 8u32) | (src & 0xF) <= 0x0F0F,
        val & 0xFF <= 0xFF,
{
}

/// Masking a byte again changes nothing.
pub proof fn lemma_byte_masks(s: u32, d: u32)
    by (bit_vector)
    ensures
        (s & 0xFF) & 0xFF == s & 0xFF,
        (d & 0xFF) & 0xFF == d & 0xFF,
        (s & 0xFF) & 0x0F == s & 0x0F,
        (s & 0xFF) & 0xF0 == s & 0xF0,
        (d & 0xFF) & 0x0F == d & 0x0F,
        (d & 0xFF) & 0xF0 == d & 0xF0,
        s & 0x0F <= 0x0F,
        s & 0xF0 <= 0xF0,
{
}

/// The low byte of a word is at most 0xFF.
pub proof fn lemma_u16_byte(v: u16)
    ensures
        v & 0xFF <= 0xFF,
{
    lemma_pack_bounds(v, 0);
}

/// Reinterpreting an `i32` as `u32` is the value modulo 2^32.
pub proof fn lemma_i32_as_u32(v: i32)
    ensures
        v as u32 == (v as int % 0x1_0000_0000) as u32,
{
    assert(v as u32 == (v as int % 0x1_0000_0000) as u32) by (bit_vector);
}

} // verus!
