//! Register shifts and rotates: ASL/ASR, LSL/LSR, ROXL/ROXR, ROL/ROR on a
//! byte, word or long operand by a count of 0..63.
//!
//! A count of zero leaves the operand, clears C (ROXL/ROXR copy X into C)
//! and keeps X. Otherwise the last bit shifted out lands in C, and in X for
//! every kind but ROL/ROR. ASL sets V when the sign bit changes at any point
//! of the shift; the other kinds clear V.

use vstd::prelude::*;
use crate::cpu::CpuCore;
use crate::flags::n_of;
use crate::types::{Size, size_mask};
use vstd::arithmetic::power2::pow2;

verus! {

/// Operand width in bits.
pub open spec fn width(size: Size) -> u64 {
    match size {
        Size::Byte => 8,
        Size::Word => 16,
        Size::Long => 32,
    }
}

/// Operand mask.
pub open spec fn mask64(size: Size) -> u64 {
    match size {
        Size::Byte => 0xFF,
        Size::Word => 0xFFFF,
        Size::Long => 0xFFFF_FFFF,
    }
}

/// Shift kinds as encoded in bits 4..3 of the register form.
pub open spec fn kind_arith() -> u8 {
    0
}

/// Result of a shift or rotate of kind `kind` (0 arithmetic, 1 logical,
/// 2 rotate through X, 3 rotate) by `n` of the operand `v` with extend
/// bit `x`: (result, C, X after, V).
pub open spec fn shift_spec(kind: u8, left: bool, size: Size, n: u64, v: u64, x: bool) -> (u64, bool, bool, bool) {
    let b = width(size);
    let m = mask64(size);
    if n == 0 {
        (v, if kind == 2 {
            x
        } else {
            false
        }, x, false)
    } else if kind == 0 || kind == 1 {
        let (res, c) = if left {
            if n <= b {
                ((v << n) & m, ((v << n) >> b) & 1 == 1)
            } else {
                (0u64, false)
            }
        } else if kind == 1 || (v >> (b - 1)) & 1 == 0 {
            if n <= b {
                (v >> n, (v >> (n - 1)) & 1 == 1)
            } else {
                (0u64, false)
            }
        } else if n < b {
            ((v >> n) | (m & !(m >> n)), (v >> (n - 1)) & 1 == 1)
        } else {
            (m, true)
        };
        let overflow = kind == 0 && left && if n < b {
            let tm = (m >> (b - 1 - n)) << (b - 1 - n);
            !((v & tm) == 0 || (v & tm) == tm)
        } else {
            v != 0
        };
        (res, c, c, overflow)
    } else if kind == 3 {
        let nr = n % b;
        let res = if nr == 0 {
            v
        } else if left {
            ((v << nr) | (v >> (b - nr))) & m
        } else {
            ((v >> nr) | (v << (b - nr))) & m
        };
        (res, if left {
            res & 1 == 1
        } else {
            (res >> (b - 1)) & 1 == 1
        }, x, false)
    } else {
        let b1 = (b + 1) as u64;
        let nr = n % b1;
        let m1 = (m << 1u64) | 1;
        let w = (if x {
            1u64
        } else {
            0u64
        } << b) | v;
        let rw = if nr == 0 {
            w
        } else if left {
            ((w << nr) | (w >> (b1 - nr))) & m1
        } else {
            ((w >> nr) | (w << (b1 - nr))) & m1
        };
        let xo = (rw >> b) & 1 == 1;
        (rw & m, xo, xo, false)
    }
}

/// Clocks of a register shift or rotate by `n`.
pub open spec fn shift_cycles(size: Size, n: u32) -> i32 {
    (if size == Size::Long {
        8int
    } else {
        6int
    } + 2 * n) as i32
}

/// The shift or rotate on 64-bit intermediates.
fn shift_compute(kind: u8, left: bool, size: Size, n: u64, v: u64, x: bool) -> (r: (u64, bool, bool, bool))
    requires
        n < 64,
        v <= mask64(size),
    ensures
        r == shift_spec(kind, left, size, n, v, x),
        r.0 <= mask64(size),
{
    let b: u64 = match size {
        Size::Byte => 8,
        Size::Word => 16,
        Size::Long => 32,
    };
    let m: u64 = match size {
        Size::Byte => 0xFF,
        Size::Word => 0xFFFF,
        Size::Long => 0xFFFF_FFFF,
    };
    proof {
        lemma_shift_facts(v, m, b, n, if x {
            1
        } else {
            0
        });
    }
    if n == 0 {
        return (v, if kind == 2 {
            x
        } else {
            false
        }, x, false);
    }
    if kind == 0 || kind == 1 {
        let (res, c) = if left {
            if n <= b {
                ((v << n) & m, ((v << n) >> b) & 1 == 1)
            } else {
                (0u64, false)
            }
        } else if kind == 1 || (v >> (b - 1)) & 1 == 0 {
            if n <= b {
                (v >> n, (v >> (n - 1)) & 1 == 1)
            } else {
                (0u64, false)
            }
        } else if n < b {
            ((v >> n) | (m & !(m >> n)), (v >> (n - 1)) & 1 == 1)
        } else {
            (m, true)
        };
        let overflow = kind == 0 && left && if n < b {
            let tm = (m >> (b - 1 - n)) << (b - 1 - n);
            !((v & tm) == 0 || (v & tm) == tm)
        } else {
            v != 0
        };
        (res, c, c, overflow)
    } else if kind == 3 {
        let nr = n % b;
        let res = if nr == 0 {
            v
        } else if left {
            ((v << nr) | (v >> (b - nr))) & m
        } else {
            ((v >> nr) | (v << (b - nr))) & m
        };
        (res, if left {
            res & 1 == 1
        } else {
            (res >> (b - 1)) & 1 == 1
        }, x, false)
    } else {
        let b1 = b + 1;
        let nr = n % b1;
        let m1 = (m << 1u64) | 1;
        let w = ((if x {
            1u64
        } else {
            0u64
        }) << b) | v;
        let rw = if nr == 0 {
            w
        } else if left {
            ((w << nr) | (w >> (b1 - nr))) & m1
        } else {
            ((w >> nr) | (w << (b1 - nr))) & m1
        };
        let xo = (rw >> b) & 1 == 1;
        (rw & m, xo, xo, false)
    }
}

/// Results of masking with the operand mask stay within it.
pub proof fn lemma_shift_facts(v: u64, m: u64, b: u64, n: u64, xv: u64)
    by (bit_vector)
    requires
        (b == 8 && m == 0xFF) || (b == 16 && m == 0xFFFF) || (b == 32 && m == 0xFFFF_FFFF),
        v <= m,
        n < 64,
        xv <= 1,
    ensures
        forall|y: u64| #[trigger] (y & m) <= m,
        n > 0 ==> (v >> ((n - 1) as u64)) & 1 == (v >> ((n - 1) as u64)) % 2,
        ((v << n) >> b) & 1 == ((v << n) >> b) % 2,
        (xv << b) | v == xv * (m + 1) + v,
        (m << 1u64) | 1 == 2 * m + 1,
        n > 0 && n < b ==> ((v & ((m >> ((b - 1 - n) as u64)) << ((b - 1 - n) as u64))) == 0) == (v >> ((b - 1
            - n) as u64) == 0),
        n > 0 && n < b ==> ((v & ((m >> ((b - 1 - n) as u64)) << ((b - 1 - n) as u64))) == ((m >> ((b - 1 - n)
            as u64)) << ((b - 1 - n) as u64))) == (v >> ((b - 1 - n) as u64) == m >> ((b - 1 - n) as u64)),
        n > 0 && n <= b ==> v >> n <= m,
        n > 0 && n < b ==> (v >> n) | (m & !(m >> n)) <= m,
        (xv << b) | v <= (m << 1u64) | 1,
        n > 0 && n < b ==> (v >> n) | (m & !(m >> n)) == (v >> n) + (m - (m >> n)),
        ((v >> ((b - 1) as u64)) & 1 == 0) == (2 * v < m + 1),
{
}

/// The operand `v` of `size` read as a two's-complement number.
pub open spec fn signed_operand(v: u64, size: Size) -> int {
    if v >= pow2((width(size) - 1) as nat) {
        v - pow2(width(size) as nat)
    } else {
        v as int
    }
}

/// Width, mask and powers of two of each operand size.
proof fn lemma_width_powers(size: Size)
    ensures
        8 <= width(size) <= 32,
        mask64(size) as int == pow2(width(size) as nat) - 1,
        pow2(width(size) as nat) == 2 * pow2((width(size) - 1) as nat),
        vstd::bits::low_bits_mask(width(size) as nat) == mask64(size),
        pow2(width(size) as nat) <= 0x1_0000_0000,
{
    vstd::arithmetic::power2::lemma2_to64();
}

/// LSR divides the unsigned operand by 2^n, rounding down: zeros fill the
/// vacated high bits, and a count of the width or more leaves zero. C and
/// X take the last bit shifted out (bit n - 1 of the operand); a zero count
/// clears C and keeps X. V is cleared.
pub proof fn lemma_lsr_divides(size: Size, n: u64, v: u64, x: bool)
    requires
        n < 64,
        v <= mask64(size),
    ensures
        shift_spec(1, false, size, n, v, x).0 == v as nat / pow2(n as nat),
        n > 0 ==> shift_spec(1, false, size, n, v, x).1 == ((v as nat / pow2((n - 1) as nat)) % 2 == 1),
        n > 0 ==> shift_spec(1, false, size, n, v, x).2 == shift_spec(1, false, size, n, v, x).1,
        n == 0 ==> !shift_spec(1, false, size, n, v, x).1 && shift_spec(1, false, size, n, v, x).2 == x,
        !shift_spec(1, false, size, n, v, x).3,
{
    let b = width(size);
    lemma_width_powers(size);
    vstd::arithmetic::power2::lemma2_to64();
    vstd::arithmetic::power2::lemma_pow2_pos(n as nat);
    lemma_shift_facts(v, mask64(size), b, n, 0);
    if n == 0 {
    } else {
        vstd::arithmetic::power2::lemma_pow2_pos((n - 1) as nat);
        if n <= b {
            vstd::bits::lemma_u64_shr_is_div(v, n);
            vstd::bits::lemma_u64_shr_is_div(v, (n - 1) as u64);
        } else {
            vstd::arithmetic::power2::lemma_pow2_strictly_increases(b as nat, n as nat);
            vstd::arithmetic::div_mod::lemma_basic_div(v as int, pow2(n as nat) as int);
            if n - 1 > b {
                vstd::arithmetic::power2::lemma_pow2_strictly_increases(b as nat, (n - 1) as nat);
            }
            vstd::arithmetic::div_mod::lemma_basic_div(v as int, pow2((n - 1) as nat) as int);
        }
    }
}

/// A negative operand (sign bit set) divided by 2^k, rounding down: the
/// unsigned quotient less 2^(width - k), or -1 once 2^k reaches 2^width.
proof fn lemma_negative_quotient(size: Size, v: u64, k: nat)
    requires
        v <= mask64(size),
        v >= pow2((width(size) - 1) as nat),
        k < 64,
    ensures
        k < width(size) ==> signed_operand(v, size) / (pow2(k) as int) == v as int / (pow2(k) as int) - pow2(
            (width(size) - k) as nat,
        ),
        k >= width(size) ==> signed_operand(v, size) / (pow2(k) as int) == -1,
{
    let b = width(size);
    let p = pow2(k) as int;
    let full = pow2(b as nat) as int;
    lemma_width_powers(size);
    vstd::arithmetic::power2::lemma_pow2_pos(k);
    if k < b {
        let big = pow2((b - k) as nat) as int;
        let q = v as int / p;
        vstd::arithmetic::power2::lemma_pow2_adds((b - k) as nat, k);
        assert(big * p == full);
        vstd::arithmetic::div_mod::lemma_fundamental_div_mod(v as int, p);
        vstd::arithmetic::div_mod::lemma_mod_pos_bound(v as int, p);
        assert((q - big) * p == p * q - big * p) by (nonlinear_arith);
        vstd::arithmetic::div_mod::lemma_fundamental_div_mod_converse(v - full, p, q - big, v as int % p);
    } else {
        if k > b {
            vstd::arithmetic::power2::lemma_pow2_strictly_increases(b as nat, k);
        }
        vstd::arithmetic::div_mod::lemma_fundamental_div_mod_converse(v - full, p, -1, v - full + p);
    }
}

/// ASR divides the signed operand by 2^n, rounding toward minus infinity:
/// the sign bit fills the vacated high bits, so a negative operand stays
/// negative, and a count of the width or more leaves 0 or -1. C and X take
/// the last bit shifted out (the low bit of the operand divided by
/// 2^(n - 1)); a zero count clears C and keeps X. V is cleared.
pub proof fn lemma_asr_divides(size: Size, n: u64, v: u64, x: bool)
    requires
        n < 64,
        v <= mask64(size),
    ensures
        signed_operand(shift_spec(0, false, size, n, v, x).0, size) == signed_operand(v, size) / (pow2(
            n as nat,
        ) as int),
        n > 0 ==> shift_spec(0, false, size, n, v, x).1 == ((signed_operand(v, size) / (pow2((n - 1) as nat) as int))
            % 2 == 1),
        n > 0 ==> shift_spec(0, false, size, n, v, x).2 == shift_spec(0, false, size, n, v, x).1,
        n == 0 ==> !shift_spec(0, false, size, n, v, x).1 && shift_spec(0, false, size, n, v, x).2 == x,
        !shift_spec(0, false, size, n, v, x).3,
{
    let b = width(size);
    let m = mask64(size);
    let p = pow2(n as nat) as int;
    let half = pow2((b - 1) as nat) as int;
    let full = pow2(b as nat) as int;
    lemma_width_powers(size);
    vstd::arithmetic::power2::lemma2_to64();
    vstd::arithmetic::power2::lemma_pow2_pos(n as nat);
    lemma_shift_facts(v, m, b, n, 0);
    let res = shift_spec(0, false, size, n, v, x).0;
    let sv = signed_operand(v, size);
    if n == 0 {
        assert(p == 1);
        assert(sv / p == sv) by (nonlinear_arith)
            requires
                p == 1,
        ;
    } else if 2 * v < m + 1 {
        lemma_lsr_divides(size, n, v, x);
        assert(res == shift_spec(1, false, size, n, v, x).0);
        vstd::arithmetic::div_mod::lemma_div_is_ordered_by_denominator(v as int, 1, p);
        assert(sv == v);
        assert(res == v as int / p);
        assert(res < half);
        assert(signed_operand(res, size) == res);
    } else {
        lemma_negative_quotient(size, v, n as nat);
        lemma_negative_quotient(size, v, (n - 1) as nat);
        if n < b {
            let q = v as int / p;
            let big = pow2((b - n) as nat) as int;
            vstd::bits::lemma_u64_shr_is_div(v, n);
            vstd::bits::lemma_u64_shr_is_div(m, n);
            vstd::bits::lemma_u64_shr_is_div(v, (n - 1) as u64);
            vstd::arithmetic::power2::lemma_pow2_adds((b - n) as nat, n as nat);
            assert(big * p == full);
            assert((big - 1) * p == big * p - p) by (nonlinear_arith);
            vstd::arithmetic::div_mod::lemma_fundamental_div_mod_converse(m as int, p, big - 1, p - 1);
            assert(res == q + full - big);
            if b - n < b - 1 {
                vstd::arithmetic::power2::lemma_pow2_strictly_increases((b - n) as nat, (b - 1) as nat);
            }
            assert(res >= half);
            assert(signed_operand(res, size) == q - big);
            assert(signed_operand(v, size) / p == q - big);
            vstd::arithmetic::power2::lemma_pow2_unfold((b - n + 1) as nat);
            assert((b - (n - 1)) as nat == (b - n + 1) as nat);
        } else {
            assert(res == m);
            assert(signed_operand(res, size) == -1);
            if n - 1 < b {
                vstd::arithmetic::power2::lemma_pow2_pos((n - 1) as nat);
                vstd::arithmetic::div_mod::lemma_fundamental_div_mod_converse(v as int, half, 1, v - half);
                assert((b - (n - 1)) as nat == 1);
            }
        }
    }
}

/// LSL and ASL multiply the operand by 2^n modulo 2^width: zeros fill the
/// vacated low bits and the bits shifted past the top are lost. C and X
/// take the last bit shifted out (bit `width` of the operand times 2^n); a
/// zero count clears C and keeps X.
pub proof fn lemma_lsl_multiplies(kind: u8, size: Size, n: u64, v: u64, x: bool)
    requires
        kind == 0 || kind == 1,
        n < 64,
        v <= mask64(size),
    ensures
        shift_spec(kind, true, size, n, v, x).0 == (v as nat * pow2(n as nat)) % pow2(width(size) as nat),
        n > 0 ==> shift_spec(kind, true, size, n, v, x).1 == ((v as nat * pow2(n as nat)) / pow2(width(size) as nat)
            % 2 == 1),
        n > 0 ==> shift_spec(kind, true, size, n, v, x).2 == shift_spec(kind, true, size, n, v, x).1,
        n == 0 ==> !shift_spec(kind, true, size, n, v, x).1 && shift_spec(kind, true, size, n, v, x).2 == x,
        kind == 1 ==> !shift_spec(kind, true, size, n, v, x).3,
{
    let b = width(size);
    let m = mask64(size);
    let p = pow2(n as nat);
    let full = pow2(b as nat);
    lemma_width_powers(size);
    vstd::arithmetic::power2::lemma2_to64();
    vstd::arithmetic::power2::lemma_pow2_pos(n as nat);
    lemma_shift_facts(v, m, b, n, 0);
    if n == 0 {
        vstd::arithmetic::div_mod::lemma_small_mod(v as nat, full);
        assert(p == 1);
        assert(v as nat * p == v) by (nonlinear_arith)
            requires
                p == 1,
        ;
    } else if n <= b {
        if n < 32 {
            vstd::arithmetic::power2::lemma_pow2_strictly_increases(n as nat, 32);
        }
        assert(v * p <= 0xFFFF_FFFF * 0x1_0000_0000) by (nonlinear_arith)
            requires
                v <= 0xFFFF_FFFF,
                p <= 0x1_0000_0000,
        ;
        vstd::bits::lemma_u64_shl_is_mul(v, n);
        vstd::bits::lemma_u64_low_bits_mask_is_mod(v << n, b as nat);
        vstd::bits::lemma_u64_shr_is_div(v << n, b);
        assert(shift_spec(kind, true, size, n, v, x).0 == (v << n) & m);
        assert((v << n) & m == (v << n) % (full as u64));
        assert((v << n) == v as nat * p);
    } else {
        vstd::arithmetic::power2::lemma_pow2_adds((n - b) as nat, b as nat);
        let k = pow2((n - b) as nat);
        vstd::arithmetic::power2::lemma_pow2_unfold((n - b) as nat);
        let k2 = pow2((n - b - 1) as nat);
        assert(v * p == (v * k) * full && v * k == 2 * (v * k2)) by (nonlinear_arith)
            requires
                p == k * full,
                k == 2 * k2,
        ;
        vstd::arithmetic::div_mod::lemma_mod_multiples_basic(v * k, full as int);
        vstd::arithmetic::div_mod::lemma_fundamental_div_mod_converse((v * k) * full, full as int, v * k, 0);
        assert((v as nat * p) % full == 0);
    }
}

/// ASL sets V exactly when the signed operand times 2^n leaves the signed
/// range of the operand, that is, when the sign bit changes at any point
/// of the shift; LSL clears V.
pub proof fn lemma_asl_overflow(size: Size, n: u64, v: u64, x: bool)
    requires
        0 < n < 64,
        v <= mask64(size),
    ensures
        shift_spec(0, true, size, n, v, x).3 == !(-pow2((width(size) - 1) as nat) <= signed_operand(v, size) * pow2(
            n as nat,
        ) < pow2((width(size) - 1) as nat)),
{
    let b = width(size);
    let m = mask64(size);
    let p = pow2(n as nat) as int;
    let half = pow2((b - 1) as nat) as int;
    let full = pow2(b as nat) as int;
    let sv = signed_operand(v, size);
    lemma_width_powers(size);
    vstd::arithmetic::power2::lemma2_to64();
    vstd::arithmetic::power2::lemma_pow2_pos(n as nat);
    lemma_shift_facts(v, m, b, n, 0);
    if n >= b {
        if n > b {
            vstd::arithmetic::power2::lemma_pow2_strictly_increases(b as nat, n as nat);
        }
        if v == 0 {
            assert(sv * p == 0) by (nonlinear_arith)
                requires
                    sv == 0,
            ;
        } else if v < half {
            assert(sv * p >= p) by (nonlinear_arith)
                requires
                    sv >= 1,
                    p >= 1,
            ;
        } else {
            assert(sv * p <= -p) by (nonlinear_arith)
                requires
                    sv <= -1,
                    p >= 1,
            ;
        }
    } else {
        let t = (b - 1 - n) as nat;
        let d = pow2(t) as int;
        let qq = pow2((n + 1) as nat) as int;
        vstd::arithmetic::power2::lemma_pow2_pos(t);
        vstd::arithmetic::power2::lemma_pow2_adds(t, n as nat);
        vstd::arithmetic::power2::lemma_pow2_adds(t, (n + 1) as nat);
        assert(d * p == half);
        assert(d * qq == full);
        assert(qq * d == full) by (nonlinear_arith)
            requires
                d * qq == full,
        ;
        vstd::bits::lemma_u64_shr_is_div(v, t as u64);
        vstd::bits::lemma_u64_shr_is_div(m, t as u64);
        assert((qq - 1) * d == qq * d - d) by (nonlinear_arith);
        vstd::arithmetic::div_mod::lemma_fundamental_div_mod_converse(m as int, d, qq - 1, d - 1);
        let q = v as int / d;
        vstd::arithmetic::div_mod::lemma_fundamental_div_mod(v as int, d);
        vstd::arithmetic::div_mod::lemma_mod_pos_bound(v as int, d);
        if t < b - 1 {
            vstd::arithmetic::power2::lemma_pow2_strictly_increases(t, (b - 1) as nat);
        }
        assert((q == 0) == (v < d)) by (nonlinear_arith)
            requires
                v == d * q + v as int % d,
                0 <= v as int % d < d,
                v >= 0,
        ;
        assert((q == qq - 1) == (v >= full - d)) by (nonlinear_arith)
            requires
                v == d * q + v as int % d,
                0 <= v as int % d < d,
                v < full,
                d * qq == full,
                d > 0,
        ;
        if v < half {
            assert((v < d) == (sv * p < half)) by (nonlinear_arith)
                requires
                    sv == v,
                    d * p == half,
                    p > 0,
            ;
            assert(sv * p >= 0) by (nonlinear_arith)
                requires
                    sv >= 0,
                    p > 0,
            ;
        } else {
            assert((v >= full - d) == (sv * p >= -half)) by (nonlinear_arith)
                requires
                    sv == v - full,
                    d * p == half,
                    p > 0,
            ;
            assert(sv * p < 0) by (nonlinear_arith)
                requires
                    sv < 0,
                    p > 0,
            ;
        }
    }
}

/// The flags and result of a shift of `value` by `n`: N and Z from the
/// result, V from ASL's sign changes, C from the last bit out, and X as
/// C except for ROL/ROR and a zero count, which keep it.
pub open spec fn shifted(old: CpuCore, new: CpuCore, kind: u8, left: bool, size: Size, n: u32, value: u32, r: (u32, i32)) -> bool {
    let (res, c, xo, ov) = shift_spec(kind, left, size, n as u64, (value & size_mask(size)) as u64, old.x_flag & 0x100 != 0);
    &&& r.0 == res as u32
    &&& r.1 == shift_cycles(size, n)
    &&& new == (CpuCore {
        n_flag: n_of(res as u32, size),
        not_z_flag: res as u32,
        v_flag: if ov {
            0x80u32
        } else {
            0u32
        },
        c_flag: if c {
            0x100u32
        } else {
            0u32
        },
        x_flag: if kind != 3 && n != 0 {
            if xo {
                0x100u32
            } else {
                0u32
            }
        } else {
            old.x_flag
        },
        ..old
    })
}

/// ROR undoes ROL by the same count, and ROXR undoes ROXL with the extend
/// bit restored alongside.
pub proof fn lemma_rotate_inverse(size: Size, n: u64, v: u64, x: bool)
    requires
        n < 64,
        v <= mask64(size),
    ensures
        shift_spec(3, false, size, n, shift_spec(3, true, size, n, v, x).0, x).0 == v,
{
    let b = width(size);
    let m = mask64(size);
    lemma_rotate_bits(v, m, b, n % b);
}

/// ROL by n moves the operand's low `width - k` bits up by k = n mod width
/// and brings its top k bits round to the bottom; ROR the reverse. C is
/// the last bit rotated round (the result's low bit for ROL, its sign bit
/// for ROR; cleared by a zero count), X is kept and V cleared.
pub proof fn lemma_rotate_values(size: Size, n: u64, v: u64, x: bool)
    requires
        n < 64,
        v <= mask64(size),
    ensures
        n % width(size) > 0 ==> shift_spec(3, true, size, n, v, x).0 == (v as nat * pow2((n % width(size)) as nat))
            % pow2(width(size) as nat) + v as nat / pow2((width(size) - n % width(size)) as nat),
        n % width(size) > 0 ==> shift_spec(3, false, size, n, v, x).0 == v as nat / pow2((n % width(size)) as nat) + (
        v as nat * pow2((width(size) - n % width(size)) as nat)) % pow2(width(size) as nat),
        n % width(size) == 0 ==> shift_spec(3, true, size, n, v, x).0 == v && shift_spec(3, false, size, n, v, x).0
            == v,
        n > 0 ==> shift_spec(3, true, size, n, v, x).1 == (shift_spec(3, true, size, n, v, x).0 % 2 == 1),
        n > 0 ==> shift_spec(3, false, size, n, v, x).1 == (shift_spec(3, false, size, n, v, x).0 >= pow2(
            (width(size) - 1) as nat,
        )),
        n == 0 ==> !shift_spec(3, true, size, n, v, x).1 && !shift_spec(3, false, size, n, v, x).1,
        shift_spec(3, true, size, n, v, x).2 == x && shift_spec(3, false, size, n, v, x).2 == x,
        !shift_spec(3, true, size, n, v, x).3 && !shift_spec(3, false, size, n, v, x).3,
{
    let b = width(size);
    let m = mask64(size);
    let k = n % b;
    lemma_width_powers(size);
    vstd::arithmetic::power2::lemma2_to64();
    lemma_rotate_bits(v, m, b, k);
    if k > 0 {
        lemma_lsl_multiplies(1, size, k, v, x);
        lemma_lsl_multiplies(1, size, (b - k) as u64, v, x);
        vstd::bits::lemma_u64_shr_is_div(v, k);
        vstd::bits::lemma_u64_shr_is_div(v, (b - k) as u64);
    }
}

/// A value read as `bits` binary digits, rotated left by `k` places.
pub open spec fn rotl_value(w: nat, k: nat, bits: nat) -> nat {
    if k == 0 {
        w
    } else {
        (w * pow2(k)) % pow2(bits) + w / pow2((bits - k) as nat)
    }
}

/// A value read as `bits` binary digits, rotated right by `k` places.
pub open spec fn rotr_value(w: nat, k: nat, bits: nat) -> nat {
    if k == 0 {
        w
    } else {
        w / pow2(k) + (w * pow2((bits - k) as nat)) % pow2(bits)
    }
}

/// The operand with X above its sign bit, as ROXL and ROXR rotate it.
pub open spec fn extended_operand(v: u64, x: bool, size: Size) -> nat {
    (if x {
        pow2(width(size) as nat)
    } else {
        0
    }) + v as nat
}

/// ROXL and ROXR rotate the operand and X together as one value of
/// `width + 1` bits, X above the sign bit, by n mod (width + 1) places: the
/// result is the low `width` bits of the rotated value, and C and X its top
/// bit. A zero count leaves the operand and X and copies X into C. V is
/// cleared.
pub proof fn lemma_rotate_extend_values(size: Size, n: u64, v: u64, x: bool)
    requires
        n < 64,
        v <= mask64(size),
    ensures
        shift_spec(2, true, size, n, v, x).0 == rotl_value(
            extended_operand(v, x, size),
            (n % ((width(size) + 1) as u64)) as nat,
            (width(size) + 1) as nat,
        ) % pow2(width(size) as nat),
        shift_spec(2, false, size, n, v, x).0 == rotr_value(
            extended_operand(v, x, size),
            (n % ((width(size) + 1) as u64)) as nat,
            (width(size) + 1) as nat,
        ) % pow2(width(size) as nat),
        n > 0 ==> shift_spec(2, true, size, n, v, x).1 == (rotl_value(
            extended_operand(v, x, size),
            (n % ((width(size) + 1) as u64)) as nat,
            (width(size) + 1) as nat,
        ) / pow2(width(size) as nat) == 1),
        n > 0 ==> shift_spec(2, false, size, n, v, x).1 == (rotr_value(
            extended_operand(v, x, size),
            (n % ((width(size) + 1) as u64)) as nat,
            (width(size) + 1) as nat,
        ) / pow2(width(size) as nat) == 1),
        n == 0 ==> shift_spec(2, true, size, n, v, x).1 == x && shift_spec(2, false, size, n, v, x).1 == x,
        shift_spec(2, true, size, n, v, x).2 == shift_spec(2, true, size, n, v, x).1,
        shift_spec(2, false, size, n, v, x).2 == shift_spec(2, false, size, n, v, x).1,
        !shift_spec(2, true, size, n, v, x).3 && !shift_spec(2, false, size, n, v, x).3,
{
    let b = width(size);
    let m = mask64(size);
    let b1 = (b + 1) as u64;
    let m1 = (m << 1u64) | 1;
    let xv: u64 = if x {
        1
    } else {
        0
    };
    let k = n % b1;
    let full = pow2(b as nat);
    lemma_width_powers(size);
    vstd::arithmetic::power2::lemma2_to64();
    lemma_shift_facts(v, m, b, n, xv);
    let w = (xv << b) | v;
    assert(w == extended_operand(v, x, size));
    vstd::arithmetic::power2::lemma_pow2_unfold(b1 as nat);
    assert(m1 as int == pow2(b1 as nat) - 1);
    let rl = if k == 0 {
        w
    } else {
        ((w << k) | (w >> ((b1 - k) as u64))) & m1
    };
    let rr = if k == 0 {
        w
    } else {
        ((w >> k) | (w << ((b1 - k) as u64))) & m1
    };
    if k > 0 {
        lemma_rotate_x_bits(w, m1, b1, k);
        lemma_masked_shl(w, m1, b1, k);
        lemma_masked_shl(w, m1, b1, (b1 - k) as u64);
        vstd::bits::lemma_u64_shr_is_div(w, k);
        vstd::bits::lemma_u64_shr_is_div(w, (b1 - k) as u64);
        assert(rl == rotl_value(w as nat, k as nat, b1 as nat));
        assert(rr == rotr_value(w as nat, k as nat, b1 as nat));
    } else {
        lemma_rotate_x_bits(w, m1, b1, 1);
    }
    vstd::bits::lemma_u64_low_bits_mask_is_mod(rl, b as nat);
    vstd::bits::lemma_u64_low_bits_mask_is_mod(rr, b as nat);
    vstd::bits::lemma_u64_shr_is_div(rl, b);
    vstd::bits::lemma_u64_shr_is_div(rr, b);
    assert((b1 - 1) as u64 == b);
    assert(rl <= m1 && rr <= m1);
    assert((rl >> ((b1 - 1) as u64)) & 1 == rl >> ((b1 - 1) as u64));
    assert((rr >> ((b1 - 1) as u64)) & 1 == rr >> ((b1 - 1) as u64));
    if n == 0 {
        vstd::arithmetic::div_mod::lemma_fundamental_div_mod_converse(w as int, full as int, xv as int, v as int);
    }
}

/// Shifting left by `j` under the mask of `b1` bits multiplies by 2^j
/// modulo 2^b1.
proof fn lemma_masked_shl(w: u64, m1: u64, b1: u64, j: u64)
    requires
        (b1 == 9 && m1 == 0x1FF) || (b1 == 17 && m1 == 0x1_FFFF) || (b1 == 33 && m1 == 0x1_FFFF_FFFF),
        w <= m1,
        0 < j < b1,
    ensures
        (w << j) & m1 == (w as nat * pow2(j as nat)) % pow2(b1 as nat),
{
    let p = pow2(j as nat) as int;
    let top = pow2((b1 - j) as nat) as int;
    let full1 = pow2(b1 as nat) as int;
    vstd::arithmetic::power2::lemma2_to64();
    vstd::arithmetic::power2::lemma_pow2_pos(j as nat);
    vstd::arithmetic::power2::lemma_pow2_pos((b1 - j) as nat);
    vstd::arithmetic::power2::lemma_pow2_adds((b1 - j) as nat, j as nat);
    assert(top * p == full1);
    vstd::arithmetic::power2::lemma_pow2_unfold(b1 as nat);
    assert(m1 as int == full1 - 1);
    lemma_rotate_x_bits(w, m1, b1, j);
    vstd::bits::lemma_u64_shr_is_div(m1, j);
    assert((top - 1) * p == top * p - p) by (nonlinear_arith);
    vstd::arithmetic::div_mod::lemma_fundamental_div_mod_converse(m1 as int, p, top - 1, p - 1);
    assert(m1 >> j == vstd::bits::low_bits_mask((b1 - j) as nat));
    vstd::bits::lemma_u64_low_bits_mask_is_mod(w, (b1 - j) as nat);
    let r = w & (m1 >> j);
    assert(r as int == w as int % top);
    vstd::arithmetic::div_mod::lemma_mod_pos_bound(w as int, top);
    assert(r * p < top * p) by (nonlinear_arith)
        requires
            r < top,
            p > 0,
    ;
    vstd::bits::lemma_u64_shl_is_mul(r, j);
    vstd::arithmetic::div_mod::lemma_truncate_middle(w as int, p, top);
    assert(p * w == w * p && p * top == full1 && p * r == r * p) by (nonlinear_arith)
        requires
            top * p == full1,
    ;
}

/// Bit-level core of the rotate-through-X law, on the operand and X as one
/// value `w` of `b1` bits under the mask `m1`.
proof fn lemma_rotate_x_bits(w: u64, m1: u64, b1: u64, j: u64)
    by (bit_vector)
    requires
        (b1 == 9 && m1 == 0x1FF) || (b1 == 17 && m1 == 0x1_FFFF) || (b1 == 33 && m1 == 0x1_FFFF_FFFF),
        w <= m1,
        0 < j < b1,
    ensures
        ((w << j) | (w >> ((b1 - j) as u64))) & m1 == ((w << j) & m1) + (w >> ((b1 - j) as u64)),
        ((w >> j) | (w << ((b1 - j) as u64))) & m1 == (w >> j) + ((w << ((b1 - j) as u64)) & m1),
        (w << j) & m1 == (w & (m1 >> j)) << j,
        ((w << j) | (w >> ((b1 - j) as u64))) & m1 <= m1,
        ((w >> j) | (w << ((b1 - j) as u64))) & m1 <= m1,
        forall|y: u64| y <= m1 ==> #[trigger] ((y >> ((b1 - 1) as u64)) & 1) == y >> ((b1 - 1) as u64),
{
}

/// Bit-level core of the rotate law.
pub proof fn lemma_rotate_bits(v: u64, m: u64, b: u64, nr: u64)
    by (bit_vector)
    requires
        (b == 8 && m == 0xFF) || (b == 16 && m == 0xFFFF) || (b == 32 && m == 0xFFFF_FFFF),
        v <= m,
        nr < b,
    ensures
        nr != 0 ==> ((((((v << nr) | (v >> ((b - nr) as u64))) & m) >> nr) | ((((v << nr) | (v >> ((b - nr) as u64)))
            & m) << ((b - nr) as u64))) & m) == v,
        nr != 0 ==> ((v << nr) | (v >> ((b - nr) as u64))) & m == ((v << nr) & m) + (v >> ((b - nr) as u64)),
        nr != 0 ==> ((v >> nr) | (v << ((b - nr) as u64))) & m == (v >> nr) + ((v << ((b - nr) as u64)) & m),
        (((v << nr) | (v >> ((b - nr) as u64))) & m) & 1 == (((v << nr) | (v >> ((b - nr) as u64))) & m) % 2,
        (((((v >> nr) | (v << ((b - nr) as u64))) & m) >> ((b - 1) as u64)) & 1 == 1) == (2 * (((v >> nr) | (v << ((b
            - nr) as u64))) & m) >= m + 1),
        v & 1 == v % 2,
        ((v >> ((b - 1) as u64)) & 1 == 1) == (2 * v >= m + 1),
{
}

impl CpuCore {
    /// Perform a shift or rotate and set the flags.
    #[verifier::rlimit(30)]
    #[verifier::spinoff_prover]
    pub fn apply_shift(&mut self, kind: u8, left: bool, size: Size, shift: u32, value: u32) -> (r: (u32, i32))
        requires
            shift < 64,
        ensures
            shifted(*old(self), *final(self), kind, left, size, shift, value, r),
    {
        let mask = size.mask();
        let v = (value & mask) as u64;
        proof {
            crate::types::lemma_mask_bounds(value);
        }
        let x = self.x_flag & 0x100 != 0;
        let (res, c, xo, ov) = shift_compute(kind, left, size, shift as u64, v, x);
        let res32 = res as u32;
        self.n_flag = if res32 & size.msb_mask() != 0 {
            0x80
        } else {
            0
        };
        self.not_z_flag = res32;
        self.v_flag = if ov {
            0x80
        } else {
            0
        };
        self.c_flag = if c {
            0x100
        } else {
            0
        };
        if kind != 3 && shift != 0 {
            self.x_flag = if xo {
                0x100
            } else {
                0
            };
        }
        let base: i32 = if size == Size::Long {
            8
        } else {
            6
        };
        (res32, base + 2 * shift as i32)
    }

    /// ASL: arithmetic shift left.
    pub fn exec_asl(&mut self, size: Size, shift: u32, value: u32) -> (r: (u32, i32))
        requires
            shift < 64,
        ensures
            shifted(*old(self), *final(self), 0, true, size, shift, value, r),
    {
        self.apply_shift(0, true, size, shift, value)
    }

    /// ASR: arithmetic shift right, the sign bit repeated.
    pub fn exec_asr(&mut self, size: Size, shift: u32, value: u32) -> (r: (u32, i32))
        requires
            shift < 64,
        ensures
            shifted(*old(self), *final(self), 0, false, size, shift, value, r),
    {
        self.apply_shift(0, false, size, shift, value)
    }

    /// LSL: logical shift left.
    pub fn exec_lsl(&mut self, size: Size, shift: u32, value: u32) -> (r: (u32, i32))
        requires
            shift < 64,
        ensures
            shifted(*old(self), *final(self), 1, true, size, shift, value, r),
    {
        self.apply_shift(1, true, size, shift, value)
    }

    /// LSR: logical shift right.
    pub fn exec_lsr(&mut self, size: Size, shift: u32, value: u32) -> (r: (u32, i32))
        requires
            shift < 64,
        ensures
            shifted(*old(self), *final(self), 1, false, size, shift, value, r),
    {
        self.apply_shift(1, false, size, shift, value)
    }

    /// ROXL: rotate left through X.
    pub fn exec_roxl(&mut self, size: Size, shift: u32, value: u32) -> (r: (u32, i32))
        requires
            shift < 64,
        ensures
            shifted(*old(self), *final(self), 2, true, size, shift, value, r),
    {
        self.apply_shift(2, true, size, shift, value)
    }

    /// ROXR: rotate right through X.
    pub fn exec_roxr(&mut self, size: Size, shift: u32, value: u32) -> (r: (u32, i32))
        requires
            shift < 64,
        ensures
            shifted(*old(self), *final(self), 2, false, size, shift, value, r),
    {
        self.apply_shift(2, false, size, shift, value)
    }

    /// ROL: rotate left.
    pub fn exec_rol(&mut self, size: Size, shift: u32, value: u32) -> (r: (u32, i32))
        requires
            shift < 64,
        ensures
            shifted(*old(self), *final(self), 3, true, size, shift, value, r),
    {
        self.apply_shift(3, true, size, shift, value)
    }

    /// ROR: rotate right.
    pub fn exec_ror(&mut self, size: Size, shift: u32, value: u32) -> (r: (u32, i32))
        requires
            shift < 64,
        ensures
            shifted(*old(self), *final(self), 3, false, size, shift, value, r),
    {
        self.apply_shift(3, false, size, shift, value)
    }
}

} // verus!
