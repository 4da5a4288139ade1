//! Condition-code semantics of the arithmetic and logic instructions, and
//! the laws that give them their arithmetic meaning.

use vstd::prelude::*;
use crate::cpu::{CpuCore, condition_holds};
use crate::types::{Size, size_mask, size_msb};

verus! {

/// N as stored in `n_flag`: bit 7 set when the result's sign bit is set.
pub open spec fn n_of(r: u32, size: Size) -> u32 {
    if r & size_msb(size) != 0 {
        0x80
    } else {
        0
    }
}

/// V after an addition `r = s + d`: both operands have the sign the
/// result lacks.
pub open spec fn add_v_of(s: u32, d: u32, r: u32, size: Size) -> u32 {
    let m = size_mask(size);
    if ((s & m) ^ (r & m)) & ((d & m) ^ (r & m)) & size_msb(size) != 0 {
        0x80
    } else {
        0
    }
}

/// C after an addition `r = s + d`: carry out of the operand's top bit.
pub open spec fn add_c_of(s: u32, d: u32, r: u32, size: Size) -> u32 {
    let m = size_mask(size);
    let (s, d, r) = (s & m, d & m, r & m);
    if (match size {
        Size::Byte => (s + d) as u32 & 0x100 != 0,
        Size::Word => (s + d) as u32 & 0x10000 != 0,
        Size::Long => ((s & d) | (!r & (s | d))) & 0x8000_0000 != 0,
    }) {
        0x100
    } else {
        0
    }
}

/// V after a subtraction `r = d - s`.
pub open spec fn sub_v_of(s: u32, d: u32, r: u32, size: Size) -> u32 {
    let m = size_mask(size);
    if ((s & m) ^ (d & m)) & ((r & m) ^ (d & m)) & size_msb(size) != 0 {
        0x80
    } else {
        0
    }
}

/// C after a subtraction `r = d - s`: borrow out of the operand's top bit.
pub open spec fn sub_c_of(s: u32, d: u32, r: u32, size: Size) -> u32 {
    let m = size_mask(size);
    let (s, d, r) = (s & m, d & m, r & m);
    if (match size {
        Size::Long => ((s & r) | (!d & (s | r))) & 0x8000_0000 != 0,
        _ => s > d,
    }) {
        0x100
    } else {
        0
    }
}

/// C after a comparison `d - s`: the unsigned `s > d`.
pub open spec fn compare_c_of(s: u32, d: u32, size: Size) -> u32 {
    let m = size_mask(size);
    if (s & m) > (d & m) {
        0x100
    } else {
        0
    }
}

/// Number of bits of an operand of `size`.
pub open spec fn size_bits(size: Size) -> nat {
    match size {
        Size::Byte => 8,
        Size::Word => 16,
        Size::Long => 32,
    }
}

/// 2 to the number of operand bits.
pub open spec fn modulus(size: Size) -> int {
    match size {
        Size::Byte => 0x100,
        Size::Word => 0x1_0000,
        Size::Long => 0x1_0000_0000,
    }
}

/// The operand bits of `v`, read as a two's-complement number.
pub open spec fn signed_of(v: u32, size: Size) -> int {
    let u = (v & size_mask(size)) as int;
    if v & size_msb(size) != 0 {
        u - modulus(size)
    } else {
        u
    }
}

/// The operand bits of `v`, read as an unsigned number.
pub open spec fn unsigned_of(v: u32, size: Size) -> int {
    (v & size_mask(size)) as int
}

/// `v` fits the two's-complement range of `size`.
pub open spec fn fits_signed(v: int, size: Size) -> bool {
    -(modulus(size) / 2) <= v < modulus(size) / 2
}

/// `new` is `old` with only the five condition codes replaced.
pub open spec fn with_ccr(old: CpuCore, new: CpuCore, x: u32, n: u32, z: u32, v: u32, c: u32) -> bool {
    new == (CpuCore { x_flag: x, n_flag: n, not_z_flag: z, v_flag: v, c_flag: c, ..old })
}

/// Byte laws: the carry and overflow flags of an addition and a
/// subtraction are the unsigned carry/borrow and the signed overflow.
pub proof fn lemma_flag_meaning_byte(s: u32, d: u32)
    by (bit_vector)
    ensures
        (add_c_of(s, d, s.wrapping_add(d), Size::Byte) != 0) == ((s & 0xFF) + (d & 0xFF)
            >= 0x100),
        (sub_c_of(s, d, d.wrapping_sub(s), Size::Byte) != 0) == ((s & 0xFF) > (d & 0xFF)),
        (add_v_of(s, d, s.wrapping_add(d), Size::Byte) != 0) == !(-128 <= (if s & 0x80 != 0 {
            (s & 0xFF) - 0x100
        } else {
            (s & 0xFF) as int
        }) + (if d & 0x80 != 0 {
            (d & 0xFF) - 0x100
        } else {
            (d & 0xFF) as int
        }) < 128),
        (sub_v_of(s, d, d.wrapping_sub(s), Size::Byte) != 0) == !(-128 <= (if d & 0x80 != 0 {
            (d & 0xFF) - 0x100
        } else {
            (d & 0xFF) as int
        }) - (if s & 0x80 != 0 {
            (s & 0xFF) - 0x100
        } else {
            (s & 0xFF) as int
        }) < 128),
        (s.wrapping_add(d) & 0xFF) == ((s & 0xFF) + (d & 0xFF)) % 0x100,
{
}

/// Word laws: carry, borrow and signed overflow of word arithmetic.
pub proof fn lemma_flag_meaning_word(s: u32, d: u32)
    by (bit_vector)
    ensures
        (add_c_of(s, d, s.wrapping_add(d), Size::Word) != 0) == ((s & 0xFFFF) + (d & 0xFFFF)
            >= 0x10000),
        (sub_c_of(s, d, d.wrapping_sub(s), Size::Word) != 0) == ((s & 0xFFFF) > (d & 0xFFFF)),
        (add_v_of(s, d, s.wrapping_add(d), Size::Word) != 0) == !(-32768 <= (if s & 0x8000 != 0 {
            (s & 0xFFFF) - 0x10000
        } else {
            (s & 0xFFFF) as int
        }) + (if d & 0x8000 != 0 {
            (d & 0xFFFF) - 0x10000
        } else {
            (d & 0xFFFF) as int
        }) < 32768),
        (sub_v_of(s, d, d.wrapping_sub(s), Size::Word) != 0) == !(-32768 <= (if d & 0x8000 != 0 {
            (d & 0xFFFF) - 0x10000
        } else {
            (d & 0xFFFF) as int
        }) - (if s & 0x8000 != 0 {
            (s & 0xFFFF) - 0x10000
        } else {
            (s & 0xFFFF) as int
        }) < 32768),
{
}

/// Long laws: the bitwise carry formulas are the unsigned carry and
/// borrow, and the overflow formulas the signed overflow.
pub proof fn lemma_flag_meaning_long(s: u32, d: u32)
    by (bit_vector)
    ensures
        (add_c_of(s, d, s.wrapping_add(d), Size::Long) != 0) == (s as int + d as int >= 0x1_0000_0000),
        (sub_c_of(s, d, d.wrapping_sub(s), Size::Long) != 0) == (s > d),
        (add_v_of(s, d, s.wrapping_add(d), Size::Long) != 0) == !(-0x8000_0000 <= (if s
            & 0x8000_0000 != 0 {
            s - 0x1_0000_0000
        } else {
            s as int
        }) + (if d & 0x8000_0000 != 0 {
            d - 0x1_0000_0000
        } else {
            d as int
        }) < 0x8000_0000),
        (sub_v_of(s, d, d.wrapping_sub(s), Size::Long) != 0) == !(-0x8000_0000 <= (if d
            & 0x8000_0000 != 0 {
            d - 0x1_0000_0000
        } else {
            d as int
        }) - (if s & 0x8000_0000 != 0 {
            s - 0x1_0000_0000
        } else {
            s as int
        }) < 0x8000_0000),
{
}

/// For every size, the carry of an addition is the unsigned carry and V the
/// signed overflow; the borrow of a subtraction is the unsigned `s > d`
/// and V its signed overflow.
pub proof fn lemma_flag_meaning(s: u32, d: u32, size: Size)
    ensures
        (add_c_of(s, d, s.wrapping_add(d), size) != 0) == (unsigned_of(s, size) + unsigned_of(
            d,
            size,
        ) >= modulus(size)),
        (sub_c_of(s, d, d.wrapping_sub(s), size) != 0) == (unsigned_of(s, size) > unsigned_of(
            d,
            size,
        )),
        (add_v_of(s, d, s.wrapping_add(d), size) != 0) == !fits_signed(
            signed_of(s, size) + signed_of(d, size),
            size,
        ),
        (sub_v_of(s, d, d.wrapping_sub(s), size) != 0) == !fits_signed(
            signed_of(d, size) - signed_of(s, size),
            size,
        ),
{
    match size {
        Size::Byte => lemma_flag_meaning_byte(s, d),
        Size::Word => lemma_flag_meaning_word(s, d),
        Size::Long => {
            lemma_flag_meaning_long(s, d);
            crate::types::lemma_mask_bounds(s);
            crate::types::lemma_mask_bounds(d);
        },
    }
}


/// Condition `cond` on the flags a comparison of `d` with `s` leaves (the
/// flags of `d - s` as CMP sets them).
pub open spec fn condition_after_compare(cond: u8, s: u32, d: u32, size: Size) -> bool {
    let r = d.wrapping_sub(s);
    condition_holds(cond, n_of(r, size), r & size_mask(size), sub_v_of(s, d, r, size), compare_c_of(s, d, size))
}

/// After a comparison of `d` with `s`, each condition answers the question
/// it is named for: HI, LS, CC (HS) and CS (LO) the unsigned order, NE and
/// EQ equality, VC and VS whether the signed difference fits, PL and MI the
/// sign of the difference, and GE, LT, GT and LE the signed order.
pub proof fn lemma_conditions_after_compare(s: u32, d: u32, size: Size)
    ensures
        condition_after_compare(0, s, d, size),
        !condition_after_compare(1, s, d, size),
        condition_after_compare(2, s, d, size) == (unsigned_of(d, size) > unsigned_of(s, size)),
        condition_after_compare(3, s, d, size) == (unsigned_of(d, size) <= unsigned_of(s, size)),
        condition_after_compare(4, s, d, size) == (unsigned_of(d, size) >= unsigned_of(s, size)),
        condition_after_compare(5, s, d, size) == (unsigned_of(d, size) < unsigned_of(s, size)),
        condition_after_compare(6, s, d, size) == (unsigned_of(d, size) != unsigned_of(s, size)),
        condition_after_compare(7, s, d, size) == (unsigned_of(d, size) == unsigned_of(s, size)),
        condition_after_compare(8, s, d, size) == fits_signed(signed_of(d, size) - signed_of(s, size), size),
        condition_after_compare(9, s, d, size) == !fits_signed(signed_of(d, size) - signed_of(s, size), size),
        condition_after_compare(10, s, d, size) == (signed_of(d.wrapping_sub(s), size) >= 0),
        condition_after_compare(11, s, d, size) == (signed_of(d.wrapping_sub(s), size) < 0),
        condition_after_compare(12, s, d, size) == (signed_of(d, size) >= signed_of(s, size)),
        condition_after_compare(13, s, d, size) == (signed_of(d, size) < signed_of(s, size)),
        condition_after_compare(14, s, d, size) == (signed_of(d, size) > signed_of(s, size)),
        condition_after_compare(15, s, d, size) == (signed_of(d, size) <= signed_of(s, size)),
{
    let m = size_mask(size);
    let h = size_msb(size);
    lemma_compare_bits(s, d, m, h);
    let r = d.wrapping_sub(s);
    assert((r & m == 0) == (unsigned_of(d, size) == unsigned_of(s, size)));
    assert(modulus(size) / 2 == h as int && modulus(size) == m as int + 1);
    crate::types::lemma_mask_bounds(r);
    assert((n_of(r, size) & 0x80 != 0) == (r & h != 0)) by {
        crate::cpu::lemma_flag_constants();
    }
    assert((signed_of(r, size) < 0) == (r & h != 0));
    crate::types::lemma_mask_bounds(d);
    crate::types::lemma_mask_bounds(s);
    assert((r & m == 0) == (signed_of(d, size) == signed_of(s, size)));
    assert((sub_v_of(s, d, r, size) & 0x80 != 0) == ((((s & m) ^ (d & m)) & ((r & m) ^ (d & m)) & h) != 0)) by {
        crate::cpu::lemma_flag_constants();
    }
    assert((compare_c_of(s, d, size) & 0x100 != 0) == (unsigned_of(s, size) > unsigned_of(d, size))) by {
        crate::cpu::lemma_flag_constants();
    }
}

/// Bit-level core of the comparison law, for an operand mask `m` with
/// sign bit `h`.
proof fn lemma_compare_bits(s: u32, d: u32, m: u32, h: u32)
    by (bit_vector)
    requires
        (m == 0xFF && h == 0x80) || (m == 0xFFFF && h == 0x8000) || (m == 0xFFFF_FFFF && h == 0x8000_0000),
    ensures
        ((d.wrapping_sub(s) & m) == 0) == ((d & m) == (s & m)),
        ((d & m) == (s & m)) ==> ((d & h != 0) == (s & h != 0)),
        (d & h != 0) ==> (d & m) >= h,
        (s & h != 0) ==> (s & m) >= h,
        (d.wrapping_sub(s) & h != 0) == ((d.wrapping_sub(s) & m) >= h),
        (((((s & m) ^ (d & m)) & ((d.wrapping_sub(s) & m) ^ (d & m)) & h) != 0) == (d.wrapping_sub(s) & h != 0))
            == ((if d & h != 0 {
            (d & m) as int - m as int - 1
        } else {
            (d & m) as int
        }) >= (if s & h != 0 {
            (s & m) as int - m as int - 1
        } else {
            (s & m) as int
        })),
        ((((s & m) ^ (d & m)) & ((d.wrapping_sub(s) & m) ^ (d & m)) & h) != 0) == !(-(h as int) <= (if d & h
            != 0 {
            (d & m) as int - m as int - 1
        } else {
            (d & m) as int
        }) - (if s & h != 0 {
            (s & m) as int - m as int - 1
        } else {
            (s & m) as int
        }) < h as int),
{
}

} // verus!
