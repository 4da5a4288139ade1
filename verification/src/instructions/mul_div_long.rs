//! 68020+ long multiply and divide: MULU.L/MULS.L (32 or 64-bit product)
//! and DIVU.L/DIVS.L (32 or 64-bit dividend, with remainder).

use vstd::prelude::*;
use crate::cpu::CpuCore;
use crate::ea::{AddressingMode, mode_ok, ea_decode_spec};
use crate::exceptions::{exception_cycles_of, stack_usable, simple_frame_events};
use crate::cpu::sat_add;
use crate::mem_ops::vector_fetch_events;
use crate::instructions::mul_div::{trunc_div, trunc_rem, lemma_trunc_div_rem};
use crate::memory::{AddressBus, BusEvent};
use crate::mem_ops::{log_extends, sync_events, lemma_log_extends_append, lemma_log_extends_trans};
use crate::types::{CpuType, Size};
use crate::vector;

verus! {

/// The full product of the two long operands, signed or unsigned.
pub open spec fn long_product(dst: u32, src: u32, signed: bool) -> int {
    if signed {
        (dst as i32) as int * (src as i32) as int
    } else {
        dst as int * src as int
    }
}

/// Low long word of a 64-bit two's-complement value.
pub open spec fn low_long(p: int) -> u32 {
    ((p % 0x1_0000_0000_0000_0000) % 0x1_0000_0000) as u32
}

/// High long word of a 64-bit two's-complement value.
pub open spec fn high_long(p: int) -> u32 {
    ((p % 0x1_0000_0000_0000_0000) / 0x1_0000_0000) as u32
}

/// The dividend of a long division: the 64-bit `hi:lo` pair or the 32-bit
/// `lo`, signed or unsigned.
pub open spec fn long_dividend(hi: u32, lo: u32, signed: bool, use_64: bool) -> int {
    if use_64 {
        if signed {
            (hi as i32) as int * 0x1_0000_0000 + lo as int
        } else {
            hi as int * 0x1_0000_0000 + lo as int
        }
    } else if signed {
        (lo as i32) as int
    } else {
        lo as int
    }
}

/// The divisor of a long division.
pub open spec fn long_divisor(d: u32, signed: bool) -> int {
    if signed {
        (d as i32) as int
    } else {
        d as int
    }
}

/// Whether the quotient of a long division does not fit the destination.
pub open spec fn divl_overflows(n: int, d: int, signed: bool) -> bool {
    if signed {
        !(-0x8000_0000 <= trunc_div(n, d) <= 0x7FFF_FFFF)
    } else {
        n / d > 0xFFFF_FFFF
    }
}

/// Product of two longs split into its low and high long words, with the
/// overflow of the 32-bit form: (low, high, overflow).
fn mull_compute(dst: u32, src: u32, signed: bool) -> (r: (u32, u32, bool))
    ensures
        r.0 == low_long(long_product(dst, src, signed)),
        r.1 == high_long(long_product(dst, src, signed)),
        !signed ==> r.2 == (r.1 != 0),
        signed ==> r.2 == (r.1 != (if r.0 & 0x8000_0000 != 0 {
            0xFFFF_FFFFu32
        } else {
            0u32
        })),
{
    let ghost p = long_product(dst, src, signed);
    let pu: u64 = if signed {
        let a = dst as i32 as i64;
        let b = src as i32 as i64;
        proof {
            assert(-0x8000_0000 * 0x7FFF_FFFF <= a * b <= 0x8000_0000 * 0x8000_0000) by (nonlinear_arith)
                requires
                    -0x8000_0000 <= a <= 0x7FFF_FFFF,
                    -0x8000_0000 <= b <= 0x7FFF_FFFF,
            ;
        }
        let prod = a * b;
        if prod >= 0 {
            prod as u64
        } else {
            (0x7FFF_FFFF_FFFF_FFFFu64 - ((-(prod + 1)) as u64)) + 0x8000_0000_0000_0000
        }
    } else {
        proof {
            assert(dst * src <= 0xFFFF_FFFF * 0xFFFF_FFFF) by (nonlinear_arith)
                requires
                    dst <= 0xFFFF_FFFF,
                    src <= 0xFFFF_FFFF,
            ;
        }
        (dst as u64) * (src as u64)
    };
    proof {
        assert(pu as int == p % 0x1_0000_0000_0000_0000);
    }
    let lo = (pu % 0x1_0000_0000) as u32;
    let hi = (pu / 0x1_0000_0000) as u32;
    if signed {
        let sign_ext: u32 = if (lo & 0x8000_0000) != 0 {
            0xFFFF_FFFF
        } else {
            0
        };
        (lo, hi, hi != sign_ext)
    } else {
        (lo, hi, hi != 0)
    }
}

/// Long division: (quotient, remainder, overflow). A signed quotient
/// rounds toward zero and the remainder has the dividend's sign; the
/// quotient of the most negative 64-bit dividend by -1 counts as an
/// overflow.
fn divl_compute(hi: u32, lo: u32, divisor: u32, signed: bool, use_64: bool) -> (r: (u32, u32, bool))
    requires
        divisor != 0,
    ensures
        ({
            let n = long_dividend(hi, lo, signed, use_64);
            let d = long_divisor(divisor, signed);
            &&& r.2 == divl_overflows(n, d, signed)
            &&& !r.2 && !signed ==> r.0 == n / d && r.1 == n % d
            &&& !r.2 && signed ==> r.0 == trunc_div(n, d) as i32 as u32 && r.1 == trunc_rem(n, d) as i32 as u32
        }),
{
    let ghost n = long_dividend(hi, lo, signed, use_64);
    let ghost d = long_divisor(divisor, signed);
    if signed {
        proof {
            assert(divisor as i32 != 0) by (bit_vector)
                requires
                    divisor != 0,
            ;
        }
        let dv = divisor as i32 as i64;
        let dividend: i64 = if use_64 {
            let h = hi as i32 as i64;
            h * 0x1_0000_0000 + (lo as i64)
        } else {
            lo as i32 as i64
        };
        let neg_n = dividend < 0;
        let neg_d = dv < 0;
        let an: u64 = if neg_n {
            if dividend == i64::MIN {
                0x8000_0000_0000_0000
            } else {
                (-dividend) as u64
            }
        } else {
            dividend as u64
        };
        let ad: u64 = if neg_d {
            (-dv) as u64
        } else {
            dv as u64
        };
        let aq = an / ad;
        let ar = an % ad;
        proof {
            lemma_trunc_div_rem(n, d);
            assert(aq as int == (if n < 0 { -n } else { n }) / (if d < 0 { -d } else { d }));
            assert(ar as int == (if n < 0 { -n } else { n }) % (if d < 0 { -d } else { d }));
        }
        let overflow = if neg_n != neg_d {
            aq > 0x8000_0000
        } else {
            aq > 0x7FFF_FFFF
        };
        if overflow {
            return (0, 0, true);
        }
        let q: i64 = if neg_n != neg_d {
            -(aq as i64)
        } else {
            aq as i64
        };
        let rem: i64 = if neg_n {
            -(ar as i64)
        } else {
            ar as i64
        };
        proof {
            assert(q == trunc_div(n, d));
            assert(rem == trunc_rem(n, d));
        }
        (q as i32 as u32, rem as i32 as u32, false)
    } else {
        let dv = divisor as u64;
        let dividend: u64 = if use_64 {
            (hi as u64) * 0x1_0000_0000 + (lo as u64)
        } else {
            lo as u64
        };
        let q = dividend / dv;
        let rem = dividend % dv;
        let overflow = q > 0xFFFF_FFFF;
        if overflow {
            return (0, 0, true);
        }
        proof {
            assert(rem < dv);
        }
        (q as u32, rem as u32, false)
    }
}

/// Product law of MUL.L: the low and high long words rebuild the full
/// product modulo 2^64, and the unsigned 32-bit form overflows exactly
/// when the product does not fit 32 bits.
pub proof fn lemma_mull_words(dst: u32, src: u32)
    ensures
        high_long(long_product(dst, src, false)) as int * 0x1_0000_0000 + low_long(
            long_product(dst, src, false),
        ) == long_product(dst, src, false),
        (high_long(long_product(dst, src, false)) != 0) == (long_product(dst, src, false)
            >= 0x1_0000_0000),
{
    let p = long_product(dst, src, false);
    assert(0 <= p <= 0xFFFF_FFFF * 0xFFFF_FFFF) by (nonlinear_arith)
        requires
            p == dst as int * src as int,
    ;
}

impl CpuCore {
    /// The 64-bit forms of MUL.L and DIV.L trap as unimplemented integer
    /// instructions on the 68060.
    pub fn trap_unimpl_060(&self) -> (r: bool)
        ensures
            r == (self.cpu_type == CpuType::M68060),
    {
        self.cpu_type == CpuType::M68060
    }

    /// Register write order of the 64-bit MUL.L result: the 68040/060
    /// write Dh before Dl.
    fn mull_high_written_first(&self) -> (r: bool)
        ensures
            r == (self.cpu_type == CpuType::M68EC040 || self.cpu_type == CpuType::M68LC040
                || self.cpu_type == CpuType::M68040 || self.cpu_type == CpuType::M68060),
    {
        matches!(
            self.cpu_type,
            CpuType::M68EC040 | CpuType::M68LC040 | CpuType::M68040 | CpuType::M68060
        )
    }
}

/// Clocks returned by an exception taken from `cpu` for vector `v`.
pub open spec fn trap_cycles(cpu: CpuCore, v: u32) -> i32 {
    if cpu.exception_processing {
        0
    } else {
        exception_cycles_of(v)
    }
}

/// The source operand mode of a long multiply or divide opcode.
pub open spec fn long_source_mode(opcode: u16) -> Option<AddressingMode> {
    ea_decode_spec(((opcode >> 3u16) & 7) as u8, (opcode & 7) as u8)
}

/// The instruction's first extension word `ext` was fetched at the PC of
/// `cpu` (its pending clocks reported first), and the log `after` has only
/// grown since.
pub open spec fn ext_word_fetched(before: Seq<BusEvent>, after: Seq<BusEvent>, cpu: CpuCore, ext: u16) -> bool {
    log_extends((before + sync_events(cpu.pending_sync_clocks)).push(BusEvent::ReadWord(cpu.pc & cpu.address_mask, ext)), after)
}

/// The source of a long multiply or divide is an operand in memory.
pub open spec fn long_source_in_memory(opcode: u16) -> bool {
    &&& long_source_mode(opcode) matches Some(m)
    &&& !(m is DataDirect) && !(m is AddressDirect) && !(m is Immediate)
}

/// A log that ends with a long read of `v`.
pub open spec fn ends_with_long_read(ev: Seq<BusEvent>, v: u32) -> bool {
    &&& ev.len() > 0
    &&& ev.last() matches BusEvent::ReadLong(_, w) && w == v
}

/// A trap taken from `cpu` on a 32-bit-bus model only appends to the log.
pub(crate) proof fn lemma_trap_extends(before: Seq<BusEvent>, after: Seq<BusEvent>, cpu: CpuCore, new: CpuCore, vector: u32)
    requires
        !cpu.is_pre_68020,
        cpu.exception_processing ==> after == before,
        !cpu.exception_processing && stack_usable(cpu) ==> after == before + sync_events(
            sat_add(cpu.pending_sync_clocks, 4),
        ) + simple_frame_events(cpu, vector) + vector_fetch_events(
            cpu.vbr,
            cpu.address_mask,
            cpu.is_pre_68020,
            new,
            vector,
        ),
    ensures
        log_extends(before, after),
{
    lemma_log_extends_append(before, Seq::empty());
    assert(after.subrange(0, before.len() as int) =~= before);
}

/// `after` is `before` with events appended after it.
pub(crate) proof fn lemma_appended(before: Seq<BusEvent>, after: Seq<BusEvent>, a: Seq<BusEvent>, b: Seq<BusEvent>, c: Seq<BusEvent>)
    requires
        after == before + a + b + c,
    ensures
        log_extends(before, after),
{
    assert(after.subrange(0, before.len() as int) =~= before);
}

/// A data-register source supplies its register.
pub open spec fn long_source_ok(old: CpuCore, opcode: u16, src: u32) -> bool {
    match long_source_mode(opcode) {
        Some(AddressingMode::DataDirect(rg)) => src == old.dar[rg as int],
        _ => true,
    }
}

/// Outcome of MUL.L with extension word `ext` and source `src`.
pub open spec fn mull_outcome(old: CpuCore, new: CpuCore, opcode: u16, ext: u16, src: u32, r: i32) -> bool {
    let signed = ext & 0x0800 != 0;
    let wide = ext & 0x0400 != 0;
    let dl = ((ext >> 12u16) & 7) as int;
    let dh = (ext & 7) as int;
    if wide && old.cpu_type == CpuType::M68060 {
        r == trap_cycles(old, vector::UNIMPLEMENTED_INTEGER)
    } else if long_source_mode(opcode) is None {
        r == trap_cycles(old, vector::ILLEGAL_INSTRUCTION)
    } else {
        let p = long_product(old.dar[dl], src, signed);
        let lo = low_long(p);
        let hi = high_long(p);
        let high_first = old.cpu_type == CpuType::M68EC040 || old.cpu_type == CpuType::M68LC040
            || old.cpu_type == CpuType::M68040 || old.cpu_type == CpuType::M68060;
        &&& long_source_ok(old, opcode, src)
        &&& r == 40
        &&& new.c_flag == 0
        &&& new.x_flag == old.x_flag
        &&& if wide {
            &&& dl != dh ==> new.dar[dl] == lo && new.dar[dh] == hi
            &&& dl == dh ==> new.dar[dl] == (if high_first {
                lo
            } else {
                hi
            })
            &&& new.not_z_flag == lo | hi
            &&& new.n_flag == (if hi & 0x8000_0000 != 0 {
                0x80u32
            } else {
                0u32
            })
            &&& new.v_flag == 0
        } else {
            let overflow = if signed {
                hi != (if lo & 0x8000_0000 != 0 {
                    0xFFFF_FFFFu32
                } else {
                    0u32
                })
            } else {
                hi != 0
            };
            &&& new.dar[dl] == lo
            &&& new.not_z_flag == lo
            &&& new.n_flag == (if lo & 0x8000_0000 != 0 {
                0x80u32
            } else {
                0u32
            })
            &&& new.v_flag == (if overflow {
                0x80u32
            } else {
                0u32
            })
        }
    }
}

/// Outcome of DIV.L with extension word `ext` and source `src`.
pub open spec fn divl_outcome(old: CpuCore, new: CpuCore, opcode: u16, ext: u16, src: u32, r: i32) -> bool {
    let signed = ext & 0x0800 != 0;
    let use_64 = ext & 0x0400 != 0;
    let dq = ((ext >> 12u16) & 7) as int;
    let dr = (ext & 7) as int;
    if use_64 && old.cpu_type == CpuType::M68060 {
        r == trap_cycles(old, vector::UNIMPLEMENTED_INTEGER)
    } else if long_source_mode(opcode) is None {
        r == trap_cycles(old, vector::ILLEGAL_INSTRUCTION)
    } else if src == 0 {
        long_source_ok(old, opcode, src) && r == 38
    } else {
        let n = long_dividend(old.dar[dr], old.dar[dq], signed, use_64);
        let d = long_divisor(src, signed);
        &&& long_source_ok(old, opcode, src)
        &&& r == 40
        &&& new.c_flag == 0
        &&& new.x_flag == old.x_flag
        &&& if divl_overflows(n, d, signed) {
            &&& new.v_flag == 0x80
            &&& new.dar[dq] == old.dar[dq]
            &&& new.dar[dr] == old.dar[dr]
        } else {
            let q = if signed {
                trunc_div(n, d) as i32 as u32
            } else {
                (n / d) as u32
            };
            let rem = if signed {
                trunc_rem(n, d) as i32 as u32
            } else {
                (n % d) as u32
            };
            &&& new.dar[dq] == q
            &&& dq != dr ==> new.dar[dr] == rem
            &&& new.not_z_flag == q
            &&& new.n_flag == (if q & 0x8000_0000 != 0 {
                0x80u32
            } else {
                0u32
            })
            &&& new.v_flag == 0
        }
    }
}

/// Register fields of a long multiply/divide extension word.
pub proof fn lemma_ext_fields(ext: u16, opcode: u16)
    ensures
        (ext >> 12u16) & 7 < 8,
        ext & 7 < 8,
        (opcode >> 3u16) & 7 < 8,
        opcode & 7 < 8,
        (ext >> 12u16) & 0xF < 16,
        (opcode >> 9u16) & 7 < 8,
        (((opcode >> 8u16) & 0xF) as u8) < 16,
{
    assert((ext >> 12u16) & 7 < 8 && ext & 7 < 8 && (opcode >> 3u16) & 7 < 8 && opcode & 7 < 8
        && (ext >> 12u16) & 0xF < 16 && (opcode >> 9u16) & 7 < 8 && (((opcode >> 8u16) & 0xF) as u8)
        < 16) by (bit_vector);
}

impl CpuCore {
    /// DIVU.L/DIVS.L/DIVUL.L/DIVSL.L: the extension word selects signed
    /// division (bit 11), a 64-bit dividend in Dr:Dq (bit 10), the quotient
    /// register Dq (bits 14..12) and the remainder register Dr (bits 2..0).
    /// The remainder is written first, so the quotient wins when Dr == Dq.
    pub fn exec_divl<B: AddressBus>(&mut self, bus: &mut B, opcode: u16) -> (r: i32)
        ensures
            exists|ext: u16, src: u32|
                #[trigger] divl_outcome(*old(self), *final(self), opcode, ext, src, r) && (!old(self).is_pre_68020
                    ==> ext_word_fetched(old(bus).events(), final(bus).events(), *old(self), ext)) && (!old(
                    self,
                ).is_pre_68020 && r == 40 && long_source_in_memory(opcode) ==> ends_with_long_read(
                    final(bus).events(),
                    src,
                )),
    {
        let ext = self.read_imm_16(bus);
        let ghost e1 = bus.events();
        proof {
            lemma_log_extends_append(e1, Seq::empty());
        }
        let signed = (ext & 0x0800) != 0;
        let use_64 = (ext & 0x0400) != 0;
        if use_64 && self.trap_unimpl_060() {
            let ghost s1 = *self;
            let r = self.take_exception(bus, vector::UNIMPLEMENTED_INTEGER);
            proof {
                assert(divl_outcome(*old(self), *self, opcode, ext, 0, r));
                if !old(self).is_pre_68020 {
                    lemma_trap_extends(e1, bus.events(), s1, *self, vector::UNIMPLEMENTED_INTEGER);
                }
            }
            return r;
        }
        proof {
            lemma_ext_fields(ext, opcode);
        }
        let dq = ((ext >> 12u16) & 7) as usize;
        let dr = (ext & 7) as usize;
        let ea_mode = ((opcode >> 3u16) & 7) as u8;
        let ea_reg = (opcode & 7) as u8;
        let mode = match AddressingMode::decode(ea_mode, ea_reg) {
            Some(m) => m,
            None => {
                let ghost s1 = *self;
                let r = self.take_exception(bus, vector::ILLEGAL_INSTRUCTION);
                proof {
                    assert(divl_outcome(*old(self), *self, opcode, ext, 0, r));
                    if !old(self).is_pre_68020 {
                        lemma_trap_extends(e1, bus.events(), s1, *self, vector::ILLEGAL_INSTRUCTION);
                    }
                }
                return r;
            },
        };
        let ghost before = *self;
        let divisor_u32 = self.read_ea(bus, mode, Size::Long);
        let ghost e2 = bus.events();
        proof {
            crate::types::lemma_mask_bounds(before.dar[mode->DataDirect_0 as int]);
        }
        if divisor_u32 == 0 {
            let ghost s2 = *self;
            let r = self.exception_zero_divide(bus);
            proof {
                assert(divl_outcome(*old(self), *self, opcode, ext, divisor_u32, r));
                if !old(self).is_pre_68020 {
                    assert(stack_usable(s2));
                    lemma_appended(
                        e2,
                        bus.events(),
                        sync_events(s2.pending_sync_clocks),
                        crate::exceptions::group2_frame_events(s2, vector::ZERO_DIVIDE),
                        vector_fetch_events(s2.vbr, s2.address_mask, s2.is_pre_68020, *self, vector::ZERO_DIVIDE),
                    );
                    lemma_log_extends_trans(e1, e2, bus.events());
                }
            }
            return r;
        }
        let hi = self.d(dr);
        let lo = self.d(dq);
        let (quot_u32, rem_u32, overflow) = divl_compute(hi, lo, divisor_u32, signed, use_64);
        if overflow {
            self.v_flag = 0x80;
            self.c_flag = 0;
            proof {
                assert(divl_outcome(*old(self), *self, opcode, ext, divisor_u32, 40));
            }
            return 40;
        }
        self.set_d(dr, rem_u32);
        self.set_d(dq, quot_u32);
        self.not_z_flag = quot_u32;
        self.n_flag = if (quot_u32 & 0x8000_0000) != 0 {
            0x80
        } else {
            0
        };
        self.v_flag = 0;
        self.c_flag = 0;
        proof {
            assert(divl_outcome(*old(self), *self, opcode, ext, divisor_u32, 40));
        }
        40
    }

    /// MULU.L/MULS.L: the extension word selects a signed product (bit 11),
    /// a 64-bit result in Dh:Dl (bit 10), Dl (bits 14..12) and Dh
    /// (bits 2..0). The 32-bit form sets V when the product does not fit.
    pub fn exec_mull<B: AddressBus>(&mut self, bus: &mut B, opcode: u16) -> (r: i32)
        ensures
            exists|ext: u16, src: u32|
                #[trigger] mull_outcome(*old(self), *final(self), opcode, ext, src, r) && (!old(self).is_pre_68020
                    ==> ext_word_fetched(old(bus).events(), final(bus).events(), *old(self), ext)) && (!old(
                    self,
                ).is_pre_68020 && r == 40 && long_source_in_memory(opcode) ==> ends_with_long_read(
                    final(bus).events(),
                    src,
                )),
    {
        let ext = self.read_imm_16(bus);
        let ghost e1 = bus.events();
        proof {
            lemma_log_extends_append(e1, Seq::empty());
        }
        let signed = (ext & 0x0800) != 0;
        let wide = (ext & 0x0400) != 0;
        if wide && self.trap_unimpl_060() {
            let ghost s1 = *self;
            let r = self.take_exception(bus, vector::UNIMPLEMENTED_INTEGER);
            proof {
                assert(mull_outcome(*old(self), *self, opcode, ext, 0, r));
                if !old(self).is_pre_68020 {
                    lemma_trap_extends(e1, bus.events(), s1, *self, vector::UNIMPLEMENTED_INTEGER);
                }
            }
            return r;
        }
        proof {
            lemma_ext_fields(ext, opcode);
        }
        let dl = ((ext >> 12u16) & 7) as usize;
        let dh = (ext & 7) as usize;
        let ea_mode = ((opcode >> 3u16) & 7) as u8;
        let ea_reg = (opcode & 7) as u8;
        let mode = match AddressingMode::decode(ea_mode, ea_reg) {
            Some(m) => m,
            None => {
                let ghost s1 = *self;
                let r = self.take_exception(bus, vector::ILLEGAL_INSTRUCTION);
                proof {
                    assert(mull_outcome(*old(self), *self, opcode, ext, 0, r));
                    if !old(self).is_pre_68020 {
                        lemma_trap_extends(e1, bus.events(), s1, *self, vector::ILLEGAL_INSTRUCTION);
                    }
                }
                return r;
            },
        };
        let ghost before = *self;
        let src = self.read_ea(bus, mode, Size::Long);
        proof {
            crate::types::lemma_mask_bounds(before.dar[mode->DataDirect_0 as int]);
            if !old(self).is_pre_68020 {
                lemma_log_extends_trans(e1, e1, bus.events());
            }
        }
        let dst = self.d(dl);
        let (lo, hi, overflow) = mull_compute(dst, src, signed);
        if wide {
            if self.mull_high_written_first() {
                self.set_d(dh, hi);
                self.set_d(dl, lo);
            } else {
                self.set_d(dl, lo);
                self.set_d(dh, hi);
            }
            self.not_z_flag = lo | hi;
            self.n_flag = if (hi & 0x8000_0000) != 0 {
                0x80
            } else {
                0
            };
            self.v_flag = 0;
            self.c_flag = 0;
            proof {
                assert(mull_outcome(*old(self), *self, opcode, ext, src, 40));
            }
            return 40;
        }
        self.set_d(dl, lo);
        self.not_z_flag = lo;
        self.n_flag = if (lo & 0x8000_0000) != 0 {
            0x80
        } else {
            0
        };
        self.v_flag = if overflow {
            0x80
        } else {
            0
        };
        self.c_flag = 0;
        proof {
            assert(mull_outcome(*old(self), *self, opcode, ext, src, 40));
        }
        40
    }
}

} // verus!
