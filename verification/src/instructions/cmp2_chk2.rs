//! 68020+ CMP2/CHK2: compare a register against a pair of bounds read from
//! memory; CHK2 traps through the CHK vector when it is out of range.
//!
//! Everything is compared as signed 32-bit values: byte and word bounds
//! are sign-extended, and so is a data-register operand, while an address
//! register operand compares its full 32 bits. Z is set when the operand
//! equals either bound; C when it lies outside them, where reversed bounds
//! (lower above upper) select the wrapped range.

use vstd::prelude::*;
use crate::cpu::{CpuCore, CFLAG_SET};
use crate::ea::{AddressingMode, mode_ok, ea_decode_spec};
use crate::exceptions::exception_cycles_of;
use crate::memory::{AddressBus, BusEvent};
use crate::instructions::mul_div_long::ext_word_fetched;
use crate::instructions::data_movement::read_event;
use crate::mem_ops::{sync_events, log_extends, lemma_log_extends_append, lemma_log_extends_trans};
use crate::types::{Size, size_mask, size_bytes};
use crate::mem_ops::{access_faults, checked_pair, lemma_even_steps};
use crate::exceptions::{address_error_taken, stack_usable};
use crate::instructions::mul_div_long::{lemma_trap_extends, lemma_appended};
use crate::vector;
use crate::instructions::mul_div_long::lemma_ext_fields;

verus! {

/// A bound of `size`, sign-extended to 32 bits.
pub open spec fn bound_value(v: u32, size: Size) -> int {
    match size {
        Size::Byte => (v as u8 as i8) as int,
        Size::Word => (v as u16 as i16) as int,
        Size::Long => (v as i32) as int,
    }
}

/// The compared operand: a data register is sign-extended from `size`, an
/// address register taken whole.
pub open spec fn bounds_operand(raw: u32, size: Size, address_register: bool) -> int {
    if address_register {
        (raw as i32) as int
    } else {
        bound_value(raw, size)
    }
}

/// The operand equals one of the bounds.
pub open spec fn on_bound(lower: int, upper: int, v: int) -> bool {
    v == lower || v == upper
}

/// The operand lies outside the bounds (the wrapped range when they are
/// reversed) and on neither of them.
pub open spec fn out_of_bounds(lower: int, upper: int, v: int) -> bool {
    !on_bound(lower, upper, v) && if lower <= upper {
        v < lower || v > upper
    } else {
        v > upper && v < lower
    }
}

/// The operand size of the opcode's size field, if valid.
pub open spec fn bounds_size(opcode: u16) -> Option<Size> {
    let bits = (opcode >> 9u16) & 3;
    if bits == 0 {
        Some(Size::Byte)
    } else if bits == 1 {
        Some(Size::Word)
    } else if bits == 2 {
        Some(Size::Long)
    } else {
        None
    }
}

/// Outcome of CMP2/CHK2 for extension word `ext`, bounds `lo`/`hi` as read
/// and register value `raw`.
pub open spec fn bounds_outcome(
    old: CpuCore,
    new: CpuCore,
    opcode: u16,
    ext: u16,
    lo: u32,
    hi: u32,
    raw: u32,
    r: i32,
) -> bool {
    let illegal = if old.exception_processing {
        0i32
    } else {
        exception_cycles_of(vector::ILLEGAL_INSTRUCTION)
    };
    let mode = ea_decode_spec(((opcode >> 3u16) & 7) as u8, (opcode & 7) as u8);
    match bounds_size(opcode) {
        None => r == illegal,
        Some(size) => if mode is None || mode == Some(AddressingMode::Immediate) {
            r == illegal
        } else {
            let lower = bound_value(lo, size);
            let upper = bound_value(hi, size);
            let v = bounds_operand(raw, size, ((ext >> 12u16) & 0xF) >= 8);
            let out = out_of_bounds(lower, upper, v);
            &&& new.c_flag == (if out {
                CFLAG_SET
            } else {
                0
            })
            &&& new.v_flag == 0
            &&& new.n_flag == 0
            &&& new.not_z_flag == (if on_bound(lower, upper, v) {
                0u32
            } else {
                1u32
            })
            &&& r == (if (ext & 0x0800) != 0 && out {
                40i32
            } else {
                12i32
            })
        },
    }
}

/// The log ends with the reads of the two bounds of `size`: `lo` at `addr`
/// and `hi` at the next operand.
pub open spec fn bounds_read(ev: Seq<BusEvent>, addr: u32, mask: u32, size: Size, lo: u32, hi: u32) -> bool {
    &&& ev.len() >= 2
    &&& ev[ev.len() - 2] == read_event(addr & mask, size, lo)
    &&& ev.last() == read_event(addr.wrapping_add(size_bytes(size)) & mask, size, hi)
}

/// On a 32-bit-bus model, where CMP2/CHK2 found its operands: the
/// extension word `ext` fetched after the opcode, the register `raw` as it
/// was (modes that do not move an address register), and, unless the
/// instruction trapped, the bounds read last, at `addr` (An for `(An)`).
pub open spec fn bounds_fetched(
    before: Seq<BusEvent>,
    after: Seq<BusEvent>,
    cpu: CpuCore,
    opcode: u16,
    ext: u16,
    lo: u32,
    hi: u32,
    raw: u32,
    addr: u32,
    r: i32,
) -> bool {
    let mode = ea_decode_spec(((opcode >> 3u16) & 7) as u8, (opcode & 7) as u8);
    match bounds_size(opcode) {
        None => true,
        Some(size) => {
            &&& ext_word_fetched(before, after, cpu, ext)
            &&& match mode {
                Some(m) => m != AddressingMode::Immediate ==> {
                    &&& (m matches AddressingMode::AddressIndirect(n) ==> addr == cpu.dar[8 + n])
                    &&& (!(m is PostIncrement) && !(m is PreDecrement) ==> raw == cpu.dar[((ext >> 12u16) & 0xF) as int])
                    &&& r == 12 ==> bounds_read(after, addr, cpu.address_mask, size, lo, hi)
                },
                None => true,
            }
        },
    }
}

/// The outcome of CMP2/CHK2 together with, on a 32-bit-bus model, where it
/// found its operands.
pub open spec fn bounds_done(
    old: CpuCore,
    new: CpuCore,
    before: Seq<BusEvent>,
    after: Seq<BusEvent>,
    opcode: u16,
    ext: u16,
    lo: u32,
    hi: u32,
    raw: u32,
    addr: u32,
    r: i32,
) -> bool {
    &&& bounds_outcome(old, new, opcode, ext, lo, hi, raw, r)
    &&& !old.is_pre_68020 ==> bounds_fetched(before, after, old, opcode, ext, lo, hi, raw, addr, r)
}

/// A bound of `size` read from memory, sign-extended.
fn bound_of(v: u32, size: Size) -> (r: i32)
    ensures
        r == bound_value(v, size),
{
    match size {
        Size::Byte => v as u8 as i8 as i32,
        Size::Word => v as u16 as i16 as i32,
        Size::Long => v as i32,
    }
}

/// The compared register value.
fn operand_of(raw: u32, size: Size, address_register: bool) -> (r: i32)
    ensures
        r == bounds_operand(raw, size, address_register),
{
    if address_register {
        raw as i32
    } else {
        bound_of(raw, size)
    }
}

/// Register number (0..15, D0-D7 then A0-A7) of the extension word.
fn ext_register(ext: u16) -> (r: usize)
    ensures
        r == ((ext >> 12u16) & 0xF) as usize,
        r < 16,
{
    proof {
        lemma_ext_fields(ext, 0);
    }
    ((ext >> 12u16) & 0xF) as usize
}

/// The source mode of the opcode.
fn bounds_mode(opcode: u16) -> (r: Option<AddressingMode>)
    ensures
        r == ea_decode_spec(((opcode >> 3u16) & 7) as u8, (opcode & 7) as u8),
        r matches Some(m) ==> mode_ok(m),
{
    proof {
        lemma_ext_fields(0, opcode);
    }
    AddressingMode::decode(((opcode >> 3u16) & 7) as u8, (opcode & 7) as u8)
}

impl CpuCore {
    /// The lower and upper bound of `size` at `addr` and the next operand.
    fn read_bounds<B: AddressBus>(&mut self, bus: &mut B, addr: u32, size: Size) -> (r: (u32, u32))
        ensures
            checked_pair(*old(self), *final(self), addr, size),
            r.0 <= size_mask(size),
            r.1 <= size_mask(size),
            access_faults(old(self).is_pre_68020, addr, size) ==> r == (0u32, 0u32),
            !old(self).is_pre_68020 ==> final(bus).events() == (old(bus).events() + sync_events(
                old(self).pending_sync_clocks,
            )).push(read_event(addr & old(self).address_mask, size, r.0)).push(
                read_event(addr.wrapping_add(size_bytes(size)) & old(self).address_mask, size, r.1),
            ),
    {
        proof {
            assert(sync_events(0u32) =~= Seq::<BusEvent>::empty());
        }
        match size {
            Size::Byte => {
                let lo = self.read_8(bus, addr) as u32;
                let hi = self.read_8(bus, addr.wrapping_add(1)) as u32;
                (lo, hi)
            },
            Size::Word => {
                let ghost s0 = *self;
                let lo = self.read_16(bus, addr) as u32;
                let ghost s1 = *self;
                proof {
                    if addr & 1 == 1 {
                        lemma_even_steps(addr);
                    } else {
                        lemma_even_steps(addr);
                    }
                }
                let hi = self.read_16(bus, addr.wrapping_add(2)) as u32;
                proof {
                    if access_faults(s0.is_pre_68020, addr, size) {
                        assert(address_error_taken(s0, s1) && address_error_taken(s1, *self));
                    }
                }
                (lo, hi)
            },
            Size::Long => {
                let ghost s0 = *self;
                let lo = self.read_32(bus, addr);
                let ghost s1 = *self;
                proof {
                    if addr & 1 == 1 {
                        lemma_even_steps(addr);
                    } else {
                        lemma_even_steps(addr);
                    }
                }
                let hi = self.read_32(bus, addr.wrapping_add(4));
                proof {
                    if access_faults(s0.is_pre_68020, addr, size) {
                        assert(address_error_taken(s0, s1) && address_error_taken(s1, *self));
                    }
                }
                (lo, hi)
            },
        }
    }

    /// CMP2/CHK2 <ea>,Rn: read the lower and upper bound from consecutive
    /// operands at `<ea>` and compare Rn against them.
    pub fn exec_cmp2_chk2<B: AddressBus>(&mut self, bus: &mut B, opcode: u16) -> (r: i32)
        ensures
            exists|ext: u16, lo: u32, hi: u32, raw: u32, addr: u32|
                #[trigger] bounds_done(
                    *old(self),
                    *final(self),
                    old(bus).events(),
                    final(bus).events(),
                    opcode,
                    ext,
                    lo,
                    hi,
                    raw,
                    addr,
                    r,
                ),
    {
        let bits = (opcode >> 9u16) & 3;
        let size = if bits == 0 {
            Size::Byte
        } else if bits == 1 {
            Size::Word
        } else if bits == 2 {
            Size::Long
        } else {
            let r = self.take_exception(bus, vector::ILLEGAL_INSTRUCTION);
            proof {
                assert(bounds_outcome(*old(self), *self, opcode, 0, 0, 0, 0, r));
                assert(bounds_done(*old(self), *self, old(bus).events(), bus.events(), opcode, 0, 0, 0, 0, 0, r));
            }
            return r;
        };
        let ext = self.read_imm_16(bus);
        let ghost e1 = bus.events();
        let ghost s1 = *self;
        proof {
            lemma_log_extends_append(e1, Seq::empty());
        }
        let is_chk2 = (ext & 0x0800) != 0;
        let rn = ext_register(ext);
        let mode = match bounds_mode(opcode) {
            Some(m) => m,
            None => {
                let r = self.take_exception(bus, vector::ILLEGAL_INSTRUCTION);
                proof {
                    assert(bounds_outcome(*old(self), *self, opcode, ext, 0, 0, 0, r));
                    if !old(self).is_pre_68020 {
                        lemma_trap_extends(e1, bus.events(), s1, *self, vector::ILLEGAL_INSTRUCTION);
                    }
                    assert(bounds_done(*old(self), *self, old(bus).events(), bus.events(), opcode, ext, 0, 0, 0, 0, r));
                }
                return r;
            },
        };
        if matches!(mode, AddressingMode::Immediate) {
            let r = self.take_exception(bus, vector::ILLEGAL_INSTRUCTION);
            proof {
                assert(bounds_outcome(*old(self), *self, opcode, ext, 0, 0, 0, r));
                if !old(self).is_pre_68020 {
                    lemma_trap_extends(e1, bus.events(), s1, *self, vector::ILLEGAL_INSTRUCTION);
                }
                assert(bounds_done(*old(self), *self, old(bus).events(), bus.events(), opcode, ext, 0, 0, 0, 0, r));
            }
            return r;
        }
        let addr = self.get_ea_address(bus, mode, size);
        let ghost e2 = bus.events();
        let ghost s2 = *self;
        let (lower_u, upper_u) = self.read_bounds(bus, addr, size);
        let ghost e3 = bus.events();
        proof {
            if !old(self).is_pre_68020 {
                lemma_log_extends_trans(e1, e1, e2);
                lemma_log_extends_append(e2, sync_events(s2.pending_sync_clocks).push(read_event(addr & s2.address_mask, size, lower_u)).push(read_event(addr.wrapping_add(size_bytes(size)) & s2.address_mask, size, upper_u)));
                assert(e3 =~= e2 + sync_events(s2.pending_sync_clocks).push(read_event(addr & s2.address_mask, size, lower_u)).push(read_event(addr.wrapping_add(size_bytes(size)) & s2.address_mask, size, upper_u)));
                lemma_log_extends_trans(e1, e2, e3);
            }
        }
        let is_areg = rn >= 8;
        let raw = if is_areg {
            self.a(rn - 8)
        } else {
            self.d(rn)
        };
        let lower = bound_of(lower_u, size);
        let upper = bound_of(upper_u, size);
        let reg_val = operand_of(raw, size, is_areg);
        let hit = reg_val == lower || reg_val == upper;
        let out_of_range = !hit && if lower <= upper {
            reg_val < lower || reg_val > upper
        } else {
            reg_val > upper && reg_val < lower
        };
        self.c_flag = if out_of_range {
            CFLAG_SET
        } else {
            0
        };
        self.v_flag = 0;
        self.not_z_flag = if hit {
            0
        } else {
            1
        };
        self.n_flag = 0;
        if is_chk2 && out_of_range {
            let ghost s3 = *self;
            let r = self.exception_chk(bus);
            proof {
                assert(bounds_outcome(*old(self), *self, opcode, ext, lower_u, upper_u, raw, r));
                if !old(self).is_pre_68020 {
                    assert(stack_usable(s3));
                    lemma_appended(
                        e3,
                        bus.events(),
                        sync_events(s3.pending_sync_clocks),
                        crate::exceptions::group2_frame_events(s3, vector::CHK),
                        crate::mem_ops::vector_fetch_events(s3.vbr, s3.address_mask, s3.is_pre_68020, *self, vector::CHK),
                    );
                    lemma_log_extends_trans(e1, e3, bus.events());
                }
                assert(bounds_done(*old(self), *self, old(bus).events(), bus.events(), opcode, ext, lower_u, upper_u, raw, addr, r));
            }
            return r;
        }
        proof {
            assert(bounds_outcome(*old(self), *self, opcode, ext, lower_u, upper_u, raw, 12));
            if !old(self).is_pre_68020 {
            }
            assert(bounds_done(*old(self), *self, old(bus).events(), bus.events(), opcode, ext, lower_u, upper_u, raw, addr, 12));
        }
        12
    }
}

} // verus!
