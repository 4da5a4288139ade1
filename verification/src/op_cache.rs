//! Decoded simple-operation cache.
//!
//! Simple one-word instructions that touch no memory, read no extension
//! word, cannot trap and need no rollback are decoded once into a small
//! micro-operation and cached by address. One-word short branches are
//! included: their fetch timing is local to the instruction. The opcode is
//! still fetched at every instruction boundary, so bus and address-error
//! timing is that of the interpreter.
//!
//! `decode_spec` is the decoding table; `op_effect` says what each
//! micro-operation does to the registers and flags and how many clocks it
//! takes. Every cache entry is a faithful decode of its key (`cache_wf`),
//! so a cache hit behaves exactly as a fresh decode.

use vstd::prelude::*;
use crate::cpu::{CpuCore, DECODED_OP_CACHE_SIZE, RUN_MODE_NORMAL, RUN_MODE_BERR_AERR_RESET, condition_holds};
use crate::instructions::integer_arith::{sext8, sext16, sign_extend_byte, ccr_logic};
use crate::instructions::data_movement::exg_result;
use crate::reg_ops::{
    reg_operand, data_written, regs_of, unary_effect, binary_effect, addr_effect, addsubx_effect,
    bit_effect, swap_effect, bcd_reg_effect, shift_reg_effect, shift_count,
};
use crate::instructions::shift::{shift_cycles, shift_spec};
use crate::instructions::integer_arith::sized_write;
use crate::flags::{condition_after_compare, modulus};
use crate::memory::AddressBus;
use crate::types::{CpuType, Size, size_mask, is_pre_68020_type, cpu_is_pre_68020, lemma_field_bounds};

verus! {

/// A cached decode of the one-word instruction at `pc`.
#[derive(Debug, Clone, Copy)]
pub struct DecodedOpCacheEntry {
    /// Address of the instruction.
    pub pc: u32,
    /// Its opcode.
    pub opcode: u16,
    /// The model it was decoded for.
    pub cpu_type: CpuType,
    /// The decoded micro-operation.
    pub op: DecodedSimpleOp,
}

/// A register operand: data or address register 0-7.
#[derive(Debug, Clone, Copy, PartialEq, Eq, Structural)]
pub enum DirectReg {
    Data(u8),
    Addr(u8),
}

/// One-operand data-register operations.
#[derive(Debug, Clone, Copy, PartialEq, Eq, Structural)]
pub enum UnaryOp {
    Clr,
    Neg,
    Negx,
    Not,
    Tst,
}

/// Two-operand data-register operations.
#[derive(Debug, Clone, Copy, PartialEq, Eq, Structural)]
pub enum BinaryOp {
    Add,
    Sub,
    And,
    Or,
    Eor,
    Cmp,
}

/// Address-register arithmetic.
#[derive(Debug, Clone, Copy, PartialEq, Eq, Structural)]
pub enum AddrOp {
    Adda,
    Suba,
    Cmpa,
}

/// Single-bit operations with a register bit number.
#[derive(Debug, Clone, Copy, PartialEq, Eq, Structural)]
pub enum BitOp {
    Test,
    Change,
    Clear,
    SetBit,
}

/// A decoded register-only instruction.
#[derive(Debug, Clone, Copy, PartialEq, Eq, Structural)]
pub enum DecodedSimpleOp {
    Nop,
    MoveReg { src: DirectReg, dst: DirectReg, size: Size },
    Moveq { reg: u8, data: u32 },
    UnaryDataReg { op: UnaryOp, reg: u8, size: Size },
    Swap { reg: u8 },
    Ext { reg: u8, size: Size },
    Extb { reg: u8 },
    AddqSubqReg { reg: u8, data: u32, size: Size, is_sub: bool },
    AddqSubqAddr { reg: u8, data: u32, is_sub: bool },
    BinaryDataReg { op: BinaryOp, src: DirectReg, dst: u8, size: Size, cycles: i32 },
    AddrDataReg { op: AddrOp, src: DirectReg, dst: u8, size: Size },
    AddSubxReg { src: u8, dst: u8, size: Size, is_sub: bool },
    BitReg { op: BitOp, bit_reg: u8, dst: u8 },
    BcdReg { src: u8, dst: u8, is_sub: bool },
    Exg { opcode: u16 },
    SccDataReg { condition: u8, reg: u8 },
    ShiftReg {
        reg: u8,
        size: Size,
        count_or_reg: u8,
        count_is_register: bool,
        direction: u8,
        op: u8,
    },
    BranchShort { condition: u8, displacement: i8 },
}

/// Outcome of a run of cached operations.
#[derive(Debug, Clone, Copy, PartialEq, Eq, Structural)]
pub enum CachedRunResult {
    /// The cycle budget was used up.
    Ran,
    /// The opcode fetched has no simple decode; the interpreter takes over.
    Miss(u16),
    /// The opcode fetch faulted.
    Fault,
}

// ----- the decoding table -------------------------------------------------

/// Operand size of a two-bit size field (the unused value 3 reads as a
/// byte).
pub open spec fn size_field(bits: u16) -> Size {
    if bits == 1 {
        Size::Word
    } else if bits == 2 {
        Size::Long
    } else {
        Size::Byte
    }
}

/// A register operand from an effective-address mode and register field.
pub open spec fn direct_reg_spec(mode: u16, reg: u16) -> Option<DirectReg> {
    if mode == 0 {
        Some(DirectReg::Data(reg as u8))
    } else if mode == 1 {
        Some(DirectReg::Addr(reg as u8))
    } else {
        None
    }
}

/// MOVE between registers (no byte moves to an address register).
pub open spec fn decode_move_reg_spec(opcode: u16, size: Size) -> Option<DecodedSimpleOp> {
    match direct_reg_spec((opcode >> 3u16) & 7, opcode & 7) {
        None => None,
        Some(src) => {
            let dst_reg = ((opcode >> 9u16) & 7) as u8;
            let dst_mode = (opcode >> 6u16) & 7;
            if dst_mode == 0 {
                Some(DecodedSimpleOp::MoveReg { src, dst: DirectReg::Data(dst_reg), size })
            } else if dst_mode == 1 && size != Size::Byte {
                Some(DecodedSimpleOp::MoveReg { src, dst: DirectReg::Addr(dst_reg), size })
            } else {
                None
            }
        },
    }
}

/// The unary operation of a group-4 opcode, by bits 8-11.
pub open spec fn unary_of_field(f: u16) -> Option<UnaryOp> {
    if f == 0 {
        Some(UnaryOp::Negx)
    } else if f == 2 {
        Some(UnaryOp::Clr)
    } else if f == 4 {
        Some(UnaryOp::Neg)
    } else if f == 6 {
        Some(UnaryOp::Not)
    } else if f == 0xA {
        Some(UnaryOp::Tst)
    } else {
        None
    }
}

/// NEGX, CLR, NEG, NOT or TST of a data register.
pub open spec fn decode_group_4_spec(opcode: u16) -> Option<DecodedSimpleOp> {
    let size_bits = (opcode >> 6u16) & 3;
    if (opcode >> 3u16) & 7 != 0 || size_bits == 3 {
        None
    } else {
        match unary_of_field((opcode >> 8u16) & 0xF) {
            None => None,
            Some(op) => Some(
                DecodedSimpleOp::UnaryDataReg { op, reg: (opcode & 7) as u8, size: size_field(size_bits) },
            ),
        }
    }
}

/// A two-operand data-register operation with a register source.
pub open spec fn binary_with(op: BinaryOp, src: Option<DirectReg>, dst: u8, size: Size) -> Option<DecodedSimpleOp> {
    match src {
        None => None,
        Some(src) => Some(DecodedSimpleOp::BinaryDataReg { op, src, dst, size, cycles: 4 }),
    }
}

/// An address-register operation with a register source.
pub open spec fn addr_with(op: AddrOp, src: Option<DirectReg>, dst: u8, op_mode: u16) -> Option<DecodedSimpleOp> {
    match src {
        None => None,
        Some(src) => Some(
            DecodedSimpleOp::AddrDataReg {
                op,
                src,
                dst,
                size: if op_mode == 3 {
                    Size::Word
                } else {
                    Size::Long
                },
            },
        ),
    }
}

/// Register forms of the OR/SBCD, SUB, CMP/EOR, AND/ABCD/EXG and ADD
/// groups.
pub open spec fn decode_alu_spec(opcode: u16) -> Option<DecodedSimpleOp> {
    let group = (opcode >> 12u16) & 0xF;
    let reg = ((opcode >> 9u16) & 7) as u8;
    let ea_mode = (opcode >> 3u16) & 7;
    let ea_reg = (opcode & 7) as u8;
    let op_mode = (opcode >> 6u16) & 7;
    let src = direct_reg_spec(ea_mode, opcode & 7);
    if group == 0x8 {
        if op_mode <= 2 {
            binary_with(BinaryOp::Or, src, reg, size_field(op_mode))
        } else if op_mode == 4 && ea_mode == 0 {
            Some(DecodedSimpleOp::BcdReg { src: ea_reg, dst: reg, is_sub: true })
        } else {
            None
        }
    } else if group == 0x9 || group == 0xD {
        let is_sub = group == 0x9;
        if op_mode <= 2 {
            binary_with(if is_sub { BinaryOp::Sub } else { BinaryOp::Add }, src, reg, size_field(op_mode))
        } else if op_mode == 3 || op_mode == 7 {
            addr_with(if is_sub { AddrOp::Suba } else { AddrOp::Adda }, src, reg, op_mode)
        } else if ea_mode == 0 {
            Some(DecodedSimpleOp::AddSubxReg { src: ea_reg, dst: reg, size: size_field((op_mode - 4) as u16), is_sub })
        } else {
            None
        }
    } else if group == 0xB {
        if op_mode <= 2 {
            binary_with(BinaryOp::Cmp, src, reg, size_field(op_mode))
        } else if op_mode == 3 || op_mode == 7 {
            addr_with(AddrOp::Cmpa, src, reg, op_mode)
        } else if ea_mode == 0 {
            Some(
                DecodedSimpleOp::BinaryDataReg {
                    op: BinaryOp::Eor,
                    src: DirectReg::Data(reg),
                    dst: ea_reg,
                    size: size_field((op_mode - 4) as u16),
                    cycles: 8,
                },
            )
        } else {
            None
        }
    } else if group == 0xC {
        let mode_field = (opcode >> 3u16) & 0x1F;
        if op_mode <= 2 {
            binary_with(BinaryOp::And, src, reg, size_field(op_mode))
        } else if op_mode == 4 && ea_mode == 0 {
            Some(DecodedSimpleOp::BcdReg { src: ea_reg, dst: reg, is_sub: false })
        } else if mode_field == 0x08 || mode_field == 0x09 || mode_field == 0x11 {
            Some(DecodedSimpleOp::Exg { opcode })
        } else {
            None
        }
    } else {
        None
    }
}

/// The bit operation of a dynamic bit instruction, by bits 6-7.
pub open spec fn bit_of_field(f: u16) -> BitOp {
    if f == 0 {
        BitOp::Test
    } else if f == 1 {
        BitOp::Change
    } else if f == 2 {
        BitOp::Clear
    } else {
        BitOp::SetBit
    }
}

/// The simple decode of `opcode` on `cpu_type`, or `None` where the
/// instruction needs the full interpreter.
pub open spec fn decode_spec(cpu_type: CpuType, opcode: u16) -> Option<DecodedSimpleOp> {
    let group = (opcode >> 12u16) & 0xF;
    let reg = (opcode & 7) as u8;
    let mode = (opcode >> 3u16) & 7;
    let size_bits = (opcode >> 6u16) & 3;
    if 1 <= group <= 3 {
        decode_move_reg_spec(
            opcode,
            if group == 1 {
                Size::Byte
            } else if group == 2 {
                Size::Long
            } else {
                Size::Word
            },
        )
    } else if group == 7 {
        Some(DecodedSimpleOp::Moveq { reg: ((opcode >> 9u16) & 7) as u8, data: sext8((opcode & 0xFF) as u32) })
    } else if opcode == 0x4E71 {
        Some(DecodedSimpleOp::Nop)
    } else if group == 4 && decode_group_4_spec(opcode) is Some {
        decode_group_4_spec(opcode)
    } else if group == 0 && opcode & 0x0100 != 0 && mode == 0 {
        Some(DecodedSimpleOp::BitReg { op: bit_of_field(size_bits), bit_reg: ((opcode >> 9u16) & 7) as u8, dst: reg })
    } else if opcode & 0xFFF8 == 0x4840 {
        Some(DecodedSimpleOp::Swap { reg })
    } else if opcode & 0xFFF8 == 0x4880 {
        Some(DecodedSimpleOp::Ext { reg, size: Size::Word })
    } else if opcode & 0xFFF8 == 0x48C0 {
        Some(DecodedSimpleOp::Ext { reg, size: Size::Long })
    } else if opcode & 0xFFF8 == 0x49C0 && !is_pre_68020_type(cpu_type) {
        Some(DecodedSimpleOp::Extb { reg })
    } else if group == 5 && size_bits != 3 && mode <= 1 {
        let q = ((opcode >> 9u16) & 7) as u32;
        let data: u32 = if q == 0 {
            8
        } else {
            q
        };
        let is_sub = opcode & 0x100 != 0;
        if mode == 1 {
            Some(DecodedSimpleOp::AddqSubqAddr { reg, data, is_sub })
        } else {
            Some(DecodedSimpleOp::AddqSubqReg { reg, data, size: size_field(size_bits), is_sub })
        }
    } else if group == 5 && size_bits == 3 && mode == 0 {
        Some(DecodedSimpleOp::SccDataReg { condition: ((opcode >> 8u16) & 0xF) as u8, reg })
    } else if (group == 0x8 || group == 0x9 || group == 0xB || group == 0xC || group == 0xD)
        && decode_alu_spec(opcode) is Some {
        decode_alu_spec(opcode)
    } else if group == 0xE && opcode & 0x00C0 != 0x00C0 {
        Some(
            DecodedSimpleOp::ShiftReg {
                reg,
                size: size_field(size_bits),
                count_or_reg: ((opcode >> 9u16) & 7) as u8,
                count_is_register: opcode & 0x20 != 0,
                direction: ((opcode >> 8u16) & 1) as u8,
                op: ((opcode >> 3u16) & 3) as u8,
            },
        )
    } else if group == 6 && ((opcode >> 8u16) & 0xF) != 1 && opcode & 0xFF != 0 && opcode & 0xFF != 0xFF {
        Some(
            DecodedSimpleOp::BranchShort {
                condition: ((opcode >> 8u16) & 0xF) as u8,
                displacement: ((opcode & 0xFF) as u8) as i8,
            },
        )
    } else {
        None
    }
}

/// A register operand names one of the eight registers of its file.
pub open spec fn direct_wf(r: DirectReg) -> bool {
    match r {
        DirectReg::Data(x) => x < 8,
        DirectReg::Addr(x) => x < 8,
    }
}

/// The register numbers and fields of a micro-operation are in range.
pub open spec fn op_wf(op: DecodedSimpleOp) -> bool {
    match op {
        DecodedSimpleOp::Nop => true,
        DecodedSimpleOp::MoveReg { src, dst, .. } => direct_wf(src) && direct_wf(dst),
        DecodedSimpleOp::Moveq { reg, .. } => reg < 8,
        DecodedSimpleOp::UnaryDataReg { reg, .. } => reg < 8,
        DecodedSimpleOp::Swap { reg } => reg < 8,
        DecodedSimpleOp::Ext { reg, .. } => reg < 8,
        DecodedSimpleOp::Extb { reg } => reg < 8,
        DecodedSimpleOp::AddqSubqReg { reg, .. } => reg < 8,
        DecodedSimpleOp::AddqSubqAddr { reg, .. } => reg < 8,
        DecodedSimpleOp::BinaryDataReg { src, dst, cycles, .. } => direct_wf(src) && dst < 8 && 0 < cycles <= 8,
        DecodedSimpleOp::AddrDataReg { src, dst, .. } => direct_wf(src) && dst < 8,
        DecodedSimpleOp::AddSubxReg { src, dst, .. } => src < 8 && dst < 8,
        DecodedSimpleOp::BitReg { bit_reg, dst, .. } => bit_reg < 8 && dst < 8,
        DecodedSimpleOp::BcdReg { src, dst, .. } => src < 8 && dst < 8,
        DecodedSimpleOp::Exg { .. } => true,
        DecodedSimpleOp::SccDataReg { condition, reg } => condition < 16 && reg < 8,
        DecodedSimpleOp::ShiftReg { reg, count_or_reg, direction, op, .. } => reg < 8 && count_or_reg < 8
            && direction < 2 && op < 4,
        DecodedSimpleOp::BranchShort { condition, .. } => condition < 16,
    }
}

// ----- decoding -------------------------------------------------------------

/// Operand size of a two-bit size field.
fn decode_size_00(bits: u16) -> (r: Size)
    ensures
        r == size_field(bits),
{
    match bits {
        1 => Size::Word,
        2 => Size::Long,
        _ => Size::Byte,
    }
}

/// Operand size of the low two bits of an ADD/SUB/AND/OR/CMP opmode.
fn decode_size_012(bits: u16) -> (r: Size)
    ensures
        r == size_field(bits),
{
    match bits {
        1 => Size::Word,
        2 => Size::Long,
        _ => Size::Byte,
    }
}

/// A register operand from an effective-address mode and register field.
fn direct_reg(mode: u16, reg: u16) -> (r: Option<DirectReg>)
    ensures
        r == direct_reg_spec(mode, reg),
{
    match mode {
        0 => Some(DirectReg::Data(reg as u8)),
        1 => Some(DirectReg::Addr(reg as u8)),
        _ => None,
    }
}

/// MOVE between registers.
fn decode_move_reg(opcode: u16, size: Size) -> (r: Option<DecodedSimpleOp>)
    ensures
        r == decode_move_reg_spec(opcode, size),
{
    let src = match direct_reg((opcode >> 3u16) & 7, opcode & 7) {
        Some(src) => src,
        None => return None,
    };
    let dst_reg = ((opcode >> 9u16) & 7) as u8;
    let dst_mode = (opcode >> 6u16) & 7;
    if dst_mode == 0 {
        Some(DecodedSimpleOp::MoveReg { src, dst: DirectReg::Data(dst_reg), size })
    } else if dst_mode == 1 && size != Size::Byte {
        Some(DecodedSimpleOp::MoveReg { src, dst: DirectReg::Addr(dst_reg), size })
    } else {
        None
    }
}

/// NEGX, CLR, NEG, NOT or TST of a data register.
fn decode_group_4_reg(opcode: u16) -> (r: Option<DecodedSimpleOp>)
    ensures
        r == decode_group_4_spec(opcode),
{
    if (opcode >> 3u16) & 7 != 0 {
        return None;
    }
    let size_bits = (opcode >> 6u16) & 3;
    if size_bits == 3 {
        return None;
    }
    let op = match (opcode >> 8u16) & 0xF {
        0x0 => UnaryOp::Negx,
        0x2 => UnaryOp::Clr,
        0x4 => UnaryOp::Neg,
        0x6 => UnaryOp::Not,
        0xA => UnaryOp::Tst,
        _ => return None,
    };
    Some(DecodedSimpleOp::UnaryDataReg { op, reg: (opcode & 7) as u8, size: decode_size_00(size_bits) })
}

/// A two-operand data-register operation with a register source.
fn binary_reg(op: BinaryOp, src: Option<DirectReg>, dst: u8, size: Size) -> (r: Option<DecodedSimpleOp>)
    ensures
        r == binary_with(op, src, dst, size),
{
    match src {
        Some(src) => Some(DecodedSimpleOp::BinaryDataReg { op, src, dst, size, cycles: 4 }),
        None => None,
    }
}

/// An address-register operation with a register source.
fn addr_reg(op: AddrOp, src: Option<DirectReg>, dst: u8, op_mode: u16) -> (r: Option<DecodedSimpleOp>)
    ensures
        r == addr_with(op, src, dst, op_mode),
{
    match src {
        Some(src) => Some(
            DecodedSimpleOp::AddrDataReg {
                op,
                src,
                dst,
                size: if op_mode == 3 {
                    Size::Word
                } else {
                    Size::Long
                },
            },
        ),
        None => None,
    }
}

/// Register forms of the OR/SBCD, SUB, CMP/EOR, AND/ABCD/EXG and ADD
/// groups.
fn decode_group_alu_reg(opcode: u16) -> (r: Option<DecodedSimpleOp>)
    ensures
        r == decode_alu_spec(opcode),
{
    proof {
        lemma_field_bounds(opcode);
    }
    let group = (opcode >> 12u16) & 0xF;
    let reg = ((opcode >> 9u16) & 7) as u8;
    let ea_mode = (opcode >> 3u16) & 7;
    let ea_reg = (opcode & 7) as u8;
    let op_mode = (opcode >> 6u16) & 7;
    let src = direct_reg(ea_mode, opcode & 7);
    if group == 0x8 {
        if op_mode <= 2 {
            binary_reg(BinaryOp::Or, src, reg, decode_size_012(op_mode))
        } else if op_mode == 4 && ea_mode == 0 {
            Some(DecodedSimpleOp::BcdReg { src: ea_reg, dst: reg, is_sub: true })
        } else {
            None
        }
    } else if group == 0x9 || group == 0xD {
        let is_sub = group == 0x9;
        if op_mode <= 2 {
            binary_reg(if is_sub { BinaryOp::Sub } else { BinaryOp::Add }, src, reg, decode_size_012(op_mode))
        } else if op_mode == 3 || op_mode == 7 {
            addr_reg(if is_sub { AddrOp::Suba } else { AddrOp::Adda }, src, reg, op_mode)
        } else if ea_mode == 0 {
            Some(DecodedSimpleOp::AddSubxReg { src: ea_reg, dst: reg, size: decode_size_012(op_mode - 4), is_sub })
        } else {
            None
        }
    } else if group == 0xB {
        if op_mode <= 2 {
            binary_reg(BinaryOp::Cmp, src, reg, decode_size_012(op_mode))
        } else if op_mode == 3 || op_mode == 7 {
            addr_reg(AddrOp::Cmpa, src, reg, op_mode)
        } else if ea_mode == 0 {
            Some(
                DecodedSimpleOp::BinaryDataReg {
                    op: BinaryOp::Eor,
                    src: DirectReg::Data(reg),
                    dst: ea_reg,
                    size: decode_size_012(op_mode - 4),
                    cycles: 8,
                },
            )
        } else {
            None
        }
    } else if group == 0xC {
        let mode_field = (opcode >> 3u16) & 0x1F;
        if op_mode <= 2 {
            binary_reg(BinaryOp::And, src, reg, decode_size_012(op_mode))
        } else if op_mode == 4 && ea_mode == 0 {
            Some(DecodedSimpleOp::BcdReg { src: ea_reg, dst: reg, is_sub: false })
        } else if mode_field == 0x08 || mode_field == 0x09 || mode_field == 0x11 {
            Some(DecodedSimpleOp::Exg { opcode })
        } else {
            None
        }
    } else {
        None
    }
}

/// Every decode has its fields in range.
proof fn lemma_decode_wf(cpu_type: CpuType, opcode: u16)
    ensures
        decode_spec(cpu_type, opcode) matches Some(op) ==> op_wf(op),
{
    lemma_field_bounds(opcode);
}

impl DecodedSimpleOp {
    /// Decode `opcode` for `cpu_type`, or `None` where the instruction
    /// needs the full interpreter.
    pub fn decode(cpu_type: CpuType, opcode: u16) -> (r: Option<Self>)
        ensures
            r == decode_spec(cpu_type, opcode),
            r matches Some(op) ==> op_wf(op),
    {
        proof {
            lemma_field_bounds(opcode);
            lemma_decode_wf(cpu_type, opcode);
        }
        let group = (opcode >> 12u16) & 0xF;
        let reg = (opcode & 7) as u8;
        let mode = (opcode >> 3u16) & 7;
        let size_bits = (opcode >> 6u16) & 3;
        if 1 <= group && group <= 3 {
            let size = if group == 1 {
                Size::Byte
            } else if group == 2 {
                Size::Long
            } else {
                Size::Word
            };
            return decode_move_reg(opcode, size);
        }
        if group == 7 {
            return Some(Self::Moveq { reg: ((opcode >> 9u16) & 7) as u8, data: sign_extend_byte((opcode & 0xFF) as u32) });
        }
        if opcode == 0x4E71 {
            return Some(Self::Nop);
        }
        if group == 4 {
            let op = decode_group_4_reg(opcode);
            if op.is_some() {
                return op;
            }
        }
        if group == 0 && opcode & 0x0100 != 0 && mode == 0 {
            let op = match size_bits {
                0 => BitOp::Test,
                1 => BitOp::Change,
                2 => BitOp::Clear,
                _ => BitOp::SetBit,
            };
            return Some(Self::BitReg { op, bit_reg: ((opcode >> 9u16) & 7) as u8, dst: reg });
        }
        if opcode & 0xFFF8 == 0x4840 {
            return Some(Self::Swap { reg });
        }
        if opcode & 0xFFF8 == 0x4880 {
            return Some(Self::Ext { reg, size: Size::Word });
        }
        if opcode & 0xFFF8 == 0x48C0 {
            return Some(Self::Ext { reg, size: Size::Long });
        }
        if opcode & 0xFFF8 == 0x49C0 && !cpu_is_pre_68020(cpu_type) {
            return Some(Self::Extb { reg });
        }
        if group == 5 && size_bits != 3 && mode <= 1 {
            let q = ((opcode >> 9u16) & 7) as u32;
            let data: u32 = if q == 0 {
                8
            } else {
                q
            };
            let is_sub = opcode & 0x100 != 0;
            if mode == 1 {
                return Some(Self::AddqSubqAddr { reg, data, is_sub });
            }
            return Some(Self::AddqSubqReg { reg, data, size: decode_size_00(size_bits), is_sub });
        }
        if group == 5 && size_bits == 3 && mode == 0 {
            return Some(Self::SccDataReg { condition: ((opcode >> 8u16) & 0xF) as u8, reg });
        }
        if group == 0x8 || group == 0x9 || group == 0xB || group == 0xC || group == 0xD {
            let op = decode_group_alu_reg(opcode);
            if op.is_some() {
                return op;
            }
        }
        if group == 0xE && opcode & 0x00C0 != 0x00C0 {
            return Some(
                Self::ShiftReg {
                    reg,
                    size: decode_size_00(size_bits),
                    count_or_reg: ((opcode >> 9u16) & 7) as u8,
                    count_is_register: opcode & 0x20 != 0,
                    direction: ((opcode >> 8u16) & 1) as u8,
                    op: ((opcode >> 3u16) & 3) as u8,
                },
            );
        }
        if group == 6 {
            let condition = ((opcode >> 8u16) & 0xF) as u8;
            let displacement = (opcode & 0xFF) as u8;
            if condition != 1 && displacement != 0 && displacement != 0xFF {
                return Some(Self::BranchShort { condition, displacement: displacement as i8 });
            }
        }
        None
    }
}

// ----- execution --------------------------------------------------------------

/// Code of a unary operation in `CpuCore::op_unary`.
pub open spec fn unary_code(op: UnaryOp) -> u8 {
    match op {
        UnaryOp::Clr => 0,
        UnaryOp::Neg => 1,
        UnaryOp::Negx => 2,
        UnaryOp::Not => 3,
        UnaryOp::Tst => 4,
    }
}

/// Code of a two-operand operation in `CpuCore::op_binary`.
pub open spec fn binary_code(op: BinaryOp) -> u8 {
    match op {
        BinaryOp::Add => 0,
        BinaryOp::Sub => 1,
        BinaryOp::And => 2,
        BinaryOp::Or => 3,
        BinaryOp::Eor => 4,
        BinaryOp::Cmp => 5,
    }
}

/// Code of an address-register operation in `CpuCore::op_addr`.
pub open spec fn addr_code(op: AddrOp) -> u8 {
    match op {
        AddrOp::Adda => 0,
        AddrOp::Suba => 1,
        AddrOp::Cmpa => 2,
    }
}

/// Code of a bit operation in `CpuCore::op_bit`.
pub open spec fn bit_code(op: BitOp) -> u8 {
    match op {
        BitOp::Test => 0,
        BitOp::Change => 1,
        BitOp::Clear => 2,
        BitOp::SetBit => 3,
    }
}

/// The register forms of BTST, BCHG, BCLR and BSET (bits 7-6 of the
/// opcode 00, 01, 10 and 11) decode on every model, and the decoded
/// operation does what the instruction names to bit `Dx mod 32` of `Dy`:
/// Z is set exactly when that bit was clear, and the bit is then kept
/// (BTST), inverted (BCHG), cleared (BCLR) or set (BSET). Every other bit
/// of `Dy` and every other register is kept.
pub proof fn lemma_dynamic_bit_ops(
    cpu_type: CpuType,
    x: u16,
    y: u16,
    f: u16,
    old: CpuCore,
    new: CpuCore,
    cycles: i32,
)
    requires
        x < 8,
        y < 8,
        f < 4,
        old.dar@.len() == 16,
        op_effect(decode_spec(cpu_type, 0x0100u16 | (x << 9u16) | (f << 6u16) | y).unwrap(), old, new, cycles),
    ensures
        decode_spec(cpu_type, 0x0100u16 | (x << 9u16) | (f << 6u16) | y) is Some,
        (new.not_z_flag == 0) == ((old.dar[y as int] >> (old.dar[x as int] & 31)) & 1 == 0),
        f == 0 ==> new.dar[y as int] == old.dar[y as int],
        f == 1 ==> (new.dar[y as int] >> (old.dar[x as int] & 31)) & 1 != (old.dar[y as int] >> (old.dar[x as int]
            & 31)) & 1,
        f == 2 ==> (new.dar[y as int] >> (old.dar[x as int] & 31)) & 1 == 0,
        f == 3 ==> (new.dar[y as int] >> (old.dar[x as int] & 31)) & 1 == 1,
        forall|j: u32|
            j < 32 && j != old.dar[x as int] & 31 ==> (#[trigger] (new.dar[y as int] >> j) & 1) == (old.dar[y as int]
                >> j) & 1,
        forall|i: int| 0 <= i < 16 && i != y ==> #[trigger] new.dar[i] == old.dar[i],
{
    crate::types::lemma_encoding_fields(x, y, f, 8, 0, 0);
    let opcode = 0x0100u16 | (x << 9u16) | (f << 6u16) | y;
    assert(decode_spec(cpu_type, opcode) == Some(
        DecodedSimpleOp::BitReg { op: bit_of_field(f), bit_reg: x as u8, dst: y as u8 },
    ));
    let b = old.dar[x as int] & 31;
    crate::types::lemma_mask_bounds(old.dar[x as int]);
    let v = old.dar[y as int];
    assert forall|j: u32| j < 32 && j != b implies (#[trigger] (new.dar[y as int] >> j) & 1) == (v >> j) & 1 by {
        lemma_single_bit(v, b, j);
    }
    lemma_single_bit(v, b, 0);
}

/// The data-register forms of ADD, SUB, AND, OR and CMP Dy,Dx (groups
/// 0xD, 0x9, 0xC, 0x8 and 0xB with a size field of 0-2) decode on every
/// model, and the decoded operation does what the instruction names to the
/// low `size` bits of Dx: the sum, the difference (each modulo 2^size),
/// the bitwise and, or the bitwise or of the two operands, the upper bits
/// of Dx and every other register being kept. CMP changes no register and
/// leaves flags on which every condition answers the comparison of Dx with
/// Dy.
pub proof fn lemma_alu_register_ops(
    cpu_type: CpuType,
    g: u16,
    x: u16,
    y: u16,
    o: u16,
    old: CpuCore,
    new: CpuCore,
    cycles: i32,
)
    requires
        g == 8 || g == 9 || g == 0xB || g == 0xC || g == 0xD,
        x < 8,
        y < 8,
        o < 3,
        old.dar@.len() == 16,
        op_effect(decode_spec(cpu_type, (g << 12u16) | (x << 9u16) | (o << 6u16) | y).unwrap(), old, new, cycles),
    ensures
        decode_spec(cpu_type, (g << 12u16) | (x << 9u16) | (o << 6u16) | y) is Some,
        cycles == 4,
        g == 0xD ==> (new.dar[x as int] & size_mask(size_field(o))) == ((old.dar[x as int] & size_mask(size_field(o)))
            + (old.dar[y as int] & size_mask(size_field(o)))) % modulus(size_field(o)),
        g == 9 ==> (new.dar[x as int] & size_mask(size_field(o))) == ((old.dar[x as int] & size_mask(size_field(o)))
            - (old.dar[y as int] & size_mask(size_field(o))) + modulus(size_field(o))) % modulus(size_field(o)),
        g == 0xC ==> (new.dar[x as int] & size_mask(size_field(o))) == (old.dar[x as int] & size_mask(size_field(o)))
            & (old.dar[y as int] & size_mask(size_field(o))),
        g == 8 ==> (new.dar[x as int] & size_mask(size_field(o))) == (old.dar[x as int] & size_mask(size_field(o)))
            | (old.dar[y as int] & size_mask(size_field(o))),
        g != 0xB ==> new.dar[x as int] == sized_write(old.dar[x as int], new.dar[x as int], size_field(o)),
        g == 0xB ==> new.dar == old.dar,
        g == 0xB ==> forall|c: u8|
            c < 16 ==> #[trigger] condition_holds(c, new.n_flag, new.not_z_flag, new.v_flag, new.c_flag)
                == condition_after_compare(
                c,
                old.dar[y as int] & size_mask(size_field(o)),
                old.dar[x as int] & size_mask(size_field(o)),
                size_field(o),
            ),
        forall|i: int| 0 <= i < 16 && i != x ==> #[trigger] new.dar[i] == old.dar[i],
{
    crate::types::lemma_encoding_fields(x, y, 0, g, o, 0);
    let a = (g << 12u16) | (x << 9u16) | (o << 6u16) | y;
    let size = size_field(o);
    let op = if g == 0xD {
        BinaryOp::Add
    } else if g == 9 {
        BinaryOp::Sub
    } else if g == 0xC {
        BinaryOp::And
    } else if g == 8 {
        BinaryOp::Or
    } else {
        BinaryOp::Cmp
    };
    assert((a >> 12u16) & 0xF == g);
    assert(((a >> 9u16) & 7) as u8 == x as u8);
    assert((a >> 6u16) & 7 == o);
    assert((a >> 3u16) & 7 == 0);
    assert(direct_reg_spec((a >> 3u16) & 7, a & 7) == Some(DirectReg::Data(y as u8)));
    let src = direct_reg_spec((a >> 3u16) & 7, a & 7);
    if g == 8 {
        assert(decode_alu_spec(a) == binary_with(BinaryOp::Or, src, x as u8, size));
    } else if g == 9 || g == 0xD {
        assert(decode_alu_spec(a) == binary_with(op, src, x as u8, size));
    } else if g == 0xB {
        assert(decode_alu_spec(a) == binary_with(BinaryOp::Cmp, src, x as u8, size));
    } else {
        assert(decode_alu_spec(a) == binary_with(BinaryOp::And, src, x as u8, size));
    }
    assert(decode_alu_spec(a) == Some(
        DecodedSimpleOp::BinaryDataReg { op, src: DirectReg::Data(y as u8), dst: x as u8, size, cycles: 4 },
    ));
    assert(decode_spec(cpu_type, a) == decode_alu_spec(a));
    let m = size_mask(size);
    let d = old.dar[x as int] & m;
    let sv = old.dar[y as int] & m;
    crate::types::lemma_mask_bounds(old.dar[x as int]);
    crate::types::lemma_mask_bounds(old.dar[y as int]);
    assert(d <= m && sv <= m);
    lemma_alu_values(d, sv, m);
    let res = if g == 0xD {
        d.wrapping_add(sv)
    } else if g == 9 {
        d.wrapping_sub(sv)
    } else if g == 0xC {
        (sv & d) & m
    } else {
        (sv | d) & m
    };
    crate::types::lemma_mask_bounds(res);
    crate::types::lemma_merge_low(old.dar[x as int], res);
    crate::types::lemma_merge_low(old.dar[x as int], sized_write(old.dar[x as int], res, size));
    assert(modulus(size) == m as int + 1);
    if g != 0xB {
        assert(new.dar[x as int] == sized_write(old.dar[x as int], res, size));
        assert(new.dar[x as int] & m == res & m);
        if g == 9 {
            let mm = modulus(size);
            if sv <= d {
                assert((d - sv + mm) % mm == d - sv) by {
                    vstd::arithmetic::div_mod::lemma_fundamental_div_mod_converse(d - sv + mm, mm, 1, d - sv);
                }
            } else {
                vstd::arithmetic::div_mod::lemma_small_mod((d - sv + mm) as nat, mm as nat);
            }
        }
        if g == 0xD {
            let mm = modulus(size);
            if d + sv < mm {
                vstd::arithmetic::div_mod::lemma_small_mod((d + sv) as nat, mm as nat);
            } else {
                vstd::arithmetic::div_mod::lemma_fundamental_div_mod_converse(d + sv, mm, 1, d + sv - mm);
            }
        }
    }
}

/// Values of the data-register ALU operations on operands `d` and `s`
/// within the operand mask `m`.
proof fn lemma_alu_values(d: u32, s: u32, m: u32)
    by (bit_vector)
    requires
        m == 0xFF || m == 0xFFFF || m == 0xFFFF_FFFF,
        d <= m,
        s <= m,
    ensures
        m == 0xFF ==> d.wrapping_add(s) & m == (d + s) % 0x100,
        m == 0xFFFF ==> d.wrapping_add(s) & m == (d + s) % 0x1_0000,
        m == 0xFFFF_FFFF ==> d.wrapping_add(s) & m == (d + s) % 0x1_0000_0000,
        s <= d ==> (d.wrapping_sub(s) & m) + s == d,
        s > d ==> (d.wrapping_sub(s) & m) + s == d + m + 1,
        (s & d) & m == d & s,
        (s | d) & m == d | s,
        ((s & d) & m) & m == d & s,
        ((s | d) & m) & m == d | s,
{
}

/// The immediate-count register forms of ASx, LSx, ROXx and ROx (0xE000
/// with the count in bits 11-9, 0 standing for 8, the direction in bit 8,
/// the size in bits 7-6 and the type in bits 4-3) decode on every model to
/// the shift their fields name: the low `size` bits of Dy become the shift
/// of type `t` (0 arithmetic, 1 logical, 2 rotate through X, 3 rotate),
/// left when bit 8 is set, of its operand by the count; the upper bits of
/// Dy and every other register are kept.
pub proof fn lemma_shift_register_decode(
    cpu_type: CpuType,
    c: u16,
    dr: u16,
    o: u16,
    t: u16,
    y: u16,
    old: CpuCore,
    new: CpuCore,
    cycles: i32,
)
    requires
        c < 8,
        dr < 2,
        o < 3,
        t < 4,
        y < 8,
        old.dar@.len() == 16,
        op_effect(
            decode_spec(cpu_type, 0xE000u16 | (c << 9u16) | (dr << 8u16) | (o << 6u16) | (t << 3u16) | y).unwrap(),
            old,
            new,
            cycles,
        ),
    ensures
        decode_spec(cpu_type, 0xE000u16 | (c << 9u16) | (dr << 8u16) | (o << 6u16) | (t << 3u16) | y) is Some,
        cycles == shift_cycles(size_field(o), if c == 0 {
            8u32
        } else {
            c as u32
        }),
        new.dar[y as int] == sized_write(
            old.dar[y as int],
            shift_spec(
                t as u8,
                dr == 1,
                size_field(o),
                (if c == 0 {
                    8u64
                } else {
                    c as u64
                }),
                (old.dar[y as int] & size_mask(size_field(o))) as u64,
                old.x_flag & 0x100 != 0,
            ).0 as u32,
            size_field(o),
        ),
        forall|i: int| 0 <= i < 16 && i != y ==> #[trigger] new.dar[i] == old.dar[i],
{
    crate::types::lemma_encoding_fields(c, y, t, 8, o, dr);
    crate::types::lemma_mask_bounds(old.dar[y as int]);
    let e = 0xE000u16 | (c << 9u16) | (dr << 8u16) | (o << 6u16) | (t << 3u16) | y;
    assert(decode_spec(cpu_type, e) == Some(
        DecodedSimpleOp::ShiftReg {
            reg: y as u8,
            size: size_field(o),
            count_or_reg: c as u8,
            count_is_register: false,
            direction: dr as u8,
            op: t as u8,
        },
    ));
}

/// One bit of a word set, cleared or inverted through its mask, read back
/// bit by bit.
proof fn lemma_single_bit(v: u32, b: u32, j: u32)
    by (bit_vector)
    requires
        b < 32,
        j < 32,
    ensures
        (v & (1u32 << b) == 0) == ((v >> b) & 1 == 0),
        ((v ^ (1u32 << b)) >> b) & 1 != (v >> b) & 1,
        ((v & !(1u32 << b)) >> b) & 1 == 0,
        ((v | (1u32 << b)) >> b) & 1 == 1,
        j != b ==> ((v ^ (1u32 << b)) >> j) & 1 == (v >> j) & 1 && ((v & !(1u32 << b)) >> j) & 1 == (v >> j) & 1
            && ((v | (1u32 << b)) >> j) & 1 == (v >> j) & 1,
{
}

/// Clocks of a register bit operation.
pub open spec fn bit_cycles(op: BitOp) -> i32 {
    match op {
        BitOp::Test => 6,
        BitOp::Change => 8,
        BitOp::Clear => 10,
        BitOp::SetBit => 8,
    }
}

/// The value of a register operand in the operand width.
pub open spec fn direct_operand(cpu: CpuCore, r: DirectReg, size: Size) -> u32 {
    match r {
        DirectReg::Data(x) => reg_operand(cpu, false, x, size),
        DirectReg::Addr(x) => reg_operand(cpu, true, x, size),
    }
}

/// EXT.W / EXT.L of data register `reg`.
pub open spec fn ext_effect(old: CpuCore, new: CpuCore, reg: int, size: Size) -> bool {
    let v = old.dar[reg];
    let res = match size {
        Size::Word => (sext8(v) & 0xFFFF) | (v & 0xFFFF0000),
        Size::Long => sext16(v),
        Size::Byte => v,
    };
    new.dar@ == old.dar@.update(reg, res) && ccr_logic(regs_of(old, new), new, res, size)
}

/// What executing `op` does: the state after it and the clocks it takes.
pub open spec fn op_effect(op: DecodedSimpleOp, old: CpuCore, new: CpuCore, cycles: i32) -> bool {
    match op {
        DecodedSimpleOp::Nop => new == old && cycles == 4,
        DecodedSimpleOp::MoveReg { src, dst, size } => {
            let v = direct_operand(old, src, size);
            &&& cycles == 4
            &&& match dst {
                DirectReg::Data(d) => data_written(old, new, d as int, v, size) && ccr_logic(regs_of(old, new), new, v, size),
                DirectReg::Addr(a) => new.dar@ == old.dar@.update(
                    8 + a,
                    if size == Size::Word {
                        sext16(v)
                    } else {
                        v
                    },
                ) && new == regs_of(old, new),
            }
        },
        DecodedSimpleOp::Moveq { reg, data } => cycles == 4 && new.dar@ == old.dar@.update(reg as int, data)
            && ccr_logic(regs_of(old, new), new, data, Size::Long),
        DecodedSimpleOp::UnaryDataReg { op, reg, size } => cycles == 4 && unary_effect(old, new, unary_code(op), reg as int, size),
        DecodedSimpleOp::Swap { reg } => cycles == 4 && swap_effect(old, new, reg as int),
        DecodedSimpleOp::Ext { reg, size } => cycles == 4 && ext_effect(old, new, reg as int, size),
        DecodedSimpleOp::Extb { reg } => cycles == 4 && new.dar@ == old.dar@.update(reg as int, sext8(old.dar[reg as int]))
            && ccr_logic(regs_of(old, new), new, sext8(old.dar[reg as int]), Size::Long),
        DecodedSimpleOp::AddqSubqReg { reg, data, size, is_sub } => cycles == 4 && binary_effect(
            old,
            new,
            if is_sub {
                1
            } else {
                0
            },
            data,
            reg as int,
            size,
        ),
        DecodedSimpleOp::AddqSubqAddr { reg, data, is_sub } => {
            let a = old.dar[8 + reg];
            &&& cycles == 4
            &&& new.dar@ == old.dar@.update(
                8 + reg,
                if is_sub {
                    a.wrapping_sub(data)
                } else {
                    a.wrapping_add(data)
                },
            )
            &&& new == regs_of(old, new)
        },
        DecodedSimpleOp::BinaryDataReg { op, src, dst, size, cycles: c } => cycles == c && binary_effect(
            old,
            new,
            binary_code(op),
            direct_operand(old, src, size),
            dst as int,
            size,
        ),
        DecodedSimpleOp::AddrDataReg { op, src, dst, size } => cycles == (if op == AddrOp::Cmpa {
            6i32
        } else {
            8i32
        }) && addr_effect(old, new, addr_code(op), direct_operand(old, src, size), dst as int, size),
        DecodedSimpleOp::AddSubxReg { src, dst, size, is_sub } => cycles == 4 && addsubx_effect(
            old,
            new,
            src as int,
            dst as int,
            size,
            is_sub,
        ),
        DecodedSimpleOp::BitReg { op, bit_reg, dst } => cycles == bit_cycles(op) && bit_effect(
            old,
            new,
            bit_code(op),
            bit_reg as int,
            dst as int,
        ),
        DecodedSimpleOp::BcdReg { src, dst, is_sub } => cycles == 6 && bcd_reg_effect(old, new, src as int, dst as int, is_sub),
        DecodedSimpleOp::Exg { opcode } => cycles == 6 && new.dar@ == exg_result(old.dar@, opcode) && new == regs_of(old, new),
        DecodedSimpleOp::SccDataReg { condition, reg } => {
            let holds = condition_holds(condition, old.n_flag, old.not_z_flag, old.v_flag, old.c_flag);
            &&& cycles == 4
            &&& data_written(old, new, reg as int, if holds {
                0xFFu32
            } else {
                0u32
            }, Size::Byte)
            &&& new == regs_of(old, new)
        },
        DecodedSimpleOp::ShiftReg { reg, size, count_or_reg, count_is_register, direction, op } => shift_reg_effect(
            old,
            new,
            reg as int,
            size,
            count_or_reg,
            count_is_register,
            direction,
            op,
            cycles,
        ),
        DecodedSimpleOp::BranchShort { condition, displacement } => {
            if condition == 0 || condition_holds(condition, old.n_flag, old.not_z_flag, old.v_flag, old.c_flag) {
                cycles == 10 && new == (CpuCore {
                    change_of_flow: true,
                    pc: old.pc.wrapping_add(displacement as i32 as u32),
                    ..old
                })
            } else {
                cycles == 8 && new == old
            }
        },
    }
}

/// The fields a micro-operation never touches.
pub open spec fn op_frame(old: CpuCore, new: CpuCore) -> bool {
    &&& new.decoded_op_cache == old.decoded_op_cache
    &&& new.cpu_type == old.cpu_type
    &&& new.cycles_remaining == old.cycles_remaining
    &&& new.run_mode == old.run_mode
    &&& new.is_pre_68020 == old.is_pre_68020
    &&& new.address_mask == old.address_mask
    &&& new.fm_base == old.fm_base
    &&& new.fm_len == old.fm_len
    &&& new.fm_mem == old.fm_mem
}

/// `new` differs from `old` at most in the registers, the condition codes,
/// the program counter and the change-of-flow latch.
pub open spec fn register_frame(old: CpuCore, new: CpuCore) -> bool {
    new == (CpuCore {
        dar: new.dar,
        x_flag: new.x_flag,
        n_flag: new.n_flag,
        not_z_flag: new.not_z_flag,
        v_flag: new.v_flag,
        c_flag: new.c_flag,
        pc: new.pc,
        change_of_flow: new.change_of_flow,
        ..old
    })
}

proof fn lemma_register_only_arith(op: DecodedSimpleOp, old: CpuCore, new: CpuCore, c: i32)
    requires
        op_effect(op, old, new, c),
        op is UnaryDataReg || op is AddqSubqReg || op is BinaryDataReg || op is AddrDataReg || op is AddSubxReg,
    ensures
        register_frame(old, new),
{
    match op {
        DecodedSimpleOp::UnaryDataReg { op: u, .. } => {
            match u {
                UnaryOp::Clr => {},
                UnaryOp::Neg => {},
                UnaryOp::Negx => {},
                UnaryOp::Not => {},
                UnaryOp::Tst => {},
            }
        },
        DecodedSimpleOp::BinaryDataReg { op: b, .. } => {
            match b {
                BinaryOp::Add => {},
                BinaryOp::Sub => {},
                BinaryOp::And => {},
                BinaryOp::Or => {},
                BinaryOp::Eor => {},
                BinaryOp::Cmp => {},
            }
        },
        DecodedSimpleOp::AddqSubqReg { is_sub, .. } => {
            if is_sub {
            } else {
            }
        },
        DecodedSimpleOp::AddrDataReg { op: a, .. } => {
            match a {
                AddrOp::Adda => {},
                AddrOp::Suba => {},
                AddrOp::Cmpa => {},
            }
        },
        _ => {},
    }
}

proof fn lemma_register_only_other(op: DecodedSimpleOp, old: CpuCore, new: CpuCore, c: i32)
    requires
        op_effect(op, old, new, c),
        !(op is UnaryDataReg || op is AddqSubqReg || op is BinaryDataReg || op is AddrDataReg || op is AddSubxReg
            || op is BcdReg || op is ShiftReg),
    ensures
        register_frame(old, new),
{
    match op {
        DecodedSimpleOp::MoveReg { dst, .. } => {
            match dst {
                DirectReg::Data(_) => {},
                DirectReg::Addr(_) => {},
            }
        },
        _ => {},
    }
}

/// A decoded operation touches nothing but the registers, the condition
/// codes and, for a taken branch, the program counter and the
/// change-of-flow latch: no memory, no exception state, nothing to roll
/// back.
pub proof fn lemma_register_only(op: DecodedSimpleOp, old: CpuCore, new: CpuCore, c: i32)
    requires
        op_effect(op, old, new, c),
    ensures
        register_frame(old, new),
{
    if op is UnaryDataReg || op is AddqSubqReg || op is BinaryDataReg || op is AddrDataReg || op is AddSubxReg {
        lemma_register_only_arith(op, old, new, c);
    } else if op is BcdReg {
        assert(new == (CpuCore { dar: new.dar, ..CpuCore { dar: old.dar, ..new } }));
    } else if op is ShiftReg {
        assert(new == (CpuCore { dar: new.dar, ..CpuCore { dar: old.dar, ..new } }));
    } else {
        lemma_register_only_other(op, old, new, c);
    }
}

/// The clocks `op_effect` gives an operation in state `old`.
pub open spec fn decoded_cycles(op: DecodedSimpleOp, old: CpuCore) -> i32 {
    match op {
        DecodedSimpleOp::BinaryDataReg { cycles, .. } => cycles,
        DecodedSimpleOp::AddrDataReg { op, .. } => if op == AddrOp::Cmpa {
            6
        } else {
            8
        },
        DecodedSimpleOp::BitReg { op, .. } => bit_cycles(op),
        DecodedSimpleOp::BcdReg { .. } => 6,
        DecodedSimpleOp::Exg { .. } => 6,
        DecodedSimpleOp::ShiftReg { size, count_or_reg, count_is_register, .. } => shift_cycles(
            size,
            shift_count(old, count_or_reg, count_is_register),
        ),
        DecodedSimpleOp::BranchShort { condition, .. } => if condition == 0 || condition_holds(
            condition,
            old.n_flag,
            old.not_z_flag,
            old.v_flag,
            old.c_flag,
        ) {
            10
        } else {
            8
        },
        _ => 4,
    }
}

/// The clocks of an operation depend on the state before it alone.
pub proof fn lemma_effect_cycles(op: DecodedSimpleOp, old: CpuCore, new: CpuCore, c: i32)
    requires
        op_effect(op, old, new, c),
    ensures
        c == decoded_cycles(op, old),
{
}

/// Read a register operand.
fn read_direct_reg(cpu: &CpuCore, reg: DirectReg, size: Size) -> (r: u32)
    requires
        direct_wf(reg),
    ensures
        r == direct_operand(*cpu, reg, size),
{
    match reg {
        DirectReg::Data(x) => cpu.read_reg_operand(false, x, size),
        DirectReg::Addr(x) => cpu.read_reg_operand(true, x, size),
    }
}

/// MOVE between registers.
fn run_move_reg(cpu: &mut CpuCore, src: DirectReg, dst: DirectReg, size: Size) -> (r: i32)
    requires
        direct_wf(src),
        direct_wf(dst),
    ensures
        op_effect(DecodedSimpleOp::MoveReg { src, dst, size }, *old(cpu), *final(cpu), r),
        op_frame(*old(cpu), *final(cpu)),
{
    let value = read_direct_reg(cpu, src, size);
    match dst {
        DirectReg::Data(reg) => {
            cpu.write_data_bits(reg as usize, size, value);
            cpu.set_logic_flags(value, size);
        },
        DirectReg::Addr(reg) => {
            let value = if size == Size::Word {
                crate::instructions::integer_arith::sign_extend_word(value)
            } else {
                value
            };
            cpu.dar[8 + reg as usize] = value;
        },
    }
    4
}

/// MOVEQ: the sign-extended immediate into a data register.
fn run_moveq(cpu: &mut CpuCore, reg: u8, data: u32) -> (r: i32)
    requires
        reg < 8,
    ensures
        op_effect(DecodedSimpleOp::Moveq { reg, data }, *old(cpu), *final(cpu), r),
        op_frame(*old(cpu), *final(cpu)),
{
    cpu.dar[reg as usize] = data;
    cpu.set_logic_flags(data, Size::Long);
    4
}

/// A unary operation on a data register.
fn run_unary(cpu: &mut CpuCore, op: UnaryOp, reg: u8, size: Size) -> (r: i32)
    requires
        reg < 8,
    ensures
        op_effect(DecodedSimpleOp::UnaryDataReg { op, reg, size }, *old(cpu), *final(cpu), r),
        op_frame(*old(cpu), *final(cpu)),
{
    let kind: u8 = match op {
        UnaryOp::Clr => 0,
        UnaryOp::Neg => 1,
        UnaryOp::Negx => 2,
        UnaryOp::Not => 3,
        UnaryOp::Tst => 4,
    };
    cpu.op_unary(kind, reg as usize, size);
    4
}

/// ADDQ/SUBQ to an address register: the whole register, no flags.
fn run_addq_subq_addr(cpu: &mut CpuCore, reg: u8, data: u32, is_sub: bool) -> (r: i32)
    requires
        reg < 8,
    ensures
        op_effect(DecodedSimpleOp::AddqSubqAddr { reg, data, is_sub }, *old(cpu), *final(cpu), r),
        op_frame(*old(cpu), *final(cpu)),
{
    let r = 8 + reg as usize;
    if is_sub {
        cpu.dar[r] = cpu.dar[r].wrapping_sub(data);
    } else {
        cpu.dar[r] = cpu.dar[r].wrapping_add(data);
    }
    4
}

/// ADDQ/SUBQ to a data register.
fn run_addq_subq_reg(cpu: &mut CpuCore, reg: u8, data: u32, size: Size, is_sub: bool) -> (r: i32)
    requires
        reg < 8,
    ensures
        op_effect(DecodedSimpleOp::AddqSubqReg { reg, data, size, is_sub }, *old(cpu), *final(cpu), r),
        op_frame(*old(cpu), *final(cpu)),
{
    cpu.op_binary(if is_sub { 1 } else { 0 }, data, reg as usize, size);
    4
}

/// A two-operand operation into a data register.
fn run_binary(cpu: &mut CpuCore, op: BinaryOp, src: DirectReg, dst: u8, size: Size, cycles: i32) -> (r: i32)
    requires
        direct_wf(src),
        dst < 8,
    ensures
        op_effect(DecodedSimpleOp::BinaryDataReg { op, src, dst, size, cycles }, *old(cpu), *final(cpu), r),
        op_frame(*old(cpu), *final(cpu)),
{
    let value = read_direct_reg(cpu, src, size);
    let kind: u8 = match op {
        BinaryOp::Add => 0,
        BinaryOp::Sub => 1,
        BinaryOp::And => 2,
        BinaryOp::Or => 3,
        BinaryOp::Eor => 4,
        BinaryOp::Cmp => 5,
    };
    cpu.op_binary(kind, value, dst as usize, size);
    cycles
}

/// ADDA, SUBA or CMPA.
fn run_addr(cpu: &mut CpuCore, op: AddrOp, src: DirectReg, dst: u8, size: Size) -> (r: i32)
    requires
        direct_wf(src),
        dst < 8,
    ensures
        op_effect(DecodedSimpleOp::AddrDataReg { op, src, dst, size }, *old(cpu), *final(cpu), r),
        op_frame(*old(cpu), *final(cpu)),
{
    let value = read_direct_reg(cpu, src, size);
    let (kind, cycles): (u8, i32) = match op {
        AddrOp::Adda => (0, 8),
        AddrOp::Suba => (1, 8),
        AddrOp::Cmpa => (2, 6),
    };
    cpu.op_addr(kind, value, dst as usize, size);
    cycles
}

/// BTST, BCHG, BCLR or BSET on a data register.
fn run_bit(cpu: &mut CpuCore, op: BitOp, bit_reg: u8, dst: u8) -> (r: i32)
    requires
        bit_reg < 8,
        dst < 8,
    ensures
        op_effect(DecodedSimpleOp::BitReg { op, bit_reg, dst }, *old(cpu), *final(cpu), r),
        op_frame(*old(cpu), *final(cpu)),
{
    let (kind, cycles): (u8, i32) = match op {
        BitOp::Test => (0, 6),
        BitOp::Change => (1, 8),
        BitOp::Clear => (2, 10),
        BitOp::SetBit => (3, 8),
    };
    let _ = cpu.op_bit(kind, bit_reg as usize, dst as usize);
    cycles
}

/// Bcc with an 8-bit displacement.
fn run_branch_short(cpu: &mut CpuCore, condition: u8, displacement: i8) -> (r: i32)
    requires
        condition < 16,
    ensures
        op_effect(DecodedSimpleOp::BranchShort { condition, displacement }, *old(cpu), *final(cpu), r),
        op_frame(*old(cpu), *final(cpu)),
{
    if condition == 0 || cpu.test_condition(condition) {
        cpu.change_of_flow = true;
        cpu.pc = cpu.pc.wrapping_add(displacement as i32 as u32);
        10
    } else {
        8
    }
}

/// The remaining register forms: SWAP, EXT, EXTB, ADDX/SUBX, ABCD/SBCD,
/// EXG, Scc and the shifts.
fn run_other(cpu: &mut CpuCore, op: DecodedSimpleOp) -> (r: i32)
    requires
        op_wf(op),
        op is Swap || op is Ext || op is Extb || op is AddSubxReg || op is BcdReg || op is Exg || op is SccDataReg
            || op is ShiftReg,
    ensures
        op_effect(op, *old(cpu), *final(cpu), r),
        op_frame(*old(cpu), *final(cpu)),
        0 < r <= 134,
{
    match op {
        DecodedSimpleOp::Swap { reg } => {
            cpu.op_swap(reg as usize);
            4
        },
        DecodedSimpleOp::Ext { reg, size } => cpu.exec_ext(size, reg as usize),
        DecodedSimpleOp::Extb { reg } => cpu.exec_extb(reg as usize),
        DecodedSimpleOp::AddSubxReg { src, dst, size, is_sub } => {
            cpu.op_addsubx(src as usize, dst as usize, size, is_sub);
            4
        },
        DecodedSimpleOp::BcdReg { src, dst, is_sub } => {
            cpu.op_bcd(src as usize, dst as usize, is_sub);
            6
        },
        DecodedSimpleOp::Exg { opcode } => {
            cpu.op_exg(opcode);
            6
        },
        DecodedSimpleOp::SccDataReg { condition, reg } => {
            let _ = cpu.op_scc(condition, reg as usize);
            4
        },
        DecodedSimpleOp::ShiftReg { reg, size, count_or_reg, count_is_register, direction, op } => {
            cpu.op_shift(reg as usize, size, count_or_reg, count_is_register, direction, op)
        },
        _ => 4,
    }
}

impl DecodedSimpleOp {
    /// Execute the micro-operation; returns the clocks it takes.
    pub fn execute(self, cpu: &mut CpuCore) -> (r: i32)
        requires
            op_wf(self),
        ensures
            op_effect(self, *old(cpu), *final(cpu), r),
            op_frame(*old(cpu), *final(cpu)),
            0 < r <= 134,
    {
        match self {
            Self::Nop => 4,
            Self::MoveReg { src, dst, size } => run_move_reg(cpu, src, dst, size),
            Self::Moveq { reg, data } => run_moveq(cpu, reg, data),
            Self::UnaryDataReg { op, reg, size } => run_unary(cpu, op, reg, size),
            Self::AddqSubqAddr { reg, data, is_sub } => run_addq_subq_addr(cpu, reg, data, is_sub),
            Self::AddqSubqReg { reg, data, size, is_sub } => run_addq_subq_reg(cpu, reg, data, size, is_sub),
            Self::BinaryDataReg { op, src, dst, size, cycles } => run_binary(cpu, op, src, dst, size, cycles),
            Self::AddrDataReg { op, src, dst, size } => run_addr(cpu, op, src, dst, size),
            Self::BitReg { op, bit_reg, dst } => run_bit(cpu, op, bit_reg, dst),
            Self::BranchShort { condition, displacement } => run_branch_short(cpu, condition, displacement),
            _ => run_other(cpu, self),
        }
    }
}

// ----- the cache ---------------------------------------------------------------

/// Slot of the cache that holds the instruction at `pc`.
pub open spec fn cache_index_spec(pc: u32) -> int {
    ((pc >> 1u32) % 4096) as int
}

/// A cache slot is empty or holds the decode of its own key, filed under
/// the slot of its address.
pub open spec fn entry_faithful(e: Option<DecodedOpCacheEntry>, i: int) -> bool {
    match e {
        Some(e) => decode_spec(e.cpu_type, e.opcode) == Some(e.op) && cache_index_spec(e.pc) == i,
        None => true,
    }
}

/// The cache invariant: the full number of slots, each faithful.
pub open spec fn cache_wf(cpu: CpuCore) -> bool {
    &&& cpu.decoded_op_cache@.len() == DECODED_OP_CACHE_SIZE
    &&& forall|i: int| 0 <= i < DECODED_OP_CACHE_SIZE ==> entry_faithful(#[trigger] cpu.decoded_op_cache@[i], i)
}

/// A cache hit gives exactly what a fresh decode of the same key gives.
pub proof fn lemma_cache_hit_is_decode(cpu: CpuCore, pc: u32, opcode: u16, cpu_type: CpuType)
    requires
        cache_wf(cpu),
        cpu.decoded_op_cache@[cache_index_spec(pc)] matches Some(e) && e.pc == pc && e.opcode == opcode
            && e.cpu_type == cpu_type,
    ensures
        decode_spec(cpu_type, opcode) == Some(cpu.decoded_op_cache@[cache_index_spec(pc)].unwrap().op),
{
    assert(entry_faithful(cpu.decoded_op_cache@[cache_index_spec(pc)], cache_index_spec(pc)));
}

/// Slot of the cache that holds the instruction at `pc`.
pub fn decoded_op_cache_index(pc: u32) -> (r: usize)
    ensures
        r == cache_index_spec(pc),
        r < DECODED_OP_CACHE_SIZE,
{
    ((pc >> 1u32) % 4096) as usize
}

impl CpuCore {
    /// Empty every slot of the decoded-operation cache.
    pub fn clear_decoded_op_cache(&mut self)
        ensures
            final(self).decoded_op_cache@.len() == old(self).decoded_op_cache@.len(),
            forall|i: int| 0 <= i < final(self).decoded_op_cache@.len() ==> #[trigger] final(self).decoded_op_cache@[i] is None,
            *final(self) == (CpuCore { decoded_op_cache: final(self).decoded_op_cache, ..*old(self) }),
    {
        let n = self.decoded_op_cache.len();
        let mut i: usize = 0;
        while i < n
            invariant
                i <= n,
                n == old(self).decoded_op_cache@.len(),
                self.decoded_op_cache@.len() == n,
                forall|j: int| 0 <= j < i ==> #[trigger] self.decoded_op_cache@[j] is None,
                *self == (CpuCore { decoded_op_cache: self.decoded_op_cache, ..*old(self) }),
            decreases n - i,
        {
            self.decoded_op_cache.set(i, None);
            i = i + 1;
        }
    }

    /// Whether the cached executor may run: normal execution, not stopped,
    /// no pending interrupt and no tracing.
    pub fn can_run_decoded_simple_ops(&self) -> (r: bool)
        ensures
            r == (self.run_mode == RUN_MODE_NORMAL && self.stopped == 0 && self.int_level == 0 && self.t1_flag == 0
                && self.t0_flag == 0),
    {
        self.run_mode == RUN_MODE_NORMAL && self.stopped == 0 && self.int_level == 0 && self.t1_flag == 0
            && self.t0_flag == 0
    }

    /// The decode of `opcode` at `pc`, from the cache when it holds this key,
    /// else decoded afresh and filed.
    pub fn decoded_simple_op(&mut self, pc: u32, opcode: u16, cpu_type: CpuType) -> (r: Option<DecodedSimpleOp>)
        requires
            cache_wf(*old(self)),
        ensures
            r == decode_spec(cpu_type, opcode),
            r matches Some(op) ==> op_wf(op),
            cache_wf(*final(self)),
            *final(self) == (CpuCore { decoded_op_cache: final(self).decoded_op_cache, ..*old(self) }),
    {
        proof {
            lemma_decode_wf(cpu_type, opcode);
        }
        let idx = decoded_op_cache_index(pc);
        let cached = self.decoded_op_cache[idx];
        match cached {
            Some(entry) => {
                if entry.pc == pc && entry.opcode == opcode && entry.cpu_type == cpu_type {
                    proof {
                        lemma_cache_hit_is_decode(*self, pc, opcode, cpu_type);
                    }
                    return Some(entry.op);
                }
            },
            None => {},
        }
        let op = DecodedSimpleOp::decode(cpu_type, opcode);
        match op {
            Some(o) => {
                self.decoded_op_cache.set(idx, Some(DecodedOpCacheEntry { pc, opcode, cpu_type, op: o }));
                proof {
                    assert forall|i: int| 0 <= i < DECODED_OP_CACHE_SIZE implies entry_faithful(
                        #[trigger] self.decoded_op_cache@[i],
                        i,
                    ) by {
                        if i != idx {
                            assert(self.decoded_op_cache@[i] == old(self).decoded_op_cache@[i]);
                        }
                    }
                }
            },
            None => {},
        }
        op
    }

    /// Run cached micro-operations until the cycle budget is spent, the
    /// fetched opcode has no simple decode (`Miss`, for the interpreter), or
    /// the fetch faults.
    pub fn execute_decoded_simple_run<B: AddressBus>(&mut self, bus: &mut B) -> (r: CachedRunResult)
        requires
            cache_wf(*old(self)),
        ensures
            cache_wf(*final(self)),
            final(self).cpu_type == old(self).cpu_type,
            old(self).cycles_remaining <= 0 ==> r == CachedRunResult::Ran && *final(self) == *old(self),
            r == CachedRunResult::Ran ==> final(self).cycles_remaining <= 0,
            r matches CachedRunResult::Miss(op) ==> decode_spec(old(self).cpu_type, op) is None && final(self).ir
                == op as u32,
            r == CachedRunResult::Fault ==> final(self).run_mode == RUN_MODE_BERR_AERR_RESET,
    {
        let cpu_type = self.cpu_type;
        while self.cycles_remaining > 0
            invariant
                cache_wf(*self),
                self.cpu_type == cpu_type,
                cpu_type == old(self).cpu_type,
                old(self).cycles_remaining <= 0 ==> *self == *old(self),
            decreases self.cycles_remaining as int + 134,
        {
            self.ppc = self.pc;
            let opcode = self.read_opcode_16(bus);
            if self.run_mode == RUN_MODE_BERR_AERR_RESET {
                return CachedRunResult::Fault;
            }
            self.ir = opcode as u32;
            let pc = self.ppc;
            let op = match self.decoded_simple_op(pc, opcode, cpu_type) {
                Some(op) => op,
                None => return CachedRunResult::Miss(opcode),
            };
            let cycles = op.execute(self);
            self.cycles_remaining = self.cycles_remaining - cycles;
        }
        CachedRunResult::Ran
    }
}

} // verus!
