//! Hot-loop traces: the trace operations, their decoding, and the portable
//! trace executor.
//!
//! A trace is a straight run of simple instructions closed by a branch
//! (Bcc or DBcc). Besides the register-only operations of the decoded
//! cache, a trace may hold MOVEs with register-indirect operands, executed
//! against the fast-memory window: every such access is checked for the
//! window's bounds, the bus alignment and stores into the trace's own code,
//! and a failed check abandons the trace at that operation with nothing of
//! it committed.
//!
//! `reg_op_effect` and `move_mem_effect` say what one operation does;
//! `trace_outcome` says what a whole pass does.

use vstd::prelude::*;
use crate::cpu::{CpuCore, condition_holds, RUN_MODE_BERR_AERR_RESET};
use crate::instructions::integer_arith::{sext8, sext16, sized_write, ccr_logic};
use crate::instructions::data_movement::exg_result;
use crate::reg_ops::{
    reg_operand, data_written, regs_of, unary_effect, binary_effect, addr_effect, addsubx_effect,
    bit_effect, swap_effect, shift_reg_effect,
};
use crate::op_cache::{
    DecodedSimpleOp, DirectReg, UnaryOp, BinaryOp, AddrOp, BitOp, op_effect, op_frame, op_wf, decoded_cycles,
    lemma_effect_cycles,
};
use crate::types::{CpuType, Size, size_mask, size_bytes, lemma_field_bounds, lemma_mask_bounds};
use crate::memory::{AddressBus, BusEvent};
use crate::op_cache::{decode_spec, CachedRunResult};

verus! {

/// Slots of the trace cache.
pub const TRACE_CACHE_SIZE: usize = 4096;
/// Most operations a trace holds.
pub const TRACE_MAX_OPS: usize = 16;
/// Backward-branch hits at a target before a trace is compiled there.
pub const TRACE_HOT_THRESHOLD: u8 = 2;
/// Empty entry of the per-CPU trace filters.
pub const TRACE_PC_NONE: u32 = 0xFFFF_FFFF;

/// A register operand: data or address register 0-7.
#[derive(Debug, Clone, Copy, PartialEq, Eq, Structural)]
pub enum JitDirectReg {
    Data(u8),
    Addr(u8),
}

/// Effective-address forms of trace memory operations. All take no
/// extension word, so a trace's code bytes stay contiguous.
#[derive(Debug, Clone, Copy, PartialEq, Eq, Structural)]
pub enum JitEa {
    Data(u8),
    Addr(u8),
    /// (An)
    Ind(u8),
    /// (An)+
    PostInc(u8),
    /// -(An)
    PreDec(u8),
}

impl JitEa {
    /// Whether the operand is in memory.
    pub fn is_mem(self) -> (r: bool)
        ensures
            r == (self is Ind || self is PostInc || self is PreDec),
    {
        match self {
            JitEa::Ind(_) | JitEa::PostInc(_) | JitEa::PreDec(_) => true,
            _ => false,
        }
    }
}

/// Post-increment / pre-decrement step: byte accesses through A7 keep the
/// stack pointer even.
pub open spec fn ea_step_spec(size: Size, reg: u8) -> u32 {
    if size == Size::Byte && reg == 7 {
        2
    } else {
        size_bytes(size)
    }
}

/// Post-increment / pre-decrement step of a trace memory operand.
pub fn jit_ea_step(size: Size, reg: u8) -> (r: u32)
    ensures
        r == ea_step_spec(size, reg),
{
    if size == Size::Byte && reg == 7 {
        2
    } else {
        size.bytes()
    }
}

/// One-operand data-register operations.
#[derive(Debug, Clone, Copy, PartialEq, Eq, Structural)]
pub enum JitUnaryOp {
    Clr,
    Neg,
    Negx,
    Not,
    Tst,
}

/// Two-operand data-register operations.
#[derive(Debug, Clone, Copy, PartialEq, Eq, Structural)]
pub enum JitBinaryOp {
    Add,
    Sub,
    And,
    Or,
    Eor,
    Cmp,
}

/// Address-register arithmetic.
#[derive(Debug, Clone, Copy, PartialEq, Eq, Structural)]
pub enum JitAddrOp {
    Adda,
    Suba,
    Cmpa,
}

/// Single-bit operations with a register bit number.
#[derive(Debug, Clone, Copy, PartialEq, Eq, Structural)]
pub enum JitBitOp {
    Test,
    Change,
    Clear,
    SetBit,
}

/// One operation of a trace.
#[derive(Debug, Clone, Copy, PartialEq, Eq, Structural)]
pub enum JitTraceOp {
    Nop,
    MoveReg { src: JitDirectReg, dst: JitDirectReg, size: Size },
    Moveq { reg: u8, data: u32 },
    UnaryDataReg { op: JitUnaryOp, reg: u8, size: Size },
    AddqSubqReg { reg: u8, data: u32, size: Size, is_sub: bool },
    AddqSubqAddr { reg: u8, data: u32, is_sub: bool },
    BinaryDataReg { op: JitBinaryOp, src: JitDirectReg, dst: u8, size: Size, cycles: i32 },
    AddrDataReg { op: JitAddrOp, src: JitDirectReg, dst: u8, size: Size },
    AddSubxReg { src: u8, dst: u8, size: Size, is_sub: bool },
    BitReg { op: JitBitOp, bit_reg: u8, dst: u8 },
    Exg { opcode: u16 },
    Ext { reg: u8, size: Size },
    Extb { reg: u8 },
    SccDataReg { condition: u8, reg: u8 },
    ShiftReg {
        reg: u8,
        size: Size,
        count_or_reg: u8,
        count_is_register: bool,
        direction: u8,
        op: u8,
    },
    Swap { reg: u8 },
    /// Bcc/BRA of `length` bytes (2: 8-bit displacement, 4: 16-bit).
    Branch { condition: u8, displacement: i32, length: u8 },
    /// DBcc: decrement the low word of `reg` and loop unless the condition
    /// holds or the counter expires.
    Dbcc { condition: u8, reg: u8, displacement: i16 },
    /// MOVE/MOVEA with at least one register-indirect operand, executed
    /// against the fast-memory window (`dst` an address register is MOVEA).
    MoveMem { size: Size, src: JitEa, dst: JitEa },
}

/// A decoded trace operation and where it came from.
#[derive(Debug, Clone, Copy, PartialEq, Eq, Structural)]
pub struct TraceBuildOp {
    /// The opcode word.
    pub opcode: u16,
    /// The extension word, for the 16-bit-displacement branches.
    pub extension: Option<u16>,
    /// Address of the instruction.
    pub pc: u32,
    /// The operation.
    pub op: JitTraceOp,
}

// ----- static properties of an operation ---------------------------------------

/// Clocks of a memory MOVE: 4, plus the source read, plus the destination
/// write.
pub open spec fn move_mem_cycles(size: Size, src: JitEa, dst: JitEa) -> i32 {
    let long = size == Size::Long;
    let src_c: i32 = match src {
        JitEa::Data(_) | JitEa::Addr(_) => 0,
        JitEa::Ind(_) | JitEa::PostInc(_) => if long {
            8
        } else {
            4
        },
        JitEa::PreDec(_) => if long {
            10
        } else {
            6
        },
    };
    let dst_c: i32 = if dst is Ind || dst is PostInc || dst is PreDec {
        if long {
            8
        } else {
            4
        }
    } else {
        0
    };
    (4 + src_c + dst_c) as i32
}

/// The largest number of clocks an operation can take.
pub open spec fn max_cycles_spec(op: JitTraceOp) -> i32 {
    match op {
        JitTraceOp::Nop => 4,
        JitTraceOp::MoveReg { .. } => 4,
        JitTraceOp::Moveq { .. } => 4,
        JitTraceOp::UnaryDataReg { .. } => 6,
        JitTraceOp::Swap { .. } => 4,
        JitTraceOp::Ext { .. } => 4,
        JitTraceOp::Extb { .. } => 4,
        JitTraceOp::AddqSubqReg { .. } => 8,
        JitTraceOp::AddqSubqAddr { .. } => 8,
        JitTraceOp::BinaryDataReg { cycles, .. } => cycles,
        JitTraceOp::AddrDataReg { op, .. } => if op == JitAddrOp::Cmpa {
            6
        } else {
            8
        },
        JitTraceOp::AddSubxReg { .. } => 8,
        JitTraceOp::BitReg { op, .. } => if op == JitBitOp::Test {
            6
        } else if op == JitBitOp::Clear {
            10
        } else {
            8
        },
        JitTraceOp::SccDataReg { .. } => 6,
        JitTraceOp::Exg { .. } => 6,
        JitTraceOp::ShiftReg { count_or_reg, count_is_register, .. } => if count_is_register {
            132
        } else if count_or_reg == 0 {
            22
        } else {
            (6 + 2 * count_or_reg) as i32
        },
        JitTraceOp::Branch { .. } => 10,
        JitTraceOp::Dbcc { .. } => 14,
        JitTraceOp::MoveMem { size, src, dst } => move_mem_cycles(size, src, dst),
    }
}

/// Where a taken closing branch at `pc` goes.
pub open spec fn taken_target_spec(op: JitTraceOp, pc: u32) -> Option<u32> {
    match op {
        JitTraceOp::Branch { displacement, .. } => Some(pc.wrapping_add(2).wrapping_add(displacement as u32)),
        JitTraceOp::Dbcc { displacement, .. } => Some(pc.wrapping_add(2).wrapping_add(displacement as i32 as u32)),
        _ => None,
    }
}

/// Bytes of code an operation occupies.
pub open spec fn length_spec(op: JitTraceOp) -> u8 {
    match op {
        JitTraceOp::Branch { length, .. } => length,
        JitTraceOp::Dbcc { .. } => 4,
        _ => 2,
    }
}

impl JitTraceOp {
    /// The largest number of clocks the operation can take.
    pub fn max_cycles(self) -> (r: i32)
        requires
            self matches JitTraceOp::ShiftReg { count_or_reg, .. } ==> count_or_reg < 8,
        ensures
            r == max_cycles_spec(self),
    {
        match self {
            Self::Nop => 4,
            Self::MoveReg { .. } => 4,
            Self::Moveq { .. } => 4,
            Self::UnaryDataReg { .. } => 6,
            Self::Swap { .. } => 4,
            Self::Ext { .. } => 4,
            Self::Extb { .. } => 4,
            Self::AddqSubqReg { .. } => 8,
            Self::AddqSubqAddr { .. } => 8,
            Self::BinaryDataReg { cycles, .. } => cycles,
            Self::AddrDataReg { op: JitAddrOp::Cmpa, .. } => 6,
            Self::AddrDataReg { .. } => 8,
            Self::AddSubxReg { .. } => 8,
            Self::BitReg { op: JitBitOp::Test, .. } => 6,
            Self::BitReg { op: JitBitOp::Clear, .. } => 10,
            Self::BitReg { .. } => 8,
            Self::SccDataReg { .. } => 6,
            Self::Exg { .. } => 6,
            Self::ShiftReg { count_or_reg, count_is_register, .. } => {
                if count_is_register {
                    132
                } else {
                    let count: i32 = if count_or_reg == 0 {
                        8
                    } else {
                        count_or_reg as i32
                    };
                    6 + 2 * count
                }
            },
            Self::Branch { .. } => 10,
            Self::Dbcc { .. } => 14,
            Self::MoveMem { size, src, dst } => {
                let long = size == Size::Long;
                let src_c: i32 = match src {
                    JitEa::Data(_) | JitEa::Addr(_) => 0,
                    JitEa::Ind(_) | JitEa::PostInc(_) => if long {
                        8
                    } else {
                        4
                    },
                    JitEa::PreDec(_) => if long {
                        10
                    } else {
                        6
                    },
                };
                let dst_c: i32 = if dst.is_mem() {
                    if long {
                        8
                    } else {
                        4
                    }
                } else {
                    0
                };
                4 + src_c + dst_c
            },
        }
    }

    /// Whether the operation closes a trace (a branch).
    pub fn ends_trace(self) -> (r: bool)
        ensures
            r == (self is Branch || self is Dbcc),
    {
        match self {
            Self::Branch { .. } | Self::Dbcc { .. } => true,
            _ => false,
        }
    }

    /// The PC a taken closing branch at `pc` jumps to, if this op is one.
    pub fn taken_target(self, pc: u32) -> (r: Option<u32>)
        ensures
            r == taken_target_spec(self, pc),
    {
        match self {
            Self::Branch { displacement, .. } => Some(pc.wrapping_add(2).wrapping_add(displacement as u32)),
            Self::Dbcc { displacement, .. } => Some(pc.wrapping_add(2).wrapping_add(displacement as i32 as u32)),
            _ => None,
        }
    }

    /// Bytes of code the operation occupies.
    pub fn length(self) -> (r: u8)
        ensures
            r == length_spec(self),
    {
        match self {
            Self::Branch { length, .. } => length,
            Self::Dbcc { .. } => 4,
            _ => 2,
        }
    }
}

// ----- correspondence with the decoded-cache operations ------------------------

/// Register-only trace operations: neither a branch nor a memory MOVE.
pub open spec fn is_reg_op(op: JitTraceOp) -> bool {
    !(op is Branch || op is Dbcc || op is MoveMem)
}

/// A register operand of the decoded cache.
pub open spec fn reg_to_decoded(r: JitDirectReg) -> DirectReg {
    match r {
        JitDirectReg::Data(x) => DirectReg::Data(x),
        JitDirectReg::Addr(x) => DirectReg::Addr(x),
    }
}

/// A register operand of a trace.
pub open spec fn reg_from_decoded(r: DirectReg) -> JitDirectReg {
    match r {
        DirectReg::Data(x) => JitDirectReg::Data(x),
        DirectReg::Addr(x) => JitDirectReg::Addr(x),
    }
}

/// The decoded-cache operation that does what a register-only trace
/// operation does to the registers and flags.
pub open spec fn as_decoded(op: JitTraceOp) -> DecodedSimpleOp {
    match op {
        JitTraceOp::MoveReg { src, dst, size } => DecodedSimpleOp::MoveReg {
            src: reg_to_decoded(src),
            dst: reg_to_decoded(dst),
            size,
        },
        JitTraceOp::Moveq { reg, data } => DecodedSimpleOp::Moveq { reg, data },
        JitTraceOp::UnaryDataReg { op, reg, size } => DecodedSimpleOp::UnaryDataReg {
            op: match op {
                JitUnaryOp::Clr => UnaryOp::Clr,
                JitUnaryOp::Neg => UnaryOp::Neg,
                JitUnaryOp::Negx => UnaryOp::Negx,
                JitUnaryOp::Not => UnaryOp::Not,
                JitUnaryOp::Tst => UnaryOp::Tst,
            },
            reg,
            size,
        },
        JitTraceOp::AddqSubqReg { reg, data, size, is_sub } => DecodedSimpleOp::AddqSubqReg { reg, data, size, is_sub },
        JitTraceOp::AddqSubqAddr { reg, data, is_sub } => DecodedSimpleOp::AddqSubqAddr { reg, data, is_sub },
        JitTraceOp::BinaryDataReg { op, src, dst, size, cycles } => DecodedSimpleOp::BinaryDataReg {
            op: match op {
                JitBinaryOp::Add => BinaryOp::Add,
                JitBinaryOp::Sub => BinaryOp::Sub,
                JitBinaryOp::And => BinaryOp::And,
                JitBinaryOp::Or => BinaryOp::Or,
                JitBinaryOp::Eor => BinaryOp::Eor,
                JitBinaryOp::Cmp => BinaryOp::Cmp,
            },
            src: reg_to_decoded(src),
            dst,
            size,
            cycles,
        },
        JitTraceOp::AddrDataReg { op, src, dst, size } => DecodedSimpleOp::AddrDataReg {
            op: match op {
                JitAddrOp::Adda => AddrOp::Adda,
                JitAddrOp::Suba => AddrOp::Suba,
                JitAddrOp::Cmpa => AddrOp::Cmpa,
            },
            src: reg_to_decoded(src),
            dst,
            size,
        },
        JitTraceOp::AddSubxReg { src, dst, size, is_sub } => DecodedSimpleOp::AddSubxReg { src, dst, size, is_sub },
        JitTraceOp::BitReg { op, bit_reg, dst } => DecodedSimpleOp::BitReg {
            op: match op {
                JitBitOp::Test => BitOp::Test,
                JitBitOp::Change => BitOp::Change,
                JitBitOp::Clear => BitOp::Clear,
                JitBitOp::SetBit => BitOp::SetBit,
            },
            bit_reg,
            dst,
        },
        JitTraceOp::Exg { opcode } => DecodedSimpleOp::Exg { opcode },
        JitTraceOp::Ext { reg, size } => DecodedSimpleOp::Ext { reg, size },
        JitTraceOp::Extb { reg } => DecodedSimpleOp::Extb { reg },
        JitTraceOp::SccDataReg { condition, reg } => DecodedSimpleOp::SccDataReg { condition, reg },
        JitTraceOp::ShiftReg { reg, size, count_or_reg, count_is_register, direction, op } => DecodedSimpleOp::ShiftReg {
            reg,
            size,
            count_or_reg,
            count_is_register,
            direction,
            op,
        },
        JitTraceOp::Swap { reg } => DecodedSimpleOp::Swap { reg },
        _ => DecodedSimpleOp::Nop,
    }
}

/// The trace operation of a decoded-cache operation, where traces carry
/// it (every one but ABCD/SBCD; a short branch becomes a two-byte Bcc).
pub open spec fn to_jit_spec(d: DecodedSimpleOp) -> Option<JitTraceOp> {
    match d {
        DecodedSimpleOp::Nop => Some(JitTraceOp::Nop),
        DecodedSimpleOp::MoveReg { src, dst, size } => Some(
            JitTraceOp::MoveReg { src: reg_from_decoded(src), dst: reg_from_decoded(dst), size },
        ),
        DecodedSimpleOp::Moveq { reg, data } => Some(JitTraceOp::Moveq { reg, data }),
        DecodedSimpleOp::UnaryDataReg { op, reg, size } => Some(
            JitTraceOp::UnaryDataReg {
                op: match op {
                    UnaryOp::Clr => JitUnaryOp::Clr,
                    UnaryOp::Neg => JitUnaryOp::Neg,
                    UnaryOp::Negx => JitUnaryOp::Negx,
                    UnaryOp::Not => JitUnaryOp::Not,
                    UnaryOp::Tst => JitUnaryOp::Tst,
                },
                reg,
                size,
            },
        ),
        DecodedSimpleOp::Swap { reg } => Some(JitTraceOp::Swap { reg }),
        DecodedSimpleOp::Ext { reg, size } => Some(JitTraceOp::Ext { reg, size }),
        DecodedSimpleOp::Extb { reg } => Some(JitTraceOp::Extb { reg }),
        DecodedSimpleOp::AddqSubqReg { reg, data, size, is_sub } => Some(JitTraceOp::AddqSubqReg { reg, data, size, is_sub }),
        DecodedSimpleOp::AddqSubqAddr { reg, data, is_sub } => Some(JitTraceOp::AddqSubqAddr { reg, data, is_sub }),
        DecodedSimpleOp::BinaryDataReg { op, src, dst, size, cycles } => Some(
            JitTraceOp::BinaryDataReg {
                op: match op {
                    BinaryOp::Add => JitBinaryOp::Add,
                    BinaryOp::Sub => JitBinaryOp::Sub,
                    BinaryOp::And => JitBinaryOp::And,
                    BinaryOp::Or => JitBinaryOp::Or,
                    BinaryOp::Eor => JitBinaryOp::Eor,
                    BinaryOp::Cmp => JitBinaryOp::Cmp,
                },
                src: reg_from_decoded(src),
                dst,
                size,
                cycles,
            },
        ),
        DecodedSimpleOp::AddrDataReg { op, src, dst, size } => Some(
            JitTraceOp::AddrDataReg {
                op: match op {
                    AddrOp::Adda => JitAddrOp::Adda,
                    AddrOp::Suba => JitAddrOp::Suba,
                    AddrOp::Cmpa => JitAddrOp::Cmpa,
                },
                src: reg_from_decoded(src),
                dst,
                size,
            },
        ),
        DecodedSimpleOp::AddSubxReg { src, dst, size, is_sub } => Some(JitTraceOp::AddSubxReg { src, dst, size, is_sub }),
        DecodedSimpleOp::BitReg { op, bit_reg, dst } => Some(
            JitTraceOp::BitReg {
                op: match op {
                    BitOp::Test => JitBitOp::Test,
                    BitOp::Change => JitBitOp::Change,
                    BitOp::Clear => JitBitOp::Clear,
                    BitOp::SetBit => JitBitOp::SetBit,
                },
                bit_reg,
                dst,
            },
        ),
        DecodedSimpleOp::BcdReg { .. } => None,
        DecodedSimpleOp::Exg { opcode } => Some(JitTraceOp::Exg { opcode }),
        DecodedSimpleOp::SccDataReg { condition, reg } => Some(JitTraceOp::SccDataReg { condition, reg }),
        DecodedSimpleOp::ShiftReg { reg, size, count_or_reg, count_is_register, direction, op } => Some(
            JitTraceOp::ShiftReg { reg, size, count_or_reg, count_is_register, direction, op },
        ),
        DecodedSimpleOp::BranchShort { condition, displacement } => Some(
            JitTraceOp::Branch { condition, displacement: displacement as i32, length: 2 },
        ),
    }
}

/// A register operand of a trace.
fn reg_of_decoded(r: DirectReg) -> (t: JitDirectReg)
    ensures
        t == reg_from_decoded(r),
{
    match r {
        DirectReg::Data(x) => JitDirectReg::Data(x),
        DirectReg::Addr(x) => JitDirectReg::Addr(x),
    }
}

/// A register operand of the decoded cache.
fn reg_of_trace(r: JitDirectReg) -> (t: DirectReg)
    ensures
        t == reg_to_decoded(r),
{
    match r {
        JitDirectReg::Data(x) => DirectReg::Data(x),
        JitDirectReg::Addr(x) => DirectReg::Addr(x),
    }
}

impl DecodedSimpleOp {
    /// The trace operation of this decoded operation, where traces carry it.
    pub fn to_jit_trace_op(self) -> (r: Option<JitTraceOp>)
        ensures
            r == to_jit_spec(self),
    {
        match self {
            DecodedSimpleOp::Nop => Some(JitTraceOp::Nop),
            DecodedSimpleOp::MoveReg { src, dst, size } => Some(
                JitTraceOp::MoveReg { src: reg_of_decoded(src), dst: reg_of_decoded(dst), size },
            ),
            DecodedSimpleOp::Moveq { reg, data } => Some(JitTraceOp::Moveq { reg, data }),
            DecodedSimpleOp::UnaryDataReg { op, reg, size } => Some(
                JitTraceOp::UnaryDataReg {
                    op: match op {
                        UnaryOp::Clr => JitUnaryOp::Clr,
                        UnaryOp::Neg => JitUnaryOp::Neg,
                        UnaryOp::Negx => JitUnaryOp::Negx,
                        UnaryOp::Not => JitUnaryOp::Not,
                        UnaryOp::Tst => JitUnaryOp::Tst,
                    },
                    reg,
                    size,
                },
            ),
            DecodedSimpleOp::Swap { reg } => Some(JitTraceOp::Swap { reg }),
            DecodedSimpleOp::Ext { reg, size } => Some(JitTraceOp::Ext { reg, size }),
            DecodedSimpleOp::Extb { reg } => Some(JitTraceOp::Extb { reg }),
            DecodedSimpleOp::AddqSubqReg { reg, data, size, is_sub } => Some(
                JitTraceOp::AddqSubqReg { reg, data, size, is_sub },
            ),
            DecodedSimpleOp::AddqSubqAddr { reg, data, is_sub } => Some(JitTraceOp::AddqSubqAddr { reg, data, is_sub }),
            DecodedSimpleOp::BinaryDataReg { op, src, dst, size, cycles } => Some(
                JitTraceOp::BinaryDataReg {
                    op: match op {
                        BinaryOp::Add => JitBinaryOp::Add,
                        BinaryOp::Sub => JitBinaryOp::Sub,
                        BinaryOp::And => JitBinaryOp::And,
                        BinaryOp::Or => JitBinaryOp::Or,
                        BinaryOp::Eor => JitBinaryOp::Eor,
                        BinaryOp::Cmp => JitBinaryOp::Cmp,
                    },
                    src: reg_of_decoded(src),
                    dst,
                    size,
                    cycles,
                },
            ),
            DecodedSimpleOp::AddrDataReg { op, src, dst, size } => Some(
                JitTraceOp::AddrDataReg {
                    op: match op {
                        AddrOp::Adda => JitAddrOp::Adda,
                        AddrOp::Suba => JitAddrOp::Suba,
                        AddrOp::Cmpa => JitAddrOp::Cmpa,
                    },
                    src: reg_of_decoded(src),
                    dst,
                    size,
                },
            ),
            DecodedSimpleOp::AddSubxReg { src, dst, size, is_sub } => Some(JitTraceOp::AddSubxReg { src, dst, size, is_sub }),
            DecodedSimpleOp::BitReg { op, bit_reg, dst } => Some(
                JitTraceOp::BitReg {
                    op: match op {
                        BitOp::Test => JitBitOp::Test,
                        BitOp::Change => JitBitOp::Change,
                        BitOp::Clear => JitBitOp::Clear,
                        BitOp::SetBit => JitBitOp::SetBit,
                    },
                    bit_reg,
                    dst,
                },
            ),
            DecodedSimpleOp::BcdReg { .. } => None,
            DecodedSimpleOp::Exg { opcode } => Some(JitTraceOp::Exg { opcode }),
            DecodedSimpleOp::SccDataReg { condition, reg } => Some(JitTraceOp::SccDataReg { condition, reg }),
            DecodedSimpleOp::ShiftReg { reg, size, count_or_reg, count_is_register, direction, op } => Some(
                JitTraceOp::ShiftReg { reg, size, count_or_reg, count_is_register, direction, op },
            ),
            DecodedSimpleOp::BranchShort { condition, displacement } => Some(
                JitTraceOp::Branch { condition, displacement: displacement as i32, length: 2 },
            ),
        }
    }
}

/// The decoded-cache operation of a register-only trace operation.
fn decoded_of(op: JitTraceOp) -> (d: DecodedSimpleOp)
    ensures
        d == as_decoded(op),
{
    match op {
        JitTraceOp::MoveReg { src, dst, size } => DecodedSimpleOp::MoveReg {
            src: reg_of_trace(src),
            dst: reg_of_trace(dst),
            size,
        },
        JitTraceOp::Moveq { reg, data } => DecodedSimpleOp::Moveq { reg, data },
        JitTraceOp::UnaryDataReg { op, reg, size } => DecodedSimpleOp::UnaryDataReg {
            op: match op {
                JitUnaryOp::Clr => UnaryOp::Clr,
                JitUnaryOp::Neg => UnaryOp::Neg,
                JitUnaryOp::Negx => UnaryOp::Negx,
                JitUnaryOp::Not => UnaryOp::Not,
                JitUnaryOp::Tst => UnaryOp::Tst,
            },
            reg,
            size,
        },
        JitTraceOp::AddqSubqReg { reg, data, size, is_sub } => DecodedSimpleOp::AddqSubqReg { reg, data, size, is_sub },
        JitTraceOp::AddqSubqAddr { reg, data, is_sub } => DecodedSimpleOp::AddqSubqAddr { reg, data, is_sub },
        JitTraceOp::BinaryDataReg { op, src, dst, size, cycles } => DecodedSimpleOp::BinaryDataReg {
            op: match op {
                JitBinaryOp::Add => BinaryOp::Add,
                JitBinaryOp::Sub => BinaryOp::Sub,
                JitBinaryOp::And => BinaryOp::And,
                JitBinaryOp::Or => BinaryOp::Or,
                JitBinaryOp::Eor => BinaryOp::Eor,
                JitBinaryOp::Cmp => BinaryOp::Cmp,
            },
            src: reg_of_trace(src),
            dst,
            size,
            cycles,
        },
        JitTraceOp::AddrDataReg { op, src, dst, size } => DecodedSimpleOp::AddrDataReg {
            op: match op {
                JitAddrOp::Adda => AddrOp::Adda,
                JitAddrOp::Suba => AddrOp::Suba,
                JitAddrOp::Cmpa => AddrOp::Cmpa,
            },
            src: reg_of_trace(src),
            dst,
            size,
        },
        JitTraceOp::AddSubxReg { src, dst, size, is_sub } => DecodedSimpleOp::AddSubxReg { src, dst, size, is_sub },
        JitTraceOp::BitReg { op, bit_reg, dst } => DecodedSimpleOp::BitReg {
            op: match op {
                JitBitOp::Test => BitOp::Test,
                JitBitOp::Change => BitOp::Change,
                JitBitOp::Clear => BitOp::Clear,
                JitBitOp::SetBit => BitOp::SetBit,
            },
            bit_reg,
            dst,
        },
        JitTraceOp::Exg { opcode } => DecodedSimpleOp::Exg { opcode },
        JitTraceOp::Ext { reg, size } => DecodedSimpleOp::Ext { reg, size },
        JitTraceOp::Extb { reg } => DecodedSimpleOp::Extb { reg },
        JitTraceOp::SccDataReg { condition, reg } => DecodedSimpleOp::SccDataReg { condition, reg },
        JitTraceOp::ShiftReg { reg, size, count_or_reg, count_is_register, direction, op } => DecodedSimpleOp::ShiftReg {
            reg,
            size,
            count_or_reg,
            count_is_register,
            direction,
            op,
        },
        JitTraceOp::Swap { reg } => DecodedSimpleOp::Swap { reg },
        _ => DecodedSimpleOp::Nop,
    }
}

// ----- register operations ----------------------------------------------------

/// The fields of an operation are in range.
pub open spec fn trace_op_wf(op: JitTraceOp) -> bool {
    match op {
        JitTraceOp::Branch { condition, .. } => condition < 16,
        JitTraceOp::Dbcc { condition, reg, .. } => condition < 16 && reg < 8,
        JitTraceOp::MoveMem { src, dst, .. } => ea_wf(src) && ea_wf(dst),
        _ => op_wf(as_decoded(op)),
    }
}

/// An effective-address operand names one of the eight registers.
pub open spec fn ea_wf(ea: JitEa) -> bool {
    match ea {
        JitEa::Data(r) => r < 8,
        JitEa::Addr(r) => r < 8,
        JitEa::Ind(r) => r < 8,
        JitEa::PostInc(r) => r < 8,
        JitEa::PreDec(r) => r < 8,
    }
}

/// Clocks of a register bit operation on the trace path: the 68000 family
/// charges two more for a bit number of 16 or more.
pub open spec fn jit_bit_cycles(op: JitBitOp, pre: bool, bit: u32) -> i32 {
    let extra: i32 = if pre && bit >= 16 {
        2
    } else {
        0
    };
    match op {
        JitBitOp::Test => 6,
        JitBitOp::Change => if pre {
            (6 + extra) as i32
        } else {
            8
        },
        JitBitOp::Clear => if pre {
            (8 + extra) as i32
        } else {
            10
        },
        JitBitOp::SetBit => if pre {
            (6 + extra) as i32
        } else {
            8
        },
    }
}

/// Clocks of a register-only operation on the trace path: the 68000
/// family's register timings where they differ from the cache's.
pub open spec fn trace_reg_cycles(op: JitTraceOp, old: CpuCore) -> i32 {
    let pre = old.is_pre_68020;
    match op {
        JitTraceOp::UnaryDataReg { op, size, .. } => if pre && size == Size::Long && op != JitUnaryOp::Tst {
            6
        } else {
            4
        },
        JitTraceOp::AddqSubqReg { size, .. } => if pre && size == Size::Long {
            8
        } else {
            4
        },
        JitTraceOp::AddqSubqAddr { .. } => if pre {
            8
        } else {
            4
        },
        JitTraceOp::AddSubxReg { size, .. } => if pre && size == Size::Long {
            8
        } else {
            4
        },
        JitTraceOp::BitReg { op, bit_reg, .. } => jit_bit_cycles(op, pre, old.dar[bit_reg as int] & 31),
        JitTraceOp::SccDataReg { condition, .. } => if pre && condition_holds(
            condition,
            old.n_flag,
            old.not_z_flag,
            old.v_flag,
            old.c_flag,
        ) {
            6
        } else {
            4
        },
        _ => decoded_cycles(as_decoded(op), old),
    }
}

/// What a non-memory trace operation at `pc` does, and its clocks.
pub open spec fn reg_op_effect(op: JitTraceOp, pc: u32, old: CpuCore, new: CpuCore, cycles: i32) -> bool {
    let holds = |c: u8| condition_holds(c, old.n_flag, old.not_z_flag, old.v_flag, old.c_flag);
    match op {
        JitTraceOp::Branch { condition, displacement, length } => {
            if condition == 0 || holds(condition) {
                cycles == 10 && new == (CpuCore {
                    change_of_flow: true,
                    pc: pc.wrapping_add(2).wrapping_add(displacement as u32),
                    ..old
                })
            } else {
                cycles == (if length == 4 {
                    12i32
                } else {
                    8i32
                }) && new == (CpuCore { pc: pc.wrapping_add(length as u32), ..old })
            }
        },
        JitTraceOp::Dbcc { condition, reg, displacement } => {
            if !holds(condition) {
                let v = old.dar[reg as int];
                let counter = (v as u16).wrapping_sub(1);
                &&& new.dar@ == old.dar@.update(reg as int, (v & 0xFFFF_0000) | counter as u32)
                &&& if counter != 0xFFFF {
                    cycles == 10 && new == (CpuCore {
                        dar: new.dar,
                        pc: pc.wrapping_add(2).wrapping_add(displacement as i32 as u32),
                        ..old
                    })
                } else {
                    cycles == 14 && new == (CpuCore { dar: new.dar, pc: pc.wrapping_add(4), ..old })
                }
            } else {
                cycles == 12 && new == (CpuCore { pc: pc.wrapping_add(4), ..old })
            }
        },
        JitTraceOp::MoveMem { .. } => false,
        _ => op_effect(as_decoded(op), old, new, decoded_cycles(as_decoded(op), old)) && cycles == trace_reg_cycles(
            op,
            old,
        ),
    }
}

/// The trace-path clocks of a register-only operation, where they differ
/// from the cache's.
fn special_cycles(cpu: &CpuCore, op: JitTraceOp) -> (r: Option<i32>)
    requires
        is_reg_op(op),
        trace_op_wf(op),
    ensures
        r matches Some(c) ==> c == trace_reg_cycles(op, *cpu),
        r is None ==> trace_reg_cycles(op, *cpu) == decoded_cycles(as_decoded(op), *cpu),
{
    let pre = cpu.is_pre_68020;
    match op {
        JitTraceOp::UnaryDataReg { op, size, .. } => Some(
            if pre && size == Size::Long && op != JitUnaryOp::Tst {
                6
            } else {
                4
            },
        ),
        JitTraceOp::AddqSubqReg { size, .. } => Some(
            if pre && size == Size::Long {
                8
            } else {
                4
            },
        ),
        JitTraceOp::AddqSubqAddr { .. } => Some(
            if pre {
                8
            } else {
                4
            },
        ),
        JitTraceOp::AddSubxReg { size, .. } => Some(
            if pre && size == Size::Long {
                8
            } else {
                4
            },
        ),
        JitTraceOp::BitReg { op, bit_reg, .. } => {
            let bit = cpu.dar[bit_reg as usize] & 31;
            let extra: i32 = if pre && bit >= 16 {
                2
            } else {
                0
            };
            Some(
                match op {
                    JitBitOp::Test => 6,
                    JitBitOp::Change => if pre {
                        6 + extra
                    } else {
                        8
                    },
                    JitBitOp::Clear => if pre {
                        8 + extra
                    } else {
                        10
                    },
                    JitBitOp::SetBit => if pre {
                        6 + extra
                    } else {
                        8
                    },
                },
            )
        },
        JitTraceOp::SccDataReg { condition, .. } => Some(
            if pre && cpu.test_condition(condition) {
                6
            } else {
                4
            },
        ),
        _ => None,
    }
}

/// Bcc at `pc`: taken, to `pc + 2 + displacement`; else falls through the
/// instruction's `length` bytes.
fn trace_branch(cpu: &mut CpuCore, pc: u32, condition: u8, displacement: i32, length: u8) -> (r: i32)
    requires
        condition < 16,
    ensures
        reg_op_effect(JitTraceOp::Branch { condition, displacement, length }, pc, *old(cpu), *final(cpu), r),
{
    if condition == 0 || cpu.test_condition(condition) {
        cpu.change_of_flow = true;
        cpu.pc = pc.wrapping_add(2).wrapping_add(displacement as u32);
        10
    } else {
        cpu.pc = pc.wrapping_add(length as u32);
        if length == 4 {
            12
        } else {
            8
        }
    }
}

/// DBcc at `pc`.
fn trace_dbcc(cpu: &mut CpuCore, pc: u32, condition: u8, reg: u8, displacement: i16) -> (r: i32)
    requires
        condition < 16,
        reg < 8,
    ensures
        reg_op_effect(JitTraceOp::Dbcc { condition, reg, displacement }, pc, *old(cpu), *final(cpu), r),
{
    if !cpu.test_condition(condition) {
        let r = reg as usize;
        let counter = cpu.dar[r] as u16;
        let new_counter = counter.wrapping_sub(1);
        cpu.dar[r] = (cpu.dar[r] & 0xFFFF_0000) | new_counter as u32;
        if new_counter != 0xFFFF {
            cpu.pc = pc.wrapping_add(2).wrapping_add(displacement as i32 as u32);
            10
        } else {
            cpu.pc = pc.wrapping_add(4);
            14
        }
    } else {
        cpu.pc = pc.wrapping_add(4);
        12
    }
}

/// Execute a trace operation that is not a memory MOVE; returns its clocks.
pub fn execute_portable_reg_op(cpu: &mut CpuCore, op: TraceBuildOp) -> (r: i32)
    requires
        trace_op_wf(op.op),
        !(op.op is MoveMem),
    ensures
        reg_op_effect(op.op, op.pc, *old(cpu), *final(cpu), r),
        op_frame(*old(cpu), *final(cpu)),
        0 < r <= 134,
{
    match op.op {
        JitTraceOp::Branch { condition, displacement, length } => trace_branch(cpu, op.pc, condition, displacement, length),
        JitTraceOp::Dbcc { condition, reg, displacement } => trace_dbcc(cpu, op.pc, condition, reg, displacement),
        _ => {
            let special = special_cycles(cpu, op.op);
            let d = decoded_of(op.op);
            let ghost before = *cpu;
            let base = d.execute(cpu);
            proof {
                lemma_effect_cycles(d, before, *cpu, base);
            }
            match special {
                Some(c) => c,
                None => base,
            }
        },
    }
}

/// Read a register operand in the operand width.
pub fn portable_read_reg(cpu: &CpuCore, reg: JitDirectReg, size: Size) -> (r: u32)
    requires
        reg matches JitDirectReg::Data(x) ==> x < 8,
        reg matches JitDirectReg::Addr(x) ==> x < 8,
    ensures
        r == (match reg {
            JitDirectReg::Data(x) => reg_operand(*cpu, false, x, size),
            JitDirectReg::Addr(x) => reg_operand(*cpu, true, x, size),
        }),
{
    match reg {
        JitDirectReg::Data(x) => cpu.read_reg_operand(false, x, size),
        JitDirectReg::Addr(x) => cpu.read_reg_operand(true, x, size),
    }
}

/// Write the low `size` bits of `value` into data register `reg`.
pub fn portable_write_data_reg(cpu: &mut CpuCore, reg: u8, size: Size, value: u32)
    requires
        reg < 8,
    ensures
        data_written(*old(cpu), *final(cpu), reg as int, value, size),
        *final(cpu) == regs_of(*old(cpu), *final(cpu)),
{
    cpu.write_data_bits(reg as usize, size, value);
}

// ----- memory moves through the fast-memory window -------------------------------

/// The window is backed by at least its length of bytes, and is either off
/// or at least a long word long.
pub open spec fn window_wf(cpu: CpuCore) -> bool {
    &&& cpu.fm_mem@.len() >= cpu.fm_len
    &&& cpu.fm_len == 0 || cpu.fm_len >= 4
}

/// Offset into the window of an access of `size` at guest address `raw`,
/// when the window is on, holds all of the access, and (16-bit-bus models)
/// a word or long word is at an even address.
pub open spec fn window_offset(cpu: CpuCore, size: Size, raw: u32) -> Option<u32> {
    let off = (raw & cpu.address_mask).wrapping_sub(cpu.fm_base);
    if cpu.is_pre_68020 && size != Size::Byte && raw & 1 != 0 {
        None
    } else if cpu.fm_len == 0 {
        None
    } else if off <= cpu.fm_len - size_bytes(size) {
        Some(off)
    } else {
        None
    }
}

/// The big-endian value of `size` at `off` in the window.
pub open spec fn window_read(mem: Seq<u8>, off: int, size: Size) -> u32 {
    match size {
        Size::Byte => mem[off] as u32,
        Size::Word => (mem[off] * 256 + mem[off + 1]) as u32,
        Size::Long => ((((mem[off] * 256 + mem[off + 1]) * 256) + mem[off + 2]) * 256 + mem[off + 3]) as u32,
    }
}

/// The window after a big-endian store of the low `size` bytes of `value`
/// at `off`.
pub open spec fn window_write(mem: Seq<u8>, off: int, size: Size, value: u32) -> Seq<u8> {
    match size {
        Size::Byte => mem.update(off, (value % 256) as u8),
        Size::Word => mem.update(off, ((value / 256) % 256) as u8).update(off + 1, (value % 256) as u8),
        Size::Long => mem.update(off, (value / 16777216) as u8).update(off + 1, ((value / 65536) % 256) as u8).update(
            off + 2,
            ((value / 256) % 256) as u8,
        ).update(off + 3, (value % 256) as u8),
    }
}

/// The register an effective-address operand names.
pub open spec fn ea_reg(ea: JitEa) -> u8 {
    match ea {
        JitEa::Data(r) => r,
        JitEa::Addr(r) => r,
        JitEa::Ind(r) => r,
        JitEa::PostInc(r) => r,
        JitEa::PreDec(r) => r,
    }
}

/// The source of a window MOVE: its value, and the address-register update
/// an (An)+ or -(An) source stages; `None` when the access fails its
/// checks.
pub open spec fn move_source(cpu: CpuCore, size: Size, src: JitEa) -> Option<(u32, Option<(usize, u32)>)> {
    let m = size_mask(size);
    let r = ea_reg(src);
    let a = cpu.dar[8 + r];
    let step = ea_step_spec(size, r);
    match src {
        JitEa::Data(r) => Some((cpu.dar[r as int] & m, None)),
        JitEa::Addr(r) => Some((a & m, None)),
        JitEa::Ind(_) => match window_offset(cpu, size, a) {
            Some(off) => Some((window_read(cpu.fm_mem@, off as int, size), None)),
            None => None,
        },
        JitEa::PostInc(_) => match window_offset(cpu, size, a) {
            Some(off) => Some((window_read(cpu.fm_mem@, off as int, size), Some(((8 + r) as usize, a.wrapping_add(step))))),
            None => None,
        },
        JitEa::PreDec(_) => match window_offset(cpu, size, a.wrapping_sub(step)) {
            Some(off) => Some(
                (window_read(cpu.fm_mem@, off as int, size), Some(((8 + r) as usize, a.wrapping_sub(step)))),
            ),
            None => None,
        },
    }
}

/// The registers with a staged address-register update applied.
pub open spec fn staged_regs(dar: Seq<u32>, staged: Option<(usize, u32)>) -> Seq<u32> {
    match staged {
        Some((i, v)) => dar.update(i as int, v),
        None => dar,
    }
}

/// A memory destination's address and its address register's new value,
/// from the registers after the source's update.
pub open spec fn dest_address(regs: Seq<u32>, size: Size, dst: JitEa) -> (u32, Option<u32>) {
    let r = ea_reg(dst);
    let base = regs[8 + r];
    let step = ea_step_spec(size, r);
    match dst {
        JitEa::PostInc(_) => (base, Some(base.wrapping_add(step))),
        JitEa::PreDec(_) => (base.wrapping_sub(step), Some(base.wrapping_sub(step))),
        _ => (base, None),
    }
}

/// What a window MOVE does: `r` is its clocks, or `None` when a check
/// failed and nothing was committed. A store into the trace's own code,
/// `[code_start, code_end)`, fails too.
pub open spec fn move_mem_effect(
    old: CpuCore,
    new: CpuCore,
    size: Size,
    src: JitEa,
    dst: JitEa,
    code_start: u32,
    code_end: u32,
    r: Option<i32>,
) -> bool {
    match move_source(old, size, src) {
        None => r is None && new == old,
        Some((value, staged)) => {
            let regs = staged_regs(old.dar@, staged);
            let cycles = move_mem_cycles(size, src, dst);
            match dst {
                JitEa::Data(d) => r == Some(cycles) && new.dar@ == regs.update(
                    d as int,
                    sized_write(regs[d as int], value, size),
                ) && ccr_logic(regs_of(old, new), new, value, size),
                JitEa::Addr(a) => r == Some(cycles) && new.dar@ == regs.update(
                    8 + a,
                    if size == Size::Word {
                        sext16(value)
                    } else {
                        value
                    },
                ) && new == regs_of(old, new),
                _ => {
                    let (addr, new_a) = dest_address(regs, size, dst);
                    let masked = addr & old.address_mask;
                    match window_offset(old, size, addr) {
                        None => r is None && new == old,
                        Some(off) => if masked < code_end && masked.wrapping_add(size_bytes(size)) > code_start {
                            r is None && new == old
                        } else {
                            &&& r == Some(cycles)
                            &&& new.dar@ == (match new_a {
                                Some(v) => regs.update(8 + ea_reg(dst), v),
                                None => regs,
                            })
                            &&& new.fm_mem@ == window_write(old.fm_mem@, off as int, size, value)
                            &&& ccr_logic(CpuCore { dar: new.dar, fm_mem: new.fm_mem, ..old }, new, value, size)
                        },
                    }
                },
            }
        },
    }
}

/// A memory MOVE that fails a check commits nothing.
pub proof fn lemma_bail_commits_nothing(
    old: CpuCore,
    new: CpuCore,
    size: Size,
    src: JitEa,
    dst: JitEa,
    code_start: u32,
    code_end: u32,
)
    requires
        move_mem_effect(old, new, size, src, dst, code_start, code_end, None),
    ensures
        new == old,
{
}

/// A memory MOVE that completes stores its value at its destination and
/// never into the trace's own code.
pub proof fn lemma_store_outside_code(
    old: CpuCore,
    new: CpuCore,
    size: Size,
    src: JitEa,
    dst: JitEa,
    code_start: u32,
    code_end: u32,
    c: i32,
)
    requires
        move_mem_effect(old, new, size, src, dst, code_start, code_end, Some(c)),
        dst is Ind || dst is PostInc || dst is PreDec,
    ensures
        ({
            let (value, staged) = move_source(old, size, src).unwrap();
            let (addr, _) = dest_address(staged_regs(old.dar@, staged), size, dst);
            let masked = addr & old.address_mask;
            &&& window_offset(old, size, addr) is Some
            &&& !(masked < code_end && masked.wrapping_add(size_bytes(size)) > code_start)
            &&& new.fm_mem@ == window_write(old.fm_mem@, window_offset(old, size, addr).unwrap() as int, size, value)
        }),
{
}

/// The fields a trace operation never touches.
pub open spec fn trace_frame(old: CpuCore, new: CpuCore) -> bool {
    &&& new.decoded_op_cache == old.decoded_op_cache
    &&& new.cpu_type == old.cpu_type
    &&& new.cycles_remaining == old.cycles_remaining
    &&& new.run_mode == old.run_mode
    &&& new.is_pre_68020 == old.is_pre_68020
    &&& new.address_mask == old.address_mask
    &&& new.fm_base == old.fm_base
    &&& new.fm_len == old.fm_len
    &&& new.fm_mem@.len() == old.fm_mem@.len()
}

/// Offset into the window of an access, or `None` when it fails its checks.
fn locate(cpu: &CpuCore, size: Size, raw: u32) -> (r: Option<u32>)
    requires
        window_wf(*cpu),
    ensures
        r == window_offset(*cpu, size, raw),
        r matches Some(off) ==> off + size_bytes(size) <= cpu.fm_len,
{
    let bytes = size.bytes();
    if cpu.is_pre_68020 && size != Size::Byte && raw & 1 != 0 {
        return None;
    }
    if cpu.fm_len == 0 {
        return None;
    }
    let off = (raw & cpu.address_mask).wrapping_sub(cpu.fm_base);
    if off <= cpu.fm_len - bytes {
        Some(off)
    } else {
        None
    }
}

/// Read a big-endian value from the window.
fn read_window(cpu: &CpuCore, off: u32, size: Size) -> (r: u32)
    requires
        off + size_bytes(size) <= cpu.fm_mem@.len(),
    ensures
        r == window_read(cpu.fm_mem@, off as int, size),
{
    let n = cpu.fm_mem.len();
    let o = off as usize;
    assert(o + size_bytes(size) <= n);
    match size {
        Size::Byte => cpu.fm_mem[o] as u32,
        Size::Word => cpu.fm_mem[o] as u32 * 256 + cpu.fm_mem[o + 1] as u32,
        Size::Long => ((cpu.fm_mem[o] as u32 * 256 + cpu.fm_mem[o + 1] as u32) * 256 + cpu.fm_mem[o + 2] as u32) * 256
            + cpu.fm_mem[o + 3] as u32,
    }
}

/// Store the low `size` bytes of `value`, big-endian, into the window.
fn write_window(cpu: &mut CpuCore, off: u32, size: Size, value: u32)
    requires
        off + size_bytes(size) <= old(cpu).fm_mem@.len(),
    ensures
        final(cpu).fm_mem@ == window_write(old(cpu).fm_mem@, off as int, size, value),
        *final(cpu) == (CpuCore { fm_mem: final(cpu).fm_mem, ..*old(cpu) }),
{
    let n = cpu.fm_mem.len();
    let o = off as usize;
    assert(o + size_bytes(size) <= n);
    match size {
        Size::Byte => {
            cpu.fm_mem.set(o, (value % 256) as u8);
        },
        Size::Word => {
            cpu.fm_mem.set(o, ((value / 256) % 256) as u8);
            cpu.fm_mem.set(o + 1, (value % 256) as u8);
        },
        Size::Long => {
            cpu.fm_mem.set(o, (value / 16777216) as u8);
            cpu.fm_mem.set(o + 1, ((value / 65536) % 256) as u8);
            cpu.fm_mem.set(o + 2, ((value / 256) % 256) as u8);
            cpu.fm_mem.set(o + 3, (value % 256) as u8);
        },
    }
}

/// Commit a staged address-register update.
fn apply_staged(cpu: &mut CpuCore, staged: Option<(usize, u32)>)
    requires
        staged matches Some((i, _)) ==> i < 16,
    ensures
        final(cpu).dar@ == staged_regs(old(cpu).dar@, staged),
        *final(cpu) == regs_of(*old(cpu), *final(cpu)),
{
    match staged {
        Some((i, v)) => {
            cpu.dar[i] = v;
        },
        None => {},
    }
}

/// Read the source of a window MOVE, staging (not committing) its
/// address-register update.
fn read_move_source(cpu: &CpuCore, size: Size, src: JitEa) -> (r: Option<(u32, Option<(usize, u32)>)>)
    requires
        window_wf(*cpu),
        ea_wf(src),
    ensures
        r == move_source(*cpu, size, src),
        r matches Some((_, Some((i, _)))) ==> 8 <= i < 16,
{
    let mask = size.mask();
    match src {
        JitEa::Data(r) => Some((cpu.dar[r as usize] & mask, None)),
        JitEa::Addr(r) => Some((cpu.dar[8 + r as usize] & mask, None)),
        JitEa::Ind(r) => {
            let off = match locate(cpu, size, cpu.dar[8 + r as usize]) {
                Some(off) => off,
                None => return None,
            };
            Some((read_window(cpu, off, size), None))
        },
        JitEa::PostInc(r) => {
            let a = cpu.dar[8 + r as usize];
            let off = match locate(cpu, size, a) {
                Some(off) => off,
                None => return None,
            };
            Some((read_window(cpu, off, size), Some((8 + r as usize, a.wrapping_add(jit_ea_step(size, r))))))
        },
        JitEa::PreDec(r) => {
            let a = cpu.dar[8 + r as usize].wrapping_sub(jit_ea_step(size, r));
            let off = match locate(cpu, size, a) {
                Some(off) => off,
                None => return None,
            };
            Some((read_window(cpu, off, size), Some((8 + r as usize, a))))
        },
    }
}

/// Store a window MOVE's value at its memory destination, after the
/// destination's checks; `false` (nothing committed) when one fails.
fn store_move_dest(
    cpu: &mut CpuCore,
    size: Size,
    dst: JitEa,
    value: u32,
    staged: Option<(usize, u32)>,
    code_start: u32,
    code_end: u32,
) -> (ok: bool)
    requires
        window_wf(*old(cpu)),
        ea_wf(dst),
        dst is Ind || dst is PostInc || dst is PreDec,
        staged matches Some((i, _)) ==> 8 <= i < 16,
    ensures
        ({
            let regs = staged_regs(old(cpu).dar@, staged);
            let (addr, new_a) = dest_address(regs, size, dst);
            let masked = addr & old(cpu).address_mask;
            match window_offset(*old(cpu), size, addr) {
                None => !ok && *final(cpu) == *old(cpu),
                Some(off) => if masked < code_end && masked.wrapping_add(size_bytes(size)) > code_start {
                    !ok && *final(cpu) == *old(cpu)
                } else {
                    &&& ok
                    &&& final(cpu).dar@ == (match new_a {
                        Some(v) => regs.update(8 + ea_reg(dst), v),
                        None => regs,
                    })
                    &&& final(cpu).fm_mem@ == window_write(old(cpu).fm_mem@, off as int, size, value)
                    &&& ccr_logic(CpuCore { dar: final(cpu).dar, fm_mem: final(cpu).fm_mem, ..*old(cpu) }, *final(cpu), value, size)
                },
            }
        }),
{
    let bytes = size.bytes();
    let r = match dst {
        JitEa::Ind(r) => r,
        JitEa::PostInc(r) => r,
        JitEa::PreDec(r) => r,
        JitEa::Data(r) => r,
        JitEa::Addr(r) => r,
    };
    let ri = 8 + r as usize;
    let base = match staged {
        Some((idx, v)) => if idx == ri {
            v
        } else {
            cpu.dar[ri]
        },
        None => cpu.dar[ri],
    };
    let step = jit_ea_step(size, r);
    let (addr, new_reg): (u32, Option<u32>) = match dst {
        JitEa::PostInc(_) => (base, Some(base.wrapping_add(step))),
        JitEa::PreDec(_) => (base.wrapping_sub(step), Some(base.wrapping_sub(step))),
        _ => (base, None),
    };
    let off = match locate(cpu, size, addr) {
        Some(off) => off,
        None => return false,
    };
    let masked = addr & cpu.address_mask;
    if masked < code_end && masked.wrapping_add(bytes) > code_start {
        return false;
    }
    apply_staged(cpu, staged);
    match new_reg {
        Some(v) => {
            cpu.dar[ri] = v;
        },
        None => {},
    }
    write_window(cpu, off, size, value);
    cpu.set_logic_flags(value, size);
    true
}

/// A MOVE through the window; every check precedes every commit, so
/// `None` leaves the CPU as it was.
#[verifier::rlimit(40)]
pub fn execute_portable_move_mem(
    cpu: &mut CpuCore,
    size: Size,
    src: JitEa,
    dst: JitEa,
    code_start: u32,
    code_end: u32,
) -> (r: Option<i32>)
    requires
        window_wf(*old(cpu)),
        ea_wf(src),
        ea_wf(dst),
    ensures
        move_mem_effect(*old(cpu), *final(cpu), size, src, dst, code_start, code_end, r),
        trace_frame(*old(cpu), *final(cpu)),
        r matches Some(c) ==> 0 < c <= 22,
{
    let (value, staged) = match read_move_source(cpu, size, src) {
        Some(vs) => vs,
        None => return None,
    };
    let cycles = JitTraceOp::MoveMem { size, src, dst }.max_cycles();
    match dst {
        JitEa::Data(r) => {
            apply_staged(cpu, staged);
            cpu.write_data_bits(r as usize, size, value);
            cpu.set_logic_flags(value, size);
        },
        JitEa::Addr(r) => {
            apply_staged(cpu, staged);
            let v = if size == Size::Word {
                crate::instructions::integer_arith::sign_extend_word(value)
            } else {
                value
            };
            cpu.dar[8 + r as usize] = v;
        },
        _ => {
            if !store_move_dest(cpu, size, dst, value, staged, code_start, code_end) {
                return None;
            }
        },
    }
    Some(cycles)
}

// ----- whole traces -------------------------------------------------------------

/// What one trace operation does: `r` is its clocks, or `None` when a
/// memory MOVE failed a check and nothing of it was committed.
pub open spec fn portable_op_effect(
    op: TraceBuildOp,
    old: CpuCore,
    new: CpuCore,
    r: Option<i32>,
    code_start: u32,
    code_end: u32,
) -> bool {
    match op.op {
        JitTraceOp::MoveMem { size, src, dst } => move_mem_effect(old, new, size, src, dst, code_start, code_end, r),
        _ => r matches Some(c) && reg_op_effect(op.op, op.pc, old, new, c),
    }
}

/// Total clocks of a sequence of operations.
pub open spec fn total_cycles(c: Seq<i32>) -> int
    decreases c.len(),
{
    if c.len() == 0 {
        0
    } else {
        total_cycles(c.drop_last()) + c.last()
    }
}

/// A pass over `ops` from `old`: the first `k` operations ran through the
/// states `states` taking `cycles`; then either the trace ended (the
/// last operation's address and opcode are recorded as the instruction
/// just executed) or operation `k` failed its checks and the program
/// counter points at it. `r` packs `k` above the low 32 bits and the
/// total clocks in them.
pub open spec fn trace_outcome(
    ops: Seq<TraceBuildOp>,
    old: CpuCore,
    new: CpuCore,
    states: Seq<CpuCore>,
    cycles: Seq<i32>,
    k: int,
    code_start: u32,
    code_end: u32,
    r: u64,
) -> bool {
    &&& 0 <= k <= ops.len()
    &&& states.len() == k + 1
    &&& cycles.len() == k
    &&& states[0] == old
    &&& forall|j: int|
        0 <= j < k ==> portable_op_effect(#[trigger] ops[j], states[j], states[j + 1], Some(cycles[j]), code_start, code_end)
    &&& r as int == k * 0x1_0000_0000 + total_cycles(cycles)
    &&& 0 <= total_cycles(cycles) <= 134 * k
    &&& if k < ops.len() {
        &&& portable_op_effect(ops[k], states[k], states[k], None, code_start, code_end)
        &&& new == (CpuCore { pc: ops[k].pc, ..states[k] })
    } else if k > 0 {
        new == (CpuCore { ppc: ops[k - 1].pc, ir: ops[k - 1].opcode as u32, ..states[k] })
    } else {
        new == old
    }
}

/// Execute one trace operation; `None` means a memory MOVE failed a check
/// and nothing of it was committed.
pub fn execute_portable_op(cpu: &mut CpuCore, op: TraceBuildOp, code_start: u32, code_end: u32) -> (r: Option<i32>)
    requires
        window_wf(*old(cpu)),
        trace_op_wf(op.op),
    ensures
        portable_op_effect(op, *old(cpu), *final(cpu), r, code_start, code_end),
        trace_frame(*old(cpu), *final(cpu)),
        window_wf(*final(cpu)),
        r matches Some(c) ==> 0 < c <= 134,
{
    match op.op {
        JitTraceOp::MoveMem { size, src, dst } => execute_portable_move_mem(cpu, size, src, dst, code_start, code_end),
        _ => Some(execute_portable_reg_op(cpu, op)),
    }
}

/// Execute a trace once. Returns `(operations retired << 32) | clocks`;
/// when a memory MOVE fails its checks the pass stops there with the
/// program counter at that operation.
pub fn execute_portable_trace(cpu: &mut CpuCore, ops: &[TraceBuildOp], code_start: u32, code_end: u32) -> (r: u64)
    requires
        window_wf(*old(cpu)),
        ops@.len() <= 0x10000,
        forall|j: int| 0 <= j < ops@.len() ==> trace_op_wf(#[trigger] ops@[j].op),
    ensures
        exists|states: Seq<CpuCore>, cycles: Seq<i32>, k: int|
            trace_outcome(ops@, *old(cpu), *final(cpu), states, cycles, k, code_start, code_end, r),
        trace_frame(*old(cpu), *final(cpu)),
        window_wf(*final(cpu)),
{
    let ghost states: Seq<CpuCore> = seq![*cpu];
    let ghost cyc: Seq<i32> = Seq::empty();
    let mut cycles: i32 = 0;
    let mut index: usize = 0;
    while index < ops.len()
        invariant
            index <= ops@.len(),
            ops@.len() <= 0x10000,
            forall|j: int| 0 <= j < ops@.len() ==> trace_op_wf(#[trigger] ops@[j].op),
            window_wf(*cpu),
            trace_frame(*old(cpu), *cpu),
            states.len() == index + 1,
            cyc.len() == index,
            states[0] == *old(cpu),
            states[index as int] == *cpu,
            forall|j: int|
                0 <= j < index ==> portable_op_effect(#[trigger] ops@[j], states[j], states[j + 1], Some(cyc[j]), code_start, code_end),
            cycles as int == total_cycles(cyc),
            0 <= cycles <= 134 * index,
        decreases ops@.len() - index,
    {
        let op = ops[index];
        let ghost before = *cpu;
        match execute_portable_op(cpu, op, code_start, code_end) {
            Some(c) => {
                proof {
                    assert(cyc.push(c).drop_last() =~= cyc);
                    cyc = cyc.push(c);
                    states = states.push(*cpu);
                }
                cycles = cycles + c;
                index = index + 1;
            },
            None => {
                cpu.pc = op.pc;
                let r = (index as u64) * 0x1_0000_0000 + (cycles as u64);
                assert(trace_outcome(ops@, *old(cpu), *cpu, states, cyc, index as int, code_start, code_end, r));
                return r;
            },
        }
    }
    if ops.len() > 0 {
        let last = ops[ops.len() - 1];
        cpu.ppc = last.pc;
        cpu.ir = last.opcode as u32;
    }
    let r = (ops.len() as u64) * 0x1_0000_0000 + (cycles as u64);
    assert(trace_outcome(ops@, *old(cpu), *cpu, states, cyc, index as int, code_start, code_end, r));
    r
}

// ----- decoding trace operations ------------------------------------------------

/// DBcc: group 5, size field 3, mode 1 (a data-register counter).
pub open spec fn is_dbcc_opcode(opcode: u16) -> bool {
    (opcode >> 12u16) == 5 && (opcode >> 6u16) & 3 == 3 && (opcode >> 3u16) & 7 == 1
}

/// Bcc/BRA with a 16-bit displacement (not BSR): group 6, displacement
/// byte 0.
pub open spec fn is_branch_word_opcode(opcode: u16) -> bool {
    (opcode >> 12u16) == 6 && opcode & 0xFF == 0 && (opcode >> 8u16) & 0xF != 1
}

/// The trace operand of an effective-address mode and register field, for
/// the forms without extension words.
pub open spec fn jit_ea_spec(mode: u16, reg: u16) -> Option<JitEa> {
    let m = mode & 7;
    if m == 0 {
        Some(JitEa::Data(reg as u8))
    } else if m == 1 {
        Some(JitEa::Addr(reg as u8))
    } else if m == 2 {
        Some(JitEa::Ind(reg as u8))
    } else if m == 3 {
        Some(JitEa::PostInc(reg as u8))
    } else if m == 4 {
        Some(JitEa::PreDec(reg as u8))
    } else {
        None
    }
}

/// MOVE/MOVEA (groups 1-3) whose operands are register or
/// register-indirect forms with at least one in memory; no byte form
/// names an address register.
pub open spec fn move_mem_spec(opcode: u16) -> Option<JitTraceOp> {
    let g = opcode >> 12u16;
    let size = if g == 1 {
        Size::Byte
    } else if g == 2 {
        Size::Long
    } else {
        Size::Word
    };
    if g < 1 || g > 3 {
        None
    } else {
        match (jit_ea_spec((opcode >> 3u16) & 7, opcode & 7), jit_ea_spec((opcode >> 6u16) & 7, (opcode >> 9u16) & 7)) {
            (Some(src), Some(dst)) => if !(src is Ind || src is PostInc || src is PreDec) && !(dst is Ind || dst is PostInc
                || dst is PreDec) {
                None
            } else if size == Size::Byte && (src is Addr || dst is Addr) {
                None
            } else {
                Some(JitTraceOp::MoveMem { size, src, dst })
            },
            _ => None,
        }
    }
}

/// The trace operation of an opcode and the extension word read after it
/// (present exactly for the word-displacement branches).
pub open spec fn trace_decode_spec(cpu_type: CpuType, opcode: u16, extension: Option<u16>) -> Option<JitTraceOp> {
    let condition = ((opcode >> 8u16) & 0xF) as u8;
    if is_dbcc_opcode(opcode) {
        match extension {
            Some(e) => Some(JitTraceOp::Dbcc { condition, reg: (opcode & 7) as u8, displacement: e as i16 }),
            None => None,
        }
    } else if is_branch_word_opcode(opcode) {
        match extension {
            Some(e) => Some(JitTraceOp::Branch { condition, displacement: e as i16 as i32, length: 4 }),
            None => None,
        }
    } else if extension is Some {
        None
    } else if move_mem_spec(opcode) is Some {
        move_mem_spec(opcode)
    } else {
        match decode_spec(cpu_type, opcode) {
            Some(d) => to_jit_spec(d),
            None => None,
        }
    }
}

/// A decoded-cache operation and the trace operation made of it do the
/// same to the registers and flags: the trace carries the cache's
/// register semantics unchanged.
pub proof fn lemma_trace_register_semantics(d: DecodedSimpleOp)
    requires
        to_jit_spec(d) matches Some(j) && is_reg_op(j),
    ensures
        as_decoded(to_jit_spec(d).unwrap()) == d,
{
}

/// Trace operations made from well-formed decodes are well formed.
proof fn lemma_to_jit_wf(d: DecodedSimpleOp)
    requires
        op_wf(d),
    ensures
        to_jit_spec(d) matches Some(j) ==> trace_op_wf(j),
{
}

/// The trace operand of an effective-address mode and register field.
pub fn decode_jit_ea(mode: u16, reg: u16) -> (r: Option<JitEa>)
    ensures
        r == jit_ea_spec(mode, reg),
{
    match mode & 7 {
        0 => Some(JitEa::Data(reg as u8)),
        1 => Some(JitEa::Addr(reg as u8)),
        2 => Some(JitEa::Ind(reg as u8)),
        3 => Some(JitEa::PostInc(reg as u8)),
        4 => Some(JitEa::PreDec(reg as u8)),
        _ => None,
    }
}

/// MOVE/MOVEA with a register-indirect operand and no extension words.
pub fn decode_move_mem_trace_op(pc: u32, opcode: u16) -> (r: Option<TraceBuildOp>)
    ensures
        r is Some <==> move_mem_spec(opcode) is Some,
        r matches Some(t) ==> t.pc == pc && t.opcode == opcode && t.extension is None && Some(t.op) == move_mem_spec(opcode)
            && trace_op_wf(t.op),
{
    proof {
        lemma_field_bounds(opcode);
    }
    let g = opcode >> 12u16;
    let size = match g {
        1 => Size::Byte,
        2 => Size::Long,
        3 => Size::Word,
        _ => return None,
    };
    let src = match decode_jit_ea((opcode >> 3u16) & 7, opcode & 7) {
        Some(e) => e,
        None => return None,
    };
    let dst = match decode_jit_ea((opcode >> 6u16) & 7, (opcode >> 9u16) & 7) {
        Some(e) => e,
        None => return None,
    };
    if !src.is_mem() && !dst.is_mem() {
        return None;
    }
    let src_addr = match src {
        JitEa::Addr(_) => true,
        _ => false,
    };
    let dst_addr = match dst {
        JitEa::Addr(_) => true,
        _ => false,
    };
    if size == Size::Byte && (src_addr || dst_addr) {
        return None;
    }
    Some(TraceBuildOp { opcode, extension: None, pc, op: JitTraceOp::MoveMem { size, src, dst } })
}

/// DBcc at `pc`, with its displacement word read from the bus.
pub fn decode_dbcc_trace_op<B: AddressBus>(cpu: &CpuCore, bus: &mut B, pc: u32, opcode: u16) -> (r: Option<TraceBuildOp>)
    ensures
        !is_dbcc_opcode(opcode) ==> r is None,
        r matches Some(t) ==> t.pc == pc && t.opcode == opcode && t.extension is Some && Some(t.op) == trace_decode_spec(
            cpu.cpu_type,
            opcode,
            t.extension,
        ) && trace_op_wf(t.op),
        r is None ==> final(bus).events() == old(bus).events(),
        r matches Some(t) ==> t.extension matches Some(e) && final(bus).events() == old(bus).events().push(
            BusEvent::ReadWord(pc.wrapping_add(2) & cpu.address_mask, e),
        ),
{
    proof {
        lemma_field_bounds(opcode);
    }
    if (opcode >> 12u16) != 5 || (opcode >> 6u16) & 3 != 3 || (opcode >> 3u16) & 7 != 1 {
        return None;
    }
    let extension = match bus.try_read_word(cpu.address(pc.wrapping_add(2))) {
        Some(e) => e,
        None => return None,
    };
    Some(
        TraceBuildOp {
            opcode,
            extension: Some(extension),
            pc,
            op: JitTraceOp::Dbcc {
                condition: ((opcode >> 8u16) & 0xF) as u8,
                reg: (opcode & 7) as u8,
                displacement: extension as i16,
            },
        },
    )
}

/// Bcc/BRA.W at `pc`, with its displacement word read from the bus.
pub fn decode_branch_word_trace_op<B: AddressBus>(cpu: &CpuCore, bus: &mut B, pc: u32, opcode: u16) -> (r: Option<TraceBuildOp>)
    requires
        !is_dbcc_opcode(opcode),
    ensures
        !is_branch_word_opcode(opcode) ==> r is None,
        r matches Some(t) ==> t.pc == pc && t.opcode == opcode && t.extension is Some && Some(t.op) == trace_decode_spec(
            cpu.cpu_type,
            opcode,
            t.extension,
        ) && trace_op_wf(t.op),
        r is None ==> final(bus).events() == old(bus).events(),
        r matches Some(t) ==> t.extension matches Some(e) && final(bus).events() == old(bus).events().push(
            BusEvent::ReadWord(pc.wrapping_add(2) & cpu.address_mask, e),
        ),
{
    proof {
        lemma_field_bounds(opcode);
    }
    if (opcode >> 12u16) != 6 || opcode & 0xFF != 0 {
        return None;
    }
    let condition = ((opcode >> 8u16) & 0xF) as u8;
    if condition == 1 {
        return None;
    }
    let extension = match bus.try_read_word(cpu.address(pc.wrapping_add(2))) {
        Some(e) => e,
        None => return None,
    };
    Some(
        TraceBuildOp {
            opcode,
            extension: Some(extension),
            pc,
            op: JitTraceOp::Branch { condition, displacement: extension as i16 as i32, length: 4 },
        },
    )
}

/// Decode the trace operation at `pc` from the bus: the word-displacement
/// branches, then memory MOVEs, then the simple register decodes.
pub fn decode_trace_op<B: AddressBus>(cpu: &CpuCore, bus: &mut B, pc: u32, cpu_type: CpuType) -> (r: Option<TraceBuildOp>)
    requires
        cpu.cpu_type == cpu_type,
    ensures
        r matches Some(t) ==> t.pc == pc && Some(t.op) == trace_decode_spec(cpu_type, t.opcode, t.extension)
            && trace_op_wf(t.op),
        r matches Some(t) ==> final(bus).events() == old(bus).events() + op_fetch_events(t, cpu.address_mask),
{
    let opcode = match bus.try_read_word(cpu.address(pc)) {
        Some(w) => w,
        None => return None,
    };
    let dbcc = decode_dbcc_trace_op(cpu, bus, pc, opcode);
    if dbcc.is_some() {
        return dbcc;
    }
    if (opcode >> 12u16) == 5 && (opcode >> 6u16) & 3 == 3 && (opcode >> 3u16) & 7 == 1 {
        return None;
    }
    let branch = decode_branch_word_trace_op(cpu, bus, pc, opcode);
    if branch.is_some() {
        return branch;
    }
    if (opcode >> 12u16) == 6 && opcode & 0xFF == 0 && (opcode >> 8u16) & 0xF != 1 {
        return None;
    }
    let mem = decode_move_mem_trace_op(pc, opcode);
    if mem.is_some() {
        return mem;
    }
    let decoded = match DecodedSimpleOp::decode(cpu_type, opcode) {
        Some(d) => d,
        None => return None,
    };
    let op = match decoded.to_jit_trace_op() {
        Some(op) => op,
        None => return None,
    };
    proof {
        lemma_to_jit_wf(decoded);
    }
    Some(TraceBuildOp { opcode, extension: None, pc, op })
}

// ----- the per-CPU trace filters --------------------------------------------------

/// Whether `pc` is one of the four entries of a filter.
pub open spec fn filter_has(f: [u32; 4], pc: u32) -> bool {
    f[0] == pc || f[1] == pc || f[2] == pc || f[3] == pc
}

/// Whether `pc` is one of the four entries of a filter.
fn filter_contains(f: &[u32; 4], pc: u32) -> (r: bool)
    ensures
        r == filter_has(*f, pc),
{
    f[0] == pc || f[1] == pc || f[2] == pc || f[3] == pc
}

/// The filter after remembering `pc`, replacing entries round-robin.
pub open spec fn filter_push(f: [u32; 4], at: u32, pc: u32, new_f: [u32; 4], new_at: u32) -> bool {
    if filter_has(f, pc) {
        new_f == f && new_at == at
    } else {
        new_f@ == f@.update((at % 4) as int, pc) && new_at == at.wrapping_add(1)
    }
}

/// Remember `pc` as a trace head known not to compile.
pub fn push_probe_skip(cpu: &mut CpuCore, pc: u32)
    ensures
        filter_push(old(cpu).trace_probe_skip, old(cpu).trace_probe_skip_at, pc, final(cpu).trace_probe_skip, final(cpu).trace_probe_skip_at),
        *final(cpu) == (CpuCore {
            trace_probe_skip: final(cpu).trace_probe_skip,
            trace_probe_skip_at: final(cpu).trace_probe_skip_at,
            ..*old(cpu)
        }),
{
    if !filter_contains(&cpu.trace_probe_skip, pc) {
        let at = (cpu.trace_probe_skip_at % 4) as usize;
        cpu.trace_probe_skip[at] = pc;
        cpu.trace_probe_skip_at = cpu.trace_probe_skip_at.wrapping_add(1);
    }
}

/// Slot of the trace cache for a head at `pc`.
pub open spec fn trace_index_spec(pc: u32) -> int {
    ((pc >> 1u32) % 4096) as int
}

/// Slot of the trace cache for a head at `pc`.
pub fn trace_cache_index(pc: u32) -> (r: usize)
    ensures
        r == trace_index_spec(pc),
        r < TRACE_CACHE_SIZE,
{
    ((pc >> 1u32) % 4096) as usize
}

// ----- compiled traces -------------------------------------------------------------

/// A compiled trace: its operations, run by the portable executor, and the
/// exact code bytes it was compiled from.
pub struct CompiledTrace {
    /// The head address.
    pub pc: u32,
    /// The model it was compiled for.
    pub cpu_type: CpuType,
    /// The operations, contiguous from `pc`.
    pub ops: Vec<TraceBuildOp>,
    /// The instruction bytes the trace was compiled from.
    pub code: Vec<u8>,
    /// Upper estimate of the clocks of one pass.
    pub max_cycles: i32,
    /// The closing branch's target is the head: a pass is a whole loop
    /// iteration and may be repeated without revalidation.
    pub self_loop: bool,
    /// Holds memory MOVEs: runs only while a fast-memory window is on.
    pub needs_window: bool,
    /// Start of the address-masked code range (stores into it bail).
    pub code_start: u32,
    /// End of the address-masked code range.
    pub code_end: u32,
}

/// The state of one slot of the trace cache.
pub enum TraceSlot {
    Empty,
    /// A candidate head and its backward-branch hits.
    Counting { pc: u32, cpu_type: CpuType, hits: u8 },
    /// A head that failed to compile.
    Rejected { pc: u32, cpu_type: CpuType },
    Compiled(CompiledTrace),
}

/// The trace cache.
pub struct TraceJit {
    /// One slot per `trace_cache_index`.
    pub slots: Vec<TraceSlot>,
    /// Some head has been recorded.
    pub has_candidates: bool,
}

/// Big-endian bytes of an operation's instruction words.
pub open spec fn op_code_bytes(op: TraceBuildOp) -> Seq<u8> {
    let w = seq![(op.opcode / 256) as u8, (op.opcode % 256) as u8];
    match op.extension {
        Some(e) => w + seq![(e / 256) as u8, (e % 256) as u8],
        None => w,
    }
}

/// Code bytes of a sequence of operations.
pub open spec fn code_of(ops: Seq<TraceBuildOp>) -> Seq<u8>
    decreases ops.len(),
{
    if ops.len() == 0 {
        Seq::empty()
    } else {
        code_of(ops.drop_last()) + op_code_bytes(ops.last())
    }
}

/// Sum of the operations' clock estimates.
pub open spec fn max_cycles_sum(ops: Seq<TraceBuildOp>) -> int
    decreases ops.len(),
{
    if ops.len() == 0 {
        0
    } else {
        max_cycles_sum(ops.drop_last()) + max_cycles_spec(ops.last().op)
    }
}

/// A compiled trace's invariant: two to sixteen well-formed operations, a
/// positive clock estimate and at most four code bytes per operation.
pub open spec fn compiled_wf(t: CompiledTrace) -> bool {
    &&& 2 <= t.ops@.len() <= TRACE_MAX_OPS
    &&& forall|j: int| 0 <= j < t.ops@.len() ==> trace_op_wf(#[trigger] t.ops@[j].op)
    &&& t.ops@[0].pc == t.pc
    &&& 0 < t.max_cycles
    &&& t.code@.len() <= 4 * t.ops@.len()
}

/// The trace cache's invariant: every slot present, every compiled trace
/// well formed.
pub open spec fn jit_wf(jit: TraceJit) -> bool {
    &&& jit.slots@.len() == TRACE_CACHE_SIZE
    &&& forall|i: int| 0 <= i < TRACE_CACHE_SIZE ==> (#[trigger] jit.slots@[i] matches TraceSlot::Compiled(t) ==> compiled_wf(t))
}

/// Whether a slot holds (in any state) the head `pc` for `cpu_type`.
pub open spec fn slot_matches(slot: TraceSlot, pc: u32, cpu_type: CpuType) -> bool {
    match slot {
        TraceSlot::Empty => false,
        TraceSlot::Counting { pc: p, cpu_type: c, .. } => p == pc && c == cpu_type,
        TraceSlot::Rejected { pc: p, cpu_type: c } => p == pc && c == cpu_type,
        TraceSlot::Compiled(t) => t.pc == pc && t.cpu_type == cpu_type,
    }
}

/// What `compile_trace` produces from the operations it decoded: a trace
/// of two to sixteen operations, contiguous from the head, closed by its
/// only branch, with its code bytes, clock estimate, loop flag, window flag
/// and code range.
pub open spec fn compiled_from(t: CompiledTrace, start_pc: u32, cpu_type: CpuType, address_mask: u32) -> bool {
    let ops = t.ops@;
    let n = ops.len();
    &&& compiled_wf(t)
    &&& t.pc == start_pc
    &&& t.cpu_type == cpu_type
    &&& ops[0].pc == start_pc
    &&& forall|j: int| 0 <= j < n ==> Some(#[trigger] ops[j].op) == trace_decode_spec(cpu_type, ops[j].opcode, ops[j].extension)
    &&& forall|j: int| 0 <= j < n - 1 ==> ops[j + 1].pc == #[trigger] ops[j].pc.wrapping_add(length_spec(ops[j].op) as u32)
    &&& forall|j: int| 0 <= j < n - 1 ==> !(#[trigger] ops[j].op is Branch || ops[j].op is Dbcc)
    &&& (ops[n - 1].op is Branch || ops[n - 1].op is Dbcc)
    &&& t.code@ == code_of(ops)
    &&& t.max_cycles == max_cycles_sum(ops)
    &&& t.self_loop == (taken_target_spec(ops[n - 1].op, ops[n - 1].pc) == Some(start_pc))
    &&& t.needs_window == (exists|j: int| 0 <= j < n && #[trigger] ops[j].op is MoveMem)
    &&& t.code_start == start_pc & address_mask
    &&& t.code_start + t.code@.len() <= address_mask as int + 1
    &&& t.code_end as int == (t.code_start + t.code@.len()) % 0x1_0000_0000
}

/// Everything `compile_ops` needs, gathered by `compile_trace`.
pub struct CompileParams {
    pub start_pc: u32,
    pub cpu_type: CpuType,
    pub ops: Vec<TraceBuildOp>,
    pub code: Vec<u8>,
    pub max_cycles: i32,
    pub self_loop: bool,
    pub needs_window: bool,
    pub code_start: u32,
    pub code_end: u32,
}

/// Package a decoded trace for the portable executor.
pub fn compile_ops(params: CompileParams) -> (r: Option<CompiledTrace>)
    ensures
        r matches Some(t) && t.pc == params.start_pc && t.cpu_type == params.cpu_type && t.ops == params.ops && t.code
            == params.code && t.max_cycles == params.max_cycles && t.self_loop == params.self_loop && t.needs_window
            == params.needs_window && t.code_start == params.code_start && t.code_end == params.code_end,
{
    Some(
        CompiledTrace {
            pc: params.start_pc,
            cpu_type: params.cpu_type,
            ops: params.ops,
            code: params.code,
            max_cycles: params.max_cycles,
            self_loop: params.self_loop,
            needs_window: params.needs_window,
            code_start: params.code_start,
            code_end: params.code_end,
        },
    )
}

/// Encode the operations' instruction words as big-endian bytes.
fn encode_code(ops: &Vec<TraceBuildOp>) -> (code: Vec<u8>)
    ensures
        code@ == code_of(ops@),
        code@.len() <= 4 * ops@.len(),
{
    let mut code: Vec<u8> = Vec::new();
    let mut i: usize = 0;
    while i < ops.len()
        invariant
            i <= ops@.len(),
            code@ == code_of(ops@.subrange(0, i as int)),
            code@.len() <= 4 * i,
        decreases ops@.len() - i,
    {
        let op = ops[i];
        proof {
            assert(ops@.subrange(0, i + 1).drop_last() =~= ops@.subrange(0, i as int));
        }
        let ghost before = code@;
        code.push((op.opcode / 256) as u8);
        code.push((op.opcode % 256) as u8);
        match op.extension {
            Some(e) => {
                code.push((e / 256) as u8);
                code.push((e % 256) as u8);
            },
            None => {},
        }
        proof {
            assert(code@ =~= before + op_code_bytes(op));
        }
        i = i + 1;
    }
    assert(ops@.subrange(0, ops@.len() as int) =~= ops@);
    code
}

/// The bus reads that fetch `op`: its opcode word at its PC, then its
/// extension word when it has one.
pub open spec fn op_fetch_events(op: TraceBuildOp, mask: u32) -> Seq<BusEvent> {
    let w = seq![BusEvent::ReadWord(op.pc & mask, op.opcode)];
    match op.extension {
        Some(e) => w.push(BusEvent::ReadWord(op.pc.wrapping_add(2) & mask, e)),
        None => w,
    }
}

/// The bus reads that fetch `ops`, in order.
pub open spec fn fetch_log(ops: Seq<TraceBuildOp>, mask: u32) -> Seq<BusEvent>
    decreases ops.len(),
{
    if ops.len() == 0 {
        Seq::empty()
    } else {
        fetch_log(ops.drop_last(), mask) + op_fetch_events(ops.last(), mask)
    }
}

/// A run of decoded operations from `start_pc`: at most sixteen, each the
/// decode of its words, each at the address after the previous one, and
/// no branch before the last.
pub open spec fn trace_chain(ops: Seq<TraceBuildOp>, start_pc: u32, cpu_type: CpuType) -> bool {
    &&& ops.len() <= TRACE_MAX_OPS
    &&& ops.len() > 0 ==> ops[0].pc == start_pc
    &&& forall|j: int| 0 <= j < ops.len() ==> trace_op_wf(#[trigger] ops[j].op)
    &&& forall|j: int| 0 <= j < ops.len() ==> Some(#[trigger] ops[j].op) == trace_decode_spec(cpu_type, ops[j].opcode, ops[j].extension)
    &&& forall|j: int| 0 <= j < ops.len() - 1 ==> ops[j + 1].pc == #[trigger] ops[j].pc.wrapping_add(length_spec(ops[j].op) as u32)
    &&& forall|j: int| 0 <= j < ops.len() - 1 ==> !(#[trigger] ops[j].op is Branch || ops[j].op is Dbcc)
}

/// A run that makes a trace: two operations or more, closed by a branch,
/// whose code does not run past the top of the address space.
pub open spec fn trace_closes(ops: Seq<TraceBuildOp>, start_pc: u32, address_mask: u32) -> bool {
    &&& ops.len() >= 2
    &&& (ops.last().op is Branch || ops.last().op is Dbcc)
    &&& (start_pc & address_mask) + code_of(ops).len() <= address_mask as int + 1
}

/// The trace made of a decoded run from `start_pc`: `Some` exactly when
/// the run closes, holding the run, its code and its clock estimate.
pub fn finish_trace(ops: Vec<TraceBuildOp>, start_pc: u32, cpu_type: CpuType, address_mask: u32) -> (r: Option<
    CompiledTrace,
>)
    requires
        trace_chain(ops@, start_pc, cpu_type),
    ensures
        r is Some <==> trace_closes(ops@, start_pc, address_mask),
        r matches Some(t) ==> compiled_from(t, start_pc, cpu_type, address_mask) && t.ops@ == ops@,
{
    let n = ops.len();
    if n < 2 || !ops[n - 1].op.ends_trace() {
        return None;
    }
    let mut max_cycles: i32 = 0;
    let mut k: usize = 0;
    while k < n
        invariant
            k <= n,
            n == ops@.len(),
            n <= TRACE_MAX_OPS,
            trace_chain(ops@, start_pc, cpu_type),
            max_cycles == max_cycles_sum(ops@.subrange(0, k as int)),
            k <= max_cycles <= 132 * k,
        decreases n - k,
    {
        let op = ops[k];
        let c = op.op.max_cycles();
        assert(0 < c <= 132) by {
            lemma_max_cycles_bounds(op.op);
        }
        proof {
            assert(ops@.subrange(0, k + 1).drop_last() =~= ops@.subrange(0, k as int));
        }
        max_cycles = max_cycles + c;
        k = k + 1;
    }
    proof {
        assert(ops@.subrange(0, n as int) =~= ops@);
    }
    let code = encode_code(&ops);
    let last = ops[n - 1];
    let self_loop = match last.op.taken_target(last.pc) {
        Some(t) => t == start_pc,
        None => false,
    };
    let mut needs_window = false;
    let mut j: usize = 0;
    while j < n
        invariant
            j <= n,
            n == ops@.len(),
            needs_window == (exists|k: int| 0 <= k < j && #[trigger] ops@[k].op is MoveMem),
        decreases n - j,
    {
        match ops[j].op {
            JitTraceOp::MoveMem { .. } => {
                needs_window = true;
            },
            _ => {},
        }
        j = j + 1;
    }
    let code_start = start_pc & address_mask;
    let code_end = code_start as u64 + code.len() as u64;
    if code_end > address_mask as u64 + 1 {
        return None;
    }
    let code_end = (code_end % 0x1_0000_0000) as u32;
    compile_ops(
        CompileParams {
            start_pc,
            cpu_type,
            ops,
            code,
            max_cycles,
            self_loop,
            needs_window,
            code_start,
            code_end,
        },
    )
}

/// Decode a trace from `start_pc`: up to sixteen operations, fetched from
/// the bus one after the other until a branch closes the run; the trace is
/// then `finish_trace` of that run. `None` when a word cannot be read or
/// an instruction cannot be traced, or when the run does not close.
pub fn compile_trace<B: AddressBus>(cpu: &CpuCore, bus: &mut B, start_pc: u32, cpu_type: CpuType) -> (r: Option<CompiledTrace>)
    requires
        cpu.cpu_type == cpu_type,
    ensures
        r matches Some(t) ==> compiled_from(t, start_pc, cpu_type, cpu.address_mask)
            && trace_closes(t.ops@, start_pc, cpu.address_mask)
            && final(bus).events() == old(bus).events() + fetch_log(t.ops@, cpu.address_mask),
{
    let ghost e0 = bus.events();
    let mut pc = start_pc;
    let mut ops: Vec<TraceBuildOp> = Vec::new();
    let mut ended = false;
    while ops.len() < TRACE_MAX_OPS && !ended
        invariant
            cpu.cpu_type == cpu_type,
            trace_chain(ops@, start_pc, cpu_type),
            ops@.len() == 0 ==> pc == start_pc,
            ops@.len() > 0 ==> pc == ops@.last().pc.wrapping_add(length_spec(ops@.last().op) as u32),
            ended ==> ops@.len() > 0 && (ops@.last().op is Branch || ops@.last().op is Dbcc),
            !ended ==> forall|j: int| 0 <= j < ops@.len() ==> !(#[trigger] ops@[j].op is Branch || ops@[j].op is Dbcc),
            bus.events() == e0 + fetch_log(ops@, cpu.address_mask),
        decreases TRACE_MAX_OPS - ops@.len(),
    {
        let ghost e1 = bus.events();
        let op = match decode_trace_op(cpu, bus, pc, cpu_type) {
            Some(op) => op,
            None => return None,
        };
        let ghost before = ops@;
        ops.push(op);
        proof {
            assert(ops@.drop_last() =~= before);
            assert(bus.events() =~= e0 + fetch_log(ops@, cpu.address_mask));
        }
        let jit_op = op.op;
        pc = pc.wrapping_add(jit_op.length() as u32);
        if jit_op.ends_trace() {
            ended = true;
        }
    }
    finish_trace(ops, start_pc, cpu_type, cpu.address_mask)
}

/// Every operation's clock estimate is between 1 and 132.
proof fn lemma_max_cycles_bounds(op: JitTraceOp)
    requires
        trace_op_wf(op),
    ensures
        0 < max_cycles_spec(op) <= 132,
{
}

// ----- running compiled traces ------------------------------------------------------

/// Operations retired by a pass, from its packed result.
pub open spec fn retired_of(packed: u64) -> int {
    packed as int / 0x1_0000_0000
}

/// Clocks of a pass, from its packed result.
pub open spec fn cycles_of(packed: u64) -> int {
    packed as int % 0x1_0000_0000
}

/// Operations retired over several passes.
pub open spec fn sum_retired(p: Seq<u64>) -> int
    decreases p.len(),
{
    if p.len() == 0 {
        0
    } else {
        sum_retired(p.drop_last()) + retired_of(p.last())
    }
}

/// Clocks of several passes.
pub open spec fn sum_cycles(p: Seq<u64>) -> int
    decreases p.len(),
{
    if p.len() == 0 {
        0
    } else {
        sum_cycles(p.drop_last()) + cycles_of(p.last())
    }
}

/// One pass of trace `t` from `a` to `b` with packed result `packed`.
pub open spec fn one_pass(t: CompiledTrace, a: CpuCore, b: CpuCore, packed: u64) -> bool {
    exists|states: Seq<CpuCore>, cycles: Seq<i32>, k: int|
        trace_outcome(t.ops@, a, b, states, cycles, k, t.code_start, t.code_end, packed)
}

/// The first pass of `t` from `cpu` retires no operation: its first
/// operation bails out.
pub open spec fn first_pass_bails(t: CompiledTrace, cpu: CpuCore) -> bool {
    exists|after: CpuCore, packed: u64| one_pass(t, cpu, after, packed) && retired_of(packed) == 0
}

/// Repeated passes of `t` through `states`: every pass but the last
/// retired the whole trace and came back to the head.
pub open spec fn trace_passes(t: CompiledTrace, head: u32, states: Seq<CpuCore>, packed: Seq<u64>) -> bool {
    &&& packed.len() >= 1
    &&& states.len() == packed.len() + 1
    &&& forall|p: int| 0 <= p < packed.len() ==> one_pass(t, states[p], states[p + 1], #[trigger] packed[p])
    &&& forall|p: int|
        0 <= p < packed.len() - 1 ==> retired_of(#[trigger] packed[p]) == t.ops@.len() && states[p + 1].pc == head
}

/// Clocks charged to the budget: the total, or `i32::MAX` beyond it.
pub open spec fn charged(total: int) -> int {
    if total <= 0x7FFF_FFFF {
        total
    } else {
        0x7FFF_FFFF
    }
}

/// What running the compiled trace in `slot` did: from `old`, passes
/// retiring `n > 0` operations in all, then their clocks charged to the
/// budget. There is one pass when `single_iter` is set or the trace does
/// not loop to its head; several passes retire at most `instr_budget`
/// operations.
pub open spec fn ran_compiled(
    slot: TraceSlot,
    cpu_type: CpuType,
    old: CpuCore,
    new: CpuCore,
    n: u32,
    instr_budget: u32,
    single_iter: bool,
) -> bool {
    &&& slot matches TraceSlot::Compiled(t)
    &&& t.pc == old.pc
    &&& t.cpu_type == cpu_type
    &&& n > 0
    &&& exists|states: Seq<CpuCore>, packed: Seq<u64>|
        {
            &&& trace_passes(t, old.pc, states, packed)
            &&& states[0] == old
            &&& n == sum_retired(packed)
            &&& (single_iter || !t.self_loop) ==> packed.len() == 1
            &&& n <= instr_budget
            &&& new == (CpuCore {
                cycles_remaining: (old.cycles_remaining - charged(sum_cycles(packed))) as i32,
                ..states.last()
            })
        }
}

/// `a <= b` scales by a non-negative factor.
proof fn lemma_mul_mono(a: int, b: int, n: int)
    by (nonlinear_arith)
    requires
        0 <= a <= b,
        0 <= n,
    ensures
        a * n <= b * n,
{
}

/// One more factor adds the multiplicand.
proof fn lemma_mul_succ(a: int, n: int)
    by (nonlinear_arith)
    ensures
        (a + 1) * n == a * n + n,
{
}

/// Whole iterations that fit the instruction budget retire at most the
/// budget, and fit in 32 bits.
proof fn lemma_iters_fit(instr_budget: u32, ops_len: u32, max_iters: u32)
    by (nonlinear_arith)
    requires
        0 < ops_len <= 16,
        max_iters == 1 || max_iters <= instr_budget / ops_len,
    ensures
        max_iters * ops_len <= 0xFFFF_FFFF,
        max_iters == 1 || max_iters * ops_len <= instr_budget,
{
}

/// A pass's packed result splits into its retired count and clocks.
proof fn lemma_unpack(packed: u64, k: int, c: int)
    requires
        packed as int == k * 0x1_0000_0000 + c,
        0 <= k <= 16,
        0 <= c <= 134 * k,
    ensures
        retired_of(packed) == k,
        cycles_of(packed) == c,
{
    assert(retired_of(packed) == k && cycles_of(packed) == c) by (nonlinear_arith)
        requires
            packed as int == k * 0x1_0000_0000 + c,
            0 <= c < 0x1_0000_0000,
    ;
}

/// What a pass's packed result says, and that it is one pass.
proof fn lemma_pass_facts(t: CompiledTrace, before: CpuCore, after: CpuCore, packed: u64)
    requires
        compiled_wf(t),
        exists|states: Seq<CpuCore>, cycles: Seq<i32>, k: int|
            trace_outcome(t.ops@, before, after, states, cycles, k, t.code_start, t.code_end, packed),
    ensures
        one_pass(t, before, after, packed),
        0 <= retired_of(packed) <= t.ops@.len(),
        0 <= cycles_of(packed) <= 2144,
{
    let (w_states, w_cycles, w_k) = choose|a: Seq<CpuCore>, b: Seq<i32>, k: int|
        trace_outcome(t.ops@, before, after, a, b, k, t.code_start, t.code_end, packed);
    lemma_unpack(packed, w_k, total_cycles(w_cycles));
}

/// The running sums over one more pass.
proof fn lemma_sums_push(pk: Seq<u64>, packed: u64)
    ensures
        sum_cycles(pk.push(packed)) == sum_cycles(pk) + cycles_of(packed),
        sum_retired(pk.push(packed)) == sum_retired(pk) + retired_of(packed),
{
    assert(pk.push(packed).drop_last() =~= pk);
}

/// The operations retired over several passes include those of the first.
proof fn lemma_sum_retired_first(p: Seq<u64>)
    requires
        p.len() >= 1,
    ensures
        sum_retired(p) >= retired_of(p[0]) >= 0,
    decreases p.len(),
{
    assert(retired_of(p.last()) >= 0) by (nonlinear_arith)
        requires
            p.last() >= 0,
    ;
    assert(retired_of(p[0]) >= 0) by (nonlinear_arith)
        requires
            p[0] >= 0,
    ;
    assert(sum_retired(p) == sum_retired(p.drop_last()) + retired_of(p.last()));
    if p.len() > 1 {
        lemma_sum_retired_first(p.drop_last());
        assert(p.drop_last()[0] == p[0]);
    } else {
        assert(p.drop_last().len() == 0);
        assert(sum_retired(p.drop_last()) == 0);
        assert(p.last() == p[0]);
    }
}

/// Run trace `t` from its head: one pass, or for a self-loop as many
/// whole iterations as both budgets allow. Returns the clocks and the
/// operations retired.
#[verifier::rlimit(50)]
#[verifier::spinoff_prover]
fn run_passes(t: &CompiledTrace, cpu: &mut CpuCore, instr_budget: u32, single_iter: bool) -> (res: (i64, u32))
    requires
        compiled_wf(*t),
        window_wf(*old(cpu)),
        old(cpu).pc == t.pc,
        old(cpu).cycles_remaining >= t.max_cycles,
        t.ops@.len() <= instr_budget,
    ensures
        window_wf(*final(cpu)),
        trace_frame(*old(cpu), *final(cpu)),
        res.0 >= 0,
        res.1 <= instr_budget,
        res.1 == 0 ==> first_pass_bails(*t, *old(cpu)),
        single_iter || !t.self_loop ==> res.1 <= t.ops@.len(),
        exists|states: Seq<CpuCore>, packed: Seq<u64>|
            {
                &&& trace_passes(*t, t.pc, states, packed)
                &&& states[0] == *old(cpu)
                &&& states.last() == *final(cpu)
                &&& res.0 == sum_cycles(packed)
                &&& res.1 == sum_retired(packed)
                &&& (single_iter || !t.self_loop) ==> packed.len() == 1
                &&& res.1 <= instr_budget
            },
{
    let head = t.pc;
    let ops_len = t.ops.len() as u32;
    let max_iters: u32 = if single_iter || !t.self_loop {
        1
    } else {
        let by_instrs = if instr_budget / ops_len > 1 {
            instr_budget / ops_len
        } else {
            1
        };
        let q = cpu.cycles_remaining / t.max_cycles;
        let by_cycles: u32 = if q > 1 {
            q as u32
        } else {
            1
        };
        if by_instrs < by_cycles {
            by_instrs
        } else {
            by_cycles
        }
    };
    proof {
        lemma_iters_fit(instr_budget, ops_len, max_iters);
    }
    let mut cycles_total: i64 = 0;
    let mut retired: u32 = 0;
    let mut full_iters: u32 = 0;
    let mut done = false;
    let ghost mut states: Seq<CpuCore> = seq![*cpu];
    let ghost mut pk: Seq<u64> = Seq::empty();
    while !done
        invariant
            compiled_wf(*t),
            head == t.pc,
            ops_len == t.ops@.len(),
            0 < max_iters,
            max_iters * ops_len <= 0xFFFF_FFFF,
            full_iters <= max_iters,
            !done ==> full_iters < max_iters,
            window_wf(*cpu),
            trace_frame(*old(cpu), *cpu),
            states.len() == pk.len() + 1,
            states[0] == *old(cpu),
            states.last() == *cpu,
            !done ==> cpu.pc == head,
            !done ==> pk.len() == full_iters,
            forall|p: int| 0 <= p < pk.len() ==> one_pass(*t, states[p], states[p + 1], #[trigger] pk[p]),
            forall|p: int| 0 <= p < pk.len() - 1 ==> retired_of(#[trigger] pk[p]) == t.ops@.len() && states[p + 1].pc == head,
            !done && pk.len() > 0 ==> retired_of(pk.last()) == t.ops@.len(),
            done ==> pk.len() >= 1,
            ops_len <= instr_budget,
            cycles_total == sum_cycles(pk),
            retired == sum_retired(pk),
            0 <= cycles_total <= 2144 * pk.len(),
            pk.len() <= max_iters,
            !done ==> retired == full_iters * ops_len,
            retired <= max_iters * ops_len,
            max_iters == 1 || max_iters * ops_len <= instr_budget,
            (single_iter || !t.self_loop) ==> max_iters == 1,
        decreases 2 * (max_iters - full_iters) + (if done {
            0int
        } else {
            1int
        }),
    {
        let ghost before = *cpu;
        let packed = execute_portable_trace(cpu, t.ops.as_slice(), t.code_start, t.code_end);
        let ghost old_pk = pk;
        let ghost old_states = states;
        proof {
            lemma_pass_facts(*t, before, *cpu, packed);
            lemma_sums_push(pk, packed);
            states = states.push(*cpu);
            pk = pk.push(packed);
            assert forall|p: int| 0 <= p < old_pk.len() implies pk[p] == old_pk[p] && states[p + 1] == old_states[p + 1] by {
            }
            lemma_mul_mono(full_iters + 1, max_iters as int, ops_len as int);
            lemma_mul_succ(full_iters as int, ops_len as int);
        }
        cycles_total = cycles_total + (packed % 0x1_0000_0000) as i64;
        let ops_done = (packed / 0x1_0000_0000) as u32;
        retired = retired + ops_done;
        if ops_done < ops_len {
            done = true;
        } else {
            full_iters = full_iters + 1;
            if full_iters >= max_iters || cpu.pc != head {
                done = true;
            }
        }
        proof {
            assert forall|p: int| 0 <= p < pk.len() - 1 implies retired_of(#[trigger] pk[p]) == t.ops@.len() && states[p
                + 1].pc == head by {
                assert(pk[p] == old_pk[p]);
                if p < old_pk.len() - 1 {
                    assert(retired_of(old_pk[p]) == t.ops@.len() && old_states[p + 1].pc == head);
                } else {
                    assert(old_pk[p] == old_pk.last());
                    assert(old_states[p + 1] == old_states.last());
                }
            }
        }
    }
    assert forall|p: int| 0 <= p < pk.len() - 1 implies retired_of(#[trigger] pk[p]) == t.ops@.len() && states[p
        + 1].pc == t.pc by {
    }
    assert(trace_passes(*t, t.pc, states, pk));
    proof {
        if retired == 0 {
            lemma_sum_retired_first(pk);
            assert(one_pass(*t, states[0], states[1], pk[0]));
        }
    }
    (cycles_total, retired)
}

/// The fast-memory window holds the code bytes of trace `t` at its head.
pub open spec fn window_holds_trace(cpu: CpuCore, t: CompiledTrace) -> bool {
    let n = t.code@.len();
    let off = (t.pc & cpu.address_mask).wrapping_sub(cpu.fm_base);
    &&& cpu.fm_len != 0
    &&& n <= cpu.fm_len
    &&& off <= cpu.fm_len - n
    &&& cpu.fm_mem@.subrange(off as int, off + n) == t.code@
}

/// The compiled trace in `slot` can run from `cpu` within `instr_budget`:
/// the window it needs is there, the cycle budget covers its worst case,
/// it fits the instruction budget, and its code is unchanged in the window.
pub open spec fn trace_runnable(slot: TraceSlot, cpu: CpuCore, instr_budget: u32) -> bool {
    &&& slot matches TraceSlot::Compiled(t)
    &&& !(t.needs_window && cpu.fm_len == 0)
    &&& cpu.cycles_remaining >= t.max_cycles
    &&& t.ops@.len() <= instr_budget
    &&& window_holds_trace(cpu, t)
}

/// Outcome of checking a compiled trace against the code now in memory.
enum TraceCheck {
    /// The code is unchanged.
    Valid,
    /// Operation `index`, at `pc`, now reads differently (`opcode` is what is
    /// there, or the recorded opcode where only the extension word changed).
    Miss(usize, u32, u16),
    /// A word could not be read.
    Unreadable,
}

/// Whether the window bytes at `off` equal `code`.
fn window_holds_code(cpu: &CpuCore, off: u32, code: &Vec<u8>) -> (r: bool)
    requires
        off + code@.len() <= cpu.fm_mem@.len(),
    ensures
        r == (cpu.fm_mem@.subrange(off as int, off + code@.len()) == code@),
{
    let n = code.len();
    let m = cpu.fm_mem.len();
    let mut i: usize = 0;
    while i < n
        invariant
            i <= n,
            n == code@.len(),
            m == cpu.fm_mem@.len(),
            off + n <= m,
            forall|j: int| 0 <= j < i ==> cpu.fm_mem@[off + j] == code@[j],
        decreases n - i,
    {
        if cpu.fm_mem[off as usize + i] != code[i] {
            assert(cpu.fm_mem@.subrange(off as int, off + n)[i as int] != code@[i as int]);
            return false;
        }
        i = i + 1;
    }
    assert(cpu.fm_mem@.subrange(off as int, off + n) =~= code@);
    true
}

/// Check a compiled trace against the code now in memory: one compare of
/// the fast-memory window when it holds the whole trace, else a read of
/// every instruction word.
fn validate_trace<B: AddressBus>(t: &CompiledTrace, cpu: &CpuCore, bus: &mut B) -> (r: TraceCheck)
    requires
        window_wf(*cpu),
        compiled_wf(*t),
    ensures
        r matches TraceCheck::Miss(i, ppc, _) ==> i < t.ops@.len() && ppc == t.ops@[i as int].pc,
        window_holds_trace(*cpu, *t) ==> r is Valid,
{
    if cpu.fm_len != 0 {
        let n = t.code.len() as u32;
        let off = cpu.address(t.pc).wrapping_sub(cpu.fm_base);
        proof {
            assert(n == t.code@.len());
        }
        if n <= cpu.fm_len && off <= cpu.fm_len - n {
            if window_holds_code(cpu, off, &t.code) {
                return TraceCheck::Valid;
            }
        }
    }
    proof {
        assert(!window_holds_trace(*cpu, *t));
    }
    let mut index: usize = 0;
    while index < t.ops.len()
        invariant
            index <= t.ops@.len(),
            !window_holds_trace(*cpu, *t),
        decreases t.ops@.len() - index,
    {
        let op = t.ops[index];
        match bus.try_read_word(cpu.address(op.pc)) {
            Some(opcode) => {
                if opcode != op.opcode {
                    return TraceCheck::Miss(index, op.pc, opcode);
                }
            },
            None => return TraceCheck::Unreadable,
        }
        match op.extension {
            Some(expected) => {
                match bus.try_read_word(cpu.address(op.pc.wrapping_add(2))) {
                    Some(extension) => {
                        if extension != expected {
                            return TraceCheck::Miss(index, op.pc, op.opcode);
                        }
                    },
                    None => return TraceCheck::Unreadable,
                }
            },
            None => {},
        }
        index = index + 1;
    }
    TraceCheck::Valid
}

// ----- the trace cache ---------------------------------------------------------------

/// The slot's head, if it is compiled for exactly `pc` and `cpu_type`.
pub open spec fn compiled_at(slot: TraceSlot, pc: u32, cpu_type: CpuType) -> bool {
    slot matches TraceSlot::Compiled(t) && t.pc == pc && t.cpu_type == cpu_type
}

/// Both per-CPU trace filters emptied.
pub open spec fn filters_cleared(old: CpuCore, new: CpuCore) -> bool {
    &&& new.trace_record_skip@ == seq![TRACE_PC_NONE, TRACE_PC_NONE, TRACE_PC_NONE, TRACE_PC_NONE]
    &&& new.trace_probe_skip@ == seq![TRACE_PC_NONE, TRACE_PC_NONE, TRACE_PC_NONE, TRACE_PC_NONE]
}

/// Where `try_execute` gives up without running or installing anything:
/// the CPU translates addresses or has no cycles left.
pub open spec fn trace_blocked(cpu: CpuCore) -> bool {
    (cpu.has_pmmu && cpu.pmmu_enabled) || cpu.cycles_remaining <= 0
}

impl TraceJit {
    /// An empty trace cache.
    pub fn new() -> (jit: TraceJit)
        ensures
            jit_wf(jit),
            forall|i: int| 0 <= i < TRACE_CACHE_SIZE ==> #[trigger] jit.slots@[i] is Empty,
            !jit.has_candidates,
    {
        let mut slots: Vec<TraceSlot> = Vec::new();
        let mut i: usize = 0;
        while i < TRACE_CACHE_SIZE
            invariant
                i <= TRACE_CACHE_SIZE,
                slots@.len() == i,
                forall|j: int| 0 <= j < i ==> #[trigger] slots@[j] is Empty,
            decreases TRACE_CACHE_SIZE - i,
        {
            slots.push(TraceSlot::Empty);
            i = i + 1;
        }
        TraceJit { slots, has_candidates: false }
    }

    /// Whether slot `idx` holds the head `pc` for `cpu_type` in any state.
    fn slot_holds(&self, idx: usize, pc: u32, cpu_type: CpuType) -> (r: bool)
        requires
            idx < self.slots@.len(),
        ensures
            r == slot_matches(self.slots@[idx as int], pc, cpu_type),
    {
        match &self.slots[idx] {
            TraceSlot::Empty => false,
            TraceSlot::Counting { pc: p, cpu_type: c, .. } => *p == pc && *c == cpu_type,
            TraceSlot::Rejected { pc: p, cpu_type: c } => *p == pc && *c == cpu_type,
            TraceSlot::Compiled(t) => t.pc == pc && t.cpu_type == cpu_type,
        }
    }

    /// Note a backward-branch target: unless its slot already holds this
    /// head, the slot starts counting hits for it.
    pub fn record_trace_target(&mut self, pc: u32, cpu_type: CpuType)
        requires
            jit_wf(*old(self)),
        ensures
            jit_wf(*final(self)),
            ({
                let idx = trace_index_spec(pc);
                if slot_matches(old(self).slots@[idx], pc, cpu_type) {
                    *final(self) == *old(self)
                } else {
                    &&& final(self).slots@ == old(self).slots@.update(idx, TraceSlot::Counting { pc, cpu_type, hits: 1 })
                    &&& final(self).has_candidates
                }
            }),
    {
        let idx = trace_cache_index(pc);
        if !self.slot_holds(idx, pc, cpu_type) {
            self.slots.set(idx, TraceSlot::Counting { pc, cpu_type, hits: 1 });
            self.has_candidates = true;
            proof {
                assert forall|i: int| 0 <= i < TRACE_CACHE_SIZE implies (#[trigger] self.slots@[i] matches TraceSlot::Compiled(t)
                    ==> compiled_wf(t)) by {
                    if i != idx {
                        assert(self.slots@[i] == old(self).slots@[i]);
                    }
                }
            }
        }
    }

    /// Run the compiled trace at the current PC, if there is one; else
    /// count the hit toward compiling one, and compile when the head is hot.
    ///
    /// `Some((Ran, n))`: the trace retired `n > 0` instructions (a
    /// self-loop runs up to `instr_budget` instructions within the cycle
    /// budget, one pass when `single_iter`). `Some((Miss(op), 0))`: the
    /// code at the head changed; the trace is dropped and the changed
    /// opcode is the instruction to interpret. `None`: nothing ran.
    pub fn try_execute<B: AddressBus>(
        &mut self,
        cpu: &mut CpuCore,
        bus: &mut B,
        cpu_type: CpuType,
        instr_budget: u32,
        single_iter: bool,
    ) -> (r: Option<(CachedRunResult, u32)>)
        requires
            jit_wf(*old(self)),
            window_wf(*old(cpu)),
            old(cpu).cpu_type == cpu_type,
        ensures
            jit_wf(*final(self)),
            window_wf(*final(cpu)),
            final(cpu).cpu_type == cpu_type,
            trace_blocked(*old(cpu)) ==> r is None && *final(cpu) == *old(cpu) && *final(self) == *old(self),
            r matches Some((CachedRunResult::Ran, n)) ==> ran_compiled(
                old(self).slots@[trace_index_spec(old(cpu).pc)],
                cpu_type,
                *old(cpu),
                *final(cpu),
                n,
                instr_budget,
                single_iter,
            ) && *final(self) == *old(self),
            r matches Some((CachedRunResult::Ran, n)) ==> n <= instr_budget && (single_iter ==> n <= TRACE_MAX_OPS),
            !trace_blocked(*old(cpu)) && compiled_at(old(self).slots@[trace_index_spec(old(cpu).pc)], old(cpu).pc, cpu_type)
                && trace_runnable(old(self).slots@[trace_index_spec(old(cpu).pc)], *old(cpu), instr_budget)
                ==> r matches Some((CachedRunResult::Ran, _)) || (r is None && first_pass_bails(
                old(self).slots@[trace_index_spec(old(cpu).pc)]->Compiled_0,
                *old(cpu),
            )),
            r matches Some((CachedRunResult::Miss(op), n)) ==> {
                let idx = trace_index_spec(old(cpu).pc);
                &&& n == 0
                &&& compiled_at(old(self).slots@[idx], old(cpu).pc, cpu_type)
                &&& final(self).slots@ == old(self).slots@.update(idx, TraceSlot::Empty)
                &&& filters_cleared(*old(cpu), *final(cpu))
                &&& final(cpu).ir == op as u32
                &&& final(cpu).ppc == old(cpu).pc
                &&& final(cpu).pc == old(cpu).pc.wrapping_add(2)
            },
            !(r matches Some((CachedRunResult::Fault, _))),
            !trace_blocked(*old(cpu)) && !slot_matches(old(self).slots@[trace_index_spec(old(cpu).pc)], old(cpu).pc, cpu_type)
                ==> r is None && *final(cpu) == *old(cpu) && *final(self) == *old(self),
            !trace_blocked(*old(cpu)) ==> match old(self).slots@[trace_index_spec(old(cpu).pc)] {
                TraceSlot::Counting { pc, cpu_type: c, hits } => pc == old(cpu).pc && c == cpu_type ==> {
                    let idx = trace_index_spec(old(cpu).pc);
                    let h = if hits < 255 {
                        (hits + 1) as u8
                    } else {
                        255u8
                    };
                    &&& r is None
                    &&& h < TRACE_HOT_THRESHOLD ==> final(self).slots@ == old(self).slots@.update(
                        idx,
                        TraceSlot::Counting { pc, cpu_type, hits: h },
                    ) && *final(cpu) == *old(cpu)
                    &&& h >= TRACE_HOT_THRESHOLD ==> match final(self).slots@[idx] {
                        TraceSlot::Compiled(t) => compiled_from(t, pc, cpu_type, old(cpu).address_mask) && *final(cpu)
                            == *old(cpu),
                        TraceSlot::Rejected { pc: p, cpu_type: c2 } => p == pc && c2 == cpu_type && filter_push(
                            old(cpu).trace_probe_skip,
                            old(cpu).trace_probe_skip_at,
                            pc,
                            final(cpu).trace_probe_skip,
                            final(cpu).trace_probe_skip_at,
                        ),
                        _ => false,
                    }
                },
                TraceSlot::Rejected { pc, cpu_type: c } => pc == old(cpu).pc && c == cpu_type ==> r is None && *final(self)
                    == *old(self) && filter_push(
                    old(cpu).trace_probe_skip,
                    old(cpu).trace_probe_skip_at,
                    pc,
                    final(cpu).trace_probe_skip,
                    final(cpu).trace_probe_skip_at,
                ),
                _ => true,
            },
    {
        if cpu.has_pmmu && cpu.pmmu_enabled || cpu.cycles_remaining <= 0 {
            return None;
        }
        let pc = cpu.pc;
        let idx = trace_cache_index(pc);
        let hit = match &self.slots[idx] {
            TraceSlot::Compiled(t) => t.pc == pc && t.cpu_type == cpu_type,
            _ => false,
        };
        if hit {
            return self.run_compiled_slot(cpu, bus, idx, instr_budget, single_iter);
        }
        let state: u8 = match &self.slots[idx] {
            TraceSlot::Counting { pc: p, cpu_type: c, .. } => if *p == pc && *c == cpu_type {
                1
            } else {
                0
            },
            TraceSlot::Rejected { pc: p, cpu_type: c } => if *p == pc && *c == cpu_type {
                2
            } else {
                0
            },
            _ => 0,
        };
        if state == 2 {
            push_probe_skip(cpu, pc);
            return None;
        }
        if state == 0 {
            return None;
        }
        let hits = match &self.slots[idx] {
            TraceSlot::Counting { hits, .. } => if *hits < 255 {
                *hits + 1
            } else {
                255
            },
            _ => 0,
        };
        self.slots.set(idx, TraceSlot::Counting { pc, cpu_type, hits });
        proof {
            self.lemma_set_keeps_wf(*old(self), idx as int);
        }
        if hits < TRACE_HOT_THRESHOLD {
            return None;
        }
        match compile_trace(cpu, bus, pc, cpu_type) {
            Some(t) => {
                self.slots.set(idx, TraceSlot::Compiled(t));
                proof {
                    self.lemma_set_keeps_wf(*old(self), idx as int);
                }
            },
            None => {
                self.slots.set(idx, TraceSlot::Rejected { pc, cpu_type });
                proof {
                    self.lemma_set_keeps_wf(*old(self), idx as int);
                }
                push_probe_skip(cpu, pc);
            },
        }
        None
    }

    /// Slots other than `idx` are as in `old`, and slot `idx` is not a
    /// malformed compiled trace: the cache stays well formed.
    proof fn lemma_set_keeps_wf(&self, old: TraceJit, idx: int)
        requires
            jit_wf(old),
            0 <= idx < TRACE_CACHE_SIZE,
            self.slots@.len() == TRACE_CACHE_SIZE,
            forall|i: int| 0 <= i < TRACE_CACHE_SIZE && i != idx ==> self.slots@[i] == old.slots@[i],
            self.slots@[idx] matches TraceSlot::Compiled(t) ==> compiled_wf(t),
        ensures
            jit_wf(*self),
    {
        assert forall|i: int| 0 <= i < TRACE_CACHE_SIZE implies (#[trigger] self.slots@[i] matches TraceSlot::Compiled(t)
            ==> compiled_wf(t)) by {
            if i != idx {
                assert(self.slots@[i] == old.slots@[i]);
            }
        }
    }

    /// Validate and run the compiled trace in slot `idx`, which is at the
    /// current PC.
    fn run_compiled_slot<B: AddressBus>(
        &mut self,
        cpu: &mut CpuCore,
        bus: &mut B,
        idx: usize,
        instr_budget: u32,
        single_iter: bool,
    ) -> (r: Option<(CachedRunResult, u32)>)
        requires
            jit_wf(*old(self)),
            window_wf(*old(cpu)),
            idx == trace_index_spec(old(cpu).pc),
            old(self).slots@[idx as int] matches TraceSlot::Compiled(t) && t.pc == old(cpu).pc,
            old(cpu).cycles_remaining > 0,
        ensures
            jit_wf(*final(self)),
            window_wf(*final(cpu)),
            final(cpu).cpu_type == old(cpu).cpu_type,
            r matches Some((CachedRunResult::Ran, n)) ==> ran_compiled(
                old(self).slots@[idx as int],
                old(self).slots@[idx as int]->Compiled_0.cpu_type,
                *old(cpu),
                *final(cpu),
                n,
                instr_budget,
                single_iter,
            ) && *final(self) == *old(self),
            r matches Some((CachedRunResult::Ran, n)) ==> n <= instr_budget && (single_iter ==> n <= TRACE_MAX_OPS),
            trace_runnable(old(self).slots@[idx as int], *old(cpu), instr_budget) ==> r matches Some(
                (CachedRunResult::Ran, _),
            ) || (r is None && first_pass_bails(old(self).slots@[idx as int]->Compiled_0, *old(cpu))),
            r matches Some((CachedRunResult::Miss(op), n)) ==> {
                &&& n == 0
                &&& final(self).slots@ == old(self).slots@.update(idx as int, TraceSlot::Empty)
                &&& filters_cleared(*old(cpu), *final(cpu))
                &&& final(cpu).ir == op as u32
                &&& final(cpu).ppc == old(cpu).pc
                &&& final(cpu).pc == old(cpu).pc.wrapping_add(2)
            },
            !(r matches Some((CachedRunResult::Fault, _))),
    {
        let pc = cpu.pc;
        let (check, miss_ppc, miss_op): (u8, u32, u16) = match &self.slots[idx] {
            TraceSlot::Compiled(t) => {
                if t.needs_window && cpu.fm_len == 0 {
                    (0, 0, 0)
                } else if cpu.cycles_remaining < t.max_cycles || (instr_budget as usize) < t.ops.len() {
                    (1, 0, 0)
                } else {
                    match validate_trace(t, cpu, bus) {
                        TraceCheck::Valid => (2, 0, 0),
                        TraceCheck::Miss(index, ppc, opcode) => {
                            if index > 0 {
                                (3, 0, 0)
                            } else {
                                (4, ppc, opcode)
                            }
                        },
                        TraceCheck::Unreadable => (1, 0, 0),
                    }
                }
            },
            _ => (1, 0, 0),
        };
        if check == 0 {
            push_probe_skip(cpu, pc);
            return None;
        }
        if check == 1 {
            return None;
        }
        if check == 3 || check == 4 {
            let ghost before = *self;
            self.slots.set(idx, TraceSlot::Empty);
            proof {
                self.lemma_set_keeps_wf(before, idx as int);
            }
            cpu.trace_record_skip = [TRACE_PC_NONE; 4];
            cpu.trace_probe_skip = [TRACE_PC_NONE; 4];
            assert(cpu.trace_record_skip@ =~= seq![TRACE_PC_NONE, TRACE_PC_NONE, TRACE_PC_NONE, TRACE_PC_NONE]);
            assert(cpu.trace_probe_skip@ =~= seq![TRACE_PC_NONE, TRACE_PC_NONE, TRACE_PC_NONE, TRACE_PC_NONE]);
            if check == 3 {
                return None;
            }
            cpu.ppc = miss_ppc;
            cpu.ir = miss_op as u32;
            cpu.pc = cpu.ppc.wrapping_add(2);
            return Some((CachedRunResult::Miss(miss_op), 0));
        }
        let (cycles_total, retired) = match &self.slots[idx] {
            TraceSlot::Compiled(t) => if (instr_budget as usize) >= t.ops.len() {
                run_passes(t, cpu, instr_budget, single_iter)
            } else {
                (0, 0)
            },
            _ => (0, 0),
        };
        let charge: i32 = if cycles_total <= 0x7FFF_FFFF {
            cycles_total as i32
        } else {
            0x7FFF_FFFF
        };
        cpu.cycles_remaining = cpu.cycles_remaining - charge;
        if retired == 0 {
            return None;
        }
        Some((CachedRunResult::Ran, retired))
    }
}

/// Attempt to execute a compiled trace at the current PC; nothing runs
/// while a bus error, address error or reset is being processed. See
/// `TraceJit::try_execute` for the result.
pub fn try_execute_trace<B: AddressBus>(
    jit: &mut TraceJit,
    cpu: &mut CpuCore,
    bus: &mut B,
    cpu_type: CpuType,
    instr_budget: u32,
    single_iter: bool,
) -> (r: Option<(CachedRunResult, u32)>)
    requires
        jit_wf(*old(jit)),
        window_wf(*old(cpu)),
        old(cpu).cpu_type == cpu_type,
    ensures
        jit_wf(*final(jit)),
        window_wf(*final(cpu)),
        old(cpu).run_mode == RUN_MODE_BERR_AERR_RESET ==> r is None && *final(cpu) == *old(cpu) && *final(jit) == *old(jit),
        r matches Some((CachedRunResult::Ran, n)) ==> ran_compiled(
            old(jit).slots@[trace_index_spec(old(cpu).pc)],
            cpu_type,
            *old(cpu),
            *final(cpu),
            n,
            instr_budget,
            single_iter,
        ),
        r matches Some((CachedRunResult::Miss(op), n)) ==> n == 0 && final(cpu).ir == op as u32 && final(cpu).pc
            == old(cpu).pc.wrapping_add(2),
        !(r matches Some((CachedRunResult::Fault, _))),
{
    if cpu.run_mode == RUN_MODE_BERR_AERR_RESET {
        return None;
    }
    jit.try_execute(cpu, bus, cpu_type, instr_budget, single_iter)
}

/// Note that execution just took a backward branch to `cpu.pc` (a possible
/// trace head) and return whether the caller should probe the trace cache.
///
/// Tight loops hit their branch target every iteration, so re-recording it
/// and re-probing known-rejected targets are filtered out by two per-CPU
/// compares; `TraceJit::try_execute` clears the filters whenever it drops a
/// trace and adds to the probe filter when it rejects one.
pub fn note_backward_branch(cpu: &mut CpuCore, jit: &mut TraceJit, cpu_type: CpuType) -> (r: bool)
    requires
        jit_wf(*old(jit)),
    ensures
        jit_wf(*final(jit)),
        r == !filter_has(old(cpu).trace_probe_skip, old(cpu).pc),
        !r ==> *final(cpu) == *old(cpu) && *final(jit) == *old(jit),
        r && filter_has(old(cpu).trace_record_skip, old(cpu).pc) ==> *final(cpu) == *old(cpu) && *final(jit) == *old(jit),
        r && !filter_has(old(cpu).trace_record_skip, old(cpu).pc) ==> {
            &&& filter_push(
                old(cpu).trace_record_skip,
                old(cpu).trace_record_skip_at,
                old(cpu).pc,
                final(cpu).trace_record_skip,
                final(cpu).trace_record_skip_at,
            )
            &&& *final(cpu) == (CpuCore {
                trace_record_skip: final(cpu).trace_record_skip,
                trace_record_skip_at: final(cpu).trace_record_skip_at,
                ..*old(cpu)
            })
            &&& if slot_matches(old(jit).slots@[trace_index_spec(old(cpu).pc)], old(cpu).pc, cpu_type) {
                *final(jit) == *old(jit)
            } else {
                final(jit).slots@ == old(jit).slots@.update(
                    trace_index_spec(old(cpu).pc),
                    TraceSlot::Counting { pc: old(cpu).pc, cpu_type, hits: 1 },
                ) && final(jit).has_candidates
            }
        },
{
    let pc = cpu.pc;
    if filter_contains(&cpu.trace_probe_skip, pc) {
        return false;
    }
    if !filter_contains(&cpu.trace_record_skip, pc) {
        let at = (cpu.trace_record_skip_at % 4) as usize;
        cpu.trace_record_skip[at] = pc;
        cpu.trace_record_skip_at = cpu.trace_record_skip_at.wrapping_add(1);
        jit.record_trace_target(pc, cpu_type);
    }
    true
}

/// Whether any trace head has been recorded.
pub fn has_trace_candidates(jit: &TraceJit) -> (r: bool)
    ensures
        r == jit.has_candidates,
{
    jit.has_candidates
}

} // verus!
