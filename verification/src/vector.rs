//! Exception vector numbers.

use vstd::prelude::*;

verus! {

/// Reset vector-table entry containing the initial supervisor stack pointer.
pub const RESET_SSP: u32 = 0;
/// Reset vector-table entry containing the initial program counter.
pub const RESET_PC: u32 = 1;
/// Bus-error exception vector.
pub const BUS_ERROR: u32 = 2;
/// Address-error exception vector.
pub const ADDRESS_ERROR: u32 = 3;
/// Illegal-instruction exception vector.
pub const ILLEGAL_INSTRUCTION: u32 = 4;
/// Integer divide-by-zero exception vector.
pub const ZERO_DIVIDE: u32 = 5;
/// CHK/CHK2 bounds exception vector.
pub const CHK: u32 = 6;
/// TRAPV/TRAPcc exception vector.
pub const TRAPV: u32 = 7;
/// Privilege-violation exception vector.
pub const PRIVILEGE_VIOLATION: u32 = 8;
/// Instruction-trace exception vector.
pub const TRACE: u32 = 9;
/// Line-A emulator exception vector.
pub const LINE_1010: u32 = 10;
/// Line-F emulator and coprocessor exception vector.
pub const LINE_1111: u32 = 11;
/// Invalid exception-frame format vector (68010+).
pub const FORMAT_ERROR: u32 = 14;
/// Uninitialized interrupt-vector exception.
pub const UNINITIALIZED_INTERRUPT: u32 = 15;
/// Spurious-interrupt vector.
pub const SPURIOUS_INTERRUPT: u32 = 24;
/// Base vector for `TRAP #0` through `TRAP #15`.
pub const TRAP_BASE: u32 = 32;
/// 68060: integer instructions removed from silicon trap here for the
/// operating system's software package to emulate.
pub const UNIMPLEMENTED_INTEGER: u32 = 61;
/// 68060: FP operand data types no longer handled in hardware.
pub const FP_UNSUPP_DATA_TYPE: u32 = 55;
/// 68060: FP addressing forms dropped from silicon.
pub const FP_UNIMPLEMENTED_EA: u32 = 60;
/// 68020+ MMU configuration-error vector.
pub const MMU_CONFIGURATION_ERROR: u32 = 56;
/// 68020+ MMU illegal-operation vector.
pub const MMU_ILLEGAL_OPERATION_ERROR: u32 = 57;
/// 68020+ MMU access-level-violation vector.
pub const MMU_ACCESS_LEVEL_VIOLATION_ERROR: u32 = 58;

} // verus!
