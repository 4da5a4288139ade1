//! 68060 fault status long word (FSLW) bits, as consumed by operating
//! system fault handlers.

use vstd::prelude::*;

verus! {

/// Read access.
pub const RW_R: u32 = 0x0100_0000;
/// Write access.
pub const RW_W: u32 = 0x0080_0000;
/// Transfer size shift (bits 22-21): 00 long, 01 byte, 10 word.
pub const SIZE_SHIFT: u32 = 21;
/// Transfer modifier shift (bits 18-16): holds the function code.
pub const TM_SHIFT: u32 = 16;
/// Instruction (1) or operand (0) access.
pub const IO: u32 = 0x0000_8000;
/// Invalid descriptor in the root (level A) table.
pub const PTA: u32 = 0x0000_1000;
/// Invalid descriptor in the pointer (level B) table.
pub const PTB: u32 = 0x0000_0800;
/// Invalid indirect page descriptor.
pub const IL: u32 = 0x0000_0400;
/// Page fault (invalid page descriptor).
pub const PF: u32 = 0x0000_0200;
/// Supervisor protection violation.
pub const SP: u32 = 0x0000_0100;
/// Write protection violation.
pub const WP: u32 = 0x0000_0080;
/// Bus error on table search.
pub const TWE: u32 = 0x0000_0040;
/// Bus error on read.
pub const RE: u32 = 0x0000_0020;
/// Bus error on write.
pub const WE: u32 = 0x0000_0010;

} // verus!
