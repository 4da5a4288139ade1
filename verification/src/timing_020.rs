//! MC68020 integer instruction timing, from the three columns of the
//! User's Manual section 8.2: an instruction whose opcode, extension and
//! immediate words all hit the instruction cache takes the Cache Case, any
//! miss the Worst Case. The totals assume zero-wait aligned 32-bit
//! transfers; the host advances only what the real bus accesses have not
//! already consumed. Indexed modes use the brief-format rows. A taken
//! branch also pays `TAKEN_BRANCH_REFILL`, charged where the pipeline is
//! flushed.

use vstd::prelude::*;
use crate::cpu::{CpuCore, condition_holds};
use crate::instructions::mul_div::trunc_div;
use crate::types::{CpuType, Size, is_020_type, is_pre_68020_type};

verus! {

/// Clocks a taken branch loses refilling the 020's instruction pipeline.
pub const TAKEN_BRANCH_REFILL: i32 = 2;

/// A timing-table entry: the Cache Case and the Worst Case column.
#[derive(Clone, Copy)]
pub struct Case {
    pub cache: i32,
    pub worst: i32,
}

/// The column selected by whether the instruction stream hit the cache.
pub open spec fn pick_spec(c: Case, cached: bool) -> i32 {
    if cached {
        c.cache
    } else {
        c.worst
    }
}

/// The column selected by whether the instruction stream hit the cache.
fn pick(c: Case, cached: bool) -> (r: i32)
    ensures
        r == pick_spec(c, cached),
{
    if cached {
        c.cache
    } else {
        c.worst
    }
}

/// Entry sum of a base time and an effective-address time.
pub open spec fn case_add_spec(a: Case, b: Case) -> Case {
    Case { cache: (a.cache + b.cache) as i32, worst: (a.worst + b.worst) as i32 }
}

/// Entry sum of a base time and an effective-address time.
fn case_add(a: Case, b: Case) -> (r: Case)
    requires
        -1_000_000_000 <= a.cache <= 1_000_000_000,
        -1_000_000_000 <= a.worst <= 1_000_000_000,
        -1_000_000_000 <= b.cache <= 1_000_000_000,
        -1_000_000_000 <= b.worst <= 1_000_000_000,
    ensures
        r == case_add_spec(a, b),
{
    Case { cache: a.cache + b.cache, worst: a.worst + b.worst }
}

/// The operand size of a two-bit `00`-based size field.
pub open spec fn size_00_spec(bits: u16) -> Size {
    if bits == 0 {
        Size::Byte
    } else if bits == 1 {
        Size::Word
    } else {
        Size::Long
    }
}

/// The operand size of a two-bit `00`-based size field.
fn size_00(bits: u16) -> (r: Size)
    ensures
        r == size_00_spec(bits),
{
    if bits == 0 {
        Size::Byte
    } else if bits == 1 {
        Size::Word
    } else {
        Size::Long
    }
}

/// Register count of MOVEM from its clocks, rounded toward zero.
pub open spec fn trunc_count_spec(a: i32, b: i32) -> i32 {
    trunc_div(a as int, b as int) as i32
}

/// Register count of MOVEM from its clocks, rounded toward zero.
fn trunc_count(a: i32, b: i32) -> (r: i32)
    requires
        -500_000_000 <= a <= 500_000_000,
        b == 4 || b == 8,
    ensures
        r == trunc_count_spec(a, b),
        -125_000_000 <= r <= 125_000_000,
{
    let q = a / b;
    proof {
        assert(a >= 0 ==> q == a / b);
        assert(a < 0 ==> q == -((-(a as int)) / (b as int)));
        assert(-125_000_000 <= q <= 125_000_000) by (nonlinear_arith)
            requires
                b == 4 || b == 8,
                a >= 0 ==> q == a / b,
                a < 0 ==> q == -((-(a as int)) / (b as int)),
                -500_000_000 <= a <= 500_000_000,
        ;
    }
    q
}

/// Whether condition `c` of `cpu`'s flags holds.
pub open spec fn condition_holds_cpu(cpu: CpuCore, c: u8) -> bool {
    condition_holds(c, cpu.n_flag, cpu.not_z_flag, cpu.v_flag, cpu.c_flag)
}

/// Data register `reg` of `cpu`.
pub open spec fn dreg_of(cpu: CpuCore, reg: u16) -> u32 {
    cpu.dar[reg as int]
}

/// Data register `reg` of `cpu`.
fn dreg_exec(cpu: &CpuCore, reg: u16) -> (r: u32)
    requires
        reg < 8,
    ensures
        r == dreg_of(*cpu, reg),
{
    cpu.dar[reg as usize]
}

/// Register and condition fields of an opcode are in range.
pub proof fn lemma_op_fields(op: u16)
    ensures
        op & 7 < 8,
        (((op >> 8u16) & 0xF) as u8) < 16,
{
    crate::instructions::mul_div_long::lemma_ext_fields(0, op);
}

/// MOVEM base time: per-register transfer cost from the register count
/// that the 68000-style count implies.
pub open spec fn movem_base_spec(op: u16, raw: i32) -> Case {
    let tc: i32 = if (op & 0x0040) != 0 {
        8
    } else {
        4
    };
    if (op & 0x0400) != 0 {
        let count = trunc_count_spec((raw - 12) as i32, tc);
        Case { cache: (8 + 4 * count) as i32, worst: (9 + 4 * count) as i32 }
    } else {
        let count = trunc_count_spec((raw - 8) as i32, tc);
        Case { cache: (4 + 3 * count) as i32, worst: (5 + 3 * count) as i32 }
    }
}

/// MOVEM base time: per-register transfer cost from the register count
/// that the 68000-style count implies.
fn movem_base(op: u16, raw: i32) -> (r: Case)
    requires
        -429_496_729 <= raw <= 429_496_728,
    ensures
        r == movem_base_spec(op, raw),
        -510_000_000 <= r.cache <= 510_000_000,
        -510_000_000 <= r.worst <= 510_000_000,
{
    let tc: i32 = if (op & 0x0040) != 0 {
        8
    } else {
        4
    };
    if (op & 0x0400) != 0 {
        let count = trunc_count(raw - 12, tc);
        Case { cache: 8 + 4 * count, worst: 9 + 4 * count }
    } else {
        let count = trunc_count(raw - 8, tc);
        Case { cache: 4 + 3 * count, worst: 5 + 3 * count }
    }
}

/// Table 8-1, "Fetch Effective Address Timing".
pub open spec fn fetch_ea_spec(mode: u16, reg: u16, size: Size) -> Case {
    if mode <= 1 {
        Case { cache: 0, worst: 0 }
    } else if mode == 2 || mode == 3 {
        Case { cache: 4, worst: 4 }
    } else if mode == 4 {
        Case { cache: 5, worst: 5 }
    } else if mode == 5 || (mode == 7 && reg == 2) {
        Case { cache: 5, worst: 6 }
    } else if mode == 6 || (mode == 7 && reg == 3) {
        Case { cache: 7, worst: 8 }
    } else if mode == 7 && reg == 0 {
        Case { cache: 4, worst: 6 }
    } else if mode == 7 && reg == 1 {
        Case { cache: 4, worst: 7 }
    } else if mode == 7 && reg == 4 && size == Size::Long {
        Case { cache: 4, worst: 5 }
    } else if mode == 7 && reg == 4 {
        Case { cache: 2, worst: 3 }
    } else {
        Case { cache: 0, worst: 0 }
    }
}

/// Table 8-1, "Fetch Effective Address Timing".
fn fetch_ea(mode: u16, reg: u16, size: Size) -> (r: Case)
    ensures
        r == fetch_ea_spec(mode, reg, size),
{
    if mode <= 1 {
        Case { cache: 0, worst: 0 }
    } else if mode == 2 || mode == 3 {
        Case { cache: 4, worst: 4 }
    } else if mode == 4 {
        Case { cache: 5, worst: 5 }
    } else if mode == 5 || (mode == 7 && reg == 2) {
        Case { cache: 5, worst: 6 }
    } else if mode == 6 || (mode == 7 && reg == 3) {
        Case { cache: 7, worst: 8 }
    } else if mode == 7 && reg == 0 {
        Case { cache: 4, worst: 6 }
    } else if mode == 7 && reg == 1 {
        Case { cache: 4, worst: 7 }
    } else if mode == 7 && reg == 4 && size == Size::Long {
        Case { cache: 4, worst: 5 }
    } else if mode == 7 && reg == 4 {
        Case { cache: 2, worst: 3 }
    } else {
        Case { cache: 0, worst: 0 }
    }
}

/// Table 8-1, "Fetch Immediate Effective Address Timing".
pub open spec fn fetch_immediate_ea_spec(mode: u16, reg: u16, size: Size) -> Case {
    if mode <= 1 && size != Size::Long {
        Case { cache: 2, worst: 3 }
    } else if mode <= 1 {
        Case { cache: 4, worst: 5 }
    } else if mode == 2 && size != Size::Long {
        Case { cache: 4, worst: 4 }
    } else if mode == 2 {
        Case { cache: 4, worst: 7 }
    } else if mode == 3 && size != Size::Long {
        Case { cache: 6, worst: 7 }
    } else if mode == 3 {
        Case { cache: 8, worst: 9 }
    } else if mode == 4 && size != Size::Long {
        Case { cache: 5, worst: 6 }
    } else if mode == 4 {
        Case { cache: 7, worst: 8 }
    } else if (mode == 5 || (mode == 7 && reg == 0)) && size != Size::Long {
        Case { cache: 5, worst: 7 }
    } else if mode == 5 || (mode == 7 && reg == 0) {
        Case { cache: 7, worst: 10 }
    } else if (mode == 6 || (mode == 7 && reg == 3)) && size != Size::Long {
        Case { cache: 9, worst: 11 }
    } else if mode == 6 || (mode == 7 && reg == 3) {
        Case { cache: 11, worst: 13 }
    } else if mode == 7 && reg == 1 && size != Size::Long {
        Case { cache: 6, worst: 10 }
    } else if mode == 7 && reg == 1 {
        Case { cache: 8, worst: 12 }
    } else {
        Case { cache: 0, worst: 0 }
    }
}

/// Table 8-1, "Fetch Immediate Effective Address Timing".
fn fetch_immediate_ea(mode: u16, reg: u16, size: Size) -> (r: Case)
    ensures
        r == fetch_immediate_ea_spec(mode, reg, size),
{
    if mode <= 1 && size != Size::Long {
        Case { cache: 2, worst: 3 }
    } else if mode <= 1 {
        Case { cache: 4, worst: 5 }
    } else if mode == 2 && size != Size::Long {
        Case { cache: 4, worst: 4 }
    } else if mode == 2 {
        Case { cache: 4, worst: 7 }
    } else if mode == 3 && size != Size::Long {
        Case { cache: 6, worst: 7 }
    } else if mode == 3 {
        Case { cache: 8, worst: 9 }
    } else if mode == 4 && size != Size::Long {
        Case { cache: 5, worst: 6 }
    } else if mode == 4 {
        Case { cache: 7, worst: 8 }
    } else if (mode == 5 || (mode == 7 && reg == 0)) && size != Size::Long {
        Case { cache: 5, worst: 7 }
    } else if mode == 5 || (mode == 7 && reg == 0) {
        Case { cache: 7, worst: 10 }
    } else if (mode == 6 || (mode == 7 && reg == 3)) && size != Size::Long {
        Case { cache: 9, worst: 11 }
    } else if mode == 6 || (mode == 7 && reg == 3) {
        Case { cache: 11, worst: 13 }
    } else if mode == 7 && reg == 1 && size != Size::Long {
        Case { cache: 6, worst: 10 }
    } else if mode == 7 && reg == 1 {
        Case { cache: 8, worst: 12 }
    } else {
        Case { cache: 0, worst: 0 }
    }
}

/// Table 8-1, "Calculate Effective Address Timing".
pub open spec fn calculate_ea_spec(mode: u16, reg: u16) -> Case {
    if mode <= 1 {
        Case { cache: 0, worst: 0 }
    } else if 2 <= mode && mode <= 4 {
        Case { cache: 2, worst: 2 }
    } else if mode == 5 || (mode == 7 && (reg == 0 || reg == 2)) {
        Case { cache: 2, worst: 3 }
    } else if mode == 6 || (mode == 7 && reg == 3) {
        Case { cache: 4, worst: 5 }
    } else if mode == 7 && reg == 1 {
        Case { cache: 4, worst: 5 }
    } else {
        Case { cache: 0, worst: 0 }
    }
}

/// Table 8-1, "Calculate Effective Address Timing".
fn calculate_ea(mode: u16, reg: u16) -> (r: Case)
    ensures
        r == calculate_ea_spec(mode, reg),
{
    if mode <= 1 {
        Case { cache: 0, worst: 0 }
    } else if 2 <= mode && mode <= 4 {
        Case { cache: 2, worst: 2 }
    } else if mode == 5 || (mode == 7 && (reg == 0 || reg == 2)) {
        Case { cache: 2, worst: 3 }
    } else if mode == 6 || (mode == 7 && reg == 3) {
        Case { cache: 4, worst: 5 }
    } else if mode == 7 && reg == 1 {
        Case { cache: 4, worst: 5 }
    } else {
        Case { cache: 0, worst: 0 }
    }
}

/// Table 8-1, "Jump Effective Address Timing".
pub open spec fn jump_ea_spec(mode: u16, reg: u16) -> Case {
    if mode == 2 {
        Case { cache: 2, worst: 2 }
    } else if mode == 5 || (mode == 7 && reg == 2) {
        Case { cache: 4, worst: 4 }
    } else if mode == 6 || (mode == 7 && reg == 3) {
        Case { cache: 6, worst: 6 }
    } else if mode == 7 && reg <= 1 {
        Case { cache: 2, worst: 2 }
    } else {
        Case { cache: 0, worst: 0 }
    }
}

/// Table 8-1, "Jump Effective Address Timing".
fn jump_ea(mode: u16, reg: u16) -> (r: Case)
    ensures
        r == jump_ea_spec(mode, reg),
{
    if mode == 2 {
        Case { cache: 2, worst: 2 }
    } else if mode == 5 || (mode == 7 && reg == 2) {
        Case { cache: 4, worst: 4 }
    } else if mode == 6 || (mode == 7 && reg == 3) {
        Case { cache: 6, worst: 6 }
    } else if mode == 7 && reg <= 1 {
        Case { cache: 2, worst: 2 }
    } else {
        Case { cache: 0, worst: 0 }
    }
}

/// Table 8-1, "Calculate Immediate Effective Address Timing".
pub open spec fn calculate_immediate_ea_spec(mode: u16, reg: u16, size: Size) -> Case {
    if mode <= 2 && size != Size::Long {
        Case { cache: 2, worst: 3 }
    } else if mode <= 2 {
        Case { cache: 4, worst: 5 }
    } else if (mode == 3 || mode == 4) && size != Size::Long {
        Case { cache: 4, worst: 5 }
    } else if mode == 3 || mode == 4 {
        Case { cache: 6, worst: 7 }
    } else if (mode == 5 || (mode == 7 && reg == 0)) && size != Size::Long {
        Case { cache: 4, worst: 5 }
    } else if mode == 5 || (mode == 7 && reg == 0) {
        Case { cache: 6, worst: 8 }
    } else if (mode == 6 || (mode == 7 && reg == 3)) && size != Size::Long {
        Case { cache: 6, worst: 8 }
    } else if mode == 6 || (mode == 7 && reg == 3) {
        Case { cache: 8, worst: 10 }
    } else if mode == 7 && reg == 1 && size != Size::Long {
        Case { cache: 4, worst: 6 }
    } else if mode == 7 && reg == 1 {
        Case { cache: 8, worst: 10 }
    } else {
        Case { cache: 0, worst: 0 }
    }
}

/// Table 8-1, "Calculate Immediate Effective Address Timing".
fn calculate_immediate_ea(mode: u16, reg: u16, size: Size) -> (r: Case)
    ensures
        r == calculate_immediate_ea_spec(mode, reg, size),
{
    if mode <= 2 && size != Size::Long {
        Case { cache: 2, worst: 3 }
    } else if mode <= 2 {
        Case { cache: 4, worst: 5 }
    } else if (mode == 3 || mode == 4) && size != Size::Long {
        Case { cache: 4, worst: 5 }
    } else if mode == 3 || mode == 4 {
        Case { cache: 6, worst: 7 }
    } else if (mode == 5 || (mode == 7 && reg == 0)) && size != Size::Long {
        Case { cache: 4, worst: 5 }
    } else if mode == 5 || (mode == 7 && reg == 0) {
        Case { cache: 6, worst: 8 }
    } else if (mode == 6 || (mode == 7 && reg == 3)) && size != Size::Long {
        Case { cache: 6, worst: 8 }
    } else if mode == 6 || (mode == 7 && reg == 3) {
        Case { cache: 8, worst: 10 }
    } else if mode == 7 && reg == 1 && size != Size::Long {
        Case { cache: 4, worst: 6 }
    } else if mode == 7 && reg == 1 {
        Case { cache: 8, worst: 10 }
    } else {
        Case { cache: 0, worst: 0 }
    }
}

/// Row of the MOVE tables for a source mode.
pub open spec fn move_source_row_spec(mode: u16, reg: u16, size: Size) -> usize {
    if mode <= 1 {
        0
    } else if mode == 2 {
        3
    } else if mode == 3 {
        4
    } else if mode == 4 {
        5
    } else if mode == 5 || (mode == 7 && reg == 2) {
        6
    } else if mode == 7 && reg == 0 {
        7
    } else if mode == 7 && reg == 1 {
        8
    } else if mode == 6 || (mode == 7 && reg == 3) {
        9
    } else if mode == 7 && reg == 4 && size == Size::Long {
        2
    } else if mode == 7 && reg == 4 {
        1
    } else {
        0
    }
}

/// Row of the MOVE tables for a source mode.
fn move_source_row(mode: u16, reg: u16, size: Size) -> (r: usize)
    ensures
        r == move_source_row_spec(mode, reg, size),
{
    if mode <= 1 {
        0
    } else if mode == 2 {
        3
    } else if mode == 3 {
        4
    } else if mode == 4 {
        5
    } else if mode == 5 || (mode == 7 && reg == 2) {
        6
    } else if mode == 7 && reg == 0 {
        7
    } else if mode == 7 && reg == 1 {
        8
    } else if mode == 6 || (mode == 7 && reg == 3) {
        9
    } else if mode == 7 && reg == 4 && size == Size::Long {
        2
    } else if mode == 7 && reg == 4 {
        1
    } else {
        0
    }
}

/// Column of the MOVE tables for a destination mode.
pub open spec fn move_destination_col_spec(mode: u16, reg: u16) -> usize {
    if mode <= 1 {
        0
    } else if mode == 2 {
        1
    } else if mode == 3 {
        2
    } else if mode == 4 {
        3
    } else if mode == 5 {
        4
    } else if mode == 7 && reg == 0 {
        5
    } else if mode == 7 && reg == 1 {
        6
    } else if mode == 6 {
        7
    } else {
        0
    }
}

/// Column of the MOVE tables for a destination mode.
fn move_destination_col(mode: u16, reg: u16) -> (r: usize)
    ensures
        r == move_destination_col_spec(mode, reg),
{
    if mode <= 1 {
        0
    } else if mode == 2 {
        1
    } else if mode == 3 {
        2
    } else if mode == 4 {
        3
    } else if mode == 5 {
        4
    } else if mode == 7 && reg == 0 {
        5
    } else if mode == 7 && reg == 1 {
        6
    } else if mode == 6 {
        7
    } else {
        0
    }
}
/// Group 0: bit operations, immediates, MOVEP, CAS, CMP2/CHK2, MOVES, CALLM.
pub open spec fn group_0_spec(cpu: CpuCore, op: u16, cached: bool) -> Option<i32> {
    let mode = (op >> 3u16) & 7;
    let reg = op & 7;
    let subop = (op >> 8u16) & 0xF;
    if op == 0x0CFC || op == 0x0EFC {
        Some(pick_spec(if cpu.not_z_flag == 0 { Case { cache: 25, worst: 28 } } else { Case { cache: 22, worst: 25 } }, cached))
    } else if (op & 0x0FC0) == 0x0AC0 || (op & 0x0FC0) == 0x0CC0 || (op & 0x0FC0) == 0x0EC0 {
        Some(pick_spec(case_add_spec(if cpu.not_z_flag == 0 { Case { cache: 15, worst: 16 } } else { Case { cache: 12, worst: 13 } }, calculate_immediate_ea_spec(mode, reg, Size::Word)), cached))
    } else if (op & 0xFF00) == 0x0E00 {
        Some(pick_spec(case_add_spec(Case { cache: 7, worst: 8 }, calculate_immediate_ea_spec(mode, reg, Size::Word)), cached))
    } else if (op & 0xFFF0) == 0x06C0 {
        Some(pick_spec(Case { cache: 32, worst: 35 }, cached))
    } else if (op & 0xFFC0) == 0x06C0 {
        Some(pick_spec(case_add_spec(Case { cache: 57, worst: 64 }, fetch_immediate_ea_spec(mode, reg, Size::Word)), cached))
    } else if (op & 0x0800) == 0 && (op & 0x0100) == 0 && (op & 0x00C0) == 0x00C0 && ((op >> 9u16) & 3) != 3 {
        Some(pick_spec(case_add_spec(Case { cache: 18, worst: 18 }, fetch_immediate_ea_spec(mode, reg, Size::Word)), cached))
    } else if (op & 0xF138) == 0x0108 {
        Some(pick_spec(if (op & 0x0040) == 0 && (op & 0x0080) != 0 { Case { cache: 11, worst: 11 } } else if (op & 0x0080) != 0 { Case { cache: 17, worst: 17 } } else if (op & 0x0040) == 0 { Case { cache: 12, worst: 12 } } else { Case { cache: 18, worst: 18 } }, cached))
    } else if ((op & 0x0100) != 0 || (op & 0x0F00) == 0x0800) && mode == 0 {
        Some(pick_spec(Case { cache: 4, worst: 5 }, cached))
    } else if (op & 0x0100) != 0 || (op & 0x0F00) == 0x0800 {
        Some(pick_spec(case_add_spec(Case { cache: 4, worst: 5 }, if (op & 0x0F00) == 0x0800 { fetch_immediate_ea_spec(mode, reg, Size::Word) } else { fetch_ea_spec(mode, reg, Size::Byte) }), cached))
    } else if op == 0x003C || op == 0x007C || op == 0x023C || op == 0x027C || op == 0x0A3C || op == 0x0A7C {
        Some(pick_spec(Case { cache: 12, worst: 15 }, cached))
    } else if subop == 0x0 || subop == 0x2 || subop == 0x4 || subop == 0x6 || subop == 0xA || subop == 0xC {
        Some(pick_spec(case_add_spec(if mode == 0 || subop == 0xC { Case { cache: 2, worst: 3 } } else { Case { cache: 4, worst: 6 } }, fetch_immediate_ea_spec(mode, reg, size_00_spec((op >> 6u16) & 3))), cached))
    } else {
        None
    }
}

/// Group 0: bit operations, immediates, MOVEP, CAS, CMP2/CHK2, MOVES, CALLM.
fn group_0(cpu: &CpuCore, op: u16, cached: bool) -> (r: Option<i32>)
    ensures
        r == group_0_spec(*cpu, op, cached),
{
    let mode = (op >> 3u16) & 7;
    let reg = op & 7;
    let subop = (op >> 8u16) & 0xF;
    if op == 0x0CFC || op == 0x0EFC {
        Some(pick(if cpu.not_z_flag == 0 { Case { cache: 25, worst: 28 } } else { Case { cache: 22, worst: 25 } }, cached))
    } else if (op & 0x0FC0) == 0x0AC0 || (op & 0x0FC0) == 0x0CC0 || (op & 0x0FC0) == 0x0EC0 {
        Some(pick(case_add(if cpu.not_z_flag == 0 { Case { cache: 15, worst: 16 } } else { Case { cache: 12, worst: 13 } }, calculate_immediate_ea(mode, reg, Size::Word)), cached))
    } else if (op & 0xFF00) == 0x0E00 {
        Some(pick(case_add(Case { cache: 7, worst: 8 }, calculate_immediate_ea(mode, reg, Size::Word)), cached))
    } else if (op & 0xFFF0) == 0x06C0 {
        Some(pick(Case { cache: 32, worst: 35 }, cached))
    } else if (op & 0xFFC0) == 0x06C0 {
        Some(pick(case_add(Case { cache: 57, worst: 64 }, fetch_immediate_ea(mode, reg, Size::Word)), cached))
    } else if (op & 0x0800) == 0 && (op & 0x0100) == 0 && (op & 0x00C0) == 0x00C0 && ((op >> 9u16) & 3) != 3 {
        Some(pick(case_add(Case { cache: 18, worst: 18 }, fetch_immediate_ea(mode, reg, Size::Word)), cached))
    } else if (op & 0xF138) == 0x0108 {
        Some(pick(if (op & 0x0040) == 0 && (op & 0x0080) != 0 { Case { cache: 11, worst: 11 } } else if (op & 0x0080) != 0 { Case { cache: 17, worst: 17 } } else if (op & 0x0040) == 0 { Case { cache: 12, worst: 12 } } else { Case { cache: 18, worst: 18 } }, cached))
    } else if ((op & 0x0100) != 0 || (op & 0x0F00) == 0x0800) && mode == 0 {
        Some(pick(Case { cache: 4, worst: 5 }, cached))
    } else if (op & 0x0100) != 0 || (op & 0x0F00) == 0x0800 {
        Some(pick(case_add(Case { cache: 4, worst: 5 }, if (op & 0x0F00) == 0x0800 { fetch_immediate_ea(mode, reg, Size::Word) } else { fetch_ea(mode, reg, Size::Byte) }), cached))
    } else if op == 0x003C || op == 0x007C || op == 0x023C || op == 0x027C || op == 0x0A3C || op == 0x0A7C {
        Some(pick(Case { cache: 12, worst: 15 }, cached))
    } else if subop == 0x0 || subop == 0x2 || subop == 0x4 || subop == 0x6 || subop == 0xA || subop == 0xC {
        Some(pick(case_add(if mode == 0 || subop == 0xC { Case { cache: 2, worst: 3 } } else { Case { cache: 4, worst: 6 } }, fetch_immediate_ea(mode, reg, size_00((op >> 6u16) & 3))), cached))
    } else {
        None
    }
}

/// Group 4: miscellaneous, control and long multiply/divide.
pub open spec fn group_4_spec(op: u16, raw: i32, cached: bool) -> Option<i32> {
    let mode = (op >> 3u16) & 7;
    let reg = op & 7;
    let chk_opmode = (op >> 6u16) & 7;
    if (op & 0xFFC0) == 0x4C00 {
        Some(pick_spec(case_add_spec(Case { cache: 43, worst: 44 }, fetch_immediate_ea_spec(mode, reg, Size::Word)), cached))
    } else if (op & 0xFFC0) == 0x4C40 {
        Some(pick_spec(case_add_spec(Case { cache: 90, worst: 91 }, fetch_immediate_ea_spec(mode, reg, Size::Word)), cached))
    } else if ((op & 0xFFC0) == 0x40C0 || (op & 0xFFC0) == 0x42C0) && mode == 0 {
        Some(pick_spec(Case { cache: 4, worst: 5 }, cached))
    } else if (op & 0xFFC0) == 0x40C0 || (op & 0xFFC0) == 0x42C0 {
        Some(pick_spec(case_add_spec(Case { cache: 5, worst: 7 }, calculate_ea_spec(mode, reg)), cached))
    } else if (op & 0xFFC0) == 0x44C0 || (op & 0xFFC0) == 0x46C0 {
        Some(pick_spec(case_add_spec(if (op & 0x0200) == 0 { Case { cache: 4, worst: 5 } } else { Case { cache: 8, worst: 11 } }, fetch_ea_spec(mode, reg, Size::Word)), cached))
    } else if (op & 0xFB80) == 0x4880 && mode != 0 {
        Some(pick_spec(case_add_spec(movem_base_spec(op, raw), calculate_immediate_ea_spec(mode, reg, Size::Word)), cached))
    } else if (op & 0xF1C0) == 0x41C0 {
        Some(pick_spec(case_add_spec(Case { cache: 2, worst: 3 }, calculate_ea_spec(mode, reg)), cached))
    } else if chk_opmode == 4 || chk_opmode == 6 {
        Some(pick_spec(case_add_spec(Case { cache: 8, worst: 8 }, fetch_ea_spec(mode, reg, if chk_opmode == 4 { Size::Long } else { Size::Word })), cached))
    } else if (op & 0xFFC0) == 0x4E80 {
        Some(pick_spec(case_add_spec(Case { cache: 5, worst: 11 }, jump_ea_spec(mode, reg)), cached))
    } else if (op & 0xFFC0) == 0x4EC0 {
        Some(pick_spec(case_add_spec(Case { cache: 4, worst: 7 }, jump_ea_spec(mode, reg)), cached))
    } else if (op & 0xFFF8) == 0x4808 {
        Some(pick_spec(Case { cache: 6, worst: 10 }, cached))
    } else if (op & 0xFFF8) == 0x4E50 {
        Some(pick_spec(Case { cache: 5, worst: 7 }, cached))
    } else if (op & 0xFFF8) == 0x4E58 {
        Some(pick_spec(Case { cache: 6, worst: 7 }, cached))
    } else if (op & 0xFFF0) == 0x4E60 {
        Some(pick_spec(Case { cache: 2, worst: 3 }, cached))
    } else if op == 0x4E7A {
        Some(pick_spec(Case { cache: 6, worst: 7 }, cached))
    } else if op == 0x4E7B {
        Some(pick_spec(Case { cache: 12, worst: 13 }, cached))
    } else if op == 0x4E70 {
        Some(pick_spec(Case { cache: 518, worst: 519 }, cached))
    } else if op == 0x4E71 {
        Some(pick_spec(Case { cache: 2, worst: 3 }, cached))
    } else if op == 0x4E72 {
        Some(pick_spec(Case { cache: 8, worst: 8 }, cached))
    } else if op == 0x4E73 {
        Some(pick_spec(if raw == 15 { Case { cache: 16, worst: 39 } } else if raw == 31 { Case { cache: 32, worst: 33 } } else if raw == 42 { Case { cache: 43, worst: 45 } } else if raw == 91 { Case { cache: 92, worst: 94 } } else { Case { cache: 21, worst: 24 } }, cached))
    } else if op == 0x4E74 || op == 0x4E75 {
        Some(pick_spec(Case { cache: 10, worst: 12 }, cached))
    } else if op == 0x4E76 {
        Some(pick_spec(Case { cache: 4, worst: 5 }, cached))
    } else if op == 0x4E77 {
        Some(pick_spec(Case { cache: 14, worst: 15 }, cached))
    } else if (op & 0xFFC0) == 0x4840 && mode != 0 {
        Some(pick_spec(case_add_spec(Case { cache: 5, worst: 6 }, calculate_ea_spec(mode, reg)), cached))
    } else if (op & 0xFFF8) == 0x4840 {
        Some(pick_spec(Case { cache: 4, worst: 4 }, cached))
    } else if (op & 0xFFF8) == 0x4880 || (op & 0xFFF8) == 0x48C0 || (op & 0xFFF8) == 0x49C0 {
        Some(pick_spec(Case { cache: 4, worst: 4 }, cached))
    } else if (op & 0xFFC0) == 0x4AC0 && mode == 0 {
        Some(pick_spec(Case { cache: 4, worst: 4 }, cached))
    } else if (op & 0xFFC0) == 0x4AC0 {
        Some(pick_spec(case_add_spec(Case { cache: 12, worst: 13 }, calculate_ea_spec(mode, reg)), cached))
    } else if (op & 0xFF00) == 0x4A00 {
        Some(pick_spec(case_add_spec(Case { cache: 2, worst: 3 }, fetch_ea_spec(mode, reg, size_00_spec((op >> 6u16) & 3))), cached))
    } else if ((op & 0xFF00) == 0x4000 || (op & 0xFF00) == 0x4200 || (op & 0xFF00) == 0x4400 || (op & 0xFF00) == 0x4600) && mode == 0 {
        Some(pick_spec(Case { cache: 2, worst: 3 }, cached))
    } else if (op & 0xFF00) == 0x4000 || (op & 0xFF00) == 0x4200 || (op & 0xFF00) == 0x4400 || (op & 0xFF00) == 0x4600 {
        Some(pick_spec(case_add_spec(Case { cache: 4, worst: 6 }, if (op & 0xFF00) == 0x4200 { calculate_ea_spec(mode, reg) } else { fetch_ea_spec(mode, reg, size_00_spec((op >> 6u16) & 3)) }), cached))
    } else if (op & 0xFFC0) == 0x4800 && mode == 0 {
        Some(pick_spec(Case { cache: 6, worst: 6 }, cached))
    } else {
        None
    }
}

/// Group 4: miscellaneous, control and long multiply/divide.
fn group_4(op: u16, raw: i32, cached: bool) -> (r: Option<i32>)
    requires
        -429_496_729 <= raw <= 429_496_728,
    ensures
        r == group_4_spec(op, raw, cached),
{
    let mode = (op >> 3u16) & 7;
    let reg = op & 7;
    let chk_opmode = (op >> 6u16) & 7;
    if (op & 0xFFC0) == 0x4C00 {
        Some(pick(case_add(Case { cache: 43, worst: 44 }, fetch_immediate_ea(mode, reg, Size::Word)), cached))
    } else if (op & 0xFFC0) == 0x4C40 {
        Some(pick(case_add(Case { cache: 90, worst: 91 }, fetch_immediate_ea(mode, reg, Size::Word)), cached))
    } else if ((op & 0xFFC0) == 0x40C0 || (op & 0xFFC0) == 0x42C0) && mode == 0 {
        Some(pick(Case { cache: 4, worst: 5 }, cached))
    } else if (op & 0xFFC0) == 0x40C0 || (op & 0xFFC0) == 0x42C0 {
        Some(pick(case_add(Case { cache: 5, worst: 7 }, calculate_ea(mode, reg)), cached))
    } else if (op & 0xFFC0) == 0x44C0 || (op & 0xFFC0) == 0x46C0 {
        Some(pick(case_add(if (op & 0x0200) == 0 { Case { cache: 4, worst: 5 } } else { Case { cache: 8, worst: 11 } }, fetch_ea(mode, reg, Size::Word)), cached))
    } else if (op & 0xFB80) == 0x4880 && mode != 0 {
        Some(pick(case_add(movem_base(op, raw), calculate_immediate_ea(mode, reg, Size::Word)), cached))
    } else if (op & 0xF1C0) == 0x41C0 {
        Some(pick(case_add(Case { cache: 2, worst: 3 }, calculate_ea(mode, reg)), cached))
    } else if chk_opmode == 4 || chk_opmode == 6 {
        Some(pick(case_add(Case { cache: 8, worst: 8 }, fetch_ea(mode, reg, if chk_opmode == 4 { Size::Long } else { Size::Word })), cached))
    } else if (op & 0xFFC0) == 0x4E80 {
        Some(pick(case_add(Case { cache: 5, worst: 11 }, jump_ea(mode, reg)), cached))
    } else if (op & 0xFFC0) == 0x4EC0 {
        Some(pick(case_add(Case { cache: 4, worst: 7 }, jump_ea(mode, reg)), cached))
    } else if (op & 0xFFF8) == 0x4808 {
        Some(pick(Case { cache: 6, worst: 10 }, cached))
    } else if (op & 0xFFF8) == 0x4E50 {
        Some(pick(Case { cache: 5, worst: 7 }, cached))
    } else if (op & 0xFFF8) == 0x4E58 {
        Some(pick(Case { cache: 6, worst: 7 }, cached))
    } else if (op & 0xFFF0) == 0x4E60 {
        Some(pick(Case { cache: 2, worst: 3 }, cached))
    } else if op == 0x4E7A {
        Some(pick(Case { cache: 6, worst: 7 }, cached))
    } else if op == 0x4E7B {
        Some(pick(Case { cache: 12, worst: 13 }, cached))
    } else if op == 0x4E70 {
        Some(pick(Case { cache: 518, worst: 519 }, cached))
    } else if op == 0x4E71 {
        Some(pick(Case { cache: 2, worst: 3 }, cached))
    } else if op == 0x4E72 {
        Some(pick(Case { cache: 8, worst: 8 }, cached))
    } else if op == 0x4E73 {
        Some(pick(if raw == 15 { Case { cache: 16, worst: 39 } } else if raw == 31 { Case { cache: 32, worst: 33 } } else if raw == 42 { Case { cache: 43, worst: 45 } } else if raw == 91 { Case { cache: 92, worst: 94 } } else { Case { cache: 21, worst: 24 } }, cached))
    } else if op == 0x4E74 || op == 0x4E75 {
        Some(pick(Case { cache: 10, worst: 12 }, cached))
    } else if op == 0x4E76 {
        Some(pick(Case { cache: 4, worst: 5 }, cached))
    } else if op == 0x4E77 {
        Some(pick(Case { cache: 14, worst: 15 }, cached))
    } else if (op & 0xFFC0) == 0x4840 && mode != 0 {
        Some(pick(case_add(Case { cache: 5, worst: 6 }, calculate_ea(mode, reg)), cached))
    } else if (op & 0xFFF8) == 0x4840 {
        Some(pick(Case { cache: 4, worst: 4 }, cached))
    } else if (op & 0xFFF8) == 0x4880 || (op & 0xFFF8) == 0x48C0 || (op & 0xFFF8) == 0x49C0 {
        Some(pick(Case { cache: 4, worst: 4 }, cached))
    } else if (op & 0xFFC0) == 0x4AC0 && mode == 0 {
        Some(pick(Case { cache: 4, worst: 4 }, cached))
    } else if (op & 0xFFC0) == 0x4AC0 {
        Some(pick(case_add(Case { cache: 12, worst: 13 }, calculate_ea(mode, reg)), cached))
    } else if (op & 0xFF00) == 0x4A00 {
        Some(pick(case_add(Case { cache: 2, worst: 3 }, fetch_ea(mode, reg, size_00((op >> 6u16) & 3))), cached))
    } else if ((op & 0xFF00) == 0x4000 || (op & 0xFF00) == 0x4200 || (op & 0xFF00) == 0x4400 || (op & 0xFF00) == 0x4600) && mode == 0 {
        Some(pick(Case { cache: 2, worst: 3 }, cached))
    } else if (op & 0xFF00) == 0x4000 || (op & 0xFF00) == 0x4200 || (op & 0xFF00) == 0x4400 || (op & 0xFF00) == 0x4600 {
        Some(pick(case_add(Case { cache: 4, worst: 6 }, if (op & 0xFF00) == 0x4200 { calculate_ea(mode, reg) } else { fetch_ea(mode, reg, size_00((op >> 6u16) & 3)) }), cached))
    } else if (op & 0xFFC0) == 0x4800 && mode == 0 {
        Some(pick(Case { cache: 6, worst: 6 }, cached))
    } else {
        None
    }
}

/// Groups 8, 9, B, C, D: the two-operand arithmetic and logic instructions.
pub open spec fn dyadic_spec(op: u16, cached: bool) -> Option<i32> {
    let group = op >> 12u16;
    let opmode = (op >> 6u16) & 7;
    let mode = (op >> 3u16) & 7;
    let reg = op & 7;
    if group == 0x8 && opmode == 4 && mode <= 1 {
        Some(pick_spec(if mode == 0 { Case { cache: 4, worst: 5 } } else { Case { cache: 16, worst: 17 } }, cached))
    } else if group == 0xC && opmode == 4 && mode <= 1 {
        Some(pick_spec(if mode == 0 { Case { cache: 4, worst: 5 } } else { Case { cache: 16, worst: 17 } }, cached))
    } else if (group == 0x9 || group == 0xD) && 4 <= opmode && opmode <= 6 && mode <= 1 {
        Some(pick_spec(if mode == 0 { Case { cache: 2, worst: 3 } } else { Case { cache: 12, worst: 13 } }, cached))
    } else if group == 0xB && 4 <= opmode && opmode <= 6 && mode == 1 {
        Some(pick_spec(Case { cache: 9, worst: 10 }, cached))
    } else if group == 0xB && 4 <= opmode && opmode <= 6 && mode == 0 {
        Some(pick_spec(Case { cache: 2, worst: 3 }, cached))
    } else if group == 0x8 && opmode == 5 && mode <= 1 {
        Some(pick_spec(if mode == 0 { Case { cache: 6, worst: 7 } } else { Case { cache: 13, worst: 13 } }, cached))
    } else if group == 0x8 && opmode == 6 && mode <= 1 {
        Some(pick_spec(if mode == 0 { Case { cache: 8, worst: 9 } } else { Case { cache: 13, worst: 13 } }, cached))
    } else if group == 0xC && 4 <= opmode && opmode <= 6 && (((op >> 3u16) & 0x1F) == 0x08 || ((op >> 3u16) & 0x1F) == 0x09 || ((op >> 3u16) & 0x1F) == 0x11) {
        Some(pick_spec(Case { cache: 2, worst: 3 }, cached))
    } else if group == 0xC && (opmode == 3 || opmode == 7) {
        Some(pick_spec(case_add_spec(Case { cache: 27, worst: 28 }, fetch_ea_spec(mode, reg, Size::Word)), cached))
    } else if group == 0x8 && opmode == 3 {
        Some(pick_spec(case_add_spec(Case { cache: 44, worst: 44 }, fetch_ea_spec(mode, reg, Size::Word)), cached))
    } else if group == 0x8 && opmode == 7 {
        Some(pick_spec(case_add_spec(Case { cache: 56, worst: 57 }, fetch_ea_spec(mode, reg, Size::Word)), cached))
    } else if opmode <= 2 {
        Some(pick_spec(case_add_spec(Case { cache: 2, worst: 3 }, fetch_ea_spec(mode, reg, size_00_spec(opmode))), cached))
    } else if (opmode == 3 || opmode == 7) && (group == 0x9 || group == 0xB || group == 0xD) {
        Some(pick_spec(case_add_spec(if group == 0xB { Case { cache: 4, worst: 4 } } else { Case { cache: 2, worst: 3 } }, fetch_ea_spec(mode, reg, if opmode == 3 { Size::Word } else { Size::Long })), cached))
    } else if 4 <= opmode && opmode <= 6 {
        Some(pick_spec(case_add_spec(Case { cache: 4, worst: 6 }, fetch_ea_spec(mode, reg, size_00_spec((opmode - 4) as u16))), cached))
    } else {
        None
    }
}

/// Groups 8, 9, B, C, D: the two-operand arithmetic and logic instructions.
fn dyadic(op: u16, cached: bool) -> (r: Option<i32>)
    ensures
        r == dyadic_spec(op, cached),
{
    let group = op >> 12u16;
    let opmode = (op >> 6u16) & 7;
    let mode = (op >> 3u16) & 7;
    let reg = op & 7;
    if group == 0x8 && opmode == 4 && mode <= 1 {
        Some(pick(if mode == 0 { Case { cache: 4, worst: 5 } } else { Case { cache: 16, worst: 17 } }, cached))
    } else if group == 0xC && opmode == 4 && mode <= 1 {
        Some(pick(if mode == 0 { Case { cache: 4, worst: 5 } } else { Case { cache: 16, worst: 17 } }, cached))
    } else if (group == 0x9 || group == 0xD) && 4 <= opmode && opmode <= 6 && mode <= 1 {
        Some(pick(if mode == 0 { Case { cache: 2, worst: 3 } } else { Case { cache: 12, worst: 13 } }, cached))
    } else if group == 0xB && 4 <= opmode && opmode <= 6 && mode == 1 {
        Some(pick(Case { cache: 9, worst: 10 }, cached))
    } else if group == 0xB && 4 <= opmode && opmode <= 6 && mode == 0 {
        Some(pick(Case { cache: 2, worst: 3 }, cached))
    } else if group == 0x8 && opmode == 5 && mode <= 1 {
        Some(pick(if mode == 0 { Case { cache: 6, worst: 7 } } else { Case { cache: 13, worst: 13 } }, cached))
    } else if group == 0x8 && opmode == 6 && mode <= 1 {
        Some(pick(if mode == 0 { Case { cache: 8, worst: 9 } } else { Case { cache: 13, worst: 13 } }, cached))
    } else if group == 0xC && 4 <= opmode && opmode <= 6 && (((op >> 3u16) & 0x1F) == 0x08 || ((op >> 3u16) & 0x1F) == 0x09 || ((op >> 3u16) & 0x1F) == 0x11) {
        Some(pick(Case { cache: 2, worst: 3 }, cached))
    } else if group == 0xC && (opmode == 3 || opmode == 7) {
        Some(pick(case_add(Case { cache: 27, worst: 28 }, fetch_ea(mode, reg, Size::Word)), cached))
    } else if group == 0x8 && opmode == 3 {
        Some(pick(case_add(Case { cache: 44, worst: 44 }, fetch_ea(mode, reg, Size::Word)), cached))
    } else if group == 0x8 && opmode == 7 {
        Some(pick(case_add(Case { cache: 56, worst: 57 }, fetch_ea(mode, reg, Size::Word)), cached))
    } else if opmode <= 2 {
        Some(pick(case_add(Case { cache: 2, worst: 3 }, fetch_ea(mode, reg, size_00(opmode))), cached))
    } else if (opmode == 3 || opmode == 7) && (group == 0x9 || group == 0xB || group == 0xD) {
        Some(pick(case_add(if group == 0xB { Case { cache: 4, worst: 4 } } else { Case { cache: 2, worst: 3 } }, fetch_ea(mode, reg, if opmode == 3 { Size::Word } else { Size::Long })), cached))
    } else if 4 <= opmode && opmode <= 6 {
        Some(pick(case_add(Case { cache: 4, worst: 6 }, fetch_ea(mode, reg, size_00((opmode - 4) as u16))), cached))
    } else {
        None
    }
}

/// Group 5: ADDQ/SUBQ, Scc, DBcc and TRAPcc; only a looping DBcc pays the refill.
pub open spec fn group_5_spec(cpu: CpuCore, op: u16, cached: bool) -> Option<i32> {
    let mode = (op >> 3u16) & 7;
    let reg = op & 7;
    let size_bits = (op >> 6u16) & 3;
    if size_bits == 3 && mode == 7 && 2 <= reg && reg <= 4 {
        Some(pick_spec(if reg == 2 { Case { cache: 6, worst: 7 } } else if reg == 3 { Case { cache: 8, worst: 10 } } else { Case { cache: 4, worst: 5 } }, cached))
    } else if size_bits == 3 && mode == 1 {
        Some(pick_spec(if condition_holds_cpu(cpu, ((op >> 8u16) & 0xF) as u8) { Case { cache: 6, worst: 7 } } else if dreg_of(cpu, reg) & 0xFFFF == 0xFFFF { Case { cache: 10, worst: 10 } } else { Case { cache: (6 + TAKEN_BRANCH_REFILL) as i32, worst: (9 + TAKEN_BRANCH_REFILL) as i32 } }, cached))
    } else if size_bits == 3 && mode == 0 {
        Some(pick_spec(Case { cache: 4, worst: 4 }, cached))
    } else if size_bits == 3 {
        Some(pick_spec(case_add_spec(Case { cache: 6, worst: 6 }, calculate_ea_spec(mode, reg)), cached))
    } else if mode <= 1 {
        Some(pick_spec(Case { cache: 2, worst: 3 }, cached))
    } else {
        Some(pick_spec(case_add_spec(Case { cache: 4, worst: 6 }, fetch_ea_spec(mode, reg, size_00_spec(size_bits))), cached))
    }
}

/// Group 5: ADDQ/SUBQ, Scc, DBcc and TRAPcc; only a looping DBcc pays the refill.
fn group_5(cpu: &CpuCore, op: u16, cached: bool) -> (r: Option<i32>)
    ensures
        r == group_5_spec(*cpu, op, cached),
{
    proof {
        lemma_op_fields(op);
    }
    let mode = (op >> 3u16) & 7;
    let reg = op & 7;
    let size_bits = (op >> 6u16) & 3;
    if size_bits == 3 && mode == 7 && 2 <= reg && reg <= 4 {
        Some(pick(if reg == 2 { Case { cache: 6, worst: 7 } } else if reg == 3 { Case { cache: 8, worst: 10 } } else { Case { cache: 4, worst: 5 } }, cached))
    } else if size_bits == 3 && mode == 1 {
        Some(pick(if cpu.test_condition(((op >> 8u16) & 0xF) as u8) { Case { cache: 6, worst: 7 } } else if dreg_exec(cpu, reg) & 0xFFFF == 0xFFFF { Case { cache: 10, worst: 10 } } else { Case { cache: 6 + TAKEN_BRANCH_REFILL, worst: 9 + TAKEN_BRANCH_REFILL } }, cached))
    } else if size_bits == 3 && mode == 0 {
        Some(pick(Case { cache: 4, worst: 4 }, cached))
    } else if size_bits == 3 {
        Some(pick(case_add(Case { cache: 6, worst: 6 }, calculate_ea(mode, reg)), cached))
    } else if mode <= 1 {
        Some(pick(Case { cache: 2, worst: 3 }, cached))
    } else {
        Some(pick(case_add(Case { cache: 4, worst: 6 }, fetch_ea(mode, reg, size_00(size_bits))), cached))
    }
}

/// Group 6: BRA, BSR and Bcc; a taken branch pays the pipeline refill.
pub open spec fn group_6_spec(cpu: CpuCore, op: u16, cached: bool) -> i32 {
    let condition = (op >> 8u16) & 0xF;
    if condition == 1 {
        (pick_spec(Case { cache: 7, worst: 13 }, cached) + TAKEN_BRANCH_REFILL) as i32
    } else if condition == 0 || cpu.change_of_flow {
        (pick_spec(Case { cache: 6, worst: 9 }, cached) + TAKEN_BRANCH_REFILL) as i32
    } else if (op & 0xFF) == 0 {
        pick_spec(Case { cache: 6, worst: 7 }, cached)
    } else if (op & 0xFF) == 0xFF {
        pick_spec(Case { cache: 6, worst: 9 }, cached)
    } else {
        pick_spec(Case { cache: 4, worst: 5 }, cached)
    }
}

/// Group 6: BRA, BSR and Bcc; a taken branch pays the pipeline refill.
fn group_6(cpu: &CpuCore, op: u16, cached: bool) -> (r: i32)
    ensures
        r == group_6_spec(*cpu, op, cached),
{
    let condition = (op >> 8u16) & 0xF;
    if condition == 1 {
        pick(Case { cache: 7, worst: 13 }, cached) + TAKEN_BRANCH_REFILL
    } else if condition == 0 || cpu.change_of_flow {
        pick(Case { cache: 6, worst: 9 }, cached) + TAKEN_BRANCH_REFILL
    } else if (op & 0xFF) == 0 {
        pick(Case { cache: 6, worst: 7 }, cached)
    } else if (op & 0xFF) == 0xFF {
        pick(Case { cache: 6, worst: 9 }, cached)
    } else {
        pick(Case { cache: 4, worst: 5 }, cached)
    }
}

/// Group E: shifts, rotates and bit-field instructions.
pub open spec fn group_e_spec(op: u16, cached: bool) -> Option<i32> {
    let mode = (op >> 3u16) & 7;
    let reg = op & 7;
    let selector = (op >> 8u16) & 0xF;
    let kind9 = (op >> 9u16) & 3;
    let kind3 = (op >> 3u16) & 3;
    if (op & 0x00C0) == 0x00C0 && selector >= 8 && mode == 0 {
        if selector == 0x8 { Some(pick_spec(Case { cache: 6, worst: 7 }, cached)) } else if selector == 0x9 || selector == 0xB { Some(pick_spec(Case { cache: 8, worst: 8 }, cached)) } else if selector == 0xA || selector == 0xC || selector == 0xE { Some(pick_spec(Case { cache: 12, worst: 12 }, cached)) } else if selector == 0xD { Some(pick_spec(Case { cache: 18, worst: 18 }, cached)) } else { Some(pick_spec(Case { cache: 10, worst: 10 }, cached)) }
    } else if (op & 0x00C0) == 0x00C0 && selector >= 8 {
        if selector == 0x8 { Some(pick_spec(case_add_spec(Case { cache: 15, worst: 16 }, calculate_immediate_ea_spec(mode, reg, Size::Word)), cached)) } else if selector == 0x9 || selector == 0xB { Some(pick_spec(case_add_spec(Case { cache: 18, worst: 18 }, calculate_immediate_ea_spec(mode, reg, Size::Word)), cached)) } else if selector == 0xA || selector == 0xC || selector == 0xE { Some(pick_spec(case_add_spec(Case { cache: 24, worst: 24 }, calculate_immediate_ea_spec(mode, reg, Size::Word)), cached)) } else if selector == 0xD { Some(pick_spec(case_add_spec(Case { cache: 32, worst: 32 }, calculate_immediate_ea_spec(mode, reg, Size::Word)), cached)) } else { Some(pick_spec(case_add_spec(Case { cache: 20, worst: 21 }, calculate_immediate_ea_spec(mode, reg, Size::Word)), cached)) }
    } else if ((op >> 6u16) & 3) == 3 {
        Some(pick_spec(case_add_spec(if kind9 == 0 && (op & 0x0100) != 0 { Case { cache: 6, worst: 7 } } else if kind9 <= 2 { Case { cache: 5, worst: 6 } } else { Case { cache: 7, worst: 7 } }, fetch_ea_spec(mode, reg, Size::Word)), cached))
    } else {
        Some(pick_spec(if kind3 == 0 && (op & 0x0100) != 0 { Case { cache: 8, worst: 8 } } else if kind3 == 0 { Case { cache: 6, worst: 6 } } else if kind3 == 1 && (op & 0x0020) != 0 { Case { cache: 6, worst: 6 } } else if kind3 == 1 { Case { cache: 4, worst: 4 } } else if kind3 == 2 { Case { cache: 12, worst: 12 } } else { Case { cache: 8, worst: 8 } }, cached))
    }
}

/// Group E: shifts, rotates and bit-field instructions.
fn group_e(op: u16, cached: bool) -> (r: Option<i32>)
    ensures
        r == group_e_spec(op, cached),
{
    let mode = (op >> 3u16) & 7;
    let reg = op & 7;
    let selector = (op >> 8u16) & 0xF;
    let kind9 = (op >> 9u16) & 3;
    let kind3 = (op >> 3u16) & 3;
    if (op & 0x00C0) == 0x00C0 && selector >= 8 && mode == 0 {
        if selector == 0x8 { Some(pick(Case { cache: 6, worst: 7 }, cached)) } else if selector == 0x9 || selector == 0xB { Some(pick(Case { cache: 8, worst: 8 }, cached)) } else if selector == 0xA || selector == 0xC || selector == 0xE { Some(pick(Case { cache: 12, worst: 12 }, cached)) } else if selector == 0xD { Some(pick(Case { cache: 18, worst: 18 }, cached)) } else { Some(pick(Case { cache: 10, worst: 10 }, cached)) }
    } else if (op & 0x00C0) == 0x00C0 && selector >= 8 {
        if selector == 0x8 { Some(pick(case_add(Case { cache: 15, worst: 16 }, calculate_immediate_ea(mode, reg, Size::Word)), cached)) } else if selector == 0x9 || selector == 0xB { Some(pick(case_add(Case { cache: 18, worst: 18 }, calculate_immediate_ea(mode, reg, Size::Word)), cached)) } else if selector == 0xA || selector == 0xC || selector == 0xE { Some(pick(case_add(Case { cache: 24, worst: 24 }, calculate_immediate_ea(mode, reg, Size::Word)), cached)) } else if selector == 0xD { Some(pick(case_add(Case { cache: 32, worst: 32 }, calculate_immediate_ea(mode, reg, Size::Word)), cached)) } else { Some(pick(case_add(Case { cache: 20, worst: 21 }, calculate_immediate_ea(mode, reg, Size::Word)), cached)) }
    } else if ((op >> 6u16) & 3) == 3 {
        Some(pick(case_add(if kind9 == 0 && (op & 0x0100) != 0 { Case { cache: 6, worst: 7 } } else if kind9 <= 2 { Case { cache: 5, worst: 6 } } else { Case { cache: 7, worst: 7 } }, fetch_ea(mode, reg, Size::Word)), cached))
    } else {
        Some(pick(if kind3 == 0 && (op & 0x0100) != 0 { Case { cache: 8, worst: 8 } } else if kind3 == 0 { Case { cache: 6, worst: 6 } } else if kind3 == 1 && (op & 0x0020) != 0 { Case { cache: 6, worst: 6 } } else if kind3 == 1 { Case { cache: 4, worst: 4 } } else if kind3 == 2 { Case { cache: 12, worst: 12 } } else { Case { cache: 8, worst: 8 } }, cached))
    }
}
/// Tables 8-4 to 8-9, Cache Case, by source row and destination column.
pub open spec fn move_cache_spec(row: int, col: int) -> i32 {
    seq![
        seq![2i32, 4, 4, 5, 5, 4, 6, 7],
        seq![4i32, 6, 6, 7, 7, 6, 8, 7],
        seq![6i32, 8, 8, 9, 9, 8, 10, 9],
        seq![6i32, 7, 7, 7, 7, 7, 9, 9],
        seq![6i32, 7, 7, 7, 7, 7, 9, 9],
        seq![7i32, 8, 8, 8, 8, 8, 10, 10],
        seq![7i32, 8, 8, 8, 8, 8, 10, 10],
        seq![6i32, 7, 7, 7, 7, 7, 9, 9],
        seq![6i32, 7, 7, 7, 7, 7, 9, 9],
        seq![9i32, 10, 10, 10, 10, 10, 12, 12],
    ][row][col]
}

/// Tables 8-4 to 8-9, Worst Case, by source row and destination column.
pub open spec fn move_worst_spec(row: int, col: int) -> i32 {
    seq![
        seq![3i32, 5, 5, 6, 7, 7, 9, 9],
        seq![3i32, 5, 8, 6, 7, 7, 9, 9],
        seq![5i32, 7, 7, 8, 9, 9, 11, 11],
        seq![7i32, 9, 9, 9, 11, 11, 13, 11],
        seq![7i32, 9, 9, 9, 11, 11, 13, 11],
        seq![8i32, 10, 10, 10, 12, 12, 14, 12],
        seq![9i32, 11, 11, 11, 13, 13, 15, 13],
        seq![8i32, 10, 10, 10, 12, 12, 14, 12],
        seq![10i32, 12, 12, 12, 14, 14, 16, 14],
        seq![11i32, 13, 13, 13, 15, 15, 17, 15],
    ][row][col]
}

/// One row of the MOVE tables.
fn move_row(row: usize, cached: bool) -> (r: [i32; 8])
    requires
        row < 10,
    ensures
        forall|col: int| 0 <= col < 8 ==> r[col] == (if cached {
            move_cache_spec(row as int, col)
        } else {
            move_worst_spec(row as int, col)
        }),
{
    let t: [i32; 8] = if cached {
        if row == 0 {
            [2, 4, 4, 5, 5, 4, 6, 7]
        } else if row == 1 {
            [4, 6, 6, 7, 7, 6, 8, 7]
        } else if row == 2 {
            [6, 8, 8, 9, 9, 8, 10, 9]
        } else if row == 3 || row == 4 || row == 7 || row == 8 {
            [6, 7, 7, 7, 7, 7, 9, 9]
        } else if row == 5 || row == 6 {
            [7, 8, 8, 8, 8, 8, 10, 10]
        } else {
            [9, 10, 10, 10, 10, 10, 12, 12]
        }
    } else {
        if row == 0 {
            [3, 5, 5, 6, 7, 7, 9, 9]
        } else if row == 1 {
            [3, 5, 8, 6, 7, 7, 9, 9]
        } else if row == 2 {
            [5, 7, 7, 8, 9, 9, 11, 11]
        } else if row == 3 || row == 4 {
            [7, 9, 9, 9, 11, 11, 13, 11]
        } else if row == 5 || row == 7 {
            [8, 10, 10, 10, 12, 12, 14, 12]
        } else if row == 6 {
            [9, 11, 11, 11, 13, 13, 15, 13]
        } else if row == 8 {
            [10, 12, 12, 12, 14, 14, 16, 14]
        } else {
            [11, 13, 13, 13, 15, 15, 17, 15]
        }
    };
    t
}

/// MOVE timing from the source row and destination column of the opcode.
pub open spec fn move_cycles_spec(op: u16, size: Size, cached: bool) -> i32 {
    let row = move_source_row_spec((op >> 3u16) & 7, op & 7, size) as int;
    let col = move_destination_col_spec((op >> 6u16) & 7, (op >> 9u16) & 7) as int;
    if cached {
        move_cache_spec(row, col)
    } else {
        move_worst_spec(row, col)
    }
}

/// MOVE timing from the source row and destination column of the opcode.
fn move_cycles(op: u16, size: Size, cached: bool) -> (r: i32)
    ensures
        r == move_cycles_spec(op, size, cached),
{
    let row = move_source_row((op >> 3u16) & 7, op & 7, size);
    let col = move_destination_col((op >> 6u16) & 7, (op >> 9u16) & 7);
    let t = move_row(row, cached);
    t[col]
}

/// The conservative scaling kept for instructions the tables do not
/// cover: five eighths of the 68000-style count, rounded up, at least 2.
pub open spec fn legacy_fallback_spec(raw: i32) -> i32 {
    let v = (raw * 5 + 7) / 8;
    if v > 2 {
        v as i32
    } else {
        2
    }
}

/// The conservative scaling kept for instructions the tables do not
/// cover: five eighths of the 68000-style count, rounded up, at least 2.
pub(crate) fn legacy_fallback(raw: i32) -> (r: i32)
    requires
        -429_496_729 <= raw <= 429_496_728,
    ensures
        r == legacy_fallback_spec(raw),
        2 <= r,
{
    let v = (raw * 5 + 7) / 8;
    if v > 2 {
        v
    } else {
        2
    }
}

/// Timing of an instruction that ended in an exception (Table 8-17 and
/// the group-2 TRAPV/TRAPcc entries); `None` when none was taken.
pub open spec fn exception_cycles_spec(cpu: CpuCore, raw: i32, cached: bool) -> Option<i32> {
    let op = (cpu.ir & 0xFFFF) as u16;
    match cpu.instruction_exception_vector {
        None => None,
        Some(v) => Some(if v == 4 || v == 8 || v == 10 || v == 11 {
            pick_spec(Case { cache: 20, worst: 27 }, cached)
        } else if v == 7 && op == 0x4E76 {
            pick_spec(Case { cache: 25, worst: 32 }, cached)
        } else if v == 7 && (op >> 12u16) == 5 && ((op & 7) == 2 || (op & 7) == 3) {
            pick_spec(Case { cache: 25, worst: 33 }, cached)
        } else if v == 7 && (op >> 12u16) == 5 {
            pick_spec(Case { cache: 25, worst: 32 }, cached)
        } else {
            legacy_fallback_spec(raw)
        }),
    }
}

/// Timing of an instruction that ended in an exception (Table 8-17 and
/// the group-2 TRAPV/TRAPcc entries); `None` when none was taken.
fn exception_cycles(cpu: &CpuCore, raw: i32, cached: bool) -> (r: Option<i32>)
    requires
        -429_496_729 <= raw <= 429_496_728,
    ensures
        r == exception_cycles_spec(*cpu, raw, cached),
{
    let op = (cpu.ir & 0xFFFF) as u16;
    match cpu.instruction_exception_vector {
        None => None,
        Some(v) => Some(if v == 4 || v == 8 || v == 10 || v == 11 {
            pick(Case { cache: 20, worst: 27 }, cached)
        } else if v == 7 && op == 0x4E76 {
            pick(Case { cache: 25, worst: 32 }, cached)
        } else if v == 7 && (op >> 12u16) == 5 && ((op & 7) == 2 || (op & 7) == 3) {
            pick(Case { cache: 25, worst: 33 }, cached)
        } else if v == 7 && (op >> 12u16) == 5 {
            pick(Case { cache: 25, worst: 32 }, cached)
        } else {
            legacy_fallback(raw)
        }),
    }
}

/// The section-8.2 timing of the instruction in `ir`, for a 68000-style
/// count `raw`; instructions the tables do not cover keep the legacy
/// scaling.
pub open spec fn cycles_020_spec(cpu: CpuCore, raw: i32, cached: bool) -> i32 {
    let op = (cpu.ir & 0xFFFF) as u16;
    let group = op >> 12u16;
    match exception_cycles_spec(cpu, raw, cached) {
        Some(c) => c,
        None => {
            let c = if group == 0x0 {
                group_0_spec(cpu, op, cached)
            } else if group == 0x1 {
                Some(move_cycles_spec(op, Size::Byte, cached))
            } else if group == 0x2 {
                Some(move_cycles_spec(op, Size::Long, cached))
            } else if group == 0x3 {
                Some(move_cycles_spec(op, Size::Word, cached))
            } else if group == 0x4 {
                group_4_spec(op, raw, cached)
            } else if group == 0x5 {
                group_5_spec(cpu, op, cached)
            } else if group == 0x6 {
                Some(group_6_spec(cpu, op, cached))
            } else if group == 0x7 {
                Some(pick_spec(Case { cache: 2, worst: 3 }, cached))
            } else if group == 0x8 || group == 0x9 || group == 0xB || group == 0xC || group == 0xD {
                dyadic_spec(op, cached)
            } else if group == 0xE {
                group_e_spec(op, cached)
            } else {
                None
            };
            match c {
                Some(v) => v,
                None => legacy_fallback_spec(raw),
            }
        },
    }
}

impl CpuCore {
    /// Section-8.2 timing for the 68020/68EC020 instruction that just
    /// retired, given its 68000-style count `raw` and whether its stream
    /// words hit the instruction cache.
    pub fn cycles_020(&self, raw: i32, fetch_cached: bool) -> (r: i32)
        requires
            -429_496_729 <= raw <= 429_496_728,
        ensures
            r == cycles_020_spec(*self, raw, fetch_cached),
    {
        if let Some(cycles) = exception_cycles(self, raw, fetch_cached) {
            return cycles;
        }
        let op = (self.ir & 0xFFFF) as u16;
        let group = op >> 12u16;
        let cycles = if group == 0x0 {
            group_0(self, op, fetch_cached)
        } else if group == 0x1 {
            Some(move_cycles(op, Size::Byte, fetch_cached))
        } else if group == 0x2 {
            Some(move_cycles(op, Size::Long, fetch_cached))
        } else if group == 0x3 {
            Some(move_cycles(op, Size::Word, fetch_cached))
        } else if group == 0x4 {
            group_4(op, raw, fetch_cached)
        } else if group == 0x5 {
            group_5(self, op, fetch_cached)
        } else if group == 0x6 {
            Some(group_6(self, op, fetch_cached))
        } else if group == 0x7 {
            Some(pick(Case { cache: 2, worst: 3 }, fetch_cached))
        } else if group == 0x8 || group == 0x9 || group == 0xB || group == 0xC || group == 0xD {
            dyadic(op, fetch_cached)
        } else if group == 0xE {
            group_e(op, fetch_cached)
        } else {
            None
        };
        match cycles {
            Some(v) => v,
            None => legacy_fallback(raw),
        }
    }

    /// Clocks billed for the instruction that just retired: the 68000 and
    /// 68010 bill their own count, the 020 family its section-8.2 table
    /// time, and later models the legacy scaling of the 68000-style count.
    pub fn finalize_cycles(&self, raw: i32, fetch_cached: bool) -> (r: i32)
        requires
            -429_496_729 <= raw <= 429_496_728,
        ensures
            r == (if is_020_type(self.cpu_type) {
                cycles_020_spec(*self, raw, fetch_cached)
            } else if is_pre_68020_type(self.cpu_type) {
                raw
            } else {
                legacy_fallback_spec(raw)
            }),
    {
        if matches!(self.cpu_type, CpuType::M68EC020 | CpuType::M68020) {
            self.cycles_020(raw, fetch_cached)
        } else if matches!(
            self.cpu_type,
            CpuType::M68000 | CpuType::M68010 | CpuType::SCC68070
        ) {
            raw
        } else {
            legacy_fallback(raw)
        }
    }
}

} // verus!
