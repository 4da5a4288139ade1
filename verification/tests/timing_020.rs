use m68k::cpu::CpuCore;
use m68k::timing_020::TAKEN_BRANCH_REFILL;
use m68k::types::CpuType;

fn timed(op: u16, raw: i32, cached: bool) -> i32 {
    let mut cpu = CpuCore::new();
    cpu.ir = u32::from(op);
    cpu.cycles_020(raw, cached)
}

#[test]
fn register_and_move_timings_follow_cache_and_worst_tables() {
    assert_eq!(timed(0x7001, 4, true), 2); // MOVEQ #1,D0
    assert_eq!(timed(0x7001, 4, false), 3);
    assert_eq!(timed(0x2284, 8, true), 4); // MOVE.L D4,(A1)
    assert_eq!(timed(0x2284, 8, false), 5);
    assert_eq!(timed(0x2501, 12, true), 5); // MOVE.L D1,-(A2)
    assert_eq!(timed(0x2501, 12, false), 6);
}

#[test]
fn arithmetic_and_expensive_integer_ops_use_manual_bases() {
    assert_eq!(timed(0xD280, 4, true), 2); // ADD.L D0,D1
    assert_eq!(timed(0xD280, 4, false), 3);
    assert_eq!(timed(0x0650, 12, true), 8); // ADDI.W #imm,(A0)
    assert_eq!(timed(0x0650, 12, false), 10);
    assert_eq!(timed(0x0680, 16, true), 6); // ADDI.L #imm,D0
    assert_eq!(timed(0x0680, 16, false), 8);
    assert_eq!(timed(0x0C50, 12, true), 6); // CMPI.W #imm,(A0)
    assert_eq!(timed(0x0C50, 12, false), 7);
    assert_eq!(timed(0xB100, 4, true), 2); // EOR.B D0,D0
    assert_eq!(timed(0xB100, 4, false), 3);
    assert_eq!(timed(0xC0C1, 42, true), 27); // MULU.W D1,D0
    assert_eq!(timed(0xC0C1, 42, false), 28);
    assert_eq!(timed(0x81C1, 90, true), 56); // DIVS.W D1,D0
    assert_eq!(timed(0x81C1, 90, false), 57);
}

#[test]
fn barrel_shifter_cost_is_count_independent() {
    assert_eq!(timed(0xE108, 6, true), 4); // LSL.B #8,D0
    assert_eq!(timed(0xE368, 6, true), 6); // LSL.W D1,D0
    assert_eq!(timed(0xE570, 6, true), 12); // ROXL.W D2,D0
}

#[test]
fn dbcc_distinguishes_loop_expiry_and_true_condition() {
    let mut cpu = CpuCore::new();
    // Looping: the branch is taken, so it also pays the pipeline refill.
    cpu.ir = 0x51C8; // DBF D0,<disp>
    cpu.dar[0] = 7;
    assert_eq!(cpu.cycles_020(12, true), 6 + TAKEN_BRANCH_REFILL);
    assert_eq!(cpu.cycles_020(12, false), 9 + TAKEN_BRANCH_REFILL);

    // Both fall-through exits leave the pipeline intact: table entry only.
    cpu.dar[0] = 0xFFFF;
    assert_eq!(cpu.cycles_020(14, true), 10);
    assert_eq!(cpu.cycles_020(14, false), 10);

    cpu.ir = 0x50C8; // DBT: condition true
    assert_eq!(cpu.cycles_020(12, true), 6);
    assert_eq!(cpu.cycles_020(12, false), 7);
}

#[test]
fn only_taken_branches_pay_the_pipeline_refill() {
    let mut cpu = CpuCore::new();
    // BRA is unconditional, so it always flushes.
    cpu.ir = 0x6002;
    cpu.change_of_flow = false;
    assert_eq!(cpu.cycles_020(10, true), 6 + TAKEN_BRANCH_REFILL);

    // BSR likewise.
    cpu.ir = 0x6102;
    assert_eq!(cpu.cycles_020(18, true), 7 + TAKEN_BRANCH_REFILL);

    // A conditional branch pays it only when it is actually taken.
    cpu.ir = 0x6702; // BEQ.B
    cpu.change_of_flow = true;
    assert_eq!(cpu.cycles_020(10, true), 6 + TAKEN_BRANCH_REFILL);
    cpu.change_of_flow = false;
    assert_eq!(cpu.cycles_020(10, true), 4);
}

#[test]
fn control_and_save_restore_use_complete_table_entries() {
    assert_eq!(timed(0x4E71, 4, true), 2); // NOP
    assert_eq!(timed(0x4E71, 4, false), 3);
    assert_eq!(timed(0x4E75, 16, true), 10); // RTS
    assert_eq!(timed(0x4E75, 16, false), 12);
    assert_eq!(timed(0x4E73, 20, true), 21); // RTE, normal frame
    assert_eq!(timed(0x4E73, 20, false), 24);
    assert_eq!(timed(0x4E70, 132, true), 518); // RESET
}

#[test]
fn model_dispatch_uses_tables_only_for_the_020_family() {
    let mut cpu = CpuCore::new();
    cpu.ir = 0x4E71; // NOP
    cpu.set_cpu_type(CpuType::M68EC020);
    assert_eq!(cpu.finalize_cycles(4, true), 2);
    cpu.set_cpu_type(CpuType::M68020);
    assert_eq!(cpu.finalize_cycles(4, false), 3);
    cpu.set_cpu_type(CpuType::M68030);
    assert_eq!(cpu.finalize_cycles(4, true), 3);
}

#[test]
fn exception_timing_overrides_the_instruction_tables() {
    let mut cpu = CpuCore::new();
    cpu.ir = 0x4AFC; // ILLEGAL
    cpu.instruction_exception_vector = Some(4);
    assert_eq!(cpu.cycles_020(34, true), 20);
    assert_eq!(cpu.cycles_020(34, false), 27);
}

#[test]
fn the_68000_bills_its_own_count() {
    let mut cpu = CpuCore::new();
    cpu.set_cpu_type(CpuType::M68000);
    cpu.ir = 0x4E71;
    assert_eq!(cpu.finalize_cycles(4, true), 4);
}

#[test]
fn movem_timing_derives_the_register_count() {
    // MOVEM.L D0-D3,(A0): 8 + 4 * 8 = 40 68000 clocks -> four registers.
    assert_eq!(timed(0x48D0, 40, true), 4 + 3 * 4 + 2);
}
