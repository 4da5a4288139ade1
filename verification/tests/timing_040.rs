use m68k::cpu::CpuCore;
use m68k::timing_040::{
    OpcodeClass, CYC_040_CACHE_OP, CYC_040_DBCC_EXPIRED, CYC_040_DBCC_TAKEN, CYC_040_FLOW_MIN,
    F_BRANCH, F_DBCC, F_EA_INDEXED, F_VARIABLE,
};
use m68k::types::CpuType;

fn cpu_040() -> CpuCore {
    let mut cpu = CpuCore::new();
    cpu.set_cpu_type(CpuType::M68040);
    cpu
}

const ONE_CLOCK: OpcodeClass = OpcodeClass { flags: 0, cycles: 1 };
const DBCC: OpcodeClass = OpcodeClass { flags: F_BRANCH | F_DBCC, cycles: 1 };

// The classifier's verdicts: register ALU and move forms occupy one clock;
// DBcc is a branch of the DBcc kind.
#[test]
fn simple_alu_ops_cost_one_clock() {
    let mut cpu = cpu_040();
    cpu.ir = 0x7001; // MOVEQ #1,D0
    assert_eq!(cpu.cycles_040(4, ONE_CLOCK), 1);
    cpu.ir = 0x3002; // MOVE.W D2,D0
    assert_eq!(cpu.cycles_040(4, ONE_CLOCK), 1);
    cpu.ir = 0xD280; // ADD.L D0,D1
    assert_eq!(cpu.cycles_040(4, ONE_CLOCK), 1);
}

#[test]
fn taken_dbcc_makes_the_measured_one_clock_body_loop_four_clocks() {
    let mut cpu = cpu_040();
    cpu.ir = 0x51CE; // DBRA D6,<disp>
    cpu.ppc = 0x1000;
    cpu.pc = 0x0FFC; // looped: not the fall-through
    assert_eq!(cpu.cycles_040(12, DBCC), CYC_040_DBCC_TAKEN);
    cpu.pc = cpu.ppc.wrapping_add(4); // expired: fell through
    assert_eq!(cpu.cycles_040(14, DBCC), CYC_040_DBCC_EXPIRED);
    assert_eq!(1 + CYC_040_DBCC_TAKEN, 4);
}

#[test]
fn data_dependent_costs_derive_from_the_68000_reference() {
    let mut cpu = cpu_040();
    cpu.ir = 0xC0FC; // MULU.W #imm,D0
    assert_eq!(cpu.cycles_040(54, ONE_CLOCK), 13);
}

#[test]
fn cache_line_maintenance_costs_a_dozen_clocks() {
    let mut cpu = cpu_040();
    cpu.ir = 0xF468; // CPUSHL DC,(A0)
    assert_eq!(cpu.cycles_040(8, ONE_CLOCK), CYC_040_CACHE_OP);
}

#[test]
fn flow_changes_pay_the_refill_floor() {
    let mut cpu = cpu_040();
    cpu.ir = 0x4E75; // RTS
    cpu.change_of_flow = true;
    assert_eq!(cpu.cycles_040(16, ONE_CLOCK), CYC_040_FLOW_MIN);
    assert_eq!(cpu.cycles_040(40, ONE_CLOCK), 10);
}

#[test]
fn indexed_operands_and_variable_costs() {
    let mut cpu = cpu_040();
    let indexed = OpcodeClass { flags: F_EA_INDEXED, cycles: 1 };
    cpu.ir = 0x3030; // MOVE.W (d8,A0,Xn),D0
    assert_eq!(cpu.cycles_040(14, indexed), 2);
    let variable = OpcodeClass { flags: F_VARIABLE, cycles: 1 };
    cpu.ir = 0x4E71;
    assert_eq!(cpu.cycles_040(2, variable), 1);
}

#[test]
fn exception_entries_keep_the_legacy_scaling() {
    let mut cpu = cpu_040();
    cpu.instruction_exception_vector = Some(4);
    assert_eq!(cpu.cycles_040(34, ONE_CLOCK), (34 * 5 + 7) / 8);
}
