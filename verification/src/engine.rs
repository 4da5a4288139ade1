//! The common interface every benchmarked core adapts to.

use vstd::prelude::*;
use crate::workloads::{Workload, count_reg_of, CODE_BASE, SSP};
use crate::cpu::CpuCore;
use crate::types::CpuType;

verus! {

/// Architectural state sampled after a run, used to check that all engines
/// executed the same instruction stream to the same effect.
#[derive(Debug, Clone, Copy, PartialEq, Eq)]
pub struct EngineState {
    pub d: [u32; 8],
    pub mem_hash: u64,
}

/// A benchmarked core.
pub trait Engine {
    /// The engine's display name.
    fn name(&self) -> &'static str;

    /// Install a workload's memory image and put the CPU at its entry point.
    fn load_workload(&mut self, w: &Workload);

    /// Re-arm registers and PC for another run of the loaded workload.
    /// Guest memory is left as it is: every workload is idempotent over
    /// memory, so runs are identical.
    fn reset_run(&mut self, w: &Workload);

    /// Cycle-budgeted execution; returns the cycles consumed (which may
    /// overshoot the budget by up to one instruction).
    fn run_cycles(&mut self, budget: i64) -> i64;

    /// Instruction-budgeted execution; returns the instructions retired.
    fn run_instructions(&mut self, budget: u64) -> u64;

    /// Whether the engine runs on a cycle budget (`run_cycles`) or an
    /// instruction budget (`run_instructions`).
    fn is_cycle_budgeted(&self) -> bool;

    /// The state after a run.
    fn state(&mut self) -> EngineState;
}

/// The initial value of data register `reg` in a workload's setup (0 when
/// it sets none).
pub open spec fn initial_value(d_init: Seq<(usize, u32)>, reg: usize) -> u32
    decreases d_init.len(),
{
    if d_init.len() == 0 {
        0
    } else if d_init[0].0 == reg {
        d_init[0].1
    } else {
        initial_value(d_init.drop_first(), reg)
    }
}

/// The exact instruction count of a run, from the workload's counter
/// register: iterations counted (modulo 2^32) times the instructions per
/// iteration; `None` for a workload without a counter.
pub fn exact_instrs_from_counter(w: &Workload, state: &EngineState) -> (r: Option<u64>)
    requires
        count_reg_of(*w) matches Some(reg) ==> reg < 8,
    ensures
        match count_reg_of(*w) {
            None => r is None,
            Some(reg) => r == Some(
                ((((state.d[reg as int] - initial_value(w.d_init@, reg)) % 0x1_0000_0000) as u64) * (
                w.instrs_per_iter as u64)) as u64,
            ),
        },
{
    let reg = match &w.count_reg {
        Some(c) => c.reg,
        None => return None,
    };
    let mut init: u32 = 0;
    let mut i: usize = 0;
    let mut found = false;
    assert(w.d_init@.subrange(0, w.d_init@.len() as int) =~= w.d_init@);
    while i < w.d_init.len() && !found
        invariant
            i <= w.d_init@.len(),
            found ==> i > 0 && w.d_init@[i - 1].0 == reg && init == w.d_init@[i - 1].1,
            found ==> initial_value(w.d_init@, reg) == init,
            !found ==> init == 0,
            !found ==> initial_value(w.d_init@, reg) == initial_value(w.d_init@.subrange(i as int, w.d_init@.len() as int), reg),
        decreases w.d_init@.len() - i + (if found {
            0int
        } else {
            1int
        }),
    {
        let (r, v) = w.d_init[i];
        proof {
            let rest = w.d_init@.subrange(i as int, w.d_init@.len() as int);
            assert(rest.drop_first() =~= w.d_init@.subrange(i + 1, w.d_init@.len() as int));
        }
        if r == reg {
            init = v;
            found = true;
        }
        i = i + 1;
    }
    if !found {
        proof {
            assert(w.d_init@.subrange(i as int, w.d_init@.len() as int).len() == 0);
        }
    }
    assert(init == initial_value(w.d_init@, reg));
    let iters = state.d[reg].wrapping_sub(init) as u64;
    assert(iters == (state.d[reg as int] - init) % 0x1_0000_0000);
    let per = w.instrs_per_iter as u64;
    assert(iters * per <= u64::MAX) by (nonlinear_arith)
        requires
            iters <= u32::MAX,
            per <= u32::MAX,
    ;
    Some(iters * per)
}

/// Data registers after a workload's initial values are written in order.
pub open spec fn d_after_init(d: Seq<u32>, d_init: Seq<(usize, u32)>) -> Seq<u32>
    decreases d_init.len(),
{
    if d_init.len() == 0 {
        d
    } else {
        d_after_init(d, d_init.drop_last()).update(d_init.last().0 as int, d_init.last().1)
    }
}

/// A 68000 at a workload's entry point: supervisor mode with interrupts
/// masked, the PC at `CODE_BASE`, A7 at `SSP`, the workload's initial data
/// registers and every other register zero.
pub fn fresh_cpu(w: &Workload) -> (cpu: CpuCore)
    requires
        forall|i: int| 0 <= i < w.d_init@.len() ==> (#[trigger] w.d_init@[i]).0 < 8,
    ensures
        cpu.cpu_type == CpuType::M68000,
        cpu.sr() == 0x2700,
        cpu.pc == CODE_BASE,
        cpu.dar[15] == SSP,
        cpu.dar@.subrange(0, 8) == d_after_init(Seq::new(8, |i: int| 0u32), w.d_init@),
        forall|i: int| 8 <= i < 15 ==> cpu.dar[i] == 0,
        crate::op_cache::cache_wf(cpu),
{
    let mut cpu = CpuCore::new();
    cpu.set_cpu_type(CpuType::M68000);
    cpu.set_sr(0x2700);
    proof {
        crate::cpu::lemma_flag_constants();
    }
    cpu.pc = CODE_BASE;
    cpu.set_a(7, SSP);
    assert(cpu.dar@.subrange(0, 8) =~= Seq::new(8, |i: int| 0u32));
    let mut i: usize = 0;
    while i < w.d_init.len()
        invariant
            i <= w.d_init@.len(),
            forall|j: int| 0 <= j < w.d_init@.len() ==> (#[trigger] w.d_init@[j]).0 < 8,
            cpu.dar@.subrange(0, 8) == d_after_init(Seq::new(8, |j: int| 0u32), w.d_init@.subrange(0, i as int)),
            cpu.cpu_type == CpuType::M68000,
            cpu.sr() == 0x2700,
            cpu.pc == CODE_BASE,
            cpu.dar[15] == SSP,
            forall|j: int| 8 <= j < 15 ==> cpu.dar[j] == 0,
            crate::op_cache::cache_wf(cpu),
        decreases w.d_init@.len() - i,
    {
        let (reg, val) = w.d_init[i];
        let ghost before = cpu.dar@;
        cpu.set_d(reg, val);
        proof {
            assert(w.d_init@.subrange(0, i + 1).drop_last() =~= w.d_init@.subrange(0, i as int));
            assert(cpu.dar@.subrange(0, 8) =~= before.subrange(0, 8).update(reg as int, val));
        }
        i = i + 1;
    }
    assert(w.d_init@.subrange(0, w.d_init@.len() as int) =~= w.d_init@);
    cpu
}

} // verus!
