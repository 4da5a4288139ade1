//! 68040 integer timing: a single-issue pipeline model.
//!
//! The 68040's integer unit retires most integer instructions in one
//! effective clock, with no superscalar dispatch and no branch cache. Most
//! ALU and move instructions cost the one-clock occupancy that the 68060
//! opcode classifier gives them; data-dependent and unclassified costs
//! derive from the 68000 reference count as `(raw / 4).max(1)`; an indexed
//! effective address adds a clock; branches pay small static costs (there
//! is nothing to predict or fold). Exception entries keep the legacy
//! scaled costs.
//!
//! A taken DBcc is 3 clocks, so a one-clock-body loop costs the measured 4
//! clocks per iteration.

use vstd::prelude::*;
use crate::cpu::CpuCore;
use crate::timing_020::{legacy_fallback, legacy_fallback_spec};

verus! {

/// Taken Bcc/BRA/BSR: static pipeline refill, no prediction hardware.
pub const CYC_040_BRANCH_TAKEN: i32 = 3;
/// Not-taken conditional branch.
pub const CYC_040_BRANCH_NOT_TAKEN: i32 = 2;
/// Taken (looping) DBcc.
pub const CYC_040_DBCC_TAKEN: i32 = 3;
/// Expired (falling through) DBcc.
pub const CYC_040_DBCC_EXPIRED: i32 = 3;
/// Floor for JMP/JSR/RTS/RTE/RTR and other computed flow changes.
pub const CYC_040_FLOW_MIN: i32 = 4;
/// CINV/CPUSH: cache maintenance runs for around a dozen clocks.
pub const CYC_040_CACHE_OP: i32 = 12;

/// Classifier flag: a branch (Bcc, BRA, BSR or DBcc).
pub const F_BRANCH: u32 = 1;
/// Classifier flag: a DBcc.
pub const F_DBCC: u32 = 2;
/// Classifier flag: an indexed effective address.
pub const F_EA_INDEXED: u32 = 4;
/// Classifier flag: no class cost is known.
pub const F_UNCLASSIFIED: u32 = 8;
/// Classifier flag: the cost depends on the data.
pub const F_VARIABLE: u32 = 16;

/// The 68060 opcode classifier's verdict on an instruction: its flags and
/// its class cost in clocks.
#[derive(Debug, Clone, Copy, PartialEq, Eq, Structural)]
pub struct OpcodeClass {
    pub flags: u32,
    pub cycles: i32,
}

impl OpcodeClass {
    /// Whether the verdict carries `flag`.
    pub open spec fn has_spec(&self, flag: u32) -> bool {
        self.flags & flag != 0
    }

    /// Whether the verdict carries `flag`.
    pub fn has(&self, flag: u32) -> (r: bool)
        ensures
            r == self.has_spec(flag),
    {
        self.flags & flag != 0
    }
}

/// The 68040 rule of thumb for costs outside the class table: a 4-clock
/// 68000 register operation is 1 clock.
pub open spec fn fallback_spec(raw: i32) -> i32 {
    if raw / 4 > 1 {
        (raw / 4) as i32
    } else {
        1
    }
}

/// The 68040 rule of thumb for costs outside the class table.
pub fn fallback_cycles(raw: i32) -> (r: i32)
    requires
        raw >= -429_496_729,
    ensures
        r == fallback_spec(raw),
{
    let q = raw / 4;
    if q > 1 {
        q
    } else {
        1
    }
}

/// The multiply and divide opcodes, whose 68040 cost is iterative.
pub open spec fn is_muldiv_spec(op: u16) -> bool {
    let a = op & 0xF1C0;
    let b = op & 0xFFC0;
    a == 0xC0C0 || a == 0xC1C0 || a == 0x80C0 || a == 0x81C0 || b == 0x4C00 || b == 0x4C40
}

/// The 68040 cost of the instruction that just retired, given the
/// classifier's verdict on its opcode.
pub open spec fn cycles_040_spec(cpu: CpuCore, raw: i32, class: OpcodeClass) -> i32 {
    let op = cpu.ir as u16;
    if cpu.instruction_exception_vector is Some {
        legacy_fallback_spec(raw)
    } else if class.has_spec(F_BRANCH) {
        if class.has_spec(F_DBCC) {
            if cpu.pc != cpu.ppc.wrapping_add(4) {
                CYC_040_DBCC_TAKEN
            } else {
                CYC_040_DBCC_EXPIRED
            }
        } else if cpu.change_of_flow {
            CYC_040_BRANCH_TAKEN
        } else {
            CYC_040_BRANCH_NOT_TAKEN
        }
    } else if cpu.change_of_flow {
        if fallback_spec(raw) > CYC_040_FLOW_MIN {
            fallback_spec(raw)
        } else {
            CYC_040_FLOW_MIN
        }
    } else if op & 0xFF00 == 0xF400 {
        if fallback_spec(raw) > CYC_040_CACHE_OP {
            fallback_spec(raw)
        } else {
            CYC_040_CACHE_OP
        }
    } else {
        let base = if is_muldiv_spec(op) || class.has_spec(F_VARIABLE) || class.has_spec(F_UNCLASSIFIED) {
            fallback_spec(raw)
        } else {
            class.cycles
        };
        if class.has_spec(F_EA_INDEXED) {
            (base + 1) as i32
        } else {
            base
        }
    }
}

impl CpuCore {
    /// 68040 cycle cost of the instruction that just retired normally.
    /// `raw` is the handler's 68000-reference count, used for the
    /// data-dependent fallbacks; `class` is the 68060 classifier's verdict
    /// on the opcode. Exception entries keep the legacy scaled costs.
    pub fn cycles_040(&self, raw: i32, class: OpcodeClass) -> (r: i32)
        requires
            -429_496_729 <= raw <= 429_496_728,
            class.cycles < i32::MAX,
        ensures
            r == cycles_040_spec(*self, raw, class),
    {
        if self.instruction_exception_vector.is_some() {
            return legacy_fallback(raw);
        }
        let flowed = self.change_of_flow;
        if class.has(F_BRANCH) {
            let dbcc = class.has(F_DBCC);
            let taken = if dbcc {
                self.pc != self.ppc.wrapping_add(4)
            } else {
                flowed
            };
            return if dbcc && taken {
                CYC_040_DBCC_TAKEN
            } else if dbcc {
                CYC_040_DBCC_EXPIRED
            } else if taken {
                CYC_040_BRANCH_TAKEN
            } else {
                CYC_040_BRANCH_NOT_TAKEN
            };
        }
        if flowed {
            let f = fallback_cycles(raw);
            return if f > CYC_040_FLOW_MIN {
                f
            } else {
                CYC_040_FLOW_MIN
            };
        }
        let op = self.ir as u16;
        if op & 0xFF00 == 0xF400 {
            let f = fallback_cycles(raw);
            return if f > CYC_040_CACHE_OP {
                f
            } else {
                CYC_040_CACHE_OP
            };
        }
        let a = op & 0xF1C0;
        let b = op & 0xFFC0;
        let is_muldiv = a == 0xC0C0 || a == 0xC1C0 || a == 0x80C0 || a == 0x81C0 || b == 0x4C00 || b == 0x4C40;
        let cycles = if is_muldiv || class.has(F_VARIABLE) || class.has(F_UNCLASSIFIED) {
            fallback_cycles(raw)
        } else {
            class.cycles
        };
        if class.has(F_EA_INDEXED) {
            cycles + 1
        } else {
            cycles
        }
    }
}

/// A one-clock body plus a taken DBcc costs the measured four clocks per
/// iteration.
pub proof fn lemma_one_clock_loop(cpu: CpuCore, raw: i32, class: OpcodeClass)
    requires
        cpu.instruction_exception_vector is None,
        class.has_spec(F_BRANCH),
        class.has_spec(F_DBCC),
        cpu.pc != cpu.ppc.wrapping_add(4),
    ensures
        1 + cycles_040_spec(cpu, raw, class) == 4,
{
}

} // verus!
