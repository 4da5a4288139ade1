//! The CPU register file, condition codes and status register.

use vstd::prelude::*;
use crate::types::{CpuType, Size, size_mask, is_pre_68020_type, address_mask_of, cpu_is_pre_68020, cpu_address_mask};
use crate::op_cache::DecodedOpCacheEntry;

verus! {

/// Value of `c_flag`/`x_flag` when the carry/extend bit is set (bit 8).
pub const CFLAG_SET: u32 = 0x100;
/// Value of `x_flag` when the extend bit is set.
pub const XFLAG_SET: u32 = 0x100;
/// Value of `n_flag` when the negative bit is set (bit 7).
pub const NFLAG_SET: u32 = 0x80;
/// Value of `v_flag` when the overflow bit is set (bit 7).
pub const VFLAG_SET: u32 = 0x80;
/// Value of `s_flag` in supervisor mode.
pub const SFLAG_SET: u32 = 4;
/// Value of `m_flag` when the master stack is selected.
pub const MFLAG_SET: u32 = 2;

/// Normal instruction execution.
pub const RUN_MODE_NORMAL: u32 = 0;
/// A bus error, address error or reset is being processed: the current
/// instruction must stop touching state.
pub const RUN_MODE_BERR_AERR_RESET: u32 = 1;
/// `stopped` bit set by STOP.
pub const STOP_LEVEL_STOP: u32 = 1;
/// `stopped` bit set by a halting double fault.
pub const STOP_LEVEL_HALT: u32 = 2;

/// Number of entries of the decoded-operation cache.
pub const DECODED_OP_CACHE_SIZE: usize = 4096;

/// The architectural and micro-architectural state of one CPU.
///
/// Condition codes are kept unpacked: `n_flag` and `v_flag` test bit 7,
/// `c_flag` and `x_flag` test bit 8, and `not_z_flag` is non-zero exactly
/// when Z is clear.
pub struct CpuCore {
    /// D0-D7 followed by A0-A7.
    pub dar: [u32; 16],
    /// Stack-pointer bank indexed by `s_flag | ((s_flag >> 1) & m_flag)`:
    /// 0 = USP, 4 = ISP, 6 = MSP.
    pub sp: [u32; 7],
    /// Program counter: the address of the next word to be consumed.
    pub pc: u32,
    /// Address of the instruction being executed.
    pub ppc: u32,
    /// The opcode of the instruction being executed.
    pub ir: u32,
    /// Vector base register (68010+).
    pub vbr: u32,
    /// Source function code register.
    pub sfc: u32,
    /// Destination function code register.
    pub dfc: u32,
    /// Floating-point instruction address register.
    pub fpiar: u32,
    /// Trace-on-every-instruction bit (0 or 0x8000).
    pub t1_flag: u32,
    /// Trace-on-flow-change bit (0 or 0x4000).
    pub t0_flag: u32,
    /// Supervisor bit (0 or `SFLAG_SET`).
    pub s_flag: u32,
    /// Master bit (0 or `MFLAG_SET`).
    pub m_flag: u32,
    /// Extend flag, bit 8.
    pub x_flag: u32,
    /// Negative flag, bit 7.
    pub n_flag: u32,
    /// Zero flag, inverted: zero means Z set.
    pub not_z_flag: u32,
    /// Overflow flag, bit 7.
    pub v_flag: u32,
    /// Carry flag, bit 8.
    pub c_flag: u32,
    /// Interrupt priority mask, in SR position (bits 8-10).
    pub int_mask: u32,
    /// Pending interrupt level.
    pub int_level: u32,
    /// STOP/halt state bits.
    pub stopped: u32,
    /// Status register captured before the current instruction.
    pub sr_save: u16,
    /// The retiring instruction changed the flow of control.
    pub change_of_flow: bool,
    /// Instruction prefetch queue (68000/68010): `prefetch_queue[0]` is the
    /// word at `pc`.
    pub prefetch_queue: [u16; 2],
    /// Number of valid words in `prefetch_queue`.
    pub prefetch_count: u32,
    /// The next immediate word is consumed without its refill prefetch.
    pub consume_without_prefetch: bool,
    /// Internal clocks not yet reported to the bus.
    pub pending_sync_clocks: u32,
    /// The emulated model.
    pub cpu_type: CpuType,
    /// Mask applied to every address put on the bus.
    pub address_mask: u32,
    /// Writable status-register bits of the model.
    pub sr_mask: u16,
    /// `RUN_MODE_NORMAL` or `RUN_MODE_BERR_AERR_RESET`.
    pub run_mode: u32,
    /// Exception frame being written (double-fault detection).
    pub exception_processing: bool,
    /// Vector of an exception raised by the retiring instruction.
    pub instruction_exception_vector: Option<u32>,
    /// The model is a 68000, 68010 or SCC68070.
    pub is_pre_68020: bool,
    /// Reproduce the SingleStepTests fixtures' BCD and divide quirks.
    pub sst_m68000_compat: bool,
    /// Function code forced on the next data access (MOVES).
    pub mmu_fc_override: Option<u8>,
    /// Data of the last faulted write.
    pub pending_fault_wdata: u32,
    /// Cycle budget of the current run.
    pub cycles_remaining: i32,
    /// Recently recorded trace heads.
    pub trace_record_skip: [u32; 4],
    /// Next slot of `trace_record_skip` to replace.
    pub trace_record_skip_at: u32,
    /// Trace heads known not to compile.
    pub trace_probe_skip: [u32; 4],
    /// Next slot of `trace_probe_skip` to replace.
    pub trace_probe_skip_at: u32,
    /// Decoded-operation cache.
    pub decoded_op_cache: Vec<Option<DecodedOpCacheEntry>>,
    /// Guest address of the fast-memory window.
    pub fm_base: u32,
    /// Length of the fast-memory window (0: no window).
    pub fm_len: u32,
    /// Contents of the fast-memory window.
    pub fm_mem: Vec<u8>,
    /// The model has a paged memory-management unit.
    pub has_pmmu: bool,
    /// The memory-management unit translates addresses.
    pub pmmu_enabled: bool,
}

/// Index into the stack-pointer bank selected by the S and M bits.
pub open spec fn sp_index(s: u32, m: u32) -> u32 {
    (s & 4) | ((s >> 1) & m & 2)
}

/// The packed condition-code byte of the unpacked flags.
pub open spec fn ccr_of(x: u32, n: u32, not_z: u32, v: u32, c: u32) -> u8 {
    ((if x & 0x100 != 0 { 0x10u8 } else { 0u8 }) | (if n & 0x80 != 0 { 0x08u8 } else { 0u8 }) | (
    if not_z == 0 { 0x04u8 } else { 0u8 }) | (if v & 0x80 != 0 { 0x02u8 } else { 0u8 }) | (if c
        & 0x100 != 0 {
        0x01u8
    } else {
        0u8
    })) as u8
}

/// The packed status register of the unpacked state.
pub open spec fn sr_of(t1: u32, t0: u32, s: u32, m: u32, int_mask: u32, ccr: u8) -> u16 {
    ((t1 & 0x8000) | (t0 & 0x4000) | ((s & 4) << 11u32) | ((m & 2) << 11u32) | (int_mask & 0x0700)
        | (ccr as u32)) as u16
}

/// `new` is `old` after a bus access that only reported the pending
/// internal clocks to the bus.
pub open spec fn flushed(old: CpuCore, new: CpuCore) -> bool {
    new == (CpuCore { pending_sync_clocks: 0, ..old })
}

/// `a + b`, saturated at `u32::MAX`.
pub open spec fn sat_add(a: u32, b: u32) -> u32 {
    if a + b > u32::MAX {
        u32::MAX
    } else {
        (a + b) as u32
    }
}

/// Truth of condition code `cond` (0..15) for the given unpacked flags.
pub open spec fn condition_holds(cond: u8, n: u32, not_z: u32, v: u32, c: u32) -> bool {
    let cs = c & 0x100 != 0;
    let zs = not_z == 0;
    let vs = v & 0x80 != 0;
    let ns = n & 0x80 != 0;
    if cond == 0 {
        true
    } else if cond == 1 {
        false
    } else if cond == 2 {
        !cs && !zs
    } else if cond == 3 {
        cs || zs
    } else if cond == 4 {
        !cs
    } else if cond == 5 {
        cs
    } else if cond == 6 {
        !zs
    } else if cond == 7 {
        zs
    } else if cond == 8 {
        !vs
    } else if cond == 9 {
        vs
    } else if cond == 10 {
        !ns
    } else if cond == 11 {
        ns
    } else if cond == 12 {
        ns == vs
    } else if cond == 13 {
        ns != vs
    } else if cond == 14 {
        ns == vs && !zs
    } else {
        ns != vs || zs
    }
}

/// The SR mask of a model: the 68000/010 have no T0 or M bit.
pub open spec fn sr_mask_of(t: CpuType) -> u16 {
    if is_pre_68020_type(t) {
        0xA71Fu16
    } else {
        0xF71Fu16
    }
}

impl CpuCore {
    /// The CPU's packed condition-code register.
    pub open spec fn ccr(&self) -> u8 {
        ccr_of(self.x_flag, self.n_flag, self.not_z_flag, self.v_flag, self.c_flag)
    }

    /// The CPU's packed status register.
    pub open spec fn sr(&self) -> u16 {
        sr_of(self.t1_flag, self.t0_flag, self.s_flag, self.m_flag, self.int_mask, self.ccr())
    }

    /// Z flag.
    pub open spec fn z_set(&self) -> bool {
        self.not_z_flag == 0
    }

    /// Data register `reg`, as a value.
    pub open spec fn dreg(&self, reg: int) -> u32 {
        self.dar[reg]
    }

    /// Address register `reg`, as a value.
    pub open spec fn areg(&self, reg: int) -> u32 {
        self.dar[8 + reg]
    }

    /// A CPU in the reset state of a 68000: supervisor mode, interrupts
    /// masked, every register zero.
    pub fn new() -> (cpu: CpuCore)
        ensures
            cpu.cpu_type == CpuType::M68000,
            cpu.is_pre_68020,
            cpu.s_flag == SFLAG_SET,
            cpu.m_flag == 0,
            cpu.int_mask == 0x0700,
            cpu.pc == 0,
            cpu.prefetch_count == 0,
            cpu.pending_sync_clocks == 0,
            cpu.run_mode == RUN_MODE_NORMAL,
            cpu.address_mask == 0x00FF_FFFF,
            cpu.sr_mask == 0xA71F,
            cpu.fm_len == 0,
            cpu.decoded_op_cache@.len() == DECODED_OP_CACHE_SIZE,
            crate::op_cache::cache_wf(cpu),
            forall|i: int| 0 <= i < 16 ==> cpu.dar[i] == 0,
            !cpu.exception_processing,
            cpu.instruction_exception_vector.is_none(),
            cpu.sr() == 0x2700,
            forall|i: int| 0 <= i < 7 ==> cpu.sp[i] == 0,
            cpu.ppc == 0 && cpu.ir == 0 && cpu.vbr == 0 && cpu.sfc == 0 && cpu.dfc == 0 && cpu.fpiar == 0,
            cpu.t1_flag == 0 && cpu.t0_flag == 0,
            cpu.x_flag == 0 && cpu.n_flag == 0 && cpu.not_z_flag == 1 && cpu.v_flag == 0 && cpu.c_flag == 0,
            cpu.int_level == 0 && cpu.stopped == 0 && cpu.sr_save == 0x2700,
            !cpu.change_of_flow && !cpu.consume_without_prefetch && !cpu.sst_m68000_compat,
            cpu.prefetch_queue[0] == 0 && cpu.prefetch_queue[1] == 0,
            cpu.mmu_fc_override.is_none() && cpu.pending_fault_wdata == 0 && cpu.cycles_remaining == 0,
            forall|i: int| 0 <= i < 4 ==> cpu.trace_record_skip[i] == u32::MAX && cpu.trace_probe_skip[i] == u32::MAX,
            cpu.trace_record_skip_at == 0 && cpu.trace_probe_skip_at == 0,
            cpu.fm_base == 0 && cpu.fm_mem@.len() == 0,
            !cpu.has_pmmu && !cpu.pmmu_enabled,
    {
        let mut cache: Vec<Option<DecodedOpCacheEntry>> = Vec::new();
        let mut i: usize = 0;
        while i < DECODED_OP_CACHE_SIZE
            invariant
                i <= DECODED_OP_CACHE_SIZE,
                cache@.len() == i,
                forall|j: int| 0 <= j < i ==> #[trigger] cache@[j] is None,
            decreases DECODED_OP_CACHE_SIZE - i,
        {
            cache.push(None);
            i = i + 1;
        }
        let cpu = CpuCore {
            dar: [0u32; 16],
            sp: [0u32; 7],
            pc: 0,
            ppc: 0,
            ir: 0,
            vbr: 0,
            sfc: 0,
            dfc: 0,
            fpiar: 0,
            t1_flag: 0,
            t0_flag: 0,
            s_flag: SFLAG_SET,
            m_flag: 0,
            x_flag: 0,
            n_flag: 0,
            not_z_flag: 1,
            v_flag: 0,
            c_flag: 0,
            int_mask: 0x0700,
            int_level: 0,
            stopped: 0,
            sr_save: 0x2700,
            change_of_flow: false,
            prefetch_queue: [0u16; 2],
            prefetch_count: 0,
            consume_without_prefetch: false,
            pending_sync_clocks: 0,
            cpu_type: CpuType::M68000,
            address_mask: 0x00FF_FFFF,
            sr_mask: 0xA71F,
            run_mode: RUN_MODE_NORMAL,
            exception_processing: false,
            instruction_exception_vector: None,
            is_pre_68020: true,
            sst_m68000_compat: false,
            mmu_fc_override: None,
            pending_fault_wdata: 0,
            cycles_remaining: 0,
            trace_record_skip: [u32::MAX; 4],
            trace_record_skip_at: 0,
            trace_probe_skip: [u32::MAX; 4],
            trace_probe_skip_at: 0,
            decoded_op_cache: cache,
            fm_base: 0,
            fm_len: 0,
            fm_mem: Vec::new(),
            has_pmmu: false,
            pmmu_enabled: false,
        };
        proof {
            lemma_flag_constants();
        }
        cpu
    }

    /// Select the emulated model; the bus width, SR mask and the
    /// pre-68020 flag follow from it.
    pub fn set_cpu_type(&mut self, cpu_type: CpuType)
        ensures
            final(self).is_pre_68020 == is_pre_68020_type(cpu_type),
            final(self).address_mask == address_mask_of(cpu_type),
            final(self).sr_mask == sr_mask_of(cpu_type),
            *final(self) == (CpuCore {
                cpu_type,
                is_pre_68020: final(self).is_pre_68020,
                address_mask: final(self).address_mask,
                sr_mask: final(self).sr_mask,
                ..*old(self)
            }),
            final(self).sr() == old(self).sr(),
    {
        self.cpu_type = cpu_type;
        self.is_pre_68020 = cpu_is_pre_68020(cpu_type);
        self.address_mask = cpu_address_mask(cpu_type);
        self.sr_mask = if self.is_pre_68020 {
            0xA71F
        } else {
            0xF71F
        };
    }

    /// Data register `reg`.
    pub fn d(&self, reg: usize) -> (r: u32)
        requires
            reg < 8,
        ensures
            r == self.dar[reg as int],
    {
        self.dar[reg]
    }

    /// Address register `reg`.
    pub fn a(&self, reg: usize) -> (r: u32)
        requires
            reg < 8,
        ensures
            r == self.dar[8 + reg],
    {
        self.dar[8 + reg]
    }

    /// Set data register `reg`.
    pub fn set_d(&mut self, reg: usize, value: u32)
        requires
            reg < 8,
        ensures
            final(self).dar@ == old(self).dar@.update(reg as int, value),
            *final(self) == (CpuCore { dar: final(self).dar, ..*old(self) }),
    {
        self.dar[reg] = value;
    }

    /// Set address register `reg`.
    pub fn set_a(&mut self, reg: usize, value: u32)
        requires
            reg < 8,
        ensures
            final(self).dar@ == old(self).dar@.update(8 + reg as int, value),
            *final(self) == (CpuCore { dar: final(self).dar, ..*old(self) }),
    {
        self.dar[8 + reg] = value;
    }
}


/// Unpacking a condition-code byte into flags and packing it again keeps
/// its five defined bits.
pub proof fn lemma_ccr_roundtrip(v: u8)
    by (bit_vector)
    ensures
        ccr_of(
            ((v & 0x10) as u32) << 4u32,
            ((v & 0x08) as u32) << 4u32,
            if v & 0x04 != 0 { 0u32 } else { 1u32 },
            ((v & 0x02) as u32) << 6u32,
            ((v & 0x01) as u32) << 8u32,
        ) == v & 0x1F,
{
}

/// Unpacking a status-register word and packing it again keeps the bits
/// that the unpacked form stores.
pub proof fn lemma_sr_roundtrip(v: u16)
    by (bit_vector)
    ensures
        sr_of(
            (v as u32) & 0x8000,
            (v as u32) & 0x4000,
            ((v as u32) >> 11u32) & 4,
            ((v as u32) >> 11u32) & 2,
            (v as u32) & 0x0700,
            (v as u8) & 0x1F,
        ) == v & 0xF71F,
{
}

/// Values of the flag constants under the masks the status register uses.
pub proof fn lemma_flag_constants()
    by (bit_vector)
    ensures
        4u32 & 4u32 == 4u32,
        0u32 & 4u32 == 0u32,
        0u32 & 2u32 == 0u32,
        0x100u32 & 0x100u32 != 0u32,
        0x80u32 & 0x80u32 != 0u32,
        0u32 & 0x100u32 == 0u32,
        0u32 & 0x80u32 == 0u32,
        (4u32 & 4u32) | ((4u32 >> 1u32) & 0u32 & 2u32) == 4u32,
        (4u32 & 4u32) | ((4u32 >> 1u32) & 2u32 & 2u32) == 6u32,
        (0u32 & 4u32) | ((0u32 >> 1u32) & 0u32 & 2u32) == 0u32,
        forall|m: u32| #![trigger (m & 2u32)] (m & 2u32) & 2u32 == m & 2u32,
        ccr_of(0u32, 0u32, 1u32, 0u32, 0u32) == 0u8,
        sr_of(0u32, 0u32, 4u32, 0u32, 0x0700u32, 0u8) == 0x2700u16,
        0x2700u16 & 0xA71Fu16 & 0xF71Fu16 == 0x2700u16,
        0u32 & 0x80 == 0 && 0u32 & 0x8000 == 0 && 0u32 & 0x8000_0000 == 0 && 0u32 & 0xFF == 0
            && 0u32 & 0xFFFF == 0,
{
}

/// The stack-pointer bank index is one of 0, 2, 4, 6.
pub proof fn lemma_sp_index_bound(s: u32, m: u32)
    by (bit_vector)
    ensures
        sp_index(s, m) <= 6,
{
}

impl CpuCore {
    /// The packed condition-code register.
    pub fn get_ccr(&self) -> (r: u8)
        ensures
            r == self.ccr(),
    {
        let x: u8 = if self.x_flag & 0x100 != 0 { 0x10 } else { 0 };
        let n: u8 = if self.n_flag & 0x80 != 0 { 0x08 } else { 0 };
        let z: u8 = if self.not_z_flag == 0 { 0x04 } else { 0 };
        let v: u8 = if self.v_flag & 0x80 != 0 { 0x02 } else { 0 };
        let c: u8 = if self.c_flag & 0x100 != 0 { 0x01 } else { 0 };
        x | n | z | v | c
    }

    /// Load the condition codes from the low five bits of `value`.
    pub fn set_ccr(&mut self, value: u8)
        ensures
            final(self).x_flag == ((value & 0x10) as u32) << 4u32,
            final(self).n_flag == ((value & 0x08) as u32) << 4u32,
            final(self).not_z_flag == (if value & 0x04 != 0 { 0u32 } else { 1u32 }),
            final(self).v_flag == ((value & 0x02) as u32) << 6u32,
            final(self).c_flag == ((value & 0x01) as u32) << 8u32,
            final(self).ccr() == value & 0x1F,
            *final(self) == (CpuCore {
                x_flag: final(self).x_flag,
                n_flag: final(self).n_flag,
                not_z_flag: final(self).not_z_flag,
                v_flag: final(self).v_flag,
                c_flag: final(self).c_flag,
                ..*old(self)
            }),
    {
        self.x_flag = ((value & 0x10) as u32) << 4;
        self.n_flag = ((value & 0x08) as u32) << 4;
        self.not_z_flag = if value & 0x04 != 0 { 0 } else { 1 };
        self.v_flag = ((value & 0x02) as u32) << 6;
        self.c_flag = ((value & 0x01) as u32) << 8;
        proof {
            lemma_ccr_roundtrip(value);
        }
    }

    /// The packed status register.
    pub fn get_sr(&self) -> (r: u16)
        ensures
            r == self.sr(),
    {
        let ccr = self.get_ccr();
        ((self.t1_flag & 0x8000) | (self.t0_flag & 0x4000) | ((self.s_flag & 4) << 11) | ((
        self.m_flag & 2) << 11) | (self.int_mask & 0x0700) | (ccr as u32)) as u16
    }

    /// Change the S and M bits, switching A7 between the USP, ISP and MSP.
    pub fn set_sm_flag(&mut self, value: u32)
        ensures
            final(self).s_flag == value & 4,
            final(self).m_flag == value & 2,
            final(self).sp@ == old(self).sp@.update(
                sp_index(old(self).s_flag, old(self).m_flag) as int,
                old(self).dar[15],
            ),
            final(self).dar@ == old(self).dar@.update(
                15,
                final(self).sp[sp_index(value & 4, value & 2) as int],
            ),
            *final(self) == (CpuCore {
                s_flag: final(self).s_flag,
                m_flag: final(self).m_flag,
                sp: final(self).sp,
                dar: final(self).dar,
                ..*old(self)
            }),
    {
        proof {
            lemma_sp_index_bound(self.s_flag, self.m_flag);
            lemma_sp_index_bound(value & 4, value & 2);
        }
        let old_idx = ((self.s_flag & 4) | ((self.s_flag >> 1) & self.m_flag & 2)) as usize;
        self.sp[old_idx] = self.dar[15];
        self.s_flag = value & 4;
        self.m_flag = value & 2;
        let new_idx = ((self.s_flag & 4) | ((self.s_flag >> 1) & self.m_flag & 2)) as usize;
        self.dar[15] = self.sp[new_idx];
    }

    /// Change the S bit (keeping M), switching A7 to the selected stack.
    pub fn set_s_flag(&mut self, value: u32)
        ensures
            final(self).s_flag == value & 4,
            final(self).m_flag == old(self).m_flag & 2,
            final(self).sp@ == old(self).sp@.update(
                sp_index(old(self).s_flag, old(self).m_flag) as int,
                old(self).dar[15],
            ),
            final(self).dar@ == old(self).dar@.update(
                15,
                final(self).sp[sp_index(value & 4, old(self).m_flag & 2) as int],
            ),
            *final(self) == (CpuCore {
                s_flag: final(self).s_flag,
                m_flag: final(self).m_flag,
                sp: final(self).sp,
                dar: final(self).dar,
                ..*old(self)
            }),
    {
        let m = self.m_flag;
        self.set_sm_flag((value & 4) | (m & 2));
        proof {
            assert(((value & 4) | (m & 2)) & 4 == value & 4 && ((value & 4) | (m & 2)) & 2 == m & 2)
                by (bit_vector);
        }
    }

    /// Load the status register from `value`, keeping only the model's
    /// writable bits.
    pub fn set_sr(&mut self, value: u16)
        ensures
            final(self).sr() == value & old(self).sr_mask & 0xF71F,
            final(self).s_flag == ((value & old(self).sr_mask) as u32 >> 11u32) & 4,
            final(self).m_flag == ((value & old(self).sr_mask) as u32 >> 11u32) & 2,
            final(self).int_mask == ((value & old(self).sr_mask) as u32) & 0x0700,
            final(self).dar@ == old(self).dar@.update(
                15,
                final(self).sp[sp_index(final(self).s_flag, final(self).m_flag) as int],
            ),
            final(self).sp@ == old(self).sp@.update(
                sp_index(old(self).s_flag, old(self).m_flag) as int,
                old(self).dar[15],
            ),
            *final(self) == (CpuCore {
                t1_flag: final(self).t1_flag,
                t0_flag: final(self).t0_flag,
                int_mask: final(self).int_mask,
                x_flag: final(self).x_flag,
                n_flag: final(self).n_flag,
                not_z_flag: final(self).not_z_flag,
                v_flag: final(self).v_flag,
                c_flag: final(self).c_flag,
                s_flag: final(self).s_flag,
                m_flag: final(self).m_flag,
                sp: final(self).sp,
                dar: final(self).dar,
                ..*old(self)
            }),
    {
        let value = value & self.sr_mask;
        let v = value as u32;
        self.t1_flag = v & 0x8000;
        self.t0_flag = v & 0x4000;
        self.int_mask = v & 0x0700;
        self.set_ccr(value as u8);
        self.set_sm_flag((v >> 11) & 6);
        proof {
            lemma_sr_roundtrip(value);
            assert(((v >> 11u32) & 6) & 4 == (v >> 11u32) & 4 && ((v >> 11u32) & 6) & 2 == (v
                >> 11u32) & 2) by (bit_vector);
            assert((value as u8) & 0x1F == (value as u8) & 0x1F);
            assert(value & 0xF71F == value & 0xF71F);
        }
    }

    /// The CPU is in supervisor mode.
    pub fn is_supervisor(&self) -> (r: bool)
        ensures
            r == (self.s_flag & 4 != 0),
    {
        self.s_flag & 4 != 0
    }

    /// The Z flag.
    pub fn flag_z(&self) -> (r: bool)
        ensures
            r == (self.not_z_flag == 0),
    {
        self.not_z_flag == 0
    }

    /// Evaluate condition code `cond` (the four-bit Bcc/Scc/DBcc field).
    pub fn test_condition(&self, cond: u8) -> (r: bool)
        requires
            cond < 16,
        ensures
            r == condition_holds(cond, self.n_flag, self.not_z_flag, self.v_flag, self.c_flag),
    {
        let cs = self.c_flag & 0x100 != 0;
        let zs = self.not_z_flag == 0;
        let vs = self.v_flag & 0x80 != 0;
        let ns = self.n_flag & 0x80 != 0;
        match cond {
            0 => true,
            1 => false,
            2 => !cs && !zs,
            3 => cs || zs,
            4 => !cs,
            5 => cs,
            6 => !zs,
            7 => zs,
            8 => !vs,
            9 => vs,
            10 => !ns,
            11 => ns,
            12 => ns == vs,
            13 => ns != vs,
            14 => ns == vs && !zs,
            _ => ns != vs || zs,
        }
    }
}
} // verus!
