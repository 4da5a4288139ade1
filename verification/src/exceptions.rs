//! Exception processing: stack frames, vector fetch and trace decisions.

use vstd::prelude::*;
use crate::cpu::{CpuCore, SFLAG_SET, RUN_MODE_BERR_AERR_RESET, STOP_LEVEL_STOP, sp_index, sat_add};
use crate::fc;
use crate::fslw;
use crate::memory::{AddressBus, BusEvent};
use crate::mem_ops::{access_faults, lemma_even_steps, sync_events, vector_fetch_events};
use crate::types::{CpuType, Size, is_040_type};
use crate::vector;

verus! {

/// The MMU's reason for an access fault.
#[derive(Debug, Clone, Copy, PartialEq, Eq, Structural)]
pub enum MmuFaultCause {
    /// Invalid root-table descriptor.
    PointerA,
    /// Invalid pointer-table descriptor.
    PointerB,
    /// Invalid indirect descriptor.
    Indirect,
    /// Invalid page descriptor.
    PageFault,
    /// Write to a write-protected page.
    WriteProtect,
    /// User access to a supervisor page.
    SupervisorProtect,
    /// Bus error during the table walk.
    TableWalkBusError,
    /// Physical bus error on the access itself.
    AccessBusError,
}

/// FSLW bit of the cause of an access error.
pub open spec fn fslw_cause_bit(write: bool, cause: Option<MmuFaultCause>) -> u32 {
    match cause {
        Some(MmuFaultCause::PointerA) => fslw::PTA,
        Some(MmuFaultCause::PointerB) => fslw::PTB,
        Some(MmuFaultCause::Indirect) => fslw::IL,
        Some(MmuFaultCause::PageFault) => fslw::PF,
        Some(MmuFaultCause::WriteProtect) => fslw::WP,
        Some(MmuFaultCause::SupervisorProtect) => fslw::SP,
        Some(MmuFaultCause::TableWalkBusError) => fslw::TWE,
        _ => if write {
            fslw::WE
        } else {
            fslw::RE
        },
    }
}

/// FSLW size field of a transfer of `size` bytes (three bytes report as a
/// long: the bus has no three-byte encoding).
pub open spec fn fslw_size_bits(size: u32) -> u32 {
    if size == 1 {
        0x0020_0000u32
    } else if size == 2 {
        0x0040_0000u32
    } else {
        0u32
    }
}

/// The 68060 fault status long word of an access error.
pub open spec fn fslw_of(
    write: bool,
    instruction: bool,
    size: u32,
    fc: u16,
    cause: Option<MmuFaultCause>,
) -> u32 {
    (if write { fslw::RW_W } else { fslw::RW_R }) | fslw_size_bits(size) | (((fc & 7) as u32)
        << 16u32) | (if instruction { fslw::IO } else { 0u32 }) | fslw_cause_bit(write, cause)
}

/// Compose the 68060 FSLW for an access error.
pub fn fslw_060(
    write: bool,
    instruction: bool,
    size: u32,
    fc: u16,
    cause: Option<MmuFaultCause>,
) -> (r: u32)
    ensures
        r == fslw_of(write, instruction, size, fc, cause),
{
    let rw = if write {
        fslw::RW_W
    } else {
        fslw::RW_R
    };
    let sz: u32 = if size == 1 {
        0x0020_0000
    } else if size == 2 {
        0x0040_0000
    } else {
        0
    };
    let tm = ((fc & 7) as u32) << fslw::TM_SHIFT;
    let io = if instruction {
        fslw::IO
    } else {
        0
    };
    let why = match cause {
        Some(MmuFaultCause::PointerA) => fslw::PTA,
        Some(MmuFaultCause::PointerB) => fslw::PTB,
        Some(MmuFaultCause::Indirect) => fslw::IL,
        Some(MmuFaultCause::PageFault) => fslw::PF,
        Some(MmuFaultCause::WriteProtect) => fslw::WP,
        Some(MmuFaultCause::SupervisorProtect) => fslw::SP,
        Some(MmuFaultCause::TableWalkBusError) => fslw::TWE,
        _ => if write {
            fslw::WE
        } else {
            fslw::RE
        },
    };
    rw | sz | tm | io | why
}

/// Function code stacked for a fault in the given address space.
pub open spec fn fault_fc(supervisor: bool, instruction: bool) -> u16 {
    if supervisor {
        if instruction {
            fc::SUPERVISOR_PROGRAM
        } else {
            fc::SUPERVISOR_DATA
        }
    } else if instruction {
        fc::USER_PROGRAM
    } else {
        fc::USER_DATA
    }
}

/// Clocks of exception entry through `vector` on the 68000.
pub open spec fn exception_cycles_of(vector: u32) -> i32 {
    if vector == 0 || vector == 1 {
        40
    } else if vector == 2 || vector == 3 {
        50
    } else if vector == 4 {
        34
    } else if vector == 5 {
        38
    } else if vector == 6 {
        40
    } else if 24 <= vector <= 31 {
        44
    } else {
        34
    }
}

/// A7 once supervisor mode has been entered from state `cpu`.
pub open spec fn supervisor_sp(cpu: CpuCore) -> u32 {
    cpu.sp@.update(sp_index(cpu.s_flag, cpu.m_flag) as int, cpu.dar[15])[sp_index(
        4,
        cpu.m_flag & 2,
    ) as int]
}

/// `new` entered supervisor mode from `old` with tracing off, stacking a
/// frame of `frame` bytes below the supervisor stack pointer; D0-D7 and
/// A0-A6 are untouched.
pub open spec fn entered_exception(old: CpuCore, new: CpuCore, frame: u32) -> bool {
    &&& new.s_flag == 4
    &&& new.m_flag == old.m_flag & 2
    &&& new.t1_flag == 0
    &&& new.t0_flag == 0
    &&& new.dar[15] == sub_mod(supervisor_sp(old), frame)
    &&& forall|i: int| 0 <= i < 15 ==> new.dar[i] == old.dar[i]
}

/// `a - b` modulo 2^32.
pub open spec fn sub_mod(a: u32, b: u32) -> u32 {
    if a >= b {
        (a - b) as u32
    } else {
        (a - b + 0x1_0000_0000) as u32
    }
}

/// `new` differs from `old` only in the state an exception entry writes:
/// the mode bits, the stacks, the program counter and the prefetch queue.
pub open spec fn exception_frame_only(old: CpuCore, new: CpuCore) -> bool {
    new == (CpuCore {
        s_flag: new.s_flag,
        m_flag: new.m_flag,
        t1_flag: new.t1_flag,
        t0_flag: new.t0_flag,
        sp: new.sp,
        dar: new.dar,
        pc: new.pc,
        prefetch_queue: new.prefetch_queue,
        prefetch_count: new.prefetch_count,
        pending_sync_clocks: new.pending_sync_clocks,
        ..old
    })
}

/// `new` follows `old` by stack writes that may have raised an address
/// error: beyond the frame state, only supervisor entry, tracing off and an
/// aborted instruction can have happened; D0-D7 and A0-A6 are kept.
pub open spec fn frame_write(old: CpuCore, new: CpuCore) -> bool {
    &&& exception_frame_only(old, CpuCore { run_mode: old.run_mode, ..new })
    &&& new.s_flag == old.s_flag || new.s_flag == 4
    &&& new.t1_flag == old.t1_flag || new.t1_flag == 0
    &&& new.t0_flag == old.t0_flag || new.t0_flag == 0
    &&& new.run_mode == old.run_mode || new.run_mode == RUN_MODE_BERR_AERR_RESET
    &&& forall|i: int| 0 <= i < 15 ==> #[trigger] new.dar[i] == old.dar[i]
}

/// An address error was taken from `old`, aborting the instruction.
pub open spec fn address_error_taken(old: CpuCore, new: CpuCore) -> bool {
    &&& entered_exception(old, new, address_error_frame_bytes(old.cpu_type))
    &&& exception_frame_only(old, CpuCore { run_mode: old.run_mode, ..new })
    &&& new.run_mode == RUN_MODE_BERR_AERR_RESET
}

/// The access word of the 68000's address-error frame: the function code
/// of the faulting access (supervisor or user, program or data), bit 4 set
/// for a read, bit 3 set for a data access.
pub open spec fn address_error_status(sr: u16, write: bool, instruction: bool) -> u16 {
    let fcode: u16 = if sr & 0x2000 != 0 {
        if instruction {
            fc::SUPERVISOR_PROGRAM
        } else {
            fc::SUPERVISOR_DATA
        }
    } else if instruction {
        fc::USER_PROGRAM
    } else {
        fc::USER_DATA
    };
    fcode | (if write {
        0u16
    } else {
        0x10u16
    }) | (if instruction {
        0u16
    } else {
        0x08u16
    })
}

/// The 68000's address-error frame below `ssp`, in bus order: access
/// word, fault address, IR, SR, then the faulting instruction's PC at the
/// new top.
pub open spec fn ae_frame_68000_events(m: u32, ssp: u32, status: u16, address: u32, ir: u16, sr: u16, pc: u32) -> Seq<BusEvent> {
    let s1 = ssp.wrapping_sub(2);
    let s2 = s1.wrapping_sub(4);
    let s3 = s2.wrapping_sub(2);
    let s4 = s3.wrapping_sub(2);
    let s5 = s4.wrapping_sub(4);
    seq![
        BusEvent::WriteWord(s1 & m, status),
        BusEvent::WriteLong(s2 & m, address),
        BusEvent::WriteWord(s3 & m, ir),
        BusEvent::WriteWord(s4 & m, sr),
        BusEvent::WriteLong(s5 & m, pc),
    ]
}

/// The zero internal words of the 68010/68070 format-8 frame written
/// below `sp` (a reserved word is skipped after each of the first three).
pub open spec fn ae_internal_010_events(m: u32, sp: u32) -> Seq<BusEvent> {
    let s1 = sp.wrapping_sub(2);
    let s2 = s1.wrapping_sub(2).wrapping_sub(2);
    let s3 = s2.wrapping_sub(2).wrapping_sub(2);
    let s4 = s3.wrapping_sub(2).wrapping_sub(4);
    let s5 = s4.wrapping_sub(2);
    seq![
        BusEvent::WriteWord(s1 & m, 0),
        BusEvent::WriteWord(s2 & m, 0),
        BusEvent::WriteWord(s3 & m, 0),
        BusEvent::WriteLong(s4 & m, 0),
        BusEvent::WriteWord(s5 & m, 0),
    ]
}

/// Stack pointer below the internal words of the format-8 frame.
pub open spec fn ae_internal_010_sp(sp: u32) -> u32 {
    sp.wrapping_sub(2).wrapping_sub(2).wrapping_sub(2).wrapping_sub(2).wrapping_sub(2).wrapping_sub(2).wrapping_sub(
        4,
    ).wrapping_sub(2)
}

/// The 68010/68070 format-8 address-error frame below `ssp`, in bus order:
/// 32 reserved bytes left unwritten at the bottom of the 29 words, the
/// zero internal words, the format/vector word, the PC and the SR.
pub open spec fn ae_frame_010_events(m: u32, ssp: u32, vector: u32, sr: u16, pc: u32) -> Seq<BusEvent> {
    ae_internal_010_events(m, sub_mod(ssp, 32)) + raw_format0_events(
        m,
        ae_internal_010_sp(sub_mod(ssp, 32)),
        0x8000 | ((vector as u16) << 2u16),
        sr,
        pc,
    )
}

/// The 68040 format-2 address-error frame below `ssp`, in bus order: the
/// fault address (even), the format/vector word, the PC and the SR.
pub open spec fn ae_frame_040_events(m: u32, ssp: u32, address: u32, sr: u16, pc: u32) -> Seq<BusEvent> {
    let s1 = ssp.wrapping_sub(4);
    let s2 = s1.wrapping_sub(2);
    let s3 = s2.wrapping_sub(4);
    let s4 = s3.wrapping_sub(2);
    seq![
        BusEvent::WriteLong(s1 & m, address & !1u32),
        BusEvent::WriteWord(s2 & m, 0x2000 | ((vector::ADDRESS_ERROR as u16) << 2u16)),
        BusEvent::WriteLong(s3 & m, pc),
        BusEvent::WriteWord(s4 & m, sr),
    ]
}

/// A format-0 frame written with unchecked stores below `ssp`, in bus
/// order: the vector offset word, the PC and the SR.
pub open spec fn raw_format0_events(m: u32, ssp: u32, vec_word: u16, sr: u16, pc: u32) -> Seq<BusEvent> {
    let s1 = ssp.wrapping_sub(2);
    let s2 = s1.wrapping_sub(4);
    let s3 = s2.wrapping_sub(2);
    seq![
        BusEvent::WriteWord(s1 & m, vec_word),
        BusEvent::WriteLong(s2 & m, pc),
        BusEvent::WriteWord(s3 & m, sr),
    ]
}

/// The address-error frame each model writes from state `cpu`, below the
/// supervisor stack pointer, stacking the faulting instruction's PC.
pub open spec fn address_error_frame_events(cpu: CpuCore, address: u32, write: bool, instruction: bool) -> Seq<BusEvent> {
    let m = cpu.address_mask;
    let ssp = supervisor_sp(cpu);
    let sr = cpu.sr();
    if cpu.cpu_type == CpuType::M68000 {
        ae_frame_68000_events(m, ssp, address_error_status(sr, write, instruction), address, cpu.ir as u16, sr, cpu.ppc)
    } else if cpu.cpu_type == CpuType::M68010 || cpu.cpu_type == CpuType::SCC68070 {
        ae_frame_010_events(m, ssp, vector::ADDRESS_ERROR, sr, cpu.ppc)
    } else if is_040_type(cpu.cpu_type) {
        ae_frame_040_events(m, ssp, address, sr, cpu.ppc)
    } else {
        raw_format0_events(m, ssp, (vector::ADDRESS_ERROR as u16) << 2u16, sr, cpu.ppc)
    }
}

/// The function code a bus error stacks: the MMU's override when one is
/// pending, else that of the faulting access.
pub open spec fn bus_error_fcode(cpu: CpuCore, instruction: bool) -> u16 {
    match cpu.mmu_fc_override {
        Some(f) => f as u16,
        None => fault_fc(cpu.sr() & 0x2000 != 0, instruction),
    }
}

/// The access word of the 68000's bus-error frame.
pub open spec fn bus_error_status(cpu: CpuCore, write: bool, instruction: bool) -> u16 {
    bus_error_fcode(cpu, instruction) | (if write {
        0u16
    } else {
        0x10u16
    }) | (if instruction {
        0u16
    } else {
        0x08u16
    })
}

/// The bus-error frame of the 16-bit-bus models from state `cpu`, below
/// the supervisor stack pointer: the 68000's seven-word frame (access
/// word, fault address, IR, SR, PC), or the 68010/68070 format-8 frame.
pub open spec fn bus_error_frame_events_16(cpu: CpuCore, address: u32, write: bool, instruction: bool) -> Seq<BusEvent> {
    let m = cpu.address_mask;
    let ssp = supervisor_sp(cpu);
    if cpu.cpu_type == CpuType::M68000 {
        ae_frame_68000_events(m, ssp, bus_error_status(cpu, write, instruction), address, cpu.ir as u16, cpu.sr(), cpu.ppc)
    } else {
        ae_frame_010_events(m, ssp, vector::BUS_ERROR, cpu.sr(), cpu.ppc)
    }
}

/// The size bits of the 68040's SSW and writeback status for an access of
/// `size` bytes.
pub open spec fn size_bits_040(size: u32) -> u16 {
    if size == 1 {
        0x0020
    } else if size == 2 {
        0x0040
    } else {
        0x0000
    }
}

/// The 68040's format-7 access-error frame from state `cpu`, below the
/// supervisor stack pointer: a faulted write is reported in writeback
/// slot 3 (the data captured before the fault, the address and its
/// status); the SSW holds the read bit, the ATC-fault bit, the size bits
/// and the function code.
pub open spec fn bus_error_frame_events_040(
    cpu: CpuCore,
    address: u32,
    write: bool,
    instruction: bool,
    size: u32,
    cause: Option<MmuFaultCause>,
) -> Seq<BusEvent> {
    let fcode = bus_error_fcode(cpu, instruction);
    let sz = size_bits_040(size);
    let rw: u16 = if write {
        0
    } else {
        0x0100
    };
    let atc: u16 = if cause is Some {
        0x0400
    } else {
        0
    };
    let ssw = rw | atc | sz | (fcode & 0x7);
    let wb3s: u16 = if write {
        0x0080 | sz | (fcode & 0x7)
    } else {
        0
    };
    frame_040_events(
        cpu.address_mask,
        supervisor_sp(cpu),
        if write {
            cpu.pending_fault_wdata
        } else {
            0
        },
        if write {
            address
        } else {
            0
        },
        address,
        wb3s,
        ssw,
        cpu.ppc,
        cpu.sr(),
    )
}

/// The size bits of the 68020/68030 SSW for a data access of `size`
/// bytes.
pub open spec fn size_bits_030(size: u32) -> u16 {
    if size == 1 {
        0x0010
    } else if size == 2 {
        0x0020
    } else if size == 3 {
        0x0030
    } else {
        0x0000
    }
}

/// The 68020/68030 SSW: for a data fault, the function code, the DF bit,
/// the read bit and the size bits; for an instruction fault, the function
/// code with the stage-B fault and rerun bits.
pub open spec fn ssw_030(fcode: u16, write: bool, instruction: bool, size: u32) -> u16 {
    let fc = fcode & 0x7;
    if !instruction {
        let s1 = fc | 0x0100;
        let s2 = if !write {
            s1 | 0x0040
        } else {
            s1
        };
        s2 | size_bits_030(size)
    } else {
        fc | 0x4000 | 0x1000
    }
}

/// The 68020/68030 format-B bus-error frame from state `cpu`, below the
/// supervisor stack pointer: the stage-B address of an instruction fault,
/// the data of a faulted write, the address of a data fault, and the SSW.
pub open spec fn bus_error_frame_events_030(
    cpu: CpuCore,
    address: u32,
    write: bool,
    instruction: bool,
    size: u32,
) -> Seq<BusEvent> {
    frame_030_events(
        cpu.address_mask,
        supervisor_sp(cpu),
        if !instruction {
            0
        } else {
            address
        },
        if write {
            cpu.pending_fault_wdata
        } else {
            0
        },
        if !instruction {
            address
        } else {
            0
        },
        ssw_030(bus_error_fcode(cpu, instruction), write, instruction, size),
        cpu.ppc,
        cpu.sr(),
    )
}

/// Bytes of the address-error frame of each model.
pub open spec fn address_error_frame_bytes(t: CpuType) -> u32 {
    if t == CpuType::M68000 {
        14
    } else if t == CpuType::M68010 || t == CpuType::SCC68070 {
        58
    } else if is_040_type(t) {
        12
    } else {
        8
    }
}

/// Bytes of the bus-error frame of each model.
pub open spec fn bus_error_frame_bytes(t: CpuType) -> u32 {
    if t == CpuType::M68000 {
        14
    } else if t == CpuType::M68010 || t == CpuType::SCC68070 {
        58
    } else if t == CpuType::M68060 {
        16
    } else if is_040_type(t) {
        60
    } else {
        92
    }
}

/// Vectors whose exception stacks the address of the next instruction
/// rather than the faulting one.
/// The 68000's three-word frame written below `ssp`, in bus order: PC low
/// word at `ssp - 2`, SR at `ssp - 6`, PC high word at `ssp - 4`.
pub open spec fn frame_68000_events(mask: u32, ssp: u32, pc: u32, sr: u16) -> Seq<BusEvent> {
    let sp = ssp.wrapping_sub(6);
    seq![
        BusEvent::WriteWord(sp.wrapping_add(4) & mask, pc as u16),
        BusEvent::WriteWord(sp & mask, sr),
        BusEvent::WriteWord(sp.wrapping_add(2) & mask, (pc >> 16u32) as u16),
    ]
}

/// The format-0 frame of the 68010 and later written below `ssp`, in bus
/// order: the vector offset word, the PC, then the SR at the new top.
pub open spec fn frame_format0_events(mask: u32, ssp: u32, vector: u32, pc: u32, sr: u16) -> Seq<BusEvent> {
    seq![
        BusEvent::WriteWord(ssp.wrapping_sub(2) & mask, (vector as u16) << 2u16),
        BusEvent::WriteLong(ssp.wrapping_sub(2).wrapping_sub(4) & mask, pc),
        BusEvent::WriteWord(ssp.wrapping_sub(2).wrapping_sub(4).wrapping_sub(2) & mask, sr),
    ]
}

/// The format-2 frame of the 68020 and later written below `ssp`, in bus
/// order: the faulting instruction's address, the format/vector word, the
/// next PC, then the SR at the new top.
pub open spec fn frame_format2_events(mask: u32, ssp: u32, vector: u32, ppc: u32, pc: u32, sr: u16) -> Seq<BusEvent> {
    seq![
        BusEvent::WriteLong(ssp.wrapping_sub(4) & mask, ppc),
        BusEvent::WriteWord(ssp.wrapping_sub(4).wrapping_sub(2) & mask, 0x2000 | (((vector as u16) << 2u16) & 0x0FFF)),
        BusEvent::WriteLong(ssp.wrapping_sub(4).wrapping_sub(2).wrapping_sub(4) & mask, pc),
        BusEvent::WriteWord(ssp.wrapping_sub(4).wrapping_sub(2).wrapping_sub(4).wrapping_sub(2) & mask, sr),
    ]
}

/// The PC an exception through `vector` stacks: the next instruction's for
/// traps, trace and zero divide, the current instruction's otherwise.
pub open spec fn stacked_pc_of(cpu: CpuCore, vector: u32) -> u32 {
    if stacks_next_pc(vector) {
        cpu.pc
    } else {
        cpu.ppc
    }
}

pub open spec fn stacks_next_pc(vector: u32) -> bool {
    vector == vector::TRAPV || vector == vector::TRACE || vector == vector::ZERO_DIVIDE || (
    vector::TRAP_BASE <= vector < vector::TRAP_BASE + 16) || (24 <= vector <= 31)
}

/// Faults stack the address of the instruction that raised them, so that
/// it can be restarted or emulated: bus and address errors, illegal
/// instructions, privilege violations, the line-A and line-F emulators
/// and format errors stack the current instruction's address (`ppc`).
/// Traps, TRAPV, trace, zero divide and interrupts stack the address of
/// the next instruction (`pc`). The frame of a privilege violation holds
/// the faulting instruction's address, that of a trap the next one's; CHK
/// stacks the next instruction's address, with the faulting one's beside
/// it on the 68020 and later.
pub proof fn lemma_stacked_pc(cpu: CpuCore)
    ensures
        stacked_pc_of(cpu, vector::BUS_ERROR) == cpu.ppc,
        stacked_pc_of(cpu, vector::ADDRESS_ERROR) == cpu.ppc,
        stacked_pc_of(cpu, vector::ILLEGAL_INSTRUCTION) == cpu.ppc,
        stacked_pc_of(cpu, vector::PRIVILEGE_VIOLATION) == cpu.ppc,
        stacked_pc_of(cpu, vector::LINE_1010) == cpu.ppc,
        stacked_pc_of(cpu, vector::LINE_1111) == cpu.ppc,
        stacked_pc_of(cpu, vector::FORMAT_ERROR) == cpu.ppc,
        stacked_pc_of(cpu, vector::TRAPV) == cpu.pc,
        stacked_pc_of(cpu, vector::TRACE) == cpu.pc,
        stacked_pc_of(cpu, vector::ZERO_DIVIDE) == cpu.pc,
        forall|n: u32| n < 16 ==> #[trigger] stacked_pc_of(cpu, (vector::TRAP_BASE + n) as u32) == cpu.pc,
        forall|l: u32| 24 <= l <= 31 ==> #[trigger] stacked_pc_of(cpu, l) == cpu.pc,
        simple_frame_events(cpu, vector::PRIVILEGE_VIOLATION) == (if cpu.cpu_type == CpuType::M68000 {
            frame_68000_events(cpu.address_mask, supervisor_sp(cpu), cpu.ppc, cpu.sr())
        } else {
            frame_format0_events(cpu.address_mask, supervisor_sp(cpu), vector::PRIVILEGE_VIOLATION, cpu.ppc, cpu.sr())
        }),
        cpu.cpu_type == CpuType::M68000 ==> simple_frame_events(cpu, vector::TRAP_BASE) == frame_68000_events(
            cpu.address_mask,
            supervisor_sp(cpu),
            cpu.pc,
            cpu.sr(),
        ),
        cpu.cpu_type == CpuType::M68000 ==> group2_frame_events(cpu, vector::CHK) == frame_68000_events(
            cpu.address_mask,
            supervisor_sp(cpu),
            cpu.pc,
            cpu.sr(),
        ),
        cpu.cpu_type != CpuType::M68000 && cpu.cpu_type != CpuType::M68010 && cpu.cpu_type != CpuType::SCC68070
            ==> group2_frame_events(cpu, vector::CHK) == frame_format2_events(
            cpu.address_mask,
            supervisor_sp(cpu),
            vector::CHK,
            cpu.ppc,
            cpu.pc,
            cpu.sr(),
        ),
{
}

impl CpuCore {
    /// Whether the model is a 68040.
    pub fn is_040(&self) -> (r: bool)
        ensures
            r == is_040_type(self.cpu_type),
    {
        matches!(self.cpu_type, CpuType::M68EC040 | CpuType::M68LC040 | CpuType::M68040)
    }

    /// Whether the model is a 68060.
    pub fn is_060(&self) -> (r: bool)
        ensures
            r == (self.cpu_type == CpuType::M68060),
    {
        self.cpu_type == CpuType::M68060
    }

    /// Enter supervisor mode and turn tracing off, as every exception does.
    fn enter_supervisor(&mut self)
        ensures
            final(self).s_flag == 4,
            final(self).m_flag == old(self).m_flag & 2,
            final(self).t1_flag == 0,
            final(self).t0_flag == 0,
            final(self).dar[15] == supervisor_sp(*old(self)),
            forall|i: int| 0 <= i < 15 ==> final(self).dar[i] == old(self).dar[i],
            final(self).sp@ == old(self).sp@.update(
                sp_index(old(self).s_flag, old(self).m_flag) as int,
                old(self).dar[15],
            ),
            *final(self) == (CpuCore {
                s_flag: final(self).s_flag,
                m_flag: final(self).m_flag,
                sp: final(self).sp,
                dar: final(self).dar,
                t1_flag: 0,
                t0_flag: 0,
                ..*old(self)
            }),
    {
        self.set_s_flag(SFLAG_SET);
        self.t1_flag = 0;
        self.t0_flag = 0;
        proof {
            crate::cpu::lemma_flag_constants();
        }
    }

    /// Push the 68000's three-word exception frame in the bus order the
    /// hardware uses: PC low word first, then SR, then PC high word.
    pub fn push_exception_frame_68000<B: AddressBus>(
        &mut self,
        bus: &mut B,
        stacked_pc: u32,
        sr: u16,
    )
        ensures
            frame_write(*old(self), *final(self)),
            !access_faults(old(self).is_pre_68020, old(self).dar[15].wrapping_sub(6), Size::Word)
                ==> final(self).dar@ == old(self).dar@.update(15, old(self).dar[15].wrapping_sub(6))
                && *final(self) == (CpuCore {
                dar: final(self).dar,
                pending_sync_clocks: 0,
                ..*old(self)
            }) && final(bus).events() == old(bus).events() + sync_events(old(self).pending_sync_clocks)
                + frame_68000_events(old(self).address_mask, old(self).dar[15], stacked_pc, sr),
    {
        let sp = self.dar[15].wrapping_sub(6);
        self.dar[15] = sp;
        proof {
            assert(sp & 1 != 1 ==> sp.wrapping_add(4) & 1 != 1 && sp.wrapping_add(2) & 1 != 1)
                by (bit_vector);
        }
        self.write_16(bus, sp.wrapping_add(4), stacked_pc as u16);
        self.write_16(bus, sp, sr);
        self.write_16(bus, sp.wrapping_add(2), (stacked_pc >> 16u32) as u16);
    }

    /// Push the format-0 frame of the 68010 and later: the vector offset
    /// word, the stacked PC, then the SR.
    pub fn push_format0_frame<B: AddressBus>(&mut self, bus: &mut B, vector: u32, stacked_pc: u32, sr: u16)
        requires
            vector < 256,
        ensures
            frame_write(*old(self), *final(self)),
            !old(self).is_pre_68020 || old(self).dar[15] & 1 != 1 ==> {
                &&& final(self).dar@ == old(self).dar@.update(
                    15,
                    old(self).dar[15].wrapping_sub(2).wrapping_sub(4).wrapping_sub(2),
                )
                &&& *final(self) == (CpuCore { dar: final(self).dar, pending_sync_clocks: 0, ..*old(self) })
                &&& final(bus).events() == old(bus).events() + sync_events(old(self).pending_sync_clocks)
                    + frame_format0_events(old(self).address_mask, old(self).dar[15], vector, stacked_pc, sr)
            },
    {
        let ghost e0 = bus.events();
        let ghost sp = self.dar[15];
        proof {
            if self.is_pre_68020 && sp & 1 != 1 {
                lemma_even_steps(sp);
                lemma_even_steps(sp.wrapping_sub(2));
            }
            assert(sync_events(0) =~= Seq::<BusEvent>::empty());
        }
        self.push_16(bus, (vector as u16) << 2u16);
        self.push_32(bus, stacked_pc);
        self.push_16(bus, sr);
    }

    /// Push the format-2 frame of the 68020 and later: the faulting
    /// instruction's address, the format/vector word, the next PC, then the
    /// SR.
    pub fn push_format2_frame<B: AddressBus>(
        &mut self,
        bus: &mut B,
        vector: u32,
        fault_pc: u32,
        next_pc: u32,
        sr: u16,
    )
        requires
            vector < 256,
        ensures
            frame_write(*old(self), *final(self)),
            !old(self).is_pre_68020 || old(self).dar[15] & 1 != 1 ==> {
                &&& final(self).dar@ == old(self).dar@.update(
                    15,
                    old(self).dar[15].wrapping_sub(4).wrapping_sub(2).wrapping_sub(4).wrapping_sub(2),
                )
                &&& *final(self) == (CpuCore { dar: final(self).dar, pending_sync_clocks: 0, ..*old(self) })
                &&& final(bus).events() == old(bus).events() + sync_events(old(self).pending_sync_clocks)
                    + frame_format2_events(old(self).address_mask, old(self).dar[15], vector, fault_pc, next_pc, sr)
            },
    {
        let ghost sp = self.dar[15];
        proof {
            if self.is_pre_68020 && sp & 1 != 1 {
                lemma_even_steps(sp);
                lemma_even_steps(sp.wrapping_sub(4));
                lemma_even_steps(sp.wrapping_sub(4).wrapping_sub(2));
            }
            assert(sync_events(0) =~= Seq::<BusEvent>::empty());
        }
        let vec_word = (vector as u16) << 2u16;
        self.push_32(bus, fault_pc);
        self.push_16(bus, 0x2000 | (vec_word & 0x0FFF));
        self.push_32(bus, next_pc);
        self.push_16(bus, sr);
    }

    /// Clocks of exception entry through `vector`.
    pub fn exception_cycles(&self, vector: u32) -> (r: i32)
        ensures
            r == exception_cycles_of(vector),
    {
        match vector {
            0 | 1 => 40,
            2 | 3 => 50,
            4 => 34,
            5 => 38,
            6 => 40,
            24..=31 => 44,
            _ => 34,
        }
    }
}

impl CpuCore {
    /// Process an address error: stack the model's address-error frame on
    /// the supervisor stack with unchecked writes (the stack pointer may
    /// itself be odd) and jump through vector 3.
    #[verifier::rlimit(60)]
    #[verifier::spinoff_prover]
    pub fn exception_address_error<B: AddressBus>(
        &mut self,
        bus: &mut B,
        address: u32,
        write: bool,
        instruction: bool,
    ) -> (r: i32)
        ensures
            r == 50,
            entered_exception(*old(self), *final(self), address_error_frame_bytes(old(self).cpu_type)),
            exception_frame_only(*old(self), *final(self)),
            final(bus).events() == old(bus).events() + sync_events(old(self).pending_sync_clocks)
                + address_error_frame_events(*old(self), address, write, instruction) + vector_fetch_events(
                old(self).vbr,
                old(self).address_mask,
                old(self).is_pre_68020,
                *final(self),
                vector::ADDRESS_ERROR,
            ),
    {
        let old_sr = self.get_sr();
        let was_supervisor = (old_sr & 0x2000) != 0;
        self.enter_supervisor();
        let fcode: u16 = if was_supervisor {
            if instruction {
                fc::SUPERVISOR_PROGRAM
            } else {
                fc::SUPERVISOR_DATA
            }
        } else if instruction {
            fc::USER_PROGRAM
        } else {
            fc::USER_DATA
        };
        let status_word: u16 = fcode | (if write { 0 } else { 0x10 }) | (if instruction {
            0
        } else {
            0x08
        });
        let ghost base = self.dar[15];
        let ghost e0 = bus.events();
        proof {
            assert(base == supervisor_sp(*old(self)));
            assert(old_sr == old(self).sr());
            assert(status_word == address_error_status(old_sr, write, instruction));
            assert(sync_events(0) =~= Seq::<BusEvent>::empty());
        }
        match self.cpu_type {
            CpuType::M68000 => {
                let ir = self.ir as u16;
                let ppc = self.ppc;
                self.push_ae_frame_68000(bus, status_word, address, ir, old_sr, ppc);
            },
            CpuType::M68010 | CpuType::SCC68070 => {
                let ppc = self.ppc;
                self.push_ae_frame_010(bus, vector::ADDRESS_ERROR, old_sr, ppc);
            },
            CpuType::M68EC040 | CpuType::M68LC040 | CpuType::M68040 => {
                let ppc = self.ppc;
                self.push_ae_frame_040(bus, address, old_sr, ppc);
            },
            _ => {
                let ppc = self.ppc;
                self.push_raw_format0_frame(bus, (vector::ADDRESS_ERROR as u16) << 2, old_sr, ppc);
            },
        }
        proof {
            assert(bus.events() =~= e0 + sync_events(old(self).pending_sync_clocks) + address_error_frame_events(
                *old(self),
                address,
                write,
                instruction,
            ));
        }
        self.jump_vector(bus, vector::ADDRESS_ERROR);
        50
    }
}

impl CpuCore {
    /// Push the 68000's address-error frame with unchecked stores.
    fn push_ae_frame_68000<B: AddressBus>(
        &mut self,
        bus: &mut B,
        status: u16,
        address: u32,
        ir: u16,
        sr: u16,
        pc: u32,
    )
        ensures
            final(self).dar@ == old(self).dar@.update(
                15,
                old(self).dar[15].wrapping_sub(2).wrapping_sub(4).wrapping_sub(2).wrapping_sub(2).wrapping_sub(4),
            ),
            *final(self) == (CpuCore { dar: final(self).dar, pending_sync_clocks: 0, ..*old(self) }),
            final(bus).events() == old(bus).events() + sync_events(old(self).pending_sync_clocks)
                + ae_frame_68000_events(old(self).address_mask, old(self).dar[15], status, address, ir, sr, pc),
    {
        proof {
            assert(sync_events(0) =~= Seq::<BusEvent>::empty());
        }
        self.push_16_raw(bus, status);
        self.push_32_raw(bus, address);
        self.push_16_raw(bus, ir);
        self.push_16_raw(bus, sr);
        self.push_32_raw(bus, pc);
    }

    /// Push the 68010/68070 format-8 address-error frame with unchecked
    /// stores; its reserved words are skipped, not written.
    fn push_ae_frame_010<B: AddressBus>(&mut self, bus: &mut B, vector: u32, sr: u16, pc: u32)
        requires
            vector < 256,
        ensures
            final(self).dar[15] == ae_internal_010_sp(sub_mod(old(self).dar[15], 32)).wrapping_sub(2).wrapping_sub(
                4,
            ).wrapping_sub(2),
            forall|k: int| 0 <= k < 15 ==> final(self).dar[k] == old(self).dar[k],
            *final(self) == (CpuCore { dar: final(self).dar, pending_sync_clocks: 0, ..*old(self) }),
            final(bus).events() == old(bus).events() + sync_events(old(self).pending_sync_clocks)
                + ae_frame_010_events(old(self).address_mask, old(self).dar[15], vector, sr, pc),
    {
        let ghost base = self.dar[15];
        let mut i: u32 = 0;
        while i < 8
            invariant
                i <= 8,
                self.dar[15] == sub_mod(base, (4 * i) as u32),
                forall|k: int| 0 <= k < 15 ==> self.dar[k] == old(self).dar[k],
                *self == (CpuCore { dar: self.dar, ..*old(self) }),
                base == old(self).dar[15],
                bus.events() == old(bus).events(),
            decreases 8 - i,
        {
            self.fake_push_32_raw();
            i = i + 1;
        }
        proof {
            assert(sync_events(0) =~= Seq::<BusEvent>::empty());
        }
        self.push_ae_internal_010(bus);
        self.push_raw_format0_frame(bus, 0x8000 | ((vector as u16) << 2), sr, pc);
    }

    /// Push the zero internal words of the format-8 frame, skipping the
    /// reserved ones.
    fn push_ae_internal_010<B: AddressBus>(&mut self, bus: &mut B)
        ensures
            final(self).dar[15] == ae_internal_010_sp(old(self).dar[15]),
            forall|k: int| 0 <= k < 15 ==> final(self).dar[k] == old(self).dar[k],
            *final(self) == (CpuCore { dar: final(self).dar, pending_sync_clocks: 0, ..*old(self) }),
            final(bus).events() == old(bus).events() + sync_events(old(self).pending_sync_clocks)
                + ae_internal_010_events(old(self).address_mask, old(self).dar[15]),
    {
        proof {
            assert(sync_events(0) =~= Seq::<BusEvent>::empty());
        }
        self.push_16_raw(bus, 0);
        self.fake_push_16_raw();
        self.push_16_raw(bus, 0);
        self.fake_push_16_raw();
        self.push_16_raw(bus, 0);
        self.fake_push_16_raw();
        self.push_32_raw(bus, 0);
        self.push_16_raw(bus, 0);
    }

    /// Push the 68040 format-2 address-error frame with unchecked stores.
    fn push_ae_frame_040<B: AddressBus>(&mut self, bus: &mut B, address: u32, sr: u16, pc: u32)
        ensures
            final(self).dar@ == old(self).dar@.update(
                15,
                old(self).dar[15].wrapping_sub(4).wrapping_sub(2).wrapping_sub(4).wrapping_sub(2),
            ),
            *final(self) == (CpuCore { dar: final(self).dar, pending_sync_clocks: 0, ..*old(self) }),
            final(bus).events() == old(bus).events() + sync_events(old(self).pending_sync_clocks)
                + ae_frame_040_events(old(self).address_mask, old(self).dar[15], address, sr, pc),
    {
        proof {
            assert(sync_events(0) =~= Seq::<BusEvent>::empty());
        }
        self.push_32_raw(bus, address & !1u32);
        self.push_16_raw(bus, 0x2000 | ((vector::ADDRESS_ERROR as u16) << 2));
        self.push_32_raw(bus, pc);
        self.push_16_raw(bus, sr);
    }

    /// Push a format-0 frame with unchecked stores.
    fn push_raw_format0_frame<B: AddressBus>(&mut self, bus: &mut B, vec_word: u16, sr: u16, pc: u32)
        ensures
            final(self).dar@ == old(self).dar@.update(
                15,
                old(self).dar[15].wrapping_sub(2).wrapping_sub(4).wrapping_sub(2),
            ),
            *final(self) == (CpuCore { dar: final(self).dar, pending_sync_clocks: 0, ..*old(self) }),
            final(bus).events() == old(bus).events() + sync_events(old(self).pending_sync_clocks)
                + raw_format0_events(old(self).address_mask, old(self).dar[15], vec_word, sr, pc),
    {
        proof {
            assert(sync_events(0) =~= Seq::<BusEvent>::empty());
        }
        self.push_16_raw(bus, vec_word);
        self.push_32_raw(bus, pc);
        self.push_16_raw(bus, sr);
    }
}

/// Bytes of the frame that `take_exception` stacks on each model.
pub open spec fn simple_frame_bytes(t: CpuType) -> u32 {
    if t == CpuType::M68000 {
        6
    } else {
        8
    }
}

/// Bytes of the group-2 frame on each model.
pub open spec fn group2_frame_bytes(t: CpuType) -> u32 {
    if t == CpuType::M68000 {
        6
    } else if t == CpuType::M68010 || t == CpuType::SCC68070 {
        8
    } else {
        12
    }
}

/// The frame `take_exception` writes for `vector` from state `cpu`.
pub open spec fn simple_frame_events(cpu: CpuCore, vector: u32) -> Seq<BusEvent> {
    if cpu.cpu_type == CpuType::M68000 {
        frame_68000_events(cpu.address_mask, supervisor_sp(cpu), stacked_pc_of(cpu, vector), cpu.sr())
    } else {
        frame_format0_events(cpu.address_mask, supervisor_sp(cpu), vector, stacked_pc_of(cpu, vector), cpu.sr())
    }
}

/// The frame `take_group2_exception` writes for `vector` from state `cpu`:
/// the next instruction's address, with the faulting instruction's address
/// too on the 68020 and later.
pub open spec fn group2_frame_events(cpu: CpuCore, vector: u32) -> Seq<BusEvent> {
    if cpu.cpu_type == CpuType::M68000 {
        frame_68000_events(cpu.address_mask, supervisor_sp(cpu), cpu.pc, cpu.sr())
    } else if cpu.cpu_type == CpuType::M68010 || cpu.cpu_type == CpuType::SCC68070 {
        frame_format0_events(cpu.address_mask, supervisor_sp(cpu), vector, cpu.pc, cpu.sr())
    } else {
        frame_format2_events(cpu.address_mask, supervisor_sp(cpu), vector, cpu.ppc, cpu.pc, cpu.sr())
    }
}

/// Entry from `old` through `vector` with the format-0 frame of
/// `take_exception`: four internal clocks are reported, the frame is
/// written below the supervisor stack pointer, the handler address is read
/// from the vector table into the PC, and the stack pointer drops by the
/// frame's size; beyond the frame state nothing changes.
pub open spec fn simple_entry(
    old: CpuCore,
    new: CpuCore,
    before: Seq<BusEvent>,
    after: Seq<BusEvent>,
    vector: u32,
) -> bool {
    &&& entered_exception(old, new, simple_frame_bytes(old.cpu_type))
    &&& exception_frame_only(old, new)
    &&& entry_settled(old, new)
    &&& after == before + sync_events(sat_add(old.pending_sync_clocks, 4)) + simple_frame_events(old, vector)
        + vector_fetch_events(old.vbr, old.address_mask, old.is_pre_68020, new, vector)
}

/// What an exception entry from `old` leaves behind beyond the frame: the
/// stack pointer that was active is banked, no internal clocks are pending,
/// and the 16-bit-bus models hold a full prefetch queue while the others
/// keep theirs.
pub open spec fn entry_settled(old: CpuCore, new: CpuCore) -> bool {
    &&& new.sp@ == old.sp@.update(sp_index(old.s_flag, old.m_flag) as int, old.dar[15])
    &&& new.pending_sync_clocks == 0
    &&& if old.is_pre_68020 {
        new.prefetch_count == 2
    } else {
        new.prefetch_queue == old.prefetch_queue && new.prefetch_count == old.prefetch_count
    }
}

/// An exception entry is fixed by the state it starts from and what the
/// bus answered: two entries through the same vector from the same state,
/// whose bus logs agree, end in the same state. TRAP #n entered through
/// `trap` or through `take_trap_exception` therefore gives the same result
/// on the same machine, the stacked PC being the PC on entry in both.
pub proof fn lemma_simple_entry_determined(
    old: CpuCore,
    a: CpuCore,
    b: CpuCore,
    before: Seq<BusEvent>,
    after: Seq<BusEvent>,
    vector: u32,
)
    requires
        simple_entry(old, a, before, after, vector),
        simple_entry(old, b, before, after, vector),
    ensures
        a == b,
{
    let head = before + sync_events(sat_add(old.pending_sync_clocks, 4)) + simple_frame_events(old, vector);
    let fa = vector_fetch_events(old.vbr, old.address_mask, old.is_pre_68020, a, vector);
    let fb = vector_fetch_events(old.vbr, old.address_mask, old.is_pre_68020, b, vector);
    assert(fa =~= after.subrange(head.len() as int, after.len() as int));
    assert(fb =~= after.subrange(head.len() as int, after.len() as int));
    assert(fa[0] == fb[0]);
    assert(a.pc == b.pc);
    if old.is_pre_68020 {
        assert(fa[1] == fb[1] && fa[2] == fb[2]);
        assert(a.prefetch_queue =~= b.prefetch_queue);
    }
    assert(a.dar =~= b.dar);
    assert(a.sp@ =~= b.sp@);
    assert(a.sp =~= b.sp);
}

/// Entry from `old` through `vector` with the group-2 frame of
/// `take_group2_exception`, `clocks` internal clocks being pending; beyond
/// the frame state only the STOP state may change (the trace exception
/// ends it).
pub open spec fn group2_entry(
    old: CpuCore,
    new: CpuCore,
    before: Seq<BusEvent>,
    after: Seq<BusEvent>,
    vector: u32,
    clocks: u32,
) -> bool {
    &&& entered_exception(old, new, group2_frame_bytes(old.cpu_type))
    &&& exception_frame_only(old, CpuCore { stopped: old.stopped, ..new })
    &&& after == before + sync_events(clocks) + group2_frame_events(old, vector)
        + vector_fetch_events(old.vbr, old.address_mask, old.is_pre_68020, new, vector)
}

/// The supervisor stack can take a frame without an address error.
pub open spec fn stack_usable(cpu: CpuCore) -> bool {
    !cpu.is_pre_68020 || supervisor_sp(cpu) & 1 != 1
}

impl CpuCore {
    /// Common exception processing with a format-0 frame (SR, PC and, from
    /// the 68010, the vector offset). An exception raised while a frame is
    /// being written halts the CPU (double fault).
    #[verifier::spinoff_prover]
    pub fn take_exception<B: AddressBus>(&mut self, bus: &mut B, vector: u32) -> (r: i32)
        requires
            vector < 256,
        ensures
            old(self).exception_processing ==> r == 0 && *final(self) == (CpuCore {
                stopped: 1,
                run_mode: RUN_MODE_BERR_AERR_RESET,
                ..*old(self)
            }),
            old(self).exception_processing ==> final(bus).events() == old(bus).events(),
            !old(self).exception_processing ==> r == exception_cycles_of(vector) && !final(
                self).exception_processing && final(self).s_flag == 4 && final(self).t1_flag == 0
                && final(self).t0_flag == 0 && final(self).cpu_type == old(self).cpu_type,
            !old(self).exception_processing ==> frame_write(*old(self), *final(self)),
            !old(self).exception_processing && stack_usable(*old(self)) ==> entered_exception(
                *old(self),
                *final(self),
                simple_frame_bytes(old(self).cpu_type),
            ) && final(self).run_mode == old(self).run_mode,
            !old(self).exception_processing && stack_usable(*old(self)) ==> final(bus).events()
                == old(bus).events() + sync_events(sat_add(old(self).pending_sync_clocks, 4)) + simple_frame_events(
                *old(self),
                vector,
            ) + vector_fetch_events(old(self).vbr, old(self).address_mask, old(self).is_pre_68020, *final(self), vector),
            !old(self).exception_processing && stack_usable(*old(self)) ==> entry_settled(*old(self), *final(self)),
    {
        if self.exception_processing {
            self.stopped = 1;
            self.run_mode = RUN_MODE_BERR_AERR_RESET;
            return 0;
        }
        let ghost e0 = bus.events();
        self.exception_processing = true;
        self.internal_cycles(4);
        let ghost p1 = self.pending_sync_clocks;
        let old_sr = self.get_sr();
        self.enter_supervisor();
        let stacked_pc = if vector == vector::TRAPV || vector == vector::TRACE || vector
            == vector::ZERO_DIVIDE || (vector::TRAP_BASE <= vector && vector < vector::TRAP_BASE
            + 16) || (24 <= vector && vector <= 31) {
            self.pc
        } else {
            self.ppc
        };
        let ghost ssp = self.dar[15];
        proof {
            if self.is_pre_68020 && ssp & 1 != 1 {
                lemma_even_steps(ssp);
                lemma_even_steps(ssp.wrapping_sub(2));
            }
        }
        let ghost m = self.address_mask;
        proof {
            assert(ssp == supervisor_sp(*old(self)));
            assert(old_sr == old(self).sr());
            assert(stacked_pc == stacked_pc_of(*old(self), vector));
            assert(m == old(self).address_mask);
            assert(sync_events(0) =~= Seq::<BusEvent>::empty());
        }
        if self.cpu_type == CpuType::M68000 {
            self.push_exception_frame_68000(bus, stacked_pc, old_sr);
            proof {
                if stack_usable(*old(self)) {
                    assert(bus.events() =~= e0 + sync_events(p1) + frame_68000_events(m, ssp, stacked_pc, old_sr));
                }
            }
        } else {
            self.push_format0_frame(bus, vector, stacked_pc, old_sr);
        }
        proof {
            if stack_usable(*old(self)) {
                assert(bus.events() =~= e0 + sync_events(p1) + simple_frame_events(*old(self), vector));
            }
        }
        let ghost e3 = bus.events();
        let ghost s3 = *self;
        self.jump_vector(bus, vector);
        proof {
            if stack_usable(*old(self)) {
                assert(s3.vbr == old(self).vbr && s3.address_mask == old(self).address_mask
                    && s3.is_pre_68020 == old(self).is_pre_68020 && s3.pending_sync_clocks == 0);
                assert(bus.events() =~= e3 + vector_fetch_events(old(self).vbr, old(self).address_mask, old(self).is_pre_68020, *self, vector));
            }
        }
        self.exception_processing = false;
        self.exception_cycles(vector)
    }

    /// Group-2 instruction exceptions (CHK/CHK2, TRAPcc/TRAPV, zero divide,
    /// trace): the next instruction's address is stacked, and the 68020+
    /// add the faulting instruction's address in a six-word format-2 frame.
    #[verifier::spinoff_prover]
    pub fn take_group2_exception<B: AddressBus>(&mut self, bus: &mut B, vector: u32) -> (r: i32)
        requires
            vector < 256,
        ensures
            r == exception_cycles_of(vector),
            final(self).s_flag == 4,
            final(self).t1_flag == 0,
            final(self).t0_flag == 0,
            final(self).cpu_type == old(self).cpu_type,
            final(self).exception_processing == old(self).exception_processing,
            final(self).stopped == old(self).stopped,
            frame_write(*old(self), *final(self)),
            stack_usable(*old(self)) ==> entered_exception(
                *old(self),
                *final(self),
                group2_frame_bytes(old(self).cpu_type),
            ) && final(self).run_mode == old(self).run_mode,
            stack_usable(*old(self)) ==> final(bus).events() == old(bus).events() + sync_events(
                old(self).pending_sync_clocks,
            ) + group2_frame_events(*old(self), vector) + vector_fetch_events(old(self).vbr, old(self).address_mask, old(self).is_pre_68020, *final(self), vector),
    {
        let ghost e0 = bus.events();
        let old_sr = self.get_sr();
        self.enter_supervisor();
        let next_pc = self.pc;
        let ghost ssp = self.dar[15];
        proof {
            if self.is_pre_68020 && ssp & 1 != 1 {
                lemma_even_steps(ssp);
                lemma_even_steps(ssp.wrapping_sub(2));
                lemma_even_steps(ssp.wrapping_sub(4));
            }
        }
        let ghost m = self.address_mask;
        let ghost p0 = self.pending_sync_clocks;
        proof {
            assert(ssp == supervisor_sp(*old(self)));
            assert(old_sr == old(self).sr());
            assert(next_pc == old(self).pc);
            assert(m == old(self).address_mask);
            assert(p0 == old(self).pending_sync_clocks);
            assert(sync_events(0) =~= Seq::<BusEvent>::empty());
        }
        match self.cpu_type {
            CpuType::M68000 => {
                self.push_exception_frame_68000(bus, next_pc, old_sr);
                proof {
                    if stack_usable(*old(self)) {
                        assert(bus.events() =~= e0 + sync_events(p0) + frame_68000_events(m, ssp, next_pc, old_sr));
                    }
                }
            },
            CpuType::M68010 | CpuType::SCC68070 => {
                self.push_format0_frame(bus, vector, next_pc, old_sr);
            },
            _ => {
                let ppc = self.ppc;
                self.push_format2_frame(bus, vector, ppc, next_pc, old_sr);
            },
        }
        proof {
            if stack_usable(*old(self)) {
                assert(bus.events() =~= e0 + sync_events(p0) + group2_frame_events(*old(self), vector));
            }
        }
        let ghost e3 = bus.events();
        let ghost s3 = *self;
        self.jump_vector(bus, vector);
        proof {
            if stack_usable(*old(self)) {
                assert(s3.vbr == old(self).vbr && s3.address_mask == old(self).address_mask
                    && s3.is_pre_68020 == old(self).is_pre_68020 && s3.pending_sync_clocks == 0);
                assert(sync_events(s3.pending_sync_clocks) =~= Seq::<BusEvent>::empty());
                assert(bus.events() =~= e3 + vector_fetch_events(old(self).vbr, old(self).address_mask, old(self).is_pre_68020, *self, vector));
            }
        }
        self.exception_cycles(vector)
    }

    /// TRAP #n: exception through vector 32 + n, stacking the next
    /// instruction's address.
    pub fn trap<B: AddressBus>(&mut self, bus: &mut B, trap_num: u8) -> (r: i32)
        ensures
            !old(self).exception_processing ==> r == 34 && final(self).s_flag == 4,
            !old(self).exception_processing && stack_usable(*old(self)) ==> entered_exception(
                *old(self),
                *final(self),
                simple_frame_bytes(old(self).cpu_type),
            ),
            !old(self).exception_processing && stack_usable(*old(self)) ==> simple_entry(
                *old(self),
                *final(self),
                old(bus).events(),
                final(bus).events(),
                (vector::TRAP_BASE + (trap_num & 0xF) as u32) as u32,
            ),
            old(self).exception_processing ==> r == 0 && *final(self) == (CpuCore {
                stopped: 1,
                run_mode: RUN_MODE_BERR_AERR_RESET,
                ..*old(self)
            }) && final(bus).events() == old(bus).events(),
    {
        let v = vector::TRAP_BASE + (trap_num & 0xF) as u32;
        proof {
            assert((trap_num & 0xF) <= 15) by (bit_vector);
        }
        self.take_exception(bus, v)
    }

    /// CHK exception (vector 6).
    pub fn exception_chk<B: AddressBus>(&mut self, bus: &mut B) -> (r: i32)
        ensures
            r == 40,
            final(self).s_flag == 4,
            final(self).cpu_type == old(self).cpu_type,
            frame_write(*old(self), *final(self)),
            final(self).exception_processing == old(self).exception_processing,
            stack_usable(*old(self)) ==> entered_exception(
                *old(self),
                *final(self),
                group2_frame_bytes(old(self).cpu_type),
            ) && final(self).run_mode == old(self).run_mode,
            stack_usable(*old(self)) ==> group2_entry(
                *old(self),
                *final(self),
                old(bus).events(),
                final(bus).events(),
                vector::CHK,
                old(self).pending_sync_clocks,
            ),
    {
        self.take_group2_exception(bus, vector::CHK)
    }

    /// Integer divide-by-zero exception (vector 5).
    pub fn exception_zero_divide<B: AddressBus>(&mut self, bus: &mut B) -> (r: i32)
        ensures
            r == 38,
            final(self).s_flag == 4,
            final(self).cpu_type == old(self).cpu_type,
            frame_write(*old(self), *final(self)),
            final(self).exception_processing == old(self).exception_processing,
            stack_usable(*old(self)) ==> entered_exception(
                *old(self),
                *final(self),
                group2_frame_bytes(old(self).cpu_type),
            ) && final(self).run_mode == old(self).run_mode,
            stack_usable(*old(self)) ==> group2_entry(
                *old(self),
                *final(self),
                old(bus).events(),
                final(bus).events(),
                vector::ZERO_DIVIDE,
                old(self).pending_sync_clocks,
            ),
    {
        self.take_group2_exception(bus, vector::ZERO_DIVIDE)
    }

    /// Privilege-violation exception (vector 8).
    pub fn exception_privilege<B: AddressBus>(&mut self, bus: &mut B) -> (r: i32)
        ensures
            !old(self).exception_processing ==> r == 34 && final(self).s_flag == 4,
            !old(self).exception_processing && stack_usable(*old(self)) ==> entered_exception(
                *old(self),
                *final(self),
                simple_frame_bytes(old(self).cpu_type),
            ),
            !old(self).exception_processing && stack_usable(*old(self)) ==> simple_entry(
                *old(self),
                *final(self),
                old(bus).events(),
                final(bus).events(),
                vector::PRIVILEGE_VIOLATION,
            ),
            old(self).exception_processing ==> r == 0,
    {
        self.take_exception(bus, vector::PRIVILEGE_VIOLATION)
    }

    /// Trace exception (vector 9). A pending trace also ends the STOP
    /// state; four internal clocks precede the first stack write.
    pub fn exception_trace<B: AddressBus>(&mut self, bus: &mut B) -> (r: i32)
        ensures
            r == 34,
            final(self).s_flag == 4,
            final(self).stopped == old(self).stopped & !STOP_LEVEL_STOP,
            final(self).cpu_type == old(self).cpu_type,
            final(self).t1_flag == 0,
            final(self).t0_flag == 0,
            final(self).exception_processing == old(self).exception_processing,
            stack_usable(*old(self)) ==> group2_entry(
                *old(self),
                *final(self),
                old(bus).events(),
                final(bus).events(),
                vector::TRACE,
                sat_add(old(self).pending_sync_clocks, 4),
            ) && final(self).run_mode == old(self).run_mode,
    {
        self.stopped = self.stopped & !STOP_LEVEL_STOP;
        self.internal_cycles(4);
        self.take_group2_exception(bus, vector::TRACE)
    }

}

/// The pre-68020 flag agrees with the selected model.
pub open spec fn model_consistent(cpu: CpuCore) -> bool {
    cpu.is_pre_68020 == crate::types::is_pre_68020_type(cpu.cpu_type)
}

impl CpuCore {
    /// Process a bus error (or MMU access fault): stack the model's fault
    /// frame, whose special status word describes the faulted access, and
    /// jump through vector 2. A function code forced by MOVES is reported
    /// and consumed.
    #[verifier::rlimit(45)]
    #[verifier::spinoff_prover]
    pub fn exception_bus_error<B: AddressBus>(
        &mut self,
        bus: &mut B,
        address: u32,
        write: bool,
        instruction: bool,
        size: u32,
        cause: Option<MmuFaultCause>,
    ) -> (r: i32)
        ensures
            r == 50,
            final(self).s_flag == 4,
            final(self).t1_flag == 0,
            final(self).t0_flag == 0,
            final(self).mmu_fc_override.is_none(),
            final(self).cpu_type == old(self).cpu_type,
            model_consistent(*old(self)) ==> entered_exception(
                *old(self),
                *final(self),
                bus_error_frame_bytes(old(self).cpu_type),
            ) && final(self).run_mode == old(self).run_mode,
            !is_040_type(old(self).cpu_type) && old(self).cpu_type != CpuType::M68000 && old(self).cpu_type
                != CpuType::M68010 && old(self).cpu_type != CpuType::SCC68070 && old(self).cpu_type
                != CpuType::M68060 && !old(self).is_pre_68020 ==> final(bus).events() == old(bus).events()
                + sync_events(old(self).pending_sync_clocks) + bus_error_frame_events_030(
                *old(self),
                address,
                write,
                instruction,
                size,
            ) + vector_fetch_events(
                old(self).vbr,
                old(self).address_mask,
                old(self).is_pre_68020,
                *final(self),
                vector::BUS_ERROR,
            ),
            old(self).cpu_type == CpuType::M68060 && !old(self).is_pre_68020 ==> final(bus).events() == old(bus).events() + sync_events(old(self).pending_sync_clocks) + frame_060_events(
                old(self).address_mask,
                supervisor_sp(*old(self)),
                fslw_of(write, instruction, size, bus_error_fcode(*old(self), instruction), cause),
                address,
                old(self).ppc,
                old(self).sr(),
            ) + vector_fetch_events(
                old(self).vbr,
                old(self).address_mask,
                old(self).is_pre_68020,
                *final(self),
                vector::BUS_ERROR,
            ),
            is_040_type(old(self).cpu_type) && !old(self).is_pre_68020 ==> final(bus).events() == old(bus).events() + sync_events(old(self).pending_sync_clocks) + bus_error_frame_events_040(
                *old(self),
                address,
                write,
                instruction,
                size,
                cause,
            ) + vector_fetch_events(
                old(self).vbr,
                old(self).address_mask,
                old(self).is_pre_68020,
                *final(self),
                vector::BUS_ERROR,
            ),
            old(self).cpu_type == CpuType::M68000 || old(self).cpu_type == CpuType::M68010 || old(self).cpu_type
                == CpuType::SCC68070 ==> final(bus).events() == old(bus).events() + sync_events(
                old(self).pending_sync_clocks,
            ) + bus_error_frame_events_16(*old(self), address, write, instruction) + vector_fetch_events(
                old(self).vbr,
                old(self).address_mask,
                old(self).is_pre_68020,
                *final(self),
                vector::BUS_ERROR,
            ),
    {
        let old_sr = self.get_sr();
        let was_supervisor = (old_sr & 0x2000) != 0;
        let fault_wdata = self.pending_fault_wdata;
        self.enter_supervisor();
        let taken = self.mmu_fc_override;
        self.mmu_fc_override = None;
        let fcode: u16 = match taken {
            Some(ofc) => ofc as u16,
            None => {
                if was_supervisor {
                    if instruction {
                        fc::SUPERVISOR_PROGRAM
                    } else {
                        fc::SUPERVISOR_DATA
                    }
                } else if instruction {
                    fc::USER_PROGRAM
                } else {
                    fc::USER_DATA
                }
            },
        };
        let status_word: u16 = fcode | (if write { 0 } else { 0x10 }) | (if instruction {
            0
        } else {
            0x08
        });
        let ppc = self.ppc;
        let ghost e0 = bus.events();
        proof {
            assert(old_sr == old(self).sr());
            assert(self.dar[15] == supervisor_sp(*old(self)));
            assert(status_word == bus_error_status(*old(self), write, instruction));
        }
        match self.cpu_type {
            CpuType::M68000 => {
                let ir = self.ir as u16;
                self.push_ae_frame_68000(bus, status_word, address, ir, old_sr, ppc);
            },
            CpuType::M68010 | CpuType::SCC68070 => {
                self.push_ae_frame_010(bus, vector::BUS_ERROR, old_sr, ppc);
            },
            CpuType::M68060 => {
                let fslw = fslw_060(write, instruction, size, fcode, cause);
                proof {
                    assert(fcode == bus_error_fcode(*old(self), instruction));
                    assert(self.dar[15] == supervisor_sp(*old(self)));
                }
                self.push_bus_frame_060(bus, fslw, address, ppc, old_sr);
            },
            CpuType::M68EC040 | CpuType::M68LC040 | CpuType::M68040 => {
                let rw: u16 = if write {
                    0
                } else {
                    0x0100
                };
                let atc: u16 = if cause.is_some() {
                    0x0400
                } else {
                    0
                };
                let sz: u16 = if size == 1 {
                    0x0020
                } else if size == 2 {
                    0x0040
                } else {
                    0x0000
                };
                let ssw = rw | atc | sz | (fcode & 0x7);
                let wb3s: u16 = if write {
                    0x0080 | sz | (fcode & 0x7)
                } else {
                    0
                };
                let wb3d = if write {
                    fault_wdata
                } else {
                    0
                };
                let wb3a = if write {
                    address
                } else {
                    0
                };
                proof {
                    assert(fcode == bus_error_fcode(*old(self), instruction));
                    assert(sz == size_bits_040(size));
                    assert(fault_wdata == old(self).pending_fault_wdata);
                    assert(self.dar[15] == supervisor_sp(*old(self)));
                }
                self.push_bus_frame_040(bus, wb3d, wb3a, address, wb3s, ssw, ppc, old_sr);
                proof {
                    if !old(self).is_pre_68020 {
                        assert(bus.events() =~= e0 + sync_events(old(self).pending_sync_clocks)
                            + bus_error_frame_events_040(*old(self), address, write, instruction, size, cause));
                    }
                }
            },
            _ => {
                let data_fault = !instruction;
                let mut ssw: u16 = fcode & 0x7;
                if data_fault {
                    ssw = ssw | 0x0100;
                    if !write {
                        ssw = ssw | 0x0040;
                    }
                    ssw = ssw | if size == 1 {
                        0x0010u16
                    } else if size == 2 {
                        0x0020u16
                    } else if size == 3 {
                        0x0030u16
                    } else {
                        0x0000u16
                    };
                } else {
                    ssw = ssw | 0x4000 | 0x1000;
                }
                let stage_b = if data_fault {
                    0
                } else {
                    address
                };
                let dob = if write {
                    fault_wdata
                } else {
                    0
                };
                let dfa = if data_fault {
                    address
                } else {
                    0
                };
                proof {
                    assert(fcode == bus_error_fcode(*old(self), instruction));
                    assert(ssw == ssw_030(fcode, write, instruction, size));
                    assert(fault_wdata == old(self).pending_fault_wdata);
                    assert(self.dar[15] == supervisor_sp(*old(self)));
                }
                self.push_bus_frame_030(bus, stage_b, dob, dfa, ssw, ppc, old_sr);
                proof {
                    if !old(self).is_pre_68020 {
                        assert(bus.events() =~= e0 + sync_events(old(self).pending_sync_clocks)
                            + bus_error_frame_events_030(*old(self), address, write, instruction, size));
                    }
                }
            },
        }
        let ghost e9 = bus.events();
        proof {
            if old(self).cpu_type == CpuType::M68000 || old(self).cpu_type == CpuType::M68010
                || old(self).cpu_type == CpuType::SCC68070 {
                assert(bus.events() =~= e0 + sync_events(old(self).pending_sync_clocks) + bus_error_frame_events_16(
                    *old(self),
                    address,
                    write,
                    instruction,
                ));
            }
        }
        let ghost e3 = bus.events();
        let ghost s3 = *self;
        proof {
            if (is_040_type(old(self).cpu_type) || (old(self).cpu_type != CpuType::M68000 && old(self).cpu_type
                != CpuType::M68010 && old(self).cpu_type != CpuType::SCC68070)) && !old(self).is_pre_68020 {
                assert(s3.pending_sync_clocks == 0);
                assert(sync_events(0) =~= Seq::<BusEvent>::empty());
                assert(s3.vbr == old(self).vbr && s3.address_mask == old(self).address_mask
                    && s3.is_pre_68020 == old(self).is_pre_68020);
            }
        }
        self.jump_vector(bus, vector::BUS_ERROR);
        proof {
            if (is_040_type(old(self).cpu_type) || (old(self).cpu_type != CpuType::M68000 && old(self).cpu_type
                != CpuType::M68010 && old(self).cpu_type != CpuType::SCC68070)) && !old(self).is_pre_68020 {
                assert(bus.events() =~= e3 + vector_fetch_events(
                    old(self).vbr,
                    old(self).address_mask,
                    old(self).is_pre_68020,
                    *self,
                    vector::BUS_ERROR,
                ));
            }
        }
        50
    }
}

/// Stack pointer `sp` lowered by `n` long words, one at a time.
pub open spec fn sp_down_longs(sp: u32, n: nat) -> u32
    decreases n,
{
    if n == 0 {
        sp
    } else {
        sp_down_longs(sp, (n - 1) as nat).wrapping_sub(4)
    }
}

/// The `n` zero long words pushed below `sp`, in bus order.
pub open spec fn zero_long_events(m: u32, sp: u32, n: nat) -> Seq<BusEvent>
    decreases n,
{
    if n == 0 {
        seq![]
    } else {
        zero_long_events(m, sp, (n - 1) as nat).push(BusEvent::WriteLong(sp_down_longs(sp, n) & m, 0))
    }
}

/// The writeback and fault-address words of the 68040 format-7 frame
/// pushed below `sp`, in bus order: writeback 3 data and address, the
/// fault address, two reserved words, writeback 3 status, the SSW.
pub open spec fn frame_040_middle_events(m: u32, sp: u32, wb3d: u32, wb3a: u32, address: u32, wb3s: u16, ssw: u16) -> Seq<BusEvent> {
    let s1 = sp.wrapping_sub(4);
    let s2 = s1.wrapping_sub(4);
    let s3 = s2.wrapping_sub(4);
    let s4 = s3.wrapping_sub(2);
    let s5 = s4.wrapping_sub(2);
    let s6 = s5.wrapping_sub(2);
    let s7 = s6.wrapping_sub(2);
    seq![
        BusEvent::WriteLong(s1 & m, wb3d),
        BusEvent::WriteLong(s2 & m, wb3a),
        BusEvent::WriteLong(s3 & m, address),
        BusEvent::WriteWord(s4 & m, 0),
        BusEvent::WriteWord(s5 & m, 0),
        BusEvent::WriteWord(s6 & m, wb3s),
        BusEvent::WriteWord(s7 & m, ssw),
    ]
}

/// Stack pointer below the middle words of the format-7 frame.
pub open spec fn frame_040_middle_sp(sp: u32) -> u32 {
    sp.wrapping_sub(4).wrapping_sub(4).wrapping_sub(4).wrapping_sub(2).wrapping_sub(2).wrapping_sub(2).wrapping_sub(2)
}

/// The top of the 68040 format-7 frame pushed below `sp`, in bus order:
/// the effective address, the format/vector word, the PC and the SR.
pub open spec fn frame_040_top_events(m: u32, sp: u32, address: u32, pc: u32, sr: u16) -> Seq<BusEvent> {
    let s1 = sp.wrapping_sub(4);
    let s2 = s1.wrapping_sub(2);
    let s3 = s2.wrapping_sub(4);
    let s4 = s3.wrapping_sub(2);
    seq![
        BusEvent::WriteLong(s1 & m, address),
        BusEvent::WriteWord(s2 & m, 0x7000 | ((vector::BUS_ERROR as u16) << 2u16)),
        BusEvent::WriteLong(s3 & m, pc),
        BusEvent::WriteWord(s4 & m, sr),
    ]
}

/// The whole 68040 format-7 access-error frame (30 words) pushed below
/// `sp`, in bus order.
pub open spec fn frame_040_events(
    m: u32,
    sp: u32,
    wb3d: u32,
    wb3a: u32,
    address: u32,
    wb3s: u16,
    ssw: u16,
    pc: u32,
    sr: u16,
) -> Seq<BusEvent> {
    let z = sp_down_longs(sp, 7);
    zero_long_events(m, sp, 7) + frame_040_middle_events(m, z, wb3d, wb3a, address, wb3s, ssw)
        + frame_040_top_events(m, frame_040_middle_sp(z), address, pc, sr)
}

/// Four zero words pushed below `sp`, in bus order.
pub open spec fn zero_word4_events(m: u32, sp: u32) -> Seq<BusEvent> {
    seq![
        BusEvent::WriteWord(sp.wrapping_sub(2) & m, 0),
        BusEvent::WriteWord(sp.wrapping_sub(2).wrapping_sub(2) & m, 0),
        BusEvent::WriteWord(sp.wrapping_sub(2).wrapping_sub(2).wrapping_sub(2) & m, 0),
        BusEvent::WriteWord(sp.wrapping_sub(2).wrapping_sub(2).wrapping_sub(2).wrapping_sub(2) & m, 0),
    ]
}

/// The data output buffer, a reserved zero long and the data fault
/// address of the format-B frame pushed below `sp`, in bus order.
pub open spec fn frame_030_data_events(m: u32, sp: u32, dob: u32, dfa: u32) -> Seq<BusEvent> {
    seq![
        BusEvent::WriteLong(sp.wrapping_sub(4) & m, dob),
        BusEvent::WriteLong(sp.wrapping_sub(4).wrapping_sub(4) & m, 0),
        BusEvent::WriteLong(sp.wrapping_sub(4).wrapping_sub(4).wrapping_sub(4) & m, dfa),
    ]
}

/// The top of the format-B frame pushed below `sp`, in bus order: two
/// internal words, the SSW, an internal word, the format/vector word, the
/// PC and the SR.
pub open spec fn frame_030_top_events(m: u32, sp: u32, ssw: u16, pc: u32, sr: u16) -> Seq<BusEvent> {
    let s1 = sp.wrapping_sub(2);
    let s2 = s1.wrapping_sub(2);
    let s3 = s2.wrapping_sub(2);
    let s4 = s3.wrapping_sub(2);
    let s5 = s4.wrapping_sub(2);
    let s6 = s5.wrapping_sub(4);
    let s7 = s6.wrapping_sub(2);
    seq![
        BusEvent::WriteWord(s1 & m, 0),
        BusEvent::WriteWord(s2 & m, 0),
        BusEvent::WriteWord(s3 & m, ssw),
        BusEvent::WriteWord(s4 & m, 0),
        BusEvent::WriteWord(s5 & m, 0xB000 | ((vector::BUS_ERROR as u16) << 2u16)),
        BusEvent::WriteLong(s6 & m, pc),
        BusEvent::WriteWord(s7 & m, sr),
    ]
}

/// The whole 68020/68030 format-B frame (46 words) pushed below `sp`, in
/// bus order: nine zero longs, four zero words, two zero longs, the stage B
/// address, two zero longs, then the data and top parts.
pub open spec fn frame_030_events(
    m: u32,
    sp: u32,
    stage_b: u32,
    dob: u32,
    dfa: u32,
    ssw: u16,
    pc: u32,
    sr: u16,
) -> Seq<BusEvent> {
    let a = sp_down_longs(sp, 9);
    let b = a.wrapping_sub(2).wrapping_sub(2).wrapping_sub(2).wrapping_sub(2);
    let c = sp_down_longs(b, 2);
    let d = c.wrapping_sub(4);
    let e = sp_down_longs(d, 2);
    let f = e.wrapping_sub(4).wrapping_sub(4).wrapping_sub(4);
    zero_long_events(m, sp, 9) + zero_word4_events(m, a) + zero_long_events(m, b, 2) + seq![
        BusEvent::WriteLong(d & m, stage_b),
    ] + zero_long_events(m, d, 2) + frame_030_data_events(m, e, dob, dfa) + frame_030_top_events(m, f, ssw, pc, sr)
}

/// The 68060 format-4 access-error frame pushed below `sp`, in bus order:
/// the FSLW, the fault address, the format/vector word, the PC and the SR.
pub open spec fn frame_060_events(m: u32, sp: u32, fslw: u32, address: u32, pc: u32, sr: u16) -> Seq<BusEvent> {
    let s1 = sp.wrapping_sub(4);
    let s2 = s1.wrapping_sub(4);
    let s3 = s2.wrapping_sub(2);
    let s4 = s3.wrapping_sub(4);
    let s5 = s4.wrapping_sub(2);
    seq![
        BusEvent::WriteLong(s1 & m, fslw),
        BusEvent::WriteLong(s2 & m, address),
        BusEvent::WriteWord(s3 & m, 0x4000 | ((vector::BUS_ERROR as u16) << 2u16)),
        BusEvent::WriteLong(s4 & m, pc),
        BusEvent::WriteWord(s5 & m, sr),
    ]
}

/// `new` is `old` after stacking `bytes` bytes with checked writes that
/// cannot fault (the model has a 32-bit bus).
pub open spec fn stacked(old: CpuCore, new: CpuCore, bytes: u32) -> bool {
    &&& frame_write(old, new)
    &&& !old.is_pre_68020 ==> {
        &&& new.dar@ =~= old.dar@.update(15, sub_mod(old.dar[15], bytes))
        &&& new == (CpuCore { dar: new.dar, pending_sync_clocks: new.pending_sync_clocks, ..old })
    }
}

impl CpuCore {
    /// The 68060 format-4 access-error frame: FSLW, fault address,
    /// format/vector word, restart PC and SR.
    fn push_bus_frame_060<B: AddressBus>(
        &mut self,
        bus: &mut B,
        fslw: u32,
        address: u32,
        ppc: u32,
        sr: u16,
    )
        ensures
            stacked(*old(self), *final(self), 16),
            !old(self).is_pre_68020 ==> final(self).pending_sync_clocks == 0,
            !old(self).is_pre_68020 ==> final(bus).events() == old(bus).events() + sync_events(
                old(self).pending_sync_clocks,
            ) + frame_060_events(old(self).address_mask, old(self).dar[15], fslw, address, ppc, sr),
    {
        proof {
            assert(sync_events(0) =~= Seq::<BusEvent>::empty());
        }
        self.push_32(bus, fslw);
        self.push_32(bus, address);
        self.push_16(bus, 0x4000 | ((vector::BUS_ERROR as u16) << 2));
        self.push_32(bus, ppc);
        self.push_16(bus, sr);
    }

    /// The 68040 format-7 access-error frame (30 words), with a faulted
    /// write reported in writeback slot 3.
    fn push_bus_frame_040<B: AddressBus>(
        &mut self,
        bus: &mut B,
        wb3d: u32,
        wb3a: u32,
        address: u32,
        wb3s: u16,
        ssw: u16,
        ppc: u32,
        sr: u16,
    )
        ensures
            stacked(*old(self), *final(self), 60),
            !old(self).is_pre_68020 ==> final(self).pending_sync_clocks == 0,
            !old(self).is_pre_68020 ==> final(bus).events() == old(bus).events() + sync_events(
                old(self).pending_sync_clocks,
            ) + frame_040_events(old(self).address_mask, old(self).dar[15], wb3d, wb3a, address, wb3s, ssw, ppc, sr),
    {
        let ghost e0 = bus.events();
        let ghost m = self.address_mask;
        let ghost sp = self.dar[15];
        self.push_zero_longs(bus, 7);
        let ghost e1 = bus.events();
        let ghost z = self.dar[15];
        self.push_frame_040_middle(bus, wb3d, wb3a, address, wb3s, ssw);
        let ghost e2 = bus.events();
        let ghost t = self.dar[15];
        self.push_frame_040_top(bus, address, ppc, sr);
        proof {
            if !old(self).is_pre_68020 {
                assert(sync_events(0) =~= Seq::<BusEvent>::empty());
                assert(z == sp_down_longs(sp, 7));
                assert(e1 == e0 + sync_events(old(self).pending_sync_clocks) + zero_long_events(m, sp, 7));
                assert(e2 =~= e1 + frame_040_middle_events(m, z, wb3d, wb3a, address, wb3s, ssw));
                assert(t == frame_040_middle_sp(z));
                assert(bus.events() =~= e2 + frame_040_top_events(m, t, address, ppc, sr));
                assert(bus.events() =~= e0 + sync_events(old(self).pending_sync_clocks) + frame_040_events(
                    old(self).address_mask,
                    old(self).dar[15],
                    wb3d,
                    wb3a,
                    address,
                    wb3s,
                    ssw,
                    ppc,
                    sr,
                ));
            }
        }
    }

    /// The writeback and fault-address words of the 68040 format-7 frame.
    fn push_frame_040_middle<B: AddressBus>(
        &mut self,
        bus: &mut B,
        wb3d: u32,
        wb3a: u32,
        address: u32,
        wb3s: u16,
        ssw: u16,
    )
        ensures
            stacked(*old(self), *final(self), 20),
            !old(self).is_pre_68020 ==> final(self).dar[15] == frame_040_middle_sp(old(self).dar[15])
                && final(self).pending_sync_clocks == 0 && final(bus).events() == old(bus).events()
                + sync_events(old(self).pending_sync_clocks) + frame_040_middle_events(
                old(self).address_mask,
                old(self).dar[15],
                wb3d,
                wb3a,
                address,
                wb3s,
                ssw,
            ),
    {
        proof {
            assert(sync_events(0) =~= Seq::<BusEvent>::empty());
        }
        self.push_32(bus, wb3d);
        self.push_32(bus, wb3a);
        self.push_32(bus, address);
        self.push_16(bus, 0);
        self.push_16(bus, 0);
        self.push_16(bus, wb3s);
        self.push_16(bus, ssw);
    }

    /// The top of the 68040 format-7 frame: effective address,
    /// format/vector word, PC and SR.
    fn push_frame_040_top<B: AddressBus>(&mut self, bus: &mut B, address: u32, ppc: u32, sr: u16)
        ensures
            stacked(*old(self), *final(self), 12),
            !old(self).is_pre_68020 ==> final(self).pending_sync_clocks == 0 && final(bus).events() == old(bus).events() + sync_events(old(self).pending_sync_clocks) + frame_040_top_events(
                old(self).address_mask,
                old(self).dar[15],
                address,
                ppc,
                sr,
            ),
    {
        proof {
            assert(sync_events(0) =~= Seq::<BusEvent>::empty());
        }
        self.push_32(bus, address);
        self.push_16(bus, 0x7000 | ((vector::BUS_ERROR as u16) << 2));
        self.push_32(bus, ppc);
        self.push_16(bus, sr);
    }

    /// The 68020/68030 format-B long bus-cycle fault frame (46 words).
    #[verifier::rlimit(60)]
    #[verifier::spinoff_prover]
    fn push_bus_frame_030<B: AddressBus>(
        &mut self,
        bus: &mut B,
        stage_b: u32,
        dob: u32,
        dfa: u32,
        ssw: u16,
        ppc: u32,
        sr: u16,
    )
        ensures
            stacked(*old(self), *final(self), 92),
            !old(self).is_pre_68020 ==> final(self).pending_sync_clocks == 0,
            !old(self).is_pre_68020 ==> final(bus).events() == old(bus).events() + sync_events(
                old(self).pending_sync_clocks,
            ) + frame_030_events(old(self).address_mask, old(self).dar[15], stage_b, dob, dfa, ssw, ppc, sr),
    {
        let ghost e0 = bus.events();
        let ghost m = self.address_mask;
        let ghost sp = self.dar[15];
        self.push_zero_longs(bus, 9);
        let ghost e1 = bus.events();
        let ghost a = self.dar[15];
        self.push_zero_words4(bus);
        let ghost e2 = bus.events();
        let ghost b = self.dar[15];
        self.push_zero_longs(bus, 2);
        let ghost e3 = bus.events();
        let ghost c = self.dar[15];
        self.push_32(bus, stage_b);
        let ghost e4 = bus.events();
        let ghost d = self.dar[15];
        self.push_zero_longs(bus, 2);
        let ghost e5 = bus.events();
        let ghost e = self.dar[15];
        self.push_frame_030_data(bus, dob, dfa);
        let ghost e6 = bus.events();
        let ghost f = self.dar[15];
        self.push_frame_030_top(bus, ssw, ppc, sr);
        proof {
            if !old(self).is_pre_68020 {
                assert(sync_events(0) =~= Seq::<BusEvent>::empty());
                assert(a == sp_down_longs(sp, 9));
                assert(e1 == e0 + sync_events(old(self).pending_sync_clocks) + zero_long_events(m, sp, 9));
                assert(e2 =~= e1 + zero_word4_events(m, a));
                assert(e3 =~= e2 + zero_long_events(m, b, 2));
                assert(e4 =~= e3 + seq![BusEvent::WriteLong(d & m, stage_b)]);
                assert(e5 =~= e4 + zero_long_events(m, d, 2));
                assert(e6 =~= e5 + frame_030_data_events(m, e, dob, dfa));
                assert(bus.events() =~= e6 + frame_030_top_events(m, f, ssw, ppc, sr));
                assert(bus.events() =~= e0 + sync_events(old(self).pending_sync_clocks) + frame_030_events(
                    m,
                    sp,
                    stage_b,
                    dob,
                    dfa,
                    ssw,
                    ppc,
                    sr,
                ));
            }
        }
    }

    /// Four zero words of the format-B frame.
    fn push_zero_words4<B: AddressBus>(&mut self, bus: &mut B)
        ensures
            stacked(*old(self), *final(self), 8),
            !old(self).is_pre_68020 ==> final(self).dar[15] == old(self).dar[15].wrapping_sub(2).wrapping_sub(2)
                .wrapping_sub(2).wrapping_sub(2) && final(self).pending_sync_clocks == 0 && final(bus).events()
                == old(bus).events() + sync_events(old(self).pending_sync_clocks) + zero_word4_events(
                old(self).address_mask,
                old(self).dar[15],
            ),
    {
        proof {
            assert(sync_events(0) =~= Seq::<BusEvent>::empty());
        }
        self.push_16(bus, 0);
        self.push_16(bus, 0);
        self.push_16(bus, 0);
        self.push_16(bus, 0);
    }

    /// Data output buffer, reserved long and data fault address of the
    /// format-B frame.
    fn push_frame_030_data<B: AddressBus>(&mut self, bus: &mut B, dob: u32, dfa: u32)
        ensures
            stacked(*old(self), *final(self), 12),
            !old(self).is_pre_68020 ==> final(self).dar[15] == old(self).dar[15].wrapping_sub(4).wrapping_sub(4)
                .wrapping_sub(4) && final(self).pending_sync_clocks == 0 && final(bus).events() == old(bus).events()
                + sync_events(old(self).pending_sync_clocks) + frame_030_data_events(
                old(self).address_mask,
                old(self).dar[15],
                dob,
                dfa,
            ),
    {
        proof {
            assert(sync_events(0) =~= Seq::<BusEvent>::empty());
        }
        self.push_32(bus, dob);
        self.push_32(bus, 0);
        self.push_32(bus, dfa);
    }

    /// Top of the format-B frame: internal words, SSW, format/vector word,
    /// PC and SR.
    fn push_frame_030_top<B: AddressBus>(&mut self, bus: &mut B, ssw: u16, ppc: u32, sr: u16)
        ensures
            stacked(*old(self), *final(self), 16),
            !old(self).is_pre_68020 ==> final(self).pending_sync_clocks == 0 && final(bus).events() == old(bus).events() + sync_events(old(self).pending_sync_clocks) + frame_030_top_events(
                old(self).address_mask,
                old(self).dar[15],
                ssw,
                ppc,
                sr,
            ),
    {
        proof {
            assert(sync_events(0) =~= Seq::<BusEvent>::empty());
        }
        self.push_16(bus, 0);
        self.push_16(bus, 0);
        self.push_16(bus, ssw);
        self.push_16(bus, 0);
        self.push_16(bus, 0xB000 | ((vector::BUS_ERROR as u16) << 2));
        self.push_32(bus, ppc);
        self.push_16(bus, sr);
    }

    /// Push `count` zero long words.
    fn push_zero_longs<B: AddressBus>(&mut self, bus: &mut B, count: u32)
        requires
            count <= 16,
        ensures
            stacked(*old(self), *final(self), (4 * count) as u32),
            !old(self).is_pre_68020 ==> final(self).dar[15] == sp_down_longs(old(self).dar[15], count as nat),
            !old(self).is_pre_68020 && count > 0 ==> final(self).pending_sync_clocks == 0,
            !old(self).is_pre_68020 && count > 0 ==> final(bus).events() == old(bus).events() + sync_events(old(self).pending_sync_clocks)
                + zero_long_events(old(self).address_mask, old(self).dar[15], count as nat),
    {
        let mut i: u32 = 0;
        proof {
            assert(sync_events(0) =~= Seq::<BusEvent>::empty());
            assert(old(bus).events() + sync_events(old(self).pending_sync_clocks) + zero_long_events(
                old(self).address_mask,
                old(self).dar[15],
                0,
            ) =~= old(bus).events() + sync_events(old(self).pending_sync_clocks));
        }
        while i < count
            invariant
                i <= count <= 16,
                stacked(*old(self), *self, (4 * i) as u32),
                !old(self).is_pre_68020 ==> self.dar[15] == sp_down_longs(old(self).dar[15], i as nat)
                    && bus.events() == (if i == 0 {
                    old(bus).events()
                } else {
                    old(bus).events() + sync_events(old(self).pending_sync_clocks) + zero_long_events(
                        old(self).address_mask,
                        old(self).dar[15],
                        i as nat,
                    )
                }),
                !old(self).is_pre_68020 && i > 0 ==> self.pending_sync_clocks == 0,
                !old(self).is_pre_68020 && i == 0 ==> self.pending_sync_clocks == old(self).pending_sync_clocks,
            decreases count - i,
        {
            let ghost e0 = bus.events();
            self.push_32(bus, 0);
            proof {
                if !old(self).is_pre_68020 {
                    assert(zero_long_events(old(self).address_mask, old(self).dar[15], (i + 1) as nat)
                        == zero_long_events(old(self).address_mask, old(self).dar[15], i as nat).push(
                        BusEvent::WriteLong(sp_down_longs(old(self).dar[15], (i + 1) as nat) & old(self).address_mask, 0),
                    ));
                    if i == 0 {
                        assert(zero_long_events(old(self).address_mask, old(self).dar[15], 0) =~= Seq::<BusEvent>::empty());
                        assert(bus.events() =~= old(bus).events() + sync_events(old(self).pending_sync_clocks)
                            + zero_long_events(old(self).address_mask, old(self).dar[15], 1));
                    } else {
                        assert(bus.events() =~= old(bus).events() + sync_events(old(self).pending_sync_clocks)
                            + zero_long_events(old(self).address_mask, old(self).dar[15], (i + 1) as nat));
                    }
                }
            }
            i = i + 1;
        }
    }
}

impl CpuCore {
    /// 68060 "FP unimplemented instruction": Line-F vector with the
    /// six-word format-2 frame; the frame's PC is the next instruction and
    /// FPIAR points at the faulting one.
    pub fn take_fp_unimp_060<B: AddressBus>(&mut self, bus: &mut B, ea: u32) -> (r: i32)
        ensures
            r == 34,
            final(self).fpiar == old(self).ppc,
            final(self).s_flag == 4,
            final(self).t1_flag == 0,
            final(self).t0_flag == 0,
            !old(self).is_pre_68020 ==> entered_exception(*old(self), *final(self), 12),
    {
        self.fpiar = self.ppc;
        let old_sr = self.get_sr();
        self.enter_supervisor();
        let vec_word: u16 = (vector::LINE_1111 as u16) << 2u16;
        let pc = self.pc;
        self.push_32(bus, ea);
        self.push_16(bus, 0x2000 | (vec_word & 0x0FFF));
        self.push_32(bus, pc);
        self.push_16(bus, old_sr);
        self.jump_vector(bus, vector::LINE_1111);
        self.exception_cycles(vector::LINE_1111)
    }

    /// 68060 "FPU disabled": the eight-word format-4 frame whose extra
    /// long word holds the faulted instruction's address.
    pub fn take_fp_disabled_060<B: AddressBus>(&mut self, bus: &mut B) -> (r: i32)
        ensures
            r == 34,
            final(self).fpiar == old(self).fpiar,
            final(self).s_flag == 4,
            final(self).t1_flag == 0,
            final(self).t0_flag == 0,
            !old(self).is_pre_68020 ==> entered_exception(*old(self), *final(self), 16),
    {
        let old_sr = self.get_sr();
        self.enter_supervisor();
        let vec_word: u16 = (vector::LINE_1111 as u16) << 2u16;
        let ppc = self.ppc;
        self.push_32(bus, ppc);
        self.push_32(bus, 0);
        self.push_16(bus, 0x4000 | (vec_word & 0x0FFF));
        self.push_32(bus, ppc);
        self.push_16(bus, old_sr);
        self.jump_vector(bus, vector::LINE_1111);
        self.exception_cycles(vector::LINE_1111)
    }

    /// An SR write synchronizes the 68020+ pipeline, so a set T0 traces the
    /// writing instruction: mark the boundary as a flow change.
    pub fn trace_t0_sr_write(&mut self)
        ensures
            *final(self) == (CpuCore {
                change_of_flow: if old(self).is_pre_68020 {
                    old(self).change_of_flow
                } else {
                    true
                },
                ..*old(self)
            }),
    {
        if !self.is_pre_68020 {
            self.change_of_flow = true;
        }
    }

    /// The 68040 also runs the T0 check after its pipeline-synchronizing
    /// instructions (NOP, MOVEC, MOVE USP, CAS, MOVES, TAS, ...).
    pub fn trace_t0_68040_sync(&mut self)
        ensures
            *final(self) == (CpuCore {
                change_of_flow: if is_040_type(old(self).cpu_type) {
                    true
                } else {
                    old(self).change_of_flow
                },
                ..*old(self)
            }),
    {
        if self.is_040() {
            self.change_of_flow = true;
        }
    }

    /// Whether the instruction that just retired requests a trace
    /// exception; clears the flow-change latch. T1 traces every
    /// instruction, T0 only flow changes; both are read from the SR saved
    /// before the instruction.
    pub fn check_trace(&mut self) -> (r: bool)
        ensures
            r == ((old(self).sr_save & 0x8000) != 0 || ((old(self).sr_save & 0x4000) != 0 && old(
                self).change_of_flow)),
            *final(self) == (CpuCore { change_of_flow: false, ..*old(self) }),
    {
        let t1_before = (self.sr_save & 0x8000) != 0;
        let t0_before = (self.sr_save & 0x4000) != 0;
        let should_trace = t1_before || (t0_before && self.change_of_flow);
        self.change_of_flow = false;
        should_trace
    }

    /// Take the Line-A exception for an unhandled trap, rewinding the PC
    /// to the trapping instruction.
    pub fn take_aline_exception<B: AddressBus>(&mut self, bus: &mut B) -> (r: i32)
        ensures
            !old(self).exception_processing ==> r == 34 && final(self).s_flag == 4,
            !old(self).exception_processing && stack_usable(*old(self)) ==> simple_entry(
                CpuCore { pc: old(self).ppc, ..*old(self) },
                *final(self),
                old(bus).events(),
                final(bus).events(),
                vector::LINE_1010,
            ),
            old(self).exception_processing ==> r == 0 && final(self).pc == old(self).ppc,
    {
        self.pc = self.ppc;
        self.take_exception(bus, vector::LINE_1010)
    }

    /// Take the Line-F exception for an unhandled trap, rewinding the PC.
    pub fn take_fline_exception<B: AddressBus>(&mut self, bus: &mut B) -> (r: i32)
        ensures
            !old(self).exception_processing ==> r == 34 && final(self).s_flag == 4,
            !old(self).exception_processing && stack_usable(*old(self)) ==> simple_entry(
                CpuCore { pc: old(self).ppc, ..*old(self) },
                *final(self),
                old(bus).events(),
                final(bus).events(),
                vector::LINE_1111,
            ),
            old(self).exception_processing ==> r == 0 && final(self).pc == old(self).ppc,
    {
        self.pc = self.ppc;
        self.take_exception(bus, vector::LINE_1111)
    }

    /// Take the TRAP #n exception; the next instruction's address is
    /// stacked, so the PC is not rewound.
    pub fn take_trap_exception<B: AddressBus>(&mut self, bus: &mut B, trap_num: u8) -> (r: i32)
        ensures
            !old(self).exception_processing ==> r == 34 && final(self).s_flag == 4,
            !old(self).exception_processing && stack_usable(*old(self)) ==> simple_entry(
                *old(self),
                *final(self),
                old(bus).events(),
                final(bus).events(),
                (vector::TRAP_BASE + (trap_num & 0xF) as u32) as u32,
            ),
            old(self).exception_processing ==> r == 0 && *final(self) == (CpuCore {
                stopped: 1,
                run_mode: RUN_MODE_BERR_AERR_RESET,
                ..*old(self)
            }) && final(bus).events() == old(bus).events(),
    {
        self.trap(bus, trap_num)
    }

    /// Take the illegal-instruction exception for an unhandled breakpoint,
    /// rewinding the PC.
    pub fn take_bkpt_exception<B: AddressBus>(&mut self, bus: &mut B) -> (r: i32)
        ensures
            !old(self).exception_processing ==> r == 34 && final(self).s_flag == 4,
            !old(self).exception_processing && stack_usable(*old(self)) ==> simple_entry(
                CpuCore { pc: old(self).ppc, ..*old(self) },
                *final(self),
                old(bus).events(),
                final(bus).events(),
                vector::ILLEGAL_INSTRUCTION,
            ),
            old(self).exception_processing ==> r == 0 && final(self).pc == old(self).ppc,
    {
        self.pc = self.ppc;
        self.take_exception(bus, vector::ILLEGAL_INSTRUCTION)
    }

    /// Take the illegal-instruction exception, rewinding the PC.
    pub fn take_illegal_exception<B: AddressBus>(&mut self, bus: &mut B) -> (r: i32)
        ensures
            !old(self).exception_processing ==> r == 34 && final(self).s_flag == 4,
            !old(self).exception_processing && stack_usable(*old(self)) ==> simple_entry(
                CpuCore { pc: old(self).ppc, ..*old(self) },
                *final(self),
                old(bus).events(),
                final(bus).events(),
                vector::ILLEGAL_INSTRUCTION,
            ),
            old(self).exception_processing ==> r == 0 && final(self).pc == old(self).ppc,
    {
        self.pc = self.ppc;
        self.take_exception(bus, vector::ILLEGAL_INSTRUCTION)
    }
}

} // verus!
