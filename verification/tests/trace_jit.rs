use m68k::cpu::CpuCore;
use m68k::ea::AddressingMode;
use m68k::memory::{AddressBus, BusLog};
use m68k::op_cache::{CachedRunResult, DecodedSimpleOp};
use m68k::trace_jit::{
    compile_trace, decode_move_mem_trace_op, execute_portable_op, execute_portable_trace, finish_trace,
    note_backward_branch, trace_cache_index, JitEa, JitTraceOp, TraceBuildOp, TraceJit, TraceSlot,
};
use m68k::types::{CpuType, Size};

struct Ram {
    bytes: Vec<u8>,
}

impl Ram {
    fn with_words(base: u32, words: &[u16]) -> Ram {
        let mut bytes = vec![0u8; 0x1000];
        for (i, w) in words.iter().enumerate() {
            let at = base as usize + 2 * i;
            bytes[at..at + 2].copy_from_slice(&w.to_be_bytes());
        }
        Ram { bytes }
    }
}

impl AddressBus for Ram {
    // The call log is a model for specifications only; nothing executes it.
    fn events(&self) -> BusLog {
        unreachable!()
    }

    fn read_byte(&mut self, address: u32) -> u8 {
        self.bytes[address as usize % 0x1000]
    }
    fn read_word(&mut self, address: u32) -> u16 {
        let a = address as usize % 0x1000;
        u16::from_be_bytes([self.bytes[a], self.bytes[a + 1]])
    }
    fn read_long(&mut self, address: u32) -> u32 {
        ((self.read_word(address) as u32) << 16) | self.read_word(address.wrapping_add(2)) as u32
    }
    fn write_byte(&mut self, address: u32, value: u8) {
        self.bytes[address as usize % 0x1000] = value;
    }
    fn write_word(&mut self, address: u32, value: u16) {
        let a = address as usize % 0x1000;
        self.bytes[a..a + 2].copy_from_slice(&value.to_be_bytes());
    }
    fn write_long(&mut self, address: u32, value: u32) {
        self.write_word(address, (value >> 16) as u16);
        self.write_word(address.wrapping_add(2), value as u16);
    }
    fn sync(&mut self, _cpu_clocks: u32) {}

    fn ipl_hold_sample(&mut self) {}

}

fn cpu() -> CpuCore {
    let mut cpu = CpuCore::new();
    cpu.set_cpu_type(CpuType::M68000);
    cpu.set_sr(0x2700);
    cpu.pc = 0x0100;
    cpu
}

/// Install a byte buffer as the CPU's fast-memory window at guest base 0.
fn attach_window(cpu: &mut CpuCore, mem: Vec<u8>) {
    cpu.fm_base = 0;
    cpu.fm_len = mem.len() as u32;
    cpu.fm_mem = mem;
}

/// `MOVE.L (A0)+,(A1)+ ; DBRA D0` at $0100: the memcpy inner loop.
fn move_mem_loop_ops() -> [TraceBuildOp; 2] {
    [
        TraceBuildOp {
            opcode: 0x22D8,
            extension: None,
            pc: 0x0100,
            op: JitTraceOp::MoveMem {
                size: Size::Long,
                src: JitEa::PostInc(0),
                dst: JitEa::PostInc(1),
            },
        },
        TraceBuildOp {
            opcode: 0x51C8,
            extension: Some(0xFFFC),
            pc: 0x0102,
            op: JitTraceOp::Dbcc {
                condition: 1,
                reg: 0,
                displacement: -4,
            },
        },
    ]
}

#[test]
fn portable_move_mem_copies_through_window() {
    let mut cpu = cpu();
    let mut mem = vec![0u8; 0x1000];
    mem[0x200..0x204].copy_from_slice(&0xDEADBEEFu32.to_be_bytes());
    attach_window(&mut cpu, mem);
    cpu.set_a(0, 0x200);
    cpu.set_a(1, 0x300);
    cpu.set_d(0, 5);

    let ops = move_mem_loop_ops();
    let packed = execute_portable_trace(&mut cpu, &ops, 0x0100, 0x0106);

    assert_eq!((packed >> 32) as u32, 2, "both ops retired");
    assert_eq!(&cpu.fm_mem[0x300..0x304], &0xDEADBEEFu32.to_be_bytes());
    assert_eq!(cpu.a(0), 0x204);
    assert_eq!(cpu.a(1), 0x304);
    assert_eq!(cpu.d(0), 4, "DBRA decremented");
    assert_eq!(cpu.pc, 0x0100, "DBRA branched back to the head");
}

#[test]
fn portable_move_mem_bails_outside_window_with_nothing_committed() {
    let mut cpu = cpu();
    let mem = vec![0u8; 0x1000];
    attach_window(&mut cpu, mem);
    cpu.set_a(0, 0x00FF_F000); // masked address beyond the window
    cpu.set_a(1, 0x300);
    cpu.set_d(0, 5);

    let ops = move_mem_loop_ops();
    cpu.pc = 0x0104;
    let packed = execute_portable_trace(&mut cpu, &ops, 0x0100, 0x0106);

    assert_eq!((packed >> 32) as u32, 0, "nothing retired");
    assert_eq!(packed as u32, 0, "no cycles charged");
    assert_eq!(cpu.pc, 0x0100, "pc points at the bailing op");
    assert_eq!(cpu.a(0), 0x00FF_F000, "no post-increment committed");
    assert_eq!(cpu.d(0), 5);
}

#[test]
fn portable_move_mem_bails_on_store_into_own_code() {
    let mut cpu = cpu();
    let mut mem = vec![0u8; 0x1000];
    mem[0x200..0x204].copy_from_slice(&0x4E714E71u32.to_be_bytes());
    attach_window(&mut cpu, mem);
    cpu.set_a(0, 0x200);
    cpu.set_a(1, 0x0102); // store would overwrite the trace's DBRA
    cpu.set_d(0, 5);

    let ops = move_mem_loop_ops();
    let packed = execute_portable_trace(&mut cpu, &ops, 0x0100, 0x0106);

    assert_eq!((packed >> 32) as u32, 0, "store into code bails");
    assert_eq!(cpu.pc, 0x0100);
    assert_eq!(cpu.a(0), 0x200, "source post-increment not committed");
    assert_eq!(&cpu.fm_mem[0x102..0x106], &[0u8; 4], "no store happened");
}

#[test]
fn portable_move_mem_same_register_postinc_pair() {
    // MOVE.W (A0)+,(A0)+: the destination sees the incremented A0.
    let mut cpu = cpu();
    let mut mem = vec![0u8; 0x1000];
    mem[0x200..0x202].copy_from_slice(&0xBEEFu16.to_be_bytes());
    attach_window(&mut cpu, mem);
    cpu.set_a(0, 0x200);

    let op = TraceBuildOp {
        opcode: 0x30D8,
        extension: None,
        pc: 0x0100,
        op: JitTraceOp::MoveMem {
            size: Size::Word,
            src: JitEa::PostInc(0),
            dst: JitEa::PostInc(0),
        },
    };
    let cycles = execute_portable_op(&mut cpu, op, 0x0100, 0x0102);

    assert!(cycles.is_some());
    assert_eq!(&cpu.fm_mem[0x202..0x204], &0xBEEFu16.to_be_bytes());
    assert_eq!(cpu.a(0), 0x204);
}

#[test]
fn portable_trace_executes_unconditional_loop_iteration() {
    let mut cpu = cpu();
    let ops = [
        TraceBuildOp {
            opcode: 0x5280,
            extension: None,
            pc: 0x0100,
            op: JitTraceOp::AddqSubqReg {
                reg: 0,
                data: 1,
                size: Size::Long,
                is_sub: false,
            },
        },
        TraceBuildOp {
            opcode: 0x60FC,
            extension: None,
            pc: 0x0102,
            op: JitTraceOp::Branch {
                condition: 0,
                displacement: -4,
                length: 2,
            },
        },
    ];

    let packed = execute_portable_trace(&mut cpu, &ops, 0x0100, 0x0100 + ops.len() as u32 * 2);
    let cycles = packed as u32 as i32;
    assert_eq!((packed >> 32) as u32, ops.len() as u32);

    assert_eq!(cycles, 18);
    assert_eq!(cpu.d(0), 1);
    assert_eq!(cpu.pc, 0x0100);
    assert_eq!(cpu.ppc, 0x0102);
    assert_eq!(cpu.ir, 0x60FC);
}

#[test]
fn portable_trace_uses_flags_for_conditional_branch() {
    let mut cpu = cpu();
    cpu.set_d(0, 1);
    let ops = [
        TraceBuildOp {
            opcode: 0x5340,
            extension: None,
            pc: 0x0100,
            op: JitTraceOp::AddqSubqReg {
                reg: 0,
                data: 1,
                size: Size::Word,
                is_sub: true,
            },
        },
        TraceBuildOp {
            opcode: 0x66FC,
            extension: None,
            pc: 0x0102,
            op: JitTraceOp::Branch {
                condition: 6,
                displacement: -4,
                length: 2,
            },
        },
    ];

    let packed = execute_portable_trace(&mut cpu, &ops, 0x0100, 0x0100 + ops.len() as u32 * 2);
    let cycles = packed as u32 as i32;
    assert_eq!((packed >> 32) as u32, ops.len() as u32);

    assert_eq!(cycles, 12);
    assert_eq!(cpu.d(0), 0);
    assert!(cpu.flag_z());
    assert_eq!(cpu.pc, 0x0104);
    assert_eq!(cpu.ppc, 0x0102);
    assert_eq!(cpu.ir, 0x66FC);
}

#[test]
fn portable_trace_executes_register_shift() {
    let mut cpu = cpu();
    cpu.set_d(0, 0x8000_0001);
    let ops = [TraceBuildOp {
        opcode: 0xE188,
        extension: None,
        pc: 0x0100,
        op: JitTraceOp::ShiftReg {
            reg: 0,
            size: Size::Long,
            count_or_reg: 0,
            count_is_register: false,
            direction: 1,
            op: 1,
        },
    }];

    let packed = execute_portable_trace(&mut cpu, &ops, 0x0100, 0x0100 + ops.len() as u32 * 2);
    let cycles = packed as u32 as i32;
    assert_eq!((packed >> 32) as u32, ops.len() as u32);

    assert_eq!(cycles, 24);
    assert_eq!(cpu.d(0), 0x0000_0100);
    assert_eq!(cpu.ppc, 0x0100);
    assert_eq!(cpu.ir, 0xE188);
}

#[test]
fn decoded_short_branch_becomes_a_two_byte_trace_branch() {
    let op = DecodedSimpleOp::decode(CpuType::M68000, 0x66FC).unwrap();
    assert_eq!(
        op.to_jit_trace_op(),
        Some(JitTraceOp::Branch {
            condition: 6,
            displacement: -4,
            length: 2,
        })
    );
    let bcd = DecodedSimpleOp::decode(CpuType::M68000, 0xC101).unwrap();
    assert_eq!(bcd.to_jit_trace_op(), None);
}

#[test]
fn dbcc_expiry_falls_through_after_fourteen_clocks() {
    let mut cpu = cpu();
    cpu.set_d(0, 0x1234_0000);
    let op = TraceBuildOp {
        opcode: 0x51C8,
        extension: Some(0xFFFC),
        pc: 0x0102,
        op: JitTraceOp::Dbcc {
            condition: 1,
            reg: 0,
            displacement: -4,
        },
    };
    assert_eq!(execute_portable_op(&mut cpu, op, 0x0100, 0x0106), Some(14));
    assert_eq!(cpu.d(0), 0x1234_FFFF);
    assert_eq!(cpu.pc, 0x0106);
}

#[test]
fn window_move_to_address_register_sign_extends_words() {
    let mut cpu = cpu();
    let mut mem = vec![0u8; 0x100];
    mem[0x10..0x12].copy_from_slice(&0x8001u16.to_be_bytes());
    attach_window(&mut cpu, mem);
    cpu.set_a(2, 0x10);
    let op = TraceBuildOp {
        opcode: 0x3252,
        extension: None,
        pc: 0x0100,
        op: JitTraceOp::MoveMem {
            size: Size::Word,
            src: JitEa::Ind(2),
            dst: JitEa::Addr(1),
        },
    };
    assert_eq!(execute_portable_op(&mut cpu, op, 0x0100, 0x0102), Some(8));
    assert_eq!(cpu.a(1), 0xFFFF_8001);
    assert_eq!(cpu.a(2), 0x10);
}

#[test]
fn hot_loop_is_compiled_on_the_second_hit_and_then_runs() {
    // ADDQ.L #1,D0 ; BRA.S -4 at $0100 on a 68040.
    let mut bus = Ram::with_words(0x100, &[0x5280, 0x60FC]);
    let mut jit = TraceJit::new();
    let mut cpu = CpuCore::new();
    cpu.set_cpu_type(CpuType::M68040);
    cpu.pc = 0x100;
    cpu.cycles_remaining = 1000;

    assert!(note_backward_branch(&mut cpu, &mut jit, CpuType::M68040));
    assert!(m68k::trace_jit::has_trace_candidates(&jit));
    assert!(jit.try_execute(&mut cpu, &mut bus, CpuType::M68040, u32::MAX, false).is_none());
    let idx = trace_cache_index(0x100);
    match &jit.slots[idx] {
        TraceSlot::Compiled(t) => {
            assert_eq!(t.ops.len(), 2);
            assert!(t.self_loop);
            assert!(!t.needs_window);
            assert_eq!(t.max_cycles, 18);
            assert_eq!(t.code, vec![0x52, 0x80, 0x60, 0xFC]);
        }
        _ => panic!("the hot head was compiled"),
    }

    // 1000 / 18 = 55 whole iterations of 4 + 10 clocks.
    let r = jit.try_execute(&mut cpu, &mut bus, CpuType::M68040, u32::MAX, false);
    assert_eq!(r, Some((CachedRunResult::Ran, 110)));
    assert_eq!(cpu.d(0), 55);
    assert_eq!(cpu.pc, 0x100);
    assert_eq!(cpu.cycles_remaining, 1000 - 55 * 14);

    // A single-iteration caller observes the PC after one pass.
    let r = jit.try_execute(&mut cpu, &mut bus, CpuType::M68040, u32::MAX, true);
    assert_eq!(r, Some((CachedRunResult::Ran, 2)));
    assert_eq!(cpu.d(0), 56);
}

#[test]
fn changed_head_opcode_drops_the_trace_and_is_interpreted() {
    let mut bus = Ram::with_words(0x100, &[0x5280, 0x60FC]);
    let mut jit = TraceJit::new();
    let mut cpu = CpuCore::new();
    cpu.set_cpu_type(CpuType::M68040);
    cpu.pc = 0x100;
    cpu.cycles_remaining = 1000;
    jit.record_trace_target(0x100, CpuType::M68040);
    assert!(jit.try_execute(&mut cpu, &mut bus, CpuType::M68040, u32::MAX, false).is_none());

    bus.write_word(0x100, 0x4E71);
    let r = jit.try_execute(&mut cpu, &mut bus, CpuType::M68040, u32::MAX, false);
    assert_eq!(r, Some((CachedRunResult::Miss(0x4E71), 0)));
    assert_eq!(cpu.ppc, 0x100);
    assert_eq!(cpu.pc, 0x102);
    assert_eq!(cpu.ir, 0x4E71);
    assert!(matches!(jit.slots[trace_cache_index(0x100)], TraceSlot::Empty));
}

#[test]
fn untraceable_head_is_rejected_and_filtered() {
    // ADDI.W #1,D0 cannot be traced.
    let mut bus = Ram::with_words(0x100, &[0x0640, 0x0001, 0x60FA]);
    let mut jit = TraceJit::new();
    let mut cpu = CpuCore::new();
    cpu.set_cpu_type(CpuType::M68040);
    cpu.pc = 0x100;
    cpu.cycles_remaining = 1000;
    assert!(note_backward_branch(&mut cpu, &mut jit, CpuType::M68040));
    assert!(jit.try_execute(&mut cpu, &mut bus, CpuType::M68040, u32::MAX, false).is_none());
    assert!(matches!(jit.slots[trace_cache_index(0x100)], TraceSlot::Rejected { .. }));
    assert!(!note_backward_branch(&mut cpu, &mut jit, CpuType::M68040));
}

#[test]
fn compile_reads_word_branches_and_memory_moves() {
    // MOVE.L (A0)+,(A1)+ ; DBRA D0,-4
    let mut bus = Ram::with_words(0x100, &[0x22D8, 0x51C8, 0xFFFC]);
    let mut cpu = CpuCore::new();
    cpu.set_cpu_type(CpuType::M68040);
    let t = compile_trace(&cpu, &mut bus, 0x100, CpuType::M68040).unwrap();
    assert_eq!(t.ops.len(), 2);
    assert!(t.needs_window);
    assert!(t.self_loop);
    assert_eq!(t.ops[1].extension, Some(0xFFFC));
    assert_eq!(t.max_cycles, 20 + 14);
    assert_eq!(t.code_start, 0x100);
    assert_eq!(t.code_end, 0x106);
    assert!(decode_move_mem_trace_op(0x100, 0x1248).is_none()); // MOVEA.B is not a move
}

#[test]
fn finish_trace_needs_two_operations_closed_by_a_branch() {
    let mut bus = Ram::with_words(0x100, &[0x22D8, 0x51C8, 0xFFFC]);
    let mut cpu = CpuCore::new();
    cpu.set_cpu_type(CpuType::M68040);
    let t = compile_trace(&cpu, &mut bus, 0x100, CpuType::M68040).unwrap();
    let again = finish_trace(t.ops.clone(), 0x100, CpuType::M68040, cpu.address_mask).unwrap();
    assert_eq!(again.ops.len(), 2);
    assert_eq!(again.max_cycles, t.max_cycles);
    assert_eq!(again.code_end, 0x106);
    // The move alone is not closed by a branch; the branch alone is too short.
    assert!(finish_trace(vec![t.ops[0]], 0x100, CpuType::M68040, cpu.address_mask).is_none());
    assert!(finish_trace(vec![t.ops[1]], 0x102, CpuType::M68040, cpu.address_mask).is_none());
}

#[test]
fn unlk_undoes_link() {
    // LINK A2,#-8 then UNLK A2 on a 68040: A2 and A7 come back.
    let mut bus = Ram::with_words(0x200, &[0xFFF8]);
    let mut cpu = CpuCore::new();
    cpu.set_cpu_type(CpuType::M68040);
    cpu.pc = 0x200;
    cpu.dar[15] = 0x800;
    cpu.dar[10] = 0x1234_5678;
    cpu.dar[3] = 0x55;
    assert_eq!(cpu.exec_link(&mut bus, 2), 16);
    assert_eq!(cpu.dar[10], 0x7FC);
    assert_eq!(cpu.dar[15], 0x7F4);
    assert_eq!(bus.read_long(0x7FC), 0x1234_5678);
    assert_eq!(cpu.exec_unlk(&mut bus, 2), 12);
    assert_eq!(cpu.dar[10], 0x1234_5678);
    assert_eq!(cpu.dar[15], 0x800);
    assert_eq!(cpu.dar[3], 0x55);
}

#[test]
fn move16_copies_the_source_line() {
    // MOVE16 (A0)+,(A1)+ with unaligned A0: both lines are taken whole.
    let mut bus = Ram::with_words(0x200, &[0x9000]);
    for i in 0..8u32 {
        bus.write_word(0x300 + 2 * i, 0x1100 + i as u16);
    }
    let mut cpu = CpuCore::new();
    cpu.set_cpu_type(CpuType::M68040);
    cpu.pc = 0x200;
    cpu.dar[8] = 0x306;
    cpu.dar[9] = 0x400;
    assert_eq!(cpu.exec_move16(&mut bus, 0xF620), 4);
    for i in 0..8u32 {
        assert_eq!(bus.read_word(0x400 + 2 * i), 0x1100 + i as u16);
    }
    assert_eq!(cpu.dar[8], 0x316);
    assert_eq!(cpu.dar[9], 0x410);
    assert_eq!(cpu.pc, 0x202);
}

#[test]
fn nbcd_on_memory_negates_the_byte_in_place() {
    let mut bus = Ram::with_words(0x200, &[0x4E71]);
    bus.write_byte(0x300, 0x01);
    let mut cpu = CpuCore::new();
    cpu.set_cpu_type(CpuType::M68020);
    cpu.pc = 0x200;
    cpu.dar[8] = 0x300;
    cpu.x_flag = 0;
    cpu.exec_nbcd(&mut bus, AddressingMode::AddressIndirect(0));
    assert_eq!(bus.read_byte(0x300), 0x99);
    assert_ne!(cpu.c_flag, 0);
    assert_ne!(cpu.x_flag, 0);
}

#[test]
fn moves_stores_then_loads_a_long() {
    // MOVES.L D1,(A0) then MOVES.L (A0),D2, in supervisor mode.
    let mut bus = Ram::with_words(0x200, &[0x1800, 0x2000]);
    let mut cpu = CpuCore::new();
    cpu.set_cpu_type(CpuType::M68020);
    cpu.set_sr(0x2700);
    cpu.pc = 0x200;
    cpu.dar[8] = 0x300;
    cpu.dar[1] = 0xCAFE_BABE;
    assert_eq!(cpu.exec_moves(&mut bus, 0x0E90), 4);
    assert_eq!(bus.read_long(0x300), 0xCAFE_BABE);
    assert_eq!(cpu.exec_moves(&mut bus, 0x0E90), 4);
    assert_eq!(cpu.dar[2], 0xCAFE_BABE);
    assert_eq!(cpu.pc, 0x204);
}

#[test]
fn cmp2_compares_against_the_bounds_read_after_the_extension_word() {
    // CMP2.B (A0),D1 with bounds $10..$20.
    let mut bus = Ram::with_words(0x200, &[0x1000, 0x1000]);
    bus.write_byte(0x300, 0x10);
    bus.write_byte(0x301, 0x20);
    let mut cpu = CpuCore::new();
    cpu.set_cpu_type(CpuType::M68020);
    cpu.pc = 0x200;
    cpu.dar[8] = 0x300;
    cpu.dar[1] = 0x15;
    assert_eq!(cpu.exec_cmp2_chk2(&mut bus, 0x00D0), 12);
    assert_ne!(cpu.not_z_flag, 0);
    assert_eq!(cpu.c_flag, 0);
    cpu.dar[1] = 0x10;
    assert_eq!(cpu.exec_cmp2_chk2(&mut bus, 0x00D0), 12);
    assert_eq!(cpu.not_z_flag, 0);
    assert_eq!(cpu.c_flag, 0);
}

#[test]
fn andi_long_on_a_68020_data_register_uses_both_stream_words() {
    let mut bus = Ram::with_words(0x200, &[0xFFFF, 0x0000]);
    let mut cpu = CpuCore::new();
    cpu.set_cpu_type(CpuType::M68020);
    cpu.pc = 0x200;
    cpu.dar[0] = 0x1234_5678;
    assert_eq!(cpu.exec_andi(&mut bus, Size::Long, AddressingMode::DataDirect(0)), 16);
    assert_eq!(cpu.dar[0], 0x1234_0000);
    assert_eq!(cpu.n_flag, 0);
    assert_ne!(cpu.not_z_flag, 0);
    assert_eq!(cpu.pc, 0x204);
}

#[test]
fn ori_word_to_memory_writes_back_the_combination() {
    let mut bus = Ram::with_words(0x200, &[0x0F00]);
    bus.write_word(0x300, 0x00F0);
    let mut cpu = CpuCore::new();
    cpu.set_cpu_type(CpuType::M68020);
    cpu.pc = 0x200;
    cpu.dar[8] = 0x300;
    cpu.exec_ori(&mut bus, Size::Word, AddressingMode::AddressIndirect(0));
    assert_eq!(bus.read_word(0x300), 0x0FF0);
    assert_eq!(cpu.n_flag, 0);
    assert_ne!(cpu.not_z_flag, 0);
}

#[test]
fn eori_byte_to_memory_on_the_68000_takes_the_queued_word() {
    let mut bus = Ram::with_words(0x200, &[0x00FF, 0x4E71, 0x4E71]);
    bus.write_byte(0x300, 0x0F);
    let mut cpu = CpuCore::new();
    cpu.set_cpu_type(CpuType::M68000);
    cpu.pc = 0x200;
    cpu.prefetch_queue = [0x00FF, 0x4E71];
    cpu.prefetch_count = 2;
    cpu.dar[8] = 0x300;
    cpu.exec_eori(&mut bus, Size::Byte, AddressingMode::AddressIndirect(0));
    assert_eq!(bus.read_byte(0x300), 0xF0);
    assert_ne!(cpu.n_flag, 0);
}
