use m68k::cpu::CpuCore;
use m68k::memory::{AddressBus, BusLog};
use m68k::op_cache::{
    decoded_op_cache_index, BinaryOp, CachedRunResult, DecodedSimpleOp, DirectReg, UnaryOp,
};
use m68k::types::{CpuType, Size};

struct Ram {
    bytes: Vec<u8>,
}

impl Ram {
    fn with_words(base: u32, words: &[u16]) -> Ram {
        let mut bytes = vec![0u8; 0x1000];
        for (i, w) in words.iter().enumerate() {
            let at = base as usize + 2 * i;
            bytes[at] = (w >> 8) as u8;
            bytes[at + 1] = *w as u8;
        }
        Ram { bytes }
    }
}

impl AddressBus for Ram {
    // The call log is a model for specifications only; nothing executes it.
    fn events(&self) -> BusLog {
        unreachable!()
    }

    fn read_byte(&mut self, address: u32) -> u8 {
        self.bytes[address as usize % 0x1000]
    }
    fn read_word(&mut self, address: u32) -> u16 {
        let a = address as usize % 0x1000;
        u16::from_be_bytes([self.bytes[a], self.bytes[a + 1]])
    }
    fn read_long(&mut self, address: u32) -> u32 {
        ((self.read_word(address) as u32) << 16) | self.read_word(address + 2) as u32
    }
    fn write_byte(&mut self, address: u32, value: u8) {
        self.bytes[address as usize % 0x1000] = value;
    }
    fn write_word(&mut self, address: u32, value: u16) {
        let a = address as usize % 0x1000;
        self.bytes[a..a + 2].copy_from_slice(&value.to_be_bytes());
    }
    fn write_long(&mut self, address: u32, value: u32) {
        self.write_word(address, (value >> 16) as u16);
        self.write_word(address + 2, value as u16);
    }
    fn sync(&mut self, _cpu_clocks: u32) {}

    fn ipl_hold_sample(&mut self) {}

}

#[test]
fn decodes_register_forms() {
    assert_eq!(
        DecodedSimpleOp::decode(CpuType::M68000, 0x7001),
        Some(DecodedSimpleOp::Moveq { reg: 0, data: 1 })
    );
    assert_eq!(
        DecodedSimpleOp::decode(CpuType::M68000, 0x70FF),
        Some(DecodedSimpleOp::Moveq { reg: 0, data: 0xFFFF_FFFF })
    );
    assert_eq!(
        DecodedSimpleOp::decode(CpuType::M68000, 0xD280),
        Some(DecodedSimpleOp::BinaryDataReg {
            op: BinaryOp::Add,
            src: DirectReg::Data(0),
            dst: 1,
            size: Size::Long,
            cycles: 4,
        })
    );
    assert_eq!(
        DecodedSimpleOp::decode(CpuType::M68000, 0x4240),
        Some(DecodedSimpleOp::UnaryDataReg { op: UnaryOp::Clr, reg: 0, size: Size::Word })
    );
    assert_eq!(DecodedSimpleOp::decode(CpuType::M68000, 0x4E71), Some(DecodedSimpleOp::Nop));
}

#[test]
fn rejects_memory_and_model_specific_forms() {
    // MOVE.L (A0)+,(A1)+ touches memory.
    assert_eq!(DecodedSimpleOp::decode(CpuType::M68000, 0x22D8), None);
    // MOVE.B D0,A1 does not exist.
    assert_eq!(DecodedSimpleOp::decode(CpuType::M68000, 0x1240), None);
    // EXTB.L is 68020+.
    assert_eq!(DecodedSimpleOp::decode(CpuType::M68000, 0x49C0), None);
    assert_eq!(
        DecodedSimpleOp::decode(CpuType::M68020, 0x49C0),
        Some(DecodedSimpleOp::Extb { reg: 0 })
    );
    // BRA.W and BSR.S need the interpreter.
    assert_eq!(DecodedSimpleOp::decode(CpuType::M68000, 0x6000), None);
    assert_eq!(DecodedSimpleOp::decode(CpuType::M68000, 0x6104), None);
}

#[test]
fn execute_moveq_and_add() {
    let mut cpu = CpuCore::new();
    let moveq = DecodedSimpleOp::decode(CpuType::M68000, 0x7205).unwrap(); // MOVEQ #5,D1
    assert_eq!(moveq.execute(&mut cpu), 4);
    assert_eq!(cpu.d(1), 5);
    let add = DecodedSimpleOp::decode(CpuType::M68000, 0xD281).unwrap(); // ADD.L D1,D1
    assert_eq!(add.execute(&mut cpu), 4);
    assert_eq!(cpu.d(1), 10);
    let bclr = DecodedSimpleOp::decode(CpuType::M68000, 0x0381).unwrap(); // BCLR D1,D1
    assert_eq!(bclr.execute(&mut cpu), 10);
    assert_eq!(cpu.d(1), 10 & !(1 << 10));
}

#[test]
fn cache_slot_follows_the_word_address() {
    assert_eq!(decoded_op_cache_index(0x0000), 0);
    assert_eq!(decoded_op_cache_index(0x0102), 0x81);
    assert_eq!(decoded_op_cache_index(0x2000), 0);
}

#[test]
fn run_stops_at_first_instruction_without_simple_decode() {
    // MOVEQ #3,D0 ; ADDQ.L #1,D0 ; MOVE.L D0,(A0)
    let mut bus = Ram::with_words(0x100, &[0x7003, 0x5280, 0x2080]);
    let mut cpu = CpuCore::new();
    cpu.set_cpu_type(CpuType::M68020);
    cpu.pc = 0x100;
    cpu.cycles_remaining = 1000;
    let r = cpu.execute_decoded_simple_run(&mut bus);
    assert_eq!(r, CachedRunResult::Miss(0x2080));
    assert_eq!(cpu.d(0), 4);
    assert_eq!(cpu.ir, 0x2080);
    assert_eq!(cpu.cycles_remaining, 992);
    // The second pass hits the cache and behaves the same.
    cpu.pc = 0x100;
    cpu.set_d(0, 0);
    let r = cpu.execute_decoded_simple_run(&mut bus);
    assert_eq!(r, CachedRunResult::Miss(0x2080));
    assert_eq!(cpu.d(0), 4);
}

#[test]
fn run_spends_the_budget() {
    // BRA.S * : an endless loop of ten-clock taken branches.
    let mut bus = Ram::with_words(0x100, &[0x60FE]);
    let mut cpu = CpuCore::new();
    cpu.set_cpu_type(CpuType::M68020);
    cpu.pc = 0x100;
    cpu.cycles_remaining = 25;
    assert_eq!(cpu.execute_decoded_simple_run(&mut bus), CachedRunResult::Ran);
    assert_eq!(cpu.cycles_remaining, -5);
    assert_eq!(cpu.pc, 0x100);
}

#[test]
fn odd_program_counter_faults_on_the_68000() {
    let mut bus = Ram::with_words(0x100, &[0x4E71]);
    let mut cpu = CpuCore::new();
    cpu.pc = 0x101;
    cpu.cycles_remaining = 100;
    assert_eq!(cpu.execute_decoded_simple_run(&mut bus), CachedRunResult::Fault);
}

#[test]
fn clearing_the_cache_empties_every_slot() {
    let mut bus = Ram::with_words(0x100, &[0x7003, 0x2080]);
    let mut cpu = CpuCore::new();
    cpu.set_cpu_type(CpuType::M68020);
    cpu.pc = 0x100;
    cpu.cycles_remaining = 100;
    let _ = cpu.execute_decoded_simple_run(&mut bus);
    assert!(cpu.decoded_op_cache.iter().any(|e| e.is_some()));
    cpu.clear_decoded_op_cache();
    assert!(cpu.decoded_op_cache.iter().all(|e| e.is_none()));
}
