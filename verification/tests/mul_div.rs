use m68k::cpu::CpuCore;
use m68k::ea::AddressingMode;
use m68k::memory::{AddressBus, BusLog};
use m68k::types::CpuType;

#[derive(Debug, PartialEq, Eq)]
enum Event {
    ReadWord(u32),
    Sync(u32),
}

#[derive(Default)]
struct TraceBus {
    events: Vec<Event>,
}

impl AddressBus for TraceBus {
    // The call log is a model for specifications only; nothing executes it.
    fn events(&self) -> BusLog {
        unreachable!()
    }

    fn read_byte(&mut self, _address: u32) -> u8 {
        0
    }

    fn read_word(&mut self, address: u32) -> u16 {
        self.events.push(Event::ReadWord(address));
        0x4e71
    }

    fn read_long(&mut self, _address: u32) -> u32 {
        0
    }

    fn write_byte(&mut self, _address: u32, _value: u8) {}

    fn write_word(&mut self, _address: u32, _value: u16) {}

    fn write_long(&mut self, _address: u32, _value: u32) {}

    fn sync(&mut self, cpu_clocks: u32) {
        self.events.push(Event::Sync(cpu_clocks));
    }
    fn ipl_hold_sample(&mut self) {}

}

fn m68000_cpu_with_one_prefetch_word() -> CpuCore {
    let mut cpu = CpuCore::new();
    cpu.set_cpu_type(CpuType::M68000);
    cpu.pc = 0x2000;
    cpu.prefetch_queue = [0x4e71, 0];
    cpu.prefetch_count = 1;
    cpu
}

#[test]
fn m68000_mulu_data_register_prefetches_before_multiplier_sync() {
    let mut cpu = m68000_cpu_with_one_prefetch_word();
    let mut bus = TraceBus::default();
    cpu.dar[0] = 0x0000_0003;
    cpu.dar[1] = 0x0000_0004;

    let cycles = cpu.exec_mulu(&mut bus, AddressingMode::DataDirect(0), 1);

    assert_eq!(cycles, 42);
    assert_eq!(cpu.dar[1], 0x0000_000C);
    assert_eq!(cpu.prefetch_count, 2);
    assert_eq!(cpu.pending_sync_clocks, 0);
    assert_eq!(bus.events, vec![Event::ReadWord(0x2002), Event::Sync(38)]);
}

#[test]
fn m68000_muls_data_register_prefetches_before_multiplier_sync() {
    let mut cpu = m68000_cpu_with_one_prefetch_word();
    let mut bus = TraceBus::default();
    cpu.dar[0] = 0x0000_FFFF;
    cpu.dar[1] = 0x0000_0002;

    let cycles = cpu.exec_muls(&mut bus, AddressingMode::DataDirect(0), 1);

    assert_eq!(cycles, 40);
    assert_eq!(cpu.dar[1], 0xFFFF_FFFE);
    assert_eq!(cpu.prefetch_count, 2);
    assert_eq!(cpu.pending_sync_clocks, 0);
    assert_eq!(bus.events, vec![Event::ReadWord(0x2002), Event::Sync(36)]);
}

#[test]
fn mulu_of_largest_words_is_exact() {
    let mut cpu = CpuCore::new();
    cpu.set_cpu_type(CpuType::M68020);
    let mut bus = TraceBus::default();
    cpu.dar[0] = 0xFFFF;
    cpu.dar[1] = 0x1234_FFFF;
    assert_eq!(cpu.exec_mulu(&mut bus, AddressingMode::DataDirect(0), 1), 42);
    assert_eq!(cpu.dar[1], 0xFFFE_0001);
    assert_ne!(cpu.n_flag, 0);
}

#[test]
fn divu_stores_remainder_and_quotient() {
    let mut cpu = CpuCore::new();
    cpu.set_cpu_type(CpuType::M68020);
    let mut bus = TraceBus::default();
    cpu.dar[0] = 7;
    cpu.dar[1] = 100;
    assert_eq!(cpu.exec_divu(&mut bus, AddressingMode::DataDirect(0), 1), 140);
    assert_eq!(cpu.dar[1], (2 << 16) | 14);
    assert_eq!(cpu.v_flag, 0);
}

#[test]
fn divu_overflow_sets_v_and_keeps_the_register() {
    let mut cpu = CpuCore::new();
    cpu.set_cpu_type(CpuType::M68020);
    let mut bus = TraceBus::default();
    cpu.dar[0] = 1;
    cpu.dar[1] = 0x0001_0000;
    cpu.exec_divu(&mut bus, AddressingMode::DataDirect(0), 1);
    assert_eq!(cpu.dar[1], 0x0001_0000);
    assert_eq!(cpu.v_flag, 0x80);
}

#[test]
fn divu_by_zero_traps() {
    let mut cpu = CpuCore::new();
    cpu.set_cpu_type(CpuType::M68000);
    let mut bus = TraceBus::default();
    cpu.dar[0] = 0;
    cpu.dar[1] = 1234;
    assert_eq!(cpu.exec_divu(&mut bus, AddressingMode::DataDirect(0), 1), 38);
    assert_eq!(cpu.dar[1], 1234);
}

#[test]
fn divs_rounds_toward_zero() {
    let mut cpu = CpuCore::new();
    cpu.set_cpu_type(CpuType::M68020);
    let mut bus = TraceBus::default();
    cpu.dar[0] = 2;
    cpu.dar[1] = (-7i32) as u32;
    assert_eq!(cpu.exec_divs(&mut bus, AddressingMode::DataDirect(0), 1), 158);
    assert_eq!(cpu.dar[1] & 0xFFFF, (-3i16) as u16 as u32);
    assert_eq!(cpu.dar[1] >> 16, (-1i16) as u16 as u32);
    assert_ne!(cpu.n_flag, 0);
}

#[test]
fn divs_of_most_negative_by_minus_one_clears_the_register() {
    let mut cpu = CpuCore::new();
    cpu.set_cpu_type(CpuType::M68020);
    let mut bus = TraceBus::default();
    cpu.dar[0] = 0xFFFF;
    cpu.dar[1] = 0x8000_0000;
    cpu.exec_divs(&mut bus, AddressingMode::DataDirect(0), 1);
    assert_eq!(cpu.dar[1], 0);
    assert_eq!(cpu.v_flag, 0);
}

#[test]
fn m68000_divu_clocks_fall_in_the_documented_range() {
    let mut cpu = m68000_cpu_with_one_prefetch_word();
    let mut bus = TraceBus::default();
    cpu.dar[0] = 0x1234;
    cpu.dar[1] = 0x0012_3456;
    let cycles = cpu.exec_divu(&mut bus, AddressingMode::DataDirect(0), 1);
    assert!((76..=136).contains(&cycles));
    assert_eq!(cpu.dar[1] & 0xFFFF, 0x0012_3456 / 0x1234);
    assert_eq!(cpu.dar[1] >> 16, 0x0012_3456 % 0x1234);
}
