use m68k::cpu::CpuCore;
use m68k::ea::AddressingMode;
use m68k::memory::{AddressBus, BusLog};
use m68k::types::{CpuType, Size};

#[derive(Debug, PartialEq, Eq)]
enum Event {
    ReadWord(u32),
    WriteWord(u32, u16),
    Sync(u32),
    IplHold,
}

#[derive(Default)]
struct TraceBus {
    events: Vec<Event>,
}

impl AddressBus for TraceBus {
    // The call log is a model for specifications only; nothing executes it.
    fn events(&self) -> BusLog {
        unreachable!()
    }

    fn read_byte(&mut self, _address: u32) -> u8 {
        0
    }

    fn read_word(&mut self, address: u32) -> u16 {
        self.events.push(Event::ReadWord(address));
        0x4e71
    }

    fn read_long(&mut self, address: u32) -> u32 {
        (u32::from(self.read_word(address)) << 16) | u32::from(self.read_word(address.wrapping_add(2)))
    }

    fn write_byte(&mut self, _address: u32, _value: u8) {}

    fn write_word(&mut self, address: u32, value: u16) {
        self.events.push(Event::WriteWord(address, value));
    }

    fn write_long(&mut self, address: u32, value: u32) {
        self.write_word(address, (value >> 16) as u16);
        self.write_word(address.wrapping_add(2), value as u16);
    }

    fn sync(&mut self, cpu_clocks: u32) {
        self.events.push(Event::Sync(cpu_clocks));
    }

    fn ipl_hold_sample(&mut self) {
        self.events.push(Event::IplHold);
    }
}

fn m68000_cpu_with_one_prefetch_word() -> CpuCore {
    let mut cpu = CpuCore::new();
    cpu.set_cpu_type(CpuType::M68000);
    cpu.pc = 0x2000;
    cpu.prefetch_queue = [0x4e71, 0];
    cpu.prefetch_count = 1;
    cpu
}

#[test]
fn m68000_swap_prefetches_before_register_update() {
    let mut cpu = m68000_cpu_with_one_prefetch_word();
    let mut bus = TraceBus::default();
    cpu.dar[0] = 0x1234_ABCD;

    let cycles = cpu.exec_swap(&mut bus, 0);

    assert_eq!(cycles, 4);
    assert_eq!(cpu.dar[0], 0xABCD_1234);
    assert_eq!(cpu.prefetch_count, 2);
    assert_eq!(bus.events, vec![Event::ReadWord(0x2002), Event::IplHold]);
}

#[test]
fn m68000_movea_prefetches_before_address_register_update() {
    let mut cpu = m68000_cpu_with_one_prefetch_word();
    let mut bus = TraceBus::default();
    cpu.dar[0] = 0xffff_8000;

    let cycles = cpu.exec_movea(&mut bus, Size::Word, AddressingMode::DataDirect(0), 1);

    assert_eq!(cycles, 4);
    assert_eq!(cpu.dar[9], 0xffff_8000);
    assert_eq!(cpu.prefetch_count, 2);
    assert_eq!(bus.events, vec![Event::ReadWord(0x2002), Event::IplHold]);
}

#[test]
fn m68000_exg_prefetches_before_internal_sync() {
    let mut cpu = m68000_cpu_with_one_prefetch_word();
    let mut bus = TraceBus::default();
    cpu.dar[0] = 0x1111_2222;
    cpu.dar[1] = 0x3333_4444;

    let cycles = cpu.exec_exg(&mut bus, 0xC141);

    assert_eq!(cycles, 6);
    assert_eq!(cpu.dar[0], 0x3333_4444);
    assert_eq!(cpu.dar[1], 0x1111_2222);
    assert_eq!(cpu.prefetch_count, 2);
    assert_eq!(cpu.pending_sync_clocks, 0);
    assert_eq!(
        bus.events,
        vec![Event::ReadWord(0x2002), Event::IplHold, Event::Sync(2)]
    );
}

#[test]
fn m68000_movem_long_predecrement_writes_low_word_before_high_word() {
    let mut cpu = CpuCore::new();
    cpu.set_cpu_type(CpuType::M68000);
    let mut bus = TraceBus::default();
    cpu.dar[0] = 0x1122_3344;
    cpu.dar[10] = 0x1000;

    let cycles = cpu.exec_movem_to_mem(&mut bus, Size::Long, AddressingMode::PreDecrement(2), 0x8000);

    assert_eq!(cycles, 16);
    assert_eq!(cpu.dar[10], 0x0FFC);
    assert_eq!(
        bus.events,
        vec![
            Event::WriteWord(0x0FFE, 0x3344),
            Event::WriteWord(0x0FFC, 0x1122),
        ]
    );
}

#[test]
fn m68000_movem_long_memory_to_register_dummies_before_first_transfer() {
    let mut cpu = CpuCore::new();
    cpu.set_cpu_type(CpuType::M68000);
    let mut bus = TraceBus::default();
    cpu.dar[10] = 0x1000;

    let cycles = cpu.exec_movem_to_reg(&mut bus, Size::Long, AddressingMode::AddressIndirect(2), 0x0001);

    assert_eq!(cycles, 20);
    assert_eq!(
        bus.events,
        vec![
            Event::ReadWord(0x1000),
            Event::ReadWord(0x1000),
            Event::ReadWord(0x1002),
        ]
    );
}

#[test]
fn m68000_movem_word_memory_to_register_dummies_after_last_transfer() {
    let mut cpu = CpuCore::new();
    cpu.set_cpu_type(CpuType::M68000);
    let mut bus = TraceBus::default();
    cpu.dar[10] = 0x1000;

    let cycles = cpu.exec_movem_to_reg(&mut bus, Size::Word, AddressingMode::AddressIndirect(2), 0x0003);

    assert_eq!(cycles, 20);
    assert_eq!(
        bus.events,
        vec![
            Event::ReadWord(0x1000),
            Event::ReadWord(0x1002),
            Event::ReadWord(0x1004),
        ]
    );
}

#[test]
fn swap_twice_restores_the_register() {
    let mut cpu = m68000_cpu_with_one_prefetch_word();
    let mut bus = TraceBus::default();
    cpu.dar[3] = 0xDEAD_BEEF;
    cpu.exec_swap(&mut bus, 3);
    assert_eq!(cpu.dar[3], 0xBEEF_DEAD);
    assert!(cpu.n_flag != 0);
    cpu.exec_swap(&mut bus, 3);
    assert_eq!(cpu.dar[3], 0xDEAD_BEEF);
}

#[test]
fn exg_data_and_address_register() {
    let mut cpu = m68000_cpu_with_one_prefetch_word();
    let mut bus = TraceBus::default();
    cpu.dar[2] = 5;
    cpu.dar[11] = 7;
    // EXG D2,A3: 1100 010 1 10001 011
    cpu.exec_exg(&mut bus, 0xC58B);
    assert_eq!(cpu.dar[2], 7);
    assert_eq!(cpu.dar[11], 5);
}

#[test]
fn move_register_to_register_sets_logic_flags() {
    let mut cpu = m68000_cpu_with_one_prefetch_word();
    let mut bus = TraceBus::default();
    cpu.dar[0] = 0x0000_0080;
    cpu.dar[1] = 0xFFFF_FFFF;
    cpu.v_flag = 0x80;
    cpu.c_flag = 0x100;
    let cycles = cpu.exec_move(&mut bus, Size::Byte, AddressingMode::DataDirect(0), AddressingMode::DataDirect(1));
    assert_eq!(cycles, 4);
    assert_eq!(cpu.dar[1], 0xFFFF_FF80);
    assert!(cpu.n_flag != 0);
    assert_eq!(cpu.v_flag, 0);
    assert_eq!(cpu.c_flag, 0);
}

#[test]
fn movem_counts_eight_clocks_per_long_register() {
    let mut cpu = CpuCore::new();
    cpu.set_cpu_type(CpuType::M68020);
    let mut bus = TraceBus::default();
    cpu.dar[10] = 0x1000;
    let cycles = cpu.exec_movem_to_mem(&mut bus, Size::Long, AddressingMode::AddressIndirect(2), 0x00FF);
    assert_eq!(cycles, 8 + 8 * 8);
}
