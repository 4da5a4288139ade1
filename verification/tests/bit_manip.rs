use m68k::cpu::CpuCore;
use m68k::ea::AddressingMode;
use m68k::memory::{AddressBus, BusLog};
use m68k::types::CpuType;

#[derive(Debug, PartialEq, Eq)]
enum Event {
    ReadWord(u32),
    Sync(u32),
    IplHold,
}

#[derive(Default)]
struct TraceBus {
    events: Vec<Event>,
}

impl AddressBus for TraceBus {
    // The call log is a model for specifications only; nothing executes it.
    fn events(&self) -> BusLog {
        unreachable!()
    }

    fn read_byte(&mut self, _address: u32) -> u8 {
        0
    }

    fn read_word(&mut self, address: u32) -> u16 {
        self.events.push(Event::ReadWord(address));
        0x4e71
    }

    fn read_long(&mut self, _address: u32) -> u32 {
        0
    }

    fn write_byte(&mut self, _address: u32, _value: u8) {}

    fn write_word(&mut self, _address: u32, _value: u16) {}

    fn write_long(&mut self, _address: u32, _value: u32) {}

    fn sync(&mut self, cpu_clocks: u32) {
        self.events.push(Event::Sync(cpu_clocks));
    }

    fn ipl_hold_sample(&mut self) {
        self.events.push(Event::IplHold);
    }
}

fn cpu_with_one_prefetch_word() -> CpuCore {
    let mut cpu = CpuCore::new();
    cpu.set_cpu_type(CpuType::M68000);
    cpu.pc = 0x2000;
    cpu.prefetch_queue = [0x4e71, 0];
    cpu.prefetch_count = 1;
    cpu
}

#[test]
fn m68000_btst_register_prefetches_before_internal_sync() {
    let mut cpu = cpu_with_one_prefetch_word();
    let mut bus = TraceBus::default();
    cpu.dar[0] = 0x10;

    let cycles = cpu.exec_btst(&mut bus, 4, AddressingMode::DataDirect(0));

    assert_eq!(cycles, 6);
    assert_eq!(cpu.not_z_flag, 1);
    assert_eq!(cpu.prefetch_count, 2);
    assert_eq!(cpu.pending_sync_clocks, 0);
    assert_eq!(bus.events, vec![Event::ReadWord(0x2002), Event::Sync(2)]);
}

#[test]
fn m68000_bclr_register_poll_point_precedes_internal_sync() {
    let mut cpu = cpu_with_one_prefetch_word();
    let mut bus = TraceBus::default();
    cpu.dar[0] = 1 << 20;

    let cycles = cpu.exec_bclr(&mut bus, 20, AddressingMode::DataDirect(0));

    assert_eq!(cycles, 10);
    assert_eq!(cpu.dar[0], 0);
    assert_eq!(cpu.prefetch_count, 2);
    assert_eq!(cpu.pending_sync_clocks, 0);
    assert_eq!(
        bus.events,
        vec![Event::ReadWord(0x2002), Event::IplHold, Event::Sync(6)]
    );
}

#[test]
fn bset_then_btst_sees_the_bit() {
    let mut cpu = cpu_with_one_prefetch_word();
    let mut bus = TraceBus::default();
    cpu.dar[1] = 0;
    assert_eq!(cpu.exec_bset(&mut bus, 35, AddressingMode::DataDirect(1)), 6);
    assert_eq!(cpu.dar[1], 1 << 3);
    assert_eq!(cpu.not_z_flag, 0);
    cpu.exec_btst(&mut bus, 3, AddressingMode::DataDirect(1));
    assert_eq!(cpu.not_z_flag, 1);
}

#[test]
fn bchg_twice_restores_and_high_bits_cost_more() {
    let mut cpu = cpu_with_one_prefetch_word();
    let mut bus = TraceBus::default();
    cpu.dar[2] = 0x1234_5678;
    assert_eq!(cpu.exec_bchg(&mut bus, 31, AddressingMode::DataDirect(2)), 8);
    assert_eq!(cpu.dar[2], 0x9234_5678);
    cpu.exec_bchg(&mut bus, 31, AddressingMode::DataDirect(2));
    assert_eq!(cpu.dar[2], 0x1234_5678);
}

#[test]
fn tas_sets_bit_seven_and_tests_the_old_byte() {
    let mut cpu = cpu_with_one_prefetch_word();
    let mut bus = TraceBus::default();
    cpu.dar[3] = 0xFFFF_FF00;
    assert_eq!(cpu.exec_tas(&mut bus, AddressingMode::DataDirect(3)), 4);
    assert_eq!(cpu.dar[3], 0xFFFF_FF80);
    assert!(cpu.flag_z());
    assert_eq!(cpu.n_flag, 0);
}
