use m68k::cpu::CpuCore;
use m68k::ea::AddressingMode;
use m68k::memory::{AddressBus, BusLog};
use m68k::types::{CpuType, Size};

#[derive(Debug, PartialEq, Eq)]
enum Event {
    ReadWord(u32),
    WriteWord(u32, u16),
    Sync(u32),
    IplHold,
}

#[derive(Default)]
struct TraceBus {
    events: Vec<Event>,
}

impl AddressBus for TraceBus {
    // The call log is a model for specifications only; nothing executes it.
    fn events(&self) -> BusLog {
        unreachable!()
    }

    fn read_byte(&mut self, _address: u32) -> u8 {
        0
    }

    fn read_word(&mut self, address: u32) -> u16 {
        self.events.push(Event::ReadWord(address));
        0x4e71
    }

    fn read_long(&mut self, _address: u32) -> u32 {
        0
    }

    fn write_byte(&mut self, _address: u32, _value: u8) {}

    fn write_word(&mut self, address: u32, value: u16) {
        self.events.push(Event::WriteWord(address, value));
    }

    fn write_long(&mut self, _address: u32, _value: u32) {}

    fn sync(&mut self, cpu_clocks: u32) {
        self.events.push(Event::Sync(cpu_clocks));
    }

    fn ipl_hold_sample(&mut self) {
        self.events.push(Event::IplHold);
    }
}

fn cpu_with_one_prefetch_word() -> CpuCore {
    let mut cpu = CpuCore::new();
    cpu.set_cpu_type(CpuType::M68000);
    cpu.pc = 0x2000;
    cpu.prefetch_queue = [0x4e71, 0];
    cpu.prefetch_count = 1;
    cpu
}

#[test]
fn m68000_subq_long_data_register_prefetches_before_internal_sync() {
    let mut cpu = cpu_with_one_prefetch_word();
    let mut bus = TraceBus::default();
    cpu.dar[1] = 0x0001_0000;

    let cycles = cpu.exec_subq(&mut bus, Size::Long, 1, AddressingMode::DataDirect(1));

    assert_eq!(cycles, 8);
    assert_eq!(cpu.dar[1], 0x0000_FFFF);
    assert_eq!(cpu.prefetch_count, 2);
    assert_eq!(cpu.pending_sync_clocks, 0);
    assert_eq!(
        bus.events,
        vec![Event::ReadWord(0x2002), Event::IplHold, Event::Sync(4)]
    );
}

#[test]
fn m68000_addq_word_data_register_polls_on_final_prefetch() {
    let mut cpu = cpu_with_one_prefetch_word();
    let mut bus = TraceBus::default();
    cpu.dar[2] = 0x1234_00FF;

    let cycles = cpu.exec_addq(&mut bus, Size::Word, 1, AddressingMode::DataDirect(2));

    assert_eq!(cycles, 4);
    assert_eq!(cpu.dar[2], 0x1234_0100);
    assert_eq!(cpu.prefetch_count, 2);
    assert_eq!(cpu.pending_sync_clocks, 0);
    assert_eq!(bus.events, vec![Event::ReadWord(0x2002), Event::IplHold]);
}

#[test]
fn m68000_addq_address_register_syncs_before_write() {
    let mut cpu = cpu_with_one_prefetch_word();
    let mut bus = TraceBus::default();
    cpu.dar[8 + 3] = 0x0000_1000;

    let cycles = cpu.exec_addq(&mut bus, Size::Long, 8, AddressingMode::AddressDirect(3));

    assert_eq!(cycles, 8);
    assert_eq!(cpu.dar[8 + 3], 0x0000_1008);
    assert_eq!(cpu.prefetch_count, 2);
    assert_eq!(cpu.pending_sync_clocks, 0);
    assert_eq!(
        bus.events,
        vec![Event::ReadWord(0x2002), Event::IplHold, Event::Sync(4)]
    );
}

#[test]
fn m68000_neg_long_data_register_prefetches_before_internal_sync() {
    let mut cpu = cpu_with_one_prefetch_word();
    let mut bus = TraceBus::default();
    cpu.dar[0] = 0x0000_0001;

    let cycles = cpu.exec_neg(&mut bus, Size::Long, AddressingMode::DataDirect(0));

    assert_eq!(cycles, 6);
    assert_eq!(cpu.dar[0], 0xFFFF_FFFF);
    assert_eq!(cpu.prefetch_count, 2);
    assert_eq!(cpu.pending_sync_clocks, 0);
    assert_eq!(
        bus.events,
        vec![Event::ReadWord(0x2002), Event::IplHold, Event::Sync(2)]
    );
}

#[test]
fn m68000_clr_byte_data_register_polls_on_final_prefetch() {
    let mut cpu = cpu_with_one_prefetch_word();
    let mut bus = TraceBus::default();
    cpu.dar[0] = 0x1234_56FF;

    let cycles = cpu.exec_clr(&mut bus, Size::Byte, AddressingMode::DataDirect(0));

    assert_eq!(cycles, 4);
    assert_eq!(cpu.dar[0], 0x1234_5600);
    assert_eq!(cpu.prefetch_count, 2);
    assert_eq!(cpu.pending_sync_clocks, 0);
    assert_eq!(bus.events, vec![Event::ReadWord(0x2002), Event::IplHold]);
}

fn cpu_for_chk_exception() -> CpuCore {
    let mut cpu = CpuCore::new();
    cpu.set_cpu_type(CpuType::M68000);
    cpu.dar[15] = 0x1000;
    cpu.pc = 0x2004;
    cpu.ppc = 0x2000;
    cpu
}

#[test]
fn m68000_chk_upper_bound_trap_uses_short_exception_path() {
    let mut cpu = cpu_for_chk_exception();
    let mut bus = TraceBus::default();
    cpu.dar[0] = 5;

    let cycles = cpu.exec_chk(&mut bus, Size::Word, 3, 0);

    assert_eq!(cycles, 38);
    assert_eq!(
        &bus.events[..4],
        &[
            Event::Sync(8),
            Event::WriteWord(0x0FFE, 0x2004),
            Event::WriteWord(0x0FFA, cpu.get_sr()),
            Event::WriteWord(0x0FFC, 0x0000),
        ]
    );
}

#[test]
fn m68000_chk_negative_after_upper_bound_uses_long_exception_path() {
    let mut cpu = cpu_for_chk_exception();
    let mut bus = TraceBus::default();
    cpu.dar[0] = 0xFFFF_FFFF;

    let cycles = cpu.exec_chk(&mut bus, Size::Word, 3, 0);

    assert_eq!(cycles, 40);
    assert_eq!(
        &bus.events[..4],
        &[
            Event::Sync(10),
            Event::WriteWord(0x0FFE, 0x2004),
            Event::WriteWord(0x0FFA, cpu.get_sr()),
            Event::WriteWord(0x0FFC, 0x0000),
        ]
    );
}

#[test]
fn m68000_chk_negative_upper_compare_overflow_uses_short_exception_path() {
    let mut cpu = cpu_for_chk_exception();
    let mut bus = TraceBus::default();
    cpu.dar[0] = 0xFFFF_A167; // -24217

    let cycles = cpu.exec_chk(&mut bus, Size::Word, 0x5836, 0); // 22582

    assert_eq!(cycles, 38);
    assert_eq!(
        &bus.events[..4],
        &[
            Event::Sync(8),
            Event::WriteWord(0x0FFE, 0x2004),
            Event::WriteWord(0x0FFA, cpu.get_sr()),
            Event::WriteWord(0x0FFC, 0x0000),
        ]
    );
}

#[test]
fn m68000_chk_negative_can_trap_on_upper_bound_first() {
    let mut cpu = cpu_for_chk_exception();
    let mut bus = TraceBus::default();
    cpu.dar[0] = 0xFFFF_FF00; // -256

    let cycles = cpu.exec_chk(&mut bus, Size::Word, 0x8000, 0); // -32768

    assert_eq!(cycles, 38);
    assert_eq!(bus.events.first(), Some(&Event::Sync(8)));
}
