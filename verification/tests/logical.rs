use m68k::cpu::CpuCore;
use m68k::ea::AddressingMode;
use m68k::memory::{AddressBus, BusLog};
use m68k::types::{CpuType, Size};

#[derive(Debug, PartialEq, Eq)]
enum Event {
    ReadWord(u32),
    Sync(u32),
    IplHold,
}

#[derive(Default)]
struct TraceBus {
    events: Vec<Event>,
}

impl AddressBus for TraceBus {
    // The call log is a model for specifications only; nothing executes it.
    fn events(&self) -> BusLog {
        unreachable!()
    }

    fn read_byte(&mut self, _address: u32) -> u8 {
        0
    }

    fn read_word(&mut self, address: u32) -> u16 {
        self.events.push(Event::ReadWord(address));
        if address == 0x2002 { 0x0000 } else { 0x4e71 }
    }

    fn read_long(&mut self, _address: u32) -> u32 {
        0
    }

    fn write_byte(&mut self, _address: u32, _value: u8) {}

    fn write_word(&mut self, _address: u32, _value: u16) {}

    fn write_long(&mut self, _address: u32, _value: u32) {}

    fn sync(&mut self, cpu_clocks: u32) {
        self.events.push(Event::Sync(cpu_clocks));
    }

    fn ipl_hold_sample(&mut self) {
        self.events.push(Event::IplHold);
    }
}

fn m68000_cpu_with_one_immediate_word() -> CpuCore {
    let mut cpu = CpuCore::new();
    cpu.set_cpu_type(CpuType::M68000);
    cpu.pc = 0x2000;
    cpu.prefetch_queue = [0xffff, 0];
    cpu.prefetch_count = 1;
    cpu
}

#[test]
fn m68000_andi_long_data_register_prefetches_before_write() {
    let mut cpu = m68000_cpu_with_one_immediate_word();
    let mut bus = TraceBus::default();
    cpu.dar[0] = 0x1234_5678;

    let cycles = cpu.exec_andi(&mut bus, Size::Long, AddressingMode::DataDirect(0));

    assert_eq!(cycles, 16);
    assert_eq!(cpu.d(0), 0x1234_0000);
    assert_eq!(cpu.prefetch_count, 2);
    assert_eq!(cpu.pending_sync_clocks, 0);
    assert_eq!(
        bus.events,
        vec![
            Event::ReadWord(0x2002),
            Event::ReadWord(0x2004),
            Event::ReadWord(0x2006),
            Event::IplHold,
            Event::Sync(4)
        ]
    );
}

#[test]
fn m68000_andi_sr_syncs_before_refill() {
    let mut cpu = m68000_cpu_with_one_immediate_word();
    let mut bus = TraceBus::default();
    cpu.set_sr(0x270f);

    let cycles = cpu.exec_andi_sr(&mut bus);

    assert_eq!(cycles, 20);
    assert_eq!(cpu.get_sr(), 0x270f);
    assert_eq!(cpu.prefetch_count, 2);
    assert_eq!(cpu.pending_sync_clocks, 0);
    assert_eq!(
        bus.events,
        vec![
            Event::ReadWord(0x2002),
            Event::Sync(8),
            Event::ReadWord(0x2002),
            Event::ReadWord(0x2004)
        ]
    );
}

#[test]
fn ori_word_to_data_register_uses_the_queued_immediate() {
    let mut cpu = CpuCore::new();
    cpu.set_cpu_type(CpuType::M68000);
    cpu.pc = 0x2000;
    cpu.prefetch_queue = [0x00F0, 0x4e71];
    cpu.prefetch_count = 2;
    let mut bus = TraceBus::default();
    cpu.dar[1] = 0xAAAA_000F;
    let cycles = cpu.exec_ori(&mut bus, Size::Word, AddressingMode::DataDirect(1));
    assert_eq!(cycles, 8);
    assert_eq!(cpu.dar[1], 0xAAAA_00FF);
    assert_eq!(cpu.v_flag, 0);
    assert_eq!(cpu.c_flag, 0);
}

#[test]
fn eori_byte_twice_restores_the_register() {
    let mut cpu = CpuCore::new();
    cpu.set_cpu_type(CpuType::M68020);
    cpu.pc = 0x2000;
    let mut bus = TraceBus::default();
    cpu.dar[2] = 0x1234_5678;
    // The bus answers 0x4e71 beyond 0x2002: the byte immediate is 0x71.
    cpu.pc = 0x2004;
    cpu.exec_eori(&mut bus, Size::Byte, AddressingMode::DataDirect(2));
    assert_eq!(cpu.dar[2], 0x1234_5609);
    cpu.pc = 0x2004;
    cpu.exec_eori(&mut bus, Size::Byte, AddressingMode::DataDirect(2));
    assert_eq!(cpu.dar[2], 0x1234_5678);
}

#[test]
fn ori_ccr_sets_the_requested_bits() {
    let mut cpu = CpuCore::new();
    cpu.set_cpu_type(CpuType::M68000);
    cpu.pc = 0x2000;
    cpu.prefetch_queue = [0x0011, 0x4e71];
    cpu.prefetch_count = 2;
    let mut bus = TraceBus::default();
    cpu.set_ccr(0x04);
    assert_eq!(cpu.exec_ori_ccr(&mut bus), 20);
    assert_eq!(cpu.get_ccr(), 0x15);
}

#[test]
fn andi_sr_in_user_mode_is_a_privilege_violation() {
    let mut cpu = CpuCore::new();
    cpu.set_cpu_type(CpuType::M68000);
    cpu.pc = 0x2000;
    cpu.set_sr(0x0000);
    cpu.dar[15] = 0x8000;
    cpu.sp[4] = 0x8000;
    let mut bus = TraceBus::default();
    let cycles = cpu.exec_andi_sr(&mut bus);
    assert_eq!(cycles, 34);
    assert!(cpu.is_supervisor());
}
