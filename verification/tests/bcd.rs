use m68k::cpu::CpuCore;
use m68k::ea::AddressingMode;
use m68k::memory::{AddressBus, BusLog};
use m68k::types::CpuType;

#[derive(Debug, PartialEq, Eq)]
enum Event {
    ReadWord(u32),
    Sync(u32),
    IplHold,
}

#[derive(Default)]
struct TraceBus {
    events: Vec<Event>,
}

impl AddressBus for TraceBus {
    // The call log is a model for specifications only; nothing executes it.
    fn events(&self) -> BusLog {
        unreachable!()
    }

    fn read_byte(&mut self, _address: u32) -> u8 {
        0
    }

    fn read_word(&mut self, address: u32) -> u16 {
        self.events.push(Event::ReadWord(address));
        0x4e71
    }

    fn read_long(&mut self, _address: u32) -> u32 {
        0
    }

    fn write_byte(&mut self, _address: u32, _value: u8) {}

    fn write_word(&mut self, _address: u32, _value: u16) {}

    fn write_long(&mut self, _address: u32, _value: u32) {}

    fn sync(&mut self, cpu_clocks: u32) {
        self.events.push(Event::Sync(cpu_clocks));
    }

    fn ipl_hold_sample(&mut self) {
        self.events.push(Event::IplHold);
    }
}

/// A bus backed by a small RAM, for the memory forms.
struct RamBus {
    ram: Vec<u8>,
}

impl AddressBus for RamBus {
    // The call log is a model for specifications only; nothing executes it.
    fn events(&self) -> BusLog {
        unreachable!()
    }

    fn read_byte(&mut self, address: u32) -> u8 {
        self.ram[address as usize]
    }

    fn read_word(&mut self, address: u32) -> u16 {
        let a = address as usize;
        ((self.ram[a] as u16) << 8) | self.ram[a + 1] as u16
    }

    fn read_long(&mut self, address: u32) -> u32 {
        ((self.read_word(address) as u32) << 16) | self.read_word(address + 2) as u32
    }

    fn write_byte(&mut self, address: u32, value: u8) {
        self.ram[address as usize] = value;
    }

    fn write_word(&mut self, address: u32, value: u16) {
        let a = address as usize;
        self.ram[a] = (value >> 8) as u8;
        self.ram[a + 1] = value as u8;
    }

    fn write_long(&mut self, address: u32, value: u32) {
        self.write_word(address, (value >> 16) as u16);
        self.write_word(address + 2, value as u16);
    }
    fn sync(&mut self, _cpu_clocks: u32) {}

    fn ipl_hold_sample(&mut self) {}

}

fn m68000_cpu_with_one_prefetch_word() -> CpuCore {
    let mut cpu = CpuCore::new();
    cpu.set_cpu_type(CpuType::M68000);
    cpu.pc = 0x2000;
    cpu.prefetch_queue = [0x4e71, 0];
    cpu.prefetch_count = 1;
    cpu
}

#[test]
fn m68000_abcd_data_register_prefetches_before_internal_sync() {
    let mut cpu = m68000_cpu_with_one_prefetch_word();
    let mut bus = TraceBus::default();
    cpu.dar[0] = 0x0000_0012;
    cpu.dar[1] = 0x1234_5634;

    let cycles = cpu.exec_abcd_rr(&mut bus, 0, 1);

    assert_eq!(cycles, 6);
    assert_eq!(cpu.dar[1], 0x1234_5646);
    assert_eq!(cpu.prefetch_count, 2);
    assert_eq!(cpu.pending_sync_clocks, 0);
    assert_eq!(
        bus.events,
        vec![Event::ReadWord(0x2002), Event::IplHold, Event::Sync(2)]
    );
}

#[test]
fn m68000_sbcd_data_register_prefetches_before_internal_sync() {
    let mut cpu = m68000_cpu_with_one_prefetch_word();
    let mut bus = TraceBus::default();
    cpu.dar[0] = 0x0000_0012;
    cpu.dar[1] = 0x1234_5645;

    let cycles = cpu.exec_sbcd_rr(&mut bus, 0, 1);

    assert_eq!(cycles, 6);
    assert_eq!(cpu.dar[1], 0x1234_5633);
    assert_eq!(cpu.prefetch_count, 2);
    assert_eq!(cpu.pending_sync_clocks, 0);
    assert_eq!(
        bus.events,
        vec![Event::ReadWord(0x2002), Event::IplHold, Event::Sync(2)]
    );
}

#[test]
fn m68000_nbcd_data_register_prefetches_before_internal_sync() {
    let mut cpu = m68000_cpu_with_one_prefetch_word();
    let mut bus = TraceBus::default();
    cpu.dar[0] = 0x1234_5601;

    let cycles = cpu.exec_nbcd(&mut bus, AddressingMode::DataDirect(0));

    assert_eq!(cycles, 6);
    assert_eq!(cpu.dar[0], 0x1234_5699);
    assert_eq!(cpu.prefetch_count, 2);
    assert_eq!(cpu.pending_sync_clocks, 0);
    assert_eq!(
        bus.events,
        vec![Event::ReadWord(0x2002), Event::IplHold, Event::Sync(2)]
    );
}

#[test]
fn abcd_decimal_carry_sets_x_and_c() {
    let mut cpu = m68000_cpu_with_one_prefetch_word();
    let mut bus = TraceBus::default();
    cpu.dar[0] = 0x55;
    cpu.dar[1] = 0x47;
    cpu.exec_abcd_rr(&mut bus, 0, 1);
    assert_eq!(cpu.dar[1] & 0xFF, 0x02);
    assert_ne!(cpu.c_flag, 0);
    assert_ne!(cpu.x_flag, 0);
    assert!(!cpu.flag_z());
}

#[test]
fn abcd_adds_the_extend_bit() {
    let mut cpu = m68000_cpu_with_one_prefetch_word();
    let mut bus = TraceBus::default();
    cpu.x_flag = 0x100;
    cpu.dar[0] = 0x19;
    cpu.dar[1] = 0x29;
    cpu.exec_abcd_rr(&mut bus, 0, 1);
    assert_eq!(cpu.dar[1] & 0xFF, 0x49);
    assert_eq!(cpu.c_flag, 0);
}

#[test]
fn sbcd_borrow_wraps_modulo_100() {
    let mut cpu = m68000_cpu_with_one_prefetch_word();
    let mut bus = TraceBus::default();
    cpu.dar[0] = 0x25;
    cpu.dar[1] = 0x10;
    cpu.exec_sbcd_rr(&mut bus, 0, 1);
    assert_eq!(cpu.dar[1] & 0xFF, 0x85);
    assert_ne!(cpu.c_flag, 0);
}

#[test]
fn nbcd_of_zero_without_extend_is_zero_and_keeps_z() {
    let mut cpu = m68000_cpu_with_one_prefetch_word();
    let mut bus = TraceBus::default();
    cpu.dar[2] = 0xAB00;
    cpu.not_z_flag = 0;
    cpu.x_flag = 0;
    cpu.exec_nbcd(&mut bus, AddressingMode::DataDirect(2));
    assert_eq!(cpu.dar[2], 0xAB00);
    assert_eq!(cpu.c_flag, 0);
    assert!(cpu.flag_z());
}

#[test]
fn abcd_memory_form_predecrements_both_registers() {
    let mut cpu = m68000_cpu_with_one_prefetch_word();
    let mut bus = RamBus { ram: vec![0; 0x3000] };
    cpu.dar[8] = 0x101;
    cpu.dar[9] = 0x201;
    bus.ram[0x100] = 0x38;
    bus.ram[0x200] = 0x04;
    let cycles = cpu.exec_abcd_mm(&mut bus, 0, 1);
    assert_eq!(cycles, 18);
    assert_eq!(cpu.dar[8], 0x100);
    assert_eq!(cpu.dar[9], 0x200);
    assert_eq!(bus.ram[0x200], 0x42);
}

#[test]
fn pack_and_unpack_registers() {
    let mut cpu = CpuCore::new();
    cpu.set_cpu_type(CpuType::M68020);
    cpu.dar[0] = 0x0000_0304;
    cpu.dar[1] = 0xFFFF_FFFF;
    assert_eq!(cpu.exec_pack_rr(0, 1, 0), 6);
    assert_eq!(cpu.dar[1], 0xFFFF_FF34);
    cpu.dar[2] = 0x0000_0034;
    cpu.dar[3] = 0xFFFF_FFFF;
    assert_eq!(cpu.exec_unpk_rr(2, 3, 0x3030), 8);
    assert_eq!(cpu.dar[3], 0xFFFF_3334);
}

#[test]
fn pack_adds_the_adjustment_before_packing() {
    let mut cpu = CpuCore::new();
    cpu.set_cpu_type(CpuType::M68020);
    cpu.dar[0] = 0x3132;
    cpu.exec_pack_rr(0, 1, 0xCFD0);
    assert_eq!(cpu.dar[1] & 0xFF, 0x12);
}
