use m68k::cpu::CpuCore;
use m68k::memory::{AddressBus, BusLog};
use m68k::types::CpuType;

#[derive(Debug, PartialEq, Eq)]
enum Event {
    ReadWord(u32),
    ReadLong(u32),
    WriteWord(u32, u16),
    Sync(u32),
}

#[derive(Default)]
struct VectorBus {
    events: Vec<Event>,
}

impl AddressBus for VectorBus {
    // The call log is a model for specifications only; nothing executes it.
    fn events(&self) -> BusLog {
        unreachable!()
    }

    fn read_byte(&mut self, _address: u32) -> u8 {
        0
    }

    fn read_word(&mut self, address: u32) -> u16 {
        self.events.push(Event::ReadWord(address));
        0x4e71
    }

    fn read_long(&mut self, address: u32) -> u32 {
        self.events.push(Event::ReadLong(address));
        if address == 0x8c { 0x4000 } else { 0 }
    }

    fn write_byte(&mut self, _address: u32, _value: u8) {}

    fn write_word(&mut self, address: u32, value: u16) {
        self.events.push(Event::WriteWord(address, value));
    }

    fn write_long(&mut self, _address: u32, _value: u32) {}

    fn sync(&mut self, cpu_clocks: u32) {
        self.events.push(Event::Sync(cpu_clocks));
    }

    fn ipl_hold_sample(&mut self) {}
}

fn m68000_in_user_mode() -> CpuCore {
    let mut cpu = CpuCore::new();
    cpu.set_cpu_type(CpuType::M68000);
    cpu.set_sr(0x2700);
    cpu.dar[15] = 0x9000;
    cpu.set_sr(0x0000);
    cpu.dar[15] = 0x8000;
    cpu.pc = 0x1234;
    cpu.ppc = 0x1232;
    cpu
}

#[test]
fn trap_and_take_trap_exception_enter_alike() {
    let mut a = m68000_in_user_mode();
    let mut b = m68000_in_user_mode();
    let mut bus_a = VectorBus::default();
    let mut bus_b = VectorBus::default();

    let ra = a.trap(&mut bus_a, 3);
    let rb = b.take_trap_exception(&mut bus_b, 3);

    assert_eq!(ra, 34);
    assert_eq!(ra, rb);
    assert_eq!(a.pc, 0x4000);
    assert_eq!(a.pc, b.pc);
    assert_eq!(a.get_sr(), 0x2000);
    assert_eq!(a.get_sr(), b.get_sr());
    assert_eq!(a.dar[15], 0x9000 - 6);
    assert_eq!(a.dar, b.dar);
    assert_eq!(a.sp, b.sp);
    assert_eq!(a.prefetch_queue, b.prefetch_queue);
    assert_eq!(a.prefetch_count, 2);
    assert_eq!(a.prefetch_count, b.prefetch_count);
    assert_eq!(a.pending_sync_clocks, 0);
    assert_eq!(b.pending_sync_clocks, 0);
    assert_eq!(bus_a.events, bus_b.events);
    // The stacked PC is the PC on entry, not the instruction's start.
    assert_eq!(
        bus_a.events[..4],
        [
            Event::Sync(4),
            Event::WriteWord(0x8ffe, 0x1234),
            Event::WriteWord(0x8ffa, 0x0000),
            Event::WriteWord(0x8ffc, 0x0000),
        ]
    );
    assert_eq!(bus_a.events[4], Event::ReadLong(0x8c));
}
