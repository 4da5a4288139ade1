//! The bus interface a host implements for the CPU.
//!
//! Every call the CPU makes on the bus is an event of the bus's log
//! (`AddressBus::events`): a read with the address and the value it
//! returned, a write with the address and the value written, a report of
//! internal clocks, or an interrupt-priority sample. The CPU's contracts
//! state what it appends to that log, in order.

use vstd::prelude::*;

verus! {

/// One call of the CPU on the bus.
#[derive(Debug, Clone, Copy, PartialEq, Eq, Structural)]
pub enum BusEvent {
    /// A byte read at the address, with the byte returned.
    ReadByte(u32, u8),
    /// A word read at the address, with the word returned.
    ReadWord(u32, u16),
    /// A long-word read at the address, with the long word returned.
    ReadLong(u32, u32),
    /// A byte written at the address.
    WriteByte(u32, u8),
    /// A word written at the address.
    WriteWord(u32, u16),
    /// A long word written at the address.
    WriteLong(u32, u32),
    /// Internal clocks reported before the next access.
    Sync(u32),
    /// The interrupt-priority lines were sampled.
    IplHold,
}

/// The log of calls a bus has received, oldest first. It is a model for
/// specifications only: no executable code builds or reads it.
pub type BusLog = Seq<BusEvent>;

/// The CPU's view of the system bus. A host implements it to provide memory
/// and devices; the CPU calls it for every access, in bus order, and each
/// call appends its event to the bus's log.
pub trait AddressBus {
    /// The calls made on this bus so far, oldest first.
    spec fn events(&self) -> BusLog;

    /// Read a byte.
    fn read_byte(&mut self, address: u32) -> (r: u8)
        ensures
            final(self).events() == old(self).events().push(BusEvent::ReadByte(address, r)),
    ;

    /// Read a big-endian word.
    fn read_word(&mut self, address: u32) -> (r: u16)
        ensures
            final(self).events() == old(self).events().push(BusEvent::ReadWord(address, r)),
    ;

    /// Read a big-endian long word.
    fn read_long(&mut self, address: u32) -> (r: u32)
        ensures
            final(self).events() == old(self).events().push(BusEvent::ReadLong(address, r)),
    ;

    /// Read a big-endian word where a failed access must not raise a bus
    /// error: `None` when nothing answers at `address`, and then nothing is
    /// logged. A bus that does not override it answers every address with a
    /// plain word read.
    fn try_read_word(&mut self, address: u32) -> (r: Option<u16>)
        ensures
            r matches Some(v) ==> final(self).events() == old(self).events().push(
                BusEvent::ReadWord(address, v),
            ),
            r is None ==> final(self).events() == old(self).events(),
        default_ensures
            r is Some,
    {
        Some(self.read_word(address))
    }

    /// Write a byte.
    fn write_byte(&mut self, address: u32, value: u8)
        ensures
            final(self).events() == old(self).events().push(BusEvent::WriteByte(address, value)),
    ;

    /// Write a big-endian word.
    fn write_word(&mut self, address: u32, value: u16)
        ensures
            final(self).events() == old(self).events().push(BusEvent::WriteWord(address, value)),
    ;

    /// Write a big-endian long word.
    fn write_long(&mut self, address: u32, value: u32)
        ensures
            final(self).events() == old(self).events().push(BusEvent::WriteLong(address, value)),
    ;

    /// The CPU spent `cpu_clocks` internal clocks since the last access.
    fn sync(&mut self, cpu_clocks: u32)
        ensures
            final(self).events() == old(self).events().push(BusEvent::Sync(cpu_clocks)),
    ;

    /// The CPU sampled the interrupt priority lines for the instruction
    /// boundary at this point of the bus sequence.
    fn ipl_hold_sample(&mut self)
        ensures
            final(self).events() == old(self).events().push(BusEvent::IplHold),
    ;
}

} // verus!
