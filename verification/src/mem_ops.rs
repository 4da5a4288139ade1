//! Bus sequencing: internal-clock accounting, checked memory accesses,
//! the 68000 prefetch queue and stack pushes.

use vstd::prelude::*;
use crate::cpu::{CpuCore, flushed, sat_add, RUN_MODE_BERR_AERR_RESET};
use crate::memory::{AddressBus, BusEvent};
use crate::types::{Size, size_bytes};
use crate::exceptions::{address_error_taken, exception_frame_only, frame_write};

verus! {

/// Whether an access of `size` at `addr` raises an address error: the
/// 16-bit-bus models require word and long operands at even addresses.
pub open spec fn access_faults(is_pre_68020: bool, addr: u32, size: Size) -> bool {
    is_pre_68020 && size != Size::Byte && addr & 1 == 1
}

/// Effects of a checked data access: either only the pending clocks were
/// reported, or an address error was taken and the instruction aborted.
pub open spec fn checked_access(old: CpuCore, new: CpuCore, addr: u32, size: Size) -> bool {
    if access_faults(old.is_pre_68020, addr, size) {
        address_error_taken(old, new)
    } else {
        flushed(old, new)
    }
}

/// Effects of two checked accesses of `size`, at `addr` and then at the
/// next operand: both raise an address error (they share the address's
/// parity), or only the pending clocks were reported.
pub open spec fn checked_pair(old: CpuCore, new: CpuCore, addr: u32, size: Size) -> bool {
    if access_faults(old.is_pre_68020, addr, size) {
        exists|mid: CpuCore| #[trigger] address_error_taken(old, mid) && address_error_taken(mid, new)
    } else {
        flushed(old, new)
    }
}

/// The clocks report that a bus access makes first: one `Sync` when
/// internal clocks are pending, nothing otherwise.
pub open spec fn sync_events(pending: u32) -> Seq<BusEvent> {
    if pending > 0 {
        seq![BusEvent::Sync(pending)]
    } else {
        seq![]
    }
}

/// The bus log `after` continues `before`: every event of `before` is
/// still there, in place.
pub open spec fn log_extends(before: Seq<BusEvent>, after: Seq<BusEvent>) -> bool {
    before.len() <= after.len() && after.subrange(0, before.len() as int) == before
}

/// A log extends itself and whatever is appended to it.
pub proof fn lemma_log_extends_append(a: Seq<BusEvent>, b: Seq<BusEvent>)
    ensures
        log_extends(a, a),
        log_extends(a, a + b),
{
    assert(a.subrange(0, a.len() as int) =~= a);
    assert((a + b).subrange(0, a.len() as int) =~= a);
}

/// Continuing a continuation continues the original log.
pub proof fn lemma_log_extends_trans(a: Seq<BusEvent>, b: Seq<BusEvent>, c: Seq<BusEvent>)
    requires
        log_extends(a, b),
        log_extends(b, c),
    ensures
        log_extends(a, c),
{
    assert(c.subrange(0, a.len() as int) =~= b.subrange(0, a.len() as int));
}

/// The bus calls with which the 68000/68010 consume one instruction-stream
/// word `r` from `old` (the queue then being that of `new`): an empty
/// queue is first filled at the PC; then, unless the CPU consumes without
/// prefetching, the freed slot is refilled from behind the queue. Pending
/// clocks are reported before the first read.
pub open spec fn imm16_queue_events(old: CpuCore, new: CpuCore, r: u16) -> Seq<BusEvent> {
    let fill = if old.prefetch_count == 0 {
        sync_events(old.pending_sync_clocks).push(BusEvent::ReadWord(old.pc & old.address_mask, r))
    } else {
        seq![]
    };
    let pending = if old.prefetch_count == 0 {
        0
    } else {
        old.pending_sync_clocks
    };
    let slot: u32 = if old.prefetch_count >= 2 {
        1
    } else {
        0
    };
    fill + if old.consume_without_prefetch {
        seq![]
    } else {
        sync_events(pending).push(
            BusEvent::ReadWord(
                old.pc.wrapping_add(2).wrapping_add((2 * slot) as u32) & old.address_mask,
                new.prefetch_queue[slot as int],
            ),
        )
    }
}

/// `new` follows `old` by the consumption of one instruction-stream word
/// on the 68000/68010: the PC steps over it and the queue bookkeeping is
/// that of `read_imm_16` (the queue contents aside).
pub open spec fn imm_queue_step(old: CpuCore, new: CpuCore) -> bool {
    &&& new == (CpuCore {
        pc: new.pc,
        prefetch_queue: new.prefetch_queue,
        prefetch_count: new.prefetch_count,
        pending_sync_clocks: new.pending_sync_clocks,
        ..old
    })
    &&& new.pc == old.pc.wrapping_add(2)
    &&& new.prefetch_count == (if old.consume_without_prefetch {
        if old.prefetch_count >= 2 { 1u32 } else { 0u32 }
    } else {
        if old.prefetch_count >= 2 { 2u32 } else { 1u32 }
    })
    &&& new.pending_sync_clocks == (if old.consume_without_prefetch && old.prefetch_count != 0 {
        old.pending_sync_clocks
    } else {
        0
    })
}

/// `w` is the next instruction-stream word of `old`, consumed going to
/// `new` while the bus log went from `before` to `after`: on the 68000/010
/// the head of the queue (read at the PC when the queue was empty) with the
/// queue's refill; on later models a word read at the PC.
pub open spec fn stream_word(old: CpuCore, new: CpuCore, before: Seq<BusEvent>, after: Seq<BusEvent>, w: u16) -> bool {
    if old.is_pre_68020 {
        &&& imm_queue_step(old, new)
        &&& after == before + imm16_queue_events(old, new, w)
        &&& old.prefetch_count >= 1 ==> w == old.prefetch_queue[0]
    } else {
        &&& new == (CpuCore { pc: old.pc.wrapping_add(2), pending_sync_clocks: 0, ..old })
        &&& after == (before + sync_events(old.pending_sync_clocks)).push(
            BusEvent::ReadWord(old.pc & old.address_mask, w),
        )
    }
}

/// The two prefetch reads that fill the queue of `cpu` from its PC.
pub open spec fn prefetch_events(cpu: CpuCore) -> Seq<BusEvent> {
    seq![
        BusEvent::ReadWord(cpu.pc & cpu.address_mask, cpu.prefetch_queue[0]),
        BusEvent::ReadWord(cpu.pc.wrapping_add(2) & cpu.address_mask, cpu.prefetch_queue[1]),
    ]
}

/// The vector fetch that ends an exception entry (vector base `vbr`, bus
/// mask `mask`): the handler address read from the vector table becomes
/// the PC (`new.pc`), and the 16-bit-bus models (`pre_68020`) then fill the
/// prefetch queue there.
pub open spec fn vector_fetch_events(vbr: u32, mask: u32, pre_68020: bool, new: CpuCore, vector: u32) -> Seq<BusEvent> {
    seq![BusEvent::ReadLong(vbr.wrapping_add((vector * 4) as u32) & mask, new.pc)] + (if pre_68020 {
        prefetch_events(new)
    } else {
        seq![]
    })
}

/// The reads that top up the 68000/68010 prefetch queue from `old` (the
/// queue then being that of `new`): none when it is full or the model has
/// no queue; otherwise the pending clocks, then one read per empty slot.
pub open spec fn refill_events(old: CpuCore, new: CpuCore) -> Seq<BusEvent> {
    if !old.is_pre_68020 || old.prefetch_count >= 2 {
        seq![]
    } else if old.prefetch_count == 0 {
        sync_events(old.pending_sync_clocks) + prefetch_events(new)
    } else {
        sync_events(old.pending_sync_clocks).push(
            BusEvent::ReadWord(old.pc.wrapping_add(2) & old.address_mask, new.prefetch_queue[1]),
        )
    }
}

/// Internal clocks still pending after the queue top-up from `old`.
pub open spec fn refilled_pending(old: CpuCore) -> u32 {
    if old.is_pre_68020 && old.prefetch_count < 2 {
        0
    } else {
        old.pending_sync_clocks
    }
}

/// The 68000's end of a register instruction from `old`: the final
/// prefetch, the interrupt-priority sample when `ipl`, then `clocks`
/// internal clocks reported together with any still pending.
pub open spec fn finish_events(old: CpuCore, new: CpuCore, clocks: u32, ipl: bool) -> Seq<BusEvent> {
    refill_events(old, new) + (if ipl {
        seq![BusEvent::IplHold]
    } else {
        seq![]
    }) + sync_events(sat_add(refilled_pending(old), clocks))
}

/// The prefetch queue was refilled: the CPU state is unchanged but for the
/// queue, the reported clocks, and the words read from the bus.
pub open spec fn refilled(old: CpuCore, new: CpuCore) -> bool {
    &&& new == (CpuCore {
        prefetch_queue: new.prefetch_queue,
        prefetch_count: new.prefetch_count,
        pending_sync_clocks: new.pending_sync_clocks,
        ..old
    })
    &&& if old.is_pre_68020 && old.prefetch_count < 2 {
        &&& new.prefetch_count == 2
        &&& new.pending_sync_clocks == 0
        &&& old.prefetch_count == 1 ==> new.prefetch_queue[0] == old.prefetch_queue[0]
    } else {
        new == old
    }
}

/// Addresses keep their parity when moved by whole words.
pub proof fn lemma_even_steps(x: u32)
    by (bit_vector)
    ensures
        x & 1 != 1 ==> x.wrapping_sub(2) & 1 != 1,
        x & 1 != 1 ==> x.wrapping_sub(4) & 1 != 1,
        x & 1 != 1 ==> x.wrapping_sub(6) & 1 != 1,
        x & 1 != 1 ==> x.wrapping_sub(8) & 1 != 1,
        x & 1 != 1 ==> x.wrapping_add(2) & 1 != 1,
        x & 1 != 1 ==> x.wrapping_add(4) & 1 != 1,
        x & 1 == 1 ==> x.wrapping_add(2) & 1 == 1,
        x & 1 == 1 ==> x.wrapping_add(4) & 1 == 1,
{
}

impl CpuCore {
    /// Account `clocks` internal clocks, reported to the bus before the
    /// next access.
    pub fn internal_cycles(&mut self, clocks: u32)
        ensures
            *final(self) == (CpuCore {
                pending_sync_clocks: sat_add(old(self).pending_sync_clocks, clocks),
                ..*old(self)
            }),
    {
        self.pending_sync_clocks = self.pending_sync_clocks.saturating_add(clocks);
    }

    /// Report the pending internal clocks to the bus.
    pub fn flush_sync<B: AddressBus>(&mut self, bus: &mut B)
        ensures
            flushed(*old(self), *final(self)),
            final(bus).events() == old(bus).events() + sync_events(old(self).pending_sync_clocks),
    {
        if self.pending_sync_clocks > 0 {
            bus.sync(self.pending_sync_clocks);
            self.pending_sync_clocks = 0;
        }
    }

    /// The instruction's interrupt-priority sample point.
    pub fn ipl_poll_point<B: AddressBus>(&self, bus: &mut B)
        ensures
            final(bus).events() == old(bus).events().push(BusEvent::IplHold),
    {
        bus.ipl_hold_sample();
    }

    /// The bus address of `addr` on this model's address bus.
    pub fn address(&self, addr: u32) -> (r: u32)
        ensures
            r == addr & self.address_mask,
    {
        addr & self.address_mask
    }

    /// Whether the model has the 68000's two-word prefetch queue.
    pub fn prefetch_enabled(&self) -> (r: bool)
        ensures
            r == self.is_pre_68020,
    {
        self.is_pre_68020
    }

    /// Take an address error for an access at `addr` and abort the
    /// current instruction.
    fn fault_address<B: AddressBus>(&mut self, bus: &mut B, addr: u32, write: bool)
        ensures
            address_error_taken(*old(self), *final(self)),
    {
        let _ = self.exception_address_error(bus, addr, write, false);
        self.run_mode = RUN_MODE_BERR_AERR_RESET;
    }

    /// Read a byte.
    pub fn read_8<B: AddressBus>(&mut self, bus: &mut B, addr: u32) -> (r: u8)
        ensures
            flushed(*old(self), *final(self)),
            final(bus).events() == (old(bus).events() + sync_events(old(self).pending_sync_clocks)).push(
                BusEvent::ReadByte(addr & old(self).address_mask, r),
            ),
    {
        self.flush_sync(bus);
        bus.read_byte(addr & self.address_mask)
    }

    /// Read a word, taking an address error at an odd address on the
    /// 16-bit-bus models.
    pub fn read_16<B: AddressBus>(&mut self, bus: &mut B, addr: u32) -> (r: u16)
        ensures
            frame_write(*old(self), *final(self)),
            checked_access(*old(self), *final(self), addr, Size::Word),
            access_faults(old(self).is_pre_68020, addr, Size::Word) ==> r == 0,
            !access_faults(old(self).is_pre_68020, addr, Size::Word) ==> final(bus).events() == (old(bus).events()
                + sync_events(old(self).pending_sync_clocks)).push(BusEvent::ReadWord(addr & old(self).address_mask, r)),
    {
        if self.is_pre_68020 && addr & 1 == 1 {
            self.fault_address(bus, addr, false);
            return 0;
        }
        self.flush_sync(bus);
        bus.read_word(addr & self.address_mask)
    }

    /// Read a long word, taking an address error at an odd address on the
    /// 16-bit-bus models.
    pub fn read_32<B: AddressBus>(&mut self, bus: &mut B, addr: u32) -> (r: u32)
        ensures
            frame_write(*old(self), *final(self)),
            checked_access(*old(self), *final(self), addr, Size::Long),
            access_faults(old(self).is_pre_68020, addr, Size::Long) ==> r == 0,
            !access_faults(old(self).is_pre_68020, addr, Size::Long) ==> final(bus).events() == (old(bus).events()
                + sync_events(old(self).pending_sync_clocks)).push(BusEvent::ReadLong(addr & old(self).address_mask, r)),
    {
        if self.is_pre_68020 && addr & 1 == 1 {
            self.fault_address(bus, addr, false);
            return 0;
        }
        self.flush_sync(bus);
        bus.read_long(addr & self.address_mask)
    }

    /// Write a byte.
    pub fn write_8<B: AddressBus>(&mut self, bus: &mut B, addr: u32, value: u8)
        ensures
            flushed(*old(self), *final(self)),
            final(bus).events() == (old(bus).events() + sync_events(old(self).pending_sync_clocks)).push(
                BusEvent::WriteByte(addr & old(self).address_mask, value),
            ),
    {
        self.flush_sync(bus);
        bus.write_byte(addr & self.address_mask, value);
    }

    /// Write a word, taking an address error at an odd address on the
    /// 16-bit-bus models.
    pub fn write_16<B: AddressBus>(&mut self, bus: &mut B, addr: u32, value: u16)
        ensures
            frame_write(*old(self), *final(self)),
            checked_access(*old(self), *final(self), addr, Size::Word),
            !access_faults(old(self).is_pre_68020, addr, Size::Word) ==> final(bus).events() == (old(bus).events()
                + sync_events(old(self).pending_sync_clocks)).push(BusEvent::WriteWord(addr & old(self).address_mask, value)),
    {
        if self.is_pre_68020 && addr & 1 == 1 {
            self.fault_address(bus, addr, true);
            return ;
        }
        self.flush_sync(bus);
        bus.write_word(addr & self.address_mask, value);
    }

    /// Write a long word, taking an address error at an odd address on the
    /// 16-bit-bus models.
    pub fn write_32<B: AddressBus>(&mut self, bus: &mut B, addr: u32, value: u32)
        ensures
            frame_write(*old(self), *final(self)),
            checked_access(*old(self), *final(self), addr, Size::Long),
            !access_faults(old(self).is_pre_68020, addr, Size::Long) ==> final(bus).events() == (old(bus).events()
                + sync_events(old(self).pending_sync_clocks)).push(BusEvent::WriteLong(addr & old(self).address_mask, value)),
    {
        if self.is_pre_68020 && addr & 1 == 1 {
            self.fault_address(bus, addr, true);
            return ;
        }
        self.flush_sync(bus);
        bus.write_long(addr & self.address_mask, value);
    }

    /// Write a word without the alignment check (exception frames).
    pub fn write_16_raw<B: AddressBus>(&mut self, bus: &mut B, addr: u32, value: u16)
        ensures
            flushed(*old(self), *final(self)),
            final(bus).events() == (old(bus).events() + sync_events(old(self).pending_sync_clocks)).push(
                BusEvent::WriteWord(addr & old(self).address_mask, value),
            ),
    {
        self.flush_sync(bus);
        bus.write_word(addr & self.address_mask, value);
    }

    /// Write a long word without the alignment check (exception frames).
    pub fn write_32_raw<B: AddressBus>(&mut self, bus: &mut B, addr: u32, value: u32)
        ensures
            flushed(*old(self), *final(self)),
            final(bus).events() == (old(bus).events() + sync_events(old(self).pending_sync_clocks)).push(
                BusEvent::WriteLong(addr & old(self).address_mask, value),
            ),
    {
        self.flush_sync(bus);
        bus.write_long(addr & self.address_mask, value);
    }

    /// Push a word on the active stack.
    pub fn push_16<B: AddressBus>(&mut self, bus: &mut B, value: u16)
        ensures
            frame_write(*old(self), *final(self)),
            pushed(*old(self), *final(self), old(self).dar[15].wrapping_sub(2), Size::Word),
            !access_faults(old(self).is_pre_68020, old(self).dar[15].wrapping_sub(2), Size::Word) ==> final(bus).events()
                == (old(bus).events() + sync_events(old(self).pending_sync_clocks)).push(
                BusEvent::WriteWord(old(self).dar[15].wrapping_sub(2) & old(self).address_mask, value),
            ),
    {
        let sp = self.dar[15].wrapping_sub(2);
        self.dar[15] = sp;
        self.write_16(bus, sp, value);
    }

    /// Push a long word on the active stack.
    pub fn push_32<B: AddressBus>(&mut self, bus: &mut B, value: u32)
        ensures
            frame_write(*old(self), *final(self)),
            pushed(*old(self), *final(self), old(self).dar[15].wrapping_sub(4), Size::Long),
            !access_faults(old(self).is_pre_68020, old(self).dar[15].wrapping_sub(4), Size::Long) ==> final(bus).events()
                == (old(bus).events() + sync_events(old(self).pending_sync_clocks)).push(
                BusEvent::WriteLong(old(self).dar[15].wrapping_sub(4) & old(self).address_mask, value),
            ),
    {
        let sp = self.dar[15].wrapping_sub(4);
        self.dar[15] = sp;
        self.write_32(bus, sp, value);
    }

    /// Push a word without the alignment check.
    pub fn push_16_raw<B: AddressBus>(&mut self, bus: &mut B, value: u16)
        ensures
            final(self).dar@ == old(self).dar@.update(15, old(self).dar[15].wrapping_sub(2)),
            final(bus).events() == (old(bus).events() + sync_events(old(self).pending_sync_clocks)).push(
                BusEvent::WriteWord(old(self).dar[15].wrapping_sub(2) & old(self).address_mask, value),
            ),
            *final(self) == (CpuCore { dar: final(self).dar, pending_sync_clocks: 0, ..*old(self) }),
    {
        let sp = self.dar[15].wrapping_sub(2);
        self.dar[15] = sp;
        self.write_16_raw(bus, sp, value);
    }

    /// Push a long word without the alignment check.
    pub fn push_32_raw<B: AddressBus>(&mut self, bus: &mut B, value: u32)
        ensures
            final(self).dar@ == old(self).dar@.update(15, old(self).dar[15].wrapping_sub(4)),
            final(bus).events() == (old(bus).events() + sync_events(old(self).pending_sync_clocks)).push(
                BusEvent::WriteLong(old(self).dar[15].wrapping_sub(4) & old(self).address_mask, value),
            ),
            *final(self) == (CpuCore { dar: final(self).dar, pending_sync_clocks: 0, ..*old(self) }),
    {
        let sp = self.dar[15].wrapping_sub(4);
        self.dar[15] = sp;
        self.write_32_raw(bus, sp, value);
    }

    /// Reserve a frame word that the frame format leaves unwritten.
    pub fn fake_push_16_raw(&mut self)
        ensures
            final(self).dar@ == old(self).dar@.update(15, old(self).dar[15].wrapping_sub(2)),
            *final(self) == (CpuCore { dar: final(self).dar, ..*old(self) }),
    {
        self.dar[15] = self.dar[15].wrapping_sub(2);
    }

    /// Reserve a frame long word that the frame format leaves unwritten.
    pub fn fake_push_32_raw(&mut self)
        ensures
            final(self).dar@ == old(self).dar@.update(15, old(self).dar[15].wrapping_sub(4)),
            *final(self) == (CpuCore { dar: final(self).dar, ..*old(self) }),
    {
        self.dar[15] = self.dar[15].wrapping_sub(4);
    }

    /// Pop a long word from the active stack.
    pub fn pull_32<B: AddressBus>(&mut self, bus: &mut B) -> (r: u32)
        ensures
            !access_faults(old(self).is_pre_68020, old(self).dar[15], Size::Long) ==> {
                &&& final(self).dar@ == old(self).dar@.update(15, old(self).dar[15].wrapping_add(4))
                &&& *final(self) == (CpuCore {
                    dar: final(self).dar,
                    pending_sync_clocks: 0,
                    ..*old(self)
                })
            },
            access_faults(old(self).is_pre_68020, old(self).dar[15], Size::Long)
                ==> final(self).run_mode == RUN_MODE_BERR_AERR_RESET,
            !access_faults(old(self).is_pre_68020, old(self).dar[15], Size::Long) ==> final(bus).events()
                == (old(bus).events() + sync_events(old(self).pending_sync_clocks)).push(
                BusEvent::ReadLong(old(self).dar[15] & old(self).address_mask, r),
            ),
    {
        let sp = self.dar[15];
        let v = self.read_32(bus, sp);
        if self.run_mode == RUN_MODE_BERR_AERR_RESET && self.is_pre_68020 && sp & 1 == 1 {
            return v;
        }
        self.dar[15] = sp.wrapping_add(4);
        v
    }

    /// Fill the prefetch queue from `pc` onwards (68000/68010).
    pub fn top_up_prefetch<B: AddressBus>(&mut self, bus: &mut B)
        ensures
            refilled(*old(self), *final(self)),
            final(bus).events() == old(bus).events() + refill_events(*old(self), *final(self)),
            !old(self).is_pre_68020 || old(self).prefetch_count >= 2 ==> final(bus).events() == old(bus).events(),
            old(self).is_pre_68020 && old(self).prefetch_count == 0 ==> final(bus).events() == old(bus).events()
                + sync_events(old(self).pending_sync_clocks) + prefetch_events(*final(self)),
            old(self).is_pre_68020 && old(self).prefetch_count == 1 ==> final(bus).events() == (old(bus).events()
                + sync_events(old(self).pending_sync_clocks)).push(
                BusEvent::ReadWord(
                    old(self).pc.wrapping_add(2) & old(self).address_mask,
                    final(self).prefetch_queue[1],
                ),
            ),
    {
        if !self.is_pre_68020 {
            return ;
        }
        if self.prefetch_count == 0 {
            self.flush_sync(bus);
            let w = bus.read_word(self.pc & self.address_mask);
            self.prefetch_queue[0] = w;
            self.prefetch_count = 1;
        }
        if self.prefetch_count == 1 {
            self.flush_sync(bus);
            let w = bus.read_word(self.pc.wrapping_add(2) & self.address_mask);
            self.prefetch_queue[1] = w;
            self.prefetch_count = 2;
        }
    }

    /// Discard the prefetch queue and refill it from `pc`.
    pub fn full_prefetch<B: AddressBus>(&mut self, bus: &mut B)
        ensures
            *final(self) == (CpuCore {
                prefetch_queue: final(self).prefetch_queue,
                prefetch_count: final(self).prefetch_count,
                pending_sync_clocks: final(self).pending_sync_clocks,
                ..*old(self)
            }),
            old(self).is_pre_68020 ==> final(self).prefetch_count == 2
                && final(self).pending_sync_clocks == 0,
            !old(self).is_pre_68020 ==> *final(self) == *old(self),
            !old(self).is_pre_68020 ==> final(bus).events() == old(bus).events(),
            old(self).is_pre_68020 ==> final(bus).events() == old(bus).events() + sync_events(
                old(self).pending_sync_clocks,
            ) + prefetch_events(*final(self)),
    {
        if !self.is_pre_68020 {
            return ;
        }
        self.prefetch_count = 0;
        self.top_up_prefetch(bus);
    }

    /// Consume the next instruction-stream word. On the 68000/68010 it
    /// comes from the prefetch queue, which is refilled behind it unless
    /// `consume_without_prefetch` is set.
    #[verifier::rlimit(40)]
    #[verifier::spinoff_prover]
    pub fn read_imm_16<B: AddressBus>(&mut self, bus: &mut B) -> (r: u16)
        ensures
            final(self).pc == old(self).pc.wrapping_add(2),
            old(self).is_pre_68020 && old(self).prefetch_count >= 1 ==> r
                == old(self).prefetch_queue[0],
            old(self).is_pre_68020 && old(self).prefetch_count >= 2 ==> final(self).prefetch_queue[0] == old(self).prefetch_queue[1],
            old(self).is_pre_68020 && !old(self).consume_without_prefetch ==> final(self).prefetch_count == (if old(self).prefetch_count >= 2 { 2u32 } else { 1u32 }),
            old(self).is_pre_68020 && old(self).consume_without_prefetch ==> final(self).prefetch_count == (if old(self).prefetch_count >= 2 { 1u32 } else { 0u32 }),
            *final(self) == (CpuCore {
                pc: final(self).pc,
                prefetch_queue: final(self).prefetch_queue,
                prefetch_count: final(self).prefetch_count,
                pending_sync_clocks: final(self).pending_sync_clocks,
                ..*old(self)
            }),
            !old(self).is_pre_68020 ==> final(self).pending_sync_clocks == 0
                && final(self).prefetch_queue == old(self).prefetch_queue
                && final(self).prefetch_count == old(self).prefetch_count,
            !old(self).is_pre_68020 ==> final(bus).events() == (old(bus).events() + sync_events(
                old(self).pending_sync_clocks,
            )).push(BusEvent::ReadWord(old(self).pc & old(self).address_mask, r)),
            log_extends(old(bus).events(), final(bus).events()),
            old(self).is_pre_68020 ==> final(bus).events() == old(bus).events() + imm16_queue_events(
                *old(self),
                *final(self),
                r,
            ),
            old(self).is_pre_68020 ==> final(self).pending_sync_clocks == (if old(self).consume_without_prefetch
                && old(self).prefetch_count != 0 {
                old(self).pending_sync_clocks
            } else {
                0
            }),
            old(self).is_pre_68020 ==> imm_queue_step(*old(self), *final(self)),
            stream_word(*old(self), *final(self), old(bus).events(), final(bus).events(), r),
    {
        let ghost e0 = bus.events();
        if !self.is_pre_68020 {
            self.flush_sync(bus);
            let w = bus.read_word(self.pc & self.address_mask);
            self.pc = self.pc.wrapping_add(2);
            proof {
                let tail = sync_events(old(self).pending_sync_clocks).push(
                    BusEvent::ReadWord(old(self).pc & old(self).address_mask, w),
                );
                lemma_log_extends_append(old(bus).events(), tail);
                assert(bus.events() =~= old(bus).events() + tail);
            }
            return w;
        }
        if self.prefetch_count == 0 {
            self.flush_sync(bus);
            let w = bus.read_word(self.pc & self.address_mask);
            self.prefetch_queue[0] = w;
            self.prefetch_count = 1;
        }
        let ghost e1 = bus.events();
        let value = self.prefetch_queue[0];
        let had_two = self.prefetch_count >= 2;
        self.prefetch_queue[0] = self.prefetch_queue[1];
        self.prefetch_count = if had_two { 1 } else { 0 };
        self.pc = self.pc.wrapping_add(2);
        if !self.consume_without_prefetch {
            let slot = self.prefetch_count;
            self.flush_sync(bus);
            let at = self.pc.wrapping_add(2 * slot);
            let w = bus.read_word(at & self.address_mask);
            if slot == 0 {
                self.prefetch_queue[0] = w;
            } else {
                self.prefetch_queue[1] = w;
            }
            self.prefetch_count = slot + 1;
            proof {
                assert(sync_events(0u32) =~= Seq::<BusEvent>::empty());
                assert(bus.events() =~= e0 + imm16_queue_events(*old(self), *self, value));
            }
        }
        proof {
            assert(sync_events(0u32) =~= Seq::<BusEvent>::empty());
            assert(bus.events() =~= e0 + imm16_queue_events(*old(self), *self, value));
            lemma_log_extends_append(e0, imm16_queue_events(*old(self), *self, value));
        }
        value
    }

    /// Fetch the opcode word of the next instruction. An odd program
    /// counter on the 16-bit-bus models takes an address error (an
    /// instruction fetch) and aborts; the word read is then 0.
    pub fn read_opcode_16<B: AddressBus>(&mut self, bus: &mut B) -> (r: u16)
        ensures
            access_faults(old(self).is_pre_68020, old(self).pc, Size::Word) ==> r == 0 && address_error_taken(
                *old(self),
                *final(self),
            ),
            !access_faults(old(self).is_pre_68020, old(self).pc, Size::Word) ==> {
                &&& final(self).pc == old(self).pc.wrapping_add(2)
                &&& *final(self) == (CpuCore {
                    pc: final(self).pc,
                    prefetch_queue: final(self).prefetch_queue,
                    prefetch_count: final(self).prefetch_count,
                    pending_sync_clocks: final(self).pending_sync_clocks,
                    ..*old(self)
                })
                &&& old(self).is_pre_68020 && old(self).prefetch_count >= 1 ==> r == old(self).prefetch_queue[0]
            },
    {
        if self.is_pre_68020 && self.pc & 1 == 1 {
            let pc = self.pc;
            let _ = self.exception_address_error(bus, pc, false, true);
            self.run_mode = RUN_MODE_BERR_AERR_RESET;
            return 0;
        }
        self.read_imm_16(bus)
    }

    /// Consume two instruction-stream words as a long word, high word
    /// first.
    pub fn read_imm_32<B: AddressBus>(&mut self, bus: &mut B) -> (r: u32)
        ensures
            final(self).pc == old(self).pc.wrapping_add(2).wrapping_add(2),
            *final(self) == (CpuCore {
                pc: final(self).pc,
                prefetch_queue: final(self).prefetch_queue,
                prefetch_count: final(self).prefetch_count,
                pending_sync_clocks: final(self).pending_sync_clocks,
                ..*old(self)
            }),
            old(self).is_pre_68020 && !old(self).consume_without_prefetch && old(self).prefetch_count >= 1 ==> final(self).prefetch_count >= 1,
            old(self).is_pre_68020 && !old(self).consume_without_prefetch && old(self).prefetch_count >= 2 ==> (r >> 16u32) as u16 == old(self).prefetch_queue[0]
                && r as u16 == old(self).prefetch_queue[1],
            !old(self).is_pre_68020 ==> final(self).pending_sync_clocks == 0
                && final(self).prefetch_queue == old(self).prefetch_queue
                && final(self).prefetch_count == old(self).prefetch_count,
            !old(self).is_pre_68020 ==> final(bus).events() == (old(bus).events() + sync_events(
                old(self).pending_sync_clocks,
            )).push(BusEvent::ReadWord(old(self).pc & old(self).address_mask, (r >> 16u32) as u16)).push(
                BusEvent::ReadWord(old(self).pc.wrapping_add(2) & old(self).address_mask, r as u16),
            ),
            log_extends(old(bus).events(), final(bus).events()),
            old(self).is_pre_68020 ==> exists|mid: CpuCore|
                imm_queue_step(*old(self), mid) && imm_queue_step(mid, *final(self)) && final(bus).events()
                    == old(bus).events() + imm16_queue_events(*old(self), mid, (r >> 16u32) as u16)
                    + #[trigger] imm16_queue_events(mid, *final(self), r as u16),
            exists|mid: CpuCore, e_mid: Seq<BusEvent>|
                #[trigger] stream_word(*old(self), mid, old(bus).events(), e_mid, (r >> 16u32) as u16)
                    && stream_word(mid, *final(self), e_mid, final(bus).events(), r as u16),
    {
        let ghost e0 = bus.events();
        let ghost s0 = *self;
        let hi16 = self.read_imm_16(bus);
        let ghost mid = *self;
        let ghost e1 = bus.events();
        let lo16 = self.read_imm_16(bus);
        let hi = hi16 as u32;
        let lo = lo16 as u32;
        let r = (hi << 16) | lo;
        proof {
            assert((((hi << 16u32) | lo) >> 16u32) as u16 == hi as u16 && ((hi << 16u32) | lo) as u16
                == lo as u16) by (bit_vector)
                requires
                    hi < 0x10000,
                    lo < 0x10000,
            ;
            assert(sync_events(0u32) =~= Seq::<BusEvent>::empty());
            assert(stream_word(s0, mid, e0, e1, (r >> 16u32) as u16));
            lemma_log_extends_trans(e0, e1, bus.events());
            if old(self).is_pre_68020 {
                assert(bus.events() =~= e0 + imm16_queue_events(s0, mid, (r >> 16u32) as u16) + imm16_queue_events(mid, *self, r as u16));
            }
        }
        r
    }

    /// Load the program counter from exception vector `vector` and refill
    /// the prefetch queue there.
    pub fn jump_vector<B: AddressBus>(&mut self, bus: &mut B, vector: u32)
        requires
            vector < 256,
        ensures
            *final(self) == (CpuCore {
                pc: final(self).pc,
                prefetch_queue: final(self).prefetch_queue,
                prefetch_count: final(self).prefetch_count,
                pending_sync_clocks: final(self).pending_sync_clocks,
                ..*old(self)
            }),
            old(self).is_pre_68020 ==> final(self).prefetch_count == 2,
            !old(self).is_pre_68020 ==> final(self).prefetch_queue == old(self).prefetch_queue
                && final(self).prefetch_count == old(self).prefetch_count,
            final(self).pending_sync_clocks == 0,
            final(bus).events() == old(bus).events() + sync_events(old(self).pending_sync_clocks)
                + vector_fetch_events(old(self).vbr, old(self).address_mask, old(self).is_pre_68020, *final(self), vector),
    {
        let at = self.vbr.wrapping_add(vector * 4);
        self.flush_sync(bus);
        let target = bus.read_long(at & self.address_mask);
        self.pc = target;
        self.full_prefetch(bus);
    }
}

/// Effects of a checked push of `size` to the new stack pointer `sp`.
pub open spec fn pushed(old: CpuCore, new: CpuCore, sp: u32, size: Size) -> bool {
    if access_faults(old.is_pre_68020, sp, size) {
        &&& new.run_mode == RUN_MODE_BERR_AERR_RESET
        &&& new.s_flag == 4
        &&& new.t1_flag == 0
        &&& new.t0_flag == 0
        &&& exception_frame_only(old, CpuCore { run_mode: old.run_mode, ..new })
    } else {
        &&& new.dar@ =~= old.dar@.update(15, sp)
        &&& new == (CpuCore { dar: new.dar, pending_sync_clocks: 0, ..old })
    }
}

} // verus!
