//! MOVE16: 16-byte aligned block transfer (68040/68060). Both addresses
//! are forced to 16-byte alignment (the low four bits are ignored, so no
//! address error is possible); all four reads complete before the writes.

use vstd::prelude::*;
use crate::cpu::CpuCore;
use crate::instructions::data_movement::ccr_kept;
use crate::memory::{AddressBus, BusEvent};
use crate::mem_ops::sync_events;

verus! {

/// An address rounded down to its 16-byte line.
pub open spec fn line_of(a: u32) -> u32 {
    a & 0xFFFF_FFF0
}

/// Registers after MOVE16: the post-incremented address registers step by
/// one line; `(Ax)+,(Ay)+` with Ax == Ay steps once.
pub open spec fn move16_regs(dar: Seq<u32>, opcode: u16, ext: u16) -> Seq<u32> {
    let reg = (opcode & 7) as int;
    let form = opcode & 0xFFF8;
    if form == 0xF620 {
        let dst = ((ext >> 12u16) & 7) as int;
        let d1 = if reg != dst {
            dar.update(8 + reg, dar[8 + reg].wrapping_add(16))
        } else {
            dar
        };
        d1.update(8 + dst, d1[8 + dst].wrapping_add(16))
    } else if form == 0xF600 || form == 0xF608 {
        dar.update(8 + reg, dar[8 + reg].wrapping_add(16))
    } else {
        dar
    }
}

/// The line MOVE16 reads: An for `(An)+,xxx`, `(An),xxx` and `(Ax)+,(Ay)+`,
/// else the absolute address.
pub open spec fn move16_src(dar: Seq<u32>, opcode: u16, abs: u32) -> u32 {
    let reg = (opcode & 7) as int;
    let form = opcode & 0xFFF8;
    if form == 0xF600 || form == 0xF610 || form == 0xF620 {
        line_of(dar[8 + reg])
    } else {
        line_of(abs)
    }
}

/// The line MOVE16 writes: Ay (from the extension word) for `(Ax)+,(Ay)+`,
/// the absolute address for `(An)+,xxx` and `(An),xxx`, else An.
pub open spec fn move16_dst(dar: Seq<u32>, opcode: u16, ext: u16, abs: u32) -> u32 {
    let reg = (opcode & 7) as int;
    let form = opcode & 0xFFF8;
    if form == 0xF620 {
        line_of(dar[8 + ((ext >> 12u16) & 7) as int])
    } else if form == 0xF600 || form == 0xF610 {
        line_of(abs)
    } else {
        line_of(dar[8 + reg])
    }
}

/// The extension words MOVE16 fetches at `pc`: the register word of
/// `(Ax)+,(Ay)+`, or the two halves of the absolute address.
pub open spec fn move16_fetch(opcode: u16, pc: u32, mask: u32, ext: u16, abs: u32) -> Seq<BusEvent> {
    if opcode & 0xFFF8 == 0xF620 {
        seq![BusEvent::ReadWord(pc & mask, ext)]
    } else {
        seq![
            BusEvent::ReadWord(pc & mask, (abs >> 16u32) as u16),
            BusEvent::ReadWord(pc.wrapping_add(2) & mask, abs as u16),
        ]
    }
}

/// The `k`-th long word of the line at `line`, through the address mask.
pub open spec fn line_word(line: u32, k: int, mask: u32) -> u32 {
    ((line + 4 * k) as u32) & mask
}

/// The line transfer: the four long words of the source line are read in
/// order, then the same four values are written, in order, to the
/// destination line.
pub open spec fn move16_copy(src: u32, dst: u32, mask: u32, v: Seq<u32>) -> Seq<BusEvent> {
    Seq::new(4, |k: int| BusEvent::ReadLong(line_word(src, k, mask), v[k]))
        + Seq::new(4, |k: int| BusEvent::WriteLong(line_word(dst, k, mask), v[k]))
}

/// Whether `opcode` is one of the five MOVE16 forms.
pub open spec fn is_move16(opcode: u16) -> bool {
    let form = opcode & 0xFFF8;
    form == 0xF600 || form == 0xF608 || form == 0xF610 || form == 0xF618 || form == 0xF620
}

/// Long words of a line are even and do not wrap.
pub proof fn lemma_line_words(a: u32)
    by (bit_vector)
    ensures
        a & 0xFFFF_FFF0 <= 0xFFFF_FFF0,
        (a & 0xFFFF_FFF0) & 1 != 1,
        (a & 0xFFFF_FFF0).wrapping_add(4) & 1 != 1,
        (a & 0xFFFF_FFF0).wrapping_add(8) & 1 != 1,
        (a & 0xFFFF_FFF0).wrapping_add(12) & 1 != 1,
{
}

/// The 16-byte line holding `a`; its four long words are even.
fn line(a: u32) -> (r: u32)
    ensures
        r == line_of(a),
        r <= 0xFFFF_FFF0,
        r & 1 != 1,
        r.wrapping_add(4) & 1 != 1,
        r.wrapping_add(8) & 1 != 1,
        r.wrapping_add(12) & 1 != 1,
{
    proof {
        lemma_line_words(a);
    }
    a & 0xFFFF_FFF0
}

impl CpuCore {
    /// MOVE16 in its five addressing forms; any other opcode does nothing
    /// and takes no clocks.
    pub fn exec_move16<B: AddressBus>(&mut self, bus: &mut B, opcode: u16) -> (r: i32)
        ensures
            !is_move16(opcode) ==> r == 0 && *final(self) == *old(self),
            is_move16(opcode) ==> r == 4 && ccr_kept(*old(self), *final(self)) && exists|ext: u16, abs: u32, v: Seq<u32>|
                {
                    let ev = final(bus).events();
                    let copy = #[trigger] move16_copy(
                        move16_src(old(self).dar@, opcode, abs),
                        move16_dst(old(self).dar@, opcode, ext, abs),
                        old(self).address_mask,
                        v,
                    );
                    &&& v.len() == 4
                    &&& final(self).dar@ == move16_regs(old(self).dar@, opcode, ext)
                    &&& ev.len() >= 8
                    &&& ev.subrange(ev.len() - 8, ev.len() as int) == copy
                    &&& !old(self).is_pre_68020 ==> ev == old(bus).events() + sync_events(
                        old(self).pending_sync_clocks,
                    ) + move16_fetch(opcode, old(self).pc, old(self).address_mask, ext, abs) + copy
                },
    {
        proof {
            crate::instructions::mul_div_long::lemma_ext_fields(0, opcode);
        }
        let reg = (opcode & 7) as usize;
        let form = opcode & 0xFFF8;
        if !(form == 0xF600 || form == 0xF608 || form == 0xF610 || form == 0xF618 || form == 0xF620) {
            return 0;
        }
        let mut ext: u16 = 0;
        let mut abs: u32 = 0;
        let mut inc_src: bool = false;
        let mut inc_dst: Option<usize> = None;
        let src_addr: u32;
        let dst_addr: u32;
        let ghost ev0 = bus.events();
        if form == 0xF620 {
            ext = self.read_imm_16(bus);
            proof {
                crate::instructions::mul_div_long::lemma_ext_fields(ext, 0);
            }
            let dst_reg = ((ext >> 12u16) & 7) as usize;
            inc_src = reg != dst_reg;
            inc_dst = Some(dst_reg);
            src_addr = line(self.a(reg));
            dst_addr = line(self.a(dst_reg));
        } else {
            abs = self.read_imm_32(bus);
            if form == 0xF600 {
                inc_src = true;
                src_addr = line(self.a(reg));
                dst_addr = line(abs);
            } else if form == 0xF608 {
                inc_dst = Some(reg);
                src_addr = line(abs);
                dst_addr = line(self.a(reg));
            } else if form == 0xF610 {
                src_addr = line(self.a(reg));
                dst_addr = line(abs);
            } else {
                src_addr = line(abs);
                dst_addr = line(self.a(reg));
            }
        }
        proof {
            assert(src_addr == move16_src(old(self).dar@, opcode, abs));
            assert(dst_addr == move16_dst(old(self).dar@, opcode, ext, abs));
            if !old(self).is_pre_68020 {
                assert(bus.events() == ev0 + sync_events(old(self).pending_sync_clocks) + move16_fetch(
                    opcode,
                    old(self).pc,
                    old(self).address_mask,
                    ext,
                    abs,
                ));
                assert(self.pending_sync_clocks == 0);
            }
        }
        self.flush_sync(bus);
        let ghost ev1 = bus.events();
        let ghost regs0 = self.dar@;
        let ghost mask = self.address_mask;
        let mut v: [u32; 4] = [0, 0, 0, 0];
        let mut i: u32 = 0;
        while i < 4
            invariant
                i <= 4,
                src_addr <= 0xFFFF_FFF0,
                src_addr & 1 != 1,
                src_addr.wrapping_add(4) & 1 != 1,
                src_addr.wrapping_add(8) & 1 != 1,
                src_addr.wrapping_add(12) & 1 != 1,
                ccr_kept(*old(self), *self),
                self.dar@ == regs0,
                self.pending_sync_clocks == 0,
                self.address_mask == mask,
                bus.events() == ev1 + Seq::new(i as nat, |k: int| BusEvent::ReadLong(line_word(src_addr, k, mask), v@[k])),
            decreases 4 - i,
        {
            let ghost before = bus.events();
            let ghost vb = v@;
            let w = self.read_32(bus, src_addr.wrapping_add(i * 4));
            v[i as usize] = w;
            proof {
                assert(sync_events(0u32) =~= Seq::<BusEvent>::empty());
                assert(src_addr.wrapping_add((i * 4) as u32) == (src_addr + 4 * i) as u32);
                assert(bus.events() =~= ev1 + Seq::new((i + 1) as nat, |k: int| BusEvent::ReadLong(line_word(src_addr, k, mask), v@[k])));
            }
            i = i + 1;
        }
        let ghost ev2 = bus.events();
        let mut j: u32 = 0;
        while j < 4
            invariant
                j <= 4,
                dst_addr <= 0xFFFF_FFF0,
                dst_addr & 1 != 1,
                dst_addr.wrapping_add(4) & 1 != 1,
                dst_addr.wrapping_add(8) & 1 != 1,
                dst_addr.wrapping_add(12) & 1 != 1,
                ccr_kept(*old(self), *self),
                self.dar@ == regs0,
                self.pending_sync_clocks == 0,
                self.address_mask == mask,
                bus.events() == ev2 + Seq::new(j as nat, |k: int| BusEvent::WriteLong(line_word(dst_addr, k, mask), v@[k])),
            decreases 4 - j,
        {
            self.write_32(bus, dst_addr.wrapping_add(j * 4), v[j as usize]);
            proof {
                assert(sync_events(0u32) =~= Seq::<BusEvent>::empty());
                assert(dst_addr.wrapping_add((j * 4) as u32) == (dst_addr + 4 * j) as u32);
                assert(bus.events() =~= ev2 + Seq::new((j + 1) as nat, |k: int| BusEvent::WriteLong(line_word(dst_addr, k, mask), v@[k])));
            }
            j = j + 1;
        }
        proof {
            let copy = move16_copy(src_addr, dst_addr, mask, v@);
            assert(bus.events() =~= ev1 + copy);
            let ev = bus.events();
            assert(ev.subrange(ev.len() - 8, ev.len() as int) =~= copy);
        }
        if inc_src {
            let a = self.a(reg);
            self.set_a(reg, a.wrapping_add(16));
        }
        if let Some(r) = inc_dst {
            let a = self.a(r);
            self.set_a(r, a.wrapping_add(16));
        }
        proof {
            assert(self.dar@ == move16_regs(old(self).dar@, opcode, ext));
            assert(move16_copy(
                move16_src(old(self).dar@, opcode, abs),
                move16_dst(old(self).dar@, opcode, ext, abs),
                old(self).address_mask,
                v@,
            ) == move16_copy(src_addr, dst_addr, mask, v@));
        }
        4
    }
}

} // verus!
