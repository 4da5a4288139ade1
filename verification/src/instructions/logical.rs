//! Logical instructions: AND, OR, EOR and their immediate, CCR and SR
//! forms (NOT is with the other unary operations).

use vstd::prelude::*;
use crate::cpu::{CpuCore, RUN_MODE_BERR_AERR_RESET};
use crate::ea::{AddressingMode, mode_ok, ea_time_spec};
use crate::flags::n_of;
use crate::instructions::integer_arith::{ccr_logic, sized_write};
use crate::memory::{AddressBus, BusEvent};
use crate::mem_ops::{sync_events, imm_queue_step, imm16_queue_events, refill_events, refilled_pending, prefetch_events, stream_word, log_extends, access_faults, lemma_log_extends_append};
use crate::ea::{EaResult, resolved};
use crate::instructions::data_movement::{read_logged, write_data_events, read_event};
use crate::cpu::sat_add;
use crate::exceptions::{simple_entry, stack_usable};
use crate::vector;
use crate::types::{CpuType, Size, size_mask};

verus! {

/// `new` holds `result` in data register `reg` (operand width `size`) with
/// the flags of a logical operation on it: N and Z from the result, V and C
/// cleared, X kept.
pub open spec fn logic_reg_effect(old: CpuCore, new: CpuCore, reg: int, size: Size, result: u32) -> bool {
    &&& new.dar[reg] == sized_write(old.dar[reg], result, size)
    &&& new.x_flag == old.x_flag
    &&& new.n_flag == n_of(result, size)
    &&& new.not_z_flag == result & size_mask(size)
    &&& new.v_flag == 0
    &&& new.c_flag == 0
}

/// `imm`, an immediate operand of `size`, was taken from the instruction
/// stream going from `old` (log `before`) to `new` (log `after`): one word
/// (its low byte for a byte operand), or two words high first for a long.
pub open spec fn imm_stream(old: CpuCore, new: CpuCore, before: Seq<BusEvent>, after: Seq<BusEvent>, size: Size, imm: u32) -> bool {
    match size {
        Size::Long => exists|mid: CpuCore, e_mid: Seq<BusEvent>, hi: u16, lo: u16|
            #![trigger stream_word(old, mid, before, e_mid, hi), stream_word(mid, new, e_mid, after, lo)]
            stream_word(old, mid, before, e_mid, hi) && stream_word(mid, new, e_mid, after, lo) && (imm >> 16u32) as u16
                == hi && imm as u16 == lo,
        Size::Word => exists|w: u16| #[trigger] stream_word(old, new, before, after, w) && imm == w as u32,
        Size::Byte => exists|w: u16| #[trigger] stream_word(old, new, before, after, w) && imm == (w as u32) & 0xFF,
    }
}

/// The bus log `after` ends with `tail`.
pub open spec fn log_ends_with(after: Seq<BusEvent>, tail: Seq<BusEvent>) -> bool {
    after.len() >= tail.len() && after.subrange(after.len() - tail.len(), after.len() as int) == tail
}

/// A memory destination of an immediate logic instruction: the log ends
/// with the store of `result` at `addr` (state `s` at the access), and the
/// flags are those of `result`.
pub open spec fn imm_logic_mem(old: CpuCore, new: CpuCore, after: Seq<BusEvent>, s: CpuCore, addr: u32, size: Size, result: u32) -> bool {
    &&& log_ends_with(after, write_data_events(s.cpu_type, s.address_mask, addr, size, result))
    &&& new.x_flag == old.x_flag
    &&& new.n_flag == n_of(result, size)
    &&& new.not_z_flag == result & size_mask(size)
    &&& new.v_flag == 0
    &&& new.c_flag == 0
}

/// What an immediate logic instruction does once its immediate `imm` has
/// been taken (state `mid`, log `e_mid`), `op` combining the immediate with
/// the destination: a data register takes `op(imm, Dn)` in its low `size`
/// bits with the flags of the result; a memory destination that does not
/// fault is read and then written with `op(imm, value read)`.
pub open spec fn imm_logic_effect(
    old: CpuCore,
    mid: CpuCore,
    new: CpuCore,
    e_mid: Seq<BusEvent>,
    after: Seq<BusEvent>,
    mode: AddressingMode,
    size: Size,
    imm: u32,
    op: spec_fn(u32, u32) -> u32,
) -> bool {
    match mode {
        AddressingMode::DataDirect(n) => {
            &&& logic_reg_effect(old, new, n as int, size, op(imm, old.dar[n as int] & size_mask(size)) & size_mask(size))
            &&& log_extends(e_mid, after)
        },
        AddressingMode::AddressDirect(_) => true,
        AddressingMode::Immediate => true,
        _ => exists|ea: EaResult, s: CpuCore|
            #[trigger] resolved(mid, s, mode, size, ea) && (ea matches EaResult::Memory(addr) ==> (!access_faults(
                s.is_pre_68020,
                addr,
                size,
            ) ==> log_extends(e_mid, after) && exists|d: u32|
                #[trigger] read_logged(after, addr & s.address_mask, size, d) && imm_logic_mem(
                    old,
                    new,
                    after,
                    s,
                    addr,
                    size,
                    op(imm, d) & size_mask(size),
                ))),
    }
}

/// A read followed by a store: the log keeps what came before, holds the
/// read right after the reported clocks, and ends with the written cycles.
proof fn lemma_read_then_write(
    e_s: Seq<BusEvent>,
    sync: Seq<BusEvent>,
    ev: BusEvent,
    middle: Seq<BusEvent>,
    w: Seq<BusEvent>,
    after: Seq<BusEvent>,
)
    requires
        after == (e_s + sync).push(ev) + (middle + w),
    ensures
        log_extends(e_s, after),
        after[(e_s.len() + sync.len()) as int] == ev,
        log_ends_with(after, w),
{
    assert(after.subrange(0, e_s.len() as int) =~= e_s);
    assert(after.subrange(after.len() - w.len(), after.len() as int) =~= w);
}

/// The immediate operand an instruction finds at the head of a non-empty
/// 68000/010 prefetch queue, for a byte or word operand.
pub open spec fn queued_imm(cpu: CpuCore, size: Size) -> u32 {
    if size == Size::Byte {
        (cpu.prefetch_queue[0] as u32) & 0xFF
    } else {
        cpu.prefetch_queue[0] as u32
    }
}

/// The immediate operand comes from the head of the prefetch queue.
pub open spec fn imm_queued(cpu: CpuCore, size: Size) -> bool {
    cpu.is_pre_68020 && cpu.prefetch_count >= 1 && size != Size::Long
}

/// Clocks of ORI/EORI to `mode` on the 16-bit-bus models and later.
pub open spec fn imm_logic_cycles(pre_68020: bool, mode: AddressingMode, size: Size) -> i32 {
    let long = size == Size::Long;
    if pre_68020 && !(mode is DataDirect) {
        ((if long {
            20int
        } else {
            12int
        }) + ea_time_spec(mode, size)) as i32
    } else if long {
        16
    } else {
        8
    }
}

/// The state after an immediate-to-CCR instruction: only the condition
/// codes and the instruction-stream state changed.
pub open spec fn ccr_stream_frame(old: CpuCore, new: CpuCore) -> bool {
    new == (CpuCore {
        x_flag: new.x_flag,
        n_flag: new.n_flag,
        not_z_flag: new.not_z_flag,
        v_flag: new.v_flag,
        c_flag: new.c_flag,
        pc: new.pc,
        prefetch_queue: new.prefetch_queue,
        prefetch_count: new.prefetch_count,
        pending_sync_clocks: new.pending_sync_clocks,
        ..old
    })
}

/// The bus log went from `before` to `after` by the fetch of the
/// immediate word `imm` at the PC of `cpu` (with its pending clocks
/// reported first).
pub open spec fn immediate_fetched(before: Seq<BusEvent>, after: Seq<BusEvent>, cpu: CpuCore, imm: u16) -> bool {
    after == (before + sync_events(cpu.pending_sync_clocks)).push(
        BusEvent::ReadWord(cpu.pc & cpu.address_mask, imm),
    )
}

/// On the 68000/68010, the immediate operand of `size` was consumed from the
/// instruction stream between `old` (log `before`) and `new` (log `after`):
/// one word, or two for a long.
pub open spec fn imm_sized_fetched(old: CpuCore, new: CpuCore, before: Seq<BusEvent>, after: Seq<BusEvent>, size: Size) -> bool {
    match size {
        Size::Long => exists|mid: CpuCore, w1: u16, w2: u16|
            #![trigger imm16_queue_events(old, mid, w1), imm16_queue_events(mid, new, w2)]
            imm_queue_step(old, mid) && imm_queue_step(mid, new) && after == before + imm16_queue_events(old, mid, w1)
                + imm16_queue_events(mid, new, w2),
        _ => imm_queue_step(old, new) && exists|w: u16| after == before + #[trigger] imm16_queue_events(old, new, w),
    }
}

/// The 68000's end of an immediate instruction on a data register from
/// `old`: the final prefetch, the IPL sample, and for a long four internal
/// clocks reported with any still pending.
pub open spec fn imm_reg_finish_events(old: CpuCore, new: CpuCore, size: Size) -> Seq<BusEvent> {
    refill_events(old, new) + seq![BusEvent::IplHold] + if size == Size::Long {
        sync_events(sat_add(refilled_pending(old), 4))
    } else {
        seq![]
    }
}

impl CpuCore {
    /// SR write of an immediate-to-SR instruction: eight internal clocks
    /// (the 68000 reports them before the write), then the queue refill.
    fn finish_immediate_sr_write<B: AddressBus>(&mut self, bus: &mut B, sr: u16)
        ensures
            final(self).sr() == sr & old(self).sr_mask & 0xF71F,
            final(self).pc == old(self).pc,
            final(self).cpu_type == old(self).cpu_type,
            old(self).is_pre_68020 ==> final(self).prefetch_count == 2,
            old(self).cpu_type != CpuType::M68000 && !old(self).is_pre_68020 ==> final(bus).events() == old(bus).events(),
            old(self).cpu_type == CpuType::M68000 && old(self).is_pre_68020 ==> final(bus).events() == old(bus).events()
                + sync_events(sat_add(old(self).pending_sync_clocks, 8)) + prefetch_events(*final(self)),
    {
        proof {
            assert(sync_events(0u32) =~= Seq::<BusEvent>::empty());
        }
        if self.cpu_type == CpuType::M68000 {
            self.internal_cycles(8);
            self.flush_sync(bus);
            self.trace_t0_sr_write();
            self.set_sr(sr);
        } else {
            self.trace_t0_sr_write();
            self.set_sr(sr);
            self.internal_cycles(8);
        }
        self.full_prefetch(bus);
    }

    /// 68000 register destination of an immediate instruction: final
    /// prefetch and IPL sample, four internal clocks for a long, then the
    /// write (skipped once the instruction has been aborted).
    pub(crate) fn finish_m68000_immediate_data_register_write<B: AddressBus>(
        &mut self,
        bus: &mut B,
        reg: usize,
        size: Size,
        value: u32,
    )
        requires
            reg < 8,
        ensures
            !(old(self).cpu_type == CpuType::M68000 && old(self).run_mode == RUN_MODE_BERR_AERR_RESET)
                ==> final(self).dar@ == old(self).dar@.update(
                reg as int,
                sized_write(old(self).dar[reg as int], value, size),
            ),
            *final(self) == (CpuCore {
                dar: final(self).dar,
                prefetch_queue: final(self).prefetch_queue,
                prefetch_count: final(self).prefetch_count,
                pending_sync_clocks: final(self).pending_sync_clocks,
                ..*old(self)
            }),
            old(self).cpu_type == CpuType::M68000 && old(self).run_mode != RUN_MODE_BERR_AERR_RESET
                ==> final(bus).events() == old(bus).events() + imm_reg_finish_events(*old(self), *final(self), size),
            old(self).cpu_type == CpuType::M68000 && old(self).run_mode != RUN_MODE_BERR_AERR_RESET ==> {
                &&& old(self).is_pre_68020 && old(self).prefetch_count < 2 ==> final(self).prefetch_count == 2
                &&& final(self).pending_sync_clocks == (if size == Size::Long {
                    0
                } else {
                    refilled_pending(*old(self))
                })
            },
    {
        let ghost e0 = bus.events();
        if self.cpu_type == CpuType::M68000 {
            self.top_up_prefetch(bus);
            self.ipl_poll_point(bus);
            if self.run_mode == RUN_MODE_BERR_AERR_RESET {
                return ;
            }
            if size == Size::Long {
                self.internal_cycles(4);
                self.flush_sync(bus);
            }
            proof {
                assert(bus.events() =~= e0 + imm_reg_finish_events(*old(self), *self, size));
            }
        }
        match size {
            Size::Byte => self.dar[reg] = (self.dar[reg] & 0xFFFF_FF00) | (value & 0xFF),
            Size::Word => self.dar[reg] = (self.dar[reg] & 0xFFFF_0000) | (value & 0xFFFF),
            Size::Long => self.dar[reg] = value,
        }
    }

    /// AND: `src & dst` on the operand width, with logical flags.
    pub fn exec_and<B: AddressBus>(&mut self, _bus: &mut B, size: Size, src: u32, dst: u32) -> (r: (
        u32,
        i32,
    ))
        ensures
            r.0 == src & dst & size_mask(size),
            r.1 == 4,
            final(_bus).events() == old(_bus).events(),
            ccr_logic(*old(self), *final(self), r.0, size),
    {
        let result = src & dst & size.mask();
        self.set_logic_flags(result, size);
        (result, 4)
    }

    /// OR: `src | dst` on the operand width, with logical flags.
    pub fn exec_or<B: AddressBus>(&mut self, _bus: &mut B, size: Size, src: u32, dst: u32) -> (r: (
        u32,
        i32,
    ))
        ensures
            r.0 == (src | dst) & size_mask(size),
            r.1 == 4,
            final(_bus).events() == old(_bus).events(),
            ccr_logic(*old(self), *final(self), r.0, size),
    {
        let result = (src | dst) & size.mask();
        self.set_logic_flags(result, size);
        (result, 4)
    }

    /// EOR: `src ^ dst` on the operand width, with logical flags.
    pub fn exec_eor<B: AddressBus>(&mut self, _bus: &mut B, size: Size, src: u32, dst: u32) -> (r: (
        u32,
        i32,
    ))
        ensures
            r.0 == (src ^ dst) & size_mask(size),
            r.1 == 4,
            final(_bus).events() == old(_bus).events(),
            ccr_logic(*old(self), *final(self), r.0, size),
    {
        let result = (src ^ dst) & size.mask();
        self.set_logic_flags(result, size);
        (result, 4)
    }

    /// Consume an immediate operand of `size` from the instruction stream.
    fn read_imm_sized<B: AddressBus>(&mut self, bus: &mut B, size: Size) -> (r: u32)
        ensures
            imm_queued(*old(self), size) ==> r == queued_imm(*old(self), size),
            r == r & size_mask(size),
            *final(self) == (CpuCore {
                pc: final(self).pc,
                prefetch_queue: final(self).prefetch_queue,
                prefetch_count: final(self).prefetch_count,
                pending_sync_clocks: final(self).pending_sync_clocks,
                ..*old(self)
            }),
            old(self).is_pre_68020 ==> imm_sized_fetched(*old(self), *final(self), old(bus).events(), final(bus).events(), size),
            imm_stream(*old(self), *final(self), old(bus).events(), final(bus).events(), size, r),
    {
        match size {
            Size::Byte => {
                let w16 = self.read_imm_16(bus);
                let w = w16 as u32;
                proof {
                    crate::types::lemma_mask_bounds(w);
                    if old(self).is_pre_68020 {
                        assert(bus.events() == old(bus).events() + imm16_queue_events(*old(self), *self, w16));
                    }
                    assert(stream_word(*old(self), *self, old(bus).events(), bus.events(), w16));
                }
                w & 0xFF
            },
            Size::Word => {
                let w16 = self.read_imm_16(bus);
                let w = w16 as u32;
                proof {
                    crate::types::lemma_merge_low(0, w);
                    if old(self).is_pre_68020 {
                        assert(bus.events() == old(bus).events() + imm16_queue_events(*old(self), *self, w16));
                    }
                    assert(stream_word(*old(self), *self, old(bus).events(), bus.events(), w16));
                }
                w
            },
            Size::Long => {
                let w = self.read_imm_32(bus);
                proof {
                    crate::types::lemma_mask_bounds(w);
                    if old(self).is_pre_68020 {
                        let mid = choose|mid: CpuCore|
                            imm_queue_step(*old(self), mid) && imm_queue_step(mid, *self) && bus.events()
                                == old(bus).events() + imm16_queue_events(*old(self), mid, (w >> 16u32) as u16)
                                + #[trigger] imm16_queue_events(mid, *self, w as u16);
                        assert(imm16_queue_events(*old(self), mid, (w >> 16u32) as u16) == imm16_queue_events(*old(self), mid, (w >> 16u32) as u16));
                    }
                    let (m2, e2) = choose|m2: CpuCore, e2: Seq<BusEvent>|
                        #[trigger] stream_word(*old(self), m2, old(bus).events(), e2, (w >> 16u32) as u16)
                            && stream_word(m2, *self, e2, bus.events(), w as u16);
                    assert(stream_word(m2, *self, e2, bus.events(), w as u16));
                }
                w
            },
        }
    }
}

impl CpuCore {
    /// ANDI #imm,<ea>.
    #[verifier::rlimit(40)]
    #[verifier::spinoff_prover]
    pub fn exec_andi<B: AddressBus>(&mut self, bus: &mut B, size: Size, mode: AddressingMode) -> (r: i32)
        requires
            mode_ok(mode),
        ensures
            old(self).run_mode == RUN_MODE_BERR_AERR_RESET ==> r == 50,
            old(self).run_mode != RUN_MODE_BERR_AERR_RESET ==> r == (if size == Size::Long {
                16i32
            } else {
                8i32
            }),
            mode is DataDirect && old(self).run_mode != RUN_MODE_BERR_AERR_RESET && imm_queued(
                *old(self),
                size,
            ) ==> logic_reg_effect(
                *old(self),
                *final(self),
                mode->DataDirect_0 as int,
                size,
                queued_imm(*old(self), size) & old(self).dar[mode->DataDirect_0 as int] & size_mask(size),
            ),
            mode is DataDirect && old(self).cpu_type == CpuType::M68000 && old(self).is_pre_68020 && old(
                self,
            ).run_mode != RUN_MODE_BERR_AERR_RESET ==> exists|mid: CpuCore, e_mid: Seq<BusEvent>|
                #![trigger imm_sized_fetched(*old(self), mid, old(bus).events(), e_mid, size)]
                imm_sized_fetched(*old(self), mid, old(bus).events(), e_mid, size) && final(bus).events() == e_mid
                    + imm_reg_finish_events(mid, *final(self), size),
            old(self).run_mode != RUN_MODE_BERR_AERR_RESET ==> exists|imm: u32, mid: CpuCore, e_mid: Seq<BusEvent>|
                #[trigger] imm_stream(*old(self), mid, old(bus).events(), e_mid, size, imm) && imm_logic_effect(
                    *old(self),
                    mid,
                    *final(self),
                    e_mid,
                    final(bus).events(),
                    mode,
                    size,
                    imm,
                    |a: u32, b: u32| a & b,
                ),
    {
        let imm = self.read_imm_sized(bus, size);
        let ghost mid = *self;
        let ghost e_mid = bus.events();
        if self.run_mode == RUN_MODE_BERR_AERR_RESET {
            return 50;
        }
        if self.cpu_type == CpuType::M68000 {
            if let AddressingMode::DataDirect(reg) = mode {
                let dst = self.d(reg as usize) & size.mask();
                let (result, _) = self.exec_and::<B>(bus, size, imm, dst);
                let ghost s2 = *self;
                self.finish_m68000_immediate_data_register_write(bus, reg as usize, size, result);
                proof {
                    lemma_and_masked(imm, old(self).dar[reg as int], size);
                    assert(imm_reg_finish_events(s2, *self, size) == imm_reg_finish_events(mid, *self, size));
                    if old(self).is_pre_68020 {
                        assert(imm_sized_fetched(*old(self), mid, old(bus).events(), e_mid, size));
                    }
                    lemma_log_extends_append(e_mid, imm_reg_finish_events(mid, *self, size));
                    assert(imm_logic_effect(*old(self), mid, *self, e_mid, bus.events(), mode, size, imm, |a: u32, b: u32| a & b));
                }
                return if size == Size::Long {
                    16
                } else {
                    8
                };
            }
        }
        let ea = self.resolve_ea(bus, mode, size);
        let ghost s = *self;
        let ghost e_s = bus.events();
        let dst = self.read_resolved_ea(bus, ea, size);
        let (result, _) = self.exec_and::<B>(bus, size, imm, dst);
        let ghost s3 = *self;
        let ghost e_r = bus.events();
        self.write_resolved_ea_np_poll(bus, ea, size, result);
        proof {
            if mode is DataDirect {
                lemma_and_masked(imm, old(self).dar[mode->DataDirect_0 as int], size);
                lemma_log_extends_append(e_mid, Seq::empty());
            }
            if let EaResult::Memory(addr) = ea {
                if !access_faults(s.is_pre_68020, addr, size) {
                    lemma_read_then_write(
                        e_s,
                        sync_events(s.pending_sync_clocks),
                        read_event(addr & s.address_mask, size, dst),
                        refill_events(s3, *self) + seq![BusEvent::IplHold] + sync_events(refilled_pending(s3)),
                        write_data_events(s3.cpu_type, s3.address_mask, addr, size, result),
                        bus.events(),
                    );
                    assert(read_logged(bus.events(), addr & s.address_mask, size, dst));
                    crate::mem_ops::lemma_log_extends_trans(e_mid, e_s, bus.events());
                }
            }
            assert(imm_logic_effect(*old(self), mid, *self, e_mid, bus.events(), mode, size, imm, |a: u32, b: u32| a & b));
        }
        if size == Size::Long {
            16
        } else {
            8
        }
    }

    /// ORI #imm,<ea>.
    #[verifier::rlimit(40)]
    #[verifier::spinoff_prover]
    pub fn exec_ori<B: AddressBus>(&mut self, bus: &mut B, size: Size, mode: AddressingMode) -> (r: i32)
        requires
            mode_ok(mode),
        ensures
            old(self).run_mode == RUN_MODE_BERR_AERR_RESET ==> r == 50,
            mode is DataDirect && old(self).run_mode != RUN_MODE_BERR_AERR_RESET ==> r == (if size
                == Size::Long {
                16i32
            } else {
                8i32
            }),
            mode is DataDirect && old(self).run_mode != RUN_MODE_BERR_AERR_RESET && imm_queued(
                *old(self),
                size,
            ) ==> logic_reg_effect(
                *old(self),
                *final(self),
                mode->DataDirect_0 as int,
                size,
                (queued_imm(*old(self), size) | (old(self).dar[mode->DataDirect_0 as int] & size_mask(size))) & size_mask(size),
            ),
            !(mode is DataDirect) && final(self).run_mode != RUN_MODE_BERR_AERR_RESET ==> r
                == imm_logic_cycles(old(self).is_pre_68020, mode, size),
            mode is DataDirect && old(self).cpu_type == CpuType::M68000 && old(self).is_pre_68020 && old(
                self,
            ).run_mode != RUN_MODE_BERR_AERR_RESET ==> exists|mid: CpuCore, e_mid: Seq<BusEvent>|
                #![trigger imm_sized_fetched(*old(self), mid, old(bus).events(), e_mid, size)]
                imm_sized_fetched(*old(self), mid, old(bus).events(), e_mid, size) && final(bus).events() == e_mid
                    + imm_reg_finish_events(mid, *final(self), size),
            old(self).run_mode != RUN_MODE_BERR_AERR_RESET ==> exists|imm: u32, mid: CpuCore, e_mid: Seq<BusEvent>|
                #[trigger] imm_stream(*old(self), mid, old(bus).events(), e_mid, size, imm) && imm_logic_effect(
                    *old(self),
                    mid,
                    *final(self),
                    e_mid,
                    final(bus).events(),
                    mode,
                    size,
                    imm,
                    |a: u32, b: u32| a | b,
                ),
    {
        let imm = self.read_imm_sized(bus, size);
        let ghost mid = *self;
        let ghost e_mid = bus.events();
        if self.run_mode == RUN_MODE_BERR_AERR_RESET {
            return 50;
        }
        if self.cpu_type == CpuType::M68000 {
            if let AddressingMode::DataDirect(reg) = mode {
                let dst = self.d(reg as usize) & size.mask();
                let (result, _) = self.exec_or::<B>(bus, size, imm, dst);
                let ghost s2 = *self;
                self.finish_m68000_immediate_data_register_write(bus, reg as usize, size, result);
                proof {
                    assert(imm_reg_finish_events(s2, *self, size) == imm_reg_finish_events(mid, *self, size));
                    if old(self).is_pre_68020 {
                        assert(imm_sized_fetched(*old(self), mid, old(bus).events(), e_mid, size));
                    }
                    lemma_log_extends_append(e_mid, imm_reg_finish_events(mid, *self, size));
                    assert(imm_logic_effect(*old(self), mid, *self, e_mid, bus.events(), mode, size, imm, |a: u32, b: u32| a | b));
                }
                return if size == Size::Long {
                    16
                } else {
                    8
                };
            }
        }
        let ea = self.resolve_ea(bus, mode, size);
        let ghost s = *self;
        let ghost e_s = bus.events();
        let dst = self.read_resolved_ea(bus, ea, size);
        if self.run_mode == RUN_MODE_BERR_AERR_RESET {
            proof {
                assert(imm_logic_effect(*old(self), mid, *self, e_mid, bus.events(), mode, size, imm, |a: u32, b: u32| a | b));
            }
            return 50;
        }
        let result = (imm | dst) & size.mask();
        let ghost s3 = *self;
        self.write_resolved_ea_np_poll(bus, ea, size, result);
        if self.run_mode == RUN_MODE_BERR_AERR_RESET {
            proof {
                assert(imm_logic_effect(*old(self), mid, *self, e_mid, bus.events(), mode, size, imm, |a: u32, b: u32| a | b));
            }
            return 50;
        }
        self.set_logic_flags(result, size);
        proof {
            if mode is DataDirect {
                lemma_log_extends_append(e_mid, Seq::empty());
            }
            if let EaResult::Memory(addr) = ea {
                if !access_faults(s.is_pre_68020, addr, size) {
                    lemma_read_then_write(
                        e_s,
                        sync_events(s.pending_sync_clocks),
                        read_event(addr & s.address_mask, size, dst),
                        refill_events(s3, *self) + seq![BusEvent::IplHold] + sync_events(refilled_pending(s3)),
                        write_data_events(s3.cpu_type, s3.address_mask, addr, size, result),
                        bus.events(),
                    );
                    assert(read_logged(bus.events(), addr & s.address_mask, size, dst));
                    crate::mem_ops::lemma_log_extends_trans(e_mid, e_s, bus.events());
                }
            }
            assert(imm_logic_effect(*old(self), mid, *self, e_mid, bus.events(), mode, size, imm, |a: u32, b: u32| a | b));
        }
        if self.is_pre_68020 {
            let long = size == Size::Long;
            if matches!(mode, AddressingMode::DataDirect(_)) {
                if long {
                    16
                } else {
                    8
                }
            } else {
                (if long {
                    20
                } else {
                    12
                }) + self.ea_time(mode, size)
            }
        } else if size == Size::Long {
            16
        } else {
            8
        }
    }

    /// EORI #imm,<ea>.
    #[verifier::rlimit(40)]
    #[verifier::spinoff_prover]
    pub fn exec_eori<B: AddressBus>(&mut self, bus: &mut B, size: Size, mode: AddressingMode) -> (r: i32)
        requires
            mode_ok(mode),
        ensures
            old(self).run_mode == RUN_MODE_BERR_AERR_RESET ==> r == 50,
            mode is DataDirect && old(self).run_mode != RUN_MODE_BERR_AERR_RESET ==> r == (if size
                == Size::Long {
                16i32
            } else {
                8i32
            }),
            mode is DataDirect && old(self).run_mode != RUN_MODE_BERR_AERR_RESET && imm_queued(
                *old(self),
                size,
            ) ==> logic_reg_effect(
                *old(self),
                *final(self),
                mode->DataDirect_0 as int,
                size,
                (queued_imm(*old(self), size) ^ (old(self).dar[mode->DataDirect_0 as int] & size_mask(size))) & size_mask(size),
            ),
            !(mode is DataDirect) && final(self).run_mode != RUN_MODE_BERR_AERR_RESET ==> r
                == imm_logic_cycles(old(self).is_pre_68020, mode, size),
            mode is DataDirect && old(self).cpu_type == CpuType::M68000 && old(self).is_pre_68020 && old(
                self,
            ).run_mode != RUN_MODE_BERR_AERR_RESET ==> exists|mid: CpuCore, e_mid: Seq<BusEvent>|
                #![trigger imm_sized_fetched(*old(self), mid, old(bus).events(), e_mid, size)]
                imm_sized_fetched(*old(self), mid, old(bus).events(), e_mid, size) && final(bus).events() == e_mid
                    + imm_reg_finish_events(mid, *final(self), size),
            old(self).run_mode != RUN_MODE_BERR_AERR_RESET ==> exists|imm: u32, mid: CpuCore, e_mid: Seq<BusEvent>|
                #[trigger] imm_stream(*old(self), mid, old(bus).events(), e_mid, size, imm) && imm_logic_effect(
                    *old(self),
                    mid,
                    *final(self),
                    e_mid,
                    final(bus).events(),
                    mode,
                    size,
                    imm,
                    |a: u32, b: u32| a ^ b,
                ),
    {
        let imm = self.read_imm_sized(bus, size);
        let ghost mid = *self;
        let ghost e_mid = bus.events();
        if self.run_mode == RUN_MODE_BERR_AERR_RESET {
            return 50;
        }
        if self.cpu_type == CpuType::M68000 {
            if let AddressingMode::DataDirect(reg) = mode {
                let dst = self.d(reg as usize) & size.mask();
                let (result, _) = self.exec_eor::<B>(bus, size, imm, dst);
                let ghost s2 = *self;
                self.finish_m68000_immediate_data_register_write(bus, reg as usize, size, result);
                proof {
                    assert(imm_reg_finish_events(s2, *self, size) == imm_reg_finish_events(mid, *self, size));
                    if old(self).is_pre_68020 {
                        assert(imm_sized_fetched(*old(self), mid, old(bus).events(), e_mid, size));
                    }
                    lemma_log_extends_append(e_mid, imm_reg_finish_events(mid, *self, size));
                    assert(imm_logic_effect(*old(self), mid, *self, e_mid, bus.events(), mode, size, imm, |a: u32, b: u32| a ^ b));
                }
                return if size == Size::Long {
                    16
                } else {
                    8
                };
            }
        }
        let ea = self.resolve_ea(bus, mode, size);
        let ghost s = *self;
        let ghost e_s = bus.events();
        let dst = self.read_resolved_ea(bus, ea, size);
        if self.run_mode == RUN_MODE_BERR_AERR_RESET {
            proof {
                assert(imm_logic_effect(*old(self), mid, *self, e_mid, bus.events(), mode, size, imm, |a: u32, b: u32| a ^ b));
            }
            return 50;
        }
        let result = (imm ^ dst) & size.mask();
        let ghost s3 = *self;
        self.write_resolved_ea_np_poll(bus, ea, size, result);
        if self.run_mode == RUN_MODE_BERR_AERR_RESET {
            proof {
                assert(imm_logic_effect(*old(self), mid, *self, e_mid, bus.events(), mode, size, imm, |a: u32, b: u32| a ^ b));
            }
            return 50;
        }
        self.set_logic_flags(result, size);
        proof {
            if mode is DataDirect {
                lemma_log_extends_append(e_mid, Seq::empty());
            }
            if let EaResult::Memory(addr) = ea {
                if !access_faults(s.is_pre_68020, addr, size) {
                    lemma_read_then_write(
                        e_s,
                        sync_events(s.pending_sync_clocks),
                        read_event(addr & s.address_mask, size, dst),
                        refill_events(s3, *self) + seq![BusEvent::IplHold] + sync_events(refilled_pending(s3)),
                        write_data_events(s3.cpu_type, s3.address_mask, addr, size, result),
                        bus.events(),
                    );
                    assert(read_logged(bus.events(), addr & s.address_mask, size, dst));
                    crate::mem_ops::lemma_log_extends_trans(e_mid, e_s, bus.events());
                }
            }
            assert(imm_logic_effect(*old(self), mid, *self, e_mid, bus.events(), mode, size, imm, |a: u32, b: u32| a ^ b));
        }
        if self.is_pre_68020 {
            let long = size == Size::Long;
            if matches!(mode, AddressingMode::DataDirect(_)) {
                if long {
                    16
                } else {
                    8
                }
            } else {
                (if long {
                    20
                } else {
                    12
                }) + self.ea_time(mode, size)
            }
        } else if size == Size::Long {
            16
        } else {
            8
        }
    }

    /// ANDI #imm,CCR: eight internal clocks, then the queue is refilled.
    pub fn exec_andi_ccr<B: AddressBus>(&mut self, bus: &mut B) -> (r: i32)
        ensures
            r == 20,
            old(self).is_pre_68020 && old(self).prefetch_count >= 1 ==> final(self).ccr() == (old(
                self,
            ).ccr() & (old(self).prefetch_queue[0] as u8)) & 0x1F,
            ccr_stream_frame(*old(self), *final(self)),
    {
        let imm = self.read_imm_16(bus) as u8;
        let ccr = self.get_ccr() & imm;
        self.set_ccr(ccr);
        self.internal_cycles(8);
        self.full_prefetch(bus);
        20
    }

    /// ORI #imm,CCR.
    pub fn exec_ori_ccr<B: AddressBus>(&mut self, bus: &mut B) -> (r: i32)
        ensures
            r == 20,
            old(self).is_pre_68020 && old(self).prefetch_count >= 1 ==> final(self).ccr() == (old(
                self,
            ).ccr() | (old(self).prefetch_queue[0] as u8)) & 0x1F,
            ccr_stream_frame(*old(self), *final(self)),
    {
        let imm = self.read_imm_16(bus) as u8;
        let ccr = self.get_ccr() | imm;
        self.set_ccr(ccr);
        self.internal_cycles(8);
        self.full_prefetch(bus);
        20
    }

    /// EORI #imm,CCR.
    pub fn exec_eori_ccr<B: AddressBus>(&mut self, bus: &mut B) -> (r: i32)
        ensures
            r == 20,
            old(self).is_pre_68020 && old(self).prefetch_count >= 1 ==> final(self).ccr() == (old(
                self,
            ).ccr() ^ (old(self).prefetch_queue[0] as u8)) & 0x1F,
            ccr_stream_frame(*old(self), *final(self)),
    {
        let imm = self.read_imm_16(bus) as u8;
        let ccr = self.get_ccr() ^ imm;
        self.set_ccr(ccr);
        self.internal_cycles(8);
        self.full_prefetch(bus);
        20
    }

    /// ANDI #imm,SR (privileged).
    pub fn exec_andi_sr<B: AddressBus>(&mut self, bus: &mut B) -> (r: i32)
        ensures
            old(self).s_flag & 4 == 0 && !old(self).exception_processing ==> r == 34
                && final(self).s_flag == 4,
            old(self).s_flag & 4 != 0 ==> r == 20,
            old(self).s_flag & 4 != 0 && old(self).is_pre_68020 && old(self).prefetch_count >= 1
                ==> final(self).sr() == (old(self).sr() & old(self).prefetch_queue[0]) & old(
                self,
            ).sr_mask & 0xF71F,
            old(self).s_flag & 4 == 0 && !old(self).exception_processing && stack_usable(*old(self)) ==> simple_entry(
                *old(self),
                *final(self),
                old(bus).events(),
                final(bus).events(),
                vector::PRIVILEGE_VIOLATION,
            ),
            old(self).s_flag & 4 != 0 && !old(self).is_pre_68020 && old(self).cpu_type != CpuType::M68000
                ==> exists|imm: u16|
                #[trigger] immediate_fetched(old(bus).events(), final(bus).events(), *old(self), imm) && final(self).sr() == (old(self).sr() & imm) & old(self).sr_mask & 0xF71F,
            old(self).s_flag & 4 != 0 && old(self).cpu_type == CpuType::M68000 && old(self).is_pre_68020
                ==> exists|mid: CpuCore, imm: u16|
                #![trigger imm16_queue_events(*old(self), mid, imm)]
                imm_queue_step(*old(self), mid) && final(bus).events() == old(bus).events()
                    + imm16_queue_events(*old(self), mid, imm) + sync_events(sat_add(mid.pending_sync_clocks, 8))
                    + prefetch_events(*final(self)) && final(self).sr() == (old(self).sr() & imm) & old(self).sr_mask & 0xF71F,
    {
        if !self.is_supervisor() {
            return self.exception_privilege(bus);
        }
        let imm = self.read_imm_16(bus);
        let ghost e1 = bus.events();
        let ghost mid = *self;
        proof {
            if !old(self).is_pre_68020 {
                assert(immediate_fetched(old(bus).events(), e1, *old(self), imm));
            }
        }
        let sr = self.get_sr() & imm;
        self.finish_immediate_sr_write(bus, sr);
        proof {
            if !old(self).is_pre_68020 && old(self).cpu_type != CpuType::M68000 {
                assert(bus.events() == e1);
                assert(immediate_fetched(old(bus).events(), bus.events(), *old(self), imm));
            }
            if old(self).cpu_type == CpuType::M68000 && old(self).is_pre_68020 {
                assert(bus.events() == old(bus).events() + imm16_queue_events(*old(self), mid, imm) + sync_events(
                    sat_add(mid.pending_sync_clocks, 8),
                ) + prefetch_events(*self));
            }
        }
        20
    }

    /// ORI #imm,SR (privileged).
    pub fn exec_ori_sr<B: AddressBus>(&mut self, bus: &mut B) -> (r: i32)
        ensures
            old(self).s_flag & 4 == 0 && !old(self).exception_processing ==> r == 34
                && final(self).s_flag == 4,
            old(self).s_flag & 4 != 0 ==> r == 20,
            old(self).s_flag & 4 != 0 && old(self).is_pre_68020 && old(self).prefetch_count >= 1
                ==> final(self).sr() == (old(self).sr() | old(self).prefetch_queue[0]) & old(
                self,
            ).sr_mask & 0xF71F,
            old(self).s_flag & 4 == 0 && !old(self).exception_processing && stack_usable(*old(self)) ==> simple_entry(
                *old(self),
                *final(self),
                old(bus).events(),
                final(bus).events(),
                vector::PRIVILEGE_VIOLATION,
            ),
            old(self).s_flag & 4 != 0 && !old(self).is_pre_68020 && old(self).cpu_type != CpuType::M68000
                ==> exists|imm: u16|
                #[trigger] immediate_fetched(old(bus).events(), final(bus).events(), *old(self), imm) && final(self).sr() == (old(self).sr() | imm) & old(self).sr_mask & 0xF71F,
            old(self).s_flag & 4 != 0 && old(self).cpu_type == CpuType::M68000 && old(self).is_pre_68020
                ==> exists|mid: CpuCore, imm: u16|
                #![trigger imm16_queue_events(*old(self), mid, imm)]
                imm_queue_step(*old(self), mid) && final(bus).events() == old(bus).events()
                    + imm16_queue_events(*old(self), mid, imm) + sync_events(sat_add(mid.pending_sync_clocks, 8))
                    + prefetch_events(*final(self)) && final(self).sr() == (old(self).sr() | imm) & old(self).sr_mask & 0xF71F,
    {
        if !self.is_supervisor() {
            return self.exception_privilege(bus);
        }
        let imm = self.read_imm_16(bus);
        let ghost e1 = bus.events();
        let ghost mid = *self;
        proof {
            if !old(self).is_pre_68020 {
                assert(immediate_fetched(old(bus).events(), e1, *old(self), imm));
            }
        }
        let sr = self.get_sr() | imm;
        self.finish_immediate_sr_write(bus, sr);
        proof {
            if !old(self).is_pre_68020 && old(self).cpu_type != CpuType::M68000 {
                assert(bus.events() == e1);
                assert(immediate_fetched(old(bus).events(), bus.events(), *old(self), imm));
            }
            if old(self).cpu_type == CpuType::M68000 && old(self).is_pre_68020 {
                assert(bus.events() == old(bus).events() + imm16_queue_events(*old(self), mid, imm) + sync_events(
                    sat_add(mid.pending_sync_clocks, 8),
                ) + prefetch_events(*self));
            }
        }
        20
    }

    /// EORI #imm,SR (privileged).
    pub fn exec_eori_sr<B: AddressBus>(&mut self, bus: &mut B) -> (r: i32)
        ensures
            old(self).s_flag & 4 == 0 && !old(self).exception_processing ==> r == 34
                && final(self).s_flag == 4,
            old(self).s_flag & 4 != 0 ==> r == 20,
            old(self).s_flag & 4 != 0 && old(self).is_pre_68020 && old(self).prefetch_count >= 1
                ==> final(self).sr() == (old(self).sr() ^ old(self).prefetch_queue[0]) & old(
                self,
            ).sr_mask & 0xF71F,
            old(self).s_flag & 4 == 0 && !old(self).exception_processing && stack_usable(*old(self)) ==> simple_entry(
                *old(self),
                *final(self),
                old(bus).events(),
                final(bus).events(),
                vector::PRIVILEGE_VIOLATION,
            ),
            old(self).s_flag & 4 != 0 && !old(self).is_pre_68020 && old(self).cpu_type != CpuType::M68000
                ==> exists|imm: u16|
                #[trigger] immediate_fetched(old(bus).events(), final(bus).events(), *old(self), imm) && final(self).sr() == (old(self).sr() ^ imm) & old(self).sr_mask & 0xF71F,
            old(self).s_flag & 4 != 0 && old(self).cpu_type == CpuType::M68000 && old(self).is_pre_68020
                ==> exists|mid: CpuCore, imm: u16|
                #![trigger imm16_queue_events(*old(self), mid, imm)]
                imm_queue_step(*old(self), mid) && final(bus).events() == old(bus).events()
                    + imm16_queue_events(*old(self), mid, imm) + sync_events(sat_add(mid.pending_sync_clocks, 8))
                    + prefetch_events(*final(self)) && final(self).sr() == (old(self).sr() ^ imm) & old(self).sr_mask & 0xF71F,
    {
        if !self.is_supervisor() {
            return self.exception_privilege(bus);
        }
        let imm = self.read_imm_16(bus);
        let ghost e1 = bus.events();
        let ghost mid = *self;
        proof {
            if !old(self).is_pre_68020 {
                assert(immediate_fetched(old(bus).events(), e1, *old(self), imm));
            }
        }
        let sr = self.get_sr() ^ imm;
        self.finish_immediate_sr_write(bus, sr);
        proof {
            if !old(self).is_pre_68020 && old(self).cpu_type != CpuType::M68000 {
                assert(bus.events() == e1);
                assert(immediate_fetched(old(bus).events(), bus.events(), *old(self), imm));
            }
            if old(self).cpu_type == CpuType::M68000 && old(self).is_pre_68020 {
                assert(bus.events() == old(bus).events() + imm16_queue_events(*old(self), mid, imm) + sync_events(
                    sat_add(mid.pending_sync_clocks, 8),
                ) + prefetch_events(*self));
            }
        }
        20
    }
}

/// Masking the destination before an AND changes nothing.
pub proof fn lemma_and_masked(imm: u32, d: u32, size: Size)
    ensures
        imm & (d & size_mask(size)) & size_mask(size) == imm & d & size_mask(size),
{
    assert(imm & (d & 0xFF) & 0xFF == imm & d & 0xFF && imm & (d & 0xFFFF) & 0xFFFF == imm & d
        & 0xFFFF && imm & (d & 0xFFFF_FFFF) & 0xFFFF_FFFF == imm & d & 0xFFFF_FFFF) by (bit_vector);
}

} // verus!
