//! Effective addresses as the instruction handlers use them: resolution
//! against the register file and instruction stream, and their 68000 timing.

use vstd::prelude::*;
use crate::cpu::{CpuCore, sat_add};
use crate::memory::AddressBus;
use crate::mem_ops::{log_extends, lemma_log_extends_append};
use crate::types::{Size, size_bytes};

verus! {

/// An effective-address operand of an instruction.
#[derive(Debug, Clone, Copy, PartialEq, Eq, Structural)]
pub enum AddressingMode {
    /// `Dn`
    DataDirect(u8),
    /// `An`
    AddressDirect(u8),
    /// `(An)`
    AddressIndirect(u8),
    /// `(An)+`
    PostIncrement(u8),
    /// `-(An)`
    PreDecrement(u8),
    /// `(d16,An)`
    Displacement(u8),
    /// `(d8,An,Xn)`
    Index(u8),
    /// `(xxx).W`
    AbsoluteShort,
    /// `(xxx).L`
    AbsoluteLong,
    /// `(d16,PC)`
    PcDisplacement,
    /// `(d8,PC,Xn)`
    PcIndex,
    /// `#<data>`
    Immediate,
}

/// Where a resolved effective address lives.
#[derive(Debug, Clone, Copy, PartialEq, Eq, Structural)]
pub enum EaResult {
    /// Data register.
    DataReg(u8),
    /// Address register.
    AddrReg(u8),
    /// Memory at this address.
    Memory(u32),
    /// Immediate data already consumed from the instruction stream.
    Immediate(u32),
}

/// Every register number in `mode` names one of the eight registers.
pub open spec fn mode_ok(mode: AddressingMode) -> bool {
    match mode {
        AddressingMode::DataDirect(r) => r < 8,
        AddressingMode::AddressDirect(r) => r < 8,
        AddressingMode::AddressIndirect(r) => r < 8,
        AddressingMode::PostIncrement(r) => r < 8,
        AddressingMode::PreDecrement(r) => r < 8,
        AddressingMode::Displacement(r) => r < 8,
        AddressingMode::Index(r) => r < 8,
        _ => true,
    }
}

/// Every register number in `ea` names one of the eight registers.
pub open spec fn ea_ok(ea: EaResult) -> bool {
    match ea {
        EaResult::DataReg(r) => r < 8,
        EaResult::AddrReg(r) => r < 8,
        _ => true,
    }
}

/// The mode decoded from the three-bit mode and register fields.
pub open spec fn ea_decode_spec(mode: u8, reg: u8) -> Option<AddressingMode> {
    if mode == 0 {
        Some(AddressingMode::DataDirect(reg))
    } else if mode == 1 {
        Some(AddressingMode::AddressDirect(reg))
    } else if mode == 2 {
        Some(AddressingMode::AddressIndirect(reg))
    } else if mode == 3 {
        Some(AddressingMode::PostIncrement(reg))
    } else if mode == 4 {
        Some(AddressingMode::PreDecrement(reg))
    } else if mode == 5 {
        Some(AddressingMode::Displacement(reg))
    } else if mode == 6 {
        Some(AddressingMode::Index(reg))
    } else if mode == 7 {
        if reg == 0 {
            Some(AddressingMode::AbsoluteShort)
        } else if reg == 1 {
            Some(AddressingMode::AbsoluteLong)
        } else if reg == 2 {
            Some(AddressingMode::PcDisplacement)
        } else if reg == 3 {
            Some(AddressingMode::PcIndex)
        } else if reg == 4 {
            Some(AddressingMode::Immediate)
        } else {
            None
        }
    } else {
        None
    }
}

/// Post-increment/pre-decrement step: byte accesses through A7 keep the
/// stack pointer even.
pub open spec fn ea_step(size: Size, reg: u8) -> u32 {
    if size == Size::Byte && reg == 7 {
        2
    } else {
        size_bytes(size)
    }
}

/// MC68000 effective-address calculation time (operand fetch included),
/// by mode and size.
pub open spec fn ea_time_spec(mode: AddressingMode, size: Size) -> i32 {
    let long = size == Size::Long;
    match mode {
        AddressingMode::DataDirect(_) | AddressingMode::AddressDirect(_) => 0,
        AddressingMode::AddressIndirect(_) | AddressingMode::PostIncrement(_) => if long {
            8
        } else {
            4
        },
        AddressingMode::PreDecrement(_) => if long {
            10
        } else {
            6
        },
        AddressingMode::Displacement(_) | AddressingMode::AbsoluteShort
        | AddressingMode::PcDisplacement => if long {
            12
        } else {
            8
        },
        AddressingMode::Index(_) | AddressingMode::PcIndex => if long {
            14
        } else {
            10
        },
        AddressingMode::AbsoluteLong => if long {
            16
        } else {
            12
        },
        AddressingMode::Immediate => if long {
            8
        } else {
            4
        },
    }
}

/// MC68000 MOVE destination time by mode and size.
pub open spec fn ea_dest_spec(mode: AddressingMode, size: Size) -> i32 {
    let long = size == Size::Long;
    match mode {
        AddressingMode::AddressIndirect(_) | AddressingMode::PostIncrement(_)
        | AddressingMode::PreDecrement(_) => if long {
            8
        } else {
            4
        },
        AddressingMode::Displacement(_) | AddressingMode::AbsoluteShort => if long {
            12
        } else {
            8
        },
        AddressingMode::Index(_) => if long {
            14
        } else {
            10
        },
        AddressingMode::AbsoluteLong => if long {
            16
        } else {
            12
        },
        _ => 0,
    }
}

/// MC68000 MOVEM address-calculation time by mode.
pub open spec fn movem_calc_spec(mode: AddressingMode) -> i32 {
    match mode {
        AddressingMode::Displacement(_) | AddressingMode::AbsoluteShort
        | AddressingMode::PcDisplacement => 4,
        AddressingMode::Index(_) | AddressingMode::PcIndex => 6,
        AddressingMode::AbsoluteLong => 8,
        _ => 0,
    }
}

/// MC68000 address-calculation time (extension fetches and internal
/// clocks, no operand access) by mode.
pub open spec fn ea_calc_spec(mode: AddressingMode) -> i32 {
    match mode {
        AddressingMode::PreDecrement(_) => 2,
        AddressingMode::Displacement(_) | AddressingMode::AbsoluteShort
        | AddressingMode::PcDisplacement => 4,
        AddressingMode::Index(_) | AddressingMode::PcIndex => 6,
        AddressingMode::AbsoluteLong => 8,
        _ => 0,
    }
}

/// MC68000 LEA time by mode.
pub open spec fn lea_cycles_spec(mode: AddressingMode) -> i32 {
    match mode {
        AddressingMode::Displacement(_) | AddressingMode::AbsoluteShort
        | AddressingMode::PcDisplacement => 8,
        AddressingMode::Index(_) | AddressingMode::PcIndex | AddressingMode::AbsoluteLong => 12,
        _ => 4,
    }
}

impl AddressingMode {
    /// Decode the opcode's three-bit mode and register fields; `None` for
    /// the reserved mode-7 register values.
    pub fn decode(mode: u8, reg: u8) -> (r: Option<AddressingMode>)
        ensures
            r == ea_decode_spec(mode, reg),
    {
        match mode {
            0 => Some(AddressingMode::DataDirect(reg)),
            1 => Some(AddressingMode::AddressDirect(reg)),
            2 => Some(AddressingMode::AddressIndirect(reg)),
            3 => Some(AddressingMode::PostIncrement(reg)),
            4 => Some(AddressingMode::PreDecrement(reg)),
            5 => Some(AddressingMode::Displacement(reg)),
            6 => Some(AddressingMode::Index(reg)),
            7 => match reg {
                0 => Some(AddressingMode::AbsoluteShort),
                1 => Some(AddressingMode::AbsoluteLong),
                2 => Some(AddressingMode::PcDisplacement),
                3 => Some(AddressingMode::PcIndex),
                4 => Some(AddressingMode::Immediate),
                _ => None,
            },
            _ => None,
        }
    }

    /// `Dn` or `An`.
    pub fn is_register_direct(self) -> (r: bool)
        ensures
            r == (self is DataDirect || self is AddressDirect),
    {
        matches!(self, AddressingMode::DataDirect(_) | AddressingMode::AddressDirect(_))
    }
}

/// Post-increment/pre-decrement step for `size` through `reg`.
pub fn step_for(size: Size, reg: u8) -> (r: u32)
    ensures
        r == ea_step(size, reg),
{
    if size == Size::Byte && reg == 7 {
        2
    } else {
        size.bytes()
    }
}

impl CpuCore {
    /// MC68000 operand time of `mode` at `size`.
    pub fn ea_time(&self, mode: AddressingMode, size: Size) -> (r: i32)
        ensures
            r == ea_time_spec(mode, size),
    {
        let long = size == Size::Long;
        match mode {
            AddressingMode::DataDirect(_) | AddressingMode::AddressDirect(_) => 0,
            AddressingMode::AddressIndirect(_) | AddressingMode::PostIncrement(_) => if long {
                8
            } else {
                4
            },
            AddressingMode::PreDecrement(_) => if long {
                10
            } else {
                6
            },
            AddressingMode::Displacement(_) | AddressingMode::AbsoluteShort
            | AddressingMode::PcDisplacement => if long {
                12
            } else {
                8
            },
            AddressingMode::Index(_) | AddressingMode::PcIndex => if long {
                14
            } else {
                10
            },
            AddressingMode::AbsoluteLong => if long {
                16
            } else {
                12
            },
            AddressingMode::Immediate => if long {
                8
            } else {
                4
            },
        }
    }

    /// MC68000 source-operand fetch time.
    pub fn ea_source_cycles(&self, mode: AddressingMode, size: Size) -> (r: i32)
        ensures
            r == ea_time_spec(mode, size),
    {
        self.ea_time(mode, size)
    }

    /// MC68000 MOVE destination time.
    pub fn ea_dest_cycles(&self, mode: AddressingMode, size: Size) -> (r: i32)
        ensures
            r == ea_dest_spec(mode, size),
    {
        let long = size == Size::Long;
        match mode {
            AddressingMode::AddressIndirect(_) | AddressingMode::PostIncrement(_)
            | AddressingMode::PreDecrement(_) => if long {
                8
            } else {
                4
            },
            AddressingMode::Displacement(_) | AddressingMode::AbsoluteShort => if long {
                12
            } else {
                8
            },
            AddressingMode::Index(_) => if long {
                14
            } else {
                10
            },
            AddressingMode::AbsoluteLong => if long {
                16
            } else {
                12
            },
            _ => 0,
        }
    }

    /// MC68000 MOVEM address-calculation time.
    pub fn movem_ea_calc_cycles(&self, mode: AddressingMode) -> (r: i32)
        ensures
            r == movem_calc_spec(mode),
    {
        match mode {
            AddressingMode::Displacement(_) | AddressingMode::AbsoluteShort
            | AddressingMode::PcDisplacement => 4,
            AddressingMode::Index(_) | AddressingMode::PcIndex => 6,
            AddressingMode::AbsoluteLong => 8,
            _ => 0,
        }
    }

    /// MC68000 address-calculation time.
    pub fn ea_calc_cycles(&self, mode: AddressingMode) -> (r: i32)
        ensures
            r == ea_calc_spec(mode),
    {
        match mode {
            AddressingMode::PreDecrement(_) => 2,
            AddressingMode::Displacement(_) | AddressingMode::AbsoluteShort
            | AddressingMode::PcDisplacement => 4,
            AddressingMode::Index(_) | AddressingMode::PcIndex => 6,
            AddressingMode::AbsoluteLong => 8,
            _ => 0,
        }
    }
}

/// MC68000 LEA time of `mode`.
pub fn lea_ea_cycles_68000(mode: AddressingMode) -> (r: i32)
    ensures
        r == lea_cycles_spec(mode),
{
    match mode {
        AddressingMode::Displacement(_) | AddressingMode::AbsoluteShort
        | AddressingMode::PcDisplacement => 8,
        AddressingMode::Index(_) | AddressingMode::PcIndex | AddressingMode::AbsoluteLong => 12,
        _ => 4,
    }
}

/// `new` differs from `old` at most in the instruction-stream state (PC,
/// prefetch queue, reported clocks) after consuming extension words.
pub open spec fn stream_only(old: CpuCore, new: CpuCore) -> bool {
    new == (CpuCore {
        pc: new.pc,
        prefetch_queue: new.prefetch_queue,
        prefetch_count: new.prefetch_count,
        pending_sync_clocks: new.pending_sync_clocks,
        ..old
    })
}

/// Address of a brief-format indexed operand with extension word `ext`:
/// `base`, plus the index register (a sign-extended word unless the
/// long-index bit is set) scaled by the extension's scale field on the
/// 68020+, plus the sign-extended 8-bit displacement.
pub open spec fn brief_index_address(cpu: CpuCore, base: u32, ext: u16) -> u32 {
    let raw = cpu.dar[((ext >> 12u16) & 0xF) as int];
    let idx: u32 = if ext & 0x0800 != 0 {
        raw
    } else {
        raw as u16 as i16 as i32 as u32
    };
    let scale: u32 = if cpu.is_pre_68020 {
        0u32
    } else {
        ((ext >> 9u16) & 3) as u32
    };
    base.wrapping_add(idx << scale).wrapping_add(ext as u8 as i8 as i32 as u32)
}

/// Effects of resolving `mode` from state `old`.
pub open spec fn resolved(old: CpuCore, new: CpuCore, mode: AddressingMode, size: Size, r: EaResult) -> bool {
    &&& ea_ok(r)
    &&& match mode {
        AddressingMode::DataDirect(reg) => r == EaResult::DataReg(reg) && new == old,
        AddressingMode::AddressDirect(reg) => r == EaResult::AddrReg(reg) && new == old,
        AddressingMode::AddressIndirect(reg) => r == EaResult::Memory(old.dar[8 + reg])
            && new == old,
        AddressingMode::PostIncrement(reg) => {
            &&& r == EaResult::Memory(old.dar[8 + reg])
            &&& new.dar@ =~= old.dar@.update(8 + reg, old.dar[8 + reg].wrapping_add(ea_step(size, reg)))
            &&& new == (CpuCore { dar: new.dar, ..old })
        },
        AddressingMode::PreDecrement(reg) => {
            &&& r == EaResult::Memory(old.dar[8 + reg].wrapping_sub(ea_step(size, reg)))
            &&& new.dar@ =~= old.dar@.update(8 + reg, old.dar[8 + reg].wrapping_sub(ea_step(size, reg)))
            &&& new == (CpuCore {
                dar: new.dar,
                pending_sync_clocks: if old.is_pre_68020 {
                    sat_add(old.pending_sync_clocks, 2)
                } else {
                    old.pending_sync_clocks
                },
                ..old
            })
        },
        AddressingMode::Immediate => r is Immediate && stream_only(old, new),
        _ => r is Memory && stream_only(old, new),
    }
}

impl CpuCore {
    /// Resolve `mode` for an operand of `size`: consume its extension words,
    /// apply post-increment/pre-decrement, and return where the operand is.
    pub fn resolve_ea<B: AddressBus>(&mut self, bus: &mut B, mode: AddressingMode, size: Size) -> (r: EaResult)
        requires
            mode_ok(mode),
        ensures
            resolved(*old(self), *final(self), mode, size, r),
            mode is DataDirect || mode is AddressDirect || mode is AddressIndirect || mode is PostIncrement
                || mode is PreDecrement ==> final(bus).events() == old(bus).events(),
            log_extends(old(bus).events(), final(bus).events()),
    {
        proof {
            lemma_log_extends_append(old(bus).events(), Seq::empty());
        }
        match mode {
            AddressingMode::DataDirect(reg) => EaResult::DataReg(reg),
            AddressingMode::AddressDirect(reg) => EaResult::AddrReg(reg),
            AddressingMode::AddressIndirect(reg) => EaResult::Memory(self.dar[8 + reg as usize]),
            AddressingMode::PostIncrement(reg) => {
                let r = 8 + reg as usize;
                let addr = self.dar[r];
                self.dar[r] = addr.wrapping_add(step_for(size, reg));
                EaResult::Memory(addr)
            },
            AddressingMode::PreDecrement(reg) => {
                if self.is_pre_68020 {
                    self.internal_cycles(2);
                }
                let r = 8 + reg as usize;
                let addr = self.dar[r].wrapping_sub(step_for(size, reg));
                self.dar[r] = addr;
                EaResult::Memory(addr)
            },
            AddressingMode::Displacement(reg) => {
                let disp = self.read_imm_16(bus) as i16 as i32 as u32;
                EaResult::Memory(self.dar[8 + reg as usize].wrapping_add(disp))
            },
            AddressingMode::Index(reg) => {
                let base = self.dar[8 + reg as usize];
                let addr = self.index_address(bus, base);
                EaResult::Memory(addr)
            },
            AddressingMode::AbsoluteShort => {
                let w = self.read_imm_16(bus) as i16 as i32 as u32;
                EaResult::Memory(w)
            },
            AddressingMode::AbsoluteLong => {
                let l = self.read_imm_32(bus);
                EaResult::Memory(l)
            },
            AddressingMode::PcDisplacement => {
                let base = self.pc;
                let disp = self.read_imm_16(bus) as i16 as i32 as u32;
                EaResult::Memory(base.wrapping_add(disp))
            },
            AddressingMode::PcIndex => {
                let base = self.pc;
                let addr = self.index_address(bus, base);
                EaResult::Memory(addr)
            },
            AddressingMode::Immediate => {
                let v = match size {
                    Size::Byte => (self.read_imm_16(bus) as u32) & 0xFF,
                    Size::Word => self.read_imm_16(bus) as u32,
                    Size::Long => self.read_imm_32(bus),
                };
                EaResult::Immediate(v)
            },
        }
    }

    /// Address of a brief-format indexed operand: base + index register
    /// (sign-extended word or long, scaled on the 68020+) + the sign-extended
    /// 8-bit displacement. The 68000 spends two internal clocks on it.
    pub fn index_address<B: AddressBus>(&mut self, bus: &mut B, base: u32) -> (r: u32)
        ensures
            stream_only(*old(self), *final(self)),
            final(self).pc == old(self).pc.wrapping_add(2),
            exists|ext: u16| r == #[trigger] brief_index_address(*old(self), base, ext),
            old(self).is_pre_68020 && old(self).prefetch_count >= 1 ==> r == brief_index_address(
                *old(self),
                base,
                old(self).prefetch_queue[0],
            ),
            log_extends(old(bus).events(), final(bus).events()),
    {
        let ext = self.read_imm_16(bus);
        proof {
            crate::types::lemma_field_bounds(ext);
        }
        let xn = ((ext >> 12u16) & 0xF) as usize;
        let raw = self.dar[xn];
        let idx = if ext & 0x0800 != 0 {
            raw
        } else {
            raw as u16 as i16 as i32 as u32
        };
        let scale = if self.is_pre_68020 {
            0u32
        } else {
            ((ext >> 9u16) & 3) as u32
        };
        let disp = ext as u8 as i8 as i32 as u32;
        if self.is_pre_68020 {
            self.internal_cycles(2);
        }
        let r = base.wrapping_add(idx << scale).wrapping_add(disp);
        proof {
            assert(r == brief_index_address(*old(self), base, ext));
        }
        r
    }
}

} // verus!
