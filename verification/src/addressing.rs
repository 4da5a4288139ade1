//! Decoding of the six-bit effective-address field used by 68k opcodes.

use vstd::prelude::*;

verus! {

/// An effective-address encoding after splitting the opcode's mode and
/// register fields.
///
/// Variants carrying a register number use the low three bits and therefore
/// identify registers 0 through 7.
#[derive(Debug, Clone, Copy, PartialEq, Eq, Structural)]
pub enum AddressingMode {
    /// Data register direct (`Dn`).
    DataRegister(u8),
    /// Address register direct (`An`).
    AddressRegister(u8),
    /// Address register indirect (`(An)`).
    AddressIndirect(u8),
    /// Address register indirect with postincrement (`(An)+`).
    AddressPostIncrement(u8),
    /// Address register indirect with predecrement (`-(An)`).
    AddressPreDecrement(u8),
    /// Address register indirect with a 16-bit displacement (`(d16,An)`).
    AddressDisplacement(u8),
    /// Address register indirect with an index extension (`(d8,An,Xn)` or
    /// the 68020+ full extension format).
    AddressIndex(u8),
    /// Sign-extended 16-bit absolute address (`(xxx).W`).
    AbsoluteShort,
    /// 32-bit absolute address (`(xxx).L`).
    AbsoluteLong,
    /// Program-counter relative with a 16-bit displacement (`(d16,PC)`).
    PcDisplacement,
    /// Program-counter relative with an index extension (`(d8,PC,Xn)` or
    /// the 68020+ full extension format).
    PcIndex,
    /// Immediate data encoded in extension words.
    Immediate,
}

/// The addressing mode of a mode field and a register field: modes 0-6
/// carry the register named by the field's low three bits; mode 7 selects by the register field among the
/// absolute, PC-relative and immediate forms; anything else is reserved.
pub open spec fn addressing_decode_spec(mode: u8, reg: u8) -> Option<AddressingMode> {
    if mode == 0 {
        Some(AddressingMode::DataRegister(reg & 7))
    } else if mode == 1 {
        Some(AddressingMode::AddressRegister(reg & 7))
    } else if mode == 2 {
        Some(AddressingMode::AddressIndirect(reg & 7))
    } else if mode == 3 {
        Some(AddressingMode::AddressPostIncrement(reg & 7))
    } else if mode == 4 {
        Some(AddressingMode::AddressPreDecrement(reg & 7))
    } else if mode == 5 {
        Some(AddressingMode::AddressDisplacement(reg & 7))
    } else if mode == 6 {
        Some(AddressingMode::AddressIndex(reg & 7))
    } else if mode == 7 && reg == 0 {
        Some(AddressingMode::AbsoluteShort)
    } else if mode == 7 && reg == 1 {
        Some(AddressingMode::AbsoluteLong)
    } else if mode == 7 && reg == 2 {
        Some(AddressingMode::PcDisplacement)
    } else if mode == 7 && reg == 3 {
        Some(AddressingMode::PcIndex)
    } else if mode == 7 && reg == 4 {
        Some(AddressingMode::Immediate)
    } else {
        None
    }
}

impl AddressingMode {
    /// Decode the opcode's three-bit `mode` and three-bit `reg` fields.
    ///
    /// Returns `None` for reserved mode-7 register values and for values
    /// outside the three-bit mode range.
    pub fn decode(mode: u8, reg: u8) -> (r: Option<Self>)
        ensures
            r == addressing_decode_spec(mode, reg),
            r is None <==> (mode > 7 || (mode == 7 && reg > 4)),
    {
        match mode {
            0 => Some(Self::DataRegister(reg & 7)),
            1 => Some(Self::AddressRegister(reg & 7)),
            2 => Some(Self::AddressIndirect(reg & 7)),
            3 => Some(Self::AddressPostIncrement(reg & 7)),
            4 => Some(Self::AddressPreDecrement(reg & 7)),
            5 => Some(Self::AddressDisplacement(reg & 7)),
            6 => Some(Self::AddressIndex(reg & 7)),
            7 => match reg {
                0 => Some(Self::AbsoluteShort),
                1 => Some(Self::AbsoluteLong),
                2 => Some(Self::PcDisplacement),
                3 => Some(Self::PcIndex),
                4 => Some(Self::Immediate),
                _ => None,
            },
            _ => None,
        }
    }
}

/// Decoding keeps the register number (the field's low three bits) of the
/// register-carrying modes.
pub proof fn lemma_decode_keeps_register(mode: u8, reg: u8)
    requires
        mode <= 6,
    ensures
        addressing_decode_spec(mode, reg) matches Some(m) && match m {
            AddressingMode::DataRegister(r) => r == reg & 7,
            AddressingMode::AddressRegister(r) => r == reg & 7,
            AddressingMode::AddressIndirect(r) => r == reg & 7,
            AddressingMode::AddressPostIncrement(r) => r == reg & 7,
            AddressingMode::AddressPreDecrement(r) => r == reg & 7,
            AddressingMode::AddressDisplacement(r) => r == reg & 7,
            AddressingMode::AddressIndex(r) => r == reg & 7,
            _ => false,
        },
{
}

} // verus!
