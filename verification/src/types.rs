//! Operand sizes and CPU models.

use vstd::prelude::*;

verus! {

/// Operand size of an instruction.
#[derive(Debug, Clone, Copy, PartialEq, Eq, Structural)]
pub enum Size {
    /// 8-bit operand.
    Byte,
    /// 16-bit operand.
    Word,
    /// 32-bit operand.
    Long,
}

/// Mask that keeps the bits of an operand of size `s`.
pub open spec fn size_mask(s: Size) -> u32 {
    match s {
        Size::Byte => 0xFFu32,
        Size::Word => 0xFFFFu32,
        Size::Long => 0xFFFF_FFFFu32,
    }
}

/// Mask of the sign bit of an operand of size `s`.
pub open spec fn size_msb(s: Size) -> u32 {
    match s {
        Size::Byte => 0x80u32,
        Size::Word => 0x8000u32,
        Size::Long => 0x8000_0000u32,
    }
}

/// Number of bytes an operand of size `s` occupies in memory.
pub open spec fn size_bytes(s: Size) -> u32 {
    match s {
        Size::Byte => 1u32,
        Size::Word => 2u32,
        Size::Long => 4u32,
    }
}

impl Size {
    /// Mask of the operand bits.
    pub fn mask(self) -> (r: u32)
        ensures
            r == size_mask(self),
    {
        match self {
            Size::Byte => 0xFF,
            Size::Word => 0xFFFF,
            Size::Long => 0xFFFF_FFFF,
        }
    }

    /// Mask of the operand's sign bit.
    pub fn msb_mask(self) -> (r: u32)
        ensures
            r == size_msb(self),
    {
        match self {
            Size::Byte => 0x80,
            Size::Word => 0x8000,
            Size::Long => 0x8000_0000,
        }
    }

    /// Operand width in bytes.
    pub fn bytes(self) -> (r: u32)
        ensures
            r == size_bytes(self),
    {
        match self {
            Size::Byte => 1,
            Size::Word => 2,
            Size::Long => 4,
        }
    }
}

/// The emulated CPU model.
#[derive(Debug, Clone, Copy, PartialEq, Eq, Structural)]
pub enum CpuType {
    /// No model selected.
    Invalid,
    /// MC68000.
    M68000,
    /// MC68010.
    M68010,
    /// MC68EC020 (24-bit address bus).
    M68EC020,
    /// MC68020.
    M68020,
    /// MC68EC030.
    M68EC030,
    /// MC68030.
    M68030,
    /// MC68EC040.
    M68EC040,
    /// MC68LC040.
    M68LC040,
    /// MC68040.
    M68040,
    /// Philips SCC68070.
    SCC68070,
    /// MC68060.
    M68060,
}

/// The models with the 68000's 16-bit data bus and prefetch queue.
pub open spec fn is_pre_68020_type(t: CpuType) -> bool {
    t == CpuType::M68000 || t == CpuType::M68010 || t == CpuType::SCC68070
}

/// The 68040 family.
pub open spec fn is_040_type(t: CpuType) -> bool {
    t == CpuType::M68EC040 || t == CpuType::M68LC040 || t == CpuType::M68040
}

/// The 68020 family, timed by the MC68020 manual's tables.
pub open spec fn is_020_type(t: CpuType) -> bool {
    t == CpuType::M68EC020 || t == CpuType::M68020
}

/// Width of the address bus of each model, as an address mask.
pub open spec fn address_mask_of(t: CpuType) -> u32 {
    if is_pre_68020_type(t) || t == CpuType::M68EC020 {
        0x00FF_FFFFu32
    } else {
        0xFFFF_FFFFu32
    }
}

/// Whether `t` is one of the pre-68020 models.
pub fn cpu_is_pre_68020(t: CpuType) -> (r: bool)
    ensures
        r == is_pre_68020_type(t),
{
    matches!(t, CpuType::M68000 | CpuType::M68010 | CpuType::SCC68070)
}

/// Whether `t` is one of the 68040 models.
pub fn cpu_is_040(t: CpuType) -> (r: bool)
    ensures
        r == is_040_type(t),
{
    matches!(t, CpuType::M68EC040 | CpuType::M68LC040 | CpuType::M68040)
}

/// Address mask of the model's external bus.
pub fn cpu_address_mask(t: CpuType) -> (r: u32)
    ensures
        r == address_mask_of(t),
{
    match t {
        CpuType::M68000 | CpuType::M68010 | CpuType::SCC68070 | CpuType::M68EC020 => 0x00FF_FFFF,
        _ => 0xFFFF_FFFF,
    }
}

/// Bounds of the bit fields that instruction decoding extracts.
pub proof fn lemma_field_bounds(x: u16)
    by (bit_vector)
    ensures
        x & 7 < 8,
        (x >> 3u16) & 7 < 8,
        (x >> 6u16) & 7 < 8,
        (x >> 9u16) & 7 < 8,
        (x >> 12u16) & 7 < 8,
        (x >> 6u16) & 3 < 4,
        (x >> 9u16) & 3 < 4,
        (x >> 8u16) & 0xF < 16,
        (x >> 12u16) & 0xF < 16,
        (x >> 12u16) < 16,
        (x >> 3u16) & 0x1F < 32,
        (x >> 3u16) & 3 < 4,
        (x >> 8u16) & 1 < 2,
        x & 0xFF < 256,
{
}

/// Fields of the encodings that register numbers `x` and `y`, the
/// operation field `f`, the ALU group `g`, the size field `o` and the
/// direction bit `dr` build: EXG Dx,Dy (0xC140), EXG Ax,Ay (0xC148),
/// EXG Dx,Ay (0xC188), the register form of BTST/BCHG/BCLR/BSET (0x0100,
/// `f` in bits 7-6), the data-register forms of OR/SUB/CMP/AND/ADD (group
/// `g`, size in bits 7-6) and the immediate-count register shifts (0xE000,
/// count `x`, direction `dr`, size `o`, type `f` in bits 4-3).
pub proof fn lemma_encoding_fields(x: u16, y: u16, f: u16, g: u16, o: u16, dr: u16)
    by (bit_vector)
    requires
        x < 8,
        y < 8,
        f < 4,
        g == 8 || g == 9 || g == 0xB || g == 0xC || g == 0xD,
        o < 3,
        dr < 2,
    ensures
        (((g << 12u16) | (x << 9u16) | (o << 6u16) | y) >> 12u16) & 0xF == g,
        (((g << 12u16) | (x << 9u16) | (o << 6u16) | y) >> 9u16) & 7 == x,
        (((g << 12u16) | (x << 9u16) | (o << 6u16) | y) >> 6u16) & 7 == o,
        (((g << 12u16) | (x << 9u16) | (o << 6u16) | y) >> 6u16) & 3 == o,
        (((g << 12u16) | (x << 9u16) | (o << 6u16) | y) >> 3u16) & 7 == 0,
        ((g << 12u16) | (x << 9u16) | (o << 6u16) | y) & 7 == y,
        ((g << 12u16) | (x << 9u16) | (o << 6u16) | y) != 0x4E71,
        ((g << 12u16) | (x << 9u16) | (o << 6u16) | y) & 0xFFF8 != 0x4840,
        ((g << 12u16) | (x << 9u16) | (o << 6u16) | y) & 0xFFF8 != 0x4880,
        ((g << 12u16) | (x << 9u16) | (o << 6u16) | y) & 0xFFF8 != 0x48C0,
        ((g << 12u16) | (x << 9u16) | (o << 6u16) | y) & 0xFFF8 != 0x49C0,
        (((0xE000u16 | (x << 9u16) | (dr << 8u16) | (o << 6u16) | (f << 3u16) | y) >> 12u16) & 0xF) == 0xE,
        (0xE000u16 | (x << 9u16) | (dr << 8u16) | (o << 6u16) | (f << 3u16) | y) & 0x00C0 != 0x00C0,
        (((0xE000u16 | (x << 9u16) | (dr << 8u16) | (o << 6u16) | (f << 3u16) | y) >> 6u16) & 3) == o,
        (((0xE000u16 | (x << 9u16) | (dr << 8u16) | (o << 6u16) | (f << 3u16) | y) >> 9u16) & 7) == x,
        (((0xE000u16 | (x << 9u16) | (dr << 8u16) | (o << 6u16) | (f << 3u16) | y) >> 8u16) & 1) == dr,
        (((0xE000u16 | (x << 9u16) | (dr << 8u16) | (o << 6u16) | (f << 3u16) | y) >> 3u16) & 3) == f,
        (0xE000u16 | (x << 9u16) | (dr << 8u16) | (o << 6u16) | (f << 3u16) | y) & 0x20 == 0,
        (0xE000u16 | (x << 9u16) | (dr << 8u16) | (o << 6u16) | (f << 3u16) | y) & 7 == y,
        (0xE000u16 | (x << 9u16) | (dr << 8u16) | (o << 6u16) | (f << 3u16) | y) != 0x4E71,
        (0xE000u16 | (x << 9u16) | (dr << 8u16) | (o << 6u16) | (f << 3u16) | y) & 0xFFF8 != 0x4840,
        (0xE000u16 | (x << 9u16) | (dr << 8u16) | (o << 6u16) | (f << 3u16) | y) & 0xFFF8 != 0x4880,
        (0xE000u16 | (x << 9u16) | (dr << 8u16) | (o << 6u16) | (f << 3u16) | y) & 0xFFF8 != 0x48C0,
        (0xE000u16 | (x << 9u16) | (dr << 8u16) | (o << 6u16) | (f << 3u16) | y) & 0xFFF8 != 0x49C0,
        ((0xC140u16 | (x << 9u16) | y) >> 9u16) & 7 == x,
        (0xC140u16 | (x << 9u16) | y) & 7 == y,
        ((0xC140u16 | (x << 9u16) | y) >> 3u16) & 0x1F == 0x08,
        ((0xC148u16 | (x << 9u16) | y) >> 9u16) & 7 == x,
        (0xC148u16 | (x << 9u16) | y) & 7 == y,
        ((0xC148u16 | (x << 9u16) | y) >> 3u16) & 0x1F == 0x09,
        ((0xC188u16 | (x << 9u16) | y) >> 9u16) & 7 == x,
        (0xC188u16 | (x << 9u16) | y) & 7 == y,
        ((0xC188u16 | (x << 9u16) | y) >> 3u16) & 0x1F == 0x11,
        ((0x0100u16 | (x << 9u16) | (f << 6u16) | y) >> 12u16) & 0xF == 0,
        ((0x0100u16 | (x << 9u16) | (f << 6u16) | y) >> 9u16) & 7 == x,
        ((0x0100u16 | (x << 9u16) | (f << 6u16) | y) >> 6u16) & 3 == f,
        ((0x0100u16 | (x << 9u16) | (f << 6u16) | y) >> 3u16) & 7 == 0,
        (0x0100u16 | (x << 9u16) | (f << 6u16) | y) & 7 == y,
        (0x0100u16 | (x << 9u16) | (f << 6u16) | y) & 0x0100 != 0,
        (0x0100u16 | (x << 9u16) | (f << 6u16) | y) != 0x4E71,
{
}

/// Masks keep values within the operand width.
pub proof fn lemma_mask_bounds(x: u32)
    by (bit_vector)
    ensures
        x & 0xFF <= 0xFF,
        x & 0xFFFF <= 0xFFFF,
        x & 0xFFFF_FFFF == x,
        x & 0xFF & 0xFF == x & 0xFF,
        x & 0xFFFF & 0xFFFF == x & 0xFFFF,
        x & 0xFF & 0x80 == x & 0x80,
        x & 0xFFFF & 0x8000 == x & 0x8000,
        x & 31 < 32,
        x & 7 < 8,
        x & 63 < 64,
        x & 3 < 4,
{
}

/// A byte or word merged into a register reads back as the merged operand.
pub proof fn lemma_merge_low(o: u32, v: u32)
    by (bit_vector)
    ensures
        ((o & 0xFFFF_FF00) | (v & 0xFF)) & 0xFF == v & 0xFF,
        ((o & 0xFFFF_0000) | (v & 0xFFFF)) & 0xFFFF == v & 0xFFFF,
        ((o & 0xFFFF_FF00) | (v & 0xFF)) & 0xFFFF_FF00 == o & 0xFFFF_FF00,
        ((o & 0xFFFF_0000) | (v & 0xFFFF)) & 0xFFFF_0000 == o & 0xFFFF_0000,
        v <= 0xFF ==> v & 0xFF == v,
        v <= 0xFFFF ==> v & 0xFFFF == v,
{
}

} // verus!
