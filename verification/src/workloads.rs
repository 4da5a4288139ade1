//! Benchmark workloads: hand-encoded 68000 machine code.
//!
//! Every workload is a repeating unit ("iteration") of a fixed number of
//! instructions, so instruction throughput can be computed exactly. Where
//! possible an iteration increments a data register, giving an exact
//! retired-instruction count even where two cores disagree on cycle
//! accounting.

use vstd::prelude::*;

verus! {

/// Guest memory size. A power of two, so that every core wraps addresses
/// the same way (the 68000's 24-bit address bus).
pub const MEM_SIZE: usize = 0x0100_0000;
/// Where workload code is placed and where execution starts.
pub const CODE_BASE: u32 = 0x1000;
/// Initial supervisor stack pointer (only the call/return workload uses it).
pub const SSP: u32 = 0x0080_0000;

/// The code of a workload.
pub enum Code {
    /// Fill all of guest memory with one opcode; the PC runs linearly and
    /// wraps around the 24-bit address space.
    Fill(u16),
    /// Place these words at `CODE_BASE`; the rest of memory is zero.
    Words(&'static [u16]),
}

/// A data register that increments exactly once per iteration.
pub struct CountReg {
    pub reg: usize,
}

/// A benchmark workload.
pub struct Workload {
    pub name: &'static str,
    pub code: Code,
    /// Instructions per iteration of the repeating unit.
    pub instrs_per_iter: u32,
    /// How many iterations a timed run executes.
    pub target_iters: u64,
    /// Initial data register values, applied before every run.
    pub d_init: &'static [(usize, u32)],
    /// Register-based exact iteration counter, when the workload has one.
    pub count_reg: Option<CountReg>,
}

impl Workload {
    /// Instructions a timed run retires.
    pub fn target_instrs(&self) -> (r: u64)
        requires
            self.target_iters * self.instrs_per_iter <= u64::MAX,
        ensures
            r == self.target_iters * self.instrs_per_iter,
    {
        self.target_iters * self.instrs_per_iter as u64
    }
}

/// The iteration counter register of a workload, if any.
pub open spec fn count_reg_of(w: Workload) -> Option<usize> {
    match w.count_reg {
        Some(c) => Some(c.reg),
        None => None,
    }
}

/// A workload's code, repeat unit, run length, initial registers and
/// counter are these.
pub open spec fn workload_is(
    w: Workload,
    code: Seq<u16>,
    fill: bool,
    per_iter: u32,
    iters: u64,
    d_init: Seq<(usize, u32)>,
    count: Option<usize>,
) -> bool {
    &&& match w.code {
        Code::Fill(op) => fill && code == seq![op],
        Code::Words(ws) => !fill && ws@ == code,
    }
    &&& w.instrs_per_iter == per_iter
    &&& w.target_iters == iters
    &&& w.d_init@ == d_init
    &&& count_reg_of(w) == count
}

/// The benchmark workloads, in report order.
pub fn all() -> (r: Vec<Workload>)
    ensures
        r@.len() == 8,
        workload_is(r@[0], seq![0x4E71u16], true, 1, 40_000_000, seq![], None),
        workload_is(r@[1], seq![0x7001u16], true, 1, 40_000_000, seq![], None),
        workload_is(r@[2], seq![0x5280u16], true, 1, 25_000_000, seq![(0usize, 0u32)], Some(0usize)),
        workload_is(r@[3], seq![0x5280u16, 0x60FC], false, 2, 15_000_000, seq![(0usize, 0u32)], Some(0usize)),
        workload_is(r@[4], seq![0x4A80u16, 0x66FC], false, 2, 15_000_000, seq![(0usize, 3u32)], None),
        workload_is(
            r@[5],
            seq![0x2400u16, 0xD481, 0x5282, 0xB182, 0x4A82, 0x60F4],
            false,
            6,
            5_000_000,
            seq![(0usize, 3u32), (1usize, 2u32)],
            None,
        ),
        workload_is(
            r@[6],
            seq![
                0x41F9u16, 0x0000, 0x8000, 0x43F9, 0x0001, 0x0000, 0x303C, 0x03FF, 0x22D8, 0x51C8, 0xFFFC,
                0x5241, 0x60E6,
            ],
            false,
            2053,
            6_000,
            seq![(1usize, 0u32)],
            Some(1usize),
        ),
        workload_is(
            r@[7],
            seq![0x5280u16, 0x6104, 0x60FA, 0x4E71, 0x4E75],
            false,
            4,
            5_000_000,
            seq![(0usize, 0u32)],
            Some(0usize),
        ),
        r@[0].name@ == "linear NOP"@,
        r@[1].name@ == "linear MOVEQ"@,
        r@[2].name@ == "linear ADDQ.L"@,
        r@[3].name@ == "loop ADDQ/BRA"@,
        r@[4].name@ == "loop TST/BNE"@,
        r@[5].name@ == "loop reg mix"@,
        r@[6].name@ == "memcpy 4KB"@,
        r@[7].name@ == "call/return"@,
        forall|i: int, j: int| 0 <= i < j < 8 ==> r@[i].name@ != r@[j].name@,
{
    let mut v: Vec<Workload> = Vec::new();
    v.push(
        Workload {
            name: "linear NOP",
            code: Code::Fill(0x4E71),
            instrs_per_iter: 1,
            target_iters: 40_000_000,
            d_init: &[],
            count_reg: None,
        },
    );
    v.push(
        Workload {
            name: "linear MOVEQ",
            code: Code::Fill(0x7001),
            instrs_per_iter: 1,
            target_iters: 40_000_000,
            d_init: &[],
            count_reg: None,
        },
    );
    v.push(
        Workload {
            name: "linear ADDQ.L",
            code: Code::Fill(0x5280),
            instrs_per_iter: 1,
            target_iters: 25_000_000,
            d_init: &[(0, 0)],
            count_reg: Some(CountReg { reg: 0 }),
        },
    );
    v.push(
        Workload {
            name: "loop ADDQ/BRA",
            // ADDQ.L #1,D0 ; BRA.S -4
            code: Code::Words(&[0x5280, 0x60FC]),
            instrs_per_iter: 2,
            target_iters: 15_000_000,
            d_init: &[(0, 0)],
            count_reg: Some(CountReg { reg: 0 }),
        },
    );
    v.push(
        Workload {
            name: "loop TST/BNE",
            // TST.L D0 ; BNE.S -4   (D0 = 3, so always taken)
            code: Code::Words(&[0x4A80, 0x66FC]),
            instrs_per_iter: 2,
            target_iters: 15_000_000,
            d_init: &[(0, 3)],
            count_reg: None,
        },
    );
    v.push(
        Workload {
            name: "loop reg mix",
            // MOVE.L D0,D2 ; ADD.L D1,D2 ; ADDQ.L #1,D2 ; EOR.L D0,D2 ;
            // TST.L D2 ; BRA.S -12
            code: Code::Words(&[0x2400, 0xD481, 0x5282, 0xB182, 0x4A82, 0x60F4]),
            instrs_per_iter: 6,
            target_iters: 5_000_000,
            d_init: &[(0, 3), (1, 2)],
            count_reg: None,
        },
    );
    v.push(
        Workload {
            name: "memcpy 4KB",
            // Copies 1024 long words from $8000 to $10000, counting passes in D1:
            //   $1000: LEA $00008000.L,A0
            //   $1006: LEA $00010000.L,A1
            //   $100C: MOVE.W #1023,D0
            //   $1010: MOVE.L (A0)+,(A1)+
            //   $1012: DBRA D0,$1010
            //   $1016: ADDQ.W #1,D1
            //   $1018: BRA.S $1000
            // Per iteration: 3 setup + 1024 moves + 1024 dbra + addq + bra = 2053.
            code: Code::Words(
                &[
                    0x41F9, 0x0000, 0x8000, 0x43F9, 0x0001, 0x0000, 0x303C, 0x03FF, 0x22D8, 0x51C8, 0xFFFC, 0x5241,
                    0x60E6,
                ],
            ),
            instrs_per_iter: 2053,
            target_iters: 6_000,
            d_init: &[(1, 0)],
            count_reg: Some(CountReg { reg: 1 }),
        },
    );
    v.push(
        Workload {
            name: "call/return",
            //   $1000: ADDQ.L #1,D0
            //   $1002: BSR.S $1008
            //   $1004: BRA.S $1000
            //   $1006: NOP        (padding, never executed)
            //   $1008: RTS
            code: Code::Words(&[0x5280, 0x6104, 0x60FA, 0x4E71, 0x4E75]),
            instrs_per_iter: 4,
            target_iters: 5_000_000,
            d_init: &[(0, 0)],
            count_reg: Some(CountReg { reg: 0 }),
        },
    );
    assert(v@[0].d_init@ =~= Seq::<(usize, u32)>::empty());
    assert(v@[1].d_init@ =~= Seq::<(usize, u32)>::empty());
    assert(v@[2].d_init@ =~= seq![(0usize, 0u32)]);
    assert(v@[3].d_init@ =~= seq![(0usize, 0u32)]);
    assert(v@[4].d_init@ =~= seq![(0usize, 3u32)]);
    assert(v@[5].d_init@ =~= seq![(0usize, 3u32), (1usize, 2u32)]);
    assert(v@[6].d_init@ =~= seq![(1usize, 0u32)]);
    assert(v@[7].d_init@ =~= seq![(0usize, 0u32)]);
    assert(v@[3].code matches Code::Words(ws) && ws@ =~= seq![0x5280u16, 0x60FC]);
    assert(v@[4].code matches Code::Words(ws) && ws@ =~= seq![0x4A80u16, 0x66FC]);
    assert(v@[5].code matches Code::Words(ws) && ws@ =~= seq![0x2400u16, 0xD481, 0x5282, 0xB182, 0x4A82, 0x60F4]);
    assert(v@[6].code matches Code::Words(ws) && ws@ =~= seq![
        0x41F9u16, 0x0000, 0x8000, 0x43F9, 0x0001, 0x0000, 0x303C, 0x03FF, 0x22D8, 0x51C8, 0xFFFC,
        0x5241, 0x60E6,
    ]);
    assert(v@[7].code matches Code::Words(ws) && ws@ =~= seq![0x5280u16, 0x6104, 0x60FA, 0x4E71, 0x4E75]);
    proof {
        reveal_strlit("linear NOP");
        reveal_strlit("linear MOVEQ");
        reveal_strlit("linear ADDQ.L");
        reveal_strlit("loop ADDQ/BRA");
        reveal_strlit("loop TST/BNE");
        reveal_strlit("loop reg mix");
        reveal_strlit("memcpy 4KB");
        reveal_strlit("call/return");
        assert(v@[0].name@.len() == 10);
        assert(v@[1].name@.len() == 12);
        assert(v@[2].name@.len() == 13);
        assert(v@[3].name@.len() == 13);
        assert(v@[4].name@.len() == 12);
        assert(v@[5].name@.len() == 12);
        assert(v@[6].name@.len() == 10);
        assert(v@[7].name@.len() == 11);
        assert(v@[0].name@[0] != v@[6].name@[0]);
        assert(v@[1].name@[1] != v@[4].name@[1]);
        assert(v@[1].name@[1] != v@[5].name@[1]);
        assert(v@[4].name@[5] != v@[5].name@[5]);
        assert(v@[2].name@[1] != v@[3].name@[1]);
        assert forall|i: int, j: int| 0 <= i < j < 8 implies v@[i].name@ != v@[j].name@ by {
            assert(i == 0 || i == 1 || i == 2 || i == 3 || i == 4 || i == 5 || i == 6);
            assert(j == 1 || j == 2 || j == 3 || j == 4 || j == 5 || j == 6 || j == 7);
        }
    }
    v
}

/// Byte `k` (0 most significant) of the big-endian encoding of `v`.
pub open spec fn be_byte(v: u32, k: int) -> u8 {
    if k == 0 {
        (v / 0x100_0000) as u8
    } else if k == 1 {
        ((v / 0x1_0000) % 256) as u8
    } else if k == 2 {
        ((v / 256) % 256) as u8
    } else {
        (v % 256) as u8
    }
}

/// Byte `i` of a workload's initial memory image: the reset vectors (SSP at
/// 0, the initial PC at 4), then the filled opcode or the code words at
/// `CODE_BASE` in a zeroed memory.
pub open spec fn image_byte(w: Workload, i: int) -> u8 {
    if i < 4 {
        be_byte(SSP, i)
    } else if i < 8 {
        be_byte(CODE_BASE, i - 4)
    } else {
        match w.code {
            Code::Fill(op) => if i % 2 == 0 {
                (op / 256) as u8
            } else {
                (op % 256) as u8
            },
            Code::Words(ws) => if CODE_BASE <= i < CODE_BASE + 2 * ws@.len() {
                let word = ws@[(i - CODE_BASE) / 2];
                if (i - CODE_BASE) % 2 == 0 {
                    (word / 256) as u8
                } else {
                    (word % 256) as u8
                }
            } else {
                0
            },
        }
    }
}

/// Build the initial guest memory image for a workload, including the reset
/// vectors (SSP at 0, initial PC at 4).
pub fn build_image(w: &Workload) -> (mem: Vec<u8>)
    requires
        w.code matches Code::Words(ws) ==> CODE_BASE + 2 * ws@.len() <= MEM_SIZE,
    ensures
        mem@.len() == MEM_SIZE,
        forall|i: int| 0 <= i < MEM_SIZE ==> #[trigger] mem@[i] == image_byte(*w, i),
{
    let mut mem = vec![0u8; MEM_SIZE];
    assert forall|j: int| 0 <= j < MEM_SIZE implies #[trigger] mem@[j] == 0u8 by {
        assert(cloned(0u8, mem@[j]));
    }
    match w.code {
        Code::Fill(op) => {
            let hi = (op / 256) as u8;
            let lo = (op % 256) as u8;
            let mut i: usize = 0;
            while i < MEM_SIZE
                invariant
                    i <= MEM_SIZE,
                    i % 2 == 0,
                    mem@.len() == MEM_SIZE,
                    w.code == Code::Fill(op),
                    hi == (op / 256) as u8,
                    lo == (op % 256) as u8,
                    forall|j: int| 0 <= j < i ==> #[trigger] mem@[j] == (if j % 2 == 0 {
                        hi
                    } else {
                        lo
                    }),
                decreases MEM_SIZE - i,
            {
                mem.set(i, hi);
                mem.set(i + 1, lo);
                i = i + 2;
            }
        },
        Code::Words(words) => {
            let mut i: usize = 0;
            while i < words.len()
                invariant
                    i <= words@.len(),
                    CODE_BASE + 2 * words@.len() <= MEM_SIZE,
                    w.code == Code::Words(words),
                    mem@.len() == MEM_SIZE,
                    forall|j: int|
                        0 <= j < MEM_SIZE ==> #[trigger] mem@[j] == (if CODE_BASE <= j < CODE_BASE + 2 * i {
                            let word = words@[(j - CODE_BASE) / 2];
                            if (j - CODE_BASE) % 2 == 0 {
                                (word / 256) as u8
                            } else {
                                (word % 256) as u8
                            }
                        } else {
                            0u8
                        }),
                decreases words@.len() - i,
            {
                let a = CODE_BASE as usize + i * 2;
                let word = words[i];
                mem.set(a, (word / 256) as u8);
                mem.set(a + 1, (word % 256) as u8);
                i = i + 1;
            }
        },
    }
    mem.set(0, (SSP / 0x100_0000) as u8);
    mem.set(1, ((SSP / 0x1_0000) % 256) as u8);
    mem.set(2, ((SSP / 256) % 256) as u8);
    mem.set(3, (SSP % 256) as u8);
    mem.set(4, (CODE_BASE / 0x100_0000) as u8);
    mem.set(5, ((CODE_BASE / 0x1_0000) % 256) as u8);
    mem.set(6, ((CODE_BASE / 256) % 256) as u8);
    mem.set(7, (CODE_BASE % 256) as u8);
    mem
}

/// For `Code::Fill` workloads: what the first 8 bytes (overwritten by the
/// reset vectors) must be restored to after reset, so that wrapped
/// execution runs through clean opcodes.
pub fn post_reset_patch(w: &Workload) -> (r: Option<[u8; 8]>)
    ensures
        match w.code {
            Code::Fill(op) => r matches Some(p) && p@ == seq![
                (op / 256) as u8,
                (op % 256) as u8,
                (op / 256) as u8,
                (op % 256) as u8,
                (op / 256) as u8,
                (op % 256) as u8,
                (op / 256) as u8,
                (op % 256) as u8,
            ],
            Code::Words(_) => r is None,
        },
{
    match w.code {
        Code::Fill(op) => {
            let hi = (op / 256) as u8;
            let lo = (op % 256) as u8;
            let p = [hi, lo, hi, lo, hi, lo, hi, lo];
            assert(p@ =~= seq![hi, lo, hi, lo, hi, lo, hi, lo]);
            Some(p)
        },
        Code::Words(_) => None,
    }
}

/// The 64-bit FNV-1a-shaped hash of `data`: from the FNV offset basis,
/// each byte is xored in and the state multiplied by `0x1_0000_01b3`
/// (which is not the standard 64-bit FNV prime).
pub open spec fn fnv1a_spec(data: Seq<u8>) -> u64
    decreases data.len(),
{
    if data.len() == 0 {
        0xcbf2_9ce4_8422_2325
    } else {
        (fnv1a_spec(data.drop_last()) ^ (data.last() as u64)).wrapping_mul(0x1_0000_01b3)
    }
}

/// The 64-bit FNV-1a-shaped hash of `data`: from the FNV offset basis,
/// each byte is xored in and the state multiplied by `0x1_0000_01b3`
/// (which is not the standard 64-bit FNV prime).
pub fn fnv1a(data: &[u8]) -> (h: u64)
    ensures
        h == fnv1a_spec(data@),
{
    let mut h: u64 = 0xcbf2_9ce4_8422_2325;
    let mut i: usize = 0;
    while i < data.len()
        invariant
            i <= data@.len(),
            h == fnv1a_spec(data@.subrange(0, i as int)),
        decreases data@.len() - i,
    {
        proof {
            assert(data@.subrange(0, i + 1).drop_last() =~= data@.subrange(0, i as int));
        }
        h = (h ^ data[i] as u64).wrapping_mul(0x1_0000_01b3);
        i = i + 1;
    }
    assert(data@.subrange(0, data@.len() as int) =~= data@);
    h
}

} // verus!
