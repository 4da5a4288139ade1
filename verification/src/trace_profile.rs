//! Trace opportunity profiling: per-head counters of backward branches,
//! rejections, recordings, compiled traces and native calls, and counts of
//! decoded memory operations by opcode and by site.
//!
//! `TraceProfile` holds the counters; `snapshot` turns them into rows in
//! head order. Each counter saturates.

use vstd::prelude::*;
use std::cmp::Ordering;
use std::collections::{BTreeMap, HashMap};
use vstd::std_specs::cmp::OrdSpec;
use vstd::std_specs::iter::IteratorSpec;
use crate::types::CpuType;

verus! {

broadcast use {vstd::std_specs::btree::group_btree_axioms, vstd::std_specs::hash::group_hash_axioms};

/// A trace head's counters, as reported.
#[derive(Debug, Clone, PartialEq, Eq, Structural)]
pub struct TraceProfileRow {
    pub start_pc: u32,
    pub cpu_type: CpuType,
    pub backward_hits: u64,
    pub rejected_hits: u64,
    pub recording_attempts: u64,
    pub prefix_ops: u32,
    pub blocker_pc: Option<u32>,
    pub blocker_opcode: Option<u16>,
    pub compiled_ops: u32,
    pub native_calls: u64,
    pub jit_retired: u64,
    pub guarded_branch_exits: u64,
    pub adaptive_rerecords: u64,
}

/// Executions of a decoded memory operation, by opcode.
#[derive(Debug, Clone, PartialEq, Eq, Structural)]
pub struct DecodedMemProfileRow {
    pub opcode: u16,
    pub executions: u64,
}

/// Executions of a decoded memory operation, by site.
#[derive(Debug, Clone, PartialEq, Eq, Structural)]
pub struct DecodedMemSiteProfileRow {
    pub pc: u32,
    pub opcode: u16,
    pub executions: u64,
}

/// `a * b`, or `u64::MAX` when that does not fit.
pub open spec fn sat_mul(a: u64, b: u64) -> u64 {
    if a * b > u64::MAX {
        u64::MAX
    } else {
        (a * b) as u64
    }
}

/// `a + b`, or `u64::MAX` when that does not fit.
pub open spec fn sat_add64(a: u64, b: u64) -> u64 {
    if a + b > u64::MAX {
        u64::MAX
    } else {
        (a + b) as u64
    }
}

impl TraceProfileRow {
    /// Approximate interpreter dispatches made eligible by supporting the
    /// blocker: the rejected hits times the traceable prefix. The blocker
    /// itself is left out, since some control-flow instructions should end
    /// a trace rather than run in it.
    pub fn projected_dispatches(&self) -> (r: u64)
        ensures
            r == sat_mul(self.rejected_hits, self.prefix_ops as u64),
    {
        match self.rejected_hits.checked_mul(self.prefix_ops as u64) {
            Some(v) => v,
            None => u64::MAX,
        }
    }
}

/// The counters of a run, ready for reporting.
#[derive(Debug, Clone, PartialEq, Eq)]
pub struct TraceProfileSnapshot {
    pub rows: Vec<TraceProfileRow>,
    pub decoded_mem_ops: Vec<DecodedMemProfileRow>,
    pub decoded_mem_sites: Vec<DecodedMemSiteProfileRow>,
    pub backward_hits: u64,
    pub rejected_hits: u64,
    pub native_calls: u64,
    pub jit_retired: u64,
}

/// The stored counters of one trace head.
#[derive(Debug, Clone, Copy, PartialEq, Eq, Structural)]
pub struct Row {
    pub cpu_type: u32,
    pub backward_hits: u64,
    pub rejected_hits: u64,
    pub recording_attempts: u64,
    pub prefix_ops: u32,
    pub blocker_pc: Option<u32>,
    pub blocker_opcode: Option<u16>,
    pub compiled_ops: u32,
    pub native_calls: u64,
    pub jit_retired: u64,
    pub guarded_branch_exits: u64,
    pub adaptive_rerecords: u64,
}

/// Number of opcodes.
pub const DECODE_TABLE_SIZE: usize = 0x1_0000;

/// Every counter of a run.
pub struct TraceProfile {
    /// Trace heads and their counters, keyed by (pc, model number).
    pub rows: BTreeMap<(u32, u32), Row>,
    /// Decoded memory operations by opcode.
    pub decoded_mem_counts: Vec<u64>,
    /// Decoded memory operations by site key `(pc << 16) | opcode`.
    pub decoded_mem_site_counts: HashMap<u64, u64>,
}

/// The number of a model in the profile's keys.
pub open spec fn cpu_type_repr_spec(t: CpuType) -> u32 {
    match t {
        CpuType::Invalid => 0,
        CpuType::M68000 => 1,
        CpuType::M68010 => 2,
        CpuType::M68EC020 => 3,
        CpuType::M68020 => 4,
        CpuType::M68EC030 => 5,
        CpuType::M68030 => 6,
        CpuType::M68EC040 => 7,
        CpuType::M68LC040 => 8,
        CpuType::M68040 => 9,
        CpuType::SCC68070 => 10,
        CpuType::M68060 => 11,
    }
}

/// The model of a profile key's number (models without one read as
/// `Invalid`).
pub open spec fn cpu_type_from_repr_spec(v: u32) -> CpuType {
    if v == 1 {
        CpuType::M68000
    } else if v == 2 {
        CpuType::M68010
    } else if v == 3 {
        CpuType::M68EC020
    } else if v == 4 {
        CpuType::M68020
    } else if v == 5 {
        CpuType::M68EC030
    } else if v == 6 {
        CpuType::M68030
    } else if v == 7 {
        CpuType::M68EC040
    } else if v == 8 {
        CpuType::M68LC040
    } else if v == 9 {
        CpuType::M68040
    } else if v == 10 {
        CpuType::SCC68070
    } else {
        CpuType::Invalid
    }
}

/// The number of a model in the profile's keys.
pub fn cpu_type_repr(t: CpuType) -> (r: u32)
    ensures
        r == cpu_type_repr_spec(t),
{
    match t {
        CpuType::Invalid => 0,
        CpuType::M68000 => 1,
        CpuType::M68010 => 2,
        CpuType::M68EC020 => 3,
        CpuType::M68020 => 4,
        CpuType::M68EC030 => 5,
        CpuType::M68030 => 6,
        CpuType::M68EC040 => 7,
        CpuType::M68LC040 => 8,
        CpuType::M68040 => 9,
        CpuType::SCC68070 => 10,
        CpuType::M68060 => 11,
    }
}

/// The model of a profile key's number.
pub fn cpu_type_from_repr(value: u32) -> (r: CpuType)
    ensures
        r == cpu_type_from_repr_spec(value),
{
    match value {
        1 => CpuType::M68000,
        2 => CpuType::M68010,
        3 => CpuType::M68EC020,
        4 => CpuType::M68020,
        5 => CpuType::M68EC030,
        6 => CpuType::M68030,
        7 => CpuType::M68EC040,
        8 => CpuType::M68LC040,
        9 => CpuType::M68040,
        10 => CpuType::SCC68070,
        _ => CpuType::Invalid,
    }
}

/// A model's number survives the round trip (the 68060, which has none in
/// the report, reads back as `Invalid`).
pub proof fn lemma_repr_roundtrip(t: CpuType)
    requires
        t != CpuType::M68060,
    ensures
        cpu_type_from_repr_spec(cpu_type_repr_spec(t)) == t,
{
}

// ----- keyed rows ---------------------------------------------------------------------

/// Key order: by pc, then by model number.
pub open spec fn key_lt(a: (u32, u32), b: (u32, u32)) -> bool {
    a.0 < b.0 || (a.0 == b.0 && a.1 < b.1)
}

/// The keys of the rows are ordered as pairs, which the map relies on.
proof fn lemma_key_order()
    ensures
        vstd::laws_cmp::obeys_cmp::<(u32, u32)>(),
        vstd::std_specs::btree::key_obeys_cmp_spec::<(u32, u32)>(),
{
    broadcast use vstd::laws_cmp::group_laws_cmp;
    broadcast use vstd::std_specs::btree::axiom_key_obeys_cmp_spec_meaning;
}

/// The pair order of the keys is the key order.
proof fn lemma_pair_less(a: (u32, u32), b: (u32, u32))
    ensures
        (a.cmp_spec(&b) is Less) <==> key_lt(a, b),
{
}

/// Fresh counters for a model.
pub open spec fn fresh_row(cpu_type: u32) -> Row {
    Row {
        cpu_type,
        backward_hits: 0,
        rejected_hits: 0,
        recording_attempts: 0,
        prefix_ops: 0,
        blocker_pc: None,
        blocker_opcode: None,
        compiled_ops: 0,
        native_calls: 0,
        jit_retired: 0,
        guarded_branch_exits: 0,
        adaptive_rerecords: 0,
    }
}

/// The counters under `k`, or fresh ones.
pub open spec fn row_or_fresh(rows: Map<(u32, u32), Row>, k: (u32, u32)) -> Row {
    if rows.contains_key(k) {
        rows[k]
    } else {
        fresh_row(k.1)
    }
}

/// `new` is `old` with the counters under `k` set to `r`; the other keys
/// keep their counters.
pub open spec fn rows_updated(old: Map<(u32, u32), Row>, new: Map<(u32, u32), Row>, k: (u32, u32), r: Row) -> bool {
    new == old.insert(k, r)
}

/// `es` lists the rows of `rows` in key order.
pub open spec fn listed(rows: Map<(u32, u32), Row>, es: Seq<((u32, u32), Row)>) -> bool {
    &&& es.len() == rows.dom().len()
    &&& forall|i: int| 0 <= i < es.len() ==> rows.contains_key(#[trigger] es[i].0) && rows[es[i].0] == es[i].1
    &&& forall|i: int, j: int| 0 <= i < j < es.len() ==> key_lt(#[trigger] es[i].0, #[trigger] es[j].0)
}

// ----- the profile -----------------------------------------------------------------------

/// The profile's invariant: each row holds its key's model, and there is one
/// count per opcode.
pub open spec fn profile_wf(p: TraceProfile) -> bool {
    &&& forall|k: (u32, u32)| #[trigger] p.rows@.contains_key(k) ==> p.rows@[k].cpu_type == k.1
    &&& p.decoded_mem_counts@.len() == DECODE_TABLE_SIZE
}

/// The count under a site key, 0 when absent.
pub open spec fn site_count(sites: Map<u64, u64>, key: u64) -> u64 {
    if sites.contains_key(key) {
        sites[key]
    } else {
        0
    }
}

/// The site key of an instruction: its address above its opcode.
pub open spec fn site_key(pc: u32, opcode: u16) -> u64 {
    (pc as u64 * 0x1_0000 + opcode as u64) as u64
}

impl TraceProfile {
    /// An empty profile.
    pub fn new() -> (p: TraceProfile)
        ensures
            profile_wf(p),
            p.rows@ == Map::<(u32, u32), Row>::empty(),
            p.decoded_mem_site_counts@ == Map::<u64, u64>::empty(),
            forall|i: int| 0 <= i < DECODE_TABLE_SIZE ==> #[trigger] p.decoded_mem_counts@[i] == 0,
    {
        let mut counts: Vec<u64> = Vec::new();
        let mut i: usize = 0;
        while i < DECODE_TABLE_SIZE
            invariant
                i <= DECODE_TABLE_SIZE,
                counts@.len() == i,
                forall|j: int| 0 <= j < i ==> #[trigger] counts@[j] == 0,
            decreases DECODE_TABLE_SIZE - i,
        {
            counts.push(0);
            i = i + 1;
        }
        TraceProfile { rows: BTreeMap::new(), decoded_mem_counts: counts, decoded_mem_site_counts: HashMap::new() }
    }

    /// The counters of head `pc` for `cpu_type`, inserted fresh when new.
    pub fn row(&mut self, pc: u32, cpu_type: CpuType) -> (r: Row)
        requires
            profile_wf(*old(self)),
        ensures
            profile_wf(*final(self)),
            r == row_or_fresh(old(self).rows@, (pc, cpu_type_repr_spec(cpu_type))),
            rows_updated(old(self).rows@, final(self).rows@, (pc, cpu_type_repr_spec(cpu_type)), r),
            final(self).decoded_mem_counts == old(self).decoded_mem_counts,
            final(self).decoded_mem_site_counts == old(self).decoded_mem_site_counts,
    {
        proof {
            lemma_key_order();
        }
        let repr = cpu_type_repr(cpu_type);
        let r = match self.rows.get(&(pc, repr)) {
            Some(r) => *r,
            None => Row {
                cpu_type: repr,
                backward_hits: 0,
                rejected_hits: 0,
                recording_attempts: 0,
                prefix_ops: 0,
                blocker_pc: None,
                blocker_opcode: None,
                compiled_ops: 0,
                native_calls: 0,
                jit_retired: 0,
                guarded_branch_exits: 0,
                adaptive_rerecords: 0,
            },
        };
        self.rows.insert((pc, repr), r);
        r
    }

    /// Store the counters `r` of head `pc` for `cpu_type`.
    fn set_row(&mut self, pc: u32, cpu_type: CpuType, r: Row)
        requires
            profile_wf(*old(self)),
            r.cpu_type == cpu_type_repr_spec(cpu_type),
        ensures
            profile_wf(*final(self)),
            rows_updated(old(self).rows@, final(self).rows@, (pc, cpu_type_repr_spec(cpu_type)), r),
            final(self).decoded_mem_counts == old(self).decoded_mem_counts,
            final(self).decoded_mem_site_counts == old(self).decoded_mem_site_counts,
    {
        proof {
            lemma_key_order();
        }
        let repr = cpu_type_repr(cpu_type);
        self.rows.insert((pc, repr), r);
    }

    /// A backward branch reached head `pc`; `rejected` when the head is
    /// known not to compile.
    pub fn note_backward_edge(&mut self, pc: u32, cpu_type: CpuType, rejected: bool)
        requires
            profile_wf(*old(self)),
        ensures
            profile_wf(*final(self)),
            ({
                let k = (pc, cpu_type_repr_spec(cpu_type));
                let r = row_or_fresh(old(self).rows@, k);
                rows_updated(old(self).rows@, final(self).rows@, k, Row {
                    backward_hits: sat_add64(r.backward_hits, 1),
                    rejected_hits: if rejected {
                        sat_add64(r.rejected_hits, 1)
                    } else {
                        r.rejected_hits
                    },
                    ..r
                })
            }),
            final(self).decoded_mem_counts == old(self).decoded_mem_counts,
            final(self).decoded_mem_site_counts == old(self).decoded_mem_site_counts,
    {
        let mut r = self.row(pc, cpu_type);
        r.backward_hits = r.backward_hits.saturating_add(1);
        if rejected {
            r.rejected_hits = r.rejected_hits.saturating_add(1);
        }
        self.set_row(pc, cpu_type, r);
        proof {
            assert(self.rows@ =~= old(self).rows@.insert((pc, cpu_type_repr_spec(cpu_type)), r));
        }
    }

    /// A trace was recorded at head `pc`.
    pub fn note_recording(&mut self, pc: u32, cpu_type: CpuType)
        requires
            profile_wf(*old(self)),
        ensures
            profile_wf(*final(self)),
            ({
                let k = (pc, cpu_type_repr_spec(cpu_type));
                let r = row_or_fresh(old(self).rows@, k);
                rows_updated(old(self).rows@, final(self).rows@, k, Row { recording_attempts: sat_add64(r.recording_attempts, 1), ..r })
            }),
            final(self).decoded_mem_counts == old(self).decoded_mem_counts,
            final(self).decoded_mem_site_counts == old(self).decoded_mem_site_counts,
    {
        let mut r = self.row(pc, cpu_type);
        r.recording_attempts = r.recording_attempts.saturating_add(1);
        self.set_row(pc, cpu_type, r);
        proof {
            assert(self.rows@ =~= old(self).rows@.insert((pc, cpu_type_repr_spec(cpu_type)), r));
        }
    }

    /// Recording at `start_pc` stopped at an untraceable instruction after
    /// `prefix_ops` traceable ones. The longest prefix seen is kept: the
    /// conservative amount of supported work stranded behind the blocker.
    pub fn note_blocker(&mut self, start_pc: u32, cpu_type: CpuType, prefix_ops: usize, blocker_pc: u32, blocker_opcode: u16)
        requires
            profile_wf(*old(self)),
        ensures
            profile_wf(*final(self)),
            ({
                let k = (start_pc, cpu_type_repr_spec(cpu_type));
                let r = row_or_fresh(old(self).rows@, k);
                rows_updated(old(self).rows@, final(self).rows@, k, if prefix_ops as u32 >= r.prefix_ops {
                    Row { prefix_ops: prefix_ops as u32, blocker_pc: Some(blocker_pc), blocker_opcode: Some(blocker_opcode), ..r }
                } else {
                    r
                })
            }),
            final(self).decoded_mem_counts == old(self).decoded_mem_counts,
            final(self).decoded_mem_site_counts == old(self).decoded_mem_site_counts,
    {
        let mut r = self.row(start_pc, cpu_type);
        if prefix_ops as u32 >= r.prefix_ops {
            r.prefix_ops = prefix_ops as u32;
            r.blocker_pc = Some(blocker_pc);
            r.blocker_opcode = Some(blocker_opcode);
        }
        self.set_row(start_pc, cpu_type, r);
        proof {
            assert(self.rows@ =~= old(self).rows@.insert((start_pc, cpu_type_repr_spec(cpu_type)), r));
        }
    }

    /// A trace of `ops` operations was compiled at head `pc`.
    pub fn note_compiled(&mut self, pc: u32, cpu_type: CpuType, ops: usize)
        requires
            profile_wf(*old(self)),
        ensures
            profile_wf(*final(self)),
            ({
                let k = (pc, cpu_type_repr_spec(cpu_type));
                let r = row_or_fresh(old(self).rows@, k);
                rows_updated(old(self).rows@, final(self).rows@, k, Row { compiled_ops: ops as u32, ..r })
            }),
            final(self).decoded_mem_counts == old(self).decoded_mem_counts,
            final(self).decoded_mem_site_counts == old(self).decoded_mem_site_counts,
    {
        let mut r = self.row(pc, cpu_type);
        r.compiled_ops = ops as u32;
        self.set_row(pc, cpu_type, r);
        proof {
            assert(self.rows@ =~= old(self).rows@.insert((pc, cpu_type_repr_spec(cpu_type)), r));
        }
    }

    /// The trace at head `pc` ran once, retiring `retired` instructions.
    pub fn note_native_call(&mut self, pc: u32, cpu_type: CpuType, retired: u32)
        requires
            profile_wf(*old(self)),
        ensures
            profile_wf(*final(self)),
            ({
                let k = (pc, cpu_type_repr_spec(cpu_type));
                let r = row_or_fresh(old(self).rows@, k);
                rows_updated(old(self).rows@, final(self).rows@, k, Row {
                    native_calls: sat_add64(r.native_calls, 1),
                    jit_retired: sat_add64(r.jit_retired, retired as u64),
                    ..r
                })
            }),
            final(self).decoded_mem_counts == old(self).decoded_mem_counts,
            final(self).decoded_mem_site_counts == old(self).decoded_mem_site_counts,
    {
        let mut r = self.row(pc, cpu_type);
        r.native_calls = r.native_calls.saturating_add(1);
        r.jit_retired = r.jit_retired.saturating_add(retired as u64);
        self.set_row(pc, cpu_type, r);
        proof {
            assert(self.rows@ =~= old(self).rows@.insert((pc, cpu_type_repr_spec(cpu_type)), r));
        }
    }

    /// The trace at head `pc` left through a guarded branch.
    pub fn note_guarded_branch_exit(&mut self, pc: u32, cpu_type: CpuType)
        requires
            profile_wf(*old(self)),
        ensures
            profile_wf(*final(self)),
            ({
                let k = (pc, cpu_type_repr_spec(cpu_type));
                let r = row_or_fresh(old(self).rows@, k);
                rows_updated(old(self).rows@, final(self).rows@, k, Row { guarded_branch_exits: sat_add64(r.guarded_branch_exits, 1), ..r })
            }),
            final(self).decoded_mem_counts == old(self).decoded_mem_counts,
            final(self).decoded_mem_site_counts == old(self).decoded_mem_site_counts,
    {
        let mut r = self.row(pc, cpu_type);
        r.guarded_branch_exits = r.guarded_branch_exits.saturating_add(1);
        self.set_row(pc, cpu_type, r);
        proof {
            assert(self.rows@ =~= old(self).rows@.insert((pc, cpu_type_repr_spec(cpu_type)), r));
        }
    }

    /// The trace at head `pc` was recorded again along its dominant path.
    pub fn note_adaptive_rerecord(&mut self, pc: u32, cpu_type: CpuType)
        requires
            profile_wf(*old(self)),
        ensures
            profile_wf(*final(self)),
            ({
                let k = (pc, cpu_type_repr_spec(cpu_type));
                let r = row_or_fresh(old(self).rows@, k);
                rows_updated(old(self).rows@, final(self).rows@, k, Row { adaptive_rerecords: sat_add64(r.adaptive_rerecords, 1), ..r })
            }),
            final(self).decoded_mem_counts == old(self).decoded_mem_counts,
            final(self).decoded_mem_site_counts == old(self).decoded_mem_site_counts,
    {
        let mut r = self.row(pc, cpu_type);
        r.adaptive_rerecords = r.adaptive_rerecords.saturating_add(1);
        self.set_row(pc, cpu_type, r);
        proof {
            assert(self.rows@ =~= old(self).rows@.insert((pc, cpu_type_repr_spec(cpu_type)), r));
        }
    }

    /// A decoded memory operation `opcode` executed at `pc`.
    pub fn note_decoded_mem(&mut self, pc: u32, opcode: u16)
        requires
            profile_wf(*old(self)),
        ensures
            profile_wf(*final(self)),
            final(self).rows == old(self).rows,
            final(self).decoded_mem_counts@ == old(self).decoded_mem_counts@.update(
                opcode as int,
                sat_add64(old(self).decoded_mem_counts@[opcode as int], 1),
            ),
            site_count(final(self).decoded_mem_site_counts@, site_key(pc, opcode)) == sat_add64(
                site_count(old(self).decoded_mem_site_counts@, site_key(pc, opcode)),
                1,
            ),
            forall|key: u64| key != site_key(pc, opcode) ==> #[trigger] site_count(final(self).decoded_mem_site_counts@, key)
                == site_count(old(self).decoded_mem_site_counts@, key),
            final(self).decoded_mem_site_counts@ == old(self).decoded_mem_site_counts@.insert(
                site_key(pc, opcode),
                sat_add64(site_count(old(self).decoded_mem_site_counts@, site_key(pc, opcode)), 1),
            ),
    {
        let o = opcode as usize;
        let c = self.decoded_mem_counts[o];
        self.decoded_mem_counts.set(o, c.saturating_add(1));
        let key = (pc as u64) * 0x1_0000 + opcode as u64;
        let n = match self.decoded_mem_site_counts.get(&key) {
            Some(v) => *v,
            None => 0,
        };
        self.decoded_mem_site_counts.insert(key, n.saturating_add(1));
    }
}

// ----- snapshots --------------------------------------------------------------------------

/// The reported form of a stored row.
pub open spec fn public_row(e: ((u32, u32), Row)) -> TraceProfileRow {
    TraceProfileRow {
        start_pc: e.0.0,
        cpu_type: cpu_type_from_repr_spec(e.1.cpu_type),
        backward_hits: e.1.backward_hits,
        rejected_hits: e.1.rejected_hits,
        recording_attempts: e.1.recording_attempts,
        prefix_ops: e.1.prefix_ops,
        blocker_pc: e.1.blocker_pc,
        blocker_opcode: e.1.blocker_opcode,
        compiled_ops: e.1.compiled_ops,
        native_calls: e.1.native_calls,
        jit_retired: e.1.jit_retired,
        guarded_branch_exits: e.1.guarded_branch_exits,
        adaptive_rerecords: e.1.adaptive_rerecords,
    }
}

/// Totals of the stored rows: backward hits, rejected hits, native calls
/// and retired instructions.
pub open spec fn totals(rows: Seq<((u32, u32), Row)>) -> (int, int, int, int)
    decreases rows.len(),
{
    if rows.len() == 0 {
        (0, 0, 0, 0)
    } else {
        let t = totals(rows.drop_last());
        let r = rows.last().1;
        (t.0 + r.backward_hits, t.1 + r.rejected_hits, t.2 + r.native_calls, t.3 + r.jit_retired)
    }
}

/// The reported form of a site entry: the address above the opcode.
pub open spec fn public_site(e: (u64, u64)) -> DecodedMemSiteProfileRow {
    DecodedMemSiteProfileRow { pc: (e.0 / 0x1_0000) as u32, opcode: (e.0 % 0x1_0000) as u16, executions: e.1 }
}

/// The per-opcode rows: the opcodes with a non-zero count, in increasing
/// order, with their counts.
pub open spec fn opcode_rows(counts: Seq<u64>, rows: Seq<DecodedMemProfileRow>) -> bool {
    &&& forall|j: int| 0 <= j < rows.len() ==> (#[trigger] rows[j]).executions == counts[rows[j].opcode as int]
        && rows[j].executions != 0
    &&& forall|j: int, k: int| 0 <= j < k < rows.len() ==> (#[trigger] rows[j]).opcode < (#[trigger] rows[k]).opcode
    &&& forall|o: int| 0 <= o < counts.len() && #[trigger] counts[o] != 0 ==> exists|j: int| 0 <= j < rows.len() && rows[j].opcode == o
}

impl TraceProfile {
    /// The counters as rows: heads in (pc, model) order, the opcodes with
    /// executions in increasing order, the sites, and the totals.
    pub fn snapshot(&self) -> (snap: TraceProfileSnapshot)
        requires
            profile_wf(*self),
            forall|es: Seq<((u32, u32), Row)>|
                #[trigger] listed(self.rows@, es) ==> totals(es).0 <= u64::MAX && totals(es).1 <= u64::MAX && totals(
                    es,
                ).2 <= u64::MAX && totals(es).3 <= u64::MAX,
        ensures
            exists|es: Seq<((u32, u32), Row)>|
                #[trigger] listed(self.rows@, es) && snap.rows@.len() == es.len() && (forall|i: int|
                    0 <= i < es.len() ==> #[trigger] snap.rows@[i] == public_row(es[i])) && snap.backward_hits
                    == totals(es).0 && snap.rejected_hits == totals(es).1 && snap.native_calls == totals(es).2
                    && snap.jit_retired == totals(es).3,
            opcode_rows(self.decoded_mem_counts@, snap.decoded_mem_ops@),
            exists|ss: Seq<(u64, u64)>|
                #[trigger] sites_listed(self.decoded_mem_site_counts@, ss) && snap.decoded_mem_sites@.len() == ss.len()
                    && forall|i: int| 0 <= i < ss.len() ==> #[trigger] snap.decoded_mem_sites@[i] == public_site(ss[i]),
            self.rows@ == Map::<(u32, u32), Row>::empty() ==> snap.rows@.len() == 0 && snap.backward_hits == 0
                && snap.rejected_hits == 0 && snap.native_calls == 0 && snap.jit_retired == 0,
            (forall|i: int| 0 <= i < DECODE_TABLE_SIZE ==> #[trigger] self.decoded_mem_counts@[i] == 0)
                ==> snap.decoded_mem_ops@.len() == 0,
            self.decoded_mem_site_counts@ == Map::<u64, u64>::empty() ==> snap.decoded_mem_sites@.len() == 0,
    {
        proof {
            lemma_key_order();
        }
        let ghost rem = vstd::std_specs::btree::spec_btree_map_iter(&self.rows).remaining();
        let ghost es = rem.map_values(|kv: (&(u32, u32), &Row)| (*kv.0, *kv.1));
        let walk = self.rows.iter();
        proof {
            lemma_iteration_listed(self.rows@, rem, es);
        }
        let mut rows: Vec<TraceProfileRow> = Vec::new();
        let mut backward: u64 = 0;
        let mut rejected: u64 = 0;
        let mut calls: u64 = 0;
        let mut retired: u64 = 0;
        for kv in it: walk
            invariant
                it.seq() == rem,
                es == rem.map_values(|kv: (&(u32, u32), &Row)| (*kv.0, *kv.1)),
                listed(self.rows@, es),
                rows@.len() == it.index(),
                forall|j: int| 0 <= j < it.index() ==> #[trigger] rows@[j] == public_row(es[j]),
                totals(es).0 <= u64::MAX,
                totals(es).1 <= u64::MAX,
                totals(es).2 <= u64::MAX,
                totals(es).3 <= u64::MAX,
                (backward as int, rejected as int, calls as int, retired as int) == totals(es.subrange(0, it.index() as int)),
        {
            let (key, r) = kv;
            let pc = key.0;
            proof {
                let i = it.index() as int;
                assert(es[i] == (*key, *r));
                lemma_totals_prefix(es, i + 1);
                lemma_totals_mono(es, i + 1);
            }
            rows.push(
                TraceProfileRow {
                    start_pc: pc,
                    cpu_type: cpu_type_from_repr(r.cpu_type),
                    backward_hits: r.backward_hits,
                    rejected_hits: r.rejected_hits,
                    recording_attempts: r.recording_attempts,
                    prefix_ops: r.prefix_ops,
                    blocker_pc: r.blocker_pc,
                    blocker_opcode: r.blocker_opcode,
                    compiled_ops: r.compiled_ops,
                    native_calls: r.native_calls,
                    jit_retired: r.jit_retired,
                    guarded_branch_exits: r.guarded_branch_exits,
                    adaptive_rerecords: r.adaptive_rerecords,
                },
            );
            backward = backward + r.backward_hits;
            rejected = rejected + r.rejected_hits;
            calls = calls + r.native_calls;
            retired = retired + r.jit_retired;
        }
        proof {
            assert(es.subrange(0, es.len() as int) =~= es);
        }
        let decoded_mem_ops = self.opcode_rows();
        let mut decoded_mem_sites: Vec<DecodedMemSiteProfileRow> = Vec::new();
        let ghost srem = vstd::std_specs::hash::spec_hash_map_iter(&self.decoded_mem_site_counts).remaining();
        let ghost ss = srem.map_values(|kv: (&u64, &u64)| (*kv.0, *kv.1));
        let site_walk = self.decoded_mem_site_counts.iter();
        proof {
            lemma_sites_listed(self.decoded_mem_site_counts@, srem, ss);
        }
        for kv in sit: site_walk
            invariant
                sit.seq() == srem,
                ss == srem.map_values(|kv: (&u64, &u64)| (*kv.0, *kv.1)),
                decoded_mem_sites@.len() == sit.index(),
                forall|j: int| 0 <= j < sit.index() ==> #[trigger] decoded_mem_sites@[j] == public_site(ss[j]),
        {
            let (key, executions) = kv;
            let key = *key;
            let executions = *executions;
            proof {
                assert(ss[sit.index() as int] == (key, executions));
            }
            decoded_mem_sites.push(
                DecodedMemSiteProfileRow { pc: (key / 0x1_0000) as u32, opcode: (key % 0x1_0000) as u16, executions },
            );
        }
        proof {
            if self.rows@ == Map::<(u32, u32), Row>::empty() {
                assert(self.rows@.dom() =~= Set::<(u32, u32)>::empty());
                assert(es.len() == 0);
            }
            if self.decoded_mem_site_counts@ == Map::<u64, u64>::empty() {
                assert(self.decoded_mem_site_counts@.dom() =~= Set::<u64>::empty());
            }
            if decoded_mem_ops@.len() > 0 {
                assert(self.decoded_mem_counts@[decoded_mem_ops@[0].opcode as int] != 0);
            }
        }
        TraceProfileSnapshot {
            rows,
            decoded_mem_ops,
            decoded_mem_sites,
            backward_hits: backward,
            rejected_hits: rejected,
            native_calls: calls,
            jit_retired: retired,
        }
    }

    /// The opcodes with executions, in increasing order.
    fn opcode_rows(&self) -> (r: Vec<DecodedMemProfileRow>)
        requires
            profile_wf(*self),
        ensures
            opcode_rows(self.decoded_mem_counts@, r@),
    {
        let mut out: Vec<DecodedMemProfileRow> = Vec::new();
        let mut o: usize = 0;
        while o < DECODE_TABLE_SIZE
            invariant
                o <= DECODE_TABLE_SIZE,
                self.decoded_mem_counts@.len() == DECODE_TABLE_SIZE,
                forall|j: int| 0 <= j < out@.len() ==> (#[trigger] out@[j]).executions == self.decoded_mem_counts@[out@[j].opcode as int]
                    && out@[j].executions != 0 && out@[j].opcode < o,
                forall|j: int, k: int| 0 <= j < k < out@.len() ==> (#[trigger] out@[j]).opcode < (#[trigger] out@[k]).opcode,
                forall|p: int| 0 <= p < o && #[trigger] self.decoded_mem_counts@[p] != 0 ==> exists|j: int| 0 <= j < out@.len() && out@[j].opcode == p,
            decreases DECODE_TABLE_SIZE - o,
        {
            let executions = self.decoded_mem_counts[o];
            if executions != 0 {
                let ghost before = out@;
                out.push(DecodedMemProfileRow { opcode: o as u16, executions });
                proof {
                    assert forall|p: int| 0 <= p < o + 1 && #[trigger] self.decoded_mem_counts@[p] != 0 implies exists|j: int| 0 <= j < out@.len() && out@[j].opcode == p by {
                        if p == o {
                            assert(out@[before.len() as int].opcode == p);
                        } else {
                            let j = choose|j: int| 0 <= j < before.len() && before[j].opcode == p;
                            assert(out@[j] == before[j]);
                        }
                    }
                }
            }
            o = o + 1;
        }
        out
    }
}

/// Walking the map lists its rows in key order.
proof fn lemma_iteration_listed(
    rows: Map<(u32, u32), Row>,
    rem: Seq<(&(u32, u32), &Row)>,
    es: Seq<((u32, u32), Row)>,
)
    requires
        rem.len() == rows.dom().len(),
        forall|i: int| 0 <= i < rem.len() ==> rows.contains_key(*rem[i].0) && rows[*rem[i].0] == *rem[i].1,
        vstd::std_specs::btree::increasing_seq(rem.map_values(|kv: (&(u32, u32), &Row)| *kv.0)),
        es == rem.map_values(|kv: (&(u32, u32), &Row)| (*kv.0, *kv.1)),
    ensures
        listed(rows, es),
{
    broadcast use vstd::std_specs::btree::axiom_increasing_seq_meaning;
    lemma_key_order();
    let keys = rem.map_values(|kv: (&(u32, u32), &Row)| *kv.0);
    assert forall|i: int| 0 <= i < es.len() implies rows.contains_key(#[trigger] es[i].0) && rows[es[i].0] == es[i].1 by {
        assert(es[i] == (*rem[i].0, *rem[i].1));
    }
    assert forall|i: int, j: int| 0 <= i < j < es.len() implies key_lt(#[trigger] es[i].0, #[trigger] es[j].0) by {
        assert(keys[i].cmp_spec(&keys[j]) is Less);
        lemma_pair_less(keys[i], keys[j]);
    }
}

/// `ss` lists the site counts of `sites`, each key once.
pub open spec fn sites_listed(sites: Map<u64, u64>, ss: Seq<(u64, u64)>) -> bool {
    &&& ss.len() == sites.dom().len()
    &&& forall|i: int| 0 <= i < ss.len() ==> sites.contains_key(#[trigger] ss[i].0) && sites[ss[i].0] == ss[i].1
    &&& forall|i: int, j: int| 0 <= i < j < ss.len() ==> (#[trigger] ss[i]).0 != (#[trigger] ss[j]).0
}

/// Walking the site map lists each of its counts once.
proof fn lemma_sites_listed(sites: Map<u64, u64>, rem: Seq<(&u64, &u64)>, ss: Seq<(u64, u64)>)
    requires
        rem.len() == sites.dom().len(),
        forall|i: int| 0 <= i < rem.len() ==> sites.contains_key(*rem[i].0) && sites[*rem[i].0] == *rem[i].1,
        rem.no_duplicates(),
        ss == rem.map_values(|kv: (&u64, &u64)| (*kv.0, *kv.1)),
    ensures
        sites_listed(sites, ss),
{
    assert forall|i: int| 0 <= i < ss.len() implies sites.contains_key(#[trigger] ss[i].0) && sites[ss[i].0] == ss[i].1 by {
        assert(ss[i] == (*rem[i].0, *rem[i].1));
    }
    assert forall|i: int, j: int| 0 <= i < j < ss.len() implies (#[trigger] ss[i]).0 != (#[trigger] ss[j]).0 by {
        assert(ss[i] == (*rem[i].0, *rem[i].1));
        assert(ss[j] == (*rem[j].0, *rem[j].1));
        if ss[i].0 == ss[j].0 {
            assert(rem[i] == rem[j]);
        }
    }
}

/// Totals of a prefix grow by the next row.
proof fn lemma_totals_prefix(rows: Seq<((u32, u32), Row)>, n: int)
    requires
        0 < n <= rows.len(),
    ensures
        totals(rows.subrange(0, n)) == ({
            let t = totals(rows.subrange(0, n - 1));
            let r = rows[n - 1].1;
            (t.0 + r.backward_hits, t.1 + r.rejected_hits, t.2 + r.native_calls, t.3 + r.jit_retired)
        }),
{
    assert(rows.subrange(0, n).drop_last() =~= rows.subrange(0, n - 1));
}

/// Totals of a prefix are at most those of the whole.
proof fn lemma_totals_mono(rows: Seq<((u32, u32), Row)>, n: int)
    requires
        0 <= n <= rows.len(),
    ensures
        totals(rows.subrange(0, n)).0 <= totals(rows).0,
        totals(rows.subrange(0, n)).1 <= totals(rows).1,
        totals(rows.subrange(0, n)).2 <= totals(rows).2,
        totals(rows.subrange(0, n)).3 <= totals(rows).3,
    decreases rows.len() - n,
{
    if n < rows.len() {
        lemma_totals_mono(rows, n + 1);
        lemma_totals_prefix(rows, n + 1);
    } else {
        assert(rows.subrange(0, n) =~= rows);
    }
}

// ----- report orders ------------------------------------------------------------------------

/// The projected dispatches of a row.
pub open spec fn projected_spec(r: TraceProfileRow) -> u64 {
    sat_mul(r.rejected_hits, r.prefix_ops as u64)
}

/// `b` against `a`: larger values first.
pub open spec fn larger_first(a: u64, b: u64) -> Ordering {
    if a > b {
        Ordering::Less
    } else if a < b {
        Ordering::Greater
    } else {
        Ordering::Equal
    }
}

/// `a` against `b`: smaller addresses first.
pub open spec fn smaller_first(a: u32, b: u32) -> Ordering {
    if a < b {
        Ordering::Less
    } else if a > b {
        Ordering::Greater
    } else {
        Ordering::Equal
    }
}

/// `a` against `b`: smaller opcodes first.
pub open spec fn smaller_opcode_first(a: u16, b: u16) -> Ordering {
    if a < b {
        Ordering::Less
    } else if a > b {
        Ordering::Greater
    } else {
        Ordering::Equal
    }
}

/// The first decisive comparison.
pub open spec fn then_order(first: Ordering, second: Ordering) -> Ordering {
    if first == Ordering::Equal {
        second
    } else {
        first
    }
}

fn larger_first_exec(a: u64, b: u64) -> (r: Ordering)
    ensures
        r == larger_first(a, b),
{
    if a > b {
        Ordering::Less
    } else if a < b {
        Ordering::Greater
    } else {
        Ordering::Equal
    }
}

fn smaller_first_exec(a: u32, b: u32) -> (r: Ordering)
    ensures
        r == smaller_first(a, b),
{
    if a < b {
        Ordering::Less
    } else if a > b {
        Ordering::Greater
    } else {
        Ordering::Equal
    }
}

fn smaller_opcode_first_exec(a: u16, b: u16) -> (r: Ordering)
    ensures
        r == smaller_opcode_first(a, b),
{
    if a < b {
        Ordering::Less
    } else if a > b {
        Ordering::Greater
    } else {
        Ordering::Equal
    }
}

fn then_exec(first: Ordering, second: Ordering) -> (r: Ordering)
    ensures
        r == then_order(first, second),
{
    match first {
        Ordering::Equal => second,
        _ => first,
    }
}

/// Opportunity rank: most projected dispatches first, then most backward
/// hits, then lowest head address.
pub fn compare_opportunity(a: &TraceProfileRow, b: &TraceProfileRow) -> (r: Ordering)
    ensures
        r == then_order(
            larger_first(projected_spec(*a), projected_spec(*b)),
            then_order(larger_first(a.backward_hits, b.backward_hits), smaller_first(a.start_pc, b.start_pc)),
        ),
{
    let pa = a.projected_dispatches();
    let pb = b.projected_dispatches();
    then_exec(
        larger_first_exec(pa, pb),
        then_exec(larger_first_exec(a.backward_hits, b.backward_hits), smaller_first_exec(a.start_pc, b.start_pc)),
    )
}

/// Compiled-trace rank: most retired instructions first, then most calls,
/// then lowest head address.
pub fn compare_retired(a: &TraceProfileRow, b: &TraceProfileRow) -> (r: Ordering)
    ensures
        r == then_order(
            larger_first(a.jit_retired, b.jit_retired),
            then_order(larger_first(a.native_calls, b.native_calls), smaller_first(a.start_pc, b.start_pc)),
        ),
{
    then_exec(
        larger_first_exec(a.jit_retired, b.jit_retired),
        then_exec(larger_first_exec(a.native_calls, b.native_calls), smaller_first_exec(a.start_pc, b.start_pc)),
    )
}

/// Opcode rank: most executions first, then lowest opcode.
pub fn compare_decoded_ops(a: &DecodedMemProfileRow, b: &DecodedMemProfileRow) -> (r: Ordering)
    ensures
        r == then_order(larger_first(a.executions, b.executions), smaller_opcode_first(a.opcode, b.opcode)),
{
    then_exec(larger_first_exec(a.executions, b.executions), smaller_opcode_first_exec(a.opcode, b.opcode))
}

/// Site rank: most executions first, then lowest address, then lowest
/// opcode.
pub fn compare_sites(a: &DecodedMemSiteProfileRow, b: &DecodedMemSiteProfileRow) -> (r: Ordering)
    ensures
        r == then_order(
            larger_first(a.executions, b.executions),
            then_order(smaller_first(a.pc, b.pc), smaller_opcode_first(a.opcode, b.opcode)),
        ),
{
    then_exec(
        larger_first_exec(a.executions, b.executions),
        then_exec(smaller_first_exec(a.pc, b.pc), smaller_opcode_first_exec(a.opcode, b.opcode)),
    )
}

} // verus!
