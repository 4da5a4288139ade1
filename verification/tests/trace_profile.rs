use m68k::trace_profile::{
    compare_decoded_ops, compare_opportunity, cpu_type_from_repr, TraceProfile, TraceProfileRow,
};
use m68k::types::CpuType;

#[test]
fn report_ranks_stranded_dispatches_not_raw_hits() {
    let mut p = TraceProfile::new();
    p.note_backward_edge(0x100, CpuType::M68040, true);
    p.note_blocker(0x100, CpuType::M68040, 2, 0x104, 0x4ead);
    for _ in 0..3 {
        p.note_backward_edge(0x200, CpuType::M68040, true);
    }
    p.note_blocker(0x200, CpuType::M68040, 1, 0x202, 0x486d);

    let snap = p.snapshot();
    // Rows come out in head order.
    assert_eq!(snap.rows[0].start_pc, 0x100);
    assert_eq!(snap.rows[1].start_pc, 0x200);
    assert_eq!(snap.rows[0].projected_dispatches(), 2);
    assert_eq!(snap.rows[1].projected_dispatches(), 3);
    let mut ranked = snap.rows.clone();
    ranked.sort_unstable_by(compare_opportunity);
    assert_eq!(ranked[0].start_pc, 0x200);
    assert_eq!(ranked[1].start_pc, 0x100);
    assert_eq!(snap.backward_hits, 4);
    assert_eq!(snap.rejected_hits, 4);
}

#[test]
fn blocker_keeps_the_longest_prefix() {
    let mut p = TraceProfile::new();
    p.note_blocker(0x100, CpuType::M68020, 3, 0x106, 0x0640);
    p.note_blocker(0x100, CpuType::M68020, 1, 0x102, 0x4e75);
    let snap = p.snapshot();
    assert_eq!(snap.rows.len(), 1);
    assert_eq!(snap.rows[0].prefix_ops, 3);
    assert_eq!(snap.rows[0].blocker_pc, Some(0x106));
    assert_eq!(snap.rows[0].blocker_opcode, Some(0x0640));
    assert_eq!(snap.rows[0].cpu_type, CpuType::M68020);
}

#[test]
fn report_ranks_decoded_memory_opcodes_by_execution_count() {
    let mut p = TraceProfile::new();
    p.note_decoded_mem(0x1000, 0x20d9);
    p.note_decoded_mem(0x1002, 0x10dc);
    p.note_decoded_mem(0x1000, 0x20d9);

    let snap = p.snapshot();
    assert_eq!(snap.decoded_mem_ops.len(), 2);
    // Opcode order in the snapshot, execution order when ranked.
    assert_eq!(snap.decoded_mem_ops[0].opcode, 0x10dc);
    assert_eq!(snap.decoded_mem_ops[1].opcode, 0x20d9);
    let mut ranked = snap.decoded_mem_ops.clone();
    ranked.sort_unstable_by(compare_decoded_ops);
    assert_eq!(ranked[0].opcode, 0x20d9);
    assert_eq!(ranked[0].executions, 2);
    let site = snap
        .decoded_mem_sites
        .iter()
        .find(|s| s.pc == 0x1000 && s.opcode == 0x20d9)
        .unwrap();
    assert_eq!(site.executions, 2);
    assert_eq!(snap.decoded_mem_sites.len(), 2);
    let total: u64 = snap.decoded_mem_ops.iter().map(|r| r.executions).sum();
    assert_eq!(total, 3);
}

#[test]
fn native_calls_accumulate_retired_instructions() {
    let mut p = TraceProfile::new();
    p.note_compiled(0x300, CpuType::M68040, 4);
    p.note_native_call(0x300, CpuType::M68040, 10);
    p.note_native_call(0x300, CpuType::M68040, 6);
    p.note_guarded_branch_exit(0x300, CpuType::M68040);
    p.note_adaptive_rerecord(0x300, CpuType::M68040);
    p.note_recording(0x300, CpuType::M68040);
    let snap = p.snapshot();
    let row: &TraceProfileRow = &snap.rows[0];
    assert_eq!(row.compiled_ops, 4);
    assert_eq!(row.native_calls, 2);
    assert_eq!(row.jit_retired, 16);
    assert_eq!(row.guarded_branch_exits, 1);
    assert_eq!(row.adaptive_rerecords, 1);
    assert_eq!(row.recording_attempts, 1);
    assert_eq!(snap.native_calls, 2);
    assert_eq!(snap.jit_retired, 16);
}

#[test]
fn model_numbers_read_back() {
    assert_eq!(cpu_type_from_repr(1), CpuType::M68000);
    assert_eq!(cpu_type_from_repr(10), CpuType::SCC68070);
    assert_eq!(cpu_type_from_repr(0), CpuType::Invalid);
    assert_eq!(cpu_type_from_repr(99), CpuType::Invalid);
}

#[test]
fn projected_dispatches_saturate() {
    let mut p = TraceProfile::new();
    p.note_blocker(0x100, CpuType::M68000, 0xFFFF_FFFF, 0x102, 0x4e71);
    p.note_backward_edge(0x100, CpuType::M68000, true);
    let snap = p.snapshot();
    assert_eq!(snap.rows[0].projected_dispatches(), 0xFFFF_FFFF);
    let mut row = snap.rows[0].clone();
    row.rejected_hits = u64::MAX;
    assert_eq!(row.projected_dispatches(), u64::MAX);
}

#[test]
fn fresh_profile_reports_nothing() {
    let snap = TraceProfile::new().snapshot();
    assert!(snap.rows.is_empty());
    assert!(snap.decoded_mem_ops.is_empty());
    assert!(snap.decoded_mem_sites.is_empty());
    assert_eq!(snap.backward_hits, 0);
    assert_eq!(snap.rejected_hits, 0);
    assert_eq!(snap.native_calls, 0);
    assert_eq!(snap.jit_retired, 0);
}
