use m68k::addressing::AddressingMode;
use m68k::engine::{exact_instrs_from_counter, fresh_cpu, EngineState};
use m68k::workloads::SSP;
use m68k::workloads::{all, build_image, fnv1a, post_reset_patch, Code, CODE_BASE, MEM_SIZE};

#[test]
fn workload_table_has_exact_repeat_units() {
    let ws = all();
    assert_eq!(ws.len(), 8);
    assert_eq!(ws[0].name, "linear NOP");
    assert_eq!(ws[6].name, "memcpy 4KB");
    assert_eq!(ws[6].target_instrs(), 6_000 * 2053);
    assert_eq!(ws[3].target_instrs(), 30_000_000);
    assert_eq!(ws[2].count_reg.as_ref().map(|c| c.reg), Some(0));
    assert!(ws[4].count_reg.is_none());
}

#[test]
fn image_holds_reset_vectors_and_code() {
    let ws = all();
    let img = build_image(&ws[3]);
    assert_eq!(img.len(), MEM_SIZE);
    assert_eq!(&img[0..4], &[0x00, 0x80, 0x00, 0x00]);
    assert_eq!(&img[4..8], &[0x00, 0x00, 0x10, 0x00]);
    let at = CODE_BASE as usize;
    assert_eq!(&img[at..at + 4], &[0x52, 0x80, 0x60, 0xFC]);
    assert_eq!(img[at + 4], 0);
    assert!(post_reset_patch(&ws[3]).is_none());
}

#[test]
fn filled_image_repeats_the_opcode() {
    let ws = all();
    let img = build_image(&ws[1]);
    assert!(matches!(ws[1].code, Code::Fill(0x7001)));
    assert_eq!(&img[8..12], &[0x70, 0x01, 0x70, 0x01]);
    assert_eq!(&img[MEM_SIZE - 2..], &[0x70, 0x01]);
    assert_eq!(post_reset_patch(&ws[1]), Some([0x70, 0x01, 0x70, 0x01, 0x70, 0x01, 0x70, 0x01]));
}

#[test]
fn memory_hash_folds_each_byte_into_the_state() {
    // The offset basis, then one xor-multiply round per byte with the
    // multiplier 0x1_0000_01b3.
    assert_eq!(fnv1a(&[]), 0xcbf2_9ce4_8422_2325);
    assert_eq!(fnv1a(b"a"), 0x1162_bb90_8601_ec8c);
    assert_eq!(fnv1a(b"foobar"), 0x3fef_ab5e_f739_67e8);
}

#[test]
fn addressing_modes_decode_from_mode_and_register() {
    assert_eq!(AddressingMode::decode(0, 3), Some(AddressingMode::DataRegister(3)));
    assert_eq!(AddressingMode::decode(3, 7), Some(AddressingMode::AddressPostIncrement(7)));
    assert_eq!(AddressingMode::decode(7, 1), Some(AddressingMode::AbsoluteLong));
    assert_eq!(AddressingMode::decode(7, 4), Some(AddressingMode::Immediate));
    assert_eq!(AddressingMode::decode(7, 5), None);
    assert_eq!(AddressingMode::decode(8, 0), None);
}

#[test]
fn fresh_cpu_applies_the_workload_setup() {
    let ws = all();
    let cpu = fresh_cpu(&ws[5]);
    assert_eq!(cpu.d(0), 3);
    assert_eq!(cpu.d(1), 2);
    assert_eq!(cpu.d(2), 0);
    assert_eq!(cpu.a(7), SSP);
    assert_eq!(cpu.pc, CODE_BASE);
    assert_eq!(cpu.get_sr(), 0x2700);
}

#[test]
fn counter_register_gives_exact_instruction_count() {
    let ws = all();
    let state = EngineState { d: [7, 3, 0, 0, 0, 0, 0, 0], mem_hash: 0 };
    assert_eq!(exact_instrs_from_counter(&ws[3], &state), Some(14));
    assert_eq!(exact_instrs_from_counter(&ws[4], &state), None);
    assert_eq!(exact_instrs_from_counter(&ws[6], &state), Some(3 * 2053));
}

#[test]
fn register_fields_keep_their_low_three_bits() {
    assert_eq!(AddressingMode::decode(0, 9), Some(AddressingMode::DataRegister(1)));
    assert_eq!(AddressingMode::decode(6, 15), Some(AddressingMode::AddressIndex(7)));
    assert_eq!(AddressingMode::decode(7, 9), None);
}
