//! The firmware-side decision logic: CRC32C, little-endian readers, PS/2
//! operations, and the A20 enablement state machine.

use fzboot::a20::{
    enable_a20, fast_gate_enable_value, kb_enable_epilogue, kb_enable_preamble, A20Action,
    A20Stage,
};
use fzboot::bytes::{push_le32, read_le16, read_le32, read_le64};
use fzboot::crc32c::crc32c_calc;
use fzboot::extent::{ExtentBlock, ExtentHeader};
use fzboot::ps2::{input_buffer_clear, output_buffer_full, read_ps2, send_data, send_ps2, Ps2Op};

#[test]
fn crc32c_check_value() {
    // The CRC32C of the digits "123456789" is the classic check value.
    let data: Vec<u8> = b"123456789".to_vec();
    assert_eq!(crc32c_calc(&data), 0xE3069283);
    assert_eq!(crc32c_calc(&Vec::new()), 0);
    let zero: Vec<u8> = vec![0];
    assert_eq!(crc32c_calc(&zero), 0x527D5351);
}

#[test]
fn little_endian_readers() {
    let v: Vec<u8> = vec![0x78, 0x56, 0x34, 0x12, 0xEF, 0xBE, 0xAD, 0xDE];
    assert_eq!(read_le16(&v, 0), 0x5678);
    assert_eq!(read_le32(&v, 0), 0x12345678);
    assert_eq!(read_le32(&v, 4), 0xDEADBEEF);
    assert_eq!(read_le64(&v, 0), 0xDEADBEEF_12345678);
    let mut out: Vec<u8> = Vec::new();
    push_le32(&mut out, 0x12345678);
    assert_eq!(out, vec![0x78, 0x56, 0x34, 0x12]);
}

#[test]
fn header_load_checks_the_magic() {
    let good: Vec<u8> = vec![0x0A, 0xF3, 2, 0, 4, 0, 1, 0, 9, 0, 0, 0];
    let h = ExtentHeader::load(&good).unwrap();
    assert_eq!(h.magic, 0xF30A);
    assert_eq!(h.entries, 2);
    assert_eq!(h.max, 4);
    assert_eq!(h.depth.0, 1);
    assert_eq!(h.generation, 9);
    assert!(!h.is_leaf());
    let bad: Vec<u8> = vec![0x34, 0x12, 2, 0, 4, 0, 1, 0, 9, 0, 0, 0];
    assert!(ExtentHeader::load(&bad).is_none());
}

#[test]
fn extent_block_accessors() {
    let mut node: Vec<u8> = vec![0x0A, 0xF3, 1, 0, 4, 0, 0, 0, 0, 0, 0, 0];
    // One leaf record: logical 3, length 2, physical 0x0001_00000005.
    node.extend_from_slice(&[3, 0, 0, 0, 2, 0, 1, 0, 5, 0, 0, 0]);
    let block = ExtentBlock(node);
    let h = block.get_header();
    assert!(h.is_leaf());
    let e = block.get_entry_bytes(0).unwrap().as_extent();
    assert_eq!(e.block, 3);
    assert_eq!(e.len.0, 2);
    assert_eq!(e.start_blk(), 0x1_0000_0005);
    assert!(e.contains(3));
    assert!(e.contains(4));
    assert!(!e.contains(5));
    assert!(block.get_entry_bytes(1).is_none());
}

#[test]
fn checksum_validation_matches_the_domain() {
    let body: Vec<u8> = vec![7u8; 28];
    let uuid: Vec<u8> = vec![9u8; 16];
    let mut domain: Vec<u8> = Vec::new();
    domain.extend_from_slice(&uuid);
    push_le32(&mut domain, 12);
    push_le32(&mut domain, 34);
    domain.extend_from_slice(&body);
    let tail = crc32c_calc(&domain);
    let mut block_bytes = body.clone();
    push_le32(&mut block_bytes, tail);
    let block = ExtentBlock(block_bytes);
    assert!(block.validate_chksum(&uuid, 12, 34));
    assert!(!block.validate_chksum(&uuid, 12, 35));
    let mut damaged = body;
    damaged[0] ^= 0x80;
    push_le32(&mut damaged, tail);
    assert!(!ExtentBlock(damaged).validate_chksum(&uuid, 12, 34));
}

#[test]
fn ps2_operations_are_the_right_ports() {
    assert_eq!(send_data(0x5A), Ps2Op::WriteData(0x5A));
    assert_eq!(send_ps2(0xAD), Ps2Op::WriteCommand(0xAD));
    assert_eq!(read_ps2(), Ps2Op::ReadData);
    assert!(input_buffer_clear(0x00));
    assert!(!input_buffer_clear(0x02));
    assert!(output_buffer_full(0x01));
    assert!(!output_buffer_full(0x00));
}

#[test]
fn a20_machine_succeeds_on_first_check() {
    assert_eq!(enable_a20(A20Stage::Initial, true), (A20Stage::Enabled, None));
}

#[test]
fn a20_machine_walks_every_method_then_fails() {
    let (s1, a1) = enable_a20(A20Stage::Initial, false);
    assert_eq!((s1, a1), (A20Stage::BiosTried, Some(A20Action::RunBios)));
    let (s2, a2) = enable_a20(s1, false);
    assert_eq!((s2, a2), (A20Stage::KeyboardTried, Some(A20Action::RunKeyboard)));
    let (s3, a3) = enable_a20(s2, false);
    assert_eq!((s3, a3), (A20Stage::FastGateTried, Some(A20Action::RunFastGate)));
    let (s4, a4) = enable_a20(s3, false);
    assert_eq!((s4, a4), (A20Stage::Failed, None));
    assert_eq!(enable_a20(s4, true), (A20Stage::Failed, None));
}

#[test]
fn a20_machine_stops_as_soon_as_a_method_works() {
    let (s1, _) = enable_a20(A20Stage::Initial, false);
    assert_eq!(enable_a20(s1, true), (A20Stage::Enabled, None));
}

#[test]
fn keyboard_sequence_sends_the_documented_commands() {
    let pre = kb_enable_preamble();
    assert_eq!(
        pre,
        vec![
            Ps2Op::WriteCommand(0xAD),
            Ps2Op::WriteCommand(0xD0),
            Ps2Op::ReadData,
        ]
    );
    let post = kb_enable_epilogue(0xD4);
    assert_eq!(
        post,
        vec![
            Ps2Op::WriteCommand(0xD1),
            Ps2Op::WriteData(0xD6),
            Ps2Op::WriteCommand(0xAE),
        ]
    );
}

#[test]
fn pic_acknowledgement_reaches_both_controllers() {
    let ops = fzboot::irq::_pic_eoi();
    assert_eq!(ops.len(), 2);
    assert_eq!(ops[0], fzboot::irq::PortWrite { port: 0x20, value: 0x20 });
    assert_eq!(ops[1], fzboot::irq::PortWrite { port: 0xA0, value: 0x20 });
}

#[test]
fn fast_gate_sets_bit_one() {
    assert_eq!(fast_gate_enable_value(0x00), 0x02);
    assert_eq!(fast_gate_enable_value(0xFD), 0xFF);
    assert_eq!(fast_gate_enable_value(0x02), 0x02);
}
