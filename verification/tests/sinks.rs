use userapputil::bleak::{Bleak, CONCLUSION, PRELUDE};
use userapputil::elf2ble::{BleCommand, OutputFormat};
use userapputil::uploader::wire_instruction;

#[test]
fn wire_format_of_each_command() {
    assert_eq!(wire_instruction(&BleCommand::Start), vec![2u8]);
    assert_eq!(
        wire_instruction(&BleCommand::Write { offset: 0x1234, data: vec![0xaa, 0xbb] }),
        vec![3u8, 0x34, 0x12, 0xaa, 0xbb]
    );
    assert_eq!(
        wire_instruction(&BleCommand::Commit { crc: 0xBEEF }),
        vec![4u8, 0xef, 0xbe]
    );
    assert_eq!(
        wire_instruction(&BleCommand::Run { crc: 0x0102 }),
        vec![5u8, 0x02, 0x01]
    );
}

#[test]
fn script_renders_entries_between_preamble_and_postamble() {
    let mut sink = Bleak::new();
    sink.write_cmd(&BleCommand::Start).unwrap();
    sink.write_cmd(&BleCommand::Write { offset: 1, data: vec![0xab] }).unwrap();
    sink.write_cmd(&BleCommand::Commit { crc: 0x1234 }).unwrap();
    let script = sink.finish().unwrap();

    let mut expected = String::from(PRELUDE);
    expected.push_str("  [2],\n");
    expected.push_str("  [3, 0x01, 0x00, 0xab, ],\n");
    expected.push_str("  [4, 0x34, 0x12],");
    expected.push_str(CONCLUSION);
    assert_eq!(script, expected);
}

#[test]
fn script_round_trips_through_a_parse_of_the_literal_list() {
    let cmds = vec![
        BleCommand::Start,
        BleCommand::Write { offset: 0x0800, data: vec![0x00, 0x7f, 0xff] },
        BleCommand::Run { crc: 0xA55A },
    ];
    let mut sink = Bleak::new();
    for c in &cmds {
        let copy = match c {
            BleCommand::Start => BleCommand::Start,
            BleCommand::Write { offset, data } => {
                BleCommand::Write { offset: *offset, data: data.clone() }
            }
            BleCommand::Commit { crc } => BleCommand::Commit { crc: *crc },
            BleCommand::Run { crc } => BleCommand::Run { crc: *crc },
        };
        sink.write_cmd(&copy).unwrap();
    }
    let script = sink.finish().unwrap();

    // Extract the embedded literal list and parse each entry back.
    let body = script
        .strip_prefix(PRELUDE)
        .and_then(|rest| rest.strip_suffix(CONCLUSION))
        .expect("script framed by preamble and postamble");
    let mut parsed: Vec<Vec<u8>> = Vec::new();
    for entry in body.split("],") {
        let entry = entry.trim();
        if entry.is_empty() {
            continue;
        }
        let inner = entry.strip_prefix('[').expect("entry opens a list");
        let mut values: Vec<u8> = Vec::new();
        for tok in inner.split(',') {
            let tok = tok.trim();
            if tok.is_empty() {
                continue;
            }
            let v = if let Some(hex) = tok.strip_prefix("0x") {
                u8::from_str_radix(hex, 16).expect("hex literal")
            } else {
                tok.parse::<u8>().expect("decimal literal")
            };
            values.push(v);
        }
        parsed.push(values);
    }

    let expected: Vec<Vec<u8>> = cmds.iter().map(wire_instruction).collect();
    assert_eq!(parsed, expected);
}

#[test]
fn empty_script_is_postamble_alone() {
    let sink = Bleak::new();
    let script = sink.finish().unwrap();
    assert_eq!(script, String::from(CONCLUSION));
}

#[test]
fn script_sink_budget_is_smaller_than_direct_budget() {
    let bleak = Bleak::new();
    let direct = userapputil::uploader::BleOutput::new();
    assert_eq!(bleak.mtu(), 120);
    assert_eq!(direct.mtu(), 124);
}
