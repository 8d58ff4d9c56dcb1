use userapputil::crc::crc16_update;
use userapputil::elf2ble::ElfToBle;
use userapputil::image::{Image, Section};
use userapputil::read_le32;
use userapputil::uploader::BleOutput;

/// An independent CRC-16/CCITT-FALSE: poly 0x1021, init 0xFFFF, no final xor.
fn reference_crc16(data: &[u8]) -> u16 {
    let mut c: u16 = 0xFFFF;
    for &b in data {
        c ^= (b as u16) << 8;
        for _ in 0..8 {
            c = if c & 0x8000 != 0 { (c << 1) ^ 0x1021 } else { c << 1 };
        }
    }
    c
}

fn section(name: &str, addr: u64, size: u64, data: Vec<u8>) -> Section {
    Section { name: String::from(name), addr, size, data }
}

fn device() -> ElfToBle {
    ElfToBle {
        text_addr: 0x2003F800,
        text_len: 0x800,
        data_addr: 0x2003F000,
        data_len: 0x800,
    }
}

fn example_image() -> Image {
    // .data: the 4-byte magic marker followed by 4 payload bytes.
    let data = vec![0x98u8, 0x11, 0x04, 0x00, 0xde, 0xad, 0xbe, 0xef];
    let text: Vec<u8> = (0..16u8).collect();
    Image {
        sections: vec![
            section(".text", 0x2003F800, 16, text),
            section(".data", 0x2003F000, 8, data),
        ],
    }
}

#[test]
fn crc16_known_value() {
    // The classic CCITT-FALSE check value over the digits "123456789".
    let digits: Vec<u8> = b"123456789".to_vec();
    assert_eq!(crc16_update(0xFFFF, &digits), 0x29B1);
    assert_eq!(reference_crc16(&digits), 0x29B1);
}

#[test]
fn reads_little_endian_magic() {
    assert_eq!(read_le32(0x98, 0x11, 0x04, 0x00), 0x00041198);
}

#[test]
fn end_to_end_example_stream() {
    let dev = device();
    let img = example_image();
    assert_eq!(dev.validate(&img), Ok(()));
    let writes = dev.generate(&img, BleOutput::new()).unwrap();

    // Start, one write per section (both fit one chunk), one commit.
    assert_eq!(writes.len(), 4);
    assert_eq!(writes[0], vec![2u8]);

    let mut w1 = vec![3u8, 0x00, 0x00];
    w1.extend_from_slice(&[0x98, 0x11, 0x04, 0x00, 0xde, 0xad, 0xbe, 0xef]);
    assert_eq!(writes[1], w1);

    let mut w2 = vec![3u8, 0x00, 0x08];
    w2.extend_from_slice(&(0..16u8).collect::<Vec<u8>>());
    assert_eq!(writes[2], w2);

    // The commit checksum covers all 0x1000 logical bytes, gaps as zeroes.
    let mut logical = vec![0u8; 0x1000];
    logical[..8].copy_from_slice(&[0x98, 0x11, 0x04, 0x00, 0xde, 0xad, 0xbe, 0xef]);
    for (i, b) in (0..16u8).enumerate() {
        logical[0x800 + i] = b;
    }
    let crc = reference_crc16(&logical);
    assert_eq!(writes[3], vec![4u8, (crc & 0xFF) as u8, (crc >> 8) as u8]);
}

#[test]
fn generate_is_deterministic() {
    let dev = device();
    let img = example_image();
    let first = dev.generate(&img, BleOutput::new()).unwrap();
    let second = dev.generate(&img, BleOutput::new()).unwrap();
    assert_eq!(first, second);
}

#[test]
fn chunking_respects_mtu_and_offsets() {
    // A .data section large enough to need several chunks at MTU 124.
    let mut data = vec![0x98u8, 0x11, 0x04, 0x00];
    data.extend((0..700u32).map(|i| (i % 251) as u8));
    let dlen = data.len();
    let text: Vec<u8> = (0..40u8).collect();
    let img = Image {
        sections: vec![
            section(".text", 0x2003F800, 40, text),
            section(".data", 0x2003F000, dlen as u64, data),
        ],
    };
    let dev = device();
    assert_eq!(dev.validate(&img), Ok(()));
    let writes = dev.generate(&img, BleOutput::new()).unwrap();

    let mut last_end: usize = 0;
    let mut saw_commit = false;
    for (i, w) in writes.iter().enumerate() {
        match w[0] {
            2 => assert_eq!(i, 0),
            3 => {
                let off = (w[1] as usize) | ((w[2] as usize) << 8);
                let payload = w.len() - 3;
                // No payload exceeds mtu - 3; 124 is the direct sink's MTU.
                assert!(payload >= 1 && payload <= 124 - 3);
                // Strictly non-decreasing, non-overlapping offsets.
                assert!(off >= last_end);
                last_end = off + payload;
                assert!(last_end <= 0x1000);
            }
            4 => {
                assert_eq!(i, writes.len() - 1);
                saw_commit = true;
            }
            op => panic!("unexpected opcode {op}"),
        }
    }
    assert!(saw_commit);
}

#[test]
fn commit_matches_replayed_writes() {
    // Replaying the writes onto a pre-zeroed buffer gives bytes whose
    // checksum is the one the commit carries.
    let dev = device();
    let img = example_image();
    let writes = dev.generate(&img, BleOutput::new()).unwrap();
    let mut buf = vec![0u8; 0x1000];
    let mut commit_crc: Option<u16> = None;
    for w in &writes {
        match w[0] {
            3 => {
                let off = (w[1] as usize) | ((w[2] as usize) << 8);
                buf[off..off + w.len() - 3].copy_from_slice(&w[3..]);
            }
            4 => commit_crc = Some((w[1] as u16) | ((w[2] as u16) << 8)),
            _ => {}
        }
    }
    assert_eq!(commit_crc, Some(reference_crc16(&buf)));
}

#[test]
fn empty_sections_still_fold_gaps() {
    // An empty .text emits no write for it, but the checksum still covers
    // the whole combined region.
    let img = Image {
        sections: vec![
            section(".text", 0x2003F800, 0, vec![]),
            section(".data", 0x2003F000, 8, vec![0x98, 0x11, 0x04, 0x00, 1, 2, 3, 4]),
        ],
    };
    let dev = device();
    assert_eq!(dev.validate(&img), Ok(()));
    let writes = dev.generate(&img, BleOutput::new()).unwrap();
    assert_eq!(writes.len(), 3);
    let mut logical = vec![0u8; 0x1000];
    logical[..8].copy_from_slice(&[0x98, 0x11, 0x04, 0x00, 1, 2, 3, 4]);
    let crc = reference_crc16(&logical);
    assert_eq!(writes[2], vec![4u8, (crc & 0xFF) as u8, (crc >> 8) as u8]);
}
