use userapputil::elf2ble::{ElfToBle, LayoutError, SectionKind};
use userapputil::image::{Image, Section};

fn section(name: &str, addr: u64, size: u64, data: Vec<u8>) -> Section {
    Section { name: String::from(name), addr, size, data }
}

fn device() -> ElfToBle {
    ElfToBle {
        text_addr: 0x2003F800,
        text_len: 0x800,
        data_addr: 0x2003F000,
        data_len: 0x800,
    }
}

fn magic_data(extra: &[u8]) -> Vec<u8> {
    let mut d = vec![0x98u8, 0x11, 0x04, 0x00];
    d.extend_from_slice(extra);
    d
}

fn good_image() -> Image {
    Image {
        sections: vec![
            section(".text", 0x2003F800, 16, vec![7u8; 16]),
            section(".data", 0x2003F000, 8, magic_data(&[1, 2, 3, 4])),
        ],
    }
}

#[test]
fn accepts_well_placed_image() {
    assert_eq!(device().validate(&good_image()), Ok(()));
}

#[test]
fn rejects_text_at_wrong_address() {
    let img = Image {
        sections: vec![
            section(".text", 0x2003F804, 16, vec![7u8; 16]),
            section(".data", 0x2003F000, 8, magic_data(&[1, 2, 3, 4])),
        ],
    };
    assert_eq!(
        device().validate(&img),
        Err(LayoutError::IncorrectSectionLocation {
            section: SectionKind::Text,
            expected_addr: 0x2003F800,
        })
    );
}

#[test]
fn rejects_text_too_large() {
    let img = Image {
        sections: vec![
            section(".text", 0x2003F800, 0x801, vec![7u8; 0x801]),
            section(".data", 0x2003F000, 8, magic_data(&[1, 2, 3, 4])),
        ],
    };
    assert_eq!(
        device().validate(&img),
        Err(LayoutError::SectionTooLarge { section: SectionKind::Text, max_len: 0x800 })
    );
}

#[test]
fn rejects_missing_text() {
    let img = Image {
        sections: vec![section(".data", 0x2003F000, 8, magic_data(&[1, 2, 3, 4]))],
    };
    assert_eq!(
        device().validate(&img),
        Err(LayoutError::MissingSection { section: SectionKind::Text })
    );
}

#[test]
fn rejects_missing_data() {
    let img = Image {
        sections: vec![section(".text", 0x2003F800, 16, vec![7u8; 16])],
    };
    assert_eq!(
        device().validate(&img),
        Err(LayoutError::MissingSection { section: SectionKind::Data })
    );
}

#[test]
fn rejects_wrong_magic() {
    let img = Image {
        sections: vec![
            section(".text", 0x2003F800, 16, vec![7u8; 16]),
            section(".data", 0x2003F000, 8, vec![0x99, 0x11, 0x04, 0x00, 1, 2, 3, 4]),
        ],
    };
    assert_eq!(device().validate(&img), Err(LayoutError::MissingMagicNumber));
}

#[test]
fn rejects_short_data_as_missing_magic() {
    let img = Image {
        sections: vec![
            section(".text", 0x2003F800, 16, vec![7u8; 16]),
            section(".data", 0x2003F000, 3, vec![0x98, 0x11, 0x04]),
        ],
    };
    assert_eq!(device().validate(&img), Err(LayoutError::MissingMagicNumber));
}

#[test]
fn rejects_bss_outside_data_region() {
    let img = Image {
        sections: vec![
            section(".text", 0x2003F800, 16, vec![7u8; 16]),
            section(".bss", 0x2003E000, 8, vec![]),
            section(".data", 0x2003F000, 8, magic_data(&[1, 2, 3, 4])),
        ],
    };
    assert_eq!(
        device().validate(&img),
        Err(LayoutError::IncorrectSectionLocation {
            section: SectionKind::Bss,
            expected_addr: 0x2003F000,
        })
    );
}

#[test]
fn rejects_bss_overrunning_data_region() {
    let img = Image {
        sections: vec![
            section(".text", 0x2003F800, 16, vec![7u8; 16]),
            section(".bss", 0x2003F400, 0x500, vec![]),
            section(".data", 0x2003F000, 8, magic_data(&[1, 2, 3, 4])),
        ],
    };
    assert_eq!(
        device().validate(&img),
        Err(LayoutError::SectionTooLarge { section: SectionKind::Bss, max_len: 0x800 })
    );
}

#[test]
fn accepts_bss_inside_data_region() {
    let img = Image {
        sections: vec![
            section(".text", 0x2003F800, 16, vec![7u8; 16]),
            section(".bss", 0x2003F400, 0x100, vec![]),
            section(".data", 0x2003F000, 8, magic_data(&[1, 2, 3, 4])),
        ],
    };
    assert_eq!(device().validate(&img), Ok(()));
}

#[test]
fn rejects_data_outside_region() {
    let img = Image {
        sections: vec![
            section(".text", 0x2003F800, 16, vec![7u8; 16]),
            section(".data", 0x2003E000, 8, magic_data(&[1, 2, 3, 4])),
        ],
    };
    assert_eq!(
        device().validate(&img),
        Err(LayoutError::IncorrectSectionLocation {
            section: SectionKind::Data,
            expected_addr: 0x2003F000,
        })
    );
}
