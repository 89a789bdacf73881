use krankulator_core::loader::{detect_region, detect_region_with_filename, Region, INES_HEADER_SIZE, NES2_DETECT_VALUE};

#[test]
fn test_detect_region_ines1_ntsc() {
    let mut bytes = vec![0u8; INES_HEADER_SIZE];
    bytes[0..4].copy_from_slice(b"NES\x1A");
    bytes[9] = 0x00;
    assert_eq!(detect_region(&bytes), Region::Ntsc);
}

#[test]
fn test_detect_region_ines1_pal() {
    let mut bytes = vec![0u8; INES_HEADER_SIZE];
    bytes[0..4].copy_from_slice(b"NES\x1A");
    bytes[9] = 0x01;
    assert_eq!(detect_region(&bytes), Region::Pal);
}

#[test]
fn test_detect_region_nes2_ntsc() {
    let mut bytes = vec![0u8; INES_HEADER_SIZE];
    bytes[0..4].copy_from_slice(b"NES\x1A");
    bytes[7] = NES2_DETECT_VALUE;
    bytes[12] = 0x00;
    assert_eq!(detect_region(&bytes), Region::Ntsc);
}

#[test]
fn test_detect_region_nes2_pal() {
    let mut bytes = vec![0u8; INES_HEADER_SIZE];
    bytes[0..4].copy_from_slice(b"NES\x1A");
    bytes[7] = NES2_DETECT_VALUE;
    bytes[12] = 0x01;
    assert_eq!(detect_region(&bytes), Region::Pal);
}

#[test]
fn test_detect_region_short_header() {
    assert_eq!(detect_region(&[0; 4]), Region::Ntsc);
}

#[test]
fn test_detect_region_filename_europe() {
    let mut bytes = vec![0u8; INES_HEADER_SIZE];
    bytes[0..4].copy_from_slice(b"NES\x1A");
    bytes[9] = 0x00;
    assert_eq!(
        detect_region_with_filename(&bytes, Some("Super Mario Bros (E).nes")),
        Region::Pal
    );
    assert_eq!(
        detect_region_with_filename(&bytes, Some("Game (Europe).nes")),
        Region::Pal
    );
    assert_eq!(
        detect_region_with_filename(&bytes, Some("Game (PAL).nes")),
        Region::Pal
    );
}

#[test]
fn test_detect_region_filename_no_match() {
    let mut bytes = vec![0u8; INES_HEADER_SIZE];
    bytes[0..4].copy_from_slice(b"NES\x1A");
    bytes[9] = 0x00;
    assert_eq!(
        detect_region_with_filename(&bytes, Some("Game (U).nes")),
        Region::Ntsc
    );
}

#[test]
fn test_detect_region_header_overrides_filename() {
    let mut bytes = vec![0u8; INES_HEADER_SIZE];
    bytes[0..4].copy_from_slice(b"NES\x1A");
    bytes[7] = NES2_DETECT_VALUE;
    bytes[12] = 0x00;
    assert_eq!(
        detect_region_with_filename(&bytes, Some("Game (E).nes")),
        Region::Ntsc
    );
}

