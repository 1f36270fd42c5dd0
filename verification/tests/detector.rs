use morgul::detector::SlsDetectorType;

#[test]
fn detector_codes_are_read_back() {
    for code in 0u8..=7 {
        let family = SlsDetectorType::try_from(code).unwrap();
        assert_eq!(family.to_u8(), code);
    }
    assert!(SlsDetectorType::try_from(8u8).is_err());
    assert!(SlsDetectorType::try_from(255u8).is_err());
    assert_eq!(SlsDetectorType::try_from(3u8), Ok(SlsDetectorType::Jungfrau));
}
