use rp1::mailbox::{firmware_version, get_feature, FOURCC_PIO, VERSION_NON_PIO};

#[test]
fn firmware_reports_the_non_pio_version_and_no_feature() {
    assert_eq!(firmware_version(), [0x5250_3100, 0, 0, 0, 0]);
    assert_eq!(firmware_version(), VERSION_NON_PIO);
    assert_eq!(FOURCC_PIO, u32::from_le_bytes(*b"PIO "));
    assert!(get_feature(FOURCC_PIO).is_none());
    assert!(get_feature(0).is_none());
}
