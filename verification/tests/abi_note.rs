use rp1::config::{encode_desc, Rp1BuildConfig};
use rp1::note::{
    bit, Rp1BootInfoV1, BOOT_INFO_V1_SIZE, DEV_DMA, DEV_GPIO, DEV_TIMER,
    RP1_MAILBOX_FLAGS_SUPPORTED_MASK, RP1_MAILBOX_FLAG_ENABLE,
    RP1_MAILBOX_FLAG_PRIVATE_LAYOUT_V1, RP1_VERSION_NON_PIO,
};

#[test]
fn boot_info_v1_layout_is_unchanged() {
    let config = Rp1BuildConfig {
        owner_rp1: 0,
        owner_linux: 0,
        owner_disabled: 0,
        mailbox_flags: 0xa5a5_5a5a,
        firmware_version_kind: RP1_VERSION_NON_PIO,
    };
    let desc = encode_desc(&config);
    assert_eq!(desc.len(), 176);
    assert_eq!(Rp1BootInfoV1::SIZE, 176);
    assert_eq!(BOOT_INFO_V1_SIZE, 176);
    assert_eq!(u32::from_le_bytes([desc[72], desc[73], desc[74], desc[75]]), 0xa5a5_5a5a);
}

#[test]
fn mailbox_flag_contract_is_stable() {
    assert_eq!(RP1_MAILBOX_FLAG_ENABLE, 0x1);
    assert_eq!(RP1_MAILBOX_FLAG_PRIVATE_LAYOUT_V1, 0x2);
    assert_eq!(RP1_MAILBOX_FLAGS_SUPPORTED_MASK, 0x3);
}

#[test]
fn device_bits_follow_device_numbers() {
    assert_eq!(bit(DEV_GPIO), 1);
    assert_eq!(bit(DEV_DMA), 0x100);
    assert_eq!(bit(DEV_TIMER), 0x200);
}
