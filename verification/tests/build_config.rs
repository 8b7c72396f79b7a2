use rp1::config::{
    config_from_parts, encode_note, encoded_mailbox_flags, owner_bitmap,
    validate_mailbox_layout_v1_feature, BuildError, OwnerBitmap, Rp1BuildConfig, NOTE_LEN,
};
use rp1::note::{
    RP1_MAILBOX_FLAGS_SUPPORTED_MASK, RP1_MAILBOX_FLAG_ENABLE, RP1_MAILBOX_FLAG_PRIVATE_LAYOUT_V1,
    RP1_VERSION_NON_PIO,
};

fn pairs(items: &[(&str, &str)]) -> Vec<(String, String)> {
    let mut v: Vec<(String, String)> =
        items.iter().map(|(k, o)| (k.to_string(), o.to_string())).collect();
    v.sort();
    v
}

fn minimal_owner() -> Vec<(String, String)> {
    pairs(&[
        ("gpio", "linux"),
        ("uart0", "linux"),
        ("uart1", "linux"),
        ("i2c0", "linux"),
        ("i2c1", "linux"),
        ("spi0", "linux"),
        ("pio0", "rp1"),
        ("pio1", "rp1"),
        ("dma", "linux"),
        ("timer", "linux"),
    ])
}

#[test]
fn minimal_owner_bitmap_matches_expected_values() {
    let owner = minimal_owner();
    assert_eq!(
        owner_bitmap(&owner).unwrap(),
        OwnerBitmap { owner_rp1: 0xc0, owner_linux: 0x33f, owner_disabled: 0x0 }
    );
}

#[test]
fn minimal_config_values_are_exposed() {
    let owner = minimal_owner();
    let owners = owner_bitmap(&owner).unwrap();
    let config = Rp1BuildConfig {
        owner_rp1: owners.owner_rp1,
        owner_linux: owners.owner_linux,
        owner_disabled: owners.owner_disabled,
        mailbox_flags: 1,
        firmware_version_kind: RP1_VERSION_NON_PIO,
    };
    assert_eq!(config.owner_rp1, 0xc0);
    assert_eq!(config.owner_linux, 0x33f);
    assert_eq!(config.owner_disabled, 0x0);
    assert_eq!(config.mailbox_flags, 1);
    assert_eq!(config.firmware_version_kind, 0);
}

/// `[firmware] mailbox_layout_v1` is optional in `rp1.toml`; absent means
/// `false`.
fn note_with_mailbox_options(mailbox: bool, layout_v1: Option<bool>) -> Vec<u8> {
    let config = config_from_parts(&Vec::new(), mailbox, layout_v1.unwrap_or(false)).unwrap();
    encode_note(&config)
}

fn flags(note: &[u8]) -> u32 {
    encoded_mailbox_flags(note).unwrap()
}

#[test]
fn mailbox_layout_v1_is_explicit_opt_in() {
    assert_eq!(flags(&note_with_mailbox_options(false, None)), 0);

    let absent = note_with_mailbox_options(true, None);
    let explicit_false = note_with_mailbox_options(true, Some(false));
    assert_eq!(absent, explicit_false);
    assert_eq!(flags(&absent), RP1_MAILBOX_FLAG_ENABLE);

    let layout_only = note_with_mailbox_options(false, Some(true));
    assert_eq!(flags(&layout_only), RP1_MAILBOX_FLAG_PRIVATE_LAYOUT_V1);

    let enabled_layout = note_with_mailbox_options(true, Some(true));
    assert_eq!(flags(&enabled_layout), RP1_MAILBOX_FLAGS_SUPPORTED_MASK);
    assert_eq!(flags(&enabled_layout) & !RP1_MAILBOX_FLAGS_SUPPORTED_MASK, 0);
}

#[test]
fn mailbox_layout_v1_feature_config_truth_table() {
    for (config_enabled, feature_enabled, expected) in [
        (false, false, true),
        (false, true, false),
        (true, false, false),
        (true, true, true),
    ] {
        let config = Rp1BuildConfig {
            owner_rp1: 0,
            owner_linux: 0,
            owner_disabled: 0,
            mailbox_flags: u32::from(config_enabled) * RP1_MAILBOX_FLAG_PRIVATE_LAYOUT_V1,
            firmware_version_kind: RP1_VERSION_NON_PIO,
        };
        assert_eq!(validate_mailbox_layout_v1_feature(&config, feature_enabled).is_ok(), expected);
    }
}

#[test]
fn layout_feature_mismatch_is_the_reported_error() {
    let config = config_from_parts(&Vec::new(), true, true).unwrap();
    assert_eq!(
        validate_mailbox_layout_v1_feature(&config, false),
        Err(BuildError::MailboxLayoutFeatureMismatch)
    );
}

#[test]
fn owner_errors_name_the_offending_entry() {
    assert_eq!(
        owner_bitmap(&pairs(&[("uart9", "linux")])),
        Err(BuildError::UnknownOwnerKey("uart9".to_string()))
    );
    assert_eq!(
        owner_bitmap(&pairs(&[("gpio", "nobody")])),
        Err(BuildError::InvalidOwner { owner: "nobody".to_string(), key: "gpio".to_string() })
    );
    let twice = vec![
        ("gpio".to_string(), "rp1".to_string()),
        ("gpio".to_string(), "linux".to_string()),
    ];
    assert_eq!(owner_bitmap(&twice), Err(BuildError::DuplicateOwnerAssignment("gpio".to_string())));
    assert_eq!(
        owner_bitmap(&pairs(&[("dma", "disabled")])).unwrap(),
        OwnerBitmap { owner_rp1: 0, owner_linux: 0, owner_disabled: 0x100 }
    );
}

#[test]
fn note_layout_is_name_header_then_descriptor() {
    let config = config_from_parts(&minimal_owner(), true, false).unwrap();
    let note = encode_note(&config);
    assert_eq!(note.len(), NOTE_LEN);
    assert_eq!(&note[0..4], &4u32.to_le_bytes());
    assert_eq!(&note[4..8], &176u32.to_le_bytes());
    assert_eq!(&note[8..12], &0x5250_3101u32.to_le_bytes());
    assert_eq!(&note[12..16], b"RP1\0");
    assert_eq!(&note[16..24], b"RP1NOTE\0");
    assert_eq!(&note[64..72], &0xc0u64.to_le_bytes());
    assert_eq!(&note[72..80], &0x33fu64.to_le_bytes());
    assert_eq!(flags(&note), 1);
    assert_eq!(encoded_mailbox_flags(&note[..91]), None);
}

#[test]
fn readme_owner_assignment_gives_documented_bitmap() {
    let owner = pairs(&[
        ("gpio", "rp1"),
        ("uart0", "rp1"),
        ("uart1", "linux"),
        ("i2c0", "linux"),
        ("i2c1", "linux"),
        ("spi0", "linux"),
        ("pio0", "rp1"),
        ("pio1", "disabled"),
        ("dma", "rp1"),
        ("timer", "rp1"),
    ]);
    assert_eq!(
        owner_bitmap(&owner).unwrap(),
        OwnerBitmap { owner_rp1: 0x343, owner_linux: 0x3c, owner_disabled: 0x80 }
    );
}

#[test]
fn encoded_note_carries_the_invocation_flags() {
    for (flags, expected) in [(0x1u32, 0x1u32), (0x3, 0x3), (0x5, 0x5)] {
        let config = Rp1BuildConfig {
            owner_rp1: 0,
            owner_linux: 0,
            owner_disabled: 0,
            mailbox_flags: flags,
            firmware_version_kind: 0,
        };
        let note = encode_note(&config);
        assert_eq!(note.len(), NOTE_LEN);
        assert_eq!(u32::from_le_bytes(note[88..92].try_into().unwrap()), expected);
    }
}
