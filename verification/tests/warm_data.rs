use rp1::warm_data::{checksum, prepare_region, token_allows, valid_image, CONSUMED_TOKEN, FRESH_TOKEN};

#[test]
fn loader_token_rejects_lost_cookie_and_partial_states() {
    assert!(token_allows(false, FRESH_TOKEN));
    assert!(token_allows(true, CONSUMED_TOKEN));
    assert!(!token_allows(true, FRESH_TOKEN));
    assert!(!token_allows(false, CONSUMED_TOKEN));
    for token in [
        [0; 2],
        [u32::MAX; 2],
        [FRESH_TOKEN[0], CONSUMED_TOKEN[1]],
        [CONSUMED_TOKEN[0], FRESH_TOKEN[1]],
    ] {
        assert!(!token_allows(false, token));
        assert!(!token_allows(true, token));
    }
    for base in [FRESH_TOKEN, CONSUMED_TOKEN] {
        for word in 0..2 {
            for bit in 0..32 {
                let mut damaged = base;
                damaged[word] ^= 1 << bit;
                assert!(!token_allows(false, damaged));
                assert!(!token_allows(true, damaged));
            }
        }
    }
}

#[test]
fn cold_restore_and_reject_corruption_without_writes() {
    let initial = vec![0xdfu8, 0x9b, 0x57, 0x13, 0xaa, 0xaa, 0xaa, 0xaa];
    let mut data = initial.clone();
    let mut shadow = vec![0u32; 5];
    assert_eq!(checksum(b"hello"), 0x4f9f_2cab);
    assert!(prepare_region(false, &mut data, &mut shadow));
    let published = shadow.clone();
    for _ in 0..2 {
        data.fill(0x55);
        assert!(prepare_region(true, &mut data, &mut shadow));
        assert_eq!(data, initial);
        assert_eq!(shadow, published);
    }
    for word in 0..shadow.len() {
        for bit in 0..32 {
            shadow = published.clone();
            shadow[word] ^= 1 << bit;
            let bad = shadow.clone();
            data.fill(0x55);
            assert!(!prepare_region(true, &mut data, &mut shadow));
            assert_eq!(data, [0x55; 8]);
            assert_eq!(shadow, bad);
        }
    }
    let mut empty_data: Vec<u8> = Vec::new();
    let mut empty = vec![0u32; 3];
    assert!(prepare_region(false, &mut empty_data, &mut empty));
    assert!(prepare_region(true, &mut empty_data, &mut empty));
}

#[test]
fn published_shadow_carries_magic_length_and_checksum() {
    let mut data = vec![1u8, 2, 3, 4, 5];
    let mut shadow = vec![0u32; 5];
    assert!(prepare_region(false, &mut data, &mut shadow));
    assert_eq!(shadow[0], u32::from_le_bytes(*b"WMD1"));
    assert_eq!(shadow[1], 5);
    assert_eq!(shadow[2], checksum(&data));
    assert_eq!(shadow[3], u32::from_le_bytes([1, 2, 3, 4]));
    assert_eq!(shadow[4] & 0xff, 5);
    assert_eq!(valid_image(&shadow, 5), Some(checksum(&data)));
    shadow[1] = 4;
    assert_eq!(valid_image(&shadow, 5), None);
}

#[test]
fn flipped_image_bit_is_rejected_but_padding_is_not_covered() {
    let mut data = vec![9u8, 8, 7, 6, 5];
    let mut shadow = vec![0u32; 5];
    assert!(prepare_region(false, &mut data, &mut shadow));
    let published = shadow.clone();
    // Bit 3 of the fifth image byte: word 4, byte 0.
    shadow[4] ^= 1 << 3;
    assert_eq!(valid_image(&shadow, 5), None);
    // A bit of the padding bytes behind the image is outside the checksum.
    shadow = published.clone();
    shadow[4] ^= 1 << 20;
    assert_eq!(valid_image(&shadow, 5), Some(published[2]));
}
