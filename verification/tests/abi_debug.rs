use rp1::debug::{
    encode_snapshot_response, snapshot_request_checksum, snapshot_response_is_valid,
    snapshot_response_word, DebugMailbox, SnapshotEntry, CORE_STATUS_ADDRESSES, MAGIC,
    MAILBOX_ADDR, MAILBOX_OFFSET_ACK, MAILBOX_OFFSET_COMMAND, MAILBOX_OFFSET_DATA,
    MAILBOX_OFFSET_DATA_LEN, MAILBOX_OFFSET_SEQ, MAILBOX_OFFSET_STATUS, MAILBOX_V1_SIZE,
    SNAPSHOT_CORE_STATUS, SNAPSHOT_ENTRY_OK, SNAPSHOT_MAX_ENTRIES, SNAPSHOT_RESPONSE_MAX_LEN,
    STATUS_BAD_SNAPSHOT_ID, STATUS_OK, VERSION,
};

fn word(bytes: &[u8], offset: usize) -> u32 {
    u32::from_le_bytes([bytes[offset], bytes[offset + 1], bytes[offset + 2], bytes[offset + 3]])
}

#[test]
fn mailbox_v1_layout_is_unchanged() {
    let mut mailbox = DebugMailbox::new();
    mailbox.seq = 0x1111_1111;
    mailbox.ack = 0x2222_2222;
    mailbox.command = 0x3333_3333;
    mailbox.status = 0x4444_4444;
    mailbox.data_len = 0x5555_5555;
    mailbox.data[0] = 0x66;
    let bytes = mailbox.to_bytes();
    assert_eq!(bytes.len(), 380);
    assert_eq!(MAILBOX_V1_SIZE, 380);
    assert_eq!(MAILBOX_OFFSET_SEQ, 16);
    assert_eq!(MAILBOX_OFFSET_ACK, 20);
    assert_eq!(MAILBOX_OFFSET_COMMAND, 32);
    assert_eq!(MAILBOX_OFFSET_STATUS, 44);
    assert_eq!(MAILBOX_OFFSET_DATA_LEN, 120);
    assert_eq!(MAILBOX_OFFSET_DATA, 124);
    assert_eq!(word(&bytes, 16), 0x1111_1111);
    assert_eq!(word(&bytes, 20), 0x2222_2222);
    assert_eq!(word(&bytes, 32), 0x3333_3333);
    assert_eq!(word(&bytes, 44), 0x4444_4444);
    assert_eq!(word(&bytes, 120), 0x5555_5555);
    assert_eq!(bytes[124], 0x66);
}

#[test]
fn snapshot_request_checksum_covers_id_and_sequence() {
    let base = snapshot_request_checksum(1, SNAPSHOT_CORE_STATUS);
    assert_ne!(base, snapshot_request_checksum(2, SNAPSHOT_CORE_STATUS));
    assert_ne!(base, snapshot_request_checksum(1, SNAPSHOT_CORE_STATUS + 1));
}

#[test]
fn snapshot_response_round_trip_and_corruption_detection() {
    let entries = [
        SnapshotEntry { local_address: MAILBOX_ADDR, value: MAGIC, status: SNAPSHOT_ENTRY_OK },
        SnapshotEntry { local_address: MAILBOX_ADDR + 4, value: VERSION, status: SNAPSHOT_ENTRY_OK },
    ];
    let mut data = [0u8; SNAPSHOT_RESPONSE_MAX_LEN];
    let len =
        encode_snapshot_response(&mut data, SNAPSHOT_CORE_STATUS, 7, STATUS_OK, &entries).unwrap();
    assert!(snapshot_response_is_valid(&data[..len]));
    assert_eq!(snapshot_response_word(&data[..len], 2), Some(SNAPSHOT_CORE_STATUS));
    assert_eq!(snapshot_response_word(&data[..len], 3), Some(7));
    assert_eq!(snapshot_response_word(&data[..len], 5), Some(2));

    data[24] ^= 1;
    assert!(!snapshot_response_is_valid(&data[..len]));
}

#[test]
fn rejected_snapshot_response_is_checksummed_and_empty() {
    let mut data = [0u8; SNAPSHOT_RESPONSE_MAX_LEN];
    let len =
        encode_snapshot_response(&mut data, 0xffff_fffe, 9, STATUS_BAD_SNAPSHOT_ID, &[]).unwrap();
    assert!(snapshot_response_is_valid(&data[..len]));
    assert_eq!(snapshot_response_word(&data[..len], 4), Some(STATUS_BAD_SNAPSHOT_ID));
    assert_eq!(snapshot_response_word(&data[..len], 5), Some(0));
}

#[test]
fn core_status_allowlist_is_bounded_to_mailbox_header() {
    assert_eq!(CORE_STATUS_ADDRESSES.len(), SNAPSHOT_MAX_ENTRIES);
    assert!(CORE_STATUS_ADDRESSES
        .iter()
        .all(|&address| address >= MAILBOX_ADDR && address < MAILBOX_ADDR + 48));
}

#[test]
fn encoded_response_has_exact_length_and_checksum_word() {
    let entries = [SnapshotEntry { local_address: 1, value: 2, status: 3 }];
    let mut data = [0u8; SNAPSHOT_RESPONSE_MAX_LEN];
    let len = encode_snapshot_response(&mut data, 5, 6, STATUS_OK, &entries).unwrap();
    assert_eq!(len, (7 + 3) * 4);
    assert_eq!(snapshot_response_word(&data[..len], 6), Some(1));
    assert_eq!(snapshot_response_word(&data[..len], 7), Some(2));
    assert_eq!(snapshot_response_word(&data[..len], 8), Some(3));
    assert_eq!(snapshot_response_word(&data[..len], 10), None);
}

#[test]
fn too_many_entries_or_short_output_is_refused() {
    let entry = SnapshotEntry { local_address: 0, value: 0, status: 0 };
    let nine = [entry; 9];
    let mut data = [0xaau8; SNAPSHOT_RESPONSE_MAX_LEN];
    assert_eq!(encode_snapshot_response(&mut data, 1, 1, STATUS_OK, &nine), None);
    assert!(data.iter().all(|&b| b == 0xaa));
    let mut short = [0u8; 27];
    assert_eq!(encode_snapshot_response(&mut short, 1, 1, STATUS_OK, &[]), None);
}

#[test]
fn truncated_or_misaligned_response_is_invalid() {
    let mut data = [0u8; SNAPSHOT_RESPONSE_MAX_LEN];
    let len = encode_snapshot_response(&mut data, 1, 2, STATUS_OK, &[]).unwrap();
    assert!(snapshot_response_is_valid(&data[..len]));
    assert!(!snapshot_response_is_valid(&data[..len - 4]));
    assert!(!snapshot_response_is_valid(&data[..len - 1]));
    assert!(!snapshot_response_is_valid(&[]));
}
