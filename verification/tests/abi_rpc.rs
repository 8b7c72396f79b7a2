use rp1::rpc::{
    checksum, stamp_checksum, valid_checksum, validate_request, ClockId, Opcode, Status,
    CHECKSUM_SEED, CHECKSUM_WORD, FEATURE_BITMAP, HEADER_WORDS, OWNER_READY, OWNER_WORD,
    REQUEST_MAGIC, REQUEST_WORDS, RESPONSE_MAGIC, TELEMETRY_MAGIC, TOTAL_WORDS, VERSION,
    WORD_ARG0, WORD_FLAGS, WORD_HEADER_WORDS, WORD_MAGIC, WORD_OBJECT, WORD_OPCODE,
    WORD_SEQUENCE, WORD_TOTAL_WORDS, WORD_VERSION,
};

fn request(opcode: Opcode, object: u32, sequence: u32) -> [u32; REQUEST_WORDS] {
    let mut words = [0u32; REQUEST_WORDS];
    words[WORD_MAGIC] = REQUEST_MAGIC;
    words[WORD_VERSION] = VERSION;
    words[WORD_HEADER_WORDS] = HEADER_WORDS;
    words[WORD_TOTAL_WORDS] = TOTAL_WORDS;
    words[WORD_SEQUENCE] = sequence;
    words[WORD_OPCODE] = opcode.code();
    words[WORD_OBJECT] = object;
    stamp_checksum(&mut words);
    words[OWNER_WORD] = OWNER_READY;
    words
}

#[test]
fn checksum_excludes_checksum_and_owner_words() {
    let mut words = request(Opcode::Ping, 0, 1);
    let original = checksum(&words);
    words[CHECKSUM_WORD] ^= 1;
    words[OWNER_WORD] ^= 1;
    assert_eq!(checksum(&words), original);
    words[WORD_SEQUENCE] ^= 1;
    assert_ne!(checksum(&words), original);
}

#[test]
fn validation_rejects_bad_fields_before_checksum() {
    let mut words = request(Opcode::Ping, 0, 1);
    words[WORD_FLAGS] = 1;
    assert_eq!(validate_request(&words, None), Err(Status::BadFlags));

    let mut words = request(Opcode::GetClockState, ClockId::Uart.code(), 1);
    words[WORD_ARG0] = 1;
    assert_eq!(validate_request(&words, None), Err(Status::BadReserved));
}

#[test]
fn validation_detects_checksum_and_replay() {
    let mut words = request(Opcode::Ping, 0, 7);
    words[WORD_SEQUENCE] = 8;
    assert_eq!(validate_request(&words, None), Err(Status::BadChecksum));

    let words = request(Opcode::Ping, 0, 7);
    assert_eq!(validate_request(&words, Some(7)), Err(Status::Replay));
}

#[test]
fn first_u32_max_sequence_is_valid_then_replays() {
    let words = request(Opcode::Ping, 0, u32::MAX);
    assert_eq!(validate_request(&words, None).unwrap().sequence, u32::MAX);
    assert_eq!(validate_request(&words, Some(u32::MAX)), Err(Status::Replay));
}

#[test]
fn ping_and_capabilities_nonzero_object_is_bad_object() {
    let words = request(Opcode::Ping, 1, 1);
    assert_eq!(validate_request(&words, None), Err(Status::BadObject));

    let words = request(Opcode::GetCapabilities, 1, 1);
    assert_eq!(validate_request(&words, None), Err(Status::BadObject));
}

#[test]
fn clock_object_allowlist_is_typed() {
    let words = request(Opcode::GetClockState, ClockId::Uart.code(), 1);
    assert_eq!(validate_request(&words, None).unwrap().object, 15);

    let words = request(Opcode::GetClockState, 99, 1);
    assert_eq!(validate_request(&words, None), Err(Status::BadObject));
}

#[test]
fn pinned_wire_constants_match_phase9_contract() {
    assert_eq!(REQUEST_MAGIC, 0x5152_3152);
    assert_eq!(RESPONSE_MAGIC, 0x5352_3152);
    assert_eq!(TELEMETRY_MAGIC, 0x4d54_3152);
    assert_eq!(Opcode::Ping.code(), 0);
    assert_eq!(Opcode::GetCapabilities.code(), 1);
    assert_eq!(Opcode::GetClockState.code(), 2);
    assert_eq!(FEATURE_BITMAP, 0x3b);
    assert_eq!(CHECKSUM_SEED, 0x5250_4331);
}

#[test]
fn stamped_slot_is_valid_whatever_its_owner_word() {
    let mut words = request(Opcode::Ping, 0, 3);
    assert!(valid_checksum(&words));
    words[OWNER_WORD] = 0x1234;
    assert!(valid_checksum(&words));
    words[20] = 1;
    assert!(!valid_checksum(&words));
}

#[test]
fn header_errors_are_reported_in_order() {
    let mut words = request(Opcode::Ping, 0, 1);
    words[WORD_MAGIC] = 0;
    assert_eq!(validate_request(&words, None), Err(Status::BadMagic));
    let mut words = request(Opcode::Ping, 0, 1);
    words[WORD_VERSION] = 2;
    assert_eq!(validate_request(&words, None), Err(Status::BadVersion));
    let mut words = request(Opcode::Ping, 0, 1);
    words[WORD_OPCODE] = 9;
    stamp_checksum(&mut words);
    assert_eq!(validate_request(&words, None), Err(Status::BadOpcode));
}

#[test]
fn opcode_and_clock_numbers_round_trip() {
    assert_eq!(Opcode::try_from(2), Ok(Opcode::GetClockState));
    assert_eq!(Opcode::try_from(3), Err(()));
    assert_eq!(ClockId::try_from(15), Ok(ClockId::Uart));
    assert_eq!(ClockId::try_from(99), Err(()));
}
