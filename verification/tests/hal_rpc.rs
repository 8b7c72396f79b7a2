use rp1::rpc::{
    stamp_checksum, ClockId, Opcode, Status, HEADER_WORDS, OWNER_EMPTY, OWNER_READY, OWNER_WORD,
    REQUEST_MAGIC, REQUEST_WORDS, TOTAL_WORDS, VERSION, WORD_HEADER_WORDS, WORD_MAGIC,
    WORD_OBJECT, WORD_OPCODE, WORD_PHYSICAL_STATE, WORD_SEQUENCE, WORD_STATUS, WORD_TOTAL_WORDS,
    WORD_VERSION,
};
use rp1::rpc_service::{error_counter_word, handle_request, slots_ready, ClockReader, ClockState};

fn req(opcode: Opcode, object: u32, sequence: u32) -> [u32; REQUEST_WORDS] {
    let mut words = [0u32; REQUEST_WORDS];
    words[WORD_MAGIC] = REQUEST_MAGIC;
    words[WORD_VERSION] = VERSION;
    words[WORD_HEADER_WORDS] = HEADER_WORDS;
    words[WORD_TOTAL_WORDS] = TOTAL_WORDS;
    words[WORD_SEQUENCE] = sequence;
    words[WORD_OPCODE] = opcode.code();
    words[WORD_OBJECT] = object;
    stamp_checksum(&mut words);
    words[OWNER_WORD] = OWNER_READY;
    words
}

struct FakeClock;

impl ClockReader for FakeClock {
    fn read_clock(&mut self, id: ClockId) -> Option<ClockState> {
        match id {
            ClockId::Uart => Some(ClockState { effective: 1, physical: 0x800, result0: 1, result1: 2 }),
            ClockId::PllSysPriPh => None,
        }
    }
}

#[test]
fn slot_gate_requires_owned_request_and_empty_response() {
    assert!(slots_ready(OWNER_READY, OWNER_EMPTY));
    assert!(!slots_ready(OWNER_EMPTY, OWNER_EMPTY));
    assert!(!slots_ready(OWNER_READY, OWNER_READY));
    assert!(!slots_ready(OWNER_READY, 2));
}

#[test]
fn shared_handler_returns_clock_state_and_next_sequence() {
    let request = req(Opcode::GetClockState, ClockId::Uart.code(), 1);
    let (response, next, validation_error) = handle_request(&request, None, 10, &mut FakeClock);
    assert_eq!(response[WORD_STATUS], Status::Success.code());
    assert_eq!(response[WORD_PHYSICAL_STATE], 0x800);
    assert_eq!(next, Some(1));
    assert_eq!(validation_error, None);
}

#[test]
fn shared_handler_allows_u32_max_once_then_keeps_replay_state() {
    let request = req(Opcode::Ping, 0, u32::MAX);
    let (first, last, validation_error) = handle_request(&request, None, 1, &mut FakeClock);
    assert_eq!(first[WORD_STATUS], Status::Success.code());
    assert_eq!(last, Some(u32::MAX));
    assert_eq!(validation_error, None);

    let (second, last, validation_error) = handle_request(&request, last, 2, &mut FakeClock);
    assert_eq!(second[WORD_STATUS], Status::Replay.code());
    assert_eq!(last, Some(u32::MAX));
    assert_eq!(validation_error, Some(Status::Replay));

    let (third, last, validation_error) = handle_request(&request, last, 3, &mut FakeClock);
    assert_eq!(third[WORD_STATUS], Status::Replay.code());
    assert_eq!(last, Some(u32::MAX));
    assert_eq!(validation_error, Some(Status::Replay));
}

#[test]
fn refused_request_still_advances_the_sequence_and_is_counted() {
    let mut request = req(Opcode::Ping, 0, 5);
    request[WORD_MAGIC] = 0;
    let (response, next, validation_error) = handle_request(&request, Some(4), 7, &mut FakeClock);
    assert_eq!(response[WORD_STATUS], Status::BadMagic.code());
    assert_eq!(validation_error, Some(Status::BadMagic));
    assert_eq!(next, Some(5));
    assert_eq!(error_counter_word(Status::Success), 7);
    assert_eq!(error_counter_word(Status::BadMagic), 7 + Status::BadMagic.code() as usize);
}

#[test]
fn unreadable_clock_is_reported_in_the_response() {
    let request = req(Opcode::GetClockState, ClockId::PllSysPriPh.code(), 2);
    let (response, next, validation_error) = handle_request(&request, None, 1, &mut FakeClock);
    assert_eq!(validation_error, None);
    assert_eq!(next, Some(2));
    assert_ne!(response[WORD_STATUS], Status::Replay.code());
}
