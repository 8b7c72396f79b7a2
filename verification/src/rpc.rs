//! Request/response RPC wire format shared with the host.
//!
//! Both slots are 32 words. Word 14 carries a checksum over every other word
//! except the owner word 15, so the owner can be handed over without
//! restamping.

use vstd::prelude::*;
use crate::debug::{checksum_fold, snapshot_checksum_update};

verus! {

pub const VERSION: u32 = 1;
/// `"R1RQ"` read as a little-endian word.
pub const REQUEST_MAGIC: u32 = 0x5152_3152;
/// `"R1RS"` read as a little-endian word.
pub const RESPONSE_MAGIC: u32 = 0x5352_3152;
/// `"R1TM"` read as a little-endian word.
pub const TELEMETRY_MAGIC: u32 = 0x4d54_3152;

pub const REQUEST_ADDR: u32 = 0x2000_f900;
pub const RESPONSE_ADDR: u32 = 0x2000_f980;
pub const TELEMETRY_ADDR: u32 = 0x2000_fa00;
pub const REQUEST_WORDS: usize = 32;
pub const RESPONSE_WORDS: usize = 32;
pub const TELEMETRY_WORDS: usize = 64;
pub const HEADER_WORDS: u32 = 16;
pub const TOTAL_WORDS: u32 = 32;
pub const OWNER_WORD: usize = 15;
pub const CHECKSUM_WORD: usize = 14;
pub const OWNER_EMPTY: u32 = 0;
pub const OWNER_READY: u32 = 1;
pub const CHECKSUM_SEED: u32 = 0x5250_4331;
pub const FEATURE_BITMAP: u32 = 0x3b;
pub const PING_BITMAP: u32 = 0x7;

pub const WORD_MAGIC: usize = 0;
pub const WORD_VERSION: usize = 1;
pub const WORD_HEADER_WORDS: usize = 2;
pub const WORD_TOTAL_WORDS: usize = 3;
pub const WORD_SEQUENCE: usize = 4;
pub const WORD_OPCODE: usize = 5;
pub const WORD_OBJECT: usize = 6;
pub const WORD_STATUS: usize = 6;
pub const WORD_FLAGS: usize = 7;
pub const WORD_ARG0: usize = 8;
pub const WORD_ARG1: usize = 9;
pub const WORD_ARG2: usize = 10;
pub const WORD_ARG3: usize = 11;
pub const WORD_RESERVED0: usize = 12;
pub const WORD_RESERVED1: usize = 13;
pub const WORD_EFFECTIVE_STATE: usize = 8;
pub const WORD_PHYSICAL_STATE: usize = 9;
pub const WORD_TIMESTAMP_LO: usize = 10;
pub const WORD_TIMESTAMP_HI: usize = 11;
pub const WORD_RESULT0: usize = 12;
pub const WORD_RESULT1: usize = 13;

#[derive(Clone, Copy, Debug, Eq, PartialEq, Structural)]
pub enum Opcode {
    Ping,
    GetCapabilities,
    GetClockState,
}

pub open spec fn opcode_code(op: Opcode) -> u32 {
    match op {
        Opcode::Ping => 0,
        Opcode::GetCapabilities => 1,
        Opcode::GetClockState => 2,
    }
}

pub open spec fn opcode_of(value: u32) -> Option<Opcode> {
    if value == 0 {
        Some(Opcode::Ping)
    } else if value == 1 {
        Some(Opcode::GetCapabilities)
    } else if value == 2 {
        Some(Opcode::GetClockState)
    } else {
        None
    }
}

impl Opcode {
    /// The opcode's wire value.
    pub fn code(self) -> (r: u32)
        ensures
            r == opcode_code(self),
    {
        match self {
            Opcode::Ping => 0,
            Opcode::GetCapabilities => 1,
            Opcode::GetClockState => 2,
        }
    }

    /// The opcode with wire value `value`; any other value is rejected.
    pub fn try_from(value: u32) -> (r: Result<Self, ()>)
        ensures
            r == (match opcode_of(value) {
                Some(op) => Ok(op),
                None => Err(()),
            }),
    {
        if value == 0 {
            Ok(Opcode::Ping)
        } else if value == 1 {
            Ok(Opcode::GetCapabilities)
        } else if value == 2 {
            Ok(Opcode::GetClockState)
        } else {
            Err(())
        }
    }
}

#[derive(Clone, Copy, Debug, Eq, PartialEq, Structural)]
pub enum ClockId {
    PllSysPriPh,
    Uart,
}

pub open spec fn clock_code(id: ClockId) -> u32 {
    match id {
        ClockId::PllSysPriPh => 6,
        ClockId::Uart => 15,
    }
}

pub open spec fn clock_of(value: u32) -> Option<ClockId> {
    if value == 6 {
        Some(ClockId::PllSysPriPh)
    } else if value == 15 {
        Some(ClockId::Uart)
    } else {
        None
    }
}

impl ClockId {
    /// The clock's wire value.
    pub fn code(self) -> (r: u32)
        ensures
            r == clock_code(self),
    {
        match self {
            ClockId::PllSysPriPh => 6,
            ClockId::Uart => 15,
        }
    }

    /// The clock with wire value `value`; any other value is rejected.
    pub fn try_from(value: u32) -> (r: Result<Self, ()>)
        ensures
            r == (match clock_of(value) {
                Some(id) => Ok(id),
                None => Err(()),
            }),
    {
        if value == 6 {
            Ok(ClockId::PllSysPriPh)
        } else if value == 15 {
            Ok(ClockId::Uart)
        } else {
            Err(())
        }
    }
}

#[derive(Clone, Copy, Debug, Eq, PartialEq, Structural)]
pub enum Status {
    Success,
    BadMagic,
    BadVersion,
    BadLength,
    BadChecksum,
    BadReserved,
    BadFlags,
    BadOpcode,
    BadObject,
    Busy,
    Replay,
}

pub open spec fn status_code(s: Status) -> u32 {
    match s {
        Status::Success => 0,
        Status::BadMagic => 1,
        Status::BadVersion => 2,
        Status::BadLength => 3,
        Status::BadChecksum => 4,
        Status::BadReserved => 5,
        Status::BadFlags => 6,
        Status::BadOpcode => 7,
        Status::BadObject => 8,
        Status::Busy => 9,
        Status::Replay => 10,
    }
}

impl Status {
    /// The status's wire value.
    pub fn code(self) -> (r: u32)
        ensures
            r == status_code(self),
    {
        match self {
            Status::Success => 0,
            Status::BadMagic => 1,
            Status::BadVersion => 2,
            Status::BadLength => 3,
            Status::BadChecksum => 4,
            Status::BadReserved => 5,
            Status::BadFlags => 6,
            Status::BadOpcode => 7,
            Status::BadObject => 8,
            Status::Busy => 9,
            Status::Replay => 10,
        }
    }
}

/// The words a slot checksum covers: all but the checksum and owner words.
pub open spec fn covered_words(words: Seq<u32>) -> Seq<u32> {
    words.take(14) + words.subrange(16, 32)
}

/// The checksum of a 32-word slot.
pub open spec fn slot_checksum(words: Seq<u32>) -> u32 {
    checksum_fold(CHECKSUM_SEED, covered_words(words))
}

/// `words` with word 14 replaced by its checksum.
pub open spec fn stamped(words: Seq<u32>) -> Seq<u32> {
    words.update(14, slot_checksum(words))
}

pub fn checksum(words: &[u32; 32]) -> (r: u32)
    ensures
        r == slot_checksum(words@),
{
    let mut checksum = CHECKSUM_SEED;
    let mut index: usize = 0;
    let ghost mut covered: Seq<u32> = Seq::empty();
    while index < REQUEST_WORDS
        invariant
            index <= 32,
            words@.len() == 32,
            covered == (if index <= 14 {
                words@.take(index as int)
            } else if index <= 16 {
                words@.take(14)
            } else {
                words@.take(14) + words@.subrange(16, index as int)
            }),
            checksum == checksum_fold(CHECKSUM_SEED, covered),
        decreases 32 - index,
    {
        if index != CHECKSUM_WORD && index != OWNER_WORD {
            proof {
                let next = covered.push(words@[index as int]);
                assert(next.drop_last() =~= covered);
            }
            checksum = snapshot_checksum_update(checksum, words[index]);
            proof {
                covered = covered.push(words@[index as int]);
                if index < 14 {
                    assert(covered =~= words@.take(index as int + 1));
                } else {
                    assert(covered =~= words@.take(14) + words@.subrange(16, index as int + 1));
                }
            }
        } else {
            proof {
                if index == 15 {
                    assert(words@.take(14) + words@.subrange(16, 16) =~= words@.take(14));
                }
            }
        }
        index += 1;
    }
    checksum
}

/// Stores the slot checksum in word 14.
pub fn stamp_checksum(words: &mut [u32; 32])
    ensures
        final(words)@ == stamped(old(words)@),
{
    let c = checksum(words);
    words[CHECKSUM_WORD] = c;
}

/// Whether word 14 holds the slot checksum.
pub fn valid_checksum(words: &[u32; 32]) -> (r: bool)
    ensures
        r == (words@[14] == slot_checksum(words@)),
{
    words[CHECKSUM_WORD] == checksum(words)
}

/// The checksum ignores the checksum and owner words.
pub proof fn lemma_checksum_ignores_checksum_and_owner(words: Seq<u32>, c: u32, owner: u32)
    requires
        words.len() == 32,
    ensures
        slot_checksum(words.update(14, c).update(15, owner)) == slot_checksum(words),
{
    assert(covered_words(words.update(14, c).update(15, owner)) =~= covered_words(words));
}

/// A stamped slot passes the checksum test, whatever its owner word.
pub proof fn lemma_stamped_is_valid(words: Seq<u32>, owner: u32)
    requires
        words.len() == 32,
    ensures
        stamped(words).update(15, owner)[14] == slot_checksum(stamped(words).update(15, owner)),
{
    lemma_checksum_ignores_checksum_and_owner(words, slot_checksum(words), owner);
}

#[derive(Clone, Copy, Debug, Eq, PartialEq, Structural)]
pub struct Request {
    pub sequence: u32,
    pub opcode: Opcode,
    pub object: u32,
}

/// Whether any of words 16..32 is nonzero.
pub open spec fn tail_nonzero(words: Seq<u32>) -> bool {
    exists|i: int| 16 <= i < 32 && words[i] != 0
}

/// The protocol's verdict on a request slot, checks in priority order.
pub open spec fn request_verdict(words: Seq<u32>, last_sequence: Option<u32>) -> Result<Request, Status> {
    if words[0] != REQUEST_MAGIC {
        Err(Status::BadMagic)
    } else if words[1] != VERSION {
        Err(Status::BadVersion)
    } else if words[2] != HEADER_WORDS || words[3] != TOTAL_WORDS {
        Err(Status::BadLength)
    } else if words[8] != 0 || words[9] != 0 || words[10] != 0 || words[11] != 0 || words[12] != 0
        || words[13] != 0 || tail_nonzero(words) {
        Err(Status::BadReserved)
    } else if words[7] != 0 {
        Err(Status::BadFlags)
    } else if words[14] != slot_checksum(words) {
        Err(Status::BadChecksum)
    } else if last_sequence == Some(words[4]) {
        Err(Status::Replay)
    } else {
        match opcode_of(words[5]) {
            None => Err(Status::BadOpcode),
            Some(op) => {
                if op != Opcode::GetClockState && words[6] != 0 {
                    Err(Status::BadObject)
                } else if op == Opcode::GetClockState && clock_of(words[6]) is None {
                    Err(Status::BadObject)
                } else {
                    Ok(Request { sequence: words[4], opcode: op, object: words[6] })
                }
            },
        }
    }
}

pub fn validate_request(words: &[u32; 32], last_sequence: Option<u32>) -> (r: Result<Request, Status>)
    ensures
        r == request_verdict(words@, last_sequence),
{
    if words[WORD_MAGIC] != REQUEST_MAGIC {
        return Err(Status::BadMagic);
    }
    if words[WORD_VERSION] != VERSION {
        return Err(Status::BadVersion);
    }
    if words[WORD_HEADER_WORDS] != HEADER_WORDS || words[WORD_TOTAL_WORDS] != TOTAL_WORDS {
        return Err(Status::BadLength);
    }
    if words[WORD_ARG0] != 0 || words[WORD_ARG1] != 0 || words[WORD_ARG2] != 0 || words[WORD_ARG3]
        != 0 || words[WORD_RESERVED0] != 0 || words[WORD_RESERVED1] != 0 {
        return Err(Status::BadReserved);
    }
    let mut i: usize = 16;
    while i < 32
        invariant
            16 <= i <= 32,
            words@.len() == 32,
            forall|j: int| 16 <= j < i ==> words@[j] == 0,
            words@[0] == REQUEST_MAGIC && words@[1] == VERSION,
            words@[2] == HEADER_WORDS && words@[3] == TOTAL_WORDS,
            words@[8] == 0 && words@[9] == 0 && words@[10] == 0,
            words@[11] == 0 && words@[12] == 0 && words@[13] == 0,
        decreases 32 - i,
    {
        if words[i] != 0 {
            assert(16 <= i < 32 && words@[i as int] != 0);
            assert(tail_nonzero(words@));
            return Err(Status::BadReserved);
        }
        i += 1;
    }
    if words[WORD_FLAGS] != 0 {
        return Err(Status::BadFlags);
    }
    if !valid_checksum(words) {
        return Err(Status::BadChecksum);
    }
    match last_sequence {
        Some(s) => if s == words[WORD_SEQUENCE] { return Err(Status::Replay); },
        None => {},
    }
    let opcode = match Opcode::try_from(words[WORD_OPCODE]) {
        Ok(op) => op,
        Err(_) => { return Err(Status::BadOpcode); },
    };
    match opcode {
        Opcode::Ping | Opcode::GetCapabilities => {
            if words[WORD_OBJECT] != 0 {
                return Err(Status::BadObject);
            }
        },
        Opcode::GetClockState => {
            if ClockId::try_from(words[WORD_OBJECT]).is_err() {
                return Err(Status::BadObject);
            }
        },
    }
    Ok(Request { sequence: words[WORD_SEQUENCE], opcode, object: words[WORD_OBJECT] })
}


/// An unstamped response: header, sequence, opcode, status and timestamp,
/// every other word zero.
pub open spec fn response_words(sequence: u32, opcode: u32, status: u32, now: u64) -> Seq<u32> {
    Seq::new(
        32,
        |i: int|
            if i == 0 {
                RESPONSE_MAGIC
            } else if i == 1 {
                VERSION
            } else if i == 2 {
                HEADER_WORDS
            } else if i == 3 {
                TOTAL_WORDS
            } else if i == 4 {
                sequence
            } else if i == 5 {
                opcode
            } else if i == 6 {
                status
            } else if i == 10 {
                now as u32
            } else if i == 11 {
                (now >> 32u64) as u32
            } else {
                0
            },
    )
}

/// The idle response slot: header words only, every other word zero.
pub open spec fn idle_response_words() -> Seq<u32> {
    Seq::new(
        32,
        |i: int|
            if i == 0 {
                RESPONSE_MAGIC
            } else if i == 1 {
                VERSION
            } else if i == 2 {
                HEADER_WORDS
            } else if i == 3 {
                TOTAL_WORDS
            } else {
                0
            },
    )
}

/// A request slot as a host builds it before stamping.
pub open spec fn request_words(sequence: u32, opcode: u32, object: u32) -> Seq<u32> {
    Seq::new(
        32,
        |i: int|
            if i == 0 {
                REQUEST_MAGIC
            } else if i == 1 {
                VERSION
            } else if i == 2 {
                HEADER_WORDS
            } else if i == 3 {
                TOTAL_WORDS
            } else if i == 4 {
                sequence
            } else if i == 5 {
                opcode
            } else if i == 6 {
                object
            } else {
                0
            },
    )
}

/// Clears the slot to the stamped idle response header.
pub fn init_response_header(words: &mut [u32; 32])
    ensures
        final(words)@ == stamped(idle_response_words()),
{
    *words = [0u32; 32];
    words[WORD_MAGIC] = RESPONSE_MAGIC;
    words[WORD_VERSION] = VERSION;
    words[WORD_HEADER_WORDS] = HEADER_WORDS;
    words[WORD_TOTAL_WORDS] = TOTAL_WORDS;
    assert(words@ =~= idle_response_words());
    stamp_response(words);
}

/// Fills an unstamped response for `request` with the given status.
pub fn init_response(words: &mut [u32; 32], request: &Request, status: Status, now: u64)
    ensures
        final(words)@ == response_words(
            request.sequence,
            opcode_code(request.opcode),
            status_code(status),
            now,
        ),
{
    init_response_raw(words, request.sequence, request.opcode.code(), status, now);
}

/// Fills an unstamped response from raw sequence and opcode words.
pub fn init_response_raw(words: &mut [u32; 32], sequence: u32, opcode: u32, status: Status, now: u64)
    ensures
        final(words)@ == response_words(sequence, opcode, status_code(status), now),
{
    *words = [0u32; 32];
    words[WORD_MAGIC] = RESPONSE_MAGIC;
    words[WORD_VERSION] = VERSION;
    words[WORD_HEADER_WORDS] = HEADER_WORDS;
    words[WORD_TOTAL_WORDS] = TOTAL_WORDS;
    words[WORD_SEQUENCE] = sequence;
    words[WORD_OPCODE] = opcode;
    words[WORD_STATUS] = status.code();
    words[WORD_TIMESTAMP_LO] = now as u32;
    words[WORD_TIMESTAMP_HI] = (now >> 32u64) as u32;
    assert(words@ =~= response_words(sequence, opcode, status_code(status), now));
}

/// Stores the slot checksum of a response in word 14.
pub fn stamp_response(words: &mut [u32; 32])
    ensures
        final(words)@ == stamped(old(words)@),
{
    let c = checksum(words);
    words[CHECKSUM_WORD] = c;
}

/// A host-built request, stamped and handed over, is accepted exactly when
/// its object suits its opcode and its sequence is not the last one seen;
/// a repeated sequence is answered `Replay`.
pub proof fn lemma_stamped_request_verdict(
    sequence: u32,
    opcode: Opcode,
    object: u32,
    owner: u32,
    last_sequence: Option<u32>,
)
    requires
        opcode != Opcode::GetClockState ==> object == 0,
        opcode == Opcode::GetClockState ==> clock_of(object) is Some,
    ensures
        request_verdict(
            stamped(request_words(sequence, opcode_code(opcode), object)).update(15, owner),
            last_sequence,
        ) == (if last_sequence == Some(sequence) {
            Err(Status::Replay)
        } else {
            Ok(Request { sequence, opcode, object })
        }),
{
    let base = request_words(sequence, opcode_code(opcode), object);
    let w = stamped(base).update(15, owner);
    lemma_stamped_is_valid(base, owner);
    assert(!tail_nonzero(w));
    assert(opcode_of(opcode_code(opcode)) == Some(opcode));
}

} // verus!
