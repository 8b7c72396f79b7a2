//! Debug mailbox ABI and the checksummed snapshot response format.
//!
//! A snapshot response is a sequence of little-endian 32-bit words: a six-word
//! header (magic, format version, snapshot id, sequence, status, entry count),
//! three words per entry, and a final checksum over every preceding word.

use vstd::prelude::*;

verus! {

pub const MAILBOX_ADDR: u32 = 0x2000_fc00;
pub const MAILBOX_SIZE: usize = 1024;
pub const MAILBOX_DATA_LEN: usize = 256;
pub const MAILBOX_REG_COUNT: usize = 18;

pub const SNAPSHOT_CHECKSUM_SEED: u32 = 0x811c_9dc5;
/// `"S1RP"` read as a little-endian word.
pub const SNAPSHOT_RESPONSE_MAGIC: u32 = 0x5052_3153;
pub const SNAPSHOT_FORMAT_VERSION: u32 = 1;
pub const SNAPSHOT_MAX_ENTRIES: usize = 8;
pub const SNAPSHOT_RESPONSE_HEADER_WORDS: usize = 6;
pub const SNAPSHOT_ENTRY_WORDS: usize = 3;
pub const SNAPSHOT_RESPONSE_MAX_WORDS: usize = 31;
pub const SNAPSHOT_RESPONSE_MAX_LEN: usize = 124;

/// `"D1RP"` read as a little-endian word.
pub const MAGIC: u32 = 0x5052_3144;
pub const VERSION: u32 = 1;

pub const COMMAND_NONE: u32 = 0;
pub const COMMAND_PING: u32 = 1;
pub const COMMAND_GET_REGS: u32 = 2;
pub const COMMAND_READ_MEM: u32 = 3;
pub const COMMAND_WRITE_MEM: u32 = 4;
pub const COMMAND_CONTINUE: u32 = 5;
pub const COMMAND_HALT: u32 = 6;
pub const COMMAND_READ_SNAPSHOT_ALLOWLISTED: u32 = 7;

pub const STATE_OFFLINE: u32 = 0;
pub const STATE_RUNNING: u32 = 1;
pub const STATE_STOPPED: u32 = 2;
pub const STATE_FAULTED: u32 = 3;

pub const STOP_REASON_NONE: u32 = 0;
pub const STOP_REASON_HOST_HALT: u32 = 1;
pub const STOP_REASON_EXCEPTION: u32 = 2;
pub const STOP_REASON_PANIC: u32 = 3;

pub const STATUS_OK: u32 = 0;
pub const STATUS_BAD_COMMAND: u32 = 1;
pub const STATUS_BAD_LENGTH: u32 = 2;
pub const STATUS_BAD_CHECKSUM: u32 = 3;
pub const STATUS_BAD_SNAPSHOT_ID: u32 = 4;

pub const SNAPSHOT_CORE_STATUS: u32 = 1;
pub const SNAPSHOT_ENTRY_OK: u32 = 0;

/// Mailbox header words that the core-status snapshot may report.
pub const CORE_STATUS_ADDRESSES: [u32; 8] = [
    0x2000_fc00,
    0x2000_fc04,
    0x2000_fc08,
    0x2000_fc14,
    0x2000_fc18,
    0x2000_fc1c,
    0x2000_fc20,
    0x2000_fc2c,
];

#[derive(Clone, Copy, Debug, PartialEq, Eq, Structural)]
pub struct SnapshotEntry {
    pub local_address: u32,
    pub value: u32,
    pub status: u32,
}

/// One word rotated left by five bits.
pub open spec fn rotl5(x: u32) -> u32 {
    ((x << 5u32) | (x >> 27u32)) as u32
}

/// One step of the snapshot checksum: xor, rotate left by five, multiply
/// modulo 2^32.
pub open spec fn checksum_step(checksum: u32, word: u32) -> u32 {
    ((rotl5(checksum ^ word) as nat * 0x9e37_79b1nat) % 0x1_0000_0000nat) as u32
}

/// The checksum of `words`, folded from the left starting at `seed`.
pub open spec fn checksum_fold(seed: u32, words: Seq<u32>) -> u32
    decreases words.len(),
{
    if words.len() == 0 {
        seed
    } else {
        checksum_step(checksum_fold(seed, words.drop_last()), words.last())
    }
}

/// A checksum step can be undone: its value fixes the xor of the checksum
/// and the word that went in (rotation is a bijection and the multiplier is
/// odd, with inverse `0x0e8b_2f51` modulo 2^32).
proof fn lemma_checksum_step_injective(c1: u32, w1: u32, c2: u32, w2: u32)
    requires
        checksum_step(c1, w1) == checksum_step(c2, w2),
    ensures
        c1 ^ w1 == c2 ^ w2,
{
    let x1 = c1 ^ w1;
    let x2 = c2 ^ w2;
    let r1 = rotl5(x1);
    let r2 = rotl5(x2);
    let s1 = checksum_step(c1, w1);
    let s2 = checksum_step(c2, w2);
    assert(s1 == ((r1 as u64 * 0x9e37_79b1u64) as u32)) by (bit_vector)
        requires
            s1 == ((r1 as nat * 0x9e37_79b1nat) % 0x1_0000_0000nat) as u32,
    ;
    assert(s2 == ((r2 as u64 * 0x9e37_79b1u64) as u32)) by (bit_vector)
        requires
            s2 == ((r2 as nat * 0x9e37_79b1nat) % 0x1_0000_0000nat) as u32,
    ;
    assert(r1 == ((s1 as u64 * 0x0e8b_2f51u64) as u32)) by (bit_vector)
        requires
            s1 == ((r1 as u64 * 0x9e37_79b1u64) as u32),
    ;
    assert(r2 == ((s2 as u64 * 0x0e8b_2f51u64) as u32)) by (bit_vector)
        requires
            s2 == ((r2 as u64 * 0x9e37_79b1u64) as u32),
    ;
    assert(x1 == ((r1 >> 5u32) | (r1 << 27u32)) as u32) by (bit_vector)
        requires
            r1 == ((x1 << 5u32) | (x1 >> 27u32)) as u32,
    ;
    assert(x2 == ((r2 >> 5u32) | (r2 << 27u32)) as u32) by (bit_vector)
        requires
            r2 == ((x2 << 5u32) | (x2 >> 27u32)) as u32,
    ;
}

proof fn lemma_checksum_prefixes_differ(seed: u32, a: Seq<u32>, b: Seq<u32>, i: int, k: int)
    requires
        a.len() == b.len(),
        0 <= i < k <= a.len(),
        a[i] != b[i],
        forall|j: int| 0 <= j < a.len() && j != i ==> a[j] == b[j],
    ensures
        checksum_fold(seed, a.take(k)) != checksum_fold(seed, b.take(k)),
    decreases k,
{
    let ak = a.take(k);
    let bk = b.take(k);
    assert(ak.drop_last() =~= a.take(k - 1));
    assert(bk.drop_last() =~= b.take(k - 1));
    let ha = checksum_fold(seed, a.take(k - 1));
    let hb = checksum_fold(seed, b.take(k - 1));
    let la = ak.last();
    let lb = bk.last();
    if k - 1 == i {
        assert(a.take(k - 1) =~= b.take(k - 1));
        assert(la != lb);
        assert(ha ^ la != ha ^ lb) by (bit_vector)
            requires
                la != lb,
        ;
    } else {
        lemma_checksum_prefixes_differ(seed, a, b, i, k - 1);
        assert(la == lb);
        assert(ha ^ la != hb ^ la) by (bit_vector)
            requires
                ha != hb,
        ;
    }
    if checksum_fold(seed, ak) == checksum_fold(seed, bk) {
        lemma_checksum_step_injective(ha, la, hb, lb);
    }
}

/// Changing one word of what a snapshot checksum covers changes the
/// checksum, whatever the seed.
pub proof fn lemma_single_word_change_changes_checksum(seed: u32, a: Seq<u32>, b: Seq<u32>, i: int)
    requires
        a.len() == b.len(),
        0 <= i < a.len(),
        a[i] != b[i],
        forall|j: int| 0 <= j < a.len() && j != i ==> a[j] == b[j],
    ensures
        checksum_fold(seed, a) != checksum_fold(seed, b),
{
    lemma_checksum_prefixes_differ(seed, a, b, i, a.len() as int);
    assert(a.take(a.len() as int) =~= a);
    assert(b.take(b.len() as int) =~= b);
}

/// The four little-endian bytes of a word.
pub open spec fn le_bytes(w: u32) -> Seq<u8> {
    seq![(w & 0xff) as u8, ((w >> 8u32) & 0xff) as u8, ((w >> 16u32) & 0xff) as u8, ((w >> 24u32) & 0xff) as u8]
}

/// The word whose little-endian bytes are `b0, b1, b2, b3`.
pub open spec fn le_word(b0: u8, b1: u8, b2: u8, b3: u8) -> u32 {
    ((b0 as u32) | ((b1 as u32) << 8u32) | ((b2 as u32) << 16u32) | ((b3 as u32) << 24u32)) as u32
}

/// The concatenated little-endian encoding of a word sequence.
pub open spec fn words_to_bytes(words: Seq<u32>) -> Seq<u8>
    decreases words.len(),
{
    if words.len() == 0 {
        Seq::empty()
    } else {
        words_to_bytes(words.drop_last()) + le_bytes(words.last())
    }
}

/// The little-endian word stored at word index `index` of `data`.
pub open spec fn word_at(data: Seq<u8>, index: int) -> u32 {
    le_word(data[4 * index], data[4 * index + 1], data[4 * index + 2], data[4 * index + 3])
}

/// The first `n` words of `data`.
pub open spec fn data_words(data: Seq<u8>, n: nat) -> Seq<u32> {
    Seq::new(n, |i: int| word_at(data, i))
}

/// The three words that encode one snapshot entry, in order.
pub open spec fn entry_words(entries: Seq<SnapshotEntry>) -> Seq<u32>
    decreases entries.len(),
{
    if entries.len() == 0 {
        Seq::empty()
    } else {
        let e = entries.last();
        entry_words(entries.drop_last()) + seq![e.local_address, e.value, e.status]
    }
}

/// Every word of a snapshot response except the trailing checksum.
pub open spec fn snapshot_body(
    snapshot_id: u32,
    sequence: u32,
    response_status: u32,
    entries: Seq<SnapshotEntry>,
) -> Seq<u32> {
    seq![
        SNAPSHOT_RESPONSE_MAGIC,
        SNAPSHOT_FORMAT_VERSION,
        snapshot_id,
        sequence,
        response_status,
        entries.len() as u32,
    ] + entry_words(entries)
}

/// The complete word sequence of a snapshot response.
pub open spec fn snapshot_words(
    snapshot_id: u32,
    sequence: u32,
    response_status: u32,
    entries: Seq<SnapshotEntry>,
) -> Seq<u32> {
    let body = snapshot_body(snapshot_id, sequence, response_status, entries);
    body.push(checksum_fold(SNAPSHOT_CHECKSUM_SEED, body))
}

/// Whether `data` is a well-formed, correctly checksummed snapshot response.
pub open spec fn valid_snapshot_response(data: Seq<u8>) -> bool {
    &&& data.len() >= 28
    &&& data.len() % 4 == 0
    &&& word_at(data, 0) == SNAPSHOT_RESPONSE_MAGIC
    &&& word_at(data, 1) == SNAPSHOT_FORMAT_VERSION
    &&& word_at(data, 5) <= 8
    &&& data.len() == (7 + 3 * word_at(data, 5)) * 4
    &&& word_at(data, data.len() / 4 - 1) == checksum_fold(
        SNAPSHOT_CHECKSUM_SEED,
        data_words(data, (data.len() / 4 - 1) as nat),
    )
}

pub fn snapshot_checksum_update(checksum: u32, word: u32) -> (r: u32)
    ensures
        r == checksum_step(checksum, word),
{
    let x = checksum ^ word;
    let rotated = (x << 5u32) | (x >> 27u32);
    rotated.wrapping_mul(0x9e37_79b1)
}

pub fn snapshot_checksum_words(words: &[u32]) -> (r: u32)
    ensures
        r == checksum_fold(SNAPSHOT_CHECKSUM_SEED, words@),
{
    let mut checksum = SNAPSHOT_CHECKSUM_SEED;
    let mut i: usize = 0;
    while i < words.len()
        invariant
            i <= words.len(),
            checksum == checksum_fold(SNAPSHOT_CHECKSUM_SEED, words@.take(i as int)),
        decreases words.len() - i,
    {
        assert(words@.take(i as int + 1).drop_last() =~= words@.take(i as int));
        checksum = snapshot_checksum_update(checksum, words[i]);
        i += 1;
    }
    assert(words@.take(words.len() as int) =~= words@);
    checksum
}

/// The checksum a host places in `arg1` of a snapshot request.
pub fn snapshot_request_checksum(sequence: u32, snapshot_id: u32) -> (r: u32)
    ensures
        r == checksum_fold(
            SNAPSHOT_CHECKSUM_SEED,
            seq![MAGIC, VERSION, COMMAND_READ_SNAPSHOT_ALLOWLISTED, snapshot_id, sequence],
        ),
{
    let words = [MAGIC, VERSION, COMMAND_READ_SNAPSHOT_ALLOWLISTED, snapshot_id, sequence];
    let r = snapshot_checksum_words(&words);
    assert(words@ =~= seq![MAGIC, VERSION, COMMAND_READ_SNAPSHOT_ALLOWLISTED, snapshot_id, sequence]);
    r
}


/// Little-endian decoding undoes little-endian encoding.
pub proof fn lemma_le_word_of_bytes(w: u32)
    ensures
        le_word(le_bytes(w)[0], le_bytes(w)[1], le_bytes(w)[2], le_bytes(w)[3]) == w,
{
    let b0 = (w & 0xff) as u8;
    let b1 = ((w >> 8u32) & 0xff) as u8;
    let b2 = ((w >> 16u32) & 0xff) as u8;
    let b3 = ((w >> 24u32) & 0xff) as u8;
    assert(((b0 as u32) | ((b1 as u32) << 8u32) | ((b2 as u32) << 16u32) | ((b3 as u32) << 24u32)) == w)
        by (bit_vector)
        requires
            b0 == (w & 0xff) as u8,
            b1 == ((w >> 8u32) & 0xff) as u8,
            b2 == ((w >> 16u32) & 0xff) as u8,
            b3 == ((w >> 24u32) & 0xff) as u8,
    ;
}

/// The encoding of `n` words is `4 * n` bytes long.
pub proof fn lemma_words_to_bytes_len(words: Seq<u32>)
    ensures
        words_to_bytes(words).len() == 4 * words.len(),
    decreases words.len(),
{
    if words.len() > 0 {
        lemma_words_to_bytes_len(words.drop_last());
    }
}

/// Reading word `k` of an encoded word sequence gives back its `k`-th word.
pub proof fn lemma_word_at_words_to_bytes(words: Seq<u32>, k: int)
    requires
        0 <= k < words.len(),
    ensures
        word_at(words_to_bytes(words), k) == words[k],
    decreases words.len(),
{
    let prefix = words.drop_last();
    lemma_words_to_bytes_len(prefix);
    let bytes = words_to_bytes(words);
    assert(bytes == words_to_bytes(prefix) + le_bytes(words.last()));
    if k < words.len() - 1 {
        lemma_word_at_words_to_bytes(prefix, k);
        assert(bytes[4 * k] == words_to_bytes(prefix)[4 * k]);
        assert(bytes[4 * k + 1] == words_to_bytes(prefix)[4 * k + 1]);
        assert(bytes[4 * k + 2] == words_to_bytes(prefix)[4 * k + 2]);
        assert(bytes[4 * k + 3] == words_to_bytes(prefix)[4 * k + 3]);
    } else {
        lemma_le_word_of_bytes(words.last());
        assert(bytes[4 * k] == le_bytes(words.last())[0]);
        assert(bytes[4 * k + 1] == le_bytes(words.last())[1]);
        assert(bytes[4 * k + 2] == le_bytes(words.last())[2]);
        assert(bytes[4 * k + 3] == le_bytes(words.last())[3]);
    }
}

/// The word at `index`, or `None` when the four bytes do not all lie in `data`.
pub fn snapshot_response_word(data: &[u8], index: usize) -> (r: Option<u32>)
    ensures
        r == (if 4 * index + 4 <= data@.len() {
            Some(word_at(data@, index as int))
        } else {
            None
        }),
{
    read_word(data, index)
}

fn write_word(output: &mut [u8], index: usize, word: u32)
    requires
        4 * index + 4 <= old(output)@.len(),
    ensures
        final(output)@.len() == old(output)@.len(),
        final(output)@.subrange(4 * index as int, 4 * index + 4) == le_bytes(word),
        forall|j: int|
            0 <= j < old(output)@.len() && !(4 * index <= j < 4 * index + 4)
                ==> final(output)@[j] == old(output)@[j],
{
    let offset = index * 4;
    output[offset] = (word & 0xff) as u8;
    output[offset + 1] = ((word >> 8u32) & 0xff) as u8;
    output[offset + 2] = ((word >> 16u32) & 0xff) as u8;
    output[offset + 3] = ((word >> 24u32) & 0xff) as u8;
    assert(output@.subrange(4 * index as int, 4 * index + 4) =~= le_bytes(word));
}

fn read_word(data: &[u8], index: usize) -> (r: Option<u32>)
    ensures
        r == (if 4 * index + 4 <= data@.len() {
            Some(word_at(data@, index as int))
        } else {
            None
        }),
{
    if index < data.len() / 4 {
        let offset = index * 4;
        Some(
            (data[offset] as u32) | ((data[offset + 1] as u32) << 8u32) | ((data[offset + 2] as u32)
                << 16u32) | ((data[offset + 3] as u32) << 24u32),
        )
    } else {
        None
    }
}

/// Appends one word at word index `index` (the number already written).
fn append_word(
    output: &mut [u8],
    index: usize,
    word: u32,
    checksum: u32,
    Ghost(written): Ghost<Seq<u32>>,
    Ghost(original): Ghost<Seq<u8>>,
) -> (r: u32)
    requires
        written.len() == index,
        4 * index + 4 <= old(output)@.len(),
        old(output)@.len() == original.len(),
        old(output)@.subrange(0, 4 * index as int) == words_to_bytes(written),
        forall|j: int| 4 * index <= j < original.len() ==> old(output)@[j] == original[j],
        checksum == checksum_fold(SNAPSHOT_CHECKSUM_SEED, written),
    ensures
        final(output)@.len() == original.len(),
        final(output)@.subrange(0, 4 * index + 4) == words_to_bytes(written.push(word)),
        forall|j: int| 4 * index + 4 <= j < original.len() ==> final(output)@[j] == original[j],
        r == checksum_fold(SNAPSHOT_CHECKSUM_SEED, written.push(word)),
{
    let ghost before = output@;
    write_word(output, index, word);
    assert(written.push(word).drop_last() =~= written);
    assert(output@.subrange(0, 4 * index as int) =~= before.subrange(0, 4 * index as int));
    assert(output@.subrange(0, 4 * index + 4) =~= output@.subrange(0, 4 * index as int)
        + output@.subrange(4 * index as int, 4 * index + 4));
    snapshot_checksum_update(checksum, word)
}

/// Encodes a snapshot response into `output`; returns its byte length.
/// Fails, leaving `output` untouched, when there are more than eight entries
/// or the response does not fit.
pub fn encode_snapshot_response(
    output: &mut [u8],
    snapshot_id: u32,
    sequence: u32,
    response_status: u32,
    entries: &[SnapshotEntry],
) -> (r: Option<usize>)
    ensures
        final(output)@.len() == old(output)@.len(),
        entries@.len() > SNAPSHOT_MAX_ENTRIES ==> r is None && final(output)@ == old(output)@,
        entries@.len() <= SNAPSHOT_MAX_ENTRIES && old(output)@.len() < (7 + 3 * entries@.len()) * 4
            ==> r is None && final(output)@ == old(output)@,
        entries@.len() <= SNAPSHOT_MAX_ENTRIES && old(output)@.len() >= (7 + 3 * entries@.len()) * 4
            ==> r == Some(((7 + 3 * entries@.len()) * 4) as usize),
        r matches Some(n) ==> {
            &&& final(output)@.subrange(0, n as int) == words_to_bytes(
                snapshot_words(snapshot_id, sequence, response_status, entries@),
            )
            &&& final(output)@.subrange(n as int, old(output)@.len() as int)
                == old(output)@.subrange(n as int, old(output)@.len() as int)
        },
{
    if entries.len() > SNAPSHOT_MAX_ENTRIES {
        return None;
    }
    let word_count = SNAPSHOT_RESPONSE_HEADER_WORDS + entries.len() * SNAPSHOT_ENTRY_WORDS + 1;
    let byte_len = word_count * 4;
    if output.len() < byte_len {
        return None;
    }
    let ghost original = output@;
    let ghost mut written: Seq<u32> = Seq::empty();
    assert(output@.subrange(0, 0) =~= words_to_bytes(written));
    let mut checksum = SNAPSHOT_CHECKSUM_SEED;
    checksum = append_word(output, 0, SNAPSHOT_RESPONSE_MAGIC, checksum, Ghost(written), Ghost(original));
    proof { written = written.push(SNAPSHOT_RESPONSE_MAGIC); }
    checksum = append_word(output, 1, SNAPSHOT_FORMAT_VERSION, checksum, Ghost(written), Ghost(original));
    proof { written = written.push(SNAPSHOT_FORMAT_VERSION); }
    checksum = append_word(output, 2, snapshot_id, checksum, Ghost(written), Ghost(original));
    proof { written = written.push(snapshot_id); }
    checksum = append_word(output, 3, sequence, checksum, Ghost(written), Ghost(original));
    proof { written = written.push(sequence); }
    checksum = append_word(output, 4, response_status, checksum, Ghost(written), Ghost(original));
    proof { written = written.push(response_status); }
    let count = entries.len() as u32;
    checksum = append_word(output, 5, count, checksum, Ghost(written), Ghost(original));
    proof { written = written.push(count); }
    let ghost header = written;
    assert(header =~= seq![
        SNAPSHOT_RESPONSE_MAGIC,
        SNAPSHOT_FORMAT_VERSION,
        snapshot_id,
        sequence,
        response_status,
        entries@.len() as u32,
    ]);
    assert(entries@.take(0) =~= Seq::<SnapshotEntry>::empty());
    assert(written =~= header + entry_words(entries@.take(0)));
    let mut word_index: usize = 6;
    let mut i: usize = 0;
    while i < entries.len()
        invariant
            i <= entries@.len() <= SNAPSHOT_MAX_ENTRIES,
            byte_len == (7 + 3 * entries@.len()) * 4,
            byte_len <= output@.len(),
            word_index == 6 + 3 * i,
            written.len() == word_index,
            written == header + entry_words(entries@.take(i as int)),
            output@.len() == original.len(),
            output@.subrange(0, 4 * word_index as int) == words_to_bytes(written),
            forall|j: int| 4 * word_index <= j < original.len() ==> output@[j] == original[j],
            checksum == checksum_fold(SNAPSHOT_CHECKSUM_SEED, written),
        decreases entries@.len() - i,
    {
        let entry = entries[i];
        proof { lemma_entry_words_len(entries@.take(i as int)); }
        checksum = append_word(output, word_index, entry.local_address, checksum, Ghost(written), Ghost(original));
        proof { written = written.push(entry.local_address); }
        checksum = append_word(output, word_index + 1, entry.value, checksum, Ghost(written), Ghost(original));
        proof { written = written.push(entry.value); }
        checksum = append_word(output, word_index + 2, entry.status, checksum, Ghost(written), Ghost(original));
        proof {
            written = written.push(entry.status);
            let next = entries@.take(i as int + 1);
            assert(next.drop_last() =~= entries@.take(i as int));
            assert(next.last() == entry);
            assert(written =~= header + entry_words(next));
        }
        word_index += 3;
        i += 1;
    }
    assert(entries@.take(entries@.len() as int) =~= entries@);
    assert(written == snapshot_body(snapshot_id, sequence, response_status, entries@));
    let ghost before = output@;
    write_word(output, word_index, checksum);
    proof {
        let all = written.push(checksum);
        assert(all.drop_last() =~= written);
        assert(output@.subrange(0, 4 * word_index as int) =~= before.subrange(0, 4 * word_index as int));
        assert(output@.subrange(0, byte_len as int) =~= output@.subrange(0, 4 * word_index as int)
            + output@.subrange(4 * word_index as int, 4 * word_index + 4));
        assert(output@.subrange(byte_len as int, original.len() as int) =~= original.subrange(byte_len as int, original.len() as int));
    }
    Some(byte_len)
}

/// The encoding of `n` entries is `3 * n` words.
pub proof fn lemma_entry_words_len(entries: Seq<SnapshotEntry>)
    ensures
        entry_words(entries).len() == 3 * entries.len(),
    decreases entries.len(),
{
    if entries.len() > 0 {
        lemma_entry_words_len(entries.drop_last());
    }
}


/// Only a response of the current format is accepted: a valid response
/// carries the magic and format version 1 in its first two words, at most
/// eight entries, exactly the length that its entry count gives, and as its
/// last word the checksum of every word before it. A response with another
/// magic or format version is refused whatever else it holds.
pub proof fn lemma_valid_response_is_current_format(data: Seq<u8>)
    ensures
        valid_snapshot_response(data) ==> {
            let n = data.len() / 4;
            &&& word_at(data, 0) == 0x5052_3153
            &&& word_at(data, 1) == 1
            &&& word_at(data, 5) <= 8
            &&& data.len() == 28 + 12 * word_at(data, 5)
            &&& word_at(data, n - 1) == checksum_fold(SNAPSHOT_CHECKSUM_SEED, data_words(data, (n - 1) as nat))
        },
        word_at(data, 0) != 0x5052_3153 || word_at(data, 1) != 1 ==> !valid_snapshot_response(data),
{
}

/// Whether `data` is a complete snapshot response with a correct checksum.
pub fn snapshot_response_is_valid(data: &[u8]) -> (r: bool)
    ensures
        r == valid_snapshot_response(data@),
{
    if data.len() < (SNAPSHOT_RESPONSE_HEADER_WORDS + 1) * 4 || data.len() % 4 != 0 {
        return false;
    }
    match read_word(data, 0) {
        Some(w) => if w != SNAPSHOT_RESPONSE_MAGIC { return false; },
        None => { return false; },
    }
    match read_word(data, 1) {
        Some(w) => if w != SNAPSHOT_FORMAT_VERSION { return false; },
        None => { return false; },
    }
    let count_word = match read_word(data, 5) {
        Some(w) => w,
        None => { return false; },
    };
    if count_word > 8 {
        return false;
    }
    let count = count_word as usize;
    let expected_words = SNAPSHOT_RESPONSE_HEADER_WORDS + count * SNAPSHOT_ENTRY_WORDS + 1;
    if data.len() != expected_words * 4 {
        return false;
    }
    let last = expected_words - 1;
    let mut checksum = SNAPSHOT_CHECKSUM_SEED;
    let mut index: usize = 0;
    while index < last
        invariant
            index <= last,
            last + 1 == expected_words,
            data@.len() == expected_words * 4,
            checksum == checksum_fold(SNAPSHOT_CHECKSUM_SEED, data_words(data@, index as nat)),
        decreases last - index,
    {
        let word = match read_word(data, index) {
            Some(w) => w,
            None => { return false; },
        };
        assert(data_words(data@, (index + 1) as nat).drop_last() =~= data_words(data@, index as nat));
        checksum = snapshot_checksum_update(checksum, word);
        index += 1;
    }
    match read_word(data, last) {
        Some(w) => w == checksum,
        None => false,
    }
}

/// Round trip: every response produced by `encode_snapshot_response` (at
/// most eight entries) is accepted by `snapshot_response_is_valid`, and
/// each of its words reads back as encoded.
pub proof fn lemma_snapshot_round_trip(
    snapshot_id: u32,
    sequence: u32,
    response_status: u32,
    entries: Seq<SnapshotEntry>,
)
    requires
        entries.len() <= SNAPSHOT_MAX_ENTRIES,
    ensures
        valid_snapshot_response(
            words_to_bytes(snapshot_words(snapshot_id, sequence, response_status, entries)),
        ),
        words_to_bytes(snapshot_words(snapshot_id, sequence, response_status, entries)).len()
            == (7 + 3 * entries.len()) * 4,
        forall|k: int|
            0 <= k < 7 + 3 * entries.len() ==> #[trigger] word_at(
                words_to_bytes(snapshot_words(snapshot_id, sequence, response_status, entries)),
                k,
            ) == snapshot_words(snapshot_id, sequence, response_status, entries)[k],
{
    let body = snapshot_body(snapshot_id, sequence, response_status, entries);
    let words = snapshot_words(snapshot_id, sequence, response_status, entries);
    lemma_entry_words_len(entries);
    lemma_words_to_bytes_len(words);
    let data = words_to_bytes(words);
    assert forall|k: int| 0 <= k < 7 + 3 * entries.len() implies #[trigger] word_at(data, k) == words[k] by {
        lemma_word_at_words_to_bytes(words, k);
    }
    assert(word_at(data, 0) == words[0]);
    assert(word_at(data, 1) == words[1]);
    assert(word_at(data, 5) == words[5]);
    assert(words[5] == entries.len() as u32);
    let last = data.len() / 4 - 1;
    assert(last == 6 + 3 * entries.len());
    assert(word_at(data, last) == words[last]);
    assert(data_words(data, last as nat) =~= body);
}


/// Byte size of the version-1 debug mailbox layout.
pub const MAILBOX_V1_SIZE: u32 = 380;

/// The debug mailbox shared with the host, version 1 layout.
#[derive(Clone, Copy)]
pub struct DebugMailbox {
    pub magic: u32,
    pub version: u32,
    pub size: u32,
    pub flags: u32,
    pub seq: u32,
    pub ack: u32,
    pub state: u32,
    pub stop_reason: u32,
    pub command: u32,
    pub arg0: u32,
    pub arg1: u32,
    pub status: u32,
    pub regs: [u32; 18],
    pub data_len: u32,
    pub data: [u8; 256],
}

impl DebugMailbox {
    /// A running, idle mailbox with every payload word zero.
    pub fn new() -> (r: Self)
        ensures
            r.magic == MAGIC,
            r.version == VERSION,
            r.size == MAILBOX_V1_SIZE,
            r.flags == 0,
            r.seq == 0,
            r.ack == 0,
            r.state == STATE_RUNNING,
            r.stop_reason == STOP_REASON_NONE,
            r.command == COMMAND_NONE,
            r.arg0 == 0,
            r.arg1 == 0,
            r.status == STATUS_OK,
            forall|i: int| 0 <= i < 18 ==> r.regs@[i] == 0,
            r.data_len == 0,
            forall|i: int| 0 <= i < 256 ==> r.data@[i] == 0,
    {
        Self {
            magic: MAGIC,
            version: VERSION,
            size: MAILBOX_V1_SIZE,
            flags: 0,
            seq: 0,
            ack: 0,
            state: STATE_RUNNING,
            stop_reason: STOP_REASON_NONE,
            command: COMMAND_NONE,
            arg0: 0,
            arg1: 0,
            status: STATUS_OK,
            regs: [0u32; 18],
            data_len: 0,
            data: [0u8; 256],
        }
    }
}

/// Byte offsets of the version-1 mailbox fields that the host addresses.
pub const MAILBOX_OFFSET_SEQ: usize = 16;
pub const MAILBOX_OFFSET_ACK: usize = 20;
pub const MAILBOX_OFFSET_COMMAND: usize = 32;
pub const MAILBOX_OFFSET_STATUS: usize = 44;
pub const MAILBOX_OFFSET_REGS: usize = 48;
pub const MAILBOX_OFFSET_DATA_LEN: usize = 120;
pub const MAILBOX_OFFSET_DATA: usize = 124;

/// The mailbox's words in layout order: the twelve header words, the
/// register words and the data length.
pub open spec fn mailbox_words(m: DebugMailbox) -> Seq<u32> {
    seq![
        m.magic,
        m.version,
        m.size,
        m.flags,
        m.seq,
        m.ack,
        m.state,
        m.stop_reason,
        m.command,
        m.arg0,
        m.arg1,
        m.status,
    ] + m.regs@ + seq![m.data_len]
}

/// The version-1 byte image of the mailbox: its words in little-endian
/// order, then the data area.
pub open spec fn mailbox_bytes(m: DebugMailbox) -> Seq<u8> {
    words_to_bytes(mailbox_words(m)) + m.data@
}

fn push_words(out: &mut Vec<u8>, words: &Vec<u32>)
    ensures
        final(out)@ == old(out)@ + words_to_bytes(words@),
{
    let ghost start = out@;
    let mut i: usize = 0;
    while i < words.len()
        invariant
            i <= words@.len(),
            out@ == start + words_to_bytes(words@.take(i as int)),
        decreases words@.len() - i,
    {
        let w = words[i];
        let ghost before = out@;
        out.push((w & 0xff) as u8);
        out.push(((w >> 8u32) & 0xff) as u8);
        out.push(((w >> 16u32) & 0xff) as u8);
        out.push(((w >> 24u32) & 0xff) as u8);
        assert(words@.take(i + 1).drop_last() =~= words@.take(i as int));
        assert(out@ =~= before + le_bytes(w));
        i += 1;
    }
    assert(words@.take(words@.len() as int) =~= words@);
}

impl DebugMailbox {
    /// The version-1 byte image of this mailbox, 380 bytes long.
    pub fn to_bytes(&self) -> (r: Vec<u8>)
        ensures
            r@ == mailbox_bytes(*self),
            r@.len() == MAILBOX_V1_SIZE,
            forall|k: int| 0 <= k < 31 ==> #[trigger] word_at(r@, k) == mailbox_words(*self)[k],
            r@.subrange(MAILBOX_OFFSET_DATA as int, MAILBOX_V1_SIZE as int) == self.data@,
    {
        let mut words: Vec<u32> = Vec::new();
        words.push(self.magic);
        words.push(self.version);
        words.push(self.size);
        words.push(self.flags);
        words.push(self.seq);
        words.push(self.ack);
        words.push(self.state);
        words.push(self.stop_reason);
        words.push(self.command);
        words.push(self.arg0);
        words.push(self.arg1);
        words.push(self.status);
        let ghost header = words@;
        let mut i: usize = 0;
        while i < 18
            invariant
                i <= 18,
                words@ == header + self.regs@.take(i as int),
            decreases 18 - i,
        {
            words.push(self.regs[i]);
            assert(self.regs@.take(i + 1) =~= self.regs@.take(i as int).push(self.regs@[i as int]));
            i += 1;
        }
        words.push(self.data_len);
        assert(self.regs@.take(18) =~= self.regs@);
        assert(words@ =~= mailbox_words(*self));
        let mut out: Vec<u8> = Vec::new();
        push_words(&mut out, &words);
        let ghost prefix = out@;
        proof {
            lemma_words_to_bytes_len(words@);
        }
        let mut j: usize = 0;
        while j < 256
            invariant
                j <= 256,
                prefix.len() == 124,
                out@ == prefix + self.data@.take(j as int),
            decreases 256 - j,
        {
            out.push(self.data[j]);
            assert(self.data@.take(j + 1) =~= self.data@.take(j as int).push(self.data@[j as int]));
            j += 1;
        }
        assert(self.data@.take(256) =~= self.data@);
        assert forall|k: int| 0 <= k < 31 implies #[trigger] word_at(out@, k) == mailbox_words(
            *self,
        )[k] by {
            lemma_word_at_words_to_bytes(words@, k);
            assert(out@[4 * k] == prefix[4 * k]);
            assert(out@[4 * k + 1] == prefix[4 * k + 1]);
            assert(out@[4 * k + 2] == prefix[4 * k + 2]);
            assert(out@[4 * k + 3] == prefix[4 * k + 3]);
        }
        assert(out@.subrange(124, 380) =~= self.data@);
        out
    }
}

} // verus!
