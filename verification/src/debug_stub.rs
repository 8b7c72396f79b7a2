//! The firmware side of the debug mailbox: initialization and the polled
//! command handler, including the checksummed allowlisted snapshot.

use vstd::prelude::*;
use crate::debug::{
    encode_snapshot_response, snapshot_request_checksum, snapshot_words, words_to_bytes,
    lemma_snapshot_round_trip, valid_snapshot_response, word_at,
    checksum_fold, DebugMailbox, SnapshotEntry, COMMAND_NONE, COMMAND_PING,
    COMMAND_READ_SNAPSHOT_ALLOWLISTED, CORE_STATUS_ADDRESSES, MAGIC, MAILBOX_V1_SIZE,
    SNAPSHOT_CHECKSUM_SEED, SNAPSHOT_CORE_STATUS, SNAPSHOT_ENTRY_OK, STATE_FAULTED, STATE_RUNNING, STOP_REASON_EXCEPTION, STOP_REASON_PANIC,
    STATUS_BAD_CHECKSUM, STATUS_BAD_COMMAND, STATUS_BAD_SNAPSHOT_ID, STATUS_OK,
    STOP_REASON_NONE, VERSION,
};

verus! {

/// The sequence number last acknowledged.
pub struct DebugStub {
    pub last_seq: u32,
}

/// The core-status snapshot: the eight allowlisted mailbox header words and
/// their values.
pub open spec fn core_entries(m: DebugMailbox) -> Seq<SnapshotEntry> {
    let values = seq![m.magic, m.version, m.size, m.ack, m.state, m.stop_reason, m.command, m.status];
    Seq::new(
        8,
        |i: int|
            SnapshotEntry {
                local_address: CORE_STATUS_ADDRESSES@[i],
                value: values[i],
                status: SNAPSHOT_ENTRY_OK,
            },
    )
}

/// The snapshot request checksum that a host sends for `sequence` and `id`.
pub open spec fn request_checksum(sequence: u32, id: u32) -> u32 {
    checksum_fold(
        SNAPSHOT_CHECKSUM_SEED,
        seq![MAGIC, VERSION, COMMAND_READ_SNAPSHOT_ALLOWLISTED, id, sequence],
    )
}

/// The response that `poll` encodes for a snapshot request: its status and
/// entries, or `None` when the request checksum is wrong.
pub open spec fn snapshot_reply(m: DebugMailbox, sequence: u32) -> Option<(u32, Seq<SnapshotEntry>)> {
    if m.arg1 != request_checksum(sequence, m.arg0) {
        None
    } else if m.arg0 == SNAPSHOT_CORE_STATUS {
        Some((STATUS_OK, core_entries(m)))
    } else {
        Some((STATUS_BAD_SNAPSHOT_ID, Seq::empty()))
    }
}

fn core_status_entries(m: &DebugMailbox) -> (r: Vec<SnapshotEntry>)
    ensures
        r@ == core_entries(*m),
{
    let values = [m.magic, m.version, m.size, m.ack, m.state, m.stop_reason, m.command, m.status];
    let mut entries: Vec<SnapshotEntry> = Vec::new();
    let mut i: usize = 0;
    while i < 8
        invariant
            i <= 8,
            values@ == seq![m.magic, m.version, m.size, m.ack, m.state, m.stop_reason, m.command, m.status],
            entries@ == core_entries(*m).subrange(0, i as int),
        decreases 8 - i,
    {
        entries.push(
            SnapshotEntry {
                local_address: CORE_STATUS_ADDRESSES[i],
                value: values[i],
                status: SNAPSHOT_ENTRY_OK,
            },
        );
        i += 1;
        assert(entries@ =~= core_entries(*m).subrange(0, i as int));
    }
    assert(core_entries(*m).subrange(0, 8) =~= core_entries(*m));
    entries
}

/// Encodes a snapshot response into the mailbox data and sets its length.
fn write_snapshot_response(
    m: &mut DebugMailbox,
    snapshot_id: u32,
    sequence: u32,
    response_status: u32,
    entries: &[SnapshotEntry],
)
    requires
        entries@.len() <= 8,
    ensures
        final(m).data_len == (7 + 3 * entries@.len()) * 4,
        final(m).data@.subrange(0, ((7 + 3 * entries@.len()) * 4) as int) == words_to_bytes(
            snapshot_words(snapshot_id, sequence, response_status, entries@),
        ),
        final(m).magic == old(m).magic && final(m).version == old(m).version && final(m).size
            == old(m).size && final(m).flags == old(m).flags && final(m).seq == old(m).seq
            && final(m).ack == old(m).ack && final(m).state == old(m).state
            && final(m).stop_reason == old(m).stop_reason && final(m).command == old(m).command
            && final(m).arg0 == old(m).arg0 && final(m).arg1 == old(m).arg1 && final(m).status
            == old(m).status,
{
    let mut encoded: Vec<u8> = Vec::new();
    let mut k: usize = 0;
    while k < 124
        invariant
            k <= 124,
            encoded@.len() == k,
        decreases 124 - k,
    {
        encoded.push(0);
        k += 1;
    }
    let len = match encode_snapshot_response(
        encoded.as_mut_slice(),
        snapshot_id,
        sequence,
        response_status,
        entries,
    ) {
        Some(n) => n,
        None => {
            return;
        },
    };
    let ghost bytes = encoded@.subrange(0, len as int);
    let mut i: usize = 0;
    while i < len
        invariant
            i <= len <= 124,
            len == (7 + 3 * entries@.len()) * 4,
            encoded@.len() == 124,
            bytes == encoded@.subrange(0, len as int),
            m.data@.len() == 256,
            forall|j: int| 0 <= j < i ==> m.data@[j] == bytes[j],
            m.magic == old(m).magic && m.version == old(m).version && m.size == old(m).size
                && m.flags == old(m).flags && m.seq == old(m).seq && m.ack == old(m).ack && m.state
                == old(m).state && m.stop_reason == old(m).stop_reason && m.command == old(
                m,
            ).command && m.arg0 == old(m).arg0 && m.arg1 == old(m).arg1 && m.status == old(
                m,
            ).status,
        decreases len - i,
    {
        m.data[i] = encoded[i];
        i += 1;
    }
    assert(m.data@.subrange(0, len as int) =~= bytes);
    m.data_len = len as u32;
}

impl DebugStub {
    /// Publishes a running, idle version-1 mailbox and starts from its
    /// sequence number.
    pub fn init_mailbox(&mut self, m: &mut DebugMailbox)
        ensures
            final(m).magic == MAGIC && final(m).version == VERSION && final(m).size
                == MAILBOX_V1_SIZE && final(m).flags == 0 && final(m).seq == 0 && final(m).ack
                == 0 && final(m).state == STATE_RUNNING && final(m).stop_reason == STOP_REASON_NONE
                && final(m).command == COMMAND_NONE && final(m).arg0 == 0 && final(m).arg1 == 0
                && final(m).status == STATUS_OK && final(m).data_len == 0,
            final(self).last_seq == 0,
    {
        m.magic = MAGIC;
        m.version = VERSION;
        m.size = MAILBOX_V1_SIZE;
        m.flags = 0;
        m.seq = 0;
        m.ack = 0;
        m.state = STATE_RUNNING;
        m.stop_reason = STOP_REASON_NONE;
        m.command = COMMAND_NONE;
        m.arg0 = 0;
        m.arg1 = 0;
        m.status = STATUS_OK;
        m.data_len = 0;
        self.last_seq = m.seq;
    }

    /// Answers a new command (a sequence number other than the last one):
    /// none and ping succeed, an allowlisted snapshot is encoded into the
    /// data area, anything else is a bad command; then the command is
    /// cleared and the sequence acknowledged.
    pub fn poll(&mut self, m: &mut DebugMailbox)
        ensures
            old(m).seq == old(self).last_seq ==> *final(m) == *old(m) && final(self).last_seq
                == old(self).last_seq,
            old(m).seq != old(self).last_seq ==> {
                &&& final(self).last_seq == old(m).seq
                &&& final(m).ack == old(m).seq
                &&& final(m).command == COMMAND_NONE
                &&& final(m).seq == old(m).seq
                &&& final(m).state == old(m).state && final(m).stop_reason == old(m).stop_reason
                &&& final(m).status == (if old(m).command == COMMAND_NONE || old(m).command
                    == COMMAND_PING {
                    STATUS_OK
                } else if old(m).command == COMMAND_READ_SNAPSHOT_ALLOWLISTED {
                    match snapshot_reply(*old(m), old(m).seq) {
                        None => STATUS_BAD_CHECKSUM,
                        Some((status, _)) => status,
                    }
                } else {
                    STATUS_BAD_COMMAND
                })
                &&& old(m).command == COMMAND_READ_SNAPSHOT_ALLOWLISTED ==> match snapshot_reply(
                    *old(m),
                    old(m).seq,
                ) {
                    None => final(m).data_len == 0,
                    Some((status, entries)) => final(m).data_len == (7 + 3 * entries.len()) * 4
                        && final(m).data@.subrange(0, ((7 + 3 * entries.len()) * 4) as int)
                        == words_to_bytes(
                        snapshot_words(old(m).arg0, old(m).seq, status, entries),
                    ),
                }
            },
    {
        let seq = m.seq;
        if seq == self.last_seq {
            return;
        }
        let command = m.command;
        let status = if command == COMMAND_NONE || command == COMMAND_PING {
            STATUS_OK
        } else if command == COMMAND_READ_SNAPSHOT_ALLOWLISTED {
            self.read_snapshot_allowlisted(m, seq)
        } else {
            STATUS_BAD_COMMAND
        };
        m.status = status;
        m.command = COMMAND_NONE;
        m.ack = seq;
        self.last_seq = seq;
    }

    fn read_snapshot_allowlisted(&self, m: &mut DebugMailbox, sequence: u32) -> (r: u32)
        ensures
            r == (match snapshot_reply(*old(m), sequence) {
                None => STATUS_BAD_CHECKSUM,
                Some((status, _)) => status,
            }),
            match snapshot_reply(*old(m), sequence) {
                None => final(m).data_len == 0,
                Some((status, entries)) => final(m).data_len == (7 + 3 * entries.len()) * 4
                    && final(m).data@.subrange(0, ((7 + 3 * entries.len()) * 4) as int) == words_to_bytes(
                    snapshot_words(old(m).arg0, sequence, status, entries),
                ),
            },
            final(m).magic == old(m).magic && final(m).version == old(m).version && final(m).size
                == old(m).size && final(m).flags == old(m).flags && final(m).seq == old(m).seq
                && final(m).ack == old(m).ack && final(m).state == old(m).state
                && final(m).stop_reason == old(m).stop_reason && final(m).command == old(m).command
                && final(m).arg0 == old(m).arg0 && final(m).arg1 == old(m).arg1,
    {
        let snapshot_id = m.arg0;
        let expected = snapshot_request_checksum(sequence, snapshot_id);
        if m.arg1 != expected {
            m.data_len = 0;
            return STATUS_BAD_CHECKSUM;
        }
        if snapshot_id == SNAPSHOT_CORE_STATUS {
            let entries = core_status_entries(m);
            write_snapshot_response(m, snapshot_id, sequence, STATUS_OK, entries.as_slice());
            STATUS_OK
        } else {
            let none: Vec<SnapshotEntry> = Vec::new();
            write_snapshot_response(m, snapshot_id, sequence, STATUS_BAD_SNAPSHOT_ID, none.as_slice());
            STATUS_BAD_SNAPSHOT_ID
        }
    }
}

impl DebugStub {
    /// Starts the stub: publishes the mailbox as `init_mailbox` does.
    pub fn init(&mut self, m: &mut DebugMailbox)
        ensures
            final(m).magic == MAGIC && final(m).state == STATE_RUNNING && final(m).seq == 0
                && final(m).ack == 0 && final(m).command == COMMAND_NONE && final(m).status
                == STATUS_OK && final(m).data_len == 0,
            final(self).last_seq == 0,
    {
        self.init_mailbox(m);
    }
}

/// Marks the mailbox faulted by a panic; the firmware then keeps polling.
pub fn panic(m: &mut DebugMailbox)
    ensures
        *final(m) == (DebugMailbox {
            state: STATE_FAULTED,
            stop_reason: STOP_REASON_PANIC,
            ..*old(m)
        }),
{
    m.state = STATE_FAULTED;
    m.stop_reason = STOP_REASON_PANIC;
}

/// Marks the mailbox faulted by an exception; the firmware then keeps
/// polling.
pub fn fault(m: &mut DebugMailbox)
    ensures
        *final(m) == (DebugMailbox {
            state: STATE_FAULTED,
            stop_reason: STOP_REASON_EXCEPTION,
            ..*old(m)
        }),
{
    m.state = STATE_FAULTED;
    m.stop_reason = STOP_REASON_EXCEPTION;
}

/// What a poll leaves in the data area for an allowlisted snapshot whose
/// request checksum holds is a valid snapshot response that echoes the
/// command's sequence number in its fourth word.
pub proof fn lemma_snapshot_reply_is_valid(m: DebugMailbox)
    requires
        snapshot_reply(m, m.seq) is Some,
    ensures
        ({
            let (status, entries) = snapshot_reply(m, m.seq)->0;
            let data = words_to_bytes(snapshot_words(m.arg0, m.seq, status, entries));
            valid_snapshot_response(data) && word_at(data, 3) == m.seq
        }),
{
    let (status, entries) = snapshot_reply(m, m.seq)->0;
    assert(entries.len() <= 8);
    lemma_snapshot_round_trip(m.arg0, m.seq, status, entries);
    assert(word_at(words_to_bytes(snapshot_words(m.arg0, m.seq, status, entries)), 3)
        == snapshot_words(m.arg0, m.seq, status, entries)[3]);
}

} // verus!
