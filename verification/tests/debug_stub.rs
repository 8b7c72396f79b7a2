use rp1::debug::{
    snapshot_request_checksum, snapshot_response_is_valid, snapshot_response_word, DebugMailbox,
    COMMAND_NONE, COMMAND_PING, COMMAND_READ_SNAPSHOT_ALLOWLISTED, MAGIC, SNAPSHOT_CORE_STATUS,
    STATE_RUNNING, STATUS_BAD_CHECKSUM, STATUS_BAD_COMMAND, STATUS_BAD_SNAPSHOT_ID, STATUS_OK,
};
use rp1::debug_stub::DebugStub;

fn started() -> (DebugStub, DebugMailbox) {
    let mut stub = DebugStub { last_seq: 99 };
    let mut mailbox = DebugMailbox::new();
    mailbox.seq = 7;
    mailbox.status = 0x55;
    stub.init_mailbox(&mut mailbox);
    (stub, mailbox)
}

#[test]
fn init_publishes_an_idle_running_mailbox() {
    let (stub, mailbox) = started();
    assert_eq!(stub.last_seq, 0);
    assert_eq!(mailbox.magic, MAGIC);
    assert_eq!(mailbox.seq, 0);
    assert_eq!(mailbox.state, STATE_RUNNING);
    assert_eq!(mailbox.status, STATUS_OK);
    assert_eq!(mailbox.size, 380);
}

#[test]
fn same_sequence_is_not_answered_twice() {
    let (mut stub, mut mailbox) = started();
    mailbox.command = COMMAND_PING;
    stub.poll(&mut mailbox);
    assert_eq!(mailbox.command, COMMAND_PING);
    assert_eq!(mailbox.ack, 0);
    mailbox.seq = 1;
    stub.poll(&mut mailbox);
    assert_eq!((mailbox.ack, mailbox.command, mailbox.status), (1, COMMAND_NONE, STATUS_OK));
    assert_eq!(stub.last_seq, 1);
    mailbox.command = 0x77;
    stub.poll(&mut mailbox);
    assert_eq!(mailbox.command, 0x77);
    mailbox.seq = 2;
    stub.poll(&mut mailbox);
    assert_eq!(mailbox.status, STATUS_BAD_COMMAND);
}

#[test]
fn allowlisted_snapshot_is_checksummed_and_checked() {
    let (mut stub, mut mailbox) = started();
    mailbox.seq = 5;
    mailbox.command = COMMAND_READ_SNAPSHOT_ALLOWLISTED;
    mailbox.arg0 = SNAPSHOT_CORE_STATUS;
    mailbox.arg1 = snapshot_request_checksum(5, SNAPSHOT_CORE_STATUS);
    stub.poll(&mut mailbox);
    assert_eq!(mailbox.status, STATUS_OK);
    let len = mailbox.data_len as usize;
    assert_eq!(len, (7 + 3 * 8) * 4);
    let data = &mailbox.data[..len];
    assert!(snapshot_response_is_valid(data));
    assert_eq!(snapshot_response_word(data, 3), Some(5));
    assert_eq!(snapshot_response_word(data, 6), Some(0x2000_fc00));
    assert_eq!(snapshot_response_word(data, 7), Some(MAGIC));

    mailbox.seq = 6;
    mailbox.command = COMMAND_READ_SNAPSHOT_ALLOWLISTED;
    mailbox.arg1 = 0;
    stub.poll(&mut mailbox);
    assert_eq!(mailbox.status, STATUS_BAD_CHECKSUM);
    assert_eq!(mailbox.data_len, 0);

    mailbox.seq = 7;
    mailbox.command = COMMAND_READ_SNAPSHOT_ALLOWLISTED;
    mailbox.arg0 = 42;
    mailbox.arg1 = snapshot_request_checksum(7, 42);
    stub.poll(&mut mailbox);
    assert_eq!(mailbox.status, STATUS_BAD_SNAPSHOT_ID);
    let data = &mailbox.data[..mailbox.data_len as usize];
    assert!(snapshot_response_is_valid(data));
    assert_eq!(snapshot_response_word(data, 5), Some(0));
}
