use rp1::scmi_clock::{clock_profile, Backend, ClockHardware, Error, PhysicalState, Server};
use rp1::scmi_mailbox::{
    initialization, initialize, publication, request_arg_count, service_irq, Counters,
    Mailbox, MailboxAction, MailboxIo, Rp1Mailbox, FLAGS, FREE,
    HEADER, LENGTH, MASK, PAYLOAD, STATUS, WORDS,
};

struct Fake {
    words: [u32; WORDS],
    events: u32,
    log: Vec<(usize, u32)>,
}

impl MailboxIo for Fake {
    fn events(&mut self) -> u32 {
        self.events
    }
    fn ack_request(&mut self, mask: u32) {
        self.events &= !mask;
        self.log.push((100, mask));
    }
    fn read(&mut self, i: usize) -> u32 {
        self.words[i]
    }
    fn write(&mut self, i: usize, v: u32) {
        self.words[i] = v;
        self.log.push((i, v));
    }
    fn barrier(&mut self) {
        self.log.push((101, 0));
    }
    fn notify_host(&mut self, mask: u32) {
        self.log.push((102, mask));
    }
}

struct Hw;

impl ClockHardware for Hw {
    fn read(&mut self, _: u32) -> Result<PhysicalState, Error> {
        Ok(PhysicalState { rate_hz: 100_000_000, enabled: true })
    }
    fn enable(&mut self, _: u32, _: bool) -> Result<(), Error> {
        panic!("read-only test must not write")
    }
}

fn fake() -> Fake {
    let mut f = Fake { words: [0; WORDS], events: MASK | 1, log: Vec::new() };
    f.words[FLAGS] = 1;
    f.words[LENGTH] = 8;
    f.words[HEADER] = (0x3ff << 18) | (0x14 << 10) | 6;
    f
}

#[test]
fn irq_response_publication_order_and_token() {
    let mut f = Mailbox::new(fake());
    let header = f.io.words[HEADER];
    let clocks = clock_profile();
    let mut s = Server::new(&clocks, false).unwrap();
    let mut c = Counters::default();
    assert!(service_irq(&mut s, &mut Backend::new(Hw), &mut f, &mut c));
    assert_eq!(f.io.events, 1);
    assert_eq!(f.io.words[HEADER], header);
    assert_eq!(f.io.words[PAYLOAD..PAYLOAD + 3], [0, 100_000_000, 0]);
    assert_eq!(f.io.words[LENGTH], 16);
    assert_eq!(
        &f.io.log[f.io.log.len() - 6..],
        &[(LENGTH, 16), (101, 0), (STATUS, FREE), (101, 0), (102, MASK), (101, 0)]
    );
    assert_eq!(c.notifications, 1);
}

#[test]
fn free_or_unrelated_event_does_not_replay() {
    let mut f = Mailbox::new(fake());
    f.io.words[STATUS] = FREE;
    let clocks = clock_profile();
    let mut s = Server::new(&clocks, false).unwrap();
    let mut c = Counters::default();
    assert!(!service_irq(&mut s, &mut Backend::new(Hw), &mut f, &mut c));
    assert!(!service_irq(&mut s, &mut Backend::new(Hw), &mut f, &mut c));
    assert_eq!(c.responses, 0);
    assert_eq!(f.io.events, 1);
}

#[test]
fn malformed_length_is_bounded_and_reported() {
    for len in [0, 3, 5, 24, 232, u32::MAX] {
        let mut f = Mailbox::new(fake());
        f.io.words[LENGTH] = len;
        let clocks = clock_profile();
        let mut s = Server::new(&clocks, false).unwrap();
        let mut c = Counters::default();
        assert!(service_irq(&mut s, &mut Backend::new(Hw), &mut f, &mut c));
        assert_eq!(f.io.words[PAYLOAD] as i32, -10);
        assert_eq!(c.malformed, 1);
    }
}

#[test]
fn no_intr_flag_does_not_claim_irq_completion() {
    let mut f = Mailbox::new(fake());
    f.io.words[FLAGS] = 0;
    let clocks = clock_profile();
    let mut s = Server::new(&clocks, false).unwrap();
    let mut c = Counters::default();
    assert!(service_irq(&mut s, &mut Backend::new(Hw), &mut f, &mut c));
    assert_eq!(c.responses, 1);
    assert_eq!(c.notifications, 0);
}

#[test]
fn init_publishes_free_last() {
    let mut f = Mailbox::new(fake());
    initialize(&mut f);
    assert_eq!(&f.io.log[f.io.log.len() - 3..], &[(101, 0), (STATUS, FREE), (101, 0)]);
    assert_eq!(f.io.words[FLAGS], 0);
}

#[test]
fn request_lengths_and_flags_are_checked() {
    assert_eq!(request_arg_count(4, 0), Some(0));
    assert_eq!(request_arg_count(20, 1), Some(4));
    assert_eq!(request_arg_count(24, 0), None);
    assert_eq!(request_arg_count(8, 2), None);
    assert_eq!(request_arg_count(6, 0), None);
}

#[test]
fn shared_words_must_fit_the_data_ram() {
    assert_eq!(Rp1Mailbox::new(0x2000_0000).map(|m| m.shared()), Some(0x2000_0000));
    assert_eq!(Rp1Mailbox::new(0x2000_df00).map(|m| m.shared()), Some(0x2000_df00));
    assert!(Rp1Mailbox::new(0x2000_df04).is_none());
    assert!(Rp1Mailbox::new(0x2000_0002).is_none());
    assert!(Rp1Mailbox::new(0x1fff_fffc).is_none());
    assert!(Rp1Mailbox::new(usize::MAX - 3).is_none());
}

#[test]
fn publication_writes_words_then_hands_the_channel_back() {
    let clocks = clock_profile();
    let mut s = Server::new(&clocks, false).unwrap();
    let response = s.request((0x14 << 10) | 6, &[0], &mut Backend::new(Hw));
    let actions = publication(&response, true);
    assert_eq!(
        actions,
        vec![
            MailboxAction::Write(PAYLOAD, 0),
            MailboxAction::Write(PAYLOAD + 1, 100_000_000),
            MailboxAction::Write(PAYLOAD + 2, 0),
            MailboxAction::Write(LENGTH, 16),
            MailboxAction::Barrier,
            MailboxAction::Write(STATUS, FREE),
            MailboxAction::Barrier,
            MailboxAction::Notify(MASK),
            MailboxAction::Barrier,
        ]
    );
    assert_eq!(publication(&response, false).len(), 7);
    let init = initialization();
    assert_eq!(init.len(), WORDS + 3);
    assert_eq!(init[WORDS + 1], MailboxAction::Write(STATUS, FREE));
}
