//! One-channel SCMI shared-memory transport: the doorbell handler reads one
//! request from the shared words, answers it through the clock server and
//! publishes the response before handing the channel back.

use vstd::prelude::*;
use crate::scmi_clock::{
    answers, extends, is_error, new_calls, Backend, ClockCall, ClockHardware, Error, Response, Server,
    MAILBOX_CHANNEL,
};

verus! {

pub const WORDS: usize = 64;
pub const STATUS: usize = 1;
pub const FLAGS: usize = 4;
pub const LENGTH: usize = 5;
pub const HEADER: usize = 6;
pub const PAYLOAD: usize = 7;
pub const FREE: u32 = 1;
pub const MASK: u32 = 1 << MAILBOX_CHANNEL;

/// One access that the transport asks the board adapter to make.
#[derive(Clone, Copy, Debug, PartialEq, Eq, Structural)]
pub enum MailboxAction {
    /// Acknowledge the doorbell bits in the mask.
    Ack(u32),
    /// Write a shared word.
    Write(usize, u32),
    /// Order every earlier access before every later one.
    Barrier,
    /// Ring the host's doorbell bits in the mask.
    Notify(u32),
}

/// The board adapter of the mailbox: the processor event register, the
/// shared words and the host doorbell. Its barriers order both compiler and
/// bus accesses.
pub trait MailboxIo {
    fn events(&mut self) -> u32;

    fn ack_request(&mut self, mask: u32);

    fn read(&mut self, word: usize) -> u32
        requires
            word < WORDS,
    ;

    fn write(&mut self, word: usize, value: u32)
        requires
            word < WORDS,
    ;

    fn barrier(&mut self);

    fn notify_host(&mut self, mask: u32);
}

/// One mailbox access as the trace of a [`Mailbox`] records it: an action
/// made, the events register read, or a shared word read.
pub enum MailboxEvent {
    Did(MailboxAction),
    Events(u32),
    Read(usize, u32),
}

/// A mailbox with the trace of the accesses made through it.
pub struct Mailbox<M> {
    pub io: M,
    pub log: Ghost<Seq<MailboxEvent>>,
}

impl<M: MailboxIo> Mailbox<M> {
    pub fn new(io: M) -> (r: Self)
        ensures
            r.log@ == Seq::<MailboxEvent>::empty(),
    {
        Mailbox { io, log: Ghost(Seq::empty()) }
    }

    pub fn events(&mut self) -> (r: u32)
        ensures
            final(self).log@ == old(self).log@.push(MailboxEvent::Events(r)),
    {
        let r = self.io.events();
        proof {
            self.log = Ghost(self.log@.push(MailboxEvent::Events(r)));
        }
        r
    }

    pub fn ack_request(&mut self, mask: u32)
        ensures
            final(self).log@ == old(self).log@.push(MailboxEvent::Did(MailboxAction::Ack(mask))),
    {
        self.io.ack_request(mask);
        proof {
            self.log = Ghost(self.log@.push(MailboxEvent::Did(MailboxAction::Ack(mask))));
        }
    }

    pub fn read(&mut self, word: usize) -> (r: u32)
        requires
            word < WORDS,
        ensures
            final(self).log@ == old(self).log@.push(MailboxEvent::Read(word, r)),
    {
        let r = self.io.read(word);
        proof {
            self.log = Ghost(self.log@.push(MailboxEvent::Read(word, r)));
        }
        r
    }

    pub fn write(&mut self, word: usize, value: u32)
        requires
            word < WORDS,
        ensures
            final(self).log@ == old(self).log@.push(MailboxEvent::Did(MailboxAction::Write(word, value))),
    {
        self.io.write(word, value);
        proof {
            self.log = Ghost(self.log@.push(MailboxEvent::Did(MailboxAction::Write(word, value))));
        }
    }

    pub fn barrier(&mut self)
        ensures
            final(self).log@ == old(self).log@.push(MailboxEvent::Did(MailboxAction::Barrier)),
    {
        self.io.barrier();
        proof {
            self.log = Ghost(self.log@.push(MailboxEvent::Did(MailboxAction::Barrier)));
        }
    }

    pub fn notify_host(&mut self, mask: u32)
        ensures
            final(self).log@ == old(self).log@.push(MailboxEvent::Did(MailboxAction::Notify(mask))),
    {
        self.io.notify_host(mask);
        proof {
            self.log = Ghost(self.log@.push(MailboxEvent::Did(MailboxAction::Notify(mask))));
        }
    }
}

/// The trace entries of making `actions`.
pub open spec fn did(actions: Seq<MailboxAction>) -> Seq<MailboxEvent> {
    actions.map_values(|a: MailboxAction| MailboxEvent::Did(a))
}

/// The lowest address of the firmware's data RAM.
pub const SHARED_RAM_START: usize = 0x2000_0000;
/// The first address past the region the shared words may occupy.
pub const SHARED_RAM_END: usize = 0x2000_e000;
/// The byte length of the shared words.
pub const SHARED_BYTES: usize = 256;

/// Whether the shared words may start at `start`: word aligned, inside the
/// data RAM and ending at or before its end.
pub open spec fn shared_address_ok(start: usize) -> bool {
    &&& start % 4 == 0
    &&& start >= SHARED_RAM_START
    &&& start + SHARED_BYTES <= SHARED_RAM_END
}

/// The board's volatile mailbox, placed at a checked shared-word address.
#[derive(Clone, Copy, Debug, PartialEq, Eq, Structural)]
pub struct Rp1Mailbox {
    shared: usize,
}

impl Rp1Mailbox {
    /// Accepts `shared` only where the shared words fit the data RAM.
    pub fn new(shared: usize) -> (r: Option<Self>)
        ensures
            r is Some <==> shared_address_ok(shared),
            r matches Some(mb) ==> mb.view_shared() == shared,
    {
        if shared & 3 != 0 || shared < SHARED_RAM_START {
            assert(shared & 3 != 0 <==> shared % 4 != 0) by (bit_vector);
            return None;
        }
        assert(shared & 3 == 0 <==> shared % 4 == 0) by (bit_vector);
        let end = match shared.checked_add(SHARED_BYTES) {
            Some(e) => e,
            None => {
                return None;
            },
        };
        if end > SHARED_RAM_END {
            return None;
        }
        Some(Rp1Mailbox { shared })
    }

    /// The address of the first shared word.
    pub fn shared(&self) -> (r: usize)
        ensures
            r == self.view_shared(),
    {
        self.shared
    }

    pub closed spec fn view_shared(&self) -> usize {
        self.shared
    }
}

#[derive(Clone, Copy, Debug, Default, PartialEq, Eq, Structural)]
pub struct Counters {
    pub entries: u32,
    pub requests: u32,
    pub responses: u32,
    pub notifications: u32,
    pub malformed: u32,
}

/// Zero writes to every shared word, in order.
pub open spec fn zero_writes(n: nat) -> Seq<MailboxAction> {
    Seq::new(n, |i: int| MailboxAction::Write(i as usize, 0))
}

/// Every action writes a shared word inside the channel.
pub open spec fn actions_in_channel(actions: Seq<MailboxAction>) -> bool {
    forall|i: int|
        0 <= i < actions.len() ==> (#[trigger] actions[i] matches MailboxAction::Write(w, _) ==> w
            < WORDS)
}

/// The channel's initialization: every word cleared, then the channel
/// published free between two barriers.
pub open spec fn initialization_actions() -> Seq<MailboxAction> {
    zero_writes(WORDS as nat) + seq![
        MailboxAction::Barrier,
        MailboxAction::Write(STATUS, FREE),
        MailboxAction::Barrier,
    ]
}

/// Whether the last write to word `i` among `actions` stores `v`.
pub open spec fn last_write_is(actions: Seq<MailboxAction>, i: usize, v: u32) -> bool {
    exists|j: int|
        0 <= j < actions.len() && #[trigger] actions[j] == MailboxAction::Write(i, v) && forall|k: int|
            j < k < actions.len() ==> !(#[trigger] actions[k] matches MailboxAction::Write(w, _) && w
                == i)
}

/// Initialization leaves every shared word zero but STATUS, which holds
/// FREE, published last between two barriers.
pub proof fn lemma_initialization_publishes_free_last()
    ensures
        last_write_is(initialization_actions(), STATUS, FREE),
        forall|i: usize|
            i < WORDS && i != STATUS ==> #[trigger] last_write_is(initialization_actions(), i, 0),
        initialization_actions().len() == WORDS + 3,
        initialization_actions().skip(WORDS as int) == seq![
            MailboxAction::Barrier,
            MailboxAction::Write(STATUS, FREE),
            MailboxAction::Barrier,
        ],
{
    let a = initialization_actions();
    assert(a.skip(WORDS as int) =~= seq![
        MailboxAction::Barrier,
        MailboxAction::Write(STATUS, FREE),
        MailboxAction::Barrier,
    ]);
    assert(a[WORDS + 1] == MailboxAction::Write(STATUS, FREE));
    assert(a[WORDS + 2] == MailboxAction::Barrier);
    assert forall|i: usize| i < WORDS && i != STATUS implies #[trigger] last_write_is(a, i, 0) by {
        assert(a[i as int] == MailboxAction::Write(i, 0));
        assert forall|k: int| i < k < a.len() implies !(#[trigger] a[k] matches MailboxAction::Write(
            w,
            _,
        ) && w == i) by {
            if k < WORDS {
                assert(a[k] == MailboxAction::Write(k as usize, 0));
            } else {
                assert(a[k] == a.skip(WORDS as int)[k - WORDS]);
            }
        }
    }
}

pub fn initialization() -> (r: Vec<MailboxAction>)
    ensures
        r@ == initialization_actions(),
        actions_in_channel(r@),
{
    let mut actions: Vec<MailboxAction> = Vec::new();
    let mut i: usize = 0;
    while i < WORDS
        invariant
            i <= WORDS,
            actions@ == zero_writes(i as nat),
        decreases WORDS - i,
    {
        actions.push(MailboxAction::Write(i, 0));
        i += 1;
        assert(actions@ =~= zero_writes(i as nat));
    }
    actions.push(MailboxAction::Barrier);
    actions.push(MailboxAction::Write(STATUS, FREE));
    actions.push(MailboxAction::Barrier);
    assert(actions@ =~= initialization_actions());
    actions
}

/// Makes the accesses of `actions` in order.
pub fn perform<M: MailboxIo>(io: &mut Mailbox<M>, actions: &Vec<MailboxAction>)
    requires
        actions_in_channel(actions@),
    ensures
        final(io).log@ == old(io).log@ + did(actions@),
{
    let ghost l0 = io.log@;
    let mut i: usize = 0;
    assert(l0 + did(actions@.take(0)) =~= l0);
    while i < actions.len()
        invariant
            i <= actions@.len(),
            actions_in_channel(actions@),
            io.log@ == l0 + did(actions@.take(i as int)),
        decreases actions@.len() - i,
    {
        let ghost before = io.log@;
        proof {
            assert(actions@[i as int] == actions@[i as int]);
        }
        match actions[i] {
            MailboxAction::Ack(mask) => io.ack_request(mask),
            MailboxAction::Write(word, value) => io.write(word, value),
            MailboxAction::Barrier => io.barrier(),
            MailboxAction::Notify(mask) => io.notify_host(mask),
        }
        proof {
            assert(io.log@ == before.push(MailboxEvent::Did(actions@[i as int])));
            assert(did(actions@.take(i + 1)) =~= did(actions@.take(i as int)).push(MailboxEvent::Did(actions@[i as int])));
        }
        i += 1;
    }
    assert(actions@.take(actions@.len() as int) =~= actions@);
}

/// Clears the channel and then publishes it free. Call only while Linux and
/// the channel are quiesced.
pub fn initialize<M: MailboxIo>(io: &mut Mailbox<M>)
    ensures
        final(io).log@ == old(io).log@ + did(initialization_actions()),
{
    let actions = initialization();
    perform(io, &actions);
}

/// The number of argument words in a request of `length` bytes with
/// `flags`, or `None` when the frame is malformed: the length must be a
/// multiple of four from 4 to 20, and only the completion-interrupt flag may
/// be set.
pub open spec fn request_args(length: u32, flags: u32) -> Option<nat> {
    if length < 4 || length > 20 || length % 4 != 0 || flags & !1u32 != 0 {
        None
    } else {
        Some(((length - 4) / 4) as nat)
    }
}

pub fn request_arg_count(length: u32, flags: u32) -> (r: Option<usize>)
    ensures
        r == (match request_args(length, flags) {
            Some(n) => Some(n as usize),
            None => None,
        }),
{
    if length < 4 || length > 20 || length % 4 != 0 || flags & !1u32 != 0 {
        None
    } else {
        Some(((length - 4) / 4) as usize)
    }
}

/// The publication tail of a serviced request: the length word, a barrier,
/// the channel handed back as free and a barrier, then, when the caller asked
/// for it, the completion doorbell and a barrier.
pub open spec fn publication_tail(len: usize, notify: bool) -> Seq<MailboxAction> {
    seq![
        MailboxAction::Write(LENGTH, (4 + len * 4) as u32),
        MailboxAction::Barrier,
        MailboxAction::Write(STATUS, FREE),
        MailboxAction::Barrier,
    ] + if notify {
        seq![MailboxAction::Notify(MASK), MailboxAction::Barrier]
    } else {
        Seq::empty()
    }
}

/// The response words, one write each, after the header.
pub open spec fn response_writes(r: Response) -> Seq<MailboxAction> {
    Seq::new(r.len as nat, |i: int| MailboxAction::Write((PAYLOAD + i) as usize, r.words@[i]))
}

/// The accesses that publish `response`: its words after the header, then
/// the length, the channel handed back free and, where the request asked
/// for it, the completion doorbell, each step behind a barrier. The header
/// word, which carries the host's token, is left as the host wrote it.
pub fn publication(response: &Response, notify: bool) -> (r: Vec<MailboxAction>)
    requires
        1 <= response.len <= 8,
    ensures
        r@ == response_writes(*response) + publication_tail(response.len, notify),
        actions_in_channel(r@),
{
    let mut actions: Vec<MailboxAction> = Vec::new();
    let mut i: usize = 0;
    while i < response.len
        invariant
            i <= response.len <= 8,
            response.words@.len() == 8,
            actions@ == response_writes(*response).subrange(0, i as int),
        decreases response.len - i,
    {
        actions.push(MailboxAction::Write(PAYLOAD + i, response.words[i]));
        i += 1;
        assert(actions@ =~= response_writes(*response).subrange(0, i as int));
    }
    assert(response_writes(*response).subrange(0, i as int) =~= response_writes(*response));
    actions.push(MailboxAction::Write(LENGTH, (4 + response.len * 4) as u32));
    actions.push(MailboxAction::Barrier);
    actions.push(MailboxAction::Write(STATUS, FREE));
    actions.push(MailboxAction::Barrier);
    if notify {
        actions.push(MailboxAction::Notify(MASK));
        actions.push(MailboxAction::Barrier);
    }
    assert(actions@ =~= response_writes(*response) + publication_tail(response.len, notify));
    actions
}

/// The value that a register or word read returned.
pub open spec fn value_of(x: MailboxEvent) -> u32 {
    match x {
        MailboxEvent::Events(v) => v,
        MailboxEvent::Read(_, v) => v,
        MailboxEvent::Did(_) => 0,
    }
}

/// The reads of the argument words, in order.
pub open spec fn arg_reads(args: Seq<u32>) -> Seq<MailboxEvent> {
    Seq::new(args.len(), |i: int| MailboxEvent::Read((PAYLOAD + i) as usize, args[i]))
}

/// The accesses that publish `resp`.
pub open spec fn published(resp: Response, notify: bool) -> Seq<MailboxEvent> {
    did(response_writes(resp) + publication_tail(resp.len, notify))
}

/// The accesses of one doorbell service, `log`, with the backend calls it
/// made and the server before and after: the event register is read; when
/// this channel's doorbell rang it is acknowledged behind a barrier and the
/// status read; when the channel is busy the length, header and flags are
/// read, then the argument words of a well-formed frame, and the answer is
/// published. A malformed frame is answered with a protocol error and never
/// reaches the server.
pub open spec fn service_log(
    s: Server,
    after: Server,
    calls: Seq<ClockCall>,
    log: Seq<MailboxEvent>,
    r: bool,
) -> bool {
    let events = value_of(log[0]);
    let status = value_of(log[3]);
    let length = value_of(log[4]);
    let header = value_of(log[5]);
    let flags = value_of(log[6]);
    let head = seq![
        MailboxEvent::Events(events),
        MailboxEvent::Did(MailboxAction::Ack(MASK)),
        MailboxEvent::Did(MailboxAction::Barrier),
        MailboxEvent::Read(STATUS, status),
    ];
    let frame = head + seq![
        MailboxEvent::Read(LENGTH, length),
        MailboxEvent::Read(HEADER, header),
        MailboxEvent::Read(FLAGS, flags),
    ];
    if log.len() >= 1 && events & MASK == 0 {
        !r && log == seq![MailboxEvent::Events(events)] && after == s && calls.len() == 0
    } else if log.len() >= 4 && status & FREE != 0 {
        !r && log == head && after == s && calls.len() == 0
    } else {
        &&& r && log.len() >= 7
        &&& match request_args(length, flags) {
            None => after == s && calls.len() == 0 && exists|resp: Response|
                published(resp, flags & 1 != 0) == log.skip(7) && log == frame + published(
                    resp,
                    flags & 1 != 0,
                ) && #[trigger] is_error(resp, Error::Protocol),
            Some(n) => {
                let args = Seq::new(n, |i: int| value_of(log[7 + i]));
                exists|resp: Response|
                    published(resp, flags & 1 != 0) == log.skip(7 + n as int) && log == frame
                        + arg_reads(args) + published(resp, flags & 1 != 0) && #[trigger] answers(
                        s,
                        after,
                        header,
                        args,
                        calls,
                        resp,
                    )
            },
        }
    }
}

/// Services the doorbell: at most one request and four argument words.
/// Returns whether a response was published. Only this channel's request is
/// acknowledged; a free channel or an unrelated event publishes nothing.
pub fn service_irq<H: ClockHardware, M: MailboxIo>(
    server: &mut Server,
    hw: &mut Backend<H>,
    io: &mut Mailbox<M>,
    count: &mut Counters,
) -> (r: bool)
    requires
        old(server).wf(),
    ensures
        final(server).wf(),
        extends(old(hw).calls@, final(hw).calls@),
        old(io).log@.len() <= final(io).log@.len(),
        final(io).log@.take(old(io).log@.len() as int) == old(io).log@,
        service_log(
            *old(server),
            *final(server),
            new_calls(old(hw).calls@, final(hw).calls@),
            final(io).log@.skip(old(io).log@.len() as int),
            r,
        ),
        final(count).entries == old(count).entries.wrapping_add(1),
        !r ==> *final(server) == *old(server) && *final(count) == (Counters {
            entries: final(count).entries,
            ..*old(count)
        }),
        r ==> final(count).requests == old(count).requests.wrapping_add(1)
            && final(count).responses == old(count).responses.wrapping_add(1),
{
    let ghost l0 = io.log@;
    let ghost c0 = hw.calls@;
    proof {
        assert(c0.take(c0.len() as int) =~= c0);
        assert(new_calls(c0, c0).len() == 0);
    }
    count.entries = count.entries.wrapping_add(1);
    let events = io.events();
    if events & MASK == 0 {
        proof {
            assert(io.log@.take(l0.len() as int) =~= l0);
            assert(io.log@.skip(l0.len() as int) =~= seq![MailboxEvent::Events(events)]);
        }
        return false;
    }
    io.ack_request(MASK);
    io.barrier();
    let status = io.read(STATUS);
    let ghost head = seq![
        MailboxEvent::Events(events),
        MailboxEvent::Did(MailboxAction::Ack(MASK)),
        MailboxEvent::Did(MailboxAction::Barrier),
        MailboxEvent::Read(STATUS, status),
    ];
    proof {
        assert(io.log@ =~= l0 + head);
    }
    if status & FREE != 0 {
        proof {
            assert(io.log@.take(l0.len() as int) =~= l0);
            assert(io.log@.skip(l0.len() as int) =~= head);
        }
        return false;
    }
    count.requests = count.requests.wrapping_add(1);
    let length = io.read(LENGTH);
    let header = io.read(HEADER);
    let flags = io.read(FLAGS);
    let ghost frame = head + seq![
        MailboxEvent::Read(LENGTH, length),
        MailboxEvent::Read(HEADER, header),
        MailboxEvent::Read(FLAGS, flags),
    ];
    proof {
        assert(io.log@ =~= l0 + frame);
    }
    let notify = flags & 1 != 0;
    let ghost mut args_seen: Seq<u32> = Seq::empty();
    let response = match request_arg_count(length, flags) {
        None => {
            count.malformed = count.malformed.wrapping_add(1);
            Response::error(Error::Protocol)
        },
        Some(n) => {
            let mut args: Vec<u32> = Vec::new();
            let mut i: usize = 0;
            assert(arg_reads(args@) =~= Seq::<MailboxEvent>::empty());
            while i < n
                invariant
                    i <= n <= 4,
                    args@.len() == i,
                    io.log@ == l0 + frame + arg_reads(args@),
                decreases n - i,
            {
                let v = io.read(PAYLOAD + i);
                proof {
                    assert(arg_reads(args@.push(v)) =~= arg_reads(args@).push(
                        MailboxEvent::Read((PAYLOAD + i) as usize, v),
                    ));
                }
                args.push(v);
                i += 1;
            }
            proof {
                args_seen = args@;
            }
            server.request(header, args.as_slice(), hw)
        },
    };
    let ghost l1 = io.log@;
    let actions = publication(&response, notify);
    perform(io, &actions);
    proof {
        let t = io.log@.skip(l0.len() as int);
        assert(io.log@.take(l0.len() as int) =~= l0);
        match request_args(length, flags) {
            None => {
                assert(t =~= frame + published(response, notify));
                assert(t.skip(7) =~= published(response, notify));
            },
            Some(n) => {
                assert(l1 == l0 + frame + arg_reads(args_seen));
                assert(t =~= frame + arg_reads(args_seen) + published(response, notify));
                assert(t.skip(7 + n as int) =~= published(response, notify));
                assert(Seq::new(n, |i: int| value_of(t[7 + i])) =~= args_seen);
            },
        }
    }
    count.responses = count.responses.wrapping_add(1);
    if notify {
        count.notifications = count.notifications.wrapping_add(1);
    }
    true
}

} // verus!
