//! Bounded service of the I2C1 receive engine from its owned interrupt:
//! every FIFO access is permitted by the engine first and recorded right
//! after, every snapshot is observed before anything is acknowledged, and
//! the first STOP and first fatal snapshots are kept as evidence.
//!
//! The caller owns the port and the engine, serializes every call against
//! the owned interrupt, establishes clean and quiet evidence before arming,
//! and keeps the deadlines, entry limits and terminal cleanup. Neither
//! `prime` nor `service_irq` re-arms, enables interrupts or cleans up.

use vstd::prelude::*;
use crate::i2c::tx_fifo_depth;
use crate::i2c_rx_state::{
    active_check, Rejected, RxState, RxView, State, FATAL_CAUSES, OWNED_CAUSES, STOP_DET,
};

verus! {

/// The single-byte-read registers of I2C1 in one snapshot.
#[derive(Clone, Copy, Debug, PartialEq, Eq, Structural)]
pub struct I2c1Read1Snapshot {
    pub enable_status: u32,
    pub interrupt_mask: u32,
    pub raw_interrupt_status: u32,
    pub masked_interrupt_status: u32,
    pub abort_source: u32,
    pub rx_level: u32,
    pub tx_level: u32,
    pub rx_threshold: u32,
}

/// The I2C1 controller as the adapter uses it.
pub trait Read1Port {
    /// The registers of the snapshot, read now.
    fn snapshot(&mut self) -> I2c1Read1Snapshot;

    /// IC_COMP_PARAM_1, which encodes the FIFO depths.
    fn component_parameter(&mut self) -> u32;

    /// Writes one read command word to DATA_CMD.
    fn issue_read_command(&mut self, word: u32);

    /// Pops one RX word if the RX level, read again, is from one to
    /// `max_level`.
    fn pop_rx_one(&mut self, max_level: u32) -> Option<u32>;

    /// Clears exactly the causes that `snapshot` observed; returns them.
    fn ack(&mut self, snapshot: I2c1Read1Snapshot) -> u32;

    /// Masks every interrupt of the controller.
    fn mask_irq(&mut self);
}

/// One port access as the trace of a [`Port`] records it, with what it
/// returned.
pub enum PortEvent {
    Snapshot(I2c1Read1Snapshot),
    ComponentParameter(u32),
    Issue(u32),
    Pop(u32, Option<u32>),
    Ack(I2c1Read1Snapshot, u32),
    Mask,
}

/// A port with the trace of the accesses made through it.
pub struct Port<P> {
    pub io: P,
    pub log: Ghost<Seq<PortEvent>>,
}

impl<P: Read1Port> Port<P> {
    pub fn new(io: P) -> (r: Self)
        ensures
            r.log@ == Seq::<PortEvent>::empty(),
    {
        Port { io, log: Ghost(Seq::empty()) }
    }

    pub fn snapshot(&mut self) -> (r: I2c1Read1Snapshot)
        ensures
            final(self).log@ == old(self).log@.push(PortEvent::Snapshot(r)),
    {
        let r = self.io.snapshot();
        proof {
            self.log = Ghost(self.log@.push(PortEvent::Snapshot(r)));
        }
        r
    }

    pub fn component_parameter(&mut self) -> (r: u32)
        ensures
            final(self).log@ == old(self).log@.push(PortEvent::ComponentParameter(r)),
    {
        let r = self.io.component_parameter();
        proof {
            self.log = Ghost(self.log@.push(PortEvent::ComponentParameter(r)));
        }
        r
    }

    pub fn issue_read_command(&mut self, word: u32)
        ensures
            final(self).log@ == old(self).log@.push(PortEvent::Issue(word)),
    {
        self.io.issue_read_command(word);
        proof {
            self.log = Ghost(self.log@.push(PortEvent::Issue(word)));
        }
    }

    pub fn pop_rx_one(&mut self, max_level: u32) -> (r: Option<u32>)
        ensures
            final(self).log@ == old(self).log@.push(PortEvent::Pop(max_level, r)),
    {
        let r = self.io.pop_rx_one(max_level);
        proof {
            self.log = Ghost(self.log@.push(PortEvent::Pop(max_level, r)));
        }
        r
    }

    pub fn ack(&mut self, snapshot: I2c1Read1Snapshot) -> (r: u32)
        ensures
            final(self).log@ == old(self).log@.push(PortEvent::Ack(snapshot, r)),
    {
        let r = self.io.ack(snapshot);
        proof {
            self.log = Ghost(self.log@.push(PortEvent::Ack(snapshot, r)));
        }
        r
    }

    pub fn mask_irq(&mut self)
        ensures
            final(self).log@ == old(self).log@.push(PortEvent::Mask),
    {
        self.io.mask_irq();
        proof {
            self.log = Ghost(self.log@.push(PortEvent::Mask));
        }
    }
}

#[derive(Clone, Copy, Debug, PartialEq, Eq, Structural)]
pub enum AdapterFault {
    /// The controller's enable, mask or RX threshold is not what arming set.
    Control,
    /// A FIFO level or depth that the request cannot have produced.
    ObservedGeometry,
}

/// The first, STOP, fatal and last snapshots of one call, with its
/// counters and the first rejection or fault.
#[derive(Clone, Copy, Debug, PartialEq, Eq, Structural)]
pub struct ServiceEvidence {
    pub entry: I2c1Read1Snapshot,
    pub last: I2c1Read1Snapshot,
    pub first_stop: Option<I2c1Read1Snapshot>,
    pub first_fatal: Option<I2c1Read1Snapshot>,
    pub post_pop: Option<I2c1Read1Snapshot>,
    pub last_word: Option<u32>,
    pub rx_depth: u32,
    pub tx_depth: u32,
    pub queued: u16,
    pub pop_attempts: u16,
    pub popped: u16,
    pub acknowledged: u32,
    pub rejected: Option<Rejected>,
    pub fault: Option<AdapterFault>,
}

pub open spec fn causes(s: I2c1Read1Snapshot) -> u32 {
    s.raw_interrupt_status | s.masked_interrupt_status
}

pub open spec fn is_fatal(s: I2c1Read1Snapshot) -> bool {
    causes(s) & FATAL_CAUSES != 0 || s.abort_source != 0
}

/// The snapshots that the evidence keeps are what their names say.
pub open spec fn evidence_wf(e: ServiceEvidence) -> bool {
    &&& (e.first_stop matches Some(s) ==> causes(s) & STOP_DET != 0)
    &&& (e.first_fatal matches Some(s) ==> is_fatal(s))
    &&& e.popped <= e.pop_attempts
}

/// The RX FIFO depth that IC_COMP_PARAM_1 encodes (bits 8..16, plus one).
pub open spec fn rx_depth_of(component_parameter: u32) -> u32 {
    (((component_parameter >> 8u32) & 0xff) + 1) as u32
}

pub fn rx_fifo_depth(component_parameter: u32) -> (r: u32)
    ensures
        r == rx_depth_of(component_parameter),
        1 <= r <= 256,
{
    let field = (component_parameter >> 8u32) & 0xff;
    assert(field <= 0xff) by (bit_vector)
        requires
            field == (component_parameter >> 8u32) & 0xff,
    ;
    field + 1
}

fn min3(a: u32, b: u32, c: u32) -> (r: u32)
    ensures
        r <= a && r <= b && r <= c,
        r == a || r == b || r == c,
{
    let m = if a < b { a } else { b };
    if m < c { m } else { c }
}

/// The engine kept its generation, the bytes it drained, their count and
/// its clean mark: only snapshots, commands and failures happened.
pub open spec fn kept(before: RxView, after: RxView) -> bool {
    &&& after.generation == before.generation
    &&& after.drained == before.drained
    &&& after.bytes == before.bytes
    &&& after.clean == before.clean
    &&& after.requested == before.requested
}

impl ServiceEvidence {
    fn start<P: Read1Port>(port: &mut Port<P>) -> (r: Self)
        ensures
            evidence_wf(r),
            r.queued == 0 && r.pop_attempts == 0 && r.popped == 0,
            r.rejected is None && r.fault is None,
            r.acknowledged == 0 && r.last_word is None && r.post_pop is None,
            r.rx_depth == 0 && r.tx_depth == 0,
            final(port).log@ == old(port).log@.push(PortEvent::Snapshot(r.entry)),
    {
        let entry = port.snapshot();
        let mut result = ServiceEvidence {
            entry,
            last: entry,
            first_stop: None,
            first_fatal: None,
            post_pop: None,
            last_word: None,
            rx_depth: 0,
            tx_depth: 0,
            queued: 0,
            pop_attempts: 0,
            popped: 0,
            acknowledged: 0,
            rejected: None,
            fault: None,
        };
        result.save(entry);
        result
    }

    /// Keeps the first STOP and first fatal snapshot; the last is replaced.
    fn save(&mut self, snapshot: I2c1Read1Snapshot)
        requires
            evidence_wf(*old(self)),
        ensures
            evidence_wf(*final(self)),
            *final(self) == (ServiceEvidence {
                first_stop: if old(self).first_stop is None && causes(snapshot) & STOP_DET != 0 {
                    Some(snapshot)
                } else {
                    old(self).first_stop
                },
                first_fatal: if old(self).first_fatal is None && is_fatal(snapshot) {
                    Some(snapshot)
                } else {
                    old(self).first_fatal
                },
                last: snapshot,
                ..*old(self)
            }),
    {
        let c = snapshot.raw_interrupt_status | snapshot.masked_interrupt_status;
        if c & STOP_DET != 0 && self.first_stop.is_none() {
            self.first_stop = Some(snapshot);
        }
        if (c & FATAL_CAUSES != 0 || snapshot.abort_source != 0) && self.first_fatal.is_none() {
            self.first_fatal = Some(snapshot);
        }
        self.last = snapshot;
    }

    fn reject(&mut self, error: Rejected)
        requires
            evidence_wf(*old(self)),
        ensures
            evidence_wf(*final(self)),
            *final(self) == (ServiceEvidence {
                rejected: if old(self).rejected is None {
                    Some(error)
                } else {
                    old(self).rejected
                },
                ..*old(self)
            }),
    {
        if self.rejected.is_none() {
            self.rejected = Some(error);
        }
    }

    /// Records an adapter fault and ends the request if it is still active.
    fn fail(&mut self, engine: &mut RxState, generation: u32, fault: AdapterFault)
        requires
            evidence_wf(*old(self)),
            old(engine).wf(),
        ensures
            evidence_wf(*final(self)),
            final(engine).wf(),
            final(engine).generation == old(engine).generation,
            final(self).fault is Some,
            final(self).last == old(self).last,
            final(self).queued == old(self).queued,
            final(self).pop_attempts == old(self).pop_attempts,
            final(self).popped == old(self).popped,
            final(self).rx_depth == old(self).rx_depth,
            final(self).tx_depth == old(self).tx_depth,
            final(self).last_word == old(self).last_word,
            final(self).post_pop == old(self).post_pop,
            final(self).acknowledged == old(self).acknowledged,
            final(self).entry == old(self).entry,
            final(engine).state != State::Active || final(engine).generation != generation,
            kept(old(engine)@, final(engine)@),
    {
        if self.fault.is_none() {
            self.fault = Some(fault);
        }
        match engine.fail_adapter(generation) {
            Ok(()) => {},
            Err(error) => self.reject(error),
        }
    }

    /// Saves `snapshot`, fails the request on a control fault (fatal causes
    /// keep the engine's priority), and otherwise lets the engine observe
    /// it. Returns whether the request is still active afterwards.
    fn observe(&mut self, engine: &mut RxState, generation: u32, snapshot: I2c1Read1Snapshot) -> (r:
        bool)
        requires
            evidence_wf(*old(self)),
            old(engine).wf(),
        ensures
            evidence_wf(*final(self)),
            final(engine).wf(),
            final(engine).generation == old(engine).generation,
            final(self).last == snapshot,
            final(self).queued == old(self).queued,
            final(self).pop_attempts == old(self).pop_attempts,
            final(self).popped == old(self).popped,
            final(self).rx_depth == old(self).rx_depth,
            final(self).tx_depth == old(self).tx_depth,
            final(self).last_word == old(self).last_word,
            final(self).post_pop == old(self).post_pop,
            final(self).acknowledged == old(self).acknowledged,
            final(self).entry == old(self).entry,
            r ==> final(engine).state == State::Active && final(engine).generation == generation,
            active_check(old(engine)@, generation) matches Err(e) ==> final(engine)@ == old(
                engine,
            )@ && final(self).rejected == (if old(self).rejected is None {
                Some(e)
            } else {
                old(self).rejected
            }) && final(self).fault == old(self).fault && !r,
            kept(old(engine)@, final(engine)@),
    {
        self.save(snapshot);
        let c = snapshot.raw_interrupt_status | snapshot.masked_interrupt_status;
        if engine.state() == State::Active && engine.generation() == generation && c & FATAL_CAUSES
            == 0 && snapshot.abort_source == 0 && (snapshot.interrupt_mask != OWNED_CAUSES
            || snapshot.enable_status != 1 || snapshot.rx_threshold != 0) {
            self.fail(engine, generation, AdapterFault::Control);
            return false;
        }
        match engine.observe(generation, c, snapshot.abort_source) {
            Ok(State::Active) => true,
            Ok(_) => false,
            Err(error) => {
                self.reject(error);
                false
            },
        }
    }

    /// Observes the entry snapshot and reads the FIFO depths.
    fn begin<P: Read1Port>(&mut self, port: &mut Port<P>, engine: &mut RxState, generation: u32) -> (r:
        bool)
        requires
            evidence_wf(*old(self)),
            old(engine).wf(),
        ensures
            evidence_wf(*final(self)),
            final(engine).wf(),
            final(engine).generation == old(engine).generation,
            final(self).queued == old(self).queued,
            final(self).pop_attempts == old(self).pop_attempts,
            final(self).popped == old(self).popped,
            final(self).last_word == old(self).last_word,
            final(self).post_pop == old(self).post_pop,
            final(self).acknowledged == old(self).acknowledged,
            final(self).entry == old(self).entry,
            r ==> 1 <= final(self).rx_depth <= 256 && 1 <= final(self).tx_depth <= 256,
            !r ==> final(self).rx_depth == old(self).rx_depth && final(self).tx_depth == old(
                self,
            ).tx_depth,
            r ==> final(engine).state == State::Active && final(engine).generation == generation,
            active_check(old(engine)@, generation) matches Err(e) ==> final(engine)@ == old(
                engine,
            )@ && final(self).rejected == (if old(self).rejected is None {
                Some(e)
            } else {
                old(self).rejected
            }) && final(self).fault == old(self).fault && !r,
            kept(old(engine)@, final(engine)@),
            !r ==> final(port).log@ == old(port).log@,
            r ==> final(port).log@ == old(port).log@.push(final(port).log@.last())
                && final(port).log@.last() is ComponentParameter,
    {
        let entry = self.entry;
        if !self.observe(engine, generation, entry) {
            return false;
        }
        let parameter = port.component_parameter();
        self.rx_depth = rx_fifo_depth(parameter);
        self.tx_depth = tx_fifo_depth(parameter) as u32;
        true
    }

    /// Acknowledges exactly the last observed causes of a live request;
    /// masks the controller otherwise.
    fn finish<P: Read1Port>(&mut self, port: &mut Port<P>, engine: &RxState)
        ensures
            *final(self) == (ServiceEvidence { acknowledged: final(self).acknowledged, ..*old(self) }),
            if engine.state != State::Active || old(self).rejected is Some || old(self).fault is Some {
                final(port).log@ == old(port).log@.push(PortEvent::Mask) && final(self).acknowledged
                    == old(self).acknowledged
            } else {
                final(port).log@ == old(port).log@.push(
                    PortEvent::Ack(old(self).last, final(self).acknowledged),
                )
            },
    {
        if engine.state() != State::Active || self.rejected.is_some() || self.fault.is_some() {
            port.mask_irq();
        } else {
            let last = self.last;
            self.acknowledged = port.ack(last);
        }
    }
}

/// The number of command writes among `events`.
pub open spec fn issues(events: Seq<PortEvent>) -> nat
    decreases events.len(),
{
    if events.len() == 0 {
        0
    } else {
        issues(events.drop_last()) + if events.last() is Issue {
            1nat
        } else {
            0nat
        }
    }
}

/// Snapshots and command writes only, `queued` of the latter.
pub open spec fn queue_log_ok(events: Seq<PortEvent>, queued: nat) -> bool {
    &&& forall|i: int| 0 <= i < events.len() ==> (#[trigger] events[i] is Snapshot || events[i] is Issue)
    &&& issues(events) == queued
}

/// Event `k` is the snapshot `last` and only command writes follow it.
pub open spec fn last_snapshot_at(events: Seq<PortEvent>, k: int, last: I2c1Read1Snapshot) -> bool {
    &&& 0 <= k < events.len()
    &&& events[k] == PortEvent::Snapshot(last)
    &&& forall|j: int| k < j < events.len() ==> #[trigger] events[j] is Issue
}

pub proof fn lemma_log_push(l0: Seq<PortEvent>, log: Seq<PortEvent>, e: PortEvent)
    requires
        log.len() >= l0.len(),
        log.subrange(0, l0.len() as int) == l0,
    ensures
        log.push(e).subrange(0, l0.len() as int) == l0,
        log.push(e).subrange(l0.len() as int, log.len() as int + 1) == log.subrange(l0.len() as int, log.len() as int).push(e),
        issues(log.subrange(l0.len() as int, log.len() as int).push(e)) == issues(log.subrange(l0.len() as int, log.len() as int)) + if e is Issue { 1nat } else { 0nat },
{
    assert(log.push(e).subrange(0, l0.len() as int) =~= log.subrange(0, l0.len() as int));
    assert(log.push(e).subrange(l0.len() as int, log.len() as int + 1) =~= log.subrange(l0.len() as int, log.len() as int).push(e));
    assert(log.subrange(l0.len() as int, log.len() as int).push(e).drop_last() =~= log.subrange(l0.len() as int, log.len() as int));
}

/// The port accesses of queueing from `before` to `after`: snapshots and
/// command writes only, `queued` writes, at least one snapshot, and the
/// last snapshot is `last`.
pub open spec fn queue_events(before: Seq<PortEvent>, after: Seq<PortEvent>, queued: nat, last: I2c1Read1Snapshot) -> bool {
    let events = after.subrange(before.len() as int, after.len() as int);
    &&& after.len() >= before.len()
    &&& after.subrange(0, before.len() as int) == before
    &&& forall|i: int| 0 <= i < events.len() ==> (#[trigger] events[i] is Snapshot || events[i] is Issue)
    &&& issues(events) == queued
    &&& exists|i: int| 0 <= i < events.len() && #[trigger] events[i] == PortEvent::Snapshot(last)
        && forall|j: int| i < j < events.len() ==> #[trigger] events[j] is Issue
}

/// Queues read commands while the TX FIFO and the RX credit allow, checking
/// every observed level against what the request can have produced.
fn queue<P: Read1Port>(port: &mut Port<P>, engine: &mut RxState, generation: u32, evidence: &mut ServiceEvidence)
    requires
        evidence_wf(*old(evidence)),
        old(engine).wf(),
        1 <= old(evidence).rx_depth <= 256,
        1 <= old(evidence).tx_depth <= 256,
        old(evidence).queued == 0,
    ensures
        evidence_wf(*final(evidence)),
        final(engine).wf(),
        final(engine).generation == old(engine).generation,
        final(evidence).queued <= old(evidence).tx_depth,
        final(evidence).pop_attempts == old(evidence).pop_attempts,
        final(evidence).popped == old(evidence).popped,
        final(evidence).rx_depth == old(evidence).rx_depth,
        final(evidence).tx_depth == old(evidence).tx_depth,
        final(evidence).last_word == old(evidence).last_word,
        final(evidence).post_pop == old(evidence).post_pop,
        final(evidence).acknowledged == old(evidence).acknowledged,
        final(evidence).entry == old(evidence).entry,
        kept(old(engine)@, final(engine)@),
        queue_events(old(port).log@, final(port).log@, final(evidence).queued as nat, final(evidence).last),
{
    let ghost l0 = port.log@;
    let ghost mut k: int = 0;
    let tx_depth = evidence.tx_depth;
    let rx_depth = evidence.rx_depth;
    let mut n: u32 = 0;
    let mut stop = false;
    let mut brk = false;
    proof {
        assert(port.log@.subrange(l0.len() as int, port.log@.len() as int) =~= Seq::<PortEvent>::empty());
        assert(port.log@.subrange(0, l0.len() as int) =~= l0);
    }
    while n < tx_depth && !stop && !brk
        invariant
            evidence_wf(*evidence),
            engine.wf(),
            engine.generation == old(engine).generation,
            evidence.tx_depth == tx_depth,
            evidence.rx_depth == rx_depth,
            1 <= rx_depth <= 256,
            1 <= tx_depth <= 256,
            n <= tx_depth,
            evidence.queued <= n,
            evidence.pop_attempts == old(evidence).pop_attempts,
            evidence.popped == old(evidence).popped,
            evidence.last_word == old(evidence).last_word,
            evidence.post_pop == old(evidence).post_pop,
            evidence.acknowledged == old(evidence).acknowledged,
            evidence.entry == old(evidence).entry,
            kept(old(engine)@, engine@),
            tx_depth == old(evidence).tx_depth,
            port.log@.len() >= l0.len(),
            port.log@.subrange(0, l0.len() as int) == l0,
            queue_log_ok(port.log@.subrange(l0.len() as int, port.log@.len() as int), evidence.queued as nat),
            (stop || brk) ==> last_snapshot_at(port.log@.subrange(l0.len() as int, port.log@.len() as int), k, evidence.last),
        decreases tx_depth - n,
    {
        n += 1;
        let ghost before = port.log@;
        let snapshot = port.snapshot();
        proof {
            lemma_log_push(l0, before, PortEvent::Snapshot(snapshot));
            k = port.log@.len() - l0.len() - 1;
        }
        if !evidence.observe(engine, generation, snapshot) {
            stop = true;
        } else {
            let (requested, issued, drained) = engine.counts();
            let outstanding = (issued - drained) as u32;
            let limit = min3(rx_depth, outstanding, (requested - drained) as u32);
            if snapshot.tx_level > tx_depth || outstanding > rx_depth || snapshot.rx_level > limit {
                evidence.fail(engine, generation, AdapterFault::ObservedGeometry);
                stop = true;
            } else if snapshot.tx_level == tx_depth || outstanding == rx_depth {
                brk = true;
            } else {
                match engine.prepare_read(generation, snapshot.tx_level) {
                    Ok(Some(command)) => {
                        let ghost before_issue = port.log@;
                        let word = command.word();
                        port.issue_read_command(word);
                        proof {
                            lemma_log_push(l0, before_issue, PortEvent::Issue(word));
                        }
                        let recorded = engine.record_issued(command);
                        evidence.queued = evidence.queued + 1;
                        if let Err(error) = recorded {
                            evidence.reject(error);
                            stop = true;
                        }
                    },
                    Ok(None) => {
                        brk = true;
                    },
                    Err(error) => {
                        evidence.reject(error);
                        stop = true;
                    },
                }
            }
        }
    }
    if !stop {
        let ghost before = port.log@;
        let snapshot = port.snapshot();
        proof {
            lemma_log_push(l0, before, PortEvent::Snapshot(snapshot));
            k = port.log@.len() - l0.len() - 1;
        }
        evidence.observe(engine, generation, snapshot);
    }
    proof {
        let ev = port.log@.subrange(l0.len() as int, port.log@.len() as int);
        assert(last_snapshot_at(ev, k, evidence.last));
        assert(ev[k] == PortEvent::Snapshot(evidence.last));
    }
}

/// What every call leaves in the port's log: it grew; the first new access
/// is the entry snapshot; the last masks the controller, or acknowledges
/// exactly the causes of the last snapshot, which the evidence then
/// reports.
pub open spec fn served_log(before: Seq<PortEvent>, after: Seq<PortEvent>, r: ServiceEvidence) -> bool {
    &&& after.len() >= before.len() + 2
    &&& after.subrange(0, before.len() as int) == before
    &&& after[before.len() as int] == PortEvent::Snapshot(r.entry)
    &&& after.last() == PortEvent::Mask || after.last() == PortEvent::Ack(r.last, r.acknowledged)
}

/// The foreground prime: queues the first read commands and never pops.
/// A call for another generation than the engine's changes nothing in the
/// engine, is recorded as rejected and masks the controller.
pub fn prime<P: Read1Port>(port: &mut Port<P>, engine: &mut RxState, generation: u32) -> (r:
    ServiceEvidence)
    requires
        old(engine).wf(),
    ensures
        final(engine).wf(),
        kept(old(engine)@, final(engine)@),
        evidence_wf(r),
        r.pop_attempts == 0 && r.popped == 0,
        r.last_word is None && r.post_pop is None,
        r.queued as u32 <= r.tx_depth <= 256,
        active_check(old(engine)@, generation) matches Err(e) ==> final(engine)@ == old(engine)@
            && r.rejected == Some(e) && r.queued == 0 && r.acknowledged == 0 && final(port).log@
            == old(port).log@ + seq![PortEvent::Snapshot(r.entry), PortEvent::Mask],
        served_log(old(port).log@, final(port).log@, r),
{
    let ghost l0 = port.log@;
    let mut evidence = ServiceEvidence::start(port);
    let ghost l1 = port.log@;
    let ghost e0 = engine@;
    let began = evidence.begin(port, engine, generation);
    let ghost l2 = port.log@;
    if began {
        queue(port, engine, generation, &mut evidence);
    }
    let ghost l3 = port.log@;
    proof {
        if began {
            assert(l2.subrange(0, l1.len() as int) =~= l1);
            assert(l3.subrange(0, l1.len() as int) =~= l2.subrange(0, l1.len() as int));
        } else {
            assert(l3.subrange(0, l1.len() as int) =~= l1);
        }
    }
    evidence.finish(port, engine);
    proof {
        let l = port.log@;
        assert(l.subrange(0, l0.len() as int) =~= l3.subrange(0, l0.len() as int));
        assert(l3.subrange(0, l0.len() as int) =~= l1.subrange(0, l0.len() as int));
        assert(l1.subrange(0, l0.len() as int) =~= l0);
        assert(l[l0.len() as int] == l3[l0.len() as int]);
        assert(l3[l0.len() as int] == l1[l0.len() as int]);
        if active_check(e0, generation) is Err {
            assert(l =~= l0 + seq![PortEvent::Snapshot(evidence.entry), PortEvent::Mask]);
        }
    }
    evidence
}

/// The words that the pops among `events` returned, in order.
pub open spec fn popped_words(events: Seq<PortEvent>) -> Seq<u32>
    decreases events.len(),
{
    if events.len() == 0 {
        Seq::empty()
    } else {
        popped_words(events.drop_last()) + match events.last() {
            PortEvent::Pop(_, Some(w)) => seq![w],
            _ => Seq::<u32>::empty(),
        }
    }
}

/// `bytes` with the low bytes of `words` stored from index `from` on.
pub open spec fn stored_bytes(bytes: Seq<u8>, from: int, words: Seq<u32>) -> Seq<u8> {
    Seq::new(
        bytes.len(),
        |i: int|
            if from <= i < from + words.len() {
                words[i - from] as u8
            } else {
                bytes[i]
            },
    )
}

proof fn lemma_popped_words_append(a: Seq<PortEvent>, b: Seq<PortEvent>)
    ensures
        popped_words(a + b) == popped_words(a) + popped_words(b),
    decreases b.len(),
{
    if b.len() == 0 {
        assert(a + b =~= a);
        assert(popped_words(a) + popped_words(b) =~= popped_words(a));
    } else {
        lemma_popped_words_append(a, b.drop_last());
        assert((a + b).drop_last() =~= a + b.drop_last());
        assert((a + b).last() == b.last());
        assert(popped_words(a) + popped_words(b) =~= popped_words(a) + popped_words(b.drop_last()) + match b.last() {
            PortEvent::Pop(_, Some(w)) => seq![w],
            _ => Seq::<u32>::empty(),
        });
    }
}

proof fn lemma_no_pops(events: Seq<PortEvent>)
    requires
        forall|i: int| 0 <= i < events.len() ==> (#[trigger] events[i] is Snapshot || events[i] is Issue),
    ensures
        popped_words(events) =~= Seq::<u32>::empty(),
    decreases events.len(),
{
    if events.len() > 0 {
        assert(events.last() == events[events.len() - 1]);
        assert forall|i: int| 0 <= i < events.drop_last().len() implies (#[trigger] events.drop_last()[i] is Snapshot
            || events.drop_last()[i] is Issue) by {
            assert(events.drop_last()[i] == events[i]);
        }
        lemma_no_pops(events.drop_last());
    }
}

/// One owned-interrupt service: pops what the RX level shows (each pop
/// permitted, guarded by the level read again and recorded), then queues
/// further commands. A call for another generation than the engine's
/// changes nothing in the engine, is recorded as rejected and masks the
/// controller.
pub fn service_irq<P: Read1Port>(port: &mut Port<P>, engine: &mut RxState, generation: u32) -> (r:
    ServiceEvidence)
    requires
        old(engine).wf(),
    ensures
        final(engine).wf(),
        final(engine).generation == old(engine).generation,
        final(engine)@.requested == old(engine)@.requested,
        final(engine)@.clean == old(engine)@.clean,
        evidence_wf(r),
        r.pop_attempts as u32 <= 256,
        r.queued as u32 <= 256,
        active_check(old(engine)@, generation) matches Err(e) ==> final(engine)@ == old(engine)@
            && r.rejected == Some(e) && r.pop_attempts == 0 && r.queued == 0 && r.acknowledged
            == 0 && final(port).log@ == old(port).log@ + seq![
            PortEvent::Snapshot(r.entry),
            PortEvent::Mask,
        ],
        served_log(old(port).log@, final(port).log@, r),
        ({
            let words = popped_words(
                final(port).log@.subrange(old(port).log@.len() as int, final(port).log@.len() as int),
            );
            &&& final(engine)@.drained == old(engine)@.drained + words.len()
            &&& final(engine)@.bytes == stored_bytes(
                old(engine)@.bytes,
                old(engine)@.drained as int,
                words,
            )
        }),
{
    let ghost l0 = port.log@;
    let ghost e0 = engine@;
    let mut evidence = ServiceEvidence::start(port);
    let ghost l1 = port.log@;
    proof {
        assert(l1.subrange(l0.len() as int, l1.len() as int) =~= seq![PortEvent::Snapshot(evidence.entry)]);
        assert(seq![PortEvent::Snapshot(evidence.entry)].drop_last() =~= Seq::<PortEvent>::empty());
        assert(popped_words(seq![PortEvent::Snapshot(evidence.entry)]) =~= popped_words(Seq::<PortEvent>::empty()));
        assert(e0.bytes =~= stored_bytes(e0.bytes, e0.drained as int, Seq::empty()));
    }
    let ghost entry = evidence.entry;
    let began = evidence.begin(port, engine, generation);
    if began {
        let rx_depth = evidence.rx_depth;
        let mut n: u32 = 0;
        proof {
            let ev = port.log@.subrange(l0.len() as int, port.log@.len() as int);
            let ev1 = l1.subrange(l0.len() as int, l1.len() as int);
            assert(ev =~= ev1.push(port.log@.last()));
            assert(ev.drop_last() =~= ev1);
            assert(popped_words(ev) =~= popped_words(ev1));
            assert(port.log@[l0.len() as int] == l1[l0.len() as int]);
            assert(port.log@.subrange(0, l0.len() as int) =~= l1.subrange(0, l0.len() as int));
            assert(l1.subrange(0, l0.len() as int) =~= l0);
        }
        while n < rx_depth
            invariant
                evidence_wf(evidence),
                engine.wf(),
                engine.generation == old(engine).generation,
                engine@.requested == e0.requested,
                engine@.clean == e0.clean,
                evidence.rx_depth == rx_depth,
                evidence.entry == entry,
                1 <= rx_depth <= 256,
                1 <= evidence.tx_depth <= 256,
                n <= rx_depth,
                evidence.pop_attempts as u32 <= n,
                evidence.queued == 0,
                e0 == old(engine)@,
                port.log@.len() >= l0.len() + 1,
                port.log@.subrange(0, l0.len() as int) == l0,
                port.log@[l0.len() as int] == PortEvent::Snapshot(evidence.entry),
                engine@.drained == e0.drained + popped_words(
                    port.log@.subrange(l0.len() as int, port.log@.len() as int),
                ).len(),
                engine@.bytes == stored_bytes(
                    e0.bytes,
                    e0.drained as int,
                    popped_words(port.log@.subrange(l0.len() as int, port.log@.len() as int)),
                ),
            decreases rx_depth - n,
        {
            n += 1;
            let ghost before = port.log@;
            let snapshot = port.snapshot();
            proof {
                lemma_log_push(l0, before, PortEvent::Snapshot(snapshot));
                let ev0 = before.subrange(l0.len() as int, before.len() as int);
                assert(port.log@.subrange(l0.len() as int, port.log@.len() as int).drop_last() =~= ev0);
                assert(port.log@[l0.len() as int] == before[l0.len() as int]);
            }
            if !evidence.observe(engine, generation, snapshot) {
                break;
            }
            let (requested, issued, drained) = engine.counts();
            let max_level = min3(rx_depth, (issued - drained) as u32, (requested - drained) as u32);
            if snapshot.rx_level > rx_depth {
                evidence.fail(engine, generation, AdapterFault::ObservedGeometry);
                break;
            }
            match engine.prepare_pop(generation, snapshot.rx_level) {
                Ok(Some(permit)) => {
                    let ghost before_pop = port.log@;
                    let ghost ev_before = before_pop.subrange(l0.len() as int, before_pop.len() as int);
                    let actual = port.pop_rx_one(max_level);
                    proof {
                        lemma_log_push(l0, before_pop, PortEvent::Pop(max_level, actual));
                        let ev1 = port.log@.subrange(l0.len() as int, port.log@.len() as int);
                        assert(ev1.drop_last() =~= ev_before);
                        assert(port.log@[l0.len() as int] == before_pop[l0.len() as int]);
                    }
                    let byte = match actual {
                        Some(word) => Some(word as u8),
                        None => None,
                    };
                    let recorded = engine.record_pop(permit, byte);
                    proof {
                        let ev1 = port.log@.subrange(l0.len() as int, port.log@.len() as int);
                        match actual {
                            Some(w) => {
                                assert(popped_words(ev1) =~= popped_words(ev_before).push(w));
                                assert(engine@.bytes =~= stored_bytes(e0.bytes, e0.drained as int, popped_words(ev1)));
                            },
                            None => {
                                assert(popped_words(ev1) =~= popped_words(ev_before));
                            },
                        }
                    }
                    evidence.pop_attempts = evidence.pop_attempts + 1;
                    if let Some(word) = actual {
                        evidence.popped = evidence.popped + 1;
                        evidence.last_word = Some(word);
                    }
                    let ghost before_post = port.log@;
                    let post = port.snapshot();
                    proof {
                        lemma_log_push(l0, before_post, PortEvent::Snapshot(post));
                        let ev2 = port.log@.subrange(l0.len() as int, port.log@.len() as int);
                        assert(ev2.drop_last() =~= before_post.subrange(l0.len() as int, before_post.len() as int));
                        assert(port.log@[l0.len() as int] == before_post[l0.len() as int]);
                    }
                    evidence.post_pop = Some(post);
                    let active = evidence.observe(engine, generation, post);
                    if let Err(error) = recorded {
                        evidence.rejected = Some(error);
                        break;
                    }
                    if !active {
                        break;
                    }
                },
                Ok(None) => {
                    break;
                },
                Err(error) => {
                    evidence.reject(error);
                    break;
                },
            }
        }
        if engine.state() == State::Active && evidence.rejected.is_none()
            && evidence.fault.is_none() {
            let ghost lq = port.log@;
            queue(port, engine, generation, &mut evidence);
            proof {
                let lf = port.log@;
                let qe = lf.subrange(lq.len() as int, lf.len() as int);
                lemma_no_pops(qe);
                assert(lf.subrange(l0.len() as int, lf.len() as int) =~= lq.subrange(l0.len() as int, lq.len() as int) + qe);
                lemma_popped_words_append(lq.subrange(l0.len() as int, lq.len() as int), qe);
                assert(lf.subrange(0, l0.len() as int) =~= lq.subrange(0, l0.len() as int));
                assert(lf[l0.len() as int] == lq[l0.len() as int]);
            }
        }
    }
    let ghost l3 = port.log@;
    evidence.finish(port, engine);
    proof {
        let l = port.log@;
        let ev3 = l3.subrange(l0.len() as int, l3.len() as int);
        if !began {
            assert(l3 =~= l1);
            assert(l1.subrange(0, l0.len() as int) =~= l0);
        }
        assert(l.len() >= l0.len() + 2);
        assert(l.subrange(l0.len() as int, l.len() as int) =~= ev3.push(l.last()));
        assert(l.subrange(l0.len() as int, l.len() as int).drop_last() =~= ev3);
        assert(popped_words(l.subrange(l0.len() as int, l.len() as int)) =~= popped_words(ev3));
        assert(l.subrange(0, l0.len() as int) =~= l3.subrange(0, l0.len() as int));
        assert(l[l0.len() as int] == l3[l0.len() as int]);
        if active_check(e0, generation) is Err {
            assert(l =~= l0 + seq![PortEvent::Snapshot(evidence.entry), PortEvent::Mask]);
        }
    }
    evidence
}

} // verus!
