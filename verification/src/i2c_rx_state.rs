//! Single-owner accounting for one I2C receive request; it performs no
//! register access itself.
//!
//! The adapter serializes every call with its timeout and interrupt paths.
//! FIFO levels are fresh, full-width hardware observations. The adapter
//! prepares an operation, performs exactly that guarded access, then records
//! its actual outcome before preparing another. A request is armed only on a
//! clean generation, and every event carries the generation it belongs to.

use vstd::prelude::*;

verus! {

pub const MAX_LEN: usize = 33;
pub const FATAL_CAUSES: u32 = 0x4b;
pub const STOP_DET: u32 = 0x200;
pub const OWNED_CAUSES: u32 = FATAL_CAUSES | 4 | STOP_DET;
pub const READ_COMMAND: u32 = 0x100;
pub const COMMAND_STOP: u32 = 0x200;

#[derive(Clone, Copy, Debug, Eq, PartialEq, Structural)]
pub enum Error {
    Fatal { causes: u32, abort_source: u32 },
    InvalidTxLevel(u32),
    InvalidRxLevel(u32),
    EmptyPop,
    UncommittedIo,
    Mismatch,
    PrematureStop,
    Timeout,
    Adapter,
}

#[derive(Clone, Copy, Debug, Eq, PartialEq, Structural)]
pub enum State {
    Idle,
    Active,
    Complete,
    Failed(Error),
    TimedOut,
}

#[derive(Clone, Copy, Debug, Eq, PartialEq, Structural)]
pub enum CleanupError {
    NotDisabled,
    NotMasked,
    FifoNotEmpty,
    CausesNotClear,
    IrqNotQuiescent,
    QuietNotObserved,
}

#[derive(Clone, Copy, Debug, Eq, PartialEq, Structural)]
pub enum Rejected {
    InvalidDepth,
    InvalidLength,
    NotClean,
    GenerationExhausted,
    StaleGeneration,
    Inactive,
    PendingIo,
    WrongOperation,
    RequestFailed(Error),
    CleanupFailed(CleanupError),
}

/// Evidence collected after the bounded disable, any failure-only discard,
/// the acknowledgement of observed causes and the owned NVIC cleanup.
/// `quiet_conditions_held` attests that the conditions held throughout the
/// measured interval; this struct cannot establish that itself.
#[derive(Clone, Copy, Debug)]
pub struct CleanupEvidence {
    pub enable_status: u32,
    pub interrupt_mask: u32,
    pub rx_level: u32,
    pub tx_level: u32,
    pub raw_status: u32,
    pub masked_status: u32,
    pub abort_source: u32,
    pub owned_irq_enabled: bool,
    pub owned_irq_pending: bool,
    pub owned_irq_active: bool,
    pub irq_count_before: u32,
    pub irq_count_after: u32,
    pub quiet_conditions_held: bool,
    pub quiet_elapsed_ticks: u32,
    pub quiet_required_ticks: u32,
}

/// The first requirement of a clean peripheral that the evidence breaks.
pub open spec fn cleanup_verdict(e: CleanupEvidence) -> Result<(), CleanupError> {
    if e.enable_status != 0 {
        Err(CleanupError::NotDisabled)
    } else if e.interrupt_mask != 0 {
        Err(CleanupError::NotMasked)
    } else if e.rx_level != 0 || e.tx_level != 0 {
        Err(CleanupError::FifoNotEmpty)
    } else if e.raw_status & OWNED_CAUSES != 0 || e.masked_status != 0 || e.abort_source != 0 {
        Err(CleanupError::CausesNotClear)
    } else if e.owned_irq_enabled || e.owned_irq_pending || e.owned_irq_active {
        Err(CleanupError::IrqNotQuiescent)
    } else if !e.quiet_conditions_held || e.quiet_required_ticks == 0 || e.quiet_elapsed_ticks
        < e.quiet_required_ticks || e.irq_count_before != e.irq_count_after {
        Err(CleanupError::QuietNotObserved)
    } else {
        Ok(())
    }
}

impl CleanupEvidence {
    pub fn validate(self) -> (r: Result<(), CleanupError>)
        ensures
            r == cleanup_verdict(self),
    {
        if self.enable_status != 0 {
            Err(CleanupError::NotDisabled)
        } else if self.interrupt_mask != 0 {
            Err(CleanupError::NotMasked)
        } else if self.rx_level != 0 || self.tx_level != 0 {
            Err(CleanupError::FifoNotEmpty)
        } else if self.raw_status & OWNED_CAUSES != 0 || self.masked_status != 0
            || self.abort_source != 0 {
            Err(CleanupError::CausesNotClear)
        } else if self.owned_irq_enabled || self.owned_irq_pending || self.owned_irq_active {
            Err(CleanupError::IrqNotQuiescent)
        } else if !self.quiet_conditions_held || self.quiet_required_ticks == 0
            || self.quiet_elapsed_ticks < self.quiet_required_ticks || self.irq_count_before
            != self.irq_count_after {
            Err(CleanupError::QuietNotObserved)
        } else {
            Ok(())
        }
    }
}

#[derive(Clone, Copy, Debug, Eq, PartialEq, Structural)]
pub struct Mismatch {
    pub index: u8,
    pub expected: u8,
    pub actual: u8,
}

/// The one prepared access that the adapter has yet to record.
#[derive(Clone, Copy, Debug, Eq, PartialEq, Structural)]
pub enum Pending {
    NoAccess,
    Read,
    Pop,
}

/// A permission to write one read command; the adapter writes `word()` and
/// then records it with `record_issued`.
#[derive(Debug)]
pub struct ReadCommand {
    pub generation: u32,
    pub index: u8,
    pub stop: bool,
}

pub open spec fn command_word(stop: bool) -> u32 {
    if stop {
        READ_COMMAND | COMMAND_STOP
    } else {
        READ_COMMAND
    }
}

impl ReadCommand {
    /// The DATA_CMD word: a read, with STOP on the last byte.
    pub fn word(&self) -> (r: u32)
        ensures
            r == command_word(self.stop),
            r == (if self.stop { 0x300u32 } else { 0x100u32 }),
    {
        let r = READ_COMMAND | if self.stop { COMMAND_STOP } else { 0 };
        assert(READ_COMMAND | COMMAND_STOP == 0x300u32) by (bit_vector);
        assert(READ_COMMAND | 0u32 == 0x100u32) by (bit_vector);
        r
    }
}

/// A permission to try one guarded FIFO pop; the adapter rechecks the level
/// before the pop and records a failed guard as `None`.
#[derive(Debug)]
pub struct PopPermit {
    pub generation: u32,
    pub index: u8,
}

pub struct RxState {
    pub rx_depth: u16,
    pub tx_depth: u16,
    pub generation: u32,
    pub state: State,
    pub clean: bool,
    pub cleanup_error: Option<CleanupError>,
    pub requested: u8,
    pub issued: u8,
    pub drained: u8,
    pub stop_seen: bool,
    pub pending: Pending,
    pub expected: [u8; MAX_LEN],
    pub check_expected: bool,
    pub bytes: [u8; MAX_LEN],
    pub first_mismatch: Option<Mismatch>,
}

/// The abstract state of a receive request.
pub ghost struct RxView {
    pub rx_depth: u16,
    pub tx_depth: u16,
    pub generation: u32,
    pub state: State,
    pub clean: bool,
    pub cleanup_error: Option<CleanupError>,
    pub requested: u8,
    pub issued: u8,
    pub drained: u8,
    pub stop_seen: bool,
    pub pending: Pending,
    pub expected: Seq<u8>,
    pub check_expected: bool,
    pub bytes: Seq<u8>,
    pub first_mismatch: Option<Mismatch>,
}

impl View for RxState {
    type V = RxView;

    open spec fn view(&self) -> RxView {
        RxView {
            rx_depth: self.rx_depth,
            tx_depth: self.tx_depth,
            generation: self.generation,
            state: self.state,
            clean: self.clean,
            cleanup_error: self.cleanup_error,
            requested: self.requested,
            issued: self.issued,
            drained: self.drained,
            stop_seen: self.stop_seen,
            pending: self.pending,
            expected: self.expected@,
            check_expected: self.check_expected,
            bytes: self.bytes@,
            first_mismatch: self.first_mismatch,
        }
    }
}

/// Depths in 1..=256; bytes drained never exceed commands issued, which
/// never exceed the request, which fits the buffers; a prepared read or pop
/// has room to be recorded.
pub open spec fn rx_wf(v: RxView) -> bool {
    &&& 1 <= v.rx_depth <= 256
    &&& 1 <= v.tx_depth <= 256
    &&& v.drained <= v.issued <= v.requested <= MAX_LEN
    &&& v.expected.len() == MAX_LEN
    &&& v.bytes.len() == MAX_LEN
    &&& (v.pending == Pending::Read ==> v.issued < v.requested)
    &&& (v.pending == Pending::Pop ==> v.drained < v.issued)
    &&& (v.state == State::Complete ==> v.drained == v.requested)
    &&& (v.state == State::Active ==> !v.clean)
}

pub open spec fn zeros(n: nat) -> Seq<u8> {
    Seq::new(n, |i: int| 0u8)
}

pub open spec fn with_failure(v: RxView, error: Error) -> RxView {
    RxView { state: State::Failed(error), pending: Pending::NoAccess, ..v }
}

pub open spec fn generation_check(v: RxView, generation: u32) -> Result<(), Rejected> {
    if generation != v.generation {
        Err(Rejected::StaleGeneration)
    } else {
        Ok(())
    }
}

pub open spec fn active_check(v: RxView, generation: u32) -> Result<(), Rejected> {
    if generation != v.generation {
        Err(Rejected::StaleGeneration)
    } else if v.state != State::Active {
        Err(Rejected::Inactive)
    } else {
        Ok(())
    }
}

pub open spec fn ready_check(v: RxView, generation: u32) -> Result<(), Rejected> {
    match active_check(v, generation) {
        Err(e) => Err(e),
        Ok(()) => if v.pending != Pending::NoAccess {
            Err(Rejected::PendingIo)
        } else {
            Ok(())
        },
    }
}

/// Cleanup never touches the request's state; it sets `clean` to the
/// verdict and keeps the first cleanup error of the generation.
pub open spec fn record_cleanup_step(v: RxView, generation: u32, e: CleanupEvidence) -> (
    RxView,
    Result<(), Rejected>,
) {
    if generation != v.generation {
        (v, Err(Rejected::StaleGeneration))
    } else if v.state == State::Active {
        (v, Err(Rejected::PendingIo))
    } else {
        match cleanup_verdict(e) {
            Ok(()) => (RxView { clean: true, ..v }, Ok(())),
            Err(err) => (
                RxView {
                    clean: false,
                    cleanup_error: if v.cleanup_error is Some {
                        v.cleanup_error
                    } else {
                        Some(err)
                    },
                    ..v
                },
                Err(Rejected::CleanupFailed(err)),
            ),
        }
    }
}

/// Arming a request of `length` bytes, with the predicted payload when one
/// is given.
pub open spec fn arm_step(v: RxView, length: int, expected: Option<Seq<u8>>) -> (
    RxView,
    Result<u32, Rejected>,
) {
    if length == 0 || length > MAX_LEN {
        (v, Err(Rejected::InvalidLength))
    } else if !v.clean || v.state == State::Active {
        (v, Err(Rejected::NotClean))
    } else if v.generation == u32::MAX {
        (v, Err(Rejected::GenerationExhausted))
    } else {
        let g = (v.generation + 1) as u32;
        (
            RxView {
                generation: g,
                state: State::Active,
                clean: false,
                cleanup_error: None,
                requested: length as u8,
                issued: 0,
                drained: 0,
                stop_seen: false,
                pending: Pending::NoAccess,
                expected: match expected {
                    Some(e) => e + zeros((MAX_LEN - length) as nat),
                    None => zeros(MAX_LEN as nat),
                },
                check_expected: expected is Some,
                bytes: zeros(MAX_LEN as nat),
                first_mismatch: None,
                ..v
            },
            Ok(g),
        )
    }
}

/// A read command is (generation, index, stop).
pub open spec fn prepare_read_step(v: RxView, generation: u32, tx_level: u32) -> (
    RxView,
    Result<Option<(u32, u8, bool)>, Rejected>,
) {
    match ready_check(v, generation) {
        Err(e) => (v, Err(e)),
        Ok(()) => if tx_level > v.tx_depth {
            (
                with_failure(v, Error::InvalidTxLevel(tx_level)),
                Err(Rejected::RequestFailed(Error::InvalidTxLevel(tx_level))),
            )
        } else if v.issued == v.requested || tx_level == v.tx_depth || v.issued - v.drained
            == v.rx_depth {
            (v, Ok(None))
        } else {
            (
                RxView { pending: Pending::Read, ..v },
                Ok(Some((generation, v.issued, v.issued + 1 == v.requested))),
            )
        },
    }
}

pub open spec fn record_issued_step(v: RxView, generation: u32, index: u8) -> (
    RxView,
    Result<(), Rejected>,
) {
    match active_check(v, generation) {
        Err(e) => (v, Err(e)),
        Ok(()) => if v.pending != Pending::Read || index != v.issued {
            (v, Err(Rejected::WrongOperation))
        } else {
            (RxView { issued: (v.issued + 1) as u8, pending: Pending::NoAccess, ..v }, Ok(()))
        },
    }
}

/// A pop permit is (generation, index).
pub open spec fn prepare_pop_step(v: RxView, generation: u32, rx_level: u32) -> (
    RxView,
    Result<Option<(u32, u8)>, Rejected>,
) {
    match ready_check(v, generation) {
        Err(e) => (v, Err(e)),
        Ok(()) => if rx_level > v.rx_depth || rx_level > v.issued - v.drained || rx_level
            > v.requested - v.drained {
            (
                with_failure(v, Error::InvalidRxLevel(rx_level)),
                Err(Rejected::RequestFailed(Error::InvalidRxLevel(rx_level))),
            )
        } else if rx_level == 0 {
            (v, Ok(None))
        } else {
            (RxView { pending: Pending::Pop, ..v }, Ok(Some((generation, v.drained))))
        },
    }
}

pub open spec fn record_pop_step(v: RxView, generation: u32, index: u8, actual: Option<u8>) -> (
    RxView,
    Result<(), Rejected>,
) {
    match active_check(v, generation) {
        Err(e) => (v, Err(e)),
        Ok(()) => if v.pending != Pending::Pop || index != v.drained {
            (v, Err(Rejected::WrongOperation))
        } else {
            match actual {
                None => (
                    with_failure(v, Error::EmptyPop),
                    Err(Rejected::RequestFailed(Error::EmptyPop)),
                ),
                Some(a) => {
                    let i = v.drained as int;
                    (
                        RxView {
                            bytes: v.bytes.update(i, a),
                            first_mismatch: if v.check_expected && a != v.expected[i]
                                && v.first_mismatch is None {
                                Some(Mismatch { index: v.drained, expected: v.expected[i], actual: a })
                            } else {
                                v.first_mismatch
                            },
                            drained: (v.drained + 1) as u8,
                            pending: Pending::NoAccess,
                            ..v
                        },
                        Ok(()),
                    )
                },
            }
        },
    }
}

/// The failure, if any, that a hardware snapshot decides: fatal causes or an
/// abort source first, then an unrecorded access, a payload mismatch, and a
/// STOP before every command was issued.
pub open spec fn observed_error(v: RxView, stop: bool, causes: u32, abort_source: u32) -> Option<
    Error,
> {
    if causes & FATAL_CAUSES != 0 || abort_source != 0 {
        Some(Error::Fatal { causes: causes & FATAL_CAUSES, abort_source })
    } else if v.pending != Pending::NoAccess {
        Some(Error::UncommittedIo)
    } else if v.first_mismatch is Some {
        Some(Error::Mismatch)
    } else if stop && v.issued != v.requested {
        Some(Error::PrematureStop)
    } else {
        None
    }
}

pub open spec fn observe_step(v: RxView, generation: u32, causes: u32, abort_source: u32) -> (
    RxView,
    Result<State, Rejected>,
) {
    match active_check(v, generation) {
        Err(e) => (v, Err(e)),
        Ok(()) => {
            let stop = v.stop_seen || causes & STOP_DET != 0;
            let v1 = RxView { stop_seen: stop, ..v };
            let v2 = match observed_error(v, stop, causes, abort_source) {
                Some(e) => with_failure(v1, e),
                None => if stop && v.drained == v.requested {
                    RxView { state: State::Complete, ..v1 }
                } else {
                    v1
                },
            };
            (v2, Ok(v2.state))
        },
    }
}

pub open spec fn end_step(v: RxView, generation: u32, end: State) -> (RxView, Result<(), Rejected>) {
    match active_check(v, generation) {
        Err(e) => (v, Err(e)),
        Ok(()) => (RxView { state: end, pending: Pending::NoAccess, ..v }, Ok(())),
    }
}

pub open spec fn primary_error_of(state: State) -> Option<Error> {
    match state {
        State::Failed(e) => Some(e),
        State::TimedOut => Some(Error::Timeout),
        _ => None,
    }
}

/// Once a request has ended (complete, failed or timed out), no late event
/// of any kind changes anything or is accepted.
pub proof fn lemma_ended_request_cannot_be_resurrected(
    v: RxView,
    generation: u32,
    causes: u32,
    abort_source: u32,
    level: u32,
    index: u8,
    actual: Option<u8>,
    end: State,
)
    requires
        rx_wf(v),
        v.state != State::Active,
    ensures
        observe_step(v, generation, causes, abort_source).0 == v,
        observe_step(v, generation, causes, abort_source).1 is Err,
        end_step(v, generation, end).0 == v,
        end_step(v, generation, end).1 is Err,
        prepare_read_step(v, generation, level).0 == v,
        prepare_read_step(v, generation, level).1 is Err,
        prepare_pop_step(v, generation, level).0 == v,
        prepare_pop_step(v, generation, level).1 is Err,
        record_issued_step(v, generation, index).0 == v,
        record_issued_step(v, generation, index).1 is Err,
        record_pop_step(v, generation, index, actual).0 == v,
        record_pop_step(v, generation, index, actual).1 is Err,
{
}

/// An event that names another generation than the current one is
/// rejected as stale and changes nothing, cleanup included.
pub proof fn lemma_stale_generation_changes_nothing(
    v: RxView,
    generation: u32,
    causes: u32,
    abort_source: u32,
    level: u32,
    index: u8,
    actual: Option<u8>,
    end: State,
    evidence: CleanupEvidence,
)
    requires
        generation != v.generation,
    ensures
        observe_step(v, generation, causes, abort_source) == (v, Err::<State, Rejected>(
            Rejected::StaleGeneration,
        )),
        end_step(v, generation, end) == (v, Err::<(), Rejected>(Rejected::StaleGeneration)),
        prepare_read_step(v, generation, level) == (v, Err::<Option<(u32, u8, bool)>, Rejected>(
            Rejected::StaleGeneration,
        )),
        prepare_pop_step(v, generation, level) == (v, Err::<Option<(u32, u8)>, Rejected>(
            Rejected::StaleGeneration,
        )),
        record_issued_step(v, generation, index) == (v, Err::<(), Rejected>(
            Rejected::StaleGeneration,
        )),
        record_pop_step(v, generation, index, actual) == (v, Err::<(), Rejected>(
            Rejected::StaleGeneration,
        )),
        record_cleanup_step(v, generation, evidence) == (v, Err::<(), Rejected>(
            Rejected::StaleGeneration,
        )),
{
}

/// Cleanup, whatever its verdict, never rewrites the request's outcome or
/// payload evidence, and never replaces the first cleanup failure of the
/// generation; only a clean verdict makes the state reusable.
pub proof fn lemma_cleanup_never_rewrites_the_primary(
    v: RxView,
    generation: u32,
    evidence: CleanupEvidence,
)
    ensures
        ({
            let w = record_cleanup_step(v, generation, evidence).0;
            &&& w.state == v.state
            &&& w.generation == v.generation
            &&& w.bytes == v.bytes
            &&& w.first_mismatch == v.first_mismatch
            &&& (w.requested, w.issued, w.drained) == (v.requested, v.issued, v.drained)
            &&& (v.cleanup_error is Some ==> w.cleanup_error == v.cleanup_error)
        }),
        record_cleanup_step(v, generation, evidence).1 is Ok <==> (generation == v.generation
            && v.state != State::Active && cleanup_verdict(evidence) is Ok),
        record_cleanup_step(v, generation, evidence).1 is Ok ==> record_cleanup_step(
            v,
            generation,
            evidence,
        ).0.clean,
{
}

/// A snapshot completes the request only after STOP, with every command
/// issued, every byte drained and no mismatch; fatal causes or an abort
/// source always fail it, whatever else was recorded.
pub proof fn lemma_completion_and_fatal_priority(
    v: RxView,
    generation: u32,
    causes: u32,
    abort_source: u32,
)
    requires
        rx_wf(v),
    ensures
        ({
            let w = observe_step(v, generation, causes, abort_source).0;
            &&& (w.state == State::Complete && v.state != State::Complete) ==> (w.stop_seen
                && w.drained == w.requested && w.issued == w.requested && w.first_mismatch
                is None)
            &&& (v.state == State::Active && generation == v.generation && (causes & FATAL_CAUSES
                != 0 || abort_source != 0)) ==> w.state == State::Failed(
                Error::Fatal { causes: causes & FATAL_CAUSES, abort_source },
            )
        }),
{
}

/// A request is armed only from a clean state that is not active; it gets
/// the next generation and starts empty and not clean.
pub proof fn lemma_arm_needs_clean_and_advances_generation(
    v: RxView,
    length: int,
    expected: Option<Seq<u8>>,
)
    requires
        rx_wf(v),
        0 <= length,
        expected matches Some(e) ==> e.len() == length,
    ensures
        arm_step(v, length, expected).1 matches Ok(g) ==> {
            let w = arm_step(v, length, expected).0;
            &&& v.clean && v.state != State::Active
            &&& g == v.generation + 1 && w.generation == g
            &&& w.state == State::Active && !w.clean && w.cleanup_error is None
            &&& w.issued == 0 && w.drained == 0 && w.requested == length
            &&& rx_wf(w)
        },
        arm_step(v, length, expected).1 is Err ==> arm_step(v, length, expected).0 == v,
{
    let r = arm_step(v, length, expected);
    if r.1 is Ok {
        assert(r.0.expected.len() == MAX_LEN);
    }
}

impl RxState {
    pub open spec fn wf(&self) -> bool {
        rx_wf(self@)
    }

    /// A fresh, not yet clean state for FIFOs of the given depths (1..=256).
    pub fn new(rx_depth: u16, tx_depth: u16) -> (r: Result<Self, Rejected>)
        ensures
            match r {
                Ok(s) => {
                    &&& 1 <= rx_depth <= 256 && 1 <= tx_depth <= 256
                    &&& s.wf()
                    &&& s@ == (RxView {
                        rx_depth,
                        tx_depth,
                        generation: 0,
                        state: State::Idle,
                        clean: false,
                        cleanup_error: None,
                        requested: 0,
                        issued: 0,
                        drained: 0,
                        stop_seen: false,
                        pending: Pending::NoAccess,
                        expected: zeros(MAX_LEN as nat),
                        check_expected: false,
                        bytes: zeros(MAX_LEN as nat),
                        first_mismatch: None,
                    })
                },
                Err(e) => e == Rejected::InvalidDepth && !(1 <= rx_depth <= 256 && 1 <= tx_depth
                    <= 256),
            },
    {
        if !(1 <= rx_depth && rx_depth <= 256) || !(1 <= tx_depth && tx_depth <= 256) {
            return Err(Rejected::InvalidDepth);
        }
        let s = RxState {
            rx_depth,
            tx_depth,
            generation: 0,
            state: State::Idle,
            clean: false,
            cleanup_error: None,
            requested: 0,
            issued: 0,
            drained: 0,
            stop_seen: false,
            pending: Pending::NoAccess,
            expected: [0u8; 33],
            check_expected: false,
            bytes: [0u8; 33],
            first_mismatch: None,
        };
        assert(s.expected@ =~= zeros(MAX_LEN as nat));
        assert(s.bytes@ =~= zeros(MAX_LEN as nat));
        Ok(s)
    }

    pub fn generation(&self) -> (r: u32)
        ensures
            r == self.generation,
    {
        self.generation
    }

    pub fn state(&self) -> (r: State)
        ensures
            r == self.state,
    {
        self.state
    }

    /// The failure that ended the request, the timeout included.
    pub fn primary_error(&self) -> (r: Option<Error>)
        ensures
            r == primary_error_of(self.state),
    {
        match self.state {
            State::Failed(error) => Some(error),
            State::TimedOut => Some(Error::Timeout),
            _ => None,
        }
    }

    /// (requested, issued, drained).
    pub fn counts(&self) -> (r: (u8, u8, u8))
        ensures
            r == (self.requested, self.issued, self.drained),
    {
        (self.requested, self.issued, self.drained)
    }

    pub fn stop_seen(&self) -> (r: bool)
        ensures
            r == self.stop_seen,
    {
        self.stop_seen
    }

    /// The bytes drained so far.
    pub fn bytes(&self) -> (r: &[u8])
        requires
            self.wf(),
        ensures
            r@ == self.bytes@.subrange(0, self.drained as int),
    {
        vstd::slice::slice_subrange(self.bytes.as_slice(), 0, self.drained as usize)
    }

    pub fn first_mismatch(&self) -> (r: Option<Mismatch>)
        ensures
            r == self.first_mismatch,
    {
        self.first_mismatch
    }

    pub fn cleanup_error(&self) -> (r: Option<CleanupError>)
        ensures
            r == self.cleanup_error,
    {
        self.cleanup_error
    }

    pub fn is_clean(&self) -> (r: bool)
        ensures
            r == self.clean,
    {
        self.clean
    }

    fn check_generation(&self, generation: u32) -> (r: Result<(), Rejected>)
        ensures
            r == generation_check(self@, generation),
    {
        if generation != self.generation {
            Err(Rejected::StaleGeneration)
        } else {
            Ok(())
        }
    }

    fn active(&self, generation: u32) -> (r: Result<(), Rejected>)
        ensures
            r == active_check(self@, generation),
    {
        match self.check_generation(generation) {
            Err(e) => Err(e),
            Ok(()) => if self.state == State::Active {
                Ok(())
            } else {
                Err(Rejected::Inactive)
            },
        }
    }

    fn ready_for_io(&self, generation: u32) -> (r: Result<(), Rejected>)
        ensures
            r == ready_check(self@, generation),
    {
        match self.active(generation) {
            Err(e) => Err(e),
            Ok(()) => if self.pending == Pending::NoAccess {
                Ok(())
            } else {
                Err(Rejected::PendingIo)
            },
        }
    }

    fn fail(&mut self, error: Error) -> (r: Rejected)
        requires
            old(self).wf(),
        ensures
            final(self)@ == with_failure(old(self)@, error),
            final(self).wf(),
            r == Rejected::RequestFailed(error),
    {
        self.state = State::Failed(error);
        self.pending = Pending::NoAccess;
        Rejected::RequestFailed(error)
    }

    /// Records cleanup evidence for a finished request of `generation`. A
    /// later successful cleanup permits reuse but keeps the first cleanup
    /// failure of the generation; neither outcome changes the request's state.
    pub fn record_cleanup(&mut self, generation: u32, evidence: CleanupEvidence) -> (r: Result<
        (),
        Rejected,
    >)
        requires
            old(self).wf(),
        ensures
            final(self).wf(),
            (final(self)@, r) == record_cleanup_step(old(self)@, generation, evidence),
    {
        match self.check_generation(generation) {
            Err(e) => {
                return Err(e);
            },
            Ok(()) => {},
        }
        if self.state == State::Active {
            return Err(Rejected::PendingIo);
        }
        let result = evidence.validate();
        match result {
            Ok(()) => {
                self.clean = true;
                Ok(())
            },
            Err(error) => {
                self.clean = false;
                if self.cleanup_error.is_none() {
                    self.cleanup_error = Some(error);
                }
                Err(Rejected::CleanupFailed(error))
            },
        }
    }

    /// Arms a request that expects exactly `expected`; returns its generation.
    pub fn arm(&mut self, expected: &[u8]) -> (r: Result<u32, Rejected>)
        requires
            old(self).wf(),
        ensures
            final(self).wf(),
            (final(self)@, r) == arm_step(old(self)@, expected@.len() as int, Some(expected@)),
    {
        self.arm_inner(expected.len(), Some(expected))
    }

    /// Arms a request for `length` bytes whose payload is not predicted.
    pub fn arm_read(&mut self, length: usize) -> (r: Result<u32, Rejected>)
        requires
            old(self).wf(),
        ensures
            final(self).wf(),
            (final(self)@, r) == arm_step(old(self)@, length as int, None),
    {
        self.arm_inner(length, None)
    }

    fn arm_inner(&mut self, length: usize, expected: Option<&[u8]>) -> (r: Result<u32, Rejected>)
        requires
            old(self).wf(),
            expected matches Some(e) ==> e@.len() == length,
        ensures
            final(self).wf(),
            (final(self)@, r) == arm_step(
                old(self)@,
                length as int,
                match expected {
                    Some(e) => Some(e@),
                    None => None,
                },
            ),
    {
        if length == 0 || length > MAX_LEN {
            return Err(Rejected::InvalidLength);
        }
        if !self.clean || self.state == State::Active {
            return Err(Rejected::NotClean);
        }
        let generation = match self.generation.checked_add(1) {
            Some(g) => g,
            None => {
                return Err(Rejected::GenerationExhausted);
            },
        };
        let mut buffer = [0u8; 33];
        let check_expected = expected.is_some();
        match expected {
            Some(e) => {
                let mut i: usize = 0;
                while i < length
                    invariant
                        i <= length <= MAX_LEN,
                        e@.len() == length,
                        buffer@.len() == MAX_LEN,
                        forall|j: int| 0 <= j < i ==> buffer@[j] == e@[j],
                        forall|j: int| i <= j < MAX_LEN ==> buffer@[j] == 0u8,
                    decreases length - i,
                {
                    buffer[i] = e[i];
                    i += 1;
                }
                assert(buffer@ =~= e@ + zeros((MAX_LEN - length) as nat));
            },
            None => {
                assert(buffer@ =~= zeros(MAX_LEN as nat));
            },
        }
        self.generation = generation;
        self.state = State::Active;
        self.clean = false;
        self.cleanup_error = None;
        self.requested = length as u8;
        self.issued = 0;
        self.drained = 0;
        self.stop_seen = false;
        self.pending = Pending::NoAccess;
        self.expected = buffer;
        self.check_expected = check_expected;
        self.bytes = [0u8; 33];
        self.first_mismatch = None;
        assert(self.bytes@ =~= zeros(MAX_LEN as nat));
        Ok(generation)
    }

    /// Prepares the next read command, if the TX FIFO has room, the RX FIFO
    /// has credit for one more byte and commands remain; a TX level above the
    /// depth fails the request.
    pub fn prepare_read(&mut self, generation: u32, tx_level: u32) -> (r: Result<
        Option<ReadCommand>,
        Rejected,
    >)
        requires
            old(self).wf(),
        ensures
            final(self).wf(),
            (final(self)@, match r {
                Ok(Some(c)) => Ok(Some((c.generation, c.index, c.stop))),
                Ok(None) => Ok(None),
                Err(e) => Err(e),
            }) == prepare_read_step(old(self)@, generation, tx_level),
    {
        match self.ready_for_io(generation) {
            Err(e) => {
                return Err(e);
            },
            Ok(()) => {},
        }
        if tx_level > self.tx_depth as u32 {
            return Err(self.fail(Error::InvalidTxLevel(tx_level)));
        }
        if self.issued == self.requested || tx_level == self.tx_depth as u32 || (self.issued
            - self.drained) as u16 == self.rx_depth {
            return Ok(None);
        }
        self.pending = Pending::Read;
        Ok(Some(ReadCommand { generation, index: self.issued, stop: self.issued + 1 == self.requested }))
    }

    /// Records the one command write that `command` permitted.
    pub fn record_issued(&mut self, command: ReadCommand) -> (r: Result<(), Rejected>)
        requires
            old(self).wf(),
        ensures
            final(self).wf(),
            (final(self)@, r) == record_issued_step(old(self)@, command.generation, command.index),
    {
        match self.active(command.generation) {
            Err(e) => {
                return Err(e);
            },
            Ok(()) => {},
        }
        if self.pending != Pending::Read || command.index != self.issued {
            return Err(Rejected::WrongOperation);
        }
        self.issued = self.issued + 1;
        self.pending = Pending::NoAccess;
        Ok(())
    }

    /// Prepares one guarded pop. A zero level gives no permit; a level above
    /// the depth, the outstanding commands or the bytes still owed fails the
    /// request before any read.
    pub fn prepare_pop(&mut self, generation: u32, rx_level: u32) -> (r: Result<
        Option<PopPermit>,
        Rejected,
    >)
        requires
            old(self).wf(),
        ensures
            final(self).wf(),
            (final(self)@, match r {
                Ok(Some(p)) => Ok(Some((p.generation, p.index))),
                Ok(None) => Ok(None),
                Err(e) => Err(e),
            }) == prepare_pop_step(old(self)@, generation, rx_level),
    {
        match self.ready_for_io(generation) {
            Err(e) => {
                return Err(e);
            },
            Ok(()) => {},
        }
        if rx_level > self.rx_depth as u32 || rx_level > (self.issued - self.drained) as u32
            || rx_level > (self.requested - self.drained) as u32 {
            return Err(self.fail(Error::InvalidRxLevel(rx_level)));
        }
        if rx_level == 0 {
            return Ok(None);
        }
        self.pending = Pending::Pop;
        Ok(Some(PopPermit { generation, index: self.drained }))
    }

    /// Records the actual result of the guarded pop; `None` fails the
    /// request. The first byte that differs from the prediction is kept.
    pub fn record_pop(&mut self, permit: PopPermit, actual: Option<u8>) -> (r: Result<
        (),
        Rejected,
    >)
        requires
            old(self).wf(),
        ensures
            final(self).wf(),
            (final(self)@, r) == record_pop_step(old(self)@, permit.generation, permit.index, actual),
    {
        match self.active(permit.generation) {
            Err(e) => {
                return Err(e);
            },
            Ok(()) => {},
        }
        if self.pending != Pending::Pop || permit.index != self.drained {
            return Err(Rejected::WrongOperation);
        }
        let actual = match actual {
            None => {
                return Err(self.fail(Error::EmptyPop));
            },
            Some(a) => a,
        };
        let index = self.drained as usize;
        self.bytes[index] = actual;
        if self.check_expected && actual != self.expected[index] && self.first_mismatch.is_none() {
            self.first_mismatch = Some(
                Mismatch { index: self.drained, expected: self.expected[index], actual },
            );
        }
        self.drained = self.drained + 1;
        self.pending = Pending::NoAccess;
        Ok(())
    }

    /// Applies a hardware snapshot (`causes` is raw | masked status,
    /// `abort_source` read before it was cleared). STOP is latched. Fatal
    /// causes beat completion and a recorded mismatch; completion needs STOP
    /// and every requested byte drained.
    pub fn observe(&mut self, generation: u32, causes: u32, abort_source: u32) -> (r: Result<
        State,
        Rejected,
    >)
        requires
            old(self).wf(),
        ensures
            final(self).wf(),
            (final(self)@, r) == observe_step(old(self)@, generation, causes, abort_source),
    {
        match self.active(generation) {
            Err(e) => {
                return Err(e);
            },
            Ok(()) => {},
        }
        self.stop_seen = self.stop_seen || causes & STOP_DET != 0;
        let error = if causes & FATAL_CAUSES != 0 || abort_source != 0 {
            Some(Error::Fatal { causes: causes & FATAL_CAUSES, abort_source })
        } else if self.pending != Pending::NoAccess {
            Some(Error::UncommittedIo)
        } else if self.first_mismatch.is_some() {
            Some(Error::Mismatch)
        } else if self.stop_seen && self.issued != self.requested {
            Some(Error::PrematureStop)
        } else {
            None
        };
        match error {
            Some(e) => {
                self.state = State::Failed(e);
                self.pending = Pending::NoAccess;
            },
            None => {
                if self.stop_seen && self.drained == self.requested {
                    self.state = State::Complete;
                }
            },
        }
        Ok(self.state)
    }

    /// Ends an active request for an adapter fault; pending permits lapse.
    pub fn fail_adapter(&mut self, generation: u32) -> (r: Result<(), Rejected>)
        requires
            old(self).wf(),
        ensures
            final(self).wf(),
            (final(self)@, r) == end_step(old(self)@, generation, State::Failed(Error::Adapter)),
            r is Ok ==> !final(self).clean,
    {
        match self.active(generation) {
            Err(e) => {
                return Err(e);
            },
            Ok(()) => {},
        }
        self.state = State::Failed(Error::Adapter);
        self.pending = Pending::NoAccess;
        Ok(())
    }

    /// Ends an active request on a deadline the caller has already decided.
    pub fn timeout(&mut self, generation: u32) -> (r: Result<(), Rejected>)
        requires
            old(self).wf(),
        ensures
            final(self).wf(),
            (final(self)@, r) == end_step(old(self)@, generation, State::TimedOut),
    {
        match self.active(generation) {
            Err(e) => {
                return Err(e);
            },
            Ok(()) => {},
        }
        self.state = State::TimedOut;
        self.pending = Pending::NoAccess;
        Ok(())
    }
}

} // verus!
