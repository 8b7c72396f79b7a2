//! The receive accounting of the interrupt-driven UART0 exchange: a 64-byte
//! ring shared by the handler and the task, the first error of the exchange
//! (a data error always wins), and the entry and progress budgets.

use vstd::prelude::*;

verus! {

pub const RING_BYTES: usize = 64;
pub const FIFO_BUDGET: usize = 32;

#[derive(Clone, Copy, Debug, Eq, PartialEq, Structural)]
pub enum Error {
    InvalidArgument,
    Cancelled,
    Timeout,
    DataError,
    Overflow,
    UnexpectedData,
    IrqBudget,
}

/// A byte ring of 64 slots: `len` bytes from `head`, wrapping.
pub struct Ring {
    pub bytes: [u8; RING_BYTES],
    pub head: usize,
    pub len: usize,
}

impl Ring {
    pub open spec fn wf(&self) -> bool {
        self.head < RING_BYTES && self.len <= RING_BYTES
    }

    /// The queued bytes, oldest first.
    pub open spec fn contents(&self) -> Seq<u8> {
        Seq::new(self.len as nat, |i: int| self.bytes@[(self.head + i) % (RING_BYTES as int)])
    }

    pub fn new() -> (r: Self)
        ensures
            r.wf(),
            r.contents() == Seq::<u8>::empty(),
            r.head == 0 && r.len == 0 && r.bytes@ == Seq::new(RING_BYTES as nat, |i: int| 0u8),
    {
        let r = Ring { bytes: [0u8; 64], head: 0, len: 0 };
        assert(r.contents() =~= Seq::<u8>::empty());
        assert(r.bytes@ =~= Seq::new(RING_BYTES as nat, |i: int| 0u8));
        r
    }

    /// Appends `byte` unless the ring is full; returns whether it did.
    pub fn push(&mut self, byte: u8) -> (r: bool)
        requires
            old(self).wf(),
        ensures
            final(self).wf(),
            r == (old(self).len < RING_BYTES),
            r ==> final(self).contents() == old(self).contents().push(byte),
            !r ==> final(self).contents() == old(self).contents(),
    {
        if self.len == RING_BYTES {
            return false;
        }
        let index = (self.head + self.len) % RING_BYTES;
        let ghost before = self.contents();
        self.bytes[index] = byte;
        self.len = self.len + 1;
        assert forall|i: int| 0 <= i < before.len() implies #[trigger] self.contents()[i] == before[i] by {
            assert((self.head + i) % 64 != (old(self).head + old(self).len) % 64) by {
                assert(0 <= i < old(self).len);
            }
        }
        assert(self.contents() =~= before.push(byte));
        true
    }

    /// Removes and returns the oldest byte, if any.
    pub fn pop(&mut self) -> (r: Option<u8>)
        requires
            old(self).wf(),
        ensures
            final(self).wf(),
            old(self).len == 0 ==> r is None && final(self).contents() == old(self).contents(),
            old(self).len > 0 ==> r == Some(old(self).contents()[0]) && final(self).contents()
                == old(self).contents().drop_first(),
    {
        if self.len == 0 {
            return None;
        }
        let byte = self.bytes[self.head];
        let ghost before = self.contents();
        self.head = (self.head + 1) % RING_BYTES;
        self.len = self.len - 1;
        assert forall|i: int| 0 <= i < self.len implies #[trigger] self.contents()[i] == before[i
            + 1] by {
            assert((self.head + i) % 64 == (old(self).head + i + 1) % 64);
        }
        assert(self.contents() =~= before.drop_first());
        Some(byte)
    }
}

/// Whether an interrupt or event of generation `observed` belongs to the
/// live request `active` (zero: none is live).
pub fn generation_matches(active: u32, observed: u32) -> (r: bool)
    ensures
        r == (active != 0 && active == observed),
{
    active != 0 && active == observed
}

/// The next generation; a generation is never reused, so the range must not
/// be exhausted.
pub fn next_generation(previous: u32) -> (r: u32)
    requires
        previous < u32::MAX,
    ensures
        r == previous + 1,
{
    previous + 1
}

pub struct RxState {
    pub ring: Ring,
    pub generation: u32,
    pub expected: u32,
    pub received: u32,
    pub entries: u32,
    pub no_progress: u32,
    pub error: Option<Error>,
    pub rsr_errors: u32,
    pub first_error_dr: u32,
    pub overflow_bytes: u32,
}

/// The error after a failure: the first one stays, except that a data error
/// replaces any other.
pub open spec fn after_failure(current: Option<Error>, error: Error) -> Option<Error> {
    if current is None || error == Error::DataError {
        Some(error)
    } else {
        current
    }
}

/// The error after the receive status `rsr` was retained.
pub open spec fn after_rsr(current: Option<Error>, rsr: u32) -> Option<Error> {
    if rsr & 0xf != 0 {
        after_failure(current, Error::DataError)
    } else {
        current
    }
}

/// The error after one data word of a ring that was `full` before it, with
/// `received` counting it: the word's error bits, then an overflow, then
/// more bytes than expected.
pub open spec fn after_word(
    current: Option<Error>,
    word: u32,
    full: bool,
    received: u32,
    expected: u32,
) -> Option<Error> {
    let e1 = if word & 0xf00 != 0 {
        after_rsr(current, word >> 8u32)
    } else {
        current
    };
    let e2 = if full {
        after_failure(e1, Error::Overflow)
    } else {
        e1
    };
    if received > expected {
        after_failure(e2, Error::UnexpectedData)
    } else {
        e2
    }
}

pub open spec fn saturating_inc(x: u32) -> u32 {
    if x == u32::MAX {
        x
    } else {
        (x + 1) as u32
    }
}

impl RxState {
    /// The ring is well formed, and error bits or overflowed bytes never
    /// stand without an error.
    pub open spec fn wf(&self) -> bool {
        &&& self.ring.wf()
        &&& (self.rsr_errors != 0 || self.overflow_bytes != 0) ==> self.error is Some
    }

    pub open spec fn is_terminal(&self) -> bool {
        self.error is Some || self.received >= self.expected
    }

    /// A fresh request of `expected` bytes under `generation`.
    pub fn new(generation: u32, expected: u32) -> (r: Self)
        ensures
            r.wf(),
            r.ring.contents() == Seq::<u8>::empty(),
            r.generation == generation && r.expected == expected && r.received == 0 && r.entries
                == 0 && r.no_progress == 0 && r.error is None && r.rsr_errors == 0
                && r.first_error_dr == 0 && r.overflow_bytes == 0,
    {
        RxState {
            ring: Ring::new(),
            generation,
            expected,
            received: 0,
            entries: 0,
            no_progress: 0,
            error: None,
            rsr_errors: 0,
            first_error_dr: 0,
            overflow_bytes: 0,
        }
    }

    /// Records a failure: the first error stays unless this one is a data
    /// error.
    pub fn fail(&mut self, error: Error)
        ensures
            final(self).error == after_failure(old(self).error, error),
            final(self).ring == old(self).ring,
            final(self).generation == old(self).generation,
            final(self).expected == old(self).expected,
            final(self).received == old(self).received,
            final(self).entries == old(self).entries,
            final(self).no_progress == old(self).no_progress,
            final(self).rsr_errors == old(self).rsr_errors,
            final(self).first_error_dr == old(self).first_error_dr,
            final(self).overflow_bytes == old(self).overflow_bytes,
    {
        if self.error.is_none() || error == Error::DataError {
            self.error = Some(error);
        }
    }

    /// Keeps the error bits of a receive status; any bit is a data error.
    pub fn retain_rsr(&mut self, rsr: u32)
        ensures
            final(self).rsr_errors == old(self).rsr_errors | (rsr & 0xf),
            final(self).error == after_rsr(old(self).error, rsr),
            final(self).ring == old(self).ring,
            final(self).generation == old(self).generation,
            final(self).expected == old(self).expected,
            final(self).received == old(self).received,
            final(self).entries == old(self).entries,
            final(self).no_progress == old(self).no_progress,
            final(self).first_error_dr == old(self).first_error_dr,
            final(self).overflow_bytes == old(self).overflow_bytes,
            final(self).rsr_errors != 0 ==> old(self).rsr_errors != 0 || final(self).error is Some,
    {
        let before = self.rsr_errors;
        assert((rsr & 0xf) == 0 ==> (before | (rsr & 0xf)) == before) by (bit_vector);
        self.rsr_errors = self.rsr_errors | (rsr & 0xf);
        if rsr & 0xf != 0 {
            self.fail(Error::DataError);
        }
    }

    /// Records one received data word: its error bits, the byte into the
    /// ring (a full ring is an overflow) and too many bytes as unexpected
    /// data.
    pub fn record_word(&mut self, word: u32)
        requires
            old(self).wf(),
        ensures
            final(self).wf(),
            final(self).generation == old(self).generation,
            final(self).expected == old(self).expected,
            final(self).entries == old(self).entries,
            final(self).no_progress == old(self).no_progress,
            final(self).received == saturating_inc(old(self).received),
            old(self).ring.len < RING_BYTES ==> final(self).ring.contents() == old(self).ring.contents().push(word as u8),
            old(self).ring.len == RING_BYTES ==> final(self).ring.contents() == old(self).ring.contents() && final(self).error is Some,
            old(self).error is Some ==> final(self).error is Some,
            word & 0xf00 != 0 && (word >> 8u32) & 0xf != 0 ==> final(self).error == Some(
                Error::DataError,
            ),
            final(self).error == after_word(
                old(self).error,
                word,
                old(self).ring.len == RING_BYTES,
                saturating_inc(old(self).received),
                old(self).expected,
            ),
            final(self).rsr_errors == (if word & 0xf00 != 0 {
                old(self).rsr_errors | ((word >> 8u32) & 0xf)
            } else {
                old(self).rsr_errors
            }),
            final(self).first_error_dr == (if word & 0xf00 != 0 && old(self).first_error_dr == 0 {
                word
            } else {
                old(self).first_error_dr
            }),
            final(self).overflow_bytes == (if old(self).ring.len == RING_BYTES {
                saturating_inc(old(self).overflow_bytes)
            } else {
                old(self).overflow_bytes
            }),
    {
        if word & 0xf00 != 0 {
            if self.first_error_dr == 0 {
                self.first_error_dr = word;
            }
            self.retain_rsr(word >> 8u32);
        }
        self.received = self.received.saturating_add(1);
        if !self.ring.push(word as u8) {
            self.overflow_bytes = self.overflow_bytes.saturating_add(1);
            self.fail(Error::Overflow);
        }
        if self.received > self.expected {
            self.fail(Error::UnexpectedData);
        }
    }

    /// Accepts a word for the live generation only.
    pub fn accept(&mut self, generation: u32, word: u32) -> (r: bool)
        requires
            old(self).wf(),
        ensures
            final(self).wf(),
            r == (old(self).generation != 0 && old(self).generation == generation),
            !r ==> final(self).ring == old(self).ring && final(self).received == old(self).received && final(self).error == old(self).error,
            r ==> final(self).received == saturating_inc(old(self).received),
            r ==> final(self).error == after_word(
                old(self).error,
                word,
                old(self).ring.len == RING_BYTES,
                saturating_inc(old(self).received),
                old(self).expected,
            ),
            r && old(self).ring.len < RING_BYTES ==> final(self).ring.contents() == old(
                self,
            ).ring.contents().push(word as u8),
    {
        if !generation_matches(self.generation, generation) {
            return false;
        }
        self.record_word(word);
        true
    }

    /// Counts an interrupt entry of the live generation; a terminal request
    /// or more than `4 * expected + 8` entries fails the budget.
    pub fn begin_irq(&mut self, generation: u32) -> (r: bool)
        requires
            old(self).wf(),
        ensures
            final(self).wf(),
            !(old(self).generation != 0 && old(self).generation == generation) ==> !r && final(self).entries == old(self).entries && final(self).error == old(self).error,
            r ==> !final(self).is_terminal(),
            r ==> final(self).entries == saturating_inc(old(self).entries),
            (old(self).generation != 0 && old(self).generation == generation) ==> {
                let entries = saturating_inc(old(self).entries);
                let budget = if 4 * old(self).expected + 8 > u32::MAX {
                    u32::MAX as int
                } else {
                    4 * old(self).expected + 8
                };
                &&& final(self).entries == entries
                &&& r == !(old(self).is_terminal() || entries > budget)
                &&& !r ==> final(self).error == after_failure(old(self).error, Error::IrqBudget)
                &&& r ==> final(self).error == old(self).error
            },
            final(self).ring == old(self).ring && final(self).received == old(self).received,
    {
        if !generation_matches(self.generation, generation) {
            return false;
        }
        self.entries = self.entries.saturating_add(1);
        let wide = (self.expected as u64) * 4 + 8;
        let budget: u32 = if wide > u32::MAX as u64 {
            u32::MAX
        } else {
            wide as u32
        };
        if self.terminal() || self.entries > budget {
            self.fail(Error::IrqBudget);
            return false;
        }
        true
    }

    /// Four entries in a row without a new byte fail the budget.
    pub fn progress(&mut self, before: u32)
        requires
            old(self).no_progress < u32::MAX,
        ensures
            final(self).no_progress == (if before == old(self).received {
                old(self).no_progress + 1
            } else {
                0
            }),
            final(self).no_progress >= 4 ==> final(self).error == after_failure(
                old(self).error,
                Error::IrqBudget,
            ),
            final(self).no_progress < 4 ==> final(self).error == old(self).error,
            final(self).ring == old(self).ring && final(self).received == old(self).received,
    {
        self.no_progress = if before == self.received {
            self.no_progress + 1
        } else {
            0
        };
        if self.no_progress >= 4 {
            self.fail(Error::IrqBudget);
        }
    }

    pub fn terminal(&self) -> (r: bool)
        ensures
            r == self.is_terminal(),
    {
        self.error.is_some() || self.received >= self.expected
    }

    /// The outcome seen by the task: the recorded error first, then a
    /// cancellation, then a passed deadline; otherwise whether every byte
    /// arrived.
    pub fn outcome(&self, cancelled: bool, remaining: Option<u32>) -> (r: Result<bool, Error>)
        ensures
            r == (match self.error {
                Some(e) => Err::<bool, Error>(e),
                None => if cancelled {
                    Err(Error::Cancelled)
                } else if remaining is None {
                    Err(Error::Timeout)
                } else {
                    Ok(self.received == self.expected)
                },
            }),
    {
        match self.error {
            Some(error) => {
                return Err(error);
            },
            None => {},
        }
        if cancelled {
            return Err(Error::Cancelled);
        }
        if remaining.is_none() {
            return Err(Error::Timeout);
        }
        Ok(self.received == self.expected)
    }
}

/// Once an exchange has an error it keeps one, and a data error, once
/// recorded, is never replaced.
pub proof fn lemma_errors_are_sticky(current: Option<Error>, error: Error)
    ensures
        current is Some ==> after_failure(current, error) is Some,
        current == Some(Error::DataError) ==> after_failure(current, error) == Some(
            Error::DataError,
        ),
        error == Error::DataError ==> after_failure(current, error) == Some(Error::DataError),
{
}

/// The ring hands bytes out in the order they went in: a byte pushed into
/// an empty ring is the next one popped, and pushing behind queued bytes
/// commutes with popping the oldest of them.
pub proof fn lemma_ring_is_fifo(contents: Seq<u8>, byte: u8)
    ensures
        contents.len() == 0 ==> contents.push(byte)[0] == byte,
        contents.len() > 0 ==> contents.push(byte)[0] == contents[0] && contents.push(
            byte,
        ).drop_first() == contents.drop_first().push(byte),
{
    if contents.len() > 0 {
        assert(contents.push(byte).drop_first() =~= contents.drop_first().push(byte));
    }
}

/// The receive-side registers of UART0 as one snapshot.
#[derive(Clone, Copy, Debug, Default, Eq, PartialEq, Structural)]
pub struct Uart0RxStatus {
    pub cr: u32,
    pub imsc: u32,
    pub fr: u32,
    pub rsr: u32,
    pub ris: u32,
    pub mis: u32,
}

/// A quiet receiver: enabled for TX only (UARTEN and TXE, RXE clear), no
/// interrupt unmasked, the RX FIFO empty, no retained error, no RX or
/// timeout cause raw or masked, and nothing masked pending.
pub open spec fn is_clean(s: Uart0RxStatus) -> bool {
    &&& s.cr & 0x301 == 0x101
    &&& s.imsc == 0
    &&& s.fr & 0x10 != 0
    &&& s.rsr & 0xf == 0
    &&& (s.ris | s.mis) & 0x50 == 0
    &&& s.mis == 0
}

pub fn clean(s: Uart0RxStatus) -> (r: bool)
    ensures
        r == is_clean(s),
{
    s.cr & 0x301 == 0x101 && s.imsc == 0 && s.fr & 0x10 != 0 && s.rsr & 0xf == 0 && (s.ris
        | s.mis) & 0x50 == 0 && s.mis == 0
}

/// The counters and final register values of one exchange.
#[derive(Clone, Copy, Debug, Default, Eq, PartialEq, Structural)]
pub struct Receipt {
    pub generation: u32,
    pub received: u32,
    pub irq_entries: u32,
    pub ipsr: u32,
    pub elapsed_us: u32,
    pub irq_body_max_us: u32,
    pub irq_end_to_task_us: u32,
    pub higher_priority_wakes: u32,
    pub first_ris: u32,
    pub first_mis: u32,
    pub rsr_errors: u32,
    pub first_error_dr: u32,
    pub overflow_bytes: u32,
    pub residual_bytes: u32,
    /// Sum of the preflight and final cleanups.
    pub cleanup_elapsed_us: u32,
    pub quiet_samples: u32,
    pub final_cr: u32,
    pub final_imsc: u32,
    pub final_fr: u32,
}

/// The owner's record of its exchanges.
#[derive(Clone, Copy, Debug, Eq, PartialEq, Structural)]
pub struct Driver {
    pub last: Option<Receipt>,
}

/// An exchange needs a nonempty buffer whose length fits a word and a
/// deadline one to half the tick wrap minus one ticks away.
pub open spec fn exchange_arguments_ok(rx_len: usize, timeout_ticks: u32) -> bool {
    rx_len != 0 && rx_len <= u32::MAX && timeout_ticks != 0 && timeout_ticks < 0x8000_0000
}

/// The result of an exchange once it is withdrawn and cleaned up: an error
/// recorded by the receive state (also one first seen during cleanup)
/// outranks everything; a success becomes a cancellation when a cancel of
/// this generation was accepted before the withdrawal.
pub open spec fn exchange_result(
    result: Result<(), Error>,
    cancel: u32,
    generation: u32,
    state_error: Option<Error>,
) -> Result<(), Error> {
    match state_error {
        Some(e) => Err(e),
        None => if result is Ok && cancel == generation {
            Err(Error::Cancelled)
        } else {
            result
        },
    }
}

impl Driver {
    pub fn new() -> (r: Self)
        ensures
            r.last is None,
    {
        Driver { last: None }
    }

    pub fn last_receipt(&self) -> (r: Option<Receipt>)
        ensures
            r == self.last,
    {
        self.last
    }

    /// Starts an exchange: forgets the last receipt and checks the
    /// arguments.
    pub fn begin(&mut self, rx_len: usize, timeout_ticks: u32) -> (r: Result<(), Error>)
        ensures
            final(self).last is None,
            r == (if exchange_arguments_ok(rx_len, timeout_ticks) {
                Ok::<(), Error>(())
            } else {
                Err(Error::InvalidArgument)
            }),
    {
        self.last = None;
        if rx_len == 0 || rx_len > u32::MAX as usize || timeout_ticks == 0 || timeout_ticks
            >= 0x8000_0000 {
            return Err(Error::InvalidArgument);
        }
        Ok(())
    }

    /// Ends an exchange on the cleaned-up receive state: moves the bytes
    /// still queued into `rx` after the `copied` already there, fills the
    /// receipt from the state (its generation is the state's), records it
    /// and returns the final result. A
    /// success reports every byte of `rx` received and no error evidence.
    pub fn conclude(
        &mut self,
        state: &mut RxState,
        result: Result<(), Error>,
        cancel: u32,
        rx: &mut [u8],
        copied: usize,
        elapsed_us: u32,
        receipt: Receipt,
    ) -> (r: Result<Receipt, Error>)
        requires
            old(state).wf(),
            copied <= old(rx)@.len(),
            old(state).expected == old(rx)@.len(),
            old(state).error is None ==> copied + old(state).ring.len == old(state).received,
            result is Ok && old(state).error is None ==> old(state).received
                == old(state).expected,
        ensures
            ({
                let queued = old(state).ring.contents();
                let n = if queued.len() < old(rx)@.len() - copied {
                    queued.len() as int
                } else {
                    old(rx)@.len() - copied
                };
                let filled = Receipt {
                    generation: old(state).generation,
                    received: (copied + n) as u32,
                    irq_entries: old(state).entries,
                    rsr_errors: old(state).rsr_errors,
                    first_error_dr: old(state).first_error_dr,
                    overflow_bytes: old(state).overflow_bytes,
                    elapsed_us,
                    ..receipt
                };
                &&& final(rx)@ == old(rx)@.take(copied as int) + queued.take(n) + old(rx)@.skip(
                    copied + n,
                )
                &&& final(state).wf()
                &&& final(state).ring.contents() == queued.skip(n)
                &&& final(state).error == old(state).error
                &&& final(state).generation == old(state).generation
                &&& final(self).last == Some(filled)
                &&& r == (match exchange_result(result, cancel, old(state).generation, old(state).error) {
                    Ok(()) => Ok::<Receipt, Error>(filled),
                    Err(e) => Err(e),
                })
            }),
            final(self).last matches Some(x) && x.generation == old(state).generation,
            r matches Ok(x) ==> x.received == old(rx)@.len() && x.rsr_errors == 0
                && x.overflow_bytes == 0 && x.generation == old(state).generation,
    {
        let ghost queued = state.ring.contents();
        let ghost rx0 = rx@;
        let ghost n: int = if queued.len() < rx0.len() - copied {
            queued.len() as int
        } else {
            rx0.len() - copied
        };
        let mut at = copied;
        let mut more = true;
        while at < rx.len() && more
            invariant
                copied <= at <= rx@.len(),
                rx@.len() == rx0.len(),
                state.wf(),
                state.error == old(state).error,
                state.generation == old(state).generation,
                state.entries == old(state).entries,
                state.rsr_errors == old(state).rsr_errors,
                state.first_error_dr == old(state).first_error_dr,
                state.overflow_bytes == old(state).overflow_bytes,
                at - copied <= queued.len(),
                state.ring.contents() == queued.skip(at - copied),
                more ==> at - copied <= queued.len(),
                !more ==> at - copied == queued.len(),
                rx@ == rx0.take(copied as int) + queued.take(at - copied) + rx0.skip(at as int),
            decreases rx@.len() - at + (if more { 1int } else { 0int }),
        {
            let ghost before = rx@;
            match state.ring.pop() {
                Some(byte) => {
                    proof {
                        assert(queued.skip(at - copied)[0] == queued[at - copied]);
                        assert(queued.skip(at - copied).drop_first() =~= queued.skip(at - copied + 1));
                    }
                    rx[at] = byte;
                    at += 1;
                    proof {
                        assert(rx@ =~= rx0.take(copied as int) + queued.take(at - copied) + rx0.skip(
                            at as int,
                        ));
                    }
                },
                None => {
                    more = false;
                },
            }
        }
        proof {
            assert(at - copied == n);
        }
        let filled = Receipt {
            generation: state.generation,
            received: at as u32,
            irq_entries: state.entries,
            rsr_errors: state.rsr_errors,
            first_error_dr: state.first_error_dr,
            overflow_bytes: state.overflow_bytes,
            elapsed_us,
            ..receipt
        };
        self.last = Some(filled);
        if let Some(e) = state.error {
            return Err(e);
        }
        if result.is_ok() && cancel == state.generation {
            return Err(Error::Cancelled);
        }
        match result {
            Ok(()) => Ok(filled),
            Err(e) => Err(e),
        }
    }
}

/// Whether the interrupt may be re-enabled: only for the live generation of
/// a request that is not yet terminal.
pub fn may_resume(state: &RxState, published: u32) -> (r: bool)
    ensures
        r == (state.generation != 0 && state.generation == published && !state.is_terminal()),
{
    generation_matches(state.generation, published) && !state.terminal()
}

/// A cleanup ends once the receiver stayed quiet this many microseconds.
pub const CLEANUP_QUIET_US: u32 = 4000;
/// A cleanup that runs this long has failed.
pub const CLEANUP_LIMIT_US: u32 = 20_000;
/// Cleanup samples this far apart have failed.
pub const CLEANUP_GAP_US: u32 = 10_000;

/// Whether a cleanup sample at `now` is still in time: less than the limit
/// since the cleanup `started` and less than the gap since the `previous`
/// sample, on the wrapping raw timer.
pub fn cleanup_in_time(started: u32, previous: u32, now: u32) -> (r: bool)
    ensures
        r == (now.wrapping_sub(started) < CLEANUP_LIMIT_US && now.wrapping_sub(previous)
            < CLEANUP_GAP_US),
{
    now.wrapping_sub(started) < CLEANUP_LIMIT_US && now.wrapping_sub(previous) < CLEANUP_GAP_US
}

/// The start of the quiet interval after a sample at `now` (activity
/// restarts it) and whether the receiver has now been quiet long enough.
pub fn quiet_after(quiet_since: u32, now: u32, activity: bool) -> (r: (u32, bool))
    ensures
        r.0 == (if activity {
            now
        } else {
            quiet_since
        }),
        r.1 == (now.wrapping_sub(r.0) >= CLEANUP_QUIET_US),
{
    let since = if activity {
        now
    } else {
        quiet_since
    };
    (since, now.wrapping_sub(since) >= CLEANUP_QUIET_US)
}

impl RxState {
    /// Records a word drained by a cleanup; before the request is armed any
    /// such word, even a correctly sized response, is unexpected data.
    pub fn record_residual(&mut self, word: u32, preflight: bool)
        requires
            old(self).wf(),
        ensures
            final(self).wf(),
            final(self).received == saturating_inc(old(self).received),
            final(self).error == {
                let e = after_word(
                    old(self).error,
                    word,
                    old(self).ring.len == RING_BYTES,
                    saturating_inc(old(self).received),
                    old(self).expected,
                );
                if preflight {
                    after_failure(e, Error::UnexpectedData)
                } else {
                    e
                }
            },
            old(self).ring.len < RING_BYTES ==> final(self).ring.contents() == old(
                self,
            ).ring.contents().push(word as u8),
            old(self).ring.len == RING_BYTES ==> final(self).ring.contents() == old(
                self,
            ).ring.contents(),
            final(self).generation == old(self).generation,
            final(self).expected == old(self).expected,
            final(self).entries == old(self).entries,
    {
        self.record_word(word);
        if preflight {
            self.fail(Error::UnexpectedData);
        }
    }
}

/// An exchange succeeds exactly when the receive state recorded no error,
/// the receive itself succeeded, and no cancel of its generation was
/// accepted.
pub proof fn lemma_exchange_success_conditions(
    result: Result<(), Error>,
    cancel: u32,
    generation: u32,
    state_error: Option<Error>,
)
    ensures
        exchange_result(result, cancel, generation, state_error) is Ok <==> (state_error is None
            && result is Ok && cancel != generation),
{
}

/// An error recorded in the receive state is what an exchange reports,
/// whatever the wait loop or the canceller saw.
pub proof fn lemma_recorded_error_outranks(
    result: Result<(), Error>,
    cancel: u32,
    generation: u32,
    e: Error,
)
    ensures
        exchange_result(result, cancel, generation, Some(e)) == Err::<(), Error>(e),
        exchange_result(Ok(()), generation, generation, None) == Err::<(), Error>(Error::Cancelled),
{
}

} // verus!
