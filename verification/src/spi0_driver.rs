//! The decisions of the task-side SPI0 receive: argument and generation
//! checks, the wait loop's next step, the interrupt budget and the receipt.
//! The kernel calls, the NVIC writes and the transfer itself belong to the
//! firmware, which asks these functions what to do next.

use vstd::prelude::*;
use crate::spi::receive::{Spi0RxError, Spi0RxState};
use crate::spi::Spi0Error;

verus! {

#[derive(Clone, Copy, Debug, Eq, PartialEq, Structural)]
pub enum Error {
    InvalidDeadline,
    Cancelled,
    Timeout,
    IrqBudget,
    Receive(Spi0RxError),
}

/// The counters of one receive, kept also when it failed.
#[derive(Clone, Copy, Debug, Eq, PartialEq, Structural)]
pub struct Receipt {
    pub generation: u32,
    pub irq_entries: u32,
    pub elapsed_us: u32,
    pub irq_body_max_us: u32,
    /// Zero when no completion-to-task observation was made.
    pub irq_end_to_task_us: u32,
}

/// The owner's view of its receives: the last generation used and the last
/// receipt.
#[derive(Clone, Copy, Debug, Eq, PartialEq, Structural)]
pub struct Driver {
    pub generation: u32,
    pub last: Option<Receipt>,
}

/// A deadline is one to half the tick wrap minus one ticks away.
pub open spec fn deadline_ok(timeout_ticks: u32) -> bool {
    timeout_ticks != 0 && timeout_ticks < 0x8000_0000
}

/// What the task does next while it waits for a receive.
#[derive(Clone, Copy, Debug, Eq, PartialEq, Structural)]
pub enum WaitStep {
    /// Stop with this error.
    Stop(Error),
    /// Every byte arrived: try to finish, or sleep a tick and ask again.
    TryFinish,
    /// Unmask the interrupt and block for at most this many ticks.
    Block(u32),
}

/// The next step: a cancellation of this generation first, then an
/// interrupt over budget, then a failed transfer, then a passed deadline.
pub open spec fn next_step(
    cancel: u32,
    generation: u32,
    irq_error: bool,
    state: Spi0RxState,
    remaining: Option<u32>,
) -> WaitStep {
    if cancel == generation {
        WaitStep::Stop(Error::Cancelled)
    } else if irq_error {
        WaitStep::Stop(Error::IrqBudget)
    } else if state is Failed {
        WaitStep::Stop(Error::Receive(state->Failed_0))
    } else if remaining is None {
        WaitStep::Stop(Error::Timeout)
    } else if state == Spi0RxState::RxComplete {
        WaitStep::TryFinish
    } else {
        WaitStep::Block(remaining->0)
    }
}

pub fn wait_step(
    cancel: u32,
    generation: u32,
    irq_error: bool,
    state: Spi0RxState,
    remaining: Option<u32>,
) -> (r: WaitStep)
    ensures
        r == next_step(cancel, generation, irq_error, state, remaining),
{
    if cancel == generation {
        return WaitStep::Stop(Error::Cancelled);
    }
    if irq_error {
        return WaitStep::Stop(Error::IrqBudget);
    }
    if let Spi0RxState::Failed(e) = state {
        return WaitStep::Stop(Error::Receive(e));
    }
    match remaining {
        None => WaitStep::Stop(Error::Timeout),
        Some(left) => if state == Spi0RxState::RxComplete {
            WaitStep::TryFinish
        } else {
            WaitStep::Block(left)
        },
    }
}

/// A preparation error that the transfer reports before touching the
/// hardware; any other preparation error leaves the hardware in an unknown
/// state and must halt.
pub open spec fn precedes_hardware(e: Spi0RxError) -> bool {
    ||| e matches Spi0RxError::LengthMismatch { .. }
    ||| e == Spi0RxError::Setup(Spi0Error::EmptyPayload)
    ||| e matches Spi0RxError::Setup(Spi0Error::PayloadTooLong { .. })
    ||| e == Spi0RxError::Setup(Spi0Error::FifoDepthUnknown)
}

pub fn recoverable_preparation_error(e: Spi0RxError) -> (r: bool)
    ensures
        r == precedes_hardware(e),
{
    match e {
        Spi0RxError::LengthMismatch { .. } => true,
        Spi0RxError::Setup(Spi0Error::EmptyPayload) => true,
        Spi0RxError::Setup(Spi0Error::PayloadTooLong { .. }) => true,
        Spi0RxError::Setup(Spi0Error::FifoDepthUnknown) => true,
        _ => false,
    }
}

/// The most interrupt entries one receive of `tx_len` bytes may take.
pub fn irq_limit(tx_len: usize) -> (r: u32)
    requires
        tx_len < u32::MAX,
    ensures
        r == tx_len + 1,
{
    (tx_len + 1) as u32
}

/// One interrupt entry: the saturated entry count, and whether it is over
/// the limit (the transfer must then not be serviced).
pub fn irq_entry(count_before: u32, limit: u32) -> (r: (u32, bool))
    ensures
        r.0 == (if count_before == u32::MAX { u32::MAX } else { (count_before + 1) as u32 }),
        r.1 == (r.0 > limit),
{
    let count = count_before.saturating_add(1);
    (count, count > limit)
}

/// Whether the entry ends the receive: over budget, or the transfer left the
/// active state.
pub fn irq_is_terminal(over_budget: bool, state_after: Spi0RxState) -> (r: bool)
    ensures
        r == (over_budget || state_after != Spi0RxState::Active),
{
    over_budget || state_after != Spi0RxState::Active
}

/// The longest interrupt body so far, with this one from `started` to
/// `ended` on the wrapping microsecond counter.
pub fn irq_body_max(previous: u32, started: u32, ended: u32) -> (r: u32)
    ensures
        r == (if ended.wrapping_sub(started) > previous {
            ended.wrapping_sub(started)
        } else {
            previous
        }),
{
    let body = ended.wrapping_sub(started);
    if body > previous {
        body
    } else {
        previous
    }
}

/// The receipt of one receive, with times on the wrapping microsecond
/// counter; the completion-to-task time is zero without an observation.
pub fn receipt(
    generation: u32,
    irq_entries: u32,
    started: u32,
    ended: u32,
    irq_body_max_us: u32,
    wake: Option<u32>,
    irq_end: u32,
) -> (r: Receipt)
    ensures
        r == (Receipt {
            generation,
            irq_entries,
            elapsed_us: ended.wrapping_sub(started),
            irq_body_max_us,
            irq_end_to_task_us: match wake {
                Some(t) => t.wrapping_sub(irq_end),
                None => 0,
            },
        }),
{
    Receipt {
        generation,
        irq_entries,
        elapsed_us: ended.wrapping_sub(started),
        irq_body_max_us,
        irq_end_to_task_us: match wake {
            Some(t) => t.wrapping_sub(irq_end),
            None => 0,
        },
    }
}

/// The result handed to the caller: a success becomes a cancellation when
/// a cancel of this generation was accepted before the request was
/// withdrawn.
pub open spec fn final_result(result: Result<(), Error>, cancel: u32, generation: u32) -> Result<
    (),
    Error,
> {
    if result is Ok && cancel == generation {
        Err(Error::Cancelled)
    } else {
        result
    }
}

impl Driver {
    pub fn new() -> (r: Self)
        ensures
            r == (Driver { generation: 0, last: None }),
    {
        Driver { generation: 0, last: None }
    }

    /// The last receive's counters, including refused-after-start and
    /// aborted ones.
    pub fn last_receipt(&self) -> (r: Option<Receipt>)
        ensures
            r == self.last,
    {
        self.last
    }

    /// Starts a receive: forgets the last receipt, refuses a deadline out of
    /// range, and otherwise names the next generation, which is taken only
    /// once the transfer is prepared.
    pub fn begin(&mut self, timeout_ticks: u32) -> (r: Result<u32, Error>)
        requires
            deadline_ok(timeout_ticks) ==> old(self).generation < u32::MAX,
        ensures
            final(self).last is None,
            final(self).generation == old(self).generation,
            r == (if deadline_ok(timeout_ticks) {
                Ok::<u32, Error>((old(self).generation + 1) as u32)
            } else {
                Err(Error::InvalidDeadline)
            }),
    {
        self.last = None;
        if timeout_ticks == 0 || timeout_ticks >= 0x8000_0000 {
            return Err(Error::InvalidDeadline);
        }
        Ok(self.generation + 1)
    }

    /// Takes the generation of a prepared transfer.
    pub fn commit(&mut self, generation: u32)
        ensures
            *final(self) == (Driver { generation, ..*old(self) }),
    {
        self.generation = generation;
    }

    /// Ends a receive: records its receipt and returns the final result.
    pub fn conclude(
        &mut self,
        generation: u32,
        result: Result<(), Error>,
        cancel: u32,
        receipt: Receipt,
    ) -> (r: Result<Receipt, Error>)
        ensures
            final(self).generation == old(self).generation,
            final(self).last == Some(receipt),
            r == (match final_result(result, cancel, generation) {
                Ok(()) => Ok::<Receipt, Error>(receipt),
                Err(e) => Err(e),
            }),
    {
        self.last = Some(receipt);
        if result.is_ok() && cancel == generation {
            return Err(Error::Cancelled);
        }
        match result {
            Ok(()) => Ok(receipt),
            Err(e) => Err(e),
        }
    }
}

/// A cancel that was accepted for a generation is never reported as a
/// successful receive of that generation.
pub proof fn lemma_accepted_cancel_is_never_success(result: Result<(), Error>, generation: u32)
    ensures
        final_result(result, generation, generation) is Err,
        result is Err ==> final_result(result, generation, generation) == result,
{
}

/// The wait never blocks on a cancelled, over-budget, failed or expired
/// receive, and blocks at most for the ticks left.
pub proof fn lemma_wait_blocks_only_when_live(
    cancel: u32,
    generation: u32,
    irq_error: bool,
    state: Spi0RxState,
    remaining: Option<u32>,
)
    ensures
        next_step(cancel, generation, irq_error, state, remaining) matches WaitStep::Block(t) ==> {
            &&& cancel != generation
            &&& !irq_error
            &&& state !is Failed
            &&& state != Spi0RxState::RxComplete
            &&& remaining == Some(t)
        },
{
}

} // verus!
