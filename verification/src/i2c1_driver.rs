//! The decisions of the task-side I2C1 receive: argument checks, the
//! retained fatal evidence, the interrupt budget, the wait loop's next step
//! and the result once the request is withdrawn and cleaned up. The kernel
//! calls, the NVIC writes and the sampled cleanup belong to the firmware.

use vstd::prelude::*;
use crate::i2c_rx_irq_adapter::{causes, is_fatal, I2c1Read1Snapshot, ServiceEvidence};
use crate::i2c_rx_state::{Error as RxError, RxState, State, FATAL_CAUSES, MAX_LEN, OWNED_CAUSES};

verus! {

#[derive(Clone, Copy, Debug, Eq, PartialEq, Structural)]
pub enum Error {
    InvalidArgument,
    Cancelled,
    Timeout,
    Receive(RxError),
    IrqBudget,
}

#[derive(Clone, Copy, Debug, Default, Eq, PartialEq, Structural)]
pub struct Receipt {
    pub generation: u32,
    pub irq_entries: u32,
    pub received: u32,
    pub elapsed_us: u32,
    pub irq_body_max_us: u32,
    pub irq_end_to_task_us: u32,
    pub first_fatal_causes: u32,
    pub first_abort_source: u32,
    pub discarded_after_failure: u32,
    pub cleanup_elapsed_us: u32,
    pub quiet_samples: u32,
    pub quiet_max_gap_us: u32,
    /// Scheduling hints, not a count of notifications; zero is legal.
    pub higher_priority_wakes: u32,
}

/// The owner's record of its receives.
#[derive(Clone, Copy, Debug, Eq, PartialEq, Structural)]
pub struct Driver {
    pub last: Option<Receipt>,
}

/// The most interrupt entries one receive may take.
pub const IRQ_ENTRY_LIMIT: u32 = 4 * 33 + 8;

/// A quiet controller: disabled, masked, both FIFOs empty, no owned cause
/// raw or masked, nothing masked pending and no abort source.
pub open spec fn is_clean(s: I2c1Read1Snapshot) -> bool {
    &&& s.enable_status == 0
    &&& s.interrupt_mask == 0
    &&& s.rx_level == 0
    &&& s.tx_level == 0
    &&& causes(s) & OWNED_CAUSES == 0
    &&& s.masked_interrupt_status == 0
    &&& s.abort_source == 0
}

pub fn clean(s: I2c1Read1Snapshot) -> (r: bool)
    ensures
        r == is_clean(s),
{
    s.enable_status == 0 && s.interrupt_mask == 0 && s.rx_level == 0 && s.tx_level == 0 && (
    s.raw_interrupt_status | s.masked_interrupt_status) & OWNED_CAUSES == 0
        && s.masked_interrupt_status == 0 && s.abort_source == 0
}

/// A 7-bit address, one to 33 bytes and a deadline one to half the tick
/// wrap minus one ticks away.
pub open spec fn receive_arguments_ok(address: u8, rx_len: usize, timeout_ticks: u32) -> bool {
    address <= 0x7f && 1 <= rx_len <= MAX_LEN && timeout_ticks != 0 && timeout_ticks
        < 0x8000_0000
}

/// The receipt after `s`: the first fatal causes and abort source of the
/// receive are kept, later ones never replace them.
pub open spec fn retained(r: Receipt, s: I2c1Read1Snapshot) -> Receipt {
    if is_fatal(s) && r.first_fatal_causes == 0 && r.first_abort_source == 0 {
        Receipt {
            first_fatal_causes: causes(s) & FATAL_CAUSES,
            first_abort_source: s.abort_source,
            ..r
        }
    } else {
        r
    }
}

impl Receipt {
    pub fn retain(&mut self, s: I2c1Read1Snapshot)
        ensures
            *final(self) == retained(*old(self), s),
    {
        let bits = (s.raw_interrupt_status | s.masked_interrupt_status) & FATAL_CAUSES;
        if bits != 0 || s.abort_source != 0 {
            if self.first_fatal_causes == 0 && self.first_abort_source == 0 {
                self.first_fatal_causes = bits;
                self.first_abort_source = s.abort_source;
            }
        }
    }

    /// Keeps the fatal evidence of one adapter call; returns whether the
    /// call reported a fault or a rejection (the budget then fails).
    pub fn retain_evidence(&mut self, e: &ServiceEvidence) -> (r: bool)
        ensures
            *final(self) == retained(
                match e.first_fatal {
                    Some(s) => retained(retained(*old(self), e.entry), s),
                    None => retained(*old(self), e.entry),
                },
                e.last,
            ),
            r == (e.fault is Some || e.rejected is Some),
    {
        self.retain(e.entry);
        if let Some(s) = e.first_fatal {
            self.retain(s);
        }
        self.retain(e.last);
        e.fault.is_some() || e.rejected.is_some()
    }
}

/// What the owned interrupt does on entry: over the entry limit, or with no
/// active request, the budget fails; otherwise the adapter serves it.
pub open spec fn entry_over_budget(entries: u32, state: State) -> bool {
    entries > IRQ_ENTRY_LIMIT || state != State::Active
}

pub fn irq_entry(entries_before: u32, state: State) -> (r: (u32, bool))
    ensures
        r.0 == (if entries_before == u32::MAX { u32::MAX } else { (entries_before + 1) as u32 }),
        r.1 == entry_over_budget(r.0, state),
{
    let entries = entries_before.saturating_add(1);
    (entries, entries > IRQ_ENTRY_LIMIT || state != State::Active)
}

/// The no-progress count after a serviced entry, and whether the budget
/// fails: four entries in a row without a new count or STOP end an active
/// request.
pub fn progress(no_progress: u32, progressed: bool, state: State) -> (r: (u32, bool))
    ensures
        r.0 == (if progressed {
            0
        } else if no_progress == u32::MAX {
            u32::MAX
        } else {
            (no_progress + 1) as u32
        }),
        r.1 == (r.0 >= 4 && state == State::Active),
{
    let count = if progressed { 0 } else { no_progress.saturating_add(1) };
    (count, count >= 4 && state == State::Active)
}

/// What the task does next while it waits.
#[derive(Clone, Copy, Debug, Eq, PartialEq, Structural)]
pub enum WaitStep {
    /// Stop with this error.
    Stop(Error),
    /// The request completed.
    Complete,
    /// Cancel the request of this generation.
    Cancel,
    /// The deadline passed: check for fatal causes, else time out.
    Expired,
    /// Unmask the interrupt and block for at most this many ticks.
    Block(u32),
}

/// The next step: the engine's failure first (an adapter failure caused by
/// the budget is reported as the budget), then the budget, completion,
/// cancellation and the deadline.
pub open spec fn next_step(
    primary: Option<RxError>,
    budget_failed: bool,
    state: State,
    cancel: u32,
    generation: u32,
    remaining: Option<u32>,
) -> WaitStep {
    if primary is Some {
        if primary == Some(RxError::Adapter) && budget_failed {
            WaitStep::Stop(Error::IrqBudget)
        } else {
            WaitStep::Stop(Error::Receive(primary->0))
        }
    } else if budget_failed {
        WaitStep::Stop(Error::IrqBudget)
    } else if state == State::Complete {
        WaitStep::Complete
    } else if cancel == generation {
        WaitStep::Cancel
    } else if remaining is None {
        WaitStep::Expired
    } else {
        WaitStep::Block(remaining->0)
    }
}

pub fn wait_step(
    primary: Option<RxError>,
    budget_failed: bool,
    state: State,
    cancel: u32,
    generation: u32,
    remaining: Option<u32>,
) -> (r: WaitStep)
    ensures
        r == next_step(primary, budget_failed, state, cancel, generation, remaining),
{
    if let Some(error) = primary {
        if error == RxError::Adapter && budget_failed {
            return WaitStep::Stop(Error::IrqBudget);
        }
        return WaitStep::Stop(Error::Receive(error));
    }
    if budget_failed {
        return WaitStep::Stop(Error::IrqBudget);
    }
    if state == State::Complete {
        return WaitStep::Complete;
    }
    if cancel == generation {
        return WaitStep::Cancel;
    }
    match remaining {
        None => WaitStep::Expired,
        Some(left) => WaitStep::Block(left),
    }
}

/// The result once the request is withdrawn and cleaned up: an accepted
/// cancel of this generation turns a success into a cancellation, and fatal
/// evidence retained at any point, cleanup included, turns a success or a
/// cancellation into that fatal failure.
pub open spec fn receive_result(
    result: Result<(), Error>,
    cancel: u32,
    generation: u32,
    receipt: Receipt,
) -> Result<(), Error> {
    let after_cancel = if result is Ok && cancel == generation {
        Err(Error::Cancelled)
    } else {
        result
    };
    if (after_cancel is Ok || after_cancel == Err::<(), Error>(Error::Cancelled)) && (
    receipt.first_fatal_causes != 0 || receipt.first_abort_source != 0) {
        Err(
            Error::Receive(
                RxError::Fatal {
                    causes: receipt.first_fatal_causes,
                    abort_source: receipt.first_abort_source,
                },
            ),
        )
    } else {
        after_cancel
    }
}

impl Driver {
    pub fn new() -> (r: Self)
        ensures
            r.last is None,
    {
        Driver { last: None }
    }

    pub fn last_receipt(&self) -> (r: Option<Receipt>)
        ensures
            r == self.last,
    {
        self.last
    }

    /// Starts a receive: forgets the last receipt and checks the arguments.
    pub fn begin(&mut self, address: u8, rx_len: usize, timeout_ticks: u32) -> (r: Result<(), Error>)
        ensures
            final(self).last is None,
            r == (if receive_arguments_ok(address, rx_len, timeout_ticks) {
                Ok::<(), Error>(())
            } else {
                Err(Error::InvalidArgument)
            }),
    {
        self.last = None;
        if address > 0x7f || rx_len == 0 || rx_len > MAX_LEN || timeout_ticks == 0 || timeout_ticks
            >= 0x8000_0000 {
            return Err(Error::InvalidArgument);
        }
        Ok(())
    }

    /// Ends a receive on the cleaned-up engine: copies the bytes it drained
    /// to the front of `rx`, records the receipt with their count and
    /// returns the final result. A success comes only from a complete
    /// engine armed for `rx`, so it reports every byte of `rx` received.
    pub fn conclude(
        &mut self,
        result: Result<(), Error>,
        cancel: u32,
        generation: u32,
        engine: &RxState,
        rx: &mut [u8],
        receipt: Receipt,
    ) -> (r: Result<Receipt, Error>)
        requires
            engine.wf(),
            engine.requested as int == old(rx)@.len(),
            result is Ok ==> engine.state == State::Complete,
        ensures
            ({
                let rc = Receipt { received: engine.drained as u32, ..receipt };
                &&& final(rx)@ == engine.bytes@.subrange(0, engine.drained as int) + old(rx)@.skip(
                    engine.drained as int,
                )
                &&& final(self).last == Some(rc)
                &&& r == (match receive_result(result, cancel, generation, rc) {
                    Ok(()) => Ok::<Receipt, Error>(rc),
                    Err(e) => Err(e),
                })
            }),
            r matches Ok(x) ==> x.received == old(rx)@.len() && x.first_fatal_causes == 0
                && x.first_abort_source == 0,
    {
        let bytes = engine.bytes();
        let n = bytes.len();
        let mut i: usize = 0;
        while i < n
            invariant
                i <= n,
                n == engine.drained,
                bytes@.len() == n,
                engine.wf(),
                rx@.len() == old(rx)@.len(),
                engine.requested as int == old(rx)@.len(),
                bytes@ == engine.bytes@.subrange(0, engine.drained as int),
                forall|k: int| 0 <= k < i ==> rx@[k] == bytes@[k],
                forall|k: int| i <= k < rx@.len() ==> rx@[k] == old(rx)@[k],
            decreases n - i,
        {
            rx[i] = bytes[i];
            i += 1;
        }
        assert(rx@ =~= engine.bytes@.subrange(0, engine.drained as int) + old(rx)@.skip(
            engine.drained as int,
        ));
        let mut receipt = receipt;
        receipt.received = n as u32;
        self.last = Some(receipt);
        let mut outcome = result;
        if outcome.is_ok() && cancel == generation {
            outcome = Err(Error::Cancelled);
        }
        let fatal = receipt.first_fatal_causes != 0 || receipt.first_abort_source != 0;
        let overridable = match outcome {
            Ok(()) => true,
            Err(Error::Cancelled) => true,
            Err(_) => false,
        };
        if overridable && fatal {
            return Err(
                Error::Receive(
                    RxError::Fatal {
                        causes: receipt.first_fatal_causes,
                        abort_source: receipt.first_abort_source,
                    },
                ),
            );
        }
        match outcome {
            Ok(()) => Ok(receipt),
            Err(e) => Err(e),
        }
    }
}

/// How long the disabled controller must stay quiet before cleanup ends.
pub const CLEANUP_QUIET_US: u32 = 4000;
/// Cleanup that has not ended by this time has failed.
pub const CLEANUP_LIMIT_US: u32 = 20_000;
/// Quiet samples this far apart have failed.
pub const CLEANUP_GAP_US: u32 = 10_000;

/// One quiet sample of cleanup, taken at `now` on the wrapping raw timer:
/// the largest gap between samples so far, and, once the quiet interval
/// since `start` is complete, whether cleanup stayed in time (under the
/// limit, with every gap under the gap limit); `None` while it is not.
pub fn quiet_sample(start: u32, previous: u32, now: u32, max_gap: u32) -> (r: (u32, Option<bool>))
    ensures
        r.0 == (if now.wrapping_sub(previous) > max_gap {
            now.wrapping_sub(previous)
        } else {
            max_gap
        }),
        r.1 == (if now.wrapping_sub(start) >= CLEANUP_QUIET_US {
            Some(now.wrapping_sub(start) < CLEANUP_LIMIT_US && r.0 < CLEANUP_GAP_US)
        } else {
            None
        }),
{
    let gap = now.wrapping_sub(previous);
    let widest = if gap > max_gap {
        gap
    } else {
        max_gap
    };
    let elapsed = now.wrapping_sub(start);
    if elapsed >= CLEANUP_QUIET_US {
        (widest, Some(elapsed < CLEANUP_LIMIT_US && widest < CLEANUP_GAP_US))
    } else {
        (widest, None)
    }
}

/// A receive succeeds exactly when the engine completed, no cancel of its
/// generation was accepted, and no fatal evidence was retained.
pub proof fn lemma_receive_success_conditions(
    result: Result<(), Error>,
    cancel: u32,
    generation: u32,
    receipt: Receipt,
)
    ensures
        receive_result(result, cancel, generation, receipt) is Ok <==> (result is Ok && cancel
            != generation && receipt.first_fatal_causes == 0 && receipt.first_abort_source == 0),
{
}

/// Fatal evidence is never lost to a success: a receive that retained
/// fatal causes or an abort source does not succeed.
pub proof fn lemma_fatal_evidence_is_never_success(
    result: Result<(), Error>,
    cancel: u32,
    generation: u32,
    receipt: Receipt,
)
    requires
        receipt.first_fatal_causes != 0 || receipt.first_abort_source != 0,
    ensures
        receive_result(result, cancel, generation, receipt) is Err,
{
}

/// Once fatal evidence is retained, later snapshots never replace it.
pub proof fn lemma_first_fatal_is_kept(r: Receipt, s: I2c1Read1Snapshot)
    requires
        r.first_fatal_causes != 0 || r.first_abort_source != 0,
    ensures
        retained(r, s) == r,
{
}

} // verus!
