//! Bounded full-duplex receive service for the DesignWare SSI: one FIFO's
//! worth of bytes per transfer, drained from the interrupt handler.

use vstd::prelude::*;
use super::{
    disable, poll_bits, reg, stop, Spi0Error, Spi0Host, BAUDR, BAUD_DIV_100KHZ_AT_200MHZ,
    CONTROL_POLL_LIMIT, CTRLR0, DMACR, DR, FIFO_DEPTH_LIMIT, IMR, ISR, RISR, RXFLR, RXFTLR, SER,
    SER_CS0, SR, SR_BUSY, SR_TX_EMPTY, SR_TX_NOT_FULL, SSIENR, SSI_ENABLE, TRANSFER_POLL_LIMIT,
    TXFLR, TXFTLR,
};
use crate::bus::{
    got, lemma_polls_keep_prefix, lemma_reads_push, mask_is, polls, rd, reads, wr, Access, Bus, Mmio,
};
use super::{at, attempt_done, attempt_trace, attempts_trace, bytes_sent, ssi_disabled, stop_writes, transfer_polled};

verus! {

pub const CTRLR0_DFS_8BIT_TX_RX_MODE0: u32 = 7 << 16;
pub const IRQ_TXOI: u32 = 1 << 1;
pub const IRQ_RXUI: u32 = 1 << 2;
pub const IRQ_RXOI: u32 = 1 << 3;
pub const IRQ_RXFI: u32 = 1 << 4;
pub const IRQ_ERRORS: u32 = IRQ_TXOI | IRQ_RXUI | IRQ_RXOI;
pub const IRQ_RX_MASK: u32 = IRQ_ERRORS | IRQ_RXFI;
pub const ICR: usize = 0x48;

#[derive(Clone, Copy, Debug, Eq, PartialEq, Structural)]
pub enum Spi0RxError {
    Setup(Spi0Error),
    LengthMismatch { tx: usize, rx: usize },
    NotPrepared,
    Incomplete { received: usize, expected: usize },
    InterruptFault(u32),
    UnexpectedSource(u32),
    InvalidFifoLevel { level: u32, remaining: usize },
    TransferTimeout,
    Cancelled,
    CleanupReadback,
}

#[derive(Clone, Copy, Debug, Eq, PartialEq, Structural)]
pub enum Spi0RxState {
    Prepared,
    Active,
    /// Every byte arrived; the final serial edge is not yet proven.
    RxComplete,
    /// The foreground finish saw the transmitter idle and the cleanup verified.
    Complete,
    Failed(Spi0RxError),
}

/// The receive buffer of one transfer.
pub struct RxBuffer {
    pub data: Vec<u8>,
    pub received: usize,
    pub fifo_depth: u16,
    pub state: Spi0RxState,
}

/// What the interrupt service does with one (masked status, RX level) pair.
#[derive(Clone, Copy, Debug, Eq, PartialEq, Structural)]
pub enum ServiceAction {
    /// Not active, or no source: nothing is read.
    Ignore,
    /// The transfer fails with this error; nothing is read.
    Fail(Spi0RxError),
    /// Exactly `level` words are popped and stored.
    Drain,
}

/// Setup checks, in order: FIFO depth, empty payload, RX/TX length
/// agreement, payload that does not fit one FIFO.
pub open spec fn new_verdict(rx_len: nat, tx_len: usize, fifo_depth: u16) -> Option<Spi0RxError> {
    if fifo_depth == 0 || fifo_depth > FIFO_DEPTH_LIMIT {
        Some(Spi0RxError::Setup(Spi0Error::FifoDepthUnknown))
    } else if tx_len == 0 {
        Some(Spi0RxError::Setup(Spi0Error::EmptyPayload))
    } else if tx_len != rx_len {
        Some(Spi0RxError::LengthMismatch { tx: tx_len, rx: rx_len as usize })
    } else if tx_len > fifo_depth {
        Some(Spi0RxError::Setup(Spi0Error::PayloadTooLong { len: tx_len, fifo_depth }))
    } else {
        None
    }
}

/// Faults win over data, unexpected sources fail closed, and a level of
/// zero, above the depth or above the bytes still owed fails without a read.
pub open spec fn service_action(
    state: Spi0RxState,
    masked_status: u32,
    level: u32,
    remaining: usize,
    fifo_depth: u16,
) -> ServiceAction {
    if state != Spi0RxState::Active || masked_status == 0 {
        ServiceAction::Ignore
    } else if masked_status & IRQ_ERRORS != 0 {
        ServiceAction::Fail(Spi0RxError::InterruptFault(masked_status & IRQ_ERRORS))
    } else if masked_status & !IRQ_RX_MASK != 0 {
        ServiceAction::Fail(Spi0RxError::UnexpectedSource(masked_status))
    } else if level == 0 || level > fifo_depth || level > remaining {
        ServiceAction::Fail(Spi0RxError::InvalidFifoLevel { level, remaining })
    } else {
        ServiceAction::Drain
    }
}

pub open spec fn finish_error_of(state: Spi0RxState, received: usize, expected: usize) -> Option<
    Spi0RxError,
> {
    match state {
        Spi0RxState::RxComplete | Spi0RxState::Complete => None,
        Spi0RxState::Failed(e) => Some(e),
        _ => Some(Spi0RxError::Incomplete { received, expected }),
    }
}

/// One service of `before` on the masked status and RX level read by the
/// handler, giving `after`, with `v` the words popped from the data
/// register: none unless the action is a drain, which pops exactly `level`
/// words and stores the low byte of each after the bytes already received,
/// completing the receive when the buffer is full.
pub open spec fn serviced(
    before: RxBuffer,
    masked_status: u32,
    level: u32,
    v: Seq<u32>,
    after: RxBuffer,
) -> bool {
    match service_action(
        before.state,
        masked_status,
        level,
        (before.data@.len() - before.received) as usize,
        before.fifo_depth,
    ) {
        ServiceAction::Ignore => after == before && v.len() == 0,
        ServiceAction::Fail(e) => after == (RxBuffer { state: Spi0RxState::Failed(e), ..before })
            && v.len() == 0,
        ServiceAction::Drain => {
            &&& v.len() == level
            &&& after.fifo_depth == before.fifo_depth
            &&& after.data@.len() == before.data@.len()
            &&& after.received == before.received + level
            &&& after.data@.subrange(0, before.received as int) == before.data@.subrange(
                0,
                before.received as int,
            )
            &&& forall|k: int|
                0 <= k < level ==> after.data@[before.received + k] == (#[trigger] v[k] & 0xff) as u8
            &&& after.state == (if after.received == before.data@.len() {
                Spi0RxState::RxComplete
            } else {
                Spi0RxState::Active
            })
        },
    }
}

/// What the interrupt handler writes once the transfer is in `state`: while
/// it is active nothing; else the interrupt masked and, on failure, the SSI
/// stopped.
pub open spec fn interrupt_tail(state: Spi0RxState) -> Seq<Access> {
    if state == Spi0RxState::Active {
        Seq::empty()
    } else if state is Failed {
        seq![wr(at(IMR), 0)] + stop_writes()
    } else {
        seq![wr(at(IMR), 0)]
    }
}

impl RxBuffer {
    /// At least one and at most one FIFO of bytes, of which `received` have
    /// arrived.
    pub open spec fn wf(&self) -> bool {
        &&& 1 <= self.fifo_depth <= FIFO_DEPTH_LIMIT
        &&& 1 <= self.data@.len() <= self.fifo_depth
        &&& self.received <= self.data@.len()
    }

    /// A prepared buffer for a transfer of `tx_len` bytes into `data`.
    pub fn new(data: Vec<u8>, tx_len: usize, fifo_depth: u16) -> (r: Result<Self, Spi0RxError>)
        ensures
            match new_verdict(data@.len(), tx_len, fifo_depth) {
                Some(e) => r == Err::<Self, Spi0RxError>(e),
                None => r matches Ok(b) && b.wf() && b.data@ == data@ && b.received == 0
                    && b.fifo_depth == fifo_depth && b.state == Spi0RxState::Prepared,
            },
    {
        if fifo_depth == 0 || fifo_depth > FIFO_DEPTH_LIMIT {
            return Err(Spi0RxError::Setup(Spi0Error::FifoDepthUnknown));
        }
        if tx_len == 0 {
            return Err(Spi0RxError::Setup(Spi0Error::EmptyPayload));
        }
        if tx_len != data.len() {
            return Err(Spi0RxError::LengthMismatch { tx: tx_len, rx: data.len() });
        }
        if tx_len > fifo_depth as usize {
            return Err(Spi0RxError::Setup(Spi0Error::PayloadTooLong { len: tx_len, fifo_depth }));
        }
        Ok(RxBuffer { data, received: 0, fifo_depth, state: Spi0RxState::Prepared })
    }

    /// Moves a prepared transfer to active; any other state is refused.
    pub fn start(&mut self) -> (r: Result<(), Spi0RxError>)
        ensures
            old(self).state == Spi0RxState::Prepared ==> r is Ok && *final(self) == (RxBuffer {
                state: Spi0RxState::Active,
                ..*old(self)
            }),
            old(self).state != Spi0RxState::Prepared ==> r == Err::<(), Spi0RxError>(
                Spi0RxError::NotPrepared,
            ) && *final(self) == *old(self),
    {
        if self.state != Spi0RxState::Prepared {
            return Err(Spi0RxError::NotPrepared);
        }
        self.state = Spi0RxState::Active;
        Ok(())
    }

    /// Ends the transfer with `error`, keeping the received prefix.
    pub fn fail(&mut self, error: Spi0RxError)
        ensures
            *final(self) == (RxBuffer { state: Spi0RxState::Failed(error), ..*old(self) }),
    {
        self.state = Spi0RxState::Failed(error);
    }

    /// Services one interrupt with the masked status and RX FIFO level read
    /// by the handler. Only a drain reads the data register, `level` times,
    /// storing the low byte of each word after the bytes already received.
    pub fn service<B: Mmio>(&mut self, masked_status: u32, level: u32, bus: &mut Bus<B>)
        requires
            old(self).wf(),
        ensures
            final(self).wf(),
            final(self).fifo_depth == old(self).fifo_depth,
            final(self).data@.len() == old(self).data@.len(),
            exists|v: Seq<u32>|
                final(bus).trace@ == old(bus).trace@ + reads(at(DR), v) && #[trigger] serviced(
                    *old(self),
                    masked_status,
                    level,
                    v,
                    *final(self),
                ),
    {
        proof {
            assert(bus.trace@ + reads(at(DR), Seq::empty()) =~= bus.trace@);
        }
        if self.state != Spi0RxState::Active || masked_status == 0 {
            assert(serviced(*old(self), masked_status, level, Seq::empty(), *self));
            return;
        }
        if masked_status & IRQ_ERRORS != 0 {
            self.fail(Spi0RxError::InterruptFault(masked_status & IRQ_ERRORS));
            assert(serviced(*old(self), masked_status, level, Seq::empty(), *self));
            return;
        }
        if masked_status & !IRQ_RX_MASK != 0 {
            self.fail(Spi0RxError::UnexpectedSource(masked_status));
            assert(serviced(*old(self), masked_status, level, Seq::empty(), *self));
            return;
        }
        let remaining = self.data.len() - self.received;
        if level == 0 || level > self.fifo_depth as u32 || level as usize > remaining {
            self.fail(Spi0RxError::InvalidFifoLevel { level, remaining });
            assert(serviced(*old(self), masked_status, level, Seq::empty(), *self));
            return;
        }
        let ghost start = self.received;
        let ghost before = self.data@;
        let ghost t0 = bus.trace@;
        let ghost mut v: Seq<u32> = Seq::empty();
        assert(t0 + reads(at(DR), v) =~= t0);
        let mut n: u32 = 0;
        while n < level
            invariant
                n <= level,
                v.len() == n,
                bus.trace@ == t0 + reads(at(DR), v),
                forall|k: int| 0 <= k < n ==> self.data@[start + k] == (#[trigger] v[k] & 0xff) as u8,
                level as usize <= remaining,
                remaining == before.len() - start,
                self.received == start + n,
                self.data@.len() == before.len(),
                self.data@.subrange(0, start as int) == before.subrange(0, start as int),
                self.state == Spi0RxState::Active,
                self.fifo_depth == old(self).fifo_depth,
                self.wf(),
            decreases level - n,
        {
            let word = bus.read32(reg(DR));
            let index = self.received;
            self.data.set(index, (word & 0xff) as u8);
            self.received = index + 1;
            proof {
                lemma_reads_push(at(DR), v, word);
                let v0 = v;
                v = v.push(word);
                assert forall|k: int| 0 <= k < n + 1 implies self.data@[start + k] == (#[trigger] v[k]
                    & 0xff) as u8 by {
                    if k < n {
                        assert(v[k] == v0[k]);
                    }
                }
            }
            n += 1;
            assert(self.data@.subrange(0, start as int) =~= before.subrange(0, start as int));
        }
        if self.received == self.data.len() {
            self.state = Spi0RxState::RxComplete;
        }
        assert(serviced(*old(self), masked_status, level, v, *self));
    }

    /// Why the transfer cannot be finished, if it cannot.
    pub fn finish_error(&self) -> (r: Option<Spi0RxError>)
        ensures
            r == finish_error_of(self.state, self.received, self.data@.len() as usize),
    {
        match self.state {
            Spi0RxState::RxComplete | Spi0RxState::Complete => None,
            Spi0RxState::Failed(error) => Some(error),
            _ => Some(Spi0RxError::Incomplete { received: self.received, expected: self.data.len() }),
        }
    }

    /// The bytes received so far.
    pub fn received(&self) -> (r: &[u8])
        requires
            self.wf(),
        ensures
            r@ == self.data@.subrange(0, self.received as int),
    {
        vstd::slice::slice_subrange(self.data.as_slice(), 0, self.received)
    }
}

/// Owns the receive buffer of one interrupt-driven transfer until finish or
/// abort. The application arranges exclusive interrupt access, keeps the
/// local route masked through prepare and start, and imposes the deadline
/// on which it calls abort.
pub struct Spi0IrqTransfer {
    pub rx: RxBuffer,
}

/// The registers that the idle check reads after the disable: ICR (which
/// clears latched faults), then IMR, SER, ISR, RISR, TXFLR and RXFLR.
pub open spec fn idle_reg(i: int) -> usize {
    if i == 0 {
        at(ICR)
    } else if i == 1 {
        at(IMR)
    } else if i == 2 {
        at(SER)
    } else if i == 3 {
        at(ISR)
    } else if i == 4 {
        at(RISR)
    } else if i == 5 {
        at(TXFLR)
    } else {
        at(RXFLR)
    }
}

/// The check of read `i` (1..7) of the idle check.
pub open spec fn idle_check(i: int, v: u32) -> bool {
    if i == 4 {
        v & IRQ_ERRORS == 0
    } else {
        v == 0
    }
}

/// The idle check from `before` to `after`: the ICR read, then the other
/// registers in order up to and including the first that fails its
/// check; `idle` when all pass.
pub open spec fn idle_checked(before: Seq<Access>, after: Seq<Access>, idle: bool) -> bool {
    let n = after.len() - before.len();
    &&& 2 <= n <= 7
    &&& after == before + Seq::new(n as nat, |i: int| rd(idle_reg(i), got(before, after, i)))
    &&& forall|i: int| 1 <= i < n - 1 ==> #[trigger] idle_check(i, got(before, after, i))
    &&& idle == (n == 7 && idle_check(6, got(before, after, 6)))
    &&& n < 7 ==> !idle_check(n - 1, got(before, after, n - 1))
}

/// The accesses of a quiesce from `before` to `after` and its result `r`:
/// IMR masked, the stop writes, then the disable; a disable that timed out
/// is the error, else the idle check decides between success and a cleanup
/// readback error.
pub open spec fn quiesced(before: Seq<Access>, after: Seq<Access>, r: Result<(), Spi0RxError>) -> bool {
    let first = before.push(wr(at(IMR), 0)) + stop_writes();
    ||| ssi_disabled(first, after, false) && r == Err::<(), Spi0RxError>(
        Spi0RxError::Setup(Spi0Error::DisableTimeout),
    )
    ||| exists|disabled: Seq<Access>|
        ssi_disabled(first, disabled, true) && #[trigger] idle_checked(disabled, after, r is Ok)
            && r != Err::<(), Spi0RxError>(Spi0RxError::Setup(Spi0Error::DisableTimeout))
}

/// Whether a preparation succeeded, or its error.
pub open spec fn outcome_of(r: Result<Spi0IrqTransfer, Spi0RxError>) -> Result<(), Spi0RxError> {
    match r {
        Ok(_) => Ok(()),
        Err(e) => Err(e),
    }
}

/// The setup writes of a receive transfer after the quiesce `q`.
pub open spec fn rx_setup(q: Seq<Access>) -> Seq<Access> {
    q + seq![
        wr(at(CTRLR0), CTRLR0_DFS_8BIT_TX_RX_MODE0),
        wr(at(BAUDR), BAUD_DIV_100KHZ_AT_200MHZ),
        wr(at(TXFTLR), 0),
        wr(at(RXFTLR), 0),
        wr(at(DMACR), 0),
        wr(at(SSIENR), SSI_ENABLE),
    ]
}

/// The accesses `t` after `t0` of the preparation of a receive transfer
/// of `tx` past the refusals, and its result `r`, cut at the marks: `q`
/// after the quiesce (result `quiet`), `e` after the enable poll
/// (succeeded when `enabled`), the byte marks `b` of the TX preload, `f`
/// after a TX FIFO poll that ran out. Each setup timeout comes exactly from
/// the poll that ran out; once preloaded, a latched fault in RISR is the
/// error, else the transfer is prepared.
pub open spec fn prepare_trace(
    tx: Seq<u8>,
    t0: Seq<Access>,
    t: Seq<Access>,
    q: Seq<Access>,
    quiet: Result<(), Spi0RxError>,
    e: Seq<Access>,
    enabled: bool,
    b: Seq<Seq<Access>>,
    f: Seq<Access>,
    r: Result<(), Spi0RxError>,
) -> bool {
    &&& quiesced(t0, q, quiet)
    &&& if quiet is Err {
        t == q && r == quiet
    } else {
        &&& polls(rx_setup(q), e, at(SSIENR), mask_is(SSI_ENABLE, true), CONTROL_POLL_LIMIT as nat, enabled)
        &&& if !enabled {
            t == e && r == Err::<(), Spi0RxError>(Spi0RxError::Setup(Spi0Error::EnableTimeout))
        } else {
            &&& b[0] == e && bytes_sent(tx, b)
            &&& if b.len() - 1 < tx.len() {
                &&& polls(b.last(), f, at(SR), mask_is(SR_TX_NOT_FULL, true), CONTROL_POLL_LIMIT as nat, false)
                &&& t == f && r == Err::<(), Spi0RxError>(Spi0RxError::Setup(Spi0Error::TxFifoTimeout))
            } else {
                let risr = t[b.last().len() as int].value;
                &&& t == b.last().push(rd(at(RISR), risr))
                &&& r == (if risr & IRQ_ERRORS != 0 {
                    Err::<(), Spi0RxError>(Spi0RxError::InterruptFault(risr & IRQ_ERRORS))
                } else {
                    Ok(())
                })
            }
        }
    }
}

/// The accesses `t` after `t0` of a foreground finish of a transfer that
/// is not yet complete, and its result `r`. With no error owed by the
/// buffer (`err0` none), the drain attempts `att` (drained when `done`),
/// then on a drain RISR and RXFLR read as `faults` and `level`; then the
/// quiesce, with result `quiet`. A cleanup error wins, then the buffer's
/// error, a drain timeout, a latched fault, and leftover RX bytes.
pub open spec fn finish_trace(
    err0: Option<Spi0RxError>,
    t0: Seq<Access>,
    t: Seq<Access>,
    att: Seq<(u32, u32)>,
    done: bool,
    faults: u32,
    level: u32,
    quiet: Result<(), Spi0RxError>,
    r: Result<(), Spi0RxError>,
) -> bool {
    let checked = if err0 is Some {
        t0
    } else if !done {
        t0 + attempts_trace(att)
    } else {
        t0 + attempts_trace(att) + seq![rd(at(RISR), faults), rd(at(RXFLR), level)]
    };
    let err1 = if err0 is Some {
        err0
    } else if !done {
        Some(Spi0RxError::TransferTimeout)
    } else if faults & IRQ_ERRORS != 0 {
        Some(Spi0RxError::InterruptFault(faults & IRQ_ERRORS))
    } else if level != 0 {
        Some(Spi0RxError::InvalidFifoLevel { level, remaining: 0 })
    } else {
        None
    };
    &&& err0 is None ==> transfer_polled(att, done)
    &&& quiesced(checked, t, quiet)
    &&& r == (match quiet {
        Err(c) => Err::<(), Spi0RxError>(c),
        Ok(()) => match err1 {
            Some(e) => Err(e),
            None => Ok(()),
        },
    })
}

/// Masks, stops and disables the SSI, clears latched faults and checks that
/// everything reads back idle: IMR masked, the stop writes, the disable
/// (its timeout is the error), then the idle check (a failing register is
/// a cleanup readback error).
pub fn quiesce<B: Mmio>(bus: &mut Bus<B>) -> (r: Result<(), Spi0RxError>)
    ensures
        r is Ok || r == Err::<(), Spi0RxError>(Spi0RxError::Setup(Spi0Error::DisableTimeout))
            || r == Err::<(), Spi0RxError>(Spi0RxError::CleanupReadback),
        quiesced(old(bus).trace@, final(bus).trace@, r),
{
    let ghost t0 = bus.trace@;
    bus.write32(reg(IMR), 0);
    stop(bus);
    let ghost first = bus.trace@;
    assert(first =~= t0.push(wr(at(IMR), 0)) + stop_writes());
    match disable(bus) {
        Ok(()) => {},
        Err(e) => {
            return Err(Spi0RxError::Setup(e));
        },
    }
    let ghost d = bus.trace@;
    let _ = bus.read32(reg(ICR));
    let mut idle = true;
    let imr = bus.read32(reg(IMR));
    if imr != 0 {
        idle = false;
    } else {
        let ser = bus.read32(reg(SER));
        if ser != 0 {
            idle = false;
        } else {
            let isr = bus.read32(reg(ISR));
            if isr != 0 {
                idle = false;
            } else {
                let risr = bus.read32(reg(RISR));
                if risr & IRQ_ERRORS != 0 {
                    idle = false;
                } else {
                    let txflr = bus.read32(reg(TXFLR));
                    if txflr != 0 {
                        idle = false;
                    } else {
                        let rxflr = bus.read32(reg(RXFLR));
                        idle = rxflr == 0;
                    }
                }
            }
        }
    }
    proof {
        let t = bus.trace@;
        let n = t.len() - d.len();
        assert(t =~= d + Seq::new(n as nat, |i: int| rd(idle_reg(i), got(d, t, i))));
        assert(idle_checked(d, t, idle));
    }
    assert(ssi_disabled(first, d, true));
    let r = if idle {
        Ok(())
    } else {
        Err(Spi0RxError::CleanupReadback)
    };
    assert(idle_checked(d, bus.trace@, r is Ok));
    r
}

impl Spi0Host {
    /// Preloads TX with CS inactive for a full-duplex transfer of `tx` into
    /// `rx`; setup is refused before any register access when the lengths
    /// disagree or do not fit one FIFO.
    #[verifier::rlimit(50)]
    pub fn prepare_irq_transfer<B: Mmio>(&mut self, bus: &mut Bus<B>, tx: &[u8], rx: Vec<u8>) -> (r:
        Result<Spi0IrqTransfer, Spi0RxError>)
        ensures
            match new_verdict(rx@.len(), tx@.len() as usize, old(self).fifo_depth) {
                Some(e) => r == Err::<Spi0IrqTransfer, Spi0RxError>(e) && final(bus).trace@ == old(bus).trace@,
                None => {
                    &&& r matches Ok(t) ==> t.rx.wf() && t.rx.data@ == rx@ && t.rx.received == 0
                        && t.rx.state == Spi0RxState::Prepared
                    &&& exists|
                        q: Seq<Access>,
                        quiet: Result<(), Spi0RxError>,
                        e: Seq<Access>,
                        enabled: bool,
                        b: Seq<Seq<Access>>,
                        f: Seq<Access>,
                    |
                        #[trigger] prepare_trace(
                            tx@,
                            old(bus).trace@,
                            final(bus).trace@,
                            q,
                            quiet,
                            e,
                            enabled,
                            b,
                            f,
                            outcome_of(r),
                        )
                },
            },
    {
        let ghost t0 = bus.trace@;
        let buffer = match RxBuffer::new(rx, tx.len(), self.fifo_depth) {
            Ok(b) => b,
            Err(e) => {
                return Err(e);
            },
        };
        let transfer = Spi0IrqTransfer { rx: buffer };
        let quiet = quiesce(bus);
        let ghost q = bus.trace@;
        match quiet {
            Ok(()) => {},
            Err(e) => {
                assert(prepare_trace(tx@, t0, bus.trace@, q, quiet, q, false, seq![q], q, Err(e)));
                return Err(e);
            },
        }
        bus.write32(reg(CTRLR0), CTRLR0_DFS_8BIT_TX_RX_MODE0);
        bus.write32(reg(BAUDR), BAUD_DIV_100KHZ_AT_200MHZ);
        bus.write32(reg(TXFTLR), 0);
        bus.write32(reg(RXFTLR), 0);
        bus.write32(reg(DMACR), 0);
        bus.write32(reg(SSIENR), SSI_ENABLE);
        assert(bus.trace@ =~= rx_setup(q));
        let enabled = poll_bits(bus, SSIENR, SSI_ENABLE, true, CONTROL_POLL_LIMIT);
        let ghost e = bus.trace@;
        if !enabled {
            assert(prepare_trace(tx@, t0, bus.trace@, q, quiet, e, false, seq![e], e, Err(Spi0RxError::Setup(Spi0Error::EnableTimeout))));
            return Err(Spi0RxError::Setup(Spi0Error::EnableTimeout));
        }
        let mut i: usize = 0;
        let mut full = false;
        let ghost mut b: Seq<Seq<Access>> = seq![e];
        while i < tx.len() && !full
            invariant
                i <= tx@.len(),
                full ==> i < tx@.len(),
                b.len() == i + 1,
                b[0] == e,
                bytes_sent(tx@, b),
                !full ==> b.last() == bus.trace@,
                full ==> polls(b.last(), bus.trace@, at(SR), mask_is(SR_TX_NOT_FULL, true), CONTROL_POLL_LIMIT as nat, false),
            decreases tx@.len() - i + (if full { 0int } else { 1int }),
        {
            let room = poll_bits(bus, SR, SR_TX_NOT_FULL, true, CONTROL_POLL_LIMIT);
            if !room {
                full = true;
            } else {
                let ghost polled = bus.trace@;
                let ghost b0 = b;
                bus.write32(reg(DR), tx[i] as u32);
                proof {
                    b = b.push(bus.trace@);
                    assert(bus.trace@.drop_last() =~= polled);
                    assert forall|k: int| 1 <= k < b.len() implies (#[trigger] b[k]).len() > 0 && polls(
                        b[k - 1],
                        b[k].drop_last(),
                        at(SR),
                        mask_is(SR_TX_NOT_FULL, true),
                        CONTROL_POLL_LIMIT as nat,
                        true,
                    ) && b[k].last() == wr(at(DR), tx@[k - 1] as u32) by {
                        if k < b0.len() {
                            assert(b[k] == b0[k]);
                            assert(b[k - 1] == b0[k - 1]);
                        } else {
                            assert(b[k - 1] == b0.last());
                        }
                    }
                }
                i += 1;
            }
        }
        if full {
            assert(prepare_trace(tx@, t0, bus.trace@, q, quiet, e, true, b, bus.trace@, Err(Spi0RxError::Setup(Spi0Error::TxFifoTimeout))));
            return Err(Spi0RxError::Setup(Spi0Error::TxFifoTimeout));
        }
        let ghost preloaded = bus.trace@;
        let risr = bus.read32(reg(RISR));
        let errors = risr & IRQ_ERRORS;
        assert(bus.trace@[preloaded.len() as int].value == risr);
        if errors != 0 {
            assert(prepare_trace(tx@, t0, bus.trace@, q, quiet, e, true, b, e, Err(Spi0RxError::InterruptFault(errors))));
            return Err(Spi0RxError::InterruptFault(errors));
        }
        assert(prepare_trace(tx@, t0, bus.trace@, q, quiet, e, true, b, e, Ok(())));
        Ok(transfer)
    }
}

impl Spi0IrqTransfer {
    pub fn state(&self) -> (r: Spi0RxState)
        ensures
            r == self.rx.state,
    {
        self.rx.state
    }

    pub fn received(&self) -> (r: &[u8])
        requires
            self.rx.wf(),
        ensures
            r@ == self.rx.data@.subrange(0, self.rx.received as int),
    {
        self.rx.received()
    }

    /// Starts a prepared transfer: unmasks the RX sources and selects CS0.
    pub fn start<B: Mmio>(&mut self, bus: &mut Bus<B>) -> (r: Result<(), Spi0RxError>)
        ensures
            old(self).rx.state == Spi0RxState::Prepared ==> r is Ok && final(self).rx == (
            RxBuffer { state: Spi0RxState::Active, ..old(self).rx }) && final(bus).trace@ == old(bus).trace@ + seq![wr(at(IMR), IRQ_RX_MASK), wr(at(SER), SER_CS0)],
            old(self).rx.state != Spi0RxState::Prepared ==> r == Err::<(), Spi0RxError>(
                Spi0RxError::NotPrepared,
            ) && final(self).rx == old(self).rx && final(bus).trace@ == old(bus).trace@,
    {
        let ghost t0 = bus.trace@;
        match self.rx.start() {
            Ok(()) => {},
            Err(e) => {
                return Err(e);
            },
        }
        bus.write32(reg(IMR), IRQ_RX_MASK);
        bus.write32(reg(SER), SER_CS0);
        assert(bus.trace@ =~= t0 + seq![wr(at(IMR), IRQ_RX_MASK), wr(at(SER), SER_CS0)]);
        Ok(())
    }

    /// The interrupt handler: services the sources of an active transfer,
    /// then masks the interrupt once the transfer left the active state and
    /// stops the SSI on failure.
    pub fn on_interrupt<B: Mmio>(&mut self, bus: &mut Bus<B>) -> (r: Spi0RxState)
        requires
            old(self).rx.wf(),
        ensures
            final(self).rx.wf(),
            r == final(self).rx.state,
            old(self).rx.state != Spi0RxState::Active ==> final(self).rx == old(self).rx && final(bus).trace@ == old(bus).trace@ + interrupt_tail(old(self).rx.state),
            old(self).rx.state == Spi0RxState::Active ==> exists|s: u32, l: u32, v: Seq<u32>|
                #[trigger] serviced(old(self).rx, s, l, v, final(self).rx) && final(bus).trace@
                    == old(bus).trace@ + seq![rd(at(ISR), s), rd(at(RXFLR), l)] + reads(at(DR), v)
                    + interrupt_tail(final(self).rx.state),
    {
        let ghost t0 = bus.trace@;
        let ghost mut mid = bus.trace@;
        if self.rx.state == Spi0RxState::Active {
            let source = bus.read32(reg(ISR));
            let level = bus.read32(reg(RXFLR));
            let ghost t1 = bus.trace@;
            self.rx.service(source, level, bus);
            proof {
                let v = choose|v: Seq<u32>|
                    bus.trace@ == t1 + reads(at(DR), v) && #[trigger] serviced(
                        old(self).rx,
                        source,
                        level,
                        v,
                        self.rx,
                    );
                assert(t1 =~= t0 + seq![rd(at(ISR), source), rd(at(RXFLR), level)]);
                mid = bus.trace@;
                assert(serviced(old(self).rx, source, level, v, self.rx));
                assert(mid == t0 + seq![rd(at(ISR), source), rd(at(RXFLR), level)] + reads(at(DR), v));
            }
        }
        if self.rx.state != Spi0RxState::Active {
            bus.write32(reg(IMR), 0);
            match self.rx.state {
                Spi0RxState::Failed(_) => stop(bus),
                _ => {},
            }
        }
        assert(bus.trace@ =~= mid + interrupt_tail(self.rx.state));
        self.rx.state
    }

    /// Foreground completion after every byte arrived: waits for the
    /// transmitter to go idle, checks for faults and leftovers, cleans up.
    pub fn finish<B: Mmio>(&mut self, bus: &mut Bus<B>) -> (r: Result<(), Spi0RxError>)
        requires
            old(self).rx.wf(),
        ensures
            final(self).rx.wf(),
            final(self).rx.data@ == old(self).rx.data@,
            final(self).rx.received == old(self).rx.received,
            old(self).rx.state == Spi0RxState::Complete ==> r is Ok && final(self).rx == old(self).rx
                && final(bus).trace@ == old(bus).trace@,
            r is Ok ==> final(self).rx.state == Spi0RxState::Complete && (old(self).rx.state
                == Spi0RxState::RxComplete || old(self).rx.state == Spi0RxState::Complete),
            r matches Err(e) ==> final(self).rx.state == Spi0RxState::Failed(e),
            old(self).rx.state != Spi0RxState::Complete ==> exists|
                att: Seq<(u32, u32)>,
                done: bool,
                faults: u32,
                level: u32,
                quiet: Result<(), Spi0RxError>,
            |
                #[trigger] finish_trace(
                    finish_error_of(
                        old(self).rx.state,
                        old(self).rx.received,
                        old(self).rx.data@.len() as usize,
                    ),
                    old(bus).trace@,
                    final(bus).trace@,
                    att,
                    done,
                    faults,
                    level,
                    quiet,
                    r,
                ),
    {
        if self.rx.state == Spi0RxState::Complete {
            return Ok(());
        }
        let ghost t0 = bus.trace@;
        let err0 = self.rx.finish_error();
        let mut error = err0;
        let mut done = false;
        let ghost mut att: Seq<(u32, u32)> = Seq::empty();
        let mut faults: u32 = 0;
        let mut level: u32 = 0;
        if error.is_none() {
            let mut i: u32 = 0;
            assert(t0 + attempts_trace(att) =~= t0);
            while i < TRANSFER_POLL_LIMIT && !done
                invariant
                    att.len() == i,
                    i <= TRANSFER_POLL_LIMIT,
                    bus.trace@ == t0 + attempts_trace(att),
                    done ==> att.len() > 0 && attempt_done(att.last()),
                    forall|j: int| 0 <= j < att.len() - (if done { 1int } else { 0int }) ==> !attempt_done(#[trigger] att[j]),
                decreases TRANSFER_POLL_LIMIT - i,
            {
                let ghost before = bus.trace@;
                let status = bus.read32(reg(SR));
                let mut tx_level: u32 = 0;
                if status & SR_BUSY == 0 && status & SR_TX_EMPTY != 0 {
                    tx_level = bus.read32(reg(TXFLR));
                    if tx_level == 0 {
                        done = true;
                    }
                }
                proof {
                    let a = (status, tx_level);
                    let att0 = att;
                    att = att.push(a);
                    assert(att.drop_last() =~= att0);
                    assert(bus.trace@ =~= before + attempt_trace(a));
                    assert(bus.trace@ =~= t0 + attempts_trace(att));
                    assert forall|j: int| 0 <= j < att.len() - (if done { 1int } else { 0int }) implies !attempt_done(#[trigger] att[j]) by {
                        if j < att0.len() {
                            assert(att[j] == att0[j]);
                        }
                    }
                }
                i += 1;
            }
            assert(transfer_polled(att, done));
            let ghost polled = bus.trace@;
            if !done {
                error = Some(Spi0RxError::TransferTimeout);
            } else {
                faults = bus.read32(reg(RISR));
                level = bus.read32(reg(RXFLR));
                assert(bus.trace@ =~= polled + seq![rd(at(RISR), faults), rd(at(RXFLR), level)]);
                if faults & IRQ_ERRORS != 0 {
                    error = Some(Spi0RxError::InterruptFault(faults & IRQ_ERRORS));
                } else if level != 0 {
                    error = Some(Spi0RxError::InvalidFifoLevel { level, remaining: 0 });
                }
            }
        }
        let ghost checked = bus.trace@;
        proof {
            let expect = if err0 is Some {
                t0
            } else if !done {
                t0 + attempts_trace(att)
            } else {
                t0 + attempts_trace(att) + seq![rd(at(RISR), faults), rd(at(RXFLR), level)]
            };
            assert(checked == expect);
        }
        let quiet = quiesce(bus);
        match quiet {
            Ok(()) => {},
            Err(cleanup) => {
                error = Some(cleanup);
            },
        }
        let r = match error {
            Some(e) => {
                self.rx.fail(e);
                Err(e)
            },
            None => {
                self.rx.state = Spi0RxState::Complete;
                Ok(())
            },
        };
        assert(finish_trace(err0, t0, bus.trace@, att, done, faults, level, quiet, r));
        r
    }

    /// Cancels on the caller's deadline, keeping the received prefix.
    pub fn abort<B: Mmio>(&mut self, bus: &mut Bus<B>) -> (r: Result<(), Spi0RxError>)
        ensures
            final(self).rx.data@ == old(self).rx.data@,
            final(self).rx.received == old(self).rx.received,
            r is Ok ==> final(self).rx.state == Spi0RxState::Failed(Spi0RxError::Cancelled),
            r matches Err(e) ==> final(self).rx.state == Spi0RxState::Failed(e),
            quiesced(old(bus).trace@, final(bus).trace@, r),
    {
        self.rx.fail(Spi0RxError::Cancelled);
        let result = quiesce(bus);
        match result {
            Ok(()) => {},
            Err(e) => {
                self.rx.fail(e);
            },
        }
        result
    }
}

/// A transfer that is not active never reads the data register and never
/// changes; a fault always wins over received data.
pub proof fn lemma_inactive_transfer_is_inert(
    state: Spi0RxState,
    masked_status: u32,
    level: u32,
    remaining: usize,
    fifo_depth: u16,
)
    ensures
        state != Spi0RxState::Active ==> service_action(
            state,
            masked_status,
            level,
            remaining,
            fifo_depth,
        ) == ServiceAction::Ignore,
        state == Spi0RxState::Active && masked_status & IRQ_ERRORS != 0 ==> service_action(
            state,
            masked_status,
            level,
            remaining,
            fifo_depth,
        ) == ServiceAction::Fail(Spi0RxError::InterruptFault(masked_status & IRQ_ERRORS)),
        service_action(state, masked_status, level, remaining, fifo_depth) == ServiceAction::Drain
            ==> 1 <= level <= remaining && level <= fifo_depth,
{
    assert(((1u32 << 1u32) | (1u32 << 2u32) | (1u32 << 3u32)) == 0xeu32) by (bit_vector);
    assert(IRQ_ERRORS == 0xeu32);
    assert(masked_status & 0xeu32 != 0 ==> masked_status != 0) by (bit_vector);
}

} // verus!
