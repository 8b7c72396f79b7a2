//! Reset controller: release-only targets and UART reset transitions,
//! each checked against the state read back from the controller.

use vstd::prelude::*;
use crate::bus::{got, rd, wr, writes_of, Access, Bus, Mmio};

verus! {

pub const RESET_CTRL: [usize; 2] = [0x4001_4000, 0x4001_4004];
pub const RESET_SET: [usize; 2] = [0x4001_6000, 0x4001_6004];
pub const RESET_CLEAR: [usize; 2] = [0x4001_7000, 0x4001_7004];
pub const RESET_DONE: [usize; 2] = [0x4001_4018, 0x4001_401c];

pub const CLK_UART_CTRL: usize = 0x4001_8054;
pub const CLK_UART_DIV_INT: usize = 0x4001_8058;
pub const CLK_UART_SEL: usize = 0x4001_8060;
pub const PLL_SYS_CS: usize = 0x4002_0000;
pub const PLL_SYS_PRIM: usize = 0x4002_0010;
pub const CLK_UART_RELEVANT: u32 = 0x0000_0fe0;
pub const CLK_UART_XOSC_ENABLED: u32 = 0x0000_0840;
pub const PLL_SYS_LOCKED: u32 = 0x8000_0001;
pub const PLL_SYS_PRI_PH_ENABLED: u32 = 1 << 4;

pub struct ResetController {
    pub bus_owner: (),
}

/// Targets whose hardware evidence authorizes release, but not assert.
#[derive(Clone, Copy, Debug, Eq, PartialEq, Structural)]
pub enum DeassertOnlyReset {
    PllSys,
    Pwm0,
    I2c1,
    Spi0,
}

/// UART reset targets with controlled assert and release.
#[derive(Clone, Copy, Debug, Eq, PartialEq, Structural)]
pub enum UartReset {
    Uart0,
    Uart1,
    Uart2,
    Uart3,
    Uart4,
    Uart5,
}

#[derive(Clone, Copy, Debug, Eq, PartialEq, Structural)]
pub struct ResetState {
    pub asserted: bool,
    pub done: bool,
}

#[derive(Clone, Copy, Debug, Eq, PartialEq, Structural)]
pub enum ResetError {
    ClockNotReady,
    PreconditionMismatch(ResetState),
    WriteRejected(ResetState),
    Timeout(ResetState),
}

/// A reset line: its bank and bit.
#[derive(Clone, Copy, Debug, Eq, PartialEq, Structural)]
pub struct ResetSpec {
    pub bank: usize,
    pub bit: u8,
}

pub open spec fn spec_wf(s: ResetSpec) -> bool {
    s.bank < 2 && s.bit < 32
}

/// The reset line of the second processor.
pub fn proc1() -> (r: ResetSpec)
    ensures
        r == (ResetSpec { bank: 0, bit: 31 }),
{
    ResetSpec { bank: 0, bit: 31 }
}

pub open spec fn deassert_only_line(t: DeassertOnlyReset) -> ResetSpec {
    match t {
        DeassertOnlyReset::PllSys => ResetSpec { bank: 0, bit: 29 },
        DeassertOnlyReset::Pwm0 => ResetSpec { bank: 1, bit: 4 },
        DeassertOnlyReset::I2c1 => ResetSpec { bank: 0, bit: 8 },
        DeassertOnlyReset::Spi0 => ResetSpec { bank: 1, bit: 10 },
    }
}

pub open spec fn uart_line(t: UartReset) -> ResetSpec {
    ResetSpec {
        bank: 1,
        bit: match t {
            UartReset::Uart0 => 26,
            UartReset::Uart1 => 27,
            UartReset::Uart2 => 28,
            UartReset::Uart3 => 29,
            UartReset::Uart4 => 30,
            UartReset::Uart5 => 31,
        },
    }
}

impl DeassertOnlyReset {
    pub fn spec(self) -> (r: ResetSpec)
        ensures
            r == deassert_only_line(self),
            spec_wf(r),
    {
        match self {
            DeassertOnlyReset::PllSys => ResetSpec { bank: 0, bit: 29 },
            DeassertOnlyReset::Pwm0 => ResetSpec { bank: 1, bit: 4 },
            DeassertOnlyReset::I2c1 => ResetSpec { bank: 0, bit: 8 },
            DeassertOnlyReset::Spi0 => ResetSpec { bank: 1, bit: 10 },
        }
    }
}

impl UartReset {
    pub fn spec(self) -> (r: ResetSpec)
        ensures
            r == uart_line(self),
            spec_wf(r),
    {
        let bit: u8 = match self {
            UartReset::Uart0 => 26,
            UartReset::Uart1 => 27,
            UartReset::Uart2 => 28,
            UartReset::Uart3 => 29,
            UartReset::Uart4 => 30,
            UartReset::Uart5 => 31,
        };
        ResetSpec { bank: 1, bit }
    }
}

/// What holds of every outcome of a transition: success reports DONE
/// settled for the requested state; a refusal before the write reports
/// a state other than the opposite settled one; a rejected write reports the
/// line not in the requested state.
pub open spec fn transition_outcome(asserted: bool, r: Result<ResetState, ResetError>) -> bool {
    match r {
        Ok(s) => s.done == !asserted,
        Err(ResetError::PreconditionMismatch(b)) => b != (ResetState {
            asserted: !asserted,
            done: asserted,
        }),
        Err(ResetError::WriteRejected(o)) => o.asserted != asserted,
        Err(ResetError::Timeout(_)) => true,
        Err(ResetError::ClockNotReady) => false,
    }
}

/// The reset control and DONE registers of a bank.
pub open spec fn ctrl_reg(bank: usize) -> usize {
    if bank == 0 {
        0x4001_4000usize
    } else {
        0x4001_4004usize
    }
}

pub open spec fn done_reg(bank: usize) -> usize {
    if bank == 0 {
        0x4001_4018usize
    } else {
        0x4001_401cusize
    }
}

/// Reads the line's control and DONE registers: whether its bit is set in
/// each.
pub fn state<B: Mmio>(bus: &mut Bus<B>, spec: ResetSpec) -> (r: ResetState)
    requires
        spec_wf(spec),
    ensures
        ({
            let t0 = old(bus).trace@;
            let t = final(bus).trace@;
            &&& t == t0 + seq![
                rd(ctrl_reg(spec.bank), got(t0, t, 0)),
                rd(done_reg(spec.bank), got(t0, t, 1)),
            ]
            &&& r == (ResetState {
                asserted: got(t0, t, 0) & (1u32 << spec.bit) != 0,
                done: got(t0, t, 1) & (1u32 << spec.bit) != 0,
            })
        }),
{
    let ghost t0 = bus.trace@;
    let mask: u32 = 1u32 << spec.bit;
    assert(RESET_CTRL[spec.bank as int] == ctrl_reg(spec.bank));
    assert(RESET_DONE[spec.bank as int] == done_reg(spec.bank));
    let ctrl = bus.read32(RESET_CTRL[spec.bank]);
    let done = bus.read32(RESET_DONE[spec.bank]);
    assert(bus.trace@ =~= t0 + seq![rd(ctrl_reg(spec.bank), ctrl), rd(done_reg(spec.bank), done)]);
    ResetState { asserted: ctrl & mask != 0, done: done & mask != 0 }
}

/// The register whose write moves the line: SET to assert, CLEAR to
/// release.
pub open spec fn line_reg(bank: usize, asserted: bool) -> usize {
    if asserted {
        if bank == 0 { 0x4001_6000usize } else { 0x4001_6004usize }
    } else {
        if bank == 0 { 0x4001_7000usize } else { 0x4001_7004usize }
    }
}

/// `t` is `k` samples of the line: each a read of its control register
/// then of its DONE register.
pub open spec fn samples(spec: ResetSpec, t: Seq<Access>, k: nat) -> bool {
    &&& t.len() == 2 * k
    &&& forall|i: int|
        0 <= i < k ==> #[trigger] t[2 * i] == rd(ctrl_reg(spec.bank), t[2 * i].value) && t[2 * i
            + 1] == rd(done_reg(spec.bank), t[2 * i + 1].value)
}

/// The state that sample `i` of `t` gives.
pub open spec fn sample_state(spec: ResetSpec, t: Seq<Access>, i: int) -> ResetState {
    ResetState {
        asserted: t[2 * i].value & (1u32 << spec.bit) != 0,
        done: t[2 * i + 1].value & (1u32 << spec.bit) != 0,
    }
}

/// The accesses `t` of a transition of line `spec` to `asserted` and its
/// outcome `r`. A first sample must find the opposite settled state, else
/// nothing is written and the state found is reported. Otherwise exactly
/// one write of the line's bit goes to SET (assert) or CLEAR (release),
/// then the line is sampled: if it is not yet in the requested state the
/// write was rejected; else it is sampled until DONE settles, at most
/// `poll_limit` more times, success with the settled state, or a timeout
/// with one last sample.
pub open spec fn transition_trace(
    spec: ResetSpec,
    asserted: bool,
    poll_limit: nat,
    t: Seq<Access>,
    r: Result<ResetState, ResetError>,
) -> bool {
    let s0 = sample_state(spec, t, 0);
    let w = t.skip(3);
    let k = w.len() / 2;
    let o = sample_state(spec, w, 0);
    let last = sample_state(spec, w, k - 1);
    &&& t.len() >= 2 && samples(spec, t.take(2), 1)
    &&& if s0 != (ResetState { asserted: !asserted, done: asserted }) {
        t.len() == 2 && r == Err::<ResetState, ResetError>(ResetError::PreconditionMismatch(s0))
    } else {
        &&& t.len() >= 3 && t[2] == wr(line_reg(spec.bank, asserted), 1u32 << spec.bit)
        &&& k >= 1 && samples(spec, w, k)
        &&& if o.asserted != asserted {
            k == 1 && r == Err::<ResetState, ResetError>(ResetError::WriteRejected(o))
        } else {
            &&& forall|i: int| 0 <= i < k - 1 ==> (#[trigger] sample_state(spec, w, i)).done == asserted
            &&& if k <= poll_limit + 1 {
                last.done == !asserted && r == Ok::<ResetState, ResetError>(last)
            } else {
                k == poll_limit + 2 && r == Err::<ResetState, ResetError>(ResetError::Timeout(last))
            }
        }
    }
}

/// Sampled accesses are reads only.
proof fn lemma_samples_write_nothing(spec: ResetSpec, t: Seq<Access>, k: nat)
    requires
        samples(spec, t, k),
    ensures
        writes_of(t) == Seq::<(usize, u32)>::empty(),
{
    assert forall|m: int| 0 <= m < t.len() implies !(#[trigger] t[m]).write by {
        let i = m / 2;
        assert(0 <= i < k);
        assert(t[2 * i] == rd(ctrl_reg(spec.bank), t[2 * i].value));
    }
    crate::bus::lemma_writes_of_no_write(t);
}

/// A reset transition hands at most one write to the bus: none when the
/// first sample finds the line in another state than the one it leaves,
/// else exactly the line's bit to SET (assert) or CLEAR (release).
pub proof fn lemma_transition_writes_once(
    spec: ResetSpec,
    asserted: bool,
    poll_limit: nat,
    t: Seq<Access>,
    r: Result<ResetState, ResetError>,
)
    requires
        transition_trace(spec, asserted, poll_limit, t, r),
    ensures
        writes_of(t) == (if r is Err && r->Err_0 is PreconditionMismatch {
            Seq::<(usize, u32)>::empty()
        } else {
            seq![(line_reg(spec.bank, asserted), 1u32 << spec.bit)]
        }),
{
    lemma_samples_write_nothing(spec, t.take(2), 1);
    let s0 = sample_state(spec, t, 0);
    if s0 != (ResetState { asserted: !asserted, done: asserted }) {
        assert(t.take(2) =~= t);
    } else {
        let w = t.skip(3);
        let k = w.len() / 2;
        lemma_samples_write_nothing(spec, w, k);
        assert(t =~= t.take(2) + seq![t[2]] + w);
        crate::bus::lemma_writes_of_concat(t.take(2) + seq![t[2]], w);
        crate::bus::lemma_writes_of_concat(t.take(2), seq![t[2]]);
        let one = seq![t[2]];
        assert(one.drop_last() =~= Seq::<Access>::empty());
        assert(one.last() == t[2] && t[2].write);
        assert(writes_of(one.drop_last()) =~= Seq::<(usize, u32)>::empty());
        assert(writes_of(one) =~= seq![(t[2].addr, t[2].value)]);
        assert(writes_of(t) =~= seq![(line_reg(spec.bank, asserted), 1u32 << spec.bit)]);
    }
}

/// Appending one sample.
proof fn lemma_samples_push(spec: ResetSpec, w: Seq<Access>, k: nat, ctrl: u32, done: u32)
    requires
        samples(spec, w, k),
    ensures
        samples(
            spec,
            w + seq![rd(ctrl_reg(spec.bank), ctrl), rd(done_reg(spec.bank), done)],
            k + 1,
        ),
        forall|i: int|
            0 <= i < k ==> sample_state(
                spec,
                w + seq![rd(ctrl_reg(spec.bank), ctrl), rd(done_reg(spec.bank), done)],
                i,
            ) == #[trigger] sample_state(spec, w, i),
        sample_state(
            spec,
            w + seq![rd(ctrl_reg(spec.bank), ctrl), rd(done_reg(spec.bank), done)],
            k as int,
        ) == (ResetState {
            asserted: ctrl & (1u32 << spec.bit) != 0,
            done: done & (1u32 << spec.bit) != 0,
        }),
{
    let w1 = w + seq![rd(ctrl_reg(spec.bank), ctrl), rd(done_reg(spec.bank), done)];
    assert forall|i: int| 0 <= i < k + 1 implies #[trigger] w1[2 * i] == rd(
        ctrl_reg(spec.bank),
        w1[2 * i].value,
    ) && w1[2 * i + 1] == rd(done_reg(spec.bank), w1[2 * i + 1].value) by {
        if i < k {
            assert(w1[2 * i] == w[2 * i]);
            assert(w1[2 * i + 1] == w[2 * i + 1]);
        }
    }
    assert forall|i: int| 0 <= i < k implies sample_state(spec, w1, i) == #[trigger] sample_state(
        spec,
        w,
        i,
    ) by {
        assert(w1[2 * i] == w[2 * i]);
        assert(w1[2 * i + 1] == w[2 * i + 1]);
    }
}

/// Moves a reset line to `asserted`, from the opposite settled state, and
/// polls DONE at most `poll_limit` more times.
#[verifier::rlimit(50)]
pub fn transition<B: Mmio>(bus: &mut Bus<B>, spec: ResetSpec, asserted: bool, poll_limit: usize) -> (r:
    Result<ResetState, ResetError>)
    requires
        spec_wf(spec),
    ensures
        transition_outcome(asserted, r),
        old(bus).trace@.len() <= final(bus).trace@.len(),
        final(bus).trace@.take(old(bus).trace@.len() as int) == old(bus).trace@,
        transition_trace(
            spec,
            asserted,
            poll_limit as nat,
            final(bus).trace@.skip(old(bus).trace@.len() as int),
            r,
        ),
{
    let ghost t0 = bus.trace@;
    let before = state(bus, spec);
    proof {
        let t = bus.trace@.skip(t0.len() as int);
        assert(bus.trace@.take(t0.len() as int) =~= t0);
        assert(t =~= seq![
            rd(ctrl_reg(spec.bank), got(t0, bus.trace@, 0)),
            rd(done_reg(spec.bank), got(t0, bus.trace@, 1)),
        ]);
        assert(t.take(2) =~= t);
        assert(samples(spec, t.take(2), 1));
    }
    let expected_before = ResetState { asserted: !asserted, done: asserted };
    if before != expected_before {
        return Err(ResetError::PreconditionMismatch(before));
    }
    let mask: u32 = 1u32 << spec.bit;
    let addr = if asserted {
        RESET_SET[spec.bank]
    } else {
        RESET_CLEAR[spec.bank]
    };
    assert(addr == line_reg(spec.bank, asserted));
    bus.write32(addr, mask);
    let ghost t1 = bus.trace@;
    let mut observed = state(bus, spec);
    let ghost mut w: Seq<Access> = bus.trace@.skip(t1.len() as int);
    proof {
        assert(bus.trace@ =~= t1 + w);
        lemma_samples_push(spec, Seq::empty(), 0, got(t1, bus.trace@, 0), got(t1, bus.trace@, 1));
        assert(Seq::<Access>::empty() + seq![
            rd(ctrl_reg(spec.bank), got(t1, bus.trace@, 0)),
            rd(done_reg(spec.bank), got(t1, bus.trace@, 1)),
        ] =~= w);
        assert(sample_state(spec, w, 0) == observed);
    }
    let mut result: Result<ResetState, ResetError> = Ok(observed);
    let first = observed;
    let mut i: usize = 0;
    let mut settled = false;
    if observed.asserted != asserted {
        result = Err(ResetError::WriteRejected(observed));
    } else if observed.done != !asserted {
        while i < poll_limit && !settled
            invariant
                i <= poll_limit,
                spec_wf(spec),
                bus.trace@ == t1 + w,
                samples(spec, w, (i + 1) as nat),
                sample_state(spec, w, 0) == first,
                first.asserted == asserted,
                observed == sample_state(spec, w, i as int),
                settled == (observed.done == !asserted),
                forall|j: int| 0 <= j < i ==> (#[trigger] sample_state(spec, w, j)).done == asserted,
            decreases poll_limit - i,
        {
            let ghost before_w = w;
            let ghost prev = observed;
            observed = state(bus, spec);
            proof {
                let tt = bus.trace@;
                lemma_samples_push(spec, before_w, (i + 1) as nat, got(t1 + before_w, tt, 0), got(t1 + before_w, tt, 1));
                w = before_w + seq![
                    rd(ctrl_reg(spec.bank), got(t1 + before_w, tt, 0)),
                    rd(done_reg(spec.bank), got(t1 + before_w, tt, 1)),
                ];
                assert(bus.trace@ =~= t1 + w);
                assert(sample_state(spec, w, i as int) == sample_state(spec, before_w, i as int));
                assert(prev.done == asserted);
                assert forall|j: int| 0 <= j < i + 1 implies (#[trigger] sample_state(spec, w, j)).done
                    == asserted by {
                    assert(sample_state(spec, w, j) == sample_state(spec, before_w, j));
                }
            }
            settled = observed.done == !asserted;
            i += 1;
        }
        if settled {
            result = Ok(observed);
        } else {
            let ghost before_w = w;
            let last = state(bus, spec);
            proof {
                let tt = bus.trace@;
                lemma_samples_push(spec, before_w, (i + 1) as nat, got(t1 + before_w, tt, 0), got(t1 + before_w, tt, 1));
                w = before_w + seq![
                    rd(ctrl_reg(spec.bank), got(t1 + before_w, tt, 0)),
                    rd(done_reg(spec.bank), got(t1 + before_w, tt, 1)),
                ];
                assert(bus.trace@ =~= t1 + w);
                assert(observed.done == asserted);
                assert forall|j: int| 0 <= j < i + 1 implies (#[trigger] sample_state(spec, w, j)).done
                    == asserted by {
                    assert(sample_state(spec, w, j) == sample_state(spec, before_w, j));
                }
                assert(sample_state(spec, w, 0) == sample_state(spec, before_w, 0));
                assert(sample_state(spec, w, (i + 1) as int) == last);
            }
            result = Err(ResetError::Timeout(last));
        }
    }
    proof {
        let t = bus.trace@.skip(t0.len() as int);
        assert(bus.trace@.take(t0.len() as int) =~= t0);
        assert(t.skip(3) =~= w);
        assert(t.take(2) =~= t1.skip(t0.len() as int).take(2));
        assert(t[0] == t1[t0.len() as int]);
        assert(t[1] == t1[t0.len() as int + 1]);
        assert(t[2] == t1[t0.len() as int + 2]);
        assert(sample_state(spec, t, 0) == before);
        let k = w.len() / 2;
        if first.asserted != asserted {
            assert(k == 1);
        } else if first.done == !asserted {
            assert(k == 1);
        } else if settled {
            assert(k == i + 1);
            assert(sample_state(spec, w, k - 1) == observed);
            assert(forall|j: int| 0 <= j < k - 1 ==> (#[trigger] sample_state(spec, w, j)).done == asserted);
        } else {
            assert(i == poll_limit);
            assert(k == poll_limit + 2);
        }
        assert(t.len() >= 2 && samples(spec, t.take(2), 1));
        assert(t.len() >= 3 && t[2] == wr(line_reg(spec.bank, asserted), 1u32 << spec.bit));
        assert(k >= 1 && samples(spec, w, k));
        assert(sample_state(spec, w, 0) == first);
    }
    result
}

/// The exact XOSC UART clock envelope: control bits, divider 1, selector 1,
/// PLL_SYS locked and its primary phase enabled.
pub open spec fn uart_clock_envelope(ctrl: u32, div_int: u32, sel: u32, pll_cs: u32, pll_prim: u32) -> bool {
    ctrl & CLK_UART_RELEVANT == CLK_UART_XOSC_ENABLED && div_int == 1 && sel == 1 && pll_cs
        == PLL_SYS_LOCKED && pll_prim & PLL_SYS_PRI_PH_ENABLED != 0
}

/// The registers of the UART clock check, in the order it reads them.
pub open spec fn clock_reg(i: int) -> usize {
    if i == 0 {
        CLK_UART_CTRL
    } else if i == 1 {
        CLK_UART_DIV_INT
    } else if i == 2 {
        CLK_UART_SEL
    } else if i == 3 {
        PLL_SYS_CS
    } else {
        PLL_SYS_PRIM
    }
}

/// The check of read number `i` of the UART clock check.
pub open spec fn clock_check(i: int, v: u32) -> bool {
    if i == 0 {
        v & CLK_UART_RELEVANT == CLK_UART_XOSC_ENABLED
    } else if i == 1 {
        v == 1
    } else if i == 2 {
        v == 1
    } else if i == 3 {
        v == PLL_SYS_LOCKED
    } else {
        v & PLL_SYS_PRI_PH_ENABLED != 0
    }
}

/// The UART clock check from `before` to `after`: the registers read in
/// order, up to and including the first one that fails its check;
/// `ready` when all five pass.
pub open spec fn clocks_checked(before: Seq<Access>, after: Seq<Access>, ready: bool) -> bool {
    let n = after.len() - before.len();
    &&& 1 <= n <= 5
    &&& after == before + Seq::new(n as nat, |i: int| rd(clock_reg(i), got(before, after, i)))
    &&& forall|i: int| 0 <= i < n - 1 ==> #[trigger] clock_check(i, got(before, after, i))
    &&& ready == (n == 5 && clock_check(4, got(before, after, 4)))
    &&& n < 5 ==> !clock_check(n - 1, got(before, after, n - 1))
}

impl ResetController {
    /// Releases a release-only target once the caller has established its
    /// clock and ownership preconditions.
    pub fn deassert_preconditions_met<B: Mmio>(
        &mut self,
        bus: &mut Bus<B>,
        target: DeassertOnlyReset,
        poll_limit: usize,
    ) -> (r: Result<ResetState, ResetError>)
        ensures
            transition_outcome(false, r),
            old(bus).trace@.len() <= final(bus).trace@.len(),
            final(bus).trace@.take(old(bus).trace@.len() as int) == old(bus).trace@,
            transition_trace(
                deassert_only_line(target),
                false,
                poll_limit as nat,
                final(bus).trace@.skip(old(bus).trace@.len() as int),
                r,
            ),
    {
        transition(bus, target.spec(), false, poll_limit)
    }

    /// Whether the UART clock registers hold the proven envelope: reads
    /// the control word, the divider, the selector, PLL_SYS's CS and its
    /// primary phase in turn, stopping at the first that fails its check.
    pub fn uart_clocks_ready<B: Mmio>(&self, bus: &mut Bus<B>) -> (r: bool)
        ensures
            clocks_checked(old(bus).trace@, final(bus).trace@, r),
    {
        let ghost t0 = bus.trace@;
        let ctrl = bus.read32(CLK_UART_CTRL);
        if ctrl & CLK_UART_RELEVANT != CLK_UART_XOSC_ENABLED {
            assert(bus.trace@ =~= t0 + Seq::new(1, |i: int| rd(clock_reg(i), got(t0, bus.trace@, i))));
            return false;
        }
        let div = bus.read32(CLK_UART_DIV_INT);
        if div != 1 {
            assert(bus.trace@ =~= t0 + Seq::new(2, |i: int| rd(clock_reg(i), got(t0, bus.trace@, i))));
            return false;
        }
        let sel = bus.read32(CLK_UART_SEL);
        if sel != 1 {
            assert(bus.trace@ =~= t0 + Seq::new(3, |i: int| rd(clock_reg(i), got(t0, bus.trace@, i))));
            return false;
        }
        let cs = bus.read32(PLL_SYS_CS);
        if cs != PLL_SYS_LOCKED {
            assert(bus.trace@ =~= t0 + Seq::new(4, |i: int| rd(clock_reg(i), got(t0, bus.trace@, i))));
            return false;
        }
        let prim = bus.read32(PLL_SYS_PRIM);
        assert(bus.trace@ =~= t0 + Seq::new(5, |i: int| rd(clock_reg(i), got(t0, bus.trace@, i))));
        prim & PLL_SYS_PRI_PH_ENABLED != 0
    }

    /// Asserts an owned, quiesced UART while the clock envelope holds:
    /// the clock check first; only when it passes, the transition.
    pub fn assert_uart_clock_ready<B: Mmio>(
        &mut self,
        bus: &mut Bus<B>,
        target: UartReset,
        poll_limit: usize,
    ) -> (r: Result<ResetState, ResetError>)
        ensures
            r == Err::<ResetState, ResetError>(ResetError::ClockNotReady) || transition_outcome(
                true,
                r,
            ),
            exists|checked: Seq<Access>, ready: bool|
                #[trigger] clocks_checked(old(bus).trace@, checked, ready) && (ready <==> r
                    != Err::<ResetState, ResetError>(ResetError::ClockNotReady)) && (!ready
                    ==> final(bus).trace@ == checked) && (ready ==> checked.len()
                    <= final(bus).trace@.len() && final(bus).trace@.take(checked.len() as int)
                    == checked && transition_trace(
                    uart_line(target),
                    true,
                    poll_limit as nat,
                    final(bus).trace@.skip(checked.len() as int),
                    r,
                )),
    {
        let ghost t0 = bus.trace@;
        let ready = self.uart_clocks_ready(bus);
        let ghost checked = bus.trace@;
        if !ready {
            return Err(ResetError::ClockNotReady);
        }
        let r = transition(bus, target.spec(), true, poll_limit);
        assert(clocks_checked(t0, checked, ready));
        r
    }

    /// Releases an owned UART while the clock envelope holds.
    pub fn deassert_uart_clock_ready<B: Mmio>(
        &mut self,
        bus: &mut Bus<B>,
        target: UartReset,
        poll_limit: usize,
    ) -> (r: Result<ResetState, ResetError>)
        ensures
            r == Err::<ResetState, ResetError>(ResetError::ClockNotReady) || transition_outcome(
                false,
                r,
            ),
            exists|checked: Seq<Access>, ready: bool|
                #[trigger] clocks_checked(old(bus).trace@, checked, ready) && (ready <==> r
                    != Err::<ResetState, ResetError>(ResetError::ClockNotReady)) && (!ready
                    ==> final(bus).trace@ == checked) && (ready ==> checked.len()
                    <= final(bus).trace@.len() && final(bus).trace@.take(checked.len() as int)
                    == checked && transition_trace(
                    uart_line(target),
                    false,
                    poll_limit as nat,
                    final(bus).trace@.skip(checked.len() as int),
                    r,
                )),
    {
        let ghost t0 = bus.trace@;
        let ready = self.uart_clocks_ready(bus);
        let ghost checked = bus.trace@;
        if !ready {
            return Err(ResetError::ClockNotReady);
        }
        let r = transition(bus, target.spec(), false, poll_limit);
        assert(clocks_checked(t0, checked, ready));
        r
    }

    /// Releases proc1 from reset once its boot tuple is in place.
    pub fn deassert_proc1_boot_tuple_ready<B: Mmio>(&mut self, bus: &mut Bus<B>, poll_limit: usize) -> (r:
        Result<ResetState, ResetError>)
        ensures
            transition_outcome(false, r),
            old(bus).trace@.len() <= final(bus).trace@.len(),
            final(bus).trace@.take(old(bus).trace@.len() as int) == old(bus).trace@,
            transition_trace(
                ResetSpec { bank: 0, bit: 31 },
                false,
                poll_limit as nat,
                final(bus).trace@.skip(old(bus).trace@.len() as int),
                r,
            ),
    {
        transition(bus, proc1(), false, poll_limit)
    }
}

} // verus!
