//! PWM0 channel 0 on GPIO12, clocked at 50 MHz from XOSC.

use vstd::prelude::*;
use crate::bus::{
    got, lemma_polls_keep_prefix, mask_is, poll_mask, polls, rd, wr, Access, Bus, Mmio,
};

verus! {

pub const CLOCKS_MAIN_BASE: usize = 0x4001_8000;
pub const CLK_PWM0_CTRL: usize = CLOCKS_MAIN_BASE + 0x74;
pub const CLK_PWM0_DIV_INT: usize = CLOCKS_MAIN_BASE + 0x78;
pub const CLK_PWM0_DIV_FRAC: usize = CLOCKS_MAIN_BASE + 0x7c;
pub const CLK_PWM0_SEL: usize = CLOCKS_MAIN_BASE + 0x80;
pub const CLK_CTRL_ENABLE: u32 = 1 << 11;
pub const CLK_CTRL_AUXSRC_MASK: u32 = 0x0000_03e0;
pub const CLK_CTRL_XOSC: u32 = 2 << 5;
pub const CLK_SEL_AUX: u32 = 1;

pub const RESET_CTRL1: usize = 0x4001_4004;
pub const RESET_DONE1: usize = 0x4001_401c;
pub const RESET_CLEAR1: usize = 0x4001_7004;
pub const RESET_PWM0: u32 = 1 << 4;

pub const GPIO12_CTRL: usize = 0x400d_0064;
pub const GPIO12_PAD: usize = 0x400f_0034;
pub const GPIO_CTRL_FUNCSEL_MASK: u32 = 0x0000_001f;
pub const GPIO_CTRL_OVERRIDE_MASK: u32 = 0x0003_f000;
pub const GPIO_FUNCSEL_PWM0_CH0: u32 = 0;
pub const PAD_PULL_MASK: u32 = 0x0000_000c;
pub const PAD_INPUT_ENABLE: u32 = 0x40;
pub const PAD_OUTPUT_DISABLE: u32 = 0x80;

pub const PWM0_BASE: usize = 0x4009_8000;
pub const PWM_GLOBAL_CTRL: usize = PWM0_BASE;
pub const PWM_CH0_CTRL: usize = PWM0_BASE + 0x14;
pub const PWM_CH0_RANGE: usize = PWM0_BASE + 0x18;
pub const PWM_CH0_DUTY: usize = PWM0_BASE + 0x20;
pub const PWM_GLOBAL_SET_UPDATE: u32 = 1 << 31;
pub const PWM_GLOBAL_CH0_ENABLE: u32 = 1;
pub const PWM_CH0_TRAILING_EDGE_MARK_SPACE: u32 = (1 << 8) | 1;
pub const POLL_LIMIT: usize = 100_000;

#[derive(Clone, Copy, Debug, Eq, PartialEq, Structural)]
pub struct Pwm0Config {
    pub range: u32,
    pub duty: u32,
}

/// A nonzero range with the duty inside it.
pub open spec fn config_valid(c: Pwm0Config) -> bool {
    c.range != 0 && c.duty <= c.range
}

impl Pwm0Config {
    pub fn new(range: u32, duty: u32) -> (r: Self)
        ensures
            r == (Pwm0Config { range, duty }),
    {
        Pwm0Config { range, duty }
    }

    pub fn valid(self) -> (r: bool)
        ensures
            r == config_valid(self),
    {
        self.range != 0 && self.duty <= self.range
    }
}

#[derive(Clone, Copy, Debug, Eq, PartialEq, Structural)]
pub enum Pwm0Error {
    InvalidConfig,
    ClockReadback,
    ClockSelectTimeout,
    ResetWriteRejected,
    ResetDoneTimeout,
    PinmuxReadback,
    UpdateTimeout,
    PwmReadback,
}

impl Pwm0Error {
    /// The error's diagnostic number.
    pub fn code(self) -> (r: u32)
        ensures
            r == match self {
                Pwm0Error::InvalidConfig => 1u32,
                Pwm0Error::ClockReadback => 2,
                Pwm0Error::ClockSelectTimeout => 3,
                Pwm0Error::ResetWriteRejected => 4,
                Pwm0Error::ResetDoneTimeout => 5,
                Pwm0Error::PinmuxReadback => 6,
                Pwm0Error::UpdateTimeout => 7,
                Pwm0Error::PwmReadback => 8,
            },
    {
        match self {
            Pwm0Error::InvalidConfig => 1,
            Pwm0Error::ClockReadback => 2,
            Pwm0Error::ClockSelectTimeout => 3,
            Pwm0Error::ResetWriteRejected => 4,
            Pwm0Error::ResetDoneTimeout => 5,
            Pwm0Error::PinmuxReadback => 6,
            Pwm0Error::UpdateTimeout => 7,
            Pwm0Error::PwmReadback => 8,
        }
    }
}

#[derive(Clone, Copy, Debug, Eq, PartialEq, Structural)]
pub struct Pwm0Snapshot {
    pub clock_ctrl: u32,
    pub clock_div_int: u32,
    pub clock_div_frac: u32,
    pub clock_sel: u32,
    pub reset_ctrl1: u32,
    pub reset_done1: u32,
    pub gpio12_ctrl: u32,
    pub gpio12_pad: u32,
    pub global_ctrl: u32,
    pub channel_ctrl: u32,
    pub range: u32,
    pub duty: u32,
}

pub struct Pwm0 {
    pub private: (),
}

pub struct Pwm0Channel0 {
    pub private: (),
}

/// GPIO12 control: function select PWM0 channel 0, overrides cleared,
/// every other bit kept.
pub open spec fn gpio12_ctrl(current: u32) -> u32 {
    (current & !(GPIO_CTRL_FUNCSEL_MASK | GPIO_CTRL_OVERRIDE_MASK)) | GPIO_FUNCSEL_PWM0_CH0
}

/// GPIO12 pad: no pull, output enabled, input enabled, every other bit
/// kept.
pub open spec fn gpio12_pad(current: u32) -> u32 {
    (current & !(PAD_PULL_MASK | PAD_OUTPUT_DISABLE)) | PAD_INPUT_ENABLE
}

pub fn gpio12_ctrl_value(current: u32) -> (r: u32)
    ensures
        r == gpio12_ctrl(current),
        r & 0x0003_f01f == 0,
        r & !0x0003_f01fu32 == current & !0x0003_f01fu32,
{
    let r = (current & !(GPIO_CTRL_FUNCSEL_MASK | GPIO_CTRL_OVERRIDE_MASK)) | GPIO_FUNCSEL_PWM0_CH0;
    assert(((current & !(0x1fu32 | 0x0003_f000u32)) | 0u32) & 0x0003_f01f == 0 && ((current & !(
    0x1fu32 | 0x0003_f000u32)) | 0u32) & !0x0003_f01fu32 == current & !0x0003_f01fu32)
        by (bit_vector);
    r
}

pub fn gpio12_pad_value(current: u32) -> (r: u32)
    ensures
        r == gpio12_pad(current),
        r & 0xcc == 0x40,
        r & !0xccu32 == current & !0xccu32,
{
    let r = (current & !(PAD_PULL_MASK | PAD_OUTPUT_DISABLE)) | PAD_INPUT_ENABLE;
    assert(((current & !(0xcu32 | 0x80u32)) | 0x40u32) & 0xcc == 0x40 && ((current & !(0xcu32
        | 0x80u32)) | 0x40u32) & !0xccu32 == current & !0xccu32) by (bit_vector);
    r
}

/// The reads a PWM0 snapshot makes, in order, and the values they gave.
pub open spec fn snapshot_reads(r: Pwm0Snapshot) -> Seq<Access> {
    seq![
        rd(CLK_PWM0_CTRL, r.clock_ctrl),
        rd(CLK_PWM0_DIV_INT, r.clock_div_int),
        rd(CLK_PWM0_DIV_FRAC, r.clock_div_frac),
        rd(CLK_PWM0_SEL, r.clock_sel),
        rd(RESET_CTRL1, r.reset_ctrl1),
        rd(RESET_DONE1, r.reset_done1),
        rd(GPIO12_CTRL, r.gpio12_ctrl),
        rd(GPIO12_PAD, r.gpio12_pad),
        rd(PWM_GLOBAL_CTRL, r.global_ctrl),
        rd(PWM_CH0_CTRL, r.channel_ctrl),
        rd(PWM_CH0_RANGE, r.range),
        rd(PWM_CH0_DUTY, r.duty),
    ]
}

/// Reads the PWM0 clock, reset, GPIO12 and channel 0 registers.
pub fn snapshot_pwm0<B: Mmio>(bus: &mut Bus<B>) -> (r: Pwm0Snapshot)
    ensures
        final(bus).trace@ == old(bus).trace@ + snapshot_reads(r),
{
    let clock_ctrl = bus.read32(CLK_PWM0_CTRL);
    let clock_div_int = bus.read32(CLK_PWM0_DIV_INT);
    let clock_div_frac = bus.read32(CLK_PWM0_DIV_FRAC);
    let clock_sel = bus.read32(CLK_PWM0_SEL);
    let reset_ctrl1 = bus.read32(RESET_CTRL1);
    let reset_done1 = bus.read32(RESET_DONE1);
    let gpio12_ctrl = bus.read32(GPIO12_CTRL);
    let gpio12_pad = bus.read32(GPIO12_PAD);
    let global_ctrl = bus.read32(PWM_GLOBAL_CTRL);
    let channel_ctrl = bus.read32(PWM_CH0_CTRL);
    let range = bus.read32(PWM_CH0_RANGE);
    let duty = bus.read32(PWM_CH0_DUTY);
    let r = Pwm0Snapshot {
        clock_ctrl,
        clock_div_int,
        clock_div_frac,
        clock_sel,
        reset_ctrl1,
        reset_done1,
        gpio12_ctrl,
        gpio12_pad,
        global_ctrl,
        channel_ctrl,
        range,
        duty,
    };
    assert(bus.trace@ =~= old(bus).trace@ + snapshot_reads(r));
    r
}

/// The clock control word that selects XOSC, with the enable clear.
pub open spec fn pwm0_clock_source(original: u32) -> u32 {
    (original & !(CLK_CTRL_AUXSRC_MASK | CLK_CTRL_ENABLE)) | CLK_CTRL_XOSC
}

/// The accesses `t` after `t0` of the PWM0 clock setup and its result `r`.
pub open spec fn clock_configured(t0: Seq<Access>, t: Seq<Access>, r: Result<(), Pwm0Error>) -> bool {
    let source = pwm0_clock_source(got(t0, t, 0));
    let head = t0 + seq![
        rd(CLK_PWM0_CTRL, got(t0, t, 0)),
        wr(CLK_PWM0_DIV_INT, 1),
        wr(CLK_PWM0_DIV_FRAC, 0),
        wr(CLK_PWM0_CTRL, source),
        wr(CLK_PWM0_CTRL, source | CLK_CTRL_ENABLE),
        rd(CLK_PWM0_DIV_INT, got(t0, t, 5)),
    ];
    if got(t0, t, 5) != 1 {
        t =~= head && r == Err::<(), Pwm0Error>(Pwm0Error::ClockReadback)
    } else if got(t0, t, 6) != 0 {
        t =~= head.push(rd(CLK_PWM0_DIV_FRAC, got(t0, t, 6))) && r == Err::<(), Pwm0Error>(
            Pwm0Error::ClockReadback,
        )
    } else {
        let checked = head + seq![
            rd(CLK_PWM0_DIV_FRAC, got(t0, t, 6)),
            rd(CLK_PWM0_CTRL, got(t0, t, 7)),
        ];
        if got(t0, t, 7) & (CLK_CTRL_AUXSRC_MASK | CLK_CTRL_ENABLE) != CLK_CTRL_XOSC
            | CLK_CTRL_ENABLE {
            t =~= checked && r == Err::<(), Pwm0Error>(Pwm0Error::ClockReadback)
        } else {
            polls(checked, t, CLK_PWM0_SEL, mask_is(CLK_SEL_AUX, true), POLL_LIMIT as nat, r is Ok)
                && (r is Ok || r == Err::<(), Pwm0Error>(Pwm0Error::ClockSelectTimeout))
        }
    }
}

/// Selects XOSC with divider 1, enables the clock and waits, at most
/// `POLL_LIMIT` reads, for the auxiliary selector. It reads the control
/// word, writes divider 1, fraction 0, the source and then the source with
/// the enable; reads back the divider, the fraction and the control word
/// (stopping at the first mismatch, a readback error), then polls SEL.
pub fn configure_pwm0_clock_50mhz<B: Mmio>(bus: &mut Bus<B>) -> (r: Result<(), Pwm0Error>)
    ensures
        clock_configured(old(bus).trace@, final(bus).trace@, r),
{
    let ghost t0 = bus.trace@;
    let original = bus.read32(CLK_PWM0_CTRL);
    let source = (original & !(CLK_CTRL_AUXSRC_MASK | CLK_CTRL_ENABLE)) | CLK_CTRL_XOSC;
    bus.write32(CLK_PWM0_DIV_INT, 1);
    bus.write32(CLK_PWM0_DIV_FRAC, 0);
    bus.write32(CLK_PWM0_CTRL, source);
    bus.write32(CLK_PWM0_CTRL, source | CLK_CTRL_ENABLE);
    let div = bus.read32(CLK_PWM0_DIV_INT);
    if div != 1 {
        return Err(Pwm0Error::ClockReadback);
    }
    let frac = bus.read32(CLK_PWM0_DIV_FRAC);
    if frac != 0 {
        return Err(Pwm0Error::ClockReadback);
    }
    let ctrl = bus.read32(CLK_PWM0_CTRL);
    if ctrl & (CLK_CTRL_AUXSRC_MASK | CLK_CTRL_ENABLE) != CLK_CTRL_XOSC | CLK_CTRL_ENABLE {
        return Err(Pwm0Error::ClockReadback);
    }
    let ghost checked = bus.trace@;
    assert(checked =~= t0 + seq![
        rd(CLK_PWM0_CTRL, original),
        wr(CLK_PWM0_DIV_INT, 1),
        wr(CLK_PWM0_DIV_FRAC, 0),
        wr(CLK_PWM0_CTRL, source),
        wr(CLK_PWM0_CTRL, source | CLK_CTRL_ENABLE),
        rd(CLK_PWM0_DIV_INT, div),
        rd(CLK_PWM0_DIV_FRAC, frac),
        rd(CLK_PWM0_CTRL, ctrl),
    ]);
    let found = poll_mask(bus, CLK_PWM0_SEL, CLK_SEL_AUX, true, POLL_LIMIT);
    proof {
        lemma_polls_keep_prefix(checked, bus.trace@, CLK_PWM0_SEL, mask_is(CLK_SEL_AUX, true), POLL_LIMIT as nat, found);
        assert(got(t0, bus.trace@, 0) == original);
        assert(got(t0, bus.trace@, 5) == div);
        assert(got(t0, bus.trace@, 6) == frac);
        assert(got(t0, bus.trace@, 7) == ctrl);
        let t = bus.trace@;
        assert(checked =~= t0 + seq![
            rd(CLK_PWM0_CTRL, got(t0, t, 0)),
            wr(CLK_PWM0_DIV_INT, 1),
            wr(CLK_PWM0_DIV_FRAC, 0),
            wr(CLK_PWM0_CTRL, pwm0_clock_source(got(t0, t, 0))),
            wr(CLK_PWM0_CTRL, pwm0_clock_source(got(t0, t, 0)) | CLK_CTRL_ENABLE),
            rd(CLK_PWM0_DIV_INT, got(t0, t, 5)),
        ] + seq![rd(CLK_PWM0_DIV_FRAC, got(t0, t, 6)), rd(CLK_PWM0_CTRL, got(t0, t, 7))]);
    }
    if found {
        Ok(())
    } else {
        Err(Pwm0Error::ClockSelectTimeout)
    }
}

/// The accesses `t` after `t0` of the PWM0 reset release and its result `r`.
pub open spec fn reset_released(t0: Seq<Access>, t: Seq<Access>, r: Result<(), Pwm0Error>) -> bool {
    let first = t0.push(rd(RESET_CTRL1, got(t0, t, 0)));
    let done_poll = |before: Seq<Access>|
        polls(before, t, RESET_DONE1, mask_is(RESET_PWM0, true), POLL_LIMIT as nat, r is Ok)
            && (r is Ok || r == Err::<(), Pwm0Error>(Pwm0Error::ResetDoneTimeout));
    if got(t0, t, 0) & RESET_PWM0 == 0 {
        done_poll(first)
    } else {
        let cleared = first + seq![
            wr(RESET_CLEAR1, RESET_PWM0),
            rd(RESET_CTRL1, got(t0, t, 2)),
        ];
        if got(t0, t, 2) & RESET_PWM0 != 0 {
            t =~= cleared && r == Err::<(), Pwm0Error>(Pwm0Error::ResetWriteRejected)
        } else {
            done_poll(cleared)
        }
    }
}

/// Clears the PWM0 reset if it is asserted and waits for DONE: reads
/// RESET_CTRL1; if PWM0 is held, writes its bit to RESET_CLEAR1 and reads
/// RESET_CTRL1 again (still held: a rejected write); then polls
/// RESET_DONE1, at most `POLL_LIMIT` reads, for PWM0's bit.
pub fn release_pwm0_reset<B: Mmio>(bus: &mut Bus<B>) -> (r: Result<(), Pwm0Error>)
    ensures
        reset_released(old(bus).trace@, final(bus).trace@, r),
{
    let ghost t0 = bus.trace@;
    let ctrl = bus.read32(RESET_CTRL1);
    if ctrl & RESET_PWM0 != 0 {
        bus.write32(RESET_CLEAR1, RESET_PWM0);
        let again = bus.read32(RESET_CTRL1);
        if again & RESET_PWM0 != 0 {
            return Err(Pwm0Error::ResetWriteRejected);
        }
        let ghost before = bus.trace@;
        let found = poll_mask(bus, RESET_DONE1, RESET_PWM0, true, POLL_LIMIT);
        proof {
            lemma_polls_keep_prefix(before, bus.trace@, RESET_DONE1, mask_is(RESET_PWM0, true), POLL_LIMIT as nat, found);
            let t = bus.trace@;
            assert(got(t0, t, 0) == ctrl);
            assert(got(t0, t, 2) == again);
            assert(before =~= t0.push(rd(RESET_CTRL1, got(t0, t, 0))) + seq![
                wr(RESET_CLEAR1, RESET_PWM0),
                rd(RESET_CTRL1, got(t0, t, 2)),
            ]);
        }
        if found {
            return Ok(());
        }
        return Err(Pwm0Error::ResetDoneTimeout);
    }
    let ghost before = bus.trace@;
    let found = poll_mask(bus, RESET_DONE1, RESET_PWM0, true, POLL_LIMIT);
    proof {
        lemma_polls_keep_prefix(before, bus.trace@, RESET_DONE1, mask_is(RESET_PWM0, true), POLL_LIMIT as nat, found);
        assert(got(t0, bus.trace@, 0) == ctrl);
        assert(before =~= t0.push(rd(RESET_CTRL1, got(t0, bus.trace@, 0))));
    }
    if found {
        Ok(())
    } else {
        Err(Pwm0Error::ResetDoneTimeout)
    }
}

/// The accesses `t` after `t0` of the GPIO12 routing and its result `r`.
pub open spec fn gpio12_routed(t0: Seq<Access>, t: Seq<Access>, r: Result<(), Pwm0Error>) -> bool {
    let head = t0 + seq![
        rd(GPIO12_CTRL, got(t0, t, 0)),
        wr(GPIO12_CTRL, gpio12_ctrl(got(t0, t, 0))),
        rd(GPIO12_PAD, got(t0, t, 2)),
        wr(GPIO12_PAD, gpio12_pad(got(t0, t, 2))),
        rd(GPIO12_CTRL, got(t0, t, 4)),
    ];
    if got(t0, t, 4) & (GPIO_CTRL_FUNCSEL_MASK | GPIO_CTRL_OVERRIDE_MASK)
        != GPIO_FUNCSEL_PWM0_CH0 {
        t =~= head && r == Err::<(), Pwm0Error>(Pwm0Error::PinmuxReadback)
    } else {
        t =~= head.push(rd(GPIO12_PAD, got(t0, t, 5))) && r == (if got(t0, t, 5) & (
        PAD_PULL_MASK | PAD_INPUT_ENABLE | PAD_OUTPUT_DISABLE) != PAD_INPUT_ENABLE {
            Err::<(), Pwm0Error>(Pwm0Error::PinmuxReadback)
        } else {
            Ok(())
        })
    }
}

/// Routes GPIO12 to PWM0 channel 0 and checks the readback: reads and
/// rewrites the control word, reads and rewrites the pad word, then reads
/// the control word (a wrong function select or override is a readback
/// error) and the pad word (wrong pull or enables is one).
pub fn configure_gpio12_pwm0<B: Mmio>(bus: &mut Bus<B>) -> (r: Result<(), Pwm0Error>)
    ensures
        gpio12_routed(old(bus).trace@, final(bus).trace@, r),
{
    let ghost t0 = bus.trace@;
    let ctrl = bus.read32(GPIO12_CTRL);
    bus.write32(GPIO12_CTRL, gpio12_ctrl_value(ctrl));
    let pad = bus.read32(GPIO12_PAD);
    bus.write32(GPIO12_PAD, gpio12_pad_value(pad));
    let ctrl_back = bus.read32(GPIO12_CTRL);
    if ctrl_back & (GPIO_CTRL_FUNCSEL_MASK | GPIO_CTRL_OVERRIDE_MASK) != GPIO_FUNCSEL_PWM0_CH0 {
        assert(bus.trace@ =~= t0 + seq![
            rd(GPIO12_CTRL, ctrl),
            wr(GPIO12_CTRL, gpio12_ctrl(ctrl)),
            rd(GPIO12_PAD, pad),
            wr(GPIO12_PAD, gpio12_pad(pad)),
            rd(GPIO12_CTRL, ctrl_back),
        ]);
        return Err(Pwm0Error::PinmuxReadback);
    }
    let pad_back = bus.read32(GPIO12_PAD);
    assert(bus.trace@ =~= (t0 + seq![
        rd(GPIO12_CTRL, ctrl),
        wr(GPIO12_CTRL, gpio12_ctrl(ctrl)),
        rd(GPIO12_PAD, pad),
        wr(GPIO12_PAD, gpio12_pad(pad)),
        rd(GPIO12_CTRL, ctrl_back),
    ]).push(rd(GPIO12_PAD, pad_back)));
    if pad_back & (PAD_PULL_MASK | PAD_INPUT_ENABLE | PAD_OUTPUT_DISABLE) != PAD_INPUT_ENABLE {
        return Err(Pwm0Error::PinmuxReadback);
    }
    Ok(())
}

/// Waits, at most `POLL_LIMIT` reads, for the update request to clear.
pub fn wait_for_update<B: Mmio>(bus: &mut Bus<B>) -> (r: Result<(), Pwm0Error>)
    ensures
        polls(old(bus).trace@, final(bus).trace@, PWM_GLOBAL_CTRL, mask_is(PWM_GLOBAL_SET_UPDATE, false), POLL_LIMIT as nat, r is Ok),
        r is Ok || r == Err::<(), Pwm0Error>(Pwm0Error::UpdateTimeout),
{
    if poll_mask(bus, PWM_GLOBAL_CTRL, PWM_GLOBAL_SET_UPDATE, false, POLL_LIMIT) {
        Ok(())
    } else {
        Err(Pwm0Error::UpdateTimeout)
    }
}

/// The first `k` phases of a start, cut at the marks `m`, all succeeded:
/// the clock set up; the reset released; channel 0 disabled (GLOBAL read
/// and written without its enable) and configured (trailing-edge
/// mark-space control, then duty, then range); GPIO12 routed; GLOBAL read
/// and written with the channel enable and an update request; the update
/// taken.
pub open spec fn start_prefix(config: Pwm0Config, m: Seq<Seq<Access>>, k: int) -> bool {
    &&& m.len() > k
    &&& k >= 1 ==> clock_configured(m[0], m[1], Ok(()))
    &&& k >= 2 ==> reset_released(m[1], m[2], Ok(()))
    &&& k >= 3 ==> m[3] =~= m[2] + seq![
        rd(PWM_GLOBAL_CTRL, got(m[2], m[3], 0)),
        wr(PWM_GLOBAL_CTRL, got(m[2], m[3], 0) & !PWM_GLOBAL_CH0_ENABLE),
        wr(PWM_CH0_CTRL, PWM_CH0_TRAILING_EDGE_MARK_SPACE),
        wr(PWM_CH0_DUTY, config.duty),
        wr(PWM_CH0_RANGE, config.range),
    ]
    &&& k >= 4 ==> gpio12_routed(m[3], m[4], Ok(()))
    &&& k >= 5 ==> m[5] =~= m[4] + seq![
        rd(PWM_GLOBAL_CTRL, got(m[4], m[5], 0)),
        wr(PWM_GLOBAL_CTRL, got(m[4], m[5], 0) | PWM_GLOBAL_CH0_ENABLE | PWM_GLOBAL_SET_UPDATE),
    ]
    &&& k >= 6 ==> polls(m[5], m[6], PWM_GLOBAL_CTRL, mask_is(PWM_GLOBAL_SET_UPDATE, false), POLL_LIMIT as nat, true)
}

/// The last snapshot shows the configuration: the channel control word,
/// the range, the duty and the channel enabled.
pub open spec fn snapshot_shows(config: Pwm0Config, snap: Pwm0Snapshot) -> bool {
    snap.channel_ctrl == PWM_CH0_TRAILING_EDGE_MARK_SPACE && snap.range == config.range
        && snap.duty == config.duty && snap.global_ctrl & PWM_GLOBAL_CH0_ENABLE != 0
}

/// A start that succeeded: every phase, then a snapshot `snap` that shows
/// the configuration.
pub open spec fn start_phases(config: Pwm0Config, m: Seq<Seq<Access>>, snap: Pwm0Snapshot) -> bool {
    &&& m.len() == 8
    &&& start_prefix(config, m, 6)
    &&& m[7] =~= m[6] + snapshot_reads(snap)
    &&& snapshot_shows(config, snap)
}

/// A start that failed with `e`: the phases before the failing one
/// succeeded and the failing one returned `e`; the update poll ran out
/// (an update timeout); or the last snapshot does not show the
/// configuration (a readback error).
pub open spec fn start_failed(config: Pwm0Config, m: Seq<Seq<Access>>, snap: Pwm0Snapshot, e: Pwm0Error) -> bool {
    ||| m.len() == 2 && clock_configured(m[0], m[1], Err(e))
    ||| m.len() == 3 && start_prefix(config, m, 1) && reset_released(m[1], m[2], Err(e))
    ||| m.len() == 5 && start_prefix(config, m, 3) && gpio12_routed(m[3], m[4], Err(e))
    ||| m.len() == 7 && start_prefix(config, m, 5) && polls(m[5], m[6], PWM_GLOBAL_CTRL, mask_is(PWM_GLOBAL_SET_UPDATE, false), POLL_LIMIT as nat, false)
        && e == Pwm0Error::UpdateTimeout
    ||| m.len() == 8 && start_prefix(config, m, 6) && m[7] =~= m[6] + snapshot_reads(snap)
        && !snapshot_shows(config, snap) && e == Pwm0Error::PwmReadback
}

/// The accesses of applying `config` from `t0` to `t`, with `polled_to`
/// the trace after the update poll: duty then range written, GLOBAL read
/// and written with an update request, the update polled for; once taken,
/// the range read back and, when it matches, the duty; success only when
/// both match.
pub open spec fn applied(
    config: Pwm0Config,
    t0: Seq<Access>,
    polled_to: Seq<Access>,
    t: Seq<Access>,
    r: Result<(), Pwm0Error>,
) -> bool {
    let head = t0 + seq![
        wr(PWM_CH0_DUTY, config.duty),
        wr(PWM_CH0_RANGE, config.range),
        rd(PWM_GLOBAL_CTRL, got(t0, t, 2)),
        wr(PWM_GLOBAL_CTRL, got(t0, t, 2) | PWM_GLOBAL_SET_UPDATE),
    ];
    let range = got(polled_to, t, 0);
    let duty = got(polled_to, t, 1);
    &&& polls(head, polled_to, PWM_GLOBAL_CTRL, mask_is(PWM_GLOBAL_SET_UPDATE, false), POLL_LIMIT as nat, !(r == Err::<(), Pwm0Error>(Pwm0Error::UpdateTimeout)))
    &&& if r == Err::<(), Pwm0Error>(Pwm0Error::UpdateTimeout) {
        t == polled_to
    } else if range != config.range {
        t =~= polled_to.push(rd(PWM_CH0_RANGE, range)) && r == Err::<(), Pwm0Error>(Pwm0Error::PwmReadback)
    } else {
        &&& t =~= polled_to + seq![rd(PWM_CH0_RANGE, range), rd(PWM_CH0_DUTY, duty)]
        &&& r == if duty != config.duty {
            Err::<(), Pwm0Error>(Pwm0Error::PwmReadback)
        } else {
            Ok(())
        }
    }
}

impl Pwm0 {
    /// Starts channel 0 on GPIO12 with `config`; an invalid configuration is
    /// refused before any register access.
    pub fn start_gpio12<B: Mmio>(&mut self, bus: &mut Bus<B>, config: Pwm0Config) -> (r: Result<
        Pwm0Channel0,
        Pwm0Error,
    >)
        ensures
            !config_valid(config) ==> (r matches Err(e) && e == Pwm0Error::InvalidConfig)
                && final(bus).trace@ == old(bus).trace@,
            r is Ok ==> config_valid(config) && exists|m: Seq<Seq<Access>>, snap: Pwm0Snapshot|
                #[trigger] start_phases(config, m, snap) && m[0] == old(bus).trace@ && m[7]
                    == final(bus).trace@,
            config_valid(config) && r is Err ==> exists|m: Seq<Seq<Access>>, snap: Pwm0Snapshot|
                #[trigger] start_failed(config, m, snap, r->Err_0) && m[0] == old(bus).trace@
                    && m.last() == final(bus).trace@,
    {
        if !config.valid() {
            return Err(Pwm0Error::InvalidConfig);
        }
        let ghost m0 = bus.trace@;
        let ghost snap0 = Pwm0Snapshot {
            clock_ctrl: 0,
            clock_div_int: 0,
            clock_div_frac: 0,
            clock_sel: 0,
            reset_ctrl1: 0,
            reset_done1: 0,
            gpio12_ctrl: 0,
            gpio12_pad: 0,
            global_ctrl: 0,
            channel_ctrl: 0,
            range: 0,
            duty: 0,
        };
        match configure_pwm0_clock_50mhz(bus) {
            Ok(()) => {},
            Err(e) => {
                assert(start_failed(config, seq![m0, bus.trace@], snap0, e));
                return Err(e);
            },
        }
        let ghost m1 = bus.trace@;
        match release_pwm0_reset(bus) {
            Ok(()) => {},
            Err(e) => {
                assert(start_prefix(config, seq![m0, m1, bus.trace@], 1));
                assert(start_failed(config, seq![m0, m1, bus.trace@], snap0, e));
                return Err(e);
            },
        }
        let ghost m2 = bus.trace@;
        let global = bus.read32(PWM_GLOBAL_CTRL);
        bus.write32(PWM_GLOBAL_CTRL, global & !PWM_GLOBAL_CH0_ENABLE);
        bus.write32(PWM_CH0_CTRL, PWM_CH0_TRAILING_EDGE_MARK_SPACE);
        bus.write32(PWM_CH0_DUTY, config.duty);
        bus.write32(PWM_CH0_RANGE, config.range);
        let ghost m3 = bus.trace@;
        assert(m3 =~= m2 + seq![
            rd(PWM_GLOBAL_CTRL, got(m2, m3, 0)),
            wr(PWM_GLOBAL_CTRL, got(m2, m3, 0) & !PWM_GLOBAL_CH0_ENABLE),
            wr(PWM_CH0_CTRL, PWM_CH0_TRAILING_EDGE_MARK_SPACE),
            wr(PWM_CH0_DUTY, config.duty),
            wr(PWM_CH0_RANGE, config.range),
        ]);
        match configure_gpio12_pwm0(bus) {
            Ok(()) => {},
            Err(e) => {
                assert(start_prefix(config, seq![m0, m1, m2, m3, bus.trace@], 3));
                assert(start_failed(config, seq![m0, m1, m2, m3, bus.trace@], snap0, e));
                return Err(e);
            },
        }
        let ghost m4 = bus.trace@;
        let global = bus.read32(PWM_GLOBAL_CTRL);
        bus.write32(PWM_GLOBAL_CTRL, global | PWM_GLOBAL_CH0_ENABLE | PWM_GLOBAL_SET_UPDATE);
        let ghost m5 = bus.trace@;
        assert(m5 =~= m4 + seq![
            rd(PWM_GLOBAL_CTRL, got(m4, m5, 0)),
            wr(PWM_GLOBAL_CTRL, got(m4, m5, 0) | PWM_GLOBAL_CH0_ENABLE | PWM_GLOBAL_SET_UPDATE),
        ]);
        match wait_for_update(bus) {
            Ok(()) => {},
            Err(e) => {
                assert(start_prefix(config, seq![m0, m1, m2, m3, m4, m5, bus.trace@], 5));
                assert(start_failed(config, seq![m0, m1, m2, m3, m4, m5, bus.trace@], snap0, e));
                return Err(e);
            },
        }
        let ghost m6 = bus.trace@;
        let channel = Pwm0Channel0 { private: () };
        let snapshot = channel.snapshot(bus);
        if snapshot.channel_ctrl != PWM_CH0_TRAILING_EDGE_MARK_SPACE || snapshot.range
            != config.range || snapshot.duty != config.duty || snapshot.global_ctrl
            & PWM_GLOBAL_CH0_ENABLE == 0 {
            assert(start_prefix(config, seq![m0, m1, m2, m3, m4, m5, m6, bus.trace@], 6));
            assert(start_failed(
                config,
                seq![m0, m1, m2, m3, m4, m5, m6, bus.trace@],
                snapshot,
                Pwm0Error::PwmReadback,
            ));
            return Err(Pwm0Error::PwmReadback);
        }
        proof {
            let m = seq![m0, m1, m2, m3, m4, m5, m6, bus.trace@];
            assert(start_prefix(config, m, 6));
            assert(start_phases(config, m, snapshot));
        }
        Ok(channel)
    }

    pub fn snapshot<B: Mmio>(&self, bus: &mut Bus<B>) -> (r: Pwm0Snapshot)
        ensures
            final(bus).trace@ == old(bus).trace@ + snapshot_reads(r),
    {
        snapshot_pwm0(bus)
    }
}

impl Pwm0Channel0 {
    /// Applies a new range and duty; an invalid configuration is refused
    /// before any register access.
    pub fn apply<B: Mmio>(&mut self, bus: &mut Bus<B>, config: Pwm0Config) -> (r: Result<(), Pwm0Error>)
        ensures
            !config_valid(config) ==> r == Err::<(), Pwm0Error>(Pwm0Error::InvalidConfig)
                && final(bus).trace@ == old(bus).trace@,
            config_valid(config) ==> (r is Ok || r == Err::<(), Pwm0Error>(Pwm0Error::UpdateTimeout)
                || r == Err::<(), Pwm0Error>(Pwm0Error::PwmReadback)),
            config_valid(config) ==> exists|polled_to: Seq<Access>|
                #[trigger] applied(config, old(bus).trace@, polled_to, final(bus).trace@, r),
    {
        if !config.valid() {
            return Err(Pwm0Error::InvalidConfig);
        }
        let ghost t0 = bus.trace@;
        bus.write32(PWM_CH0_DUTY, config.duty);
        bus.write32(PWM_CH0_RANGE, config.range);
        let global = bus.read32(PWM_GLOBAL_CTRL);
        bus.write32(PWM_GLOBAL_CTRL, global | PWM_GLOBAL_SET_UPDATE);
        let ghost t1 = bus.trace@;
        assert(t1 =~= t0 + seq![
            wr(PWM_CH0_DUTY, config.duty),
            wr(PWM_CH0_RANGE, config.range),
            rd(PWM_GLOBAL_CTRL, got(t0, t1, 2)),
            wr(PWM_GLOBAL_CTRL, got(t0, t1, 2) | PWM_GLOBAL_SET_UPDATE),
        ]);
        let waited = wait_for_update(bus);
        let ghost t2 = bus.trace@;
        match waited {
            Ok(()) => {},
            Err(e) => {
                assert(applied(config, t0, t2, bus.trace@, Err(e)));
                return Err(e);
            },
        }
        let range = bus.read32(PWM_CH0_RANGE);
        if range != config.range {
            assert(applied(config, t0, t2, bus.trace@, Err(Pwm0Error::PwmReadback)));
            return Err(Pwm0Error::PwmReadback);
        }
        let duty = bus.read32(PWM_CH0_DUTY);
        if duty != config.duty {
            assert(applied(config, t0, t2, bus.trace@, Err(Pwm0Error::PwmReadback)));
            return Err(Pwm0Error::PwmReadback);
        }
        assert(applied(config, t0, t2, bus.trace@, Ok(())));
        Ok(())
    }

    pub fn snapshot<B: Mmio>(&self, bus: &mut Bus<B>) -> (r: Pwm0Snapshot)
        ensures
            final(bus).trace@ == old(bus).trace@ + snapshot_reads(r),
    {
        snapshot_pwm0(bus)
    }
}

} // verus!
