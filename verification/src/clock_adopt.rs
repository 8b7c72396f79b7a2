//! Read-only adoption of the proven UART/XOSC and PLL_SYS register tuples;
//! no clock is initialized or written here.

use vstd::prelude::*;
use crate::bus::{got, rd, Access, Bus, Mmio};
use crate::scmi_clock::{ClockHardware, Error, PhysicalState};

verus! {

#[derive(Clone, Copy, Debug, PartialEq, Eq, Structural)]
pub struct UartClockSnapshot {
    pub ctrl: u32,
    pub div_int: u32,
    pub sel: u32,
}

/// Only nominal 50 MHz from XOSC with divider 1 is admitted; SEL 1 is the
/// observed one-hot selector.
pub open spec fn uart_clock_matches(s: UartClockSnapshot, expected_hz: u32) -> bool {
    expected_hz == 50_000_000 && s.ctrl == 0x1000_0840 && s.div_int == 1 && s.sel == 1
}

impl UartClockSnapshot {
    pub fn matches(&self, expected_hz: u32) -> (r: bool)
        ensures
            r == uart_clock_matches(*self, expected_hz),
    {
        expected_hz == 50_000_000 && self.ctrl == 0x1000_0840 && self.div_int == 1 && self.sel == 1
    }
}

/// The reads of a UART clock snapshot and the values they gave.
pub open spec fn uart_clock_reads(s: UartClockSnapshot) -> Seq<Access> {
    seq![rd(0x4001_8054, s.ctrl), rd(0x4001_8058, s.div_int), rd(0x4001_8060, s.sel)]
}

pub fn snapshot_uart_clock<B: Mmio>(bus: &mut Bus<B>) -> (r: UartClockSnapshot)
    ensures
        final(bus).trace@ == old(bus).trace@ + uart_clock_reads(r),
{
    let ctrl = bus.read32(0x4001_8054);
    let div_int = bus.read32(0x4001_8058);
    let sel = bus.read32(0x4001_8060);
    let r = UartClockSnapshot { ctrl, div_int, sel };
    assert(bus.trace@ =~= old(bus).trace@ + uart_clock_reads(r));
    r
}

/// The verdict on two consecutive snapshots: adopted when they agree and
/// match, otherwise the second is returned as the error.
pub fn adopt_decision(a: UartClockSnapshot, b: UartClockSnapshot, expected_hz: u32) -> (r: Result<
    UartClockSnapshot,
    UartClockSnapshot,
>)
    ensures
        r == (if a == b && uart_clock_matches(b, expected_hz) {
            Ok::<UartClockSnapshot, UartClockSnapshot>(b)
        } else {
            Err(b)
        }),
{
    if a == b && b.matches(expected_hz) {
        Ok(b)
    } else {
        Err(b)
    }
}

/// Reads the UART clock twice and adopts it when both reads agree and match.
pub fn adopt_uart_clock<B: Mmio>(bus: &mut Bus<B>, expected_hz: u32) -> (r: Result<
    UartClockSnapshot,
    UartClockSnapshot,
>)
    ensures
        r matches Ok(s) ==> uart_clock_matches(s, expected_hz),
        !(expected_hz == 50_000_000) ==> r is Err,
        ({
            let t0 = old(bus).trace@;
            let t = final(bus).trace@;
            let a = UartClockSnapshot { ctrl: got(t0, t, 0), div_int: got(t0, t, 1), sel: got(t0, t, 2) };
            let b = UartClockSnapshot { ctrl: got(t0, t, 3), div_int: got(t0, t, 4), sel: got(t0, t, 5) };
            &&& t == t0 + uart_clock_reads(a) + uart_clock_reads(b)
            &&& r == (if a == b && uart_clock_matches(b, expected_hz) {
                Ok::<UartClockSnapshot, UartClockSnapshot>(b)
            } else {
                Err(b)
            })
        }),
{
    let ghost t0 = bus.trace@;
    let a = snapshot_uart_clock(bus);
    let b = snapshot_uart_clock(bus);
    assert(bus.trace@ =~= t0 + uart_clock_reads(a) + uart_clock_reads(b));
    adopt_decision(a, b, expected_hz)
}

#[derive(Clone, Copy, Debug, PartialEq, Eq, Structural)]
pub struct SysPllSnapshot {
    pub cs: u32,
    pub pwr: u32,
    pub fb_int: u32,
    pub fb_frac: u32,
    pub prim: u32,
}

/// The one admitted lock tuple: 50 MHz × 20 / (5 × 1), halved by PRI_PH's
/// fixed divider; enabled when the phase enable bit is set.
pub open spec fn apb_state(s: SysPllSnapshot) -> Result<PhysicalState, Error> {
    if s.cs != 0x8000_0001 || s.pwr != 4 || s.fb_int != 20 || s.fb_frac != 0 || s.prim & !0x10u32
        != 0x0005_1000 {
        Err(Error::Hardware)
    } else {
        Ok(PhysicalState { rate_hz: 100_000_000, enabled: s.prim & 0x10 != 0 })
    }
}

impl SysPllSnapshot {
    pub fn known_apb(&self) -> (r: Result<PhysicalState, Error>)
        ensures
            r == apb_state(*self),
    {
        if self.cs != 0x8000_0001 || self.pwr != 4 || self.fb_int != 20 || self.fb_frac != 0
            || self.prim & !0x10u32 != 0x0005_1000 {
            return Err(Error::Hardware);
        }
        Ok(PhysicalState { rate_hz: 100_000_000, enabled: self.prim & 0x10 != 0 })
    }
}

/// The reads of a PLL_SYS snapshot and the values they gave.
pub open spec fn sys_pll_reads(s: SysPllSnapshot) -> Seq<Access> {
    seq![
        rd(0x4002_0000, s.cs),
        rd(0x4002_0004, s.pwr),
        rd(0x4002_0008, s.fb_int),
        rd(0x4002_000c, s.fb_frac),
        rd(0x4002_0010, s.prim),
    ]
}

pub fn sys_pll<B: Mmio>(bus: &mut Bus<B>) -> (r: SysPllSnapshot)
    ensures
        final(bus).trace@ == old(bus).trace@ + sys_pll_reads(r),
{
    let cs = bus.read32(0x4002_0000);
    let pwr = bus.read32(0x4002_0004);
    let fb_int = bus.read32(0x4002_0008);
    let fb_frac = bus.read32(0x4002_000c);
    let prim = bus.read32(0x4002_0010);
    let r = SysPllSnapshot { cs, pwr, fb_int, fb_frac, prim };
    assert(bus.trace@ =~= old(bus).trace@ + sys_pll_reads(r));
    r
}

/// The initial SCMI backend: reads PLL_SYS twice, fails closed on drift,
/// and never writes a gate.
pub struct ReadOnlyUartApb<B: Mmio> {
    pub bus: Bus<B>,
}

impl<B: Mmio> ClockHardware for ReadOnlyUartApb<B> {
    fn read(&mut self, rp1_id: u32) -> (r: Result<PhysicalState, Error>)
        ensures
            rp1_id != 6 ==> r == Err::<PhysicalState, Error>(Error::NotFound),
            r matches Ok(s) ==> s.rate_hz == 100_000_000,
    {
        if rp1_id != 6 {
            return Err(Error::NotFound);
        }
        let a = sys_pll(&mut self.bus);
        let b = sys_pll(&mut self.bus);
        if a != b {
            return Err(Error::Hardware);
        }
        b.known_apb()
    }

    fn enable(&mut self, rp1_id: u32, enabled: bool) -> (r: Result<(), Error>)
        ensures
            r == Err::<(), Error>(Error::Denied),
    {
        Err(Error::Denied)
    }
}

} // verus!
