//! GPIO pins 0..31 through SYS_RIO. The register addresses are computed
//! here and inputs are read; configuring a pin and driving an output are
//! skeletons that write nothing until RP1's GPIO offsets are confirmed.

use vstd::prelude::*;
use crate::bus::{got, rd, Bus, Mmio};

verus! {

pub const PROC_MISC: usize = 0x4001_7004;
pub const IO_BANK0_BASE: usize = 0x400d_0000;
pub const PADS_BANK0_BASE: usize = 0x400f_0000;
pub const SYS_RIO_OUT: usize = 0x400e_0000;
pub const SYS_RIO_OE: usize = 0x400e_0004;
pub const SYS_RIO_IN: usize = 0x400e_0008;

pub const PROC_MISC_RESET_CLEAR: u32 = 1 << 19;
pub const FUNCSEL_SYS_RIO: u32 = 0x85;
pub const PAD_G33_OUTPUT: u32 = 0x56;
pub const PAD_SCHMITT: u32 = 1 << 1;
pub const PAD_PULL_MASK: u32 = 0b11 << 2;
pub const PAD_PULL_UP: u32 = 0b10 << 2;
pub const PAD_IE: u32 = 1 << 6;
pub const PAD_OD: u32 = 1 << 7;

pub struct Gpio {
    pub private: (),
}

pub struct Pin<const N: u8> {
    pub private: (),
}

pub struct Input;

pub struct Output;

pub struct Function<const F: u8>;

pub struct ConfiguredPin<const N: u8, Mode> {
    pub mode: Mode,
}

pub open spec fn ctrl_addr(n: u8) -> usize {
    (IO_BANK0_BASE + 4 + n * 8) as usize
}

pub open spec fn pad_addr(n: u8) -> usize {
    (PADS_BANK0_BASE + 4 + n * 4) as usize
}

/// The control register of pin `n`.
pub fn gpio_ctrl_addr(n: u8) -> (r: usize)
    ensures
        r == IO_BANK0_BASE + 4 + n * 8,
        r == ctrl_addr(n),
{
    IO_BANK0_BASE + 0x04 + (n as usize) * 8
}

/// The pad register of pin `n`.
pub fn gpio_pad_addr(n: u8) -> (r: usize)
    ensures
        r == PADS_BANK0_BASE + 4 + n * 4,
        r == pad_addr(n),
{
    PADS_BANK0_BASE + 0x04 + (n as usize) * 4
}

/// The SYS_RIO bit of pin `n`.
pub fn gpio_bit(n: u8) -> (r: u32)
    requires
        n < 32,
    ensures
        r == 1u32 << n,
{
    1u32 << n
}

impl Gpio {
    pub fn pin<const N: u8>(&mut self) -> (r: Pin<N>) {
        Pin { private: () }
    }
}

/// Pin configuration is a skeleton: the register offsets of RP1's GPIO
/// block are not yet confirmed, so configuring a pin only changes its type
/// and no register is written.
impl<const N: u8> Pin<N> {
    pub fn into_input(self) -> (r: ConfiguredPin<N, Input>) {
        ConfiguredPin { mode: Input }
    }

    pub fn into_input_pull_up(self) -> (r: ConfiguredPin<N, Input>) {
        ConfiguredPin { mode: Input }
    }

    pub fn into_output(self) -> (r: ConfiguredPin<N, Output>) {
        ConfiguredPin { mode: Output }
    }

    pub fn into_function<const F: u8>(self) -> (r: ConfiguredPin<N, Function<F>>) {
        ConfiguredPin { mode: Function }
    }
}

impl<const N: u8> ConfiguredPin<N, Input> {
    /// Reads SYS_RIO_IN once: whether the pin's bit is set.
    pub fn is_high<B: Mmio>(&self, bus: &mut Bus<B>) -> (r: bool)
        requires
            N < 32,
        ensures
            final(bus).trace@ == old(bus).trace@.push(
                rd(SYS_RIO_IN, got(old(bus).trace@, final(bus).trace@, 0)),
            ),
            r == (got(old(bus).trace@, final(bus).trace@, 0) & (1u32 << N) != 0),
    {
        let v = bus.read32(SYS_RIO_IN);
        v & gpio_bit(N) != 0
    }

    /// Reads SYS_RIO_IN once: whether the pin's bit is clear.
    pub fn is_low<B: Mmio>(&self, bus: &mut Bus<B>) -> (r: bool)
        requires
            N < 32,
        ensures
            final(bus).trace@ == old(bus).trace@.push(
                rd(SYS_RIO_IN, got(old(bus).trace@, final(bus).trace@, 0)),
            ),
            r == (got(old(bus).trace@, final(bus).trace@, 0) & (1u32 << N) == 0),
    {
        !self.is_high(bus)
    }
}

/// The output methods are skeletons too: they leave the pin as it is and
/// write no register.
impl<const N: u8> ConfiguredPin<N, Output> {
    pub fn set_high(&mut self)
        ensures
            *final(self) == *old(self),
    {
    }

    pub fn set_low(&mut self)
        ensures
            *final(self) == *old(self),
    {
    }

    pub fn toggle(&mut self)
        ensures
            *final(self) == *old(self),
    {
    }
}

} // verus!
