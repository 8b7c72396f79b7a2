//! The one set of peripheral owners of the firmware.

use vstd::prelude::*;
use crate::gpio::Gpio;
use crate::i2c::I2c1;
use crate::pwm::Pwm0;
use crate::reset::ResetController;
use crate::spi::Spi0;
use crate::timer::RawTimer;
use crate::uart::Uart0;

verus! {

/// The owners of the peripherals; at most one set is ever handed out.
pub struct Peripherals {
    pub gpio: Gpio,
    pub i2c1: I2c1,
    pub pwm0: Pwm0,
    pub raw_timer: RawTimer,
    pub resets: ResetController,
    pub spi0: Spi0,
    pub uart0: Uart0,
}

impl Peripherals {
    /// Hands out the owners once: `taken` is the firmware's single flag,
    /// set by the first call; every later call gets `None`.
    pub fn take(taken: &mut bool) -> (r: Option<Self>)
        ensures
            *final(taken),
            r is Some <==> !*old(taken),
    {
        if *taken {
            return None;
        }
        *taken = true;
        Some(
            Peripherals {
                gpio: Gpio { private: () },
                i2c1: I2c1 { private: () },
                pwm0: Pwm0 { private: () },
                raw_timer: RawTimer { private: () },
                resets: ResetController { bus_owner: () },
                spi0: Spi0 { private: () },
                uart0: Uart0 { private: () },
            },
        )
    }
}

/// The firmware's entry to the peripherals: the first call gets them.
pub fn init(taken: &mut bool) -> (r: Option<Peripherals>)
    ensures
        *final(taken),
        r is Some <==> !*old(taken),
{
    Peripherals::take(taken)
}

} // verus!
