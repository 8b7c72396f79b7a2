//! Routing of the local interrupts through the NVIC: the interrupt numbers,
//! the route snapshots read before an interrupt is armed, and the decisions
//! taken from them (whether the route is clear, what is saved to restore).

use vstd::prelude::*;

verus! {

pub const VECTOR_TABLE_BASE: u32 = 0x2000_0000;

pub const UART0_IRQ_NUMBER: usize = 25;
pub const UART0_VECTOR_INDEX: usize = 41;
pub const UART1_IRQ_NUMBER: usize = 42;
pub const UART1_VECTOR_INDEX: usize = 58;
pub const UART2_IRQ_NUMBER: usize = 43;
pub const UART2_VECTOR_INDEX: usize = 59;
pub const UART3_IRQ_NUMBER: usize = 44;
pub const UART3_VECTOR_INDEX: usize = 60;
pub const UART4_IRQ_NUMBER: usize = 45;
pub const UART4_VECTOR_INDEX: usize = 61;
pub const UART5_IRQ_NUMBER: usize = 46;
pub const UART5_VECTOR_INDEX: usize = 62;
pub const PWM0_IRQ_NUMBER: usize = 5;
pub const PWM0_VECTOR_INDEX: usize = 21;
pub const SPI0_IRQ_NUMBER: usize = 19;
pub const SPI0_VECTOR_INDEX: usize = 35;
pub const I2C1_IRQ_NUMBER: usize = 8;
pub const I2C1_VECTOR_INDEX: usize = 24;
pub const TIMER0_ALARM0_IRQ26_CANDIDATE_NUMBER: usize = 26;
pub const TIMER0_ALARM0_IRQ26_CANDIDATE_VECTOR_INDEX: usize = 42;

/// Bank-0 enable bits (`1 << number`).
pub const UART0_IRQ_BIT: u32 = 0x0200_0000;
pub const PWM0_IRQ_BIT: u32 = 0x0000_0020;
pub const SPI0_IRQ_BIT: u32 = 0x0008_0000;
pub const I2C1_IRQ_BIT: u32 = 0x0000_0100;
pub const TIMER0_ALARM0_IRQ26_CANDIDATE_BIT: u32 = 0x0400_0000;

/// Bank-1 enable bits (`1 << (number - 32)`).
pub const UART1_IRQ_BIT1: u32 = 0x0000_0400;
pub const UART2_IRQ_BIT1: u32 = 0x0000_0800;
pub const UART3_IRQ_BIT1: u32 = 0x0000_1000;
pub const UART4_IRQ_BIT1: u32 = 0x0000_2000;
pub const UART5_IRQ_BIT1: u32 = 0x0000_4000;

/// The packed route word that says the candidate is fully quiet and VTOR
/// points at the image's table.
pub const TIMER0_ALARM0_IRQ26_CANDIDATE_QUIET: u32 = 0x10;

/// A bank-0 route is clear for `bit` when VTOR is the image's table and no
/// other interrupt is enabled in either bank.
pub open spec fn bank0_route_clear(vtor: u32, iser0: u32, iser1: u32, bit: u32) -> bool {
    vtor == VECTOR_TABLE_BASE && iser0 & !bit == 0 && iser1 == 0
}

fn bank0_clear(vtor: u32, iser0: u32, iser1: u32, bit: u32) -> (r: bool)
    ensures
        r == bank0_route_clear(vtor, iser0, iser1, bit),
{
    vtor == VECTOR_TABLE_BASE && iser0 & !bit == 0 && iser1 == 0
}

/// Route snapshot of UART0's interrupt.
#[derive(Clone, Copy, Debug, PartialEq, Eq, Structural)]
pub struct Uart0IrqRouteSnapshot {
    pub vtor: u32,
    pub iser0: u32,
    pub iser1: u32,
    pub primask: u32,
}

impl Uart0IrqRouteSnapshot {
    /// Whether UART0's interrupt may be prepared from this route.
    pub fn route_is_clear(self) -> (r: bool)
        ensures
            r == bank0_route_clear(self.vtor, self.iser0, self.iser1, UART0_IRQ_BIT),
    {
        bank0_clear(self.vtor, self.iser0, self.iser1, UART0_IRQ_BIT)
    }
}

/// Route snapshot of PWM0's interrupt in bank 0.
#[derive(Clone, Copy, Debug, PartialEq, Eq, Structural)]
pub struct Pwm0IrqRouteSnapshot {
    pub vtor: u32,
    pub iser0: u32,
    pub iser1: u32,
    pub ispr0: u32,
    pub iabr0: u32,
    pub primask: u32,
}

impl Pwm0IrqRouteSnapshot {
    /// Whether PWM0's interrupt may be prepared from this route.
    pub fn route_is_clear(self) -> (r: bool)
        ensures
            r == bank0_route_clear(self.vtor, self.iser0, self.iser1, PWM0_IRQ_BIT),
    {
        bank0_clear(self.vtor, self.iser0, self.iser1, PWM0_IRQ_BIT)
    }
}

/// Route snapshot of UART1's interrupt in both NVIC banks.
#[derive(Clone, Copy, Debug, PartialEq, Eq, Structural)]
pub struct Uart1IrqRouteSnapshot {
    pub vtor: u32,
    pub iser0: u32,
    pub iser1: u32,
    pub ispr0: u32,
    pub ispr1: u32,
    pub iabr0: u32,
    pub iabr1: u32,
    pub primask: u32,
}

/// What preparing UART1's interrupt saved: whether it was enabled, and
/// PRIMASK.
#[derive(Clone, Copy, Debug, PartialEq, Eq, Structural)]
pub struct Uart1IrqSaved {
    pub enabled: bool,
    pub primask: u32,
}

impl Uart1IrqRouteSnapshot {
    /// The state to restore after UART1's interrupt has been used, or
    /// `None` when VTOR is not the image's table and nothing may be touched.
    pub fn saved(self) -> (r: Option<Uart1IrqSaved>)
        ensures
            r == (if self.vtor != VECTOR_TABLE_BASE {
                None
            } else {
                Some(Uart1IrqSaved { enabled: self.iser1 & UART1_IRQ_BIT1 != 0, primask: self.primask })
            }),
    {
        if self.vtor != VECTOR_TABLE_BASE {
            return None;
        }
        Some(Uart1IrqSaved { enabled: self.iser1 & UART1_IRQ_BIT1 != 0, primask: self.primask })
    }
}

impl Uart1IrqSaved {
    /// The PRIMASK value written back on restore (its mask bit only).
    pub fn restored_primask(self) -> (r: u32)
        ensures
            r == self.primask & 1,
    {
        self.primask & 1
    }
}

/// Route snapshot of UART2's interrupt in both NVIC banks.
#[derive(Clone, Copy, Debug, PartialEq, Eq, Structural)]
pub struct Uart2IrqRouteSnapshot {
    pub vtor: u32,
    pub iser0: u32,
    pub iser1: u32,
    pub ispr0: u32,
    pub ispr1: u32,
    pub iabr0: u32,
    pub iabr1: u32,
    pub primask: u32,
}

/// What preparing UART2's interrupt saved: whether it was enabled, and
/// PRIMASK.
#[derive(Clone, Copy, Debug, PartialEq, Eq, Structural)]
pub struct Uart2IrqSaved {
    pub enabled: bool,
    pub primask: u32,
}

impl Uart2IrqRouteSnapshot {
    /// The state to restore after UART2's interrupt has been used, or
    /// `None` when VTOR is not the image's table and nothing may be touched.
    pub fn saved(self) -> (r: Option<Uart2IrqSaved>)
        ensures
            r == (if self.vtor != VECTOR_TABLE_BASE {
                None
            } else {
                Some(Uart2IrqSaved { enabled: self.iser1 & UART2_IRQ_BIT1 != 0, primask: self.primask })
            }),
    {
        if self.vtor != VECTOR_TABLE_BASE {
            return None;
        }
        Some(Uart2IrqSaved { enabled: self.iser1 & UART2_IRQ_BIT1 != 0, primask: self.primask })
    }
}

impl Uart2IrqSaved {
    /// The PRIMASK value written back on restore (its mask bit only).
    pub fn restored_primask(self) -> (r: u32)
        ensures
            r == self.primask & 1,
    {
        self.primask & 1
    }
}

/// Route snapshot of UART3's interrupt in both NVIC banks.
#[derive(Clone, Copy, Debug, PartialEq, Eq, Structural)]
pub struct Uart3IrqRouteSnapshot {
    pub vtor: u32,
    pub iser0: u32,
    pub iser1: u32,
    pub ispr0: u32,
    pub ispr1: u32,
    pub iabr0: u32,
    pub iabr1: u32,
    pub primask: u32,
}

/// What preparing UART3's interrupt saved: whether it was enabled, and
/// PRIMASK.
#[derive(Clone, Copy, Debug, PartialEq, Eq, Structural)]
pub struct Uart3IrqSaved {
    pub enabled: bool,
    pub primask: u32,
}

impl Uart3IrqRouteSnapshot {
    /// The state to restore after UART3's interrupt has been used, or
    /// `None` when VTOR is not the image's table and nothing may be touched.
    pub fn saved(self) -> (r: Option<Uart3IrqSaved>)
        ensures
            r == (if self.vtor != VECTOR_TABLE_BASE {
                None
            } else {
                Some(Uart3IrqSaved { enabled: self.iser1 & UART3_IRQ_BIT1 != 0, primask: self.primask })
            }),
    {
        if self.vtor != VECTOR_TABLE_BASE {
            return None;
        }
        Some(Uart3IrqSaved { enabled: self.iser1 & UART3_IRQ_BIT1 != 0, primask: self.primask })
    }
}

impl Uart3IrqSaved {
    /// The PRIMASK value written back on restore (its mask bit only).
    pub fn restored_primask(self) -> (r: u32)
        ensures
            r == self.primask & 1,
    {
        self.primask & 1
    }
}

/// Route snapshot of UART4's interrupt in both NVIC banks.
#[derive(Clone, Copy, Debug, PartialEq, Eq, Structural)]
pub struct Uart4IrqRouteSnapshot {
    pub vtor: u32,
    pub iser0: u32,
    pub iser1: u32,
    pub ispr0: u32,
    pub ispr1: u32,
    pub iabr0: u32,
    pub iabr1: u32,
    pub primask: u32,
}

/// What preparing UART4's interrupt saved: whether it was enabled, and
/// PRIMASK.
#[derive(Clone, Copy, Debug, PartialEq, Eq, Structural)]
pub struct Uart4IrqSaved {
    pub enabled: bool,
    pub primask: u32,
}

impl Uart4IrqRouteSnapshot {
    /// The state to restore after UART4's interrupt has been used, or
    /// `None` when VTOR is not the image's table and nothing may be touched.
    pub fn saved(self) -> (r: Option<Uart4IrqSaved>)
        ensures
            r == (if self.vtor != VECTOR_TABLE_BASE {
                None
            } else {
                Some(Uart4IrqSaved { enabled: self.iser1 & UART4_IRQ_BIT1 != 0, primask: self.primask })
            }),
    {
        if self.vtor != VECTOR_TABLE_BASE {
            return None;
        }
        Some(Uart4IrqSaved { enabled: self.iser1 & UART4_IRQ_BIT1 != 0, primask: self.primask })
    }
}

impl Uart4IrqSaved {
    /// The PRIMASK value written back on restore (its mask bit only).
    pub fn restored_primask(self) -> (r: u32)
        ensures
            r == self.primask & 1,
    {
        self.primask & 1
    }
}

/// Route snapshot of UART5's interrupt in both NVIC banks.
#[derive(Clone, Copy, Debug, PartialEq, Eq, Structural)]
pub struct Uart5IrqRouteSnapshot {
    pub vtor: u32,
    pub iser0: u32,
    pub iser1: u32,
    pub ispr0: u32,
    pub ispr1: u32,
    pub iabr0: u32,
    pub iabr1: u32,
    pub primask: u32,
}

/// What preparing UART5's interrupt saved: whether it was enabled, and
/// PRIMASK.
#[derive(Clone, Copy, Debug, PartialEq, Eq, Structural)]
pub struct Uart5IrqSaved {
    pub enabled: bool,
    pub primask: u32,
}

impl Uart5IrqRouteSnapshot {
    /// The state to restore after UART5's interrupt has been used, or
    /// `None` when VTOR is not the image's table and nothing may be touched.
    pub fn saved(self) -> (r: Option<Uart5IrqSaved>)
        ensures
            r == (if self.vtor != VECTOR_TABLE_BASE {
                None
            } else {
                Some(Uart5IrqSaved { enabled: self.iser1 & UART5_IRQ_BIT1 != 0, primask: self.primask })
            }),
    {
        if self.vtor != VECTOR_TABLE_BASE {
            return None;
        }
        Some(Uart5IrqSaved { enabled: self.iser1 & UART5_IRQ_BIT1 != 0, primask: self.primask })
    }
}

impl Uart5IrqSaved {
    /// The PRIMASK value written back on restore (its mask bit only).
    pub fn restored_primask(self) -> (r: u32)
        ensures
            r == self.primask & 1,
    {
        self.primask & 1
    }
}

/// Route snapshot of SPI0's interrupt in both NVIC banks.
#[derive(Clone, Copy, Debug, PartialEq, Eq, Structural)]
pub struct Spi0IrqRouteSnapshot {
    pub vtor: u32,
    pub iser0: u32,
    pub iser1: u32,
    pub ispr0: u32,
    pub ispr1: u32,
    pub iabr0: u32,
    pub iabr1: u32,
    pub primask: u32,
}

impl Spi0IrqRouteSnapshot {
    /// Whether SPI0's interrupt may be prepared from this route.
    pub fn route_is_clear(self) -> (r: bool)
        ensures
            r == bank0_route_clear(self.vtor, self.iser0, self.iser1, SPI0_IRQ_BIT),
    {
        bank0_clear(self.vtor, self.iser0, self.iser1, SPI0_IRQ_BIT)
    }
}

/// Route snapshot of I2C1's interrupt in both NVIC banks.
#[derive(Clone, Copy, Debug, PartialEq, Eq, Structural)]
pub struct I2c1IrqRouteSnapshot {
    pub vtor: u32,
    pub iser0: u32,
    pub iser1: u32,
    pub ispr0: u32,
    pub ispr1: u32,
    pub iabr0: u32,
    pub iabr1: u32,
    pub primask: u32,
}

impl I2c1IrqRouteSnapshot {
    /// Whether I2C1's interrupt may be prepared from this route.
    pub fn route_is_clear(self) -> (r: bool)
        ensures
            r == bank0_route_clear(self.vtor, self.iser0, self.iser1, I2C1_IRQ_BIT),
    {
        bank0_clear(self.vtor, self.iser0, self.iser1, I2C1_IRQ_BIT)
    }
}

/// The NVIC, PRIMASK and VTOR state around the candidate TIMER0 alarm
/// interrupt.
#[derive(Clone, Copy, Debug, PartialEq, Eq, Structural)]
pub struct Timer0Alarm0Irq26CandidateRouteSnapshot {
    pub vtor: u32,
    pub iser0: u32,
    pub iser1: u32,
    pub ispr0: u32,
    pub iabr0: u32,
    pub primask: u32,
}

pub open spec fn flag(b: bool) -> u32 {
    if b {
        1
    } else {
        0
    }
}

/// The packed route word: the candidate's enable, pending and active bits,
/// PRIMASK, whether VTOR is the image's table, then whether any other
/// interrupt is enabled, pending or active.
pub open spec fn packed_route(s: Timer0Alarm0Irq26CandidateRouteSnapshot) -> u32 {
    let bit = TIMER0_ALARM0_IRQ26_CANDIDATE_BIT;
    flag(s.iser0 & bit != 0) | (flag(s.ispr0 & bit != 0) << 1u32) | (flag(s.iabr0 & bit != 0)
        << 2u32) | ((s.primask & 1) << 3u32) | (flag(s.vtor == VECTOR_TABLE_BASE) << 4u32) | (flag(
        s.iser0 & !bit != 0,
    ) << 8u32) | (flag(s.iser1 != 0) << 9u32) | (flag(s.ispr0 & !bit != 0) << 10u32) | (flag(
        s.iabr0 & !bit != 0,
    ) << 11u32)
}

/// The candidate may be prepared only when VTOR is the image's table, no
/// other interrupt is enabled, pending or active, and PRIMASK is clear.
pub open spec fn candidate_route_clear(s: Timer0Alarm0Irq26CandidateRouteSnapshot) -> bool {
    let bit = TIMER0_ALARM0_IRQ26_CANDIDATE_BIT;
    &&& s.vtor == VECTOR_TABLE_BASE
    &&& s.iser0 & !bit == 0
    &&& s.iser1 == 0
    &&& s.ispr0 & !bit == 0
    &&& s.iabr0 & !bit == 0
    &&& s.primask == 0
}

fn bool_word(b: bool) -> (r: u32)
    ensures
        r == flag(b),
{
    if b {
        1
    } else {
        0
    }
}

impl Timer0Alarm0Irq26CandidateRouteSnapshot {
    pub fn pack(self) -> (r: u32)
        ensures
            r == packed_route(self),
    {
        let bit = TIMER0_ALARM0_IRQ26_CANDIDATE_BIT;
        bool_word(self.iser0 & bit != 0) | (bool_word(self.ispr0 & bit != 0) << 1u32) | (bool_word(
            self.iabr0 & bit != 0,
        ) << 2u32) | ((self.primask & 1) << 3u32) | (bool_word(self.vtor == VECTOR_TABLE_BASE)
            << 4u32) | (bool_word(self.iser0 & !bit != 0) << 8u32) | (bool_word(self.iser1 != 0)
            << 9u32) | (bool_word(self.ispr0 & !bit != 0) << 10u32) | (bool_word(
            self.iabr0 & !bit != 0,
        ) << 11u32)
    }

    /// Whether the candidate may be prepared from this route.
    pub fn route_is_clear(self) -> (r: bool)
        ensures
            r == candidate_route_clear(self),
    {
        let bit = TIMER0_ALARM0_IRQ26_CANDIDATE_BIT;
        self.vtor == VECTOR_TABLE_BASE && self.iser0 & !bit == 0 && self.iser1 == 0 && self.ispr0
            & !bit == 0 && self.iabr0 & !bit == 0 && self.primask == 0
    }

    /// Whether the route read after masking the candidate is fully quiet.
    pub fn is_quiet(self) -> (r: bool)
        ensures
            r == (packed_route(self) == TIMER0_ALARM0_IRQ26_CANDIDATE_QUIET),
    {
        self.pack() == TIMER0_ALARM0_IRQ26_CANDIDATE_QUIET
    }
}

/// A route that is clear packs to the quiet word once the candidate's own
/// enable, pending and active bits are clear.
pub proof fn lemma_clear_masked_route_is_quiet(s: Timer0Alarm0Irq26CandidateRouteSnapshot)
    requires
        candidate_route_clear(s),
        s.iser0 & TIMER0_ALARM0_IRQ26_CANDIDATE_BIT == 0,
        s.ispr0 & TIMER0_ALARM0_IRQ26_CANDIDATE_BIT == 0,
        s.iabr0 & TIMER0_ALARM0_IRQ26_CANDIDATE_BIT == 0,
    ensures
        packed_route(s) == TIMER0_ALARM0_IRQ26_CANDIDATE_QUIET,
{
    let bit = TIMER0_ALARM0_IRQ26_CANDIDATE_BIT;
    let p = s.primask;
    assert(p & 1 == 0 && (0u32 << 3u32) == 0u32) by (bit_vector)
        requires
            p == 0,
    ;
    assert((0u32 | (0u32 << 1u32) | (0u32 << 2u32) | (0u32 << 3u32) | (1u32 << 4u32) | (0u32
        << 8u32) | (0u32 << 9u32) | (0u32 << 10u32) | (0u32 << 11u32)) == 0x10u32) by (bit_vector);
}

} // verus!
