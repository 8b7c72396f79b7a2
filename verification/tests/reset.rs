use rp1::bus::{Bus, Mmio};
use rp1::reset::{
    proc1, DeassertOnlyReset, ResetController, ResetError, ResetSpec, ResetState, UartReset,
    RESET_CLEAR, RESET_CTRL, RESET_DONE, RESET_SET,
};

/// Bank 1 of the reset block: a write to RESET_CLEAR clears control bits,
/// and DONE shows PWM0's bit from read number `done_after + 1` on.
struct ResetBank {
    ctrl: u32,
    done_after: Option<u32>,
    done_reads: u32,
    writes: Vec<(usize, u32)>,
}

impl Mmio for ResetBank {
    fn read32(&mut self, addr: usize) -> u32 {
        if addr == RESET_CTRL[1] {
            self.ctrl
        } else if addr == RESET_DONE[1] {
            self.done_reads += 1;
            match self.done_after {
                Some(n) if self.done_reads > n => 1 << 4,
                _ => 0,
            }
        } else {
            0
        }
    }
    fn write32(&mut self, addr: usize, value: u32) {
        self.writes.push((addr, value));
        if addr == RESET_CLEAR[1] {
            self.ctrl &= !value;
        }
    }
}

#[test]
fn release_writes_the_bit_to_clear_once_and_polls_done() {
    let mut controller = ResetController { bus_owner: () };
    let mut bus = Bus::new(ResetBank { ctrl: 1 << 4, done_after: Some(2), done_reads: 0, writes: vec![] });
    assert_eq!(
        controller.deassert_preconditions_met(&mut bus, DeassertOnlyReset::Pwm0, 3),
        Ok(ResetState { asserted: false, done: true })
    );
    assert_eq!(bus.io.writes, vec![(RESET_CLEAR[1], 1 << 4)]);
    assert_eq!(bus.io.done_reads, 3);
}

#[test]
fn release_times_out_after_the_poll_limit() {
    let mut controller = ResetController { bus_owner: () };
    let mut bus = Bus::new(ResetBank { ctrl: 1 << 4, done_after: None, done_reads: 0, writes: vec![] });
    assert_eq!(
        controller.deassert_preconditions_met(&mut bus, DeassertOnlyReset::Pwm0, 2),
        Err(ResetError::Timeout(ResetState { asserted: false, done: false }))
    );
    assert_eq!(bus.io.writes, vec![(RESET_CLEAR[1], 1 << 4)]);
    assert_eq!(bus.io.done_reads, 5);
}

#[test]
fn release_of_a_line_not_held_writes_nothing() {
    let mut controller = ResetController { bus_owner: () };
    let mut bus = Bus::new(ResetBank { ctrl: 0, done_after: Some(0), done_reads: 0, writes: vec![] });
    assert_eq!(
        controller.deassert_preconditions_met(&mut bus, DeassertOnlyReset::Pwm0, 2),
        Err(ResetError::PreconditionMismatch(ResetState { asserted: false, done: true }))
    );
    assert!(bus.io.writes.is_empty());
}

#[test]
fn reset_allowlist_matches_hardware_evidence() {
    let release_only = [
        (DeassertOnlyReset::PllSys, 0, 29),
        (DeassertOnlyReset::Pwm0, 1, 4),
        (DeassertOnlyReset::I2c1, 0, 8),
        (DeassertOnlyReset::Spi0, 1, 10),
    ];
    for (target, bank, bit) in release_only {
        assert_eq!(target.spec(), ResetSpec { bank, bit });
    }

    let uarts = [
        UartReset::Uart0,
        UartReset::Uart1,
        UartReset::Uart2,
        UartReset::Uart3,
        UartReset::Uart4,
        UartReset::Uart5,
    ];
    for (index, target) in uarts.into_iter().enumerate() {
        assert_eq!(target.spec(), ResetSpec { bank: 1, bit: 26 + index as u8 });
    }

    assert_eq!(proc1(), ResetSpec { bank: 0, bit: 31 });
    assert_eq!(RESET_CTRL, [0x4001_4000, 0x4001_4004]);
    assert_eq!(RESET_SET, [0x4001_6000, 0x4001_6004]);
    assert_eq!(RESET_CLEAR, [0x4001_7000, 0x4001_7004]);
    assert_eq!(RESET_DONE, [0x4001_4018, 0x4001_401c]);
}
