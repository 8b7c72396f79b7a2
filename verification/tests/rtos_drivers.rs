use rp1::i2c1_driver::{
    self as i2c1, Receipt as I2cReceipt, WaitStep as I2cWaitStep,
    IRQ_ENTRY_LIMIT,
};
use rp1::i2c_rx_irq_adapter::I2c1Read1Snapshot;
use rp1::i2c_rx_state::{CleanupEvidence, Error as RxError, RxState, State, STOP_DET};
use rp1::spi::receive::{Spi0RxError, Spi0RxState};
use rp1::spi::Spi0Error;
use rp1::spi0_driver::{self as spi0, recoverable_preparation_error, WaitStep};
use rp1::uart0_rx::{self as uart0, Uart0RxStatus};

fn quiet_i2c() -> I2c1Read1Snapshot {
    I2c1Read1Snapshot {
        enable_status: 0,
        interrupt_mask: 0,
        raw_interrupt_status: 0,
        masked_interrupt_status: 0,
        abort_source: 0,
        rx_level: 0,
        tx_level: 0,
        rx_threshold: 0,
    }
}

#[test]
fn spi_receive_checks_deadline_and_reserves_the_next_generation() {
    let mut driver = spi0::Driver::new();
    assert_eq!(driver.begin(0), Err(spi0::Error::InvalidDeadline));
    assert_eq!(driver.begin(0x8000_0000), Err(spi0::Error::InvalidDeadline));
    assert_eq!(driver.begin(10), Ok(1));
    assert_eq!(driver.generation, 0);
    driver.commit(1);
    assert_eq!(driver.begin(0x7fff_ffff), Ok(2));
    assert_eq!(driver.last_receipt(), None);
}

#[test]
fn spi_wait_steps_in_priority_order() {
    let live = Spi0RxState::Active;
    assert_eq!(spi0::wait_step(3, 3, true, live, None), WaitStep::Stop(spi0::Error::Cancelled));
    assert_eq!(spi0::wait_step(0, 3, true, live, None), WaitStep::Stop(spi0::Error::IrqBudget));
    let failed = Spi0RxState::Failed(Spi0RxError::TransferTimeout);
    assert_eq!(
        spi0::wait_step(0, 3, false, failed, Some(5)),
        WaitStep::Stop(spi0::Error::Receive(Spi0RxError::TransferTimeout))
    );
    assert_eq!(spi0::wait_step(0, 3, false, live, None), WaitStep::Stop(spi0::Error::Timeout));
    assert_eq!(spi0::wait_step(0, 3, false, Spi0RxState::RxComplete, Some(5)), WaitStep::TryFinish);
    assert_eq!(spi0::wait_step(0, 3, false, live, Some(5)), WaitStep::Block(5));
}

#[test]
fn spi_interrupt_budget_and_receipt() {
    assert_eq!(spi0::irq_limit(4), 5);
    assert_eq!(spi0::irq_entry(4, 5), (5, false));
    assert_eq!(spi0::irq_entry(5, 5), (6, true));
    assert_eq!(spi0::irq_entry(u32::MAX, 5), (u32::MAX, true));
    assert!(spi0::irq_is_terminal(false, Spi0RxState::RxComplete));
    assert!(!spi0::irq_is_terminal(false, Spi0RxState::Active));
    assert_eq!(spi0::irq_body_max(10, u32::MAX - 1, 20), 22);
    assert_eq!(spi0::irq_body_max(30, 0, 20), 30);
    let receipt = spi0::receipt(2, 3, 100, 50, 9, Some(70), 60);
    assert_eq!(receipt.elapsed_us, 50u32.wrapping_sub(100));
    assert_eq!(receipt.irq_end_to_task_us, 10);
    assert_eq!(spi0::receipt(2, 3, 0, 0, 0, None, 60).irq_end_to_task_us, 0);
    assert!(recoverable_preparation_error(Spi0RxError::LengthMismatch { tx: 1, rx: 2 }));
    assert!(recoverable_preparation_error(Spi0RxError::Setup(Spi0Error::FifoDepthUnknown)));
    assert!(!recoverable_preparation_error(Spi0RxError::Setup(Spi0Error::DisableTimeout)));
}

#[test]
fn spi_late_cancel_turns_success_into_cancellation() {
    let mut driver = spi0::Driver::new();
    let receipt = spi0::receipt(1, 2, 0, 5, 1, None, 0);
    assert_eq!(driver.conclude(1, Ok(()), 1, receipt), Err(spi0::Error::Cancelled));
    assert_eq!(driver.last_receipt(), Some(receipt));
    assert_eq!(driver.conclude(1, Ok(()), 0, receipt), Ok(receipt));
    assert_eq!(driver.conclude(1, Err(spi0::Error::Timeout), 1, receipt), Err(spi0::Error::Timeout));
}

#[test]
fn uart_exchange_arguments_status_and_result() {
    let mut driver = uart0::Driver::new();
    assert_eq!(driver.begin(0, 10), Err(uart0::Error::InvalidArgument));
    assert_eq!(driver.begin(4, 0), Err(uart0::Error::InvalidArgument));
    assert_eq!(driver.begin(4, 10), Ok(()));
    let quiet = Uart0RxStatus { cr: 0x101, imsc: 0, fr: 0x10, rsr: 0, ris: 0, mis: 0 };
    assert!(uart0::clean(quiet));
    assert!(!uart0::clean(Uart0RxStatus { cr: 0x301, ..quiet }));
    assert!(!uart0::clean(Uart0RxStatus { ris: 0x10, ..quiet }));
    assert!(!uart0::clean(Uart0RxStatus { fr: 0, ..quiet }));

    let mut state = uart0::RxState::new(4, 2);
    assert!(uart0::may_resume(&state, 4));
    assert!(!uart0::may_resume(&state, 3));
    assert!(state.accept(4, 0x41));
    assert!(state.accept(4, 0x42));
    assert!(!uart0::may_resume(&state, 4));
    let receipt = uart0::Receipt { generation: 4, ..uart0::Receipt::default() };
    let mut rx = [0u8; 2];
    let done = driver.conclude(&mut state, Ok(()), 0, &mut rx, 0, 77, receipt).unwrap();
    assert_eq!((done.received, done.irq_entries, done.elapsed_us), (2, 0, 77));
    assert_eq!(rx, [0x41, 0x42]);
    assert_eq!(driver.last_receipt(), Some(done));
    assert_eq!(
        driver.conclude(&mut state, Ok(()), 4, &mut rx, 2, 77, receipt),
        Err(uart0::Error::Cancelled)
    );
    state.accept(4, 0x0443);
    assert_eq!(state.error, Some(uart0::Error::DataError));
    assert_eq!(
        driver.conclude(&mut state, Ok(()), 4, &mut rx, 2, 77, receipt),
        Err(uart0::Error::DataError)
    );
    assert_eq!(rx, [0x41, 0x42]);
}

#[test]
fn uart_conclude_moves_the_queued_bytes_after_those_copied() {
    let mut driver = uart0::Driver::new();
    let mut state = uart0::RxState::new(9, 3);
    assert!(state.accept(9, 0x61));
    assert!(state.accept(9, 0x62));
    assert!(state.accept(9, 0x63));
    let mut rx = [0u8; 3];
    rx[0] = state.ring.pop().unwrap();
    let receipt = uart0::Receipt { generation: 9, ..uart0::Receipt::default() };
    let done = driver.conclude(&mut state, Ok(()), 0, &mut rx, 1, 5, receipt).unwrap();
    assert_eq!(rx, [0x61, 0x62, 0x63]);
    assert_eq!((done.received, done.rsr_errors, done.overflow_bytes), (3, 0, 0));
}

#[test]
fn uart_conclude_takes_the_generation_of_the_receive_state() {
    let mut driver = uart0::Driver::new();
    let mut state = uart0::RxState::new(6, 1);
    assert!(state.accept(6, 0x5a));
    let mut rx = [0u8; 1];
    let done = driver
        .conclude(&mut state, Ok(()), 0, &mut rx, 0, 3, uart0::Receipt::default())
        .unwrap();
    assert_eq!(done.generation, 6);
    assert_eq!(driver.last_receipt().map(|r| r.generation), Some(6));
}

#[test]
fn uart_ring_and_budget_accounting() {
    let mut ring = uart0::Ring::new();
    for byte in 0..64u8 {
        assert!(ring.push(byte));
    }
    assert!(!ring.push(64));
    assert_eq!(ring.pop(), Some(0));
    assert!(ring.push(64));
    assert_eq!(ring.pop(), Some(1));

    let mut state = uart0::RxState::new(1, 1);
    assert!(state.begin_irq(1));
    assert!(!state.begin_irq(2));
    assert!(state.accept(1, 0x10));
    assert!(!state.begin_irq(1));
    assert_eq!(state.error, Some(uart0::Error::IrqBudget));
    assert_eq!(state.outcome(false, Some(1)), Err(uart0::Error::IrqBudget));
    let mut fresh = uart0::RxState::new(2, 3);
    assert_eq!(fresh.outcome(true, Some(1)), Err(uart0::Error::Cancelled));
    assert_eq!(fresh.outcome(false, None), Err(uart0::Error::Timeout));
    assert_eq!(fresh.outcome(false, Some(1)), Ok(false));
    for _ in 0..4 {
        fresh.progress(0);
    }
    assert_eq!(fresh.error, Some(uart0::Error::IrqBudget));
    assert_eq!(uart0::next_generation(7), 8);
}

#[test]
fn i2c_receive_arguments_and_cleanliness() {
    let mut driver = i2c1::Driver::new();
    assert_eq!(driver.begin(0x80, 1, 10), Err(i2c1::Error::InvalidArgument));
    assert_eq!(driver.begin(0x50, 0, 10), Err(i2c1::Error::InvalidArgument));
    assert_eq!(driver.begin(0x50, 1, 0x8000_0000), Err(i2c1::Error::InvalidArgument));
    assert_eq!(driver.begin(0x50, 34, 10), Err(i2c1::Error::InvalidArgument));
    assert_eq!(driver.begin(0x50, 33, 10), Ok(()));
    assert!(i2c1::clean(quiet_i2c()));
    assert!(!i2c1::clean(I2c1Read1Snapshot { rx_level: 1, ..quiet_i2c() }));
    assert!(!i2c1::clean(I2c1Read1Snapshot { raw_interrupt_status: 0x200, ..quiet_i2c() }));
}

#[test]
fn i2c_first_fatal_is_kept_and_outranks_success() {
    let mut receipt = I2cReceipt::default();
    receipt.retain(I2c1Read1Snapshot { raw_interrupt_status: 0x240, ..quiet_i2c() });
    assert_eq!((receipt.first_fatal_causes, receipt.first_abort_source), (0x40, 0));
    receipt.retain(I2c1Read1Snapshot { abort_source: 7, ..quiet_i2c() });
    assert_eq!((receipt.first_fatal_causes, receipt.first_abort_source), (0x40, 0));
    let mut driver = i2c1::Driver::new();
    let (engine, g) = complete_engine(&[0x5a, 0xa5]);
    let mut rx = [0u8; 2];
    assert_eq!(
        driver.conclude(Ok(()), 0, g, &engine, &mut rx, receipt),
        Err(i2c1::Error::Receive(RxError::Fatal { causes: 0x40, abort_source: 0 }))
    );
    assert_eq!(
        driver.conclude(Err(i2c1::Error::Timeout), 0, g, &engine, &mut rx, receipt),
        Err(i2c1::Error::Timeout)
    );
    let plain = I2cReceipt::default();
    assert_eq!(driver.conclude(Ok(()), g, g, &engine, &mut rx, plain), Err(i2c1::Error::Cancelled));
    let done = driver.conclude(Ok(()), 0, g, &engine, &mut rx, plain).unwrap();
    assert_eq!(done, I2cReceipt { received: 2, ..plain });
    assert_eq!(rx, [0x5a, 0xa5]);
    assert_eq!(driver.last_receipt(), Some(done));
}

fn complete_engine(bytes: &[u8]) -> (RxState, u32) {
    let mut s = RxState::new(4, 4).unwrap();
    s.record_cleanup(0, i2c_clean_evidence()).unwrap();
    let g = s.arm_read(bytes.len()).unwrap();
    for &byte in bytes {
        let command = s.prepare_read(g, 0).unwrap().unwrap();
        s.record_issued(command).unwrap();
        let permit = s.prepare_pop(g, 1).unwrap().unwrap();
        s.record_pop(permit, Some(byte)).unwrap();
    }
    assert_eq!(s.observe(g, STOP_DET, 0), Ok(State::Complete));
    (s, g)
}

fn i2c_clean_evidence() -> CleanupEvidence {
    CleanupEvidence {
        enable_status: 0,
        interrupt_mask: 0,
        rx_level: 0,
        tx_level: 0,
        raw_status: 0,
        masked_status: 0,
        abort_source: 0,
        owned_irq_enabled: false,
        owned_irq_pending: false,
        owned_irq_active: false,
        irq_count_before: 0,
        irq_count_after: 0,
        quiet_conditions_held: true,
        quiet_elapsed_ticks: 4_000,
        quiet_required_ticks: 4_000,
    }
}

#[test]
fn i2c_quiet_sample_decides_the_end_of_cleanup() {
    assert_eq!(i2c1::quiet_sample(100, 100, 3_000, 0), (2_900, None));
    assert_eq!(i2c1::quiet_sample(100, 3_000, 4_100, 2_900), (2_900, Some(true)));
    assert_eq!(i2c1::quiet_sample(0, 5_000, 21_000, 100), (16_000, Some(false)));
    assert_eq!(i2c1::quiet_sample(0, 0, 12_000, 0), (12_000, Some(false)));
    assert_eq!(i2c1::quiet_sample(u32::MAX, u32::MAX, 3_999, 0), (4_000, Some(true)));
}

#[test]
fn i2c_wait_steps_and_interrupt_budget() {
    assert_eq!(
        i2c1::wait_step(Some(RxError::Adapter), true, State::Failed(RxError::Adapter), 0, 1, Some(3)),
        I2cWaitStep::Stop(i2c1::Error::IrqBudget)
    );
    assert_eq!(
        i2c1::wait_step(Some(RxError::Timeout), false, State::TimedOut, 0, 1, Some(3)),
        I2cWaitStep::Stop(i2c1::Error::Receive(RxError::Timeout))
    );
    assert_eq!(i2c1::wait_step(None, false, State::Complete, 1, 1, None), I2cWaitStep::Complete);
    assert_eq!(i2c1::wait_step(None, false, State::Active, 1, 1, None), I2cWaitStep::Cancel);
    assert_eq!(i2c1::wait_step(None, false, State::Active, 0, 1, None), I2cWaitStep::Expired);
    assert_eq!(i2c1::wait_step(None, false, State::Active, 0, 1, Some(9)), I2cWaitStep::Block(9));
    assert_eq!(IRQ_ENTRY_LIMIT, 140);
    assert_eq!(i2c1::irq_entry(139, State::Active), (140, false));
    assert_eq!(i2c1::irq_entry(140, State::Active), (141, true));
    assert_eq!(i2c1::irq_entry(0, State::Complete), (1, true));
    assert_eq!(i2c1::progress(3, false, State::Active), (4, true));
    assert_eq!(i2c1::progress(3, true, State::Active), (0, false));
}

#[test]
fn uart0_cleanup_timing_bounds() {
    assert!(uart0::cleanup_in_time(100, 100, 100));
    assert!(uart0::cleanup_in_time(0, 10_000, 19_999));
    assert!(!uart0::cleanup_in_time(0, 10_000, 20_000));
    assert!(!uart0::cleanup_in_time(0, 0, 10_000));
    // The raw timer wraps.
    assert!(uart0::cleanup_in_time(u32::MAX - 5, u32::MAX - 5, 100));
}

#[test]
fn uart0_quiet_interval_restarts_on_activity() {
    assert_eq!(uart0::quiet_after(0, 3_999, false), (0, false));
    assert_eq!(uart0::quiet_after(0, 4_000, false), (0, true));
    assert_eq!(uart0::quiet_after(0, 9_000, true), (9_000, false));
    assert_eq!(uart0::quiet_after(u32::MAX - 999, 3_000, false), (u32::MAX - 999, true));
}

#[test]
fn uart0_residual_before_arming_is_unexpected_data() {
    let mut state = uart0::RxState::new(3, 4);
    state.record_residual(0x41, true);
    assert_eq!(state.error, Some(uart0::Error::UnexpectedData));
    assert_eq!(state.received, 1);
    assert_eq!(state.ring.pop(), Some(0x41));

    let mut state = uart0::RxState::new(3, 4);
    state.record_residual(0x41, false);
    assert_eq!(state.error, None);

    // A framing error in the drained word still outranks.
    let mut state = uart0::RxState::new(3, 4);
    state.record_residual(0x141, true);
    assert_eq!(state.error, Some(uart0::Error::DataError));
}
