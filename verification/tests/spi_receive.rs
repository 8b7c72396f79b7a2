use rp1::addr::SPI0_BASE;
use rp1::bus::{Bus, Mmio};
use rp1::spi::receive::{
    RxBuffer, Spi0RxError, Spi0RxState, IRQ_ERRORS, IRQ_RXFI, IRQ_RXOI, IRQ_RXUI, IRQ_TXOI,
};
use rp1::spi::{Spi0Error, DR, IRQ_TXEI};

/// A bus on which only the data register may be read; each read pops the
/// next word from `pop`.
struct DataRegister<F: FnMut() -> u32>(F);

impl<F: FnMut() -> u32> Mmio for DataRegister<F> {
    fn read32(&mut self, addr: usize) -> u32 {
        assert_eq!(addr, SPI0_BASE + DR);
        (self.0)()
    }
    fn write32(&mut self, _: usize, _: u32) {
        panic!("receive service must not write")
    }
}

#[test]
fn validates_before_any_hardware_action() {
    assert!(matches!(
        RxBuffer::new(Vec::new(), 0, 4),
        Err(Spi0RxError::Setup(Spi0Error::EmptyPayload))
    ));
    assert!(matches!(
        RxBuffer::new(vec![0; 5], 4, 8),
        Err(Spi0RxError::LengthMismatch { tx: 4, rx: 5 })
    ));
    assert!(matches!(
        RxBuffer::new(vec![0; 5], 5, 4),
        Err(Spi0RxError::Setup(Spi0Error::PayloadTooLong { .. }))
    ));
    for depth in [0, 257] {
        assert!(matches!(
            RxBuffer::new(vec![0; 5], 5, depth),
            Err(Spi0RxError::Setup(Spi0Error::FifoDepthUnknown))
        ));
    }
}

#[test]
fn drains_real_payload_in_partial_fifo_batches_then_ignores_replay() {
    let mut rx = RxBuffer::new(vec![0; 5], 5, 8).unwrap();
    rx.service(IRQ_RXFI, 1, &mut Bus::new(DataRegister(|| panic!("not started"))));
    rx.start().unwrap();
    assert_eq!(rx.start(), Err(Spi0RxError::NotPrepared));
    rx.service(0, 3, &mut Bus::new(DataRegister(|| panic!("spurious IRQ must not read DR"))));
    let mut payload = [0xa5u32, 0x00, 0xff, 0x42, 0x19].into_iter();
    rx.service(IRQ_RXFI, 2, &mut Bus::new(DataRegister(|| payload.next().unwrap())));
    assert_eq!(rx.state, Spi0RxState::Active);
    assert_eq!(rx.received, 2);
    rx.service(IRQ_RXFI, 3, &mut Bus::new(DataRegister(|| payload.next().unwrap())));
    assert_eq!(rx.data, &[0xa5, 0x00, 0xff, 0x42, 0x19]);
    assert_eq!(rx.state, Spi0RxState::RxComplete);
    assert_eq!(rx.finish_error(), None);
    rx.service(IRQ_RXFI, 1, &mut Bus::new(DataRegister(|| panic!("terminal replay must not read DR"))));
    assert_eq!(rx.state, Spi0RxState::RxComplete);
}

#[test]
fn single_byte_and_full_fifo_boundaries() {
    for len in [1usize, 256] {
        let mut rx = RxBuffer::new(vec![0; len], len, 256).unwrap();
        rx.start().unwrap();
        let mut reads = 0u32;
        rx.service(
            IRQ_RXFI,
            len as u32,
            &mut Bus::new(DataRegister(|| {
                reads += 1;
                reads
            })),
        );
        assert_eq!(reads as usize, len);
        assert_eq!(rx.received, len);
        assert_eq!(rx.data[len - 1], len as u8);
        assert_eq!(rx.state, Spi0RxState::RxComplete);
    }
}

#[test]
fn invalid_levels_never_read_or_overwrite_buffer() {
    for level in [0, 5, 9, u32::MAX] {
        let mut rx = RxBuffer::new(vec![0x55; 4], 4, 8).unwrap();
        rx.start().unwrap();
        rx.service(IRQ_RXFI, level, &mut Bus::new(DataRegister(|| panic!("invalid level"))));
        assert_eq!(
            rx.state,
            Spi0RxState::Failed(Spi0RxError::InvalidFifoLevel { level, remaining: 4 })
        );
        assert_eq!(rx.data, &[0x55; 4]);
        rx.service(IRQ_RXFI, 1, &mut Bus::new(DataRegister(|| panic!("failed transfer replay"))));
        assert_eq!(rx.received, 0);
    }
}

#[test]
fn faults_win_over_rx_and_keep_completed_prefix() {
    for fault in [IRQ_TXOI, IRQ_RXUI, IRQ_RXOI, IRQ_ERRORS] {
        let mut rx = RxBuffer::new(vec![0; 2], 2, 8).unwrap();
        rx.start().unwrap();
        rx.service(IRQ_RXFI, 1, &mut Bus::new(DataRegister(|| 0x42)));
        rx.service(IRQ_RXFI | fault, 1, &mut Bus::new(DataRegister(|| panic!("fault must prevent DR read"))));
        assert_eq!(rx.finish_error(), Some(Spi0RxError::InterruptFault(fault)));
        assert_eq!(rx.received, 1);
        assert_eq!(rx.data, &[0x42, 0]);
    }
}

#[test]
fn unexpected_sources_and_partial_completion_fail_closed() {
    let mut rx = RxBuffer::new(vec![0; 2], 2, 8).unwrap();
    rx.start().unwrap();
    rx.service(IRQ_RXFI, 1, &mut Bus::new(DataRegister(|| 0x13)));
    assert_eq!(rx.finish_error(), Some(Spi0RxError::Incomplete { received: 1, expected: 2 }));
    rx.service(IRQ_TXEI, 0, &mut Bus::new(DataRegister(|| panic!("unexpected source"))));
    assert_eq!(rx.state, Spi0RxState::Failed(Spi0RxError::UnexpectedSource(IRQ_TXEI)));
}

#[test]
fn rearm_uses_new_state_not_stale_count_or_fault() {
    {
        let mut rx = RxBuffer::new(vec![0; 1], 1, 8).unwrap();
        rx.start().unwrap();
        rx.fail(Spi0RxError::Cancelled);
        rx.service(IRQ_RXFI, 1, &mut Bus::new(DataRegister(|| panic!("cancelled"))));
    }
    let mut rx = RxBuffer::new(vec![0; 1], 1, 8).unwrap();
    assert_eq!(rx.received, 0);
    rx.start().unwrap();
    rx.service(IRQ_RXFI, 1, &mut Bus::new(DataRegister(|| 0x99)));
    assert_eq!(rx.data, &[0x99]);
    assert_eq!(rx.state, Spi0RxState::RxComplete);
}

#[test]
fn only_the_low_byte_of_each_word_is_kept() {
    let mut rx = RxBuffer::new(vec![0; 2], 2, 8).unwrap();
    rx.start().unwrap();
    let mut words = [0x1234u32, 0xffff_ff01].into_iter();
    rx.service(IRQ_RXFI, 2, &mut Bus::new(DataRegister(|| words.next().unwrap())));
    assert_eq!(rx.received(), &[0x34, 0x01]);
    assert_eq!(rx.finish_error(), None);
}
