use rp1::uart::{
    gpio_ctrl_addr, gpio_pad_addr, uart0_ctrl_value, uart0_rx_pad_value, uart0_tx_pad_value,
    CLK_UART_CTRL, CLK_UART_CTRL_ENABLE, CLK_UART_CTRL_XOSC, CLK_UART_DIV_INT, CLOCKS_MAIN_BASE,
    GPIO_CTRL_FUNCSEL_MASK, GPIO_CTRL_FUNCSEL_UART0, GPIO_CTRL_OVERRIDE_MASK, PAD_IE, PAD_OD,
    PAD_PULL_MASK, PAD_PULL_UP, PAD_RX_MASK, PAD_SCHMITT, UART0_FBRD_115200_50MHZ,
    UART0_IBRD_115200_50MHZ, UART_CR_ENABLE_MASK, UART_FR_BUSY, UART_ICR, UART_IMSC,
    UART_LCRH_BRK, UART_RSR_ECR,
};

#[test]
fn uart0_gpio_addresses_match_direct_uart_test() {
    assert_eq!(gpio_ctrl_addr(14), 0x400d_0074);
    assert_eq!(gpio_ctrl_addr(15), 0x400d_007c);
    assert_eq!(gpio_pad_addr(14), 0x400f_003c);
    assert_eq!(gpio_pad_addr(15), 0x400f_0040);
}

#[test]
fn uart0_pinmux_matches_rpi_boot_rmw_discipline() {
    let preserved = 0xa5a4_0be0;
    let control = uart0_ctrl_value(preserved | GPIO_CTRL_OVERRIDE_MASK | 0x1f);
    assert_eq!(control & GPIO_CTRL_FUNCSEL_MASK, GPIO_CTRL_FUNCSEL_UART0);
    assert_eq!(control & GPIO_CTRL_OVERRIDE_MASK, 0);
    assert_eq!(control & !(GPIO_CTRL_FUNCSEL_MASK | GPIO_CTRL_OVERRIDE_MASK), preserved);

    let tx_pad = uart0_tx_pad_value(0xffff_ffff);
    assert_eq!(tx_pad & (PAD_PULL_MASK | PAD_OD), 0);
    assert_eq!(tx_pad & !(PAD_PULL_MASK | PAD_OD), !(PAD_PULL_MASK | PAD_OD));

    let rx_pad = uart0_rx_pad_value(0xffff_ffff);
    assert_eq!(rx_pad & PAD_IE, PAD_IE);
    assert_eq!(rx_pad & PAD_SCHMITT, PAD_SCHMITT);
    assert_eq!(rx_pad & PAD_PULL_MASK, PAD_PULL_UP);
    assert_eq!(rx_pad & !PAD_RX_MASK, !PAD_RX_MASK);
}

#[test]
fn uart0_clock_registers_match_bootmain_sequence() {
    assert_eq!(CLOCKS_MAIN_BASE + CLK_UART_CTRL, 0x4001_8054);
    assert_eq!(CLOCKS_MAIN_BASE + CLK_UART_DIV_INT, 0x4001_8058);
    assert_eq!(CLK_UART_CTRL_XOSC, 0x40);
    assert_eq!(CLK_UART_CTRL_XOSC | CLK_UART_CTRL_ENABLE, 0x840);
}

#[test]
fn uart0_baud_divisors_match_50mhz_115200_contract() {
    assert_eq!(UART0_IBRD_115200_50MHZ, 27);
    assert_eq!(UART0_FBRD_115200_50MHZ, 8);
}

#[test]
fn uart0_reinitialization_registers_match_pl011() {
    assert_eq!(UART_RSR_ECR, 0x04);
    assert_eq!(UART_IMSC, 0x38);
    assert_eq!(UART_ICR, 0x44);
    assert_eq!(UART_FR_BUSY, 1 << 3);
    assert_eq!(UART_LCRH_BRK, 1);
    assert_eq!(UART_CR_ENABLE_MASK, 0x301);
}

/// UART0 with a receive FIFO of data words: FR shows RXFE when it is
/// empty, DR pops it, MIS is fixed, every other register is memory.
struct RxUart {
    fifo: std::collections::VecDeque<u32>,
    mis: u32,
    words: std::collections::HashMap<usize, u32>,
}

impl rp1::bus::Mmio for RxUart {
    fn read32(&mut self, addr: usize) -> u32 {
        let base = rp1::uart::UART0_BASE;
        if addr == base + rp1::uart::UART_FR {
            if self.fifo.is_empty() { rp1::uart::UART_FR_RXFE } else { 0 }
        } else if addr == base + rp1::uart::UART_DR {
            self.fifo.pop_front().unwrap_or(0)
        } else if addr == base + rp1::uart::UART_MIS {
            self.mis
        } else {
            *self.words.get(&addr).unwrap_or(&0)
        }
    }
    fn write32(&mut self, addr: usize, value: u32) {
        self.words.insert(addr, value);
    }
}

fn armed_uart(expected: usize, fifo: &[u32], mis: u32) -> (rp1::uart::Uart0Tx, rp1::bus::Bus<RxUart>) {
    let zero = rp1::uart::Uart0Snapshot { rsr: 0, fr: 0, ibrd: 0, fbrd: 0, lcr_h: 0, cr: 0, imsc: 0 };
    let irq = rp1::uart::Uart0IrqState {
        decision: 0,
        expected_len: 0,
        byte_count: 0,
        irq_count: 0,
        ipsr: 0,
        first_ris: 0,
        first_mis: 0,
        final_ris: 0,
        final_mis: 0,
        rsr: 0,
        payload: [0; 32],
    };
    let mut tx = rp1::uart::Uart0Tx {
        first_byte_pending: false,
        first_buffer_pending: false,
        snapshots: [zero; 11],
        irq,
    };
    let mut words = std::collections::HashMap::new();
    words.insert(rp1::uart::UART0_BASE + rp1::uart::UART_CR, 0x301);
    let mut bus = rp1::bus::Bus::new(RxUart { fifo: Default::default(), mis: 0, words });
    assert!(tx.enable_rx_interrupt(&mut bus, expected));
    bus.io.fifo = fifo.iter().copied().collect();
    bus.io.mis = mis;
    (tx, bus)
}

#[test]
fn rx_interrupt_completes_with_the_payload_and_masks() {
    let (mut tx, mut bus) = armed_uart(3, &[0x41, 0x42, 0x43], 0x10);
    tx.service_rx_interrupt(&mut bus, 0x20);
    assert_eq!(tx.irq.decision, rp1::uart::UART0_IRQ_DECISION_COMPLETE);
    assert_eq!(tx.irq.byte_count, 3);
    assert_eq!(&tx.irq.payload[..3], &[0x41, 0x42, 0x43]);
    assert_eq!((tx.irq.irq_count, tx.irq.ipsr, tx.irq.first_mis), (1, 0x20, 0x10));
    assert_eq!(bus.io.words[&(rp1::uart::UART0_BASE + UART_IMSC)] & 0x50, 0);
}

#[test]
fn rx_interrupt_decides_error_overflow_and_spurious() {
    let (mut tx, mut bus) = armed_uart(3, &[0x41, 0x0442], 0x40);
    tx.service_rx_interrupt(&mut bus, 0);
    assert_eq!(tx.irq.decision, rp1::uart::UART0_IRQ_DECISION_DATA_ERROR);
    assert_eq!((tx.irq.rsr, tx.irq.byte_count, tx.irq.payload[0]), (4, 1, 0x41));

    let (mut tx, mut bus) = armed_uart(1, &[0x41, 0x42], 0x10);
    tx.service_rx_interrupt(&mut bus, 0);
    assert_eq!(tx.irq.decision, rp1::uart::UART0_IRQ_DECISION_OVERFLOW);
    assert_eq!((tx.irq.byte_count, tx.irq.payload[0]), (1, 0x41));

    let (mut tx, mut bus) = armed_uart(2, &[0x41], 0);
    tx.service_rx_interrupt(&mut bus, 0);
    assert_eq!(tx.irq.decision, rp1::uart::UART0_IRQ_DECISION_SPURIOUS);
    assert_eq!(tx.irq.byte_count, 0);
    assert_eq!(bus.io.fifo.len(), 1);

    let (mut tx, mut bus) = armed_uart(3, &[0x41], 0x10);
    tx.service_rx_interrupt(&mut bus, 0);
    assert_eq!(tx.irq.decision, rp1::uart::UART0_IRQ_DECISION_PENDING);
    assert_eq!(tx.irq.byte_count, 1);
    assert_eq!(bus.io.words[&(rp1::uart::UART0_BASE + UART_IMSC)], 0x50);
}
