//! UART0 (PL011) at 115200 baud from the 50 MHz XOSC clock, with polled
//! transmit and receive and a bounded interrupt-driven receive.

use vstd::prelude::*;
use crate::bus::{
    got, lemma_polls_keep_prefix, mask_is, poll_mask, polls, rd, wr, writes_of, Access, Bus, Mmio,
};
use crate::gpio::{ctrl_addr, pad_addr};

verus! {

pub const IO_BANK0_BASE: usize = 0x400d_0000;
pub const PADS_BANK0_BASE: usize = 0x400f_0000;
pub const CLOCKS_MAIN_BASE: usize = 0x4001_8000;
pub const UART0_BASE: usize = 0x4003_0000;

pub const CLK_UART_CTRL: usize = 0x54;
pub const CLK_UART_DIV_INT: usize = 0x58;
pub const CLK_UART_CTRL_XOSC: u32 = 2 << 5;
pub const CLK_UART_CTRL_ENABLE: u32 = 1 << 11;

pub const UART_DR: usize = 0x00;
pub const UART_RSR_ECR: usize = 0x04;
pub const UART_FR: usize = 0x18;
pub const UART_IBRD: usize = 0x24;
pub const UART_FBRD: usize = 0x28;
pub const UART_LCRH: usize = 0x2c;
pub const UART_CR: usize = 0x30;
pub const UART_IFLS: usize = 0x34;
pub const UART_IMSC: usize = 0x38;
pub const UART_RIS: usize = 0x3c;
pub const UART_MIS: usize = 0x40;
pub const UART_ICR: usize = 0x44;

pub const UART_FR_BUSY: u32 = 1 << 3;
pub const UART_FR_RXFE: u32 = 1 << 4;
pub const UART_FR_TXFF: u32 = 1 << 5;
pub const UART_DR_DATA_MASK: u32 = 0xff;
pub const UART_DR_ERROR_MASK: u32 = 0x0f00;
pub const UART_CR_UARTEN: u32 = 1 << 0;
pub const UART_CR_TXE: u32 = 1 << 8;
pub const UART_CR_RXE: u32 = 1 << 9;
pub const UART_LCRH_FEN: u32 = 1 << 4;
pub const UART_LCRH_WLEN_8: u32 = 3 << 5;
pub const UART_LCRH_BRK: u32 = 1 << 0;
pub const UART_CR_ENABLE_MASK: u32 = UART_CR_UARTEN | UART_CR_TXE | UART_CR_RXE;
pub const UART_INT_RX: u32 = 1 << 4;
pub const UART_INT_RT: u32 = 1 << 6;
pub const UART_INT_RX_MASK: u32 = UART_INT_RX | UART_INT_RT;
pub const UART0_IRQ_PAYLOAD_MAX: usize = 32;
pub const UART0_IRQ_ENTRY_MAX: u32 = 32;

pub const UART0_IRQ_DECISION_PENDING: u32 = 0;
pub const UART0_IRQ_DECISION_COMPLETE: u32 = 1;
pub const UART0_IRQ_DECISION_DATA_ERROR: u32 = 2;
pub const UART0_IRQ_DECISION_OVERFLOW: u32 = 3;
pub const UART0_IRQ_DECISION_SPURIOUS: u32 = 4;
pub const UART0_IRQ_DECISION_STORM: u32 = 5;

pub const GPIO_CTRL_FUNCSEL_MASK: u32 = 0x1f;
pub const GPIO_CTRL_OUTOVER_MASK: u32 = 0x0000_3000;
pub const GPIO_CTRL_OEOVER_MASK: u32 = 0x0000_c000;
pub const GPIO_CTRL_INOVER_MASK: u32 = 0x0003_0000;
pub const GPIO_CTRL_OVERRIDE_MASK: u32 = 0x0003_f000;
pub const GPIO_CTRL_FUNCSEL_UART0: u32 = 4;
pub const PAD_OD: u32 = 0x80;
pub const PAD_IE: u32 = 0x40;
pub const PAD_SCHMITT: u32 = 0x2;
pub const PAD_PULL_SHIFT: u32 = 2;
pub const PAD_PULL_MASK: u32 = 0xc;
pub const PAD_PULL_UP: u32 = 0x8;
pub const PAD_RX_MASK: u32 = 0x4e;

pub const UART0_TX_PIN: u8 = 14;
pub const UART0_RX_PIN: u8 = 15;
pub const UART0_IBRD_115200_50MHZ: u32 = 27;
pub const UART0_FBRD_115200_50MHZ: u32 = 8;
pub const UART_BUSY_TIMEOUT: u32 = 0x10000;
pub const UART_TX_TIMEOUT: u32 = 0x10000;
pub const UART_RX_TIMEOUT: u32 = 0x0100_0000;
pub const UART0_SNAPSHOT_COUNT: usize = 11;

pub struct Uart0 {
    pub private: (),
}

#[derive(Clone, Copy, Debug, Eq, PartialEq, Structural)]
pub enum Uart0RxError {
    Timeout,
    DataError(u8),
}

#[derive(Clone, Copy, Debug, Eq, PartialEq, Structural)]
pub struct Uart0Snapshot {
    pub rsr: u32,
    pub fr: u32,
    pub ibrd: u32,
    pub fbrd: u32,
    pub lcr_h: u32,
    pub cr: u32,
    pub imsc: u32,
}

/// The receive-interrupt record: the handler's decision, the bytes stored,
/// entry counts and the status registers it saw.
#[derive(Clone, Copy, Debug)]
pub struct Uart0IrqSnapshot {
    pub decision: u32,
    pub byte_count: u32,
    pub irq_count: u32,
    pub ipsr: u32,
    pub first_ris: u32,
    pub first_mis: u32,
    pub final_ris: u32,
    pub final_mis: u32,
    pub rsr: u32,
    pub final_imsc: u32,
    pub payload: [u8; UART0_IRQ_PAYLOAD_MAX],
}

/// The state that the receive interrupt handler keeps between entries.
#[derive(Clone, Copy, Debug)]
pub struct Uart0IrqState {
    pub decision: u32,
    pub expected_len: u32,
    pub byte_count: u32,
    pub irq_count: u32,
    pub ipsr: u32,
    pub first_ris: u32,
    pub first_mis: u32,
    pub final_ris: u32,
    pub final_mis: u32,
    pub rsr: u32,
    pub payload: [u8; UART0_IRQ_PAYLOAD_MAX],
}

/// A transmitter (and, when enabled, receiver) with its diagnostic
/// register snapshots and its interrupt receive state.
pub struct Uart0Tx {
    pub first_byte_pending: bool,
    pub first_buffer_pending: bool,
    pub snapshots: [Uart0Snapshot; UART0_SNAPSHOT_COUNT],
    pub irq: Uart0IrqState,
}

pub open spec fn zero_snapshot() -> Uart0Snapshot {
    Uart0Snapshot { rsr: 0, fr: 0, ibrd: 0, fbrd: 0, lcr_h: 0, cr: 0, imsc: 0 }
}

/// The nine diagnostic bytes of a snapshot: control (two bytes), line
/// control, both divisors, flags, interrupt mask (two bytes) and receive
/// status.
pub open spec fn snapshot_bytes(s: Uart0Snapshot) -> Seq<u8> {
    seq![
        s.cr as u8,
        (s.cr >> 8u32) as u8,
        s.lcr_h as u8,
        s.ibrd as u8,
        s.fbrd as u8,
        s.fr as u8,
        s.imsc as u8,
        (s.imsc >> 8u32) as u8,
        s.rsr as u8,
    ]
}

impl Uart0Snapshot {
    pub fn encoded_bytes(self) -> (r: [u8; 9])
        ensures
            r@ == snapshot_bytes(self),
    {
        let r = [
            self.cr as u8,
            (self.cr >> 8u32) as u8,
            self.lcr_h as u8,
            self.ibrd as u8,
            self.fbrd as u8,
            self.fr as u8,
            self.imsc as u8,
            (self.imsc >> 8u32) as u8,
            self.rsr as u8,
        ];
        assert(r@ =~= snapshot_bytes(self));
        r
    }
}

/// GPIO control for UART0: function 4, overrides cleared, other bits kept.
pub open spec fn uart0_ctrl(current: u32) -> u32 {
    (current & !(GPIO_CTRL_FUNCSEL_MASK | GPIO_CTRL_OVERRIDE_MASK)) | GPIO_CTRL_FUNCSEL_UART0
}

/// TX pad: no pull, output enabled, other bits kept.
pub open spec fn uart0_tx_pad(current: u32) -> u32 {
    current & !(PAD_PULL_MASK | PAD_OD)
}

/// RX pad: Schmitt trigger, pull-up, input enabled, other bits kept.
pub open spec fn uart0_rx_pad(current: u32) -> u32 {
    (current & !PAD_RX_MASK) | PAD_SCHMITT | PAD_PULL_UP | PAD_IE
}

pub fn uart0_ctrl_value(current: u32) -> (r: u32)
    ensures
        r == uart0_ctrl(current),
        r & 0x1f == 4,
        r & 0x0003_f000 == 0,
        r & !0x0003_f01fu32 == current & !0x0003_f01fu32,
{
    let r = (current & !(GPIO_CTRL_FUNCSEL_MASK | GPIO_CTRL_OVERRIDE_MASK)) | GPIO_CTRL_FUNCSEL_UART0;
    assert(((current & !(0x1fu32 | 0x0003_f000u32)) | 4u32) & 0x1f == 4 && ((current & !(0x1fu32
        | 0x0003_f000u32)) | 4u32) & 0x0003_f000 == 0 && ((current & !(0x1fu32 | 0x0003_f000u32))
        | 4u32) & !0x0003_f01fu32 == current & !0x0003_f01fu32) by (bit_vector);
    r
}

pub fn uart0_tx_pad_value(current: u32) -> (r: u32)
    ensures
        r == uart0_tx_pad(current),
        r & 0x8c == 0,
        r & !0x8cu32 == current & !0x8cu32,
{
    let r = current & !(PAD_PULL_MASK | PAD_OD);
    assert((current & !(0xcu32 | 0x80u32)) & 0x8c == 0 && (current & !(0xcu32 | 0x80u32))
        & !0x8cu32 == current & !0x8cu32) by (bit_vector);
    r
}

pub fn uart0_rx_pad_value(current: u32) -> (r: u32)
    ensures
        r == uart0_rx_pad(current),
        r & 0x4e == 0x4a,
        r & !0x4eu32 == current & !0x4eu32,
{
    let r = (current & !PAD_RX_MASK) | PAD_SCHMITT | PAD_PULL_UP | PAD_IE;
    assert(((current & !0x4eu32) | 0x2u32 | 0x8u32 | 0x40u32) & 0x4e == 0x4a && ((current
        & !0x4eu32) | 0x2u32 | 0x8u32 | 0x40u32) & !0x4eu32 == current & !0x4eu32)
        by (bit_vector);
    r
}

pub fn gpio_ctrl_addr(n: u8) -> (r: usize)
    ensures
        r == IO_BANK0_BASE + 4 + n * 8,
{
    IO_BANK0_BASE + 0x04 + (n as usize) * 8
}

pub fn gpio_pad_addr(n: u8) -> (r: usize)
    ensures
        r == PADS_BANK0_BASE + 4 + n * 4,
{
    PADS_BANK0_BASE + 0x04 + (n as usize) * 4
}

/// The result of a received data word: its error bits, if any, else its
/// byte.
pub open spec fn rx_word(data: u32) -> Result<u8, Uart0RxError> {
    let errors = (data & UART_DR_ERROR_MASK) >> 8u32;
    if errors != 0 {
        Err(Uart0RxError::DataError(errors as u8))
    } else {
        Ok((data & UART_DR_DATA_MASK) as u8)
    }
}

/// The accesses of one `read_byte` from `before` to `after` and its
/// result: a poll of FR for RXFE clear that failed (a timeout), or one
/// that succeeded followed by a read of DR whose word gives the result.
pub open spec fn byte_read(before: Seq<Access>, after: Seq<Access>, r: Result<u8, Uart0RxError>) -> bool {
    ||| r == Err::<u8, Uart0RxError>(Uart0RxError::Timeout) && polls(before, after, (UART0_BASE + UART_FR) as usize, mask_is(UART_FR_RXFE, false), (UART_RX_TIMEOUT + 1) as nat, false)
    ||| after.len() > 0 && polls(before, after.drop_last(), (UART0_BASE + UART_FR) as usize, mask_is(UART_FR_RXFE, false), (UART_RX_TIMEOUT + 1) as nat, true)
        && after.last() == rd((UART0_BASE + UART_DR) as usize, after.last().value) && r == rx_word(after.last().value)
}

/// A received byte comes only from a data word without error bits, and is
/// its low byte; any error bit in the word read makes the read a data error
/// carrying exactly the word's error bits. Only an exhausted poll of FR is
/// a timeout.
pub proof fn lemma_read_byte_reports_line_errors(
    before: Seq<Access>,
    after: Seq<Access>,
    r: Result<u8, Uart0RxError>,
)
    requires
        byte_read(before, after, r),
    ensures
        r != Err::<u8, Uart0RxError>(Uart0RxError::Timeout) ==> after.len() > 0 && after.last() == rd(
            (UART0_BASE + UART_DR) as usize,
            after.last().value,
        ) && (after.last().value & 0x0f00 != 0 <==> r is Err),
        r matches Ok(b) ==> after.last().value & 0x0f00 == 0 && b == (after.last().value & 0xff) as u8,
        r matches Err(Uart0RxError::DataError(e)) ==> e as u32 == (after.last().value & 0x0f00) >> 8u32,
        r == Err::<u8, Uart0RxError>(Uart0RxError::Timeout) ==> polls(
            before,
            after,
            (UART0_BASE + UART_FR) as usize,
            mask_is(UART_FR_RXFE, false),
            (UART_RX_TIMEOUT + 1) as nat,
            false,
        ),
{
    if r != Err::<u8, Uart0RxError>(Uart0RxError::Timeout) {
        let v = after.last().value;
        assert(((v & 0x0f00u32) >> 8u32 != 0 <==> v & 0x0f00u32 != 0) && (v & 0x0f00u32) >> 8u32
            < 16) by (bit_vector);
    }
}

/// `read_bytes` from `before` to `after`: `marks` are the traces between
/// the successful byte reads, each byte landing in the buffer in order; an
/// error is the result of one more read after them, with the rest of the
/// buffer untouched.
pub open spec fn bytes_read(
    marks: Seq<Seq<Access>>,
    before: Seq<Access>,
    after: Seq<Access>,
    old_buffer: Seq<u8>,
    new_buffer: Seq<u8>,
    r: Result<usize, Uart0RxError>,
) -> bool {
    &&& marks.len() >= 1
    &&& marks[0] == before
    &&& marks.len() - 1 <= old_buffer.len()
    &&& forall|i: int| 0 <= i < marks.len() - 1 ==> #[trigger] byte_read(marks[i], marks[i + 1], Ok(new_buffer[i]))
    &&& forall|i: int| marks.len() - 1 <= i < old_buffer.len() ==> new_buffer[i] == old_buffer[i]
    &&& match r {
        Ok(n) => n == old_buffer.len() && marks.len() - 1 == n && marks.last() == after,
        Err(e) => marks.len() - 1 < old_buffer.len() && byte_read(marks.last(), after, Err(e)),
    }
}

/// A write of `value` to `addr` followed by a read of `addr` that gave
/// `back`.
pub open spec fn written_back(addr: usize, value: u32, back: u32) -> Seq<Access> {
    seq![wr(addr, value), rd(addr, back)]
}

/// Writes a register and reads it back.
pub fn write_readback<B: Mmio>(bus: &mut Bus<B>, addr: usize, value: u32)
    ensures
        final(bus).trace@ == old(bus).trace@ + written_back(
            addr,
            value,
            got(old(bus).trace@, final(bus).trace@, 1),
        ),
        writes_of(final(bus).trace@) == writes_of(old(bus).trace@).push((addr, value)),
{
    let ghost t0 = bus.trace@;
    bus.write32(addr, value);
    let back = bus.read32(addr);
    assert(bus.trace@ =~= t0 + written_back(addr, value, back));
}

/// The reads a UART0 snapshot makes, in order, and the values they gave.
pub open spec fn snapshot_reads(r: Uart0Snapshot) -> Seq<Access> {
    seq![
        rd((UART0_BASE + UART_RSR_ECR) as usize, r.rsr),
        rd((UART0_BASE + UART_FR) as usize, r.fr),
        rd((UART0_BASE + UART_IBRD) as usize, r.ibrd),
        rd((UART0_BASE + UART_FBRD) as usize, r.fbrd),
        rd((UART0_BASE + UART_LCRH) as usize, r.lcr_h),
        rd((UART0_BASE + UART_CR) as usize, r.cr),
        rd((UART0_BASE + UART_IMSC) as usize, r.imsc),
    ]
}

pub fn snapshot<B: Mmio>(bus: &mut Bus<B>) -> (r: Uart0Snapshot)
    ensures
        final(bus).trace@ == old(bus).trace@ + snapshot_reads(r),
        writes_of(final(bus).trace@) == writes_of(old(bus).trace@),
{
    let rsr = bus.read32(UART0_BASE + UART_RSR_ECR);
    let fr = bus.read32(UART0_BASE + UART_FR);
    let ibrd = bus.read32(UART0_BASE + UART_IBRD);
    let fbrd = bus.read32(UART0_BASE + UART_FBRD);
    let lcr_h = bus.read32(UART0_BASE + UART_LCRH);
    let cr = bus.read32(UART0_BASE + UART_CR);
    let imsc = bus.read32(UART0_BASE + UART_IMSC);
    let r = Uart0Snapshot { rsr, fr, ibrd, fbrd, lcr_h, cr, imsc };
    assert(bus.trace@ =~= old(bus).trace@ + snapshot_reads(r));
    r
}

/// Waits for an enabled UART to finish transmitting: reads CR; if UARTEN
/// is set, polls FR, at most `UART_BUSY_TIMEOUT + 1` reads, for BUSY
/// clear.
pub fn wait_for_uart0_not_busy<B: Mmio>(bus: &mut Bus<B>)
    ensures
        ({
            let t0 = old(bus).trace@;
            let t = final(bus).trace@;
            let first = t0.push(rd((UART0_BASE + UART_CR) as usize, got(t0, t, 0)));
            if got(t0, t, 0) & UART_CR_UARTEN == 0 {
                t == first
            } else {
                polls(first, t, (UART0_BASE + UART_FR) as usize, mask_is(UART_FR_BUSY, false), (UART_BUSY_TIMEOUT + 1) as nat, true)
                    || polls(first, t, (UART0_BASE + UART_FR) as usize, mask_is(UART_FR_BUSY, false), (UART_BUSY_TIMEOUT + 1) as nat, false)
            }
        }),
        writes_of(final(bus).trace@) == writes_of(old(bus).trace@),
{
    let ghost t0 = bus.trace@;
    let cr = bus.read32(UART0_BASE + UART_CR);
    if cr & UART_CR_UARTEN == 0 {
        return;
    }
    let ghost first = bus.trace@;
    let found = poll_mask(bus, UART0_BASE + UART_FR, UART_FR_BUSY, false, (UART_BUSY_TIMEOUT + 1) as usize);
    proof {
        lemma_polls_keep_prefix(first, bus.trace@, (UART0_BASE + UART_FR) as usize, mask_is(UART_FR_BUSY, false), (UART_BUSY_TIMEOUT + 1) as nat, found);
        assert(got(t0, bus.trace@, 0) == cr);
    }
}

/// The clock accesses: divider 1, XOSC, then XOSC enabled, each written and
/// read back.
pub open spec fn uart0_clock_accesses(backs: Seq<u32>) -> Seq<Access> {
    written_back((CLOCKS_MAIN_BASE + CLK_UART_DIV_INT) as usize, 1, backs[0]) + written_back(
        (CLOCKS_MAIN_BASE + CLK_UART_CTRL) as usize,
        CLK_UART_CTRL_XOSC,
        backs[1],
    ) + written_back(
        (CLOCKS_MAIN_BASE + CLK_UART_CTRL) as usize,
        CLK_UART_CTRL_XOSC | CLK_UART_CTRL_ENABLE,
        backs[2],
    )
}

pub fn configure_uart0_clock_bootmain_50mhz<B: Mmio>(bus: &mut Bus<B>)
    ensures
        final(bus).trace@ == old(bus).trace@ + uart0_clock_accesses(
            seq![
                got(old(bus).trace@, final(bus).trace@, 1),
                got(old(bus).trace@, final(bus).trace@, 3),
                got(old(bus).trace@, final(bus).trace@, 5),
            ],
        ),
        writes_of(final(bus).trace@) == writes_of(old(bus).trace@) + seq![
            ((CLOCKS_MAIN_BASE + CLK_UART_DIV_INT) as usize, 1u32),
            ((CLOCKS_MAIN_BASE + CLK_UART_CTRL) as usize, CLK_UART_CTRL_XOSC),
            ((CLOCKS_MAIN_BASE + CLK_UART_CTRL) as usize, CLK_UART_CTRL_XOSC | CLK_UART_CTRL_ENABLE),
        ],
{
    let ghost t0 = bus.trace@;
    write_readback(bus, CLOCKS_MAIN_BASE + CLK_UART_DIV_INT, 1);
    let ghost t1 = bus.trace@;
    write_readback(bus, CLOCKS_MAIN_BASE + CLK_UART_CTRL, CLK_UART_CTRL_XOSC);
    let ghost t2 = bus.trace@;
    write_readback(bus, CLOCKS_MAIN_BASE + CLK_UART_CTRL, CLK_UART_CTRL_XOSC | CLK_UART_CTRL_ENABLE);
    proof {
        let t = bus.trace@;
        let backs = seq![got(t0, t, 1), got(t0, t, 3), got(t0, t, 5)];
        assert(got(t0, t1, 1) == got(t0, t, 1));
        assert(got(t1, t2, 1) == got(t0, t, 3));
        assert(got(t2, t, 1) == got(t0, t, 5));
        assert(t =~= t0 + uart0_clock_accesses(backs));
    }
}

/// The pin-mux accesses for UART0's pins: each of the TX and RX control
/// words and the TX and RX pad words is read (`v`) and its new value
/// written and read back (`backs`).
pub open spec fn uart0_pinmux_accesses(v: Seq<u32>, backs: Seq<u32>) -> Seq<Access> {
    seq![rd(ctrl_addr(UART0_TX_PIN), v[0])] + written_back(ctrl_addr(UART0_TX_PIN), uart0_ctrl(v[0]), backs[0])
        + seq![rd(ctrl_addr(UART0_RX_PIN), v[1])] + written_back(ctrl_addr(UART0_RX_PIN), uart0_ctrl(v[1]), backs[1])
        + seq![rd(pad_addr(UART0_TX_PIN), v[2])] + written_back(pad_addr(UART0_TX_PIN), uart0_tx_pad(v[2]), backs[2])
        + seq![rd(pad_addr(UART0_RX_PIN), v[3])] + written_back(pad_addr(UART0_RX_PIN), uart0_rx_pad(v[3]), backs[3])
}

/// The pin-mux writes, given the TX and RX control and pad words read.
pub open spec fn pinmux_writes(v: Seq<u32>) -> Seq<(usize, u32)> {
    seq![
        (ctrl_addr(UART0_TX_PIN), uart0_ctrl(v[0])),
        (ctrl_addr(UART0_RX_PIN), uart0_ctrl(v[1])),
        (pad_addr(UART0_TX_PIN), uart0_tx_pad(v[2])),
        (pad_addr(UART0_RX_PIN), uart0_rx_pad(v[3])),
    ]
}

/// The writes of a UART0 initialization, given the values read: the clock
/// setup when asked for; the pin mux (`v[0..4]`); CR without its enables
/// (`v[4]` read); LCR_H without BREAK (`v[5]` read); every interrupt masked
/// and cleared, the error flags cleared; the 115200-baud divisors at
/// 50 MHz; 8-bit words with FIFOs; then transmit, and receive when asked
/// for, enabled.
pub open spec fn init_writes(configure_clock: bool, enable_rx: bool, v: Seq<u32>) -> Seq<
    (usize, u32),
> {
    (if configure_clock {
        seq![
            ((CLOCKS_MAIN_BASE + CLK_UART_DIV_INT) as usize, 1u32),
            ((CLOCKS_MAIN_BASE + CLK_UART_CTRL) as usize, CLK_UART_CTRL_XOSC),
            ((CLOCKS_MAIN_BASE + CLK_UART_CTRL) as usize, CLK_UART_CTRL_XOSC | CLK_UART_CTRL_ENABLE),
        ]
    } else {
        Seq::empty()
    }) + pinmux_writes(v) + seq![
        ((UART0_BASE + UART_CR) as usize, v[4] & !UART_CR_ENABLE_MASK),
        ((UART0_BASE + UART_LCRH) as usize, v[5] & !UART_LCRH_BRK),
        ((UART0_BASE + UART_IMSC) as usize, 0u32),
        ((UART0_BASE + UART_ICR) as usize, 0x7ffu32),
        ((UART0_BASE + UART_RSR_ECR) as usize, 0u32),
        ((UART0_BASE + UART_IBRD) as usize, UART0_IBRD_115200_50MHZ),
        ((UART0_BASE + UART_FBRD) as usize, UART0_FBRD_115200_50MHZ),
        ((UART0_BASE + UART_LCRH) as usize, UART_LCRH_WLEN_8 | UART_LCRH_FEN),
        (
            (UART0_BASE + UART_CR) as usize,
            if enable_rx {
                UART_CR_UARTEN | UART_CR_TXE | UART_CR_RXE
            } else {
                UART_CR_UARTEN | UART_CR_TXE
            },
        ),
    ]
}

pub fn configure_uart0_pinmux_rpi_boot_parity<B: Mmio>(bus: &mut Bus<B>)
    ensures
        ({
            let t0 = old(bus).trace@;
            let t = final(bus).trace@;
            t == t0 + uart0_pinmux_accesses(
                seq![got(t0, t, 0), got(t0, t, 3), got(t0, t, 6), got(t0, t, 9)],
                seq![got(t0, t, 2), got(t0, t, 5), got(t0, t, 8), got(t0, t, 11)],
            )
        }),
        writes_of(final(bus).trace@) == writes_of(old(bus).trace@) + pinmux_writes(
            seq![
                got(old(bus).trace@, final(bus).trace@, 0),
                got(old(bus).trace@, final(bus).trace@, 3),
                got(old(bus).trace@, final(bus).trace@, 6),
                got(old(bus).trace@, final(bus).trace@, 9),
            ],
        ),
{
    let ghost t0 = bus.trace@;
    let tx_ctrl = gpio_ctrl_addr(UART0_TX_PIN);
    let control = bus.read32(tx_ctrl);
    write_readback(bus, tx_ctrl, uart0_ctrl_value(control));
    let ghost t1 = bus.trace@;
    let rx_ctrl = gpio_ctrl_addr(UART0_RX_PIN);
    let control2 = bus.read32(rx_ctrl);
    write_readback(bus, rx_ctrl, uart0_ctrl_value(control2));
    let ghost t2 = bus.trace@;
    let tx_pad_address = gpio_pad_addr(UART0_TX_PIN);
    let tx_pad = bus.read32(tx_pad_address);
    write_readback(bus, tx_pad_address, uart0_tx_pad_value(tx_pad));
    let ghost t3 = bus.trace@;
    let rx_pad_address = gpio_pad_addr(UART0_RX_PIN);
    let rx_pad = bus.read32(rx_pad_address);
    write_readback(bus, rx_pad_address, uart0_rx_pad_value(rx_pad));
    proof {
        let t = bus.trace@;
        assert(t0.len() + 3 == t1.len() && t1.len() + 3 == t2.len() && t2.len() + 3 == t3.len());
        assert(t.subrange(0, t1.len() as int) =~= t1);
        assert(t.subrange(0, t2.len() as int) =~= t2);
        assert(t.subrange(0, t3.len() as int) =~= t3);
        assert(t =~= t0 + uart0_pinmux_accesses(
            seq![control, control2, tx_pad, rx_pad],
            seq![got(t0, t, 2), got(t0, t, 5), got(t0, t, 8), got(t0, t, 11)],
        ));
    }
}

fn new_irq_state(expected_len: u32) -> (r: Uart0IrqState)
    ensures
        r.decision == UART0_IRQ_DECISION_PENDING && r.expected_len == expected_len && r.byte_count
            == 0 && r.irq_count == 0 && r.rsr == 0,
        r.payload@ == Seq::new(32, |i: int| 0u8),
{
    let r = Uart0IrqState {
        decision: UART0_IRQ_DECISION_PENDING,
        expected_len,
        byte_count: 0,
        irq_count: 0,
        ipsr: 0,
        first_ris: 0,
        first_mis: 0,
        final_ris: 0,
        final_mis: 0,
        rsr: 0,
        payload: [0u8; 32],
    };
    assert(r.payload@ =~= Seq::new(32, |i: int| 0u8));
    r
}

impl Uart0 {
    /// Configures the clock, then the UART for 8N1 at 115200 with FIFOs and
    /// transmit and receive enabled.
    pub fn init_115200<B: Mmio>(self, bus: &mut Bus<B>) -> (r: Uart0Tx)
        ensures
            r.wf() && r.first_byte_pending && r.first_buffer_pending,
            exists|v: Seq<u32>|
                v.len() == 6 && writes_of(final(bus).trace@) == writes_of(old(bus).trace@)
                    + #[trigger] init_writes(true, true, v),
    {
        self.init_115200_inner(bus, true, true)
    }

    /// The same without the clock, transmit only.
    pub fn init_tx_115200_clock_ready<B: Mmio>(self, bus: &mut Bus<B>) -> (r: Uart0Tx)
        ensures
            r.wf() && r.first_byte_pending && r.first_buffer_pending,
            exists|v: Seq<u32>|
                v.len() == 6 && writes_of(final(bus).trace@) == writes_of(old(bus).trace@)
                    + #[trigger] init_writes(false, false, v),
    {
        self.init_115200_inner(bus, false, false)
    }

    /// The same without the clock, transmit and receive.
    pub fn init_tx_rx_115200_clock_ready<B: Mmio>(self, bus: &mut Bus<B>) -> (r: Uart0Tx)
        ensures
            r.wf() && r.first_byte_pending && r.first_buffer_pending,
            exists|v: Seq<u32>|
                v.len() == 6 && writes_of(final(bus).trace@) == writes_of(old(bus).trace@)
                    + #[trigger] init_writes(false, true, v),
    {
        self.init_115200_inner(bus, false, true)
    }

    fn init_115200_inner<B: Mmio>(self, bus: &mut Bus<B>, configure_clock: bool, enable_rx: bool) -> (r:
        Uart0Tx)
        ensures
            r.wf() && r.first_byte_pending && r.first_buffer_pending,
            exists|v: Seq<u32>|
                v.len() == 6 && writes_of(final(bus).trace@) == writes_of(old(bus).trace@)
                    + #[trigger] init_writes(configure_clock, enable_rx, v),
    {
        let zero = Uart0Snapshot { rsr: 0, fr: 0, ibrd: 0, fbrd: 0, lcr_h: 0, cr: 0, imsc: 0 };
        let mut snapshots = [zero; 11];
        let ghost w0 = writes_of(bus.trace@);
        if configure_clock {
            configure_uart0_clock_bootmain_50mhz(bus);
        }
        snapshots[1] = snapshot(bus);
        let ghost tp0 = bus.trace@;
        configure_uart0_pinmux_rpi_boot_parity(bus);
        let ghost tp1 = bus.trace@;
        snapshots[2] = snapshot(bus);
        wait_for_uart0_not_busy(bus);
        let control = bus.read32(UART0_BASE + UART_CR);
        write_readback(bus, UART0_BASE + UART_CR, control & !UART_CR_ENABLE_MASK);
        snapshots[3] = snapshot(bus);
        let line_control = bus.read32(UART0_BASE + UART_LCRH);
        write_readback(bus, UART0_BASE + UART_LCRH, line_control & !UART_LCRH_BRK);
        write_readback(bus, UART0_BASE + UART_IMSC, 0);
        bus.write32(UART0_BASE + UART_ICR, 0x7ff);
        write_readback(bus, UART0_BASE + UART_RSR_ECR, 0);
        snapshots[4] = snapshot(bus);
        write_readback(bus, UART0_BASE + UART_IBRD, UART0_IBRD_115200_50MHZ);
        write_readback(bus, UART0_BASE + UART_FBRD, UART0_FBRD_115200_50MHZ);
        snapshots[5] = snapshot(bus);
        write_readback(bus, UART0_BASE + UART_LCRH, UART_LCRH_WLEN_8 | UART_LCRH_FEN);
        snapshots[6] = snapshot(bus);
        let enable = if enable_rx {
            UART_CR_UARTEN | UART_CR_TXE | UART_CR_RXE
        } else {
            UART_CR_UARTEN | UART_CR_TXE
        };
        write_readback(bus, UART0_BASE + UART_CR, enable);
        let _ = bus.read32(UART0_BASE + UART_IBRD);
        let _ = bus.read32(UART0_BASE + UART_FBRD);
        let _ = bus.read32(UART0_BASE + UART_LCRH);
        let _ = bus.read32(UART0_BASE + UART_CR);
        let _ = bus.read32(UART0_BASE + UART_FR);
        snapshots[7] = snapshot(bus);
        proof {
            let v = seq![
                got(tp0, tp1, 0),
                got(tp0, tp1, 3),
                got(tp0, tp1, 6),
                got(tp0, tp1, 9),
                control,
                line_control,
            ];
            assert(writes_of(bus.trace@) =~= w0 + init_writes(configure_clock, enable_rx, v));
        }
        Uart0Tx {
            first_byte_pending: true,
            first_buffer_pending: true,
            snapshots,
            irq: new_irq_state(0),
        }
    }
}

/// What a receive-interrupt entry may leave behind: the count of entries
/// advanced, never more bytes than expected or than the payload holds, the
/// bytes already stored kept, and a terminal decision only with its cause.
pub open spec fn irq_step_ok(before: Uart0IrqState, after: Uart0IrqState) -> bool {
    &&& after.irq_count == before.irq_count.wrapping_add(1)
    &&& after.expected_len == before.expected_len
    &&& before.byte_count <= after.byte_count
    &&& after.byte_count <= UART0_IRQ_PAYLOAD_MAX
    &&& after.byte_count <= before.expected_len
    &&& after.payload@.subrange(0, before.byte_count as int) == before.payload@.subrange(
        0,
        before.byte_count as int,
    )
    &&& (after.irq_count > UART0_IRQ_ENTRY_MAX ==> after.decision == UART0_IRQ_DECISION_STORM)
    &&& (after.decision == UART0_IRQ_DECISION_COMPLETE ==> after.byte_count == before.expected_len)
    &&& (after.decision == UART0_IRQ_DECISION_DATA_ERROR ==> after.rsr != 0)
    &&& after.decision <= UART0_IRQ_DECISION_STORM
}

/// The error bits of a data register word.
pub open spec fn dr_errors(d: u32) -> u32 {
    (d & UART_DR_ERROR_MASK) >> 8
}

/// `seg` pops the data words `ds`: each read of DR follows a read of FR
/// that found the receive FIFO non-empty.
pub open spec fn popped(seg: Seq<Access>, ds: Seq<u32>) -> bool {
    &&& seg.len() == 2 * ds.len()
    &&& forall|i: int|
        #![trigger ds[i]]
        0 <= i < ds.len() ==> seg[2 * i] == rd((UART0_BASE + UART_FR) as usize, seg[2 * i].value)
            && seg[2 * i].value & UART_FR_RXFE == 0 && seg[2 * i + 1] == rd(
            (UART0_BASE + UART_DR) as usize,
            ds[i],
        )
}

/// The accesses that close a decided entry: IMSC read, written without
/// the receive bits and read back, the receive sources cleared, RIS and MIS
/// read.
pub open spec fn finish_accesses(seg: Seq<Access>) -> bool {
    seg == mask_rx_accesses(seg[0].value, seg[2].value) + seq![
        wr((UART0_BASE + UART_ICR) as usize, UART_INT_RX_MASK),
        rd((UART0_BASE + UART_RIS) as usize, seg[4].value),
        rd((UART0_BASE + UART_MIS) as usize, seg[5].value),
    ]
}

/// The accesses that close an undecided entry: the receive sources
/// cleared, RIS and MIS read.
pub open spec fn pending_accesses(seg: Seq<Access>) -> bool {
    seg == seq![
        wr((UART0_BASE + UART_ICR) as usize, UART_INT_RX_MASK),
        rd((UART0_BASE + UART_RIS) as usize, seg[1].value),
        rd((UART0_BASE + UART_MIS) as usize, seg[2].value),
    ]
}

/// No word of `ds` carries an error, and each finds room below `e` from
/// count `c` on.
pub open spec fn clean(c: int, e: int, ds: Seq<u32>) -> bool {
    forall|i: int| 0 <= i < ds.len() ==> dr_errors(#[trigger] ds[i]) == 0 && c + i < e
}

/// The payload with the low bytes of `ds` stored from index `c` on.
pub open spec fn stored(payload: Seq<u8>, c: int, ds: Seq<u32>) -> Seq<u8> {
    Seq::new(
        payload.len(),
        |i: int|
            if c <= i < c + ds.len() {
                (ds[i - c] & UART_DR_DATA_MASK) as u8
            } else {
                payload[i]
            },
    )
}

/// `a` is `n` with the decision, byte count and error bits given and the
/// payload `payload`.
pub open spec fn irq_with(
    n: Uart0IrqState,
    a: Uart0IrqState,
    decision: u32,
    byte_count: int,
    rsr: u32,
    payload: Seq<u8>,
) -> bool {
    &&& a.decision == decision && a.byte_count == byte_count && a.rsr == rsr
    &&& a.payload@ == payload
    &&& a.expected_len == n.expected_len && a.irq_count == n.irq_count && a.ipsr == n.ipsr
    &&& a.first_ris == n.first_ris && a.first_mis == n.first_mis
    &&& a.final_ris == n.final_ris && a.final_mis == n.final_mis
}

/// A drain that popped `ds` and then made the accesses `rest`, from state
/// `n`: words are stored while they carry no error and there is room; a
/// word with error bits is a data error (its bits kept), a word without
/// room an overflow. A drain that found the FIFO empty with every expected
/// byte stored checks FR once more: a further word is an overflow, none is
/// completion; otherwise the entry stays undecided. Every decision closes
/// with `finish_accesses`.
pub open spec fn drained(n: Uart0IrqState, ds: Seq<u32>, rest: Seq<Access>, a: Uart0IrqState) -> bool {
    let c = n.byte_count as int;
    let e = n.expected_len as int;
    let front = ds.drop_last();
    let last = ds.last();
    if ds.len() > 0 && clean(c, e, front) && (dr_errors(last) != 0 || c + front.len() >= e) {
        &&& finish_accesses(rest)
        &&& if dr_errors(last) != 0 {
            irq_with(n, a, UART0_IRQ_DECISION_DATA_ERROR, c + front.len(), dr_errors(last), stored(n.payload@, c, front))
        } else {
            irq_with(n, a, UART0_IRQ_DECISION_OVERFLOW, c + front.len(), n.rsr, stored(n.payload@, c, front))
        }
    } else {
        let count = c + ds.len();
        &&& clean(c, e, ds)
        &&& rest.len() >= 1 && rest[0] == rd((UART0_BASE + UART_FR) as usize, rest[0].value)
        &&& rest[0].value & UART_FR_RXFE != 0
        &&& if count == e {
            &&& rest.len() >= 2 && rest[1] == rd((UART0_BASE + UART_FR) as usize, rest[1].value)
            &&& finish_accesses(rest.skip(2))
            &&& irq_with(
                n,
                a,
                if rest[1].value & UART_FR_RXFE == 0 {
                    UART0_IRQ_DECISION_OVERFLOW
                } else {
                    UART0_IRQ_DECISION_COMPLETE
                },
                count,
                n.rsr,
                stored(n.payload@, c, ds),
            )
        } else {
            pending_accesses(rest.skip(1)) && irq_with(n, a, n.decision, count, n.rsr, stored(n.payload@, c, ds))
        }
    }
}

/// One receive-interrupt entry from state `b` with IPSR `ipsr`: its
/// accesses `t` and the state `a` it leaves. RIS and MIS are read (and kept
/// on the first entry); past 32 entries the decision is a storm; without a
/// receive source in MIS the entry is spurious; otherwise the FIFO is
/// drained as `drained` says. The last two reads of every entry are RIS and
/// MIS, kept as the final values.
pub open spec fn rx_entry(b: Uart0IrqState, ipsr: u32, t: Seq<Access>, a: Uart0IrqState) -> bool {
    let entry = b.irq_count.wrapping_add(1);
    let ris = t[0].value;
    let mis = t[1].value;
    let first = entry == 1;
    let n = Uart0IrqState {
        irq_count: entry,
        ipsr: if first { ipsr } else { b.ipsr },
        first_ris: if first { ris } else { b.first_ris },
        first_mis: if first { mis } else { b.first_mis },
        final_ris: t[t.len() - 2].value,
        final_mis: t[t.len() - 1].value,
        ..b
    };
    &&& t.len() >= 5
    &&& t[0] == rd((UART0_BASE + UART_RIS) as usize, ris)
    &&& t[1] == rd((UART0_BASE + UART_MIS) as usize, mis)
    &&& if entry > UART0_IRQ_ENTRY_MAX {
        finish_accesses(t.skip(2)) && irq_with(n, a, UART0_IRQ_DECISION_STORM, b.byte_count as int, b.rsr, b.payload@)
    } else if mis & UART_INT_RX_MASK == 0 {
        finish_accesses(t.skip(2)) && irq_with(n, a, UART0_IRQ_DECISION_SPURIOUS, b.byte_count as int, b.rsr, b.payload@)
    } else {
        exists|ds: Seq<u32>|
            #[trigger] popped(t.subrange(2, 2 + 2 * ds.len() as int), ds) && drained(
                n,
                ds,
                t.skip(2 + 2 * ds.len() as int),
                a,
            )
    }
}

/// Popping one more word after an FR read that found data.
proof fn lemma_popped_push(seg: Seq<Access>, ds: Seq<u32>, fr: u32, data: u32)
    requires
        popped(seg, ds),
        fr & UART_FR_RXFE == 0,
    ensures
        popped(
            seg + seq![
                rd((UART0_BASE + UART_FR) as usize, fr),
                rd((UART0_BASE + UART_DR) as usize, data),
            ],
            ds.push(data),
        ),
{
    let pair = seq![rd((UART0_BASE + UART_FR) as usize, fr), rd((UART0_BASE + UART_DR) as usize, data)];
    let seg1 = seg + pair;
    let ds1 = ds.push(data);
    assert forall|i: int| #![trigger ds1[i]] 0 <= i < ds1.len() implies seg1[2 * i] == rd(
        (UART0_BASE + UART_FR) as usize,
        seg1[2 * i].value,
    ) && seg1[2 * i].value & UART_FR_RXFE == 0 && seg1[2 * i + 1] == rd(
        (UART0_BASE + UART_DR) as usize,
        ds1[i],
    ) by {
        if i < ds.len() {
            assert(ds1[i] == ds[i]);
            assert(seg1[2 * i] == seg[2 * i]);
            assert(seg1[2 * i + 1] == seg[2 * i + 1]);
        } else {
            assert(seg1[2 * i] == pair[0]);
            assert(seg1[2 * i + 1] == pair[1]);
        }
    }
    assert(seg1.len() == 2 * ds1.len());
    assert(popped(seg1, ds1));
}

/// One more clean word with room.
proof fn lemma_clean_push(c: int, e: int, ds: Seq<u32>, d: u32)
    requires
        clean(c, e, ds),
        dr_errors(d) == 0,
        c + ds.len() < e,
    ensures
        clean(c, e, ds.push(d)),
{
    assert forall|i: int| 0 <= i < ds.push(d).len() implies dr_errors(#[trigger] ds.push(d)[i]) == 0
        && c + i < e by {
        if i < ds.len() {
            assert(ds.push(d)[i] == ds[i]);
        }
    }
}

/// Storing one more word writes its low byte at the next index.
proof fn lemma_stored_push(p: Seq<u8>, c: int, ds: Seq<u32>, d: u32)
    requires
        0 <= c,
        c + ds.len() < p.len(),
    ensures
        stored(p, c, ds.push(d)) =~= stored(p, c, ds).update(
            c + ds.len(),
            (d & UART_DR_DATA_MASK) as u8,
        ),
{
}

/// The accesses of arming the receive interrupt from `t0` to `t`: IMSC
/// cleared and read back, every source cleared, the FIFO level zeroed and
/// read back, RX and RX-timeout unmasked and read back; then IFLS, IMSC
/// and CR read in turn while each shows the armed configuration, `r` when
/// all three do.
pub open spec fn rx_armed(t0: Seq<Access>, t: Seq<Access>, r: bool) -> bool {
    let head = t0 + seq![
        wr((UART0_BASE + UART_IMSC) as usize, 0),
        rd((UART0_BASE + UART_IMSC) as usize, got(t0, t, 1)),
        wr((UART0_BASE + UART_ICR) as usize, 0x7ff),
        wr((UART0_BASE + UART_IFLS) as usize, 0),
        rd((UART0_BASE + UART_IFLS) as usize, got(t0, t, 4)),
        wr((UART0_BASE + UART_IMSC) as usize, UART_INT_RX_MASK),
        rd((UART0_BASE + UART_IMSC) as usize, got(t0, t, 6)),
        rd((UART0_BASE + UART_IFLS) as usize, got(t0, t, 7)),
    ];
    if got(t0, t, 7) != 0 {
        t =~= head && !r
    } else if got(t0, t, 8) & UART_INT_RX_MASK != UART_INT_RX_MASK {
        t =~= head.push(rd((UART0_BASE + UART_IMSC) as usize, got(t0, t, 8))) && !r
    } else {
        &&& t =~= head + seq![
            rd((UART0_BASE + UART_IMSC) as usize, got(t0, t, 8)),
            rd((UART0_BASE + UART_CR) as usize, got(t0, t, 9)),
        ]
        &&& r == (got(t0, t, 9) & (UART_CR_UARTEN | UART_CR_RXE) == UART_CR_UARTEN | UART_CR_RXE)
    }
}

impl Uart0Tx {
    /// The interrupt record is consistent: at most the expected bytes, at
    /// most a payload's worth, a known decision, and a decision only with
    /// its cause.
    pub open spec fn wf(&self) -> bool {
        &&& self.irq.byte_count <= self.irq.expected_len <= UART0_IRQ_PAYLOAD_MAX
        &&& self.irq.decision <= UART0_IRQ_DECISION_STORM
        &&& (self.irq.decision == UART0_IRQ_DECISION_COMPLETE ==> self.irq.byte_count
            == self.irq.expected_len)
        &&& (self.irq.decision == UART0_IRQ_DECISION_DATA_ERROR ==> self.irq.rsr != 0)
    }

    /// Sends one byte once the TX FIFO has room: before the first byte, a
    /// snapshot (kept in slot 8); a poll of FR, at most `UART_TX_TIMEOUT + 1`
    /// reads, for TXFF clear (false if it stays full); the write of the
    /// byte to DR; after the first byte, a snapshot (slot 9).
    pub fn write_byte<B: Mmio>(&mut self, bus: &mut Bus<B>, byte: u8) -> (r: bool)
        requires
            old(self).wf(),
        ensures
            final(self).wf(),
            final(self).irq == old(self).irq,
            final(self).first_buffer_pending == old(self).first_buffer_pending,
            r ==> !final(self).first_byte_pending,
            !r ==> final(self).first_byte_pending == old(self).first_byte_pending,
            forall|i: int|
                0 <= i < UART0_SNAPSHOT_COUNT && i != 8 && i != 9 ==> final(self).snapshots@[i]
                    == old(self).snapshots@[i],
            !old(self).first_byte_pending ==> final(self).snapshots@ == old(self).snapshots@,
            !r ==> final(self).snapshots@[9] == old(self).snapshots@[9],
            ({
                let t0 = old(bus).trace@;
                let t = final(bus).trace@;
                let pending = old(self).first_byte_pending;
                let s0 = if pending {
                    t0 + snapshot_reads(final(self).snapshots@[8])
                } else {
                    t0
                };
                let tail = if pending {
                    snapshot_reads(final(self).snapshots@[9])
                } else {
                    Seq::<Access>::empty()
                };
                let polled_to = t.subrange(0, t.len() - 1 - tail.len());
                if r {
                    polls(s0, polled_to, (UART0_BASE + UART_FR) as usize, mask_is(UART_FR_TXFF, false), (UART_TX_TIMEOUT + 1) as nat, true)
                        && t == polled_to.push(wr((UART0_BASE + UART_DR) as usize, byte as u32)) + tail
                } else {
                    polls(s0, t, (UART0_BASE + UART_FR) as usize, mask_is(UART_FR_TXFF, false), (UART_TX_TIMEOUT + 1) as nat, false)
                }
            }),
    {
        let ghost t0 = bus.trace@;
        if self.first_byte_pending {
            let snap = snapshot(bus);
            self.snapshots[8] = snap;
        }
        let ghost s0 = bus.trace@;
        let found = poll_mask(bus, UART0_BASE + UART_FR, UART_FR_TXFF, false, (UART_TX_TIMEOUT + 1) as usize);
        let ghost polled_to = bus.trace@;
        if !found {
            return false;
        }
        bus.write32(UART0_BASE + UART_DR, byte as u32);
        if self.first_byte_pending {
            let ghost written = bus.trace@;
            let snap = snapshot(bus);
            self.snapshots[9] = snap;
            self.first_byte_pending = false;
            assert(bus.trace@.subrange(0, bus.trace@.len() - 1 - snapshot_reads(snap).len()) =~= polled_to);
            assert(bus.trace@ =~= polled_to.push(wr((UART0_BASE + UART_DR) as usize, byte as u32)) + snapshot_reads(snap));
        } else {
            assert(bus.trace@.subrange(0, bus.trace@.len() - 1) =~= polled_to);
            assert(bus.trace@ =~= polled_to.push(wr((UART0_BASE + UART_DR) as usize, byte as u32)) + Seq::<Access>::empty());
        }
        true
    }

    /// Sends bytes until one times out; returns how many were sent.
    pub fn write_bytes<B: Mmio>(&mut self, bus: &mut Bus<B>, bytes: &[u8]) -> (r: usize)
        requires
            old(self).wf(),
        ensures
            final(self).wf(),
            r <= bytes@.len(),
            !final(self).first_buffer_pending,
            final(self).irq == old(self).irq,
    {
        let mut written: usize = 0;
        while written < bytes.len()
            invariant
                written <= bytes@.len(),
                self.wf(),
                self.irq == old(self).irq,
            decreases bytes@.len() - written,
        {
            if !self.write_byte(bus, bytes[written]) {
                break;
            }
            written += 1;
        }
        if self.first_buffer_pending {
            self.snapshots[10] = snapshot(bus);
            self.first_buffer_pending = false;
        }
        written
    }

    /// Receives one byte: polls FR, at most `UART_RX_TIMEOUT + 1` reads,
    /// for RXFE clear (a timeout if it stays empty), then reads DR once.
    pub fn read_byte<B: Mmio>(&mut self, bus: &mut Bus<B>) -> (r: Result<u8, Uart0RxError>)
        ensures
            r matches Err(Uart0RxError::DataError(e)) ==> e != 0 && e < 16,
            byte_read(old(bus).trace@, final(bus).trace@, r),
            r matches Ok(b) ==> final(bus).trace@.last() == rd(
                (UART0_BASE + UART_DR) as usize,
                final(bus).trace@.last().value,
            ) && final(bus).trace@.last().value & 0x0f00 == 0 && b == (final(bus).trace@.last().value
                & 0xff) as u8,
            r matches Err(Uart0RxError::DataError(e)) ==> e as u32 == (final(bus).trace@.last().value
                & 0x0f00) >> 8u32,
    {
        let found = poll_mask(bus, UART0_BASE + UART_FR, UART_FR_RXFE, false, (UART_RX_TIMEOUT + 1) as usize);
        if !found {
            return Err(Uart0RxError::Timeout);
        }
        let ghost polled_to = bus.trace@;
        let data = bus.read32(UART0_BASE + UART_DR);
        assert(bus.trace@.drop_last() =~= polled_to);
        let errors = (data & UART_DR_ERROR_MASK) >> 8u32;
        assert(errors < 16) by (bit_vector)
            requires
                errors == (data & 0x0f00u32) >> 8u32,
        ;
        let r = if errors != 0 {
            Err(Uart0RxError::DataError(errors as u8))
        } else {
            Ok((data & UART_DR_DATA_MASK) as u8)
        };
        proof {
            lemma_read_byte_reports_line_errors(old(bus).trace@, bus.trace@, r);
        }
        r
    }

    /// Fills `buffer` byte by byte with `read_byte`; the first error ends
    /// the read and leaves the rest of the buffer as it was.
    pub fn read_bytes<B: Mmio>(&mut self, bus: &mut Bus<B>, buffer: &mut [u8]) -> (r: Result<
        usize,
        Uart0RxError,
    >)
        ensures
            final(buffer)@.len() == old(buffer)@.len(),
            r matches Ok(n) ==> n == old(buffer)@.len(),
            exists|marks: Seq<Seq<Access>>|
                #[trigger] bytes_read(
                    marks,
                    old(bus).trace@,
                    final(bus).trace@,
                    old(buffer)@,
                    final(buffer)@,
                    r,
                ),
    {
        let ghost t0 = bus.trace@;
        let ghost mut marks: Seq<Seq<Access>> = seq![bus.trace@];
        let mut received: usize = 0;
        let mut failure: Option<Uart0RxError> = None;
        while received < buffer.len() && failure.is_none()
            invariant
                received <= buffer@.len(),
                buffer@.len() == old(buffer)@.len(),
                failure is None ==> marks.len() == received + 1,
                failure is Some ==> marks.len() == received + 1 && received < buffer@.len(),
                marks[0] == t0,
                failure is None ==> marks.last() == bus.trace@,
                failure matches Some(e) ==> byte_read(marks.last(), bus.trace@, Err(e)),
                forall|i: int| 0 <= i < received ==> #[trigger] byte_read(marks[i], marks[i + 1], Ok(buffer@[i])),
                forall|i: int| received <= i < buffer@.len() ==> buffer@[i] == old(buffer)@[i],
            decreases buffer@.len() - received + (if failure is None { 1int } else { 0int }),
        {
            let ghost before = bus.trace@;
            match self.read_byte(bus) {
                Ok(b) => {
                    buffer[received] = b;
                    proof {
                        marks = marks.push(bus.trace@);
                    }
                    received += 1;
                },
                Err(e) => {
                    failure = Some(e);
                },
            }
        }
        match failure {
            Some(e) => {
                assert(bytes_read(marks, t0, bus.trace@, old(buffer)@, buffer@, Err(e)));
                Err(e)
            },
            None => {
                assert(bytes_read(marks, t0, bus.trace@, old(buffer)@, buffer@, Ok(received)));
                Ok(received)
            },
        }
    }

    /// Arms the receive interrupt for `expected_len` bytes (1..=32): resets
    /// the interrupt record, clears pending sources, sets the FIFO level and
    /// unmasks RX and RX-timeout; returns whether the configuration reads
    /// back.
    pub fn enable_rx_interrupt<B: Mmio>(&mut self, bus: &mut Bus<B>, expected_len: usize) -> (r: bool)
        requires
            old(self).wf(),
        ensures
            final(self).wf(),
            (expected_len == 0 || expected_len > UART0_IRQ_PAYLOAD_MAX) ==> !r && final(self).irq
                == old(self).irq,
            !(expected_len == 0 || expected_len > UART0_IRQ_PAYLOAD_MAX) ==> final(self).irq.decision == UART0_IRQ_DECISION_PENDING && final(self).irq.expected_len
                == expected_len && final(self).irq.byte_count == 0 && final(self).irq.irq_count
                == 0,
            (expected_len == 0 || expected_len > UART0_IRQ_PAYLOAD_MAX) ==> final(bus).trace@
                == old(bus).trace@,
            !(expected_len == 0 || expected_len > UART0_IRQ_PAYLOAD_MAX) ==> rx_armed(
                old(bus).trace@,
                final(bus).trace@,
                r,
            ),
    {
        if expected_len == 0 || expected_len > UART0_IRQ_PAYLOAD_MAX {
            return false;
        }
        let ghost t0 = bus.trace@;
        self.irq = new_irq_state(expected_len as u32);
        write_readback(bus, UART0_BASE + UART_IMSC, 0);
        bus.write32(UART0_BASE + UART_ICR, 0x7ff);
        write_readback(bus, UART0_BASE + UART_IFLS, 0);
        write_readback(bus, UART0_BASE + UART_IMSC, UART_INT_RX_MASK);
        let ghost t1 = bus.trace@;
        assert(t1 =~= t0 + seq![
            wr((UART0_BASE + UART_IMSC) as usize, 0),
            rd((UART0_BASE + UART_IMSC) as usize, got(t0, t1, 1)),
            wr((UART0_BASE + UART_ICR) as usize, 0x7ff),
            wr((UART0_BASE + UART_IFLS) as usize, 0),
            rd((UART0_BASE + UART_IFLS) as usize, got(t0, t1, 4)),
            wr((UART0_BASE + UART_IMSC) as usize, UART_INT_RX_MASK),
            rd((UART0_BASE + UART_IMSC) as usize, got(t0, t1, 6)),
        ]);
        let ifls = bus.read32(UART0_BASE + UART_IFLS);
        if ifls != 0 {
            return false;
        }
        let imsc = bus.read32(UART0_BASE + UART_IMSC);
        if imsc & UART_INT_RX_MASK != UART_INT_RX_MASK {
            return false;
        }
        bus.read32(UART0_BASE + UART_CR) & (UART_CR_UARTEN | UART_CR_RXE) == UART_CR_UARTEN
            | UART_CR_RXE
    }

    /// Masks the receive interrupts, then clears them.
    pub fn mask_and_clear_rx_interrupt<B: Mmio>(&mut self, bus: &mut Bus<B>)
        ensures
            final(bus).trace@ == old(bus).trace@ + mask_rx_accesses(
                got(old(bus).trace@, final(bus).trace@, 0),
                got(old(bus).trace@, final(bus).trace@, 2),
            ) + seq![wr((UART0_BASE + UART_ICR) as usize, UART_INT_RX_MASK)],
    {
        let ghost t0 = bus.trace@;
        mask_uart0_rx_interrupt(bus);
        let ghost t1 = bus.trace@;
        bus.write32(UART0_BASE + UART_ICR, UART_INT_RX_MASK);
        assert(bus.trace@ =~= t0 + mask_rx_accesses(got(t0, t1, 0), got(t0, t1, 2)) + seq![wr((UART0_BASE + UART_ICR) as usize, UART_INT_RX_MASK)]);
    }

    fn finish_irq<B: Mmio>(&mut self, bus: &mut Bus<B>, decision: u32)
        ensures
            final(self).irq == (Uart0IrqState {
                decision,
                final_ris: final(self).irq.final_ris,
                final_mis: final(self).irq.final_mis,
                ..old(self).irq
            }),
            final(self).snapshots == old(self).snapshots,
            final(self).first_byte_pending == old(self).first_byte_pending,
            final(self).first_buffer_pending == old(self).first_buffer_pending,
            final(bus).trace@ == old(bus).trace@ + final(bus).trace@.skip(
                old(bus).trace@.len() as int,
            ),
            finish_accesses(final(bus).trace@.skip(old(bus).trace@.len() as int)),
            final(self).irq.final_ris == final(bus).trace@[final(bus).trace@.len() - 2].value,
            final(self).irq.final_mis == final(bus).trace@[final(bus).trace@.len() - 1].value,
    {
        let ghost t0 = bus.trace@;
        mask_uart0_rx_interrupt(bus);
        bus.write32(UART0_BASE + UART_ICR, UART_INT_RX_MASK);
        self.irq.final_ris = bus.read32(UART0_BASE + UART_RIS);
        self.irq.final_mis = bus.read32(UART0_BASE + UART_MIS);
        self.irq.decision = decision;
        proof {
            let seg = bus.trace@.skip(t0.len() as int);
            assert(bus.trace@ =~= t0 + seg);
            assert(seg =~= mask_rx_accesses(seg[0].value, seg[2].value) + seq![
                wr((UART0_BASE + UART_ICR) as usize, UART_INT_RX_MASK),
                rd((UART0_BASE + UART_RIS) as usize, seg[4].value),
                rd((UART0_BASE + UART_MIS) as usize, seg[5].value),
            ]);
        }
    }

    /// Drains the receive FIFO into the payload from the current count:
    /// returns the decision that ended the drain (pending when the FIFO ran
    /// empty) and the data words popped.
    #[verifier::rlimit(50)]
    fn drain_rx<B: Mmio>(&mut self, bus: &mut Bus<B>) -> (r: (u32, Ghost<Seq<u32>>))
        requires
            old(self).irq.byte_count <= old(self).irq.expected_len <= UART0_IRQ_PAYLOAD_MAX,
        ensures
            ({
                let start = old(self).irq;
                let c0 = start.byte_count as int;
                let e0 = start.expected_len as int;
                let terminal = r.0;
                let ds = r.1@;
                let seg = final(bus).trace@.skip(old(bus).trace@.len() as int);
                let count = final(self).irq.byte_count as int;
                &&& final(bus).trace@ == old(bus).trace@ + seg
                &&& final(self).snapshots == old(self).snapshots
                &&& final(self).first_byte_pending == old(self).first_byte_pending
                &&& final(self).first_buffer_pending == old(self).first_buffer_pending
                &&& final(self).irq.irq_count == start.irq_count
                &&& final(self).irq.expected_len == start.expected_len
                &&& final(self).irq.decision == start.decision
                &&& final(self).irq.ipsr == start.ipsr
                &&& final(self).irq.first_ris == start.first_ris
                &&& final(self).irq.first_mis == start.first_mis
                &&& final(self).irq.final_ris == start.final_ris
                &&& final(self).irq.final_mis == start.final_mis
                &&& c0 <= count <= e0
                &&& terminal == UART0_IRQ_DECISION_PENDING ==> {
                    &&& clean(c0, e0, ds)
                    &&& count == c0 + ds.len()
                    &&& final(self).irq.payload@ == stored(start.payload@, c0, ds)
                    &&& final(self).irq.rsr == start.rsr
                    &&& seg.len() >= 1 && popped(seg.drop_last(), ds)
                    &&& seg.last() == rd((UART0_BASE + UART_FR) as usize, seg.last().value)
                    &&& seg.last().value & UART_FR_RXFE != 0
                }
                &&& terminal != UART0_IRQ_DECISION_PENDING ==> {
                    &&& popped(seg, ds) && ds.len() > 0
                    &&& clean(c0, e0, ds.drop_last())
                    &&& count == c0 + ds.len() - 1
                    &&& final(self).irq.payload@ == stored(start.payload@, c0, ds.drop_last())
                    &&& (terminal == UART0_IRQ_DECISION_DATA_ERROR && dr_errors(ds.last()) != 0
                        && final(self).irq.rsr == dr_errors(ds.last())) || (terminal
                        == UART0_IRQ_DECISION_OVERFLOW && dr_errors(ds.last()) == 0 && count
                        >= e0 && final(self).irq.rsr == start.rsr)
                }
            }),
    {
        let ghost t1 = bus.trace@;
        let expected = self.irq.expected_len as usize;
        let mut count = self.irq.byte_count as usize;
        let mut terminal = UART0_IRQ_DECISION_PENDING;
        let ghost start = self.irq;
        proof { assert(start.payload@.len() == UART0_IRQ_PAYLOAD_MAX); }
        let ghost c0 = start.byte_count as int;
        let ghost e0 = start.expected_len as int;
        let ghost mut ds: Seq<u32> = Seq::empty();
        let ghost mut seg: Seq<Access> = Seq::empty();
        let mut draining = true;
        proof {
            assert(start.payload@ =~= stored(start.payload@, c0, ds));
            assert(bus.trace@ =~= t1 + seg);
        }
        while draining
            invariant
                start.byte_count <= count <= expected,
                expected == start.expected_len,
                expected <= UART0_IRQ_PAYLOAD_MAX,
                c0 == start.byte_count,
                e0 == start.expected_len,
                self.irq.byte_count == count,
                self.irq.irq_count == start.irq_count,
                self.irq.expected_len == start.expected_len,
                self.irq.decision == start.decision,
                self.irq.ipsr == start.ipsr,
                self.irq.first_ris == start.first_ris,
                self.irq.first_mis == start.first_mis,
                self.irq.final_ris == start.final_ris,
                self.irq.final_mis == start.final_mis,
                self.snapshots == old(self).snapshots,
                self.first_byte_pending == old(self).first_byte_pending,
                self.first_buffer_pending == old(self).first_buffer_pending,
                start.payload@.len() == UART0_IRQ_PAYLOAD_MAX,
                bus.trace@ == t1 + seg,
                draining ==> terminal == UART0_IRQ_DECISION_PENDING,
                terminal == UART0_IRQ_DECISION_PENDING ==> {
                    &&& clean(c0, e0, ds)
                    &&& count == c0 + ds.len()
                    &&& self.irq.payload@ == stored(start.payload@, c0, ds)
                    &&& self.irq.rsr == start.rsr
                    &&& if draining {
                        popped(seg, ds)
                    } else {
                        &&& seg.len() >= 1 && popped(seg.drop_last(), ds)
                        &&& seg.last() == rd((UART0_BASE + UART_FR) as usize, seg.last().value)
                        &&& seg.last().value & UART_FR_RXFE != 0
                    }
                },
                terminal != UART0_IRQ_DECISION_PENDING ==> {
                    &&& !draining && popped(seg, ds) && ds.len() > 0
                    &&& clean(c0, e0, ds.drop_last())
                    &&& count == c0 + ds.len() - 1
                    &&& self.irq.payload@ == stored(start.payload@, c0, ds.drop_last())
                    &&& (terminal == UART0_IRQ_DECISION_DATA_ERROR && dr_errors(ds.last()) != 0
                        && self.irq.rsr == dr_errors(ds.last())) || (terminal
                        == UART0_IRQ_DECISION_OVERFLOW && dr_errors(ds.last()) == 0 && count
                        >= e0 && self.irq.rsr == start.rsr)
                },
            decreases UART0_IRQ_PAYLOAD_MAX - count + (if draining { 1int } else { 0int }),
        {
            let fr = bus.read32(UART0_BASE + UART_FR);
            if fr & UART_FR_RXFE != 0 {
                draining = false;
                proof {
                    let fr_read = rd((UART0_BASE + UART_FR) as usize, fr);
                    assert(seg.push(fr_read).drop_last() =~= seg);
                    seg = seg.push(fr_read);
                }
            } else {
                let data = bus.read32(UART0_BASE + UART_DR);
                let ghost pair = seq![
                    rd((UART0_BASE + UART_FR) as usize, fr),
                    rd((UART0_BASE + UART_DR) as usize, data),
                ];
                proof {
                    lemma_popped_push(seg, ds, fr, data);
                    assert(ds.push(data).drop_last() =~= ds);
                    assert(bus.trace@ =~= t1 + (seg + pair));
                    ds = ds.push(data);
                    seg = seg + pair;
                }
                let errors = (data & UART_DR_ERROR_MASK) >> 8u32;
                if errors != 0 {
                    self.irq.rsr = errors;
                    terminal = UART0_IRQ_DECISION_DATA_ERROR;
                    draining = false;
                } else if count >= expected || count >= UART0_IRQ_PAYLOAD_MAX {
                    terminal = UART0_IRQ_DECISION_OVERFLOW;
                    draining = false;
                } else {
                    self.irq.payload[count] = (data & UART_DR_DATA_MASK) as u8;
                    proof {
                        assert((data & UART_DR_ERROR_MASK) >> 8u32 == dr_errors(data));
                        lemma_stored_push(start.payload@, c0, ds.drop_last(), data);
                        lemma_clean_push(c0, e0, ds.drop_last(), data);
                        assert(ds.drop_last().push(data) =~= ds);
                    }
                    count += 1;
                    self.irq.byte_count = count as u32;
                }
            }
        }
        proof {
            assert(bus.trace@.skip(t1.len() as int) =~= seg);
        }
        (terminal, Ghost(ds))
    }

    /// Closes an entry after the drain: with every expected byte stored and
    /// no decision, one more FR read decides overflow (data left) or
    /// completion; a decision masks and clears the receive interrupt, no
    /// decision only clears it; RIS and MIS are then read.
    fn close_rx<B: Mmio>(&mut self, bus: &mut Bus<B>, terminal: u32)
        ensures
            ({
                let seg = final(bus).trace@.skip(old(bus).trace@.len() as int);
                let b = old(self).irq;
                let a = final(self).irq;
                let check = terminal == UART0_IRQ_DECISION_PENDING && b.byte_count == b.expected_len;
                &&& final(bus).trace@ == old(bus).trace@ + seg
                &&& final(self).snapshots == old(self).snapshots
                &&& final(self).first_byte_pending == old(self).first_byte_pending
                &&& final(self).first_buffer_pending == old(self).first_buffer_pending
                &&& a == Uart0IrqState {
                    decision: a.decision,
                    final_ris: seg[seg.len() - 2].value,
                    final_mis: seg[seg.len() - 1].value,
                    ..b
                }
                &&& if check {
                    &&& seg.len() >= 1 && seg[0] == rd((UART0_BASE + UART_FR) as usize, seg[0].value)
                    &&& finish_accesses(seg.skip(1))
                    &&& a.decision == if seg[0].value & UART_FR_RXFE == 0 {
                        UART0_IRQ_DECISION_OVERFLOW
                    } else {
                        UART0_IRQ_DECISION_COMPLETE
                    }
                } else if terminal != UART0_IRQ_DECISION_PENDING {
                    finish_accesses(seg) && a.decision == terminal
                } else {
                    pending_accesses(seg) && a.decision == b.decision
                }
            }),
    {
        let ghost t0 = bus.trace@;
        let mut decision = terminal;
        if terminal == UART0_IRQ_DECISION_PENDING && self.irq.byte_count == self.irq.expected_len {
            decision = if bus.read32(UART0_BASE + UART_FR) & UART_FR_RXFE == 0 {
                UART0_IRQ_DECISION_OVERFLOW
            } else {
                UART0_IRQ_DECISION_COMPLETE
            };
        }
        let ghost t1 = bus.trace@;
        if decision != UART0_IRQ_DECISION_PENDING {
            self.finish_irq(bus, decision);
        } else {
            bus.write32(UART0_BASE + UART_ICR, UART_INT_RX_MASK);
            self.irq.final_ris = bus.read32(UART0_BASE + UART_RIS);
            self.irq.final_mis = bus.read32(UART0_BASE + UART_MIS);
            assert(bus.trace@ =~= t1 + seq![
                wr((UART0_BASE + UART_ICR) as usize, UART_INT_RX_MASK),
                rd((UART0_BASE + UART_RIS) as usize, self.irq.final_ris),
                rd((UART0_BASE + UART_MIS) as usize, self.irq.final_mis),
            ]);
        }
        proof {
            let seg = bus.trace@.skip(t0.len() as int);
            assert(bus.trace@ =~= t0 + seg);
            assert(seg.skip(t1.len() - t0.len()) =~= bus.trace@.skip(t1.len() as int));
            assert(seg[seg.len() - 1] == bus.trace@[bus.trace@.len() - 1]);
            assert(seg[seg.len() - 2] == bus.trace@[bus.trace@.len() - 2]);
            if t1.len() > t0.len() {
                assert(seg[0] == t1[t0.len() as int]);
            }
            let b = old(self).irq;
            assert(self.irq == Uart0IrqState {
                decision: self.irq.decision,
                final_ris: seg[seg.len() - 2].value,
                final_mis: seg[seg.len() - 1].value,
                ..b
            });
            if terminal == UART0_IRQ_DECISION_PENDING && b.byte_count == b.expected_len {
                assert(t1.len() == t0.len() + 1);
                assert(seg.skip(1) =~= bus.trace@.skip(t1.len() as int));
                assert(finish_accesses(seg.skip(1)));
                assert(self.irq.decision == if seg[0].value & UART_FR_RXFE == 0 {
                    UART0_IRQ_DECISION_OVERFLOW
                } else {
                    UART0_IRQ_DECISION_COMPLETE
                });
            } else {
                assert(t1 == t0);
                assert(seg =~= bus.trace@.skip(t1.len() as int));
                if terminal == UART0_IRQ_DECISION_PENDING {
                    assert(seg =~= seq![
                        wr((UART0_BASE + UART_ICR) as usize, UART_INT_RX_MASK),
                        rd((UART0_BASE + UART_RIS) as usize, self.irq.final_ris),
                        rd((UART0_BASE + UART_MIS) as usize, self.irq.final_mis),
                    ]);
                    assert(pending_accesses(seg));
                } else {
                    assert(finish_accesses(seg));
                }
            }
        }
    }

    /// The receive interrupt handler, with the IPSR value of the entry: more
    /// than 32 entries is a storm, an entry without an RX source is
    /// spurious; otherwise it drains the FIFO into the payload and decides
    /// completion, a data error or an overflow, masking the interrupt on any
    /// decision.
    #[verifier::rlimit(100)]
    #[verifier::spinoff_prover]
    pub fn service_rx_interrupt<B: Mmio>(&mut self, bus: &mut Bus<B>, ipsr: u32)
        requires
            old(self).wf(),
        ensures
            final(self).wf(),
            irq_step_ok(old(self).irq, final(self).irq),
            final(self).snapshots == old(self).snapshots,
            old(bus).trace@.len() <= final(bus).trace@.len(),
            final(bus).trace@.take(old(bus).trace@.len() as int) == old(bus).trace@,
            rx_entry(
                old(self).irq,
                ipsr,
                final(bus).trace@.skip(old(bus).trace@.len() as int),
                final(self).irq,
            ),
    {
        let ghost t0 = bus.trace@;
        let entry = self.irq.irq_count.wrapping_add(1);
        self.irq.irq_count = entry;
        let ris = bus.read32(UART0_BASE + UART_RIS);
        let mis = bus.read32(UART0_BASE + UART_MIS);
        if entry == 1 {
            self.irq.ipsr = ipsr;
            self.irq.first_ris = ris;
            self.irq.first_mis = mis;
        }
        let ghost t1 = bus.trace@;
        assert(t1 =~= t0 + seq![
            rd((UART0_BASE + UART_RIS) as usize, ris),
            rd((UART0_BASE + UART_MIS) as usize, mis),
        ]);
        if entry > UART0_IRQ_ENTRY_MAX || mis & UART_INT_RX_MASK == 0 {
            let decision = if entry > UART0_IRQ_ENTRY_MAX {
                UART0_IRQ_DECISION_STORM
            } else {
                UART0_IRQ_DECISION_SPURIOUS
            };
            self.finish_irq(bus, decision);
            proof {
                let t = bus.trace@.skip(t0.len() as int);
                assert(bus.trace@.take(t0.len() as int) =~= t0);
                assert(t.skip(2) =~= bus.trace@.skip(t1.len() as int));
                assert(t[0] == bus.trace@[t0.len() as int]);
                assert(t[t.len() - 1] == bus.trace@[bus.trace@.len() - 1]);
                assert(t[t.len() - 2] == bus.trace@[bus.trace@.len() - 2]);
                assert(self.irq.payload@ =~= old(self).irq.payload@);
            }
            return;
        }
        let ghost start = self.irq;
        let ghost c0 = start.byte_count as int;
        let ghost e0 = start.expected_len as int;
        let (drain_terminal, Ghost(ds)) = self.drain_rx(bus);
        let mut terminal = drain_terminal;
        let count = self.irq.byte_count as usize;
        let expected = self.irq.expected_len as usize;
        let ghost seg = bus.trace@.skip(t1.len() as int);
        let ghost t2 = bus.trace@;
        let ghost loop_terminal = terminal;
        let ghost before_close = self.irq;
        self.close_rx(bus, terminal);
        let ghost t3 = t2;
        proof {
            let tf = bus.trace@;
            let t = tf.skip(t0.len() as int);
            let close = tf.skip(t2.len() as int);
            assert(tf.take(t0.len() as int) =~= t0);
            assert(tf =~= t2 + close);
            let nd: int = 2 * ds.len() as int;
            let popseg = if loop_terminal == UART0_IRQ_DECISION_PENDING {
                seg.drop_last()
            } else {
                seg
            };
            assert(t =~= seq![
                rd((UART0_BASE + UART_RIS) as usize, ris),
                rd((UART0_BASE + UART_MIS) as usize, mis),
            ] + seg + close);
            assert(t.subrange(2, 2 + nd) =~= popseg);
            let rest = t.skip(2 + nd);
            if loop_terminal == UART0_IRQ_DECISION_PENDING {
                assert(rest =~= seq![seg.last()] + close);
                assert(rest.skip(1) =~= close);
                if count == expected {
                    assert(rest[1] == close[0]);
                    assert(rest.skip(2) =~= close.skip(1));
                }
            } else {
                assert(rest =~= close);
            }
            assert(t[t.len() - 1] == tf[tf.len() - 1]);
            assert(t[t.len() - 2] == tf[tf.len() - 2]);
            assert(self.irq.payload@.subrange(0, c0) =~= old(self).irq.payload@.subrange(0, c0));
        }
    }

    /// The interrupt record, with the payload only once a decision was made,
    /// and the interrupt mask read now.
    pub fn rx_interrupt_snapshot<B: Mmio>(&self, bus: &mut Bus<B>) -> (r: Uart0IrqSnapshot)
        ensures
            r.decision == self.irq.decision && r.byte_count == self.irq.byte_count && r.irq_count
                == self.irq.irq_count && r.rsr == self.irq.rsr,
            r.payload@ == (if self.irq.decision != UART0_IRQ_DECISION_PENDING {
                self.irq.payload@
            } else {
                Seq::new(32, |i: int| 0u8)
            }),
    {
        let payload = if self.irq.decision != UART0_IRQ_DECISION_PENDING {
            self.irq.payload
        } else {
            let z = [0u8; 32];
            assert(z@ =~= Seq::new(32, |i: int| 0u8));
            z
        };
        let final_imsc = bus.read32(UART0_BASE + UART_IMSC);
        Uart0IrqSnapshot {
            decision: self.irq.decision,
            byte_count: self.irq.byte_count,
            irq_count: self.irq.irq_count,
            ipsr: self.irq.ipsr,
            first_ris: self.irq.first_ris,
            first_mis: self.irq.first_mis,
            final_ris: self.irq.final_ris,
            final_mis: self.irq.final_mis,
            rsr: self.irq.rsr,
            final_imsc,
            payload,
        }
    }

    /// The register snapshot recorded at initialization step `index`.
    pub fn readback_snapshot(&self, index: usize) -> (r: Uart0Snapshot)
        requires
            index < UART0_SNAPSHOT_COUNT,
        ensures
            r == self.snapshots[index as int],
    {
        self.snapshots[index]
    }
}

/// Reads IMSC (`imsc`) and writes it back without the receive bits,
/// reading it back (`back`).
pub open spec fn mask_rx_accesses(imsc: u32, back: u32) -> Seq<Access> {
    seq![rd((UART0_BASE + UART_IMSC) as usize, imsc)] + written_back(
        (UART0_BASE + UART_IMSC) as usize,
        imsc & !UART_INT_RX_MASK,
        back,
    )
}

pub fn mask_uart0_rx_interrupt<B: Mmio>(bus: &mut Bus<B>)
    ensures
        final(bus).trace@ == old(bus).trace@ + mask_rx_accesses(
            got(old(bus).trace@, final(bus).trace@, 0),
            got(old(bus).trace@, final(bus).trace@, 2),
        ),
{
    let ghost t0 = bus.trace@;
    let imsc = bus.read32(UART0_BASE + UART_IMSC);
    write_readback(bus, UART0_BASE + UART_IMSC, imsc & !UART_INT_RX_MASK);
    assert(bus.trace@ =~= t0 + mask_rx_accesses(imsc, got(t0, bus.trace@, 2)));
}

} // verus!
