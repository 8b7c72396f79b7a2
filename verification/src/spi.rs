//! The RP1 DesignWare SSI (SPI0) register map and its error type.

use vstd::prelude::*;
use crate::addr::SPI0_BASE;
use crate::bus::{
    got, lemma_polls_keep_prefix, mask_is, poll_mask, polls, rd, reads, wr, writes_of, Access, Bus,
    Mmio,
};
use crate::gpio::{ConfiguredPin, Function, Pin};

pub mod receive;

verus! {

pub const CTRLR0: usize = 0x00;
pub const SSIENR: usize = 0x08;
pub const SER: usize = 0x10;
pub const BAUDR: usize = 0x14;
pub const TXFTLR: usize = 0x18;
pub const RXFTLR: usize = 0x1c;
pub const TXFLR: usize = 0x20;
pub const RXFLR: usize = 0x24;
pub const SR: usize = 0x28;
pub const IMR: usize = 0x2c;
pub const ISR: usize = 0x30;
pub const RISR: usize = 0x34;
pub const DMACR: usize = 0x4c;
pub const IDR: usize = 0x58;
pub const VERSION: usize = 0x5c;
pub const DR: usize = 0x60;
pub const RX_SAMPLE_DLY: usize = 0xf0;
pub const CS_OVERRIDE: usize = 0xf4;

pub const VERSION_4_02: u32 = 0x3430_322a;
pub const CTRLR0_DFS_8BIT_TX_ONLY_MODE0: u32 = (7 << 16) | (1 << 8);
pub const SSI_ENABLE: u32 = 1;
pub const IRQ_TXEI: u32 = 1 << 0;
pub const SER_CS0: u32 = 1;
pub const SR_BUSY: u32 = 1 << 0;
pub const SR_TX_NOT_FULL: u32 = 1 << 1;
pub const SR_TX_EMPTY: u32 = 1 << 2;
pub const BAUD_DIV_100KHZ_AT_200MHZ: u32 = 2_000;
pub const FIFO_DEPTH_LIMIT: u16 = 256;
pub const CONTROL_POLL_LIMIT: u32 = 100_000;
pub const TRANSFER_POLL_LIMIT: u32 = 10_000_000;

#[derive(Clone, Copy, Debug, Eq, PartialEq, Structural)]
pub enum Spi0Error {
    Version(u32),
    DisableTimeout,
    EnableTimeout,
    FifoDepthUnknown,
    EmptyPayload,
    PayloadTooLong { len: usize, fifo_depth: u16 },
    TxFifoTimeout,
    TransferTimeout,
}

} // verus!

verus! {

pub struct Spi0 {
    pub private: (),
}

pub struct Spi0Host {
    pub cs0: ConfiguredPin<8, Function<0>>,
    pub miso: ConfiguredPin<9, Function<0>>,
    pub mosi: ConfiguredPin<10, Function<0>>,
    pub sclk: ConfiguredPin<11, Function<0>>,
    pub fifo_depth: u16,
}

#[derive(Clone, Copy, Debug, Eq, PartialEq, Structural)]
pub struct Spi0Snapshot {
    pub version: u32,
    pub id: u32,
    pub control: u32,
    pub enable: u32,
    pub baud_divisor: u32,
    pub status: u32,
    pub tx_fifo_level: u32,
    pub rx_fifo_level: u32,
    pub rx_sample_delay: u32,
    pub cs_override: u32,
    pub fifo_depth: u16,
    pub bytes_queued: u16,
}

#[derive(Clone, Copy, Debug, Eq, PartialEq, Structural)]
pub struct Spi0IrqSnapshot {
    pub version: u32,
    pub enable: u32,
    pub tx_fifo_threshold: u32,
    pub interrupt_mask: u32,
    pub raw_interrupt_status: u32,
    pub masked_interrupt_status: u32,
    pub tx_fifo_level: u32,
    pub status: u32,
}

#[derive(Clone, Copy, Debug, Eq, PartialEq, Structural)]
pub struct Spi0IrqSourceSnapshot {
    pub raw_interrupt_status: u32,
    pub masked_interrupt_status: u32,
}

/// The address of an SSI register.
pub fn reg(offset: usize) -> (r: usize)
    requires
        offset <= 0xf4,
    ensures
        r == SPI0_BASE + offset,
{
    SPI0_BASE + offset
}

/// The address of SSI register `offset`, in contracts.
pub open spec fn at(offset: usize) -> usize {
    (SPI0_BASE + offset) as usize
}

/// Reads a register until `mask` is set (or, with `set` false, clear), at
/// most `limit` times; whether it got there.
pub fn poll_bits<B: Mmio>(bus: &mut Bus<B>, offset: usize, mask: u32, set: bool, limit: u32) -> (r: bool)
    requires
        offset <= 0xf4,
    ensures
        polls(old(bus).trace@, final(bus).trace@, at(offset), mask_is(mask, set), limit as nat, r),
        writes_of(final(bus).trace@) == writes_of(old(bus).trace@),
{
    poll_mask(bus, reg(offset), mask, set, limit as usize)
}

/// Writing 0 to SSIENR, then a poll for the enable bit to clear; `ok`
/// says whether it cleared.
pub open spec fn ssi_disabled(before: Seq<Access>, after: Seq<Access>, ok: bool) -> bool {
    polls(before.push(wr(at(SSIENR), 0)), after, at(SSIENR), mask_is(SSI_ENABLE, false), CONTROL_POLL_LIMIT as nat, ok)
}

/// Disables the SSI and waits for the enable bit to clear.
pub fn disable<B: Mmio>(bus: &mut Bus<B>) -> (r: Result<(), Spi0Error>)
    ensures
        ssi_disabled(old(bus).trace@, final(bus).trace@, r is Ok),
        r is Ok || r == Err::<(), Spi0Error>(Spi0Error::DisableTimeout),
        writes_of(final(bus).trace@) == writes_of(old(bus).trace@).push((at(SSIENR), 0)),
{
    bus.write32(reg(SSIENR), 0);
    if poll_bits(bus, SSIENR, SSI_ENABLE, false, CONTROL_POLL_LIMIT) {
        Ok(())
    } else {
        Err(Spi0Error::DisableTimeout)
    }
}

/// What the stop writes hand to the bus.
pub open spec fn stop_written() -> Seq<(usize, u32)> {
    seq![(at(SER), 0), (at(SSIENR), 0)]
}

pub open spec fn stop_writes() -> Seq<Access> {
    seq![wr(at(SER), 0), wr(at(SSIENR), 0)]
}

/// A disable that succeeded leaves a trace whose poll found the bit clear,
/// so the same later trace is not that of a disable that timed out.
pub proof fn lemma_disable_not_both(first: Seq<Access>, disabled: Seq<Access>, after: Seq<Access>)
    requires
        ssi_disabled(first, disabled, true),
        after.len() > disabled.len(),
        forall|i: int| 0 <= i < disabled.len() ==> after[i] == disabled[i],
    ensures
        !ssi_disabled(first, after, false),
{
    let start = first.push(wr(at(SSIENR), 0));
    let v1 = choose|v: Seq<u32>| disabled == start + #[trigger] reads(at(SSIENR), v) && crate::bus::polled(v, mask_is(SSI_ENABLE, false), CONTROL_POLL_LIMIT as nat, true);
    assert(disabled == start + reads(at(SSIENR), v1));
    if ssi_disabled(first, after, false) {
        let v2 = choose|v: Seq<u32>| after == start + #[trigger] reads(at(SSIENR), v) && crate::bus::polled(v, mask_is(SSI_ENABLE, false), CONTROL_POLL_LIMIT as nat, false);
        assert(after == start + reads(at(SSIENR), v2));
        let k = v1.len() - 1;
        assert(after[start.len() + k] == disabled[start.len() + k]);
        assert(v2[k] == v1[k]);
        assert(k < v2.len() - 1);
        assert(!mask_is(SSI_ENABLE, false)(v2[k]));
    }
}

/// Deselects the target and disables the SSI.
pub fn stop<B: Mmio>(bus: &mut Bus<B>)
    ensures
        final(bus).trace@ == old(bus).trace@ + stop_writes(),
        writes_of(final(bus).trace@) == writes_of(old(bus).trace@) + stop_written(),
{
    let ghost t0 = bus.trace@;
    bus.write32(reg(SER), 0);
    bus.write32(reg(SSIENR), 0);
    assert(bus.trace@ =~= t0 + stop_writes());
}

/// The threshold probes with read-back values `values`: threshold `i + 1`
/// written, then read back as `values[i]`.
pub open spec fn probes(values: Seq<u32>) -> Seq<Access>
    decreases values.len(),
{
    if values.len() == 0 {
        Seq::empty()
    } else {
        probes(values.drop_last()) + seq![
            wr(at(TXFTLR), values.len() as u32),
            rd(at(TXFTLR), values.last()),
        ]
    }
}

/// The depth detection from `before` to `after`: probes of thresholds
/// 1, 2, .. whose read-backs match up to the last one, then threshold 0
/// written; the depth is the first threshold that does not read back, an
/// error when all of 1..256 do.
pub open spec fn depth_probed(values: Seq<u32>, before: Seq<Access>, after: Seq<Access>, r: Result<u16, Spi0Error>) -> bool {
    &&& 1 <= values.len() < FIFO_DEPTH_LIMIT
    &&& after == (before + probes(values)).push(wr(at(TXFTLR), 0))
    &&& forall|i: int| 0 <= i < values.len() - 1 ==> #[trigger] values[i] == i + 1
    &&& match r {
        Ok(d) => d == values.len() && values.last() != d,
        Err(e) => e == Spi0Error::FifoDepthUnknown && values.len() == FIFO_DEPTH_LIMIT - 1
            && values.last() == values.len(),
    }
}

/// The threshold writes of the first `n` probes: 1, 2, .., n.
pub open spec fn threshold_writes(n: nat) -> Seq<(usize, u32)> {
    Seq::new(n, |i: int| (at(TXFTLR), (i + 1) as u32))
}

/// The writes of a depth detection that probed `n` thresholds: those
/// thresholds, then threshold 0.
pub open spec fn probe_writes(n: nat) -> Seq<(usize, u32)> {
    threshold_writes(n).push((at(TXFTLR), 0u32))
}

/// The writes that make SPI0 a mode-0 host after the version check, for a
/// TX FIFO found `depth` deep: disable, no target selected, the depth
/// probe, then 8-bit transmit-only mode 0, the 100 kHz divider, both FIFO
/// thresholds zero, every interrupt masked and DMA off.
pub open spec fn host_setup_writes(depth: nat) -> Seq<(usize, u32)> {
    seq![(at(SSIENR), 0u32), (at(SER), 0u32)] + probe_writes(depth) + seq![
        (at(CTRLR0), CTRLR0_DFS_8BIT_TX_ONLY_MODE0),
        (at(BAUDR), BAUD_DIV_100KHZ_AT_200MHZ),
        (at(TXFTLR), 0u32),
        (at(RXFTLR), 0u32),
        (at(IMR), 0u32),
        (at(DMACR), 0u32),
    ]
}

/// The TX FIFO depth: the first threshold in 1..256 that does not read
/// back, or an error when every one does.
pub fn detect_fifo_depth<B: Mmio>(bus: &mut Bus<B>) -> (r: Result<u16, Spi0Error>)
    ensures
        r matches Ok(d) ==> 1 <= d < FIFO_DEPTH_LIMIT,
        r matches Err(e) ==> e == Spi0Error::FifoDepthUnknown,
        exists|values: Seq<u32>| #[trigger] depth_probed(values, old(bus).trace@, final(bus).trace@, r),
        writes_of(final(bus).trace@) == writes_of(old(bus).trace@) + probe_writes(match r {
            Ok(d) => d as nat,
            Err(_) => (FIFO_DEPTH_LIMIT - 1) as nat,
        }),
{
    let ghost t0 = bus.trace@;
    let ghost w0 = writes_of(t0);
    let ghost mut values: Seq<u32> = Seq::empty();
    let mut depth: u16 = 1;
    let mut found = false;
    assert(t0 + probes(values) =~= t0);
    assert(w0 + threshold_writes(0) =~= w0);
    while depth < FIFO_DEPTH_LIMIT && !found
        invariant
            1 <= depth <= FIFO_DEPTH_LIMIT,
            !found ==> values.len() == depth - 1,
            found ==> values.len() == depth && values.last() != depth && depth < FIFO_DEPTH_LIMIT,
            bus.trace@ == t0 + probes(values),
            w0 == writes_of(t0),
            writes_of(bus.trace@) == w0 + threshold_writes(values.len()),
            forall|i: int| 0 <= i < values.len() - (if found { 1int } else { 0int }) ==> #[trigger] values[i] == i + 1,
        decreases FIFO_DEPTH_LIMIT - depth + (if found { 0int } else { 1int }),
    {
        bus.write32(reg(TXFTLR), depth as u32);
        let back = bus.read32(reg(TXFTLR));
        let ghost prev = values;
        proof {
            values = values.push(back);
            assert(values.drop_last() =~= prev);
            assert(bus.trace@ =~= t0 + probes(values));
            assert(w0 + threshold_writes(values.len()) =~= (w0 + threshold_writes(prev.len())).push(
                (at(TXFTLR), depth as u32),
            ));
        }
        if back != depth as u32 {
            found = true;
        } else {
            depth += 1;
        }
    }
    bus.write32(reg(TXFTLR), 0);
    assert(writes_of(bus.trace@) =~= w0 + probe_writes(values.len()));
    if found {
        assert(depth_probed(values, t0, bus.trace@, Ok(depth)));
        Ok(depth)
    } else {
        assert(depth_probed(values, t0, bus.trace@, Err(Spi0Error::FifoDepthUnknown)));
        Err(Spi0Error::FifoDepthUnknown)
    }
}

/// The reads an interrupt snapshot makes, in order, and the values they
/// gave.
pub open spec fn irq_snapshot_reads(r: Spi0IrqSnapshot) -> Seq<Access> {
    seq![
        rd(at(VERSION), r.version),
        rd(at(SSIENR), r.enable),
        rd(at(TXFTLR), r.tx_fifo_threshold),
        rd(at(IMR), r.interrupt_mask),
        rd(at(RISR), r.raw_interrupt_status),
        rd(at(ISR), r.masked_interrupt_status),
        rd(at(TXFLR), r.tx_fifo_level),
        rd(at(SR), r.status),
    ]
}

pub fn spi0_irq_snapshot<B: Mmio>(bus: &mut Bus<B>) -> (r: Spi0IrqSnapshot)
    ensures
        final(bus).trace@ == old(bus).trace@ + irq_snapshot_reads(r),
{
    let version = bus.read32(reg(VERSION));
    let enable = bus.read32(reg(SSIENR));
    let tx_fifo_threshold = bus.read32(reg(TXFTLR));
    let interrupt_mask = bus.read32(reg(IMR));
    let raw_interrupt_status = bus.read32(reg(RISR));
    let masked_interrupt_status = bus.read32(reg(ISR));
    let tx_fifo_level = bus.read32(reg(TXFLR));
    let status = bus.read32(reg(SR));
    let r = Spi0IrqSnapshot {
        version,
        enable,
        tx_fifo_threshold,
        interrupt_mask,
        raw_interrupt_status,
        masked_interrupt_status,
        tx_fifo_level,
        status,
    };
    assert(bus.trace@ =~= old(bus).trace@ + irq_snapshot_reads(r));
    r
}

pub fn spi0_irq_source_snapshot<B: Mmio>(bus: &mut Bus<B>) -> (r: Spi0IrqSourceSnapshot)
    ensures
        final(bus).trace@ == old(bus).trace@ + seq![
            rd(at(RISR), r.raw_interrupt_status),
            rd(at(ISR), r.masked_interrupt_status),
        ],
{
    let raw_interrupt_status = bus.read32(reg(RISR));
    let masked_interrupt_status = bus.read32(reg(ISR));
    let r = Spi0IrqSourceSnapshot { raw_interrupt_status, masked_interrupt_status };
    assert(bus.trace@ =~= old(bus).trace@ + seq![
        rd(at(RISR), r.raw_interrupt_status),
        rd(at(ISR), r.masked_interrupt_status),
    ]);
    r
}

/// Unmasks only the TX-empty interrupt and reads the interrupt registers
/// back.
pub fn spi0_unmask_tx_empty_irq<B: Mmio>(bus: &mut Bus<B>) -> (r: Spi0IrqSnapshot)
    ensures
        final(bus).trace@ == old(bus).trace@.push(wr(at(IMR), IRQ_TXEI)) + irq_snapshot_reads(r),
{
    bus.write32(reg(IMR), IRQ_TXEI);
    spi0_irq_snapshot(bus)
}

pub fn spi0_mask_tx_empty_irq<B: Mmio>(bus: &mut Bus<B>)
    ensures
        final(bus).trace@ == old(bus).trace@.push(wr(at(IMR), 0)),
{
    bus.write32(reg(IMR), 0);
}

/// Masks every SSI interrupt and disables the SSI.
pub fn spi0_cleanup_tx_empty_irq<B: Mmio>(bus: &mut Bus<B>)
    ensures
        final(bus).trace@ == old(bus).trace@ + seq![wr(at(IMR), 0), wr(at(SSIENR), 0)],
{
    let ghost t0 = bus.trace@;
    bus.write32(reg(IMR), 0);
    bus.write32(reg(SSIENR), 0);
    assert(bus.trace@ =~= t0 + seq![wr(at(IMR), 0), wr(at(SSIENR), 0)]);
}

/// The transmit-only mode 0 setup writes, with every interrupt masked and
/// the SSI enabled last.
pub open spec fn tx_setup_writes() -> Seq<Access> {
    seq![
        wr(at(SER), 0),
        wr(at(CTRLR0), CTRLR0_DFS_8BIT_TX_ONLY_MODE0),
        wr(at(BAUDR), BAUD_DIV_100KHZ_AT_200MHZ),
        wr(at(TXFTLR), 0),
        wr(at(RXFTLR), 0),
        wr(at(IMR), 0),
        wr(at(DMACR), 0),
        wr(at(SSIENR), SSI_ENABLE),
    ]
}

/// `prepare_tx_empty_irq` from `before` to `after`: the version read;
/// then the disable, ending at `disabled`; the setup writes; a poll for
/// the enable bit, ending at `enabled`; then a snapshot, or on a timeout
/// the stop writes.
pub open spec fn tx_empty_prepared(
    before: Seq<Access>,
    disabled: Seq<Access>,
    enabled: Seq<Access>,
    after: Seq<Access>,
    r: Result<Spi0IrqSnapshot, Spi0Error>,
) -> bool {
    let version = got(before, after, 0);
    let first = before.push(rd(at(VERSION), version));
    if version != VERSION_4_02 {
        after == first && r == Err::<Spi0IrqSnapshot, Spi0Error>(Spi0Error::Version(version))
    } else if ssi_disabled(first, after, false) && r == Err::<Spi0IrqSnapshot, Spi0Error>(Spi0Error::DisableTimeout) {
        true
    } else {
        &&& ssi_disabled(first, disabled, true)
        &&& match r {
            Ok(snapshot) => polls(disabled + tx_setup_writes(), enabled, at(SSIENR), mask_is(SSI_ENABLE, true), CONTROL_POLL_LIMIT as nat, true)
                && after == enabled + irq_snapshot_reads(snapshot),
            Err(e) => e == Spi0Error::EnableTimeout && polls(disabled + tx_setup_writes(), enabled, at(SSIENR), mask_is(SSI_ENABLE, true), CONTROL_POLL_LIMIT as nat, false)
                && after == enabled + stop_writes(),
        }
    }
}

impl Spi0 {
    /// Checks the SSI version, detects the FIFO depth and configures
    /// transmit-only mode 0 at 100 kHz from 200 MHz.
    pub fn into_host_mode0_100khz<B: Mmio>(
        self,
        bus: &mut Bus<B>,
        cs0: Pin<8>,
        miso: Pin<9>,
        mosi: Pin<10>,
        sclk: Pin<11>,
    ) -> (r: Result<Spi0Host, Spi0Error>)
        ensures
            r matches Ok(h) ==> 1 <= h.fifo_depth < FIFO_DEPTH_LIMIT,
            r matches Err(e) ==> (e is Version || e == Spi0Error::DisableTimeout || e
                == Spi0Error::FifoDepthUnknown),
            writes_of(final(bus).trace@) == writes_of(old(bus).trace@) + match r {
                Ok(h) => host_setup_writes(h.fifo_depth as nat),
                Err(Spi0Error::DisableTimeout) => seq![(at(SSIENR), 0u32)],
                Err(Spi0Error::FifoDepthUnknown) => seq![(at(SSIENR), 0u32), (at(SER), 0u32)]
                    + probe_writes((FIFO_DEPTH_LIMIT - 1) as nat),
                Err(_) => Seq::empty(),
            },
            r matches Err(Spi0Error::Version(v)) ==> v != VERSION_4_02 && final(bus).trace@
                == old(bus).trace@.push(rd(at(VERSION), v)),
    {
        let ghost w0 = writes_of(bus.trace@);
        let version = bus.read32(reg(VERSION));
        if version != VERSION_4_02 {
            return Err(Spi0Error::Version(version));
        }
        match disable(bus) {
            Ok(()) => {},
            Err(e) => {
                return Err(e);
            },
        }
        bus.write32(reg(SER), 0);
        let fifo_depth = match detect_fifo_depth(bus) {
            Ok(d) => d,
            Err(e) => {
                return Err(e);
            },
        };
        bus.write32(reg(CTRLR0), CTRLR0_DFS_8BIT_TX_ONLY_MODE0);
        bus.write32(reg(BAUDR), BAUD_DIV_100KHZ_AT_200MHZ);
        bus.write32(reg(TXFTLR), 0);
        bus.write32(reg(RXFTLR), 0);
        bus.write32(reg(IMR), 0);
        bus.write32(reg(DMACR), 0);
        assert(writes_of(bus.trace@) =~= w0 + host_setup_writes(fifo_depth as nat));
        let cs0 = cs0.into_function::<0>();
        let miso = miso.into_function::<0>();
        let mosi = mosi.into_function::<0>();
        let sclk = sclk.into_function::<0>();
        Ok(Spi0Host { cs0, miso, mosi, sclk, fifo_depth })
    }

    /// Prepares the TX-empty interrupt test: transmit-only mode 0, enabled,
    /// every interrupt masked.
    pub fn prepare_tx_empty_irq<B: Mmio>(&mut self, bus: &mut Bus<B>) -> (r: Result<
        Spi0IrqSnapshot,
        Spi0Error,
    >)
        ensures
            r matches Err(e) ==> (e is Version || e == Spi0Error::DisableTimeout || e
                == Spi0Error::EnableTimeout),
            exists|disabled: Seq<Access>, enabled: Seq<Access>|
                #[trigger] tx_empty_prepared(old(bus).trace@, disabled, enabled, final(bus).trace@, r),
    {
        let ghost t0 = bus.trace@;
        let version = bus.read32(reg(VERSION));
        let ghost first = bus.trace@;
        if version != VERSION_4_02 {
            assert(tx_empty_prepared(t0, first, first, bus.trace@, Err(Spi0Error::Version(version))));
            return Err(Spi0Error::Version(version));
        }
        let d = disable(bus);
        let ghost disabled = bus.trace@;
        proof {
            lemma_polls_keep_prefix(first.push(wr(at(SSIENR), 0)), disabled, at(SSIENR), mask_is(SSI_ENABLE, false), CONTROL_POLL_LIMIT as nat, d is Ok);
            assert(got(t0, disabled, 0) == version);
        }
        match d {
            Ok(()) => {},
            Err(e) => {
                assert(tx_empty_prepared(t0, disabled, disabled, bus.trace@, Err(e)));
                return Err(e);
            },
        }
        bus.write32(reg(SER), 0);
        bus.write32(reg(CTRLR0), CTRLR0_DFS_8BIT_TX_ONLY_MODE0);
        bus.write32(reg(BAUDR), BAUD_DIV_100KHZ_AT_200MHZ);
        bus.write32(reg(TXFTLR), 0);
        bus.write32(reg(RXFTLR), 0);
        bus.write32(reg(IMR), 0);
        bus.write32(reg(DMACR), 0);
        bus.write32(reg(SSIENR), SSI_ENABLE);
        assert(bus.trace@ =~= disabled + tx_setup_writes());
        let ghost setup = bus.trace@;
        let on = poll_bits(bus, SSIENR, SSI_ENABLE, true, CONTROL_POLL_LIMIT);
        let ghost enabled = bus.trace@;
        proof {
            lemma_polls_keep_prefix(setup, enabled, at(SSIENR), mask_is(SSI_ENABLE, true), CONTROL_POLL_LIMIT as nat, on);
            lemma_polls_keep_prefix(first.push(wr(at(SSIENR), 0)), disabled, at(SSIENR), mask_is(SSI_ENABLE, false), CONTROL_POLL_LIMIT as nat, true);
        }
        if !on {
            stop(bus);
            proof {
                assert(got(t0, bus.trace@, 0) == version);
                lemma_disable_not_both(first, disabled, bus.trace@);
            }
            assert(tx_empty_prepared(t0, disabled, enabled, bus.trace@, Err(Spi0Error::EnableTimeout)));
            return Err(Spi0Error::EnableTimeout);
        }
        let snapshot = spi0_irq_snapshot(bus);
        proof {
            assert(got(t0, bus.trace@, 0) == version);
            lemma_disable_not_both(first, disabled, bus.trace@);
        }
        assert(tx_empty_prepared(t0, disabled, enabled, bus.trace@, Ok(snapshot)));
        Ok(snapshot)
    }
}

/// The refusals that precede any register access, in order.
pub open spec fn write_refusal(len: nat, fifo_depth: u16) -> Option<Spi0Error> {
    if len == 0 {
        Some(Spi0Error::EmptyPayload)
    } else if len > fifo_depth {
        Some(Spi0Error::PayloadTooLong { len: len as usize, fifo_depth })
    } else {
        None
    }
}

/// The writes that set up a transfer after the disable: deselect,
/// transmit-only mode 0, the 100 kHz divider, enable.
pub open spec fn transfer_setup() -> Seq<(usize, u32)> {
    seq![
        (at(SSIENR), 0),
        (at(SER), 0),
        (at(CTRLR0), CTRLR0_DFS_8BIT_TX_ONLY_MODE0),
        (at(BAUDR), BAUD_DIV_100KHZ_AT_200MHZ),
        (at(SSIENR), SSI_ENABLE),
    ]
}

/// The first `n` payload bytes written to DR.
pub open spec fn dr_writes(payload: Seq<u8>, n: int) -> Seq<(usize, u32)> {
    Seq::new(n as nat, |i: int| (at(DR), payload[i] as u32))
}

/// What a write that got past the refusals hands to the bus, by outcome:
/// the disable; the setup; each payload byte to DR once the FIFO has room;
/// CS0 selected; on success CS released (SER 0) before the snapshot and the
/// SSI disabled after it; on any timeout the stop writes.
pub open spec fn spi_write_writes(payload: Seq<u8>, w: Seq<(usize, u32)>, r: Result<Spi0Snapshot, Spi0Error>) -> bool {
    let sent = transfer_setup() + dr_writes(payload, payload.len() as int) + seq![(at(SER), SER_CS0)];
    match r {
        Err(Spi0Error::DisableTimeout) => w == seq![(at(SSIENR), 0u32)] || w == sent + seq![
            (at(SER), 0u32),
            (at(SSIENR), 0u32),
        ],
        Err(Spi0Error::EnableTimeout) => w == transfer_setup() + stop_written(),
        Err(Spi0Error::TxFifoTimeout) => exists|k: int|
            0 <= k < payload.len() && w == transfer_setup() + #[trigger] dr_writes(payload, k) + stop_written(),
        Err(Spi0Error::TransferTimeout) => w == sent + stop_written(),
        Ok(_) => w == sent + seq![(at(SER), 0u32), (at(SSIENR), 0u32)],
        Err(_) => false,
    }
}

/// The transmitter is idle: not busy and its FIFO empty.
pub open spec fn idle_status(status: u32) -> bool {
    status & SR_BUSY == 0 && status & SR_TX_EMPTY != 0
}

/// One attempt of the drain poll, from the status read and, when the
/// status shows idle, the TX level read after it.
pub open spec fn attempt_trace(a: (u32, u32)) -> Seq<Access> {
    if idle_status(a.0) {
        seq![rd(at(SR), a.0), rd(at(TXFLR), a.1)]
    } else {
        seq![rd(at(SR), a.0)]
    }
}

/// The attempt found the transfer drained: idle with an empty TX level.
pub open spec fn attempt_done(a: (u32, u32)) -> bool {
    idle_status(a.0) && a.1 == 0
}

/// The accesses of the attempts `att`, in order.
pub open spec fn attempts_trace(att: Seq<(u32, u32)>) -> Seq<Access>
    decreases att.len(),
{
    if att.len() == 0 {
        Seq::empty()
    } else {
        attempts_trace(att.drop_last()) + attempt_trace(att.last())
    }
}

/// The drain poll stops at the first attempt that finds the transfer
/// drained (`done`), or after `TRANSFER_POLL_LIMIT` attempts that did not.
pub open spec fn transfer_polled(att: Seq<(u32, u32)>, done: bool) -> bool {
    &&& att.len() <= TRANSFER_POLL_LIMIT
    &&& forall|i: int| 0 <= i < att.len() - 1 ==> !attempt_done(#[trigger] att[i])
    &&& done ==> att.len() > 0 && attempt_done(att.last())
    &&& !done ==> att.len() == TRANSFER_POLL_LIMIT && (att.len() > 0 ==> !attempt_done(att.last()))
}

/// The payload bytes sent, cut at the marks `b`: before each byte a poll
/// of SR found room in the TX FIFO, then the byte went to DR.
pub open spec fn bytes_sent(payload: Seq<u8>, b: Seq<Seq<Access>>) -> bool {
    &&& 1 <= b.len() <= payload.len() + 1
    &&& forall|i: int|
        1 <= i < b.len() ==> (#[trigger] b[i]).len() > 0 && polls(
            b[i - 1],
            b[i].drop_last(),
            at(SR),
            mask_is(SR_TX_NOT_FULL, true),
            CONTROL_POLL_LIMIT as nat,
            true,
        ) && b[i].last() == wr(at(DR), payload[i - 1] as u32)
}

/// The reads of a snapshot after a transfer, in order.
pub open spec fn write_snapshot_reads(s: Spi0Snapshot) -> Seq<Access> {
    seq![
        rd(at(VERSION), s.version),
        rd(at(IDR), s.id),
        rd(at(CTRLR0), s.control),
        rd(at(SSIENR), s.enable),
        rd(at(BAUDR), s.baud_divisor),
        rd(at(SR), s.status),
        rd(at(TXFLR), s.tx_fifo_level),
        rd(at(RXFLR), s.rx_fifo_level),
        rd(at(RX_SAMPLE_DLY), s.rx_sample_delay),
        rd(at(CS_OVERRIDE), s.cs_override),
    ]
}

/// The accesses `t` after `t0` of a write of `payload` past the refusals,
/// and its outcome `r`, cut at the marks: `d` after the disable (its poll
/// succeeded when `disabled`), `e` after the enable poll (succeeded when
/// `enabled`), the byte marks `b`, `f` after a TX FIFO poll that ran out,
/// the drain attempts `att` (drained when `done`), and the snapshot `snap`
/// before the last disable (succeeded when `released`). Each timeout comes
/// exactly from the poll that ran out: the disable, the enable, room for a
/// byte, the drain, or the final disable; success needs every poll to
/// succeed, and reports the snapshot read.
pub open spec fn spi_write_trace(
    payload: Seq<u8>,
    fifo_depth: u16,
    t0: Seq<Access>,
    t: Seq<Access>,
    d: Seq<Access>,
    disabled: bool,
    e: Seq<Access>,
    enabled: bool,
    b: Seq<Seq<Access>>,
    f: Seq<Access>,
    att: Seq<(u32, u32)>,
    done: bool,
    snap: Spi0Snapshot,
    released: bool,
    r: Result<Spi0Snapshot, Spi0Error>,
) -> bool {
    &&& ssi_disabled(t0, d, disabled)
    &&& if !disabled {
        t == d && r == Err::<Spi0Snapshot, Spi0Error>(Spi0Error::DisableTimeout)
    } else {
        let setup = d + seq![
            wr(at(SER), 0),
            wr(at(CTRLR0), CTRLR0_DFS_8BIT_TX_ONLY_MODE0),
            wr(at(BAUDR), BAUD_DIV_100KHZ_AT_200MHZ),
            wr(at(SSIENR), SSI_ENABLE),
        ];
        &&& polls(setup, e, at(SSIENR), mask_is(SSI_ENABLE, true), CONTROL_POLL_LIMIT as nat, enabled)
        &&& if !enabled {
            t == e + stop_writes() && r == Err::<Spi0Snapshot, Spi0Error>(Spi0Error::EnableTimeout)
        } else {
            &&& b[0] == e && bytes_sent(payload, b)
            &&& if b.len() - 1 < payload.len() {
                &&& polls(b.last(), f, at(SR), mask_is(SR_TX_NOT_FULL, true), CONTROL_POLL_LIMIT as nat, false)
                &&& t == f + stop_writes()
                &&& r == Err::<Spi0Snapshot, Spi0Error>(Spi0Error::TxFifoTimeout)
            } else {
                let drained = b.last().push(wr(at(SER), SER_CS0)) + attempts_trace(att);
                &&& transfer_polled(att, done)
                &&& if !done {
                    t == drained + stop_writes() && r == Err::<Spi0Snapshot, Spi0Error>(
                        Spi0Error::TransferTimeout,
                    )
                } else {
                    &&& ssi_disabled(drained.push(wr(at(SER), 0)) + write_snapshot_reads(snap), t, released)
                    &&& snap.fifo_depth == fifo_depth && snap.bytes_queued == payload.len()
                    &&& r == if released {
                        Ok::<Spi0Snapshot, Spi0Error>(snap)
                    } else {
                        Err(Spi0Error::DisableTimeout)
                    }
                }
            }
        }
    }
}

impl Spi0Host {
    /// Sends `payload` (at most one FIFO) with CS0 asserted and waits for
    /// the transmitter to drain.
    #[verifier::rlimit(100)]
    #[verifier::spinoff_prover]
    pub fn write<B: Mmio>(&mut self, bus: &mut Bus<B>, payload: &[u8]) -> (r: Result<
        Spi0Snapshot,
        Spi0Error,
    >)
        ensures
            final(self).fifo_depth == old(self).fifo_depth,
            match write_refusal(payload@.len(), old(self).fifo_depth) {
                Some(e) => r == Err::<Spi0Snapshot, Spi0Error>(e) && final(bus).trace@ == old(bus).trace@,
                None => {
                    &&& match r {
                        Ok(s) => s.bytes_queued == payload@.len() && s.fifo_depth == old(self).fifo_depth,
                        Err(e) => e == Spi0Error::DisableTimeout || e == Spi0Error::EnableTimeout || e
                            == Spi0Error::TxFifoTimeout || e == Spi0Error::TransferTimeout,
                    }
                    &&& exists|w: Seq<(usize, u32)>|
                        writes_of(final(bus).trace@) == writes_of(old(bus).trace@) + w
                            && #[trigger] spi_write_writes(payload@, w, r)
                    &&& exists|
                        d: Seq<Access>,
                        disabled: bool,
                        e: Seq<Access>,
                        enabled: bool,
                        b: Seq<Seq<Access>>,
                        f: Seq<Access>,
                        att: Seq<(u32, u32)>,
                        done: bool,
                        snap: Spi0Snapshot,
                        released: bool,
                    |
                        #[trigger] spi_write_trace(
                            payload@,
                            old(self).fifo_depth,
                            old(bus).trace@,
                            final(bus).trace@,
                            d,
                            disabled,
                            e,
                            enabled,
                            b,
                            f,
                            att,
                            done,
                            snap,
                            released,
                            r,
                        )
                },
            },
    {
        let ghost w0 = writes_of(bus.trace@);
        let ghost t0 = bus.trace@;
        let ghost zsnap = Spi0Snapshot {
            version: 0,
            id: 0,
            control: 0,
            enable: 0,
            baud_divisor: 0,
            status: 0,
            tx_fifo_level: 0,
            rx_fifo_level: 0,
            rx_sample_delay: 0,
            cs_override: 0,
            fifo_depth: 0,
            bytes_queued: 0,
        };
        if payload.len() == 0 {
            return Err(Spi0Error::EmptyPayload);
        }
        if payload.len() > self.fifo_depth as usize {
            return Err(Spi0Error::PayloadTooLong { len: payload.len(), fifo_depth: self.fifo_depth });
        }
        let first = disable(bus);
        let ghost d = bus.trace@;
        match first {
            Ok(()) => {},
            Err(e) => {
                assert(writes_of(bus.trace@) =~= w0 + seq![(at(SSIENR), 0u32)]);
                assert(spi_write_writes(payload@, seq![(at(SSIENR), 0u32)], Err(e)));
                assert(spi_write_trace(payload@, self.fifo_depth, t0, bus.trace@, d, false, d, false, seq![d], d, Seq::empty(), false, zsnap, false, Err(e)));
                return Err(e);
            },
        }
        bus.write32(reg(SER), 0);
        bus.write32(reg(CTRLR0), CTRLR0_DFS_8BIT_TX_ONLY_MODE0);
        bus.write32(reg(BAUDR), BAUD_DIV_100KHZ_AT_200MHZ);
        bus.write32(reg(SSIENR), SSI_ENABLE);
        assert(bus.trace@ =~= d + seq![
            wr(at(SER), 0),
            wr(at(CTRLR0), CTRLR0_DFS_8BIT_TX_ONLY_MODE0),
            wr(at(BAUDR), BAUD_DIV_100KHZ_AT_200MHZ),
            wr(at(SSIENR), SSI_ENABLE),
        ]);
        assert(writes_of(bus.trace@) =~= w0 + transfer_setup());
        let enabled = poll_bits(bus, SSIENR, SSI_ENABLE, true, CONTROL_POLL_LIMIT);
        let ghost e = bus.trace@;
        if !enabled {
            stop(bus);
            assert(writes_of(bus.trace@) =~= w0 + (transfer_setup() + stop_written()));
            assert(spi_write_writes(payload@, transfer_setup() + stop_written(), Err(Spi0Error::EnableTimeout)));
            assert(spi_write_trace(payload@, self.fifo_depth, t0, bus.trace@, d, true, e, false, seq![e], e, Seq::empty(), false, zsnap, false, Err(Spi0Error::EnableTimeout)));
            return Err(Spi0Error::EnableTimeout);
        }
        let mut index: usize = 0;
        let mut full = false;
        let ghost mut b: Seq<Seq<Access>> = seq![e];
        assert(w0 + transfer_setup() + dr_writes(payload@, 0) =~= w0 + transfer_setup());
        while index < payload.len() && !full
            invariant
                index <= payload@.len(),
                payload@.len() <= self.fifo_depth,
                writes_of(bus.trace@) == w0 + transfer_setup() + dr_writes(payload@, index as int),
                full ==> index < payload@.len(),
                b.len() == index + 1,
                b[0] == e,
                bytes_sent(payload@, b),
                !full ==> b.last() == bus.trace@,
                full ==> polls(b.last(), bus.trace@, at(SR), mask_is(SR_TX_NOT_FULL, true), CONTROL_POLL_LIMIT as nat, false),
            decreases payload@.len() - index + (if full { 0int } else { 1int }),
        {
            let room = poll_bits(bus, SR, SR_TX_NOT_FULL, true, CONTROL_POLL_LIMIT);
            if !room {
                full = true;
            } else {
                let ghost polled = bus.trace@;
                let ghost b0 = b;
                bus.write32(reg(DR), payload[index] as u32);
                proof {
                    b = b.push(bus.trace@);
                    assert(bus.trace@.drop_last() =~= polled);
                    assert forall|i: int| 1 <= i < b.len() implies (#[trigger] b[i]).len() > 0 && polls(
                        b[i - 1],
                        b[i].drop_last(),
                        at(SR),
                        mask_is(SR_TX_NOT_FULL, true),
                        CONTROL_POLL_LIMIT as nat,
                        true,
                    ) && b[i].last() == wr(at(DR), payload@[i - 1] as u32) by {
                        if i < b0.len() {
                            assert(b[i] == b0[i]);
                            assert(b[i - 1] == b0[i - 1]);
                        } else {
                            assert(b[i - 1] == b0.last());
                        }
                    }
                }
                index += 1;
                assert(writes_of(bus.trace@) =~= w0 + transfer_setup() + dr_writes(payload@, index as int));
            }
        }
        if full {
            let ghost f = bus.trace@;
            stop(bus);
            let ghost w = transfer_setup() + dr_writes(payload@, index as int) + stop_written();
            assert(writes_of(bus.trace@) =~= w0 + w);
            assert(spi_write_writes(payload@, w, Err(Spi0Error::TxFifoTimeout)));
            assert(spi_write_trace(payload@, self.fifo_depth, t0, bus.trace@, d, true, e, true, b, f, Seq::empty(), false, zsnap, false, Err(Spi0Error::TxFifoTimeout)));
            return Err(Spi0Error::TxFifoTimeout);
        }
        bus.write32(reg(SER), SER_CS0);
        let ghost cs = bus.trace@;
        let ghost sent = transfer_setup() + dr_writes(payload@, payload@.len() as int) + seq![(at(SER), SER_CS0)];
        assert(writes_of(bus.trace@) =~= w0 + sent);
        let mut done = false;
        let mut i: u32 = 0;
        let ghost mut att: Seq<(u32, u32)> = Seq::empty();
        assert(cs + attempts_trace(att) =~= cs);
        while i < TRANSFER_POLL_LIMIT && !done
            invariant
                writes_of(bus.trace@) == w0 + sent,
                payload@.len() <= self.fifo_depth,
                att.len() == i,
                i <= TRANSFER_POLL_LIMIT,
                bus.trace@ == cs + attempts_trace(att),
                done ==> att.len() > 0 && attempt_done(att.last()),
                forall|j: int| 0 <= j < att.len() - (if done { 1int } else { 0int }) ==> !attempt_done(#[trigger] att[j]),
            decreases TRANSFER_POLL_LIMIT - i,
        {
            let ghost before = bus.trace@;
            let status = bus.read32(reg(SR));
            let mut level: u32 = 0;
            if status & SR_BUSY == 0 && status & SR_TX_EMPTY != 0 {
                level = bus.read32(reg(TXFLR));
                if level == 0 {
                    done = true;
                }
            }
            proof {
                let a = (status, level);
                let att0 = att;
                att = att.push(a);
                assert(att.drop_last() =~= att0);
                assert(bus.trace@ =~= before + attempt_trace(a));
                assert(bus.trace@ =~= cs + attempts_trace(att));
                assert forall|j: int| 0 <= j < att.len() - (if done { 1int } else { 0int }) implies !attempt_done(#[trigger] att[j]) by {
                    if j < att0.len() {
                        assert(att[j] == att0[j]);
                    }
                }
            }
            i += 1;
        }
        if !done {
            let ghost drained = bus.trace@;
            stop(bus);
            assert(writes_of(bus.trace@) =~= w0 + (sent + stop_written()));
            assert(spi_write_writes(payload@, sent + stop_written(), Err(Spi0Error::TransferTimeout)));
            assert(spi_write_trace(payload@, self.fifo_depth, t0, bus.trace@, d, true, e, true, b, e, att, false, zsnap, false, Err(Spi0Error::TransferTimeout)));
            return Err(Spi0Error::TransferTimeout);
        }
        let ghost drained = bus.trace@;
        bus.write32(reg(SER), 0);
        let version = bus.read32(reg(VERSION));
        let id = bus.read32(reg(IDR));
        let control = bus.read32(reg(CTRLR0));
        let enable = bus.read32(reg(SSIENR));
        let baud_divisor = bus.read32(reg(BAUDR));
        let status = bus.read32(reg(SR));
        let tx_fifo_level = bus.read32(reg(TXFLR));
        let rx_fifo_level = bus.read32(reg(RXFLR));
        let rx_sample_delay = bus.read32(reg(RX_SAMPLE_DLY));
        let cs_override = bus.read32(reg(CS_OVERRIDE));
        let snapshot = Spi0Snapshot {
            version,
            id,
            control,
            enable,
            baud_divisor,
            status,
            tx_fifo_level,
            rx_fifo_level,
            rx_sample_delay,
            cs_override,
            fifo_depth: self.fifo_depth,
            bytes_queued: payload.len() as u16,
        };
        assert(bus.trace@ =~= drained.push(wr(at(SER), 0)) + write_snapshot_reads(snapshot));
        let last = disable(bus);
        let ghost w = sent + seq![(at(SER), 0u32), (at(SSIENR), 0u32)];
        assert(writes_of(bus.trace@) =~= w0 + w);
        match last {
            Ok(()) => {},
            Err(err) => {
                assert(spi_write_writes(payload@, w, Err(err)));
                assert(spi_write_trace(payload@, self.fifo_depth, t0, bus.trace@, d, true, e, true, b, e, att, true, snapshot, false, Err(err)));
                return Err(err);
            },
        }
        assert(spi_write_writes(payload@, w, Ok(snapshot)));
        assert(spi_write_trace(payload@, self.fifo_depth, t0, bus.trace@, d, true, e, true, b, e, att, true, snapshot, true, Ok(snapshot)));
        Ok(snapshot)
    }
}

} // verus!
