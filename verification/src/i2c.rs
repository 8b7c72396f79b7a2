//! I2C1 (DesignWare) as a 100 kHz host for short writes that fit the TX
//! FIFO.

use vstd::prelude::*;
use crate::addr::I2C1_BASE;
use crate::bus::{
    below, got, mask_is, poll_below, poll_mask, polls, rd, reads, wr, writes_of, Access, Bus, Mmio,
};
use crate::gpio::{ConfiguredPin, Function, Pin};

verus! {

pub const IC_CON: usize = 0x00;
pub const IC_TAR: usize = 0x04;
pub const IC_DATA_CMD: usize = 0x10;
pub const IC_SS_SCL_HCNT: usize = 0x14;
pub const IC_SS_SCL_LCNT: usize = 0x18;
pub const IC_INTR_MASK: usize = 0x30;
pub const IC_RAW_INTR_STAT: usize = 0x34;
pub const IC_RX_TL: usize = 0x38;
pub const IC_TX_TL: usize = 0x3c;
pub const IC_CLR_INTR: usize = 0x40;
pub const IC_CLR_TX_ABRT: usize = 0x54;
pub const IC_CLR_STOP_DET: usize = 0x60;
pub const IC_ENABLE: usize = 0x6c;
pub const IC_STATUS: usize = 0x70;
pub const IC_TXFLR: usize = 0x74;
pub const IC_SDA_HOLD: usize = 0x7c;
pub const IC_TX_ABRT_SOURCE: usize = 0x80;
pub const IC_ENABLE_STATUS: usize = 0x9c;
pub const IC_COMP_PARAM_1: usize = 0xf4;
pub const IC_COMP_TYPE: usize = 0xfc;

pub const IC_COMP_TYPE_VALUE: u32 = 0x4457_0140;
pub const IC_CON_MASTER_STD_RESTART: u32 = (1 << 0) | (1 << 1) | (1 << 5) | (1 << 6);
pub const IC_DATA_CMD_STOP: u32 = 1 << 9;
pub const IC_INTR_TX_ABRT: u32 = 1 << 6;
pub const IC_INTR_STOP_DET: u32 = 1 << 9;
pub const IC_ENABLE_ENABLE: u32 = 1 << 0;

/// SCL counts that keep SCL at or below 100 kHz for clk_sys up to 200 MHz.
pub const IC_SS_HCNT_200MHZ: u32 = 781;
pub const IC_SS_LCNT_200MHZ: u32 = 1_186;
pub const IC_SDA_HOLD_200MHZ: u32 = IC_SS_LCNT_200MHZ / 2;

pub const CONTROL_POLL_LIMIT: u32 = 100_000;
pub const TRANSFER_POLL_LIMIT: u32 = 5_000_000;

pub struct I2c1 {
    pub private: (),
}

pub struct I2c1Host {
    pub sda: ConfiguredPin<2, Function<3>>,
    pub scl: ConfiguredPin<3, Function<3>>,
    pub tx_fifo_depth: u16,
}

#[derive(Clone, Copy, Debug, Eq, PartialEq, Structural)]
pub enum I2c1Error {
    ComponentType(u32),
    FifoTooShallow(u16),
    DisableTimeout,
    EnableTimeout,
    InvalidAddress(u8),
    EmptyPayload,
    PayloadTooLong { len: usize, fifo_depth: u16 },
    TxFifoTimeout,
    TxAbort(u32),
    StopTimeout,
}

#[derive(Clone, Copy, Debug, Eq, PartialEq, Structural)]
pub struct I2c1Snapshot {
    pub component_type: u32,
    pub component_parameter: u32,
    pub control: u32,
    pub target: u32,
    pub enable_status: u32,
    pub status: u32,
    pub raw_interrupt_status: u32,
    pub abort_source: u32,
    pub tx_fifo_depth: u16,
    pub bytes_queued: u16,
}

/// The TX FIFO depth that IC_COMP_PARAM_1 encodes (bits 16..24, plus one).
pub open spec fn fifo_depth_of(component_parameter: u32) -> u16 {
    (((component_parameter >> 16u32) & 0xff) + 1) as u16
}

pub fn tx_fifo_depth(component_parameter: u32) -> (r: u16)
    ensures
        r == fifo_depth_of(component_parameter),
        1 <= r <= 256,
{
    let field = (component_parameter >> 16u32) & 0xff;
    assert(field <= 0xff) by (bit_vector)
        requires
            field == (component_parameter >> 16u32) & 0xff,
    ;
    (field + 1) as u16
}

/// The DATA_CMD word that writes `byte`, with STOP on the last one.
pub fn data_command(byte: u8, last: bool) -> (r: u32)
    ensures
        r == (byte as u32) | (if last { IC_DATA_CMD_STOP } else { 0 }),
{
    (byte as u32) | if last { IC_DATA_CMD_STOP } else { 0 }
}

fn reg(offset: usize) -> (r: usize)
    requires
        offset <= 0xfc,
    ensures
        r == I2C1_BASE + offset,
{
    I2C1_BASE + offset
}

/// Disables the controller and waits, at most `CONTROL_POLL_LIMIT` reads,
/// for the enable status to clear.
pub fn disable<B: Mmio>(bus: &mut Bus<B>) -> (r: Result<(), I2c1Error>)
    ensures
        r is Ok || r == Err::<(), I2c1Error>(I2c1Error::DisableTimeout),
        polls(
            old(bus).trace@.push(wr((I2C1_BASE + IC_ENABLE) as usize, 0)),
            final(bus).trace@,
            (I2C1_BASE + IC_ENABLE_STATUS) as usize,
            mask_is(IC_ENABLE_ENABLE, false),
            CONTROL_POLL_LIMIT as nat,
            r is Ok,
        ),
        writes_of(final(bus).trace@) == writes_of(old(bus).trace@).push(((I2C1_BASE + IC_ENABLE) as usize, 0)),
{
    bus.write32(reg(IC_ENABLE), 0);
    if poll_mask(bus, reg(IC_ENABLE_STATUS), IC_ENABLE_ENABLE, false, CONTROL_POLL_LIMIT as usize) {
        Ok(())
    } else {
        Err(I2c1Error::DisableTimeout)
    }
}

impl I2c1 {
    /// Checks the component, configures a standard-mode 7-bit host and
    /// takes the two pins.
    pub fn into_host_100khz<B: Mmio>(self, bus: &mut Bus<B>, sda: Pin<2>, scl: Pin<3>) -> (r: Result<
        I2c1Host,
        I2c1Error,
    >)
        ensures
            r matches Ok(h) ==> h.tx_fifo_depth >= 2,
            r matches Err(e) ==> (e is ComponentType || e is FifoTooShallow || e
                == I2c1Error::DisableTimeout),
            writes_of(final(bus).trace@) == writes_of(old(bus).trace@) + match r {
                Ok(_) => host_setup_writes(),
                Err(I2c1Error::DisableTimeout) => seq![(at(IC_ENABLE), 0u32)],
                Err(_) => Seq::empty(),
            },
            r matches Err(I2c1Error::ComponentType(c)) ==> c != IC_COMP_TYPE_VALUE
                && final(bus).trace@ == old(bus).trace@.push(rd(at(IC_COMP_TYPE), c)),
            old(bus).trace@.len() + 2 <= final(bus).trace@.len() ==> ({
                let t0 = old(bus).trace@;
                let t = final(bus).trace@;
                &&& t[t0.len() as int] == rd(at(IC_COMP_TYPE), IC_COMP_TYPE_VALUE)
                &&& t[t0.len() as int + 1] == rd(at(IC_COMP_PARAM_1), got(t0, t, 1))
                &&& r matches Err(I2c1Error::FifoTooShallow(d)) ==> d == fifo_depth_of(got(t0, t, 1))
                    && d < 2 && t.len() == t0.len() + 2
                &&& r matches Ok(h) ==> h.tx_fifo_depth == fifo_depth_of(got(t0, t, 1))
            }),
            r is Ok || r is Err && !(r matches Err(I2c1Error::ComponentType(_))) ==> old(
                bus,
            ).trace@.len() + 2 <= final(bus).trace@.len(),
    {
        let ghost t0 = bus.trace@;
        let component_type = bus.read32(reg(IC_COMP_TYPE));
        if component_type != IC_COMP_TYPE_VALUE {
            return Err(I2c1Error::ComponentType(component_type));
        }
        let component_parameter = bus.read32(reg(IC_COMP_PARAM_1));
        let ghost t1 = bus.trace@;
        let depth = tx_fifo_depth(component_parameter);
        if depth < 2 {
            return Err(I2c1Error::FifoTooShallow(depth));
        }
        match disable(bus) {
            Ok(()) => {},
            Err(e) => {
                return Err(e);
            },
        }
        bus.write32(reg(IC_INTR_MASK), 0);
        let _ = bus.read32(reg(IC_CLR_INTR));
        bus.write32(reg(IC_SS_SCL_HCNT), IC_SS_HCNT_200MHZ);
        bus.write32(reg(IC_SS_SCL_LCNT), IC_SS_LCNT_200MHZ);
        bus.write32(reg(IC_SDA_HOLD), IC_SDA_HOLD_200MHZ);
        bus.write32(reg(IC_TX_TL), 0);
        bus.write32(reg(IC_RX_TL), 0);
        bus.write32(reg(IC_CON), IC_CON_MASTER_STD_RESTART);
        assert(writes_of(bus.trace@) =~= writes_of(old(bus).trace@) + host_setup_writes());
        let sda = sda.into_function::<3>();
        let scl = scl.into_function::<3>();
        Ok(I2c1Host { sda, scl, tx_fifo_depth: depth })
    }
}

/// The writes that make I2C1 a standard-mode host once the component
/// checks passed: disable, every interrupt masked, the SCL high and low
/// counts and the SDA hold for 200 MHz, both FIFO thresholds zero, and the
/// host-mode control word.
pub open spec fn host_setup_writes() -> Seq<(usize, u32)> {
    seq![
        (at(IC_ENABLE), 0u32),
        (at(IC_INTR_MASK), 0u32),
        (at(IC_SS_SCL_HCNT), IC_SS_HCNT_200MHZ),
        (at(IC_SS_SCL_LCNT), IC_SS_LCNT_200MHZ),
        (at(IC_SDA_HOLD), IC_SDA_HOLD_200MHZ),
        (at(IC_TX_TL), 0u32),
        (at(IC_RX_TL), 0u32),
        (at(IC_CON), IC_CON_MASTER_STD_RESTART),
    ]
}

/// The refusals that precede any register access, in order.
pub open spec fn write_refusal(address: u8, len: nat, fifo_depth: u16) -> Option<I2c1Error> {
    if address > 0x7f {
        Some(I2c1Error::InvalidAddress(address))
    } else if len == 0 {
        Some(I2c1Error::EmptyPayload)
    } else if len > fifo_depth {
        Some(I2c1Error::PayloadTooLong { len: len as usize, fifo_depth })
    } else {
        None
    }
}

pub open spec fn at(offset: usize) -> usize {
    (I2C1_BASE + offset) as usize
}

/// The writes that address the target after the disable: disable, target
/// address, every interrupt masked, enable.
pub open spec fn write_setup(address: u8) -> Seq<(usize, u32)> {
    seq![
        (at(IC_ENABLE), 0u32),
        (at(IC_TAR), address as u32),
        (at(IC_INTR_MASK), 0u32),
        (at(IC_ENABLE), IC_ENABLE_ENABLE),
    ]
}

/// The first `n` DATA_CMD words of `payload`: each byte, STOP (bit 9) on
/// the last byte of the payload only.
pub open spec fn data_writes(payload: Seq<u8>, n: int) -> Seq<(usize, u32)> {
    Seq::new(
        n as nat,
        |i: int|
            (at(IC_DATA_CMD), (payload[i] as u32) | (if i + 1 == payload.len() {
                IC_DATA_CMD_STOP
            } else {
                0u32
            })),
    )
}

/// What a write past the refusals hands to the bus, by outcome.
pub open spec fn i2c_write_writes(address: u8, payload: Seq<u8>, w: Seq<(usize, u32)>, r: Result<I2c1Snapshot, I2c1Error>) -> bool {
    match r {
        Err(I2c1Error::DisableTimeout) => w == seq![(at(IC_ENABLE), 0u32)],
        Err(I2c1Error::EnableTimeout) => w == write_setup(address),
        Err(I2c1Error::TxFifoTimeout) => exists|k: int|
            0 <= k < payload.len() && w == write_setup(address) + #[trigger] data_writes(payload, k),
        _ => w == write_setup(address) + data_writes(payload, payload.len() as int),
    }
}

/// The data command word for byte `i` of `payload`: STOP on the last.
pub open spec fn data_word(payload: Seq<u8>, i: int) -> u32 {
    (payload[i] as u32) | (if i + 1 == payload.len() {
        IC_DATA_CMD_STOP
    } else {
        0u32
    })
}

/// The payload bytes queued, cut at the marks `b`: before each command
/// word a poll of IC_TXFLR found the TX level below the FIFO depth, then
/// the word went to DATA_CMD.
pub open spec fn bytes_queued(payload: Seq<u8>, depth: u16, b: Seq<Seq<Access>>) -> bool {
    &&& 1 <= b.len() <= payload.len() + 1
    &&& forall|i: int|
        1 <= i < b.len() ==> (#[trigger] b[i]).len() > 0 && polls(
            b[i - 1],
            b[i].drop_last(),
            at(IC_TXFLR),
            below(depth as u32),
            CONTROL_POLL_LIMIT as nat,
            true,
        ) && b[i].last() == wr(at(IC_DATA_CMD), data_word(payload, i - 1))
}

/// The reads of a controller snapshot, in order.
pub open spec fn snapshot_reads(s: I2c1Snapshot) -> Seq<Access> {
    seq![
        rd(at(IC_COMP_TYPE), s.component_type),
        rd(at(IC_COMP_PARAM_1), s.component_parameter),
        rd(at(IC_CON), s.control),
        rd(at(IC_TAR), s.target),
        rd(at(IC_ENABLE_STATUS), s.enable_status),
        rd(at(IC_STATUS), s.status),
        rd(at(IC_RAW_INTR_STAT), s.raw_interrupt_status),
    ]
}

/// A raw interrupt status with neither an abort nor a STOP.
pub open spec fn quiet_raw(v: u32) -> bool {
    v & IC_INTR_TX_ABRT == 0 && v & IC_INTR_STOP_DET == 0
}

/// The wait for the end of a transfer, from `base` to `t`: the raw status
/// read while it shows neither an abort nor a STOP (`waits`), at most
/// `TRANSFER_POLL_LIMIT` times; an abort then reads its source and clears
/// it, the source reported; a STOP is cleared and a snapshot `snap` taken
/// and reported; no end within the limit is a STOP timeout.
pub open spec fn stop_waited(
    base: Seq<Access>,
    t: Seq<Access>,
    waits: Seq<u32>,
    snap: I2c1Snapshot,
    depth: u16,
    len: nat,
    r: Result<I2c1Snapshot, I2c1Error>,
) -> bool {
    let polled = base + reads(at(IC_RAW_INTR_STAT), waits);
    let tail = t.skip(polled.len() as int);
    let raw = tail[0].value;
    &&& waits.len() <= TRANSFER_POLL_LIMIT
    &&& forall|i: int| 0 <= i < waits.len() ==> quiet_raw(#[trigger] waits[i])
    &&& t.len() >= polled.len() && t.take(polled.len() as int) == polled
    &&& if waits.len() == TRANSFER_POLL_LIMIT {
        tail.len() == 0 && r == Err::<I2c1Snapshot, I2c1Error>(I2c1Error::StopTimeout)
    } else if raw & IC_INTR_TX_ABRT != 0 {
        &&& tail == seq![
            rd(at(IC_RAW_INTR_STAT), raw),
            rd(at(IC_TX_ABRT_SOURCE), tail[1].value),
            rd(at(IC_CLR_TX_ABRT), tail[2].value),
        ]
        &&& r == Err::<I2c1Snapshot, I2c1Error>(I2c1Error::TxAbort(tail[1].value))
    } else {
        &&& raw & IC_INTR_STOP_DET != 0
        &&& tail == seq![rd(at(IC_RAW_INTR_STAT), raw), rd(at(IC_CLR_STOP_DET), tail[1].value)]
            + snapshot_reads(snap)
        &&& snap.bytes_queued == len && snap.abort_source == 0 && snap.tx_fifo_depth == depth
        &&& r == Ok::<I2c1Snapshot, I2c1Error>(snap)
    }
}

/// The accesses `t` after `t0` of a write of `payload` to `address` past
/// the refusals, and its outcome `r`, cut at the marks: `d` after the
/// disable (its poll succeeded when `disabled`), `e` after the enable poll
/// (when `enabled`), the byte marks `b`, `f` after a TX-level poll that ran
/// out, then the wait for STOP. Each timeout comes exactly from the poll
/// that ran out; success needs STOP within the limit.
pub open spec fn i2c_write_trace(
    address: u8,
    payload: Seq<u8>,
    depth: u16,
    t0: Seq<Access>,
    t: Seq<Access>,
    d: Seq<Access>,
    disabled: bool,
    e: Seq<Access>,
    enabled: bool,
    b: Seq<Seq<Access>>,
    f: Seq<Access>,
    waits: Seq<u32>,
    snap: I2c1Snapshot,
    r: Result<I2c1Snapshot, I2c1Error>,
) -> bool {
    &&& polls(
        t0.push(wr(at(IC_ENABLE), 0)),
        d,
        at(IC_ENABLE_STATUS),
        mask_is(IC_ENABLE_ENABLE, false),
        CONTROL_POLL_LIMIT as nat,
        disabled,
    )
    &&& if !disabled {
        t == d && r == Err::<I2c1Snapshot, I2c1Error>(I2c1Error::DisableTimeout)
    } else {
        let setup = d + seq![
            wr(at(IC_TAR), address as u32),
            wr(at(IC_INTR_MASK), 0),
            rd(at(IC_CLR_INTR), t[d.len() as int + 2].value),
            wr(at(IC_ENABLE), IC_ENABLE_ENABLE),
        ];
        &&& polls(setup, e, at(IC_ENABLE), mask_is(IC_ENABLE_ENABLE, true), CONTROL_POLL_LIMIT as nat, enabled)
        &&& if !enabled {
            t == e && r == Err::<I2c1Snapshot, I2c1Error>(I2c1Error::EnableTimeout)
        } else {
            &&& b[0] == e && bytes_queued(payload, depth, b)
            &&& if b.len() - 1 < payload.len() {
                &&& polls(b.last(), f, at(IC_TXFLR), below(depth as u32), CONTROL_POLL_LIMIT as nat, false)
                &&& t == f && r == Err::<I2c1Snapshot, I2c1Error>(I2c1Error::TxFifoTimeout)
            } else {
                stop_waited(b.last(), t, waits, snap, depth, payload.len(), r)
            }
        }
    }
}

impl I2c1Host {
    /// Writes `payload` to the 7-bit `address`, STOP after the last byte,
    /// and waits for STOP or an abort.
    #[verifier::rlimit(100)]
    #[verifier::spinoff_prover]
    pub fn write<B: Mmio>(&mut self, bus: &mut Bus<B>, address: u8, payload: &[u8]) -> (r: Result<
        I2c1Snapshot,
        I2c1Error,
    >)
        ensures
            final(self).tx_fifo_depth == old(self).tx_fifo_depth,
            match write_refusal(address, payload@.len(), old(self).tx_fifo_depth) {
                Some(e) => r == Err::<I2c1Snapshot, I2c1Error>(e) && final(bus).trace@ == old(bus).trace@,
                None => {
                    &&& match r {
                        Ok(s) => s.bytes_queued == payload@.len() && s.abort_source == 0
                            && s.tx_fifo_depth == old(self).tx_fifo_depth,
                        Err(e) => e == I2c1Error::DisableTimeout || e == I2c1Error::EnableTimeout || e
                            == I2c1Error::TxFifoTimeout || e is TxAbort || e == I2c1Error::StopTimeout,
                    }
                    &&& exists|w: Seq<(usize, u32)>|
                        writes_of(final(bus).trace@) == writes_of(old(bus).trace@) + w
                            && #[trigger] i2c_write_writes(address, payload@, w, r)
                    &&& exists|
                        d: Seq<Access>,
                        disabled: bool,
                        e: Seq<Access>,
                        enabled: bool,
                        b: Seq<Seq<Access>>,
                        f: Seq<Access>,
                        waits: Seq<u32>,
                        snap: I2c1Snapshot,
                    |
                        #[trigger] i2c_write_trace(
                            address,
                            payload@,
                            old(self).tx_fifo_depth,
                            old(bus).trace@,
                            final(bus).trace@,
                            d,
                            disabled,
                            e,
                            enabled,
                            b,
                            f,
                            waits,
                            snap,
                            r,
                        )
                },
            },
    {
        let ghost w0 = writes_of(bus.trace@);
        let ghost t0 = bus.trace@;
        let ghost zsnap = I2c1Snapshot {
            component_type: 0,
            component_parameter: 0,
            control: 0,
            target: 0,
            enable_status: 0,
            status: 0,
            raw_interrupt_status: 0,
            abort_source: 0,
            tx_fifo_depth: 0,
            bytes_queued: 0,
        };
        if address > 0x7f {
            return Err(I2c1Error::InvalidAddress(address));
        }
        if payload.len() == 0 {
            return Err(I2c1Error::EmptyPayload);
        }
        if payload.len() > self.tx_fifo_depth as usize {
            return Err(I2c1Error::PayloadTooLong { len: payload.len(), fifo_depth: self.tx_fifo_depth });
        }
        let first = disable(bus);
        let ghost d = bus.trace@;
        match first {
            Ok(()) => {},
            Err(err) => {
                assert(writes_of(bus.trace@) =~= w0 + seq![(at(IC_ENABLE), 0u32)]);
                assert(i2c_write_writes(address, payload@, seq![(at(IC_ENABLE), 0u32)], Err(err)));
                assert(i2c_write_trace(address, payload@, self.tx_fifo_depth, t0, bus.trace@, d, false, d, false, seq![d], d, Seq::empty(), zsnap, Err(err)));
                return Err(err);
            },
        }
        bus.write32(reg(IC_TAR), address as u32);
        bus.write32(reg(IC_INTR_MASK), 0);
        let cleared = bus.read32(reg(IC_CLR_INTR));
        bus.write32(reg(IC_ENABLE), IC_ENABLE_ENABLE);
        let ghost setup = bus.trace@;
        assert(setup =~= d + seq![
            wr(at(IC_TAR), address as u32),
            wr(at(IC_INTR_MASK), 0),
            rd(at(IC_CLR_INTR), cleared),
            wr(at(IC_ENABLE), IC_ENABLE_ENABLE),
        ]);
        assert(writes_of(bus.trace@) =~= w0 + write_setup(address));
        let enabled = poll_mask(bus, reg(IC_ENABLE), IC_ENABLE_ENABLE, true, CONTROL_POLL_LIMIT as usize);
        let ghost e = bus.trace@;
        proof {
            crate::bus::lemma_polls_keep_prefix(setup, e, at(IC_ENABLE), mask_is(IC_ENABLE_ENABLE, true), CONTROL_POLL_LIMIT as nat, enabled);
            assert(e[d.len() as int + 2] == setup[d.len() as int + 2]);
        }
        if !enabled {
            assert(i2c_write_writes(address, payload@, write_setup(address), Err(I2c1Error::EnableTimeout)));
            assert(i2c_write_trace(address, payload@, self.tx_fifo_depth, t0, bus.trace@, d, true, e, false, seq![e], e, Seq::empty(), zsnap, Err(I2c1Error::EnableTimeout)));
            return Err(I2c1Error::EnableTimeout);
        }
        let mut index: usize = 0;
        let mut stuck = false;
        let ghost mut b: Seq<Seq<Access>> = seq![e];
        assert(w0 + write_setup(address) + data_writes(payload@, 0) =~= w0 + write_setup(address));
        while index < payload.len() && !stuck
            invariant
                index <= payload@.len(),
                payload@.len() <= self.tx_fifo_depth,
                writes_of(bus.trace@) == w0 + write_setup(address) + data_writes(payload@, index as int),
                stuck ==> index < payload@.len(),
                b.len() == index + 1,
                b[0] == e,
                bytes_queued(payload@, self.tx_fifo_depth, b),
                !stuck ==> b.last() == bus.trace@,
                stuck ==> polls(b.last(), bus.trace@, at(IC_TXFLR), below(self.tx_fifo_depth as u32), CONTROL_POLL_LIMIT as nat, false),
                bus.trace@.len() >= e.len(),
                forall|j: int| 0 <= j < e.len() ==> #[trigger] bus.trace@[j] == e[j],
            decreases payload@.len() - index + (if stuck { 0int } else { 1int }),
        {
            let ghost before = bus.trace@;
            let ready = poll_below(bus, reg(IC_TXFLR), self.tx_fifo_depth as u32, CONTROL_POLL_LIMIT as usize);
            proof {
                crate::bus::lemma_polls_keep_prefix(before, bus.trace@, at(IC_TXFLR), below(self.tx_fifo_depth as u32), CONTROL_POLL_LIMIT as nat, ready);
            }
            if !ready {
                stuck = true;
            } else {
                let ghost polled = bus.trace@;
                let ghost b0 = b;
                let word = data_command(payload[index], index + 1 == payload.len());
                bus.write32(reg(IC_DATA_CMD), word);
                proof {
                    b = b.push(bus.trace@);
                    assert(bus.trace@.drop_last() =~= polled);
                    assert(word == data_word(payload@, index as int));
                    assert forall|i: int| 1 <= i < b.len() implies (#[trigger] b[i]).len() > 0 && polls(
                        b[i - 1],
                        b[i].drop_last(),
                        at(IC_TXFLR),
                        below(self.tx_fifo_depth as u32),
                        CONTROL_POLL_LIMIT as nat,
                        true,
                    ) && b[i].last() == wr(at(IC_DATA_CMD), data_word(payload@, i - 1)) by {
                        if i < b0.len() {
                            assert(b[i] == b0[i]);
                            assert(b[i - 1] == b0[i - 1]);
                        } else {
                            assert(b[i - 1] == b0.last());
                        }
                    }
                }
                index += 1;
                assert(writes_of(bus.trace@) =~= w0 + write_setup(address) + data_writes(payload@, index as int));
            }
        }
        if stuck {
            let ghost w = write_setup(address) + data_writes(payload@, index as int);
            assert(i2c_write_writes(address, payload@, w, Err(I2c1Error::TxFifoTimeout)));
            assert(bus.trace@[d.len() as int + 2] == e[d.len() as int + 2]);
            assert(i2c_write_trace(address, payload@, self.tx_fifo_depth, t0, bus.trace@, d, true, e, true, b, bus.trace@, Seq::empty(), zsnap, Err(I2c1Error::TxFifoTimeout)));
            return Err(I2c1Error::TxFifoTimeout);
        }
        let ghost w = write_setup(address) + data_writes(payload@, payload@.len() as int);
        let ghost base = bus.trace@;
        let ghost mut waits: Seq<u32> = Seq::empty();
        let ghost mut snap = zsnap;
        assert(base + reads(at(IC_RAW_INTR_STAT), waits) =~= base);
        let mut k: u32 = 0;
        let mut result: Option<Result<I2c1Snapshot, I2c1Error>> = None;
        while k < TRANSFER_POLL_LIMIT && result.is_none()
            invariant
                writes_of(bus.trace@) == w0 + w,
                k <= TRANSFER_POLL_LIMIT,
                payload@.len() <= self.tx_fifo_depth,
                result is None ==> waits.len() == k && bus.trace@ == base + reads(at(IC_RAW_INTR_STAT), waits),
                result is Some ==> waits.len() < k,
                forall|i: int| 0 <= i < waits.len() ==> quiet_raw(#[trigger] waits[i]),
                result matches Some(x) ==> stop_waited(base, bus.trace@, waits, snap, self.tx_fifo_depth, payload@.len(), x),
                result matches Some(x) ==> (match x {
                    Ok(s) => s.bytes_queued == payload@.len() && s.abort_source == 0
                        && s.tx_fifo_depth == self.tx_fifo_depth,
                    Err(e) => e is TxAbort,
                }),
                bus.trace@.len() >= base.len(),
                forall|j: int| 0 <= j < base.len() ==> #[trigger] bus.trace@[j] == base[j],
            decreases TRANSFER_POLL_LIMIT - k,
        {
            let ghost polled = bus.trace@;
            let raw = bus.read32(reg(IC_RAW_INTR_STAT));
            if raw & IC_INTR_TX_ABRT != 0 {
                let source = bus.read32(reg(IC_TX_ABRT_SOURCE));
                let c = bus.read32(reg(IC_CLR_TX_ABRT));
                result = Some(Err(I2c1Error::TxAbort(source)));
                proof {
                    assert(bus.trace@ =~= polled + seq![
                        rd(at(IC_RAW_INTR_STAT), raw),
                        rd(at(IC_TX_ABRT_SOURCE), source),
                        rd(at(IC_CLR_TX_ABRT), c),
                    ]);
                    assert(bus.trace@.take(polled.len() as int) =~= polled);
                    assert(bus.trace@.skip(polled.len() as int) =~= seq![
                        rd(at(IC_RAW_INTR_STAT), raw),
                        rd(at(IC_TX_ABRT_SOURCE), source),
                        rd(at(IC_CLR_TX_ABRT), c),
                    ]);
                    assert(stop_waited(base, bus.trace@, waits, snap, self.tx_fifo_depth, payload@.len(), Err(I2c1Error::TxAbort(source))));
                }
            } else if raw & IC_INTR_STOP_DET != 0 {
                let c = bus.read32(reg(IC_CLR_STOP_DET));
                assert((payload.len() as u16) == payload@.len());
                let s = self.snapshot(bus, payload.len() as u16, 0);
                result = Some(Ok(s));
                proof {
                    snap = s;
                    assert(bus.trace@ =~= polled + (seq![
                        rd(at(IC_RAW_INTR_STAT), raw),
                        rd(at(IC_CLR_STOP_DET), c),
                    ] + snapshot_reads(s)));
                    assert(bus.trace@.take(polled.len() as int) =~= polled);
                    assert(bus.trace@.skip(polled.len() as int) =~= seq![
                        rd(at(IC_RAW_INTR_STAT), raw),
                        rd(at(IC_CLR_STOP_DET), c),
                    ] + snapshot_reads(s));
                    assert(stop_waited(base, bus.trace@, waits, snap, self.tx_fifo_depth, payload@.len(), Ok(s)));
                }
            } else {
                proof {
                    crate::bus::lemma_reads_push(at(IC_RAW_INTR_STAT), waits, raw);
                    let w1 = waits.push(raw);
                    assert forall|i: int| 0 <= i < w1.len() implies quiet_raw(#[trigger] w1[i]) by {
                        if i < waits.len() {
                            assert(w1[i] == waits[i]);
                        }
                    }
                    waits = w1;
                    assert(bus.trace@ =~= base + reads(at(IC_RAW_INTR_STAT), waits));
                }
            }
            k += 1;
        }
        let r = match result {
            Some(x) => x,
            None => Err(I2c1Error::StopTimeout),
        };
        proof {
            if result is None {
                assert(bus.trace@.take(bus.trace@.len() as int) =~= bus.trace@);
                assert(bus.trace@.skip(bus.trace@.len() as int) =~= Seq::<Access>::empty());
            }
            assert(bus.trace@[d.len() as int + 2] == e[d.len() as int + 2]);
        }
        assert(i2c_write_writes(address, payload@, w, r));
        assert(i2c_write_trace(address, payload@, self.tx_fifo_depth, t0, bus.trace@, d, true, e, true, b, e, waits, snap, r));
        r
    }

    /// Controller registers with the given queue count and abort source.
    pub fn snapshot<B: Mmio>(&self, bus: &mut Bus<B>, bytes_queued: u16, abort_source: u32) -> (r:
        I2c1Snapshot)
        ensures
            r.bytes_queued == bytes_queued && r.abort_source == abort_source && r.tx_fifo_depth
                == self.tx_fifo_depth,
            writes_of(final(bus).trace@) == writes_of(old(bus).trace@),
            final(bus).trace@ == old(bus).trace@ + snapshot_reads(r),
    {
        let component_type = bus.read32(reg(IC_COMP_TYPE));
        let component_parameter = bus.read32(reg(IC_COMP_PARAM_1));
        let control = bus.read32(reg(IC_CON));
        let target = bus.read32(reg(IC_TAR));
        let enable_status = bus.read32(reg(IC_ENABLE_STATUS));
        let status = bus.read32(reg(IC_STATUS));
        let raw_interrupt_status = bus.read32(reg(IC_RAW_INTR_STAT));
        let r = I2c1Snapshot {
            component_type,
            component_parameter,
            control,
            target,
            enable_status,
            status,
            raw_interrupt_status,
            abort_source,
            tx_fifo_depth: self.tx_fifo_depth,
            bytes_queued,
        };
        assert(bus.trace@ =~= old(bus).trace@ + snapshot_reads(r));
        r
    }
}

} // verus!
