//! Minimal event-driven SCMI clock server for the two shared UART clocks.
//!
//! The handler works on the 64 words of the shared channel memory: it reads
//! the request and writes the response status, length and data words; the
//! caller hands the channel back as free afterwards. Clock gates follow the
//! union of the Linux and firmware votes.

use vstd::prelude::*;
use crate::debug::le_word;
use vstd::string::StringSliceAdditionalSpecFns;
use crate::bus::{got, rd, wr, Access, Bus, Mmio};

verus! {

pub const SCMI_CLOCK_UART: u32 = 0;
pub const SCMI_CLOCK_UART_APB: u32 = 1;
pub const SCMI_CLOCK_COUNT: u32 = 2;
/// Bytes of the shared channel memory.
pub const SCMI_SHMEM_SIZE: usize = 256;
pub const SCMI_SHMEM_WORDS: usize = 64;
pub const SCMI_DOORBELL_CHANNEL: u32 = 1;
pub const SCMI_DOORBELL_MASK: u32 = 1 << SCMI_DOORBELL_CHANNEL;

pub const SYSCFG_BASE: usize = 0x4000_8000;
pub const SYSCFG_PROC_EVENTS: usize = SYSCFG_BASE + 0x08;
pub const SYSCFG_HOST_EVENTS: usize = SYSCFG_BASE + 0x0c;
pub const HW_SET_BITS: usize = 0x2000;
pub const HW_CLR_BITS: usize = 0x3000;

pub const CLOCKMAN_BASE: usize = 0x4001_8000;
pub const CLK_UART_CTRL: usize = CLOCKMAN_BASE + 0x54;
pub const CLK_UART_DIV_INT: usize = CLOCKMAN_BASE + 0x58;
pub const CLK_UART_SEL: usize = CLOCKMAN_BASE + 0x60;
pub const CLK_CTRL_ENABLE: u32 = 1 << 11;
pub const PLL_SYS_PRIM: usize = 0x4002_0010;
pub const PLL_PH_EN: u32 = 1 << 4;

pub const SCMI_PROTOCOL_BASE: u32 = 0x10;
pub const SCMI_PROTOCOL_CLOCK: u32 = 0x14;

pub const SCMI_SUCCESS: i32 = 0;
pub const SCMI_NOT_SUPPORTED: i32 = -1;
pub const SCMI_INVALID_PARAMETERS: i32 = -2;
pub const SCMI_PROTOCOL_ERROR: i32 = -10;

pub const SHMEM_CHANNEL_STATUS: usize = 0x04;
pub const SHMEM_FLAGS: usize = 0x10;
pub const SHMEM_LENGTH: usize = 0x14;
pub const SHMEM_MSG_HEADER: usize = 0x18;
pub const SHMEM_PAYLOAD: usize = 0x1c;
pub const SHMEM_CHANNEL_FREE: u32 = 1 << 0;
pub const SHMEM_CHANNEL_ERROR: u32 = 1 << 1;
pub const SHMEM_FLAG_INTR_ENABLED: u32 = 1 << 0;

pub const SCMI_MSG_TYPE_MASK: u32 = 0x3 << 8;

pub const UART_RATE: u64 = 50_000_000;
pub const UART_APB_RATE: u64 = 100_000_000;
pub const VOTE_UART: u32 = 1 << SCMI_CLOCK_UART;
pub const VOTE_UART_APB: u32 = 1 << SCMI_CLOCK_UART_APB;
pub const ALL_UART_VOTES: u32 = VOTE_UART | VOTE_UART_APB;

/// Word indices in the shared memory.
pub const STATUS_WORD: usize = 1;
pub const FLAGS_WORD: usize = 4;
pub const LENGTH_WORD: usize = 5;
pub const HEADER_WORD: usize = 6;
pub const PAYLOAD_WORD: usize = 7;

/// Votes and event counters of the server.
#[derive(Clone, Copy, Debug, PartialEq, Eq, Structural)]
pub struct UartClockServer {
    pub linux_votes: u32,
    pub firmware_votes: u32,
    pub irq_count: u32,
    pub proc_event_count: u32,
    pub host_event_count: u32,
    pub clock_config_set_count: u32,
    pub clock_enable_count: u32,
    pub clock_disable_count: u32,
}

#[derive(Clone, Copy, Debug, PartialEq, Eq, Structural)]
pub struct Telemetry {
    pub irq_count: u32,
    pub proc_event_count: u32,
    pub host_event_count: u32,
    pub clock_config_set_count: u32,
    pub clock_enable_count: u32,
    pub clock_disable_count: u32,
    pub linux_votes: u32,
    pub firmware_votes: u32,
    pub clk_uart_ctrl: u32,
    pub clk_uart_div_int: u32,
    pub clk_uart_sel: u32,
    pub pll_sys_prim: u32,
}

/// The server at start: no Linux vote, both firmware votes, zero counters.
pub open spec fn initial_server() -> UartClockServer {
    UartClockServer {
        linux_votes: 0,
        firmware_votes: ALL_UART_VOTES,
        irq_count: 0,
        proc_event_count: 0,
        host_event_count: 0,
        clock_config_set_count: 0,
        clock_enable_count: 0,
        clock_disable_count: 0,
    }
}

/// Starts the server state; the caller then applies the votes to the clock
/// registers and prepares the channel with `init_shmem`.
pub fn init_uart_clock_server() -> (r: UartClockServer)
    ensures
        r == initial_server(),
{
    UartClockServer {
        linux_votes: 0,
        firmware_votes: ALL_UART_VOTES,
        irq_count: 0,
        proc_event_count: 0,
        host_event_count: 0,
        clock_config_set_count: 0,
        clock_enable_count: 0,
        clock_disable_count: 0,
    }
}

/// The channel prepared for Linux: completion interrupts on, empty length
/// and header, channel free.
pub fn init_shmem(shmem: &mut Vec<u32>)
    requires
        old(shmem)@.len() == SCMI_SHMEM_WORDS,
    ensures
        final(shmem)@ == old(shmem)@.update(FLAGS_WORD as int, SHMEM_FLAG_INTR_ENABLED).update(
            LENGTH_WORD as int,
            0,
        ).update(HEADER_WORD as int, 0).update(STATUS_WORD as int, SHMEM_CHANNEL_FREE),
{
    shmem.set(FLAGS_WORD, SHMEM_FLAG_INTR_ENABLED);
    shmem.set(LENGTH_WORD, 0);
    shmem.set(HEADER_WORD, 0);
    shmem.set(STATUS_WORD, SHMEM_CHANNEL_FREE);
}

pub open spec fn combined(s: UartClockServer) -> u32 {
    s.linux_votes | s.firmware_votes
}

/// The clock register values that carry the combined votes: the UART clock
/// enable bit and the PLL phase enable bit set or cleared, every other bit
/// kept.
pub open spec fn clock_registers(votes: u32, uart_ctrl: u32, pll_prim: u32) -> (u32, u32) {
    (
        if votes & VOTE_UART != 0 {
            uart_ctrl | CLK_CTRL_ENABLE
        } else {
            uart_ctrl & !CLK_CTRL_ENABLE
        },
        if votes & VOTE_UART_APB != 0 {
            pll_prim | PLL_PH_EN
        } else {
            pll_prim & !PLL_PH_EN
        },
    )
}

impl UartClockServer {
    /// The union of the Linux and firmware votes.
    pub fn combined_votes(&self) -> (r: u32)
        ensures
            r == combined(*self),
    {
        self.linux_votes | self.firmware_votes
    }

    /// The new values of CLK_UART_CTRL and PLL_SYS_PRIM, given their current
    /// values, under the combined votes.
    pub fn apply_clock_votes(&self, uart_ctrl: u32, pll_prim: u32) -> (r: (u32, u32))
        ensures
            r == clock_registers(combined(*self), uart_ctrl, pll_prim),
    {
        let votes = self.combined_votes();
        let uart = if votes & VOTE_UART != 0 {
            uart_ctrl | CLK_CTRL_ENABLE
        } else {
            uart_ctrl & !CLK_CTRL_ENABLE
        };
        let apb = if votes & VOTE_UART_APB != 0 {
            pll_prim | PLL_PH_EN
        } else {
            pll_prim & !PLL_PH_EN
        };
        (uart, apb)
    }

    /// The firmware keeps only the functional UART clock, or nothing.
    pub fn set_firmware_uart_vote(&mut self, enabled: bool)
        ensures
            *final(self) == (UartClockServer {
                firmware_votes: if enabled { VOTE_UART } else { 0 },
                ..*old(self)
            }),
    {
        self.firmware_votes = if enabled { VOTE_UART } else { 0 };
    }

    pub fn set_firmware_uart_votes(&mut self, functional: bool, apb: bool)
        ensures
            *final(self) == (UartClockServer {
                firmware_votes: (if functional { VOTE_UART } else { 0 }) | (if apb {
                    VOTE_UART_APB
                } else {
                    0
                }),
                ..*old(self)
            }),
    {
        let f: u32 = if functional { VOTE_UART } else { 0 };
        let a: u32 = if apb { VOTE_UART_APB } else { 0 };
        self.firmware_votes = f | a;
    }

    /// Counters and votes with the clock registers that the caller read.
    pub fn telemetry(
        &self,
        clk_uart_ctrl: u32,
        clk_uart_div_int: u32,
        clk_uart_sel: u32,
        pll_sys_prim: u32,
    ) -> (r: Telemetry)
        ensures
            r == (Telemetry {
                irq_count: self.irq_count,
                proc_event_count: self.proc_event_count,
                host_event_count: self.host_event_count,
                clock_config_set_count: self.clock_config_set_count,
                clock_enable_count: self.clock_enable_count,
                clock_disable_count: self.clock_disable_count,
                linux_votes: self.linux_votes,
                firmware_votes: self.firmware_votes,
                clk_uart_ctrl,
                clk_uart_div_int,
                clk_uart_sel,
                pll_sys_prim,
            }),
    {
        Telemetry {
            irq_count: self.irq_count,
            proc_event_count: self.proc_event_count,
            host_event_count: self.host_event_count,
            clock_config_set_count: self.clock_config_set_count,
            clock_enable_count: self.clock_enable_count,
            clock_disable_count: self.clock_disable_count,
            linux_votes: self.linux_votes,
            firmware_votes: self.firmware_votes,
            clk_uart_ctrl,
            clk_uart_div_int,
            clk_uart_sel,
            pll_sys_prim,
        }
    }
}

/// The doorbell decision: with `events` read from the processor event
/// register and `status` from the channel, whether this channel rang (to be
/// acknowledged) and whether a request is waiting (to be served).
pub fn doorbell_decision(events: u32, status: u32) -> (r: (bool, bool))
    ensures
        r == (events & SCMI_DOORBELL_MASK != 0, events & SCMI_DOORBELL_MASK != 0 && status
            & SHMEM_CHANNEL_FREE == 0),
{
    let rang = events & SCMI_DOORBELL_MASK != 0;
    (rang, rang && status & SHMEM_CHANNEL_FREE == 0)
}

/// The name field: sixteen bytes of the name, zero padded, as four words.
pub open spec fn name_field(name: Seq<u8>) -> Seq<u32> {
    Seq::new(
        4,
        |k: int|
            le_word(
                name_pad(name, 4 * k),
                name_pad(name, 4 * k + 1),
                name_pad(name, 4 * k + 2),
                name_pad(name, 4 * k + 3),
            ),
    )
}

pub open spec fn name_pad(name: Seq<u8>, i: int) -> u8 {
    if i < name.len() {
        name[i]
    } else {
        0
    }
}

/// A reply: status and data words.
pub open spec fn reply(status: i32, data: Seq<u32>) -> (i32, Seq<u32>) {
    (status, data)
}

pub open spec fn uart_name() -> Seq<u8> {
    "rp1-uart".spec_bytes()
}

pub open spec fn uart_apb_name() -> Seq<u8> {
    "rp1-uart-apb".spec_bytes()
}

pub open spec fn vote_of(id: u32) -> Option<(Seq<u8>, u32)> {
    if id == SCMI_CLOCK_UART {
        Some((uart_name(), VOTE_UART))
    } else if id == SCMI_CLOCK_UART_APB {
        Some((uart_apb_name(), VOTE_UART_APB))
    } else {
        None
    }
}

pub open spec fn rate_of(id: u32) -> Option<u64> {
    if id == SCMI_CLOCK_UART {
        Some(UART_RATE)
    } else if id == SCMI_CLOCK_UART_APB {
        Some(UART_APB_RATE)
    } else {
        None
    }
}

pub open spec fn lo(v: u64) -> u32 {
    (v & 0xffff_ffff) as u32
}

pub open spec fn hi(v: u64) -> u32 {
    (v >> 32u64) as u32
}

/// The Base protocol reply for `message` with `request_len` argument bytes
/// whose first word is `arg0`.
pub open spec fn base_reply(message: u32, request_len: int, arg0: u32) -> (i32, Seq<u32>) {
    if message == 0 && request_len == 0 {
        reply(SCMI_SUCCESS, seq![0x0002_0000u32])
    } else if message == 1 && request_len == 0 {
        reply(SCMI_SUCCESS, seq![0x0000_0201u32])
    } else if message == 2 && request_len == 4 {
        if (arg0 & 0xff) <= 7 {
            reply(SCMI_SUCCESS, seq![0u32])
        } else {
            reply(SCMI_NOT_SUPPORTED, seq![])
        }
    } else if message == 3 && request_len == 0 {
        reply(SCMI_SUCCESS, name_field("RP1-PoC".spec_bytes()))
    } else if message == 4 && request_len == 0 {
        reply(SCMI_SUCCESS, name_field("Natsu-B".spec_bytes()))
    } else if message == 5 && request_len == 0 {
        reply(SCMI_SUCCESS, seq![1u32])
    } else if message == 6 && request_len == 4 {
        if arg0 == 0 {
            reply(SCMI_SUCCESS, seq![1u32, 0x14u32])
        } else {
            reply(SCMI_SUCCESS, seq![0u32])
        }
    } else if message == 7 && request_len == 4 {
        if arg0 == 0 {
            reply(SCMI_SUCCESS, seq![0u32] + name_field("RP1-FW".spec_bytes()))
        } else if arg0 == 1 {
            reply(SCMI_SUCCESS, seq![1u32] + name_field("OSPM".spec_bytes()))
        } else {
            reply(SCMI_INVALID_PARAMETERS, seq![])
        }
    } else {
        reply(SCMI_NOT_SUPPORTED, seq![])
    }
}

/// Whether a Clock protocol message id is one that MESSAGE_ATTRIBUTES
/// reports as implemented.
pub open spec fn clock_message_known(id: u32) -> bool {
    id == 0 || id == 1 || id == 2 || id == 3 || id == 4 || id == 6 || id == 7
}

/// The Clock protocol reply, and the server afterwards.
pub open spec fn clock_reply(
    s: UartClockServer,
    message: u32,
    request_len: int,
    arg0: u32,
    arg1: u32,
) -> (UartClockServer, (i32, Seq<u32>)) {
    if message == 0 && request_len == 0 {
        (s, reply(SCMI_SUCCESS, seq![0x0002_0000u32]))
    } else if message == 1 && request_len == 0 {
        (s, reply(SCMI_SUCCESS, seq![SCMI_CLOCK_COUNT]))
    } else if message == 2 && request_len == 4 {
        if clock_message_known(arg0 & 0xff) {
            (s, reply(SCMI_SUCCESS, seq![0u32]))
        } else {
            (s, reply(SCMI_NOT_SUPPORTED, seq![]))
        }
    } else if message == 3 && request_len == 4 {
        match vote_of(arg0) {
            None => (s, reply(SCMI_INVALID_PARAMETERS, seq![])),
            Some((name, vote)) => (
                s,
                reply(
                    SCMI_SUCCESS,
                    seq![if combined(s) & vote != 0 { 1u32 } else { 0u32 }] + name_field(name)
                        + seq![0u32],
                ),
            ),
        }
    } else if message == 4 && request_len == 8 {
        match rate_of(arg0) {
            None => (s, reply(SCMI_INVALID_PARAMETERS, seq![])),
            Some(rate) => if arg1 == 0 {
                (s, reply(SCMI_SUCCESS, seq![1u32, lo(rate), hi(rate)]))
            } else {
                (s, reply(SCMI_SUCCESS, seq![0u32]))
            },
        }
    } else if message == 6 && request_len == 4 {
        match rate_of(arg0) {
            None => (s, reply(SCMI_INVALID_PARAMETERS, seq![])),
            Some(rate) => (s, reply(SCMI_SUCCESS, seq![lo(rate), hi(rate)])),
        }
    } else if message == 7 && request_len >= 8 {
        match vote_of(arg0) {
            None => (s, reply(SCMI_INVALID_PARAMETERS, seq![])),
            Some((_, vote)) => if arg1 & 3 == 0 {
                (
                    UartClockServer {
                        clock_config_set_count: s.clock_config_set_count.wrapping_add(1),
                        clock_disable_count: s.clock_disable_count.wrapping_add(1),
                        linux_votes: s.linux_votes & !vote,
                        ..s
                    },
                    reply(SCMI_SUCCESS, seq![]),
                )
            } else if arg1 & 3 == 1 {
                (
                    UartClockServer {
                        clock_config_set_count: s.clock_config_set_count.wrapping_add(1),
                        clock_enable_count: s.clock_enable_count.wrapping_add(1),
                        linux_votes: s.linux_votes | vote,
                        ..s
                    },
                    reply(SCMI_SUCCESS, seq![]),
                )
            } else {
                (s, reply(SCMI_INVALID_PARAMETERS, seq![]))
            },
        }
    } else {
        (s, reply(SCMI_NOT_SUPPORTED, seq![]))
    }
}

/// The reply to the request in `shmem`, and the server afterwards: a length
/// under four bytes, past the channel, or a header that is not a command is
/// a protocol error; Base and Clock are served; anything else is not
/// supported.
pub open spec fn request_reply(s: UartClockServer, shmem: Seq<u32>) -> (
    UartClockServer,
    (i32, Seq<u32>),
) {
    let length = shmem[LENGTH_WORD as int];
    let header = shmem[HEADER_WORD as int];
    let protocol = (header & (0xffu32 << 10u32)) >> 10u32;
    let message = header & 0xff;
    let arg0 = shmem[PAYLOAD_WORD as int];
    let arg1 = shmem[PAYLOAD_WORD + 1];
    if length < 4 || length > SCMI_SHMEM_SIZE - SHMEM_MSG_HEADER || header & SCMI_MSG_TYPE_MASK
        != 0 {
        (s, reply(SCMI_PROTOCOL_ERROR, seq![]))
    } else if protocol == SCMI_PROTOCOL_BASE {
        (s, base_reply(message, length - 4, arg0))
    } else if protocol == SCMI_PROTOCOL_CLOCK {
        clock_reply(s, message, length - 4, arg0, arg1)
    } else {
        (s, reply(SCMI_NOT_SUPPORTED, seq![]))
    }
}

/// `shmem` with the reply written: the status at the payload's first word,
/// the length (header, status and data) and the data words after the status.
pub open spec fn with_reply(shmem: Seq<u32>, r: (i32, Seq<u32>)) -> Seq<u32> {
    Seq::new(
        shmem.len(),
        |i: int|
            if i == LENGTH_WORD {
                (8 + 4 * r.1.len()) as u32
            } else if i == PAYLOAD_WORD {
                r.0 as u32
            } else if PAYLOAD_WORD + 1 <= i < PAYLOAD_WORD + 1 + r.1.len() {
                r.1[i - PAYLOAD_WORD - 1]
            } else {
                shmem[i]
            },
    )
}

fn write_reply(shmem: &mut Vec<u32>, status: i32, data: &[u32])
    requires
        old(shmem)@.len() == SCMI_SHMEM_WORDS,
        data@.len() <= 6,
    ensures
        final(shmem)@ == with_reply(old(shmem)@, (status, data@)),
{
    let ghost start = shmem@;
    shmem.set(PAYLOAD_WORD, status as u32);
    shmem.set(LENGTH_WORD, (8 + 4 * data.len()) as u32);
    let mut i: usize = 0;
    while i < data.len()
        invariant
            i <= data@.len() <= 6,
            shmem@.len() == SCMI_SHMEM_WORDS,
            forall|j: int|
                0 <= j < SCMI_SHMEM_WORDS ==> #[trigger] shmem@[j] == (if j == LENGTH_WORD {
                    (8 + 4 * data@.len()) as u32
                } else if j == PAYLOAD_WORD {
                    status as u32
                } else if PAYLOAD_WORD + 1 <= j < PAYLOAD_WORD + 1 + i {
                    data@[j - PAYLOAD_WORD - 1]
                } else {
                    start[j]
                }),
        decreases data@.len() - i,
    {
        shmem.set(PAYLOAD_WORD + 1 + i, data[i]);
        i += 1;
    }
    assert(shmem@ =~= with_reply(start, (status, data@)));
}

fn finish(shmem: &mut Vec<u32>, status: i32, data: &Vec<u32>)
    requires
        old(shmem)@.len() == SCMI_SHMEM_WORDS,
        data@.len() <= 6,
    ensures
        final(shmem)@ == with_reply(old(shmem)@, (status, data@)),
{
    write_reply(shmem, status, data.as_slice());
}

fn words1(a: u32) -> (r: Vec<u32>)
    ensures
        r@ == seq![a],
{
    let mut r: Vec<u32> = Vec::new();
    r.push(a);
    assert(r@ =~= seq![a]);
    r
}

fn words2(a: u32, b: u32) -> (r: Vec<u32>)
    ensures
        r@ == seq![a, b],
{
    let mut r: Vec<u32> = Vec::new();
    r.push(a);
    r.push(b);
    assert(r@ =~= seq![a, b]);
    r
}

fn service_base(shmem: &mut Vec<u32>, message: u32, request_len: usize)
    requires
        old(shmem)@.len() == SCMI_SHMEM_WORDS,
    ensures
        final(shmem)@ == with_reply(
            old(shmem)@,
            base_reply(message, request_len as int, old(shmem)@[PAYLOAD_WORD as int]),
        ),
{
    let arg0 = shmem[PAYLOAD_WORD];
    let empty: Vec<u32> = Vec::new();
    assert(empty@ =~= Seq::<u32>::empty());
    if message == 0 && request_len == 0 {
        finish(shmem, SCMI_SUCCESS, &words1(0x0002_0000));
    } else if message == 1 && request_len == 0 {
        finish(shmem, SCMI_SUCCESS, &words1(0x0000_0201));
    } else if message == 2 && request_len == 4 {
        if (arg0 & 0xff) <= 7 {
            finish(shmem, SCMI_SUCCESS, &words1(0));
        } else {
            finish(shmem, SCMI_NOT_SUPPORTED, &empty);
        }
    } else if message == 3 && request_len == 0 {
        finish(shmem, SCMI_SUCCESS, &name_words_of("RP1-PoC".as_bytes()));
    } else if message == 4 && request_len == 0 {
        finish(shmem, SCMI_SUCCESS, &name_words_of("Natsu-B".as_bytes()));
    } else if message == 5 && request_len == 0 {
        finish(shmem, SCMI_SUCCESS, &words1(1));
    } else if message == 6 && request_len == 4 {
        if arg0 == 0 {
            finish(shmem, SCMI_SUCCESS, &words2(1, 0x14));
        } else {
            finish(shmem, SCMI_SUCCESS, &words1(0));
        }
    } else if message == 7 && request_len == 4 {
        if arg0 == 0 {
            let mut d = words1(0);
            let mut n = name_words_of("RP1-FW".as_bytes());
            d.append(&mut n);
            finish(shmem, SCMI_SUCCESS, &d);
        } else if arg0 == 1 {
            let mut d = words1(1);
            let mut n = name_words_of("OSPM".as_bytes());
            d.append(&mut n);
            finish(shmem, SCMI_SUCCESS, &d);
        } else {
            finish(shmem, SCMI_INVALID_PARAMETERS, &empty);
        }
    } else {
        finish(shmem, SCMI_NOT_SUPPORTED, &empty);
    }
}

fn clock_name_vote(id: u32) -> (r: Option<(&'static str, u32)>)
    ensures
        match vote_of(id) {
            Some((name, vote)) => r matches Some((n, v)) && n.spec_bytes() == name && v == vote,
            None => r is None,
        },
{
    if id == SCMI_CLOCK_UART {
        Some(("rp1-uart", VOTE_UART))
    } else if id == SCMI_CLOCK_UART_APB {
        Some(("rp1-uart-apb", VOTE_UART_APB))
    } else {
        None
    }
}

fn clock_rate(id: u32) -> (r: Option<u64>)
    ensures
        r == rate_of(id),
{
    if id == SCMI_CLOCK_UART {
        Some(UART_RATE)
    } else if id == SCMI_CLOCK_UART_APB {
        Some(UART_APB_RATE)
    } else {
        None
    }
}

fn rate_words(rate: u64) -> (r: (u32, u32))
    ensures
        r == (lo(rate), hi(rate)),
{
    ((rate & 0xffff_ffff) as u32, (rate >> 32u64) as u32)
}

impl UartClockServer {
    fn service_clock(&mut self, shmem: &mut Vec<u32>, message: u32, request_len: usize)
        requires
            old(shmem)@.len() == SCMI_SHMEM_WORDS,
        ensures
            ({
                let out = clock_reply(
                    *old(self),
                    message,
                    request_len as int,
                    old(shmem)@[PAYLOAD_WORD as int],
                    old(shmem)@[PAYLOAD_WORD + 1],
                );
                *final(self) == out.0 && final(shmem)@ == with_reply(old(shmem)@, out.1)
            }),
    {
        let arg0 = shmem[PAYLOAD_WORD];
        let arg1 = shmem[PAYLOAD_WORD + 1];
        let empty: Vec<u32> = Vec::new();
        assert(empty@ =~= Seq::<u32>::empty());
        if message == 0 && request_len == 0 {
            finish(shmem, SCMI_SUCCESS, &words1(0x0002_0000));
        } else if message == 1 && request_len == 0 {
            finish(shmem, SCMI_SUCCESS, &words1(SCMI_CLOCK_COUNT));
        } else if message == 2 && request_len == 4 {
            let id = arg0 & 0xff;
            if id == 0 || id == 1 || id == 2 || id == 3 || id == 4 || id == 6 || id == 7 {
                finish(shmem, SCMI_SUCCESS, &words1(0));
            } else {
                finish(shmem, SCMI_NOT_SUPPORTED, &empty);
            }
        } else if message == 3 && request_len == 4 {
            match clock_name_vote(arg0) {
                None => finish(shmem, SCMI_INVALID_PARAMETERS, &empty),
                Some((name, vote)) => {
                    let on: u32 = if self.combined_votes() & vote != 0 { 1 } else { 0 };
                    let mut d = words1(on);
                    let mut n = name_words_of(name.as_bytes());
                    d.append(&mut n);
                    d.push(0);
                    finish(shmem, SCMI_SUCCESS, &d);
                },
            }
        } else if message == 4 && request_len == 8 {
            match clock_rate(arg0) {
                None => finish(shmem, SCMI_INVALID_PARAMETERS, &empty),
                Some(rate) => {
                    if arg1 == 0 {
                        let (l, h) = rate_words(rate);
                        let mut d = words2(1, l);
                        d.push(h);
                        assert(d@ =~= seq![1u32, l, h]);
                        finish(shmem, SCMI_SUCCESS, &d);
                    } else {
                        finish(shmem, SCMI_SUCCESS, &words1(0));
                    }
                },
            }
        } else if message == 6 && request_len == 4 {
            match clock_rate(arg0) {
                None => finish(shmem, SCMI_INVALID_PARAMETERS, &empty),
                Some(rate) => {
                    let (l, h) = rate_words(rate);
                    finish(shmem, SCMI_SUCCESS, &words2(l, h));
                },
            }
        } else if message == 7 && request_len >= 8 {
            match clock_name_vote(arg0) {
                None => finish(shmem, SCMI_INVALID_PARAMETERS, &empty),
                Some((_, vote)) => {
                    if arg1 & 3 == 0 {
                        self.clock_config_set_count = self.clock_config_set_count.wrapping_add(1);
                        self.clock_disable_count = self.clock_disable_count.wrapping_add(1);
                        self.linux_votes = self.linux_votes & !vote;
                        finish(shmem, SCMI_SUCCESS, &empty);
                    } else if arg1 & 3 == 1 {
                        self.clock_config_set_count = self.clock_config_set_count.wrapping_add(1);
                        self.clock_enable_count = self.clock_enable_count.wrapping_add(1);
                        self.linux_votes = self.linux_votes | vote;
                        finish(shmem, SCMI_SUCCESS, &empty);
                    } else {
                        finish(shmem, SCMI_INVALID_PARAMETERS, &empty);
                    }
                },
            }
        } else {
            finish(shmem, SCMI_NOT_SUPPORTED, &empty);
        }
    }

    /// Answers the request waiting in the channel memory: the server's
    /// votes and counters change only for CLOCK_CONFIG_SET, and the reply is
    /// written over the payload; the caller applies the votes to the clock
    /// registers and then hands the channel back as free.
    pub fn service_request(&mut self, shmem: &mut Vec<u32>)
        requires
            old(shmem)@.len() == SCMI_SHMEM_WORDS,
        ensures
            *final(self) == request_reply(*old(self), old(shmem)@).0,
            final(shmem)@ == with_reply(old(shmem)@, request_reply(*old(self), old(shmem)@).1),
    {
        let length = shmem[LENGTH_WORD];
        let header = shmem[HEADER_WORD];
        let protocol = (header & (0xffu32 << 10u32)) >> 10u32;
        let message = header & 0xff;
        let empty: Vec<u32> = Vec::new();
        assert(empty@ =~= Seq::<u32>::empty());
        if length < 4 || length as usize > SCMI_SHMEM_SIZE - SHMEM_MSG_HEADER || header
            & SCMI_MSG_TYPE_MASK != 0 {
            finish(shmem, SCMI_PROTOCOL_ERROR, &empty);
            return;
        }
        if protocol == SCMI_PROTOCOL_BASE {
            service_base(shmem, message, (length - 4) as usize);
        } else if protocol == SCMI_PROTOCOL_CLOCK {
            self.service_clock(shmem, message, (length - 4) as usize);
        } else {
            finish(shmem, SCMI_NOT_SUPPORTED, &empty);
        }
    }
}

fn name_words_of(name: &[u8]) -> (r: Vec<u32>)
    ensures
        r@ == name_field(name@),
{
    let mut r: Vec<u32> = Vec::new();
    let mut k: usize = 0;
    while k < 4
        invariant
            k <= 4,
            r@ == name_field(name@).subrange(0, k as int),
        decreases 4 - k,
    {
        let b0 = pad_at(name, 4 * k);
        let b1 = pad_at(name, 4 * k + 1);
        let b2 = pad_at(name, 4 * k + 2);
        let b3 = pad_at(name, 4 * k + 3);
        r.push((b0 as u32) | ((b1 as u32) << 8u32) | ((b2 as u32) << 16u32) | ((b3 as u32) << 24u32));
        k += 1;
        assert(r@ =~= name_field(name@).subrange(0, k as int));
    }
    assert(name_field(name@).subrange(0, 4) =~= name_field(name@));
    r
}

fn pad_at(name: &[u8], i: usize) -> (r: u8)
    ensures
        r == name_pad(name@, i as int),
{
    if i < name.len() {
        name[i]
    } else {
        0
    }
}

} // verus!

verus! {

/// No request can change the firmware's votes, so a clock that the firmware
/// votes for stays in the combined votes whatever Linux asks.
pub proof fn lemma_linux_cannot_remove_firmware_votes(s: UartClockServer, shmem: Seq<u32>)
    requires
        shmem.len() == SCMI_SHMEM_WORDS,
    ensures
        request_reply(s, shmem).0.firmware_votes == s.firmware_votes,
        combined(request_reply(s, shmem).0) & s.firmware_votes == s.firmware_votes,
{
    let after = request_reply(s, shmem).0;
    let l = after.linux_votes;
    let f = s.firmware_votes;
    assert((l | f) & f == f) by (bit_vector);
}

/// A header whose low 18 bits are a Clock protocol CLOCK_CONFIG_SET command.
proof fn lemma_config_set_header(h: u32)
    requires
        h & 0x3ffff == (SCMI_PROTOCOL_CLOCK << 10u32) | 7,
    ensures
        (h & (0xffu32 << 10u32)) >> 10u32 == SCMI_PROTOCOL_CLOCK && h & 0xff == 7 && h
            & SCMI_MSG_TYPE_MASK == 0,
{
    assert((h & (0xffu32 << 10u32)) >> 10u32 == 0x14 && h & 0xff == 7 && h & (0x3u32 << 8u32) == 0)
        by (bit_vector)
        requires
            h & 0x3ffff == (0x14u32 << 10u32) | 7,
    ;
}

/// A CLOCK_CONFIG_SET command for a known clock (header: Clock protocol,
/// message 7, any token; at least the two argument words) sets or withdraws
/// exactly that clock's Linux vote: attributes 0 clear its bit, attributes
/// 1 set it, every other Linux vote and the firmware votes are kept, and
/// the reply is success; other attribute values change no vote and are
/// refused as invalid parameters.
pub proof fn lemma_config_set_moves_only_its_vote(s: UartClockServer, shmem: Seq<u32>)
    requires
        shmem.len() == SCMI_SHMEM_WORDS,
        shmem[HEADER_WORD as int] & 0x3ffff == (SCMI_PROTOCOL_CLOCK << 10u32) | 7,
        12 <= shmem[LENGTH_WORD as int] <= SCMI_SHMEM_SIZE - SHMEM_MSG_HEADER,
        shmem[PAYLOAD_WORD as int] == SCMI_CLOCK_UART || shmem[PAYLOAD_WORD as int]
            == SCMI_CLOCK_UART_APB,
    ensures
        ({
            let (after, (status, _)) = request_reply(s, shmem);
            let vote = 1u32 << shmem[PAYLOAD_WORD as int];
            let attributes = shmem[PAYLOAD_WORD + 1] & 3;
            &&& after.firmware_votes == s.firmware_votes
            &&& attributes == 0 ==> after.linux_votes == s.linux_votes & !vote && status
                == SCMI_SUCCESS
            &&& attributes == 1 ==> after.linux_votes == s.linux_votes | vote && status
                == SCMI_SUCCESS
            &&& attributes > 1 ==> after.linux_votes == s.linux_votes && status
                == SCMI_INVALID_PARAMETERS
        }),
{
    let h = shmem[HEADER_WORD as int];
    lemma_config_set_header(h);
    assert(VOTE_UART == 1u32 << 0u32 && VOTE_UART_APB == 1u32 << 1u32);
}

/// A CLOCK_CONFIG_SET command for a clock that SCMI does not expose leaves
/// the server as it was and is refused as invalid parameters.
pub proof fn lemma_config_set_unknown_clock_changes_nothing(s: UartClockServer, shmem: Seq<u32>)
    requires
        shmem.len() == SCMI_SHMEM_WORDS,
        shmem[HEADER_WORD as int] & 0x3ffff == (SCMI_PROTOCOL_CLOCK << 10u32) | 7,
        12 <= shmem[LENGTH_WORD as int] <= SCMI_SHMEM_SIZE - SHMEM_MSG_HEADER,
        shmem[PAYLOAD_WORD as int] != SCMI_CLOCK_UART,
        shmem[PAYLOAD_WORD as int] != SCMI_CLOCK_UART_APB,
    ensures
        request_reply(s, shmem).0 == s,
        request_reply(s, shmem).1.0 == SCMI_INVALID_PARAMETERS,
{
    let h = shmem[HEADER_WORD as int];
    lemma_config_set_header(h);
}

/// Reads of consecutive shared words from `base` that returned `words`.
pub open spec fn word_reads(base: usize, words: Seq<u32>) -> Seq<Access> {
    Seq::new(words.len(), |i: int| rd((base + 4 * i) as usize, words[i]))
}

/// Writes of the first `n` shared words that differ between `before` and
/// `after`, in word order.
pub open spec fn changed_writes(base: usize, before: Seq<u32>, after: Seq<u32>, n: nat) -> Seq<
    Access,
>
    decreases n,
{
    if n == 0 {
        Seq::empty()
    } else {
        changed_writes(base, before, after, (n - 1) as nat) + if after[n - 1] != before[n - 1] {
            seq![wr((base + 4 * (n - 1)) as usize, after[n - 1])]
        } else {
            Seq::empty()
        }
    }
}

/// The accesses that move the clock gates to the combined votes of `s`,
/// given the register values read.
pub open spec fn vote_writes(s: UartClockServer, uart_ctrl: u32, pll_prim: u32) -> Seq<Access> {
    let regs = clock_registers(combined(s), uart_ctrl, pll_prim);
    seq![
        rd(CLK_UART_CTRL, uart_ctrl),
        rd(PLL_SYS_PRIM, pll_prim),
        wr(CLK_UART_CTRL, regs.0),
        wr(PLL_SYS_PRIM, regs.1),
    ]
}

/// The server with the interrupt counted.
pub open spec fn counted(s: UartClockServer) -> UartClockServer {
    UartClockServer { irq_count: s.irq_count.wrapping_add(1), ..s }
}

/// The server with the interrupt and its doorbell event counted.
pub open spec fn acked(s: UartClockServer) -> UartClockServer {
    UartClockServer { proc_event_count: s.proc_event_count.wrapping_add(1), ..counted(s) }
}

/// The doorbell accesses before the shared words: the event read, its
/// acknowledgement and the channel status read.
pub open spec fn doorbell_head(base: usize, events: u32, status: u32) -> Seq<Access> {
    seq![
        rd(SYSCFG_PROC_EVENTS, events),
        wr((SYSCFG_PROC_EVENTS + HW_CLR_BITS) as usize, SCMI_DOORBELL_MASK),
        rd((base + SHMEM_CHANNEL_STATUS) as usize, status),
    ]
}

/// The accesses that hand the channel back and, when `flags` asks for it,
/// notify the host.
pub open spec fn release_tail(base: usize, flags: u32) -> Seq<Access> {
    seq![
        wr((base + SHMEM_CHANNEL_STATUS) as usize, SHMEM_CHANNEL_FREE),
        rd((base + SHMEM_FLAGS) as usize, flags),
    ] + if flags & SHMEM_FLAG_INTR_ENABLED != 0 {
        seq![wr((SYSCFG_HOST_EVENTS + HW_SET_BITS) as usize, SCMI_DOORBELL_MASK)]
    } else {
        Seq::empty()
    }
}

/// The 64 shared words that the doorbell trace `t` read.
pub open spec fn read_words(t: Seq<Access>) -> Seq<u32> {
    Seq::new(64, |i: int| t[3 + i].value)
}

/// The accesses `t` of one doorbell interrupt on server `s`, and the server
/// `after` it. The event register is read; when this channel rang, the
/// event is cleared and the channel status read; a busy channel's 64 words
/// are read, the request answered as `request_reply` says, the changed
/// words written back, the clock gates moved after a configuration change,
/// the channel handed back free, and the host notified when the flags ask
/// for it.
pub open spec fn doorbell_trace(s: UartClockServer, base: usize, t: Seq<Access>, after: UartClockServer) -> bool {
    let events = t[0].value;
    let status = t[2].value;
    if t.len() >= 1 && events & SCMI_DOORBELL_MASK == 0 {
        t == seq![rd(SYSCFG_PROC_EVENTS, events)] && after == counted(s)
    } else if t.len() >= 3 && status & SHMEM_CHANNEL_FREE != 0 {
        t == doorbell_head(base, events, status) && after == acked(s)
    } else {
        let words = read_words(t);
        let served = request_reply(acked(s), words);
        let back = changed_writes(base, words, with_reply(words, served.1), 64);
        let k: int = 67 + back.len() as int;
        let votes = if served.0.clock_config_set_count != acked(s).clock_config_set_count {
            vote_writes(served.0, t[k].value, t[k + 1].value)
        } else {
            Seq::empty()
        };
        let flags = t[k + votes.len() as int + 1].value;
        &&& t == doorbell_head(base, events, status) + word_reads(base, words) + back + votes
            + release_tail(base, flags)
        &&& after == if flags & SHMEM_FLAG_INTR_ENABLED != 0 {
            UartClockServer { host_event_count: served.0.host_event_count.wrapping_add(1), ..served.0 }
        } else {
            served.0
        }
    }
}

/// A busy channel's trace assembled from its parts meets `doorbell_trace`.
proof fn lemma_served_trace(
    s: UartClockServer,
    base: usize,
    t: Seq<Access>,
    after: UartClockServer,
    events: u32,
    status: u32,
    words: Seq<u32>,
    served: UartClockServer,
    votes: Seq<Access>,
    flags: u32,
)
    requires
        events & SCMI_DOORBELL_MASK != 0,
        status & SHMEM_CHANNEL_FREE == 0,
        words.len() == 64,
        served == request_reply(acked(s), words).0,
        votes == if served.clock_config_set_count != acked(s).clock_config_set_count {
            vote_writes(served, votes[0].value, votes[1].value)
        } else {
            Seq::<Access>::empty()
        },
        t == doorbell_head(base, events, status) + word_reads(base, words) + changed_writes(
            base,
            words,
            with_reply(words, request_reply(acked(s), words).1),
            64,
        ) + votes + release_tail(base, flags),
        after == if flags & SHMEM_FLAG_INTR_ENABLED != 0 {
            UartClockServer { host_event_count: served.host_event_count.wrapping_add(1), ..served }
        } else {
            served
        },
    ensures
        doorbell_trace(s, base, t, after),
{
    let head = doorbell_head(base, events, status);
    let w = word_reads(base, words);
    let back = changed_writes(base, words, with_reply(words, request_reply(acked(s), words).1), 64);
    let tail = release_tail(base, flags);
    assert(t[0] == head[0]);
    assert(t[2] == head[2]);
    assert forall|k: int| 0 <= k < 64 implies #[trigger] t[3 + k].value == words[k] by {
        assert(t[3 + k] == w[k]);
    }
    assert(read_words(t) =~= words);
    let kk: int = 67 + back.len() as int;
    if votes.len() > 0 {
        assert(t[kk] == votes[0]);
        assert(t[kk + 1] == votes[1]);
    }
    assert(t[kk + votes.len() as int + 1] == tail[1]);
}

impl UartClockServer {
    /// Reads the clock registers, moves their gate bits to the combined
    /// votes and writes them back.
    pub fn write_clock_votes<B: Mmio>(&self, bus: &mut Bus<B>)
        ensures
            ({
                let t0 = old(bus).trace@;
                let t = final(bus).trace@;
                let regs = clock_registers(combined(*self), got(t0, t, 0), got(t0, t, 1));
                t == t0 + seq![
                    rd(CLK_UART_CTRL, got(t0, t, 0)),
                    rd(PLL_SYS_PRIM, got(t0, t, 1)),
                    wr(CLK_UART_CTRL, regs.0),
                    wr(PLL_SYS_PRIM, regs.1),
                ]
            }),
    {
        let ghost t0 = bus.trace@;
        let uart = bus.read32(CLK_UART_CTRL);
        let apb = bus.read32(PLL_SYS_PRIM);
        let (uart_new, apb_new) = self.apply_clock_votes(uart, apb);
        bus.write32(CLK_UART_CTRL, uart_new);
        bus.write32(PLL_SYS_PRIM, apb_new);
        assert(bus.trace@ =~= t0 + seq![
            rd(CLK_UART_CTRL, uart),
            rd(PLL_SYS_PRIM, apb),
            wr(CLK_UART_CTRL, uart_new),
            wr(PLL_SYS_PRIM, apb_new),
        ]);
    }

    /// The doorbell interrupt: counts it, and when this channel rang,
    /// acknowledges it; a busy channel is then served from the 64 shared
    /// words at `shmem_base`, the changed words are written back, the clock
    /// gates follow a configuration change, the channel is handed back free
    /// and the host is notified when it asked for completion interrupts.
    #[verifier::rlimit(50)]
    pub fn handle_doorbell_irq<B: Mmio>(&mut self, bus: &mut Bus<B>, shmem_base: usize)
        requires
            shmem_base + SCMI_SHMEM_SIZE <= usize::MAX,
        ensures
            old(bus).trace@.len() <= final(bus).trace@.len(),
            final(bus).trace@.take(old(bus).trace@.len() as int) == old(bus).trace@,
            doorbell_trace(
                *old(self),
                shmem_base,
                final(bus).trace@.skip(old(bus).trace@.len() as int),
                *final(self),
            ),
            final(self).irq_count == old(self).irq_count.wrapping_add(1),
            final(self).firmware_votes == old(self).firmware_votes,
    {
        let ghost t0 = bus.trace@;
        let ghost s0 = *self;
        self.irq_count = self.irq_count.wrapping_add(1);
        let events = bus.read32(SYSCFG_PROC_EVENTS);
        if events & SCMI_DOORBELL_MASK == 0 {
            proof {
                assert(bus.trace@.take(t0.len() as int) =~= t0);
                assert(bus.trace@.skip(t0.len() as int) =~= seq![rd(SYSCFG_PROC_EVENTS, events)]);
            }
            return;
        }
        self.proc_event_count = self.proc_event_count.wrapping_add(1);
        bus.write32(SYSCFG_PROC_EVENTS + HW_CLR_BITS, SCMI_DOORBELL_MASK);
        let status = bus.read32(shmem_base + SHMEM_CHANNEL_STATUS);
        let ghost head = seq![
            rd(SYSCFG_PROC_EVENTS, events),
            wr((SYSCFG_PROC_EVENTS + HW_CLR_BITS) as usize, SCMI_DOORBELL_MASK),
            rd((shmem_base + SHMEM_CHANNEL_STATUS) as usize, status),
        ];
        assert(bus.trace@ =~= t0 + head);
        if status & SHMEM_CHANNEL_FREE != 0 {
            proof {
                assert(bus.trace@.take(t0.len() as int) =~= t0);
                assert(bus.trace@.skip(t0.len() as int) =~= head);
            }
            return;
        }
        let mut words: Vec<u32> = Vec::new();
        let mut i: usize = 0;
        assert(word_reads(shmem_base, words@) =~= Seq::<Access>::empty());
        while i < SCMI_SHMEM_WORDS
            invariant
                i <= SCMI_SHMEM_WORDS,
                words@.len() == i,
                shmem_base + SCMI_SHMEM_SIZE <= usize::MAX,
                bus.trace@ == t0 + head + word_reads(shmem_base, words@),
            decreases SCMI_SHMEM_WORDS - i,
        {
            let v = bus.read32(shmem_base + 4 * i);
            proof {
                assert(word_reads(shmem_base, words@.push(v)) =~= word_reads(shmem_base, words@).push(
                    rd((shmem_base + 4 * i) as usize, v),
                ));
            }
            words.push(v);
            i += 1;
        }
        let before = words.clone();
        assert(before@ =~= words@);
        let config_requests = self.clock_config_set_count;
        let ghost pre = *self;
        self.service_request(&mut words);
        proof {
            lemma_linux_cannot_remove_firmware_votes(pre, before@);
        }
        let ghost t2 = bus.trace@;
        let mut j: usize = 0;
        while j < SCMI_SHMEM_WORDS
            invariant
                j <= SCMI_SHMEM_WORDS,
                words@.len() == SCMI_SHMEM_WORDS,
                before@.len() == SCMI_SHMEM_WORDS,
                shmem_base + SCMI_SHMEM_SIZE <= usize::MAX,
                bus.trace@ == t2 + changed_writes(shmem_base, before@, words@, j as nat),
            decreases SCMI_SHMEM_WORDS - j,
        {
            let ghost tj = bus.trace@;
            if words[j] != before[j] {
                bus.write32(shmem_base + 4 * j, words[j]);
            }
            proof {
                let n = (j + 1) as nat;
                assert(changed_writes(shmem_base, before@, words@, n) == changed_writes(
                    shmem_base,
                    before@,
                    words@,
                    j as nat,
                ) + if words@[j as int] != before@[j as int] {
                    seq![wr((shmem_base + 4 * j) as usize, words@[j as int])]
                } else {
                    Seq::<Access>::empty()
                });
                assert(bus.trace@ =~= t2 + changed_writes(shmem_base, before@, words@, n));
            }
            j += 1;
        }
        let ghost t3 = bus.trace@;
        let ghost served = *self;
        if self.clock_config_set_count != config_requests {
            self.write_clock_votes(bus);
        }
        let ghost t4 = bus.trace@;
        bus.write32(shmem_base + SHMEM_CHANNEL_STATUS, SHMEM_CHANNEL_FREE);
        let flags = bus.read32(shmem_base + SHMEM_FLAGS);
        if flags & SHMEM_FLAG_INTR_ENABLED != 0 {
            bus.write32(SYSCFG_HOST_EVENTS + HW_SET_BITS, SCMI_DOORBELL_MASK);
            self.host_event_count = self.host_event_count.wrapping_add(1);
        }
        proof {
            let t = bus.trace@.skip(t0.len() as int);
            let votes = t4.skip(t3.len() as int);
            let tail = bus.trace@.skip(t4.len() as int);
            assert(bus.trace@.take(t0.len() as int) =~= t0);
            assert(t4 =~= t3 + votes);
            assert(tail =~= release_tail(shmem_base, flags));
            assert(bus.trace@ =~= t4 + tail);
            assert(head == doorbell_head(shmem_base, events, status));
            assert(t =~= head + word_reads(shmem_base, before@) + changed_writes(
                shmem_base,
                before@,
                words@,
                64,
            ) + votes + tail);
            assert(pre == acked(s0));
            if served.clock_config_set_count != config_requests {
                assert(votes =~= vote_writes(served, votes[0].value, votes[1].value));
            } else {
                assert(votes =~= Seq::<Access>::empty());
            }
            lemma_served_trace(s0, shmem_base, t, *self, events, status, before@, served, votes, flags);
        }
    }
}

} // verus!
