//! The firmware side of the request/response RPC: slot ownership, the
//! answer to one request and the replay state that it leaves behind.

use vstd::prelude::*;
use crate::rpc::{
    clock_of, opcode_code, request_verdict, response_words, stamped, status_code, validate_request,
    init_response, init_response_raw, stamp_response, ClockId, Opcode, Request, Status,
    FEATURE_BITMAP, OWNER_EMPTY, OWNER_READY, PING_BITMAP, VERSION, WORD_EFFECTIVE_STATE,
    WORD_PHYSICAL_STATE, WORD_RESULT0, WORD_RESULT1, WORD_SEQUENCE, WORD_OPCODE, WORD_STATUS,
    init_response_header, CHECKSUM_WORD, OWNER_WORD, REQUEST_ADDR, RESPONSE_ADDR, RESPONSE_MAGIC,
    TELEMETRY_ADDR, TELEMETRY_MAGIC, WORD_OBJECT, idle_response_words,
};
use crate::bus::{got, rd, wr, Access, Bus, Mmio};

verus! {

pub const PLL_SYS_PRIM: usize = 0x4002_0010;
pub const CLK_UART_CTRL: usize = 0x4001_8054;
pub const CLK_UART_DIV_INT: usize = 0x4001_8058;
pub const CLK_UART_SEL: usize = 0x4001_8060;

/// What a clock read reports: effective and physical state and two result
/// words.
#[derive(Clone, Copy, Debug, PartialEq, Eq, Structural)]
pub struct ClockState {
    pub effective: u32,
    pub physical: u32,
    pub result0: u32,
    pub result1: u32,
}

/// Reads the state of one clock; `None` when it cannot be read.
pub trait ClockReader {
    fn read_clock(&mut self, clock_id: ClockId) -> Option<ClockState>;
}

/// The clock state that the clock registers describe: the PLL phase from
/// PLL_SYS_PRIM, the UART clock from its control, divider and selector.
pub fn clock_state_from_registers(
    clock_id: ClockId,
    pll_sys_prim: u32,
    uart_ctrl: u32,
    uart_div_int: u32,
    uart_sel: u32,
) -> (r: ClockState)
    ensures
        r == (match clock_id {
            ClockId::PllSysPriPh => ClockState {
                effective: (pll_sys_prim >> 4u32) & 1,
                physical: pll_sys_prim,
                result0: pll_sys_prim & 0x3,
                result1: 2,
            },
            ClockId::Uart => ClockState {
                effective: (uart_ctrl >> 11u32) & 1,
                physical: uart_ctrl,
                result0: uart_div_int,
                result1: uart_sel,
            },
        }),
{
    match clock_id {
        ClockId::PllSysPriPh => ClockState {
            effective: (pll_sys_prim >> 4u32) & 1,
            physical: pll_sys_prim,
            result0: pll_sys_prim & 0x3,
            result1: 2,
        },
        ClockId::Uart => ClockState {
            effective: (uart_ctrl >> 11u32) & 1,
            physical: uart_ctrl,
            result0: uart_div_int,
            result1: uart_sel,
        },
    }
}

/// A request is served only when the host handed it over and the response
/// slot is empty.
pub fn slots_ready(request_owner: u32, response_owner: u32) -> (r: bool)
    ensures
        r == (request_owner == OWNER_READY && response_owner == OWNER_EMPTY),
{
    request_owner == OWNER_READY && response_owner == OWNER_EMPTY
}

/// The unstamped success response to a valid request, with the clock state
/// that was read for a clock request (`None`: the clock could not be read).
pub open spec fn success_words(request: Request, now: u64, clock: Option<ClockState>) -> Seq<u32> {
    let base = response_words(request.sequence, opcode_code(request.opcode), 0, now);
    match request.opcode {
        Opcode::Ping => base.update(8, 1).update(9, 1).update(12, VERSION).update(13, PING_BITMAP),
        Opcode::GetCapabilities => base.update(12, FEATURE_BITMAP).update(13, 0x200),
        Opcode::GetClockState => match (clock_of(request.object), clock) {
            (Some(_), Some(s)) => base.update(8, s.effective).update(9, s.physical).update(
                12,
                s.result0,
            ).update(13, s.result1),
            _ => base.update(6, status_code(Status::BadObject)),
        },
    }
}

/// Answers a valid request; only a clock request reads a clock.
pub fn success_response<C: ClockReader>(request: Request, now: u64, clock: &mut C) -> (r: [u32; 32])
    ensures
        request.opcode != Opcode::GetClockState ==> r@ == stamped(success_words(request, now, None)),
        request.opcode == Opcode::GetClockState ==> exists|c: Option<ClockState>|
            r@ == stamped(#[trigger] success_words(request, now, c)),
{
    let mut response = [0u32; 32];
    init_response(&mut response, &request, Status::Success, now);
    match request.opcode {
        Opcode::Ping => {
            response[WORD_EFFECTIVE_STATE] = 1;
            response[WORD_PHYSICAL_STATE] = 1;
            response[WORD_RESULT0] = VERSION;
            response[WORD_RESULT1] = PING_BITMAP;
        },
        Opcode::GetCapabilities => {
            response[WORD_RESULT0] = FEATURE_BITMAP;
            response[WORD_RESULT1] = 0x200;
        },
        Opcode::GetClockState => {
            let clock_id = match ClockId::try_from(request.object) {
                Ok(id) => id,
                Err(_) => {
                    response[WORD_STATUS] = Status::BadObject.code();
                    assert(response@ =~= success_words(request, now, None));
                    stamp_response(&mut response);
                    return response;
                },
            };
            let state = match clock.read_clock(clock_id) {
                Some(s) => s,
                None => {
                    response[WORD_STATUS] = Status::BadObject.code();
                    assert(response@ =~= success_words(request, now, None));
                    stamp_response(&mut response);
                    return response;
                },
            };
            response[WORD_EFFECTIVE_STATE] = state.effective;
            response[WORD_PHYSICAL_STATE] = state.physical;
            response[WORD_RESULT0] = state.result0;
            response[WORD_RESULT1] = state.result1;
            assert(response@ =~= success_words(request, now, Some(state)));
            stamp_response(&mut response);
            return response;
        },
    }
    assert(response@ =~= success_words(request, now, None));
    stamp_response(&mut response);
    response
}

/// The response to a refused request: its raw sequence and opcode words and
/// the refusal status.
pub fn error_response(request_words: &[u32; 32], status: Status, now: u64) -> (r: [u32; 32])
    ensures
        r@ == stamped(
            response_words(request_words@[4], request_words@[5], status_code(status), now),
        ),
{
    let mut response = [0u32; 32];
    init_response_raw(
        &mut response,
        request_words[WORD_SEQUENCE],
        request_words[WORD_OPCODE],
        status,
        now,
    );
    stamp_response(&mut response);
    response
}

/// The sequence that the firmware remembers after answering: a replayed
/// request leaves the last sequence as it was; any other answer, refusals
/// included, remembers the request's sequence.
pub open spec fn next_sequence_after(response_status: u32, last: Option<u32>, sequence: u32) -> Option<
    u32,
> {
    if response_status == status_code(Status::Replay) {
        last
    } else {
        Some(sequence)
    }
}

/// Answers the request in `request_words` given the last sequence served:
/// the response, the sequence to remember and the refusal, if any.
pub fn handle_request<C: ClockReader>(
    request_words: &[u32; 32],
    last_sequence: Option<u32>,
    now: u64,
    clock: &mut C,
) -> (r: ([u32; 32], Option<u32>, Option<Status>))
    ensures
        match request_verdict(request_words@, last_sequence) {
            Ok(request) => {
                &&& r.2 is None
                &&& request.opcode != Opcode::GetClockState ==> r.0@ == stamped(
                    success_words(request, now, None),
                )
                &&& request.opcode == Opcode::GetClockState ==> exists|c: Option<ClockState>|
                    r.0@ == stamped(#[trigger] success_words(request, now, c))
            },
            Err(status) => {
                &&& r.2 == Some(status)
                &&& r.0@ == stamped(
                    response_words(
                        request_words@[4],
                        request_words@[5],
                        status_code(status),
                        now,
                    ),
                )
            },
        },
        r.1 == next_sequence_after(r.0@[6], last_sequence, request_words@[4]),
{
    let (response, validation_error) = match validate_request(request_words, last_sequence) {
        Ok(request) => (success_response(request, now, clock), None),
        Err(status) => (error_response(request_words, status, now), Some(status)),
    };
    let next_sequence = if response[WORD_STATUS] == Status::Replay.code() {
        last_sequence
    } else {
        Some(request_words[WORD_SEQUENCE])
    };
    (response, next_sequence, validation_error)
}

/// The telemetry word counted for a refusal status (7 for success).
pub fn error_counter_word(status: Status) -> (r: usize)
    ensures
        r == (if status == Status::Success { 7 } else { 7 + status_code(status) }),
{
    match status {
        Status::BadMagic => 8,
        Status::BadVersion => 9,
        Status::BadLength => 10,
        Status::BadChecksum => 11,
        Status::BadReserved => 12,
        Status::BadFlags => 13,
        Status::BadOpcode => 14,
        Status::BadObject => 15,
        Status::Busy => 16,
        Status::Replay => 17,
        Status::Success => 7,
    }
}

/// A replayed request changes nothing that the firmware remembers, and an
/// answered request is remembered: so the same sequence is served at most
/// once in a row.
pub proof fn lemma_replay_is_idempotent(words: Seq<u32>, last: Option<u32>, response_status: u32)
    requires
        words.len() == 32,
        request_verdict(words, last) == Err::<Request, Status>(Status::Replay),
        response_status == status_code(Status::Replay),
    ensures
        next_sequence_after(response_status, last, words[4]) == last,
        last == Some(words[4]),
        request_verdict(words, next_sequence_after(response_status, last, words[4])) == Err::<
            Request,
            Status,
        >(Status::Replay),
{
}

} // verus!

verus! {

/// An accepted request is remembered, so the same slot presented again
/// right after is answered `Replay`.
pub proof fn lemma_served_sequence_then_replays(
    words: Seq<u32>,
    last: Option<u32>,
    now: u64,
    clock: Option<ClockState>,
)
    requires
        words.len() == 32,
        request_verdict(words, last) is Ok,
    ensures
        ({
            let request = request_verdict(words, last)->Ok_0;
            let response = stamped(success_words(request, now, clock));
            &&& next_sequence_after(response[6], last, words[4]) == Some(words[4])
            &&& request_verdict(words, next_sequence_after(response[6], last, words[4])) == Err::<
                Request,
                Status,
            >(Status::Replay)
        }),
{
}

} // verus!

verus! {

/// Reads clock state from the clock registers on a bus.
pub struct BusClock<'a, B: Mmio> {
    pub bus: &'a mut Bus<B>,
}

/// The clock state that the register values describe (see
/// `clock_state_from_registers`).
pub open spec fn clock_state_of(
    clock_id: ClockId,
    pll_sys_prim: u32,
    uart_ctrl: u32,
    uart_div_int: u32,
    uart_sel: u32,
) -> ClockState {
    match clock_id {
        ClockId::PllSysPriPh => ClockState {
            effective: (pll_sys_prim >> 4u32) & 1,
            physical: pll_sys_prim,
            result0: pll_sys_prim & 0x3,
            result1: 2,
        },
        ClockId::Uart => ClockState {
            effective: (uart_ctrl >> 11u32) & 1,
            physical: uart_ctrl,
            result0: uart_div_int,
            result1: uart_sel,
        },
    }
}

/// The accesses of reading the clock registers of `clock_id` and the state
/// they give: the PLL phase reads PLL_SYS_PRIM; the UART clock reads its
/// control, divider and selector, in that order.
pub open spec fn clock_read(before: Seq<Access>, after: Seq<Access>, clock_id: ClockId, r: Option<ClockState>) -> bool {
    match clock_id {
        ClockId::PllSysPriPh => after == before.push(rd(PLL_SYS_PRIM, got(before, after, 0))) && r
            == Some(clock_state_of(clock_id, got(before, after, 0), 0, 0, 0)),
        ClockId::Uart => after == before + seq![
            rd(CLK_UART_CTRL, got(before, after, 0)),
            rd(CLK_UART_DIV_INT, got(before, after, 1)),
            rd(CLK_UART_SEL, got(before, after, 2)),
        ] && r == Some(
            clock_state_of(clock_id, 0, got(before, after, 0), got(before, after, 1), got(before, after, 2)),
        ),
    }
}

fn read_clock_registers<B: Mmio>(bus: &mut Bus<B>, clock_id: ClockId) -> (r: Option<ClockState>)
    ensures
        clock_read(old(bus).trace@, final(bus).trace@, clock_id, r),
{
    let ghost t0 = bus.trace@;
    match clock_id {
        ClockId::PllSysPriPh => {
            let prim = bus.read32(PLL_SYS_PRIM);
            Some(clock_state_from_registers(clock_id, prim, 0, 0, 0))
        },
        ClockId::Uart => {
            let ctrl = bus.read32(CLK_UART_CTRL);
            let div = bus.read32(CLK_UART_DIV_INT);
            let sel = bus.read32(CLK_UART_SEL);
            assert(bus.trace@ =~= t0 + seq![
                rd(CLK_UART_CTRL, ctrl),
                rd(CLK_UART_DIV_INT, div),
                rd(CLK_UART_SEL, sel),
            ]);
            Some(clock_state_from_registers(clock_id, 0, ctrl, div, sel))
        },
    }
}

impl<'a, B: Mmio> ClockReader for BusClock<'a, B> {
    fn read_clock(&mut self, clock_id: ClockId) -> (r: Option<ClockState>)
        ensures
            clock_read(old(self).bus.trace@, final(self).bus.trace@, clock_id, r),
    {
        read_clock_registers(self.bus, clock_id)
    }
}

/// A clock whose state was read before the request was answered.
struct FixedClock {
    state: Option<ClockState>,
}

impl ClockReader for FixedClock {
    fn read_clock(&mut self, clock_id: ClockId) -> (r: Option<ClockState>) {
        self.state
    }
}

/// The reads of the 32 request words, which gave `request`.
pub open spec fn request_reads(request: Seq<u32>) -> Seq<Access> {
    Seq::new(32, |i: int| rd(word_addr(REQUEST_ADDR, i), request[i]))
}

/// What `handle_request` answers to `request`: its success words (for a
/// clock request, with some clock state read) or the refusal.
pub open spec fn served_response(request: Seq<u32>, last: Option<u32>, now: u64, response: Seq<u32>) -> bool {
    match request_verdict(request, last) {
        Ok(req) => if req.opcode != Opcode::GetClockState {
            response == stamped(success_words(req, now, None))
        } else {
            exists|c: Option<ClockState>| response == stamped(#[trigger] success_words(req, now, c))
        },
        Err(status) => response == stamped(
            response_words(request[4], request[5], status_code(status), now),
        ),
    }
}

/// Response words `0..k` but the owner word written in order.
pub open spec fn response_writes(response: Seq<u32>, k: nat) -> Seq<Access>
    decreases k,
{
    if k == 0 {
        Seq::empty()
    } else if k - 1 != OWNER_WORD {
        response_writes(response, (k - 1) as nat).push(wr(word_addr(RESPONSE_ADDR, k - 1), response[k - 1]))
    } else {
        response_writes(response, (k - 1) as nat)
    }
}

pub proof fn lemma_response_writes_len(response: Seq<u32>, k: nat)
    ensures
        response_writes(response, k).len() == if k > OWNER_WORD { k - 1 } else { k as int },
    decreases k,
{
    if k > 0 {
        lemma_response_writes_len(response, (k - 1) as nat);
    }
}

/// The accesses that end a served poll: the last-request telemetry words,
/// the response words, the two owner words handed back (response first)
/// and the served counter, which read `counter`.
pub open spec fn served_tail(request: Seq<u32>, response: Seq<u32>, counter: u32) -> Seq<Access> {
    seq![
        wr(word_addr(TELEMETRY_ADDR, 18), request[WORD_SEQUENCE as int]),
        wr(word_addr(TELEMETRY_ADDR, 19), request[WORD_OPCODE as int]),
        wr(word_addr(TELEMETRY_ADDR, 20), request[WORD_OBJECT as int]),
        wr(word_addr(TELEMETRY_ADDR, 21), response[WORD_STATUS as int]),
        wr(word_addr(TELEMETRY_ADDR, 22), request[CHECKSUM_WORD as int]),
        wr(word_addr(TELEMETRY_ADDR, 23), response[CHECKSUM_WORD as int]),
    ] + response_writes(response, 32) + seq![
        wr(word_addr(RESPONSE_ADDR, OWNER_WORD as int), OWNER_READY),
        wr(word_addr(REQUEST_ADDR, OWNER_WORD as int), OWNER_EMPTY),
    ] + counter_step(7, counter)
}

/// The telemetry slot as `init` publishes it: version, size and one in
/// words 1 to 3, all-ones in the last-request words 18 to 21, zero
/// elsewhere, and the magic in word 0.
pub open spec fn initial_telemetry() -> Seq<u32> {
    Seq::new(
        64,
        |i: int|
            if i == 0 {
                TELEMETRY_MAGIC
            } else if i == 1 {
                VERSION
            } else if i == 2 {
                64u32
            } else if i == 3 {
                1u32
            } else if 18 <= i <= 21 {
                u32::MAX
            } else {
                0u32
            },
    )
}

/// The firmware's RPC endpoint: the sequence of the last answered request.
#[derive(Clone, Copy, Debug, PartialEq, Eq, Structural)]
pub struct RpcService {
    pub last_sequence: Option<u32>,
}

fn slot_addr(base: u32, index: usize) -> (r: usize)
    requires
        index < 64,
        base < 0x8000_0000,
    ensures
        r == base + 4 * index,
{
    base as usize + 4 * index
}

pub open spec fn word_addr(base: u32, index: int) -> usize {
    (base + 4 * index) as usize
}

/// Zero written to words `0..n` of the slot at `base`, in order.
pub open spec fn zero_writes(base: u32, n: nat) -> Seq<Access> {
    Seq::new(n, |i: int| wr(word_addr(base, i), 0))
}

/// The read and the write of a telemetry counter that read `value`.
pub open spec fn counter_step(index: int, value: u32) -> Seq<Access> {
    seq![rd(word_addr(TELEMETRY_ADDR, index), value), wr(word_addr(TELEMETRY_ADDR, index), value.wrapping_add(1))]
}

/// Response words `1..n` of the idle response written in order.
pub open spec fn idle_writes(n: nat) -> Seq<Access> {
    if n <= 1 {
        Seq::empty()
    } else {
        Seq::new((n - 1) as nat, |i: int| wr(word_addr(RESPONSE_ADDR, i + 1), stamped(idle_response_words())[i + 1]))
    }
}

/// The nonzero words among telemetry words `1..n` written in order.
pub open spec fn telemetry_writes(n: nat) -> Seq<Access>
    decreases n,
{
    if n <= 1 {
        Seq::empty()
    } else if initial_telemetry()[n - 1] != 0 {
        telemetry_writes((n - 1) as nat).push(wr(word_addr(TELEMETRY_ADDR, n - 1), initial_telemetry()[n - 1]))
    } else {
        telemetry_writes((n - 1) as nat)
    }
}

fn clear_slot<B: Mmio>(bus: &mut Bus<B>, base: u32, words: usize)
    requires
        words <= 64,
        base < 0x8000_0000,
    ensures
        final(bus).trace@ == old(bus).trace@ + zero_writes(base, words as nat),
{
    let ghost t0 = bus.trace@;
    let mut i: usize = 0;
    assert(t0 + zero_writes(base, 0) =~= t0);
    while i < words
        invariant
            i <= words <= 64,
            base < 0x8000_0000,
            bus.trace@ == t0 + zero_writes(base, i as nat),
        decreases words - i,
    {
        bus.write32(slot_addr(base, i), 0);
        i += 1;
        assert(bus.trace@ =~= t0 + zero_writes(base, i as nat));
    }
}

fn telemetry_inc<B: Mmio>(bus: &mut Bus<B>, index: usize)
    requires
        index < 64,
    ensures
        final(bus).trace@ == old(bus).trace@ + counter_step(
            index as int,
            got(old(bus).trace@, final(bus).trace@, 0),
        ),
{
    let ghost t0 = bus.trace@;
    let addr = slot_addr(TELEMETRY_ADDR, index);
    let old = bus.read32(addr);
    bus.write32(addr, old.wrapping_add(1));
    assert(bus.trace@ =~= t0 + counter_step(index as int, old));
}

impl RpcService {
    /// Forgets every request, publishes an idle response slot (its magic
    /// last), clears the request slot and publishes fresh telemetry: the
    /// response magic word zeroed; the request, response and telemetry
    /// slots cleared; response words 1..32 of the idle response; its magic;
    /// the nonzero telemetry words 1..64; the telemetry magic.
    pub fn init<B: Mmio>(bus: &mut Bus<B>) -> (r: Self)
        ensures
            r.last_sequence is None,
            final(bus).trace@ == old(bus).trace@.push(wr(word_addr(RESPONSE_ADDR, 0), 0))
                + zero_writes(REQUEST_ADDR, 32) + zero_writes(RESPONSE_ADDR, 32) + zero_writes(
                TELEMETRY_ADDR,
                64,
            ) + idle_writes(32) + seq![wr(word_addr(RESPONSE_ADDR, 0), RESPONSE_MAGIC)]
                + telemetry_writes(64) + seq![wr(word_addr(TELEMETRY_ADDR, 0), TELEMETRY_MAGIC)],
    {
        let ghost t0 = bus.trace@;
        bus.write32(slot_addr(RESPONSE_ADDR, 0), 0);
        let ghost t1 = bus.trace@;
        let mut response = [0u32; 32];
        init_response_header(&mut response);
        clear_slot(bus, REQUEST_ADDR, 32);
        let ghost t2 = bus.trace@;
        clear_slot(bus, RESPONSE_ADDR, 32);
        let ghost t3 = bus.trace@;
        clear_slot(bus, TELEMETRY_ADDR, 64);
        let ghost cleared = bus.trace@;
        assert(cleared =~= t0.push(wr(word_addr(RESPONSE_ADDR, 0), 0)) + zero_writes(REQUEST_ADDR, 32)
            + zero_writes(RESPONSE_ADDR, 32) + zero_writes(TELEMETRY_ADDR, 64));
        assert(cleared + idle_writes(1) =~= cleared);
        let mut i: usize = 1;
        while i < 32
            invariant
                1 <= i <= 32,
                response@ == stamped(idle_response_words()),
                bus.trace@ == cleared + idle_writes(i as nat),
            decreases 32 - i,
        {
            bus.write32(slot_addr(RESPONSE_ADDR, i), response[i]);
            i += 1;
            assert(bus.trace@ =~= cleared + idle_writes(i as nat));
        }
        bus.write32(slot_addr(RESPONSE_ADDR, 0), RESPONSE_MAGIC);
        let ghost published = bus.trace@;
        let telemetry = Self::telemetry_words();
        let mut k: usize = 1;
        assert(published + telemetry_writes(1) =~= published);
        while k < 64
            invariant
                1 <= k <= 64,
                telemetry@ == initial_telemetry(),
                bus.trace@ == published + telemetry_writes(k as nat),
            decreases 64 - k,
        {
            if telemetry[k] != 0 {
                bus.write32(slot_addr(TELEMETRY_ADDR, k), telemetry[k]);
            }
            k += 1;
            assert(bus.trace@ =~= published + telemetry_writes(k as nat));
        }
        let ghost filled = bus.trace@;
        bus.write32(slot_addr(TELEMETRY_ADDR, 0), TELEMETRY_MAGIC);
        assert(bus.trace@ =~= cleared + idle_writes(32) + seq![wr(word_addr(RESPONSE_ADDR, 0), RESPONSE_MAGIC)]
            + telemetry_writes(64) + seq![wr(word_addr(TELEMETRY_ADDR, 0), TELEMETRY_MAGIC)]);
        RpcService { last_sequence: None }
    }

    /// The words of a freshly published telemetry slot.
    pub fn telemetry_words() -> (r: Vec<u32>)
        ensures
            r@ == initial_telemetry(),
    {
        let mut words: Vec<u32> = Vec::new();
        let mut i: usize = 0;
        while i < 64
            invariant
                i <= 64,
                words@ == initial_telemetry().subrange(0, i as int),
            decreases 64 - i,
        {
            let w: u32 = if i == 0 {
                TELEMETRY_MAGIC
            } else if i == 1 {
                VERSION
            } else if i == 2 {
                64
            } else if i == 3 {
                1
            } else if 18 <= i && i <= 21 {
                u32::MAX
            } else {
                0
            };
            words.push(w);
            i += 1;
            assert(words@ =~= initial_telemetry().subrange(0, i as int));
        }
        assert(initial_telemetry().subrange(0, 64) =~= initial_telemetry());
        words
    }

    /// Serves the request slot once, when the host handed over a request and
    /// the response slot is empty: answers it, remembers its sequence unless
    /// it was a replay, counts the outcome, records the last request and
    /// hands both slots back (response first). Returns whether it served.
    #[verifier::rlimit(100)]
    #[verifier::spinoff_prover]
    pub fn poll<B: Mmio>(&mut self, bus: &mut Bus<B>, now: u64) -> (r: bool)
        ensures
            !r ==> *final(self) == *old(self),
            ({
                let t0 = old(bus).trace@;
                let t = final(bus).trace@;
                let n = t0.len();
                let checked = t0 + counter_step(4, got(t0, t, 0)) + seq![
                    rd(word_addr(REQUEST_ADDR, OWNER_WORD as int), got(t0, t, 2)),
                ];
                if got(t0, t, 2) != OWNER_READY {
                    t == checked && !r
                } else {
                    let owners = checked.push(
                        rd(word_addr(RESPONSE_ADDR, OWNER_WORD as int), got(t0, t, 3)),
                    );
                    if got(t0, t, 3) != OWNER_EMPTY {
                        t == owners + counter_step(16, got(t0, t, 4)) && !r
                    } else {
                        let request = Seq::new(32, |i: int| got(t0, t, 4 + i));
                        &&& r
                        &&& t.len() >= n + 36 + 41
                        &&& t.subrange(0, n as int + 36) == owners + request_reads(request)
                        &&& exists|response: Seq<u32>|
                            #[trigger] served_response(
                                request,
                                old(self).last_sequence,
                                now,
                                response,
                            ) && final(self).last_sequence == next_sequence_after(
                                response[WORD_STATUS as int],
                                old(self).last_sequence,
                                request[WORD_SEQUENCE as int],
                            ) && t.subrange(t.len() - 41, t.len() as int) == served_tail(
                                request,
                                response,
                                t[t.len() - 2].value,
                            )
                    }
                }
            }),
    {
        let ghost t0 = bus.trace@;
        telemetry_inc(bus, 4);
        let request_owner = bus.read32(slot_addr(REQUEST_ADDR, OWNER_WORD));
        if request_owner != OWNER_READY {
            return false;
        }
        let response_owner = bus.read32(slot_addr(RESPONSE_ADDR, OWNER_WORD));
        if !slots_ready(request_owner, response_owner) {
            telemetry_inc(bus, 16);
            return false;
        }
        let ghost owners = bus.trace@;
        let mut request = [0u32; 32];
        let mut i: usize = 0;
        proof {
            assert(owners + Seq::new(0, |j: int| rd(word_addr(REQUEST_ADDR, j), request@[j])) =~= owners);
        }
        while i < 32
            invariant
                i <= 32,
                request@.len() == 32,
                bus.trace@ == owners + Seq::new(i as nat, |j: int| rd(word_addr(REQUEST_ADDR, j), request@[j])),
            decreases 32 - i,
        {
            let v = bus.read32(slot_addr(REQUEST_ADDR, i));
            let ghost before = request@;
            request[i] = v;
            i += 1;
            assert(bus.trace@ =~= owners + Seq::new(i as nat, |j: int| rd(word_addr(REQUEST_ADDR, j), request@[j])));
        }
        let ghost read_done = bus.trace@;
        assert(read_done =~= owners + request_reads(request@));
        telemetry_inc(bus, 5);
        assert(bus.trace@.subrange(0, read_done.len() as int) =~= read_done);
        let ghost before_clock = bus.trace@;
        let pre = match validate_request(&request, self.last_sequence) {
            Ok(req) => match req.opcode {
                Opcode::GetClockState => match ClockId::try_from(req.object) {
                    Ok(id) => read_clock_registers(bus, id),
                    Err(_) => None,
                },
                _ => None,
            },
            Err(_) => None,
        };
        assert(bus.trace@.subrange(0, before_clock.len() as int) =~= before_clock);
        assert(bus.trace@.subrange(0, read_done.len() as int) =~= read_done);
        let ghost before_count = bus.trace@;
        let (response, next, refusal) = handle_request(
            &request,
            self.last_sequence,
            now,
            &mut FixedClock { state: pre },
        );
        match refusal {
            Some(status) => telemetry_inc(bus, error_counter_word(status)),
            None => telemetry_inc(bus, 6),
        }
        let ghost mid = bus.trace@;
        assert(mid.subrange(0, read_done.len() as int) =~= read_done);
        self.last_sequence = next;
        bus.write32(slot_addr(TELEMETRY_ADDR, 18), request[WORD_SEQUENCE]);
        bus.write32(slot_addr(TELEMETRY_ADDR, 19), request[WORD_OPCODE]);
        bus.write32(slot_addr(TELEMETRY_ADDR, 20), request[WORD_OBJECT]);
        bus.write32(slot_addr(TELEMETRY_ADDR, 21), response[WORD_STATUS]);
        bus.write32(slot_addr(TELEMETRY_ADDR, 22), request[CHECKSUM_WORD]);
        bus.write32(slot_addr(TELEMETRY_ADDR, 23), response[CHECKSUM_WORD]);
        let ghost six = bus.trace@;
        let mut k: usize = 0;
        proof {
            assert(six + response_writes(response@, 0) =~= six);
        }
        while k < 32
            invariant
                k <= 32,
                response@.len() == 32,
                bus.trace@ == six + response_writes(response@, k as nat),
            decreases 32 - k,
        {
            if k != OWNER_WORD {
                bus.write32(slot_addr(RESPONSE_ADDR, k), response[k]);
            }
            k += 1;
            assert(bus.trace@ =~= six + response_writes(response@, k as nat));
        }
        bus.write32(slot_addr(RESPONSE_ADDR, OWNER_WORD), OWNER_READY);
        bus.write32(slot_addr(REQUEST_ADDR, OWNER_WORD), OWNER_EMPTY);
        let ghost before_last = bus.trace@;
        telemetry_inc(bus, 7);
        proof {
            let t = bus.trace@;
            lemma_response_writes_len(response@, 32);
            let c = got(before_last, t, 0);
            assert(t =~= mid + served_tail(request@, response@, c));
            assert(t[t.len() - 2].value == c);
            assert(t.subrange(t.len() - 41, t.len() as int) =~= served_tail(request@, response@, c));
            assert(t.subrange(0, read_done.len() as int) =~= read_done);
            assert(Seq::new(32, |j: int| got(t0, t, 4 + j)) =~= request@);
            assert(served_response(request@, old(self).last_sequence, now, response@));
        }
        true
    }
}

} // verus!
