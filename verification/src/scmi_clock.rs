//! Bounded SCMI Base/Clock 2.0 server with one owner.
//!
//! The backend reports physical state, not merely the desired profile. No
//! clock or PLL address is writable through this protocol; mutation is an
//! explicit permission of the server.

use vstd::prelude::*;
use vstd::string::StringSliceAdditionalSpecFns;

verus! {

/// SCMI status codes; `code` gives the wire value.
#[derive(Clone, Copy, Debug, PartialEq, Eq, Structural)]
pub enum Error {
    NotSupported,
    InvalidParameters,
    Denied,
    NotFound,
    Hardware,
    Protocol,
}

pub open spec fn error_code(e: Error) -> i32 {
    match e {
        Error::NotSupported => -1i32,
        Error::InvalidParameters => -2i32,
        Error::Denied => -3i32,
        Error::NotFound => -4i32,
        Error::Hardware => -9i32,
        Error::Protocol => -10i32,
    }
}

impl Error {
    /// The SCMI status value of the error.
    pub fn code(self) -> (r: i32)
        ensures
            r == error_code(self),
    {
        match self {
            Error::NotSupported => -1,
            Error::InvalidParameters => -2,
            Error::Denied => -3,
            Error::NotFound => -4,
            Error::Hardware => -9,
            Error::Protocol => -10,
        }
    }
}

/// One clock of the firmware's clock profile.
#[derive(Clone, Copy, Debug, PartialEq, Eq)]
pub struct ClockPolicy {
    pub name: &'static str,
    pub scmi_id: Option<u32>,
    pub rp1_id: u32,
    pub rate_hz: u32,
    pub boot_required: bool,
    pub rp1_required: bool,
}

/// Channel of the SCMI doorbell in the RP1 mailbox.
pub const MAILBOX_CHANNEL: u32 = 1;

/// The clock profile of this firmware: the APB clock that SCMI exposes as
/// clock 0 and the UART clock, which SCMI does not expose.
pub fn clock_profile() -> (r: [ClockPolicy; 2])
    ensures
        r[0].scmi_id == Some(0u32) && r[0].rp1_id == 6 && r[0].rate_hz == 100_000_000
            && r[0].boot_required && r[0].rp1_required,
        r[1].scmi_id is None && r[1].rp1_id == 15 && r[1].rate_hz == 50_000_000,
{
    [
        ClockPolicy {
            name: "pll_sys_pri_ph",
            scmi_id: Some(0),
            rp1_id: 6,
            rate_hz: 100_000_000,
            boot_required: true,
            rp1_required: true,
        },
        ClockPolicy {
            name: "uart",
            scmi_id: None,
            rp1_id: 15,
            rate_hz: 50_000_000,
            boot_required: true,
            rp1_required: false,
        },
    ]
}

#[derive(Clone, Copy, Debug, PartialEq, Eq, Structural)]
pub struct PhysicalState {
    pub rate_hz: u64,
    pub enabled: bool,
}

/// The clock backend. It reports the physical state of a clock; `enable`
/// is implemented only for known typed clock operations, commits nothing on
/// error and handles its own partial failures.
pub trait ClockHardware {
    fn read(&mut self, rp1_id: u32) -> Result<PhysicalState, Error>;

    fn enable(&mut self, rp1_id: u32, enabled: bool) -> Result<(), Error>;
}

/// One call made of a clock backend, with what it returned.
pub enum ClockCall {
    Read { read_id: u32, read: Result<PhysicalState, Error> },
    Enable { enable_id: u32, on: bool, done: Result<(), Error> },
}

/// A clock backend with the record of the calls made of it.
pub struct Backend<H> {
    pub hw: H,
    pub calls: Ghost<Seq<ClockCall>>,
}

impl<H: ClockHardware> Backend<H> {
    pub fn new(hw: H) -> (r: Self)
        ensures
            r.calls@ == Seq::<ClockCall>::empty(),
    {
        Backend { hw, calls: Ghost(Seq::empty()) }
    }

    /// Reads the physical state of clock `rp1_id`.
    pub fn read(&mut self, rp1_id: u32) -> (r: Result<PhysicalState, Error>)
        ensures
            final(self).calls@ == old(self).calls@.push(ClockCall::Read { read_id: rp1_id, read: r }),
    {
        let r = self.hw.read(rp1_id);
        proof {
            self.calls = Ghost(self.calls@.push(ClockCall::Read { read_id: rp1_id, read: r }));
        }
        r
    }

    /// Asks the backend to switch clock `rp1_id` on or off.
    pub fn enable(&mut self, rp1_id: u32, enabled: bool) -> (r: Result<(), Error>)
        ensures
            final(self).calls@ == old(self).calls@.push(
                ClockCall::Enable { enable_id: rp1_id, on: enabled, done: r },
            ),
    {
        let r = self.hw.enable(rp1_id, enabled);
        proof {
            self.calls = Ghost(
                self.calls@.push(ClockCall::Enable { enable_id: rp1_id, on: enabled, done: r }),
            );
        }
        r
    }
}

/// A response payload: the status word then up to seven data words; the
/// transport adds the unchanged SCMI header.
#[derive(Debug)]
pub struct Response {
    pub words: [u32; 8],
    pub len: usize,
}

pub open spec fn zero_words(n: nat) -> Seq<u32> {
    Seq::new(n, |i: int| 0u32)
}

/// The eight words of a success response carrying `data`.
pub open spec fn success_words(data: Seq<u32>) -> Seq<u32> {
    seq![0u32] + data + zero_words((7 - data.len()) as nat)
}

pub open spec fn is_success(r: Response, data: Seq<u32>) -> bool {
    r.words@ == success_words(data) && r.len == data.len() + 1
}

pub open spec fn is_error(r: Response, e: Error) -> bool {
    r.words@ == seq![error_code(e) as u32] + zero_words(7) && r.len == 1
}

/// Byte `i` of a name, cut to fifteen bytes and zero padded.
pub open spec fn name_byte(text: Seq<u8>, i: int) -> u8 {
    if i < 15 && i < text.len() {
        text[i]
    } else {
        0
    }
}

/// The four little-endian words of a name field.
pub open spec fn name_words(text: Seq<u8>) -> Seq<u32> {
    Seq::new(
        4,
        |k: int|
            crate::debug::le_word(
                name_byte(text, 4 * k),
                name_byte(text, 4 * k + 1),
                name_byte(text, 4 * k + 2),
                name_byte(text, 4 * k + 3),
            ),
    )
}

pub open spec fn name_data(prefix: Seq<u32>, text: Seq<u8>, suffix: Seq<u32>) -> Seq<u32> {
    prefix + name_words(text) + suffix
}

impl Response {
    /// A success response with `data` after the status word.
    pub fn success(data: &[u32]) -> (r: Self)
        requires
            data@.len() <= 7,
        ensures
            is_success(r, data@),
            1 <= r.len <= 8,
    {
        let mut words = [0u32; 8];
        let mut i: usize = 0;
        while i < data.len()
            invariant
                i <= data@.len() <= 7,
                words@.len() == 8,
                words@[0] == 0,
                forall|j: int| 1 <= j <= i ==> words@[j] == data@[j - 1],
                forall|j: int| i + 1 <= j < 8 ==> words@[j] == 0,
            decreases data@.len() - i,
        {
            words[i + 1] = data[i];
            i += 1;
        }
        assert(words@ =~= success_words(data@));
        Response { words, len: data.len() + 1 }
    }

    /// An error response: only the status word.
    pub fn error(error: Error) -> (r: Self)
        ensures
            is_error(r, error),
            r.len == 1,
    {
        let code = error.code();
        let r = Response { words: [code as u32, 0, 0, 0, 0, 0, 0, 0], len: 1 };
        assert(r.words@ =~= seq![error_code(error) as u32] + zero_words(7));
        r
    }

    /// A success response with `prefix`, a sixteen-byte name field holding
    /// at most fifteen bytes of `text`, then `suffix`.
    pub fn name(prefix: &[u32], text: &[u8], suffix: &[u32]) -> (r: Self)
        requires
            prefix@.len() + 4 + suffix@.len() <= 7,
        ensures
            is_success(r, name_data(prefix@, text@, suffix@)),
            1 <= r.len <= 8,
    {
        let mut data: Vec<u32> = Vec::new();
        let mut i: usize = 0;
        while i < prefix.len()
            invariant
                i <= prefix@.len(),
                data@ == prefix@.subrange(0, i as int),
            decreases prefix@.len() - i,
        {
            data.push(prefix[i]);
            i += 1;
            assert(data@ =~= prefix@.subrange(0, i as int));
        }
        assert(prefix@.subrange(0, i as int) =~= prefix@);
        let mut k: usize = 0;
        while k < 4
            invariant
                k <= 4,
                data@ == prefix@ + name_words(text@).subrange(0, k as int),
            decreases 4 - k,
        {
            let b0 = name_byte_at(text, 4 * k);
            let b1 = name_byte_at(text, 4 * k + 1);
            let b2 = name_byte_at(text, 4 * k + 2);
            let b3 = name_byte_at(text, 4 * k + 3);
            data.push((b0 as u32) | ((b1 as u32) << 8u32) | ((b2 as u32) << 16u32) | ((b3 as u32)
                << 24u32));
            k += 1;
            assert(data@ =~= prefix@ + name_words(text@).subrange(0, k as int));
        }
        assert(name_words(text@).subrange(0, 4) =~= name_words(text@));
        let mut j: usize = 0;
        while j < suffix.len()
            invariant
                j <= suffix@.len(),
                data@ == prefix@ + name_words(text@) + suffix@.subrange(0, j as int),
            decreases suffix@.len() - j,
        {
            data.push(suffix[j]);
            j += 1;
            assert(data@ =~= prefix@ + name_words(text@) + suffix@.subrange(0, j as int));
        }
        assert(suffix@.subrange(0, j as int) =~= suffix@);
        Self::success(data.as_slice())
    }
}

fn name_byte_at(text: &[u8], i: usize) -> (r: u8)
    ensures
        r == name_byte(text@, i as int),
{
    if i < 15 && i < text.len() {
        text[i]
    } else {
        0
    }
}

/// The first clock of `clocks` that SCMI knows by `id`.
pub open spec fn find_clock(clocks: Seq<ClockPolicy>, id: u32) -> Option<ClockPolicy>
    decreases clocks.len(),
{
    if clocks.len() == 0 {
        None
    } else if clocks[0].scmi_id == Some(id) {
        Some(clocks[0])
    } else {
        find_clock(clocks.drop_first(), id)
    }
}

/// The number of clocks that SCMI exposes.
pub open spec fn scmi_count(clocks: Seq<ClockPolicy>) -> nat
    decreases clocks.len(),
{
    if clocks.len() == 0 {
        0
    } else {
        scmi_count(clocks.drop_last()) + if clocks.last().scmi_id is Some {
            1nat
        } else {
            0nat
        }
    }
}

/// Whether the clock profile may be served: each SCMI id is below 32 and
/// below the number of clocks that SCMI exposes, belongs to a clock of
/// nonzero rate, and no two clocks share one. With the ids distinct, the
/// bound by the count makes them exactly `0 .. count - 1`.
pub open spec fn valid_profile(clocks: Seq<ClockPolicy>) -> bool {
    &&& forall|i: int|
        0 <= i < clocks.len() ==> ((#[trigger] clocks[i]).scmi_id matches Some(id) ==> id < 32
            && id < scmi_count(clocks) && clocks[i].rate_hz != 0)
    &&& forall|i: int, j: int|
        0 <= i < j < clocks.len() && (#[trigger] clocks[i]).scmi_id is Some ==> (#[trigger] clocks[j]).scmi_id
            != clocks[i].scmi_id
}

pub open spec fn ids_below_32(clocks: Seq<ClockPolicy>) -> bool {
    forall|i: int|
        0 <= i < clocks.len() ==> ((#[trigger] clocks[i]).scmi_id matches Some(id) ==> id < 32)
}

pub struct Server<'a> {
    pub clocks: &'a [ClockPolicy],
    pub linux_votes: u32,
    pub allow_changes: bool,
    pub config_requests: u32,
}

/// The number of arguments that a supported (protocol, message) takes.
pub open spec fn required_args(protocol: u32, message: u32) -> Option<nat> {
    if protocol == 0x10 && (message == 0 || message == 1 || message == 3 || message == 4
        || message == 5) || protocol == 0x14 && (message == 0 || message == 1) {
        Some(0)
    } else if protocol == 0x10 && (message == 2 || message == 6 || message == 7) || protocol
        == 0x14 && (message == 2 || message == 3 || message == 6) {
        Some(1)
    } else if protocol == 0x14 && (message == 4 || message == 7) {
        Some(2)
    } else if protocol == 0x14 && message == 5 {
        Some(4)
    } else {
        None
    }
}

pub open spec fn header_protocol(header: u32) -> u32 {
    (header >> 10u32) & 0xff
}

pub open spec fn header_message(header: u32) -> u32 {
    header & 0xff
}

/// Whether the request needs the backend; its outcome then depends on the
/// hardware.
pub open spec fn consults_backend(
    s: Server,
    protocol: u32,
    message: u32,
    a: Seq<u32>,
) -> bool {
    protocol == 0x14 && (message == 3 || message == 6) && find_clock(s.clocks@, a[0]) is Some
        || protocol == 0x14 && message == 5 && s.allow_changes && a[0] & !12u32 == 0
        && (find_clock(s.clocks@, a[1]) matches Some(c) && a[2] == c.rate_hz && a[3] == 0)
        || protocol == 0x14 && message == 7 && s.allow_changes && a[1] <= 1 && find_clock(
        s.clocks@,
        a[0],
    ) is Some
}

/// The outcome of a well-formed request that does not consult the backend:
/// the data words of a success, or the error.
pub open spec fn fixed_outcome(s: Server, protocol: u32, message: u32, a: Seq<u32>) -> Result<
    Seq<u32>,
    Error,
> {
    if message == 0 {
        Ok(seq![0x0002_0000u32])
    } else if protocol == 0x10 {
        if message == 1 {
            Ok(seq![0x0201u32])
        } else if message == 2 {
            if a[0] > 7 {
                Err(Error::NotSupported)
            } else {
                Ok(seq![0u32])
            }
        } else if message == 3 {
            Ok(name_words("RP1-PoC".spec_bytes()))
        } else if message == 4 {
            Ok(name_words("Natsu-B".spec_bytes()))
        } else if message == 5 {
            Ok(seq![1u32])
        } else if message == 6 {
            if a[0] == 0 {
                Ok(seq![1u32, 0x14u32])
            } else if a[0] == 1 {
                Ok(seq![0u32])
            } else {
                Err(Error::InvalidParameters)
            }
        } else if a[0] == 0 {
            Ok(name_data(seq![0u32], "RP1-FW".spec_bytes(), seq![]))
        } else if a[0] == 1 || a[0] == 0xffff_ffff {
            Ok(name_data(seq![1u32], "OSPM".spec_bytes(), seq![]))
        } else {
            Err(Error::NotFound)
        }
    } else if message == 1 {
        Ok(seq![scmi_count(s.clocks@) as u32])
    } else if message == 2 {
        if a[0] > 7 || (!s.allow_changes && (a[0] == 5 || a[0] == 7)) {
            Err(Error::NotSupported)
        } else {
            Ok(seq![0u32])
        }
    } else if message == 4 {
        match find_clock(s.clocks@, a[0]) {
            None => Err(Error::NotFound),
            Some(c) => if a[1] == 0 {
                Ok(seq![1u32, c.rate_hz, 0u32])
            } else if a[1] == 1 {
                Ok(seq![0u32])
            } else {
                Err(Error::InvalidParameters)
            },
        }
    } else if message == 5 {
        if !s.allow_changes {
            Err(Error::Denied)
        } else if a[0] & !12u32 != 0 {
            Err(Error::InvalidParameters)
        } else {
            match find_clock(s.clocks@, a[1]) {
                None => Err(Error::NotFound),
                Some(c) => Err(Error::Denied),
            }
        }
    } else if message == 7 {
        if !s.allow_changes {
            Err(Error::Denied)
        } else if a[1] > 1 {
            Err(Error::InvalidParameters)
        } else {
            Err(Error::NotFound)
        }
    } else {
        Err(Error::NotFound)
    }
}

/// The verdict on what the backend read for clock `c`: its error, or the
/// state when admitted, otherwise a hardware error.
pub open spec fn admitted(c: ClockPolicy, read: Result<PhysicalState, Error>) -> Result<PhysicalState, Error> {
    match read {
        Err(e) => Err(e),
        Ok(s) => if state_admitted(c, s) {
            Ok(s)
        } else {
            Err(Error::Hardware)
        },
    }
}

pub fn admit_state(c: &ClockPolicy, read: Result<PhysicalState, Error>) -> (r: Result<PhysicalState, Error>)
    ensures
        r == admitted(*c, read),
{
    let state = match read {
        Ok(s) => s,
        Err(e) => {
            return Err(e);
        },
    };
    if state.rate_hz != c.rate_hz as u64 || ((c.boot_required || c.rp1_required) && !state.enabled) {
        return Err(Error::Hardware);
    }
    Ok(state)
}

/// The clock's physical state is admitted when it runs at the profile rate
/// and, if firmware or boot needs it, is enabled.
pub open spec fn state_admitted(c: ClockPolicy, s: PhysicalState) -> bool {
    s.rate_hz == c.rate_hz as u64 && ((c.boot_required || c.rp1_required) ==> s.enabled)
}

pub open spec fn vote_mask(id: u32) -> u32 {
    (1u32 << id) as u32
}

/// The clock that a backend-consulting request names.
pub open spec fn named_clock(s: Server, message: u32, a: Seq<u32>) -> ClockPolicy {
    find_clock(s.clocks@, if message == 5 { a[1] } else { a[0] }).unwrap()
}

/// The enable state that a CLOCK_CONFIG_SET with `arg` asks for: a clock
/// that firmware or boot needs stays on whatever Linux votes.
pub open spec fn desired_enable(c: ClockPolicy, arg: u32) -> bool {
    c.boot_required || c.rp1_required || arg != 0
}

/// The call reads clock `c`.
pub open spec fn reads_clock(x: ClockCall, c: ClockPolicy) -> bool {
    x is Read && x->read_id == c.rp1_id
}

/// The calls of a CLOCK_CONFIG_SET on clock `c` towards `on`: a read; when
/// the state read is admitted and differs from `on`, one enable request for
/// `on`; then, unless the read was refused or the enable failed, a second
/// read.
pub open spec fn config_set_calls(c: ClockPolicy, on: bool, calls: Seq<ClockCall>) -> bool {
    &&& calls.len() >= 1 && reads_clock(calls[0], c)
    &&& match admitted(c, calls[0]->read) {
        Err(_) => calls.len() == 1,
        Ok(s) => if s.enabled == on {
            calls.len() == 2 && reads_clock(calls[1], c)
        } else {
            &&& calls.len() >= 2
            &&& calls[1] is Enable && calls[1]->enable_id == c.rp1_id && calls[1]->on == on
            &&& if calls[1]->done is Err {
                calls.len() == 2
            } else {
                calls.len() == 3 && reads_clock(calls[2], c)
            }
        },
    }
}

/// The verdict on those calls: the first error met, a hardware error when
/// the clock did not reach `on`, or success.
pub open spec fn config_set_result(c: ClockPolicy, on: bool, calls: Seq<ClockCall>) -> Result<
    (),
    Error,
> {
    match admitted(c, calls[0]->read) {
        Err(e) => Err(e),
        Ok(_) => match calls.last() {
            ClockCall::Enable { done, .. } => done,
            ClockCall::Read { read, .. } => match admitted(c, read) {
                Err(e) => Err(e),
                Ok(t) => if t.enabled != on {
                    Err(Error::Hardware)
                } else {
                    Ok(())
                },
            },
        },
    }
}

/// The outcome of a request that consults the backend, given the backend
/// calls it made: CLOCK_CONFIG_SET makes the calls of `config_set_calls`
/// and changes the votes only on success; the other requests read the clock
/// once and answer from what the read admitted.
pub open spec fn backend_outcome(
    s: Server,
    protocol: u32,
    message: u32,
    a: Seq<u32>,
    calls: Seq<ClockCall>,
    r: Result<Response, Error>,
    after: Server,
) -> bool {
    let c = named_clock(s, message, a);
    &&& after.clocks == s.clocks && after.allow_changes == s.allow_changes
    &&& if message == 7 {
        let on = desired_enable(c, a[1]);
        &&& config_set_calls(c, on, calls)
        &&& match config_set_result(c, on, calls) {
            Err(e) => r == Err::<Response, Error>(e) && after.linux_votes == s.linux_votes
                && after.config_requests == s.config_requests,
            Ok(_) => {
                &&& r matches Ok(resp) && is_success(resp, seq![])
                &&& after.linux_votes == if a[1] == 0 {
                    s.linux_votes & !vote_mask(a[0])
                } else {
                    s.linux_votes | vote_mask(a[0])
                }
                &&& after.config_requests == s.config_requests.wrapping_add(1)
            },
        }
    } else {
        &&& calls.len() == 1 && reads_clock(calls[0], c)
        &&& after.linux_votes == s.linux_votes && after.config_requests == s.config_requests
        &&& match admitted(c, calls[0]->read) {
            Err(e) => r == Err::<Response, Error>(e),
            Ok(st) => r matches Ok(resp) && if message == 3 {
                is_success(
                    resp,
                    name_data(
                        seq![if st.enabled { 1u32 } else { 0u32 }],
                        c.name.spec_bytes(),
                        seq![0u32],
                    ),
                )
            } else if message == 6 {
                is_success(resp, seq![c.rate_hz as u32, 0u32])
            } else {
                is_success(resp, seq![])
            },
        }
    }
}

/// What answering one request does: `r` is the response to `header` and
/// `args`, `calls` the backend calls made and `after` the server after it.
/// A framing error or a request that needs no backend makes no call and
/// leaves the server as it was.
pub open spec fn answers(
    s: Server,
    after: Server,
    header: u32,
    args: Seq<u32>,
    calls: Seq<ClockCall>,
    r: Response,
) -> bool {
    &&& 1 <= r.len <= 8
    &&& match framing_error(header, args) {
        Some(e) => is_error(r, e) && after == s && calls.len() == 0,
        None => if consults_backend(s, header_protocol(header), header_message(header), args) {
            exists|out: Result<Response, Error>|
                #![trigger backend_outcome(s, header_protocol(header), header_message(header), args, calls, out, after)]
                backend_outcome(
                    s,
                    header_protocol(header),
                    header_message(header),
                    args,
                    calls,
                    out,
                    after,
                ) && match out {
                    Ok(resp) => resp == r,
                    Err(e) => is_error(r, e),
                }
        } else {
            after == s && calls.len() == 0 && match fixed_outcome(
                s,
                header_protocol(header),
                header_message(header),
                args,
            ) {
                Ok(d) => is_success(r, d),
                Err(e) => is_error(r, e),
            }
        },
    }
}

/// The calls made of the backend after those it had before.
pub open spec fn new_calls(before: Seq<ClockCall>, after: Seq<ClockCall>) -> Seq<ClockCall> {
    after.skip(before.len() as int)
}

/// The record only grew.
pub open spec fn extends(before: Seq<ClockCall>, after: Seq<ClockCall>) -> bool {
    before.len() <= after.len() && after.take(before.len() as int) == before
}

/// Protocol errors, unsupported messages and wrong argument counts, in that
/// order; `None` for a well-formed request.
pub open spec fn framing_error(header: u32, a: Seq<u32>) -> Option<Error> {
    if header & 0xf000_0300 != 0 {
        Some(Error::Protocol)
    } else {
        match required_args(header_protocol(header), header_message(header)) {
            None => Some(Error::NotSupported),
            Some(n) => if a.len() != n {
                Some(Error::InvalidParameters)
            } else {
                None
            },
        }
    }
}

proof fn lemma_or_bit(ids: u32, id: u32, b: u32)
    requires
        id < 32,
        b < 32,
    ensures
        ((ids | (1u32 << id)) & (1u32 << b)) != 0 <==> ((ids & (1u32 << b)) != 0 || b == id),
{
    assert(((ids | (1u32 << id)) & (1u32 << b)) != 0 <==> ((ids & (1u32 << b)) != 0 || b == id))
        by (bit_vector)
        requires
            id < 32,
            b < 32,
    ;
}

/// The bits of the mask of the low `c` bits are those below `c`.
proof fn lemma_low_mask_bit(c: u32, b: u32)
    requires
        1 <= c <= 32,
        b < 32,
    ensures
        ((u32::MAX >> (32 - c) as u32) & (1u32 << b)) != 0 <==> b < c,
{
    assert(((u32::MAX >> (32 - c) as u32) & (1u32 << b)) != 0 <==> b < c) by (bit_vector)
        requires
            1 <= c <= 32,
            b < 32,
    ;
}

/// Two words that agree on every bit from `n` up agree shifted right by
/// `n`; agreeing on all bits, they are equal.
proof fn lemma_bits_equal(x: u32, y: u32, n: u32)
    requires
        n <= 32,
        forall|b: u32| n <= b < 32 ==> ((x & (1u32 << b)) != 0 <==> (y & (1u32 << b)) != 0),
    ensures
        x >> n == y >> n,
        n == 0 ==> x == y,
    decreases 32 - n,
{
    if n == 32 {
        assert(x >> n == 0 && y >> n == 0) by (bit_vector)
            requires
                n == 32,
        ;
    } else {
        let m = (n + 1) as u32;
        lemma_bits_equal(x, y, m);
        assert((x & (1u32 << n)) != 0 <==> (y & (1u32 << n)) != 0);
        assert(x >> n == y >> n && (n == 0 ==> x == y)) by (bit_vector)
            requires
                n < 32,
                m == n + 1,
                x >> m == y >> m,
                (x & (1u32 << n)) != 0 <==> (y & (1u32 << n)) != 0,
        ;
    }
}

impl<'a> Server<'a> {
    pub open spec fn wf(&self) -> bool {
        ids_below_32(self.clocks@)
    }

    /// A server over a clock profile whose SCMI ids are distinct, below 32,
    /// dense from 0 and carry nonzero rates; anything else is refused.
    pub fn new(clocks: &'a [ClockPolicy], allow_changes: bool) -> (r: Result<Self, Error>)
        ensures
            valid_profile(clocks@) ==> (r matches Ok(s) && s.wf() && s.clocks@ == clocks@
                && s.linux_votes == 0 && s.allow_changes == allow_changes && s.config_requests
                == 0),
            !valid_profile(clocks@) ==> r == Err::<Self, Error>(Error::InvalidParameters),
    {
        let mut ids: u32 = 0;
        let mut count: u32 = 0;
        let mut i: usize = 0;
        let ghost mut seen: Set<int> = Set::empty();
        let ghost range = vstd::set_lib::set_int_range(0, 32);
        proof {
            vstd::set_lib::lemma_int_range(0, 32);
            assert forall|b: u32| b < 32 implies (0u32 & (1u32 << b)) == 0 by {
                assert((0u32 & (1u32 << b)) == 0) by (bit_vector);
            }
        }
        while i < clocks.len()
            invariant
                i <= clocks@.len(),
                scmi_count(clocks@.take(i as int)) == count,
                ids_below_32(clocks@.take(i as int)),
                forall|j: int|
                    0 <= j < i ==> ((#[trigger] clocks@[j]).scmi_id matches Some(id) ==> id < 32
                        && clocks@[j].rate_hz != 0 && seen.contains(id as int)),
                forall|j: int, k: int|
                    0 <= j < k < i && (#[trigger] clocks@[j]).scmi_id is Some ==> (#[trigger] clocks@[k]).scmi_id
                        != clocks@[j].scmi_id,
                forall|b: int|
                    #[trigger] seen.contains(b) ==> exists|j: int|
                        0 <= j < i && (#[trigger] clocks@[j]).scmi_id == Some(b as u32),
                seen.subset_of(range),
                seen.finite(),
                seen.len() == count,
                count <= 32,
                range == vstd::set_lib::set_int_range(0, 32),
                range.finite(),
                range.len() == 32,
                forall|b: u32| b < 32 ==> ((ids & (1u32 << b)) != 0 <==> seen.contains(b as int)),
            decreases clocks@.len() - i,
        {
            let ghost prefix = clocks@.take(i + 1);
            assert(prefix.drop_last() =~= clocks@.take(i as int));
            assert(prefix.last() == clocks@[i as int]);
            let c = &clocks[i];
            match c.scmi_id {
                Some(id) => {
                    if id >= 32 || ids & (1u32 << id) != 0 || c.rate_hz == 0 {
                        proof {
                            assert(clocks@[i as int].scmi_id == Some(id));
                            if id < 32 && ids & (1u32 << id) != 0 {
                                assert(seen.contains(id as int));
                                let j = choose|j: int|
                                    0 <= j < i && (#[trigger] clocks@[j]).scmi_id == Some((id as int) as u32);
                                assert(clocks@[i as int].scmi_id == clocks@[j].scmi_id);
                                assert(0 <= j < i as int && clocks@[j].scmi_id is Some);
                            }
                        }
                        return Err(Error::InvalidParameters);
                    }
                    let ghost old_ids = ids;
                    let ghost old_seen = seen;
                    ids = ids | (1u32 << id);
                    proof {
                        assert forall|b: u32| b < 32 implies ((ids & (1u32 << b)) != 0 <==> (
                        (old_ids & (1u32 << b)) != 0 || b == id)) by {
                            lemma_or_bit(old_ids, id, b);
                        }
                        assert(!seen.contains(id as int));
                        seen = seen.insert(id as int);
                        vstd::set_lib::lemma_len_subset(seen, range);
                        assert forall|b: int| #[trigger] seen.contains(b) implies exists|j: int|
                            0 <= j < i + 1 && (#[trigger] clocks@[j]).scmi_id == Some(b as u32) by {
                            if b == id as int {
                                assert(clocks@[i as int].scmi_id == Some(b as u32));
                            } else {
                                assert(old_seen.contains(b));
                            }
                        }
                        assert forall|j: int, k: int|
                            0 <= j < k < i + 1 && (#[trigger] clocks@[j]).scmi_id is Some implies (#[trigger] clocks@[k]).scmi_id
                                != clocks@[j].scmi_id by {
                            if k == i {
                                let idj = clocks@[j].scmi_id->0;
                                assert(old_seen.contains(idj as int));
                            }
                        }
                    }
                    count = count + 1;
                },
                None => {},
            }
            i += 1;
            assert(ids_below_32(clocks@.take(i as int))) by {
                assert forall|j: int| 0 <= j < i implies ((#[trigger] clocks@.take(i as int)[j]).scmi_id matches Some(id) ==> id < 32) by {
                    assert(clocks@.take(i as int)[j] == clocks@[j]);
                }
            }
        }
        assert(clocks@.take(i as int) =~= clocks@);
        if count > 0 && ids != u32::MAX >> (32 - count) {
            proof {
                let mask = u32::MAX >> (32 - count);
                if valid_profile(clocks@) {
                    let low = vstd::set_lib::set_int_range(0, count as int);
                    assert forall|b: int| seen.contains(b) implies low.contains(b) by {
                        let j = choose|j: int|
                            0 <= j < i && (#[trigger] clocks@[j]).scmi_id == Some(b as u32);
                        assert(range.contains(b));
                    }
                    vstd::set_lib::lemma_int_range(0, count as int);
                    vstd::set_lib::lemma_subset_equality(seen, low);
                    assert forall|b: u32| b < 32 implies ((ids & (1u32 << b)) != 0 <==> (mask & (1u32
                        << b)) != 0) by {
                        lemma_low_mask_bit(count, b);
                        assert(seen.contains(b as int) <==> low.contains(b as int));
                    }
                    lemma_bits_equal(ids, mask, 0);
                }
            }
            return Err(Error::InvalidParameters);
        }
        proof {
            assert forall|j: int| 0 <= j < clocks@.len() implies ((#[trigger] clocks@[j]).scmi_id matches Some(
                id,
            ) ==> id < 32 && id < scmi_count(clocks@) && clocks@[j].rate_hz != 0) by {
                if let Some(id) = clocks@[j].scmi_id {
                    assert(seen.contains(id as int));
                    if count == 0 {
                        vstd::set::axiom_set_contains_len(seen, id as int);
                    } else {
                        lemma_low_mask_bit(count, id);
                    }
                }
            }
        }
        Ok(Server { clocks, linux_votes: 0, allow_changes, config_requests: 0 })
    }

    pub fn linux_votes(&self) -> (r: u32)
        ensures
            r == self.linux_votes,
    {
        self.linux_votes
    }

    /// The policy of the first clock that SCMI knows by `id`.
    fn clock(&self, id: u32) -> (r: Result<ClockPolicy, Error>)
        ensures
            r == (match find_clock(self.clocks@, id) {
                Some(c) => Ok(c),
                None => Err(Error::NotFound),
            }),
    {
        let mut i: usize = 0;
        assert(self.clocks@.skip(0) =~= self.clocks@);
        while i < self.clocks.len()
            invariant
                i <= self.clocks@.len(),
                find_clock(self.clocks@, id) == find_clock(self.clocks@.skip(i as int), id),
            decreases self.clocks@.len() - i,
        {
            assert(self.clocks@.skip(i as int)[0] == self.clocks@[i as int]);
            assert(self.clocks@.skip(i as int).drop_first() =~= self.clocks@.skip(i + 1));
            if self.clocks[i].scmi_id == Some(id) {
                return Ok(self.clocks[i]);
            }
            i += 1;
        }
        Err(Error::NotFound)
    }

    fn scmi_clock_count(&self) -> (r: u32)
        ensures
            r == scmi_count(self.clocks@) as u32,
    {
        let mut count: usize = 0;
        let mut i: usize = 0;
        while i < self.clocks.len()
            invariant
                i <= self.clocks@.len(),
                count <= i,
                count == scmi_count(self.clocks@.take(i as int)),
            decreases self.clocks@.len() - i,
        {
            assert(self.clocks@.take(i + 1).drop_last() =~= self.clocks@.take(i as int));
            if self.clocks[i].scmi_id.is_some() {
                count += 1;
            }
            i += 1;
        }
        assert(self.clocks@.take(i as int) =~= self.clocks@);
        count as u32
    }

    /// Reads the clock's physical state, admitted only at the profile rate
    /// and, where firmware or boot needs the clock, enabled.
    fn state<H: ClockHardware>(c: &ClockPolicy, hw: &mut Backend<H>) -> (r: Result<
        PhysicalState,
        Error,
    >)
        ensures
            final(hw).calls@ == old(hw).calls@.push(
                ClockCall::Read { read_id: c.rp1_id, read: final(hw).calls@.last()->read },
            ),
            r == admitted(*c, final(hw).calls@.last()->read),
            r matches Ok(s) ==> state_admitted(*c, s),
    {
        let read = hw.read(c.rp1_id);
        admit_state(c, read)
    }

    /// Answers one request. The transport keeps the header's token and
    /// protocol; exact argument counts and reserved header bits are checked,
    /// and unknown ids fail closed.
    pub fn request<H: ClockHardware>(&mut self, header: u32, args: &[u32], hw: &mut Backend<H>) -> (r:
        Response)
        requires
            old(self).wf(),
        ensures
            final(self).wf(),
            extends(old(hw).calls@, final(hw).calls@),
            answers(
                *old(self),
                *final(self),
                header,
                args@,
                new_calls(old(hw).calls@, final(hw).calls@),
                r,
            ),
    {
        let ghost c0 = hw.calls@;
        let out = self.dispatch(header, args, hw);
        proof {
            if new_calls(c0, hw.calls@).len() == 0 {
                assert(hw.calls@ =~= c0);
            }
        }
        match out {
            Ok(resp) => resp,
            Err(e) => Response::error(e),
        }
    }

    fn dispatch<H: ClockHardware>(&mut self, header: u32, a: &[u32], hw: &mut Backend<H>) -> (r:
        Result<Response, Error>)
        requires
            old(self).wf(),
        ensures
            final(self).wf(),
            r matches Ok(resp) ==> 1 <= resp.len <= 8,
            extends(old(hw).calls@, final(hw).calls@),
            match framing_error(header, a@) {
                Some(e) => r == Err::<Response, Error>(e) && *final(self) == *old(self)
                    && final(hw).calls@ == old(hw).calls@,
                None => if consults_backend(
                    *old(self),
                    header_protocol(header),
                    header_message(header),
                    a@,
                ) {
                    backend_outcome(
                        *old(self),
                        header_protocol(header),
                        header_message(header),
                        a@,
                        new_calls(old(hw).calls@, final(hw).calls@),
                        r,
                        *final(self),
                    )
                } else {
                    *final(self) == *old(self) && final(hw).calls@ == old(hw).calls@
                        && match fixed_outcome(
                        *old(self),
                        header_protocol(header),
                        header_message(header),
                        a@,
                    ) {
                        Ok(d) => r matches Ok(resp) && is_success(resp, d),
                        Err(e) => r == Err::<Response, Error>(e),
                    }
                },
            },
    {
        proof {
            lemma_no_new_calls(hw.calls@);
        }
        if header & 0xf000_0300 != 0 {
            return Err(Error::Protocol);
        }
        let protocol = (header >> 10u32) & 0xff;
        let message = header & 0xff;
        let required: usize = if protocol == 0x10 && (message == 0 || message == 1 || message == 3
            || message == 4 || message == 5) || protocol == 0x14 && (message == 0 || message
            == 1) {
            0
        } else if protocol == 0x10 && (message == 2 || message == 6 || message == 7) || protocol
            == 0x14 && (message == 2 || message == 3 || message == 6) {
            1
        } else if protocol == 0x14 && (message == 4 || message == 7) {
            2
        } else if protocol == 0x14 && message == 5 {
            4
        } else {
            return Err(Error::NotSupported);
        };
        if a.len() != required {
            return Err(Error::InvalidParameters);
        }
        let none: [u32; 0] = [];
        if message == 0 {
            let d = [0x0002_0000u32];
            assert(d@ =~= seq![0x0002_0000u32]);
            return Ok(Response::success(&d));
        }
        if protocol == 0x10 {
            if message == 1 {
                {
                let d = [0x0201u32];
                assert(d@ =~= seq![0x0201u32]);
                Ok(Response::success(&d))
            }
            } else if message == 2 {
                if a[0] > 7 {
                    return Err(Error::NotSupported);
                }
                {
                let d = [0u32];
                assert(d@ =~= seq![0u32]);
                Ok(Response::success(&d))
            }
            } else if message == 3 {
                assert(none@ =~= Seq::<u32>::empty());
                assert(name_data(none@, "RP1-PoC".spec_bytes(), none@) =~= name_words("RP1-PoC".spec_bytes()));
                Ok(Response::name(&none, "RP1-PoC".as_bytes(), &none))
            } else if message == 4 {
                assert(none@ =~= Seq::<u32>::empty());
                assert(name_data(none@, "Natsu-B".spec_bytes(), none@) =~= name_words("Natsu-B".spec_bytes()));
                Ok(Response::name(&none, "Natsu-B".as_bytes(), &none))
            } else if message == 5 {
                {
                let d = [1u32];
                assert(d@ =~= seq![1u32]);
                Ok(Response::success(&d))
            }
            } else if message == 6 {
                if a[0] == 0 {
                    {
                    let d = [1u32, 0x14u32];
                    assert(d@ =~= seq![1u32, 0x14u32]);
                    Ok(Response::success(&d))
                }
                } else if a[0] == 1 {
                    {
                let d = [0u32];
                assert(d@ =~= seq![0u32]);
                Ok(Response::success(&d))
            }
                } else {
                    Err(Error::InvalidParameters)
                }
            } else if a[0] == 0 {
                {
                let p = [0u32];
                assert(p@ =~= seq![0u32]);
                assert(none@ =~= Seq::<u32>::empty());
                Ok(Response::name(&p, "RP1-FW".as_bytes(), &none))
            }
            } else if a[0] == 1 || a[0] == 0xffff_ffff {
                {
                let p = [1u32];
                assert(p@ =~= seq![1u32]);
                assert(none@ =~= Seq::<u32>::empty());
                Ok(Response::name(&p, "OSPM".as_bytes(), &none))
            }
            } else {
                Err(Error::NotFound)
            }
        } else if message == 1 {
            let count = self.scmi_clock_count();
            let d = [count];
            assert(d@ =~= seq![count]);
            Ok(Response::success(&d))
        } else if message == 2 {
            if a[0] > 7 || (!self.allow_changes && (a[0] == 5 || a[0] == 7)) {
                return Err(Error::NotSupported);
            }
            {
                let d = [0u32];
                assert(d@ =~= seq![0u32]);
                Ok(Response::success(&d))
            }
        } else if message == 3 {
            let c = match self.clock(a[0]) {
                Ok(c) => c,
                Err(e) => {
                    return Err(e);
                },
            };
            let ghost before = hw.calls@;
            let st = Self::state(&c, hw);
            proof {
                lemma_new_calls_push(old(hw).calls@, before, hw.calls@.last());
            }
            let s = match st {
                Ok(s) => s,
                Err(e) => {
                    return Err(e);
                },
            };
            let enabled: u32 = if s.enabled { 1 } else { 0 };
            let p = [enabled];
            let z = [0u32];
            assert(p@ =~= seq![enabled]);
            assert(z@ =~= seq![0u32]);
            Ok(Response::name(&p, c.name.as_bytes(), &z))
        } else if message == 4 {
            let c = match self.clock(a[0]) {
                Ok(c) => c,
                Err(e) => {
                    return Err(e);
                },
            };
            if a[1] == 0 {
                let d = [1u32, c.rate_hz, 0u32];
                assert(d@ =~= seq![1u32, c.rate_hz, 0u32]);
                Ok(Response::success(&d))
            } else if a[1] == 1 {
                {
                let d = [0u32];
                assert(d@ =~= seq![0u32]);
                Ok(Response::success(&d))
            }
            } else {
                Err(Error::InvalidParameters)
            }
        } else if message == 5 {
            if !self.allow_changes {
                return Err(Error::Denied);
            }
            if a[0] & !12u32 != 0 {
                return Err(Error::InvalidParameters);
            }
            let c = match self.clock(a[1]) {
                Ok(c) => c,
                Err(e) => {
                    return Err(e);
                },
            };
            if a[2] != c.rate_hz || a[3] != 0 {
                return Err(Error::Denied);
            }
            let ghost before = hw.calls@;
            let st = Self::state(&c, hw);
            proof {
                lemma_new_calls_push(old(hw).calls@, before, hw.calls@.last());
            }
            match st {
                Ok(_) => {},
                Err(e) => {
                    return Err(e);
                },
            }
            assert(none@ =~= Seq::<u32>::empty());
            Ok(Response::success(&none))
        } else if message == 6 {
            let c = match self.clock(a[0]) {
                Ok(c) => c,
                Err(e) => {
                    return Err(e);
                },
            };
            let ghost before = hw.calls@;
            let st = Self::state(&c, hw);
            proof {
                lemma_new_calls_push(old(hw).calls@, before, hw.calls@.last());
            }
            let s = match st {
                Ok(s) => s,
                Err(e) => {
                    return Err(e);
                },
            };
            let phys: u64 = s.rate_hz;
            let rate: u32 = c.rate_hz;
            assert((phys >> 32u64) == 0 && (phys as u32) == rate) by (bit_vector)
                requires
                    phys == rate as u64,
            ;
            let d = [phys as u32, (phys >> 32u64) as u32];
            assert(d@ =~= seq![c.rate_hz as u32, 0u32]);
            Ok(Response::success(&d))
        } else {
            if !self.allow_changes {
                return Err(Error::Denied);
            }
            if a[1] > 1 {
                return Err(Error::InvalidParameters);
            }
            let c = match self.clock(a[0]) {
                Ok(c) => c,
                Err(e) => {
                    return Err(e);
                },
            };
            proof {
                lemma_found_id_below_32(self.clocks@, a[0]);
            }
            let ghost c0 = hw.calls@;
            let st0 = Self::state(&c, hw);
            proof {
                lemma_new_calls_push(old(hw).calls@, c0, hw.calls@.last());
            }
            let before = match st0 {
                Ok(s) => s,
                Err(e) => {
                    return Err(e);
                },
            };
            let desired = c.boot_required || c.rp1_required || a[1] != 0;
            if before.enabled != desired {
                let ghost c1 = hw.calls@;
                let done = hw.enable(c.rp1_id, desired);
                proof {
                    lemma_new_calls_push(old(hw).calls@, c1, hw.calls@.last());
                }
                match done {
                    Ok(()) => {},
                    Err(e) => {
                        return Err(e);
                    },
                }
            }
            let ghost c2 = hw.calls@;
            let st2 = Self::state(&c, hw);
            proof {
                lemma_new_calls_push(old(hw).calls@, c2, hw.calls@.last());
            }
            match st2 {
                Ok(after) => {
                    if after.enabled != desired {
                        return Err(Error::Hardware);
                    }
                },
                Err(e) => {
                    return Err(e);
                },
            }
            if a[1] == 0 {
                self.linux_votes = self.linux_votes & !(1u32 << a[0]);
            } else {
                self.linux_votes = self.linux_votes | (1u32 << a[0]);
            }
            self.config_requests = self.config_requests.wrapping_add(1);
            assert(none@ =~= Seq::<u32>::empty());
            Ok(Response::success(&none))
        }
    }
}

proof fn lemma_no_new_calls(b: Seq<ClockCall>)
    ensures
        extends(b, b),
        new_calls(b, b) =~= Seq::<ClockCall>::empty(),
{
    assert(b.take(b.len() as int) =~= b);
}

proof fn lemma_new_calls_push(b: Seq<ClockCall>, mid: Seq<ClockCall>, x: ClockCall)
    requires
        extends(b, mid),
    ensures
        extends(b, mid.push(x)),
        new_calls(b, mid.push(x)) =~= new_calls(b, mid).push(x),
{
    assert(mid.push(x).take(b.len() as int) =~= mid.take(b.len() as int));
}

/// A clock found by its SCMI id in a profile whose ids are below 32 has an
/// id below 32.
proof fn lemma_found_id_below_32(clocks: Seq<ClockPolicy>, id: u32)
    requires
        ids_below_32(clocks),
        find_clock(clocks, id) is Some,
    ensures
        id < 32,
    decreases clocks.len(),
{
    if clocks[0].scmi_id != Some(id) {
        let rest = clocks.drop_first();
        assert forall|j: int| 0 <= j < rest.len() implies ((#[trigger] rest[j]).scmi_id matches Some(
            x,
        ) ==> x < 32) by {
            assert(rest[j] == clocks[j + 1]);
        }
        lemma_found_id_below_32(rest, id);
    } else {
        assert(clocks[0].scmi_id matches Some(x) ==> x < 32);
    }
}

} // verus!

verus! {

/// A server without change permission never changes its votes or request
/// counter, whatever the request and whatever the backend reports.
pub proof fn lemma_read_only_server_keeps_its_state(
    s: Server,
    protocol: u32,
    message: u32,
    a: Seq<u32>,
    calls: Seq<ClockCall>,
    r: Result<Response, Error>,
    after: Server,
)
    requires
        !s.allow_changes,
        consults_backend(s, protocol, message, a),
        backend_outcome(s, protocol, message, a, calls, r, after),
    ensures
        after.linux_votes == s.linux_votes,
        after.config_requests == s.config_requests,
        message == 3 || message == 6,
{
}

/// A request that the backend fails leaves the logical votes and the
/// request counter as they were.
pub proof fn lemma_backend_error_keeps_votes(
    s: Server,
    protocol: u32,
    message: u32,
    a: Seq<u32>,
    calls: Seq<ClockCall>,
    e: Error,
    after: Server,
)
    requires
        backend_outcome(s, protocol, message, a, calls, Err(e), after),
    ensures
        after.linux_votes == s.linux_votes,
        after.config_requests == s.config_requests,
        after.clocks == s.clocks,
{
}

/// A rate read that succeeds reports the profile rate, never another
/// physical rate.
pub proof fn lemma_rate_get_reports_profile_rate(
    s: Server,
    a: Seq<u32>,
    calls: Seq<ClockCall>,
    resp: Response,
    after: Server,
)
    requires
        consults_backend(s, 0x14, 6, a),
        backend_outcome(s, 0x14, 6, a, calls, Ok(resp), after),
    ensures
        find_clock(s.clocks@, a[0]) matches Some(c) && resp.words@[1] == c.rate_hz
            && resp.words@[2] == 0 && resp.words@[0] == 0,
{
}

/// A Linux vote never switches off a clock that firmware or boot needs:
/// the only enable request of a CLOCK_CONFIG_SET asks for the clock's
/// desired state, on whenever firmware or boot needs it, and none is made
/// when the clock already is in that state. Other requests never ask the
/// backend to enable or disable anything.
pub proof fn lemma_config_set_enables_only_desired_state(
    s: Server,
    protocol: u32,
    message: u32,
    a: Seq<u32>,
    calls: Seq<ClockCall>,
    r: Result<Response, Error>,
    after: Server,
)
    requires
        consults_backend(s, protocol, message, a),
        backend_outcome(s, protocol, message, a, calls, r, after),
    ensures
        forall|i: int|
            0 <= i < calls.len() && #[trigger] calls[i] is Enable ==> message == 7
                && calls[i]->enable_id == named_clock(s, message, a).rp1_id && calls[i]->on
                == desired_enable(named_clock(s, message, a), a[1]),
        forall|i: int|
            0 <= i < calls.len() && #[trigger] calls[i] is Enable && (named_clock(
                s,
                message,
                a,
            ).boot_required || named_clock(s, message, a).rp1_required) ==> calls[i]->on,
        message == 7 ==> (admitted(named_clock(s, message, a), calls[0]->read) matches Ok(st)
            && st.enabled == desired_enable(named_clock(s, message, a), a[1]) ==> forall|i: int|
            0 <= i < calls.len() ==> !(#[trigger] calls[i] is Enable)),
{
}

} // verus!
