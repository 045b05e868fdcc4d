//! The session client: what is sent to the mint socket, what an answer means,
//! when to try again and when to renew.
//!
//! A frame is a four-byte big-endian length and that many bytes of JSON. The
//! shell connects, sends and receives; it hands the library the bytes to frame
//! and the members of the answer.

use crate::text::decimal_string;
use vstd::prelude::*;

verus! {

use crate::js::{hex_escape, hex_value, with_first};
use crate::text::{decimal, trimmed};
use vstd::arithmetic::power2::{lemma_pow2_unfold, pow2};

/// The mint socket, unless the environment names another.
pub const DEFAULT_KIOSK_SOCK: &'static str = "/run/evo/kiosk.sock";

/// The largest answer that is read, in bytes.
pub const MAX_FRAME: usize = 0x10_0000;

/// The longest wait between two attempts, in nanoseconds.
pub const MAX_BACKOFF_NANOS: u64 = 2_000_000_000;

/// A minted session.
#[derive(Debug, Clone, PartialEq, Eq)]
pub struct MintedSession {
    pub token: String,
    pub token_id: String,
    pub expires_at_ms: u64,
}

/// Why there is no session. The first three carry the words of the cause.
#[derive(Debug)]
pub enum MintError {
    /// The socket could not be reached.
    Connect(String),
    /// The socket failed while in use.
    Io(String),
    /// The answer is not understood.
    Parse(String),
    /// The answer is a refusal.
    Refused { subclass: String, message: String },
    /// The answer holds no session.
    Incomplete,
    /// A frame is larger than its limit.
    FrameTooLarge { len: usize },
}

impl MintError {
    /// The error in words.
    pub open spec fn words(self) -> Seq<char> {
        match self {
            MintError::Connect(cause) => "kiosk socket connect failed: "@ + cause@,
            MintError::Io(cause) => "kiosk socket I/O failed: "@ + cause@,
            MintError::Parse(cause) => "mint response JSON invalid: "@ + cause@,
            MintError::Refused { subclass, message } => "mint refused: "@ + subclass@ + ": "@
                + message@,
            MintError::Incomplete => "mint response missing token fields"@,
            MintError::FrameTooLarge { len } => "frame too large ("@ + decimal(len as nat)
                + " bytes)"@,
        }
    }

    /// The error in words.
    pub fn message(&self) -> (r: String)
        ensures
            r@ == self.words(),
    {
        match self {
            MintError::Connect(cause) => {
                let mut r = "kiosk socket connect failed: ".to_owned();
                r.append(cause.as_str());
                r
            },
            MintError::Io(cause) => {
                let mut r = "kiosk socket I/O failed: ".to_owned();
                r.append(cause.as_str());
                r
            },
            MintError::Parse(cause) => {
                let mut r = "mint response JSON invalid: ".to_owned();
                r.append(cause.as_str());
                r
            },
            MintError::Refused { subclass, message } => {
                let mut r = "mint refused: ".to_owned();
                r.append(subclass.as_str());
                r.append(": ");
                r.append(message.as_str());
                r
            },
            MintError::Incomplete => "mint response missing token fields".to_owned(),
            MintError::FrameTooLarge { len } => {
                let mut r = "frame too large (".to_owned();
                r.append(decimal_string(*len as u64).as_str());
                r.append(" bytes)");
                r
            },
        }
    }
}

/// The path of the mint socket: the environment's, unless that is absent or
/// empty.
pub open spec fn socket_path(var: Option<&[u8]>) -> Seq<u8> {
    match var {
        Some(path) => if path@.len() > 0 {
            path@
        } else {
            vstd::utf8::encode_utf8(DEFAULT_KIOSK_SOCK@)
        },
        None => vstd::utf8::encode_utf8(DEFAULT_KIOSK_SOCK@),
    }
}

/// What the environment says about the mint socket, as bytes: its path, unless
/// it is absent or empty.
pub fn kiosk_sock_path(var: Option<&[u8]>) -> (r: Vec<u8>)
    ensures
        r@ == socket_path(var),
{
    match var {
        Some(path) if path.len() > 0 => vstd::slice::slice_to_vec(path),
        _ => vstd::slice::slice_to_vec(DEFAULT_KIOSK_SOCK.as_bytes()),
    }
}

/// The character of a hexadecimal digit.
pub open spec fn hex_char(d: nat) -> char
    recommends
        d < 16,
{
    if d < 10 {
        ('0' as u32 + d) as char
    } else {
        ('a' as u32 + (d - 10)) as char
    }
}

/// How a character is written in a JSON string: quotes, backslashes and
/// control characters are escaped, everything else stands as it is.
pub open spec fn json_char(c: char) -> Seq<char> {
    let n = c as u32 as nat;
    if c == '"' || c == '\\' {
        seq!['\\', c]
    } else if n == 0x8 {
        seq!['\\', 'b']
    } else if n == 0x9 {
        seq!['\\', 't']
    } else if n == 0xa {
        seq!['\\', 'n']
    } else if n == 0xc {
        seq!['\\', 'f']
    } else if n == 0xd {
        seq!['\\', 'r']
    } else if n < 0x20 {
        seq!['\\', 'u', '0', '0', hex_char(n / 16), hex_char(n % 16)]
    } else {
        seq![c]
    }
}

/// How text is written between the quotes of a JSON string.
pub open spec fn json_chars(s: Seq<char>) -> Seq<char>
    decreases s.len(),
{
    if s.len() == 0 {
        Seq::empty()
    } else {
        json_char(s[0]) + json_chars(s.drop_first())
    }
}

/// A JSON string.
pub open spec fn json_string(s: Seq<char>) -> Seq<char> {
    seq!['"'] + json_chars(s) + seq!['"']
}

/// A JSON object with two members whose values are strings, without spaces.
pub open spec fn json_object_text(
    key1: Seq<char>,
    value1: Seq<char>,
    key2: Seq<char>,
    value2: Seq<char>,
) -> Seq<char> {
    seq!['{'] + json_string(key1) + seq![':'] + json_string(value1) + seq![','] + json_string(key2)
        + seq![':'] + json_string(value2) + seq!['}']
}

/// `serde_json::to_vec` of an object with two string members, whose keys are
/// in order. What is claimed is that the bytes are the UTF-8 form of the
/// object's compact text, its members in the order of their keys. Writing
/// strings to memory does not fail.
#[verifier::external_body]
fn json_object(key1: &str, value1: &str, key2: &str, value2: &str) -> (r: Vec<u8>)
    requires
        key1@.len() > 0,
        key2@.len() > 0,
        key1@[0] < key2@[0],
    ensures
        r@ == vstd::utf8::encode_utf8(json_object_text(key1@, value1@, key2@, value2@)),
{
    let mut object = serde_json::Map::new();
    object.insert(key1.to_string(), serde_json::Value::String(value1.to_string()));
    object.insert(key2.to_string(), serde_json::Value::String(value2.to_string()));
    serde_json::to_vec(&serde_json::Value::Object(object)).expect("strings serialise")
}

/// The body of a mint request for an audit reason.
pub open spec fn request_body(reason: Seq<char>) -> Seq<u8> {
    vstd::utf8::encode_utf8(
        json_object_text("op"@, "mint_local_kiosk_session"@, "reason"@, trimmed(reason)),
    )
}

/// What comes of asking for a mint.
pub open spec fn request_outcome(reason: Seq<char>, r: Result<Vec<u8>, MintError>) -> bool {
    match r {
        Ok(body) => trimmed(reason).len() > 0 && body@ == request_body(reason),
        Err(MintError::Refused { subclass, message }) => trimmed(reason).len() == 0 && subclass@
            == "blank_reason"@ && message@ == "mint reason must be non-empty"@,
        Err(_) => false,
    }
}

/// The body of a mint request. A blank reason is refused before anything is
/// sent.
pub fn mint_request_body(reason: &str) -> (r: Result<Vec<u8>, MintError>)
    ensures
        request_outcome(reason@, r),
{
    let reason = reason.trim();
    if reason.is_empty() {
        return Err(
            MintError::Refused {
                subclass: "blank_reason".to_owned(),
                message: "mint reason must be non-empty".to_owned(),
            },
        );
    }
    proof {
        reveal_strlit("op");
        reveal_strlit("reason");
    }
    Ok(json_object("op", "mint_local_kiosk_session", "reason", reason))
}

/// A number below two to the 32nd, as four bytes, most significant first.
pub open spec fn be_bytes(n: nat) -> Seq<u8> {
    seq![
        (n / 0x100_0000) as u8,
        (n / 0x1_0000 % 0x100) as u8,
        (n / 0x100 % 0x100) as u8,
        (n % 0x100) as u8,
    ]
}

/// The number that four bytes write, most significant first.
pub open spec fn be_value(b: Seq<u8>) -> nat {
    (b[0] * 0x100_0000 + b[1] * 0x1_0000 + b[2] * 0x100 + b[3]) as nat
}

/// A body behind its length.
pub open spec fn frame(body: Seq<u8>) -> Seq<u8> {
    be_bytes(body.len()) + body
}

/// What comes of framing a body.
pub open spec fn framing_outcome(body: Seq<u8>, r: Result<Vec<u8>, MintError>) -> bool {
    match r {
        Ok(bytes) => body.len() <= u32::MAX && bytes@ == frame(body),
        Err(MintError::FrameTooLarge { len }) => body.len() > u32::MAX && len == body.len(),
        Err(_) => false,
    }
}

/// Frames a body: its length, then the body. A body whose length does not fit
/// in four bytes is refused.
pub fn write_frame(body: &[u8]) -> (r: Result<Vec<u8>, MintError>)
    ensures
        framing_outcome(body@, r),
{
    let n = body.len();
    if n > u32::MAX as usize {
        return Err(MintError::FrameTooLarge { len: n });
    }
    let mut bytes: Vec<u8> = Vec::new();
    bytes.push((n / 0x100_0000) as u8);
    bytes.push((n / 0x1_0000 % 0x100) as u8);
    bytes.push((n / 0x100 % 0x100) as u8);
    bytes.push((n % 0x100) as u8);
    bytes.extend_from_slice(body);
    assert(bytes@ =~= frame(body@));
    Ok(bytes)
}

/// What comes of reading a frame's header.
pub open spec fn header_outcome(header: Seq<u8>, r: Result<usize, MintError>) -> bool {
    match r {
        Ok(len) => len == be_value(header) && 0 < len <= MAX_FRAME,
        Err(MintError::Incomplete) => be_value(header) == 0,
        Err(MintError::FrameTooLarge { len }) => len == be_value(header) && len > MAX_FRAME,
        Err(_) => false,
    }
}

/// How many bytes follow a frame's header. A frame without a body holds no
/// session; one past [`MAX_FRAME`] is refused before anything is allocated.
pub fn read_frame(header: [u8; 4]) -> (r: Result<usize, MintError>)
    ensures
        header_outcome(header@, r),
{
    let len: u32 = header[0] as u32 * 0x100_0000 + header[1] as u32 * 0x1_0000 + header[2] as u32
        * 0x100 + header[3] as u32;
    let len = len as usize;
    if len == 0 {
        return Err(MintError::Incomplete);
    }
    if len > MAX_FRAME {
        return Err(MintError::FrameTooLarge { len });
    }
    Ok(len)
}

/// The header of a written frame reads back as the length of its body, and the
/// body follows it.
pub proof fn law_frame_round_trip(body: Seq<u8>)
    requires
        body.len() <= u32::MAX,
    ensures
        frame(body).len() == 4 + body.len(),
        be_value(frame(body).take(4)) == body.len(),
        frame(body).skip(4) == body,
{
    let n = body.len();
    assert(frame(body).take(4) =~= be_bytes(n));
    assert(frame(body).skip(4) =~= body);
}

/// The members of an error answer's `details` that the client looks at.
#[derive(Debug)]
pub struct MintErrDetails {
    /// The string under `subclass`, where there is one.
    pub subclass: Option<String>,
}

/// The members of an error answer.
#[derive(Debug)]
pub struct MintErrFields {
    /// The message; empty where the answer has none.
    pub message: String,
    /// The subclass, where the answer has one.
    pub subclass: Option<String>,
    /// The details, where the answer has any.
    pub details: Option<MintErrDetails>,
}

/// The members of a success answer.
#[derive(Debug)]
pub struct MintOk {
    /// Whether a session was minted; false where the answer does not say.
    pub local_kiosk_session_minted: bool,
    pub token: Option<String>,
    pub token_id: Option<String>,
    pub expires_at_ms: Option<u64>,
}

/// Whether an answer of the error shape says anything at all.
pub open spec fn names_an_error(err: MintErrFields) -> bool {
    err.message@.len() > 0 || err.subclass is Some || err.details is Some
}

/// The subclass of a refusal: its own, or that of its details, or `"error"`.
pub open spec fn refusal_subclass(err: MintErrFields) -> Seq<char> {
    match err.subclass {
        Some(subclass) => subclass@,
        None => match err.details {
            Some(details) => match details.subclass {
                Some(subclass) => subclass@,
                None => "error"@,
            },
            None => "error"@,
        },
    }
}

/// Whether a success answer delivers a session.
pub open spec fn delivers(ok: MintOk) -> bool {
    &&& ok.local_kiosk_session_minted
    &&& ok.token matches Some(token) && token@.len() > 0
    &&& ok.token_id matches Some(token_id) && token_id@.len() > 0
    &&& ok.expires_at_ms is Some
}

/// What an answer means. `err` is the answer read as an error, where it has
/// that shape; `ok` is the answer read as a success, or why it cannot be.
pub open spec fn answer_means(
    err: Option<MintErrFields>,
    ok: Result<MintOk, String>,
    r: Result<MintedSession, MintError>,
) -> bool {
    if err is Some && names_an_error(err->0) {
        r matches Err(MintError::Refused { subclass, message }) && subclass@ == refusal_subclass(
            err->0,
        ) && message@ == err->0.message@
    } else {
        match ok {
            Err(cause) => r matches Err(MintError::Parse(words)) && words@ == cause@,
            Ok(ok) => if delivers(ok) {
                r matches Ok(session) && session.token@ == ok.token->0@ && session.token_id@
                    == ok.token_id->0@ && session.expires_at_ms == ok.expires_at_ms->0
            } else {
                r matches Err(MintError::Incomplete)
            },
        }
    }
}

/// Decides what an answer means. The error shape is preferred: an answer that
/// names an error is a refusal, whatever else it holds.
pub fn parse_mint_response(err: Option<MintErrFields>, ok: Result<MintOk, String>) -> (r: Result<
    MintedSession,
    MintError,
>)
    ensures
        answer_means(err, ok, r),
{
    if let Some(e) = err {
        if !e.message.as_str().is_empty() || e.subclass.is_some() || e.details.is_some() {
            let subclass = match e.subclass {
                Some(subclass) => subclass,
                None => match e.details {
                    Some(details) => match details.subclass {
                        Some(subclass) => subclass,
                        None => "error".to_owned(),
                    },
                    None => "error".to_owned(),
                },
            };
            return Err(MintError::Refused { subclass, message: e.message });
        }
    }
    match ok {
        Err(cause) => Err(MintError::Parse(cause)),
        Ok(ok) => {
            if !ok.local_kiosk_session_minted {
                return Err(MintError::Incomplete);
            }
            match (ok.token, ok.token_id, ok.expires_at_ms) {
                (Some(token), Some(token_id), Some(expires_at_ms)) => {
                    if !token.as_str().is_empty() && !token_id.as_str().is_empty() {
                        Ok(MintedSession { token, token_id, expires_at_ms })
                    } else {
                        Err(MintError::Incomplete)
                    }
                },
                _ => Err(MintError::Incomplete),
            }
        },
    }
}

/// An error that comes of a readable answer says nothing of what the answer
/// holds as a success, the bearer among it: its words are those of the refusal,
/// or the same for every answer without a session.
pub proof fn law_errors_hold_no_bearer(err: Option<MintErrFields>, ok: MintOk, e: MintError)
    requires
        answer_means(err, Ok(ok), Err(e)),
    ensures
        e.words() == if err is Some && names_an_error(err->0) {
            "mint refused: "@ + refusal_subclass(err->0) + ": "@ + err->0.message@
        } else {
            "mint response missing token fields"@
        },
{
}

/// The smaller of a wait and [`MAX_BACKOFF_NANOS`].
pub open spec fn capped(nanos: nat) -> nat {
    if nanos < MAX_BACKOFF_NANOS {
        nanos
    } else {
        MAX_BACKOFF_NANOS as nat
    }
}

/// What to do after an attempt to mint.
#[derive(Debug)]
pub enum RetryAction {
    /// Stop, with this outcome.
    Finish(Result<MintedSession, MintError>),
    /// Wait this many nanoseconds, then try again.
    Wait(u64),
}

/// How far a series of attempts has come.
#[derive(Debug)]
pub struct Retry {
    attempts: u32,
    failures: u32,
    initial_nanos: u128,
    backoff_nanos: u64,
}

impl Retry {
    /// How many attempts there are.
    pub closed spec fn attempts(self) -> nat {
        self.attempts as nat
    }

    /// How many attempts have failed and were followed by a wait.
    pub closed spec fn failures(self) -> nat {
        self.failures as nat
    }

    /// The wait that the series starts from.
    pub closed spec fn initial_nanos(self) -> nat {
        self.initial_nanos as nat
    }

    /// The wait after the next failed attempt: the initial one, doubled once
    /// for every wait before, and never past the cap.
    pub open spec fn next_wait(self) -> nat {
        capped(self.initial_nanos() * pow2(self.failures()))
    }

    /// Whether there is an attempt left, and the wait is on its schedule.
    pub closed spec fn wf(self) -> bool {
        &&& self.failures < self.attempts
        &&& self.backoff_nanos == capped((self.initial_nanos as nat) * pow2(self.failures as nat))
    }

    /// A series of `attempts`, of which there is at least one.
    pub fn new(attempts: u32, initial_nanos: u128) -> (r: Retry)
        ensures
            r.wf(),
            is_fresh(attempts, initial_nanos, r),
    {
        proof {
            vstd::arithmetic::power2::lemma2_to64();
            assert((initial_nanos as nat) * pow2(0) == initial_nanos);
        }
        Retry {
            attempts: if attempts == 0 {
                1
            } else {
                attempts
            },
            failures: 0,
            initial_nanos,
            backoff_nanos: if initial_nanos < MAX_BACKOFF_NANOS as u128 {
                initial_nanos as u64
            } else {
                MAX_BACKOFF_NANOS
            },
        }
    }

    /// Decides what follows an attempt: a session ends the series, and so does
    /// the error of the last attempt; any other error leads to a wait.
    pub fn after_attempt(&mut self, outcome: Result<MintedSession, MintError>) -> (r: RetryAction)
        requires
            old(self).wf(),
        ensures
            final(self).wf(),
            follows_attempt(*old(self), outcome, *final(self), r),
    {
        match outcome {
            Ok(session) => RetryAction::Finish(Ok(session)),
            Err(e) => {
                if self.failures + 1 == self.attempts {
                    return RetryAction::Finish(Err(e));
                }
                let wait = self.backoff_nanos;
                proof {
                    lemma_capped_doubles(self.initial_nanos as nat, self.failures as nat);
                }
                let doubled = wait * 2;
                self.backoff_nanos =
                if doubled < MAX_BACKOFF_NANOS {
                    doubled
                } else {
                    MAX_BACKOFF_NANOS
                };
                self.failures = self.failures + 1;
                RetryAction::Wait(wait)
            },
        }
    }
}

/// Whether a series is a new one of `attempts`, of which there is at least one.
pub open spec fn is_fresh(attempts: u32, initial_nanos: u128, r: Retry) -> bool {
    &&& r.attempts() == (if attempts == 0 {
        1nat
    } else {
        attempts as nat
    })
    &&& r.failures() == 0
    &&& r.initial_nanos() == initial_nanos
}

/// Whether `after` is the series `before` one failed attempt and one wait
/// later.
pub open spec fn waited(before: Retry, after: Retry) -> bool {
    &&& before.failures() + 1 != before.attempts()
    &&& after.failures() == before.failures() + 1
    &&& after.attempts() == before.attempts()
    &&& after.initial_nanos() == before.initial_nanos()
}

/// Whether `r` and `after` follow an attempt with this outcome in the series
/// `before`.
pub open spec fn follows_attempt(
    before: Retry,
    outcome: Result<MintedSession, MintError>,
    after: Retry,
    r: RetryAction,
) -> bool {
    if outcome is Ok || before.failures() + 1 == before.attempts() {
        r == RetryAction::Finish(outcome) && after == before
    } else {
        r matches RetryAction::Wait(nanos) && nanos == before.next_wait() && waited(before, after)
    }
}

/// A series in which every attempt fails makes exactly as many attempts as it
/// has, and waits between them by the initial wait, doubled each time, up to
/// the cap. `states` are the series before each attempt.
pub proof fn law_failing_series_is_exhausted(states: Seq<Retry>)
    requires
        states.len() > 0,
        states[0].failures() == 0,
        forall|i: int| 0 <= i < states.len() ==> (#[trigger] states[i]).wf(),
        forall|i: int|
            0 <= i < states.len() - 1 ==> waited(#[trigger] states[i], states[i + 1]),
    ensures
        states.len() <= states[0].attempts(),
        states.last().failures() + 1 == states.last().attempts() <==> states.len()
            == states[0].attempts(),
        forall|i: int|
            0 <= i < states.len() ==> (#[trigger] states[i]).failures() == i && states[i].attempts()
                == states[0].attempts() && states[i].next_wait() == capped(
                states[0].initial_nanos() * pow2(i as nat),
            ),
{
    assert forall|i: int| 0 <= i < states.len() implies (#[trigger] states[i]).failures() == i
        && states[i].attempts() == states[0].attempts() && states[i].initial_nanos()
        == states[0].initial_nanos() by {
        lemma_states(states, i);
    }
    assert(states.last() == states[states.len() - 1]);
}

proof fn lemma_states(states: Seq<Retry>, i: int)
    requires
        0 <= i < states.len(),
        states[0].failures() == 0,
        forall|j: int|
            0 <= j < states.len() - 1 ==> waited(#[trigger] states[j], states[j + 1]),
    ensures
        states[i].failures() == i,
        states[i].attempts() == states[0].attempts(),
        states[i].initial_nanos() == states[0].initial_nanos(),
    decreases i,
{
    if i > 0 {
        lemma_states(states, i - 1);
        assert(waited(states[i - 1], states[i]));
    }
}

proof fn lemma_capped_doubles(initial: nat, failures: nat)
    ensures
        capped(initial * pow2(failures + 1)) == capped(2 * capped(initial * pow2(failures))),
        initial * pow2(failures + 1) == 2 * (initial * pow2(failures)),
{
    lemma_pow2_unfold(failures + 1);
    let p = pow2(failures);
    assert(initial * (2 * p) == 2 * (initial * p)) by (nonlinear_arith);
}

/// No wait is longer than two seconds, and no wait is shorter than the one
/// before it.
pub proof fn law_backoff_grows_to_its_cap(initial: nat, earlier: nat, later: nat)
    requires
        earlier <= later,
    ensures
        capped(initial * pow2(earlier)) <= capped(initial * pow2(later)) <= 2_000_000_000,
    decreases later,
{
    if earlier < later {
        law_backoff_grows_to_its_cap(initial, earlier, (later - 1) as nat);
        lemma_capped_doubles(initial, (later - 1) as nat);
    }
}

/// When a session is to be renewed: five minutes before it expires, or halfway
/// through what is left of it where that is later; at once where nothing is
/// left.
pub open spec fn renewal_time(expires_at_ms: u64, now_ms: u64) -> int {
    if expires_at_ms <= now_ms {
        now_ms as int
    } else if expires_at_ms - now_ms >= 600_000 {
        expires_at_ms - 300_000
    } else {
        expires_at_ms - (expires_at_ms - now_ms) / 2
    }
}

/// The time at which the shell should mint again: five minutes before expiry,
/// or halfway through a session that has less than ten minutes left.
pub fn renew_at_ms(expires_at_ms: u64, now_ms: u64) -> (r: u64)
    ensures
        r == renewal_time(expires_at_ms, now_ms),
{
    if expires_at_ms <= now_ms {
        return now_ms;
    }
    let remaining = expires_at_ms - now_ms;
    let half = remaining / 2;
    let lead: u64 = if half < 300_000 {
        half
    } else {
        300_000
    };
    expires_at_ms - lead
}

/// A live session is renewed no earlier than now and no later than it expires,
/// and before it expires where at least two milliseconds are left.
pub proof fn law_renewal_precedes_expiry(expires_at_ms: u64, now_ms: u64)
    requires
        now_ms < expires_at_ms,
    ensures
        now_ms <= renewal_time(expires_at_ms, now_ms) <= expires_at_ms,
        expires_at_ms - now_ms >= 2 ==> renewal_time(expires_at_ms, now_ms) < expires_at_ms,
{
}

/// How long to wait for a renewal time: at least a second.
pub open spec fn renewal_delay(renew_at_ms: u64, now_ms: u64) -> int {
    if renew_at_ms - now_ms > 1_000 {
        renew_at_ms - now_ms
    } else {
        1_000
    }
}

/// How long to wait for a renewal time: at least a second.
pub fn renew_delay_ms(renew_at_ms: u64, now_ms: u64) -> (r: u64)
    ensures
        r == renewal_delay(renew_at_ms, now_ms),
{
    let left = renew_at_ms.saturating_sub(now_ms);
    if left > 1_000 {
        left
    } else {
        1_000
    }
}

/// The words of an error hold the words of its cause, whole, behind a few that
/// say what went wrong.
pub proof fn law_words_hold_the_cause(e: MintError)
    ensures
        match e {
            MintError::Connect(cause) => e.words() == "kiosk socket connect failed: "@ + cause@,
            MintError::Io(cause) => e.words() == "kiosk socket I/O failed: "@ + cause@,
            MintError::Parse(cause) => e.words() == "mint response JSON invalid: "@ + cause@,
            MintError::Refused { subclass, message } => e.words() == "mint refused: "@ + subclass@
                + ": "@ + message@,
            MintError::Incomplete => e.words() == "mint response missing token fields"@,
            MintError::FrameTooLarge { len } => e.words() == "frame too large ("@ + decimal(
                len as nat,
            ) + " bytes)"@,
        },
{
}

/// The mint socket is the environment's wherever that names one, byte for byte,
/// and the default wherever it names none.
pub proof fn law_socket_is_the_environments(path: &[u8])
    ensures
        path@.len() > 0 ==> socket_path(Some(path)) == path@,
        path@.len() == 0 ==> socket_path(Some(path)) == socket_path(None),
        socket_path(None) == vstd::utf8::encode_utf8("/run/evo/kiosk.sock"@),
{
}

/// The text that a reader of JSON finds between the quotes of a string. None
/// where the string would end early or is not well formed.
pub open spec fn json_value(s: Seq<char>) -> Option<Seq<char>>
    decreases s.len(),
{
    if s.len() == 0 {
        Some(Seq::empty())
    } else if s[0] == '"' || (s[0] as u32) < 0x20 {
        None
    } else if s[0] != '\\' {
        with_first(s[0], json_value(s.skip(1)))
    } else if s.len() < 2 {
        None
    } else if s[1] == '\\' || s[1] == '"' || s[1] == '/' {
        with_first(s[1], json_value(s.skip(2)))
    } else if s[1] == 'b' {
        with_first('\u{8}', json_value(s.skip(2)))
    } else if s[1] == 't' {
        with_first('\t', json_value(s.skip(2)))
    } else if s[1] == 'n' {
        with_first('\n', json_value(s.skip(2)))
    } else if s[1] == 'f' {
        with_first('\u{c}', json_value(s.skip(2)))
    } else if s[1] == 'r' {
        with_first('\r', json_value(s.skip(2)))
    } else if s[1] == 'u' && hex_escape(s.skip(2)) is Some {
        with_first(hex_escape(s.skip(2))->0, json_value(s.skip(6)))
    } else {
        None
    }
}

/// A reader of JSON finds the text that was written, whole.
pub proof fn law_json_reads_back(s: Seq<char>)
    ensures
        json_value(json_chars(s)) == Some(s),
    decreases s.len(),
{
    if s.len() > 0 {
        law_json_reads_back(s.drop_first());
        lemma_json_char_reads_back(s[0], json_chars(s.drop_first()));
        assert(seq![s[0]] + s.drop_first() =~= s);
    }
}

proof fn lemma_json_char_reads_back(c: char, tail: Seq<char>)
    ensures
        json_value(json_char(c) + tail) == with_first(c, json_value(tail)),
{
    let head = json_char(c);
    let whole = head + tail;
    let n = c as u32 as nat;
    assert(n == c as int);
    assert(whole.skip(head.len() as int) =~= tail);
    assert(whole[0] == head[0]);
    if head.len() >= 2 {
        assert(whole[1] == head[1]);
    }
    if head.len() == 6 {
        let digits = whole.skip(2);
        assert(digits[0] == head[2] && digits[1] == head[3] && digits[2] == head[4] && digits[3]
            == head[5]);
        assert(hex_value('0') == Some(0nat));
        assert(hex_value(hex_char(n / 16)) == Some(n / 16));
        assert(hex_value(hex_char(n % 16)) == Some(n % 16));
        assert(0 * 0x1000 + 0 * 0x100 + (n / 16) * 0x10 + n % 16 == n);
        assert(hex_escape(digits) == Some(c));
    }
}

proof fn lemma_plain_json(s: Seq<char>)
    requires
        forall|i: int|
            0 <= i < s.len() ==> #[trigger] s[i] != '"' && s[i] != '\\' && s[i] as u32 >= 0x20,
    ensures
        json_chars(s) == s,
    decreases s.len(),
{
    if s.len() > 0 {
        let rest = s.drop_first();
        assert forall|i: int| 0 <= i < rest.len() implies #[trigger] rest[i] != '"' && rest[i]
            != '\\' && rest[i] as u32 >= 0x20 by {
            assert(rest[i] == s[i + 1]);
        }
        lemma_plain_json(rest);
        assert(s[0] != '"');
        assert(seq![s[0]] + rest =~= s);
    }
}

/// A request is made exactly where the reason is not blank, and it carries the
/// mint operation and the whole trimmed reason: what stands between the quotes
/// reads back as it.
pub proof fn law_request_carries_the_reason(reason: Seq<char>, r: Result<Vec<u8>, MintError>)
    requires
        request_outcome(reason, r),
    ensures
        r is Ok <==> trimmed(reason).len() > 0,
        r matches Ok(body) ==> exists|text: Seq<char>|
            body@ == vstd::utf8::encode_utf8(
                "{\"op\":\"mint_local_kiosk_session\",\"reason\":\""@ + text + "\"}"@,
            ) && #[trigger] json_value(text) == Some(trimmed(reason)),
        r matches Err(e) ==> (e matches MintError::Refused { subclass, message } && subclass@
            == "blank_reason"@ && message@ == "mint reason must be non-empty"@),
{
    let text = json_chars(trimmed(reason));
    law_json_reads_back(trimmed(reason));
    reveal_strlit("op");
    reveal_strlit("reason");
    reveal_strlit("mint_local_kiosk_session");
    reveal_strlit("{\"op\":\"mint_local_kiosk_session\",\"reason\":\"");
    reveal_strlit("\"}");
    lemma_plain_json("op"@);
    lemma_plain_json("reason"@);
    lemma_plain_json("mint_local_kiosk_session"@);
    assert(json_object_text("op"@, "mint_local_kiosk_session"@, "reason"@, trimmed(reason))
        =~= "{\"op\":\"mint_local_kiosk_session\",\"reason\":\""@ + text + "\"}"@);
    assert(json_value(text) == Some(trimmed(reason)));
}

/// A frame is written exactly where its length fits in four bytes; then four
/// bytes stand before the body, and they write its length, the most significant
/// first.
pub proof fn law_frames_hold_length_and_body(body: Seq<u8>, r: Result<Vec<u8>, MintError>)
    requires
        framing_outcome(body, r),
    ensures
        r is Ok <==> body.len() <= 0xffff_ffff,
        r matches Ok(bytes) ==> {
            &&& bytes@.len() == 4 + body.len()
            &&& bytes@.skip(4) == body
            &&& ((bytes@[0] * 256 + bytes@[1]) * 256 + bytes@[2]) * 256 + bytes@[3] == body.len()
        },
        r matches Err(e) ==> e == (MintError::FrameTooLarge { len: body.len() as usize }),
{
    if r is Ok {
        law_frame_round_trip(body);
        let head = frame(body).take(4);
        assert(head[0] == frame(body)[0] && head[1] == frame(body)[1] && head[2] == frame(body)[2]
            && head[3] == frame(body)[3]);
    }
}

/// A header is read as the number that its bytes write, the most significant
/// first: a length from one byte to a mebibyte is taken, none is no session,
/// and more is refused by that length.
pub proof fn law_headers_are_read_as_lengths(header: Seq<u8>, r: Result<usize, MintError>)
    requires
        header.len() == 4,
        header_outcome(header, r),
    ensures
        ({
            let n = ((header[0] * 256 + header[1]) * 256 + header[2]) * 256 + header[3];
            &&& r is Ok <==> 1 <= n <= 1_048_576
            &&& r matches Ok(len) ==> len == n
            &&& (r matches Err(MintError::Incomplete)) <==> n == 0
            &&& n > 1_048_576 ==> (r matches Err(MintError::FrameTooLarge { len }) && len == n)
        }),
{
}

/// A session is the answer's own: it is given exactly where the answer names no
/// error, says that a session was minted, and holds a token, an id and an
/// expiry, the first two not empty; and then it has those very three.
pub proof fn law_session_is_the_answers_own(
    err: Option<MintErrFields>,
    ok: MintOk,
    r: Result<MintedSession, MintError>,
)
    requires
        answer_means(err, Ok(ok), r),
    ensures
        r is Ok <==> {
            &&& err matches Some(e) ==> e.message@.len() == 0 && e.subclass is None && e.details
                is None
            &&& ok.local_kiosk_session_minted
            &&& ok.token matches Some(token) && token@.len() > 0
            &&& ok.token_id matches Some(id) && id@.len() > 0
            &&& ok.expires_at_ms is Some
        },
        r matches Ok(session) ==> {
            &&& ok.token matches Some(token) && session.token@ == token@
            &&& ok.token_id matches Some(id) && session.token_id@ == id@
            &&& ok.expires_at_ms == Some(session.expires_at_ms)
        },
        (r is Err && (err matches Some(e) ==> e.message@.len() == 0 && e.subclass is None
            && e.details is None)) ==> r == Err::<MintedSession, MintError>(MintError::Incomplete),
{
}

/// A refusal is the error's own: wherever an answer has a message, a subclass or
/// details, whatever else it holds, it is refused with that message, under its
/// subclass, or else that of its details, or else `error`.
pub proof fn law_refusal_is_the_errors_own(
    e: MintErrFields,
    ok: Result<MintOk, String>,
    r: Result<MintedSession, MintError>,
)
    requires
        answer_means(Some(e), ok, r),
        e.message@.len() > 0 || e.subclass is Some || e.details is Some,
    ensures
        r matches Err(MintError::Refused { subclass, message }) && message@ == e.message@ && {
            &&& e.subclass matches Some(own) ==> subclass@ == own@
            &&& e.subclass is None && (e.details matches Some(d) && d.subclass is Some)
                ==> subclass@ == e.details->0.subclass->0@
            &&& e.subclass is None && !(e.details matches Some(d) && d.subclass is Some)
                ==> subclass@ == "error"@
        },
{
}

/// An answer that cannot be read, and names no error, is told by the words of
/// its cause.
pub proof fn law_unreadable_answers_keep_their_cause(
    err: Option<MintErrFields>,
    cause: String,
    r: Result<MintedSession, MintError>,
)
    requires
        answer_means(err, Err(cause), r),
        err matches Some(e) ==> e.message@.len() == 0 && e.subclass is None && e.details is None,
    ensures
        r matches Err(MintError::Parse(words)) && words@ == cause@,
{
}

/// A new series has the attempts that it was asked for, at least one, and
/// starts from the wait that it was given, or from two seconds where that is
/// less.
pub proof fn law_series_start_as_asked(attempts: u32, initial_nanos: u128, series: Retry)
    requires
        is_fresh(attempts, initial_nanos, series),
    ensures
        series.attempts() >= 1,
        attempts >= 1 ==> series.attempts() == attempts,
        attempts == 0 ==> series.attempts() == 1,
        series.failures() == 0,
        initial_nanos <= 2_000_000_000 ==> series.next_wait() == initial_nanos,
        initial_nanos > 2_000_000_000 ==> series.next_wait() == 2_000_000_000,
{
    vstd::arithmetic::power2::lemma2_to64();
    assert((initial_nanos as nat) * pow2(0) == initial_nanos);
}

/// What follows an attempt: a session ends the series with that session, the
/// last failure ends it with that failure, and any other failure leads to a
/// wait, after which the next would be twice as long, up to two seconds.
pub proof fn law_attempts_follow_the_schedule(
    before: Retry,
    outcome: Result<MintedSession, MintError>,
    after: Retry,
    r: RetryAction,
)
    requires
        before.wf(),
        follows_attempt(before, outcome, after, r),
    ensures
        outcome is Ok ==> r == RetryAction::Finish(outcome),
        before.failures() + 1 >= before.attempts() ==> r == RetryAction::Finish(outcome),
        outcome is Err && before.failures() + 1 < before.attempts() ==> {
            &&& r matches RetryAction::Wait(nanos) && nanos == before.next_wait()
            &&& after.attempts() == before.attempts()
            &&& after.failures() == before.failures() + 1
            &&& after.next_wait() == if 2 * before.next_wait() < 2_000_000_000 {
                2 * before.next_wait()
            } else {
                2_000_000_000
            }
        },
{
    lemma_capped_doubles(before.initial_nanos(), before.failures());
}

/// A session is renewed five minutes before it expires, or halfway through what
/// is left of it, whichever is later; one that has expired, at once. What
/// counts is how far off the expiry is, not when.
pub proof fn law_renewal_leads_by_five_minutes_or_half(
    expires_at_ms: u64,
    now_ms: u64,
    later: u64,
)
    requires
        expires_at_ms + later <= u64::MAX,
        now_ms + later <= u64::MAX,
    ensures
        now_ms < expires_at_ms ==> {
            let lead = expires_at_ms - renewal_time(expires_at_ms, now_ms);
            &&& lead <= 300_000
            &&& 2 * lead <= expires_at_ms - now_ms
            &&& lead == 300_000 || 2 * (lead + 1) > expires_at_ms - now_ms
        },
        now_ms >= expires_at_ms ==> renewal_time(expires_at_ms, now_ms) == now_ms,
        renewal_time((expires_at_ms + later) as u64, (now_ms + later) as u64) == renewal_time(
            expires_at_ms,
            now_ms,
        ) + later,
{
}

/// A renewal is never waited for less than a second, nor past its time by more,
/// and otherwise to the millisecond.
pub proof fn law_renewal_is_waited_for(renew_at_ms: u64, now_ms: u64)
    ensures
        renewal_delay(renew_at_ms, now_ms) >= 1_000,
        now_ms + renewal_delay(renew_at_ms, now_ms) >= renew_at_ms,
        renewal_delay(renew_at_ms, now_ms) == 1_000 || now_ms + renewal_delay(renew_at_ms, now_ms)
            == renew_at_ms,
{
}

} // verus!
