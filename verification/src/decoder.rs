//! Decoding of the byte stream into client messages: header parsing, body
//! classification, and the per-message decode state machine.
//!
//! The transport reads bytes and parses body payloads; this module makes
//! every decision: how much to read next, what a header line means, which
//! message a payload carries, and which errors are fatal.

use vstd::prelude::*;

use crate::json::{obj_get_spec, JsonValue};
use crate::jsonrpc::{ClientMessage, LspId};
use crate::text::str_eq;

verus! {

/// Everything that can go wrong while decoding one framed message.
#[derive(Debug, PartialEq, Eq)]
pub enum ParseJsonRPCMessageErrors {
    FailedToReadHeader,
    IncorrectHeaderFormat,
    FailedToReadBody,
    ContentLengthNotANumber,
    FailedToParseBody,
}

/// The whitespace and terminator bytes trimmed around a header value.
pub open spec fn is_ws_byte(b: u8) -> bool {
    b == 32 || b == 9 || b == 13 || b == 10
}

/// ASCII decimal digits.
pub open spec fn is_digit_byte(b: u8) -> bool {
    48 <= b <= 57
}

/// `s` with its leading whitespace removed.
pub open spec fn trim_bytes_start(s: Seq<u8>) -> Seq<u8>
    decreases s.len(),
{
    if s.len() > 0 && is_ws_byte(s[0]) {
        trim_bytes_start(s.skip(1))
    } else {
        s
    }
}

/// `s` with its trailing whitespace removed.
pub open spec fn trim_bytes_end(s: Seq<u8>) -> Seq<u8>
    decreases s.len(),
{
    if s.len() > 0 && is_ws_byte(s.last()) {
        trim_bytes_end(s.drop_last())
    } else {
        s
    }
}

/// `s` with whitespace removed from both ends.
pub open spec fn trim_bytes(s: Seq<u8>) -> Seq<u8> {
    trim_bytes_end(trim_bytes_start(s))
}

/// The index of the last colon in `h`, or `-1` if there is none.
pub open spec fn find_last_colon(h: Seq<u8>) -> int
    decreases h.len(),
{
    if h.len() == 0 {
        -1
    } else if h.last() == 58 {
        h.len() - 1
    } else {
        find_last_colon(h.drop_last())
    }
}

/// Whether every byte of `s` is a decimal digit.
pub open spec fn all_digits(s: Seq<u8>) -> bool {
    forall|i: int| 0 <= i < s.len() ==> is_digit_byte(s[i])
}

/// The number written by a digit string, most significant digit first.
pub open spec fn digits_val(s: Seq<u8>) -> int
    decreases s.len(),
{
    if s.len() == 0 {
        0
    } else {
        10 * digits_val(s.drop_last()) + (s.last() - 48)
    }
}

/// What a header line means: the value after its last colon, trimmed, read
/// as a length. No colon at all is a format error; anything but a plain
/// number that fits the machine is a bad length.
pub open spec fn content_length_spec(h: Seq<u8>) -> Result<int, ParseJsonRPCMessageErrors> {
    let c = find_last_colon(h);
    if c < 0 {
        Err(ParseJsonRPCMessageErrors::IncorrectHeaderFormat)
    } else {
        let t = trim_bytes(h.skip(c + 1));
        if t.len() > 0 && all_digits(t) && digits_val(t) <= usize::MAX {
            Ok(digits_val(t))
        } else {
            Err(ParseJsonRPCMessageErrors::ContentLengthNotANumber)
        }
    }
}

/// A positional characterization pins down `find_last_colon`.
pub proof fn lemma_find_last_colon(h: Seq<u8>, c: int)
    requires
        0 <= c < h.len(),
        h[c] == 58,
        forall|j: int| c < j < h.len() ==> h[j] != 58,
    ensures
        find_last_colon(h) == c,
    decreases h.len(),
{
    if c < h.len() - 1 {
        lemma_find_last_colon(h.drop_last(), c);
    }
}

/// Without any colon, `find_last_colon` reports none.
pub proof fn lemma_find_last_colon_none(h: Seq<u8>)
    requires
        forall|j: int| 0 <= j < h.len() ==> h[j] != 58,
    ensures
        find_last_colon(h) == -1,
    decreases h.len(),
{
    if h.len() > 0 {
        lemma_find_last_colon_none(h.drop_last());
    }
}

/// A positional characterization pins down `trim_bytes_start`.
pub proof fn lemma_trim_bytes_start(s: Seq<u8>, k: int)
    requires
        0 <= k <= s.len(),
        forall|j: int| 0 <= j < k ==> is_ws_byte(s[j]),
        k == s.len() || !is_ws_byte(s[k]),
    ensures
        trim_bytes_start(s) == s.skip(k),
    decreases k,
{
    if k > 0 {
        lemma_trim_bytes_start(s.skip(1), k - 1);
        assert(s.skip(1).skip(k - 1) =~= s.skip(k));
    } else {
        assert(s.skip(0) =~= s);
    }
}

/// A positional characterization pins down `trim_bytes_end`.
pub proof fn lemma_trim_bytes_end(s: Seq<u8>, k: int)
    requires
        0 <= k <= s.len(),
        forall|j: int| k <= j < s.len() ==> is_ws_byte(s[j]),
        k == 0 || !is_ws_byte(s[k - 1]),
    ensures
        trim_bytes_end(s) == s.take(k),
    decreases s.len(),
{
    if s.len() > 0 && is_ws_byte(s.last()) {
        lemma_trim_bytes_end(s.drop_last(), k);
        assert(s.drop_last().take(k) =~= s.take(k));
    } else {
        assert(s.take(s.len() as int) =~= s);
    }
}

/// A digit string names a non-negative number.
pub proof fn lemma_digits_val_nonneg(s: Seq<u8>)
    requires
        all_digits(s),
    ensures
        digits_val(s) >= 0,
    decreases s.len(),
{
    if s.len() > 0 {
        assert(all_digits(s.drop_last()));
        lemma_digits_val_nonneg(s.drop_last());
    }
}

/// Extending a digit string never shrinks its value.
pub proof fn lemma_digits_val_prefix(s: Seq<u8>, i: int)
    requires
        all_digits(s),
        0 <= i <= s.len(),
    ensures
        digits_val(s) >= digits_val(s.take(i)),
    decreases s.len(),
{
    if i < s.len() {
        assert(all_digits(s.drop_last()));
        lemma_digits_val_prefix(s.drop_last(), i);
        assert(s.drop_last().take(i) =~= s.take(i));
        lemma_digits_val_nonneg(s.drop_last());
    } else {
        assert(s.take(s.len() as int) =~= s);
    }
}

/// A header line without any colon is refused as badly formatted.
pub proof fn lemma_header_without_colon_is_format_error(h: Seq<u8>)
    requires
        forall|j: int| 0 <= j < h.len() ==> h[j] != 58,
    ensures
        content_length_spec(h) == Err::<int, ParseJsonRPCMessageErrors>(
            ParseJsonRPCMessageErrors::IncorrectHeaderFormat,
        ),
{
    lemma_find_last_colon_none(h);
}

/// A length value holding a non-digit character is refused as not a
/// number.
pub proof fn lemma_non_digit_length_is_rejected(h: Seq<u8>)
    requires
        find_last_colon(h) >= 0,
        !all_digits(trim_bytes(h.skip(find_last_colon(h) + 1))),
    ensures
        content_length_spec(h) == Err::<int, ParseJsonRPCMessageErrors>(
            ParseJsonRPCMessageErrors::ContentLengthNotANumber,
        ),
{
}

/// Parses the `Content-Length` value out of one header line, exactly as
/// `content_length_spec` reads it.
pub fn parse_content_length(header: &Vec<u8>) -> (r: Result<usize, ParseJsonRPCMessageErrors>)
    ensures
        ({
            match r {
                Ok(v) => content_length_spec(header@) == Ok::<int, ParseJsonRPCMessageErrors>(
                    v as int,
                ),
                Err(e) => content_length_spec(header@) == Err::<int, ParseJsonRPCMessageErrors>(e),
            }
        }),
{
    let ghost h = header@;
    let n = header.len();

    // The value sits after the last colon.
    let mut i: usize = n;
    while i > 0
        invariant
            i <= n,
            n == h.len(),
            h == header@,
            forall|j: int| i <= j < n ==> h[j] != 58,
        ensures
            i <= n,
            forall|j: int| i <= j < n ==> h[j] != 58,
            i > 0 ==> h[i - 1] == 58,
        decreases i,
    {
        if header[i - 1] == 58 {
            break;
        }
        i = i - 1;
    }
    if i == 0 {
        proof {
            lemma_find_last_colon_none(h);
        }
        return Err(ParseJsonRPCMessageErrors::IncorrectHeaderFormat);
    }
    let c = i - 1;
    proof {
        lemma_find_last_colon(h, c as int);
    }

    // Trim whitespace and terminators around the value.
    let mut a: usize = c + 1;
    while a < n
        invariant
            c + 1 <= a <= n,
            n == h.len(),
            h == header@,
            forall|j: int| c + 1 <= j < a ==> is_ws_byte(h[j]),
        ensures
            c + 1 <= a <= n,
            forall|j: int| c + 1 <= j < a ==> is_ws_byte(h[j]),
            a == n || !is_ws_byte(h[a as int]),
        decreases n - a,
    {
        let b0 = header[a];
        if !(b0 == 32 || b0 == 9 || b0 == 13 || b0 == 10) {
            break;
        }
        a = a + 1;
    }
    let mut b: usize = n;
    while b > a
        invariant
            a <= b <= n,
            n == h.len(),
            h == header@,
            forall|j: int| b <= j < n ==> is_ws_byte(h[j]),
        ensures
            a <= b <= n,
            forall|j: int| b <= j < n ==> is_ws_byte(h[j]),
            b == a || !is_ws_byte(h[b - 1]),
        decreases b,
    {
        let b0 = header[b - 1];
        if !(b0 == 32 || b0 == 9 || b0 == 13 || b0 == 10) {
            break;
        }
        b = b - 1;
    }
    proof {
        lemma_trim_bytes_start(h.skip(c + 1), a - (c + 1));
        assert(h.skip(c + 1).skip(a - (c + 1)) =~= h.skip(a as int));
        lemma_trim_bytes_end(h.skip(a as int), b - a);
        assert(h.skip(a as int).take(b - a) =~= h.subrange(a as int, b as int));
    }
    let ghost t = h.subrange(a as int, b as int);
    if a == b {
        assert(t.len() == 0);
        return Err(ParseJsonRPCMessageErrors::ContentLengthNotANumber);
    }

    // Read the digits, guarding against overflow.
    let mut acc: usize = 0;
    let mut k = a;
    while k < b
        invariant
            a <= k <= b <= n,
            n == h.len(),
            h == header@,
            t == h.subrange(a as int, b as int),
            t.len() > 0,
            find_last_colon(h) == c as int,
            c + 1 <= a,
            trim_bytes(h.skip(c + 1)) == t,
            forall|j: int| a <= j < k ==> is_digit_byte(h[j]),
            acc == digits_val(t.take(k - a)),
        decreases b - k,
    {
        let d = header[k];
        if !(48 <= d && d <= 57) {
            assert(!is_digit_byte(t[k - a]));
            return Err(ParseJsonRPCMessageErrors::ContentLengthNotANumber);
        }
        let dv = (d - 48) as usize;
        proof {
            assert(t.take(k - a + 1).drop_last() =~= t.take(k - a));
            assert(t.take(k - a + 1).last() == h[k as int]);
            assert(digits_val(t.take(k - a + 1)) == 10 * acc + dv);
            assert(usize::MAX as int == 10 * (usize::MAX as int / 10) + (usize::MAX as int % 10));
        }
        if acc > usize::MAX / 10 || (acc == usize::MAX / 10 && dv > usize::MAX % 10) {
            proof {
                assert(digits_val(t.take(k - a + 1)) > usize::MAX);
                if all_digits(t) {
                    lemma_digits_val_prefix(t, k - a + 1);
                    assert(digits_val(t) > usize::MAX);
                }
            }
            return Err(ParseJsonRPCMessageErrors::ContentLengthNotANumber);
        }
        acc = acc * 10 + dv;
        k = k + 1;
    }
    proof {
        assert(t.take(b - a) =~= t);
        assert(forall|j: int| 0 <= j < t.len() ==> is_digit_byte(t[j]));
    }
    Ok(acc)
}

/// The params payload a message carries: an explicit `null` and an absent
/// field both mean none.
pub open spec fn params_of(p: Option<JsonValue>) -> Option<JsonValue> {
    match p {
        Some(JsonValue::Null) => None,
        x => x,
    }
}

/// The message a body payload carries, discriminated by shape: an object
/// with a string `method` is a request when it also carries a usable id —
/// a string, or an integer in range — and a notification otherwise.
/// Anything else is no message at all.
pub open spec fn message_of(v: JsonValue) -> Option<ClientMessage> {
    match v {
        JsonValue::Obj(es) => {
            match obj_get_spec(es@, "method"@) {
                Some(JsonValue::Str(method)) => {
                    let params = params_of(obj_get_spec(es@, "params"@));
                    match obj_get_spec(es@, "id"@) {
                        Some(JsonValue::Str(s)) => Some(
                            ClientMessage::Request { id: LspId::String(s), method, params },
                        ),
                        Some(JsonValue::Int(i)) => if i32::MIN <= i <= i32::MAX {
                            Some(
                                ClientMessage::Request {
                                    id: LspId::Integer(i as i32),
                                    method,
                                    params,
                                },
                            )
                        } else {
                            Some(ClientMessage::Notification { method, params })
                        },
                        _ => Some(ClientMessage::Notification { method, params }),
                    }
                },
                _ => None,
            }
        },
        _ => None,
    }
}

/// Classifies a parsed body payload as the client message it carries.
pub fn classify_body(v: JsonValue) -> (r: Result<ClientMessage, ParseJsonRPCMessageErrors>)
    ensures
        ({
            match message_of(v) {
                Some(m) => r == Ok::<ClientMessage, ParseJsonRPCMessageErrors>(m),
                None => r == Err::<ClientMessage, ParseJsonRPCMessageErrors>(
                    ParseJsonRPCMessageErrors::FailedToParseBody,
                ),
            }
        }),
{
    let es = match v {
        JsonValue::Obj(es) => es,
        _ => {
            return Err(ParseJsonRPCMessageErrors::FailedToParseBody);
        },
    };
    let ghost es0 = es@;
    let mut rest = es;
    let mut method_raw: Option<JsonValue> = None;
    let mut id_raw: Option<JsonValue> = None;
    let mut params_raw: Option<JsonValue> = None;
    proof {
        assert(rest@.skip(0) =~= rest@);
    }
    while rest.len() > 0
        invariant
            match method_raw {
                Some(x) => obj_get_spec(es0, "method"@) == Some(x),
                None => obj_get_spec(es0, "method"@) == obj_get_spec(rest@, "method"@),
            },
            match id_raw {
                Some(x) => obj_get_spec(es0, "id"@) == Some(x),
                None => obj_get_spec(es0, "id"@) == obj_get_spec(rest@, "id"@),
            },
            match params_raw {
                Some(x) => obj_get_spec(es0, "params"@) == Some(x),
                None => obj_get_spec(es0, "params"@) == obj_get_spec(rest@, "params"@),
            },
        decreases rest@.len(),
    {
        let ghost before = rest@;
        let (key, val) = rest.remove(0);
        proof {
            reveal_strlit("method");
            reveal_strlit("id");
            reveal_strlit("params");
            assert("method"@.len() == 6 && "id"@.len() == 2 && "params"@.len() == 6);
            assert("method"@[0] == 'm' && "params"@[0] == 'p');
            assert(before[0] == (key, val));
            assert(rest@ =~= before.skip(1));
        }
        if method_raw.is_none() && str_eq(key.as_str(), "method") {
            assert(obj_get_spec(before, "method"@) == Some(val));
            assert(key@ != "id"@ && key@ != "params"@);
            method_raw = Some(val);
        } else if id_raw.is_none() && str_eq(key.as_str(), "id") {
            assert(obj_get_spec(before, "id"@) == Some(val));
            assert(key@ != "method"@ && key@ != "params"@);
            id_raw = Some(val);
        } else if params_raw.is_none() && str_eq(key.as_str(), "params") {
            assert(obj_get_spec(before, "params"@) == Some(val));
            assert(key@ != "method"@ && key@ != "id"@);
            params_raw = Some(val);
        }
    }
    proof {
        assert(obj_get_spec(rest@, "method"@) is None);
        assert(obj_get_spec(rest@, "id"@) is None);
        assert(obj_get_spec(rest@, "params"@) is None);
    }

    let method = match method_raw {
        Some(JsonValue::Str(m)) => m,
        _ => {
            return Err(ParseJsonRPCMessageErrors::FailedToParseBody);
        },
    };
    let params = match params_raw {
        Some(JsonValue::Null) => None,
        x => x,
    };
    match id_raw {
        Some(JsonValue::Str(s)) => Ok(
            ClientMessage::Request { id: LspId::String(s), method, params },
        ),
        Some(JsonValue::Int(i)) => {
            if i32::MIN as i64 <= i && i <= i32::MAX as i64 {
                Ok(ClientMessage::Request { id: LspId::Integer(i as i32), method, params })
            } else {
                Ok(ClientMessage::Notification { method, params })
            }
        },
        _ => Ok(ClientMessage::Notification { method, params }),
    }
}

/// Where the decoder stands inside one framed message.
#[derive(Debug, PartialEq, Eq)]
pub enum DecodePhase {
    /// The next input is a header line.
    ExpectHeader,
    /// The header named this many body bytes; the next input is the body.
    ExpectBody(usize),
    /// A fatal transport failure ended the stream for good.
    Closed,
}

/// What the transport observed and hands to the decoder.
#[derive(Debug)]
pub enum DecodeEvent {
    /// One header line, read up to and including its newline, with the
    /// blank separator line consumed after it.
    HeaderLine(Vec<u8>),
    /// The body bytes, parsed as a JSON payload; `None` when they did not
    /// parse.
    Body(Option<JsonValue>),
    /// The underlying stream failed, end-of-stream included.
    ReadFailed,
}

/// What the decoder decided after one event.
#[derive(Debug)]
pub enum DecodeStep {
    /// The header was good: read this many body bytes next.
    NeedBody(usize),
    /// One full message was decoded.
    Message(ClientMessage),
    /// This frame is lost but the stream goes on.
    Recoverable(ParseJsonRPCMessageErrors),
    /// The stream is finished; no further message will ever come.
    Fatal(ParseJsonRPCMessageErrors),
}

/// The sequence of framed messages on a byte stream, decoded one event at
/// a time. The transport feeds it what it reads; the machine decides what
/// the bytes mean and how much to read next. A read failure is fatal: the
/// machine closes and can never yield another message, so the stream is
/// never spun on after its end.
#[derive(Debug)]
pub struct LSPMessages {
    pub phase: DecodePhase,
}

impl LSPMessages {
    /// A fresh decoder, expecting the header of the first message.
    pub fn new() -> (r: Self)
        ensures
            r.phase == DecodePhase::ExpectHeader,
    {
        LSPMessages { phase: DecodePhase::ExpectHeader }
    }

    /// Consumes one transport event and decides what it means.
    pub fn advance(&mut self, event: DecodeEvent) -> (step: DecodeStep)
        requires
            old(self).phase != DecodePhase::Closed,
            old(self).phase == DecodePhase::ExpectHeader ==> !(event matches DecodeEvent::Body(_)),
            old(self).phase matches DecodePhase::ExpectBody(_) ==> !(event
                matches DecodeEvent::HeaderLine(_)),
        ensures
            event is ReadFailed <==> final(self).phase == DecodePhase::Closed,
            event is ReadFailed <==> step is Fatal,
            old(self).phase == DecodePhase::ExpectHeader && event is ReadFailed ==> step
                == DecodeStep::Fatal(ParseJsonRPCMessageErrors::FailedToReadHeader),
            old(self).phase matches DecodePhase::ExpectBody(_) && event is ReadFailed ==> step
                == DecodeStep::Fatal(ParseJsonRPCMessageErrors::FailedToReadBody),
            ({
                event matches DecodeEvent::HeaderLine(h) ==> match content_length_spec(h@) {
                    Ok(len) => final(self).phase == DecodePhase::ExpectBody(len as usize) && step
                        == DecodeStep::NeedBody(len as usize),
                    Err(e) => final(self).phase == DecodePhase::ExpectHeader && step
                        == DecodeStep::Recoverable(e),
                }
            }),
            ({
                event matches DecodeEvent::Body(p) ==> final(self).phase
                    == DecodePhase::ExpectHeader && match p {
                    Some(v) => match message_of(v) {
                        Some(m) => step == DecodeStep::Message(m),
                        None => step == DecodeStep::Recoverable(
                            ParseJsonRPCMessageErrors::FailedToParseBody,
                        ),
                    },
                    None => step == DecodeStep::Recoverable(
                        ParseJsonRPCMessageErrors::FailedToParseBody,
                    ),
                }
            }),
    {
        match event {
            DecodeEvent::ReadFailed => {
                let e = match self.phase {
                    DecodePhase::ExpectHeader => ParseJsonRPCMessageErrors::FailedToReadHeader,
                    _ => ParseJsonRPCMessageErrors::FailedToReadBody,
                };
                self.phase = DecodePhase::Closed;
                DecodeStep::Fatal(e)
            },
            DecodeEvent::HeaderLine(h) => {
                match parse_content_length(&h) {
                    Ok(len) => {
                        self.phase = DecodePhase::ExpectBody(len);
                        DecodeStep::NeedBody(len)
                    },
                    Err(e) => {
                        self.phase = DecodePhase::ExpectHeader;
                        DecodeStep::Recoverable(e)
                    },
                }
            },
            DecodeEvent::Body(p) => {
                self.phase = DecodePhase::ExpectHeader;
                match p {
                    Some(v) => {
                        match classify_body(v) {
                            Ok(m) => DecodeStep::Message(m),
                            Err(e) => DecodeStep::Recoverable(e),
                        }
                    },
                    None => DecodeStep::Recoverable(ParseJsonRPCMessageErrors::FailedToParseBody),
                }
            },
        }
    }
}

} // verus!
