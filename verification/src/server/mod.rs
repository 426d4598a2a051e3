//! The HTTP surface: what each request asks of the library and what it is answered.

pub mod api;
pub mod auth;
pub mod dev_api;
pub mod metrics;
pub mod ws;

use crate::exec::{exec_error_text, ExecError};
use crate::json;
use crate::json::JsonV;
use crate::text;
use crate::types::{error_envelope, success_envelope, Envelope, EnvelopeV};
use vstd::prelude::*;

verus! {

/// An answer: the status code and the JSON envelope.
#[derive(Debug)]
pub struct Reply {
    pub status: u16,
    pub body: Envelope,
}

/// What a [`Reply`] holds.
pub struct ReplyV {
    pub status: int,
    pub body: EnvelopeV,
}

impl View for Reply {
    type V = ReplyV;

    open spec fn view(&self) -> ReplyV {
        ReplyV { status: self.status as int, body: self.body@ }
    }
}

/// The answer of a success.
pub open spec fn ok_reply(message: Seq<char>, data: Option<JsonV>) -> ReplyV {
    ReplyV { status: 200, body: success_envelope(message, data) }
}

/// The answer to a request whose work goes on.
pub open spec fn accepted_reply(message: Seq<char>, data: Option<JsonV>) -> ReplyV {
    ReplyV { status: 202, body: success_envelope(message, data) }
}

/// The answer of a failure.
pub open spec fn err_reply(status: int, message: Seq<char>) -> ReplyV {
    ReplyV { status, body: error_envelope(message) }
}

/// The answer while there is no adapter.
pub open spec fn unavailable_reply() -> ReplyV {
    err_reply(503, "CEC adapter not available"@)
}

/// What optional data holds.
pub open spec fn data_of(data: Option<serde_json::Value>) -> Option<JsonV> {
    match data {
        Some(d) => Some(json::json(d)),
        None => None,
    }
}

pub fn ok(message: &str, data: Option<serde_json::Value>) -> (r: Reply)
    ensures
        r@ == ok_reply(message@, data_of(data)),
{
    Reply { status: 200, body: Envelope::success(message, data) }
}

pub fn accepted(message: &str, data: Option<serde_json::Value>) -> (r: Reply)
    ensures
        r@ == accepted_reply(message@, data_of(data)),
{
    Reply { status: 202, body: Envelope::success(message, data) }
}

pub fn err(status: u16, message: &str) -> (r: Reply)
    ensures
        r@ == err_reply(status as int, message@),
{
    Reply { status, body: Envelope::error(message) }
}

pub fn unavailable() -> (r: Reply)
    ensures
        r@ == unavailable_reply(),
{
    err(503, "CEC adapter not available")
}

/// The answer to a command that was not carried out: malformed input is 400, a missing adapter
/// 503, anything else 500.
pub open spec fn exec_reply(e: ExecError) -> ReplyV {
    match e {
        ExecError::AdapterUnavailable => unavailable_reply(),
        ExecError::InvalidLogicalAddress | ExecError::InvalidHdmiPort | ExecError::InvalidKey
        | ExecError::MissingKey => err_reply(400, exec_error_text(e)),
        _ => err_reply(500, exec_error_text(e)),
    }
}

pub fn api_map_exec(e: &ExecError) -> (r: Reply)
    ensures
        r@ == exec_reply(*e),
{
    match e {
        ExecError::AdapterUnavailable => unavailable(),
        ExecError::InvalidLogicalAddress | ExecError::InvalidHdmiPort | ExecError::InvalidKey
        | ExecError::MissingKey => err(400, e.to_string().as_str()),
        _ => err(500, e.to_string().as_str()),
    }
}

/// Whether a query value means yes.
pub open spec fn is_truthy(s: Seq<char>) -> bool {
    let t = text::lower(text::trimmed(s));
    t == "1"@ || t == "true"@ || t == "yes"@ || t == "on"@
}

pub fn truthy(s: &str) -> (r: bool)
    ensures
        r == is_truthy(s@),
{
    let t = text::to_lowercase(text::trim(s));
    text::str_eq(t.as_str(), "1") || text::str_eq(t.as_str(), "true") || text::str_eq(
        t.as_str(),
        "yes",
    ) || text::str_eq(t.as_str(), "on")
}

/// Whether requests of a path stay out of the access log.
pub open spec fn streaming(path: Seq<char>) -> bool {
    path == "/api/events"@ || path == "/api/events/ws"@ || text::starts_with(
        path,
        "/ui/static/"@,
    )
}

pub fn is_streaming(path: &str) -> (r: bool)
    ensures
        r == streaming(path@),
{
    text::str_eq(path, "/api/events") || text::str_eq(path, "/api/events/ws") || text::has_prefix(
        path,
        "/ui/static/",
    )
}

/// Whether a request ID of a client can be taken over: up to 32 hexadecimal digits.
pub open spec fn usable_request_id(id: Seq<char>) -> bool {
    id.len() <= 32 && text::all_hex(id)
}

/// The request ID that is made of the nanoseconds of the current second and a counter.
pub open spec fn made_request_id(nanos: u32, counter: u64) -> Seq<char> {
    text::hex(nanos as nat, 8, false) + text::hex(counter as nat, 4, false)
}

/// The ID of a request: the one that the client sent, where it is usable, or a new one.
pub fn request_id(sent: Option<&str>, nanos: u32, counter: u64) -> (r: String)
    ensures
        r@ == (match sent {
            Some(id) if usable_request_id(id@) => id@,
            _ => made_request_id(nanos, counter),
        }),
{
    if let Some(id) = sent {
        if id.unicode_len() <= 32 && is_hex(id) {
            return id.to_owned();
        }
    }
    let head = text::hex_u64(nanos as u64, 8, false);
    let tail = text::hex_u64(counter, 4, false);
    text::concat(head.as_str(), tail.as_str())
}

/// Whether there is nothing but hexadecimal digits, one at least.
fn is_hex(s: &str) -> (r: bool)
    ensures
        r == text::all_hex(s@),
{
    let cs = text::chars_of(s);
    let mut i: usize = 0;
    while i < cs.len()
        invariant
            i <= cs@.len(),
            cs@ == s@,
            forall|j: int| 0 <= j < i ==> text::hex_digit_value(#[trigger] s@[j]) is Some,
        decreases cs@.len() - i,
    {
        if text::hex_value(cs[i]).is_none() {
            assert(text::hex_digit_value(s@[i as int]) is None);
            return false;
        }
        i += 1;
    }
    cs.len() > 0
}

/// A request ID holds hexadecimal digits and nothing else, whatever the client sent.
pub proof fn law_request_ids_are_hexadecimal(sent: Option<Seq<char>>, nanos: u32, counter: u64)
    ensures
        text::all_hex(
            match sent {
                Some(id) if usable_request_id(id) => id,
                _ => made_request_id(nanos, counter),
            },
        ),
{
    lemma_hex_text(nanos as nat, 8);
    lemma_hex_text(counter as nat, 4);
    let head = text::hex(nanos as nat, 8, false);
    let tail = text::hex(counter as nat, 4, false);
    assert forall|i: int| 0 <= i < (head + tail).len() implies text::hex_digit_value(
        #[trigger] (head + tail)[i],
    ) is Some by {
        if i < head.len() {
            assert((head + tail)[i] == head[i]);
        } else {
            assert((head + tail)[i] == tail[i - head.len()]);
        }
    }
}

proof fn lemma_hex_text(n: nat, width: nat)
    ensures
        text::all_hex(text::hex(n, width, false)),
    decreases n + width,
{
    if !(n < 16 && width <= 1) {
        let w = if width == 0 {
            0
        } else {
            (width - 1) as nat
        };
        lemma_hex_text(n / 16, w);
    }
}

/// Malformed input is answered 400, a missing adapter 503 and everything else 500; every one of
/// them is an error that tells what is wrong.
pub proof fn law_errors_have_their_status(e: ExecError)
    ensures
        exec_reply(e).status == (match e {
            ExecError::AdapterUnavailable => 503int,
            ExecError::InvalidLogicalAddress => 400,
            ExecError::InvalidHdmiPort => 400,
            ExecError::InvalidKey => 400,
            ExecError::MissingKey => 400,
            ExecError::Cec(_) => 500,
            ExecError::Other(_) => 500,
        }),
        exec_reply(e).body.status == "error"@,
        exec_reply(e).body.message == exec_error_text(e),
        exec_reply(e).body.data is None,
{
}

/// An answer is a success or an error, and says so: a success has a status of the two hundreds and
/// carries the data, an error has the status that it is given and no data.
pub proof fn law_envelopes_tell_success(message: Seq<char>, data: Option<JsonV>, status: int)
    ensures
        ok_reply(message, data).status == 200 && accepted_reply(message, data).status == 202,
        ok_reply(message, data).body.status == "success"@ && ok_reply(message, data).body.data
            == data && ok_reply(message, data).body.message == message,
        accepted_reply(message, data).body == ok_reply(message, data).body,
        err_reply(status, message).status == status && err_reply(status, message).body.status
            == "error"@ && err_reply(status, message).body.message == message && err_reply(
            status,
            message,
        ).body.data is None,
        unavailable_reply().status == 503,
        "success"@ != "error"@,
{
    reveal_strlit("success");
    reveal_strlit("error");
    assert("success"@.len() != "error"@.len());
}

/// A value means yes where it is one of four words, whatever its case and the white space around it.
pub proof fn law_yes_in_any_case(s: Seq<char>, t: Seq<char>)
    ensures
        text::lower(text::trimmed(s)) == text::lower(text::trimmed(t)) ==> is_truthy(s)
            == is_truthy(t),
        is_truthy(s) <==> text::lower(text::trimmed(s)) == "1"@ || text::lower(text::trimmed(s))
            == "true"@ || text::lower(text::trimmed(s)) == "yes"@ || text::lower(text::trimmed(s))
            == "on"@,
{
}

/// A request ID that is made holds the nanoseconds in its first eight digits and the counter behind
/// them, so that requests of one moment differ.
pub proof fn law_made_ids_differ(nanos: u32, counter: u64, other: u64)
    ensures
        text::all_hex(made_request_id(nanos, counter)),
        made_request_id(nanos, counter) == made_request_id(nanos, other) ==> counter == other,
{
    let a = text::hex(nanos as nat, 8, false);
    let b = text::hex(counter as nat, 4, false);
    let c = text::hex(other as nat, 4, false);
    text::lemma_hex_round_trip(nanos as nat, 8, false);
    text::lemma_hex_round_trip(counter as nat, 4, false);
    text::lemma_hex_round_trip(other as nat, 4, false);
    assert((a + b).skip(a.len() as int) =~= b);
    assert((a + c).skip(a.len() as int) =~= c);
    assert forall|i: int| 0 <= i < (a + b).len() implies text::hex_digit_value(
        #[trigger] (a + b)[i],
    ) is Some by {
        if i < a.len() {
            assert((a + b)[i] == a[i]);
        } else {
            assert((a + b)[i] == b[i - a.len()]);
        }
    }
}

/// A request ID of a client is taken over exactly where it has from 1 to 32 characters and all of
/// them are hexadecimal digits.
pub proof fn law_usable_ids(id: Seq<char>, i: int)
    ensures
        usable_request_id(id) ==> 1 <= id.len() <= 32,
        0 <= i < id.len() && usable_request_id(id) ==> ('0' <= id[i] <= '9') || ('a' <= id[i]
            <= 'f') || ('A' <= id[i] <= 'F'),
        1 <= id.len() <= 32 && (forall|j: int|
            0 <= j < id.len() ==> '0' <= #[trigger] id[j] <= '9') ==> usable_request_id(id),
{
}

/// Only the two event streams and the static files stay out of the access log.
pub proof fn law_streams_and_static_files_are_not_logged(path: Seq<char>, name: Seq<char>)
    ensures
        streaming("/api/events"@),
        streaming("/api/events/ws"@),
        streaming("/ui/static/"@ + name),
        streaming(path) ==> path == "/api/events"@ || path == "/api/events/ws"@ || exists|n: Seq<
            char,
        >| path == "/ui/static/"@ + n,
{
    let s = "/ui/static/"@ + name;
    assert(s.take("/ui/static/"@.len() as int) =~= "/ui/static/"@);
    if text::starts_with(path, "/ui/static/"@) {
        let n = path.skip("/ui/static/"@.len() as int);
        assert(path =~= "/ui/static/"@ + n);
    }
}

} // verus!
