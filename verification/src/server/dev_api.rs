//! The unstable surface for development: mode toggles, probes, raw sends, and the strategy bench.
//! All times that a client can choose are bounded.

use crate::busstate::BusState;
use crate::cec::session::Connection;
use crate::cec::tables::{
    key_entries, keycode_names, opcode_entries, opcode_table, table_sorted, table_view,
};
use crate::cec::types::{
    cec_error_text, CecError, Command, CommandV, LogicalAddress, Opcode,
};
use crate::dispatch::{find_strategy, strategy_at};
use crate::exec::{session_view, vendor_id_for_target, vendor_of_target, ExecError};
use crate::json;
use crate::json::JsonV;
use crate::server::api::{frame_fields, frame_map};
use crate::server::auth::escaped_byte;
use crate::server::{
    api_map_exec, err, err_reply, exec_reply, ok, ok_reply, unavailable, unavailable_reply, Reply,
    ReplyV,
};
use crate::strategies::{
    action_at, action_form, action_named, action_text, all_actions, strat_result_object,
    strategy_views, vendor_form, Action, Registry, RunOptions, StrategyV, StratResult, StratResultV, ACTION_NAMES,
    MAX_HOLD_MS, MAX_OBSERVE_MS,
};
use crate::strategy_run::{skipped, strat_result_views, ChainRun};
use crate::text;
use crate::time::Timestamp;
use crate::types::{
    frame_views, override_views, BusFrameEntry, FrameV, StrategyOverride, StrategyOverrideV,
};
use vstd::prelude::*;
use vstd::utf8::encode_utf8;

verus! {

// ---------------------------------------------------------------------------
// Mode
// ---------------------------------------------------------------------------

/// The body of a mode change: `{"mode": "passive" | "monitor_only"}`, the same as a truth value,
/// or a bare reconnect.
#[derive(Debug)]
pub struct ModeBody {
    pub mode: Option<String>,
    pub monitor_only: Option<bool>,
    pub reconnect: bool,
}

/// The name of a mode.
pub open spec fn mode_text(monitor_only: bool) -> Seq<char> {
    if monitor_only {
        "monitor_only"@
    } else {
        "passive"@
    }
}

/// `GET /api/dev/mode`.
pub fn get_mode(monitor_only: bool, ready: bool) -> (r: Reply)
    ensures
        r@ == ok_reply(
            "mode"@,
            Some(
                JsonV::Object(
                    json::no_fields().insert("mode"@, JsonV::Text(mode_text(monitor_only))).insert(
                        "monitor_only"@,
                        JsonV::Bool(monitor_only),
                    ).insert("adapter_ready"@, JsonV::Bool(ready)),
                ),
            ),
        ),
{
    let mut m = json::new_object();
    let name = if monitor_only { "monitor_only" } else { "passive" };
    json::insert(&mut m, "mode", json::text(name));
    json::insert(&mut m, "monitor_only", json::boolean(monitor_only));
    json::insert(&mut m, "adapter_ready", json::boolean(ready));
    ok("mode", Some(json::object_value(m)))
}

/// What a mode request leads to.
#[derive(Debug, Clone, Copy, PartialEq, Eq, Structural)]
pub enum ModeChange {
    /// The adapter is opened anew.
    Reconnect,
    /// The mode is saved, and the adapter is opened anew.
    Monitor(bool),
}

/// What a mode request leads to, or what is wrong with it.
pub open spec fn mode_change(req: ModeBody) -> Result<ModeChange, Seq<char>> {
    if req.reconnect {
        Ok(ModeChange::Reconnect)
    } else {
        match (req.mode, req.monitor_only) {
            (Some(m), _) => if m@ == "passive"@ {
                Ok(ModeChange::Monitor(false))
            } else if m@ == "monitor_only"@ {
                Ok(ModeChange::Monitor(true))
            } else {
                Err("unknown mode "@ + text::quoted(m@))
            },
            (None, Some(on)) => Ok(ModeChange::Monitor(on)),
            (None, None) => Err("monitor_only or reconnect required"@),
        }
    }
}

/// `POST /api/dev/mode`: what to do.
pub fn post_mode(req: Option<&ModeBody>) -> (r: Result<ModeChange, Reply>)
    ensures
        match req {
            None => r matches Err(reply) && reply@ == err_reply(400, "invalid body"@),
            Some(b) => match mode_change(*b) {
                Ok(c) => r == Ok::<ModeChange, Reply>(c),
                Err(m) => r matches Err(reply) && reply@ == err_reply(400, m),
            },
        },
{
    let b = match req {
        None => {
            return Err(err(400, "invalid body"));
        },
        Some(b) => b,
    };
    if b.reconnect {
        return Ok(ModeChange::Reconnect);
    }
    if let Some(m) = &b.mode {
        proof {
            reveal_strlit("passive");
            reveal_strlit("monitor_only");
        }
        if text::str_eq(m.as_str(), "passive") {
            return Ok(ModeChange::Monitor(false));
        }
        if text::str_eq(m.as_str(), "monitor_only") {
            return Ok(ModeChange::Monitor(true));
        }
        let quoted = text::quote(m.as_str());
        return Err(err(400, text::concat("unknown mode ", quoted.as_str()).as_str()));
    }
    match b.monitor_only {
        Some(on) => Ok(ModeChange::Monitor(on)),
        None => Err(err(400, "monitor_only or reconnect required")),
    }
}

/// The answer to a mode request, once a new mode was saved.
pub open spec fn mode_answer(change: ModeChange, saved: Result<(), String>) -> ReplyV {
    match change {
        ModeChange::Reconnect => ok_reply("reconnect requested"@, None),
        ModeChange::Monitor(on) => match saved {
            Err(e) => err_reply(500, "save config: "@ + e@),
            Ok(()) => ok_reply(
                if on {
                    "mode set to monitor — reconnecting"@
                } else {
                    "mode set to passive — reconnecting"@
                },
                None,
            ),
        },
    }
}

/// Answers a mode request. The adapter is opened anew unless saving failed.
pub fn mode_reply(change: ModeChange, saved: &Result<(), String>) -> (r: Reply)
    ensures
        r@ == mode_answer(change, *saved),
{
    match change {
        ModeChange::Reconnect => ok("reconnect requested", None),
        ModeChange::Monitor(on) => match saved {
            Err(e) => err(500, text::concat("save config: ", e.as_str()).as_str()),
            Ok(()) => ok(
                if on {
                    "mode set to monitor — reconnecting"
                } else {
                    "mode set to passive — reconnecting"
                },
                None,
            ),
        },
    }
}

// ---------------------------------------------------------------------------
// Probes
// ---------------------------------------------------------------------------

/// The body of a probe.
#[derive(Debug)]
pub struct ProbeRequest {
    pub address: i32,
    pub kind: String,
    pub observe_ms: Option<i64>,
}

/// The probes: name and opcode.
pub const PROBE_KINDS: [(&'static str, u8); 8] = [
    ("power", Opcode::GIVE_DEVICE_POWER_STATUS),
    ("vendor", Opcode::GIVE_DEVICE_VENDOR_ID),
    ("osd", Opcode::GIVE_OSD_NAME),
    ("cec_version", Opcode::GET_CEC_VERSION),
    ("physical", Opcode::GIVE_PHYSICAL_ADDRESS),
    ("audio", Opcode::GIVE_AUDIO_STATUS),
    ("sam", Opcode::GIVE_SYSTEM_AUDIO_MODE_STATUS),
    ("menu", Opcode::MENU_REQUEST),
];

/// The operand of a menu request that only asks.
pub const MENU_QUERY: u8 = 0x02;

/// A time that a client asked for, within bounds.
pub open spec fn observe_time(asked: Option<i64>, dflt: int) -> int {
    let v = match asked {
        Some(n) => n as int,
        None => dflt,
    };
    if v < 100 {
        100
    } else if v > MAX_OBSERVE_MS {
        MAX_OBSERVE_MS as int
    } else {
        v
    }
}

fn bounded_observe(asked: Option<i64>, dflt: i64) -> (r: i64)
    ensures
        r == observe_time(asked, dflt as int),
        100 <= r <= MAX_OBSERVE_MS,
{
    let v: i64 = match asked {
        Some(n) => n,
        None => dflt,
    };
    if v < 100 {
        100
    } else if v > MAX_OBSERVE_MS {
        MAX_OBSERVE_MS
    } else {
        v
    }
}

/// The kind of probe that is asked for.
pub open spec fn probe_kind(kind: Seq<char>) -> Seq<char> {
    if kind.len() == 0 {
        "all"@
    } else {
        text::lower(kind)
    }
}

/// The positions of the first `n` probes that are of a kind: all, or those whose name begins so.
pub open spec fn wanted_probes(kind: Seq<char>, n: int) -> Seq<int>
    decreases n,
{
    if n <= 0 {
        Seq::empty()
    } else {
        let before = wanted_probes(kind, n - 1);
        if kind == "all"@ || text::starts_with(PROBE_KINDS@[n - 1].0@, kind) {
            before.push(n - 1)
        } else {
            before
        }
    }
}

/// The frame of a probe.
pub open spec fn probe_frame(opcode: u8, first: Option<LogicalAddress>, address: u8) -> CommandV {
    CommandV {
        initiator: match first {
            Some(a) => a.0,
            None => LogicalAddress::FREE_USE,
        },
        destination: address,
        opcode,
        opcode_set: true,
        parameters: if opcode == Opcode::MENU_REQUEST {
            seq![MENU_QUERY]
        } else {
            Seq::empty()
        },
        ack: false,
        eom: true,
    }
}

/// What the frames that came in after a probe tell.
pub open spec fn probe_replies(frames: Seq<FrameV>) -> Seq<JsonV> {
    frames.map_values(
        |f: FrameV|
            JsonV::Object(
                json::no_fields().insert("opcode"@, JsonV::Text(f.opcode)).insert(
                    "params"@,
                    JsonV::Array(json::text_values(f.params_hex)),
                ),
            ),
    )
}

/// The report of one probe.
pub open spec fn probe_step(
    probe: int,
    error: Option<CecError>,
    elapsed_ms: i64,
    frames: Seq<FrameV>,
) -> JsonV {
    JsonV::Object(
        json::no_fields().insert("name"@, JsonV::Text(PROBE_KINDS@[probe].0@)).insert(
            "opcode"@,
            JsonV::Text("0x"@ + text::hex(PROBE_KINDS@[probe].1 as nat, 2, true)),
        ).insert(
            "result"@,
            JsonV::Text(
                if error is Some {
                    "error"@
                } else if frames.len() == 0 {
                    "no_reply"@
                } else {
                    "ok"@
                },
            ),
        ).insert(
            "error"@,
            JsonV::Text(
                match error {
                    Some(e) => cec_error_text(e),
                    None => ""@,
                },
            ),
        ).insert("elapsed_ms"@, JsonV::Int(elapsed_ms as int)).insert(
            "replies"@,
            JsonV::Array(probe_replies(frames)),
        ),
    )
}

/// A probe in progress: what is asked, which probes are to be made, and the reports so far.
#[derive(Debug)]
pub struct ProbeRun {
    pub address: u8,
    pub kind: String,
    pub observe_ms: i64,
    pub wanted: Vec<usize>,
    pub steps: Vec<serde_json::Value>,
    pub total_replies: u64,
}

/// The numbers of a list of positions.
pub open spec fn positions(v: Seq<usize>) -> Seq<int> {
    v.map_values(|i: usize| i as int)
}

impl ProbeRun {
    /// Every wanted probe exists, and no more are reported on than are wanted.
    pub open spec fn wf(&self) -> bool {
        &&& self.address <= 14
        &&& 100 <= self.observe_ms <= MAX_OBSERVE_MS
        &&& self.steps@.len() <= self.wanted@.len()
        &&& forall|i: int| 0 <= i < self.wanted@.len() ==> #[trigger] self.wanted@[i] < 8
    }
}

/// What is wrong with a probe.
pub open spec fn probe_refusal(session: Option<Connection>, req: Option<ProbeRequest>) -> Option<
    ReplyV,
> {
    match req {
        None => Some(err_reply(400, "invalid JSON body"@)),
        Some(q) => if !(0 <= q.address <= 14) {
            Some(err_reply(400, "address must be 0..14"@))
        } else {
            match session {
                None => Some(unavailable_reply()),
                Some(c) => if c.monitor_only {
                    Some(
                        err_reply(409, "adapter is in monitor-only mode; switch to passive first"@),
                    )
                } else if wanted_probes(probe_kind(q.kind@), 8).len() == 0 {
                    Some(err_reply(400, "unknown probe kind "@ + text::quoted(q.kind@)))
                } else {
                    None
                },
            }
        },
    }
}

/// What an optional request holds.
pub open spec fn request_view<T>(req: Option<&T>) -> Option<T> {
    match req {
        Some(q) => Some(*q),
        None => None,
    }
}

/// `POST /api/dev/probe`: the probes to make.
pub fn probe(session: Option<&Connection>, req: Option<&ProbeRequest>) -> (r: Result<
    ProbeRun,
    Reply,
>)
    ensures
        match (probe_refusal(session_view(session), request_view(req)), r) {
            (Some(refusal), Err(reply)) => reply@ == refusal,
            (None, Ok(run)) => {
                &&& run.wf()
                &&& run.address == req->0.address
                &&& run.kind@ == probe_kind(req->0.kind@)
                &&& run.observe_ms == observe_time(req->0.observe_ms, 600)
                &&& positions(run.wanted@) == wanted_probes(run.kind@, 8)
                &&& run.steps@.len() == 0
                &&& run.total_replies == 0
            },
            _ => false,
        },
{
    let q = match req {
        None => {
            return Err(err(400, "invalid JSON body"));
        },
        Some(q) => q,
    };
    if !(0 <= q.address && q.address <= 14) {
        return Err(err(400, "address must be 0..14"));
    }
    match session {
        None => {
            return Err(unavailable());
        },
        Some(c) => if c.is_monitor_only() {
            return Err(err(409, "adapter is in monitor-only mode; switch to passive first"));
        },
    }
    let observe_ms: i64 = bounded_observe(q.observe_ms, 600);
    let kind = if q.kind.as_str().is_empty() {
        "all".to_owned()
    } else {
        text::to_lowercase(q.kind.as_str())
    };
    let mut wanted: Vec<usize> = Vec::new();
    let mut i: usize = 0;
    assert(positions(wanted@) =~= wanted_probes(kind@, 0));
    while i < 8
        invariant
            i <= 8 == PROBE_KINDS@.len(),
            positions(wanted@) == wanted_probes(kind@, i as int),
            forall|k: int| 0 <= k < wanted@.len() ==> #[trigger] wanted@[k] < 8,
        decreases 8 - i,
    {
        let ghost before = positions(wanted@);
        if text::str_eq(kind.as_str(), "all") || text::has_prefix(PROBE_KINDS[i].0, kind.as_str()) {
            wanted.push(i);
            assert(positions(wanted@) =~= before.push(i as int));
        }
        i += 1;
    }
    assert(positions(wanted@).len() == wanted@.len());
    if wanted.len() == 0 {
        let quoted = text::quote(q.kind.as_str());
        return Err(err(400, text::concat("unknown probe kind ", quoted.as_str()).as_str()));
    }
    Ok(
        ProbeRun {
            address: q.address as u8,
            kind,
            observe_ms,
            wanted,
            steps: Vec::new(),
            total_replies: 0,
        },
    )
}

/// What each frame that came in after a probe tells.
fn reply_values(frames: &Vec<BusFrameEntry>) -> (r: Vec<serde_json::Value>)
    ensures
        json::jsons(r@) == probe_replies(frame_views(frames@)),
{
    let ghost all = probe_replies(frame_views(frames@));
    let mut list: Vec<serde_json::Value> = Vec::new();
    let mut i: usize = 0;
    while i < frames.len()
        invariant
            i <= frames@.len(),
            all == probe_replies(frame_views(frames@)),
            json::jsons(list@) == all.take(i as int),
        decreases frames@.len() - i,
    {
        let ghost before = list@;
        let mut m = json::new_object();
        json::insert(&mut m, "opcode", json::text(frames[i].opcode.as_str()));
        json::insert(&mut m, "params", json::text_array(&frames[i].params_hex));
        list.push(json::object_value(m));
        i += 1;
        assert(json::jsons(list@) =~= json::jsons(before).push(all[i - 1]));
        assert(json::jsons(list@) =~= all.take(i as int));
    }
    assert(all.take(i as int) =~= all);
    list
}

impl ProbeRun {
    /// The next frame to transmit; `None` when every probe was made. `first` is the adapter's own
    /// address.
    pub fn next_command(&self, first: Option<LogicalAddress>) -> (r: Option<Command>)
        requires
            self.wf(),
        ensures
            match r {
                None => self.steps@.len() == self.wanted@.len(),
                Some(c) => self.steps@.len() < self.wanted@.len() && c@ == probe_frame(
                    PROBE_KINDS@[self.wanted@[self.steps@.len() as int] as int].1,
                    first,
                    self.address,
                ),
            },
    {
        if self.steps.len() >= self.wanted.len() {
            return None;
        }
        let n: usize = self.wanted[self.steps.len()];
        let opcode: u8 = PROBE_KINDS[n].1;
        let mut parameters: Vec<u8> = Vec::new();
        if opcode == Opcode::MENU_REQUEST {
            parameters.push(MENU_QUERY);
        }
        assert(parameters@ =~= probe_frame(opcode, first, self.address).parameters);
        Some(
            Command {
                initiator: match first {
                    Some(a) => a,
                    None => LogicalAddress(LogicalAddress::FREE_USE),
                },
                destination: LogicalAddress(self.address),
                opcode: Opcode(opcode),
                opcode_set: true,
                parameters,
                ack: false,
                eom: true,
            },
        )
    }

    /// Takes in what came of the next probe: the error of the transmission, how long it took, and
    /// the frames that came in.
    pub fn record(
        &mut self,
        error: Option<&CecError>,
        elapsed_ms: i64,
        frames: &Vec<BusFrameEntry>,
    )
        requires
            old(self).wf(),
            old(self).steps@.len() < old(self).wanted@.len(),
        ensures
            final(self).wf(),
            final(self).address == old(self).address,
            final(self).kind == old(self).kind,
            final(self).observe_ms == old(self).observe_ms,
            final(self).wanted == old(self).wanted,
            final(self).total_replies == old(self).total_replies.wrapping_add(frames@.len() as u64),
            json::jsons(final(self).steps@) == json::jsons(old(self).steps@).push(
                probe_step(
                    old(self).wanted@[old(self).steps@.len() as int] as int,
                    request_view(error),
                    elapsed_ms,
                    frame_views(frames@),
                ),
            ),
    {
        let n: usize = self.wanted[self.steps.len()];
        let replies = reply_values(frames);
        let mut m = json::new_object();
        json::insert(&mut m, "name", json::text(PROBE_KINDS[n].0));
        let code = text::hex_u64(PROBE_KINDS[n].1 as u64, 2, true);
        json::insert(&mut m, "opcode", json::text(text::concat("0x", code.as_str()).as_str()));
        let result = if error.is_some() {
            "error"
        } else if frames.len() == 0 {
            "no_reply"
        } else {
            "ok"
        };
        json::insert(&mut m, "result", json::text(result));
        let message = match error {
            Some(e) => e.to_string(),
            None => "".to_owned(),
        };
        json::insert(&mut m, "error", json::text(message.as_str()));
        json::insert(&mut m, "elapsed_ms", json::integer(elapsed_ms));
        json::insert(&mut m, "replies", json::array(replies));
        let ghost before = json::jsons(self.steps@);
        let step = json::object_value(m);
        let ghost told = json::json(step);
        self.steps.push(step);
        self.total_replies = self.total_replies.wrapping_add(frames.len() as u64);
        assert(json::jsons(self.steps@) =~= before.push(told));
    }

    /// Answers a probe.
    pub fn finish(self) -> (r: Reply)
        ensures
            r@ == ok_reply(
                "probe complete"@,
                Some(
                    JsonV::Object(
                        json::no_fields().insert("address"@, JsonV::Int(self.address as int)).insert(
                            "kind"@,
                            JsonV::Text(self.kind@),
                        ).insert("observe_ms"@, JsonV::Int(self.observe_ms as int)).insert(
                            "total_replies"@,
                            JsonV::Int(self.total_replies as int),
                        ).insert("steps"@, JsonV::Array(json::jsons(self.steps@))),
                    ),
                ),
            ),
    {
        let mut m = json::new_object();
        json::insert(&mut m, "address", json::integer(self.address as i64));
        json::insert(&mut m, "kind", json::text(self.kind.as_str()));
        json::insert(&mut m, "observe_ms", json::integer(self.observe_ms));
        json::insert(&mut m, "total_replies", json::unsigned(self.total_replies));
        json::insert(&mut m, "steps", json::array(self.steps));
        ok("probe complete", Some(json::object_value(m)))
    }
}

// ---------------------------------------------------------------------------
// Blind sends
// ---------------------------------------------------------------------------

/// The body of a blind key send.
#[derive(Debug)]
pub struct SendKeyRequest {
    pub address: i32,
    pub key: String,
    pub keycode: Option<i32>,
    pub hold_ms: Option<i64>,
    pub repeat: Option<i32>,
}

/// A key that is sent `repeat` times, with a pause after each time.
#[derive(Debug)]
pub struct KeyBurst {
    pub address: i32,
    pub key: String,
    pub keycode: i32,
    pub hold_ms: i64,
    pub repeat: i32,
}

/// A number within bounds, or the default.
pub open spec fn bounded(asked: Option<int>, dflt: int, min: int, max: int) -> int {
    let v = match asked {
        Some(n) => n,
        None => dflt,
    };
    if v < min {
        min
    } else if v > max {
        max
    } else {
        v
    }
}

fn in_bounds(asked: Option<i64>, dflt: i64, min: i64, max: i64) -> (r: i64)
    requires
        min <= max,
    ensures
        r == bounded(
            match asked {
                Some(n) => Some(n as int),
                None => None,
            },
            dflt as int,
            min as int,
            max as int,
        ),
        min <= r <= max,
{
    let v: i64 = match asked {
        Some(n) => n,
        None => dflt,
    };
    if v < min {
        min
    } else if v > max {
        max
    } else {
        v
    }
}

/// `POST /api/dev/send_key`: the key to send. Each send checks it.
pub fn send_key(session: Option<&Connection>, req: Option<&SendKeyRequest>) -> (r: Result<
    KeyBurst,
    Reply,
>)
    ensures
        match (req, r) {
            (None, Err(reply)) => reply@ == err_reply(400, "invalid JSON body"@),
            (Some(_), Err(reply)) => session is None && reply@ == unavailable_reply(),
            (Some(q), Ok(b)) => {
                &&& session is Some
                &&& b.address == q.address
                &&& b.key@ == q.key@
                &&& b.keycode == (match q.keycode {
                    Some(k) => k,
                    None => 0,
                })
                &&& b.hold_ms == bounded(
                    match q.hold_ms {
                        Some(n) => Some(n as int),
                        None => None,
                    },
                    0,
                    0,
                    MAX_HOLD_MS as int,
                )
                &&& b.repeat == bounded(
                    match q.repeat {
                        Some(n) => Some(n as int),
                        None => None,
                    },
                    1,
                    1,
                    32,
                )
            },
            _ => false,
        },
{
    match req {
        None => Err(err(400, "invalid JSON body")),
        Some(q) => {
            if session.is_none() {
                return Err(unavailable());
            }
            let repeat: i64 = in_bounds(
                match q.repeat {
                    Some(n) => Some(n as i64),
                    None => None,
                },
                1,
                1,
                32,
            );
            Ok(
                KeyBurst {
                    address: q.address,
                    key: q.key.clone(),
                    keycode: match q.keycode {
                        Some(k) => k,
                        None => 0,
                    },
                    hold_ms: in_bounds(q.hold_ms, 0, 0, MAX_HOLD_MS),
                    repeat: repeat as i32,
                },
            )
        },
    }
}

/// A key burst on its way: the messages of the sends so far, and the error that ended it.
#[derive(Debug)]
pub struct BurstRun {
    pub burst: KeyBurst,
    pub messages: Vec<String>,
    pub error: Option<ExecError>,
}

impl BurstRun {
    /// A burst of which nothing was sent yet.
    pub fn start(burst: KeyBurst) -> (r: BurstRun)
        ensures
            r.burst == burst,
            r.messages@ == Seq::<String>::empty(),
            r.error is None,
    {
        BurstRun { burst, messages: Vec::new(), error: None }
    }

    /// Whether the key is to be sent once more: until it was sent as often as asked, or a send
    /// failed.
    pub open spec fn goes_on(&self) -> bool {
        self.error is None && self.messages@.len() < self.burst.repeat
    }

    pub fn more(&self) -> (r: bool)
        ensures
            r == self.goes_on(),
    {
        self.error.is_none() && self.burst.repeat > 0 && self.messages.len()
            < self.burst.repeat as usize
    }

    /// Takes in what a send gave, and says how many milliseconds to hold the key before going on.
    pub fn record(&mut self, sent: Result<String, ExecError>) -> (hold_ms: u64)
        ensures
            final(self).burst == old(self).burst,
            match sent {
                Ok(m) => {
                    &&& final(self).messages@ == old(self).messages@.push(m)
                    &&& final(self).error == old(self).error
                    &&& hold_ms == (if old(self).burst.hold_ms > 0 {
                        old(self).burst.hold_ms as u64
                    } else {
                        0
                    })
                },
                Err(e) => {
                    &&& final(self).messages@ == old(self).messages@
                    &&& final(self).error == Some(e)
                    &&& !final(self).goes_on()
                    &&& hold_ms == 0
                },
            },
    {
        match sent {
            Ok(m) => {
                self.messages.push(m);
                if self.burst.hold_ms > 0 {
                    self.burst.hold_ms as u64
                } else {
                    0
                }
            },
            Err(e) => {
                self.error = Some(e);
                0
            },
        }
    }

    /// Answers the request.
    pub fn reply(&self) -> (r: Reply)
        ensures
            r@ == burst_reply(self.messages@, self.error),
    {
        send_key_reply(&self.messages, self.error.as_ref())
    }
}

/// The answer to a blind key send: the messages of all sends, or the error of the first that
/// failed.
pub open spec fn burst_reply(messages: Seq<String>, error: Option<ExecError>) -> ReplyV {
    match error {
        Some(e) => exec_reply(e),
        None => ok_reply(text::joined(text::views(messages), "; "@), None),
    }
}

/// Answers a blind key send: the messages of all sends, or the error of the first that failed.
pub fn send_key_reply(messages: &Vec<String>, error: Option<&ExecError>) -> (r: Reply)
    ensures
        r@ == burst_reply(
            messages@,
            match error {
                Some(e) => Some(*e),
                None => None,
            },
        ),
{
    match error {
        Some(e) => api_map_exec(e),
        None => ok(text::join(messages, "; ").as_str(), None),
    }
}

/// The body of a blind opcode send.
#[derive(Debug)]
pub struct SendOpcodeRequest {
    pub destination: i32,
    pub opcode: i32,
    pub params_hex: String,
    pub observe_ms: Option<i64>,
}

/// `s` without whitespace.
pub open spec fn without_ws(s: Seq<char>) -> Seq<char>
    decreases s.len(),
{
    if s.len() == 0 {
        Seq::empty()
    } else if text::is_ws(s.last()) {
        without_ws(s.drop_last())
    } else {
        without_ws(s.drop_last()).push(s.last())
    }
}

/// The bytes that a text writes down from byte `i` on, two digits each.
pub open spec fn byte_pairs(s: Seq<u8>, i: int) -> Option<Seq<u8>>
    decreases s.len() - i,
{
    if i < 0 || i + 1 >= s.len() {
        Some(Seq::empty())
    } else {
        match (escaped_byte(s[i], s[i + 1]), byte_pairs(s, i + 2)) {
            (Some(b), Some(rest)) => Some(seq![b] + rest),
            _ => None,
        }
    }
}

/// The bytes that a text writes down in hexadecimal. Whitespace and one leading `0x` do not count.
pub open spec fn hex_bytes(s: Seq<char>) -> Result<Seq<u8>, Seq<char>> {
    let t = without_ws(s);
    let digits = encode_utf8(
        if text::starts_with(t, "0x"@) {
            t.skip("0x"@.len() as int)
        } else {
            t
        },
    );
    if digits.len() % 2 != 0 {
        Err("odd hex length"@)
    } else {
        match byte_pairs(digits, 0) {
            Some(v) => Ok(v),
            None => Err("invalid digit found in string"@),
        }
    }
}

fn strip_ws(s: &str) -> (r: String)
    ensures
        r@ == without_ws(s@),
{
    let cs = text::chars_of(s);
    let mut out = String::new();
    let mut i: usize = 0;
    assert(out@ =~= without_ws(cs@.take(0)));
    while i < cs.len()
        invariant
            i <= cs@.len(),
            out@ == without_ws(cs@.take(i as int)),
        decreases cs@.len() - i,
    {
        assert(cs@.take(i as int + 1).drop_last() =~= cs@.take(i as int));
        assert(cs@.take(i as int + 1).last() == cs@[i as int]);
        if !text::is_whitespace(cs[i]) {
            out.push(cs[i]);
        }
        i += 1;
    }
    assert(cs@.take(i as int) =~= s@);
    out
}

pub fn parse_hex_bytes(s: &str) -> (r: Result<Vec<u8>, String>)
    ensures
        match r {
            Ok(v) => hex_bytes(s@) == Ok::<Seq<u8>, Seq<char>>(v@),
            Err(e) => hex_bytes(s@) == Err::<Seq<u8>, Seq<char>>(e@),
        },
{
    let t = strip_ws(s);
    let digits = match text::strip_prefix(t.as_str(), "0x") {
        Some(d) => d,
        None => t.as_str(),
    };
    let bytes = digits.as_bytes();
    let n: usize = bytes.len();
    if n % 2 != 0 {
        return Err("odd hex length".to_owned());
    }
    let ghost all = byte_pairs(bytes@, 0);
    let mut out: Vec<u8> = Vec::new();
    let mut i: usize = 0;
    proof {
        if let Some(v) = byte_pairs(bytes@, 0) {
            assert(out@ + v =~= v);
        }
    }
    while i < n
        invariant
            i <= n == bytes@.len(),
            i % 2 == 0,
            n % 2 == 0,
            hex_bytes(s@) == (match all {
                Some(v) => Ok::<Seq<u8>, Seq<char>>(v),
                None => Err("invalid digit found in string"@),
            }),
            match byte_pairs(bytes@, i as int) {
                Some(rest) => all == Some(out@ + rest),
                None => all is None,
            },
        decreases n - i,
    {
        let ghost before = out@;
        match crate::server::auth::escape_value(bytes[i], bytes[i + 1]) {
            Some(b) => {
                out.push(b);
                proof {
                    if let Some(rest) = byte_pairs(bytes@, i + 2) {
                        assert(before + (seq![b] + rest) =~= out@ + rest);
                    }
                }
            },
            None => {
                return Err("invalid digit found in string".to_owned());
            },
        }
        i += 2;
    }
    assert(out@ + Seq::<u8>::empty() =~= out@);
    Ok(out)
}

/// A blind opcode send: what to transmit, and how long to watch the bus after it.
#[derive(Debug)]
pub struct OpcodeSend {
    pub destination: u8,
    pub opcode: u8,
    pub parameters: Vec<u8>,
    pub observe_ms: i64,
}

/// What is wrong with a blind opcode send.
pub open spec fn opcode_refusal(
    session: Option<Connection>,
    req: Option<SendOpcodeRequest>,
) -> Option<ReplyV> {
    match req {
        None => Some(err_reply(400, "invalid JSON body"@)),
        Some(q) => if !(0 <= q.destination <= 15) {
            Some(err_reply(400, "destination must be 0..15"@))
        } else if !(0 <= q.opcode <= 255) {
            Some(err_reply(400, "opcode must be 0..255"@))
        } else {
            match hex_bytes(q.params_hex@) {
                Err(e) => Some(err_reply(400, "invalid params_hex: "@ + e)),
                Ok(p) => if p.len() > 14 {
                    Some(err_reply(400, "too many parameters (max 14)"@))
                } else {
                    match session {
                        None => Some(unavailable_reply()),
                        Some(c) => if c.monitor_only {
                            Some(err_reply(409, "adapter is in monitor-only mode"@))
                        } else {
                            None
                        },
                    }
                },
            }
        },
    }
}

/// `POST /api/dev/send_opcode`: what to send.
pub fn send_opcode(session: Option<&Connection>, req: Option<&SendOpcodeRequest>) -> (r: Result<
    OpcodeSend,
    Reply,
>)
    ensures
        match (opcode_refusal(session_view(session), request_view(req)), r) {
            (Some(refusal), Err(reply)) => reply@ == refusal,
            (None, Ok(o)) => {
                &&& o.destination == req->0.destination
                &&& o.opcode == req->0.opcode
                &&& hex_bytes(req->0.params_hex@) == Ok::<Seq<u8>, Seq<char>>(o.parameters@)
                &&& o.observe_ms == observe_time(req->0.observe_ms, 700)
            },
            _ => false,
        },
{
    let q = match req {
        None => {
            return Err(err(400, "invalid JSON body"));
        },
        Some(q) => q,
    };
    if !(0 <= q.destination && q.destination <= 15) {
        return Err(err(400, "destination must be 0..15"));
    }
    if !(0 <= q.opcode && q.opcode <= 255) {
        return Err(err(400, "opcode must be 0..255"));
    }
    let parameters = match parse_hex_bytes(q.params_hex.as_str()) {
        Ok(p) => p,
        Err(e) => {
            return Err(err(400, text::concat("invalid params_hex: ", e.as_str()).as_str()));
        },
    };
    if parameters.len() > 14 {
        return Err(err(400, "too many parameters (max 14)"));
    }
    match session {
        None => {
            return Err(unavailable());
        },
        Some(c) => if c.is_monitor_only() {
            return Err(err(409, "adapter is in monitor-only mode"));
        },
    }
    Ok(
        OpcodeSend {
            destination: q.destination as u8,
            opcode: q.opcode as u8,
            parameters,
            observe_ms: bounded_observe(q.observe_ms, 700),
        },
    )
}

impl OpcodeSend {
    /// The frame to transmit. `first` is the adapter's own address.
    pub fn command(self, first: Option<LogicalAddress>) -> (r: Command)
        ensures
            r@ == (CommandV {
                initiator: match first {
                    Some(a) => a.0,
                    None => LogicalAddress::FREE_USE,
                },
                destination: self.destination,
                opcode: self.opcode,
                opcode_set: true,
                parameters: self.parameters@,
                ack: false,
                eom: true,
            }),
    {
        Command {
            initiator: match first {
                Some(a) => a,
                None => LogicalAddress(LogicalAddress::FREE_USE),
            },
            destination: LogicalAddress(self.destination),
            opcode: Opcode(self.opcode),
            opcode_set: true,
            parameters: self.parameters,
            ack: false,
            eom: true,
        }
    }
}

/// The frames as JSON objects.
pub open spec fn plain_frames(frames: Seq<FrameV>) -> Seq<JsonV> {
    frames.map_values(|f: FrameV| JsonV::Object(frame_fields(f)))
}

/// Answers a blind opcode send: the error of the transmission, if any, and the frames that came in
/// after it.
pub fn send_opcode_reply(error: Option<&CecError>, frames: &Vec<BusFrameEntry>) -> (r: Reply)
    ensures
        r@ == ok_reply(
            "sent"@,
            Some(
                JsonV::Object(
                    json::no_fields().insert(
                        "transmit_error"@,
                        match error {
                            Some(e) => JsonV::Text(cec_error_text(*e)),
                            None => JsonV::Null,
                        },
                    ).insert("new_frames"@, JsonV::Array(plain_frames(frame_views(frames@)))),
                ),
            ),
        ),
{
    let ghost all = plain_frames(frame_views(frames@));
    let mut list: Vec<serde_json::Value> = Vec::new();
    let mut i: usize = 0;
    while i < frames.len()
        invariant
            i <= frames@.len(),
            all == plain_frames(frame_views(frames@)),
            json::jsons(list@) == all.take(i as int),
        decreases frames@.len() - i,
    {
        let ghost before = list@;
        list.push(json::object_value(frame_map(&frames[i])));
        i += 1;
        assert(json::jsons(list@) =~= json::jsons(before).push(all[i - 1]));
        assert(json::jsons(list@) =~= all.take(i as int));
    }
    assert(all.take(i as int) =~= all);
    let mut m = json::new_object();
    let told = match error {
        Some(e) => json::text(e.to_string().as_str()),
        None => json::null(),
    };
    json::insert(&mut m, "transmit_error", told);
    json::insert(&mut m, "new_frames", json::array(list));
    ok("sent", Some(json::object_value(m)))
}

// ---------------------------------------------------------------------------
// Strategies
// ---------------------------------------------------------------------------

/// The body of a strategy run.
#[derive(Debug)]
pub struct RunStrategiesRequest {
    pub action: String,
    pub target: Option<i32>,
    pub observe_ms: Option<i64>,
    pub all_strategies: Option<bool>,
}

/// How long a run of strategies may take, in seconds.
pub const RUN_DEADLINE_SECS: u64 = 30;

/// The device that a run is for; -1 stands for none.
pub open spec fn run_target(target: Option<i32>) -> Result<Option<LogicalAddress>, Seq<char>> {
    match target {
        None => Ok(None),
        Some(t) => if t == -1 {
            Ok(None)
        } else if 0 <= t <= 14 {
            Ok(Some(LogicalAddress(t as u8)))
        } else {
            Err("invalid target "@ + text::dec_int(t as int))
        },
    }
}

/// What is wrong with a strategy run.
pub open spec fn run_refusal(
    session: Option<Connection>,
    req: Option<RunStrategiesRequest>,
) -> Option<ReplyV> {
    match req {
        None => Some(err_reply(400, "invalid JSON body"@)),
        Some(q) => match action_named(action_form(q.action@)) {
            None => Some(err_reply(400, "unknown action "@ + text::quoted(q.action@))),
            Some(_) => match run_target(q.target) {
                Err(m) => Some(err_reply(400, m)),
                Ok(_) => match session {
                    None => Some(unavailable_reply()),
                    Some(c) => if c.monitor_only {
                        Some(err_reply(409, "adapter is in monitor-only mode"@))
                    } else {
                        None
                    },
                },
            },
        },
    }
}

/// `POST /api/dev/run_strategies`: the action and how to run it.
pub fn run_strategies(
    session: Option<&Connection>,
    bus: &BusState,
    req: Option<&RunStrategiesRequest>,
    now: Timestamp,
) -> (r: Result<(Action, RunOptions), Reply>)
    ensures
        match (run_refusal(session_view(session), request_view(req)), r) {
            (Some(refusal), Err(reply)) => reply@ == refusal,
            (None, Ok((action, opts))) => {
                &&& action_named(action_form(req->0.action@)) == Some(action)
                &&& run_target(req->0.target) == Ok::<Option<LogicalAddress>, Seq<char>>(
                    opts.target,
                )
                &&& opts.vendor@ == (match opts.target {
                    Some(t) => vendor_of_target(bus@.devices, t),
                    None => Seq::empty(),
                })
                &&& opts.all_strategies == (req->0.all_strategies != Some(false))
                &&& opts.observe_override_ms == bounded(
                    match req->0.observe_ms {
                        Some(n) => Some(n as int),
                        None => None,
                    },
                    0,
                    0,
                    MAX_OBSERVE_MS as int,
                )
            },
            _ => false,
        },
{
    let q = match req {
        None => {
            return Err(err(400, "invalid JSON body"));
        },
        Some(q) => q,
    };
    let action = match Action::parse(q.action.as_str()) {
        Some(a) => a,
        None => {
            let quoted = text::quote(q.action.as_str());
            return Err(err(400, text::concat("unknown action ", quoted.as_str()).as_str()));
        },
    };
    let target = match q.target {
        None => None,
        Some(t) => if t == -1 {
            None
        } else if 0 <= t && t <= 14 {
            Some(LogicalAddress(t as u8))
        } else {
            let number = text::dec_i64(t as i64);
            return Err(err(400, text::concat("invalid target ", number.as_str()).as_str()));
        },
    };
    match session {
        None => {
            return Err(unavailable());
        },
        Some(c) => if c.is_monitor_only() {
            return Err(err(409, "adapter is in monitor-only mode"));
        },
    }
    let vendor = match target {
        Some(t) => vendor_id_for_target(bus, t, now),
        None => String::new(),
    };
    let opts = RunOptions {
        vendor,
        target,
        all_strategies: match q.all_strategies {
            Some(all) => all,
            None => true,
        },
        observe_override_ms: in_bounds(q.observe_ms, 0, 0, MAX_OBSERVE_MS),
    };
    Ok((action, opts))
}

/// Begins a strategy run: the chain to run within the time for it, or the results of a run that is
/// not made.
pub fn begin_strategies(
    registry: &Registry,
    monitor_only: bool,
    action: Action,
    opts: &RunOptions,
) -> (r: Result<ChainRun, Vec<StratResult>>)
    requires
        registry.wf(),
    ensures
        ({
            let chain = registry.chain_for(opts.vendor@, action);
            match r {
                Ok(c) => !monitor_only && chain.len() > 0 && strategy_views(c.chain@) == chain
                    && c.target == opts.target && c.observe_override_ms
                    == opts.observe_override_ms && c.limit_secs == RUN_DEADLINE_SECS
                    && c.all_strategies == opts.all_strategies && c.results@.len() == 0,
                Err(v) => strat_result_views(v@) == seq![
                    if monitor_only {
                        skipped("monitor-only"@, "connection is monitor-only"@)
                    } else {
                        skipped(
                            action_text(action),
                            "no strategies registered for "@ + action_text(action),
                        )
                    },
                ] && (monitor_only || chain.len() == 0),
            }
        }),
{
    registry.run(monitor_only, action, opts, RUN_DEADLINE_SECS)
}

/// The results of a run as JSON objects.
pub open spec fn result_objects(v: Seq<StratResultV>) -> Seq<JsonV> {
    v.map_values(|x: StratResultV| JsonV::Object(strat_result_object(x)))
}

/// Answers a strategy run.
pub fn run_strategies_reply(action: Action, results: &Vec<StratResult>) -> (r: Reply)
    ensures
        r@ == ok_reply(
            "run complete"@,
            Some(
                JsonV::Object(
                    json::no_fields().insert("action"@, JsonV::Text(action_text(action))).insert(
                        "results"@,
                        JsonV::Array(result_objects(strat_result_views(results@))),
                    ),
                ),
            ),
        ),
{
    let ghost all = result_objects(strat_result_views(results@));
    let mut list: Vec<serde_json::Value> = Vec::new();
    let mut i: usize = 0;
    while i < results.len()
        invariant
            i <= results@.len(),
            all == result_objects(strat_result_views(results@)),
            json::jsons(list@) == all.take(i as int),
        decreases results@.len() - i,
    {
        let ghost before = list@;
        list.push(results[i].to_json());
        i += 1;
        assert(json::jsons(list@) =~= json::jsons(before).push(all[i - 1]));
        assert(json::jsons(list@) =~= all.take(i as int));
    }
    assert(all.take(i as int) =~= all);
    let mut m = json::new_object();
    json::insert(&mut m, "action", json::text(action.as_str()));
    json::insert(&mut m, "results", json::array(list));
    ok("run complete", Some(json::object_value(m)))
}

/// The body of a strategy to save.
#[derive(Debug)]
pub struct SaveStrategyRequest {
    pub vendor: String,
    pub action: String,
    pub strategy: String,
}

/// The strategy that a request picks among the defaults of its action, or what is wrong with it.
pub open spec fn saved_strategy(req: Option<SaveStrategyRequest>, registry: Registry) -> Result<
    (Action, StrategyV),
    ReplyV,
> {
    match req {
        None => Err(err_reply(400, "invalid JSON body"@)),
        Some(q) => match action_named(action_form(q.action@)) {
            None => Err(err_reply(400, "unknown action "@ + text::quoted(q.action@))),
            Some(a) => {
                let chain = registry.chain_for(""@, a);
                match strategy_at(chain, q.strategy@, 0) {
                    Some(i) => Ok((a, chain[i])),
                    None => Err(
                        err_reply(
                            404,
                            "strategy "@ + text::quoted(q.strategy@) + " not found for "@ + q.action@,
                        ),
                    ),
                }
            },
        },
    }
}

/// `POST /api/dev/save_strategy`: sets the strategy as the only one of the action on devices of the
/// vendor, and gives what to save.
pub fn save_strategy(registry: &mut Registry, req: Option<&SaveStrategyRequest>) -> (r: Result<
    StrategyOverride,
    Reply,
>)
    requires
        old(registry).wf(),
    ensures
        final(registry).wf(),
        match (saved_strategy(request_view(req), *old(registry)), r) {
            (Err(refusal), Err(reply)) => reply@ == refusal && *final(registry) == *old(registry),
            (Ok((action, strategy)), Ok(o)) => {
                &&& o@ == (StrategyOverrideV {
                    vendor: req->0.vendor@,
                    action: req->0.action@,
                    strategy: req->0.strategy@,
                })
                &&& forall|v: Seq<char>, a: Action| #[trigger]
                    final(registry).lookup(v, a) == (if v == vendor_form(o@.vendor) && v.len() > 0
                        && a == action {
                        Some(seq![strategy])
                    } else {
                        old(registry).lookup(v, a)
                    })
            },
            _ => false,
        },
{
    let q = match req {
        None => {
            return Err(err(400, "invalid JSON body"));
        },
        Some(q) => q,
    };
    let action = match Action::parse(q.action.as_str()) {
        Some(a) => a,
        None => {
            let quoted = text::quote(q.action.as_str());
            return Err(err(400, text::concat("unknown action ", quoted.as_str()).as_str()));
        },
    };
    let chain = registry.strategies_for("", action);
    match find_strategy(chain, q.strategy.as_str()) {
        None => {
            let quoted = text::quote(q.strategy.as_str());
            let what = text::concat("strategy ", quoted.as_str());
            let message = text::concat3(what.as_str(), " not found for ", q.action.as_str());
            Err(err(404, message.as_str()))
        },
        Some(picked) => {
            let ghost one = strategy_views(picked@);
            assert(picked@.len() == one.len());
            registry.set_vendor_override(q.vendor.as_str(), action, picked);
            Ok(
                StrategyOverride {
                    vendor: q.vendor.clone(),
                    action: q.action.clone(),
                    strategy: q.strategy.clone(),
                },
            )
        },
    }
}

/// Where a list has an entry for a vendor and an action, as they are written.
pub open spec fn entry_at(
    list: Seq<StrategyOverrideV>,
    vendor: Seq<char>,
    action: Seq<char>,
    i: int,
) -> Option<int>
    decreases list.len() - i,
{
    if i < 0 || i >= list.len() {
        None
    } else if list[i].vendor == vendor && list[i].action == action {
        Some(i)
    } else {
        entry_at(list, vendor, action, i + 1)
    }
}

/// The list with an entry in the place of the one for the same vendor and action, or at the end.
pub open spec fn with_entry(list: Seq<StrategyOverrideV>, o: StrategyOverrideV) -> Seq<
    StrategyOverrideV,
> {
    match entry_at(list, o.vendor, o.action, 0) {
        Some(i) => list.update(i, o),
        None => list.push(o),
    }
}

/// Puts a saved strategy among the overrides.
pub fn put_override(list: &mut Vec<StrategyOverride>, o: StrategyOverride)
    ensures
        override_views(final(list)@) == with_entry(override_views(old(list)@), o@),
{
    let ghost start = override_views(list@);
    let mut i: usize = 0;
    while i < list.len()
        invariant
            i <= list@.len(),
            list@ == old(list)@,
            start == override_views(list@),
            entry_at(start, o@.vendor, o@.action, 0) == entry_at(
                start,
                o@.vendor,
                o@.action,
                i as int,
            ),
        decreases list@.len() - i,
    {
        assert(start[i as int] == list@[i as int]@);
        if text::str_eq(list[i].vendor.as_str(), o.vendor.as_str()) && text::str_eq(
            list[i].action.as_str(),
            o.action.as_str(),
        ) {
            let ghost ov = o@;
            list.set(i, o);
            assert(override_views(list@) =~= start.update(i as int, ov));
            return;
        }
        i += 1;
    }
    let ghost ov = o@;
    list.push(o);
    assert(override_views(list@) =~= start.push(ov));
}

/// Answers whether a strategy was saved.
pub fn save_strategy_reply(saved: &Result<(), String>) -> (r: Reply)
    ensures
        r@ == (match *saved {
            Ok(()) => ok_reply("override saved and applied"@, None),
            Err(e) => err_reply(500, "save config: "@ + e@),
        }),
{
    match saved {
        Ok(()) => ok("override saved and applied", None),
        Err(e) => err(500, text::concat("save config: ", e.as_str()).as_str()),
    }
}

// ---------------------------------------------------------------------------
// Lists
// ---------------------------------------------------------------------------

/// The names of the strategies of a chain.
pub open spec fn strategy_names(chain: Seq<StrategyV>) -> Seq<Seq<char>> {
    chain.map_values(|s: StrategyV| s.name)
}

/// One action with the names of its default strategies.
pub open spec fn action_object(i: int) -> JsonV {
    JsonV::Object(
        json::no_fields().insert("action"@, JsonV::Text(ACTION_NAMES@[i]@)).insert(
            "strategies"@,
            JsonV::Array(
                json::text_values(
                    strategy_names(crate::strategies::default_chain_of(action_at(i))),
                ),
            ),
        ),
    )
}

fn chain_names(registry: &Registry, action: Action) -> (r: Vec<String>)
    requires
        registry.wf(),
    ensures
        text::views(r@) == strategy_names(crate::strategies::default_chain_of(action)),
{
    let chain = registry.default_chain(action);
    let ghost all = strategy_names(crate::strategies::default_chain_of(action));
    let mut out: Vec<String> = Vec::new();
    let mut i: usize = 0;
    while i < chain.len()
        invariant
            i <= chain@.len() == all.len(),
            all == strategy_names(crate::strategies::default_chain_of(action)),
            forall|k: int|
                0 <= k < chain@.len() ==> (#[trigger] chain@[k]).0@
                    == crate::strategies::default_chain_of(action)[k].name,
            text::views(out@) == all.take(i as int),
        decreases chain@.len() - i,
    {
        let ghost before = text::views(out@);
        out.push(chain[i].0.clone());
        i += 1;
        assert(text::views(out@) =~= before.push(all[i - 1]));
        assert(text::views(out@) =~= all.take(i as int));
    }
    assert(all.take(i as int) =~= all);
    out
}

/// `GET /api/dev/actions`.
pub fn actions(registry: &Registry) -> (r: Reply)
    requires
        registry.wf(),
    ensures
        r@ == ok_reply("actions"@, Some(JsonV::Array(Seq::new(30, |i: int| action_object(i))))),
{
    let ghost all = Seq::new(30, |i: int| action_object(i));
    let names = all_actions();
    let mut list: Vec<serde_json::Value> = Vec::new();
    let mut i: usize = 0;
    while i < 30
        invariant
            i <= 30 == names@.len(),
            registry.wf(),
            all == Seq::new(30, |i: int| action_object(i)),
            forall|k: int|
                0 <= k < 30 ==> (#[trigger] names@[k]).0@ == ACTION_NAMES@[k]@ && names@[k].1
                    == action_at(k),
            json::jsons(list@) == all.take(i as int),
        decreases 30 - i,
    {
        let ghost before = list@;
        let chain = chain_names(registry, names[i].1);
        let mut m = json::new_object();
        json::insert(&mut m, "action", json::text(names[i].0));
        json::insert(&mut m, "strategies", json::text_array(&chain));
        list.push(json::object_value(m));
        i += 1;
        assert(json::jsons(list@) =~= json::jsons(before).push(all[i - 1]));
        assert(json::jsons(list@) =~= all.take(i as int));
    }
    assert(all.take(i as int) =~= all);
    ok("actions", Some(json::array(list)))
}

/// The rows of a table, each a pair of name and number.
pub open spec fn table_rows(t: Seq<(Seq<char>, u8)>) -> Seq<JsonV> {
    t.map_values(
        |e: (Seq<char>, u8)| JsonV::Array(seq![JsonV::Text(e.0), JsonV::Int(e.1 as int)]),
    )
}

fn table_value(t: &Vec<(String, u8)>) -> (r: serde_json::Value)
    ensures
        json::json(r) == JsonV::Array(table_rows(table_view(t@))),
{
    let ghost all = table_rows(table_view(t@));
    let mut list: Vec<serde_json::Value> = Vec::new();
    let mut i: usize = 0;
    while i < t.len()
        invariant
            i <= t@.len(),
            all == table_rows(table_view(t@)),
            json::jsons(list@) == all.take(i as int),
        decreases t@.len() - i,
    {
        let ghost before = list@;
        let mut row: Vec<serde_json::Value> = Vec::new();
        row.push(json::text(t[i].0.as_str()));
        row.push(json::integer(t[i].1 as i64));
        assert(json::jsons(row@) =~= seq![
            JsonV::Text(t@[i as int].0@),
            JsonV::Int(t@[i as int].1 as int),
        ]);
        list.push(json::array(row));
        i += 1;
        assert(json::jsons(list@) =~= json::jsons(before).push(all[i - 1]));
        assert(json::jsons(list@) =~= all.take(i as int));
    }
    assert(all.take(i as int) =~= all);
    json::array(list)
}

/// The answer with a table of given entries, in order.
pub open spec fn table_answer(r: ReplyV, message: Seq<char>, entries: Seq<(Seq<char>, u8)>) -> bool {
    exists|t: Seq<(Seq<char>, u8)>|
        {
            &&& #[trigger] table_sorted(t)
            &&& t.to_multiset() == entries.to_multiset()
            &&& r == ok_reply(message, Some(JsonV::Array(table_rows(t))))
        }
}

/// `GET /api/dev/keys`: every key name with its code, by code and then by name.
pub fn keys() -> (r: Reply)
    ensures
        table_answer(r@, "keys"@, key_entries()),
{
    let t = keycode_names();
    assert(table_sorted(table_view(t@)));
    ok("keys", Some(table_value(&t)))
}

/// `GET /api/dev/opcodes`: the named opcodes, by number.
pub fn opcodes() -> (r: Reply)
    ensures
        table_answer(r@, "opcodes"@, opcode_entries()),
{
    let t = opcode_table();
    assert(table_sorted(table_view(t@)));
    ok("opcodes", Some(table_value(&t)))
}

// ---------------------------------------------------------------------------
// Laws
// ---------------------------------------------------------------------------

/// No time that a client chooses keeps the bus longer than the caps allow.
pub proof fn law_client_times_are_bounded(asked: Option<i64>, dflt: int)
    requires
        100 <= dflt <= MAX_OBSERVE_MS,
    ensures
        100 <= observe_time(asked, dflt) <= 5000,
        0 <= bounded(
            match asked {
                Some(n) => Some(n as int),
                None => None,
            },
            0,
            0,
            MAX_HOLD_MS as int,
        ) <= 2000,
        asked matches Some(n) ==> (100 <= n <= 5000 ==> observe_time(asked, dflt) == n),
{
}

/// A strategy that was saved is in force again when the saved overrides are applied at start: the
/// chain of its vendor and action is that strategy alone, where the list has one entry for a vendor
/// and an action and no other way to write the same.
pub proof fn law_saved_strategy_is_restored(
    list: Seq<StrategyOverrideV>,
    o: StrategyOverrideV,
    action: Action,
    strategy: StrategyV,
)
    requires
        crate::dispatch::picked(o) == Some((action, strategy)),
        vendor_form(o.vendor).len() > 0,
        forall|i: int, j: int|
            0 <= i < j < list.len() ==> !((#[trigger] list[i]).vendor == (
            #[trigger] list[j]).vendor && list[i].action == list[j].action),
        forall|i: int|
            0 <= i < list.len() && vendor_form((#[trigger] list[i]).vendor) == vendor_form(o.vendor)
                && action_named(action_form(list[i].action)) == Some(action) ==> list[i].vendor
                == o.vendor && list[i].action == o.action,
    ensures
        crate::dispatch::override_result(
            with_entry(list, o),
            vendor_form(o.vendor),
            action,
            None,
        ) == Some(seq![strategy]),
{
    lemma_entry(list, o.vendor, o.action, 0);
    let full = with_entry(list, o);
    let at = match entry_at(list, o.vendor, o.action, 0) {
        Some(i) => i,
        None => list.len() as int,
    };
    assert(full[at] == o);
    assert forall|i: int| at < i < full.len() implies !(vendor_form((#[trigger] full[i]).vendor)
        == vendor_form(o.vendor) && (crate::dispatch::picked(full[i]) matches Some(p) && p.0
        == action)) || crate::dispatch::picked(full[i]) == Some((action, strategy)) by {
        assert(full[i] == list[i]);
        assert(list[at].vendor == o.vendor && list[at].action == o.action);
    }
    lemma_last_counts(full, o, at, action, strategy, full.len() as int);
    assert(full.take(full.len() as int) =~= full);
}

proof fn lemma_entry(list: Seq<StrategyOverrideV>, vendor: Seq<char>, action: Seq<char>, i: int)
    requires
        0 <= i <= list.len(),
    ensures
        match entry_at(list, vendor, action, i) {
            Some(k) => i <= k < list.len() && list[k].vendor == vendor && list[k].action == action,
            None => forall|k: int|
                i <= k < list.len() ==> !((#[trigger] list[k]).vendor == vendor && list[k].action
                    == action),
        },
    decreases list.len() - i,
{
    if i < list.len() && !(list[i].vendor == vendor && list[i].action == action) {
        lemma_entry(list, vendor, action, i + 1);
    }
}

proof fn lemma_last_counts(
    full: Seq<StrategyOverrideV>,
    o: StrategyOverrideV,
    at: int,
    action: Action,
    strategy: StrategyV,
    n: int,
)
    requires
        0 <= at < n <= full.len(),
        full[at] == o,
        crate::dispatch::picked(o) == Some((action, strategy)),
        vendor_form(o.vendor).len() > 0,
        forall|i: int|
            at < i < full.len() ==> !(vendor_form((#[trigger] full[i]).vendor) == vendor_form(
                o.vendor,
            ) && (crate::dispatch::picked(full[i]) matches Some(p) && p.0 == action))
                || crate::dispatch::picked(full[i]) == Some((action, strategy)),
    ensures
        crate::dispatch::override_result(full.take(n), vendor_form(o.vendor), action, None) == Some(
            seq![strategy],
        ),
    decreases n,
{
    assert(full.take(n).last() == full[n - 1]);
    assert(full.take(n).drop_last() =~= full.take(n - 1));
    if at < n - 1 {
        lemma_last_counts(full, o, at, action, strategy, n - 1);
    }
}

/// A mode is set by its name or by the truth value, and the name counts where both are given. A
/// request for a reconnect is only that; a name of no mode, or nothing at all, is refused.
pub proof fn law_modes_are_set_by_name_or_flag(req: ModeBody, on: bool)
    ensures
        req.reconnect ==> mode_change(req) == Ok::<ModeChange, Seq<char>>(ModeChange::Reconnect),
        (!req.reconnect && (req.mode matches Some(m) && m@ == mode_text(on))) ==> mode_change(req)
            == Ok::<ModeChange, Seq<char>>(ModeChange::Monitor(on)),
        !req.reconnect && req.mode is None && req.monitor_only == Some(on) ==> mode_change(req)
            == Ok::<ModeChange, Seq<char>>(ModeChange::Monitor(on)),
        (!req.reconnect && (req.mode matches Some(m) && m@ != mode_text(true) && m@ != mode_text(
            false,
        ))) ==> mode_change(req) is Err,
        !req.reconnect && req.mode is None && req.monitor_only is None ==> mode_change(req) is Err,
        mode_text(true) == "monitor_only"@,
        mode_text(false) == "passive"@,
{
    reveal_strlit("passive");
    reveal_strlit("monitor_only");
    assert("passive"@.len() != "monitor_only"@.len());
}

/// A new mode is confirmed where it was saved, and is a server error with the reason where it was
/// not; a bare reconnect saves nothing.
pub proof fn law_mode_answers_tell_what_was_saved(on: bool, e: String, saved: Result<(), String>)
    ensures
        mode_answer(ModeChange::Monitor(on), Ok(())).status == 200,
        mode_answer(ModeChange::Monitor(on), Ok(())).body.status == "success"@,
        mode_answer(ModeChange::Monitor(true), Ok(())) != mode_answer(
            ModeChange::Monitor(false),
            Ok(()),
        ),
        mode_answer(ModeChange::Monitor(on), Err(e)) == err_reply(500, "save config: "@ + e@),
        mode_answer(ModeChange::Reconnect, saved).status == 200,
        mode_answer(ModeChange::Reconnect, saved).body.status == "success"@,
{
    reveal_strlit("mode set to monitor — reconnecting");
    reveal_strlit("mode set to passive — reconnecting");
    assert("mode set to monitor — reconnecting"@[12] != "mode set to passive — reconnecting"@[12]);
}

/// A number that a client chooses counts as it is within its bounds, and as the nearer bound
/// outside of them; without one the default does.
pub proof fn law_numbers_are_cut_to_bounds(n: int, dflt: int, min: int, max: int)
    requires
        min <= dflt <= max,
    ensures
        min <= bounded(Some(n), dflt, min, max) <= max,
        min <= n <= max ==> bounded(Some(n), dflt, min, max) == n,
        n < min ==> bounded(Some(n), dflt, min, max) == min,
        n > max ==> bounded(Some(n), dflt, min, max) == max,
        bounded(None, dflt, min, max) == dflt,
{
}

proof fn lemma_wanted(kind: Seq<char>, n: int)
    requires
        0 <= n <= 8,
    ensures
        wanted_probes(kind, n).len() <= n,
        forall|k: int|
            0 <= k < wanted_probes(kind, n).len() ==> 0 <= #[trigger] wanted_probes(kind, n)[k] < n,
        forall|j: int, k: int|
            0 <= j < k < wanted_probes(kind, n).len() ==> #[trigger] wanted_probes(kind, n)[j]
                < #[trigger] wanted_probes(kind, n)[k],
        forall|i: int|
            0 <= i < n ==> (#[trigger] wanted_probes(kind, n).contains(i) <==> kind == "all"@
                || text::starts_with(PROBE_KINDS@[i].0@, kind)),
    decreases n,
{
    if n > 0 {
        lemma_wanted(kind, n - 1);
        let before = wanted_probes(kind, n - 1);
        let all = wanted_probes(kind, n);
        assert forall|i: int| 0 <= i < n implies (#[trigger] all.contains(i) <==> kind == "all"@
            || text::starts_with(PROBE_KINDS@[i].0@, kind)) by {
            if i < n - 1 {
                if before.contains(i) {
                    let k = before.index_of(i);
                    assert(all[k] == i);
                }
                if all.contains(i) {
                    let k = all.index_of(i);
                    assert(before[k] == i);
                    assert(before.contains(i));
                }
            } else {
                if all.len() > before.len() {
                    assert(all[before.len() as int] == n - 1);
                }
            }
        }
    }
}

/// A probe of a kind makes those of the eight probes whose names begin so, each once and in order,
/// and `all` makes every one.
pub proof fn law_probes_of_a_kind(kind: Seq<char>, i: int)
    requires
        0 <= i < 8,
    ensures
        wanted_probes(kind, 8).contains(i) <==> kind == "all"@ || text::starts_with(
            PROBE_KINDS@[i].0@,
            kind,
        ),
        forall|j: int, k: int|
            0 <= j < k < wanted_probes(kind, 8).len() ==> #[trigger] wanted_probes(kind, 8)[j]
                < #[trigger] wanted_probes(kind, 8)[k],
        forall|k: int|
            0 <= k < wanted_probes(kind, 8).len() ==> 0 <= #[trigger] wanted_probes(kind, 8)[k] < 8,
{
    lemma_wanted(kind, 8);
}

/// The kind of a probe is read in any case of letters, and none stands for all.
pub proof fn law_kinds_are_read_in_any_case(kind: Seq<char>)
    ensures
        probe_kind(Seq::empty()) == "all"@,
        kind.len() > 0 ==> probe_kind(kind) == text::lower(kind),
{
}

/// A probe goes to the device that is asked, from the adapter or, where it has no address, from the
/// address for free use, and has no operand but for the menu request, which only asks.
pub proof fn law_probe_frames_ask_the_device(
    opcode: u8,
    own: LogicalAddress,
    address: u8,
)
    ensures
        probe_frame(opcode, Some(own), address).destination == address,
        probe_frame(opcode, Some(own), address).initiator == own.0,
        probe_frame(opcode, None, address).initiator == 14,
        probe_frame(opcode, None, address).destination == address,
        probe_frame(opcode, None, address).opcode == opcode,
        probe_frame(opcode, Some(own), address).opcode == opcode,
        probe_frame(opcode, Some(own), address).opcode_set,
        opcode != 0x8D ==> probe_frame(opcode, Some(own), address).parameters.len() == 0,
        opcode == 0x8D ==> probe_frame(opcode, Some(own), address).parameters == seq![2u8],
{
}

/// A probe is made where the address is that of a device, the adapter is there and may transmit,
/// and the kind is one; it is refused otherwise, as unavailable only for want of an adapter.
pub proof fn law_probes_need_a_device_and_an_adapter(session: Option<Connection>, q: ProbeRequest)
    ensures
        probe_refusal(session, None) is Some,
        probe_refusal(session, Some(q)) is None <==> 0 <= q.address <= 14 && (session matches Some(
            c,
        ) && !c.monitor_only) && exists|i: int|
            0 <= i < 8 && (probe_kind(q.kind@) == "all"@ || text::starts_with(
                (#[trigger] PROBE_KINDS@[i]).0@,
                probe_kind(q.kind@),
            )),
        probe_refusal(session, Some(q)) matches Some(r) ==> r.body.status == "error"@ && (r.status
            == 503 <==> session is None && 0 <= q.address <= 14) && (r.status == 409
            <==> (session matches Some(c) && c.monitor_only) && 0 <= q.address <= 14),
{
    let kind = probe_kind(q.kind@);
    let w = wanted_probes(kind, 8);
    lemma_wanted(kind, 8);
    if w.len() > 0 {
        let i = w[0];
        assert(w.contains(i));
        assert(kind == "all"@ || text::starts_with(PROBE_KINDS@[i].0@, kind));
    } else {
        assert forall|i: int| 0 <= i < 8 implies !(kind == "all"@ || text::starts_with(
            (#[trigger] PROBE_KINDS@[i]).0@,
            kind,
        )) by {
            assert(!w.contains(i));
        }
    }
}

/// A step of a probe that was sent is `ok` exactly where something came in; one that could not be
/// sent is an error with its reason.
pub proof fn law_probe_steps_tell_the_outcome(
    probe: int,
    e: CecError,
    elapsed_ms: i64,
    frames: Seq<FrameV>,
)
    ensures
        json::text_field(probe_step(probe, Some(e), elapsed_ms, frames), "result"@) == Some(
            "error"@,
        ),
        json::text_field(probe_step(probe, Some(e), elapsed_ms, frames), "error"@) == Some(
            cec_error_text(e),
        ),
        frames.len() > 0 ==> json::text_field(
            probe_step(probe, None, elapsed_ms, frames),
            "result"@,
        ) == Some("ok"@),
        frames.len() == 0 ==> json::text_field(
            probe_step(probe, None, elapsed_ms, frames),
            "result"@,
        ) == Some("no_reply"@),
        json::text_field(probe_step(probe, None, elapsed_ms, frames), "name"@) == Some(
            PROBE_KINDS@[probe].0@,
        ),
        json::int_field(probe_step(probe, None, elapsed_ms, frames), "elapsed_ms"@) == Some(
            elapsed_ms as int,
        ),
        probe_replies(frames).len() == frames.len(),
        forall|i: int|
            0 <= i < frames.len() ==> json::text_field(
                #[trigger] probe_replies(frames)[i],
                "opcode"@,
            ) == Some(frames[i].opcode),
{
    reveal_strlit("result");
    reveal_strlit("error");
    reveal_strlit("name");
    reveal_strlit("opcode");
    reveal_strlit("elapsed_ms");
    reveal_strlit("replies");
    reveal_strlit("params");
    assert("result"@[0] != "opcode"@[0]);
    assert("params"@[0] != "opcode"@[0]);
    assert("elapsed_ms"@.len() == 10);
    assert("replies"@.len() == 7);
    assert("error"@.len() == 5);
    assert("result"@.len() == 6);
    assert("name"@.len() == 4);
}

/// Keys that were all sent are answered with their messages, and a key that was not is answered
/// as the error it is.
pub proof fn law_bursts_end_at_the_first_failure(messages: Seq<String>, e: ExecError)
    ensures
        burst_reply(messages, None).status == 200,
        burst_reply(messages, None).body.message == text::joined(text::views(messages), "; "@),
        burst_reply(messages, Some(e)).status != 200,
        burst_reply(messages, Some(e)).body.status == "error"@,
{
}

proof fn lemma_without_ws(s: Seq<char>)
    ensures
        without_ws(s) == s.filter(|c: char| !text::is_ws(c)),
    decreases s.len(),
{
    reveal(Seq::filter);
    if s.len() > 0 {
        lemma_without_ws(s.drop_last());
    }
}

/// Bytes in hexadecimal, two digits each.
pub open spec fn byte_text(bytes: Seq<u8>, upper: bool) -> Seq<char> {
    Seq::new(
        2 * bytes.len(),
        |i: int|
            text::hex_char(
                if i % 2 == 0 {
                    bytes[i / 2] as int / 16
                } else {
                    bytes[i / 2] as int % 16
                },
                upper,
            ),
    )
}

proof fn lemma_byte_pairs(bytes: Seq<u8>, upper: bool, k: int)
    requires
        0 <= k <= bytes.len(),
    ensures
        byte_pairs(encode_utf8(byte_text(bytes, upper)), 2 * k) == Some(bytes.skip(k)),
    decreases bytes.len() - k,
{
    let t = byte_text(bytes, upper);
    assert(vstd::utf8::is_ascii_chars(t));
    vstd::utf8::is_ascii_chars_encode_utf8(t);
    let d = encode_utf8(t);
    if k < bytes.len() {
        lemma_byte_pairs(bytes, upper, k + 1);
        let b = bytes[k];
        assert((2 * k) / 2 == k && (2 * k) % 2 == 0 && (2 * k + 1) / 2 == k && (2 * k + 1) % 2
            == 1);
        assert(t[2 * k] == text::hex_char(b as int / 16, upper));
        assert(t[2 * k + 1] == text::hex_char(b as int % 16, upper));
        assert(d[2 * k] == t[2 * k] as u8);
        assert(d[2 * k + 1] == t[2 * k + 1] as u8);
        assert(d[2 * k] as char == t[2 * k]);
        assert(d[2 * k + 1] as char == t[2 * k + 1]);
        assert(escaped_byte(d[2 * k], d[2 * k + 1]) == Some(b));
        assert(bytes.skip(k) =~= seq![b] + bytes.skip(k + 1));
        assert(2 * k + 2 == 2 * (k + 1));
    } else {
        assert(bytes.skip(k) =~= Seq::empty());
    }
}

/// Bytes that are written in hexadecimal read back, with or without `0x` in front and with white
/// space anywhere.
pub proof fn law_written_bytes_read_back(s: Seq<char>, bytes: Seq<u8>, upper: bool)
    requires
        ({
            let t = s.filter(|c: char| !text::is_ws(c));
            t == byte_text(bytes, upper) || t == "0x"@ + byte_text(bytes, upper)
        }),
    ensures
        hex_bytes(s) == Ok::<Seq<u8>, Seq<char>>(bytes),
{
    lemma_without_ws(s);
    reveal_strlit("0x");
    let t = byte_text(bytes, upper);
    if text::starts_with(t, "0x"@) {
        assert(t.take(2)[1] == 'x');
        assert(t[1] == 'x');
    }
    let p = "0x"@ + t;
    assert(p.take(2) =~= "0x"@);
    assert(p.skip(2) =~= t);
    assert(vstd::utf8::is_ascii_chars(t));
    vstd::utf8::is_ascii_chars_encode_utf8(t);
    lemma_byte_pairs(bytes, upper, 0);
    assert(bytes.skip(0) =~= bytes);
}

proof fn lemma_pairs_are_digits(d: Seq<u8>, i: int, k: int)
    requires
        0 <= i <= k < d.len(),
        i % 2 == 0,
        d.len() % 2 == 0,
        byte_pairs(d, i) is Some,
    ensures
        text::hex_digit_value(d[k] as char) is Some || d[k] == 43,
    decreases d.len() - i,
{
    if k >= i + 2 {
        lemma_pairs_are_digits(d, i + 2, k);
    }
}

/// Half a byte, or a character that is no digit, makes a text no bytes.
pub proof fn law_other_texts_are_no_bytes(s: Seq<char>, t: Seq<char>, k: int)
    requires
        t == s.filter(|c: char| !text::is_ws(c)),
        vstd::utf8::is_ascii_chars(t),
        !text::starts_with(t, "0x"@),
    ensures
        t.len() % 2 != 0 ==> hex_bytes(s) is Err,
        0 <= k < t.len() && t[k] != '+' && text::hex_digit_value(t[k]) is None ==> hex_bytes(
            s,
        ) is Err,
        hex_bytes(s) matches Ok(v) ==> 2 * v.len() == t.len(),
{
    lemma_without_ws(s);
    vstd::utf8::is_ascii_chars_encode_utf8(t);
    let d = encode_utf8(t);
    if d.len() % 2 == 0 && byte_pairs(d, 0) is Some {
        lemma_pairs_count(d, 0);
        if 0 <= k < t.len() {
            assert(d[k] == t[k] as u8);
            assert(d[k] as char == t[k]);
            lemma_pairs_are_digits(d, 0, k);
        }
    }
}

proof fn lemma_pairs_count(d: Seq<u8>, i: int)
    requires
        0 <= i <= d.len(),
        i % 2 == 0,
        d.len() % 2 == 0,
    ensures
        byte_pairs(d, i) matches Some(v) ==> 2 * v.len() == d.len() - i,
    decreases d.len() - i,
{
    if i < d.len() {
        lemma_pairs_count(d, i + 2);
    }
}

/// An opcode is sent where its destination, its opcode and its parameters can stand in a frame and
/// the adapter may transmit; it is refused otherwise.
pub proof fn law_opcodes_are_sent_that_fit_a_frame(
    session: Option<Connection>,
    q: SendOpcodeRequest,
)
    ensures
        opcode_refusal(session, None) is Some,
        opcode_refusal(session, Some(q)) is None <==> 0 <= q.destination <= 15 && 0 <= q.opcode
            <= 255 && (hex_bytes(q.params_hex@) matches Ok(p) && p.len() <= 14) && (
        session matches Some(c) && !c.monitor_only),
        opcode_refusal(session, Some(q)) matches Some(r) ==> r.body.status == "error"@ && (
        r.status == 503 ==> session is None) && (r.status == 409 ==> (session matches Some(c)
            && c.monitor_only)) && (r.status == 400 || r.status == 503 || r.status == 409),
{
}

/// A run is for the device that is named; -1 or nothing names none, and every other number is
/// refused.
pub proof fn law_runs_are_for_the_named_device(n: i32)
    ensures
        0 <= n <= 14 ==> (run_target(Some(n)) matches Ok(Some(t)) && t.0 == n),
        run_target(None) == Ok::<Option<LogicalAddress>, Seq<char>>(None),
        run_target(Some(n)) == Ok::<Option<LogicalAddress>, Seq<char>>(None) <==> n == -1,
        run_target(Some(n)) is Err <==> n < -1 || n > 14,
{
}

/// Strategies are run for a known action, on a device or none, with an adapter that may transmit;
/// a run is refused otherwise.
pub proof fn law_runs_need_an_action_and_an_adapter(
    session: Option<Connection>,
    q: RunStrategiesRequest,
)
    ensures
        run_refusal(session, None) is Some,
        run_refusal(session, Some(q)) is None <==> action_named(action_form(q.action@)) is Some
            && (q.target matches Some(t) ==> -1 <= t <= 14) && (session matches Some(c)
            && !c.monitor_only),
        run_refusal(session, Some(q)) matches Some(r) ==> r.body.status == "error"@ && (r.status
            == 503 ==> session is None) && (r.status == 409 ==> (session matches Some(c)
            && c.monitor_only)) && (r.status == 400 || r.status == 503 || r.status == 409),
{
}

/// A saved override takes the place of the one for the same vendor and action and leaves every
/// other as it is; a new one comes at the end.
pub proof fn law_saved_override_replaces_its_own(
    list: Seq<StrategyOverrideV>,
    o: StrategyOverrideV,
    k: int,
)
    requires
        0 <= k < list.len(),
    ensures
        with_entry(list, o).contains(o),
        !(list[k].vendor == o.vendor && list[k].action == o.action) ==> with_entry(list, o)[k]
            == list[k],
        with_entry(list, o).len() == list.len() + (if exists|i: int|
            0 <= i < list.len() && (#[trigger] list[i]).vendor == o.vendor && list[i].action
                == o.action {
            0int
        } else {
            1int
        }),
{
    lemma_entry(list, o.vendor, o.action, 0);
    let full = with_entry(list, o);
    let at = match entry_at(list, o.vendor, o.action, 0) {
        Some(i) => i,
        None => list.len() as int,
    };
    assert(full[at] == o);
}

/// A saved strategy is a default one of its action, under the name that was asked for; an unknown
/// action is a bad request, and an unknown name is not found.
pub proof fn law_saved_strategies_are_defaults(q: SaveStrategyRequest, registry: Registry)
    ensures
        saved_strategy(Some(q), registry) matches Ok((a, s)) ==> s.name == q.strategy@
            && action_named(action_form(q.action@)) == Some(a) && registry.chain_for(
            ""@,
            a,
        ).contains(s),
        action_named(action_form(q.action@)) is None ==> (saved_strategy(
            Some(q),
            registry,
        ) matches Err(r) && r.status == 400),
        action_named(action_form(q.action@)) matches Some(a) && (forall|i: int|
            0 <= i < registry.chain_for(""@, a).len() ==> (#[trigger] registry.chain_for(
                ""@,
                a,
            )[i]).name != q.strategy@) ==> (saved_strategy(Some(q), registry) matches Err(r)
            && r.status == 404),
{
    if let Some(a) = action_named(action_form(q.action@)) {
        lemma_strategy_place(registry.chain_for(""@, a), q.strategy@, 0);
    }
}

proof fn lemma_strategy_place(chain: Seq<StrategyV>, name: Seq<char>, i: int)
    requires
        0 <= i <= chain.len(),
    ensures
        match strategy_at(chain, name, i) {
            Some(k) => i <= k < chain.len() && chain[k].name == name,
            None => forall|k: int| i <= k < chain.len() ==> (#[trigger] chain[k]).name != name,
        },
    decreases chain.len() - i,
{
    if i < chain.len() && chain[i].name != name {
        lemma_strategy_place(chain, name, i + 1);
    }
}

/// The list of actions names each with its default strategies, in order.
pub proof fn law_actions_are_listed_with_their_strategies(i: int)
    requires
        0 <= i < ACTION_NAMES@.len(),
    ensures
        json::text_field(action_object(i), "action"@) == Some(action_text(action_at(i))),
        strategy_names(crate::strategies::default_chain_of(action_at(i))).len()
            == crate::strategies::default_chain_of(action_at(i)).len(),
        forall|k: int|
            0 <= k < crate::strategies::default_chain_of(action_at(i)).len()
                ==> #[trigger] strategy_names(crate::strategies::default_chain_of(action_at(i)))[k]
                == crate::strategies::default_chain_of(action_at(i))[k].name,
{
    reveal_strlit("action");
    reveal_strlit("strategies");
    assert("action"@.len() != "strategies"@.len());
}

/// A key is sent again as long as no send failed and fewer were made than asked for.
pub proof fn law_bursts_go_on_until_done(b: BurstRun)
    ensures
        b.error is Some ==> !b.goes_on(),
        b.messages@.len() >= b.burst.repeat ==> !b.goes_on(),
        b.error is None && b.messages@.len() < b.burst.repeat ==> b.goes_on(),
{
}

/// A table is told with every entry once, as its name and its number, sorted.
pub proof fn law_tables_are_told_whole(t: Seq<(Seq<char>, u8)>, i: int)
    requires
        0 <= i < t.len(),
    ensures
        table_rows(t).len() == t.len(),
        table_rows(t)[i] matches JsonV::Array(row) && row.len() == 2 && row[0] == JsonV::Text(
            t[i].0,
        ) && row[1] == JsonV::Int(t[i].1 as int),
{
}

/// The answer with a table is a success that holds every entry as often as the table does.
pub proof fn law_table_answers_hold_every_entry(
    r: ReplyV,
    message: Seq<char>,
    entries: Seq<(Seq<char>, u8)>,
)
    requires
        table_answer(r, message, entries),
    ensures
        r.status == 200,
        r.body.message == message,
        r.body.data matches Some(JsonV::Array(rows)) && rows.len() == entries.len(),
{
    let t = choose|t: Seq<(Seq<char>, u8)>|
        {
            &&& #[trigger] table_sorted(t)
            &&& t.to_multiset() == entries.to_multiset()
            &&& r == ok_reply(message, Some(JsonV::Array(table_rows(t))))
        };
    t.to_multiset_ensures();
    entries.to_multiset_ensures();
    assert(t.len() == entries.len());
}

} // verus!
