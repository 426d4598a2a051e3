//! MQTT bridge: the broker address, the topics, and the state of the link.

use crate::json;
use crate::text;
use crate::types::{AppEvent, MqttConfig};
use vstd::prelude::*;
use vstd::utf8::encode_utf8;

verus! {

/// One inbound command.
#[derive(Debug)]
pub struct MqttCommand {
    /// What follows `{prefix}/command/` in the topic, e.g. "power/on", "key".
    pub action: String,
    pub payload: Vec<u8>,
}

/// The port that a broker listens on where none is given.
pub const DEFAULT_PORT: u16 = 1883;

/// Seconds between keep-alive messages.
pub const KEEP_ALIVE_SECS: u64 = 30;

/// Seconds to wait after the link failed.
pub const RETRY_SECS: u64 = 5;

/// The broker without its scheme.
pub open spec fn without_scheme(broker: Seq<char>) -> Seq<char> {
    if text::starts_with(broker, "tcp://"@) {
        broker.skip("tcp://"@.len() as int)
    } else if text::starts_with(broker, "ssl://"@) {
        broker.skip("ssl://"@.len() as int)
    } else {
        broker
    }
}

/// The host and port of a broker: the port after the last colon, or the default where there is
/// none or it is no port.
pub open spec fn broker_address(broker: Seq<char>) -> (Seq<char>, int) {
    match text::cut_last(without_scheme(broker), ':') {
        Some((h, p)) => (
            h,
            match text::parse_nat(p, 65535) {
                Some(n) => n as int,
                None => DEFAULT_PORT as int,
            },
        ),
        None => (without_scheme(broker), DEFAULT_PORT as int),
    }
}

/// A message to publish.
#[derive(Debug)]
pub struct MqttMessage {
    pub topic: String,
    pub payload: Vec<u8>,
    /// Whether the broker keeps it for late subscribers.
    pub retain: bool,
}

/// What a link to a broker is opened with.
#[derive(Debug)]
pub struct MqttPlan {
    pub host: String,
    pub port: u16,
    /// User and password, where a user is configured.
    pub credentials: Option<(String, String)>,
    /// What the broker publishes where the link ends uncleanly.
    pub will: MqttMessage,
    /// What is subscribed to.
    pub command_filter: String,
    pub prefix: String,
}

/// Splits a broker into host and port.
pub fn split_broker(broker: &str) -> (r: (String, u16))
    ensures
        (r.0@, r.1 as int) == broker_address(broker@),
{
    let rest = match text::strip_prefix(broker, "tcp://") {
        Some(t) => t,
        None => match text::strip_prefix(broker, "ssl://") {
            Some(t) => t,
            None => broker,
        },
    };
    match text::rsplit_once(rest, ':') {
        Some((h, p)) => {
            let port: u16 = match text::parse_u64(p, 65535) {
                Some(n) => n as u16,
                None => DEFAULT_PORT,
            };
            (h.to_owned(), port)
        },
        None => (rest.to_owned(), DEFAULT_PORT),
    }
}

/// `m` tells that the bridge is there or not: a retained message on the availability topic.
pub open spec fn tells_status(m: MqttMessage, prefix: Seq<char>, online: bool) -> bool {
    &&& m.topic@ == prefix + "/status"@
    &&& m.payload@ == encode_utf8(
        if online {
            "online"@
        } else {
            "offline"@
        },
    )
    &&& m.retain
}

/// The message that tells whether the bridge is there.
pub fn status_message(prefix: &str, online: bool) -> (r: MqttMessage)
    ensures
        tells_status(r, prefix@, online),
{
    let text = if online { "online" } else { "offline" };
    MqttMessage {
        topic: text::concat(prefix, "/status"),
        payload: text.as_bytes_vec(),
        retain: true,
    }
}

/// The topic of an event.
pub fn event_topic(prefix: &str, kind: &str) -> (r: String)
    ensures
        r@ == prefix@ + "/event/"@ + kind@,
{
    text::concat3(prefix, "/event/", kind)
}

/// The command in a topic: what follows `{prefix}/command/`; other topics have none.
pub open spec fn command_of(prefix: Seq<char>, topic: Seq<char>) -> Option<Seq<char>> {
    if text::starts_with(topic, prefix + "/command/"@) {
        Some(topic.skip((prefix + "/command/"@).len() as int))
    } else {
        None
    }
}

/// The command in a topic: what follows `{prefix}/command/`; other topics have none.
pub fn command_action(prefix: &str, topic: &str) -> (r: Option<String>)
    ensures
        match r {
            Some(a) => text::starts_with(topic@, prefix@ + "/command/"@) && a@ == topic@.skip(
                (prefix@ + "/command/"@).len() as int,
            ),
            None => !text::starts_with(topic@, prefix@ + "/command/"@),
        },
        match r {
            Some(a) => command_of(prefix@, topic@) == Some(a@),
            None => command_of(prefix@, topic@) is None,
        },
{
    let head = text::concat(prefix, "/command/");
    match text::strip_prefix(topic, head.as_str()) {
        Some(a) => Some(a.to_owned()),
        None => None,
    }
}

/// What a link is opened with; none where no broker is configured.
pub fn start(cfg: &MqttConfig) -> (r: Option<MqttPlan>)
    ensures
        match r {
            Some(p) => {
                &&& cfg.broker@.len() > 0
                &&& (p.host@, p.port as int) == broker_address(cfg.broker@)
                &&& match p.credentials {
                    Some((u, w)) => cfg.user@.len() > 0 && u@ == cfg.user@ && w@ == cfg.pass@,
                    None => cfg.user@.len() == 0,
                }
                &&& tells_status(p.will, cfg.prefix@, false)
                &&& p.command_filter@ == cfg.prefix@ + "/command/#"@
                &&& p.prefix@ == cfg.prefix@
            },
            None => cfg.broker@.len() == 0,
        },
{
    if cfg.broker.as_str().is_empty() {
        return None;
    }
    let (host, port) = split_broker(cfg.broker.as_str());
    let prefix = cfg.prefix.as_str();
    let credentials = if cfg.user.as_str().is_empty() {
        None
    } else {
        Some((cfg.user.clone(), cfg.pass.clone()))
    };
    Some(
        MqttPlan {
            host,
            port,
            credentials,
            will: status_message(prefix, false),
            command_filter: text::concat(prefix, "/command/#"),
            prefix: cfg.prefix.clone(),
        },
    )
}

// ---------------------------------------------------------------------------
// The link
// ---------------------------------------------------------------------------

/// What happened on the link.
#[derive(Debug, Clone, Copy, PartialEq, Eq, Structural)]
pub enum LinkEvent {
    /// The broker accepted the connection.
    Connected,
    /// A message came; whether its topic is a command.
    Message { command: bool },
    /// The subscription was sent.
    Subscribed,
    /// Anything else.
    Other,
    /// The link failed.
    Failed,
}

/// What to do about it.
#[derive(Debug, Clone, Copy, PartialEq, Eq, Structural)]
pub struct LinkAction {
    /// Hand the message on as a command.
    pub deliver: bool,
    /// Wait before the next event.
    pub pause: bool,
    /// Subscribe to the commands and publish `online`.
    pub announce: bool,
}

/// The state of the link to the broker.
#[derive(Debug, Clone, Copy, PartialEq, Eq, Structural)]
pub struct MqttHandle {
    pub connected: bool,
    pub subscribed: bool,
}

impl MqttHandle {
    pub fn new() -> (r: MqttHandle)
        ensures
            r == (MqttHandle { connected: false, subscribed: false }),
    {
        MqttHandle { connected: false, subscribed: false }
    }

    pub fn is_connected(&self) -> (r: bool)
        ensures
            r == self.connected,
    {
        self.connected
    }

    /// The link is closed.
    pub fn stop(&mut self)
        ensures
            *final(self) == (MqttHandle { connected: false, subscribed: false }),
    {
        self.connected = false;
        self.subscribed = false;
    }

    /// The message that an event is published with: the JSON of its data, retained, so that late
    /// subscribers see the current value. Nothing is published while the link is down.
    pub fn event_message(&self, prefix: &str, ev: &AppEvent) -> (r: Option<MqttMessage>)
        ensures
            r is Some <==> self.connected,
            r matches Some(m) ==> m.topic@ == prefix@ + "/event/"@ + ev@.kind && m.payload@
                == encode_utf8(json::json_text(ev@.data)) && m.retain,
    {
        if !self.connected {
            return None;
        }
        let data = json::format(&ev.data);
        Some(
            MqttMessage {
                topic: event_topic(prefix, ev.kind.as_str()),
                payload: data.as_str().as_bytes_vec(),
                retain: true,
            },
        )
    }

    /// The link after an event.
    pub open spec fn after(self, event: LinkEvent) -> MqttHandle {
        match event {
            LinkEvent::Connected => MqttHandle { connected: true, subscribed: false },
            LinkEvent::Message { .. } => self,
            LinkEvent::Subscribed => MqttHandle { subscribed: true, ..self },
            LinkEvent::Other => self,
            LinkEvent::Failed => MqttHandle { connected: false, subscribed: false },
        }
    }

    /// What to do about an event that left the link as it is.
    pub open spec fn asks(self, event: LinkEvent) -> LinkAction {
        LinkAction {
            deliver: event == (LinkEvent::Message { command: true }),
            pause: event == LinkEvent::Failed,
            announce: event != (LinkEvent::Message { command: false }) && self.connected
                && !self.subscribed,
        }
    }

    /// Takes in an event. As long as the link is up and the subscription has not been sent, each
    /// event is a reason to subscribe and to publish `online`; a message that is no command is
    /// passed over.
    pub fn on_event(&mut self, event: LinkEvent) -> (r: LinkAction)
        ensures
            *final(self) == old(self).after(event),
            r == final(self).asks(event),
    {
        let mut deliver = false;
        let mut pause = false;
        match event {
            LinkEvent::Connected => {
                self.connected = true;
                self.subscribed = false;
            },
            LinkEvent::Message { command } => {
                if !command {
                    return LinkAction { deliver: false, pause: false, announce: false };
                }
                deliver = true;
            },
            LinkEvent::Subscribed => {
                self.subscribed = true;
            },
            LinkEvent::Other => {},
            LinkEvent::Failed => {
                self.connected = false;
                self.subscribed = false;
                pause = true;
            },
        }
        LinkAction { deliver, pause, announce: self.connected && !self.subscribed }
    }
}

impl Default for MqttHandle {
    fn default() -> (r: MqttHandle)
        ensures
            r == (MqttHandle { connected: false, subscribed: false }),
    {
        MqttHandle::new()
    }
}

/// A command that is published under its topic comes back as that command.
pub proof fn law_command_topic_round_trip(prefix: Seq<char>, action: Seq<char>)
    ensures
        text::starts_with(prefix + "/command/"@ + action, prefix + "/command/"@),
        (prefix + "/command/"@ + action).skip((prefix + "/command/"@).len() as int) == action,
{
    let head = prefix + "/command/"@;
    assert((head + action).take(head.len() as int) =~= head);
    assert((head + action).skip(head.len() as int) =~= action);
}

/// A command comes under the topic of its prefix, whole and unchanged, and no topic of another
/// shape is a command; neither the availability topic nor an event topic is one.
pub proof fn law_only_command_topics_are_commands(
    prefix: Seq<char>,
    topic: Seq<char>,
    action: Seq<char>,
)
    ensures
        command_of(prefix, prefix + "/command/"@ + action) == Some(action),
        command_of(prefix, topic) matches Some(a) ==> topic == prefix + "/command/"@ + a,
        command_of(prefix, prefix + "/status"@) is None,
        command_of(prefix, prefix + "/event/"@ + action) is None,
{
    reveal_strlit("/command/");
    reveal_strlit("/status");
    reveal_strlit("/event/");
    let head = prefix + "/command/"@;
    let n = prefix.len() as int;
    law_command_topic_round_trip(prefix, action);
    if text::starts_with(topic, head) {
        assert(topic =~= topic.take(head.len() as int) + topic.skip(head.len() as int));
    }
    let st = prefix + "/status"@;
    assert(st.len() < head.len());
    let ev = prefix + "/event/"@ + action;
    if text::starts_with(ev, head) {
        assert(head[n + 1] == 'c');
        assert(ev[n + 1] == 'e');
        assert(ev.take(head.len() as int)[n + 1] == ev[n + 1]);
    }
}

/// Whether the bridge is there is told on one topic, and kept by the broker: "online" and "offline"
/// replace one another there.
pub proof fn law_status_messages_replace_one_another(
    up: MqttMessage,
    down: MqttMessage,
    prefix: Seq<char>,
)
    requires
        tells_status(up, prefix, true),
        tells_status(down, prefix, false),
    ensures
        up.topic@ == down.topic@,
        up.topic@ == prefix + "/status"@,
        up.retain && down.retain,
        vstd::utf8::decode_utf8(up.payload@) == "online"@,
        vstd::utf8::decode_utf8(down.payload@) == "offline"@,
        up.payload@ != down.payload@,
{
    reveal_strlit("online");
    reveal_strlit("offline");
    vstd::utf8::encode_utf8_decode_utf8("online"@);
    vstd::utf8::encode_utf8_decode_utf8("offline"@);
    assert("online"@.len() != "offline"@.len());
}

/// After the broker accepted the connection, the bridge subscribes and says that it is there, until
/// the subscription was sent; once it was, it does so no more, and after a failure not before the
/// next connection. A command is handed on in every state.
pub proof fn law_bridge_announces_itself(h: MqttHandle, event: LinkEvent)
    ensures
        h.after(LinkEvent::Connected).asks(LinkEvent::Connected).announce,
        h.after(LinkEvent::Connected).connected,
        h.subscribed ==> !h.after(LinkEvent::Other).asks(LinkEvent::Other).announce,
        h.connected ==> h.after(LinkEvent::Subscribed).connected && h.after(
            LinkEvent::Subscribed,
        ).subscribed && !h.after(LinkEvent::Subscribed).asks(LinkEvent::Subscribed).announce,
        !h.after(LinkEvent::Failed).connected && !h.after(LinkEvent::Failed).asks(
            LinkEvent::Failed,
        ).announce && h.after(LinkEvent::Failed).asks(LinkEvent::Failed).pause,
        !h.connected && event != LinkEvent::Connected ==> !h.after(event).connected && !h.after(
            event,
        ).asks(event).announce,
        h.after(event).asks(event).deliver == (event == LinkEvent::Message { command: true }),
        h.after(LinkEvent::Message { command: true }) == h,
        h.after(LinkEvent::Message { command: false }) == h,
        h.after(LinkEvent::Other) == h,
        event != LinkEvent::Failed ==> !h.after(event).asks(event).pause,
{
}

/// A broker is read as its host and port, with either scheme or none; where no port is given, or
/// what stands there is none, the port is 1883.
pub proof fn law_brokers_read_back(host: Seq<char>, port: u16)
    requires
        !host.contains(':'),
    ensures
        broker_address(host) == (host, 1883int),
        broker_address("tcp://"@ + host) == (host, 1883int),
        broker_address("ssl://"@ + host) == (host, 1883int),
        broker_address(host.push(':') + text::dec(port as nat)) == (host, port as int),
        broker_address("tcp://"@ + (host.push(':') + text::dec(port as nat))) == (
            host,
            port as int,
        ),
        broker_address("ssl://"@ + (host.push(':') + text::dec(port as nat))) == (
            host,
            port as int,
        ),
{
    let full = host.push(':') + text::dec(port as nat);
    text::lemma_dec_round_trip(port as nat);
    lemma_bare_broker(host, Seq::empty(), false);
    lemma_bare_broker(host, text::dec(port as nat), true);
    lemma_schemes(host);
    lemma_schemes(full);
    assert(text::is_digit(text::dec(port as nat)[0]));
    assert forall|i: int| 0 <= i < text::dec(port as nat).len() implies #[trigger] text::dec(
        port as nat,
    )[i] != ':' by {
        assert(text::is_digit(text::dec(port as nat)[i]));
    }
    assert(!text::dec(port as nat).contains(':'));
    text::law_cut_at_the_last(host, ':');
    if let Some((a, b)) = text::cut_last(host, ':') {
        assert(host[a.len() as int] == ':');
    }
    text::law_cut_at_the_last(full, ':');
    assert(full[host.len() as int] == ':');
    match text::cut_last(full, ':') {
        Some((a, b)) => {
            assert((a.push(':') + b)[a.len() as int] == ':');
            if a.len() < host.len() {
                assert(host[a.len() as int] == full[a.len() as int]);
                assert(host.contains(':'));
            } else if a.len() > host.len() {
                let k = a.len() - host.len() - 1;
                assert(full[a.len() as int] == text::dec(port as nat)[k]);
            }
            assert(a =~= host) by {
                assert(full.take(host.len() as int) =~= host);
                assert((a.push(':') + b).take(a.len() as int) =~= a);
            }
            assert(b =~= text::dec(port as nat)) by {
                assert(full.skip(host.len() as int + 1) =~= text::dec(port as nat));
                assert((a.push(':') + b).skip(a.len() as int + 1) =~= b);
            }
        },
        None => {},
    }
}

/// A host without colon, alone or with a port of digits, has no scheme.
proof fn lemma_bare_broker(host: Seq<char>, digits: Seq<char>, colon: bool)
    requires
        !host.contains(':'),
        colon ==> text::all_digits(digits),
    ensures
        ({
            let t = if colon {
                host.push(':') + digits
            } else {
                host
            };
            without_scheme(t) == t
        }),
{
    reveal_strlit("tcp://");
    reveal_strlit("ssl://");
    let t = if colon {
        host.push(':') + digits
    } else {
        host
    };
    if text::starts_with(t, "tcp://"@) || text::starts_with(t, "ssl://"@) {
        assert(t.take(6)[3] == ':' && t.take(6)[4] == '/');
        assert(t[3] == ':' && t[4] == '/');
        if host.len() > 3 {
            assert(host[3] == ':');
        } else if colon {
            assert(host.len() <= 3);
            if host.len() == 3 {
                assert(t[4] == digits[0]);
            } else {
                assert(t[3] == digits[2 - host.len()]);
            }
        }
    }
}

proof fn lemma_schemes(t: Seq<char>)
    ensures
        without_scheme("tcp://"@ + t) == t,
        without_scheme("ssl://"@ + t) == t,
{
    reveal_strlit("tcp://");
    reveal_strlit("ssl://");
    let a = "tcp://"@ + t;
    let b = "ssl://"@ + t;
    assert(a.take(6) =~= "tcp://"@);
    assert(a.skip(6) =~= t);
    assert(b.take(6) =~= "ssl://"@);
    assert(b.skip(6) =~= t);
    if text::starts_with(b, "tcp://"@) {
        assert(b.take(6)[0] == 't');
    }
}

} // verus!
