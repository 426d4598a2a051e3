//! Who may make a request: the token, and the defence against requests of other sites.
//!
//! Where no token is configured, mutating requests must present no Origin header or a same-host
//! one. Where one is configured, all but the public paths require the token, by
//! `Authorization: Bearer`, the `X-Auth-Token` header, the `capi_token` cookie or `?key=`; mutating
//! requests whose token did not come in a header must also show that they come from the same
//! origin; and a Host header must name the bind host, `localhost` or the IP address that the
//! request went to.

use crate::server::{err, err_reply, Reply, ReplyV};
use crate::text;
use vstd::prelude::*;
use vstd::utf8::encode_utf8;

verus! {

// ---------------------------------------------------------------------------
// Hosts
// ---------------------------------------------------------------------------

/// The host part of an Origin header value ("https://host:port").
#[derive(Debug)]
pub struct HostParse(pub String);

/// The lowered host of an origin; `None` where it is empty.
pub open spec fn origin_host(origin: Seq<char>) -> Option<Seq<char>> {
    let host = text::split_on(text::after_pattern(origin, "://"@), '/')[0];
    if host.len() == 0 {
        None
    } else {
        Some(text::lower(host))
    }
}

impl HostParse {
    pub fn parse(origin: &str) -> (r: Option<HostParse>)
        ensures
            match r {
                Some(h) => origin_host(origin@) == Some(h.0@),
                None => origin_host(origin@) is None,
            },
    {
        let rest = text::skip_past(origin, "://");
        let parts = text::split(rest, '/');
        assert(parts@[0]@ == text::views(parts@)[0]);
        if parts[0].as_str().is_empty() {
            None
        } else {
            Some(HostParse(text::to_lowercase(parts[0].as_str())))
        }
    }
}

/// The host that a Host header names.
pub open spec fn header_host(header: Seq<char>) -> Seq<char> {
    text::lower(text::without_trailing(header, '/'))
}

pub fn host_of(host_header: &str) -> (r: String)
    ensures
        r@ == header_host(host_header@),
{
    text::to_lowercase(text::trim_trailing(host_header, '/'))
}

/// The name in a host with an optional port; an IPv6 address stands in brackets.
pub open spec fn host_name(host: Seq<char>) -> Seq<char> {
    let (inner, end) = if host.len() > 0 && host[0] == '[' {
        (host.skip(1), ']')
    } else {
        (host, ':')
    };
    text::lower(
        match text::cut_first(inner, end) {
            Some((name, _)) => name,
            None => inner,
        },
    )
}

/// The name in a host with an optional port.
pub fn name_of_host(host: &str) -> (r: String)
    ensures
        r@ == host_name(host@),
{
    proof {
        reveal_strlit("[");
        if host@.len() > 0 && host@[0] == '[' {
            assert(host@.take(1) =~= "["@);
        }
        if text::starts_with(host@, "["@) {
            assert(host@.take(1)[0] == '[');
        }
    }
    let (inner, end) = match text::strip_prefix(host, "[") {
        Some(rest) => (rest, ']'),
        None => (host, ':'),
    };
    match text::split_once(inner, end) {
        Some((name, _)) => text::to_lowercase(name),
        None => text::to_lowercase(inner),
    }
}

/// Whether a Host header is one that this server goes by: the bind host, `localhost`, or the IP
/// address that the request went to.
pub open spec fn host_known(host: Seq<char>, bind_host: Seq<char>, ip: Seq<char>) -> bool {
    let name = host_name(host);
    name.len() > 0 && (name == host_name(bind_host) || name == "localhost"@ || name == text::lower(
        ip,
    ))
}

/// Decides on a Host header. `bind_host` may have a port; `ip` has none.
pub fn host_allowed(host: &str, bind_host: &str, ip: &str) -> (r: bool)
    ensures
        r == host_known(host@, bind_host@, ip@),
{
    let name = name_of_host(host);
    if name.as_str().is_empty() {
        return false;
    }
    let bound = name_of_host(bind_host);
    let literal = text::to_lowercase(ip);
    text::str_eq(name.as_str(), bound.as_str()) || text::str_eq(name.as_str(), "localhost")
        || text::str_eq(name.as_str(), literal.as_str())
}

// ---------------------------------------------------------------------------
// Queries
// ---------------------------------------------------------------------------

/// The value of a character of a query in hexadecimal.
pub open spec fn hex_of_byte(b: u8) -> Option<nat> {
    text::hex_digit_value(b as char)
}

/// The byte that two characters after a percent sign stand for. A plus sign may stand in the place
/// of the first digit.
pub open spec fn escaped_byte(a: u8, b: u8) -> Option<u8> {
    match (hex_of_byte(a), hex_of_byte(b)) {
        (Some(h), Some(l)) => Some((h * 16 + l) as u8),
        (None, Some(l)) => if a == 43 {
            Some(l as u8)
        } else {
            None
        },
        _ => None,
    }
}

/// The bytes that the bytes `s` of a query stand for, from position `i` on: a percent sign with
/// two more characters after it is an escape, which stands for nothing where they are no number;
/// a plus sign is a space.
pub open spec fn unescaped(s: Seq<u8>, i: int) -> Seq<u8>
    decreases s.len() - i,
{
    if i < 0 || i >= s.len() {
        Seq::empty()
    } else if s[i] == 37 && i + 2 < s.len() {
        (match escaped_byte(s[i + 1], s[i + 2]) {
            Some(b) => seq![b],
            None => Seq::empty(),
        }) + unescaped(s, i + 3)
    } else if s[i] == 43 {
        seq![32u8] + unescaped(s, i + 1)
    } else {
        seq![s[i]] + unescaped(s, i + 1)
    }
}

/// The text that a part of a query stands for.
pub open spec fn decoded(s: Seq<char>) -> Seq<char> {
    text::lossy(unescaped(encode_utf8(s), 0))
}

/// The byte that two characters after a percent sign stand for.
pub fn escape_value(a: u8, b: u8) -> (r: Option<u8>)
    ensures
        r == escaped_byte(a, b),
{
    match (text::hex_value(a as char), text::hex_value(b as char)) {
        (Some(h), Some(l)) => Some(h * 16 + l),
        (None, Some(l)) => if a == 43 {
            Some(l)
        } else {
            None
        },
        _ => None,
    }
}

pub fn percent_decode(s: &str) -> (r: String)
    ensures
        r@ == decoded(s@),
{
    let bytes = s.as_bytes();
    let n: usize = bytes.len();
    let mut out: Vec<u8> = Vec::new();
    let mut i: usize = 0;
    let ghost all = unescaped(bytes@, 0);
    assert(out@ + unescaped(bytes@, 0) =~= all);
    while i < n
        invariant
            i <= n == bytes@.len(),
            out@ + unescaped(bytes@, i as int) == all,
        decreases n - i,
    {
        let ghost before = out@;
        if bytes[i] == 37 && n - i > 2 {
            let escape = escape_value(bytes[i + 1], bytes[i + 2]);
            if let Some(b) = escape {
                out.push(b);
            }
            i += 3;
            assert(out@ + unescaped(bytes@, i as int) =~= before + unescaped(bytes@, i - 3));
        } else {
            out.push(if bytes[i] == 43 { 32 } else { bytes[i] });
            i += 1;
            assert(out@ + unescaped(bytes@, i as int) =~= before + unescaped(bytes@, i - 1));
        }
    }
    assert(out@ =~= all);
    text::from_utf8_lossy(out.as_slice())
}

/// The names and values of a query. A part without an equals sign is left out.
pub open spec fn query_pairs(parts: Seq<Seq<char>>) -> Seq<(Seq<char>, Seq<char>)>
    decreases parts.len(),
{
    if parts.len() == 0 {
        Seq::empty()
    } else {
        let before = query_pairs(parts.drop_last());
        match text::cut_first(parts.last(), '=') {
            Some((k, v)) => before.push((decoded(k), decoded(v))),
            None => before,
        }
    }
}

/// What a list of names and values holds.
pub open spec fn pair_views(v: Seq<(String, String)>) -> Seq<(Seq<char>, Seq<char>)> {
    v.map_values(|p: (String, String)| (p.0@, p.1@))
}

pub fn form_urlencoded(q: &str) -> (r: Vec<(String, String)>)
    ensures
        pair_views(r@) == query_pairs(text::split_on(q@, '&')),
{
    let parts = text::split(q, '&');
    let ghost all = text::views(parts@);
    let mut out: Vec<(String, String)> = Vec::new();
    let mut i: usize = 0;
    assert(pair_views(out@) =~= query_pairs(all.take(0)));
    while i < parts.len()
        invariant
            i <= parts@.len(),
            all == text::views(parts@),
            pair_views(out@) == query_pairs(all.take(i as int)),
        decreases parts@.len() - i,
    {
        assert(all.take(i as int + 1).drop_last() =~= all.take(i as int));
        assert(all.take(i as int + 1).last() == parts@[i as int]@);
        let ghost before = pair_views(out@);
        if let Some((k, v)) = text::split_once(parts[i].as_str(), '=') {
            out.push((percent_decode(k), percent_decode(v)));
            assert(pair_views(out@) =~= before.push((decoded(k@), decoded(v@))));
        }
        i += 1;
    }
    assert(all.take(i as int) =~= all);
    out
}

// ---------------------------------------------------------------------------
// The decision
// ---------------------------------------------------------------------------

/// What the decision reads of a request. A header that is absent, or no text, is `None`.
#[derive(Debug)]
pub struct Credentials {
    pub method: String,
    pub path: String,
    pub query: Option<String>,
    pub host: Option<String>,
    pub origin: Option<String>,
    pub authorization: Option<String>,
    pub auth_token: Option<String>,
    pub cookie: Option<String>,
    pub fetch_site: Option<String>,
}

/// What [`Credentials`] hold.
pub struct CredentialsV {
    pub method: Seq<char>,
    pub path: Seq<char>,
    pub query: Option<Seq<char>>,
    pub host: Option<Seq<char>>,
    pub origin: Option<Seq<char>>,
    pub authorization: Option<Seq<char>>,
    pub auth_token: Option<Seq<char>>,
    pub cookie: Option<Seq<char>>,
    pub fetch_site: Option<Seq<char>>,
}

/// The text of an optional string.
pub open spec fn maybe(s: Option<String>) -> Option<Seq<char>> {
    match s {
        Some(s) => Some(s@),
        None => None,
    }
}

impl View for Credentials {
    type V = CredentialsV;

    open spec fn view(&self) -> CredentialsV {
        CredentialsV {
            method: self.method@,
            path: self.path@,
            query: maybe(self.query),
            host: maybe(self.host),
            origin: maybe(self.origin),
            authorization: maybe(self.authorization),
            auth_token: maybe(self.auth_token),
            cookie: maybe(self.cookie),
            fetch_site: maybe(self.fetch_site),
        }
    }
}

/// A path that needs no token.
pub open spec fn public_path(path: Seq<char>) -> bool {
    path == "/api/health"@ || text::starts_with(path, "/ui/static/"@) || path == "/login"@ || path
        == "/metrics"@
}

/// The token in the headers that only the site itself can send.
pub open spec fn header_token(c: CredentialsV) -> Option<Seq<char>> {
    match c.authorization {
        Some(a) if text::starts_with(a, "Bearer "@) => Some(a.skip("Bearer "@.len() as int)),
        _ => c.auth_token,
    }
}

/// The value of the first token cookie, from part `i` of the header on.
pub open spec fn cookie_from(parts: Seq<Seq<char>>, i: int) -> Option<Seq<char>>
    decreases parts.len() - i,
{
    if i < 0 || i >= parts.len() {
        None
    } else if text::starts_with(text::trimmed(parts[i]), "capi_token="@) {
        Some(text::trimmed(parts[i]).skip("capi_token="@.len() as int))
    } else {
        cookie_from(parts, i + 1)
    }
}

/// The token in the cookies.
pub open spec fn cookie_token(c: CredentialsV) -> Option<Seq<char>> {
    match c.cookie {
        Some(h) => cookie_from(text::split_on(h, ';'), 0),
        None => None,
    }
}

/// The first value of a name, from pair `i` on.
pub open spec fn value_from(
    pairs: Seq<(Seq<char>, Seq<char>)>,
    name: Seq<char>,
    i: int,
) -> Option<Seq<char>>
    decreases pairs.len() - i,
{
    if i < 0 || i >= pairs.len() {
        None
    } else if pairs[i].0 == name {
        Some(pairs[i].1)
    } else {
        value_from(pairs, name, i + 1)
    }
}

/// The token in the query.
pub open spec fn query_token(c: CredentialsV) -> Option<Seq<char>> {
    match c.query {
        Some(q) => value_from(query_pairs(text::split_on(q, '&')), "key"@, 0),
        None => None,
    }
}

/// The host that the request went to.
pub open spec fn requested_host(c: CredentialsV) -> Seq<char> {
    header_host(
        match c.host {
            Some(h) => h,
            None => ""@,
        },
    )
}

/// Whether an origin is given and is the host that the request went to.
pub open spec fn origin_matches(c: CredentialsV) -> bool {
    match c.origin {
        Some(o) => origin_host(o) == Some(requested_host(c)),
        None => false,
    }
}

/// Whether nothing shows that the request comes from another site.
pub open spec fn not_cross_origin(c: CredentialsV) -> bool {
    c.origin is None || origin_matches(c)
}

/// Whether something shows that the request comes from the same site.
pub open spec fn same_origin_evidence(c: CredentialsV) -> bool {
    origin_matches(c) || c.fetch_site == Some("same-origin"@)
}

/// Whether the token came in a header.
pub open spec fn by_header(token: Seq<char>, c: CredentialsV) -> bool {
    header_token(c) == Some(token)
}

/// Whether the token came in a cookie or in the query.
pub open spec fn by_browser(token: Seq<char>, c: CredentialsV) -> bool {
    cookie_token(c) == Some(token) || query_token(c) == Some(token)
}

/// Whether the token was presented in a way that counts.
pub open spec fn authenticated(token: Seq<char>, c: CredentialsV) -> bool {
    by_header(token, c) || (by_browser(token, c) && (not_cross_origin(c) || same_origin_evidence(
        c,
    )))
}

/// What becomes of a request.
#[derive(Debug)]
pub enum Verdict {
    /// It goes through.
    Pass,
    /// It is answered here.
    Refused(Reply),
    /// It is answered here, with a `location` header that leads to the login page.
    Login(Reply),
}

/// What a [`Verdict`] holds.
pub enum VerdictV {
    Pass,
    Refused(ReplyV),
    Login(ReplyV),
}

impl View for Verdict {
    type V = VerdictV;

    open spec fn view(&self) -> VerdictV {
        match self {
            Verdict::Pass => VerdictV::Pass,
            Verdict::Refused(r) => VerdictV::Refused(r@),
            Verdict::Login(r) => VerdictV::Login(r@),
        }
    }
}

/// What becomes of a request, with the configured token, which is empty where there is none.
pub open spec fn verdict(token: Seq<char>, c: CredentialsV) -> VerdictV {
    if public_path(c.path) {
        VerdictV::Pass
    } else if token.len() == 0 {
        if c.method == "POST"@ && !not_cross_origin(c) {
            VerdictV::Refused(err_reply(403, "cross-origin request rejected"@))
        } else {
            VerdictV::Pass
        }
    } else if !authenticated(token, c) {
        if !text::starts_with(c.path, "/api"@) && c.method == "GET"@ {
            VerdictV::Login(err_reply(401, "unauthorized"@))
        } else {
            VerdictV::Refused(err_reply(401, "unauthorized"@))
        }
    } else if c.method == "POST"@ && !by_header(token, c) && !same_origin_evidence(c) {
        VerdictV::Refused(err_reply(403, "cross-origin mutation rejected"@))
    } else {
        VerdictV::Pass
    }
}

fn is_public(path: &str) -> (r: bool)
    ensures
        r == public_path(path@),
{
    text::str_eq(path, "/api/health") || text::has_prefix(path, "/ui/static/") || text::str_eq(
        path,
        "/login",
    ) || text::str_eq(path, "/metrics")
}

fn is_by_header(token: &str, c: &Credentials) -> (r: bool)
    ensures
        r == by_header(token@, c@),
{
    if let Some(a) = &c.authorization {
        if let Some(t) = text::strip_prefix(a.as_str(), "Bearer ") {
            return text::str_eq(t, token);
        }
    }
    match &c.auth_token {
        Some(t) => text::str_eq(t.as_str(), token),
        None => false,
    }
}

fn is_by_cookie(token: &str, c: &Credentials) -> (r: bool)
    ensures
        r == (cookie_token(c@) == Some(token@)),
{
    let parts = match &c.cookie {
        Some(h) => text::split(h.as_str(), ';'),
        None => {
            return false;
        },
    };
    let ghost all = text::views(parts@);
    let mut i: usize = 0;
    while i < parts.len()
        invariant
            i <= parts@.len(),
            all == text::views(parts@),
            cookie_token(c@) == cookie_from(all, i as int),
        decreases parts@.len() - i,
    {
        assert(all[i as int] == parts@[i as int]@);
        if let Some(t) = text::strip_prefix(text::trim(parts[i].as_str()), "capi_token=") {
            return text::str_eq(t, token);
        }
        i += 1;
    }
    false
}

fn is_by_query(token: &str, c: &Credentials) -> (r: bool)
    ensures
        r == (query_token(c@) == Some(token@)),
{
    let pairs = match &c.query {
        Some(q) => form_urlencoded(q.as_str()),
        None => {
            return false;
        },
    };
    let ghost all = pair_views(pairs@);
    let mut i: usize = 0;
    while i < pairs.len()
        invariant
            i <= pairs@.len(),
            all == pair_views(pairs@),
            query_token(c@) == value_from(all, "key"@, i as int),
        decreases pairs@.len() - i,
    {
        assert(all[i as int] == (pairs@[i as int].0@, pairs@[i as int].1@));
        if text::str_eq(pairs[i].0.as_str(), "key") {
            return text::str_eq(pairs[i].1.as_str(), token);
        }
        i += 1;
    }
    false
}

fn is_same_host(c: &Credentials) -> (r: bool)
    ensures
        r == origin_matches(c@),
{
    match &c.origin {
        None => false,
        Some(o) => match HostParse::parse(o.as_str()) {
            None => false,
            Some(h) => {
                let host = match &c.host {
                    Some(h) => host_of(h.as_str()),
                    None => host_of(""),
                };
                text::str_eq(h.0.as_str(), host.as_str())
            },
        },
    }
}

/// Decides on a request. `token` is the configured one, and empty where there is none.
pub fn decide(token: &str, c: &Credentials) -> (r: Verdict)
    ensures
        r@ == verdict(token@, c@),
{
    if is_public(c.path.as_str()) {
        return Verdict::Pass;
    }
    let matches_host = is_same_host(c);
    let not_cross = c.origin.is_none() || matches_host;
    let post = text::str_eq(c.method.as_str(), "POST");
    if token.is_empty() {
        if post && !not_cross {
            return Verdict::Refused(err(403, "cross-origin request rejected"));
        }
        return Verdict::Pass;
    }
    let evidence = matches_host || match &c.fetch_site {
        Some(s) => text::str_eq(s.as_str(), "same-origin"),
        None => false,
    };
    let via_header = is_by_header(token, c);
    let via_browser = is_by_cookie(token, c) || is_by_query(token, c);
    if !(via_header || (via_browser && (not_cross || evidence))) {
        let answer = err(401, "unauthorized");
        // Page loads are led to the login page; API requests are not.
        if !text::has_prefix(c.path.as_str(), "/api") && text::str_eq(c.method.as_str(), "GET") {
            return Verdict::Login(answer);
        }
        return Verdict::Refused(answer);
    }
    if post && !via_header && !evidence {
        return Verdict::Refused(err(403, "cross-origin mutation rejected"));
    }
    Verdict::Pass
}

/// Whether a request to a path that is not public names a host that this server, with its token,
/// does not go by.
pub open spec fn foreign_host(
    token: Seq<char>,
    c: CredentialsV,
    bind_host: Seq<char>,
    ip: Seq<char>,
) -> bool {
    token.len() > 0 && !public_path(c.path) && match c.host {
        Some(h) => !host_known(h, bind_host, ip),
        None => false,
    }
}

/// What becomes of a request when the Host header counts too: one that would go through is refused
/// under a foreign host, and any other is answered as it is under every host.
pub open spec fn guarded(
    token: Seq<char>,
    c: CredentialsV,
    bind_host: Seq<char>,
    ip: Seq<char>,
) -> VerdictV {
    if verdict(token, c) is Pass && foreign_host(token, c, bind_host, ip) {
        VerdictV::Refused(err_reply(403, "host not allowed"@))
    } else {
        verdict(token, c)
    }
}

/// Decides on a request that went to `ip`, on a server that is bound to `bind_host`.
pub fn guard(token: &str, c: &Credentials, bind_host: &str, ip: &str) -> (r: Verdict)
    ensures
        r@ == guarded(token@, c@, bind_host@, ip@),
{
    match decide(token, c) {
        Verdict::Pass => {
            if !token.is_empty() && !is_public(c.path.as_str()) {
                if let Some(h) = &c.host {
                    if !host_allowed(h.as_str(), bind_host, ip) {
                        return Verdict::Refused(err(403, "host not allowed"));
                    }
                }
            }
            Verdict::Pass
        },
        refusal => refusal,
    }
}

// ---------------------------------------------------------------------------
// Laws
// ---------------------------------------------------------------------------

/// A request under a foreign name, as after DNS rebinding, never goes through, whatever it
/// presents: it is refused for its host where nothing else refuses it.
pub proof fn law_foreign_hosts_are_refused(
    token: Seq<char>,
    c: CredentialsV,
    bind_host: Seq<char>,
    ip: Seq<char>,
)
    requires
        foreign_host(token, c, bind_host, ip),
    ensures
        !(guarded(token, c, bind_host, ip) is Pass),
        verdict(token, c) is Pass ==> guarded(token, c, bind_host, ip) == VerdictV::Refused(
            err_reply(403, "host not allowed"@),
        ),
{
}

/// The Host header opens nothing and changes no refusal: what the rest of a request is refused for
/// is answered the same under every host, so that without the token the answer is 401.
pub proof fn law_refusals_do_not_depend_on_the_host(
    token: Seq<char>,
    c: CredentialsV,
    bind_host: Seq<char>,
    ip: Seq<char>,
)
    ensures
        guarded(token, c, bind_host, ip) is Pass ==> verdict(token, c) is Pass,
        !(verdict(token, c) is Pass) ==> guarded(token, c, bind_host, ip) == verdict(token, c),
        token.len() > 0 && !public_path(c.path) && !authenticated(token, c) ==> match guarded(
            token,
            c,
            bind_host,
            ip,
        ) {
            VerdictV::Pass => false,
            VerdictV::Refused(r) => r == err_reply(401, "unauthorized"@),
            VerdictV::Login(r) => r == err_reply(401, "unauthorized"@),
        },
{
}

/// Where a token is configured, only a request that presents it reaches a path that is not public.
pub proof fn law_only_the_token_opens(token: Seq<char>, c: CredentialsV)
    requires
        token.len() > 0,
        !public_path(c.path),
        verdict(token, c) is Pass,
    ensures
        header_token(c) == Some(token) || cookie_token(c) == Some(token) || query_token(c) == Some(
            token,
        ),
{
}

/// A token in a header opens every path, whatever the origin.
pub proof fn law_header_token_opens(token: Seq<char>, c: CredentialsV)
    requires
        token.len() > 0,
        header_token(c) == Some(token),
    ensures
        verdict(token, c) is Pass,
{
}

/// A mutation whose token came in a cookie or in the query goes through only with evidence that it
/// comes from the same origin.
pub proof fn law_browser_mutations_are_same_origin(token: Seq<char>, c: CredentialsV)
    requires
        token.len() > 0,
        !public_path(c.path),
        c.method == "POST"@,
        header_token(c) != Some(token),
        verdict(token, c) is Pass,
    ensures
        same_origin_evidence(c),
{
}

/// Without a configured token, a mutation with an origin of another host is refused.
pub proof fn law_open_mode_refuses_cross_origin(c: CredentialsV)
    requires
        !public_path(c.path),
        c.method == "POST"@,
        c.origin matches Some(o) && origin_host(o) != Some(requested_host(c)),
    ensures
        verdict(Seq::empty(), c) == VerdictV::Refused(
            err_reply(403, "cross-origin request rejected"@),
        ),
{
}

/// A refused request is answered 401 or 403 with an error, and only a page load without the token
/// is led to the login page.
pub proof fn law_refusals_are_errors(token: Seq<char>, c: CredentialsV)
    ensures
        match verdict(token, c) {
            VerdictV::Pass => true,
            VerdictV::Refused(r) => (r.status == 401 || r.status == 403) && r.body.status
                == "error"@,
            VerdictV::Login(r) => r.status == 401 && r.body.status == "error"@ && c.method
                == "GET"@ && !text::starts_with(c.path, "/api"@),
        },
{
}

/// The cookie that a login sets opens what the token opens: a client that sends it back presents
/// the token. A token with a semicolon or with white space at its end cannot stand in a cookie.
pub proof fn law_login_cookie_presents_the_token(token: Seq<char>, c: CredentialsV)
    requires
        token.len() > 0,
        !token.contains(';'),
        !text::is_ws(token.last()),
        c.cookie == Some("capi_token="@ + token),
    ensures
        cookie_token(c) == Some(token),
        c.origin is None && c.method == "GET"@ ==> verdict(token, c) is Pass,
{
    reveal_strlit("capi_token=");
    reveal_strlit("GET");
    reveal_strlit("POST");
    let header = "capi_token="@ + token;
    assert(!header.contains(';')) by {
        if header.contains(';') {
            let k = header.index_of(';');
            if k >= 11 {
                assert(token[k - 11] == ';');
            }
        }
    }
    text::lemma_split_single(header, ';');
    assert(header[0] == 'c');
    assert(header.last() == token.last());
    assert(text::trimmed(header) == header);
    assert(header.take(11) =~= "capi_token="@);
    assert(header.skip(11) =~= token);
    assert(text::split_on(header, ';')[0] == header);
    assert("GET"@[0] != "POST"@[0]);
}

/// The token guards everything but the state of health, the static files, the login page and the
/// metrics: a request that presents nothing reaches those and no other path.
pub proof fn law_without_credentials_four_places_are_open(token: Seq<char>, c: CredentialsV)
    requires
        token.len() > 0,
        c.query is None,
        c.authorization is None,
        c.auth_token is None,
        c.cookie is None,
    ensures
        verdict(token, c) is Pass <==> c.path == "/api/health"@ || c.path == "/login"@ || c.path
            == "/metrics"@ || text::starts_with(c.path, "/ui/static/"@),
{
}

/// A bearer token stands behind its scheme; without that scheme the token header counts.
pub proof fn law_bearer_token_is_presented(t: Seq<char>, c: CredentialsV)
    ensures
        c.authorization == Some("Bearer "@ + t) ==> header_token(c) == Some(t),
        c.authorization is None ==> header_token(c) == c.auth_token,
{
    reveal_strlit("Bearer ");
    let a = "Bearer "@ + t;
    assert(a.take(7) =~= "Bearer "@);
    assert(a.skip(7) =~= t);
}

proof fn lemma_cookie_from(parts: Seq<Seq<char>>, i: int, k: int)
    requires
        0 <= i <= k <= parts.len(),
        forall|j: int|
            i <= j < k ==> !text::starts_with(
                text::trimmed(#[trigger] parts[j]),
                "capi_token="@,
            ),
    ensures
        cookie_from(parts, i) == cookie_from(parts, k),
    decreases k - i,
{
    if i < k {
        assert(!text::starts_with(text::trimmed(parts[i]), "capi_token="@));
        lemma_cookie_from(parts, i + 1, k);
    }
}

/// Among the cookies of a request the first one of the token counts, wherever it stands; other
/// cookies present nothing.
pub proof fn law_first_token_cookie_counts(c: CredentialsV, header: Seq<char>, k: int, t: Seq<char>)
    requires
        c.cookie == Some(header),
        0 <= k <= text::split_on(header, ';').len(),
        forall|j: int|
            0 <= j < k ==> !text::starts_with(
                text::trimmed(#[trigger] text::split_on(header, ';')[j]),
                "capi_token="@,
            ),
    ensures
        k == text::split_on(header, ';').len() ==> cookie_token(c) is None,
        k < text::split_on(header, ';').len() && text::trimmed(text::split_on(header, ';')[k])
            == "capi_token="@ + t ==> cookie_token(c) == Some(t),
{
    let parts = text::split_on(header, ';');
    lemma_cookie_from(parts, 0, k);
    let whole = "capi_token="@ + t;
    assert(whole.take("capi_token="@.len() as int) =~= "capi_token="@);
    assert(whole.skip("capi_token="@.len() as int) =~= t);
}

/// Whether some bytes of a query are a way to write a byte: the byte itself, a plus sign for a
/// space, or an escape.
pub open spec fn writes_byte(form: Seq<u8>, b: u8, upper: bool) -> bool {
    ||| form == seq![b] && b != 37 && b != 43
    ||| form == seq![43u8] && b == 32
    ||| form == seq![
        37u8,
        text::hex_char(b as int / 16, upper) as u8,
        text::hex_char(b as int % 16, upper) as u8,
    ]
}

proof fn lemma_unescaped_tail(a: Seq<u8>, s: Seq<u8>, i: int)
    requires
        0 <= i <= s.len(),
    ensures
        unescaped(a + s, a.len() + i) == unescaped(s, i),
    decreases s.len() - i,
{
    let w = a + s;
    if i < s.len() {
        assert(w[a.len() + i] == s[i]);
        if s[i] == 37 && i + 2 < s.len() {
            assert(w[a.len() + i + 1] == s[i + 1]);
            assert(w[a.len() + i + 2] == s[i + 2]);
            lemma_unescaped_tail(a, s, i + 3);
        } else {
            lemma_unescaped_tail(a, s, i + 1);
        }
    }
}

proof fn lemma_escape_of_byte(b: u8, upper: bool)
    ensures
        escaped_byte(
            text::hex_char(b as int / 16, upper) as u8,
            text::hex_char(b as int % 16, upper) as u8,
        ) == Some(b),
{
    let h = text::hex_char(b as int / 16, upper);
    let l = text::hex_char(b as int % 16, upper);
    assert(h as u8 as char == h);
    assert(l as u8 as char == l);
    assert(text::hex_digit_value(h) == Some((b as int / 16) as nat));
    assert(text::hex_digit_value(l) == Some((b as int % 16) as nat));
}

/// What a query writes reads back byte by byte, whichever way each byte is written.
pub proof fn law_query_bytes_read_back(forms: Seq<Seq<u8>>, bytes: Seq<u8>, upper: bool)
    requires
        forms.len() == bytes.len(),
        forall|i: int| 0 <= i < bytes.len() ==> writes_byte(#[trigger] forms[i], bytes[i], upper),
    ensures
        unescaped(forms.flatten(), 0) == bytes,
    decreases bytes.len(),
{
    if bytes.len() > 0 {
        let f = forms.first();
        let b = bytes.first();
        let rest = forms.drop_first().flatten();
        assert forall|i: int| 0 <= i < bytes.drop_first().len() implies writes_byte(
            #[trigger] forms.drop_first()[i],
            bytes.drop_first()[i],
            upper,
        ) by {
            assert(writes_byte(forms[i + 1], bytes[i + 1], upper));
        }
        law_query_bytes_read_back(forms.drop_first(), bytes.drop_first(), upper);
        let s = f + rest;
        assert(forms.flatten() == s);
        assert(writes_byte(forms[0], bytes[0], upper));
        lemma_unescaped_tail(f, rest, 0);
        lemma_escape_of_byte(b, upper);
        assert(s[0] == f[0]);
        if f.len() == 3 {
            assert(s[1] == f[1]);
            assert(s[2] == f[2]);
            assert(s[0] == 37);
            assert(unescaped(s, 0) == seq![b] + unescaped(s, 3));
        } else {
            assert(unescaped(s, 0) == seq![b] + unescaped(s, 1));
        }
        assert(bytes =~= seq![b] + bytes.drop_first());
    } else {
        assert(bytes =~= Seq::empty());
    }
}

/// A text that is written into a query reads back.
pub proof fn law_query_texts_read_back(
    t: Seq<char>,
    written: Seq<char>,
    forms: Seq<Seq<u8>>,
    upper: bool,
)
    requires
        encode_utf8(written) == forms.flatten(),
        forms.len() == encode_utf8(t).len(),
        forall|i: int|
            0 <= i < forms.len() ==> writes_byte(#[trigger] forms[i], encode_utf8(t)[i], upper),
    ensures
        decoded(written) == t,
{
    law_query_bytes_read_back(forms, encode_utf8(t), upper);
    vstd::utf8::encode_utf8_valid_utf8(t);
    vstd::utf8::encode_utf8_decode_utf8(t);
}

/// An escape whose characters are no number stands for nothing, and a percent sign with fewer than
/// two characters after it stands for itself.
pub proof fn law_broken_escapes(a: u8, b: u8, rest: Seq<u8>)
    ensures
        text::hex_digit_value(b as char) is None ==> unescaped(seq![37u8, a, b] + rest, 0)
            == unescaped(rest, 0),
        text::hex_digit_value(a as char) is None && a != 43 ==> unescaped(
            seq![37u8, a, b] + rest,
            0,
        ) == unescaped(rest, 0),
        unescaped(seq![37u8], 0) == seq![37u8],
        a != 37 && a != 43 ==> unescaped(seq![37u8, a], 0) == seq![37u8, a],
{
    let e = seq![37u8, a, b];
    lemma_unescaped_tail(e, rest, 0);
    assert((e + rest)[0] == 37);
    assert((e + rest)[1] == a);
    assert((e + rest)[2] == b);
    assert(Seq::<u8>::empty() + unescaped(rest, 0) =~= unescaped(rest, 0));
    let one = seq![37u8];
    assert(unescaped(one, 1) == Seq::<u8>::empty());
    assert(seq![37u8] + Seq::<u8>::empty() =~= seq![37u8]);
    let two = seq![37u8, a];
    assert(unescaped(two, 2) == Seq::<u8>::empty());
    assert(unescaped(two, 1) =~= seq![two[1]] + Seq::<u8>::empty() || a == 37 || a == 43);
    assert(seq![37u8] + seq![a] =~= two);
}

/// The parts of a query are read one by one: a part is the name before its first equals sign and
/// the value behind it, and a part without one is left out.
pub proof fn law_query_parts_are_names_and_values(
    a: Seq<Seq<char>>,
    b: Seq<Seq<char>>,
    name: Seq<char>,
    value: Seq<char>,
)
    requires
        !name.contains('='),
    ensures
        query_pairs(a + b) == query_pairs(a) + query_pairs(b),
        query_pairs(seq![name.push('=') + value]) == seq![(decoded(name), decoded(value))],
        query_pairs(seq![name]) == Seq::<(Seq<char>, Seq<char>)>::empty(),
{
    lemma_query_pairs(a, b);
    let whole = name.push('=') + value;
    lemma_cut_at(name, '=', value);
    let one = seq![whole];
    assert(one.drop_last() =~= Seq::<Seq<char>>::empty());
    assert(query_pairs(one.drop_last()) == Seq::<(Seq<char>, Seq<char>)>::empty());
    assert(query_pairs(one) =~= seq![(decoded(name), decoded(value))]);
    text::law_cut_at_the_first(name, '=');
    let bare = seq![name];
    assert(bare.drop_last() =~= Seq::<Seq<char>>::empty());
    if let Some((x, y)) = text::cut_first(name, '=') {
        assert((x.push('=') + y)[x.len() as int] == '=');
    }
    assert(query_pairs(bare) =~= Seq::<(Seq<char>, Seq<char>)>::empty());
}

proof fn lemma_query_pairs(a: Seq<Seq<char>>, b: Seq<Seq<char>>)
    ensures
        query_pairs(a + b) == query_pairs(a) + query_pairs(b),
    decreases b.len(),
{
    if b.len() == 0 {
        assert(a + b =~= a);
        assert(query_pairs(a) + query_pairs(b) =~= query_pairs(a));
    } else {
        lemma_query_pairs(a, b.drop_last());
        assert((a + b).drop_last() =~= a + b.drop_last());
        assert((a + b).last() == b.last());
        assert(query_pairs(a + b) =~= query_pairs(a) + query_pairs(b));
    }
}

proof fn lemma_value_from(pairs: Seq<(Seq<char>, Seq<char>)>, name: Seq<char>, i: int, k: int)
    requires
        0 <= i <= k <= pairs.len(),
        forall|j: int| i <= j < k ==> (#[trigger] pairs[j]).0 != name,
    ensures
        value_from(pairs, name, i) == value_from(pairs, name, k),
    decreases k - i,
{
    if i < k {
        lemma_value_from(pairs, name, i + 1, k);
    }
}

/// The token in a query is the first value under `key`.
pub proof fn law_first_key_of_the_query_counts(c: CredentialsV, q: Seq<char>, k: int)
    requires
        c.query == Some(q),
        0 <= k <= query_pairs(text::split_on(q, '&')).len(),
        forall|j: int|
            0 <= j < k ==> (#[trigger] query_pairs(text::split_on(q, '&'))[j]).0 != "key"@,
    ensures
        k == query_pairs(text::split_on(q, '&')).len() ==> query_token(c) is None,
        k < query_pairs(text::split_on(q, '&')).len() && query_pairs(text::split_on(q, '&'))[k].0
            == "key"@ ==> query_token(c) == Some(query_pairs(text::split_on(q, '&'))[k].1),
{
    lemma_value_from(query_pairs(text::split_on(q, '&')), "key"@, 0, k);
}

proof fn lemma_cut_at(a: Seq<char>, c: char, b: Seq<char>)
    requires
        !a.contains(c),
    ensures
        text::cut_first(a.push(c) + b, c) == Some((a, b)),
{
    let whole = a.push(c) + b;
    text::law_cut_at_the_first(whole, c);
    assert(whole[a.len() as int] == c);
    assert(whole.contains(c));
    let cut = text::cut_first(whole, c)->0;
    let joined = cut.0.push(c) + cut.1;
    if cut.0.len() < a.len() {
        assert(joined[cut.0.len() as int] == c);
        assert(a[cut.0.len() as int] == c);
    }
    if cut.0.len() > a.len() {
        assert(joined[a.len() as int] == cut.0[a.len() as int]);
    }
    assert(cut.0 =~= a) by {
        assert(forall|i: int| 0 <= i < a.len() ==> joined[i] == #[trigger] cut.0[i]);
        assert(forall|i: int| 0 <= i < a.len() ==> whole[i] == #[trigger] a[i]);
    }
    assert(cut.1 =~= b) by {
        assert(forall|i: int|
            0 <= i < cut.1.len() ==> joined[a.len() + 1 + i] == #[trigger] cut.1[i]);
        assert(forall|i: int| 0 <= i < b.len() ==> whole[a.len() + 1 + i] == #[trigger] b[i]);
    }
}

/// The port of a host does not count, and neither do the brackets of an IPv6 address.
pub proof fn law_host_names_lose_their_port(name: Seq<char>, addr: Seq<char>, port: Seq<char>)
    requires
        !name.contains(':'),
        !name.contains('['),
        !addr.contains(']'),
    ensures
        host_name(name) == text::lower(name),
        host_name(name.push(':') + port) == text::lower(name),
        host_name(seq!['['] + addr.push(']') + port) == text::lower(addr),
{
    text::law_cut_at_the_first(name, ':');
    if let Some((x, y)) = text::cut_first(name, ':') {
        assert((x.push(':') + y)[x.len() as int] == ':');
    }
    if name.len() > 0 {
        assert(name.contains(name[0]));
    }
    let with_port = name.push(':') + port;
    assert(with_port[0] == (if name.len() > 0 { name[0] } else { ':' }));
    lemma_cut_at(name, ':', port);
    let bracketed = seq!['['] + addr.push(']') + port;
    assert(bracketed[0] == '[');
    assert(bracketed.skip(1) =~= addr.push(']') + port);
    lemma_cut_at(addr, ']', port);
}

/// A server goes by its bind host, by `localhost` and by the address that the request went to, in
/// any case of letters, and by no other name; an empty name is none.
pub proof fn law_hosts_that_the_server_goes_by(
    host: Seq<char>,
    bind_host: Seq<char>,
    ip: Seq<char>,
)
    ensures
        host_name(host).len() > 0 && host_name(host) == host_name(bind_host) ==> host_known(
            host,
            bind_host,
            ip,
        ),
        host_name(host) == "localhost"@ ==> host_known(host, bind_host, ip),
        host_name(host).len() > 0 && host_name(host) == text::lower(ip) ==> host_known(
            host,
            bind_host,
            ip,
        ),
        host_known(host, bind_host, ip) ==> host_name(host).len() > 0 && (seq![
            host_name(bind_host),
            "localhost"@,
            text::lower(ip),
        ]).contains(host_name(host)),
{
    reveal_strlit("localhost");
    let names = seq![host_name(bind_host), "localhost"@, text::lower(ip)];
    assert(names[0] == host_name(bind_host));
    assert(names[1] == "localhost"@);
    assert(names[2] == text::lower(ip));
}

/// The host of an origin is what stands between the scheme and the path, in lower case.
pub proof fn law_origins_name_their_host(scheme: Seq<char>, host: Seq<char>, path: Seq<char>)
    requires
        !scheme.contains(':'),
        !host.contains('/'),
        host.len() > 0,
    ensures
        origin_host(scheme + "://"@ + host) == Some(text::lower(host)),
        origin_host(scheme + "://"@ + (host.push('/') + path)) == Some(text::lower(host)),
{
    lemma_after_scheme(scheme, host);
    lemma_after_scheme(scheme, host.push('/') + path);
    text::lemma_split_single(host, '/');
    lemma_split_first(host, '/', path);
}

proof fn lemma_after_scheme(scheme: Seq<char>, rest: Seq<char>)
    requires
        !scheme.contains(':'),
    ensures
        text::after_pattern(scheme + "://"@ + rest, "://"@) == rest,
{
    reveal_strlit("://");
    let s = scheme + "://"@ + rest;
    let k = scheme.len() as int;
    assert(s.skip(k).take(3) =~= "://"@);
    assert forall|j: int| 0 <= j < k implies !text::starts_with(#[trigger] s.skip(j), "://"@) by {
        assert(s.skip(j)[0] == scheme[j]);
        if text::starts_with(s.skip(j), "://"@) {
            assert(s.skip(j).take(3)[0] == ':');
            assert(scheme.contains(':'));
        }
    }
    text::law_what_follows_a_pattern(s, "://"@, k);
    assert(s.skip(k + 3) =~= rest);
}

proof fn lemma_split_first(a: Seq<char>, c: char, b: Seq<char>)
    requires
        !a.contains(c),
    ensures
        text::split_on(a.push(c) + b, c)[0] == a,
    decreases b.len(),
{
    let whole = a.push(c) + b;
    text::lemma_split_nonempty(whole.drop_last(), c);
    if b.len() == 0 {
        assert(whole.drop_last() =~= a);
        assert(whole.last() == c);
        text::lemma_split_single(a, c);
    } else {
        lemma_split_first(a, c, b.drop_last());
        assert(whole.drop_last() =~= a.push(c) + b.drop_last());
        lemma_split_two(a, c, b.drop_last());
    }
}

proof fn lemma_split_two(a: Seq<char>, c: char, b: Seq<char>)
    ensures
        text::split_on(a.push(c) + b, c).len() >= 2,
    decreases b.len(),
{
    let whole = a.push(c) + b;
    text::lemma_split_nonempty(whole.drop_last(), c);
    if b.len() == 0 {
        assert(whole.last() == c);
    } else {
        lemma_split_two(a, c, b.drop_last());
        assert(whole.drop_last() =~= a.push(c) + b.drop_last());
    }
}

/// A browser shows that a request comes from the site itself by an origin of the requested host or
/// by saying so; a request of another origin that says nothing shows nothing.
pub proof fn law_evidence_of_the_same_origin(c: CredentialsV, o: Seq<char>)
    ensures
        c.fetch_site == Some("same-origin"@) ==> same_origin_evidence(c),
        c.origin == Some(o) && origin_host(o) == Some(requested_host(c)) ==> same_origin_evidence(c)
            && not_cross_origin(c),
        c.origin == Some(o) && origin_host(o) != Some(requested_host(c)) ==> !not_cross_origin(c),
        c.origin == Some(o) && origin_host(o) != Some(requested_host(c)) && c.fetch_site != Some(
            "same-origin"@,
        ) ==> !same_origin_evidence(c),
        c.origin is None ==> not_cross_origin(c),
        c.origin is None && c.fetch_site is None ==> !same_origin_evidence(c),
{
}

/// The requested host is the Host header in lower case without slashes at its end; a request
/// without one names none.
pub proof fn law_requested_host_is_that_of_the_header(c: CredentialsV, h: Seq<char>)
    requires
        h.len() > 0,
        h.last() != '/',
    ensures
        c.host == Some(h) ==> requested_host(c) == text::lower(h),
        c.host is None ==> requested_host(c) == header_host(""@),
        header_host(h.push('/')) == text::lower(h),
{
    text::law_trailing_characters_go(h, '/');
    assert(h.push('/').drop_last() =~= h);
}

} // verus!
