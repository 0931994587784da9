//! The network policy gate and the session table. Sending and receiving is
//! the host's work; this module decides whether a task may open a
//! connection, which session a socket id names, how large a message may be,
//! and which error a task last saw.
use crate::host::HostBridge;
use crate::ordered::{IdMap, TextMap};
use crate::text::{decimal, eq_ignore_ascii_case, push_decimal, push_text, string_from, text_eq_ignore_ascii_case};
use vstd::prelude::*;

verus! {

pub type SocketId = u64;

#[derive(Debug, Clone, Copy, PartialEq, Eq, Structural)]
pub enum NetworkCapability {
    Http,
    WebSocket,
    Tcp,
}

/// An HTTP request of a guest; `url` is the text of an absolute URL.
#[derive(Debug)]
pub struct HttpRequest {
    pub method: String,
    pub url: String,
    pub headers: TextMap<String>,
    pub body: Vec<u8>,
}

#[derive(Debug)]
pub struct HttpResponse {
    pub status: u16,
    pub headers: TextMap<String>,
    pub body: Vec<u8>,
}

/// What a task may reach on the network.
#[derive(Debug)]
pub struct SocketPolicy {
    pub allow_remote: bool,
    pub allow_http: bool,
    pub allow_websocket: bool,
    pub allow_tcp: bool,
    pub allowed_hosts: Vec<String>,
    pub denied_hosts: Vec<String>,
    pub dns_allowlist: Vec<String>,
    pub connect_timeout_ms: u64,
    pub io_timeout_ms: u64,
    pub max_response_bytes: usize,
    pub max_message_bytes: usize,
}

pub struct SocketPolicyView {
    pub allow_remote: bool,
    pub allow_http: bool,
    pub allow_websocket: bool,
    pub allow_tcp: bool,
    pub allowed_hosts: Seq<Seq<char>>,
    pub denied_hosts: Seq<Seq<char>>,
    pub dns_allowlist: Seq<Seq<char>>,
    pub connect_timeout_ms: u64,
    pub io_timeout_ms: u64,
    pub max_response_bytes: usize,
    pub max_message_bytes: usize,
}

impl View for SocketPolicy {
    type V = SocketPolicyView;

    open spec fn view(&self) -> SocketPolicyView {
        SocketPolicyView {
            allow_remote: self.allow_remote,
            allow_http: self.allow_http,
            allow_websocket: self.allow_websocket,
            allow_tcp: self.allow_tcp,
            allowed_hosts: self.allowed_hosts@.map_values(|h: String| h@),
            denied_hosts: self.denied_hosts@.map_values(|h: String| h@),
            dns_allowlist: self.dns_allowlist@.map_values(|h: String| h@),
            connect_timeout_ms: self.connect_timeout_ms,
            io_timeout_ms: self.io_timeout_ms,
            max_response_bytes: self.max_response_bytes,
            max_message_bytes: self.max_message_bytes,
        }
    }
}

/// Offline: nothing is allowed until a task is given a policy.
pub open spec fn default_socket_policy() -> SocketPolicyView {
    SocketPolicyView {
        allow_remote: false,
        allow_http: false,
        allow_websocket: false,
        allow_tcp: false,
        allowed_hosts: Seq::empty(),
        denied_hosts: Seq::empty(),
        dns_allowlist: Seq::empty(),
        connect_timeout_ms: 5_000,
        io_timeout_ms: 10_000,
        max_response_bytes: 262_144,
        max_message_bytes: 65_536,
    }
}

fn copy_texts(v: &Vec<String>) -> (r: Vec<String>)
    ensures
        r@.map_values(|h: String| h@) == v@.map_values(|h: String| h@),
{
    let mut r: Vec<String> = Vec::new();
    let mut i: usize = 0;
    while i < v.len()
        invariant
            i <= v@.len(),
            r@.map_values(|h: String| h@) == v@.take(i as int).map_values(|h: String| h@),
        decreases v@.len() - i,
    {
        let ghost before = r@;
        let c = v[i].clone();
        r.push(c);
        proof {
            assert(r@ == before.push(c));
            assert(v@.take(i + 1) =~= v@.take(i as int).push(v@[i as int]));
            assert(r@.map_values(|h: String| h@) =~= before.map_values(|h: String| h@).push(c@));
            assert(v@.take(i + 1).map_values(|h: String| h@) =~= v@.take(i as int).map_values(
                |h: String| h@,
            ).push(v@[i as int]@));
        }
        i = i + 1;
    }
    proof {
        assert(v@.take(v@.len() as int) =~= v@);
    }
    r
}

impl Default for SocketPolicy {
    fn default() -> (p: Self)
        ensures
            p@ == default_socket_policy(),
    {
        let p = SocketPolicy {
            allow_remote: false,
            allow_http: false,
            allow_websocket: false,
            allow_tcp: false,
            allowed_hosts: Vec::new(),
            denied_hosts: Vec::new(),
            dns_allowlist: Vec::new(),
            connect_timeout_ms: 5_000,
            io_timeout_ms: 10_000,
            max_response_bytes: 262_144,
            max_message_bytes: 65_536,
        };
        assert(p@.allowed_hosts =~= Seq::<Seq<char>>::empty());
        assert(p@.denied_hosts =~= Seq::<Seq<char>>::empty());
        assert(p@.dns_allowlist =~= Seq::<Seq<char>>::empty());
        p
    }
}

impl SocketPolicy {
    pub fn duplicate(&self) -> (r: Self)
        ensures
            r@ == self@,
    {
        SocketPolicy {
            allow_remote: self.allow_remote,
            allow_http: self.allow_http,
            allow_websocket: self.allow_websocket,
            allow_tcp: self.allow_tcp,
            allowed_hosts: copy_texts(&self.allowed_hosts),
            denied_hosts: copy_texts(&self.denied_hosts),
            dns_allowlist: copy_texts(&self.dns_allowlist),
            connect_timeout_ms: self.connect_timeout_ms,
            io_timeout_ms: self.io_timeout_ms,
            max_response_bytes: self.max_response_bytes,
            max_message_bytes: self.max_message_bytes,
        }
    }
}

/// Some entry of `list` names `host`, ignoring ASCII case.
pub open spec fn lists_host(list: Seq<Seq<char>>, host: Seq<char>) -> bool {
    exists|i: int| 0 <= i < list.len() && eq_ignore_ascii_case(#[trigger] list[i], host)
}

fn list_has_host(list: &Vec<String>, host: &str) -> (b: bool)
    ensures
        b == lists_host(list@.map_values(|h: String| h@), host@),
{
    let ghost l = list@.map_values(|h: String| h@);
    let mut i: usize = 0;
    while i < list.len()
        invariant
            i <= list@.len(),
            l == list@.map_values(|h: String| h@),
            forall|j: int| 0 <= j < i ==> !eq_ignore_ascii_case(#[trigger] l[j], host@),
        decreases list@.len() - i,
    {
        if text_eq_ignore_ascii_case(list[i].as_str(), host) {
            proof {
                assert(l[i as int] == list@[i as int]@);
            }
            return true;
        }
        i = i + 1;
    }
    false
}

pub open spec fn msg_for_task(head: Seq<char>, task_id: u64) -> Seq<char> {
    head + decimal(task_id as nat)
}

/// The decision of the policy gate: remote access first, then the
/// capability, then the DNS allowlist, the denylist and the host allowlist.
pub open spec fn gate_outcome(
    p: SocketPolicyView,
    task_id: u64,
    host: Seq<char>,
    capability: NetworkCapability,
) -> Result<(), Seq<char>> {
    if !p.allow_remote {
        Err(msg_for_task("network disabled for task "@, task_id))
    } else if capability == NetworkCapability::Http && !p.allow_http {
        Err(msg_for_task("HTTP disabled for task "@, task_id))
    } else if capability == NetworkCapability::WebSocket && !p.allow_websocket {
        Err(msg_for_task("WebSocket disabled for task "@, task_id))
    } else if capability == NetworkCapability::Tcp && !p.allow_tcp {
        Err(msg_for_task("TCP disabled for task "@, task_id))
    } else if p.dns_allowlist.len() > 0 && !lists_host(p.dns_allowlist, host) {
        Err("dns host "@ + host + " not permitted"@)
    } else if p.denied_hosts.len() > 0 && lists_host(p.denied_hosts, host) {
        Err("host "@ + host + " explicitly denied"@)
    } else if p.allowed_hosts.len() > 0 && !lists_host(p.allowed_hosts, host) {
        Err("host "@ + host + " not permitted"@)
    } else {
        Ok(())
    }
}

/// The outcome with its message as a sequence.
pub open spec fn message_outcome<T>(r: Result<T, String>) -> Result<T, Seq<char>> {
    match r {
        Ok(v) => Ok(v),
        Err(m) => Err(m@),
    }
}

fn task_text(head: &str, task_id: u64) -> (s: String)
    ensures
        s@ == msg_for_task(head@, task_id),
{
    let mut out: Vec<char> = Vec::new();
    push_text(&mut out, head);
    push_decimal(&mut out, task_id);
    proof {
        assert(out@ =~= msg_for_task(head@, task_id));
    }
    string_from(out.as_slice())
}

fn host_text(head: &str, host: &str, tail: &str) -> (s: String)
    ensures
        s@ == head@ + host@ + tail@,
{
    let mut out: Vec<char> = Vec::new();
    push_text(&mut out, head);
    push_text(&mut out, host);
    push_text(&mut out, tail);
    proof {
        assert(out@ =~= head@ + host@ + tail@);
    }
    string_from(out.as_slice())
}

fn limit_text(head: &str, limit: usize, tail: &str) -> (s: String)
    ensures
        s@ == head@ + decimal(limit as nat) + tail@,
{
    let mut out: Vec<char> = Vec::new();
    push_text(&mut out, head);
    push_decimal(&mut out, limit as u64);
    push_text(&mut out, tail);
    proof {
        assert(out@ =~= head@ + decimal(limit as nat) + tail@);
    }
    string_from(out.as_slice())
}

fn socket_owner_text(kind: &str, task_id: u64, socket_id: u64) -> (s: String)
    ensures
        s@ == "task "@ + decimal(task_id as nat) + " cannot use "@ + kind@ + " "@ + decimal(
            socket_id as nat,
        ),
{
    let mut out: Vec<char> = Vec::new();
    push_text(&mut out, "task ");
    push_decimal(&mut out, task_id);
    push_text(&mut out, " cannot use ");
    push_text(&mut out, kind);
    push_text(&mut out, " ");
    push_decimal(&mut out, socket_id);
    proof {
        assert(out@ =~= "task "@ + decimal(task_id as nat) + " cannot use "@ + kind@ + " "@
            + decimal(socket_id as nat));
    }
    string_from(out.as_slice())
}

/// Checks a request against a socket policy.
pub fn check_gate(policy: &SocketPolicy, task_id: u64, host: &str, capability: NetworkCapability) -> (r:
    Result<(), String>)
    ensures
        message_outcome(r) == gate_outcome(policy@, task_id, host@, capability),
        policy.allow_remote && capability_on(policy@, capability) && policy@.dns_allowlist.len() > 0
            && (forall|i: int|
            0 <= i < policy@.dns_allowlist.len() ==> !eq_ignore_ascii_case(
                #[trigger] policy@.dns_allowlist[i],
                host@,
            )) ==> (r matches Err(m) && m@ == "dns host "@ + host@ + " not permitted"@),
{
    if !policy.allow_remote {
        return Err(task_text("network disabled for task ", task_id));
    }
    match capability {
        NetworkCapability::Http => {
            if !policy.allow_http {
                return Err(task_text("HTTP disabled for task ", task_id));
            }
        },
        NetworkCapability::WebSocket => {
            if !policy.allow_websocket {
                return Err(task_text("WebSocket disabled for task ", task_id));
            }
        },
        NetworkCapability::Tcp => {
            if !policy.allow_tcp {
                return Err(task_text("TCP disabled for task ", task_id));
            }
        },
    }
    if policy.dns_allowlist.len() > 0 && !list_has_host(&policy.dns_allowlist, host) {
        return Err(host_text("dns host ", host, " not permitted"));
    }
    if policy.denied_hosts.len() > 0 && list_has_host(&policy.denied_hosts, host) {
        return Err(host_text("host ", host, " explicitly denied"));
    }
    if policy.allowed_hosts.len() > 0 && !list_has_host(&policy.allowed_hosts, host) {
        return Err(host_text("host ", host, " not permitted"));
    }
    Ok(())
}

/// What `url::Url::parse` makes of a text: the serialized URL, its scheme and
/// its host when it names one; nothing when the text does not parse.
pub uninterp spec fn url_parts(raw: Seq<char>) -> Option<(Seq<char>, Seq<char>, Option<Seq<char>>)>;

/// A parsed URL, held as plain texts.
#[derive(Debug)]
pub struct UrlParts {
    pub href: String,
    pub scheme: String,
    pub host: Option<String>,
}

impl View for UrlParts {
    type V = (Seq<char>, Seq<char>, Option<Seq<char>>);

    open spec fn view(&self) -> (Seq<char>, Seq<char>, Option<Seq<char>>) {
        (
            self.href@,
            self.scheme@,
            match self.host {
                Some(h) => Some(h@),
                None => None,
            },
        )
    }
}

/// Parses a URL text with `url::Url::parse` and reads back its serialization
/// (`as_str`), `scheme` and `host_str`.
#[verifier::external_body]
pub(crate) fn parse_url(raw: &str) -> (r: Result<UrlParts, url::ParseError>)
    ensures
        r is Ok <==> url_parts(raw@) is Some,
        r matches Ok(u) ==> url_parts(raw@) == Some(u@),
{
    match url::Url::parse(raw) {
        Ok(u) => Ok(
            UrlParts {
                href: u.as_str().to_string(),
                scheme: u.scheme().to_string(),
                host: match u.host_str() {
                    Some(h) => Some(h.to_string()),
                    None => None,
                },
            },
        ),
        Err(e) => Err(e),
    }
}

/// The host that a URL text names, or an empty text when it does not parse
/// or names no host.
pub open spec fn url_host(raw: Seq<char>) -> Seq<char> {
    match url_parts(raw) {
        Some((_, _, Some(h))) => h,
        _ => Seq::empty(),
    }
}

/// A character that may stand in an HTTP token (RFC 9110, `tchar`): an ASCII
/// digit or letter, or one of ``!#$%&'*+-.^_`|~``.
pub open spec fn token_char(c: char) -> bool {
    let n = c as u32;
    ||| 48 <= n <= 57
    ||| 65 <= n <= 90
    ||| 97 <= n <= 122
    ||| c == '!' || c == '#' || c == '$' || c == '%' || c == '&' || c == '\''
    ||| c == '*' || c == '+' || c == '-' || c == '.' || c == '^' || c == '_'
    ||| c == '`' || c == '|' || c == '~'
}

/// Whether a text is a request method: a non-empty token.
pub open spec fn http_method_accepted(method: Seq<char>) -> bool {
    method.len() > 0 && forall|i: int| 0 <= i < method.len() ==> token_char(#[trigger] method[i])
}

/// Reads a method text with `str::parse::<reqwest::Method>`, that is
/// `http::Method::from_bytes`, which refuses an empty text and any byte that
/// is not a token character (its `METHOD_CHARS` table; the bytes of a
/// character beyond ASCII are all refused there).
#[verifier::external_body]
fn parse_http_method(method: &str) -> (r: Option<reqwest::Method>)
    ensures
        r is Some <==> http_method_accepted(method@),
{
    match method.parse::<reqwest::Method>() {
        Ok(m) => Some(m),
        Err(_) => None,
    }
}

/// The method of a request as the HTTP client takes it, or the refusal of a
/// method text that is not one.
pub fn request_method(request: &HttpRequest) -> (r: Result<reqwest::Method, String>)
    ensures
        r is Ok <==> http_method_accepted(request.method@),
        request.method@.len() == 0 ==> r is Err,
        r matches Err(m) ==> m@ == "invalid HTTP method"@,
{
    match parse_http_method(request.method.as_str()) {
        Some(m) => Ok(m),
        None => Err("invalid HTTP method".to_string()),
    }
}

/// The host that a URL text names, or an empty text.
pub fn host_of_url(raw: &str) -> (h: String)
    ensures
        h@ == url_host(raw@),
{
    match parse_url(raw) {
        Ok(u) => match u.host {
            Some(host) => host,
            None => String::new(),
        },
        Err(_) => String::new(),
    }
}

#[derive(Debug)]
struct WebSocketSession {
    task_id: u64,
    max_message_bytes: usize,
}

#[derive(Debug)]
struct TcpSession {
    task_id: u64,
    io_timeout_ms: u64,
    max_message_bytes: usize,
}

/// How the host's attempt at an HTTP exchange ended.
#[derive(Debug)]
pub enum HttpExchange {
    /// Sending failed; the text describes the error.
    SendFailed(String),
    /// Sending took longer than the policy allows.
    SendTimedOut(String),
    /// Reading the body failed.
    BodyFailed(String),
    /// Reading the body took longer than the policy allows.
    BodyTimedOut(String),
    /// A response arrived.
    Received(HttpResponse),
}

/// What an HTTP exchange leaves as the task's last error: the message of a
/// failure, or nothing when the response was accepted.
pub open spec fn exchange_error(e: HttpExchange, limit: usize) -> Option<Seq<char>> {
    match e {
        HttpExchange::SendFailed(m) => Some("HTTP request failed: "@ + m@),
        HttpExchange::SendTimedOut(m) => Some("HTTP request timed out: "@ + m@),
        HttpExchange::BodyFailed(m) => Some("HTTP body read failed: "@ + m@),
        HttpExchange::BodyTimedOut(m) => Some("HTTP body read timed out: "@ + m@),
        HttpExchange::Received(r) => if r.body@.len() > limit {
            Some("HTTP response exceeded "@ + decimal(limit as nat) + " bytes"@)
        } else {
            None
        },
    }
}

/// The network subsystem: per-task policies, the last error each task saw,
/// and the sessions that tasks opened.
#[derive(Debug)]
pub struct NetworkSubsystem {
    host: HostBridge,
    policies: IdMap<SocketPolicy>,
    last_errors: IdMap<String>,
    next_socket_id: SocketId,
    websockets: IdMap<WebSocketSession>,
    tcp_sockets: IdMap<TcpSession>,
}

impl NetworkSubsystem {
    pub closed spec fn wf(&self) -> bool {
        &&& self.policies.wf()
        &&& self.last_errors.wf()
        &&& self.websockets.wf()
        &&& self.tcp_sockets.wf()
    }

    pub closed spec fn spec_host(&self) -> HostBridge {
        self.host
    }

    pub closed spec fn policies(&self) -> Map<u64, SocketPolicyView> {
        self.policies@.map_values(|p: SocketPolicy| p@)
    }

    /// The policy in force for a task: its own, or the offline default.
    pub open spec fn policy_of(&self, task_id: u64) -> SocketPolicyView {
        if self.policies().dom().contains(task_id) {
            self.policies()[task_id]
        } else {
            default_socket_policy()
        }
    }

    pub closed spec fn last_errors(&self) -> Map<u64, Seq<char>> {
        self.last_errors@.map_values(|m: String| m@)
    }

    pub closed spec fn next_socket(&self) -> u64 {
        self.next_socket_id
    }

    /// Open WebSocket sessions: owner task and message limit.
    pub closed spec fn websockets(&self) -> Map<u64, (u64, usize)> {
        self.websockets@.map_values(|s: WebSocketSession| (s.task_id, s.max_message_bytes))
    }

    /// Open TCP sessions: owner task, I/O timeout and message limit.
    pub closed spec fn tcp_sockets(&self) -> Map<u64, (u64, u64, usize)> {
        self.tcp_sockets@.map_values(
            |s: TcpSession| (s.task_id, s.io_timeout_ms, s.max_message_bytes),
        )
    }

    pub fn new(host: HostBridge) -> (n: Self)
        ensures
            n.wf(),
            n.spec_host() == host,
            n.policies() == Map::<u64, SocketPolicyView>::empty(),
            n.last_errors() == Map::<u64, Seq<char>>::empty(),
            n.next_socket() == 1,
            n.websockets() == Map::<u64, (u64, usize)>::empty(),
            n.tcp_sockets() == Map::<u64, (u64, u64, usize)>::empty(),
    {
        let n = NetworkSubsystem {
            host,
            policies: IdMap::new(),
            last_errors: IdMap::new(),
            next_socket_id: 1,
            websockets: IdMap::new(),
            tcp_sockets: IdMap::new(),
        };
        proof {
            assert(n.policies() =~= Map::<u64, SocketPolicyView>::empty());
            assert(n.last_errors() =~= Map::<u64, Seq<char>>::empty());
            assert(n.websockets() =~= Map::<u64, (u64, usize)>::empty());
            assert(n.tcp_sockets() =~= Map::<u64, (u64, u64, usize)>::empty());
        }
        n
    }

    pub fn set_policy(&mut self, task_id: u64, policy: SocketPolicy)
        requires
            old(self).wf(),
        ensures
            final(self).wf(),
            final(self).policies() == old(self).policies().insert(task_id, policy@),
            final(self).last_errors() == old(self).last_errors(),
            final(self).next_socket() == old(self).next_socket(),
            final(self).websockets() == old(self).websockets(),
            final(self).tcp_sockets() == old(self).tcp_sockets(),
            final(self).spec_host() == old(self).spec_host(),
    {
        let ghost pv = policy@;
        self.policies.insert(task_id, policy);
        proof {
            assert(self.policies() =~= old(self).policies().insert(task_id, pv));
        }
    }

    /// A copy of the policy in force for a task.
    pub fn policy(&self, task_id: u64) -> (p: SocketPolicy)
        requires
            self.wf(),
        ensures
            p@ == self.policy_of(task_id),
    {
        match self.policies.get(task_id) {
            Some(p) => p.duplicate(),
            None => SocketPolicy::default(),
        }
    }

    /// The message of the last failed exchange of a task, if any.
    pub fn last_error(&self, task_id: u64) -> (m: Option<String>)
        requires
            self.wf(),
        ensures
            m matches Some(s) ==> self.last_errors().dom().contains(task_id) && s@ == self.last_errors()[task_id],
            m is None ==> !self.last_errors().dom().contains(task_id),
    {
        match self.last_errors.get(task_id) {
            Some(m) => Some(m.clone()),
            None => None,
        }
    }

    fn record_error(&mut self, task_id: u64, message: String)
        requires
            old(self).wf(),
        ensures
            final(self).wf(),
            final(self).last_errors() == old(self).last_errors().insert(task_id, message@),
            final(self).policies() == old(self).policies(),
            final(self).next_socket() == old(self).next_socket(),
            final(self).websockets() == old(self).websockets(),
            final(self).tcp_sockets() == old(self).tcp_sockets(),
            final(self).spec_host() == old(self).spec_host(),
    {
        let ghost mv = message@;
        self.last_errors.insert(task_id, message);
        proof {
            assert(self.last_errors() =~= old(self).last_errors().insert(task_id, mv));
        }
    }

    fn clear_error(&mut self, task_id: u64)
        requires
            old(self).wf(),
        ensures
            final(self).wf(),
            final(self).last_errors() == old(self).last_errors().remove(task_id),
            final(self).policies() == old(self).policies(),
            final(self).next_socket() == old(self).next_socket(),
            final(self).websockets() == old(self).websockets(),
            final(self).tcp_sockets() == old(self).tcp_sockets(),
            final(self).spec_host() == old(self).spec_host(),
    {
        self.last_errors.remove(task_id);
        proof {
            assert(self.last_errors() =~= old(self).last_errors().remove(task_id));
        }
    }

    /// Checks a request of a task against the policy in force for it.
    pub fn enforce(&self, task_id: u64, host: &str, capability: NetworkCapability) -> (r: Result<
        (),
        String,
    >)
        requires
            self.wf(),
        ensures
            message_outcome(r) == gate_outcome(self.policy_of(task_id), task_id, host@, capability),
    {
        match self.policies.get(task_id) {
            Some(p) => check_gate(p, task_id, host, capability),
            None => {
                let p = SocketPolicy::default();
                check_gate(&p, task_id, host, capability)
            },
        }
    }

    /// Whether a task may send an HTTP request: the policy gate for the URL's
    /// host, then the host's HTTP support. Gives the policy that the exchange
    /// runs under.
    pub fn authorize_http(&self, task_id: u64, request: &HttpRequest) -> (r: Result<
        SocketPolicy,
        String,
    >)
        requires
            self.wf(),
        ensures
            ({
                let gate = gate_outcome(
                    self.policy_of(task_id),
                    task_id,
                    url_host(request.url@),
                    NetworkCapability::Http,
                );
                match r {
                    Ok(p) => gate is Ok && self.spec_host().spec_capabilities().http && p@
                        == self.policy_of(task_id),
                    Err(m) => if gate is Err {
                        gate == Err::<(), Seq<char>>(m@)
                    } else {
                        !self.spec_host().spec_capabilities().http && m@
                            == "host runtime does not support HTTP"@
                    },
                }
            }),
    {
        let host = host_of_url(request.url.as_str());
        self.enforce(task_id, host.as_str(), NetworkCapability::Http)?;
        if !self.host.capabilities().http {
            return Err("host runtime does not support HTTP".to_string());
        }
        Ok(self.policy(task_id))
    }

    /// Records how an HTTP exchange ended: failures and oversized bodies
    /// become the task's last error, an accepted response clears it.
    pub fn finish_http(&mut self, task_id: u64, limit: usize, exchange: HttpExchange) -> (r: Result<
        HttpResponse,
        String,
    >)
        requires
            old(self).wf(),
        ensures
            final(self).wf(),
            final(self).policies() == old(self).policies(),
            final(self).next_socket() == old(self).next_socket(),
            final(self).websockets() == old(self).websockets(),
            final(self).tcp_sockets() == old(self).tcp_sockets(),
            final(self).spec_host() == old(self).spec_host(),
            match exchange_error(exchange, limit) {
                Some(m) => r matches Err(e) && e@ == m && final(self).last_errors() == old(
                    self,
                ).last_errors().insert(task_id, m),
                None => r matches Ok(resp) && exchange matches HttpExchange::Received(x) && resp
                    == x && final(self).last_errors() == old(self).last_errors().remove(task_id),
            },
    {
        let message = match exchange {
            HttpExchange::SendFailed(m) => crate::text::concat2("HTTP request failed: ", m.as_str()),
            HttpExchange::SendTimedOut(m) => crate::text::concat2(
                "HTTP request timed out: ",
                m.as_str(),
            ),
            HttpExchange::BodyFailed(m) => crate::text::concat2("HTTP body read failed: ", m.as_str()),
            HttpExchange::BodyTimedOut(m) => crate::text::concat2(
                "HTTP body read timed out: ",
                m.as_str(),
            ),
            HttpExchange::Received(response) => {
                if response.body.len() > limit {
                    limit_text("HTTP response exceeded ", limit, " bytes")
                } else {
                    self.clear_error(task_id);
                    return Ok(response);
                }
            },
        };
        self.record_error(task_id, message.clone());
        Err(message)
    }

    /// The next socket id.
    fn next_socket_id(&mut self) -> (id: SocketId)
        requires
            old(self).next_socket() < u64::MAX,
        ensures
            id == old(self).next_socket(),
            final(self).next_socket() == old(self).next_socket() + 1,
            final(self).policies == old(self).policies,
            final(self).last_errors == old(self).last_errors,
            final(self).websockets == old(self).websockets,
            final(self).tcp_sockets == old(self).tcp_sockets,
            final(self).host == old(self).host,
    {
        let current = self.next_socket_id;
        self.next_socket_id = self.next_socket_id + 1;
        current
    }

    /// Whether a task may open a WebSocket to `host`.
    pub fn authorize_websocket(&self, task_id: u64, host: &str) -> (r: Result<SocketPolicy, String>)
        requires
            self.wf(),
        ensures
            ({
                let gate = gate_outcome(self.policy_of(task_id), task_id, host@, NetworkCapability::WebSocket);
                match r {
                    Ok(p) => gate is Ok && self.spec_host().spec_capabilities().websocket && p@
                        == self.policy_of(task_id),
                    Err(m) => if gate is Err {
                        gate == Err::<(), Seq<char>>(m@)
                    } else {
                        !self.spec_host().spec_capabilities().websocket && m@
                            == "host runtime does not support WebSocket"@
                    },
                }
            }),
    {
        self.enforce(task_id, host, NetworkCapability::WebSocket)?;
        if !self.host.capabilities().websocket {
            return Err("host runtime does not support WebSocket".to_string());
        }
        Ok(self.policy(task_id))
    }

    /// The host of the URL that a WebSocket is opened to.
    pub fn websocket_host(url: &str) -> (h: String)
        ensures
            h@ == url_host(url@),
    {
        host_of_url(url)
    }

    /// Records a WebSocket that a task opened and gives its socket id.
    pub fn register_websocket(&mut self, task_id: u64, max_message_bytes: usize) -> (id: SocketId)
        requires
            old(self).wf(),
            old(self).next_socket() < u64::MAX,
        ensures
            final(self).wf(),
            id == old(self).next_socket(),
            final(self).next_socket() == old(self).next_socket() + 1,
            final(self).websockets() == old(self).websockets().insert(id, (task_id, max_message_bytes)),
            final(self).tcp_sockets() == old(self).tcp_sockets(),
            final(self).policies() == old(self).policies(),
            final(self).last_errors() == old(self).last_errors(),
            final(self).spec_host() == old(self).spec_host(),
    {
        let id = self.next_socket_id();
        self.websockets.insert(id, WebSocketSession { task_id, max_message_bytes });
        proof {
            assert(self.websockets() =~= old(self).websockets().insert(id, (task_id, max_message_bytes)));
        }
        id
    }

    /// Whether a task may use a WebSocket session, and a message of `len`
    /// bytes fits it.
    pub fn check_websocket_message(&self, task_id: u64, socket_id: SocketId, len: usize, sending: bool) -> (r:
        Result<(), String>)
        requires
            self.wf(),
        ensures
            if !self.websockets().dom().contains(socket_id) {
                message_outcome(r) == Err::<(), Seq<char>>("unknown websocket id"@)
            } else if self.websockets()[socket_id].0 != task_id {
                message_outcome(r) == Err::<(), Seq<char>>(
                    "task "@ + decimal(task_id as nat) + " cannot use "@ + "websocket"@ + " "@
                        + decimal(socket_id as nat),
                )
            } else if len > self.websockets()[socket_id].1 {
                message_outcome(r) == Err::<(), Seq<char>>(
                    (if sending {
                        "websocket payload exceeded "@
                    } else {
                        "websocket message exceeded "@
                    }) + decimal(self.websockets()[socket_id].1 as nat) + " bytes"@,
                )
            } else {
                r is Ok
            },
    {
        match self.websockets.get(socket_id) {
            None => Err("unknown websocket id".to_string()),
            Some(session) => {
                if session.task_id != task_id {
                    return Err(socket_owner_text("websocket", task_id, socket_id));
                }
                if len > session.max_message_bytes {
                    if sending {
                        return Err(
                            limit_text("websocket payload exceeded ", session.max_message_bytes, " bytes"),
                        );
                    } else {
                        return Err(
                            limit_text("websocket message exceeded ", session.max_message_bytes, " bytes"),
                        );
                    }
                }
                Ok(())
            },
        }
    }

    /// Whether a task may use a WebSocket session at all.
    pub fn check_websocket_owner(&self, task_id: u64, socket_id: SocketId) -> (r: Result<(), String>)
        requires
            self.wf(),
        ensures
            if !self.websockets().dom().contains(socket_id) {
                message_outcome(r) == Err::<(), Seq<char>>("unknown websocket id"@)
            } else if self.websockets()[socket_id].0 != task_id {
                message_outcome(r) == Err::<(), Seq<char>>(
                    "task "@ + decimal(task_id as nat) + " cannot use "@ + "websocket"@ + " "@
                        + decimal(socket_id as nat),
                )
            } else {
                r is Ok
            },
    {
        match self.websockets.get(socket_id) {
            None => Err("unknown websocket id".to_string()),
            Some(session) => {
                if session.task_id != task_id {
                    return Err(socket_owner_text("websocket", task_id, socket_id));
                }
                Ok(())
            },
        }
    }

    /// Whether a task may open a TCP connection to `host`.
    pub fn authorize_tcp(&self, task_id: u64, host: &str) -> (r: Result<SocketPolicy, String>)
        requires
            self.wf(),
        ensures
            ({
                let gate = gate_outcome(self.policy_of(task_id), task_id, host@, NetworkCapability::Tcp);
                match r {
                    Ok(p) => gate is Ok && self.spec_host().spec_capabilities().tcp && p@
                        == self.policy_of(task_id),
                    Err(m) => if gate is Err {
                        gate == Err::<(), Seq<char>>(m@)
                    } else {
                        !self.spec_host().spec_capabilities().tcp && m@
                            == "host runtime does not support TCP"@
                    },
                }
            }),
    {
        self.enforce(task_id, host, NetworkCapability::Tcp)?;
        if !self.host.capabilities().tcp {
            return Err("host runtime does not support TCP".to_string());
        }
        Ok(self.policy(task_id))
    }

    /// Records a TCP connection that a task opened and gives its socket id.
    pub fn register_tcp(&mut self, task_id: u64, io_timeout_ms: u64, max_message_bytes: usize) -> (id:
        SocketId)
        requires
            old(self).wf(),
            old(self).next_socket() < u64::MAX,
        ensures
            final(self).wf(),
            id == old(self).next_socket(),
            final(self).next_socket() == old(self).next_socket() + 1,
            final(self).tcp_sockets() == old(self).tcp_sockets().insert(
                id,
                (task_id, io_timeout_ms, max_message_bytes),
            ),
            final(self).websockets() == old(self).websockets(),
            final(self).policies() == old(self).policies(),
            final(self).last_errors() == old(self).last_errors(),
            final(self).spec_host() == old(self).spec_host(),
    {
        let id = self.next_socket_id();
        self.tcp_sockets.insert(id, TcpSession { task_id, io_timeout_ms, max_message_bytes });
        proof {
            assert(self.tcp_sockets() =~= old(self).tcp_sockets().insert(
                id,
                (task_id, io_timeout_ms, max_message_bytes),
            ));
        }
        id
    }

    /// Whether a task may send `len` bytes on a TCP session.
    pub fn check_tcp_send(&self, task_id: u64, socket_id: SocketId, len: usize) -> (r: Result<u64, String>)
        requires
            self.wf(),
        ensures
            if !self.tcp_sockets().dom().contains(socket_id) {
                message_outcome(r) == Err::<u64, Seq<char>>("unknown tcp socket id"@)
            } else if self.tcp_sockets()[socket_id].0 != task_id {
                message_outcome(r) == Err::<u64, Seq<char>>(
                    "task "@ + decimal(task_id as nat) + " cannot use "@ + "tcp socket"@ + " "@
                        + decimal(socket_id as nat),
                )
            } else if len > self.tcp_sockets()[socket_id].2 {
                message_outcome(r) == Err::<u64, Seq<char>>(
                    "tcp payload exceeded "@ + decimal(self.tcp_sockets()[socket_id].2 as nat)
                        + " bytes"@,
                )
            } else {
                r == Ok::<u64, String>(self.tcp_sockets()[socket_id].1)
            },
    {
        match self.tcp_sockets.get(socket_id) {
            None => Err("unknown tcp socket id".to_string()),
            Some(session) => {
                if session.task_id != task_id {
                    return Err(socket_owner_text("tcp socket", task_id, socket_id));
                }
                if len > session.max_message_bytes {
                    return Err(limit_text("tcp payload exceeded ", session.max_message_bytes, " bytes"));
                }
                Ok(session.io_timeout_ms)
            },
        }
    }

    /// Whether a task may read from a TCP session; gives how many bytes one
    /// read may take and the I/O timeout.
    pub fn check_tcp_recv(&self, task_id: u64, socket_id: SocketId, max_len: usize) -> (r: Result<
        (usize, u64),
        String,
    >)
        requires
            self.wf(),
        ensures
            if !self.tcp_sockets().dom().contains(socket_id) {
                message_outcome(r) == Err::<(usize, u64), Seq<char>>("unknown tcp socket id"@)
            } else if self.tcp_sockets()[socket_id].0 != task_id {
                message_outcome(r) == Err::<(usize, u64), Seq<char>>(
                    "task "@ + decimal(task_id as nat) + " cannot use "@ + "tcp socket"@ + " "@
                        + decimal(socket_id as nat),
                )
            } else {
                r == Ok::<(usize, u64), String>(
                    (
                        if max_len < self.tcp_sockets()[socket_id].2 {
                            max_len
                        } else {
                            self.tcp_sockets()[socket_id].2
                        },
                        self.tcp_sockets()[socket_id].1,
                    ),
                )
            },
    {
        match self.tcp_sockets.get(socket_id) {
            None => Err("unknown tcp socket id".to_string()),
            Some(session) => {
                if session.task_id != task_id {
                    return Err(socket_owner_text("tcp socket", task_id, socket_id));
                }
                let read_len = if max_len < session.max_message_bytes {
                    max_len
                } else {
                    session.max_message_bytes
                };
                Ok((read_len, session.io_timeout_ms))
            },
        }
    }

    /// Whether another socket id can be handed out.
    pub fn can_open_socket(&self) -> (b: bool)
        ensures
            b == (self.next_socket() < u64::MAX),
    {
        self.next_socket_id < u64::MAX
    }
}

/// A task without a policy of its own reaches nothing: every request is
/// refused because remote access is off.
pub proof fn law_default_policy_is_offline(task_id: u64, host: Seq<char>, capability: NetworkCapability)
    ensures
        gate_outcome(default_socket_policy(), task_id, host, capability) == Err::<(), Seq<char>>(
            msg_for_task("network disabled for task "@, task_id),
        ),
{
}

/// A host on the denylist is refused whatever the allowlist says, once
/// remote access, the capability and the DNS allowlist let the request by.
pub proof fn law_denylist_wins(p: SocketPolicyView, task_id: u64, host: Seq<char>, capability: NetworkCapability)
    requires
        lists_host(p.denied_hosts, host),
    ensures
        gate_outcome(p, task_id, host, capability) is Err,
{
}

/// Whether a policy switches a capability on.
pub open spec fn capability_on(p: SocketPolicyView, capability: NetworkCapability) -> bool {
    match capability {
        NetworkCapability::Http => p.allow_http,
        NetworkCapability::WebSocket => p.allow_websocket,
        NetworkCapability::Tcp => p.allow_tcp,
    }
}

/// Which requests the policy lets through: those with remote access and
/// the capability on, whose host each non-empty allowlist names and no
/// denylist entry names.
pub proof fn law_gate_admits_exactly(
    p: SocketPolicyView,
    task_id: u64,
    host: Seq<char>,
    capability: NetworkCapability,
)
    ensures
        gate_outcome(p, task_id, host, capability) is Ok <==> {
            &&& p.allow_remote
            &&& capability_on(p, capability)
            &&& p.dns_allowlist.len() > 0 ==> exists|i: int|
                0 <= i < p.dns_allowlist.len() && eq_ignore_ascii_case(
                    #[trigger] p.dns_allowlist[i],
                    host,
                )
            &&& forall|i: int|
                0 <= i < p.denied_hosts.len() ==> !eq_ignore_ascii_case(
                    #[trigger] p.denied_hosts[i],
                    host,
                )
            &&& p.allowed_hosts.len() > 0 ==> exists|i: int|
                0 <= i < p.allowed_hosts.len() && eq_ignore_ascii_case(
                    #[trigger] p.allowed_hosts[i],
                    host,
                )
        },
{
}

/// Once remote access and the capability are on, a host that no entry of a
/// non-empty DNS allowlist names, ignoring ASCII case, is refused as a DNS
/// host that is not permitted, whatever the other lists say.
pub proof fn law_dns_allowlist_refuses(
    p: SocketPolicyView,
    task_id: u64,
    host: Seq<char>,
    capability: NetworkCapability,
)
    requires
        p.allow_remote,
        capability_on(p, capability),
        p.dns_allowlist.len() > 0,
        forall|i: int|
            0 <= i < p.dns_allowlist.len() ==> !eq_ignore_ascii_case(#[trigger] p.dns_allowlist[i], host),
    ensures
        gate_outcome(p, task_id, host, capability) == Err::<(), Seq<char>>(
            "dns host "@ + host + " not permitted"@,
        ),
{
}

} // verus!
