//! The client side of a session: from a URL to a live tunnel and its
//! teardown.

use crate::address::SocketAddress;
use crate::status::exit_status;
use vstd::prelude::*;
use vstd::string::*;

verus! {

/// The port dialled when the URL names none.
pub const DEFAULT_PORT: u16 = 4433;

/// What the client is started with.
#[derive(Clone, Debug, PartialEq, Eq)]
pub struct Opt {
    /// URL of the server, `quic://host[:port]`.
    pub url: String,
    /// Local address to bind; chosen by address family when absent.
    pub bind_addr: Option<SocketAddress>,
}

/// Why a client session could not be established.
#[derive(Clone, Copy, Debug, PartialEq, Eq, Structural)]
pub enum ClientError {
    /// The text is not an absolute URL.
    BadUrl,
    /// The URL's scheme is not `quic`.
    BadScheme,
    /// The URL has no host, or its host resolved to no address.
    UnresolvedHost,
    /// The local endpoint could not be bound.
    BindFailed,
    /// The QUIC handshake did not complete.
    HandshakeFailed,
    /// The bidirectional stream could not be opened.
    StreamOpenFailed,
}

/// The components of a URL that the client reads.
#[derive(Clone, Debug, PartialEq, Eq)]
pub struct UrlParts {
    pub scheme: String,
    pub host: Option<String>,
    pub port: Option<u16>,
}

/// `UrlParts` as mathematical values.
pub struct UrlPartsView {
    pub scheme: Seq<char>,
    pub host: Option<Seq<char>>,
    pub port: Option<u16>,
}

impl View for UrlParts {
    type V = UrlPartsView;

    open spec fn view(&self) -> UrlPartsView {
        UrlPartsView {
            scheme: self.scheme@,
            host: match self.host {
                Some(h) => Some(h@),
                None => None,
            },
            port: self.port,
        }
    }
}

/// The scheme, host and explicit port that URL parsing finds in `text`, or
/// `None` where `text` is not an absolute URL.
pub uninterp spec fn url_parts(text: Seq<char>) -> Option<UrlPartsView>;

/// `url::ParseError`, the reason why `url::Url::parse` refused a text. It is
/// carried through unopened.
#[verifier::external_type_specification]
#[verifier::external_body]
pub struct ExParseError(url::ParseError);

/// Parses `text` with `url::Url::parse` and copies out the results of
/// `Url::scheme`, `Url::host_str` and `Url::port`.
///
/// Trusted: parsing is taken to be a function of the text alone, which
/// `url_parts` names. Nothing is claimed about what the components are.
#[verifier::external_body]
fn parse_url(text: &str) -> (r: Result<UrlParts, url::ParseError>)
    ensures
        match r {
            Ok(parts) => url_parts(text@) == Some(parts@),
            Err(_) => url_parts(text@) is None,
        },
{
    let url = url::Url::parse(text)?;
    Ok(UrlParts {
        scheme: String::from(url.scheme()),
        host: url.host_str().map(String::from),
        port: url.port(),
    })
}

/// How many copies of `c` the sequence starts with.
pub open spec fn leading(s: Seq<char>, c: char) -> nat
    decreases s.len(),
{
    if s.len() > 0 && s[0] == c {
        1 + leading(s.drop_first(), c)
    } else {
        0
    }
}

/// How many copies of `c` the sequence ends with.
pub open spec fn trailing(s: Seq<char>, c: char) -> nat
    decreases s.len(),
{
    if s.len() > 0 && s.last() == c {
        1 + trailing(s.drop_last(), c)
    } else {
        0
    }
}

/// A host with every leading `[` and then every trailing `]` removed.
pub open spec fn strip_brackets(host: Seq<char>) -> Seq<char> {
    let rest = host.skip(leading(host, '[') as int);
    rest.take(rest.len() - trailing(rest, ']'))
}

/// `leading` counts up to the first element that differs from `c`.
proof fn lemma_leading_is(s: Seq<char>, c: char, i: int)
    requires
        0 <= i <= s.len(),
        forall|k: int| 0 <= k < i ==> s[k] == c,
        i < s.len() ==> s[i] != c,
    ensures
        leading(s, c) == i,
    decreases i,
{
    if i > 0 {
        let t = s.drop_first();
        assert forall|k: int| 0 <= k < i - 1 implies t[k] == c by {
            assert(t[k] == s[k + 1]);
        }
        lemma_leading_is(t, c, i - 1);
    }
}

/// `trailing` counts down to the last element that differs from `c`.
proof fn lemma_trailing_is(s: Seq<char>, c: char, j: int)
    requires
        0 <= j <= s.len(),
        forall|k: int| j <= k < s.len() ==> s[k] == c,
        j > 0 ==> s[j - 1] != c,
    ensures
        trailing(s, c) == s.len() - j,
    decreases s.len() - j,
{
    if j < s.len() {
        let t = s.drop_last();
        assert forall|k: int| j <= k < t.len() implies t[k] == c by {
            assert(t[k] == s[k]);
        }
        lemma_trailing_is(t, c, j);
    }
}

/// `leading` elements equal `c`, and the one after them does not.
proof fn lemma_leading_shape(s: Seq<char>, c: char)
    ensures
        leading(s, c) <= s.len(),
        forall|k: int| 0 <= k < leading(s, c) ==> s[k] == c,
        leading(s, c) < s.len() ==> s[leading(s, c) as int] != c,
    decreases s.len(),
{
    if s.len() > 0 && s[0] == c {
        let t = s.drop_first();
        lemma_leading_shape(t, c);
        assert forall|k: int| 0 <= k < leading(s, c) implies s[k] == c by {
            if k > 0 {
                assert(s[k] == t[k - 1]);
            }
        }
        if leading(s, c) < s.len() {
            assert(s[leading(s, c) as int] == t[leading(t, c) as int]);
        }
    }
}

/// The last `trailing` elements equal `c`, and the one before them does not.
proof fn lemma_trailing_shape(s: Seq<char>, c: char)
    ensures
        trailing(s, c) <= s.len(),
        forall|k: int| s.len() - trailing(s, c) <= k < s.len() ==> s[k] == c,
        trailing(s, c) < s.len() ==> s[s.len() - trailing(s, c) - 1] != c,
    decreases s.len(),
{
    if s.len() > 0 && s.last() == c {
        let t = s.drop_last();
        lemma_trailing_shape(t, c);
        assert forall|k: int| s.len() - trailing(s, c) <= k < s.len() implies s[k] == c by {
            if k < s.len() - 1 {
                assert(s[k] == t[k]);
            }
        }
        if trailing(s, c) < s.len() {
            assert(s[s.len() - trailing(s, c) - 1] == t[t.len() - trailing(t, c) - 1]);
        }
    }
}

/// What stripping leaves: a stretch of the host, from `from` up to `to`, with
/// nothing but `[` before it and nothing but `]` after it, that neither
/// starts with `[` nor ends with `]`.
pub open spec fn is_stripped(host: Seq<char>, from: int, to: int) -> bool {
    &&& 0 <= from <= to <= host.len()
    &&& forall|k: int| 0 <= k < from ==> host[k] == '['
    &&& forall|k: int| to <= k < host.len() ==> host[k] == ']'
    &&& from < to ==> host[from] != '[' && host[to - 1] != ']'
}

/// Stripping removes brackets from the two ends and nothing else, and it
/// removes all of them. There is one result that does so.
pub proof fn lemma_strip_brackets(host: Seq<char>)
    ensures
        exists|from: int, to: int|
            is_stripped(host, from, to) && strip_brackets(host) == host.subrange(from, to),
        forall|from: int, to: int|
            is_stripped(host, from, to) ==> strip_brackets(host) == host.subrange(from, to),
{
    let from = leading(host, '[') as int;
    lemma_leading_shape(host, '[');
    let rest = host.skip(from);
    lemma_trailing_shape(rest, ']');
    let to = host.len() - trailing(rest, ']');
    assert forall|k: int| to <= k < host.len() implies host[k] == ']' by {
        assert(host[k] == rest[k - from]);
    }
    if from < to {
        assert(host[to - 1] == rest[to - from - 1]);
    }
    assert(strip_brackets(host) =~= host.subrange(from, to));
    assert(is_stripped(host, from, to));
    assert forall|a: int, b: int| is_stripped(host, a, b) implies strip_brackets(host)
        == host.subrange(a, b) by {
        if a < b {
            assert(a == from) by {
                if a < from {
                    assert(host[a] == '[');
                } else if a > from {
                    assert(host[from] == '[');
                }
            }
            assert(b == to) by {
                if b < to {
                    assert(host[to - 1] == ']');
                } else if b > to {
                    assert(host[b - 1] == ']');
                }
            }
        } else {
            if from < to {
                if from < a {
                    assert(host[from] == '[');
                } else {
                    assert(host[to - 1] == ']');
                }
            }
            assert(host.subrange(a, b) =~= host.subrange(from, to));
        }
    }
}

/// The name to present as TLS server name for a URL host: the host without
/// the square brackets that surround an IPv6 literal.
pub fn sni_of_host(host: &str) -> (sni: String)
    ensures
        sni@ == strip_brackets(host@),
{
    let n = host.unicode_len();
    let mut i: usize = 0;
    while i < n && host.get_char(i) == '['
        invariant
            i <= n == host@.len(),
            forall|k: int| 0 <= k < i ==> host@[k] == '[',
        decreases n - i,
    {
        i += 1;
    }
    let mut j: usize = n;
    while j > i && host.get_char(j - 1) == ']'
        invariant
            i <= j <= n == host@.len(),
            forall|k: int| j <= k < n ==> host@[k] == ']',
        decreases j,
    {
        j -= 1;
    }
    proof {
        lemma_leading_is(host@, '[', i as int);
        let rest = host@.skip(i as int);
        assert forall|k: int| j - i <= k < rest.len() implies rest[k] == ']' by {
            assert(rest[k] == host@[k + i]);
        }
        lemma_trailing_is(rest, ']', j - i);
        assert(host@.subrange(i as int, j as int) =~= rest.take(rest.len() - trailing(rest, ']')));
    }
    host.substring_char(i, j).to_owned()
}

/// Where a session goes: the host to resolve, the name to present to the
/// server, and the port to dial.
#[derive(Clone, Debug, PartialEq, Eq)]
pub struct Target {
    pub host: String,
    pub sni: String,
    pub port: u16,
}

/// `Target` as mathematical values.
pub struct TargetView {
    pub host: Seq<char>,
    pub sni: Seq<char>,
    pub port: u16,
}

impl View for Target {
    type V = TargetView;

    open spec fn view(&self) -> TargetView {
        TargetView { host: self.host@, sni: self.sni@, port: self.port }
    }
}

/// The target that a parsed URL designates.
///
/// A scheme other than `quic` is refused first. A URL without a host cannot
/// be resolved. A URL without a port is dialled on `DEFAULT_PORT`.
pub open spec fn target_of(parts: UrlPartsView) -> Result<TargetView, ClientError> {
    if parts.scheme != "quic"@ {
        Err(ClientError::BadScheme)
    } else {
        match parts.host {
            None => Err(ClientError::UnresolvedHost),
            Some(host) => Ok(
                TargetView {
                    host,
                    sni: strip_brackets(host),
                    port: match parts.port {
                        Some(port) => port,
                        None => DEFAULT_PORT,
                    },
                },
            ),
        }
    }
}

/// Whether `got` is the exec form of `want`: the same error, or a target with
/// the same host, server name and port.
pub open spec fn target_matches(
    got: Result<Target, ClientError>,
    want: Result<TargetView, ClientError>,
) -> bool {
    match got {
        Ok(target) => want == Ok::<TargetView, ClientError>(target@),
        Err(error) => want == Err::<TargetView, ClientError>(error),
    }
}

/// Validates the components of a URL and derives the session's target.
pub fn target_from_parts(parts: UrlParts) -> (r: Result<Target, ClientError>)
    ensures
        target_matches(r, target_of(parts@)),
{
    let quic: String = "quic".to_owned();
    if parts.scheme != quic {
        return Err(ClientError::BadScheme);
    }
    match parts.host {
        None => Err(ClientError::UnresolvedHost),
        Some(host) => {
            let sni = sni_of_host(host.as_str());
            let port = match parts.port {
                Some(port) => port,
                None => DEFAULT_PORT,
            };
            Ok(Target { host, sni, port })
        },
    }
}

/// The target that the URL written as `text` designates.
pub open spec fn target_of_url(text: Seq<char>) -> Result<TargetView, ClientError> {
    match url_parts(text) {
        None => Err(ClientError::BadUrl),
        Some(parts) => target_of(parts),
    }
}

/// Parses a URL and derives the session's target from it.
pub fn parse_target(text: &str) -> (r: Result<Target, ClientError>)
    ensures
        target_matches(r, target_of_url(text@)),
{
    match parse_url(text) {
        Err(_) => Err(ClientError::BadUrl),
        Ok(parts) => target_from_parts(parts),
    }
}

/// The local address for a session to `remote`: the one asked for, else the
/// wildcard address of `remote`'s family with an ephemeral port.
pub open spec fn bind_for(explicit: Option<SocketAddress>, remote: SocketAddress) -> SocketAddress {
    match explicit {
        Some(local) => local,
        None => SocketAddress::any(remote.is_ipv6()),
    }
}

/// Chooses the local address to bind for a session to `remote`.
pub fn choose_bind(explicit: Option<SocketAddress>, remote: SocketAddress) -> (local: SocketAddress)
    ensures
        local == bind_for(explicit, remote),
{
    match explicit {
        Some(local) => local,
        None => remote.unspecified_like(),
    }
}

/// The three concurrent activities of a running client session.
#[derive(Clone, Copy, Debug, PartialEq, Eq, Structural)]
pub enum ClientTask {
    /// Copies the QUIC stream to standard output.
    Reader,
    /// Copies standard input to the QUIC stream.
    Writer,
    /// Waits for the shutdown signal.
    Signal,
}

/// Why the client closes its connection.
#[derive(Clone, Copy, Debug, PartialEq, Eq, Structural)]
pub enum CloseReason {
    /// One of the two copy tasks came to its end.
    Finished,
    /// The shutdown signal was delivered.
    SignalHup,
}

/// The application error code sent with every close.
pub const CLOSE_CODE: u32 = 0;

impl CloseReason {
    /// The reason phrase sent with the close.
    pub open spec fn spec_text(&self) -> Seq<char> {
        match *self {
            CloseReason::Finished => ""@,
            CloseReason::SignalHup => "signal HUP"@,
        }
    }

    /// The reason phrase sent with the close.
    pub fn text(&self) -> (phrase: &'static str)
        ensures
            phrase@ == self.spec_text(),
    {
        match self {
            CloseReason::Finished => "",
            CloseReason::SignalHup => "signal HUP",
        }
    }
}

/// How far a client session has come.
#[derive(Clone, Copy, Debug, PartialEq, Eq, Structural)]
pub enum ClientPhase {
    /// Waiting for the host to be resolved.
    Resolving,
    /// Waiting for the local endpoint.
    Binding { remote: SocketAddress },
    /// Waiting for the handshake.
    Connecting { remote: SocketAddress },
    /// Waiting for the bidirectional stream.
    Opening,
    /// Copying in both directions; `signal` tells whether the signal waiter
    /// is armed.
    Running { signal: bool },
    /// Ended in good order.
    Closed { reason: CloseReason },
    /// Ended before the tunnel was up.
    Failed { error: ClientError },
}

/// What the caller reports to a client session.
#[derive(Clone, Debug, PartialEq, Eq)]
pub enum ClientEvent {
    /// The addresses that the host resolved to, in the resolver's order.
    Resolved(Vec<SocketAddress>),
    /// Resolution failed.
    ResolveFailed,
    /// The local endpoint is bound.
    Bound,
    /// The local endpoint could not be bound.
    BindFailed,
    /// The handshake completed.
    Connected,
    /// The connection attempt or the handshake failed.
    ConnectFailed,
    /// The bidirectional stream is open.
    StreamOpened,
    /// The bidirectional stream could not be opened.
    StreamFailed,
    /// No handler could be registered for the shutdown signal.
    SignalUnavailable,
    /// One of the session's tasks completed.
    TaskEnded(ClientTask),
}

/// What the caller has to do next for a client session.
#[derive(Clone, Copy, Debug, PartialEq, Eq, Structural)]
pub enum ClientAction {
    /// Resolve the target's host with this port.
    Resolve { port: u16 },
    /// Bind the local endpoint.
    Bind { local: SocketAddress },
    /// Connect to `remote`, presenting the target's server name.
    Connect { remote: SocketAddress },
    /// Open the one bidirectional stream.
    OpenStream,
    /// Run the reader and the writer, and the signal waiter if `signal`, until
    /// the first of them completes.
    Relay { signal: bool },
    /// Stop the remaining tasks, close the connection with this code and
    /// reason, and report success.
    Close { code: u32, reason: CloseReason },
    /// Give up and report the error.
    Fail { error: ClientError },
}

/// The phase that follows `phase` when `event` is reported.
///
/// An event that the phase does not wait for changes nothing. The first task
/// to end closes the session; a signal counts only while its waiter is armed.
pub open spec fn client_next(phase: ClientPhase, event: ClientEvent) -> ClientPhase {
    match phase {
        ClientPhase::Resolving => match event {
            ClientEvent::Resolved(addrs) => if addrs@.len() == 0 {
                ClientPhase::Failed { error: ClientError::UnresolvedHost }
            } else {
                ClientPhase::Binding { remote: addrs@[0] }
            },
            ClientEvent::ResolveFailed => ClientPhase::Failed { error: ClientError::UnresolvedHost },
            _ => phase,
        },
        ClientPhase::Binding { remote } => match event {
            ClientEvent::Bound => ClientPhase::Connecting { remote },
            ClientEvent::BindFailed => ClientPhase::Failed { error: ClientError::BindFailed },
            _ => phase,
        },
        ClientPhase::Connecting { remote } => match event {
            ClientEvent::Connected => ClientPhase::Opening,
            ClientEvent::ConnectFailed => ClientPhase::Failed {
                error: ClientError::HandshakeFailed,
            },
            _ => phase,
        },
        ClientPhase::Opening => match event {
            ClientEvent::StreamOpened => ClientPhase::Running { signal: true },
            ClientEvent::StreamFailed => ClientPhase::Failed {
                error: ClientError::StreamOpenFailed,
            },
            _ => phase,
        },
        ClientPhase::Running { signal } => match event {
            ClientEvent::SignalUnavailable => ClientPhase::Running { signal: false },
            ClientEvent::TaskEnded(task) => if task != ClientTask::Signal {
                ClientPhase::Closed { reason: CloseReason::Finished }
            } else if signal {
                ClientPhase::Closed { reason: CloseReason::SignalHup }
            } else {
                phase
            },
            _ => phase,
        },
        ClientPhase::Closed { .. } => phase,
        ClientPhase::Failed { .. } => phase,
    }
}

/// A client session as mathematical values.
pub struct ClientModel {
    pub target: TargetView,
    pub bind: Option<SocketAddress>,
    pub phase: ClientPhase,
}

impl ClientModel {
    /// What the caller has to do while the session is in this state.
    pub open spec fn action(self) -> ClientAction {
        match self.phase {
            ClientPhase::Resolving => ClientAction::Resolve { port: self.target.port },
            ClientPhase::Binding { remote } => ClientAction::Bind {
                local: bind_for(self.bind, remote),
            },
            ClientPhase::Connecting { remote } => ClientAction::Connect { remote },
            ClientPhase::Opening => ClientAction::OpenStream,
            ClientPhase::Running { signal } => ClientAction::Relay { signal },
            ClientPhase::Closed { reason } => ClientAction::Close { code: CLOSE_CODE, reason },
            ClientPhase::Failed { error } => ClientAction::Fail { error },
        }
    }

    /// The state after `event`.
    pub open spec fn step(self, event: ClientEvent) -> ClientModel {
        ClientModel { phase: client_next(self.phase, event), ..self }
    }

    /// The state after all of `events`, in order.
    pub open spec fn run(self, events: Seq<ClientEvent>) -> ClientModel
        decreases events.len(),
    {
        if events.len() == 0 {
            self
        } else {
            self.step(events[0]).run(events.drop_first())
        }
    }

    /// How the session ended: `None` while it is still under way.
    pub open spec fn outcome(self) -> Option<Result<(), ClientError>> {
        match self.phase {
            ClientPhase::Closed { .. } => Some(Ok(())),
            ClientPhase::Failed { error } => Some(Err(error)),
            _ => None,
        }
    }

    /// Whether the session is over.
    pub open spec fn ended(self) -> bool {
        self.phase is Closed || self.phase is Failed
    }
}

/// One client session, driven by the caller's events.
#[derive(Clone, Debug)]
pub struct ClientSession {
    target: Target,
    bind: Option<SocketAddress>,
    phase: ClientPhase,
}

impl View for ClientSession {
    type V = ClientModel;

    closed spec fn view(&self) -> ClientModel {
        ClientModel { target: self.target@, bind: self.bind, phase: self.phase }
    }
}

impl ClientSession {
    /// A session to `target` that has not started to resolve.
    pub fn new(target: Target, bind: Option<SocketAddress>) -> (session: ClientSession)
        ensures
            session@ == (ClientModel { target: target@, bind, phase: ClientPhase::Resolving }),
    {
        ClientSession { target, bind, phase: ClientPhase::Resolving }
    }

    /// A session for the given options, or the reason why the URL cannot be
    /// used.
    pub fn start(options: Opt) -> (r: Result<ClientSession, ClientError>)
        ensures
            match r {
                Ok(session) => target_of_url(options.url@) == Ok::<TargetView, ClientError>(
                    session@.target,
                ) && session@.bind == options.bind_addr && session@.phase
                    == ClientPhase::Resolving,
                Err(error) => target_of_url(options.url@) == Err::<TargetView, ClientError>(error),
            },
    {
        match parse_target(options.url.as_str()) {
            Err(error) => Err(error),
            Ok(target) => Ok(ClientSession::new(target, options.bind_addr)),
        }
    }

    /// The host to resolve.
    pub fn host(&self) -> (host: &str)
        ensures
            host@ == self@.target.host,
    {
        self.target.host.as_str()
    }

    /// The server name to present in the handshake.
    pub fn sni(&self) -> (sni: &str)
        ensures
            sni@ == self@.target.sni,
    {
        self.target.sni.as_str()
    }

    /// The phase the session is in.
    pub fn phase(&self) -> (phase: ClientPhase)
        ensures
            phase == self@.phase,
    {
        self.phase
    }

    /// What the caller has to do now.
    pub fn action(&self) -> (action: ClientAction)
        ensures
            action == self@.action(),
    {
        match self.phase {
            ClientPhase::Resolving => ClientAction::Resolve { port: self.target.port },
            ClientPhase::Binding { remote } => ClientAction::Bind {
                local: choose_bind(self.bind, remote),
            },
            ClientPhase::Connecting { remote } => ClientAction::Connect { remote },
            ClientPhase::Opening => ClientAction::OpenStream,
            ClientPhase::Running { signal } => ClientAction::Relay { signal },
            ClientPhase::Closed { reason } => ClientAction::Close { code: CLOSE_CODE, reason },
            ClientPhase::Failed { error } => ClientAction::Fail { error },
        }
    }

    /// How the session ended: `None` while it is still under way.
    pub fn outcome(&self) -> (outcome: Option<Result<(), ClientError>>)
        ensures
            outcome == self@.outcome(),
    {
        match self.phase {
            ClientPhase::Closed { .. } => Some(Ok(())),
            ClientPhase::Failed { error } => Some(Err(error)),
            _ => None,
        }
    }

    /// Takes one event and answers with the next action.
    ///
    /// Whichever task ends first while the session runs, the session closes
    /// with code zero: with the reason `signal HUP` where the signal waiter
    /// ended, and with an empty reason where a copy task did.
    pub fn step(&mut self, event: ClientEvent) -> (action: ClientAction)
        ensures
            final(self)@ == old(self)@.step(event),
            action == final(self)@.action(),
            old(self)@.phase is Running && (event == ClientEvent::TaskEnded(ClientTask::Reader)
                || event == ClientEvent::TaskEnded(ClientTask::Writer)) ==> action
                == (ClientAction::Close { code: 0, reason: CloseReason::Finished }),
            old(self)@.phase == (ClientPhase::Running { signal: true }) && event
                == ClientEvent::TaskEnded(ClientTask::Signal) ==> action == (ClientAction::Close {
                code: 0,
                reason: CloseReason::SignalHup,
            }),
            old(self)@.ended() ==> final(self)@ == old(self)@,
    {
        let next = match self.phase {
            ClientPhase::Resolving => match event {
                ClientEvent::Resolved(addrs) => if addrs.len() == 0 {
                    ClientPhase::Failed { error: ClientError::UnresolvedHost }
                } else {
                    ClientPhase::Binding { remote: addrs[0] }
                },
                ClientEvent::ResolveFailed => ClientPhase::Failed {
                    error: ClientError::UnresolvedHost,
                },
                _ => self.phase,
            },
            ClientPhase::Binding { remote } => match event {
                ClientEvent::Bound => ClientPhase::Connecting { remote },
                ClientEvent::BindFailed => ClientPhase::Failed { error: ClientError::BindFailed },
                _ => self.phase,
            },
            ClientPhase::Connecting { remote } => match event {
                ClientEvent::Connected => ClientPhase::Opening,
                ClientEvent::ConnectFailed => ClientPhase::Failed {
                    error: ClientError::HandshakeFailed,
                },
                _ => self.phase,
            },
            ClientPhase::Opening => match event {
                ClientEvent::StreamOpened => ClientPhase::Running { signal: true },
                ClientEvent::StreamFailed => ClientPhase::Failed {
                    error: ClientError::StreamOpenFailed,
                },
                _ => self.phase,
            },
            ClientPhase::Running { signal } => match event {
                ClientEvent::SignalUnavailable => ClientPhase::Running { signal: false },
                ClientEvent::TaskEnded(task) => match task {
                    ClientTask::Signal => if signal {
                        ClientPhase::Closed { reason: CloseReason::SignalHup }
                    } else {
                        self.phase
                    },
                    _ => ClientPhase::Closed { reason: CloseReason::Finished },
                },
                _ => self.phase,
            },
            ClientPhase::Closed { .. } => self.phase,
            ClientPhase::Failed { .. } => self.phase,
        };
        self.phase = next;
        self.action()
    }
}

/// How far along a phase is: each step of the setup counts one.
pub open spec fn client_rank(phase: ClientPhase) -> nat {
    match phase {
        ClientPhase::Resolving => 0,
        ClientPhase::Binding { .. } => 1,
        ClientPhase::Connecting { .. } => 2,
        ClientPhase::Opening => 3,
        ClientPhase::Running { .. } => 4,
        ClientPhase::Closed { .. } => 5,
        ClientPhase::Failed { .. } => 5,
    }
}

/// A session never goes back: no event returns it to an earlier phase. So
/// it resolves, binds, connects and opens its stream at most once each.
pub proof fn lemma_client_never_goes_back(session: ClientModel, events: Seq<ClientEvent>)
    ensures
        client_rank(session.phase) <= client_rank(session.run(events).phase),
        session.run(events).target == session.target,
        session.run(events).bind == session.bind,
    decreases events.len(),
{
    if events.len() > 0 {
        lemma_client_never_goes_back(session.step(events[0]), events.drop_first());
    }
}

/// A session that is over stays as it is, whatever is reported to it.
pub proof fn lemma_client_end_is_final(session: ClientModel, events: Seq<ClientEvent>)
    requires
        session.ended(),
    ensures
        session.run(events) == session,
    decreases events.len(),
{
    if events.len() > 0 {
        assert(session.step(events[0]) == session);
        lemma_client_end_is_final(session, events.drop_first());
    }
}

/// The shutdown signal ends a running session in good order: the connection
/// is closed with code zero and the reason `signal HUP`, the session reports
/// success, and the process exits with status zero.
pub proof fn lemma_signal_shuts_down(session: ClientModel)
    requires
        session.phase == (ClientPhase::Running { signal: true }),
    ensures
        ({
            let end = session.step(ClientEvent::TaskEnded(ClientTask::Signal));
            &&& end.action() == (ClientAction::Close { code: 0, reason: CloseReason::SignalHup })
            &&& CloseReason::SignalHup.spec_text() == "signal HUP"@
            &&& end.outcome() == Some(Ok::<(), ClientError>(()))
            &&& exit_status(end.outcome().unwrap()) == 0
        }),
{
}

/// From a running session, the end of any task that is being waited for
/// ends the session at once, and no later event revives it.
pub proof fn lemma_client_teardown(
    session: ClientModel,
    task: ClientTask,
    later: Seq<ClientEvent>,
)
    requires
        session.phase is Running,
        task == ClientTask::Signal ==> session.phase == (ClientPhase::Running { signal: true }),
    ensures
        session.step(ClientEvent::TaskEnded(task)).phase is Closed,
        session.step(ClientEvent::TaskEnded(task)).run(later) == session.step(
            ClientEvent::TaskEnded(task),
        ),
{
    lemma_client_end_is_final(session.step(ClientEvent::TaskEnded(task)), later);
}

} // verus!
