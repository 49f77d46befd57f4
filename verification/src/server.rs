//! The server side: the route table, the acceptor's decision for each
//! incoming connection, and the handler of one session.

use crate::address::SocketAddress;
use vstd::prelude::*;

verus! {

/// What the server is started with.
#[derive(Clone, Debug, PartialEq, Eq)]
pub struct Opt {
    /// Address to listen on.
    pub listen: SocketAddress,
    /// Downstream address for names that the route table does not hold.
    pub proxy_to: Option<SocketAddress>,
    /// Path of the configuration file, if any.
    pub conf_path: Option<String>,
}

/// The address the server listens on unless told otherwise: `0.0.0.0:4433`.
pub fn default_listen() -> (addr: SocketAddress)
    ensures
        addr == (SocketAddress::V4 { ip: 0, port: 4433 }),
{
    SocketAddress::v4(0, 0, 0, 0, 4433)
}

/// The downstream address of last resort: `127.0.0.1:22`.
pub open spec fn last_resort() -> SocketAddress {
    SocketAddress::V4 { ip: 0x7f00_0001, port: 22 }
}

/// One line of the route table.
#[derive(Clone, Debug, PartialEq, Eq)]
pub struct Route {
    /// The server name that selects this route.
    pub sni: String,
    /// Where connections for that name are forwarded.
    pub addr: SocketAddress,
}

/// The position of the first route for `key`, or the number of routes where
/// there is none.
pub open spec fn position(routes: Seq<Route>, key: Seq<char>) -> int
    decreases routes.len(),
{
    if routes.len() == 0 {
        0
    } else if routes[0].sni@ == key {
        0
    } else {
        1 + position(routes.drop_first(), key)
    }
}

/// The mapping that a list of routes stands for.
pub open spec fn table_of(routes: Seq<Route>) -> Map<Seq<char>, SocketAddress> {
    Map::new(
        |key: Seq<char>| position(routes, key) < routes.len(),
        |key: Seq<char>| routes[position(routes, key)].addr,
    )
}

/// No two routes are for the same name.
pub open spec fn distinct_names(routes: Seq<Route>) -> bool {
    forall|i: int, j: int|
        0 <= i < j < routes.len() ==> (#[trigger] routes[i]).sni@ != (#[trigger] routes[j]).sni@
}

/// `position` is within bounds and points at the first route for the key.
proof fn lemma_position(routes: Seq<Route>, key: Seq<char>)
    ensures
        0 <= position(routes, key) <= routes.len(),
        position(routes, key) < routes.len() ==> routes[position(routes, key)].sni@ == key,
        forall|k: int| 0 <= k < position(routes, key) ==> (#[trigger] routes[k]).sni@ != key,
    decreases routes.len(),
{
    if routes.len() > 0 && routes[0].sni@ != key {
        let rest = routes.drop_first();
        lemma_position(rest, key);
        assert forall|k: int| 0 <= k < position(routes, key) implies (#[trigger] routes[k]).sni@
            != key by {
            if k > 0 {
                assert(routes[k] == rest[k - 1]);
            }
        }
    }
}

/// The first index at which the key occurs is its position.
proof fn lemma_position_is(routes: Seq<Route>, key: Seq<char>, i: int)
    requires
        0 <= i <= routes.len(),
        forall|k: int| 0 <= k < i ==> (#[trigger] routes[k]).sni@ != key,
        i < routes.len() ==> routes[i].sni@ == key,
    ensures
        position(routes, key) == i,
    decreases i,
{
    if i > 0 {
        let rest = routes.drop_first();
        assert forall|k: int| 0 <= k < i - 1 implies (#[trigger] rest[k]).sni@ != key by {
            assert(rest[k] == routes[k + 1]);
        }
        assert(routes[0].sni@ != key);
        lemma_position_is(rest, key, i - 1);
    }
}

/// Routes with distinct names stand for a table with as many names as there
/// are routes.
proof fn lemma_table_size(routes: Seq<Route>)
    requires
        distinct_names(routes),
    ensures
        table_of(routes).dom().finite(),
        table_of(routes).dom().len() == routes.len(),
    decreases routes.len(),
{
    if routes.len() == 0 {
        assert(table_of(routes).dom() =~= Set::<Seq<char>>::empty());
    } else {
        let front = routes.drop_last();
        let name = routes.last().sni@;
        assert forall|i: int, j: int| 0 <= i < j < front.len() implies (#[trigger] front[i]).sni@
            != (#[trigger] front[j]).sni@ by {
            assert(front[i] == routes[i] && front[j] == routes[j]);
        }
        lemma_table_size(front);
        assert forall|key: Seq<char>|
            table_of(routes).dom().contains(key) == (table_of(front).dom().contains(key) || key
                == name) by {
            lemma_position(front, key);
            let p = position(front, key);
            assert forall|k: int| 0 <= k < p implies (#[trigger] routes[k]).sni@ != key by {
                assert(routes[k] == front[k]);
            }
            if p < front.len() {
                assert(routes[p] == front[p]);
                lemma_position_is(routes, key, p);
            } else if key == name {
                lemma_position_is(routes, key, front.len() as int);
            } else {
                lemma_position_is(routes, key, routes.len() as int);
            }
        }
        assert(table_of(routes).dom() =~= table_of(front).dom().insert(name));
        assert(!table_of(front).dom().contains(name)) by {
            lemma_position(front, name);
            let p = position(front, name);
            if p < front.len() {
                assert(front[p] == routes[p]);
                assert(routes[p].sni@ != routes[routes.len() - 1].sni@);
            }
        }
    }
}

/// The route table: server names, each with its downstream address.
#[derive(Clone, Debug)]
pub struct ServerConf {
    proxy: Vec<Route>,
}

impl View for ServerConf {
    type V = Map<Seq<char>, SocketAddress>;

    closed spec fn view(&self) -> Map<Seq<char>, SocketAddress> {
        table_of(self.proxy@)
    }
}

impl ServerConf {
    /// Each name has one route.
    pub closed spec fn wf(&self) -> bool {
        distinct_names(self.proxy@)
    }

    /// The number of routes.
    pub closed spec fn count(&self) -> nat {
        self.proxy@.len()
    }

    /// In a table where each name has one route, there are as many routes
    /// as names.
    pub proof fn lemma_count_is_names(&self)
        requires
            self.wf(),
        ensures
            self@.dom().finite(),
            self@.dom().len() == self.count(),
    {
        lemma_table_size(self.proxy@);
    }

    /// A table without routes.
    pub fn new() -> (conf: ServerConf)
        ensures
            conf@ == Map::<Seq<char>, SocketAddress>::empty(),
            conf.count() == 0,
            conf.wf(),
    {
        let conf = ServerConf { proxy: Vec::new() };
        assert(conf@ =~= Map::<Seq<char>, SocketAddress>::empty());
        conf
    }

    /// The number of routes.
    pub fn len(&self) -> (n: usize)
        ensures
            n == self.count(),
    {
        self.proxy.len()
    }

    /// The routes, one for each name.
    pub fn routes(&self) -> (routes: Vec<Route>)
        ensures
            table_of(routes@) == self@,
            routes@.len() == self.count(),
            self.wf() ==> distinct_names(routes@),
    {
        let mut routes: Vec<Route> = Vec::new();
        let mut i: usize = 0;
        while i < self.proxy.len()
            invariant
                i <= self.proxy@.len(),
                routes@ == self.proxy@.take(i as int),
            decreases self.proxy@.len() - i,
        {
            routes.push(Route { sni: self.proxy[i].sni.clone(), addr: self.proxy[i].addr });
            assert(routes@ =~= self.proxy@.take(i + 1));
            i += 1;
        }
        assert(routes@ =~= self.proxy@);
        routes
    }

    /// The index of the route for `key`, or the number of routes.
    fn find(&self, key: &String) -> (i: usize)
        ensures
            i == position(self.proxy@, key@),
            i <= self.proxy@.len(),
    {
        let mut i: usize = 0;
        while i < self.proxy.len() && self.proxy[i].sni != *key
            invariant
                i <= self.proxy@.len(),
                forall|k: int| 0 <= k < i ==> (#[trigger] self.proxy@[k]).sni@ != key@,
            decreases self.proxy@.len() - i,
        {
            i += 1;
        }
        proof {
            lemma_position_is(self.proxy@, key@, i as int);
        }
        i
    }

    /// The downstream address for the server name `sni`, if the table has
    /// one. Names are compared as they are written.
    pub fn get(&self, sni: &str) -> (found: Option<SocketAddress>)
        ensures
            found == if self@.contains_key(sni@) {
                Some(self@[sni@])
            } else {
                None
            },
    {
        let key = sni.to_owned();
        let i = self.find(&key);
        if i < self.proxy.len() {
            Some(self.proxy[i].addr)
        } else {
            None
        }
    }

    /// Routes `sni` to `addr`, and returns the address that `sni` was routed
    /// to before, if any.
    pub fn insert(&mut self, sni: String, addr: SocketAddress) -> (before: Option<SocketAddress>)
        ensures
            final(self)@ == old(self)@.insert(sni@, addr),
            before == if old(self)@.contains_key(sni@) {
                Some(old(self)@[sni@])
            } else {
                None
            },
            final(self).count() == old(self).count() + if old(self)@.contains_key(sni@) {
                0nat
            } else {
                1nat
            },
            old(self).wf() ==> final(self).wf(),
    {
        let i = self.find(&sni);
        let ghost before_routes = self.proxy@;
        let before = if i < self.proxy.len() {
            let was = self.proxy[i].addr;
            self.proxy.set(i, Route { sni, addr });
            Some(was)
        } else {
            self.proxy.push(Route { sni, addr });
            None
        };
        proof {
            let after_routes = self.proxy@;
            lemma_position(before_routes, sni@);
            assert forall|key: Seq<char>|
                (#[trigger] position(after_routes, key) < after_routes.len()) == (key == sni@
                    || position(before_routes, key) < before_routes.len()) && (position(
                    after_routes,
                    key,
                ) < after_routes.len() ==> after_routes[position(after_routes, key)].addr == if key
                    == sni@ {
                    addr
                } else {
                    before_routes[position(before_routes, key)].addr
                }) by {
                lemma_position(before_routes, key);
                let p = position(before_routes, key);
                if key == sni@ {
                    lemma_position_is(after_routes, key, i as int);
                } else if p < before_routes.len() {
                    lemma_position_is(after_routes, key, p);
                } else {
                    lemma_position_is(after_routes, key, after_routes.len() as int);
                }
            }
            assert(table_of(after_routes) =~= table_of(before_routes).insert(sni@, addr));
        }
        before
    }
}

/// The downstream address used for names without a route of their own: the
/// table's entry for `default`, else the address given on the command line,
/// else `127.0.0.1:22`.
pub open spec fn effective_default(
    table: Map<Seq<char>, SocketAddress>,
    proxy_to: Option<SocketAddress>,
) -> SocketAddress {
    if table.contains_key("default"@) {
        table["default"@]
    } else {
        match proxy_to {
            Some(addr) => addr,
            None => last_resort(),
        }
    }
}

/// A router as mathematical values.
pub struct RouterView {
    pub table: Map<Seq<char>, SocketAddress>,
    pub fallback: SocketAddress,
}

impl RouterView {
    /// The downstream address for a routing key: the table's entry for the
    /// key where there is one, else the fallback.
    pub open spec fn route(self, key: Seq<char>) -> SocketAddress {
        if self.table.contains_key(key) {
            self.table[key]
        } else {
            self.fallback
        }
    }
}

/// The route table together with its fallback, fixed when the server starts.
#[derive(Clone, Debug)]
pub struct Router {
    conf: ServerConf,
    fallback: SocketAddress,
}

impl View for Router {
    type V = RouterView;

    closed spec fn view(&self) -> RouterView {
        RouterView { table: self.conf@, fallback: self.fallback }
    }
}

/// The key under which a connection is routed: the server name from the
/// handshake, or the peer's IP address in text form where the handshake
/// carried none.
pub open spec fn key_of(server_name: Option<String>, peer_ip: String) -> Seq<char> {
    match server_name {
        Some(name) => name@,
        None => peer_ip@,
    }
}

/// Picks the routing key of a connection.
pub fn routing_key(server_name: Option<String>, peer_ip: String) -> (key: String)
    ensures
        key@ == key_of(server_name, peer_ip),
{
    match server_name {
        Some(name) => name,
        None => peer_ip,
    }
}

/// How an incoming connection fared.
#[derive(Clone, Debug, PartialEq, Eq)]
pub enum Incoming {
    /// The handshake failed.
    Failed,
    /// The handshake completed.
    Established {
        /// The server name that the client presented, if any.
        server_name: Option<String>,
        /// The peer's IP address in text form.
        peer_ip: String,
    },
}

/// What the acceptor does about an incoming connection. Either way it goes
/// on accepting.
#[derive(Clone, Copy, Debug, PartialEq, Eq, Structural)]
pub enum AcceptAction {
    /// Nothing: wait for the next connection.
    Resume,
    /// Hand the connection to a new session that forwards to `downstream`,
    /// then wait for the next connection.
    Spawn { downstream: SocketAddress },
}

impl RouterView {
    /// The acceptor's decision for one incoming connection.
    pub open spec fn accept(self, incoming: Incoming) -> AcceptAction {
        match incoming {
            Incoming::Failed => AcceptAction::Resume,
            Incoming::Established { server_name, peer_ip } => AcceptAction::Spawn {
                downstream: self.route(key_of(server_name, peer_ip)),
            },
        }
    }
}

impl Router {
    /// The router for a route table and the optional command-line fallback.
    pub fn new(conf: ServerConf, proxy_to: Option<SocketAddress>) -> (router: Router)
        ensures
            router@ == (RouterView {
                table: conf@,
                fallback: effective_default(conf@, proxy_to),
            }),
    {
        let fallback = match conf.get("default") {
            Some(addr) => addr,
            None => match proxy_to {
                Some(addr) => addr,
                None => SocketAddress::v4(127, 0, 0, 1, 22),
            },
        };
        Router { conf, fallback }
    }

    /// The downstream address for names without a route of their own.
    pub fn fallback(&self) -> (addr: SocketAddress)
        ensures
            addr == self@.fallback,
    {
        self.fallback
    }

    /// The downstream address for a routing key.
    pub fn route(&self, key: &str) -> (downstream: SocketAddress)
        ensures
            downstream == self@.route(key@),
    {
        match self.conf.get(key) {
            Some(addr) => addr,
            None => self.fallback,
        }
    }

    /// Decides what to do about an incoming connection. A failed handshake
    /// is passed over; an established connection gets one session, bound for
    /// the route of its key.
    pub fn accept(&self, incoming: &Incoming) -> (action: AcceptAction)
        ensures
            action == self@.accept(*incoming),
    {
        match incoming {
            Incoming::Failed => AcceptAction::Resume,
            Incoming::Established { server_name, peer_ip } => {
                let downstream = match server_name {
                    Some(name) => self.route(name.as_str()),
                    None => self.route(peer_ip.as_str()),
                };
                AcceptAction::Spawn { downstream }
            },
        }
    }
}

/// The two copy tasks of a running server session.
#[derive(Clone, Copy, Debug, PartialEq, Eq, Structural)]
pub enum ServerTask {
    /// Copies the downstream connection to the QUIC stream.
    DownstreamToQuic,
    /// Copies the QUIC stream to the downstream connection.
    QuicToDownstream,
}

/// How a server session ended.
#[derive(Clone, Copy, Debug, PartialEq, Eq, Structural)]
pub enum SessionEnd {
    /// The downstream address could not be dialled.
    DialFailed,
    /// The client's stream could not be accepted.
    StreamFailed,
    /// One of the copy tasks came to its end.
    Finished,
}

/// How far a server session has come.
#[derive(Clone, Copy, Debug, PartialEq, Eq, Structural)]
pub enum ServerPhase {
    /// Waiting for the downstream connection.
    Dialing,
    /// Waiting for the client's bidirectional stream.
    Accepting,
    /// Copying in both directions.
    Running,
    /// Over.
    Ended(SessionEnd),
}

/// What the caller reports to a server session.
#[derive(Clone, Copy, Debug, PartialEq, Eq, Structural)]
pub enum ServerEvent {
    /// The downstream connection is up.
    Dialed,
    /// The downstream connection could not be made.
    DialFailed,
    /// The client's stream was accepted.
    StreamAccepted,
    /// No stream could be accepted.
    StreamFailed,
    /// One of the copy tasks completed.
    TaskEnded(ServerTask),
}

/// What the caller has to do next for a server session.
#[derive(Clone, Copy, Debug, PartialEq, Eq, Structural)]
pub enum ServerAction {
    /// Open a TCP connection to `downstream`.
    Dial { downstream: SocketAddress },
    /// Accept the one bidirectional stream.
    AcceptStream,
    /// Run both copy tasks until the first of them completes.
    Relay,
    /// Stop what still runs and drop the connection.
    Finish { end: SessionEnd },
}

/// The handler of one accepted connection.
#[derive(Clone, Copy, Debug, PartialEq, Eq, Structural)]
pub struct ServerSession {
    /// Where this session forwards to.
    pub downstream: SocketAddress,
    pub phase: ServerPhase,
}

impl ServerSession {
    /// A session that has yet to dial `downstream`.
    pub open spec fn fresh(downstream: SocketAddress) -> ServerSession {
        ServerSession { downstream, phase: ServerPhase::Dialing }
    }

    /// What the caller has to do while the session is in this state.
    pub open spec fn pending(self) -> ServerAction {
        match self.phase {
            ServerPhase::Dialing => ServerAction::Dial { downstream: self.downstream },
            ServerPhase::Accepting => ServerAction::AcceptStream,
            ServerPhase::Running => ServerAction::Relay,
            ServerPhase::Ended(end) => ServerAction::Finish { end },
        }
    }

    /// The state after `event`.
    ///
    /// The downstream address is dialled once and never again. The first
    /// copy task to end ends the session. An event that the phase does not
    /// wait for changes nothing.
    pub open spec fn after(self, event: ServerEvent) -> ServerSession {
        let phase = match self.phase {
            ServerPhase::Dialing => match event {
                ServerEvent::Dialed => ServerPhase::Accepting,
                ServerEvent::DialFailed => ServerPhase::Ended(SessionEnd::DialFailed),
                _ => self.phase,
            },
            ServerPhase::Accepting => match event {
                ServerEvent::StreamAccepted => ServerPhase::Running,
                ServerEvent::StreamFailed => ServerPhase::Ended(SessionEnd::StreamFailed),
                _ => self.phase,
            },
            ServerPhase::Running => match event {
                ServerEvent::TaskEnded(_) => ServerPhase::Ended(SessionEnd::Finished),
                _ => self.phase,
            },
            ServerPhase::Ended(_) => self.phase,
        };
        ServerSession { phase, ..self }
    }

    /// The state after all of `events`, in order.
    pub open spec fn after_all(self, events: Seq<ServerEvent>) -> ServerSession
        decreases events.len(),
    {
        if events.len() == 0 {
            self
        } else {
            self.after(events[0]).after_all(events.drop_first())
        }
    }

    /// A session for a connection that is to be forwarded to `downstream`.
    pub fn new(downstream: SocketAddress) -> (session: ServerSession)
        ensures
            session == ServerSession::fresh(downstream),
    {
        ServerSession { downstream, phase: ServerPhase::Dialing }
    }

    /// What the caller has to do now.
    pub fn action(&self) -> (action: ServerAction)
        ensures
            action == self.pending(),
    {
        match self.phase {
            ServerPhase::Dialing => ServerAction::Dial { downstream: self.downstream },
            ServerPhase::Accepting => ServerAction::AcceptStream,
            ServerPhase::Running => ServerAction::Relay,
            ServerPhase::Ended(end) => ServerAction::Finish { end },
        }
    }

    /// Takes one event and answers with the next action.
    ///
    /// Once a session runs, the end of either copy task finishes it.
    pub fn step(&mut self, event: ServerEvent) -> (action: ServerAction)
        ensures
            *final(self) == old(self).after(event),
            action == final(self).pending(),
            old(self).phase == ServerPhase::Running && event is TaskEnded ==> action
                == (ServerAction::Finish { end: SessionEnd::Finished }),
            old(self).phase is Ended ==> *final(self) == *old(self),
    {
        let next = match self.phase {
            ServerPhase::Dialing => match event {
                ServerEvent::Dialed => ServerPhase::Accepting,
                ServerEvent::DialFailed => ServerPhase::Ended(SessionEnd::DialFailed),
                _ => self.phase,
            },
            ServerPhase::Accepting => match event {
                ServerEvent::StreamAccepted => ServerPhase::Running,
                ServerEvent::StreamFailed => ServerPhase::Ended(SessionEnd::StreamFailed),
                _ => self.phase,
            },
            ServerPhase::Running => match event {
                ServerEvent::TaskEnded(_) => ServerPhase::Ended(SessionEnd::Finished),
                _ => self.phase,
            },
            ServerPhase::Ended(_) => self.phase,
        };
        self.phase = next;
        self.action()
    }
}

/// How far along a phase is.
pub open spec fn server_rank(phase: ServerPhase) -> nat {
    match phase {
        ServerPhase::Dialing => 0,
        ServerPhase::Accepting => 1,
        ServerPhase::Running => 2,
        ServerPhase::Ended(_) => 3,
    }
}

/// A session never goes back: no event returns it to an earlier phase. So
/// it dials its downstream address at most once, and accepts at most one
/// stream.
pub proof fn lemma_session_never_goes_back(session: ServerSession, events: Seq<ServerEvent>)
    ensures
        server_rank(session.phase) <= server_rank(session.after_all(events).phase),
    decreases events.len(),
{
    if events.len() > 0 {
        lemma_session_never_goes_back(session.after(events[0]), events.drop_first());
    }
}

/// A session that is over stays as it is, whatever is reported to it.
pub proof fn lemma_session_end_is_final(session: ServerSession, events: Seq<ServerEvent>)
    requires
        session.phase is Ended,
    ensures
        session.after_all(events) == session,
    decreases events.len(),
{
    if events.len() > 0 {
        lemma_session_end_is_final(session, events.drop_first());
    }
}

/// From a running session, the end of either copy task ends the session at
/// once, and no later event revives it.
pub proof fn lemma_session_teardown(
    session: ServerSession,
    task: ServerTask,
    later: Seq<ServerEvent>,
)
    requires
        session.phase == ServerPhase::Running,
    ensures
        session.after(ServerEvent::TaskEnded(task)).phase == ServerPhase::Ended(
            SessionEnd::Finished,
        ),
        session.after(ServerEvent::TaskEnded(task)).after_all(later) == session.after(
            ServerEvent::TaskEnded(task),
        ),
{
    lemma_session_end_is_final(session.after(ServerEvent::TaskEnded(task)), later);
}

/// A session forwards to the address it was created for, whatever happens
/// to it.
pub proof fn lemma_session_keeps_downstream(session: ServerSession, events: Seq<ServerEvent>)
    ensures
        session.after_all(events).downstream == session.downstream,
    decreases events.len(),
{
    if events.len() > 0 {
        lemma_session_keeps_downstream(session.after(events[0]), events.drop_first());
    }
}

/// A server as a whole: its router and every session it has spawned, in the
/// order of their connections.
pub struct ServerModel {
    pub router: RouterView,
    pub sessions: Seq<ServerSession>,
}

/// What can happen to a server.
pub enum ServerInput {
    /// A connection arrived at the acceptor.
    Connection(Incoming),
    /// Something was reported to the session with the given number.
    Session { id: nat, event: ServerEvent },
}

impl ServerModel {
    /// A server that has accepted nothing yet.
    pub open spec fn start(router: RouterView) -> ServerModel {
        ServerModel { router, sessions: Seq::empty() }
    }

    /// The server after `input`.
    pub open spec fn step(self, input: ServerInput) -> ServerModel {
        match input {
            ServerInput::Connection(incoming) => match self.router.accept(incoming) {
                AcceptAction::Resume => self,
                AcceptAction::Spawn { downstream } => ServerModel {
                    sessions: self.sessions.push(ServerSession::fresh(downstream)),
                    ..self
                },
            },
            ServerInput::Session { id, event } => if id < self.sessions.len() {
                ServerModel {
                    sessions: self.sessions.update(id as int, self.sessions[id as int].after(event)),
                    ..self
                }
            } else {
                self
            },
        }
    }

    /// The server after all of `inputs`, in order.
    pub open spec fn run(self, inputs: Seq<ServerInput>) -> ServerModel
        decreases inputs.len(),
    {
        if inputs.len() == 0 {
            self
        } else {
            self.step(inputs[0]).run(inputs.drop_first())
        }
    }
}

/// The route table and its fallback are the same after any history.
pub proof fn lemma_router_is_fixed(server: ServerModel, inputs: Seq<ServerInput>)
    ensures
        server.run(inputs).router == server.router,
    decreases inputs.len(),
{
    if inputs.len() > 0 {
        lemma_router_is_fixed(server.step(inputs[0]), inputs.drop_first());
    }
}

/// What is reported to one session changes no other session, and neither
/// adds nor removes one.
pub proof fn lemma_sessions_are_isolated(server: ServerModel, id: nat, event: ServerEvent)
    ensures
        ({
            let next = server.step(ServerInput::Session { id, event });
            &&& next.router == server.router
            &&& next.sessions.len() == server.sessions.len()
            &&& forall|other: int|
                0 <= other < server.sessions.len() && other != id ==> next.sessions[other]
                    == server.sessions[other]
        }),
{
}

/// Whatever happened before, failed sessions included, an established
/// connection gets exactly one new session, and that session is bound for
/// the table's entry for its key, or for the fallback where the table has
/// none. No other session is touched.
pub proof fn lemma_routing_survives_history(
    router: RouterView,
    history: Seq<ServerInput>,
    server_name: Option<String>,
    peer_ip: String,
)
    ensures
        ({
            let before = ServerModel::start(router).run(history);
            let next = before.step(
                ServerInput::Connection(Incoming::Established { server_name, peer_ip }),
            );
            let key = key_of(server_name, peer_ip);
            &&& next.sessions == before.sessions.push(
                ServerSession::fresh(
                    if router.table.contains_key(key) {
                        router.table[key]
                    } else {
                        router.fallback
                    },
                ),
            )
            &&& next.router == router
        }),
{
    lemma_router_is_fixed(ServerModel::start(router), history);
}

/// A connection whose handshake failed leaves the server as it was.
pub proof fn lemma_failed_handshake_is_ignored(server: ServerModel)
    ensures
        server.step(ServerInput::Connection(Incoming::Failed)) == server,
{
}

/// Why the server could not start.
#[derive(Clone, Copy, Debug, PartialEq, Eq, Structural)]
pub enum ServerError {
    /// The configuration file could not be read or understood.
    ConfigParse,
    /// The listen address could not be bound.
    BindFailed,
}

/// How far the server has come.
#[derive(Clone, Copy, Debug, PartialEq, Eq, Structural)]
pub enum ServerStage {
    /// Waiting for the configuration file.
    Loading,
    /// Waiting for the endpoint.
    Binding,
    /// Accepting connections, for as long as the process lives.
    Accepting,
    /// Given up before the first connection.
    Failed { error: ServerError },
}

/// What the caller reports to a starting server.
#[derive(Clone, Debug)]
pub enum StartupEvent {
    /// The configuration file held this route table.
    ConfLoaded(ServerConf),
    /// The configuration file could not be read or understood.
    ConfFailed,
    /// The endpoint is bound.
    Bound,
    /// The endpoint could not be bound.
    BindFailed,
}

/// What the caller has to do next for the server.
#[derive(Clone, Copy, Debug, PartialEq, Eq, Structural)]
pub enum StartupAction {
    /// Read the configuration file and report its route table.
    LoadConf,
    /// Bind the endpoint to `addr`.
    Listen { addr: SocketAddress },
    /// Accept connections and ask what to do about each.
    Accept,
    /// Give up and report the error.
    Fail { error: ServerError },
}

/// An optional text as mathematical values.
pub open spec fn text_of(text: Option<String>) -> Option<Seq<char>> {
    match text {
        Some(t) => Some(t@),
        None => None,
    }
}

/// A server as mathematical values.
pub struct ServerView {
    pub listen: SocketAddress,
    pub proxy_to: Option<SocketAddress>,
    pub conf_path: Option<Seq<char>>,
    pub router: RouterView,
    pub stage: ServerStage,
}

impl ServerView {
    /// The router for a route table under this server's options.
    pub open spec fn router_for(self, table: Map<Seq<char>, SocketAddress>) -> RouterView {
        RouterView { table, fallback: effective_default(table, self.proxy_to) }
    }

    /// What the caller has to do while the server is in this state.
    pub open spec fn action(self) -> StartupAction {
        match self.stage {
            ServerStage::Loading => StartupAction::LoadConf,
            ServerStage::Binding => StartupAction::Listen { addr: self.listen },
            ServerStage::Accepting => StartupAction::Accept,
            ServerStage::Failed { error } => StartupAction::Fail { error },
        }
    }

    /// The state after `event`.
    ///
    /// The route table is set when the configuration is loaded, before the
    /// endpoint is bound, and at no other time. A failure to load or to bind
    /// is final.
    pub open spec fn step(self, event: StartupEvent) -> ServerView {
        match self.stage {
            ServerStage::Loading => match event {
                StartupEvent::ConfLoaded(conf) => ServerView {
                    router: self.router_for(conf@),
                    stage: ServerStage::Binding,
                    ..self
                },
                StartupEvent::ConfFailed => ServerView {
                    stage: ServerStage::Failed { error: ServerError::ConfigParse },
                    ..self
                },
                _ => self,
            },
            ServerStage::Binding => match event {
                StartupEvent::Bound => ServerView { stage: ServerStage::Accepting, ..self },
                StartupEvent::BindFailed => ServerView {
                    stage: ServerStage::Failed { error: ServerError::BindFailed },
                    ..self
                },
                _ => self,
            },
            ServerStage::Accepting => self,
            ServerStage::Failed { .. } => self,
        }
    }

    /// The state after all of `events`, in order.
    pub open spec fn run(self, events: Seq<StartupEvent>) -> ServerView
        decreases events.len(),
    {
        if events.len() == 0 {
            self
        } else {
            self.step(events[0]).run(events.drop_first())
        }
    }

    /// The acceptor's decision for one incoming connection. Before the
    /// server accepts, nothing is spawned.
    pub open spec fn accept(self, incoming: Incoming) -> AcceptAction {
        if self.stage == ServerStage::Accepting {
            self.router.accept(incoming)
        } else {
            AcceptAction::Resume
        }
    }
}

/// The server: its options, its router and how far it has come.
#[derive(Clone, Debug)]
pub struct Server {
    listen: SocketAddress,
    proxy_to: Option<SocketAddress>,
    conf_path: Option<String>,
    router: Router,
    stage: ServerStage,
}

impl View for Server {
    type V = ServerView;

    closed spec fn view(&self) -> ServerView {
        ServerView {
            listen: self.listen,
            proxy_to: self.proxy_to,
            conf_path: text_of(self.conf_path),
            router: self.router@,
            stage: self.stage,
        }
    }
}

impl Server {
    /// A server for the given options. With a configuration file it starts
    /// by loading it; without one it starts with an empty route table and
    /// goes on to bind.
    pub fn start(options: Opt) -> (server: Server)
        ensures
            server@ == (ServerView {
                listen: options.listen,
                proxy_to: options.proxy_to,
                conf_path: text_of(options.conf_path),
                router: RouterView {
                    table: Map::empty(),
                    fallback: match options.proxy_to {
                        Some(addr) => addr,
                        None => last_resort(),
                    },
                },
                stage: if options.conf_path is Some {
                    ServerStage::Loading
                } else {
                    ServerStage::Binding
                },
            }),
    {
        let stage = if options.conf_path.is_some() {
            ServerStage::Loading
        } else {
            ServerStage::Binding
        };
        Server {
            listen: options.listen,
            proxy_to: options.proxy_to,
            conf_path: options.conf_path,
            router: Router::new(ServerConf::new(), options.proxy_to),
            stage,
        }
    }

    /// The stage the server is in.
    pub fn stage(&self) -> (stage: ServerStage)
        ensures
            stage == self@.stage,
    {
        self.stage
    }

    /// The path of the configuration file, if there is one.
    pub fn conf_path(&self) -> (path: &Option<String>)
        ensures
            text_of(*path) == self@.conf_path,
    {
        &self.conf_path
    }

    /// The router in force.
    pub fn router(&self) -> (router: &Router)
        ensures
            router@ == self@.router,
    {
        &self.router
    }

    /// What the caller has to do now.
    pub fn action(&self) -> (action: StartupAction)
        ensures
            action == self@.action(),
    {
        match self.stage {
            ServerStage::Loading => StartupAction::LoadConf,
            ServerStage::Binding => StartupAction::Listen { addr: self.listen },
            ServerStage::Accepting => StartupAction::Accept,
            ServerStage::Failed { error } => StartupAction::Fail { error },
        }
    }

    /// Takes one event and answers with the next action.
    pub fn step(&mut self, event: StartupEvent) -> (action: StartupAction)
        ensures
            final(self)@ == old(self)@.step(event),
            action == final(self)@.action(),
    {
        match self.stage {
            ServerStage::Loading => match event {
                StartupEvent::ConfLoaded(conf) => {
                    self.router = Router::new(conf, self.proxy_to);
                    self.stage = ServerStage::Binding;
                },
                StartupEvent::ConfFailed => {
                    self.stage = ServerStage::Failed { error: ServerError::ConfigParse };
                },
                _ => {},
            },
            ServerStage::Binding => match event {
                StartupEvent::Bound => {
                    self.stage = ServerStage::Accepting;
                },
                StartupEvent::BindFailed => {
                    self.stage = ServerStage::Failed { error: ServerError::BindFailed };
                },
                _ => {},
            },
            ServerStage::Accepting => {},
            ServerStage::Failed { .. } => {},
        }
        self.action()
    }

    /// Decides what to do about an incoming connection.
    pub fn accept(&self, incoming: &Incoming) -> (action: AcceptAction)
        ensures
            action == self@.accept(*incoming),
    {
        match self.stage {
            ServerStage::Accepting => self.router.accept(incoming),
            _ => AcceptAction::Resume,
        }
    }
}

/// Once the server accepts, it accepts for good, and with the router it has:
/// nothing that is reported to it stops it or changes a route.
pub proof fn lemma_accepting_is_for_good(server: ServerView, events: Seq<StartupEvent>)
    requires
        server.stage == ServerStage::Accepting,
    ensures
        server.run(events) == server,
    decreases events.len(),
{
    if events.len() > 0 {
        lemma_accepting_is_for_good(server, events.drop_first());
    }
}

} // verus!
