use quic_relay::address::SocketAddress;
use quic_relay::client::{
    ClientAction, ClientEvent, ClientSession, ClientTask, CloseReason, Opt as ClientOpt,
};
use quic_relay::relay::{CopyAction, CopyEvent, CopyTask};
use quic_relay::server::{
    default_listen, AcceptAction, Incoming, Opt as ServerOpt, Server, ServerAction, ServerConf,
    ServerEvent, ServerSession, SessionEnd, StartupEvent,
};

fn serving(entries: &[(&str, SocketAddress)], proxy_to: Option<SocketAddress>) -> Server {
    let mut conf = ServerConf::new();
    for (name, addr) in entries {
        conf.insert(name.to_string(), *addr);
    }
    let options =
        ServerOpt { listen: default_listen(), proxy_to, conf_path: Some("relay.toml".to_string()) };
    let mut server = Server::start(options);
    server.step(StartupEvent::ConfLoaded(conf));
    server.step(StartupEvent::Bound);
    server
}

fn connected_client(url: &str) -> ClientSession {
    let mut client =
        ClientSession::start(ClientOpt { url: url.to_string(), bind_addr: None }).unwrap();
    assert_eq!(client.action(), ClientAction::Resolve { port: 4433 });
    let remote = SocketAddress::v4(127, 0, 0, 1, 4433);
    client.step(ClientEvent::Resolved(vec![remote]));
    client.step(ClientEvent::Bound);
    assert_eq!(client.action(), ClientAction::Connect { remote });
    client.step(ClientEvent::Connected);
    assert_eq!(client.step(ClientEvent::StreamOpened), ClientAction::Relay { signal: true });
    client
}

fn accepted(server: &Server, client: &ClientSession) -> ServerSession {
    let incoming = Incoming::Established {
        server_name: Some(client.sni().to_string()),
        peer_ip: "127.0.0.1".to_string(),
    };
    match server.accept(&incoming) {
        AcceptAction::Spawn { downstream } => ServerSession::new(downstream),
        AcceptAction::Resume => panic!("an established connection gets a session"),
    }
}

/// Moves one chunk through a task and hands back what the sink was given.
fn hop(task: &mut CopyTask, chunk: &[u8], flushes: bool) -> Vec<u8> {
    assert_eq!(task.step(CopyEvent::Data(chunk.to_vec())), CopyAction::Write { len: chunk.len() });
    let delivered = task.pending().to_vec();
    let next = task.step(CopyEvent::Written);
    if flushes {
        assert_eq!(next, CopyAction::Flush);
        task.step(CopyEvent::Flushed);
    }
    assert_eq!(task.action(), CopyAction::Read { max: 2048 });
    delivered
}

#[test]
fn echo_loopback() {
    let echo = SocketAddress::v4(127, 0, 0, 1, 9000);
    let server = serving(&[("default", echo)], None);
    let client = connected_client("quic://localhost:4433");
    assert_eq!(client.sni(), "localhost");

    let mut session = accepted(&server, &client);
    assert_eq!(session.action(), ServerAction::Dial { downstream: echo });
    session.step(ServerEvent::Dialed);
    assert_eq!(session.step(ServerEvent::StreamAccepted), ServerAction::Relay);

    let mut stdin_to_quic = CopyTask::new(false);
    let mut quic_to_downstream = CopyTask::new(false);
    let mut downstream_to_quic = CopyTask::new(false);
    let mut quic_to_stdout = CopyTask::new(true);

    let on_the_wire = hop(&mut stdin_to_quic, b"hello\n", false);
    let at_the_echo = hop(&mut quic_to_downstream, &on_the_wire, false);
    assert_eq!(at_the_echo, b"hello\n");
    let on_the_way_back = hop(&mut downstream_to_quic, &at_the_echo, false);
    let on_stdout = hop(&mut quic_to_stdout, &on_the_way_back, true);
    assert_eq!(on_stdout, b"hello\n");
}

#[test]
fn sni_routing() {
    let a = SocketAddress::v4(127, 0, 0, 1, 9001);
    let b = SocketAddress::v4(127, 0, 0, 1, 9002);
    let server = serving(&[("alpha", a), ("beta", b)], None);

    let alpha = connected_client("quic://alpha:4433");
    let beta = connected_client("quic://beta:4433");
    assert_eq!(accepted(&server, &alpha).action(), ServerAction::Dial { downstream: a });
    assert_eq!(accepted(&server, &beta).action(), ServerAction::Dial { downstream: b });
    assert_eq!(accepted(&server, &alpha).action(), ServerAction::Dial { downstream: a });
}

#[test]
fn default_fallback() {
    let a = SocketAddress::v4(127, 0, 0, 1, 9001);
    let server = serving(&[("alpha", a)], None);

    let unknown = connected_client("quic://unknown:4433");
    let mut session = accepted(&server, &unknown);
    assert_eq!(
        session.action(),
        ServerAction::Dial { downstream: SocketAddress::v4(127, 0, 0, 1, 22) }
    );
    assert_eq!(
        session.step(ServerEvent::DialFailed),
        ServerAction::Finish { end: SessionEnd::DialFailed }
    );

    let alpha = connected_client("quic://alpha:4433");
    let mut next = accepted(&server, &alpha);
    assert_eq!(next.action(), ServerAction::Dial { downstream: a });
    assert_eq!(next.step(ServerEvent::Dialed), ServerAction::AcceptStream);
}

#[test]
fn graceful_sighup() {
    let echo = SocketAddress::v4(127, 0, 0, 1, 9000);
    let server = serving(&[("default", echo)], None);
    let mut client = connected_client("quic://localhost:4433");
    let mut session = accepted(&server, &client);
    session.step(ServerEvent::Dialed);
    session.step(ServerEvent::StreamAccepted);

    let close = client.step(ClientEvent::TaskEnded(ClientTask::Signal));
    assert_eq!(close, ClientAction::Close { code: 0, reason: CloseReason::SignalHup });
    let ClientAction::Close { code, reason } = close else {
        panic!("the signal closes the session");
    };
    assert_eq!((code, reason.text()), (0, "signal HUP"));
    assert_eq!(client.outcome(), Some(Ok(())));

    let mut quic_to_downstream = CopyTask::new(false);
    quic_to_downstream.step(CopyEvent::ReadFailed);
    assert_eq!(
        session.step(ServerEvent::TaskEnded(quic_relay::server::ServerTask::QuicToDownstream)),
        ServerAction::Finish { end: SessionEnd::Finished }
    );
}

#[test]
fn either_end_going_away_takes_the_session_down() {
    let echo = SocketAddress::v4(127, 0, 0, 1, 9000);
    let server = serving(&[("default", echo)], None);
    let mut client = connected_client("quic://localhost");
    let mut session = accepted(&server, &client);
    session.step(ServerEvent::Dialed);
    session.step(ServerEvent::StreamAccepted);

    let mut downstream_to_quic = CopyTask::new(false);
    assert!(matches!(downstream_to_quic.step(CopyEvent::ReadFailed), CopyAction::Stop { .. }));
    assert_eq!(
        session.step(ServerEvent::TaskEnded(quic_relay::server::ServerTask::DownstreamToQuic)),
        ServerAction::Finish { end: SessionEnd::Finished }
    );

    let mut quic_to_stdout = CopyTask::new(true);
    assert!(matches!(quic_to_stdout.step(CopyEvent::Finished), CopyAction::Stop { .. }));
    assert_eq!(
        client.step(ClientEvent::TaskEnded(ClientTask::Reader)),
        ClientAction::Close { code: 0, reason: CloseReason::Finished }
    );
}
