use quic_relay::address::SocketAddress;
use quic_relay::server::{
    default_listen, routing_key, AcceptAction, Incoming, Opt, Route, Router, Server,
    ServerAction, ServerConf, ServerError, ServerEvent, ServerPhase, ServerSession, ServerStage,
    ServerTask, SessionEnd, StartupAction, StartupEvent,
};
use quic_relay::status::exit_code;

fn established(name: &str) -> Incoming {
    Incoming::Established { server_name: Some(name.to_string()), peer_ip: "192.0.2.7".to_string() }
}

fn table(entries: &[(&str, SocketAddress)]) -> ServerConf {
    let mut conf = ServerConf::new();
    for (name, addr) in entries {
        conf.insert(name.to_string(), *addr);
    }
    conf
}

#[test]
fn listen_address_defaults_to_any_4433() {
    assert_eq!(default_listen(), SocketAddress::V4 { ip: 0, port: 4433 });
    let options = Opt { listen: default_listen(), proxy_to: None, conf_path: None };
    assert_eq!(options.listen.port(), 4433);
}

#[test]
fn empty_table_has_no_routes() {
    let conf = ServerConf::new();
    assert_eq!(conf.len(), 0);
    assert_eq!(conf.get("default"), None);
    assert_eq!(conf.get(""), None);
}

#[test]
fn routes_are_found_by_exact_name() {
    let a = SocketAddress::v4(10, 0, 0, 5, 22);
    let b = SocketAddress::v4(10, 0, 0, 6, 2222);
    let conf = table(&[("tenant-a.example", a), ("tenant-b.example", b)]);
    assert_eq!(conf.len(), 2);
    assert_eq!(conf.get("tenant-a.example"), Some(a));
    assert_eq!(conf.get("tenant-b.example"), Some(b));
    assert_eq!(conf.get("tenant-c.example"), None);
    assert_eq!(conf.get("Tenant-A.example"), None);
    assert_eq!(conf.get("tenant-a.exampl"), None);
}

#[test]
fn a_name_has_one_route() {
    let a = SocketAddress::v4(10, 0, 0, 5, 22);
    let b = SocketAddress::v4(10, 0, 0, 6, 2222);
    let mut conf = ServerConf::new();
    assert_eq!(conf.insert("alpha".to_string(), a), None);
    assert_eq!(conf.insert("beta".to_string(), a), None);
    assert_eq!(conf.insert("alpha".to_string(), b), Some(a));
    assert_eq!(conf.len(), 2);
    assert_eq!(conf.get("alpha"), Some(b));
    assert_eq!(conf.get("beta"), Some(a));
}

#[test]
fn fallback_prefers_the_table_then_the_command_line_then_port_22() {
    let from_table = SocketAddress::v4(127, 0, 0, 1, 9000);
    let from_cli = SocketAddress::v4(10, 9, 8, 7, 22);
    let other = SocketAddress::v4(10, 0, 0, 5, 22);

    let router = Router::new(table(&[("default", from_table), ("alpha", other)]), Some(from_cli));
    assert_eq!(router.fallback(), from_table);
    let router = Router::new(table(&[("default", from_table)]), None);
    assert_eq!(router.fallback(), from_table);
    let router = Router::new(table(&[("alpha", other)]), Some(from_cli));
    assert_eq!(router.fallback(), from_cli);
    let router = Router::new(table(&[("alpha", other)]), None);
    assert_eq!(router.fallback(), SocketAddress::v4(127, 0, 0, 1, 22));
    let router = Router::new(ServerConf::new(), None);
    assert_eq!(router.fallback(), SocketAddress::V4 { ip: 0x7f00_0001, port: 22 });
}

#[test]
fn each_name_reaches_its_own_downstream() {
    let a = SocketAddress::v4(127, 0, 0, 1, 9001);
    let b = SocketAddress::v4(127, 0, 0, 1, 9002);
    let router = Router::new(table(&[("alpha", a), ("beta", b)]), None);
    assert_eq!(router.route("alpha"), a);
    assert_eq!(router.route("beta"), b);
    assert_eq!(router.accept(&established("alpha")), AcceptAction::Spawn { downstream: a });
    assert_eq!(router.accept(&established("beta")), AcceptAction::Spawn { downstream: b });
}

#[test]
fn unknown_name_goes_to_the_fallback_alone() {
    let a = SocketAddress::v4(127, 0, 0, 1, 9001);
    let b = SocketAddress::v4(127, 0, 0, 1, 9002);
    let router = Router::new(table(&[("alpha", a), ("beta", b)]), None);
    let last_resort = SocketAddress::v4(127, 0, 0, 1, 22);
    assert_eq!(router.route("unknown"), last_resort);
    assert_eq!(
        router.accept(&established("unknown")),
        AcceptAction::Spawn { downstream: last_resort }
    );
    let echo = SocketAddress::v4(127, 0, 0, 1, 9000);
    let router = Router::new(table(&[("default", echo)]), None);
    assert_eq!(router.route("localhost"), echo);
    assert_eq!(router.route("default"), echo);
}

#[test]
fn routing_key_is_the_server_name_or_else_the_peer_address() {
    assert_eq!(routing_key(Some("alpha".to_string()), "192.0.2.7".to_string()), "alpha");
    assert_eq!(routing_key(None, "192.0.2.7".to_string()), "192.0.2.7");
    assert_eq!(routing_key(Some(String::new()), "192.0.2.7".to_string()), "");
}

#[test]
fn connection_without_server_name_is_routed_by_peer_address() {
    let by_ip = SocketAddress::v4(10, 0, 0, 9, 22);
    let router = Router::new(table(&[("192.0.2.7", by_ip)]), None);
    let incoming = Incoming::Established { server_name: None, peer_ip: "192.0.2.7".to_string() };
    assert_eq!(router.accept(&incoming), AcceptAction::Spawn { downstream: by_ip });
    let incoming = Incoming::Established { server_name: None, peer_ip: "192.0.2.8".to_string() };
    assert_eq!(
        router.accept(&incoming),
        AcceptAction::Spawn { downstream: SocketAddress::v4(127, 0, 0, 1, 22) }
    );
    let incoming = Incoming::Established {
        server_name: Some("other".to_string()),
        peer_ip: "192.0.2.7".to_string(),
    };
    assert_eq!(
        router.accept(&incoming),
        AcceptAction::Spawn { downstream: SocketAddress::v4(127, 0, 0, 1, 22) }
    );
}

#[test]
fn failed_handshake_is_passed_over() {
    let router = Router::new(ServerConf::new(), None);
    assert_eq!(router.accept(&Incoming::Failed), AcceptAction::Resume);
}

#[test]
fn session_dials_then_accepts_then_relays() {
    let downstream = SocketAddress::v4(127, 0, 0, 1, 9000);
    let mut session = ServerSession::new(downstream);
    assert_eq!(session.action(), ServerAction::Dial { downstream });
    assert_eq!(session.step(ServerEvent::Dialed), ServerAction::AcceptStream);
    assert_eq!(session.step(ServerEvent::StreamAccepted), ServerAction::Relay);
    assert_eq!(session.phase, ServerPhase::Running);
    assert_eq!(session.downstream, downstream);
}

#[test]
fn failed_dial_ends_the_session() {
    let mut session = ServerSession::new(SocketAddress::v4(127, 0, 0, 1, 22));
    assert_eq!(
        session.step(ServerEvent::DialFailed),
        ServerAction::Finish { end: SessionEnd::DialFailed }
    );
    assert_eq!(session.phase, ServerPhase::Ended(SessionEnd::DialFailed));
}

#[test]
fn failed_stream_ends_the_session() {
    let mut session = ServerSession::new(SocketAddress::v4(127, 0, 0, 1, 22));
    session.step(ServerEvent::Dialed);
    assert_eq!(
        session.step(ServerEvent::StreamFailed),
        ServerAction::Finish { end: SessionEnd::StreamFailed }
    );
}

#[test]
fn either_copy_task_ending_finishes_the_session() {
    for task in [ServerTask::DownstreamToQuic, ServerTask::QuicToDownstream] {
        let mut session = ServerSession::new(SocketAddress::v4(127, 0, 0, 1, 22));
        session.step(ServerEvent::Dialed);
        session.step(ServerEvent::StreamAccepted);
        assert_eq!(
            session.step(ServerEvent::TaskEnded(task)),
            ServerAction::Finish { end: SessionEnd::Finished }
        );
    }
}

#[test]
fn a_finished_session_stays_finished() {
    let mut session = ServerSession::new(SocketAddress::v4(127, 0, 0, 1, 22));
    let end = session.step(ServerEvent::DialFailed);
    for event in [
        ServerEvent::Dialed,
        ServerEvent::DialFailed,
        ServerEvent::StreamAccepted,
        ServerEvent::StreamFailed,
        ServerEvent::TaskEnded(ServerTask::DownstreamToQuic),
        ServerEvent::TaskEnded(ServerTask::QuicToDownstream),
    ] {
        assert_eq!(session.step(event), end);
    }
}

#[test]
fn session_events_out_of_turn_change_nothing() {
    let downstream = SocketAddress::v4(127, 0, 0, 1, 22);
    let mut session = ServerSession::new(downstream);
    for event in [
        ServerEvent::StreamAccepted,
        ServerEvent::StreamFailed,
        ServerEvent::TaskEnded(ServerTask::DownstreamToQuic),
    ] {
        assert_eq!(session.step(event), ServerAction::Dial { downstream });
    }
    session.step(ServerEvent::Dialed);
    for event in [
        ServerEvent::Dialed,
        ServerEvent::DialFailed,
        ServerEvent::TaskEnded(ServerTask::QuicToDownstream),
    ] {
        assert_eq!(session.step(event), ServerAction::AcceptStream);
    }
    session.step(ServerEvent::StreamAccepted);
    for event in [
        ServerEvent::Dialed,
        ServerEvent::DialFailed,
        ServerEvent::StreamAccepted,
        ServerEvent::StreamFailed,
    ] {
        assert_eq!(session.step(event), ServerAction::Relay);
    }
}

#[test]
fn a_failed_session_does_not_disturb_the_next_connection() {
    let a = SocketAddress::v4(127, 0, 0, 1, 9001);
    let router = Router::new(table(&[("alpha", a)]), None);

    let AcceptAction::Spawn { downstream } = router.accept(&established("unknown")) else {
        panic!("an established connection gets a session");
    };
    assert_eq!(downstream, SocketAddress::v4(127, 0, 0, 1, 22));
    let mut failing = ServerSession::new(downstream);
    assert_eq!(
        failing.step(ServerEvent::DialFailed),
        ServerAction::Finish { end: SessionEnd::DialFailed }
    );

    assert_eq!(router.accept(&Incoming::Failed), AcceptAction::Resume);
    assert_eq!(router.accept(&established("alpha")), AcceptAction::Spawn { downstream: a });
    let mut next = ServerSession::new(a);
    assert_eq!(next.step(ServerEvent::Dialed), ServerAction::AcceptStream);
    assert_eq!(failing.phase, ServerPhase::Ended(SessionEnd::DialFailed));
}

#[test]
fn routes_are_handed_out_one_for_each_name() {
    let a = SocketAddress::v4(10, 0, 0, 5, 22);
    let b = SocketAddress::v4(10, 0, 0, 6, 2222);
    let mut conf = table(&[("alpha", a), ("beta", a)]);
    conf.insert("alpha".to_string(), b);
    let mut routes = conf.routes();
    routes.sort_by(|x, y| x.sni.cmp(&y.sni));
    assert_eq!(
        routes,
        vec![
            Route { sni: "alpha".to_string(), addr: b },
            Route { sni: "beta".to_string(), addr: a },
        ]
    );
    assert_eq!(ServerConf::new().routes(), vec![]);
}

#[test]
fn server_without_configuration_file_binds_at_once() {
    let options = Opt { listen: default_listen(), proxy_to: None, conf_path: None };
    let mut server = Server::start(options);
    assert_eq!(server.stage(), ServerStage::Binding);
    assert_eq!(server.conf_path(), &None);
    assert_eq!(
        server.action(),
        StartupAction::Listen { addr: SocketAddress::V4 { ip: 0, port: 4433 } }
    );
    assert_eq!(server.router().fallback(), SocketAddress::v4(127, 0, 0, 1, 22));
    assert_eq!(server.step(StartupEvent::Bound), StartupAction::Accept);
    assert_eq!(
        server.accept(&established("unknown")),
        AcceptAction::Spawn { downstream: SocketAddress::v4(127, 0, 0, 1, 22) }
    );
}

#[test]
fn server_loads_its_configuration_before_it_binds() {
    let echo = SocketAddress::v4(127, 0, 0, 1, 9000);
    let a = SocketAddress::v4(127, 0, 0, 1, 9001);
    let listen = SocketAddress::v4(0, 0, 0, 0, 5000);
    let from_cli = SocketAddress::v4(10, 9, 8, 7, 22);
    let options =
        Opt { listen, proxy_to: Some(from_cli), conf_path: Some("relay.toml".to_string()) };
    let mut server = Server::start(options);
    assert_eq!(server.action(), StartupAction::LoadConf);
    assert_eq!(server.conf_path(), &Some("relay.toml".to_string()));
    assert_eq!(server.router().fallback(), from_cli);
    assert_eq!(server.accept(&established("alpha")), AcceptAction::Resume);

    let loaded = table(&[("default", echo), ("alpha", a)]);
    assert_eq!(server.step(StartupEvent::ConfLoaded(loaded)), StartupAction::Listen { addr: listen });
    assert_eq!(server.router().fallback(), echo);
    assert_eq!(server.accept(&established("alpha")), AcceptAction::Resume);
    assert_eq!(server.step(StartupEvent::Bound), StartupAction::Accept);
    assert_eq!(server.accept(&established("alpha")), AcceptAction::Spawn { downstream: a });
    assert_eq!(server.accept(&established("localhost")), AcceptAction::Spawn { downstream: echo });
    assert_eq!(server.accept(&Incoming::Failed), AcceptAction::Resume);
}

#[test]
fn command_line_fallback_serves_when_the_file_has_no_default() {
    let a = SocketAddress::v4(127, 0, 0, 1, 9001);
    let from_cli = SocketAddress::v4(10, 9, 8, 7, 22);
    let options = Opt {
        listen: default_listen(),
        proxy_to: Some(from_cli),
        conf_path: Some("relay.toml".to_string()),
    };
    let mut server = Server::start(options);
    server.step(StartupEvent::ConfLoaded(table(&[("alpha", a)])));
    server.step(StartupEvent::Bound);
    assert_eq!(server.accept(&established("beta")), AcceptAction::Spawn { downstream: from_cli });
}

#[test]
fn startup_failures_are_fatal() {
    let options =
        Opt { listen: default_listen(), proxy_to: None, conf_path: Some("x".to_string()) };
    let mut server = Server::start(options.clone());
    assert_eq!(
        server.step(StartupEvent::ConfFailed),
        StartupAction::Fail { error: ServerError::ConfigParse }
    );
    for event in [
        StartupEvent::ConfLoaded(ServerConf::new()),
        StartupEvent::ConfFailed,
        StartupEvent::Bound,
        StartupEvent::BindFailed,
    ] {
        assert_eq!(server.step(event), StartupAction::Fail { error: ServerError::ConfigParse });
    }
    assert_eq!(server.accept(&established("alpha")), AcceptAction::Resume);

    let mut server = Server::start(options);
    server.step(StartupEvent::ConfLoaded(ServerConf::new()));
    assert_eq!(
        server.step(StartupEvent::BindFailed),
        StartupAction::Fail { error: ServerError::BindFailed }
    );
    assert_eq!(server.stage(), ServerStage::Failed { error: ServerError::BindFailed });
    assert_eq!(exit_code::<ServerError>(&Err(ServerError::BindFailed)), 1);
    assert_eq!(exit_code::<ServerError>(&Err(ServerError::ConfigParse)), 1);
    assert_eq!(exit_code::<ServerError>(&Ok(())), 0);
}

#[test]
fn an_accepting_server_keeps_its_routes() {
    let a = SocketAddress::v4(127, 0, 0, 1, 9001);
    let b = SocketAddress::v4(127, 0, 0, 1, 9002);
    let options =
        Opt { listen: default_listen(), proxy_to: None, conf_path: Some("x".to_string()) };
    let mut server = Server::start(options);
    server.step(StartupEvent::ConfLoaded(table(&[("alpha", a)])));
    server.step(StartupEvent::Bound);
    for event in [
        StartupEvent::ConfLoaded(table(&[("alpha", b)])),
        StartupEvent::ConfFailed,
        StartupEvent::Bound,
        StartupEvent::BindFailed,
    ] {
        assert_eq!(server.step(event), StartupAction::Accept);
        assert_eq!(server.accept(&established("alpha")), AcceptAction::Spawn { downstream: a });
    }
}

#[test]
fn events_out_of_turn_do_not_start_the_server() {
    let options =
        Opt { listen: default_listen(), proxy_to: None, conf_path: Some("x".to_string()) };
    let mut server = Server::start(options);
    assert_eq!(server.step(StartupEvent::Bound), StartupAction::LoadConf);
    assert_eq!(server.step(StartupEvent::BindFailed), StartupAction::LoadConf);
    server.step(StartupEvent::ConfLoaded(ServerConf::new()));
    let listen = StartupAction::Listen { addr: default_listen() };
    assert_eq!(server.step(StartupEvent::ConfFailed), listen);
    assert_eq!(
        server.step(StartupEvent::ConfLoaded(table(&[("default", SocketAddress::v4(1, 1, 1, 1, 1))]))),
        listen
    );
    assert_eq!(server.router().fallback(), SocketAddress::v4(127, 0, 0, 1, 22));
}
