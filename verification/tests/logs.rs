use pebbles::logs::{
    ws_step, WsAction, WsEvent, frame_candidate, handle_frame, has_init, ClientInfo, Frame, LogLevel, LogTarget,
    Server, ServerOrigin, WsConnection, datagram_frame,
};

#[test]
fn frames_parse() {
    let f = Frame::try_from("init^info^Application started successfully^endData^close".to_string())
        .ok()
        .unwrap();
    assert_eq!(f.cmd, "info");
    assert_eq!(f.data, "Application started successfully");
}

#[test]
fn malformed_frames() {
    assert_eq!(
        Frame::try_from("init^info^endData^close".to_string()).err(),
        Some("Malformed frame str: unexpected number of fields".to_string())
    );
    assert_eq!(
        Frame::try_from("start^a^b^endData^close".to_string()).err(),
        Some("Malformed frame str: found `start` instead of `init`".to_string())
    );
    assert_eq!(
        Frame::try_from("init^a^b^end^close".to_string()).err(),
        Some("Malformed frame str: found `end` instead of `endData`".to_string())
    );
    assert_eq!(
        Frame::try_from("init^a^b^endData^bye".to_string()).err(),
        Some("Malformed frame str: found `bye` instead of `close`".to_string())
    );
}

#[test]
fn init_detection() {
    assert!(has_init("init^x"));
    assert!(!has_init("init"));
    assert!(!has_init("initial^x"));
    assert_eq!(frame_candidate("  init^a^b^endData^close \n"), Some("init^a^b^endData^close".to_string()));
    assert_eq!(frame_candidate("hello"), None);
}

#[test]
fn origins() {
    assert!(ServerOrigin::from_str("UDP").ok() == Some(ServerOrigin::Udp));
    assert!(ServerOrigin::from_str("TCP WS").ok() == Some(ServerOrigin::TcpWs));
    assert_eq!(ServerOrigin::from_str("tcp").err(), Some("Cannot convert str to ServerOrigin".to_string()));
    assert_eq!(ServerOrigin::Udp.to_string(), "UDP");
    assert_eq!(ServerOrigin::TcpWs.to_string(), "TCP WS");
}

#[test]
fn frame_entries() {
    let c = ClientInfo::new("10.0.0.2".into(), 4000);
    let e = handle_frame(c.clone(), "init^warn^disk low^endData^close".into(), ServerOrigin::Udp);
    assert_eq!(e.target, LogTarget::BackendFile);
    assert_eq!(e.level, LogLevel::Warn);
    assert_eq!(e.message, "Received frame from 10.0.0.2:4000 on UDP server [ cmd: warn, data: disk low ]");
    let e = handle_frame(c.clone(), "init^custom^x^endData^close".into(), ServerOrigin::TcpWs);
    assert_eq!(e.level, LogLevel::Trace);
    let e = handle_frame(c, "init^x".into(), ServerOrigin::Udp);
    assert_eq!(e.target, LogTarget::Backend);
    assert_eq!(e.level, LogLevel::Error);
    assert_eq!(e.message, "Malformed frame str: unexpected number of fields");
    let e = handle_frame(ClientInfo::new("h".into(), 1), "init^ınfo^x^endData^close".into(), ServerOrigin::Udp);
    assert_eq!(e.level, LogLevel::Info);
}

#[test]
fn registry_connect_and_disconnect() {
    let mut s: Server<u8> = Server::new();
    let (a, out) = s.connect(1);
    assert_eq!(out.len(), 1);
    assert_eq!(out[0].to, a);
    assert_eq!(out[0].msg, "Connected clients: 1");
    let (b, out) = s.connect(2);
    assert_eq!(out.len(), 3);
    assert_eq!((out[0].to, out[0].msg.as_str()), (a, "Someone joined"));
    assert_eq!(out[2].msg, "Connected clients: 2");
    assert_eq!(s.get_conn_tx(b), Ok(&2));
    let d = s.disconnect(ClientInfo::new("1.1.1.1".into(), 9), a);
    assert!(d.was_registered);
    assert_eq!(d.log.message, "Client 1.1.1.1:9 disconnected");
    assert_eq!(d.outgoing.len(), 1);
    assert_eq!((d.outgoing[0].to, d.outgoing[0].msg.as_str()), (b, "Someone disconnected"));
    assert_eq!(s.get_conn_tx(a), Err(()));
    let e = s.handle_frame(ClientInfo::new("1.1.1.1".into(), 9), "init^debug^d^endData^close".into());
    assert_eq!(e.message, "Received frame from 1.1.1.1:9 [ cmd: debug, data: d ]");
    assert_eq!(e.level, LogLevel::Debug);
}

#[test]
fn websocket_events() {
    let c = ClientInfo::new("2.2.2.2".into(), 80);
    assert!(matches!(ws_step(&c, WsEvent::Ping), WsAction::Pong));
    assert!(matches!(ws_step(&c, WsEvent::Pong), WsAction::Heartbeat));
    match ws_step(&c, WsEvent::Text(" init^info^x^endData^close\n".into())) {
        WsAction::HandleFrame(f) => assert_eq!(f, "init^info^x^endData^close"),
        _ => panic!("expected a frame"),
    }
    assert!(matches!(ws_step(&c, WsEvent::Text("hello".into())), WsAction::Nothing));
    match ws_step(&c, WsEvent::Binary) {
        WsAction::Log(e) => {
            assert_eq!(e.level, LogLevel::Warn);
            assert_eq!(e.message, "Unexpected binary message");
        },
        _ => panic!("expected a log entry"),
    }
    assert!(matches!(ws_step(&c, WsEvent::Close), WsAction::Close));
    assert!(matches!(ws_step(&c, WsEvent::StreamEnd), WsAction::Stop(None)));
    match ws_step(&c, WsEvent::StreamError("boom".into())) {
        WsAction::Stop(Some(e)) => assert_eq!((e.level, e.message.as_str()), (LogLevel::Error, "boom")),
        _ => panic!("expected a stop"),
    }
    match ws_step(&c, WsEvent::Outgoing("Someone joined".into())) {
        WsAction::Send(m) => assert_eq!(m, "Someone joined"),
        _ => panic!("expected a send"),
    }
    match ws_step(&c, WsEvent::SendFailed) {
        WsAction::Stop(Some(e)) => assert_eq!(e.message, "Text to 2.2.2.2:80 failed. Disconnecting..."),
        _ => panic!("expected a stop"),
    }
    assert!(matches!(ws_step(&c, WsEvent::Tick { since_heartbeat_secs: 10, since_heartbeat_nanos: 0 }), WsAction::Ping));
    match ws_step(&c, WsEvent::Tick { since_heartbeat_secs: 10, since_heartbeat_nanos: 1 }) {
        WsAction::Stop(Some(e)) => {
            assert_eq!(e.message, "Client has not sent heartbeat in over 10s; disconnecting")
        },
        _ => panic!("expected a timeout"),
    }
}

#[test]
fn disconnecting_an_unknown_id_keeps_the_count() {
    let mut s: Server<u8> = Server::new();
    let (a, _) = s.connect(1);
    let unknown = a.wrapping_add(1);
    let d = s.disconnect(ClientInfo::new("2.2.2.2".into(), 7), unknown);
    assert!(!d.was_registered);
    assert_eq!(d.outgoing.len(), 1);
    assert_eq!((d.outgoing[0].to, d.outgoing[0].msg.as_str()), (a, "Someone disconnected"));
    assert_eq!(s.get_conn_tx(a), Ok(&1));
    let (b, out) = s.connect(2);
    assert_ne!(a, b);
    assert_eq!(out[out.len() - 1].msg, "Connected clients: 2");
}

#[test]
fn connect_gives_distinct_ids() {
    let mut s: Server<u8> = Server::new();
    let mut ids: Vec<u128> = Vec::new();
    for k in 0..20u8 {
        let (id, _) = s.connect(k);
        assert!(!ids.contains(&id));
        ids.push(id);
    }
    for (k, id) in ids.iter().enumerate() {
        assert_eq!(s.get_conn_tx(*id), Ok(&(k as u8)));
    }
}

#[test]
fn ws_connection_ends_once() {
    let client = ClientInfo::new("1.1.1.1".into(), 9);
    let mut c = WsConnection::new(42);
    assert!(matches!(c.step(&client, WsEvent::Ping), WsAction::Pong));
    match c.step(&client, WsEvent::Text("  init^info^x^endData^close ".into())) {
        WsAction::HandleFrame(f) => assert_eq!(f, "init^info^x^endData^close"),
        _ => panic!("expected a frame"),
    }
    assert!(matches!(c.step(&client, WsEvent::Tick { since_heartbeat_secs: 10, since_heartbeat_nanos: 1 }), WsAction::Stop(Some(_))));
    assert!(matches!(c.step(&client, WsEvent::Ping), WsAction::Nothing));
    assert!(matches!(c.step(&client, WsEvent::Close), WsAction::Nothing));
    assert_eq!(c.finish(), Some(42));
    assert_eq!(c.finish(), None);
}

#[test]
fn ws_connection_close_and_frames_levels() {
    let client = ClientInfo::new("1.1.1.1".into(), 9);
    let mut c = WsConnection::new(7);
    assert!(matches!(c.step(&client, WsEvent::Tick { since_heartbeat_secs: 10, since_heartbeat_nanos: 0 }), WsAction::Ping));
    assert!(matches!(c.step(&client, WsEvent::Close), WsAction::Close));
    assert_eq!(c.finish(), Some(7));
    let e = handle_frame(client, "init^wArN^d^endData^close".into(), ServerOrigin::Udp);
    assert_eq!(e.level, LogLevel::Warn);
}

#[test]
fn datagram_frames() {
    assert_eq!(
        datagram_frame(b"  init^info^x^endData^close\n"),
        Some("init^info^x^endData^close".to_string())
    );
    assert_eq!(datagram_frame(b"hello"), None);
    assert_eq!(datagram_frame(b"\xffinit^a^b^endData^close"), None);
    assert_eq!(
        datagram_frame(b"init^info^\xff^endData^close"),
        Some("init^info^\u{fffd}^endData^close".to_string())
    );
}

#[test]
fn heartbeat_timeout_is_exact() {
    let client = ClientInfo::new("1.1.1.1".into(), 9);
    assert!(matches!(
        ws_step(&client, WsEvent::Tick { since_heartbeat_secs: 9, since_heartbeat_nanos: 999_999_999 }),
        WsAction::Ping
    ));
    assert!(matches!(
        ws_step(&client, WsEvent::Tick { since_heartbeat_secs: 11, since_heartbeat_nanos: 0 }),
        WsAction::Stop(Some(_))
    ));
}
