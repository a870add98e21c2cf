use bore::server::{ListenAction, ListenEvent, PortChoice, Server};
use bore::session::{Action, BindError, Event, Failure, IpAddr, Phase, PortSearch, Session};
use bore::shared::{ClientMessage, ForwardingEndpoint, ServerMessage};

const RECEIVE: Action = Action::Receive { limit_ms: 3000 };
const WAIT: Action = Action::Accept { limit_ms: 500 };
const HEARTBEAT: Action = Action::Send(ServerMessage::Heartbeat);
const DONE: Action = Action::Finish(Ok(()));

fn error(text: &str) -> Action {
    Action::Send(ServerMessage::Error(text.to_string()))
}

fn failed(failure: Failure) -> Action {
    Action::Finish(Err(failure))
}

fn hello(endpoint: ForwardingEndpoint) -> Event {
    Event::Received(Some(ClientMessage::Hello(endpoint)))
}

fn accept(id: u128) -> Event {
    Event::Received(Some(ClientMessage::Accept(id)))
}

/// A session that awaits its request.
fn requesting(server: &mut Server) -> Session {
    let mut session = Session::new();
    assert_eq!(server.handle_connection(&mut session, Event::Opened), RECEIVE);
    session
}

/// A session that waits for connections to a TCP port.
fn listening(server: &mut Server, port: u16) -> Session {
    let mut session = requesting(server);
    let endpoint = ForwardingEndpoint::Tcp(port);
    assert_eq!(
        server.handle_connection(&mut session, hello(endpoint)),
        Action::BindTcp { addr: IpAddr::V4(0), port }
    );
    assert_eq!(
        server.handle_connection(&mut session, Event::TcpBound(port)),
        Action::Send(ServerMessage::Hello(endpoint))
    );
    assert_eq!(server.handle_connection(&mut session, Event::Sent), HEARTBEAT);
    assert_eq!(server.handle_connection(&mut session, Event::Sent), WAIT);
    session
}

/// Lets a connection come in under a chosen name.
fn connect(server: &mut Server, session: &mut Session, handle: u64, id: u128) -> Option<u64> {
    assert_eq!(server.handle_connection(session, Event::Accepted(handle)), Action::DrawId);
    let displaced = match server.handle_connection(session, Event::IdDrawn(id)) {
        Action::ScheduleRemoval { id: scheduled, after_ms, displaced } => {
            assert_eq!((scheduled, after_ms), (id, 10000));
            displaced
        }
        _ => panic!("no removal is scheduled"),
    };
    assert_eq!(
        server.handle_connection(session, Event::Scheduled),
        Action::Send(ServerMessage::Connection(id))
    );
    assert_eq!(server.handle_connection(session, Event::Sent), HEARTBEAT);
    assert_eq!(server.handle_connection(session, Event::Sent), WAIT);
    displaced
}

#[test]
fn control_server() {
    let mut server = Server::new(1024..=65535, None);
    assert_eq!(
        server.listen(ListenEvent::Started),
        ListenAction::Bind { addr: IpAddr::V4(0), port: 7835 }
    );
    server.set_bind_addr(IpAddr::V6(1));
    assert_eq!(
        server.listen(ListenEvent::Started),
        ListenAction::Bind { addr: IpAddr::V6(1), port: 7835 }
    );
    assert_eq!(server.listen(ListenEvent::Bound), ListenAction::Accept);
    assert_eq!(server.listen(ListenEvent::Accepted), ListenAction::ServeAndAccept);
    assert_eq!(server.listen(ListenEvent::BindFailed), ListenAction::Stop);
    assert_eq!(server.listen(ListenEvent::AcceptFailed), ListenAction::Stop);
}

#[test]
fn control_server_serves_each_client() {
    let server = Server::new(1024..=65535, None);
    let events = [
        ListenEvent::Started,
        ListenEvent::Bound,
        ListenEvent::Accepted,
        ListenEvent::Accepted,
        ListenEvent::Accepted,
        ListenEvent::AcceptFailed,
    ];
    assert_eq!(
        events.map(|event| server.listen(event)),
        [
            ListenAction::Bind { addr: IpAddr::V4(0), port: 7835 },
            ListenAction::Accept,
            ListenAction::ServeAndAccept,
            ListenAction::ServeAndAccept,
            ListenAction::ServeAndAccept,
            ListenAction::Stop,
        ]
    );
}

#[test]
fn sessions_run_side_by_side() {
    let mut server = Server::new(1024..=65535, None);
    let mut first = listening(&mut server, 2000);
    let mut second = listening(&mut server, 3000);
    assert_eq!(connect(&mut server, &mut first, 11, 1), None);
    // The end of one session leaves the others, the listener and what waits as they were.
    let ended = server.advance(&mut first, Event::AcceptFailed);
    assert_eq!(ended, failed(Failure::Accept));
    assert_eq!(second.phase(), Phase::Listening(ForwardingEndpoint::Tcp(3000)));
    assert_eq!(connect(&mut server, &mut second, 12, 2), None);
    assert_eq!(server.listen(ListenEvent::Accepted), ListenAction::ServeAndAccept);
    let mut client = requesting(&mut server);
    assert_eq!(server.advance(&mut client, accept(1)), Action::Forward { handle: 11 });
    assert_eq!(server.remove_stale(1), None);
    assert_eq!(server.remove_stale(2), Some(12));
}

#[test]
fn secret_is_asked_for_first() {
    let mut server = Server::new(1024..=65535, Some("secret"));
    let mut session = Session::new();
    assert_eq!(server.advance(&mut session, Event::Opened), Action::Handshake);
    assert_eq!(server.advance(&mut session, Event::Authenticated), RECEIVE);
}

#[test]
fn client_is_authenticated_once() {
    let mut server = Server::new(1024..=65535, Some("secret"));
    let mut session = Session::new();
    let mut handshakes = 0;
    for event in [
        Event::Opened,
        Event::Authenticated,
        hello(ForwardingEndpoint::Tcp(2000)),
        Event::TcpBound(2000),
        Event::Sent,
        Event::Sent,
        Event::AcceptTimedOut,
        Event::SendFailed,
    ] {
        assert!(server.expects(&session, &event));
        if server.advance(&mut session, event) == Action::Handshake {
            handshakes += 1;
        }
    }
    assert_eq!(handshakes, 1);
    assert_eq!(session.phase(), Phase::Closed);
}

#[test]
fn failed_handshake_is_told() {
    let mut server = Server::new(1024..=65535, Some("secret"));
    for (sent, last) in [(Event::Sent, DONE), (Event::SendFailed, failed(Failure::Send))] {
        let mut session = Session::new();
        assert_eq!(server.advance(&mut session, Event::Opened), Action::Handshake);
        let reason = Event::HandshakeFailed("invalid secret".to_string());
        assert_eq!(server.advance(&mut session, reason), error("invalid secret"));
        assert_eq!(server.advance(&mut session, sent), last);
        assert_eq!(session.phase(), Phase::Closed);
    }
}

#[test]
fn sessions_without_a_request() {
    let mut server = Server::new(1024..=65535, None);
    for (event, last) in [
        (Event::Received(None), DONE),
        (Event::Received(Some(ClientMessage::Authenticate("answer".to_string()))), DONE),
        (accept(7), DONE),
        (Event::ReceiveFailed, failed(Failure::Receive)),
    ] {
        let mut session = requesting(&mut server);
        assert_eq!(server.advance(&mut session, event), last);
        assert_eq!(session.phase(), Phase::Closed);
    }
}

#[test]
fn requested_port_must_be_in_range() {
    let server = Server::new(2000..=3000, None);
    for port in [2000, 2500, 3000] {
        assert_eq!(server.create_tcp_listener(port), Ok(PortChoice::Requested(port)));
    }
    for port in [1, 1999, 3001, 65535] {
        assert_eq!(
            server.create_tcp_listener(port),
            Err("client port number not in allowed range")
        );
    }
    assert_eq!(server.create_tcp_listener(0), Ok(PortChoice::Any));
}

#[test]
fn port_out_of_range_is_told() {
    let mut server = Server::new(2000..=3000, None);
    let mut session = requesting(&mut server);
    assert_eq!(
        server.advance(&mut session, hello(ForwardingEndpoint::Tcp(80))),
        error("client port number not in allowed range")
    );
    assert_eq!(server.advance(&mut session, Event::Sent), DONE);
}

#[test]
fn requested_port_that_cannot_be_bound() {
    let mut server = Server::new(2000..=3000, None);
    server.set_bind_tunnels(IpAddr::V4(9));
    for (err, text) in [
        (BindError::AddrInUse, "port already in use"),
        (BindError::PermissionDenied, "permission denied"),
        (BindError::AlreadyExists, "failed to bind to port"),
        (BindError::Other, "failed to bind to port"),
    ] {
        let mut session = requesting(&mut server);
        assert_eq!(
            server.advance(&mut session, hello(ForwardingEndpoint::Tcp(2000))),
            Action::BindTcp { addr: IpAddr::V4(9), port: 2000 }
        );
        assert_eq!(server.advance(&mut session, Event::BindFailed(err)), error(text));
    }
}

#[test]
fn any_port_is_drawn_from_the_range() {
    let mut server = Server::new(2000..=2003, None);
    let mut seen = [0; 4];
    for _ in 0..50 {
        let mut session = requesting(&mut server);
        match server.advance(&mut session, hello(ForwardingEndpoint::Tcp(0))) {
            Action::BindTcp { addr: IpAddr::V4(0), port } => seen[(port - 2000) as usize] += 1,
            _ => panic!("no port is bound"),
        }
    }
    assert!(seen.iter().filter(|times| **times > 0).count() > 1);

    let mut server = Server::new(2000..=2000, None);
    let mut session = requesting(&mut server);
    assert_eq!(
        server.advance(&mut session, hello(ForwardingEndpoint::Tcp(0))),
        Action::BindTcp { addr: IpAddr::V4(0), port: 2000 }
    );
    assert_eq!(session.phase(), Phase::BindingTcp(PortSearch::Any { failed: 0 }));
}

#[test]
fn search_stops_after_all_attempts() {
    let mut server = Server::new(1024..=65535, None);
    let mut session = requesting(&mut server);
    let mut action = server.advance(&mut session, hello(ForwardingEndpoint::Tcp(0)));
    let mut binds = 0;
    while let Action::BindTcp { .. } = action {
        binds += 1;
        action = server.advance(&mut session, Event::BindFailed(BindError::AddrInUse));
    }
    assert_eq!(binds, 150);
    assert_eq!(action, error("failed to find an available port"));
    assert_eq!(server.advance(&mut session, Event::Sent), DONE);
}

#[test]
fn first_port_that_can_be_bound_is_used() {
    let mut server = Server::new(1024..=65535, None);
    let mut session = requesting(&mut server);
    let _ = server.advance(&mut session, hello(ForwardingEndpoint::Tcp(0)));
    for _ in 0..149 {
        let action = server.advance(&mut session, Event::BindFailed(BindError::Other));
        assert!(matches!(action, Action::BindTcp { .. }));
    }
    assert_eq!(
        server.advance(&mut session, Event::TcpBound(4321)),
        Action::Send(ServerMessage::Hello(ForwardingEndpoint::Tcp(4321)))
    );
}

#[test]
fn picked_port_out_of_range_is_not_forwarded() {
    let mut server = Server::new(0..=10, None);
    let mut session = requesting(&mut server);
    let draw = server.handle_connection(&mut session, hello(ForwardingEndpoint::Tcp(0)));
    assert_eq!(draw, Action::DrawPort);
    let bind = server.handle_connection(&mut session, Event::PortDrawn(0));
    assert_eq!(bind, Action::BindTcp { addr: IpAddr::V4(0), port: 0 });
    // The machine picked a port that the server may not forward: another is drawn.
    let next = server.handle_connection(&mut session, Event::TcpBound(40000));
    assert_eq!(next, Action::DrawPort);
    assert_eq!(session.phase(), Phase::Drawing { failed: 1 });
    let _ = server.handle_connection(&mut session, Event::PortDrawn(0));
    assert_eq!(
        server.handle_connection(&mut session, Event::TcpBound(10)),
        Action::Send(ServerMessage::Hello(ForwardingEndpoint::Tcp(10)))
    );
}

#[test]
fn requested_port_that_is_not_the_bound_one() {
    let mut server = Server::new(1024..=2048, None);
    let mut session = requesting(&mut server);
    let _ = server.handle_connection(&mut session, hello(ForwardingEndpoint::Tcp(2000)));
    assert_eq!(
        server.handle_connection(&mut session, Event::TcpBound(40000)),
        error("failed to bind to port")
    );
}

#[test]
fn range_of_port_zero_alone() {
    let mut server = Server::new(0..=0, None);
    let mut session = requesting(&mut server);
    let mut action = server.advance(&mut session, hello(ForwardingEndpoint::Tcp(0)));
    let mut binds = 0;
    while let Action::BindTcp { addr: IpAddr::V4(0), port: 0 } = action {
        binds += 1;
        action = server.advance(&mut session, Event::TcpBound(40000));
    }
    assert_eq!(binds, 150);
    assert_eq!(action, error("failed to find an available port"));
}

#[test]
fn secret_is_kept() {
    assert_eq!(Server::new(1..=2, Some("secret")).secret(), Some("secret"));
    assert_eq!(Server::new(1..=2, Some("")).secret(), Some(""));
    assert_eq!(Server::new(1..=2, None).secret(), None);
}

#[test]
fn messages_of_a_whole_session() {
    let mut server = Server::new(1024..=65535, None);
    let mut session = requesting(&mut server);
    let mut heard = Vec::new();
    let mut hear = |action: Action| {
        if let Action::Send(message) = action {
            heard.push(message);
        }
    };
    hear(server.handle_connection(&mut session, hello(ForwardingEndpoint::Tcp(2000))));
    for event in [
        Event::TcpBound(2000),
        Event::Sent,
        Event::Sent,
        Event::AcceptTimedOut,
        Event::Sent,
        Event::Accepted(11),
        Event::IdDrawn(1),
        Event::Scheduled,
        Event::Sent,
        Event::Sent,
        Event::Accepted(12),
        Event::IdDrawn(2),
        Event::Scheduled,
        Event::Sent,
        Event::SendFailed,
    ] {
        assert!(server.expects(&session, &event));
        hear(server.handle_connection(&mut session, event));
    }
    assert_eq!(
        heard,
        vec![
            ServerMessage::Hello(ForwardingEndpoint::Tcp(2000)),
            ServerMessage::Heartbeat,
            ServerMessage::Heartbeat,
            ServerMessage::Connection(1),
            ServerMessage::Heartbeat,
            ServerMessage::Connection(2),
            ServerMessage::Heartbeat,
        ]
    );
}

#[test]
fn address_of_the_listener_is_needed() {
    let mut server = Server::new(1024..=65535, None);
    let mut session = requesting(&mut server);
    let _ = server.advance(&mut session, hello(ForwardingEndpoint::Tcp(2000)));
    assert_eq!(
        server.advance(&mut session, Event::LocalAddrFailed),
        failed(Failure::LocalAddr)
    );
}

#[test]
fn http_needs_a_socket() {
    let mut server = Server::new(1024..=65535, None);
    assert_eq!(server.create_http_listener(), Err("server doesn't support HTTP forwarding"));
    let mut session = requesting(&mut server);
    assert_eq!(
        server.advance(&mut session, hello(ForwardingEndpoint::Http)),
        error("server doesn't support HTTP forwarding")
    );
}

#[test]
fn http_socket_that_cannot_be_bound() {
    let mut server = Server::new(1024..=65535, None);
    server.set_http_socket(Some(b"/run/bore".to_vec()));
    assert_eq!(server.create_http_listener(), Ok(b"/run/bore".to_vec()));
    for (err, text) in [
        (BindError::AddrInUse, "an HTTP forwarding session is already in progress"),
        (BindError::AlreadyExists, "an HTTP forwarding session is already in progress"),
        (BindError::PermissionDenied, "failed to bind to HTTP socket"),
        (BindError::Other, "failed to bind to HTTP socket"),
    ] {
        let mut session = requesting(&mut server);
        assert_eq!(
            server.advance(&mut session, hello(ForwardingEndpoint::Http)),
            Action::BindHttp { path: b"/run/bore".to_vec() }
        );
        assert_eq!(server.advance(&mut session, Event::BindFailed(err)), error(text));
    }
}

#[test]
fn http_socket_is_removed_when_the_client_is_gone() {
    let mut server = Server::new(1024..=65535, None);
    server.set_http_socket(Some(b"/run/bore".to_vec()));
    let mut session = requesting(&mut server);
    let _ = server.advance(&mut session, hello(ForwardingEndpoint::Http));
    assert_eq!(
        server.advance(&mut session, Event::HttpBound),
        Action::Send(ServerMessage::Hello(ForwardingEndpoint::Http))
    );
    assert_eq!(server.advance(&mut session, Event::Sent), HEARTBEAT);
    assert_eq!(server.advance(&mut session, Event::Sent), WAIT);
    assert_eq!(server.advance(&mut session, Event::AcceptTimedOut), HEARTBEAT);
    assert_eq!(
        server.advance(&mut session, Event::SendFailed),
        Action::RemoveSocket { path: b"/run/bore".to_vec() }
    );
    assert_eq!(server.advance(&mut session, Event::SocketRemoved), DONE);
}

#[test]
fn client_is_tested_between_waits() {
    let mut server = Server::new(1024..=65535, None);
    let mut session = listening(&mut server, 2000);
    for _ in 0..3 {
        assert_eq!(server.advance(&mut session, Event::AcceptTimedOut), HEARTBEAT);
        assert_eq!(server.advance(&mut session, Event::Sent), WAIT);
    }
    assert_eq!(server.advance(&mut session, Event::AcceptTimedOut), HEARTBEAT);
    assert_eq!(server.advance(&mut session, Event::SendFailed), DONE);
}

#[test]
fn forwarding_that_fails() {
    let mut server = Server::new(1024..=65535, None);
    let mut session = listening(&mut server, 2000);
    assert_eq!(server.advance(&mut session, Event::AcceptFailed), failed(Failure::Accept));

    let mut session = requesting(&mut server);
    let _ = server.advance(&mut session, hello(ForwardingEndpoint::Tcp(2000)));
    let _ = server.advance(&mut session, Event::TcpBound(2000));
    assert_eq!(server.advance(&mut session, Event::SendFailed), failed(Failure::Send));

    let mut session = listening(&mut server, 2000);
    let _ = server.advance(&mut session, Event::Accepted(1));
    let _ = server.advance(&mut session, Event::Scheduled);
    assert_eq!(server.advance(&mut session, Event::SendFailed), failed(Failure::Send));
}

#[test]
fn connection_is_accepted_once() {
    let mut server = Server::new(1024..=65535, None);
    let mut session = listening(&mut server, 2000);
    assert_eq!(connect(&mut server, &mut session, 11, 1), None);
    assert_eq!(connect(&mut server, &mut session, 12, 2), None);

    let mut first = requesting(&mut server);
    assert_eq!(server.advance(&mut first, accept(1)), Action::Forward { handle: 11 });
    assert_eq!(server.advance(&mut first, Event::Forwarded), DONE);

    let mut second = requesting(&mut server);
    assert_eq!(server.advance(&mut second, accept(1)), DONE);

    let mut third = requesting(&mut server);
    assert_eq!(server.advance(&mut third, accept(2)), Action::Forward { handle: 12 });
    assert_eq!(server.advance(&mut third, Event::ForwardFailed), failed(Failure::Forward));
}

#[test]
fn name_that_is_drawn_twice() {
    let mut server = Server::new(1024..=65535, None);
    let mut session = listening(&mut server, 2000);
    assert_eq!(connect(&mut server, &mut session, 11, 1), None);
    assert_eq!(connect(&mut server, &mut session, 12, 1), Some(11));
    let mut client = requesting(&mut server);
    assert_eq!(server.advance(&mut client, accept(1)), Action::Forward { handle: 12 });
}

#[test]
fn stale_connection_is_removed() {
    let mut server = Server::new(1024..=65535, None);
    let mut session = listening(&mut server, 2000);
    assert_eq!(connect(&mut server, &mut session, 11, 1), None);
    assert_eq!(connect(&mut server, &mut session, 12, 2), None);
    assert_eq!(server.remove_stale(1), Some(11));
    assert_eq!(server.remove_stale(1), None);
    let mut client = requesting(&mut server);
    assert_eq!(server.advance(&mut client, accept(1)), DONE);
    let mut client = requesting(&mut server);
    assert_eq!(server.advance(&mut client, accept(2)), Action::Forward { handle: 12 });
    assert_eq!(server.remove_stale(2), None);
}

#[test]
fn names_are_random_uuids() {
    let mut server = Server::new(1024..=65535, None);
    let mut session = listening(&mut server, 2000);
    let mut names = Vec::new();
    for handle in 0..20 {
        match server.advance(&mut session, Event::Accepted(handle)) {
            Action::ScheduleRemoval { id, after_ms: 10000, displaced: None } => names.push(id),
            _ => panic!("no removal is scheduled"),
        }
        let _ = server.advance(&mut session, Event::Scheduled);
        let _ = server.advance(&mut session, Event::Sent);
        let _ = server.advance(&mut session, Event::Sent);
    }
    for (i, name) in names.iter().enumerate() {
        assert_eq!(uuid::Uuid::from_u128(*name).get_version_num(), 4);
        assert!(!names[..i].contains(name));
        let mut client = requesting(&mut server);
        let handle = i as u64;
        assert_eq!(server.advance(&mut client, accept(*name)), Action::Forward { handle });
    }
}

#[test]
fn only_answers_to_the_last_action_are_expected() {
    let mut server = Server::new(2000..=3000, None);
    let mut session = Session::new();
    assert!(server.expects(&session, &Event::Opened));
    assert!(!server.expects(&session, &Event::Sent));
    let _ = server.handle_connection(&mut session, Event::Opened);
    assert!(server.expects(&session, &accept(1)));
    assert!(server.expects(&session, &Event::ReceiveFailed));
    assert!(!server.expects(&session, &Event::Opened));
    let draw = server.handle_connection(&mut session, hello(ForwardingEndpoint::Tcp(0)));
    assert_eq!(draw, Action::DrawPort);
    assert!(server.expects(&session, &Event::PortDrawn(2000)));
    assert!(!server.expects(&session, &Event::PortDrawn(80)));
    let _ = server.handle_connection(&mut session, Event::PortDrawn(2000));
    let _ = server.handle_connection(&mut session, Event::LocalAddrFailed);
    assert!(!server.expects(&session, &Event::Sent));
}
