//! Server implementation for the `bore` service.
use crate::registry;
use crate::session;
use crate::session::{
    Action, BindError, Draws, Event, Failure, IpAddr, Phase, PortSearch, ServerState, Session,
    ACCEPT_TIMEOUT_MS, PORT_ATTEMPTS, STALE_AFTER_MS,
};
use crate::shared::{
    ClientMessage, ForwardingEndpoint, ServerMessage, CONTROL_PORT, NETWORK_TIMEOUT_MS,
};
use dashmap::DashMap;
use std::ops::RangeInclusive;
use vstd::prelude::*;

verus! {

/// State structure for the server.
pub struct Server {
    /// Range of TCP ports that can be forwarded.
    port_range: RangeInclusive<u16>,
    /// Optional secret used to authenticate clients.
    secret: Option<String>,
    /// Map of IDs to the handles of incoming connections.
    conns: DashMap<u128, u64>,
    /// IP address where the control server will bind to.
    bind_addr: IpAddr,
    /// IP address where tunnels will listen on.
    bind_tunnels: IpAddr,
    /// UNIX socket which is created for HTTP connections.
    http_socket: Option<Vec<u8>>,
    /// What was drawn so far.
    draws: Draws,
}

/// Which TCP port a client gets.
#[derive(Clone, Copy, Debug, PartialEq, Eq, Structural)]
pub enum PortChoice {
    /// The one that it asked for.
    Requested(u16),
    /// Any of the range.
    Any,
}

/// What came of the last thing that the control server did.
#[derive(Clone, Copy, Debug, PartialEq, Eq, Structural)]
pub enum ListenEvent {
    /// The server was started.
    Started,
    /// The control port is bound.
    Bound,
    /// The control port could not be bound.
    BindFailed,
    /// A client connected.
    Accepted,
    /// The listener failed.
    AcceptFailed,
}

/// What the control server does next.
#[derive(Clone, Copy, Debug, PartialEq, Eq, Structural)]
pub enum ListenAction {
    /// Bind the control port.
    Bind { addr: IpAddr, port: u16 },
    /// Wait for a client.
    Accept,
    /// Let a session of its own run for the client, and wait for the next one.
    ServeAndAccept,
    /// Stop with the error that was met.
    Stop,
}

/// What the control server does, given what came of the last step.
pub open spec fn listen_action(server: ServerState, event: ListenEvent) -> ListenAction {
    match event {
        ListenEvent::Started => ListenAction::Bind { addr: server.bind_addr, port: CONTROL_PORT },
        ListenEvent::Bound => ListenAction::Accept,
        ListenEvent::Accepted => ListenAction::ServeAndAccept,
        ListenEvent::BindFailed => ListenAction::Stop,
        ListenEvent::AcceptFailed => ListenAction::Stop,
    }
}

impl View for Server {
    type V = ServerState;

    closed spec fn view(&self) -> ServerState {
        ServerState {
            min_port: self.port_range@.start,
            max_port: self.port_range@.end,
            secret: match self.secret {
                Some(secret) => Some(secret@),
                None => None,
            },
            conns: registry::entries(self.conns),
            bind_addr: self.bind_addr,
            bind_tunnels: self.bind_tunnels,
            http_socket: match self.http_socket {
                Some(path) => Some(path@),
                None => None,
            },
        }
    }
}

impl Server {
    /// Whether there is at least one port that can be forwarded.
    pub closed spec fn wf(self) -> bool {
        self.port_range@.start <= self.port_range@.end && !self.port_range@.exhausted
    }

    /// How many ports and names the server has drawn so far.
    pub closed spec fn draws(self) -> nat {
        self.draws@
    }

    /// Create a new server with a specified range of ports, which must hold at least one.
    pub fn new(port_range: RangeInclusive<u16>, secret: Option<&str>) -> (server: Self)
        requires
            port_range@.start <= port_range@.end,
            !port_range@.exhausted,
        ensures
            server.wf(),
            server.draws() == 0,
            server@ == (ServerState {
                min_port: port_range@.start,
                max_port: port_range@.end,
                secret: match secret {
                    Some(secret) => Some(secret@),
                    None => None,
                },
                conns: Map::empty(),
                bind_addr: IpAddr::V4(0),
                bind_tunnels: IpAddr::V4(0),
                http_socket: None,
            }),
    {
        Server {
            port_range,
            secret: match secret {
                Some(secret) => Some(secret.to_owned()),
                None => None,
            },
            conns: registry::new_map(),
            bind_addr: IpAddr::V4(0),
            bind_tunnels: IpAddr::V4(0),
            http_socket: None,
            draws: Draws::none(),
        }
    }

    /// Set the IP address where the control server will bind to.
    pub fn set_bind_addr(&mut self, bind_addr: IpAddr)
        requires
            old(self).wf(),
        ensures
            final(self).wf(),
            final(self).draws() == old(self).draws(),
            final(self)@ == (ServerState { bind_addr, ..old(self)@ }),
    {
        self.bind_addr = bind_addr;
    }

    /// Set the IP address where tunnels will listen on.
    pub fn set_bind_tunnels(&mut self, bind_tunnels: IpAddr)
        requires
            old(self).wf(),
        ensures
            final(self).wf(),
            final(self).draws() == old(self).draws(),
            final(self)@ == (ServerState { bind_tunnels, ..old(self)@ }),
    {
        self.bind_tunnels = bind_tunnels;
    }

    /// Sets the UNIX socket which is opened for HTTP connections.
    pub fn set_http_socket(&mut self, http_socket: Option<Vec<u8>>)
        requires
            old(self).wf(),
        ensures
            final(self).wf(),
            final(self).draws() == old(self).draws(),
            final(self)@ == (ServerState {
                http_socket: match http_socket {
                    Some(path) => Some(path@),
                    None => None,
                },
                ..old(self)@
            }),
    {
        self.http_socket = http_socket;
    }

    /// The secret that clients have to know, if there is one.
    pub fn secret(&self) -> (secret: Option<&str>)
        ensures
            match self@.secret {
                Some(text) => secret matches Some(secret) && secret@ == text,
                None => secret is None,
            },
    {
        match &self.secret {
            Some(secret) => Some(secret.as_str()),
            None => None,
        }
    }

    /// Start the server, listening for new connections: what to do next, given what came of
    /// the last step. An error of the listener stops the server; one of a session does not.
    pub fn listen(&self, event: ListenEvent) -> (action: ListenAction)
        ensures
            action == listen_action(self@, event),
    {
        match event {
            ListenEvent::Started => ListenAction::Bind {
                addr: self.bind_addr,
                port: CONTROL_PORT,
            },
            ListenEvent::Bound => ListenAction::Accept,
            ListenEvent::Accepted => ListenAction::ServeAndAccept,
            ListenEvent::BindFailed => ListenAction::Stop,
            ListenEvent::AcceptFailed => ListenAction::Stop,
        }
    }

    /// Choose the TCP port for a client: the one that it asks for if that is in the range, or
    /// any if it asks for 0.
    pub fn create_tcp_listener(&self, port: u16) -> (choice: Result<PortChoice, &'static str>)
        requires
            self.wf(),
        ensures
            match choice {
                Ok(PortChoice::Any) => port == 0,
                Ok(PortChoice::Requested(chosen)) => port != 0 && chosen == port
                    && self@.allows(port),
                Err(text) => {
                    &&& port != 0
                    &&& !self@.allows(port)
                    &&& text@ == "client port number not in allowed range"@
                },
            },
    {
        if port > 0 {
            // Client requests a specific port number.
            if !self.port_range.contains(&port) {
                return Err("client port number not in allowed range");
            }
            Ok(PortChoice::Requested(port))
        } else {
            // Client requests any available port in range.
            Ok(PortChoice::Any)
        }
    }

    /// Find the UNIX socket to bind for a client that asks for HTTP connections.
    pub fn create_http_listener(&self) -> (path: Result<Vec<u8>, &'static str>)
        ensures
            match self@.http_socket {
                Some(socket) => path matches Ok(path) && path@ == socket,
                None => path matches Err(text) && text@
                    == "server doesn't support HTTP forwarding"@,
            },
    {
        match &self.http_socket {
            Some(socket) => {
                let path = socket.clone();
                assert(path@ =~= socket@);
                Ok(path)
            },
            None => Err("server doesn't support HTTP forwarding"),
        }
    }
}

impl Server {
    /// Whether the event is one of those that the last action of the session leads to.
    pub fn expects(&self, session: &Session, event: &Event) -> (expected: bool)
        requires
            self.wf(),
        ensures
            expected == session::expects(session@, self@, event@),
    {
        match session.phase() {
            Phase::Opened => matches!(event, Event::Opened),
            Phase::Authenticating => matches!(
                event,
                Event::Authenticated | Event::HandshakeFailed(_)
            ),
            Phase::Requesting => matches!(event, Event::Received(_) | Event::ReceiveFailed),
            Phase::Drawing { .. } => match event {
                Event::PortDrawn(port) => self.port_range.contains(port),
                _ => false,
            },
            Phase::BindingTcp(_) => matches!(
                event,
                Event::TcpBound(_) | Event::LocalAddrFailed | Event::BindFailed(_)
            ),
            Phase::BindingHttp => matches!(event, Event::HttpBound | Event::BindFailed(_)),
            Phase::Pinging(ForwardingEndpoint::Http) => matches!(
                event,
                Event::Sent | Event::SendFailed
            ) && self.http_socket.is_some(),
            Phase::Refusing
            | Phase::Greeting(_)
            | Phase::Pinging(_)
            | Phase::Announcing(_) => matches!(event, Event::Sent | Event::SendFailed),
            Phase::Listening(_) => matches!(
                event,
                Event::AcceptTimedOut | Event::Accepted(_) | Event::AcceptFailed
            ),
            Phase::Naming { .. } => matches!(event, Event::IdDrawn(_)),
            Phase::Scheduling { .. } => matches!(event, Event::Scheduled),
            Phase::Forwarding => matches!(event, Event::Forwarded | Event::ForwardFailed),
            Phase::Cleaning => matches!(event, Event::SocketRemoved),
            Phase::Closed => false,
        }
    }

    /// Tell the client why it gets nothing.
    fn refuse(session: &mut Session, text: String) -> (action: Action)
        ensures
            final(session)@ == Phase::Refusing,
            action@ == session::ActionView::Send(crate::shared::ServerSays::Error(text@)),
    {
        session.enter(Phase::Refusing);
        Action::Send(ServerMessage::Error(text))
    }

    /// End the session.
    fn finish(session: &mut Session, outcome: Result<(), Failure>) -> (action: Action)
        ensures
            final(session)@ == Phase::Closed,
            action@ == session::ActionView::Finish(outcome),
    {
        session.enter(Phase::Closed);
        Action::Finish(outcome)
    }

    /// Act on the first message of a client.
    fn handle_request(&mut self, session: &mut Session, message: Option<ClientMessage>) -> (action:
        Action)
        requires
            old(self).wf(),
        ensures
            final(self).wf(),
            final(self).draws() == old(self).draws(),
            session::taken(final(session)@, final(self)@, action@)
                == session::request(
                old(self)@,
                match message {
                    Some(message) => Some(message@),
                    None => None,
                },
            ),
    {
        match message {
            // An answer that nobody asked for.
            Some(ClientMessage::Authenticate(_)) => Self::finish(session, Ok(())),
            Some(ClientMessage::Hello(ForwardingEndpoint::Tcp(port))) => {
                match self.create_tcp_listener(port) {
                    Ok(PortChoice::Requested(port)) => {
                        session.enter(Phase::BindingTcp(PortSearch::Requested));
                        Action::BindTcp { addr: self.bind_tunnels, port }
                    },
                    Ok(PortChoice::Any) => {
                        session.enter(Phase::Drawing { failed: 0 });
                        Action::DrawPort
                    },
                    Err(text) => Self::refuse(session, text.to_owned()),
                }
            },
            Some(ClientMessage::Hello(ForwardingEndpoint::Http)) => {
                match self.create_http_listener() {
                    Ok(path) => {
                        session.enter(Phase::BindingHttp);
                        Action::BindHttp { path }
                    },
                    Err(text) => Self::refuse(session, text.to_owned()),
                }
            },
            Some(ClientMessage::Accept(id)) => {
                match registry::remove(&mut self.conns, id) {
                    Some((_, handle)) => {
                        session.enter(Phase::Forwarding);
                        Action::Forward { handle }
                    },
                    None => {
                        assert(registry::entries(self.conns) =~= registry::entries(
                            old(self).conns,
                        ));
                        Self::finish(session, Ok(()))
                    },
                }
            },
            None => Self::finish(session, Ok(())),
        }
    }

    /// Act on a TCP port that could not be bound: a client that asked for it is told so, and
    /// for one that asked for any port another is drawn, [`PORT_ATTEMPTS`] times in all.
    fn handle_tcp_failure(
        &self,
        session: &mut Session,
        search: PortSearch,
        err: BindError,
    ) -> (action: Action)
        requires
            search matches PortSearch::Any { failed } ==> failed < PORT_ATTEMPTS,
        ensures
            session::taken(final(session)@, self@, action@) == session::tcp_failed(
                self@,
                search,
                err,
            ),
    {
        match search {
            PortSearch::Requested => Self::refuse(session, err.tcp_message().to_owned()),
            PortSearch::Any { failed } => {
                if failed + 1 < PORT_ATTEMPTS {
                    session.enter(Phase::Drawing { failed: failed + 1 });
                    Action::DrawPort
                } else {
                    Self::refuse(session, "failed to find an available port".to_owned())
                }
            },
        }
    }

    /// Serve a client whose endpoint is open: announce the endpoint, then test the client and
    /// wait for a connection in turn, and announce each connection.
    fn handle_forwarding_client(&mut self, session: &mut Session, event: Event) -> (action: Action)
        requires
            old(self).wf(),
            session::expects(old(session)@, old(self)@, event@),
            old(session)@ is Greeting || old(session)@ is Pinging || old(session)@ is Listening
                || old(session)@ is Naming || old(session)@ is Scheduling
                || old(session)@ is Announcing || old(session)@ is Cleaning,
        ensures
            final(self).wf(),
            final(self).draws() == old(self).draws(),
            session::taken(final(session)@, final(self)@, action@)
                == session::step(old(session)@, old(self)@, event@),
    {
        match (session.phase(), event) {
            (Phase::Pinging(endpoint), Event::Sent) => {
                session.enter(Phase::Listening(endpoint));
                Action::Accept { limit_ms: ACCEPT_TIMEOUT_MS }
            },
            (Phase::Greeting(endpoint), Event::Sent)
            | (Phase::Announcing(endpoint), Event::Sent)
            | (Phase::Listening(endpoint), Event::AcceptTimedOut) => {
                session.enter(Phase::Pinging(endpoint));
                Action::Send(ServerMessage::Heartbeat)
            },
            (Phase::Pinging(ForwardingEndpoint::Http), _) => {
                // Assume that the TCP connection has been dropped.
                match &self.http_socket {
                    Some(socket) => {
                        let path = socket.clone();
                        assert(path@ =~= socket@);
                        session.enter(Phase::Cleaning);
                        Action::RemoveSocket { path }
                    },
                    None => Self::finish(session, Ok(())),
                }
            },
            (Phase::Pinging(ForwardingEndpoint::Tcp(_)), _) => {
                // Assume that the TCP connection has been dropped.
                Self::finish(session, Ok(()))
            },
            (Phase::Listening(endpoint), Event::Accepted(handle)) => {
                session.enter(Phase::Naming { endpoint, handle });
                Action::DrawId
            },
            (Phase::Listening(_), _) => Self::finish(session, Err(Failure::Accept)),
            (Phase::Naming { endpoint, handle }, Event::IdDrawn(id)) => {
                let displaced = registry::insert(&mut self.conns, id, handle);
                session.enter(Phase::Scheduling { endpoint, id });
                Action::ScheduleRemoval { id, after_ms: STALE_AFTER_MS, displaced }
            },
            (Phase::Scheduling { endpoint, id }, _) => {
                session.enter(Phase::Announcing(endpoint));
                Action::Send(ServerMessage::Connection(id))
            },
            (Phase::Greeting(_), _) | (Phase::Announcing(_), _) => Self::finish(
                session,
                Err(Failure::Send),
            ),
            _ => Self::finish(session, Ok(())),
        }
    }

    /// Take the next step on a control connection.
    pub fn handle_connection(&mut self, session: &mut Session, event: Event) -> (action: Action)
        requires
            old(self).wf(),
            old(session)@.wf(),
            session::expects(old(session)@, old(self)@, event@),
        ensures
            final(self).wf(),
            final(self).draws() == old(self).draws(),
            final(session)@.wf(),
            session::taken(final(session)@, final(self)@, action@)
                == session::step(old(session)@, old(self)@, event@),
    {
        match (session.phase(), event) {
            (Phase::Opened, _) => {
                if self.secret.is_some() {
                    session.enter(Phase::Authenticating);
                    Action::Handshake
                } else {
                    session.enter(Phase::Requesting);
                    Action::Receive { limit_ms: NETWORK_TIMEOUT_MS }
                }
            },
            (Phase::Authenticating, Event::HandshakeFailed(text)) => Self::refuse(session, text),
            (Phase::Authenticating, _) => {
                session.enter(Phase::Requesting);
                Action::Receive { limit_ms: NETWORK_TIMEOUT_MS }
            },
            (Phase::Requesting, Event::Received(message)) => self.handle_request(session, message),
            (Phase::Requesting, _) => Self::finish(session, Err(Failure::Receive)),
            (Phase::Refusing, Event::Sent) => Self::finish(session, Ok(())),
            (Phase::Refusing, _) => Self::finish(session, Err(Failure::Send)),
            (Phase::Drawing { failed }, Event::PortDrawn(port)) => {
                session.enter(Phase::BindingTcp(PortSearch::Any { failed }));
                Action::BindTcp { addr: self.bind_tunnels, port }
            },
            (Phase::BindingTcp(search), Event::TcpBound(port)) => {
                if !self.port_range.contains(&port) {
                    // Port 0 was tried, and the machine picked one that is not ours to forward.
                    return self.handle_tcp_failure(session, search, BindError::Other);
                }
                let endpoint = ForwardingEndpoint::Tcp(port);
                session.enter(Phase::Greeting(endpoint));
                Action::Send(ServerMessage::Hello(endpoint))
            },
            (Phase::BindingTcp(search), Event::BindFailed(err)) => self.handle_tcp_failure(
                session,
                search,
                err,
            ),
            (Phase::BindingTcp(_), _) => Self::finish(session, Err(Failure::LocalAddr)),
            (Phase::BindingHttp, Event::BindFailed(err)) => Self::refuse(
                session,
                err.http_message().to_owned(),
            ),
            (Phase::BindingHttp, _) => {
                session.enter(Phase::Greeting(ForwardingEndpoint::Http));
                Action::Send(ServerMessage::Hello(ForwardingEndpoint::Http))
            },
            (Phase::Forwarding, Event::Forwarded) => Self::finish(session, Ok(())),
            (Phase::Forwarding, _) => Self::finish(session, Err(Failure::Forward)),
            (_, event) => self.handle_forwarding_client(session, event),
        }
    }

    /// Take the next step on a control connection, drawing at random what it asks for.
    pub fn advance(&mut self, session: &mut Session, event: Event) -> (action: Action)
        requires
            old(self).wf(),
            old(session)@.wf(),
            session::expects(old(session)@, old(self)@, event@),
        ensures
            final(self).wf(),
            final(session)@.wf(),
            final(self).draws() == old(self).draws() + ({
                let action = session::step(old(session)@, old(self)@, event@).action;
                if action is DrawPort || action is DrawId {
                    1int
                } else {
                    0int
                }
            }),
            session::is_advance(
                old(self).draws(),
                old(session)@,
                old(self)@,
                event@,
                session::taken(final(session)@, final(self)@, action@),
            ),
    {
        let action = self.handle_connection(session, event);
        match action {
            Action::DrawPort => {
                let port = self.draws.port(&self.port_range);
                self.handle_connection(session, Event::PortDrawn(port))
            },
            Action::DrawId => {
                let id = self.draws.id();
                self.handle_connection(session, Event::IdDrawn(id))
            },
            action => action,
        }
    }

    /// Remove a stale connection to avoid memory leaks. The result is the handle of the
    /// connection, if it still waited.
    pub fn remove_stale(&mut self, id: u128) -> (handle: Option<u64>)
        requires
            old(self).wf(),
        ensures
            final(self).wf(),
            final(self).draws() == old(self).draws(),
            final(self)@ == session::without(old(self)@, id),
            handle == session::waiting_under(old(self)@, id),
    {
        match registry::remove(&mut self.conns, id) {
            Some((_, handle)) => Some(handle),
            None => None,
        }
    }
}

impl BindError {
    /// What a client is told whose TCP port could not be bound.
    pub fn tcp_message(self) -> (text: &'static str)
        ensures
            text@ == self.tcp_text(),
    {
        match self {
            BindError::AddrInUse => "port already in use",
            BindError::PermissionDenied => "permission denied",
            _ => "failed to bind to port",
        }
    }

    /// What a client is told for whom the HTTP socket could not be bound.
    pub fn http_message(self) -> (text: &'static str)
        ensures
            text@ == self.http_text(),
    {
        match self {
            BindError::AddrInUse
            | BindError::AlreadyExists => "an HTTP forwarding session is already in progress",
            _ => "failed to bind to HTTP socket",
        }
    }
}

} // verus!
