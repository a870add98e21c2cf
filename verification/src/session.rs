//! The life of one control connection, as the steps that the server takes on it.
//!
//! The server itself reads, writes, binds and waits nowhere. Each step tells the caller what to
//! do next ([`Action`]), and what came of it ([`Event`]) leads to the next step.
use crate::random;
use crate::shared::{
    ClientMessage, ClientSays, ForwardingEndpoint, ServerMessage, ServerSays, NETWORK_TIMEOUT_MS,
};
use std::ops::RangeInclusive;
use vstd::prelude::*;

verus! {

/// How long one wait for a connection to a tunnel lasts, in milliseconds.
pub const ACCEPT_TIMEOUT_MS: u64 = 500;

/// How long a connection waits to be accepted by the client, in milliseconds.
pub const STALE_AFTER_MS: u64 = 10000;

/// How many random ports are tried for a client that asks for any port.
///
/// In order to find a free port with probability at least 1-δ, when ε proportion of the ports
/// are currently available, it suffices to check approximately -2 ln(δ) / ε independently and
/// uniformly chosen ports (up to a second-order term in ε). Checking 150 times gives us 99.999%
/// success at utilizing 85% of ports under these conditions, when ε=0.15 and δ=0.00001.
pub const PORT_ATTEMPTS: u8 = 150;

/// An IP address, in network byte order.
#[derive(Clone, Copy, Debug, PartialEq, Eq, Structural)]
pub enum IpAddr {
    V4(u32),
    V6(u128),
}

/// Why a listener could not be bound.
#[derive(Clone, Copy, Debug, PartialEq, Eq, Structural)]
pub enum BindError {
    AddrInUse,
    AlreadyExists,
    PermissionDenied,
    Other,
}

/// What made a session end with an error.
#[derive(Clone, Copy, Debug, PartialEq, Eq, Structural)]
pub enum Failure {
    /// No request could be received.
    Receive,
    /// A message could not be sent.
    Send,
    /// The address of a listener could not be had.
    LocalAddr,
    /// A listener failed.
    Accept,
    /// Forwarding broke off.
    Forward,
}

/// Which TCP port is being bound.
#[derive(Clone, Copy, Debug, PartialEq, Eq, Structural)]
pub enum PortSearch {
    /// The one that the client asked for.
    Requested,
    /// Any port, after so many that could not be bound.
    Any { failed: u8 },
}

/// What a session waits for.
#[derive(Clone, Copy, Debug, PartialEq, Eq, Structural)]
pub enum Phase {
    /// Nothing was done yet.
    Opened,
    /// The client is being authenticated.
    Authenticating,
    /// The request is awaited.
    Requesting,
    /// An error is being sent.
    Refusing,
    /// A port is to be drawn, after so many that could not be bound.
    Drawing { failed: u8 },
    /// A TCP listener is being bound.
    BindingTcp(PortSearch),
    /// The HTTP listener is being bound.
    BindingHttp,
    /// The endpoint is being announced.
    Greeting(ForwardingEndpoint),
    /// A heartbeat is being sent.
    Pinging(ForwardingEndpoint),
    /// A connection to the endpoint is awaited.
    Listening(ForwardingEndpoint),
    /// A name is to be drawn for a new connection.
    Naming { endpoint: ForwardingEndpoint, handle: u64 },
    /// The removal of a new connection is being scheduled.
    Scheduling { endpoint: ForwardingEndpoint, id: u128 },
    /// A new connection is being announced.
    Announcing(ForwardingEndpoint),
    /// Bytes are being forwarded.
    Forwarding,
    /// The HTTP socket is being removed.
    Cleaning,
    /// The session is over.
    Closed,
}

/// What came of the last action.
#[derive(Debug, PartialEq, Eq)]
pub enum Event {
    /// The control connection was opened.
    Opened,
    /// The handshake succeeded.
    Authenticated,
    /// The handshake failed, for a reason that the client is told.
    HandshakeFailed(String),
    /// A message was received, or the end of the stream.
    Received(Option<ClientMessage>),
    /// No message was received.
    ReceiveFailed,
    /// The message was sent.
    Sent,
    /// The message could not be sent.
    SendFailed,
    /// The port to try.
    PortDrawn(u16),
    /// The TCP listener is bound, to this port. That need not be the port that was tried: for
    /// port 0 the machine picks one, and the listener is closed if it is out of the range.
    TcpBound(u16),
    /// The TCP listener is bound, but its address cannot be had.
    LocalAddrFailed,
    /// The HTTP listener is bound.
    HttpBound,
    /// The listener could not be bound.
    BindFailed(BindError),
    /// Nobody connected in time.
    AcceptTimedOut,
    /// Somebody connected; the connection is found again by the handle.
    Accepted(u64),
    /// The listener failed.
    AcceptFailed,
    /// The name of the new connection.
    IdDrawn(u128),
    /// The removal was scheduled.
    Scheduled,
    /// Both sides of the forwarded connection are done.
    Forwarded,
    /// Forwarding broke off.
    ForwardFailed,
    /// The HTTP socket was removed, or could not be.
    SocketRemoved,
}

/// What to do next.
#[derive(Debug, PartialEq, Eq)]
pub enum Action {
    /// Authenticate the client.
    Handshake,
    /// Receive a message, for no longer than the limit.
    Receive { limit_ms: u64 },
    /// Send a message.
    Send(ServerMessage),
    /// Draw a port.
    DrawPort,
    /// Bind a TCP listener.
    BindTcp { addr: IpAddr, port: u16 },
    /// Bind a listener to a UNIX socket.
    BindHttp { path: Vec<u8> },
    /// Wait for a connection to the listener, for no longer than the limit.
    Accept { limit_ms: u64 },
    /// Draw a name for the new connection.
    DrawId,
    /// See to it that the connection is removed after the time given. A connection that had
    /// the same name is closed.
    ScheduleRemoval { id: u128, after_ms: u64, displaced: Option<u64> },
    /// Forward bytes between the control connection and the one with this handle, starting
    /// with the bytes that were read behind the request.
    Forward { handle: u64 },
    /// Remove the UNIX socket.
    RemoveSocket { path: Vec<u8> },
    /// End the session.
    Finish(Result<(), Failure>),
}

/// The view of an [`Event`].
pub enum EventView {
    Opened,
    Authenticated,
    HandshakeFailed(Seq<char>),
    Received(Option<ClientSays>),
    ReceiveFailed,
    Sent,
    SendFailed,
    PortDrawn(u16),
    TcpBound(u16),
    LocalAddrFailed,
    HttpBound,
    BindFailed(BindError),
    AcceptTimedOut,
    Accepted(u64),
    AcceptFailed,
    IdDrawn(u128),
    Scheduled,
    Forwarded,
    ForwardFailed,
    SocketRemoved,
}

/// The view of an [`Action`].
pub enum ActionView {
    Handshake,
    Receive { limit_ms: u64 },
    Send(ServerSays),
    DrawPort,
    BindTcp { addr: IpAddr, port: u16 },
    BindHttp { path: Seq<u8> },
    Accept { limit_ms: u64 },
    DrawId,
    ScheduleRemoval { id: u128, after_ms: u64, displaced: Option<u64> },
    Forward { handle: u64 },
    RemoveSocket { path: Seq<u8> },
    Finish(Result<(), Failure>),
}

impl View for Event {
    type V = EventView;

    open spec fn view(&self) -> EventView {
        match self {
            Event::Opened => EventView::Opened,
            Event::Authenticated => EventView::Authenticated,
            Event::HandshakeFailed(text) => EventView::HandshakeFailed(text@),
            Event::Received(None) => EventView::Received(None),
            Event::Received(Some(message)) => EventView::Received(Some(message@)),
            Event::ReceiveFailed => EventView::ReceiveFailed,
            Event::Sent => EventView::Sent,
            Event::SendFailed => EventView::SendFailed,
            Event::PortDrawn(port) => EventView::PortDrawn(*port),
            Event::TcpBound(port) => EventView::TcpBound(*port),
            Event::LocalAddrFailed => EventView::LocalAddrFailed,
            Event::HttpBound => EventView::HttpBound,
            Event::BindFailed(err) => EventView::BindFailed(*err),
            Event::AcceptTimedOut => EventView::AcceptTimedOut,
            Event::Accepted(handle) => EventView::Accepted(*handle),
            Event::AcceptFailed => EventView::AcceptFailed,
            Event::IdDrawn(id) => EventView::IdDrawn(*id),
            Event::Scheduled => EventView::Scheduled,
            Event::Forwarded => EventView::Forwarded,
            Event::ForwardFailed => EventView::ForwardFailed,
            Event::SocketRemoved => EventView::SocketRemoved,
        }
    }
}

impl View for Action {
    type V = ActionView;

    open spec fn view(&self) -> ActionView {
        match self {
            Action::Handshake => ActionView::Handshake,
            Action::Receive { limit_ms } => ActionView::Receive { limit_ms: *limit_ms },
            Action::Send(message) => ActionView::Send(message@),
            Action::DrawPort => ActionView::DrawPort,
            Action::BindTcp { addr, port } => ActionView::BindTcp { addr: *addr, port: *port },
            Action::BindHttp { path } => ActionView::BindHttp { path: path@ },
            Action::Accept { limit_ms } => ActionView::Accept { limit_ms: *limit_ms },
            Action::DrawId => ActionView::DrawId,
            Action::ScheduleRemoval { id, after_ms, displaced } => ActionView::ScheduleRemoval {
                id: *id,
                after_ms: *after_ms,
                displaced: *displaced,
            },
            Action::Forward { handle } => ActionView::Forward { handle: *handle },
            Action::RemoveSocket { path } => ActionView::RemoveSocket { path: path@ },
            Action::Finish(outcome) => ActionView::Finish(*outcome),
        }
    }
}

/// What a server is set up with, and the connections that wait on it to be accepted.
#[verifier::ext_equal]
pub struct ServerState {
    /// The lowest TCP port that can be forwarded.
    pub min_port: u16,
    /// The highest TCP port that can be forwarded.
    pub max_port: u16,
    /// The secret that clients have to know, if there is one.
    pub secret: Option<Seq<char>>,
    /// The handles of the waiting connections, by name.
    pub conns: Map<u128, u64>,
    /// Where the control server binds.
    pub bind_addr: IpAddr,
    /// Where the tunnels listen.
    pub bind_tunnels: IpAddr,
    /// The UNIX socket for HTTP connections, if they are forwarded.
    pub http_socket: Option<Seq<u8>>,
}

impl ServerState {
    /// Whether a port can be forwarded.
    pub open spec fn allows(self, port: u16) -> bool {
        self.min_port <= port <= self.max_port
    }
}

impl BindError {
    /// What a client is told whose TCP port could not be bound.
    pub open spec fn tcp_text(self) -> Seq<char> {
        match self {
            BindError::AddrInUse => "port already in use"@,
            BindError::PermissionDenied => "permission denied"@,
            _ => "failed to bind to port"@,
        }
    }

    /// What a client is told for whom the HTTP socket could not be bound.
    pub open spec fn http_text(self) -> Seq<char> {
        match self {
            BindError::AddrInUse
            | BindError::AlreadyExists => "an HTTP forwarding session is already in progress"@,
            _ => "failed to bind to HTTP socket"@,
        }
    }
}

/// What one step leads to.
#[verifier::ext_equal]
pub struct Step {
    pub phase: Phase,
    pub server: ServerState,
    pub action: ActionView,
}

/// The step that was taken.
pub open spec fn taken(phase: Phase, server: ServerState, action: ActionView) -> Step {
    Step { phase, server, action }
}

/// The end of the session.
pub open spec fn finish(server: ServerState, outcome: Result<(), Failure>) -> Step {
    Step { phase: Phase::Closed, server, action: ActionView::Finish(outcome) }
}

/// The client is told why it gets nothing.
pub open spec fn refuse(server: ServerState, text: Seq<char>) -> Step {
    Step { phase: Phase::Refusing, server, action: ActionView::Send(ServerSays::Error(text)) }
}

/// The request is awaited.
pub open spec fn await_request(server: ServerState) -> Step {
    Step {
        phase: Phase::Requesting,
        server,
        action: ActionView::Receive { limit_ms: NETWORK_TIMEOUT_MS },
    }
}

/// A TCP port is tried.
pub open spec fn bind_tcp(server: ServerState, search: PortSearch, port: u16) -> Step {
    Step {
        phase: Phase::BindingTcp(search),
        server,
        action: ActionView::BindTcp { addr: server.bind_tunnels, port },
    }
}

/// The client asks for a TCP port, or for any if it asks for 0.
pub open spec fn request_tcp(server: ServerState, port: u16) -> Step {
    if port == 0 {
        Step { phase: Phase::Drawing { failed: 0 }, server, action: ActionView::DrawPort }
    } else if server.allows(port) {
        bind_tcp(server, PortSearch::Requested, port)
    } else {
        refuse(server, "client port number not in allowed range"@)
    }
}

/// A TCP port could not be bound.
pub open spec fn tcp_failed(server: ServerState, search: PortSearch, err: BindError) -> Step {
    match search {
        PortSearch::Requested => refuse(server, err.tcp_text()),
        PortSearch::Any { failed } => if failed + 1 < PORT_ATTEMPTS {
            Step {
                phase: Phase::Drawing { failed: (failed + 1) as u8 },
                server,
                action: ActionView::DrawPort,
            }
        } else {
            refuse(server, "failed to find an available port"@)
        },
    }
}

/// The client asks for HTTP connections.
pub open spec fn request_http(server: ServerState) -> Step {
    match server.http_socket {
        Some(path) => Step {
            phase: Phase::BindingHttp,
            server,
            action: ActionView::BindHttp { path },
        },
        None => refuse(server, "server doesn't support HTTP forwarding"@),
    }
}

/// The client offers its stream for a connection: that connection leaves the waiting ones.
pub open spec fn request_accept(server: ServerState, id: u128) -> Step {
    if server.conns.contains_key(id) {
        Step {
            phase: Phase::Forwarding,
            server: ServerState { conns: server.conns.remove(id), ..server },
            action: ActionView::Forward { handle: server.conns[id] },
        }
    } else {
        finish(server, Ok(()))
    }
}

/// The request, or the end of the stream in its place.
pub open spec fn request(server: ServerState, message: Option<ClientSays>) -> Step {
    match message {
        Some(ClientSays::Hello(ForwardingEndpoint::Tcp(port))) => request_tcp(server, port),
        Some(ClientSays::Hello(ForwardingEndpoint::Http)) => request_http(server),
        Some(ClientSays::Accept(id)) => request_accept(server, id),
        Some(ClientSays::Authenticate(_)) => finish(server, Ok(())),
        None => finish(server, Ok(())),
    }
}

/// The client is told which endpoint is forwarded.
pub open spec fn greet(server: ServerState, endpoint: ForwardingEndpoint) -> Step {
    Step {
        phase: Phase::Greeting(endpoint),
        server,
        action: ActionView::Send(ServerSays::Hello(endpoint)),
    }
}

/// The client is tested.
pub open spec fn ping(server: ServerState, endpoint: ForwardingEndpoint) -> Step {
    Step {
        phase: Phase::Pinging(endpoint),
        server,
        action: ActionView::Send(ServerSays::Heartbeat),
    }
}

/// The client is gone: the HTTP socket is removed, if it was for that.
pub open spec fn client_gone(server: ServerState, endpoint: ForwardingEndpoint) -> Step {
    match endpoint {
        ForwardingEndpoint::Tcp(_) => finish(server, Ok(())),
        ForwardingEndpoint::Http => Step {
            phase: Phase::Cleaning,
            server,
            action: ActionView::RemoveSocket { path: server.http_socket->0 },
        },
    }
}

/// A new connection has its name: it waits under it from now on.
pub open spec fn register(
    server: ServerState,
    endpoint: ForwardingEndpoint,
    handle: u64,
    id: u128,
) -> Step {
    Step {
        phase: Phase::Scheduling { endpoint, id },
        server: ServerState { conns: server.conns.insert(id, handle), ..server },
        action: ActionView::ScheduleRemoval {
            id,
            after_ms: STALE_AFTER_MS,
            displaced: waiting_under(server, id),
        },
    }
}

/// The server once the time of a connection is over.
pub open spec fn without(server: ServerState, id: u128) -> ServerState {
    ServerState { conns: server.conns.remove(id), ..server }
}

/// The handle of the connection that waits under a name, if one does.
pub open spec fn waiting_under(server: ServerState, id: u128) -> Option<u64> {
    if server.conns.contains_key(id) {
        Some(server.conns[id])
    } else {
        None
    }
}

/// Whether the event is one of those that the last action leads to.
pub open spec fn expects(phase: Phase, server: ServerState, event: EventView) -> bool {
    match phase {
        Phase::Opened => event is Opened,
        Phase::Authenticating => event is Authenticated || event is HandshakeFailed,
        Phase::Requesting => event is Received || event is ReceiveFailed,
        Phase::Drawing { .. } => event matches EventView::PortDrawn(port) && server.allows(port),
        Phase::BindingTcp(_) => event is TcpBound || event is LocalAddrFailed
            || event is BindFailed,
        Phase::BindingHttp => event is HttpBound || event is BindFailed,
        Phase::Pinging(ForwardingEndpoint::Http) => (event is Sent || event is SendFailed)
            && server.http_socket is Some,
        Phase::Refusing
        | Phase::Greeting(_)
        | Phase::Pinging(_)
        | Phase::Announcing(_) => event is Sent || event is SendFailed,
        Phase::Listening(_) => event is AcceptTimedOut || event is Accepted
            || event is AcceptFailed,
        Phase::Naming { .. } => event is IdDrawn,
        Phase::Scheduling { .. } => event is Scheduled,
        Phase::Forwarding => event is Forwarded || event is ForwardFailed,
        Phase::Cleaning => event is SocketRemoved,
        Phase::Closed => false,
    }
}

/// The step that the server takes on an event that is expected.
pub open spec fn step(phase: Phase, server: ServerState, event: EventView) -> Step
    recommends
        expects(phase, server, event),
{
    match (phase, event) {
        (Phase::Opened, _) => if server.secret is Some {
            Step { phase: Phase::Authenticating, server, action: ActionView::Handshake }
        } else {
            await_request(server)
        },
        (Phase::Authenticating, EventView::HandshakeFailed(text)) => refuse(server, text),
        (Phase::Authenticating, _) => await_request(server),
        (Phase::Requesting, EventView::Received(message)) => request(server, message),
        (Phase::Requesting, _) => finish(server, Err(Failure::Receive)),
        (Phase::Refusing, EventView::Sent) => finish(server, Ok(())),
        (Phase::Refusing, _) => finish(server, Err(Failure::Send)),
        (Phase::Drawing { failed }, EventView::PortDrawn(port)) => bind_tcp(
            server,
            PortSearch::Any { failed },
            port,
        ),
        (Phase::BindingTcp(search), EventView::TcpBound(port)) => if server.allows(port) {
            greet(server, ForwardingEndpoint::Tcp(port))
        } else {
            tcp_failed(server, search, BindError::Other)
        },
        (Phase::BindingTcp(search), EventView::BindFailed(err)) => tcp_failed(server, search, err),
        (Phase::BindingTcp(_), _) => finish(server, Err(Failure::LocalAddr)),
        (Phase::BindingHttp, EventView::BindFailed(err)) => refuse(server, err.http_text()),
        (Phase::BindingHttp, _) => greet(server, ForwardingEndpoint::Http),
        (Phase::Greeting(endpoint), EventView::Sent) => ping(server, endpoint),
        (Phase::Greeting(_), _) => finish(server, Err(Failure::Send)),
        (Phase::Pinging(endpoint), EventView::Sent) => Step {
            phase: Phase::Listening(endpoint),
            server,
            action: ActionView::Accept { limit_ms: ACCEPT_TIMEOUT_MS },
        },
        (Phase::Pinging(endpoint), _) => client_gone(server, endpoint),
        (Phase::Listening(endpoint), EventView::AcceptTimedOut) => ping(server, endpoint),
        (Phase::Listening(endpoint), EventView::Accepted(handle)) => Step {
            phase: Phase::Naming { endpoint, handle },
            server,
            action: ActionView::DrawId,
        },
        (Phase::Listening(_), _) => finish(server, Err(Failure::Accept)),
        (Phase::Naming { endpoint, handle }, EventView::IdDrawn(id)) => register(
            server,
            endpoint,
            handle,
            id,
        ),
        (Phase::Scheduling { endpoint, id }, _) => Step {
            phase: Phase::Announcing(endpoint),
            server,
            action: ActionView::Send(ServerSays::Connection(id)),
        },
        (Phase::Announcing(endpoint), EventView::Sent) => ping(server, endpoint),
        (Phase::Announcing(_), _) => finish(server, Err(Failure::Send)),
        (Phase::Forwarding, EventView::Forwarded) => finish(server, Ok(())),
        (Phase::Forwarding, _) => finish(server, Err(Failure::Forward)),
        (Phase::Cleaning, _) => finish(server, Ok(())),
        _ => finish(server, Ok(())),
    }
}

/// How many ports and names were drawn so far. Each draw has its own number.
pub struct Draws {
    count: Ghost<nat>,
}

impl View for Draws {
    type V = nat;

    closed spec fn view(&self) -> nat {
        self.count@
    }
}

/// Whether draw number `nth` gave this port, out of all from `min` to `max`. Only the draw of that
/// number can show it, so neither a chosen port nor one of an earlier draw can pass for it.
pub closed spec fn is_nth_port(nth: nat, min: u16, max: u16, port: u16) -> bool {
    random::is_port_drawn(min, max, port)
}

/// Whether draw number `nth` gave this name. Only the draw of that number can show it.
pub closed spec fn is_nth_id(nth: nat, id: u128) -> bool {
    random::is_id_drawn(id)
}

impl Draws {
    /// Nothing was drawn yet.
    pub(crate) fn none() -> (draws: Self)
        ensures
            draws@ == 0,
    {
        Draws { count: Ghost(0) }
    }

    /// Draw a port out of the range.
    pub(crate) fn port(&mut self, range: &RangeInclusive<u16>) -> (port: u16)
        requires
            range@.start <= range@.end,
            !range@.exhausted,
        ensures
            final(self)@ == old(self)@ + 1,
            range@.start <= port <= range@.end,
            is_nth_port(old(self)@, range@.start, range@.end, port),
    {
        self.count = Ghost(self.count@ + 1);
        random::port_in(range)
    }

    /// Draw a name.
    pub(crate) fn id(&mut self) -> (id: u128)
        ensures
            final(self)@ == old(self)@ + 1,
            random::is_random_uuid(id),
            is_nth_id(old(self)@, id),
    {
        self.count = Ghost(self.count@ + 1);
        random::connection_id()
    }
}

/// Whether `after` is a step that the server takes on the event when it draws by itself: a port
/// of its range, or a random UUID, each in draw number `nth`.
pub open spec fn is_advance(
    nth: nat,
    phase: Phase,
    server: ServerState,
    event: EventView,
    after: Step,
) -> bool {
    let first = step(phase, server, event);
    match first.action {
        ActionView::DrawPort => exists|port: u16|
            server.allows(port) && is_nth_port(nth, server.min_port, server.max_port, port)
                && after == #[trigger] step(
                first.phase,
                first.server,
                EventView::PortDrawn(port),
            ),
        ActionView::DrawId => exists|id: u128|
            random::is_random_uuid(id) && is_nth_id(nth, id) && after == #[trigger] step(
                first.phase,
                first.server,
                EventView::IdDrawn(id),
            ),
        _ => after == first,
    }
}

/// One control connection.
pub struct Session {
    phase: Phase,
}

impl View for Session {
    type V = Phase;

    closed spec fn view(&self) -> Phase {
        self.phase
    }
}

impl Phase {
    /// Whether fewer ports were tried than may be.
    pub open spec fn wf(self) -> bool {
        match self {
            Phase::Drawing { failed } => failed < PORT_ATTEMPTS,
            Phase::BindingTcp(PortSearch::Any { failed }) => failed < PORT_ATTEMPTS,
            _ => true,
        }
    }
}

impl Session {
    /// A control connection that was just opened.
    pub fn new() -> (session: Self)
        ensures
            session@ == Phase::Opened,
    {
        Session { phase: Phase::Opened }
    }

    /// What the session waits for.
    pub fn phase(&self) -> (phase: Phase)
        ensures
            phase == self@,
    {
        self.phase
    }

    /// Let the session wait for something else.
    pub(crate) fn enter(&mut self, phase: Phase)
        ensures
            final(self)@ == phase,
    {
        self.phase = phase;
    }
}

} // verus!
