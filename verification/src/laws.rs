//! What holds of every session, whatever the client and the network do.
use crate::session;
use crate::session::{
    Action, ActionView, BindError, Event, EventView, Failure, Phase, PortSearch, ServerState, Step,
    PORT_ATTEMPTS, STALE_AFTER_MS,
};
use crate::shared::{ClientMessage, ClientSays, ForwardingEndpoint, ServerMessage, ServerSays};
use vstd::prelude::*;

verus! {

/// One thing that happens to a session: the server as the session finds it, which other
/// sessions may have changed meanwhile, and the event.
pub struct Move {
    pub server: ServerState,
    pub event: EventView,
}

/// Whether the moves can happen, one after the other, to a session in this phase.
pub open spec fn possible(phase: Phase, moves: Seq<Move>) -> bool
    decreases moves.len(),
{
    moves.len() > 0 ==> {
        &&& session::expects(phase, moves[0].server, moves[0].event)
        &&& possible(
            session::step(phase, moves[0].server, moves[0].event).phase,
            moves.drop_first(),
        )
    }
}

/// The phase that the moves lead to.
pub open spec fn phase_after(phase: Phase, moves: Seq<Move>) -> Phase
    decreases moves.len(),
{
    if moves.len() == 0 {
        phase
    } else {
        phase_after(
            session::step(phase, moves[0].server, moves[0].event).phase,
            moves.drop_first(),
        )
    }
}

/// What the server does in the course of the moves.
pub open spec fn actions(phase: Phase, moves: Seq<Move>) -> Seq<ActionView>
    decreases moves.len(),
{
    if moves.len() == 0 {
        Seq::empty()
    } else {
        let first = session::step(phase, moves[0].server, moves[0].event);
        seq![first.action] + actions(first.phase, moves.drop_first())
    }
}

/// What the server does on an event when it draws by itself is one possible move of the session,
/// or two where it draws, with nothing of another session in between. So what holds of all
/// possible moves holds of a session that is driven by such steps.
pub proof fn lemma_advance_is_moves(
    nth: nat,
    phase: Phase,
    server: ServerState,
    event: EventView,
    after: Step,
) -> (moves: Seq<Move>)
    requires
        session::expects(phase, server, event),
        session::is_advance(nth, phase, server, event, after),
    ensures
        possible(phase, moves),
        1 <= moves.len() <= 2,
        moves[0] == (Move { server, event }),
        moves.len() == 2 ==> moves[1].server == session::step(phase, server, event).server,
        moves.len() == 2 <==> {
            let action = session::step(phase, server, event).action;
            action is DrawPort || action is DrawId
        },
        phase_after(phase, moves) == after.phase,
        actions(phase, moves).len() == moves.len(),
        actions(phase, moves).last() == after.action,
        after.server == session::step(
            phase_after(phase, moves.drop_last()),
            moves.last().server,
            moves.last().event,
        ).server,
{
    reveal_with_fuel(possible, 3);
    reveal_with_fuel(phase_after, 3);
    reveal_with_fuel(actions, 3);
    let first = session::step(phase, server, event);
    let only = seq![Move { server, event }];
    let drawn = match first.action {
        ActionView::DrawPort => Some(
            EventView::PortDrawn(
                choose|port: u16|
                    server.allows(port) && session::is_nth_port(
                        nth,
                        server.min_port,
                        server.max_port,
                        port,
                    ) && after == #[trigger] session::step(
                        first.phase,
                        first.server,
                        EventView::PortDrawn(port),
                    ),
            ),
        ),
        ActionView::DrawId => Some(
            EventView::IdDrawn(
                choose|id: u128|
                    crate::random::is_random_uuid(id) && session::is_nth_id(nth, id) && after == #[trigger] session::step(
                        first.phase,
                        first.server,
                        EventView::IdDrawn(id),
                    ),
            ),
        ),
        _ => None,
    };
    assert(only.drop_first() =~= Seq::empty());
    assert(only.drop_last() =~= Seq::empty());
    match drawn {
        Some(draw) => {
            let second = seq![Move { server: first.server, event: draw }];
            let moves = only + second;
            assert(moves.drop_first() =~= second);
            assert(second.drop_first() =~= Seq::empty());
            assert(moves.drop_last() =~= only);
            moves
        },
        None => only,
    }
}

/// How many TCP ports are tried in the course of the moves.
pub open spec fn tcp_binds(phase: Phase, moves: Seq<Move>) -> nat
    decreases moves.len(),
{
    if moves.len() == 0 {
        0
    } else {
        let first = session::step(phase, moves[0].server, moves[0].event);
        (if first.action is BindTcp {
            1nat
        } else {
            0nat
        }) + tcp_binds(first.phase, moves.drop_first())
    }
}

/// How many more TCP ports can be tried.
spec fn tries_left(phase: Phase) -> nat {
    match phase {
        Phase::Opened | Phase::Authenticating | Phase::Requesting => PORT_ATTEMPTS as nat,
        Phase::Drawing { failed } => (PORT_ATTEMPTS - failed) as nat,
        Phase::BindingTcp(PortSearch::Any { failed }) => (PORT_ATTEMPTS - failed - 1) as nat,
        _ => 0,
    }
}

proof fn lemma_tries_left(phase: Phase, moves: Seq<Move>)
    requires
        phase.wf(),
        possible(phase, moves),
    ensures
        tcp_binds(phase, moves) <= tries_left(phase),
    decreases moves.len(),
{
    if moves.len() > 0 {
        let first = session::step(phase, moves[0].server, moves[0].event);
        lemma_tries_left(first.phase, moves.drop_first());
    }
}

/// No session tries more than [`PORT_ATTEMPTS`] TCP ports.
pub proof fn lemma_port_attempts_are_bounded(moves: Seq<Move>)
    requires
        possible(Phase::Opened, moves),
    ensures
        tcp_binds(Phase::Opened, moves) <= PORT_ATTEMPTS,
{
    lemma_tries_left(Phase::Opened, moves);
}

/// A client that asks for any port gets another one drawn after each that could not be bound,
/// and is told that there is none only after [`PORT_ATTEMPTS`] of them.
pub proof fn lemma_search_goes_on(server: ServerState, failed: u8, port: u16, err: BindError)
    requires
        failed < PORT_ATTEMPTS,
        server.allows(port),
    ensures
        ({
            let bind = session::step(
                Phase::Drawing { failed },
                server,
                EventView::PortDrawn(port),
            );
            let next = session::step(bind.phase, server, EventView::BindFailed(err));
            &&& bind.action == ActionView::BindTcp { addr: server.bind_tunnels, port }
            &&& failed + 1 < PORT_ATTEMPTS ==> next.phase == (Phase::Drawing {
                failed: (failed + 1) as u8,
            }) && next.action is DrawPort
            &&& failed + 1 == PORT_ATTEMPTS ==> next.action == ActionView::Send(
                ServerSays::Error("failed to find an available port"@),
            )
        }),
{
}

/// A listener that got a port out of the range is not used: it counts as one that could not be
/// bound.
pub proof fn lemma_picked_port_out_of_range(server: ServerState, search: PortSearch, port: u16)
    requires
        !server.allows(port),
    ensures
        session::step(Phase::BindingTcp(search), server, EventView::TcpBound(port))
            == session::step(
            Phase::BindingTcp(search),
            server,
            EventView::BindFailed(BindError::Other),
        ),
{
}

/// Every TCP port that is tried is in the range, and is tried on the address for tunnels.
pub proof fn lemma_bound_ports_are_allowed(phase: Phase, server: ServerState, event: EventView)
    requires
        session::expects(phase, server, event),
    ensures
        session::step(phase, server, event).action matches ActionView::BindTcp { addr, port } ==> {
            addr == server.bind_tunnels && server.allows(port)
        },
{
}

/// A port that is out of the range is refused: the client is told so, nothing is bound for it
/// and the server stays as it is.
pub proof fn lemma_port_out_of_range_is_refused(server: ServerState, port: u16)
    requires
        port != 0,
        !server.allows(port),
    ensures
        session::step(
            Phase::Requesting,
            server,
            EventView::Received(Some(ClientSays::Hello(ForwardingEndpoint::Tcp(port)))),
        ) == session::taken(
            Phase::Refusing,
            server,
            ActionView::Send(ServerSays::Error("client port number not in allowed range"@)),
        ),
{
}

/// An error that is sent to the client terminates the connection: the next step is the last.
pub proof fn lemma_error_terminates(
    phase: Phase,
    server: ServerState,
    event: EventView,
    later: ServerState,
    outcome: EventView,
)
    requires
        session::expects(phase, server, event),
        session::step(phase, server, event).action matches ActionView::Send(ServerSays::Error(_)),
        session::expects(session::step(phase, server, event).phase, later, outcome),
    ensures
        session::step(session::step(phase, server, event).phase, later, outcome)
            == session::finish(
            later,
            if outcome is Sent {
                Ok(())
            } else {
                Err(Failure::Send)
            },
        ),
{
}

/// A session is over exactly when the server ends it, and nothing happens to it after that.
pub proof fn lemma_finished_is_over(phase: Phase, server: ServerState, event: EventView)
    requires
        session::expects(phase, server, event),
    ensures
        session::step(phase, server, event).action is Finish <==> session::step(
            phase,
            server,
            event,
        ).phase is Closed,
        forall|later: ServerState, more: EventView| !session::expects(Phase::Closed, later, more),
{
}

/// The phases before a client is authenticated, and those after it was refused.
spec fn is_locked_out(phase: Phase) -> bool {
    phase is Opened || phase is Authenticating || phase is Refusing || phase is Closed
}

proof fn lemma_stays_locked_out(phase: Phase, moves: Seq<Move>)
    requires
        is_locked_out(phase),
        possible(phase, moves),
        forall|i: int| 0 <= i < moves.len() ==> (#[trigger] moves[i]).server.secret is Some,
        forall|i: int| 0 <= i < moves.len() ==> !((#[trigger] moves[i]).event is Authenticated),
    ensures
        is_locked_out(phase_after(phase, moves)),
        forall|i: int| 0 <= i < moves.len() ==> !(#[trigger] actions(phase, moves)[i] is Receive),
        actions(phase, moves).len() == moves.len(),
    decreases moves.len(),
{
    if moves.len() > 0 {
        let first = session::step(phase, moves[0].server, moves[0].event);
        let rest = moves.drop_first();
        assert forall|i: int| 0 <= i < rest.len() implies (#[trigger] rest[i]).server.secret is Some
            && !(rest[i].event is Authenticated) by {
            assert(rest[i] == moves[i + 1]);
        }
        lemma_stays_locked_out(first.phase, rest);
        assert forall|i: int| 0 <= i < moves.len() implies !(#[trigger] actions(
            phase,
            moves,
        )[i] is Receive) by {
            if i > 0 {
                assert(actions(phase, moves)[i] == actions(first.phase, rest)[i - 1]);
            }
        }
    }
}

/// A server that has a secret takes no request from a client that has not been authenticated.
pub proof fn lemma_secret_guards_requests(moves: Seq<Move>)
    requires
        possible(Phase::Opened, moves),
        forall|i: int| 0 <= i < moves.len() ==> (#[trigger] moves[i]).server.secret is Some,
        forall|i: int| 0 <= i < moves.len() ==> !((#[trigger] moves[i]).event is Authenticated),
    ensures
        !(phase_after(Phase::Opened, moves) is Requesting),
        forall|i: int|
            0 <= i < moves.len() ==> !(#[trigger] actions(Phase::Opened, moves)[i] is Receive),
        actions(Phase::Opened, moves).len() == moves.len(),
{
    lemma_stays_locked_out(Phase::Opened, moves);
}

/// The endpoint that a client is told is the one that was bound: the port that the listener
/// really has, which is in the range, or HTTP.
pub proof fn lemma_hello_tells_actual_endpoint(
    phase: Phase,
    server: ServerState,
    event: EventView,
)
    requires
        session::expects(phase, server, event),
    ensures
        session::step(phase, server, event).action matches ActionView::Send(
            ServerSays::Hello(endpoint),
        ) ==> match endpoint {
            ForwardingEndpoint::Tcp(port) => event == EventView::TcpBound(port)
                && server.allows(port),
            ForwardingEndpoint::Http => event is HttpBound && phase is BindingHttp,
        },
        phase is BindingTcp && event is TcpBound && server.allows(event->TcpBound_0)
            ==> session::step(phase, server, event).action == ActionView::Send(
            ServerSays::Hello(ForwardingEndpoint::Tcp(event->TcpBound_0)),
        ),
{
}

/// The client is tested before each wait for a connection: a wait begins only when a heartbeat
/// was sent.
pub proof fn lemma_heartbeat_before_each_wait(
    phase: Phase,
    server: ServerState,
    event: EventView,
)
    requires
        session::expects(phase, server, event),
    ensures
        session::step(phase, server, event).action is Accept ==> phase is Pinging && event is Sent,
        session::step(phase, server, event).phase is Pinging ==> session::step(
            phase,
            server,
            event,
        ).action == ActionView::Send(ServerSays::Heartbeat),
{
}

/// A connection is announced only after it waits under its name and its removal is scheduled.
pub proof fn lemma_announced_connections_wait(
    phase: Phase,
    server: ServerState,
    event: EventView,
    id: u128,
)
    requires
        session::expects(phase, server, event),
    ensures
        session::step(phase, server, event).action == ActionView::Send(ServerSays::Connection(id))
            ==> event is Scheduled && phase is Scheduling && phase->Scheduling_id == id,
        session::step(phase, server, event).phase matches Phase::Scheduling { id: named, .. } ==> {
            let after = session::step(phase, server, event);
            &&& after.server.conns.contains_key(named)
            &&& phase matches Phase::Naming { handle, .. } && after.server.conns[named] == handle
            &&& after.action matches ActionView::ScheduleRemoval { id: scheduled, after_ms, .. }
                && scheduled == named && after_ms == STALE_AFTER_MS
        },
{
}

/// A step changes nothing but the waiting connections: it adds the one that was just named, or
/// takes out the one that is forwarded.
pub proof fn lemma_steps_keep_the_rest(phase: Phase, server: ServerState, event: EventView)
    requires
        session::expects(phase, server, event),
    ensures
        ({
            let after = session::step(phase, server, event);
            &&& after.server == (ServerState { conns: after.server.conns, ..server })
            &&& match (phase, event) {
                (Phase::Naming { handle, .. }, EventView::IdDrawn(id)) => after.server.conns
                    == server.conns.insert(id, handle),
                (
                    Phase::Requesting,
                    EventView::Received(Some(ClientSays::Accept(id))),
                ) => after.server.conns == server.conns.remove(id),
                _ => after.server.conns == server.conns,
            }
        }),
{
    if let EventView::Received(Some(ClientSays::Accept(id))) = event {
        if !server.conns.contains_key(id) {
            assert(server.conns.remove(id) =~= server.conns);
        }
    }
}

/// A waiting connection is handed out once: the first client that accepts it has it forwarded,
/// the others keep waiting, and for a second client that accepts it nothing happens.
pub proof fn lemma_accepted_once(server: ServerState, id: u128, other: u128)
    requires
        server.conns.contains_key(id),
        other != id,
    ensures
        ({
            let accept = EventView::Received(Some(ClientSays::Accept(id)));
            let first = session::step(Phase::Requesting, server, accept);
            let second = session::step(Phase::Requesting, first.server, accept);
            &&& first.action == ActionView::Forward { handle: server.conns[id] }
            &&& first.server.conns.contains_key(other) == server.conns.contains_key(other)
            &&& first.server.conns.contains_key(other) ==> first.server.conns[other]
                == server.conns[other]
            &&& second == session::finish(first.server, Ok(()))
        }),
{
}

/// A connection that was named is the one that is forwarded to the client that accepts its
/// name.
pub proof fn lemma_named_connection_is_forwarded(
    server: ServerState,
    endpoint: ForwardingEndpoint,
    handle: u64,
    id: u128,
)
    ensures
        ({
            let named = session::step(
                Phase::Naming { endpoint, handle },
                server,
                EventView::IdDrawn(id),
            );
            let accepted = session::step(
                Phase::Requesting,
                named.server,
                EventView::Received(Some(ClientSays::Accept(id))),
            );
            accepted.action == ActionView::Forward { handle }
        }),
{
}

/// A connection that was removed as stale, or that never was, cannot be accepted; the session
/// ends and the server stays as it is.
pub proof fn lemma_missing_connection(server: ServerState, id: u128)
    ensures
        ({
            let removed = ServerState { conns: server.conns.remove(id), ..server };
            session::step(
                Phase::Requesting,
                removed,
                EventView::Received(Some(ClientSays::Accept(id))),
            ) == session::finish(removed, Ok(()))
        }),
{
}

/// The endpoint that a session forwards.
pub open spec fn forwards(phase: Phase, endpoint: ForwardingEndpoint) -> bool {
    match phase {
        Phase::Greeting(open)
        | Phase::Pinging(open)
        | Phase::Listening(open)
        | Phase::Announcing(open) => open == endpoint,
        Phase::Naming { endpoint: open, .. } => open == endpoint,
        Phase::Scheduling { endpoint: open, .. } => open == endpoint,
        _ => false,
    }
}

/// A session that forwards HTTP ends without error only once its socket was removed; the socket
/// is removed when the client is found to be gone, and at no other time.
pub proof fn lemma_http_socket_is_removed(phase: Phase, server: ServerState, event: EventView)
    requires
        session::expects(phase, server, event),
    ensures
        forwards(phase, ForwardingEndpoint::Http) ==> session::step(phase, server, event).action
            != ActionView::Finish(Ok(())),
        session::step(phase, server, event).action is RemoveSocket <==> phase
            == Phase::Pinging(ForwardingEndpoint::Http) && event is SendFailed,
        session::step(phase, server, event).action matches ActionView::RemoveSocket { path }
            ==> server.http_socket == Some(path),
        phase is Cleaning ==> session::step(phase, server, event) == session::finish(
            server,
            Ok(()),
        ),
{
}

/// A session begins with the handshake exactly if the server has a secret, and with the request
/// if it has none.
pub proof fn lemma_first_action(server: ServerState)
    ensures
        session::step(Phase::Opened, server, EventView::Opened).action is Handshake
            <==> server.secret is Some,
        server.secret is None ==> session::step(Phase::Opened, server, EventView::Opened)
            == session::await_request(server),
{
}

/// A server with a secret has the client authenticated first, and any other awaits the request at
/// once, for three seconds; so does one whose client was authenticated. A client that was not is
/// told the reason.
pub proof fn lemma_session_begins(server: ServerState, text: Seq<char>)
    ensures
        server.secret is Some ==> session::step(Phase::Opened, server, EventView::Opened) == (Step {
            phase: Phase::Authenticating,
            server,
            action: ActionView::Handshake,
        }),
        server.secret is None ==> session::step(Phase::Opened, server, EventView::Opened) == (Step {
            phase: Phase::Requesting,
            server,
            action: ActionView::Receive { limit_ms: 3000 },
        }),
        session::step(Phase::Authenticating, server, EventView::Authenticated) == (Step {
            phase: Phase::Requesting,
            server,
            action: ActionView::Receive { limit_ms: 3000 },
        }),
        session::step(Phase::Authenticating, server, EventView::HandshakeFailed(text)) == (Step {
            phase: Phase::Refusing,
            server,
            action: ActionView::Send(ServerSays::Error(text)),
        }),
{
}

/// A client that asks for a port of the range gets that very port tried, and no other; one that
/// asks for a port out of the range is told so. A port is drawn for a request exactly if that asks
/// for port 0.
pub proof fn lemma_requested_port_is_bound(
    server: ServerState,
    port: u16,
    message: Option<ClientSays>,
)
    ensures
        ({
            let asked = EventView::Received(
                Some(ClientSays::Hello(ForwardingEndpoint::Tcp(port))),
            );
            let next = session::step(Phase::Requesting, server, asked);
            &&& next.server == server
            &&& port != 0 && server.min_port <= port <= server.max_port ==> next.phase
                == Phase::BindingTcp(PortSearch::Requested) && next.action
                == (ActionView::BindTcp { addr: server.bind_tunnels, port })
            &&& port != 0 && !(server.min_port <= port <= server.max_port) ==> next.phase
                == Phase::Refusing && next.action == ActionView::Send(
                ServerSays::Error("client port number not in allowed range"@),
            )
            &&& port == 0 ==> next.phase == (Phase::Drawing { failed: 0 }) && next.action
                == ActionView::DrawPort
        }),
        session::step(Phase::Requesting, server, EventView::Received(message)).action is DrawPort
            <==> message == Some(ClientSays::Hello(ForwardingEndpoint::Tcp(0))),
        session::step(Phase::Requesting, server, EventView::Received(message)).action is BindTcp
            ==> (message matches Some(ClientSays::Hello(ForwardingEndpoint::Tcp(asked))) && asked
            != 0),
{
}

/// A client that asks for HTTP connections gets the socket of the server bound, or is told that
/// there is none.
pub proof fn lemma_http_is_bound(server: ServerState, path: Seq<u8>)
    ensures
        ({
            let asked = EventView::Received(Some(ClientSays::Hello(ForwardingEndpoint::Http)));
            let next = session::step(Phase::Requesting, server, asked);
            &&& next.server == server
            &&& server.http_socket == Some(path) ==> next.phase == Phase::BindingHttp && next.action
                == (ActionView::BindHttp { path })
            &&& server.http_socket is None ==> next.phase == Phase::Refusing && next.action
                == ActionView::Send(ServerSays::Error("server doesn't support HTTP forwarding"@))
        }),
        session::step(Phase::BindingHttp, server, EventView::HttpBound) == (Step {
            phase: Phase::Greeting(ForwardingEndpoint::Http),
            server,
            action: ActionView::Send(ServerSays::Hello(ForwardingEndpoint::Http)),
        }),
{
}

/// A client that accepts a connection that waits gets that one forwarded, which then waits no
/// more; for any other name the session ends. All other connections go on waiting.
pub proof fn lemma_accept_takes_one(server: ServerState, id: u128, other: u128)
    ensures
        ({
            let next = session::step(
                Phase::Requesting,
                server,
                EventView::Received(Some(ClientSays::Accept(id))),
            );
            &&& server.conns.contains_key(id) ==> next.phase == Phase::Forwarding && next.action
                == (ActionView::Forward { handle: server.conns[id] })
            &&& !server.conns.contains_key(id) ==> next.phase == Phase::Closed && next.action
                == ActionView::Finish(Ok(())) && next.server == server
            &&& !next.server.conns.contains_key(id)
            &&& other != id ==> next.server.conns.contains_key(other)
                == server.conns.contains_key(other) && (server.conns.contains_key(other)
                ==> next.server.conns[other] == server.conns[other])
            &&& next.server == (ServerState { conns: next.server.conns, ..server })
        }),
        session::step(Phase::Forwarding, server, EventView::Forwarded) == (Step {
            phase: Phase::Closed,
            server,
            action: ActionView::Finish(Ok(())),
        }),
        session::step(Phase::Forwarding, server, EventView::ForwardFailed) == (Step {
            phase: Phase::Closed,
            server,
            action: ActionView::Finish(Err(Failure::Forward)),
        }),
{
}

/// A session without a request ends: without error where the stream ended or an answer came that
/// nobody asked for, and with one where nothing could be received.
pub proof fn lemma_no_request(server: ServerState, answer: Seq<char>)
    ensures
        session::step(Phase::Requesting, server, EventView::Received(None)) == (Step {
            phase: Phase::Closed,
            server,
            action: ActionView::Finish(Ok(())),
        }),
        session::step(
            Phase::Requesting,
            server,
            EventView::Received(Some(ClientSays::Authenticate(answer))),
        ) == (Step { phase: Phase::Closed, server, action: ActionView::Finish(Ok(())) }),
        session::step(Phase::Requesting, server, EventView::ReceiveFailed) == (Step {
            phase: Phase::Closed,
            server,
            action: ActionView::Finish(Err(Failure::Receive)),
        }),
{
}

/// A client that was told an error is done with: the session ends without error if that could be
/// sent, and with one if it could not.
pub proof fn lemma_refusal_is_the_end(server: ServerState)
    ensures
        session::step(Phase::Refusing, server, EventView::Sent) == (Step {
            phase: Phase::Closed,
            server,
            action: ActionView::Finish(Ok(())),
        }),
        session::step(Phase::Refusing, server, EventView::SendFailed) == (Step {
            phase: Phase::Closed,
            server,
            action: ActionView::Finish(Err(Failure::Send)),
        }),
{
}

/// The port that was drawn is the one that is tried.
pub proof fn lemma_drawn_port_is_tried(server: ServerState, failed: u8, port: u16)
    ensures
        session::step(Phase::Drawing { failed }, server, EventView::PortDrawn(port)) == (Step {
            phase: Phase::BindingTcp(PortSearch::Any { failed }),
            server,
            action: ActionView::BindTcp { addr: server.bind_tunnels, port },
        }),
{
}

/// A listener on a port of the range is used, whether that port was asked for or drawn, and the
/// client is told the port. One whose address cannot be had ends the session.
pub proof fn lemma_bound_port_is_told(server: ServerState, search: PortSearch, port: u16)
    requires
        server.min_port <= port <= server.max_port,
    ensures
        session::step(Phase::BindingTcp(search), server, EventView::TcpBound(port)) == (Step {
            phase: Phase::Greeting(ForwardingEndpoint::Tcp(port)),
            server,
            action: ActionView::Send(ServerSays::Hello(ForwardingEndpoint::Tcp(port))),
        }),
        session::step(Phase::BindingTcp(search), server, EventView::LocalAddrFailed) == (Step {
            phase: Phase::Closed,
            server,
            action: ActionView::Finish(Err(Failure::LocalAddr)),
        }),
{
}

/// A client whose port could not be bound is told why. For one that asked for any port another is
/// drawn, whatever the reason, until 150 could not be bound. A listener that got a port out of the
/// range counts as one that could not be bound.
pub proof fn lemma_port_that_is_not_bound(
    server: ServerState,
    err: BindError,
    failed: u8,
    search: PortSearch,
    port: u16,
)
    requires
        failed < 150,
    ensures
        session::step(
            Phase::BindingTcp(PortSearch::Requested),
            server,
            EventView::BindFailed(err),
        ) == (Step {
            phase: Phase::Refusing,
            server,
            action: ActionView::Send(
                ServerSays::Error(
                    match err {
                        BindError::AddrInUse => "port already in use"@,
                        BindError::PermissionDenied => "permission denied"@,
                        BindError::AlreadyExists => "failed to bind to port"@,
                        BindError::Other => "failed to bind to port"@,
                    },
                ),
            ),
        }),
        session::step(
            Phase::BindingTcp(PortSearch::Any { failed }),
            server,
            EventView::BindFailed(err),
        ) == if failed < 149 {
            (Step {
                phase: Phase::Drawing { failed: (failed + 1) as u8 },
                server,
                action: ActionView::DrawPort,
            })
        } else {
            (Step {
                phase: Phase::Refusing,
                server,
                action: ActionView::Send(
                    ServerSays::Error("failed to find an available port"@),
                ),
            })
        },
        !(server.min_port <= port <= server.max_port) ==> session::step(
            Phase::BindingTcp(search),
            server,
            EventView::TcpBound(port),
        ) == session::step(
            Phase::BindingTcp(search),
            server,
            EventView::BindFailed(BindError::Other),
        ),
{
}

/// A client for which the HTTP socket could not be bound is told why.
pub proof fn lemma_socket_that_is_not_bound(server: ServerState, err: BindError)
    ensures
        session::step(Phase::BindingHttp, server, EventView::BindFailed(err)) == (Step {
            phase: Phase::Refusing,
            server,
            action: ActionView::Send(
                ServerSays::Error(
                    match err {
                        BindError::AddrInUse => {
                            "an HTTP forwarding session is already in progress"@
                        },
                        BindError::AlreadyExists => {
                            "an HTTP forwarding session is already in progress"@
                        },
                        BindError::PermissionDenied => "failed to bind to HTTP socket"@,
                        BindError::Other => "failed to bind to HTTP socket"@,
                    },
                ),
            ),
        }),
{
}

/// A session goes on to forward, whatever it forwards: once the endpoint or a connection was
/// announced, or nobody connected for half a second, the client is tested, and then the next
/// connection is awaited.
pub proof fn lemma_forwarding_goes_on(server: ServerState, endpoint: ForwardingEndpoint)
    ensures
        session::step(Phase::Greeting(endpoint), server, EventView::Sent) == (Step {
            phase: Phase::Pinging(endpoint),
            server,
            action: ActionView::Send(ServerSays::Heartbeat),
        }),
        session::step(Phase::Announcing(endpoint), server, EventView::Sent) == (Step {
            phase: Phase::Pinging(endpoint),
            server,
            action: ActionView::Send(ServerSays::Heartbeat),
        }),
        session::step(Phase::Listening(endpoint), server, EventView::AcceptTimedOut) == (Step {
            phase: Phase::Pinging(endpoint),
            server,
            action: ActionView::Send(ServerSays::Heartbeat),
        }),
        session::step(Phase::Pinging(endpoint), server, EventView::Sent) == (Step {
            phase: Phase::Listening(endpoint),
            server,
            action: ActionView::Accept { limit_ms: 500 },
        }),
{
}

/// Every connection that comes in is named, waits under its name for ten seconds, and is announced
/// under it, whatever else waits and whatever the endpoint is. Others go on waiting, but for one
/// of the same name, which is handed back.
pub proof fn lemma_connection_is_announced(
    server: ServerState,
    endpoint: ForwardingEndpoint,
    handle: u64,
    id: u128,
    other: u128,
    later: ServerState,
)
    ensures
        session::step(Phase::Listening(endpoint), server, EventView::Accepted(handle)) == (Step {
            phase: Phase::Naming { endpoint, handle },
            server,
            action: ActionView::DrawId,
        }),
        ({
            let next = session::step(
                Phase::Naming { endpoint, handle },
                server,
                EventView::IdDrawn(id),
            );
            &&& next.phase == (Phase::Scheduling { endpoint, id })
            &&& next.server.conns.contains_key(id)
            &&& next.server.conns[id] == handle
            &&& other != id ==> next.server.conns.contains_key(other)
                == server.conns.contains_key(other) && (server.conns.contains_key(other)
                ==> next.server.conns[other] == server.conns[other])
            &&& next.server == (ServerState { conns: next.server.conns, ..server })
            &&& next.action == (ActionView::ScheduleRemoval {
                id,
                after_ms: 10000,
                displaced: if server.conns.contains_key(id) {
                    Some(server.conns[id])
                } else {
                    None
                },
            })
        }),
        session::step(Phase::Scheduling { endpoint, id }, later, EventView::Scheduled) == (Step {
            phase: Phase::Announcing(endpoint),
            server: later,
            action: ActionView::Send(ServerSays::Connection(id)),
        }),
{
}

/// A session that forwards stays with its endpoint and does not end, unless a message could not be
/// sent or its listener failed.
pub proof fn lemma_forwarding_ends_on_failure_only(
    phase: Phase,
    server: ServerState,
    event: EventView,
)
    requires
        session::expects(phase, server, event),
        !(event is SendFailed),
        !(event is AcceptFailed),
    ensures
        ({
            let next = session::step(phase, server, event);
            &&& phase matches Phase::Greeting(endpoint) ==> next.phase == Phase::Pinging(endpoint)
            &&& phase matches Phase::Pinging(endpoint) ==> next.phase == Phase::Listening(endpoint)
            &&& phase matches Phase::Listening(endpoint) ==> next.phase == Phase::Pinging(endpoint)
                || (event matches EventView::Accepted(handle) && next.phase == (Phase::Naming {
                endpoint,
                handle,
            }))
            &&& phase matches Phase::Naming { endpoint, .. } ==> (
            event matches EventView::IdDrawn(id) && next.phase == (Phase::Scheduling {
                endpoint,
                id,
            }))
            &&& phase matches Phase::Scheduling { endpoint, .. } ==> next.phase
                == Phase::Announcing(endpoint)
            &&& phase matches Phase::Announcing(endpoint) ==> next.phase == Phase::Pinging(endpoint)
            &&& forall|endpoint: ForwardingEndpoint| #[trigger]
                forwards(phase, endpoint) ==> !(next.action is Finish) && forwards(
                    next.phase,
                    endpoint,
                )
        }),
{
}

/// How a session that forwards ends. A heartbeat that cannot be sent tells that the client is
/// gone, which is no error; the HTTP socket is removed then. An announcement that cannot be sent,
/// and a listener that fails, are errors.
pub proof fn lemma_forwarding_ends(
    server: ServerState,
    endpoint: ForwardingEndpoint,
    port: u16,
    path: Seq<u8>,
)
    ensures
        session::step(Phase::Greeting(endpoint), server, EventView::SendFailed) == (Step {
            phase: Phase::Closed,
            server,
            action: ActionView::Finish(Err(Failure::Send)),
        }),
        session::step(Phase::Announcing(endpoint), server, EventView::SendFailed) == (Step {
            phase: Phase::Closed,
            server,
            action: ActionView::Finish(Err(Failure::Send)),
        }),
        session::step(Phase::Listening(endpoint), server, EventView::AcceptFailed) == (Step {
            phase: Phase::Closed,
            server,
            action: ActionView::Finish(Err(Failure::Accept)),
        }),
        session::step(
            Phase::Pinging(ForwardingEndpoint::Tcp(port)),
            server,
            EventView::SendFailed,
        ) == (Step { phase: Phase::Closed, server, action: ActionView::Finish(Ok(())) }),
        server.http_socket == Some(path) ==> session::step(
            Phase::Pinging(ForwardingEndpoint::Http),
            server,
            EventView::SendFailed,
        ) == (Step { phase: Phase::Cleaning, server, action: ActionView::RemoveSocket { path } }),
        session::step(Phase::Cleaning, server, EventView::SocketRemoved) == (Step {
            phase: Phase::Closed,
            server,
            action: ActionView::Finish(Ok(())),
        }),
{
}

/// Whether the event is an answer to what was done: each action has those that say that it
/// succeeded and those that say that it failed, and what is drawn is of the range.
pub open spec fn answers(server: ServerState, action: ActionView, event: EventView) -> bool {
    match event {
        EventView::Opened => false,
        EventView::Authenticated | EventView::HandshakeFailed(_) => action is Handshake,
        EventView::Received(_) | EventView::ReceiveFailed => action is Receive,
        EventView::Sent | EventView::SendFailed => action is Send,
        EventView::PortDrawn(port) => action is DrawPort && server.min_port <= port
            <= server.max_port,
        EventView::TcpBound(_) | EventView::LocalAddrFailed => action is BindTcp,
        EventView::HttpBound => action is BindHttp,
        EventView::BindFailed(_) => action is BindTcp || action is BindHttp,
        EventView::AcceptTimedOut
        | EventView::Accepted(_)
        | EventView::AcceptFailed => action is Accept,
        EventView::IdDrawn(_) => action is DrawId,
        EventView::Scheduled => action is ScheduleRemoval,
        EventView::Forwarded | EventView::ForwardFailed => action is Forward,
        EventView::SocketRemoved => action is RemoveSocket,
    }
}

/// What a session expects next is what can come of what it does, all of it and nothing else; a
/// new session expects to be opened. The HTTP socket of a server stays where it is once it is
/// bound.
pub proof fn lemma_answers_are_expected(
    phase: Phase,
    server: ServerState,
    event: EventView,
    later: ServerState,
    answer: EventView,
)
    requires
        session::expects(phase, server, event),
        later == (ServerState { conns: later.conns, ..server }),
        phase is BindingHttp || forwards(phase, ForwardingEndpoint::Http)
            ==> server.http_socket is Some,
    ensures
        ({
            let next = session::step(phase, server, event);
            &&& session::expects(next.phase, later, answer) <==> answers(
                later,
                next.action,
                answer,
            )
            &&& next.phase is BindingHttp || forwards(next.phase, ForwardingEndpoint::Http)
                ==> server.http_socket is Some
        }),
        session::expects(Phase::Opened, server, answer) <==> answer == EventView::Opened,
{
}

/// A step that was taken has the phase, the server and the action that it was taken with, and the
/// phases that a session can be in are all but those after more than 150 ports.
pub proof fn lemma_taken(phase: Phase, server: ServerState, action: ActionView)
    ensures
        session::taken(phase, server, action).phase == phase,
        session::taken(phase, server, action).server == server,
        session::taken(phase, server, action).action == action,
        phase.wf() <==> match phase {
            Phase::Drawing { failed } => failed < 150,
            Phase::BindingTcp(PortSearch::Any { failed }) => failed < 150,
            _ => true,
        },
{
}

/// A port can be forwarded exactly if it is one of those from the lowest to the highest.
pub proof fn lemma_allowed_ports(server: ServerState, port: u16)
    ensures
        server.allows(port) <==> server.min_port <= port && port <= server.max_port,
{
}

/// Once the time of a connection is over, nothing waits under its name, and everything else is as
/// it was; what waited is handed back.
pub proof fn lemma_removal_takes_one(server: ServerState, id: u128, other: u128)
    ensures
        ({
            let after = session::without(server, id);
            &&& !after.conns.contains_key(id)
            &&& other != id ==> after.conns.contains_key(other) == server.conns.contains_key(other)
                && (server.conns.contains_key(other) ==> after.conns[other]
                == server.conns[other])
            &&& after == (ServerState { conns: after.conns, ..server })
        }),
        server.conns.contains_key(id) ==> session::waiting_under(server, id) == Some(
            server.conns[id],
        ),
        !server.conns.contains_key(id) ==> session::waiting_under(server, id) is None,
{
}

/// The port that is tried for a client that asks for any is the one that the next draw gives, out
/// of the whole range; it is tried on the address for tunnels. Each try has a draw of its own.
pub proof fn lemma_any_port_is_drawn(
    nth: nat,
    phase: Phase,
    server: ServerState,
    event: EventView,
    after: Step,
)
    requires
        session::expects(phase, server, event),
        session::is_advance(nth, phase, server, event, after),
        session::step(phase, server, event).action is DrawPort,
    ensures
        after.action matches ActionView::BindTcp { addr, port } && addr == server.bind_tunnels
            && server.min_port <= port <= server.max_port && session::is_nth_port(
            nth,
            server.min_port,
            server.max_port,
            port,
        ),
        after.phase matches Phase::BindingTcp(PortSearch::Any { failed }) && session::step(
            phase,
            server,
            event,
        ).phase == (Phase::Drawing { failed }),
        after.server == server,
{
}

/// The name of a connection is the one that the next draw gives, and the connection waits under
/// it.
pub proof fn lemma_names_are_drawn(
    nth: nat,
    phase: Phase,
    server: ServerState,
    handle: u64,
    endpoint: ForwardingEndpoint,
    after: Step,
)
    requires
        phase == Phase::Listening(endpoint),
        session::is_advance(nth, phase, server, EventView::Accepted(handle), after),
    ensures
        after.action matches ActionView::ScheduleRemoval { id, after_ms, .. } && session::is_nth_id(
            nth,
            id,
        ) && after_ms == 10000 && after.phase == (Phase::Scheduling { endpoint, id })
            && after.server.conns == server.conns.insert(id, handle) && id
            & 0xF000_C000_0000_0000_0000 == 0x4000_8000_0000_0000_0000,
{
}

/// Where nothing is to be drawn, the server does by itself what the event alone leads to, whatever
/// it has drawn before.
pub proof fn lemma_nothing_is_drawn(
    nth: nat,
    phase: Phase,
    server: ServerState,
    event: EventView,
    after: Step,
)
    requires
        !(session::step(phase, server, event).action is DrawPort),
        !(session::step(phase, server, event).action is DrawId),
    ensures
        session::is_advance(nth, phase, server, event, after) <==> after == session::step(
            phase,
            server,
            event,
        ),
{
}

/// An action says what its view says: the views of no two different actions are the same, but for
/// how texts and paths are stored.
pub proof fn lemma_action_view(action: Action)
    ensures
        match action {
            Action::Handshake => action@ is Handshake,
            Action::Receive { limit_ms } => action@ == (ActionView::Receive { limit_ms }),
            Action::Send(message) => action@ == ActionView::Send(message@),
            Action::DrawPort => action@ is DrawPort,
            Action::BindTcp { addr, port } => action@ == (ActionView::BindTcp { addr, port }),
            Action::BindHttp { path } => action@ == (ActionView::BindHttp { path: path@ }),
            Action::Accept { limit_ms } => action@ == (ActionView::Accept { limit_ms }),
            Action::DrawId => action@ is DrawId,
            Action::ScheduleRemoval { id, after_ms, displaced } => action@ == (
            ActionView::ScheduleRemoval { id, after_ms, displaced }),
            Action::Forward { handle } => action@ == (ActionView::Forward { handle }),
            Action::RemoveSocket { path } => action@ == (ActionView::RemoveSocket { path: path@ }),
            Action::Finish(outcome) => action@ == ActionView::Finish(outcome),
        },
{
}

/// An event says what its view says.
pub proof fn lemma_event_view(event: Event)
    ensures
        match event {
            Event::Opened => event@ is Opened,
            Event::Authenticated => event@ is Authenticated,
            Event::HandshakeFailed(text) => event@ == EventView::HandshakeFailed(text@),
            Event::Received(None) => event@ == EventView::Received(None),
            Event::Received(Some(message)) => event@ == EventView::Received(Some(message@)),
            Event::ReceiveFailed => event@ is ReceiveFailed,
            Event::Sent => event@ is Sent,
            Event::SendFailed => event@ is SendFailed,
            Event::PortDrawn(port) => event@ == EventView::PortDrawn(port),
            Event::TcpBound(port) => event@ == EventView::TcpBound(port),
            Event::LocalAddrFailed => event@ is LocalAddrFailed,
            Event::HttpBound => event@ is HttpBound,
            Event::BindFailed(err) => event@ == EventView::BindFailed(err),
            Event::AcceptTimedOut => event@ is AcceptTimedOut,
            Event::Accepted(handle) => event@ == EventView::Accepted(handle),
            Event::AcceptFailed => event@ is AcceptFailed,
            Event::IdDrawn(id) => event@ == EventView::IdDrawn(id),
            Event::Scheduled => event@ is Scheduled,
            Event::Forwarded => event@ is Forwarded,
            Event::ForwardFailed => event@ is ForwardFailed,
            Event::SocketRemoved => event@ is SocketRemoved,
        },
{
}

/// A message says what its view says, for the client and for the server.
pub proof fn lemma_message_views(client: ClientMessage, server: ServerMessage)
    ensures
        match client {
            ClientMessage::Authenticate(answer) => client@ == ClientSays::Authenticate(answer@),
            ClientMessage::Hello(endpoint) => client@ == ClientSays::Hello(endpoint),
            ClientMessage::Accept(id) => client@ == ClientSays::Accept(id),
        },
        match server {
            ServerMessage::Challenge(id) => server@ == ServerSays::Challenge(id),
            ServerMessage::Hello(endpoint) => server@ == ServerSays::Hello(endpoint),
            ServerMessage::Heartbeat => server@ is Heartbeat,
            ServerMessage::Connection(id) => server@ == ServerSays::Connection(id),
            ServerMessage::Error(text) => server@ == ServerSays::Error(text@),
        },
{
}

/// A change to the waiting connections, by whichever session or timer.
pub enum Change {
    /// A connection got its name.
    Named { id: u128, handle: u64 },
    /// A client asked for the connection of that name.
    Accepted { id: u128 },
    /// The time of the connection of that name is over.
    Stale { id: u128 },
}

impl Change {
    /// The waiting connections after the change.
    pub open spec fn apply(self, conns: Map<u128, u64>) -> Map<u128, u64> {
        match self {
            Change::Named { id, handle } => conns.insert(id, handle),
            Change::Accepted { id } => conns.remove(id),
            Change::Stale { id } => conns.remove(id),
        }
    }

    /// The connection that no longer waits after the change: the one that is forwarded, closed
    /// as stale, or displaced by another of its name.
    pub open spec fn released(self, conns: Map<u128, u64>) -> Option<u64> {
        let id = match self {
            Change::Named { id, .. } => id,
            Change::Accepted { id } => id,
            Change::Stale { id } => id,
        };
        if conns.contains_key(id) {
            Some(conns[id])
        } else {
            None
        }
    }
}

/// The connections that wait after the changes, on a server that began with none.
pub open spec fn waiting(changes: Seq<Change>) -> Map<u128, u64>
    decreases changes.len(),
{
    if changes.len() == 0 {
        Map::empty()
    } else {
        changes.last().apply(waiting(changes.drop_last()))
    }
}

/// The handles that were named in the course of the changes.
pub open spec fn named(changes: Seq<Change>) -> Seq<u64>
    decreases changes.len(),
{
    if changes.len() == 0 {
        Seq::empty()
    } else {
        match changes.last() {
            Change::Named { handle, .. } => named(changes.drop_last()).push(handle),
            _ => named(changes.drop_last()),
        }
    }
}

/// The handles that were released in the course of the changes.
pub open spec fn released(changes: Seq<Change>) -> Seq<u64>
    decreases changes.len(),
{
    if changes.len() == 0 {
        Seq::empty()
    } else {
        match changes.last().released(waiting(changes.drop_last())) {
            Some(handle) => released(changes.drop_last()).push(handle),
            None => released(changes.drop_last()),
        }
    }
}

/// The steps of a session, and the removal of a stale connection, change the waiting connections
/// as [`Change`] says; what they release is forwarded, displaced or handed to the timer.
pub proof fn lemma_steps_are_changes(
    server: ServerState,
    endpoint: ForwardingEndpoint,
    handle: u64,
    id: u128,
)
    ensures
        ({
            let step = session::step(
                Phase::Naming { endpoint, handle },
                server,
                EventView::IdDrawn(id),
            );
            let change = Change::Named { id, handle };
            &&& step.server.conns == change.apply(server.conns)
            &&& step.action == (ActionView::ScheduleRemoval {
                id,
                after_ms: STALE_AFTER_MS,
                displaced: change.released(server.conns),
            })
        }),
        ({
            let step = session::step(
                Phase::Requesting,
                server,
                EventView::Received(Some(ClientSays::Accept(id))),
            );
            let change = Change::Accepted { id };
            &&& step.server.conns == change.apply(server.conns)
            &&& match change.released(server.conns) {
                Some(waited) => step.action == (ActionView::Forward { handle: waited }),
                None => step.action == ActionView::Finish(Ok(())),
            }
        }),
        ({
            let change = Change::Stale { id };
            &&& session::without(server, id) == (ServerState {
                conns: change.apply(server.conns),
                ..server
            })
            &&& session::waiting_under(server, id) == change.released(server.conns)
        }),
{
    lemma_steps_keep_the_rest(
        Phase::Requesting,
        server,
        EventView::Received(Some(ClientSays::Accept(id))),
    );
}

/// Every connection is released at most once: where no handle is named twice, none is released
/// twice, none is released that was not named, and none that was released still waits.
pub proof fn lemma_released_once(changes: Seq<Change>)
    requires
        named(changes).no_duplicates(),
    ensures
        released(changes).no_duplicates(),
        forall|handle: u64| #[trigger]
            released(changes).contains(handle) ==> named(changes).contains(handle),
        forall|id: u128| #[trigger]
            waiting(changes).contains_key(id) ==> !released(changes).contains(waiting(changes)[id])
                && named(changes).contains(waiting(changes)[id]),
        forall|id: u128, other: u128|
            #![trigger waiting(changes)[id], waiting(changes)[other]]
            waiting(changes).contains_key(id) && waiting(changes).contains_key(other) && id != other
                ==> waiting(changes)[id] != waiting(changes)[other],
    decreases changes.len(),
{
    if changes.len() > 0 {
        let before = changes.drop_last();
        let names = named(before);
        let conns = waiting(before);
        let gone = released(before);
        assert(named(before).no_duplicates()) by {
            assert forall|i: int, j: int|
                0 <= i < names.len() && 0 <= j < names.len() && i != j implies names[i]
                != names[j] by {
                assert(named(changes)[i] == names[i] && named(changes)[j] == names[j]);
            }
        }
        lemma_released_once(before);
        assert forall|h: u64| names.contains(h) implies named(changes).contains(h) by {
            let i = choose|i: int| 0 <= i < names.len() && names[i] == h;
            assert(named(changes)[i] == h);
        }
        if let Change::Named { handle, .. } = changes.last() {
            assert(named(changes)[names.len() as int] == handle);
            if names.contains(handle) {
                let i = choose|i: int| 0 <= i < names.len() && names[i] == handle;
                assert(named(changes)[i] == named(changes)[names.len() as int]);
            }
        }
        assert forall|h: u64| released(changes).contains(h) implies gone.contains(h) || (
        changes.last().released(conns) == Some(h)) by {
            let i = choose|i: int| 0 <= i < released(changes).len() && released(changes)[i] == h;
            if i < gone.len() {
                assert(gone[i] == h);
            }
        }
        assert forall|h: u64| #[trigger] released(changes).contains(h) implies named(
            changes,
        ).contains(h) by {
            if gone.contains(h) {
                assert(names.contains(h));
            }
        }
        assert forall|id: u128| #[trigger] waiting(changes).contains_key(id) implies !released(
            changes,
        ).contains(waiting(changes)[id]) && named(changes).contains(waiting(changes)[id]) by {
            let h = waiting(changes)[id];
            if conns.contains_key(id) && conns[id] == h {
                assert(names.contains(h));
            } else if gone.contains(h) {
                assert(names.contains(h));
            }
        }
    }
}

/// Whether a change is about the connection of that name.
pub open spec fn concerns(change: Change, id: u128) -> bool {
    match change {
        Change::Named { id: changed, .. } => changed == id,
        Change::Accepted { id: changed } => changed == id,
        Change::Stale { id: changed } => changed == id,
    }
}

/// A connection waits under its name until a client accepts that name, its time is over, or
/// another connection gets the name; what happens to other names makes no difference to it.
pub proof fn lemma_waits_until_taken_out(
    before: Seq<Change>,
    id: u128,
    handle: u64,
    after: Seq<Change>,
)
    requires
        forall|i: int| 0 <= i < after.len() ==> !concerns(#[trigger] after[i], id),
    ensures
        waiting(before.push(Change::Named { id, handle }) + after).contains_key(id),
        waiting(before.push(Change::Named { id, handle }) + after)[id] == handle,
    decreases after.len(),
{
    let start = before.push(Change::Named { id, handle });
    if after.len() == 0 {
        assert(start + after =~= start);
        assert(start.drop_last() =~= before);
    } else {
        assert((start + after).drop_last() =~= start + after.drop_last());
        assert((start + after).last() == after.last());
        assert(!concerns(after[after.len() - 1], id));
        lemma_waits_until_taken_out(before, id, handle, after.drop_last());
    }
}

/// A connection that still waits when its time is over is taken out then, and no other is. One
/// that was taken out before, and whose name was not given again, is not there to be taken out.
pub proof fn lemma_stale_is_taken_out(changes: Seq<Change>, id: u128, other: u128)
    requires
        other != id,
    ensures
        !waiting(changes.push(Change::Stale { id })).contains_key(id),
        waiting(changes.push(Change::Stale { id })).contains_key(other) == waiting(
            changes,
        ).contains_key(other),
        waiting(changes).contains_key(other) ==> waiting(changes.push(Change::Stale { id }))[other]
            == waiting(changes)[other],
        released(changes.push(Change::Stale { id })) == if waiting(changes).contains_key(id) {
            released(changes).push(waiting(changes)[id])
        } else {
            released(changes)
        },
{
    assert(changes.push(Change::Stale { id }).drop_last() =~= changes);
}

} // verus!
