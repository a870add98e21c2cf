//! What a client hears in the course of a session, and in what order.
use crate::laws;
use crate::laws::Move;
use crate::session;
use crate::session::{ActionView, EventView, Phase};
use crate::shared::{ForwardingEndpoint, ServerSays};
use vstd::prelude::*;

verus! {

/// The messages that are sent in the course of the moves.
pub open spec fn messages(phase: Phase, moves: Seq<Move>) -> Seq<ServerSays>
    decreases moves.len(),
{
    if moves.len() == 0 {
        Seq::empty()
    } else {
        let first = session::step(phase, moves[0].server, moves[0].event);
        (match first.action {
            ActionView::Send(message) => seq![message],
            _ => Seq::empty(),
        }) + messages(first.phase, moves.drop_first())
    }
}

/// Heartbeats, with at most one announcement behind each.
pub open spec fn are_heartbeats(messages: Seq<ServerSays>) -> bool {
    forall|i: int|
        0 <= i < messages.len() ==> {
            ||| #[trigger] messages[i] is Heartbeat
            ||| messages[i] is Connection && i > 0 && messages[i - 1] is Heartbeat
        }
}

/// Nothing, or an error and nothing else, or the endpoint once and first, and heartbeats with
/// their announcements behind it.
pub open spec fn is_conversation(messages: Seq<ServerSays>) -> bool {
    ||| messages.len() == 0
    ||| messages.len() == 1 && messages[0] is Error
    ||| messages[0] is Hello && are_heartbeats(messages.drop_first())
}

spec fn heartbeat() -> Seq<ServerSays> {
    seq![ServerSays::Heartbeat]
}

/// What can still be sent in a phase.
spec fn may_follow(phase: Phase, messages: Seq<ServerSays>) -> bool {
    match phase {
        Phase::Opened
        | Phase::Authenticating
        | Phase::Requesting
        | Phase::Drawing { .. }
        | Phase::BindingTcp(_)
        | Phase::BindingHttp => is_conversation(messages),
        Phase::Greeting(_) | Phase::Announcing(_) => are_heartbeats(messages),
        Phase::Pinging(_)
        | Phase::Listening(_)
        | Phase::Naming { .. }
        | Phase::Scheduling { .. } => are_heartbeats(heartbeat() + messages),
        Phase::Refusing | Phase::Forwarding | Phase::Cleaning | Phase::Closed => messages.len()
            == 0,
    }
}

proof fn lemma_may_follow(phase: Phase, moves: Seq<Move>)
    requires
        laws::possible(phase, moves),
    ensures
        may_follow(phase, messages(phase, moves)),
    decreases moves.len(),
{
    if moves.len() > 0 {
        let first = session::step(phase, moves[0].server, moves[0].event);
        let rest = messages(first.phase, moves.drop_first());
        let all = messages(phase, moves);
        lemma_may_follow(first.phase, moves.drop_first());
        match first.action {
            ActionView::Send(message) => {
                assert(all =~= seq![message] + rest);
                assert(all.drop_first() =~= rest);
                let behind = heartbeat() + all;
                assert forall|i: int| 0 < i < all.len() implies all[i] == rest[i - 1] by {}
                assert forall|i: int| 0 < i < behind.len() implies behind[i] == all[i - 1] by {}
                assert forall|i: int| 0 <= i < rest.len() implies (heartbeat() + rest)[i + 1]
                    == #[trigger] rest[i] by {}
                if message is Heartbeat {
                    assert(all =~= heartbeat() + rest);
                }
            },
            _ => {
                assert(all =~= rest);
                if rest.len() == 0 {
                    assert(heartbeat() + all =~= heartbeat());
                }
            },
        }
    }
}

/// What a client hears: nothing, or an error as the only message, or the endpoint once and first
/// and then heartbeats with at most one announcement behind each. So an error is always the last
/// message and never comes with an endpoint, and no challenge is sent outside of the handshake.
pub proof fn lemma_session_is_conversation(moves: Seq<Move>)
    requires
        laws::possible(Phase::Opened, moves),
    ensures
        is_conversation(messages(Phase::Opened, moves)),
{
    lemma_may_follow(Phase::Opened, moves);
}

/// Once the endpoint was told, only heartbeats follow, with at most one announcement behind each.
pub proof fn lemma_heartbeats_follow_hello(endpoint: ForwardingEndpoint, moves: Seq<Move>)
    requires
        laws::possible(Phase::Greeting(endpoint), moves),
    ensures
        are_heartbeats(messages(Phase::Greeting(endpoint), moves)),
{
    lemma_may_follow(Phase::Greeting(endpoint), moves);
}

/// Whether a session has not yet opened an endpoint.
spec fn is_before_hello(phase: Phase) -> bool {
    phase is Opened || phase is Authenticating || phase is Requesting || phase is Drawing
        || phase is BindingTcp || phase is BindingHttp
}

proof fn lemma_endpoint_stays(phase: Phase, moves: Seq<Move>, endpoint: ForwardingEndpoint)
    requires
        laws::possible(phase, moves),
        laws::forwards(laws::phase_after(phase, moves), endpoint),
    ensures
        is_before_hello(phase) || laws::forwards(phase, endpoint),
        is_before_hello(phase) ==> messages(phase, moves).len() > 0 && messages(phase, moves)[0]
            == ServerSays::Hello(endpoint),
    decreases moves.len(),
{
    if moves.len() > 0 {
        let first = session::step(phase, moves[0].server, moves[0].event);
        lemma_endpoint_stays(first.phase, moves.drop_first(), endpoint);
        if is_before_hello(phase) && is_before_hello(first.phase) {
            assert(messages(phase, moves) =~= messages(first.phase, moves.drop_first()));
        }
    }
}

/// The endpoint that a session forwards is the one that its client was told.
pub proof fn lemma_forwarded_endpoint_was_told(moves: Seq<Move>, endpoint: ForwardingEndpoint)
    requires
        laws::possible(Phase::Opened, moves),
        laws::forwards(laws::phase_after(Phase::Opened, moves), endpoint),
    ensures
        messages(Phase::Opened, moves).len() > 0,
        messages(Phase::Opened, moves)[0] == ServerSays::Hello(endpoint),
{
    lemma_endpoint_stays(Phase::Opened, moves, endpoint);
}

proof fn lemma_port_stays_in_range(phase: Phase, moves: Seq<Move>, port: u16, min: u16, max: u16)
    requires
        laws::possible(phase, moves),
        forall|i: int|
            0 <= i < moves.len() ==> (#[trigger] moves[i]).server.min_port == min
                && moves[i].server.max_port == max,
        laws::forwards(laws::phase_after(phase, moves), ForwardingEndpoint::Tcp(port)),
        is_before_hello(phase),
    ensures
        min <= port <= max,
    decreases moves.len(),
{
    if moves.len() > 0 {
        let first = session::step(phase, moves[0].server, moves[0].event);
        let rest = moves.drop_first();
        assert forall|i: int| 0 <= i < rest.len() implies (#[trigger] rest[i]).server.min_port
            == min && rest[i].server.max_port == max by {
            assert(rest[i] == moves[i + 1]);
        }
        lemma_endpoint_stays(first.phase, rest, ForwardingEndpoint::Tcp(port));
        if is_before_hello(first.phase) {
            lemma_port_stays_in_range(first.phase, rest, port, min, max);
        }
    }
}

/// Only ports of the range are forwarded, whatever the client asks for and the machine picks.
pub proof fn lemma_forwarded_ports_are_allowed(moves: Seq<Move>, port: u16, min: u16, max: u16)
    requires
        laws::possible(Phase::Opened, moves),
        forall|i: int|
            0 <= i < moves.len() ==> (#[trigger] moves[i]).server.min_port == min
                && moves[i].server.max_port == max,
        laws::forwards(laws::phase_after(Phase::Opened, moves), ForwardingEndpoint::Tcp(port)),
    ensures
        min <= port <= max,
{
    lemma_port_stays_in_range(Phase::Opened, moves, port, min, max);
}

proof fn lemma_no_second_handshake(phase: Phase, moves: Seq<Move>)
    requires
        laws::possible(phase, moves),
    ensures
        laws::actions(phase, moves).len() == moves.len(),
        forall|i: int|
            0 <= i < moves.len() && #[trigger] laws::actions(phase, moves)[i] is Handshake ==> i
                == 0 && phase is Opened,
    decreases moves.len(),
{
    if moves.len() > 0 {
        let first = session::step(phase, moves[0].server, moves[0].event);
        let rest = moves.drop_first();
        lemma_no_second_handshake(first.phase, rest);
        assert forall|i: int|
            0 <= i < moves.len() && #[trigger] laws::actions(phase, moves)[i] is Handshake implies i
            == 0 && phase is Opened by {
            if i > 0 {
                assert(laws::actions(phase, moves)[i] == laws::actions(first.phase, rest)[i - 1]);
            }
        }
    }
}

/// A client is authenticated once at most, and before anything else is done.
pub proof fn lemma_handshake_happens_once(moves: Seq<Move>)
    requires
        laws::possible(Phase::Opened, moves),
    ensures
        laws::actions(Phase::Opened, moves).len() == moves.len(),
        forall|i: int|
            0 <= i < moves.len() && #[trigger] laws::actions(Phase::Opened, moves)[i] is Handshake
                ==> i == 0,
{
    lemma_no_second_handshake(Phase::Opened, moves);
}

/// The connections that come in at the endpoint in the course of the moves.
pub open spec fn accepted(phase: Phase, moves: Seq<Move>) -> Seq<u64>
    decreases moves.len(),
{
    if moves.len() == 0 {
        Seq::empty()
    } else {
        let first = session::step(phase, moves[0].server, moves[0].event);
        (match moves[0].event {
            EventView::Accepted(handle) => seq![handle],
            _ => Seq::empty(),
        }) + accepted(first.phase, moves.drop_first())
    }
}

/// The names under which the session puts connections among the waiting ones, and which
/// connections these are.
pub open spec fn registered(phase: Phase, moves: Seq<Move>) -> Seq<(u128, u64)>
    decreases moves.len(),
{
    if moves.len() == 0 {
        Seq::empty()
    } else {
        let first = session::step(phase, moves[0].server, moves[0].event);
        (match (phase, moves[0].event) {
            (Phase::Naming { handle, .. }, EventView::IdDrawn(id)) => seq![(id, handle)],
            _ => Seq::empty(),
        }) + registered(first.phase, moves.drop_first())
    }
}

/// The names that the client is told in the course of the moves.
pub open spec fn announced(phase: Phase, moves: Seq<Move>) -> Seq<u128>
    decreases moves.len(),
{
    if moves.len() == 0 {
        Seq::empty()
    } else {
        let first = session::step(phase, moves[0].server, moves[0].event);
        (match first.action {
            ActionView::Send(ServerSays::Connection(id)) => seq![id],
            _ => Seq::empty(),
        }) + announced(first.phase, moves.drop_first())
    }
}

/// The names of what was registered.
pub open spec fn names(registered: Seq<(u128, u64)>) -> Seq<u128> {
    registered.map_values(|entry: (u128, u64)| entry.0)
}

/// The connections that were registered.
pub open spec fn handles(registered: Seq<(u128, u64)>) -> Seq<u64> {
    registered.map_values(|entry: (u128, u64)| entry.1)
}

/// Whether `late` is `early`, but for one at the end that may still be to come.
pub open spec fn keeps_up<T>(late: Seq<T>, early: Seq<T>) -> bool {
    &&& late.len() <= early.len() <= late.len() + 1
    &&& late == early.take(late.len() as int)
}

/// A connection that has come in and has no name yet.
spec fn unnamed(phase: Phase) -> Seq<u64> {
    match phase {
        Phase::Naming { handle, .. } => seq![handle],
        _ => Seq::empty(),
    }
}

/// A name that the client is yet to be told.
spec fn untold(phase: Phase) -> Seq<u128> {
    match phase {
        Phase::Scheduling { id, .. } => seq![id],
        _ => Seq::empty(),
    }
}

proof fn lemma_keeps_up(phase: Phase, moves: Seq<Move>)
    requires
        laws::possible(phase, moves),
    ensures
        keeps_up(
            handles(registered(phase, moves)),
            unnamed(phase) + accepted(phase, moves),
        ),
        keeps_up(
            announced(phase, moves),
            untold(phase) + names(registered(phase, moves)),
        ),
    decreases moves.len(),
{
    if moves.len() == 0 {
        assert(handles(registered(phase, moves)) =~= (unnamed(phase) + accepted(phase, moves)).take(
            0,
        ));
        assert(announced(phase, moves) =~= (untold(phase) + names(registered(phase, moves))).take(
            0,
        ));
    } else {
        let first = session::step(phase, moves[0].server, moves[0].event);
        let rest = moves.drop_first();
        lemma_keeps_up(first.phase, rest);
        let came = unnamed(phase) + accepted(phase, moves);
        let came_rest = unnamed(first.phase) + accepted(first.phase, rest);
        let named = handles(registered(phase, moves));
        let named_rest = handles(registered(first.phase, rest));
        match (phase, moves[0].event) {
            (Phase::Naming { handle, .. }, EventView::IdDrawn(id)) => {
                assert(came =~= seq![handle] + came_rest);
                assert(named =~= seq![handle] + named_rest);
            },
            _ => {
                assert(came =~= came_rest);
                assert(named =~= named_rest);
            },
        }
        assert(named =~= came.take(named.len() as int));
        let known = untold(phase) + names(registered(phase, moves));
        let known_rest = untold(first.phase) + names(registered(first.phase, rest));
        let told = announced(phase, moves);
        let told_rest = announced(first.phase, rest);
        match phase {
            Phase::Scheduling { id, .. } => {
                assert(known =~= seq![id] + known_rest);
                assert(told =~= seq![id] + told_rest);
            },
            _ => {
                assert(known =~= known_rest);
                assert(told =~= told_rest);
            },
        }
        assert(told =~= known.take(told.len() as int));
    }
}

/// Each connection that comes in is put among the waiting ones once, under a name of its own
/// draw, and the client is told each of these names once and no other; both in the order in which
/// the connections came in. At most one connection is still to be named, and one name to be told.
pub proof fn lemma_connections_are_announced_in_order(moves: Seq<Move>)
    requires
        laws::possible(Phase::Opened, moves),
    ensures
        keeps_up(handles(registered(Phase::Opened, moves)), accepted(Phase::Opened, moves)),
        keeps_up(announced(Phase::Opened, moves), names(registered(Phase::Opened, moves))),
{
    lemma_keeps_up(Phase::Opened, moves);
    assert(unnamed(Phase::Opened) + accepted(Phase::Opened, moves) =~= accepted(
        Phase::Opened,
        moves,
    ));
    assert(untold(Phase::Opened) + names(registered(Phase::Opened, moves)) =~= names(
        registered(Phase::Opened, moves),
    ));
}

} // verus!
