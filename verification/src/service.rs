//! What holds of the whole server: the listener of the control port, and the sessions that it
//! starts, which run side by side on one server.
use crate::laws;
use crate::laws::{Change, Move};
use crate::server;
use crate::server::{ListenAction, ListenEvent};
use crate::session;
use crate::session::{EventView, Phase, ServerState, STALE_AFTER_MS};
use crate::shared::{ClientSays, CONTROL_PORT};
use vstd::prelude::*;

verus! {

/// What the control server does on the events, one after the other.
pub open spec fn listen_actions(server: ServerState, events: Seq<ListenEvent>) -> Seq<
    ListenAction,
> {
    Seq::new(events.len(), |i: int| server::listen_action(server, events[i]))
}

/// Whether the event is one of those that the action leads to.
pub open spec fn leads_to(action: ListenAction, event: ListenEvent) -> bool {
    match action {
        ListenAction::Bind { .. } => event is Bound || event is BindFailed,
        ListenAction::Accept | ListenAction::ServeAndAccept => event is Accepted
            || event is AcceptFailed,
        ListenAction::Stop => false,
    }
}

/// Whether the events can happen to a control server, from its start on.
pub open spec fn is_run(server: ServerState, events: Seq<ListenEvent>) -> bool {
    &&& events.len() > 0 ==> events[0] is Started
    &&& forall|i: int|
        0 < i < events.len() ==> leads_to(
            listen_actions(server, events)[i - 1],
            #[trigger] events[i],
        )
}

/// Each client that connects gets one session, and nobody else gets one. Only a listener that
/// fails stops the server: no client and no session does.
pub proof fn lemma_each_client_is_served(server: ServerState, events: Seq<ListenEvent>)
    ensures
        listen_actions(server, events).len() == events.len(),
        forall|i: int|
            0 <= i < events.len() ==> {
                let action = #[trigger] listen_actions(server, events)[i];
                &&& action is ServeAndAccept <==> events[i] is Accepted
                &&& action is Stop <==> events[i] is BindFailed || events[i] is AcceptFailed
            },
{
}

/// The control port is bound first and once, on the address for it. Then one client after the
/// other is accepted, until the listener fails; with that the run is over.
pub proof fn lemma_control_server_runs(server: ServerState, events: Seq<ListenEvent>)
    requires
        is_run(server, events),
    ensures
        forall|i: int|
            0 <= i < events.len() ==> {
                let action = #[trigger] listen_actions(server, events)[i];
                &&& action is Bind <==> i == 0
                &&& action is Bind ==> action == (ListenAction::Bind {
                    addr: server.bind_addr,
                    port: CONTROL_PORT,
                })
                &&& action is Stop ==> i == events.len() - 1
                &&& i == 1 ==> events[i] is Bound || events[i] is BindFailed
                &&& i > 1 ==> events[i] is Accepted || events[i] is AcceptFailed
            },
{
    assert forall|i: int| 0 <= i < events.len() implies {
        let action = #[trigger] listen_actions(server, events)[i];
        &&& action is Bind <==> i == 0
        &&& action is Stop ==> i == events.len() - 1
        &&& i == 1 ==> events[i] is Bound || events[i] is BindFailed
        &&& i > 1 ==> events[i] is Accepted || events[i] is AcceptFailed
    } by {
        lemma_bound_once(server, events, i);
        if i + 1 < events.len() {
            assert(leads_to(listen_actions(server, events)[i + 1 - 1], events[i + 1]));
        }
    }
}

proof fn lemma_bound_once(server: ServerState, events: Seq<ListenEvent>, i: int)
    requires
        is_run(server, events),
        0 <= i < events.len(),
    ensures
        events[i] is Started <==> i == 0,
        i == 1 ==> events[i] is Bound || events[i] is BindFailed,
        i > 1 ==> events[i] is Accepted || events[i] is AcceptFailed,
    decreases i,
{
    if i > 0 {
        lemma_bound_once(server, events, i - 1);
        assert(leads_to(listen_actions(server, events)[i - 1], events[i]));
    }
}

/// A server that runs.
#[verifier::ext_equal]
pub struct Service {
    /// The one server that all sessions share.
    pub server: ServerState,
    /// What the listener does, if it was started.
    pub listener: Option<ListenAction>,
    /// The sessions, in the order in which their clients connected.
    pub sessions: Seq<Phase>,
}

/// Something that happens to a server that runs.
pub enum Happening {
    /// To its listener.
    Listener(ListenEvent),
    /// To one of its sessions.
    Session { index: nat, event: EventView },
    /// The time of the connection of that name is over.
    Stale { id: u128 },
}

impl Service {
    /// A server that is not yet started.
    pub open spec fn new(server: ServerState) -> Service {
        Service { server, listener: None, sessions: Seq::empty() }
    }

    /// Whether this can happen next.
    pub open spec fn expects(self, happening: Happening) -> bool {
        match happening {
            Happening::Listener(event) => match self.listener {
                None => event is Started,
                Some(action) => leads_to(action, event),
            },
            Happening::Session { index, event } => index < self.sessions.len() && session::expects(
                self.sessions[index as int],
                self.server,
                event,
            ),
            Happening::Stale { .. } => true,
        }
    }

    /// The server after it happened.
    pub open spec fn next(self, happening: Happening) -> Service {
        match happening {
            Happening::Listener(event) => {
                let action = server::listen_action(self.server, event);
                Service {
                    listener: Some(action),
                    sessions: if action is ServeAndAccept {
                        self.sessions.push(Phase::Opened)
                    } else {
                        self.sessions
                    },
                    ..self
                }
            },
            Happening::Session { index, event } => {
                let step = session::step(self.sessions[index as int], self.server, event);
                Service {
                    server: step.server,
                    sessions: self.sessions.update(index as int, step.phase),
                    ..self
                }
            },
            Happening::Stale { id } => Service { server: session::without(self.server, id), ..self },
        }
    }
}

/// The server after all that happened to it, from its start on.
pub open spec fn service_after(server: ServerState, history: Seq<Happening>) -> Service
    decreases history.len(),
{
    if history.len() == 0 {
        Service::new(server)
    } else {
        service_after(server, history.drop_last()).next(history.last())
    }
}

/// Whether all of this can happen to the server, in this order.
pub open spec fn is_history(server: ServerState, history: Seq<Happening>) -> bool
    decreases history.len(),
{
    history.len() > 0 ==> {
        &&& is_history(server, history.drop_last())
        &&& service_after(server, history.drop_last()).expects(history.last())
    }
}

/// What happened to the listener.
pub open spec fn listener_events(history: Seq<Happening>) -> Seq<ListenEvent>
    decreases history.len(),
{
    if history.len() == 0 {
        Seq::empty()
    } else {
        let before = listener_events(history.drop_last());
        match history.last() {
            Happening::Listener(event) => before.push(event),
            _ => before,
        }
    }
}

/// How many clients connected.
pub open spec fn clients(history: Seq<Happening>) -> nat
    decreases history.len(),
{
    if history.len() == 0 {
        0
    } else {
        clients(history.drop_last()) + (if history.last()
            == Happening::Listener(ListenEvent::Accepted) {
            1nat
        } else {
            0
        })
    }
}

/// What happened to one session, each time with the server as the session found it.
pub open spec fn moves_of(server: ServerState, history: Seq<Happening>, index: nat) -> Seq<Move>
    decreases history.len(),
{
    if history.len() == 0 {
        Seq::empty()
    } else {
        let before = history.drop_last();
        match history.last() {
            Happening::Session { index: moved, event } if moved == index => moves_of(
                server,
                before,
                index,
            ).push(Move { server: service_after(server, before).server, event }),
            _ => moves_of(server, before, index),
        }
    }
}

/// What happened to the waiting connections.
pub open spec fn changes(server: ServerState, history: Seq<Happening>) -> Seq<Change>
    decreases history.len(),
{
    if history.len() == 0 {
        Seq::empty()
    } else {
        let before = history.drop_last();
        let service = service_after(server, before);
        match history.last() {
            Happening::Listener(_) => changes(server, before),
            Happening::Session { index, event } => match (service.sessions[index as int], event) {
                (Phase::Naming { handle, .. }, EventView::IdDrawn(id)) => changes(
                    server,
                    before,
                ).push(Change::Named { id, handle }),
                (
                    Phase::Requesting,
                    EventView::Received(Some(ClientSays::Accept(id))),
                ) => changes(server, before).push(Change::Accepted { id }),
                _ => changes(server, before),
            },
            Happening::Stale { id } => changes(server, before).push(Change::Stale { id }),
        }
    }
}

/// One more move at the end.
proof fn lemma_one_more_move(phase: Phase, moves: Seq<Move>, last: Move)
    requires
        laws::possible(phase, moves),
        session::expects(laws::phase_after(phase, moves), last.server, last.event),
    ensures
        laws::possible(phase, moves.push(last)),
        laws::phase_after(phase, moves.push(last)) == session::step(
            laws::phase_after(phase, moves),
            last.server,
            last.event,
        ).phase,
    decreases moves.len(),
{
    reveal_with_fuel(laws::possible, 2);
    reveal_with_fuel(laws::phase_after, 2);
    if moves.len() > 0 {
        let first = session::step(phase, moves[0].server, moves[0].event);
        lemma_one_more_move(first.phase, moves.drop_first(), last);
        assert(moves.push(last).drop_first() =~= moves.drop_first().push(last));
    }
}

/// Each client that connects has one session, whatever the other sessions do meanwhile: what
/// happens to it is a run of moves that is possible from the beginning of a session on. So every
/// law of a single session holds of each of them, though they all share one server.
pub proof fn lemma_each_client_has_its_session(
    server: ServerState,
    history: Seq<Happening>,
    index: nat,
)
    requires
        is_history(server, history),
    ensures
        service_after(server, history).sessions.len() == clients(history),
        index < clients(history) ==> {
            &&& laws::possible(Phase::Opened, moves_of(server, history, index))
            &&& service_after(server, history).sessions[index as int] == laws::phase_after(
                Phase::Opened,
                moves_of(server, history, index),
            )
        },
        index >= clients(history) ==> moves_of(server, history, index).len() == 0,
    decreases history.len(),
{
    if history.len() > 0 {
        let before = history.drop_last();
        lemma_each_client_has_its_session(server, before, index);
        if let Happening::Session { index: moved, event } = history.last() {
            if moved == index {
                lemma_one_more_move(
                    Phase::Opened,
                    moves_of(server, before, index),
                    Move { server: service_after(server, before).server, event },
                );
            }
        }
    }
}

/// The end of a session, with an error or without, is the end of that session only, and so is
/// whatever else happens to it: the listener and the other sessions stay as they are, and the
/// listener goes on to accept.
pub proof fn lemma_sessions_leave_the_others_alone(
    service: Service,
    index: nat,
    event: EventView,
    other: nat,
    listened: ListenEvent,
)
    requires
        service.expects(Happening::Session { index, event }),
    ensures
        ({
            let after = service.next(Happening::Session { index, event });
            &&& after.listener == service.listener
            &&& after.sessions.len() == service.sessions.len()
            &&& other != index && other < service.sessions.len() ==> after.sessions[other as int]
                == service.sessions[other as int]
            &&& after.expects(Happening::Listener(listened)) == service.expects(
                Happening::Listener(listened),
            )
            &&& after.server == (ServerState { conns: after.server.conns, ..service.server })
        }),
{
    laws::lemma_steps_keep_the_rest(service.sessions[index as int], service.server, event);
}

/// The events of the listener are a run of the control server, whatever the sessions do.
pub proof fn lemma_listener_runs_on(server: ServerState, history: Seq<Happening>)
    requires
        is_history(server, history),
    ensures
        is_run(server, listener_events(history)),
        service_after(server, history).listener == if listener_events(history).len() == 0 {
            None
        } else {
            Some(listen_actions(server, listener_events(history)).last())
        },
        service_after(server, history).server == (ServerState {
            conns: service_after(server, history).server.conns,
            ..server
        }),
    decreases history.len(),
{
    if history.len() > 0 {
        let before = history.drop_last();
        let service = service_after(server, before);
        lemma_listener_runs_on(server, before);
        match history.last() {
            Happening::Listener(event) => {
                let events = listener_events(before);
                let all = listener_events(history);
                assert forall|i: int| 0 < i < all.len() implies leads_to(
                    listen_actions(server, all)[i - 1],
                    #[trigger] all[i],
                ) by {
                    assert(listen_actions(server, all)[i - 1] == listen_actions(
                        server,
                        events,
                    )[i - 1]);
                    if i < events.len() {
                        assert(all[i] == events[i]);
                    }
                }
            },
            Happening::Session { index, event } => {
                laws::lemma_steps_keep_the_rest(
                    service.sessions[index as int],
                    service.server,
                    event,
                );
            },
            Happening::Stale { .. } => {},
        }
    }
}

/// The connections that wait are those that the sessions named, less those that were accepted or
/// went stale: all sessions and timers work on the same ones.
pub proof fn lemma_sessions_share_the_waiting(server: ServerState, history: Seq<Happening>)
    requires
        is_history(server, history),
        server.conns == Map::<u128, u64>::empty(),
    ensures
        service_after(server, history).server.conns == laws::waiting(changes(server, history)),
    decreases history.len(),
{
    if history.len() > 0 {
        let before = history.drop_last();
        let service = service_after(server, before);
        let all = changes(server, history);
        lemma_sessions_share_the_waiting(server, before);
        if all.len() > changes(server, before).len() {
            assert(all.drop_last() =~= changes(server, before));
        }
        if let Happening::Session { index, event } = history.last() {
            laws::lemma_steps_keep_the_rest(service.sessions[index as int], service.server, event);
        }
    }
}

/// Whether the changes happened at these times, in this order, and no timer rang before its time:
/// where the time of a name was over, it was given out [`STALE_AFTER_MS`] before, or longer ago.
pub open spec fn keeps_time(changes: Seq<Change>, times: Seq<nat>) -> bool {
    &&& times.len() == changes.len()
    &&& forall|i: int, j: int|
        #![trigger times[i], times[j]]
        0 <= i <= j < times.len() ==> times[i] <= times[j]
    &&& forall|j: int, id: u128|
        0 <= j < changes.len() && #[trigger] changes[j] == (#[trigger] stale(id)) ==> exists|
            i: int,
        |
            0 <= i < j && #[trigger] names(changes[i], id) && times[i] + STALE_AFTER_MS <= times[j]
}

/// The time of that name is over.
pub open spec fn stale(id: u128) -> Change {
    Change::Stale { id }
}

/// Whether the change gives out that name.
pub open spec fn names(change: Change, id: u128) -> bool {
    change matches Change::Named { id: named, .. } && named == id
}

/// Whether every timer rang whose time was over by now.
pub open spec fn timers_rang(changes: Seq<Change>, times: Seq<nat>, now: nat) -> bool {
    forall|i: int, id: u128|
        0 <= i < changes.len() && #[trigger] names(changes[i], id) && times[i] + STALE_AFTER_MS
            <= now ==> exists|j: int| i < j < changes.len() && #[trigger] changes[j] == stale(id)
}

/// Until its time is over, a connection waits under its name unless a client accepts it.
pub proof fn lemma_waits_its_time(
    changes: Seq<Change>,
    times: Seq<nat>,
    at: int,
    id: u128,
    handle: u64,
)
    requires
        keeps_time(changes, times),
        0 <= at < changes.len(),
        changes[at] == (Change::Named { id, handle }),
        forall|i: int| 0 <= i < changes.len() && i != at ==> !names(#[trigger] changes[i], id),
        forall|i: int| at < i < changes.len() ==> #[trigger] changes[i] != (Change::Accepted { id }),
        times.last() < times[at] + STALE_AFTER_MS,
    ensures
        laws::waiting(changes).contains_key(id),
        laws::waiting(changes)[id] == handle,
{
    let before = changes.take(at);
    let after = changes.skip(at + 1);
    assert forall|i: int| 0 <= i < after.len() implies !laws::concerns(#[trigger] after[i], id) by {
        let j = i + at + 1;
        assert(after[i] == changes[j]);
        if changes[j] == stale(id) {
            let k = choose|k: int|
                0 <= k < j && #[trigger] names(changes[k], id) && times[k] + STALE_AFTER_MS
                    <= times[j];
            assert(k == at);
            assert(times[j] <= times[times.len() - 1]);
        }
    }
    laws::lemma_waits_until_taken_out(before, id, handle, after);
    assert(before.push(Change::Named { id, handle }) + after =~= changes);
}

/// Once its time is over, a connection does not wait any more, whether its session still runs or
/// not.
pub proof fn lemma_is_gone_after_its_time(
    changes: Seq<Change>,
    times: Seq<nat>,
    now: nat,
    at: int,
    id: u128,
)
    requires
        timers_rang(changes, times, now),
        0 <= at < changes.len(),
        names(changes[at], id),
        forall|i: int| 0 <= i < changes.len() && i != at ==> !names(#[trigger] changes[i], id),
        times[at] + STALE_AFTER_MS <= now,
    ensures
        !laws::waiting(changes).contains_key(id),
{
    let j = choose|j: int| at < j < changes.len() && #[trigger] changes[j] == stale(id);
    lemma_stays_gone(changes, j, id);
}

proof fn lemma_stays_gone(changes: Seq<Change>, at: int, id: u128)
    requires
        0 <= at < changes.len(),
        changes[at] == stale(id),
        forall|i: int| at < i < changes.len() ==> !names(#[trigger] changes[i], id),
    ensures
        !laws::waiting(changes).contains_key(id),
    decreases changes.len(),
{
    if at < changes.len() - 1 {
        assert(!names(changes[changes.len() - 1], id));
        lemma_stays_gone(changes.drop_last(), at, id);
    }
}

/// The control server binds its port on its address when it starts, accepts once it is bound,
/// serves each client that connects and accepts the next, and stops when the listener fails.
pub proof fn lemma_control_server_acts(server: ServerState)
    ensures
        server::listen_action(server, ListenEvent::Started) == (ListenAction::Bind {
            addr: server.bind_addr,
            port: 7835,
        }),
        server::listen_action(server, ListenEvent::Bound) == ListenAction::Accept,
        server::listen_action(server, ListenEvent::Accepted) == ListenAction::ServeAndAccept,
        server::listen_action(server, ListenEvent::BindFailed) == ListenAction::Stop,
        server::listen_action(server, ListenEvent::AcceptFailed) == ListenAction::Stop,
{
}

} // verus!
