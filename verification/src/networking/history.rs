//! What holds of the registry over whole event logs.

use crate::networking::client::ClientId;
use crate::networking::connection::{
    frame_events, lemma_frames_change_no_client, session_events,
};
use crate::networking::frame::InboundFrame;
use crate::networking::outbound::DeliveryOutcome;
use crate::networking::registry::{
    replay, replay_from, reports, step, ServerNetworkingAction, ServerNetworkingState,
};
use crate::networking::routing::{targets, RoutingPolicy};
use serde_json::Value;
use tokio::sync::mpsc::Sender;
use vstd::prelude::*;

verus! {

/// Whether the event is the connect of `id`.
pub open spec fn connects(event: ServerNetworkingAction, id: ClientId) -> bool {
    event matches ServerNetworkingAction::ClientConnected(who, _) && who == id
}

/// Whether the event is the disconnect of `id`.
pub open spec fn disconnects(event: ServerNetworkingAction, id: ClientId) -> bool {
    event matches ServerNetworkingAction::ClientDisconnected(who) && who == id
}

/// Whether `id` is connected at the end of `log`: it connected at some
/// point and has not disconnected since.
pub open spec fn connected_at_end(log: Seq<ServerNetworkingAction>, id: ClientId) -> bool {
    exists|i: int|
        0 <= i < log.len() && #[trigger] connects(log[i], id) && forall|j: int|
            i < j < log.len() ==> !#[trigger] disconnects(log[j], id)
}

/// After any log of events, a registry that started empty holds exactly
/// the clients that are connected at the end of the log: none is missing
/// and none is left over.
pub proof fn lemma_registry_holds_the_connected(log: Seq<ServerNetworkingAction>)
    ensures
        forall|id: ClientId| #[trigger] replay(log).contains_key(id) <==> connected_at_end(log, id),
    decreases log.len(),
{
    if log.len() > 0 {
        let front = log.drop_last();
        let end = log.len() - 1;
        lemma_registry_holds_the_connected(front);
        assert forall|id: ClientId| #[trigger]
            replay(log).contains_key(id) <==> connected_at_end(log, id) by {
            assert(replay(front).contains_key(id) <==> connected_at_end(front, id));
            if connects(log[end], id) {
            } else if disconnects(log[end], id) {
                if connected_at_end(log, id) {
                    let i = choose|i: int|
                        0 <= i < log.len() && #[trigger] connects(log[i], id) && forall|j: int|
                            i < j < log.len() ==> !#[trigger] disconnects(log[j], id);
                    assert(!disconnects(log[end], id));
                }
            } else {
                if connected_at_end(front, id) {
                    let i = choose|i: int|
                        0 <= i < front.len() && #[trigger] connects(front[i], id) && forall|j: int|
                            i < j < front.len() ==> !#[trigger] disconnects(front[j], id);
                    assert(connects(log[i], id));
                    assert forall|j: int| i < j < log.len() implies !#[trigger] disconnects(
                        log[j],
                        id,
                    ) by {
                        if j < end {
                            assert(!disconnects(front[j], id));
                        }
                    }
                }
                if connected_at_end(log, id) {
                    let i = choose|i: int|
                        0 <= i < log.len() && #[trigger] connects(log[i], id) && forall|j: int|
                            i < j < log.len() ==> !#[trigger] disconnects(log[j], id);
                    assert(connects(front[i], id));
                    assert forall|j: int| i < j < front.len() implies !#[trigger] disconnects(
                        front[j],
                        id,
                    ) by {
                        assert(!disconnects(log[j], id));
                    }
                }
            }
        }
    }
}

/// Whether the event at `at` is the latest thing that `log` says of `id`,
/// and is a connect.
pub open spec fn latest_connect(log: Seq<ServerNetworkingAction>, id: ClientId, at: int) -> bool {
    &&& 0 <= at < log.len()
    &&& connects(log[at], id)
    &&& forall|j: int|
        #![trigger connects(log[j], id)]
        #![trigger disconnects(log[j], id)]
        at < j < log.len() ==> !connects(log[j], id) && !disconnects(log[j], id)
}

/// The handle that the registry holds for a connected client is the one
/// that its latest connect brought.
pub proof fn lemma_registry_holds_the_latest_handle(
    log: Seq<ServerNetworkingAction>,
    id: ClientId,
    at: int,
)
    requires
        latest_connect(log, id, at),
    ensures
        replay(log).contains_key(id),
        log[at] == ServerNetworkingAction::ClientConnected(id, replay(log)[id]),
    decreases log.len(),
{
    let end = log.len() - 1;
    if at < end {
        let front = log.drop_last();
        assert(!connects(log[end], id) && !disconnects(log[end], id));
        assert(connects(front[at], id));
        assert forall|j: int| at < j < front.len() implies !connects(front[j], id) && !disconnects(
            front[j],
            id,
        ) by {
            assert(!connects(log[j], id) && !disconnects(log[j], id));
        }
        lemma_registry_holds_the_latest_handle(front, id, at);
    }
}

/// A message from a client that the registry does not hold is a no-op: the
/// clients stay as they were, no entry is made for the sender, and
/// nothing is delivered.
pub proof fn lemma_message_from_unknown_client_is_dropped(
    policy: RoutingPolicy,
    clients: Map<ClientId, Sender<Value>>,
    sender: ClientId,
    payload: Value,
    report: Seq<(ClientId, DeliveryOutcome)>,
)
    requires
        !clients.contains_key(sender),
        reports(policy, clients, ServerNetworkingAction::ReceivedMessage(sender, payload), report),
    ensures
        step(clients, ServerNetworkingAction::ReceivedMessage(sender, payload)) == clients,
        !step(clients, ServerNetworkingAction::ReceivedMessage(sender, payload)).contains_key(sender),
        report.len() == 0,
{
    if report.len() > 0 {
        assert(targets(report)[0] == report[0].0);
        assert(targets(report).to_set().contains(report[0].0));
    }
}

/// A disconnect removes the client, and a disconnect of a client that is
/// not there changes nothing: so a second disconnect of the same client is
/// a no-op.
pub proof fn lemma_repeated_disconnect_is_a_no_op(clients: Map<ClientId, Sender<Value>>, id: ClientId)
    ensures
        !step(clients, ServerNetworkingAction::ClientDisconnected(id)).contains_key(id),
        !clients.contains_key(id) ==> step(clients, ServerNetworkingAction::ClientDisconnected(id))
            == clients,
        step(
            step(clients, ServerNetworkingAction::ClientDisconnected(id)),
            ServerNetworkingAction::ClientDisconnected(id),
        ) == step(clients, ServerNetworkingAction::ClientDisconnected(id)),
{
    let once = clients.remove(id);
    assert(once.remove(id) =~= once);
    if !clients.contains_key(id) {
        assert(once =~= clients);
    }
}

/// Under the broadcast policy a message from a connected client is
/// offered to every other connected client, once each, and never to its
/// sender: with `n` other clients connected the report has `n` entries.
pub proof fn lemma_broadcast_reaches_exactly_the_others(
    clients: Map<ClientId, Sender<Value>>,
    sender: ClientId,
    payload: Value,
    report: Seq<(ClientId, DeliveryOutcome)>,
)
    requires
        clients.dom().finite(),
        clients.contains_key(sender),
        reports(
            RoutingPolicy::BroadcastToOthers,
            clients,
            ServerNetworkingAction::ReceivedMessage(sender, payload),
            report,
        ),
    ensures
        report.len() == clients.dom().len() - 1,
        !targets(report).contains(sender),
        forall|id: ClientId|
            clients.contains_key(id) && id != sender ==> #[trigger] targets(report).contains(id),
        forall|id: ClientId| #[trigger] targets(report).contains(id) ==> clients.contains_key(id),
        targets(report).no_duplicates(),
{
    let named = targets(report);
    assert(named.to_set() == clients.dom().remove(sender));
    named.unique_seq_to_set();
    assert forall|id: ClientId| named.contains(id) <==> named.to_set().contains(id) by {}
}

/// The clients of a registry depend on the log alone: two registries that
/// each started empty and handled the same log hold the same clients with
/// the same handles, whatever became of the deliveries.
pub proof fn lemma_same_log_same_clients(
    first: ServerNetworkingState,
    second: ServerNetworkingState,
    log: Seq<ServerNetworkingAction>,
)
    requires
        first@ == replay(log),
        second@ == replay(log),
    ensures
        first@ == second@,
        first.connected() == second.connected(),
{
}

/// Handling a log in two parts is handling it whole.
pub proof fn lemma_replay_in_parts(
    clients: Map<ClientId, Sender<Value>>,
    earlier: Seq<ServerNetworkingAction>,
    later: Seq<ServerNetworkingAction>,
)
    ensures
        replay_from(clients, earlier + later) == replay_from(replay_from(clients, earlier), later),
    decreases later.len(),
{
    if later.len() == 0 {
        assert(earlier + later =~= earlier);
    } else {
        lemma_replay_in_parts(clients, earlier, later.drop_last());
        assert((earlier + later).drop_last() =~= earlier + later.drop_last());
    }
}

/// A client and its entry in the registry are born together and die
/// together: once the registry has handled the events of a whole
/// connection, from its connect to its disconnect, it holds the clients it
/// held before, without that one.
pub proof fn lemma_session_leaves_no_client(
    clients: Map<ClientId, Sender<Value>>,
    id: ClientId,
    handle: Sender<Value>,
    frames: Seq<InboundFrame>,
)
    ensures
        replay_from(clients, session_events(id, handle, frames)) == clients.remove(id),
{
    let opening = seq![ServerNetworkingAction::ClientConnected(id, handle)];
    let messages = frame_events(id, frames);
    let session = session_events(id, handle, frames);
    assert(session.drop_last() =~= opening + messages);
    assert(session.last() == ServerNetworkingAction::ClientDisconnected(id));
    lemma_replay_in_parts(clients, opening, messages);
    assert(opening.drop_last() =~= Seq::<ServerNetworkingAction>::empty());
    assert(replay_from(clients, opening) == clients.insert(id, handle)) by {
        assert(replay_from(clients, opening.drop_last()) == clients);
    }
    lemma_frames_change_no_client(clients.insert(id, handle), id, frames);
    assert(clients.insert(id, handle).remove(id) =~= clients.remove(id));
}

} // verus!
