//! The registry: the one owner of the map of connected clients.
//!
//! Connection handlers never touch the map. They send events, and the
//! registry handles them one at a time, in the order they arrive.

use crate::networking::client::ClientId;
use crate::networking::outbound::{offer, DeliveryOutcome};
use crate::networking::routing::{
    lemma_others, others, recipient_set, recipients, route, targets, RoutingPolicy,
};
use serde_json::Value;
use std::collections::HashMap;
use tokio::sync::mpsc::Sender;
use vstd::prelude::*;
use vstd::std_specs::iter::IteratorSpec;

verus! {

broadcast use vstd::std_specs::hash::group_hash_axioms;

/// How many events the queue in front of the registry holds.
pub const EVENT_QUEUE_CAPACITY: usize = 100;

/// What a connection handler tells the registry.
#[derive(Debug)]
pub enum ServerNetworkingAction {
    /// A connection is open; the handle is the sending half of its
    /// outbound queue.
    ClientConnected(ClientId, Sender<Value>),
    /// A connected client sent a payload.
    ReceivedMessage(ClientId, Value),
    /// A connection is gone.
    ClientDisconnected(ClientId),
}

/// The clients of the registry after one event.
///
/// A connect inserts the client with its handle, and replaces the handle
/// of a client that is already there. A disconnect removes the client. A
/// message changes nothing.
pub open spec fn step(
    clients: Map<ClientId, Sender<Value>>,
    event: ServerNetworkingAction,
) -> Map<ClientId, Sender<Value>> {
    match event {
        ServerNetworkingAction::ClientConnected(id, handle) => clients.insert(id, handle),
        ServerNetworkingAction::ReceivedMessage(_, _) => clients,
        ServerNetworkingAction::ClientDisconnected(id) => clients.remove(id),
    }
}

/// The clients of the registry after the events of `log`, in order.
pub open spec fn replay_from(
    clients: Map<ClientId, Sender<Value>>,
    log: Seq<ServerNetworkingAction>,
) -> Map<ClientId, Sender<Value>>
    decreases log.len(),
{
    if log.len() == 0 {
        clients
    } else {
        step(replay_from(clients, log.drop_last()), log.last())
    }
}

/// The clients of a registry that started empty and handled `log`.
pub open spec fn replay(log: Seq<ServerNetworkingAction>) -> Map<ClientId, Sender<Value>> {
    replay_from(Map::empty(), log)
}

/// What the report of one event holds, given the clients before it.
///
/// A message is offered once to each recipient that routing names and to
/// nobody else, and every recipient has a queue. Other events deliver
/// nothing.
pub open spec fn reports(
    policy: RoutingPolicy,
    clients: Map<ClientId, Sender<Value>>,
    event: ServerNetworkingAction,
    report: Seq<(ClientId, DeliveryOutcome)>,
) -> bool {
    match event {
        ServerNetworkingAction::ReceivedMessage(sender, _) => {
            &&& targets(report).no_duplicates()
            &&& targets(report).to_set() == recipient_set(policy, sender, clients.dom())
            &&& forall|i: int|
                0 <= i < report.len() ==> (#[trigger] report[i]).1 != DeliveryOutcome::NotConnected
        },
        _ => report.len() == 0,
    }
}

/// The state of the registry: each connected client with the handle of its
/// outbound queue, and the routing policy.
pub struct ServerNetworkingState {
    clients: HashMap<u128, Sender<Value>>,
    policy: RoutingPolicy,
}

impl View for ServerNetworkingState {
    type V = Map<ClientId, Sender<Value>>;

    closed spec fn view(&self) -> Map<ClientId, Sender<Value>> {
        Map::new(
            |id: ClientId| self.clients@.contains_key(id.uuid),
            |id: ClientId| self.clients@[id.uuid],
        )
    }
}

impl ServerNetworkingState {
    /// The routing policy of the registry.
    pub closed spec fn routing(&self) -> RoutingPolicy {
        self.policy
    }

    /// The connected clients.
    pub open spec fn connected(&self) -> Set<ClientId> {
        self@.dom()
    }

    /// A registry holds finitely many clients.
    pub proof fn lemma_finitely_many_clients(&self)
        ensures
            self.connected().finite(),
    {
        let key_to_id = |key: u128| ClientId { uuid: key };
        self.clients@.dom().lemma_map_finite(key_to_id);
        assert forall|id: ClientId| self@.dom().contains(id) <==> self.clients@.dom().map(
            key_to_id,
        ).contains(id) by {
            if self@.dom().contains(id) {
                assert(self.clients@.dom().contains(id.uuid));
                assert(key_to_id(id.uuid) == id);
            }
        }
        assert(self@.dom() =~= self.clients@.dom().map(key_to_id));
    }

    /// A registry without clients that broadcasts.
    pub fn new() -> (state: ServerNetworkingState)
        ensures
            state@ == Map::<ClientId, Sender<Value>>::empty(),
            state.routing() == RoutingPolicy::BroadcastToOthers,
    {
        ServerNetworkingState::with_policy(RoutingPolicy::BroadcastToOthers)
    }

    /// A registry without clients that routes by `policy`.
    pub fn with_policy(policy: RoutingPolicy) -> (state: ServerNetworkingState)
        ensures
            state@ == Map::<ClientId, Sender<Value>>::empty(),
            state.routing() == policy,
    {
        let state = ServerNetworkingState { clients: HashMap::new(), policy };
        assert(state@ =~= Map::<ClientId, Sender<Value>>::empty());
        state
    }

    /// The routing policy.
    pub fn policy(&self) -> (policy: RoutingPolicy)
        ensures
            policy == self.routing(),
    {
        self.policy
    }

    /// Whether `id` is connected.
    pub fn is_connected(&self, id: ClientId) -> (connected: bool)
        ensures
            connected == self@.contains_key(id),
    {
        self.clients.contains_key(&id.uuid)
    }

    /// The connected clients, each once, in no particular order.
    pub fn connected_ids(&self) -> (ids: Vec<ClientId>)
        ensures
            ids@.no_duplicates(),
            ids@.to_set() == self.connected(),
    {
        let mut ids: Vec<ClientId> = Vec::new();
        let ghost entries = self.clients.iter().remaining();
        for entry in it: self.clients.iter()
            invariant
                it.seq() == entries,
                entries == self.clients.iter().remaining(),
                entries.no_duplicates(),
                ids@.len() == it.index(),
                forall|j: int| 0 <= j < it.index() ==> ids@[j].uuid == *entries[j].0,
        {
            let (key, _handle) = entry;
            ids.push(ClientId { uuid: *key });
        }
        proof {
            assert forall|i: int, j: int|
                0 <= i < ids@.len() && 0 <= j < ids@.len() && i != j implies ids@[i] != ids@[j] by {
                if ids@[i] == ids@[j] {
                    assert(self.clients@.contains_key(*entries[i].0));
                    assert(self.clients@[*entries[i].0] == *entries[i].1);
                    assert(self.clients@[*entries[j].0] == *entries[j].1);
                    assert(entries[i] == entries[j]);
                }
            }
            assert forall|id: ClientId| ids@.to_set().contains(id) <==> self@.dom().contains(id) by {
                if self.clients@.contains_key(id.uuid) {
                    assert(entries.contains((&id.uuid, &self.clients@[id.uuid])));
                    let i = choose|i: int|
                        0 <= i < entries.len() && entries[i] == (&id.uuid, &self.clients@[id.uuid]);
                    assert(ids@[i] == id);
                }
                if ids@.contains(id) {
                    let j = choose|j: int| 0 <= j < ids@.len() && ids@[j] == id;
                    assert(self.clients@.contains_key(*entries[j].0));
                }
            }
            assert(ids@.to_set() =~= self@.dom());
        }
        ids
    }

    /// Takes in a client with the handle of its outbound queue. A client
    /// that is already there gets the new handle.
    pub fn connect(&mut self, id: ClientId, handle: Sender<Value>)
        ensures
            final(self)@ == old(self)@.insert(id, handle),
            final(self).routing() == old(self).routing(),
    {
        self.clients.insert(id.uuid, handle);
        assert(self@ =~= old(self)@.insert(id, handle));
    }

    /// Forgets a client. A client that is not there leaves the registry as
    /// it was.
    pub fn disconnect(&mut self, id: ClientId)
        ensures
            final(self)@ == old(self)@.remove(id),
            final(self).routing() == old(self).routing(),
    {
        self.clients.remove(&id.uuid);
        assert(self@ =~= old(self)@.remove(id));
    }

    /// The routing step for one message: the deliveries it gives rise to
    /// among the clients of this registry. The recipients come in no
    /// particular order.
    pub fn plan(&self, sender: ClientId, payload: &Value) -> (plan: Vec<(ClientId, Value)>)
        ensures
            targets(plan@).no_duplicates(),
            targets(plan@).to_set() == recipient_set(self.routing(), sender, self.connected()),
            forall|i: int| 0 <= i < plan@.len() ==> (#[trigger] plan@[i]).1 == *payload,
    {
        let ids = self.connected_ids();
        let plan = route(self.policy, sender, payload, &ids);
        proof {
            lemma_recipients_as_set(self.policy, sender, ids@);
            assert(targets(plan@) =~= recipients(self.policy, sender, ids@));
        }
        plan
    }

    /// Offers each planned payload to the queue of its target, without
    /// waiting. A payload that a queue does not take is dropped, and the
    /// deliveries after it go on.
    ///
    /// The report names the targets in the order of the plan, each with
    /// what became of its payload. A target is reported as not connected
    /// exactly if the registry holds no queue for it.
    pub fn deliver(&self, plan: Vec<(ClientId, Value)>) -> (report: Vec<(ClientId, DeliveryOutcome)>)
        ensures
            targets(report@) == targets(plan@),
            forall|i: int|
                0 <= i < report@.len() ==> ((#[trigger] report@[i]).1 == DeliveryOutcome::NotConnected
                    <==> !self@.contains_key(report@[i].0)),
    {
        let mut report: Vec<(ClientId, DeliveryOutcome)> = Vec::new();
        let ghost given = plan@;
        for entry in it: plan
            invariant
                it.seq() == given,
                report@.len() == it.index(),
                forall|i: int| 0 <= i < report@.len() ==> (#[trigger] report@[i]).0 == given[i].0,
                forall|i: int|
                    0 <= i < report@.len() ==> ((#[trigger] report@[i]).1
                        == DeliveryOutcome::NotConnected <==> !self@.contains_key(report@[i].0)),
        {
            let (target, payload) = entry;
            let outcome = match self.clients.get(&target.uuid) {
                Some(handle) => DeliveryOutcome::of_offer(offer(handle, payload)),
                None => DeliveryOutcome::NotConnected,
            };
            report.push((target, outcome));
        }
        assert(targets(report@) =~= targets(given));
        report
    }

    /// Handles one event: a connect or a disconnect changes the clients, a
    /// message is routed and delivered.
    ///
    /// The clients afterwards are those of `step`, whatever the queues
    /// did. A message from a client that is not connected changes nothing
    /// and reaches nobody.
    pub fn handle_event(&mut self, event: ServerNetworkingAction) -> (report: Vec<
        (ClientId, DeliveryOutcome),
    >)
        ensures
            final(self)@ == step(old(self)@, event),
            final(self).routing() == old(self).routing(),
            reports(old(self).routing(), old(self)@, event, report@),
    {
        match event {
            ServerNetworkingAction::ClientConnected(id, handle) => {
                self.connect(id, handle);
                Vec::new()
            },
            ServerNetworkingAction::ClientDisconnected(id) => {
                self.disconnect(id);
                Vec::new()
            },
            ServerNetworkingAction::ReceivedMessage(sender, payload) => {
                let plan = self.plan(sender, &payload);
                let report = self.deliver(plan);
                proof {
                    assert forall|i: int| 0 <= i < report@.len() implies (#[trigger] report@[i]).1
                        != DeliveryOutcome::NotConnected by {
                        assert(targets(report@)[i] == report@[i].0);
                        assert(targets(report@).to_set().contains(report@[i].0));
                    }
                }
                report
            },
        }
    }

    /// Handles the events of a log in order and returns one report per
    /// event.
    ///
    /// The clients afterwards are those of `replay_from`: they depend on
    /// the clients before and on the log, and on nothing else.
    pub fn handle_events(&mut self, events: Vec<ServerNetworkingAction>) -> (all: Vec<
        Vec<(ClientId, DeliveryOutcome)>,
    >)
        ensures
            final(self)@ == replay_from(old(self)@, events@),
            final(self).routing() == old(self).routing(),
            all@.len() == events@.len(),
            forall|i: int|
                0 <= i < events@.len() ==> reports(
                    old(self).routing(),
                    replay_from(old(self)@, events@.take(i)),
                    events@[i],
                    (#[trigger] all@[i])@,
                ),
    {
        let mut all: Vec<Vec<(ClientId, DeliveryOutcome)>> = Vec::new();
        let ghost log = events@;
        let ghost before = self@;
        let ghost policy = self.routing();
        for event in it: events
            invariant
                it.seq() == log,
                self@ == replay_from(before, log.take(it.index())),
                self.routing() == policy,
                all@.len() == it.index(),
                forall|i: int|
                    0 <= i < all@.len() ==> reports(
                        policy,
                        replay_from(before, log.take(i)),
                        log[i],
                        (#[trigger] all@[i])@,
                    ),
        {
            proof {
                assert(log.take(it.index() + 1).drop_last() =~= log.take(it.index()));
            }
            let report = self.handle_event(event);
            all.push(report);
        }
        proof {
            assert(log.take(log.len() as int) =~= log);
        }
        all
    }
}

/// Routing over a list of the connected clients, each listed once, names
/// each recipient once, and names the recipients that the set of those
/// clients gives.
pub proof fn lemma_recipients_as_set(policy: RoutingPolicy, sender: ClientId, connected: Seq<ClientId>)
    requires
        connected.no_duplicates(),
    ensures
        recipients(policy, sender, connected).no_duplicates(),
        recipients(policy, sender, connected).to_set() == recipient_set(
            policy,
            sender,
            connected.to_set(),
        ),
{
    lemma_others(connected, sender);
    let named = recipients(policy, sender, connected);
    let wanted = recipient_set(policy, sender, connected.to_set());
    assert forall|id: ClientId| named.to_set().contains(id) <==> wanted.contains(id) by {
        if connected.contains(sender) {
            match policy {
                RoutingPolicy::BroadcastToOthers => {
                    assert(others(connected, sender).contains(id) <==> (connected.contains(id) && id
                        != sender));
                },
                RoutingPolicy::EchoToSelf => {
                    assert(named[0] == sender);
                },
            }
        }
    }
    assert(named.to_set() =~= wanted);
}

} // verus!
