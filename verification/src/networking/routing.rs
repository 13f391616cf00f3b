//! Routing: who receives a message.
//!
//! Routing is a function of the sender, the payload and the clients that
//! are connected. It touches no queue, so another policy can take its place
//! without a change to the registry.

use crate::networking::client::ClientId;
use crate::networking::outbound::copy_of;
use serde_json::Value;
use vstd::prelude::*;

verus! {

/// How the registry picks the recipients of a message.
#[derive(Clone, Copy, Debug, PartialEq, Eq, Structural)]
pub enum RoutingPolicy {
    /// Every connected client but the sender.
    BroadcastToOthers,
    /// The sender alone.
    EchoToSelf,
}

/// The clients of `connected` other than `sender`, in their order.
pub open spec fn others(connected: Seq<ClientId>, sender: ClientId) -> Seq<ClientId>
    decreases connected.len(),
{
    if connected.len() == 0 {
        Seq::empty()
    } else {
        let before = others(connected.drop_last(), sender);
        if connected.last() == sender {
            before
        } else {
            before.push(connected.last())
        }
    }
}

/// The recipients of a message from `sender`, in the order of `connected`.
/// A sender that is not connected reaches nobody.
pub open spec fn recipients(policy: RoutingPolicy, sender: ClientId, connected: Seq<ClientId>) -> Seq<
    ClientId,
> {
    if !connected.contains(sender) {
        Seq::empty()
    } else {
        match policy {
            RoutingPolicy::BroadcastToOthers => others(connected, sender),
            RoutingPolicy::EchoToSelf => seq![sender],
        }
    }
}

/// The deliveries that a message gives rise to: one per recipient, each
/// with the payload as it came.
pub open spec fn planned(
    policy: RoutingPolicy,
    sender: ClientId,
    payload: Value,
    connected: Seq<ClientId>,
) -> Seq<(ClientId, Value)> {
    recipients(policy, sender, connected).map_values(|target: ClientId| (target, payload))
}

/// The recipients as a set, whatever the order of the connected clients.
pub open spec fn recipient_set(policy: RoutingPolicy, sender: ClientId, connected: Set<ClientId>) -> Set<
    ClientId,
> {
    if !connected.contains(sender) {
        Set::empty()
    } else {
        match policy {
            RoutingPolicy::BroadcastToOthers => connected.remove(sender),
            RoutingPolicy::EchoToSelf => set![sender],
        }
    }
}

/// The targets of a list of deliveries.
pub open spec fn targets<T>(deliveries: Seq<(ClientId, T)>) -> Seq<ClientId> {
    deliveries.map_values(|delivery: (ClientId, T)| delivery.0)
}

/// `others` keeps exactly the clients that differ from the sender, and
/// keeps them apart if they were.
pub proof fn lemma_others(connected: Seq<ClientId>, sender: ClientId)
    ensures
        forall|id: ClientId|
            #[trigger] others(connected, sender).contains(id) <==> (connected.contains(id) && id
                != sender),
        connected.no_duplicates() ==> others(connected, sender).no_duplicates(),
        others(connected, sender).len() <= connected.len(),
    decreases connected.len(),
{
    let kept = others(connected, sender);
    if connected.len() > 0 {
        let front = connected.drop_last();
        let before = others(front, sender);
        lemma_others(front, sender);
        assert forall|id: ClientId| kept.contains(id) <==> (connected.contains(id) && id != sender) by {
            if kept.contains(id) {
                let i = choose|i: int| 0 <= i < kept.len() && kept[i] == id;
                if i < before.len() {
                    assert(before.contains(kept[i]));
                    let j = choose|j: int| 0 <= j < front.len() && front[j] == id;
                    assert(connected[j] == id);
                } else {
                    assert(connected[connected.len() - 1] == id);
                }
            }
            if connected.contains(id) && id != sender {
                let j = choose|j: int| 0 <= j < connected.len() && connected[j] == id;
                if j < front.len() {
                    assert(front[j] == id);
                    assert(before.contains(id));
                    let i = choose|i: int| 0 <= i < before.len() && before[i] == id;
                    assert(kept[i] == id);
                } else {
                    assert(kept[kept.len() - 1] == id);
                }
            }
        }
        if connected.no_duplicates() {
            assert(front.no_duplicates());
            assert forall|i: int, j: int| 0 <= i < kept.len() && 0 <= j < kept.len() && i != j implies kept[i]
                != kept[j] by {
                if i < before.len() && j < before.len() {
                } else {
                    let inner = if i < before.len() {
                        i
                    } else {
                        j
                    };
                    assert(before.contains(before[inner]));
                    let k = choose|k: int| 0 <= k < front.len() && front[k] == before[inner];
                    assert(connected[k] != connected[connected.len() - 1]);
                }
            }
        }
    }
}

/// Whether `id` is among `connected`.
pub fn is_listed(connected: &Vec<ClientId>, id: ClientId) -> (listed: bool)
    ensures
        listed == connected@.contains(id),
{
    let mut i: usize = 0;
    while i < connected.len()
        invariant
            i <= connected.len(),
            forall|j: int| 0 <= j < i ==> connected@[j] != id,
        decreases connected.len() - i,
    {
        if connected[i] == id {
            return true;
        }
        i += 1;
    }
    false
}

/// The routing step: the deliveries for one message, given the clients
/// that are connected.
///
/// Under `BroadcastToOthers` every connected client but the sender gets a
/// copy of the payload; under `EchoToSelf` the sender gets it back. A
/// message from a client that is not connected is dropped: the list is
/// empty.
pub fn route(policy: RoutingPolicy, sender: ClientId, payload: &Value, connected: &Vec<ClientId>) -> (plan:
    Vec<(ClientId, Value)>)
    ensures
        plan@ == planned(policy, sender, *payload, connected@),
{
    let mut plan: Vec<(ClientId, Value)> = Vec::new();
    if !is_listed(connected, sender) {
        return plan;
    }
    match policy {
        RoutingPolicy::EchoToSelf => {
            plan.push((sender, copy_of(payload)));
        },
        RoutingPolicy::BroadcastToOthers => {
            let mut i: usize = 0;
            while i < connected.len()
                invariant
                    i <= connected.len(),
                    plan@ == others(connected@.take(i as int), sender).map_values(
                        |target: ClientId| (target, *payload),
                    ),
                decreases connected.len() - i,
            {
                let target = connected[i];
                proof {
                    assert(connected@.take(i + 1).drop_last() =~= connected@.take(i as int));
                }
                if target != sender {
                    plan.push((target, copy_of(payload)));
                }
                i += 1;
            }
            proof {
                assert(connected@.take(i as int) =~= connected@);
            }
        },
    }
    plan
}

} // verus!
