use relay_server::networking::{
    ClientId, DeliveryOutcome, RoutingPolicy, ServerNetworkingAction, ServerNetworkingState,
};
use serde_json::Value;
use tokio::sync::mpsc::error::TryRecvError;
use tokio::sync::mpsc::{channel, Receiver, Sender};

fn id(n: u128) -> ClientId {
    ClientId { uuid: n }
}

fn json(text: &str) -> Value {
    serde_json::from_str(text).unwrap()
}

fn queue(capacity: usize) -> (Sender<Value>, Receiver<Value>) {
    channel(capacity)
}

fn sorted(ids: Vec<ClientId>) -> Vec<u128> {
    let mut keys: Vec<u128> = ids.into_iter().map(|id| id.uuid).collect();
    keys.sort();
    keys
}

fn connect(n: u128, handle: Sender<Value>) -> ServerNetworkingAction {
    ServerNetworkingAction::ClientConnected(id(n), handle)
}

fn disconnect(n: u128) -> ServerNetworkingAction {
    ServerNetworkingAction::ClientDisconnected(id(n))
}

fn message(n: u128, text: &str) -> ServerNetworkingAction {
    ServerNetworkingAction::ReceivedMessage(id(n), json(text))
}

#[test]
fn new_registry_is_empty_and_broadcasts() {
    let state = ServerNetworkingState::new();
    assert!(state.connected_ids().is_empty());
    assert!(!state.is_connected(id(1)));
    assert_eq!(state.policy(), RoutingPolicy::BroadcastToOthers);
}

#[test]
fn with_policy_keeps_the_policy() {
    let state = ServerNetworkingState::with_policy(RoutingPolicy::EchoToSelf);
    assert_eq!(state.policy(), RoutingPolicy::EchoToSelf);
    assert!(state.connected_ids().is_empty());
}

#[test]
fn message_from_a_reaches_b_and_not_a() {
    let (tx_a, mut rx_a) = queue(10);
    let (tx_b, mut rx_b) = queue(10);
    let mut state = ServerNetworkingState::new();
    assert!(state.handle_event(connect(1, tx_a)).is_empty());
    assert!(state.handle_event(connect(2, tx_b)).is_empty());

    let report = state.handle_event(message(1, "{\"text\":\"hi\"}"));

    assert_eq!(report, vec![(id(2), DeliveryOutcome::Enqueued)]);
    assert_eq!(rx_b.try_recv(), Ok(json("{\"text\":\"hi\"}")));
    assert_eq!(rx_b.try_recv(), Err(TryRecvError::Empty));
    assert_eq!(rx_a.try_recv(), Err(TryRecvError::Empty));
}

#[test]
fn stale_message_after_disconnect_is_dropped() {
    let (tx_a, mut rx_a) = queue(10);
    let (tx_b, mut rx_b) = queue(10);
    let (tx_c, mut rx_c) = queue(10);
    let mut state = ServerNetworkingState::new();
    state.handle_event(connect(1, tx_a));
    state.handle_event(connect(2, tx_b));
    state.handle_event(connect(3, tx_c));
    state.handle_event(disconnect(1));

    let report = state.handle_event(message(1, "{\"late\":true}"));

    assert!(report.is_empty());
    assert!(!state.is_connected(id(1)));
    assert_eq!(sorted(state.connected_ids()), vec![2, 3]);
    assert_eq!(rx_b.try_recv(), Err(TryRecvError::Empty));
    assert_eq!(rx_c.try_recv(), Err(TryRecvError::Empty));
    assert_eq!(rx_a.try_recv(), Err(TryRecvError::Disconnected));

    let report = state.handle_event(message(2, "{\"still\":\"here\"}"));
    assert_eq!(report, vec![(id(3), DeliveryOutcome::Enqueued)]);
    assert_eq!(rx_c.try_recv(), Ok(json("{\"still\":\"here\"}")));
    assert_eq!(rx_b.try_recv(), Err(TryRecvError::Empty));
}

#[test]
fn full_queue_drops_the_payload_and_the_rest_goes_on() {
    let (tx_a, _rx_a) = queue(10);
    let (tx_c, mut rx_c) = queue(1);
    let mut state = ServerNetworkingState::new();
    state.handle_event(connect(1, tx_a));
    state.handle_event(connect(3, tx_c));

    let first = state.handle_event(message(1, "1"));
    assert_eq!(first, vec![(id(3), DeliveryOutcome::Enqueued)]);
    let second = state.handle_event(message(1, "2"));
    assert_eq!(second, vec![(id(3), DeliveryOutcome::QueueFull)]);

    assert!(state.is_connected(id(3)));
    assert_eq!(rx_c.try_recv(), Ok(json("1")));
    assert_eq!(rx_c.try_recv(), Err(TryRecvError::Empty));

    let third = state.handle_event(message(1, "3"));
    assert_eq!(third, vec![(id(3), DeliveryOutcome::Enqueued)]);
    assert_eq!(rx_c.try_recv(), Ok(json("3")));
}

#[test]
fn full_queue_of_one_target_does_not_stop_the_others() {
    let (tx_a, _rx_a) = queue(10);
    let (tx_b, mut rx_b) = queue(1);
    let (tx_c, mut rx_c) = queue(10);
    let mut state = ServerNetworkingState::new();
    state.handle_event(connect(1, tx_a));
    state.handle_event(connect(2, tx_b));
    state.handle_event(connect(3, tx_c));
    state.handle_event(message(1, "\"one\""));

    let mut report = state.handle_event(message(1, "\"two\""));
    report.sort_by_key(|entry| entry.0.uuid);

    assert_eq!(
        report,
        vec![(id(2), DeliveryOutcome::QueueFull), (id(3), DeliveryOutcome::Enqueued)]
    );
    assert_eq!(rx_b.try_recv(), Ok(json("\"one\"")));
    assert_eq!(rx_b.try_recv(), Err(TryRecvError::Empty));
    assert_eq!(rx_c.try_recv(), Ok(json("\"one\"")));
    assert_eq!(rx_c.try_recv(), Ok(json("\"two\"")));
}

#[test]
fn closed_queue_is_reported_and_the_client_stays_until_it_disconnects() {
    let (tx_a, _rx_a) = queue(10);
    let (tx_b, rx_b) = queue(10);
    let mut state = ServerNetworkingState::new();
    state.handle_event(connect(1, tx_a));
    state.handle_event(connect(2, tx_b));
    drop(rx_b);

    let report = state.handle_event(message(1, "null"));

    assert_eq!(report, vec![(id(2), DeliveryOutcome::Closed)]);
    assert!(state.is_connected(id(2)));
    state.handle_event(disconnect(2));
    assert!(!state.is_connected(id(2)));
}

#[test]
fn message_from_unknown_client_is_a_no_op() {
    let (tx_b, mut rx_b) = queue(10);
    let mut state = ServerNetworkingState::new();
    state.handle_event(connect(2, tx_b));

    let report = state.handle_event(message(9, "{}"));

    assert!(report.is_empty());
    assert!(!state.is_connected(id(9)));
    assert_eq!(sorted(state.connected_ids()), vec![2]);
    assert_eq!(rx_b.try_recv(), Err(TryRecvError::Empty));
}

#[test]
fn second_disconnect_is_a_no_op() {
    let (tx_a, _rx_a) = queue(10);
    let (tx_b, _rx_b) = queue(10);
    let mut state = ServerNetworkingState::new();
    state.handle_event(connect(1, tx_a));
    state.handle_event(connect(2, tx_b));

    assert!(state.handle_event(disconnect(1)).is_empty());
    assert_eq!(sorted(state.connected_ids()), vec![2]);
    assert!(state.handle_event(disconnect(1)).is_empty());
    assert_eq!(sorted(state.connected_ids()), vec![2]);
    assert!(state.is_connected(id(2)));
}

#[test]
fn disconnect_of_unknown_client_is_a_no_op() {
    let mut state = ServerNetworkingState::new();
    assert!(state.handle_event(disconnect(5)).is_empty());
    assert!(state.connected_ids().is_empty());
}

#[test]
fn broadcast_reaches_each_of_the_others_once() {
    let mut state = ServerNetworkingState::new();
    let mut receivers: Vec<(u128, Receiver<Value>)> = Vec::new();
    for n in 1..=4u128 {
        let (tx, rx) = queue(10);
        state.handle_event(connect(n, tx));
        receivers.push((n, rx));
    }
    let payload = "{\"a\":[1,2.5,\"x\",null,true],\"b\":{\"c\":\"d\"}}";

    let report = state.handle_event(message(1, payload));

    assert_eq!(report.len(), 3);
    assert!(report.iter().all(|entry| entry.1 == DeliveryOutcome::Enqueued));
    assert_eq!(sorted(report.iter().map(|entry| entry.0).collect()), vec![2, 3, 4]);
    for (n, rx) in receivers.iter_mut() {
        if *n == 1 {
            assert_eq!(rx.try_recv(), Err(TryRecvError::Empty));
        } else {
            assert_eq!(rx.try_recv(), Ok(json(payload)));
            assert_eq!(rx.try_recv(), Err(TryRecvError::Empty));
        }
    }
}

#[test]
fn broadcast_from_the_only_client_reaches_nobody() {
    let (tx_a, mut rx_a) = queue(10);
    let mut state = ServerNetworkingState::new();
    state.handle_event(connect(1, tx_a));
    assert!(state.handle_event(message(1, "1")).is_empty());
    assert_eq!(rx_a.try_recv(), Err(TryRecvError::Empty));
}

#[test]
fn echo_policy_returns_the_message_to_its_sender() {
    let (tx_a, mut rx_a) = queue(10);
    let (tx_b, mut rx_b) = queue(10);
    let mut state = ServerNetworkingState::with_policy(RoutingPolicy::EchoToSelf);
    state.handle_event(connect(1, tx_a));
    state.handle_event(connect(2, tx_b));

    let report = state.handle_event(message(1, "{\"text\":\"hi\"}"));

    assert_eq!(report, vec![(id(1), DeliveryOutcome::Enqueued)]);
    assert_eq!(rx_a.try_recv(), Ok(json("{\"text\":\"hi\"}")));
    assert_eq!(rx_b.try_recv(), Err(TryRecvError::Empty));
    assert_eq!(state.policy(), RoutingPolicy::EchoToSelf);
}

#[test]
fn echo_policy_drops_the_message_of_an_unknown_client() {
    let (tx_b, mut rx_b) = queue(10);
    let mut state = ServerNetworkingState::with_policy(RoutingPolicy::EchoToSelf);
    state.handle_event(connect(2, tx_b));
    assert!(state.handle_event(message(1, "1")).is_empty());
    assert_eq!(rx_b.try_recv(), Err(TryRecvError::Empty));
}

#[test]
fn reconnect_replaces_the_handle() {
    let (tx_a, _rx_a) = queue(10);
    let (tx_old, mut rx_old) = queue(10);
    let (tx_new, mut rx_new) = queue(10);
    let mut state = ServerNetworkingState::new();
    state.handle_event(connect(1, tx_a));
    state.handle_event(connect(2, tx_old));
    state.handle_event(connect(2, tx_new));

    assert_eq!(sorted(state.connected_ids()), vec![1, 2]);
    state.handle_event(message(1, "7"));
    assert_eq!(rx_new.try_recv(), Ok(json("7")));
    assert_eq!(rx_old.try_recv(), Err(TryRecvError::Disconnected));
}

#[test]
fn registry_holds_exactly_the_connected_clients() {
    let mut state = ServerNetworkingState::new();
    let mut keep: Vec<Receiver<Value>> = Vec::new();
    let mut events: Vec<ServerNetworkingAction> = Vec::new();
    for n in [1u128, 2, 3, 4] {
        let (tx, rx) = queue(10);
        keep.push(rx);
        events.push(connect(n, tx));
    }
    events.push(message(1, "1"));
    events.push(disconnect(2));
    events.push(message(2, "2"));
    events.push(disconnect(4));
    events.push(disconnect(2));
    let (tx, rx) = queue(10);
    keep.push(rx);
    events.push(connect(4, tx));
    events.push(disconnect(7));

    let reports = state.handle_events(events);

    assert_eq!(reports.len(), 11);
    assert_eq!(sorted(state.connected_ids()), vec![1, 3, 4]);
    assert!(state.is_connected(id(1)));
    assert!(!state.is_connected(id(2)));
    assert!(state.is_connected(id(3)));
    assert!(state.is_connected(id(4)));
    assert!(!state.is_connected(id(7)));
    assert_eq!(reports[4].len(), 3);
    assert!(reports[6].is_empty());
    for n in [0usize, 1, 2, 3, 5, 7, 8, 9, 10] {
        assert!(reports[n].is_empty());
    }
}

#[test]
fn handle_events_of_an_empty_log_changes_nothing() {
    let (tx_a, _rx_a) = queue(10);
    let mut state = ServerNetworkingState::new();
    state.handle_event(connect(1, tx_a));
    let reports = state.handle_events(Vec::new());
    assert!(reports.is_empty());
    assert_eq!(sorted(state.connected_ids()), vec![1]);
}

fn log_for(handles: &[Sender<Value>]) -> Vec<ServerNetworkingAction> {
    vec![
        connect(10, handles[0].clone()),
        connect(20, handles[1].clone()),
        message(10, "\"a\""),
        connect(30, handles[2].clone()),
        disconnect(10),
        message(10, "\"b\""),
        message(30, "\"c\""),
        disconnect(20),
        connect(10, handles[0].clone()),
    ]
}

#[test]
fn same_log_gives_the_same_clients() {
    let (tx_a, _rx_a) = queue(1);
    let (tx_b, _rx_b) = queue(1);
    let (tx_c, rx_c) = queue(1);
    let handles = [tx_a, tx_b, tx_c];

    let mut first = ServerNetworkingState::new();
    first.handle_events(log_for(&handles));
    drop(rx_c);
    let mut second = ServerNetworkingState::new();
    second.handle_events(log_for(&handles));

    assert_eq!(sorted(first.connected_ids()), vec![10, 30]);
    assert_eq!(sorted(second.connected_ids()), sorted(first.connected_ids()));
}

#[test]
fn deliver_reports_a_target_without_a_queue() {
    let (tx_a, mut rx_a) = queue(10);
    let mut state = ServerNetworkingState::new();
    state.connect(id(1), tx_a);

    let report = state.deliver(vec![(id(5), json("1")), (id(1), json("2")), (id(1), json("3"))]);

    assert_eq!(
        report,
        vec![
            (id(5), DeliveryOutcome::NotConnected),
            (id(1), DeliveryOutcome::Enqueued),
            (id(1), DeliveryOutcome::Enqueued),
        ]
    );
    assert_eq!(rx_a.try_recv(), Ok(json("2")));
    assert_eq!(rx_a.try_recv(), Ok(json("3")));
    assert_eq!(rx_a.try_recv(), Err(TryRecvError::Empty));
}

#[test]
fn plan_names_the_others_with_the_payload() {
    let (tx_a, _rx_a) = queue(10);
    let (tx_b, _rx_b) = queue(10);
    let (tx_c, _rx_c) = queue(10);
    let mut state = ServerNetworkingState::new();
    state.connect(id(1), tx_a);
    state.connect(id(2), tx_b);
    state.connect(id(3), tx_c);
    let payload = json("{\"k\":[1,2,3]}");

    let mut plan = state.plan(id(2), &payload);
    plan.sort_by_key(|entry| entry.0.uuid);

    assert_eq!(plan, vec![(id(1), payload.clone()), (id(3), payload.clone())]);
    assert!(state.plan(id(8), &payload).is_empty());
}

#[test]
fn connect_and_disconnect_change_the_clients() {
    let (tx_a, _rx_a) = queue(10);
    let mut state = ServerNetworkingState::new();
    state.connect(id(1), tx_a);
    assert!(state.is_connected(id(1)));
    assert_eq!(sorted(state.connected_ids()), vec![1]);
    state.disconnect(id(1));
    assert!(!state.is_connected(id(1)));
    assert!(state.connected_ids().is_empty());
}
