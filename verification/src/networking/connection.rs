//! The life of one connection, as the events it gives the registry.
//!
//! A handler is made when the handshake has succeeded, and with it the
//! connect event. Each frame read from the socket is shown to the handler,
//! which answers with the event to send, if any. Closing the handler uses
//! it up and yields the disconnect event: so a connection connects once,
//! before anything else, and disconnects once, after everything else.

use crate::networking::client::ClientId;
use crate::networking::codec::{json_value, parse_message};
use crate::networking::frame::InboundFrame;
use crate::networking::outbound::{open_queue, queue_bound};
use crate::networking::registry::{replay_from, ServerNetworkingAction};
use serde_json::Value;
use tokio::sync::mpsc::{Receiver, Sender};
use vstd::prelude::*;

verus! {

/// How many payloads the outbound queue of one client holds.
pub const OUTBOUND_QUEUE_CAPACITY: usize = 10;

/// The event that a frame from client `id` gives rise to: a text frame
/// that holds a JSON document is a message with that document as its
/// payload. Any other frame, and a text that is no JSON document, gives
/// none.
pub open spec fn event_of_frame(id: ClientId, frame: InboundFrame) -> Option<ServerNetworkingAction> {
    match frame {
        InboundFrame::Text(text) => match json_value(text@) {
            Some(payload) => Some(ServerNetworkingAction::ReceivedMessage(id, payload)),
            None => None,
        },
        _ => None,
    }
}

/// The events of a whole connection: its connect, the messages of its
/// frames in order, its disconnect.
pub open spec fn session_events(
    id: ClientId,
    handle: Sender<Value>,
    frames: Seq<InboundFrame>,
) -> Seq<ServerNetworkingAction> {
    seq![ServerNetworkingAction::ClientConnected(id, handle)] + frame_events(id, frames)
        + seq![ServerNetworkingAction::ClientDisconnected(id)]
}

/// The messages that the frames of client `id` give rise to, in order.
pub open spec fn frame_events(id: ClientId, frames: Seq<InboundFrame>) -> Seq<
    ServerNetworkingAction,
>
    decreases frames.len(),
{
    if frames.len() == 0 {
        Seq::empty()
    } else {
        let before = frame_events(id, frames.drop_last());
        match event_of_frame(id, frames.last()) {
            Some(event) => before.push(event),
            None => before,
        }
    }
}

/// The handler of one open connection.
pub struct ConnectionHandler {
    id: ClientId,
}

impl ConnectionHandler {
    /// The client that this connection is.
    pub closed spec fn client(&self) -> ClientId {
        self.id
    }

    /// The client that this connection is.
    pub fn id(&self) -> (id: ClientId)
        ensures
            id == self.client(),
    {
        self.id
    }

    /// Opens a connection whose handshake has succeeded: mints its
    /// identifier and makes its outbound queue.
    ///
    /// Returns the handler, the connect event for the registry, which
    /// carries the sending half of the queue, and the receiving half for
    /// the connection's writer.
    pub fn open() -> (opened: (ConnectionHandler, ServerNetworkingAction, Receiver<Value>))
        ensures
            opened.0.client().is_random(),
            opened.1 matches ServerNetworkingAction::ClientConnected(id, handle) && id
                == opened.0.client() && queue_bound(handle) == OUTBOUND_QUEUE_CAPACITY,
    {
        let id = ClientId::new();
        let (handle, receiver) = open_queue(OUTBOUND_QUEUE_CAPACITY);
        (ConnectionHandler { id }, ServerNetworkingAction::ClientConnected(id, handle), receiver)
    }

    /// The event to send for a frame that was read, if any. A frame that
    /// is not text and a text that does not decode are dropped without a
    /// word; the connection stays open.
    pub fn on_frame(&self, frame: &InboundFrame) -> (event: Option<ServerNetworkingAction>)
        ensures
            event == event_of_frame(self.client(), *frame),
    {
        match frame {
            InboundFrame::Text(_) => match parse_message(frame) {
                Ok(payload) => Some(ServerNetworkingAction::ReceivedMessage(self.id, payload)),
                Err(_) => None,
            },
            _ => None,
        }
    }

    /// Closes the connection and yields its disconnect event.
    pub fn close(self) -> (event: ServerNetworkingAction)
        ensures
            event == ServerNetworkingAction::ClientDisconnected(self.client()),
    {
        ServerNetworkingAction::ClientDisconnected(self.id)
    }
}

/// The frames of a connection never change the clients of the registry.
pub proof fn lemma_frames_change_no_client(
    clients: Map<ClientId, Sender<Value>>,
    id: ClientId,
    frames: Seq<InboundFrame>,
)
    ensures
        replay_from(clients, frame_events(id, frames)) == clients,
    decreases frames.len(),
{
    if frames.len() > 0 {
        lemma_frames_change_no_client(clients, id, frames.drop_last());
        let before = frame_events(id, frames.drop_last());
        match event_of_frame(id, frames.last()) {
            Some(event) => {
                assert(before.push(event).drop_last() =~= before);
            },
            None => {},
        }
    }
}

} // verus!
