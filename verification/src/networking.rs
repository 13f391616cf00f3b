//! The registry of connected clients and everything that feeds it.

pub mod client;
pub mod codec;
pub mod connection;
pub mod frame;
pub mod history;
pub mod outbound;
pub mod registry;
pub mod routing;

pub use client::ClientId;
pub use codec::{parse_message, to_message};
pub use connection::ConnectionHandler;
pub use frame::InboundFrame;
pub use outbound::DeliveryOutcome;
pub use registry::{ServerNetworkingAction, ServerNetworkingState};
pub use routing::{route, RoutingPolicy};
