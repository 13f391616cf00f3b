//! A real-time message relay.
//!
//! Clients connect over a persistent socket and send JSON documents; the
//! server keeps the set of connected clients and forwards each document to
//! the queues of the clients it is meant for. This library holds the part
//! that decides: the registry of clients, the routing of a message, the
//! lifecycle of one connection and the start-up arguments. Sockets and
//! tasks are the caller's.

pub mod cli;
pub mod networking;
