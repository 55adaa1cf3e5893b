//! A small client/server protocol for querying soccer player statistics:
//! the endpoint registry, the request codec, framing, connection policy and
//! the decisions of the client and server drivers.

pub mod text;
pub mod requests;
pub mod common;
pub mod client;
pub mod connection;
pub mod request_queue;
pub mod server;
pub mod queries;
pub mod database;
