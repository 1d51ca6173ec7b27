//! One node of a registry network of named peers.
//!
//! The node keeps a table of the peers it knows, answers requests that
//! arrive as single datagrams or over a stream (raw or tunnelled through
//! HTTP), relays requests to peers, and takes commands from an operator.
//! This crate is the part of the node that decides: what a command means,
//! how the table changes, how a payload is framed. Sockets and storage are
//! left to the program around it.

pub mod enums;
pub mod formats;
pub mod http;
pub mod management;
pub mod netspace;
pub mod node;
pub mod service;
pub mod table;
pub mod text;
