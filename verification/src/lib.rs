//! Simple MPSC TCP message queues.
//!
//! A [`Server`] talks to any number of [`Client`]s. Both sides exchange messages that a [`Codec`]
//! turns into bytes and back; on the wire each message is preceded by its length. This crate
//! holds every decision of that protocol as functions from a state and an event to the next state
//! and the action to take. Sockets, threads and channels belong to the caller, which performs the
//! actions and reports how they went.
pub mod addr;
pub mod byte_order;
pub mod client;
pub mod codec;
pub mod connections;
pub mod conversation;
pub mod error;
pub mod read_write;
pub mod server;
pub mod sink;

pub use addr::Addr;
pub use byte_order::ByteOrder;
pub use client::Client;
pub use codec::{Codec, Continue};
pub use error::ErrorKind;
pub use server::{Event, Server};
