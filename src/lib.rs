//! The channel registry and broadcast dispatch core of a text-chat relay.
//!
//! Clients identify themselves with a `Hello` naming a username and a channel
//! number; after that, their chat text is posted to the mailbox of their
//! channel and fanned out to the channel's other members.
//!
//! - `message`: the records exchanged on the wire.
//! - `members`, `channel`, `registry`: per-channel membership, keyed by a
//!   username that is unique within its channel.
//! - `session`, `relay`: the connection state machine; the relay keeps each
//!   channel's members equal to the connections joined to it.
//! - `fanout`: who a notice is written to, and one pass of writes.
//! - `framing`: newline-terminated records.
//! - `client`: the decisions of the terminal client.

pub mod channel;
pub mod client;
pub mod fanout;
pub mod framing;
pub mod members;
pub mod message;
pub mod registry;
pub mod relay;
pub mod session;
