//! Reliable, ordered transport of tuple buffers between workers.
//!
//! - [`protocol`]: the messages of identification, control and data channels.
//! - [`connection`]: `host:port` endpoint identifiers, parsed and formatted.
//! - [`sender_window`]: the sliding-window state of a sender-side data channel.
//! - [`receiver_handler`]: the state of a receiver-side data channel.
//! - [`lifecycle`]: how channel handlers end and whether they are restarted.
//! - [`negotiation`]: the decisions of channel negotiation and stream routing.
//! - [`registry`]: the receiver's registered and pending channels.
//! - [`channels`]: the software's ends of sender and receiver channels.
//! - [`config`], [`transport`]: service options and transport selection.
//! - [`tracker`]: detection of missing sequence numbers at a consumer.
//! - [`bench_config`]: benchmark scenarios and their cross-references.

pub mod bench_config;
pub mod channels;
pub mod config;
pub mod connection;
pub mod lifecycle;
pub mod negotiation;
pub mod protocol;
pub mod receiver_handler;
pub mod registry;
pub mod sender_window;
pub mod tracker;
pub mod transport;
