//! A bridge between a chat platform and a pluggable message broker: the
//! authorization of inbound senders, the decisions of the broker transports,
//! and the planning of outbound sends (text chunking, markdown formatting
//! with an unformatted fallback, and button layout), each with a verified
//! contract.

pub mod auth;
pub mod backoff;
pub mod broker;
pub mod chunker;
pub mod dispatch;
pub mod incoming;
pub mod layout;
pub mod markup;
pub mod outgoing;
pub mod pipe;
pub mod tables;
pub mod text;
