//! A typed publish/subscribe client core for an untyped message bus.
//!
//! The bus itself (sockets, framing, delivery) lives outside this crate. What
//! is here is everything that has to be right on the typed side of that
//! boundary: how a message is framed with the fingerprint of its type, which
//! subscriptions are live, and what each answer of the bus means for the
//! caller.

pub mod error;
pub mod wire;
pub mod message;
pub mod primitives;
pub mod lcm;

pub use crate::error::{DecodeError, LcmError};
pub use crate::lcm::{Lcm, LcmSubscription};
pub use crate::message::Message;
