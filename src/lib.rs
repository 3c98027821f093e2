//! Distributed GPU image processing over a publish/subscribe bus: the wire
//! codec for images, the topic namespace, the readback layout arithmetic of the
//! GPU pipeline, and the coordinator's and workers' protocol state machines.

pub mod layout;
pub mod wire;
pub mod text;
pub mod topics;
pub mod coordinator;
pub mod worker;
