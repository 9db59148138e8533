//! The decisions of a USB bulk transport for an RPC host client.
//!
//! Nothing in this crate waits for a device. [`connect::Connect`] says which
//! request to make next and takes the reply, [`wire`] does the same for one
//! message, and [`endpoint`] reads what an interface offers. [`session`] states
//! how a connection ends on a given host, [`packets`] what messages are on the
//! bus, and [`laws`] what each reply and each descriptor comes to.
pub mod client;
pub mod connect;
pub mod descriptors;
pub mod endpoint;
pub mod laws;
pub mod link;
pub mod packets;
pub mod session;
pub mod wire;
