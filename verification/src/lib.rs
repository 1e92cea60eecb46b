//! Keeps a dynamic-DNS zone pointed at the global IPv6 address of one network
//! interface: picks the address to publish from the addresses bound to the
//! interface, builds the update request for it, and classifies the reply.

pub mod address;
pub mod form;
pub mod publisher;
pub mod resolver;
pub mod text;
