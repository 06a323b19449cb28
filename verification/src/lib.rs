//! Data plane of a Layer-2 network emulated over UDP.
//!
//! A switchport bridges a local TAP device onto a datagram socket, and a
//! switch forwards Ethernet frames between switchports by the MAC addresses it
//! has learned. This crate holds the rules of both: how a frame is validated
//! and padded, when a transfer is fatal, what the switch learns from a frame
//! and where it forwards it. Reading and writing devices and sockets is left
//! to the caller.

pub mod device;
pub mod endpoint;
pub mod frame;
pub mod mac;
pub mod utilities;
pub mod vport;
pub mod vswitch;
