//! Software KVM with audio streaming: one machine's keyboard, mouse and
//! sound shared between several over an encrypted datagram connection.
//!
//! This crate holds the decisions of the program: wire formats, client and
//! connection bookkeeping, the jitter buffer, and the state machines that
//! turn events into the work the surrounding program carries out.

pub mod audio;
pub mod capture;
pub mod client;
pub mod connect;
pub mod datagram;
pub mod emulation;
pub mod gui;
pub mod ipc;
pub mod listen;
pub mod net;
pub mod proto;
pub mod service;
pub mod text;
pub mod wire;
