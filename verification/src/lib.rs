//! Client-side session logic for emulated input on a Wayland compositor.
//!
//! The crate holds the state machines of one emulated-input session: the
//! handshake engine, the seat and device registry, and the emission session
//! that brackets and orders the input that is sent. Everything works on plain
//! values; the transport and the wire encoding belong to the caller.

pub mod capability;
pub mod interface;
pub mod wire;
pub mod device;
pub mod emission;
pub mod handshake;
pub mod registry_model;
pub mod registry;
pub mod plan;
pub mod session_model;
pub mod session;
pub mod words;
pub mod command;
