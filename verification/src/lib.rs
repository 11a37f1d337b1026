//! Core of a room-based chat relay.
//!
//! The heart of the crate is the coordinator in [`ws`]: an in-memory
//! registry of live connections and room membership, the pipeline that
//! persists an inbound message before fanning it out, and the lifecycle
//! rules for connect/disconnect. Everything that touches the network, the
//! durable store or the actor runtime lives outside this crate and talks
//! to the coordinator through plain values.

pub mod auth;
pub mod frame;
pub mod handlers;
pub mod middleware;
pub mod models;
pub mod session;
pub mod ws;
