//! Core of a polled, handle-based networking client.
//!
//! The host submits HTTP operations and opens WebSocket sessions, then
//! interacts with them only by polling: every operation lives in a slot
//! registry under an integer handle, every session feeds an ordered event
//! queue. This crate holds the verified state machines behind that surface:
//! the registry with write-once result cells and lazy expiry, the response
//! normalization rules, the session event queue with its lifecycle
//! invariants, and the buffer hand-off ledger. Actual transport I/O is left
//! to the embedding program.

pub mod boundary;
pub mod http;
pub mod websocket;
