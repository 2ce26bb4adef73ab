//! A multi-room presence and messaging coordinator for a chat-like service.
//!
//! The library authenticates users, creates and bounds membership of named
//! rooms, tracks which identities currently hold a live delivery channel,
//! and computes the fan-out of messages to room members. Delivery itself,
//! and the transport that terminates connections, live outside the library;
//! the coordinator hands plain delivery handles back to its caller.

pub mod clock;
pub mod domain;
pub mod hashing;
pub mod identity;
pub mod hub;
pub mod registry;
