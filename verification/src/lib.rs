//! Verified core of a line-oriented broadcast chat service.
//!
//! Clients exchange fixed-size frames over a byte stream; the server fans
//! each message out to every other connected client. This crate holds the
//! verified logic: the frame codec, the per-connection handler state
//! machine, the broadcast hub model, and the identifier dispatcher. The
//! asynchronous transport loop around it is ordinary, unverified code.

pub mod codec;
pub mod dispatcher;
pub mod handler;
pub mod hub;
pub mod message;
