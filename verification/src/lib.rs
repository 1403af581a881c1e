//! A minimal verified client-side core for a Redis-style request/response
//! wire protocol: RESP command encoding, response frame delimiting, and the
//! connection send/close lifecycle.

pub mod command;
pub mod commands;
pub mod connection;
pub mod errors;
pub mod frame;
pub mod protocol;
