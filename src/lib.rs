//! Client side of the one-time-password Validation Protocol: signed
//! requests, authenticated responses and the decision rules that pick one
//! verdict out of several validation hosts.

pub mod bytes;
pub mod config;
pub mod error;
pub mod race;
pub mod request;
pub mod response;
pub mod sec;
