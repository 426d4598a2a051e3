//! The CEC session and its domain types.

pub mod callbacks;
pub mod ffi;
pub mod replies;
pub mod session;
pub mod tables;
pub mod types;
