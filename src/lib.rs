//! Client-side engine for the two-channel file-transfer protocol: reply
//! assembly, passive-mode negotiation, payload decoding and the per-request
//! exchange that keeps the control and data channels in step.

pub mod status;
pub mod types;
pub mod reply;
pub mod passive;
pub mod decode;
pub mod command;
pub mod session;

pub use types::{FtpError, Line};
