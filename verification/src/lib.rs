//! A proxy in front of a compiler service: it resolves what a caller asks for against a catalog
//! of compilers, builds the requests, brings the answers to one outcome type, decides what of
//! an outcome is shown, and fits the reply into one chat message.
//!
//! The library does no input or output. Whoever uses it fetches, sends and keeps time, and
//! hands the library plain values.

pub mod answer;
pub mod delivery;
pub mod diff;
pub mod format;
pub mod language;
pub mod number;
pub mod output;
pub mod ranking;
pub mod request;
pub mod resolve;
pub mod response;
pub mod targets;
pub mod text;
