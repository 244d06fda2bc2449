//! Patch distribution: a client-side fetch engine that pulls byte ranges from
//! an ordered list of sources with retry and fallback, a server-side
//! reconciliation engine that mirrors a publish directory onto remote
//! stores, and the checks behind the manager's file endpoints.
//!
//! The library decides and the caller acts. The engines are written as state
//! machines: they name the call to make next and take its outcome back, so
//! that all network and disk access stays with the caller. What each
//! function returns is stated in its contract and proved.

pub mod bytes;
pub mod decimal;
pub mod digest;
pub mod error;
pub mod extract_file;
pub mod file_status;
pub mod listing;
pub mod network;
pub mod session;
pub mod source;
pub mod terminal;
pub mod upload;
