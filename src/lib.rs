//! Fan control engine for servers whose cooling is driven through a BMC.
//!
//! The library holds the decisions of the daemon: configuration validation,
//! the temperature-to-duty-cycle curve, reading aggregation, the parsing of
//! what each sensor source reports, the retry policy, the IPMI OEM command
//! encoding, the session lifecycle and the supervisor's shutdown protocol.
//! Performing I/O is left to the caller, which feeds results back into these
//! functions.
pub mod aggregate;
pub mod config;
pub mod curve;
pub mod error;
pub mod ipmi;
mod json;
pub mod retry;
pub mod session;
pub mod source;
pub mod supervisor;
pub mod text;
