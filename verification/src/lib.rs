//! Streaming search for candidate domain names.
//!
//! The library consumes a chunk-fragmented newline-delimited JSON byte
//! stream, reassembles it into complete lines, decodes each line into a
//! [`domain::DomainResult`], and models the session that drives the whole
//! exchange.  All record handling is specified and verified; the network
//! and terminal edges live outside the library.

pub mod config;
pub mod decode;
pub mod domain;
pub mod lines;
pub mod output;
pub mod request;
pub mod session;
