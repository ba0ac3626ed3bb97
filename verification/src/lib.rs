//! A verified core for an HTTP byte-range file server.
//!
//! The crate covers the protocol logic of serving files with support for
//! `Range: bytes=...` requests: parsing the range header, resolving the
//! requested interval against the resource's total length, and framing the
//! response (status code, `Content-Range`, `Content-Length`, body window).
//! Transport, file I/O and template plumbing live outside the library and
//! exchange plain values (byte strings and integers) with it.

pub mod digits;
pub mod scan;
pub mod range;
pub mod resolve;
pub mod frame;
pub mod listing;
pub mod errors;
pub mod laws;
