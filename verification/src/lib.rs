//! Upload ingestion pipeline for a screenshot-capture server.
//!
//! The library models the path an uploaded image takes through the server:
//! a probe of the first bytes is sniffed for a magic-number verdict, the
//! client-declared MIME type is reconciled against that verdict, a
//! collision-free target path is chosen from the configuration, and the
//! stream is drained under a size limit before being handed on for decoding.
//! Every stage is specified by a contract and verified; the surrounding
//! HTTP, filesystem and clipboard plumbing lives outside the library and
//! drives these functions with plain values.

pub mod conf;
pub mod digits;
pub mod file_type;
pub mod handler_err;
pub mod limit;
pub mod paths;
pub mod sniff;
pub mod upload;
