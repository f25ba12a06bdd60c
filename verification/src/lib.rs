//! Shared building blocks of an IPFS gateway node: a reader over an
//! in-memory byte buffer, the gateway's error values and the responses they
//! turn into, the test that tells multipart uploads apart, the combined node
//! configuration, and the directory tree built from a list of uploaded files.

pub mod bytes_reader;
pub mod config;
pub mod error;
pub mod extractor;
pub mod uploads;
