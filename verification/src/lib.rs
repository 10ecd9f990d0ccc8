//! Core of a command-line HTTP request tool: retry policy and backoff,
//! response post-processing (JSON path filtering and rendering), header and
//! form parsing, and configuration merging.  Transport, argument parsing and
//! file handling live outside the library and hand it plain values.

pub mod config;
pub mod display;
pub mod headers;
pub mod json;
pub mod path;
pub mod pipeline;
pub mod request;
pub mod retry;
pub mod strutil;
