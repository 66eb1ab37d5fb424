//! A resource access and caching layer for a document compiler.
//!
//! The library maps logical resource identifiers to cache slots, memoizes
//! decoded content behind a content fingerprint, tracks which resources a
//! compilation cycle touched, and supplies a reproducible or lazily captured
//! clock. Reading from disk or standard input is left to the embedder: the
//! session hands out a load plan and takes the loaded bytes back.

pub mod args;
pub mod cell;
pub mod clock;
pub mod date;
pub mod error;
pub mod guard;
pub mod id;
pub mod output_template;
pub mod slot;
pub mod source;
pub mod strutil;
pub mod world;
