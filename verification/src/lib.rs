//! Verified core of a commit/verify/decode pipeline for note transfers.
//!
//! A host canonically encodes transfer parameters, commits to them with a
//! field-element hash, and publishes the encoding in an advice map keyed by
//! the commitment digest.  A guest later looks the encoding up by digest,
//! re-derives the digest while loading it, decodes it into structured
//! parameters, and uses those to create a note and move an asset into it
//! under all-or-nothing semantics.  The library also models the vault and
//! note state machines that consume the decoded parameters, the guard that
//! validates a note's embedded target before releasing its assets, and a
//! storage-map-backed counter component.

pub mod advice;
pub mod asset;
pub mod build_config;
pub mod commitment;
pub mod counter;
pub mod error;
pub mod field;
pub mod guard;
pub mod notes;
pub mod params;
pub mod rpo;
pub mod script;
pub mod vault;
