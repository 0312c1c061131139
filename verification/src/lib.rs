//! Decoding and rendering of the records that an iroh blob store keeps in its
//! redb database, with the byte-level formatting proved against its specification.

pub mod decimal;
pub mod hex;
pub mod listing;
pub mod notes;
pub mod tables;
pub mod text;
