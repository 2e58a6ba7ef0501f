//! Classification of artist strings and validation of track metadata for a
//! local music index.
//!
//! Tag text arrives free-form: several artists in one field, separated in
//! several ways, with stray blanks. This crate turns such text into a
//! deduplicated model that tells well-known classical composers from other
//! performers, and assembles validated track records from the fields of one
//! file's tag. Every function is verified against a contract stated over
//! sequences of characters and mathematical sets.

pub mod classify;
pub mod composers;
pub mod db;
pub mod flac;
pub mod laws;
pub mod scan;
pub mod text;
