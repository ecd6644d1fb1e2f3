//! Output stage of a declarative visualization pipeline.
//!
//! A [`writer::Writer`] turns a resolved [`plot::Plot`] and the tables it draws
//! from into a textual artifact. The contract of every writer is stated over
//! spec functions, so that callers can reason about `render`, `write` and
//! `validate` without knowing which backend they hold.

pub mod data;
pub mod error;
pub mod json;
pub mod plot;
pub mod prepared;
pub mod writer;
