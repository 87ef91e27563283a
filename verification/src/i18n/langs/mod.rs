//! The text tables, one per language that has one.

pub mod tr;

pub use tr::{tr, tr_text};
