//! A media-library descriptor: path sections holding entries and rules, and the
//! small scripting language that computes derived metadata fields.

pub mod text;
pub mod script;
pub mod value;
pub mod eval;
pub mod db;
pub mod section_laws;
pub mod cache;
