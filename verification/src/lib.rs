//! Shapes one block's transaction traces into normalized, classified records.
//!
//! The library classifies each transaction trace into one of six kinds from
//! its topology, normalizes its raw fields with documented fallbacks, and
//! frames the resulting records in a tag-length-value wire form.

pub mod kinds;
pub mod hexfmt;
pub mod decimal;
pub mod trace;
pub mod classify;
pub mod records;
pub mod normalize;
pub mod mapper;
pub mod codec;
