//! Deciding whether two edits to a line-oriented text can change places.
//!
//! [`owned`] holds the hunks as data, [`commute`] the decision and the
//! rewriting, and [`laws`] what holds between the answers to a pair of hunks
//! handed over in either order.

pub mod commute;
pub mod laws;
pub mod owned;
