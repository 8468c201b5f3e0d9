//! A large-digit clock face: a fixed glyph table for the decimal digits, the
//! assembly of an `HH:MM:SS` string into a block of coloured character spans,
//! the face for a time of day, and the decision of the run loop on each input
//! event.

pub mod glyph;
pub mod render;
pub mod clock;
pub mod control;
