//! Turns a musical score, written as text, into 16-bit PCM audio at 44100 Hz.
//!
//! A score has one note per line, in five fields: start tick, duration, pitch,
//! amplitude and wave form, as in `0 Q A4 1.0 S`. A tick is a sixty-fourth
//! note. Lines that begin with `BPM`, `AMPL` or `AMPLITUDE` set the tempo and
//! the master amplitude of the piece.
//!
//! The library works in integers throughout. A number with a fraction, a
//! tempo or an amplitude, is held as a [`number::Number`]: the bits of a
//! double-precision value. The caller reads such numbers from their text and
//! adds up the waves; the library does the rest:
//!
//! 1. [`piece::MusicalPiece::number_fields`] names the token of each line that
//!    is a number with a fraction, and [`piece::MusicalPiece::new`] reads the
//!    score, given what those tokens read as.
//! 2. [`piece::MusicalPiece::synthesize`] begins a synthesis. For each sample,
//!    [`synthesis::Synthesis::sounding`] tells which signals sound, and
//!    [`synthesis::Synthesis::advance`] takes the rounded sum of their waves
//!    and tells whether the piece is over.
//! 3. [`utils::encode`] puts the header of the audio file before the samples.

pub mod duration;
pub mod error;
pub mod note;
pub mod number;
pub mod piece;
pub mod signal;
pub mod synthesis;
pub mod tempo;
pub mod text;
pub mod utils;
