//! The errors that loading a score can end in, and what each says.

use crate::text::{decimal, decimal_string};
use vstd::prelude::*;
use vstd::string::*;

verus! {

/// What is wrong with a line of a score. All but `MissingEntry` carry the
/// token that was refused.
#[derive(Debug, PartialEq, Eq)]
pub enum SyntaxErrorType {
    MissingEntry,
    BadBPM(String),
    BadStartTime(String),
    BadDuration(String),
    BadPitchClass(String),
    BadOctave(String),
    BadAmplitude(String),
    BadWaveform(String),
}

/// Why no audio file was made.
#[derive(Debug, PartialEq, Eq)]
pub enum MusicError {
    /// A line of the score, counted from 1, and what is wrong with it.
    SyntaxError(usize, SyntaxErrorType),
    /// The score at this path could not be read.
    FileReadError(String),
    /// The audio file at this path could not be written.
    FileWriteError(String),
}

/// A `SyntaxErrorType` with its token as a sequence of characters.
pub enum SyntaxFlaw {
    MissingEntry,
    BadBPM(Seq<char>),
    BadStartTime(Seq<char>),
    BadDuration(Seq<char>),
    BadPitchClass(Seq<char>),
    BadOctave(Seq<char>),
    BadAmplitude(Seq<char>),
    BadWaveform(Seq<char>),
}

/// A `MusicError` with its texts as sequences of characters.
pub enum MusicFlaw {
    SyntaxError(usize, SyntaxFlaw),
    FileReadError(Seq<char>),
    FileWriteError(Seq<char>),
}

impl View for SyntaxErrorType {
    type V = SyntaxFlaw;

    open spec fn view(&self) -> SyntaxFlaw {
        match self {
            Self::MissingEntry => SyntaxFlaw::MissingEntry,
            Self::BadBPM(s) => SyntaxFlaw::BadBPM(s@),
            Self::BadStartTime(s) => SyntaxFlaw::BadStartTime(s@),
            Self::BadDuration(s) => SyntaxFlaw::BadDuration(s@),
            Self::BadPitchClass(s) => SyntaxFlaw::BadPitchClass(s@),
            Self::BadOctave(s) => SyntaxFlaw::BadOctave(s@),
            Self::BadAmplitude(s) => SyntaxFlaw::BadAmplitude(s@),
            Self::BadWaveform(s) => SyntaxFlaw::BadWaveform(s@),
        }
    }
}

impl View for MusicError {
    type V = MusicFlaw;

    open spec fn view(&self) -> MusicFlaw {
        match self {
            Self::SyntaxError(line, e) => MusicFlaw::SyntaxError(*line, e@),
            Self::FileReadError(s) => MusicFlaw::FileReadError(s@),
            Self::FileWriteError(s) => MusicFlaw::FileWriteError(s@),
        }
    }
}

/// Whether `found` is `wanted`: the same value, or an error that says the same.
pub open spec fn renders<T>(
    found: Result<T, SyntaxErrorType>,
    wanted: Result<T, SyntaxFlaw>,
) -> bool {
    match (found, wanted) {
        (Ok(a), Ok(b)) => a == b,
        (Err(e), Err(f)) => e@ == f,
        _ => false,
    }
}

/// `token` between double quotes, after `lead`.
pub open spec fn quoted(lead: Seq<char>, token: Seq<char>) -> Seq<char> {
    lead + token + seq!['"']
}

fn quote(lead: &str, token: &String) -> (m: String)
    ensures
        m@ == quoted(lead@, token@),
{
    let mut m = String::from_str(lead);
    m.append(token.as_str());
    m.push('"');
    m
}

impl SyntaxFlaw {
    /// The message for this flaw.
    pub open spec fn message(self) -> Seq<char> {
        match self {
            Self::MissingEntry => "missing entry"@,
            Self::BadBPM(s) => quoted("invalid BPM: \""@, s),
            Self::BadStartTime(s) => quoted("invalid start time: \""@, s),
            Self::BadDuration(s) => quoted("invalid duration: \""@, s),
            Self::BadPitchClass(s) => quoted("invalid pitch class: \""@, s),
            Self::BadOctave(s) => quoted("invalid octave: \""@, s),
            Self::BadAmplitude(s) => quoted("invalid amplitude: \""@, s),
            Self::BadWaveform(s) => quoted("invalid waveform abbreviation: \""@, s),
        }
    }
}

impl MusicFlaw {
    /// The message for this flaw.
    pub open spec fn message(self) -> Seq<char> {
        match self {
            Self::SyntaxError(line, e) => "Syntax error (line "@ + decimal(line as nat) + "): "@
                + e.message(),
            Self::FileReadError(file) => quoted("I/O error: failed to read file \""@, file),
            Self::FileWriteError(file) => quoted("I/O error: failed to write to file \""@, file),
        }
    }
}

impl SyntaxErrorType {
    /// The message that describes this error to the user.
    pub fn message(&self) -> (m: String)
        ensures
            m@ == self@.message(),
    {
        match self {
            Self::MissingEntry => String::from_str("missing entry"),
            Self::BadBPM(s) => quote("invalid BPM: \"", s),
            Self::BadStartTime(s) => quote("invalid start time: \"", s),
            Self::BadDuration(s) => quote("invalid duration: \"", s),
            Self::BadPitchClass(s) => quote("invalid pitch class: \"", s),
            Self::BadOctave(s) => quote("invalid octave: \"", s),
            Self::BadAmplitude(s) => quote("invalid amplitude: \"", s),
            Self::BadWaveform(s) => quote("invalid waveform abbreviation: \"", s),
        }
    }
}

impl MusicError {
    /// The one-line message that describes this error to the user.
    pub fn message(&self) -> (m: String)
        ensures
            m@ == self@.message(),
    {
        match self {
            Self::SyntaxError(line, e) => {
                let mut m = String::from_str("Syntax error (line ");
                m.append(decimal_string(*line).as_str());
                m.append("): ");
                m.append(e.message().as_str());
                m
            },
            Self::FileReadError(file) => quote("I/O error: failed to read file \"", file),
            Self::FileWriteError(file) => quote("I/O error: failed to write to file \"", file),
        }
    }
}

} // verus!
