//! The named note lengths, from a thirty-second note to a whole note, and how
//! many ticks each lasts. A tick is a sixty-fourth note: a quarter note has 16.

use crate::error::{renders, SyntaxErrorType, SyntaxFlaw};
use crate::text::{chars_of, is_word, string_of};
use vstd::prelude::*;

verus! {

#[derive(Clone, Copy, Debug, PartialEq, Eq)]
pub enum NoteDuration {
    ThirtySecond,
    DottedThirtySecond,
    Sixteenth,
    DottedSixteenth,
    Eighth,
    DottedEighth,
    Quarter,
    DottedQuarter,
    Half,
    DottedHalf,
    Whole,
}

/// The note length that an abbreviation names.
pub open spec fn abbrev_of(token: Seq<char>) -> Option<NoteDuration> {
    if token == "TS"@ {
        Some(NoteDuration::ThirtySecond)
    } else if token == "DTS"@ {
        Some(NoteDuration::DottedThirtySecond)
    } else if token == "S"@ {
        Some(NoteDuration::Sixteenth)
    } else if token == "DS"@ {
        Some(NoteDuration::DottedSixteenth)
    } else if token == "E"@ {
        Some(NoteDuration::Eighth)
    } else if token == "DE"@ {
        Some(NoteDuration::DottedEighth)
    } else if token == "Q"@ {
        Some(NoteDuration::Quarter)
    } else if token == "DQ"@ {
        Some(NoteDuration::DottedQuarter)
    } else if token == "H"@ {
        Some(NoteDuration::Half)
    } else if token == "DH"@ {
        Some(NoteDuration::DottedHalf)
    } else if token == "W"@ {
        Some(NoteDuration::Whole)
    } else {
        None
    }
}

/// Every note length is read back from its abbreviation: no two note lengths
/// share one.
pub proof fn lemma_abbreviation_names_its_length(d: NoteDuration)
    ensures
        abbrev_of(d.abbreviation()) == Some(d),
{
    reveal_strlit("TS");
    reveal_strlit("DTS");
    reveal_strlit("S");
    reveal_strlit("DS");
    reveal_strlit("E");
    reveal_strlit("DE");
    reveal_strlit("Q");
    reveal_strlit("DQ");
    reveal_strlit("H");
    reveal_strlit("DH");
    reveal_strlit("W");
    // no two abbreviations agree in length, first and last character
    let token = d.abbreviation();
    assert(token.len() > 0);
    let first = token[0];
    let last = token.last();
}

impl NoteDuration {
    /// The abbreviation of this note length.
    pub open spec fn abbreviation(self) -> Seq<char> {
        match self {
            Self::ThirtySecond => "TS"@,
            Self::DottedThirtySecond => "DTS"@,
            Self::Sixteenth => "S"@,
            Self::DottedSixteenth => "DS"@,
            Self::Eighth => "E"@,
            Self::DottedEighth => "DE"@,
            Self::Quarter => "Q"@,
            Self::DottedQuarter => "DQ"@,
            Self::Half => "H"@,
            Self::DottedHalf => "DH"@,
            Self::Whole => "W"@,
        }
    }

    /// How many ticks this note length lasts.
    pub open spec fn ticks(self) -> u32 {
        match self {
            Self::ThirtySecond => 2,
            Self::DottedThirtySecond => 3,
            Self::Sixteenth => 4,
            Self::DottedSixteenth => 6,
            Self::Eighth => 8,
            Self::DottedEighth => 12,
            Self::Quarter => 16,
            Self::DottedQuarter => 24,
            Self::Half => 32,
            Self::DottedHalf => 48,
            Self::Whole => 64,
        }
    }

    /// The note length that `token` abbreviates, if it abbreviates one.
    pub fn lookup(token: &Vec<char>) -> (r: Option<Self>)
        ensures
            r == abbrev_of(token@),
    {
        if is_word(token, "TS") {
            Some(Self::ThirtySecond)
        } else if is_word(token, "DTS") {
            Some(Self::DottedThirtySecond)
        } else if is_word(token, "S") {
            Some(Self::Sixteenth)
        } else if is_word(token, "DS") {
            Some(Self::DottedSixteenth)
        } else if is_word(token, "E") {
            Some(Self::Eighth)
        } else if is_word(token, "DE") {
            Some(Self::DottedEighth)
        } else if is_word(token, "Q") {
            Some(Self::Quarter)
        } else if is_word(token, "DQ") {
            Some(Self::DottedQuarter)
        } else if is_word(token, "H") {
            Some(Self::Half)
        } else if is_word(token, "DH") {
            Some(Self::DottedHalf)
        } else if is_word(token, "W") {
            Some(Self::Whole)
        } else {
            None
        }
    }

    /// Reads an abbreviation. Any other input is a `BadDuration` that carries it.
    pub fn from_abbrev(input: &str) -> (r: Result<Self, SyntaxErrorType>)
        ensures
            renders(
                r,
                match abbrev_of(input@) {
                    Some(d) => Ok(d),
                    None => Err(SyntaxFlaw::BadDuration(input@)),
                },
            ),
    {
        let token = chars_of(input);
        match Self::lookup(&token) {
            Some(d) => Ok(d),
            None => Err(SyntaxErrorType::BadDuration(string_of(&token))),
        }
    }

    /// How many ticks this note length lasts.
    pub fn as_ticks(&self) -> (t: u32)
        ensures
            t == self.ticks(),
    {
        match self {
            Self::ThirtySecond => 2,
            Self::DottedThirtySecond => 3,
            Self::Sixteenth => 4,
            Self::DottedSixteenth => 6,
            Self::Eighth => 8,
            Self::DottedEighth => 12,
            Self::Quarter => 16,
            Self::DottedQuarter => 24,
            Self::Half => 32,
            Self::DottedHalf => 48,
            Self::Whole => 64,
        }
    }
}

} // verus!
