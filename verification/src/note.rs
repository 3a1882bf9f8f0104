//! A note is a pitch class with an octave number, as in scientific pitch
//! notation: A4 is the A above middle C, and C4, middle C, follows B3.

use crate::error::{renders, SyntaxErrorType, SyntaxFlaw};
use crate::text::{chars_of, digit_value, is_digit, is_word, slice_of, string_of};
use vstd::prelude::*;

verus! {

#[derive(Clone, Copy, Debug, PartialEq, Eq)]
pub enum PitchClass {
    A,
    BFlat,
    B,
    C,
    DFlat,
    D,
    EFlat,
    E,
    F,
    GFlat,
    G,
    AFlat,
}

#[derive(Clone, Copy, Debug, PartialEq, Eq)]
pub struct Note {
    pub pitch_class: PitchClass,
    pub octave: u32,
}

/// The pitch class that `name` spells. A black key has two spellings, with a
/// sharp and with a flat.
pub open spec fn pitch_class_of(name: Seq<char>) -> Option<PitchClass> {
    if name == "A"@ {
        Some(PitchClass::A)
    } else if name == "A#"@ || name == "Bb"@ {
        Some(PitchClass::BFlat)
    } else if name == "B"@ {
        Some(PitchClass::B)
    } else if name == "C"@ {
        Some(PitchClass::C)
    } else if name == "C#"@ || name == "Db"@ {
        Some(PitchClass::DFlat)
    } else if name == "D"@ {
        Some(PitchClass::D)
    } else if name == "D#"@ || name == "Eb"@ {
        Some(PitchClass::EFlat)
    } else if name == "E"@ {
        Some(PitchClass::E)
    } else if name == "F"@ {
        Some(PitchClass::F)
    } else if name == "F#"@ || name == "Gb"@ {
        Some(PitchClass::GFlat)
    } else if name == "G"@ {
        Some(PitchClass::G)
    } else if name == "G#"@ || name == "Ab"@ {
        Some(PitchClass::AFlat)
    } else {
        None
    }
}

/// The note that `token` spells: a pitch class, then one decimal digit for the
/// octave. An empty token is a `MissingEntry`; an unknown spelling before the
/// last character is a `BadPitchClass` that carries it; after a known
/// spelling, a last character that is no digit is a `BadOctave` that carries it.
pub open spec fn note_of(token: Seq<char>) -> Result<Note, SyntaxFlaw> {
    if token.len() == 0 {
        Err(SyntaxFlaw::MissingEntry)
    } else {
        match pitch_class_of(token.drop_last()) {
            None => Err(SyntaxFlaw::BadPitchClass(token.drop_last())),
            Some(pitch_class) => if is_digit(token.last()) {
                Ok(Note { pitch_class, octave: digit_value(token.last()) as u32 })
            } else {
                Err(SyntaxFlaw::BadOctave(seq![token.last()]))
            },
        }
    }
}

/// The A of an octave lies whole octaves above the pitch of 13.75 Hz, one more
/// than its octave number: A0 one octave, at 27.5 Hz, and A4 five, at 440 Hz.
pub proof fn lemma_a_lies_whole_octaves_up(octave: u32)
    ensures
        (Note { pitch_class: PitchClass::A, octave }).semitones() == 12 * (octave + 1),
{
}

/// The same pitch class one octave higher lies twelve semitones higher.
pub proof fn lemma_octave_is_twelve_semitones(pitch_class: PitchClass, octave: u32)
    requires
        octave < u32::MAX,
    ensures
        (Note { pitch_class, octave: (octave + 1) as u32 }).semitones() == (Note {
            pitch_class,
            octave,
        }).semitones() + 12,
{
}

/// Within one octave number the pitch classes rise from C to B, a semitone at
/// a time.
pub proof fn lemma_pitch_classes_rise_from_c()
    ensures
        PitchClass::C.steps() + 1 == PitchClass::DFlat.steps(),
        PitchClass::DFlat.steps() + 1 == PitchClass::D.steps(),
        PitchClass::D.steps() + 1 == PitchClass::EFlat.steps(),
        PitchClass::EFlat.steps() + 1 == PitchClass::E.steps(),
        PitchClass::E.steps() + 1 == PitchClass::F.steps(),
        PitchClass::F.steps() + 1 == PitchClass::GFlat.steps(),
        PitchClass::GFlat.steps() + 1 == PitchClass::G.steps(),
        PitchClass::G.steps() + 1 == PitchClass::AFlat.steps(),
        PitchClass::AFlat.steps() + 1 == PitchClass::A.steps(),
        PitchClass::A.steps() + 1 == PitchClass::BFlat.steps(),
        PitchClass::BFlat.steps() + 1 == PitchClass::B.steps(),
        PitchClass::B.steps() + 1 == PitchClass::C.steps() + 12,
{
}

impl PitchClass {
    /// How many semitones the note of this pitch class in octave 0 lies above
    /// the pitch of 13.75 Hz. Octave numbers change at C: C0 lies three
    /// semitones above that pitch, and A0, B flat 0 and B0 follow G0 and A flat
    /// 0, a full octave and more above it.
    pub open spec fn steps(self) -> nat {
        match self {
            Self::C => 3,
            Self::DFlat => 4,
            Self::D => 5,
            Self::EFlat => 6,
            Self::E => 7,
            Self::F => 8,
            Self::GFlat => 9,
            Self::G => 10,
            Self::AFlat => 11,
            Self::A => 12,
            Self::BFlat => 13,
            Self::B => 14,
        }
    }

    /// The pitch class that `name` spells, if it spells one.
    pub fn lookup(name: &Vec<char>) -> (r: Option<Self>)
        ensures
            r == pitch_class_of(name@),
    {
        if is_word(name, "A") {
            Some(Self::A)
        } else if is_word(name, "A#") || is_word(name, "Bb") {
            Some(Self::BFlat)
        } else if is_word(name, "B") {
            Some(Self::B)
        } else if is_word(name, "C") {
            Some(Self::C)
        } else if is_word(name, "C#") || is_word(name, "Db") {
            Some(Self::DFlat)
        } else if is_word(name, "D") {
            Some(Self::D)
        } else if is_word(name, "D#") || is_word(name, "Eb") {
            Some(Self::EFlat)
        } else if is_word(name, "E") {
            Some(Self::E)
        } else if is_word(name, "F") {
            Some(Self::F)
        } else if is_word(name, "F#") || is_word(name, "Gb") {
            Some(Self::GFlat)
        } else if is_word(name, "G") {
            Some(Self::G)
        } else if is_word(name, "G#") || is_word(name, "Ab") {
            Some(Self::AFlat)
        } else {
            None
        }
    }
}

impl Note {
    /// How many semitones this note lies above the pitch of 13.75 Hz. In equal
    /// temperament its frequency is 13.75 Hz times two to the power of a twelfth
    /// of this number: 60 for A4, the A of 440 Hz.
    pub open spec fn semitones(self) -> nat {
        12 * self.octave as nat + self.pitch_class.steps()
    }

    /// The note that `token` spells.
    pub fn parse(token: &Vec<char>) -> (r: Result<Self, SyntaxErrorType>)
        ensures
            renders(r, note_of(token@)),
            r is Ok ==> r.unwrap().octave <= 9,
    {
        let len = token.len();
        if len == 0 {
            return Err(SyntaxErrorType::MissingEntry);
        }
        let name = slice_of(token, 0, len - 1);
        assert(name@ == token@.drop_last());
        let pitch_class = match PitchClass::lookup(&name) {
            Some(pitch_class) => pitch_class,
            None => {
                return Err(SyntaxErrorType::BadPitchClass(string_of(&name)));
            },
        };
        let last = token[len - 1];
        let u: u32 = last as u32;
        if 0x30 <= u && u <= 0x39 {
            Ok(Self { pitch_class, octave: u - 0x30 })
        } else {
            let mut s = String::new();
            s.push(last);
            assert(s@ == seq![token@.last()]);
            Err(SyntaxErrorType::BadOctave(s))
        }
    }

    /// Reads a note, such as `A4`, `C#3` or `Bb5`.
    pub fn new(note: &str) -> (r: Result<Self, SyntaxErrorType>)
        ensures
            renders(r, note_of(note@)),
            r is Ok ==> r.unwrap().octave <= 9,
    {
        let token = chars_of(note);
        Self::parse(&token)
    }

    /// How many semitones this note lies above the pitch of 13.75 Hz.
    pub fn position(&self) -> (k: u64)
        ensures
            k == self.semitones(),
    {
        let steps: u64 = match self.pitch_class {
            PitchClass::C => 3,
            PitchClass::DFlat => 4,
            PitchClass::D => 5,
            PitchClass::EFlat => 6,
            PitchClass::E => 7,
            PitchClass::F => 8,
            PitchClass::GFlat => 9,
            PitchClass::G => 10,
            PitchClass::AFlat => 11,
            PitchClass::A => 12,
            PitchClass::BFlat => 13,
            PitchClass::B => 14,
        };
        12 * (self.octave as u64) + steps
    }
}

} // verus!
