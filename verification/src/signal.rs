//! One line of a score: a note that sounds from a start tick for a duration,
//! at an amplitude, in one of four wave forms.

use crate::duration::abbrev_of;
use crate::error::{renders, SyntaxErrorType, SyntaxFlaw};
use crate::note::{note_of, Note};
use crate::number::Number;
use crate::text::{
    chars_of, field_or_empty, fields, is_word, parse_unsigned, split_whitespace, string_of,
    tokens, unsigned_within,
};
use vstd::prelude::*;

verus! {

#[derive(Clone, Copy, Debug, PartialEq, Eq)]
pub enum WaveType {
    Sine,
    Square,
    Triangle,
    Sawtooth,
}

/// A length in ticks. A tick is as long as a sixty-fourth note, so a quarter
/// note, one beat, has 16 ticks.
#[derive(Clone, Copy, Debug, PartialEq, Eq)]
pub struct NoteDuration {
    pub ticks: u32,
}

/// A note as scheduled: it sounds from tick `start` to tick `start +
/// duration.ticks`, both included. `ampl` scales its wave; in a signal that
/// was read from a line it is a finite number, not below zero.
#[derive(Clone, Copy, Debug, PartialEq, Eq)]
pub struct NoteSignal {
    pub start: u32,
    pub duration: NoteDuration,
    pub note: Note,
    pub ampl: Number,
    pub wavetype: WaveType,
}

/// The wave form that `token` names: `S` a sine, `Q` a square, `T` a triangle
/// and `A` a sawtooth wave. Any other token is a `BadWaveform` that carries it.
pub open spec fn wave_of(token: Seq<char>) -> Result<WaveType, SyntaxFlaw> {
    if token == "S"@ {
        Ok(WaveType::Sine)
    } else if token == "Q"@ {
        Ok(WaveType::Square)
    } else if token == "T"@ {
        Ok(WaveType::Triangle)
    } else if token == "A"@ {
        Ok(WaveType::Sawtooth)
    } else {
        Err(SyntaxFlaw::BadWaveform(token))
    }
}

/// The length that `token` gives: what the abbreviation of a note length
/// lasts or, where `token` abbreviates none, the number of ticks that it
/// spells. Any other token is a `BadDuration` that carries it.
pub open spec fn duration_of(token: Seq<char>) -> Result<NoteDuration, SyntaxFlaw> {
    match abbrev_of(token) {
        Some(d) => Ok(NoteDuration { ticks: d.ticks() }),
        None => match unsigned_within(token, u32::MAX as nat) {
            Some(n) => Ok(NoteDuration { ticks: n as u32 }),
            None => Err(SyntaxFlaw::BadDuration(token)),
        },
    }
}

/// The amplitude that a reading of a line's fourth field gives: the reading
/// itself, where it is a finite number that is not below zero.
pub open spec fn amplitude_of(reading: Option<Number>) -> Option<Number> {
    match reading {
        Some(ampl) => if ampl.finite_non_negative() {
            Some(ampl)
        } else {
            None
        },
        None => None,
    }
}

/// The signal that a line describes in five fields: start tick, duration,
/// note, amplitude and wave form. `ampl` is what the fourth field reads as,
/// `None` where it reads as no number; a reading that is below zero, infinite
/// or no number is refused as a `BadAmplitude` too. The fields are judged in
/// their order, and the first that is missing or refused decides the error.
pub open spec fn signal_of(line: Seq<char>, ampl: Option<Number>) -> Result<
    NoteSignal,
    SyntaxFlaw,
> {
    let f = fields(line);
    if f.len() < 1 {
        Err(SyntaxFlaw::MissingEntry)
    } else if unsigned_within(f[0], u32::MAX as nat) is None {
        Err(SyntaxFlaw::BadStartTime(f[0]))
    } else if f.len() < 2 {
        Err(SyntaxFlaw::MissingEntry)
    } else if duration_of(f[1]) is Err {
        Err(duration_of(f[1])->Err_0)
    } else if f.len() < 3 {
        Err(SyntaxFlaw::MissingEntry)
    } else if note_of(f[2]) is Err {
        Err(note_of(f[2])->Err_0)
    } else if f.len() < 4 {
        Err(SyntaxFlaw::MissingEntry)
    } else if amplitude_of(ampl) is None {
        Err(SyntaxFlaw::BadAmplitude(f[3]))
    } else if f.len() < 5 {
        Err(SyntaxFlaw::MissingEntry)
    } else if wave_of(f[4]) is Err {
        Err(wave_of(f[4])->Err_0)
    } else {
        Ok(
            NoteSignal {
                start: unsigned_within(f[0], u32::MAX as nat)->Some_0 as u32,
                duration: duration_of(f[1])->Ok_0,
                note: note_of(f[2])->Ok_0,
                ampl: ampl->Some_0,
                wavetype: wave_of(f[4])->Ok_0,
            },
        )
    }
}

/// A line with fewer than five fields is refused, and where each field that
/// it has is accepted, the flaw is the entry that is missing.
pub proof fn lemma_short_line_misses_entry(line: Seq<char>, ampl: Option<Number>)
    requires
        fields(line).len() < 5,
    ensures
        signal_of(line, ampl) is Err,
        ({
            let f = fields(line);
            &&& f.len() > 0 ==> unsigned_within(f[0], u32::MAX as nat) is Some
            &&& f.len() > 1 ==> duration_of(f[1]) is Ok
            &&& f.len() > 2 ==> note_of(f[2]) is Ok
            &&& f.len() > 3 ==> amplitude_of(ampl) is Some
        }) ==> signal_of(line, ampl) == Err::<NoteSignal, SyntaxFlaw>(SyntaxFlaw::MissingEntry),
{
}

/// A line gives a signal exactly when it has five fields or more and each of
/// the first five is accepted: a start tick, a duration, a note, an amplitude
/// that is finite and not below zero, and a wave form. The signal holds what
/// each field gives, whatever the white space around the fields.
pub proof fn lemma_signal_when_all_accepted(line: Seq<char>, ampl: Option<Number>)
    ensures
        signal_of(line, ampl) is Ok <==> {
            let f = fields(line);
            &&& f.len() >= 5
            &&& unsigned_within(f[0], u32::MAX as nat) is Some
            &&& duration_of(f[1]) is Ok
            &&& note_of(f[2]) is Ok
            &&& amplitude_of(ampl) is Some
            &&& wave_of(f[4]) is Ok
        },
        signal_of(line, ampl) is Ok ==> {
            let f = fields(line);
            let signal = signal_of(line, ampl)->Ok_0;
            &&& signal.start == unsigned_within(f[0], u32::MAX as nat)->Some_0
            &&& signal.duration == duration_of(f[1])->Ok_0
            &&& signal.note == note_of(f[2])->Ok_0
            &&& signal.ampl == ampl->Some_0
            &&& signal.ampl.finite_non_negative()
            &&& signal.wavetype == wave_of(f[4])->Ok_0
        },
{
}

/// What a line gives depends on its fields alone, not on the white space
/// between and around them.
pub proof fn lemma_signal_depends_on_fields(
    line: Seq<char>,
    other: Seq<char>,
    ampl: Option<Number>,
)
    requires
        fields(line) == fields(other),
    ensures
        signal_of(line, ampl) == signal_of(other, ampl),
{
}

impl WaveType {
    /// The wave form that `token` names.
    pub fn parse(token: &Vec<char>) -> (r: Result<Self, SyntaxErrorType>)
        ensures
            renders(r, wave_of(token@)),
    {
        if is_word(token, "S") {
            Ok(Self::Sine)
        } else if is_word(token, "Q") {
            Ok(Self::Square)
        } else if is_word(token, "T") {
            Ok(Self::Triangle)
        } else if is_word(token, "A") {
            Ok(Self::Sawtooth)
        } else {
            Err(SyntaxErrorType::BadWaveform(string_of(token)))
        }
    }

    /// Reads the name of a wave form: `S`, `Q`, `T` or `A`.
    pub fn new(input: &str) -> (r: Result<Self, SyntaxErrorType>)
        ensures
            renders(r, wave_of(input@)),
    {
        let token = chars_of(input);
        Self::parse(&token)
    }
}

impl NoteDuration {
    /// The length that `token` gives.
    pub fn parse(token: &Vec<char>) -> (r: Result<Self, SyntaxErrorType>)
        ensures
            renders(r, duration_of(token@)),
    {
        match crate::duration::NoteDuration::lookup(token) {
            Some(d) => Ok(Self { ticks: d.as_ticks() }),
            None => match parse_unsigned(token, 0xffff_ffff) {
                Some(n) => Ok(Self { ticks: n as u32 }),
                None => Err(SyntaxErrorType::BadDuration(string_of(token))),
            },
        }
    }

    /// Reads a length: the abbreviation of a note length, or a number of ticks.
    pub fn new(input: &str) -> (r: Result<Self, SyntaxErrorType>)
        ensures
            renders(r, duration_of(input@)),
    {
        let token = chars_of(input);
        Self::parse(&token)
    }
}

impl NoteSignal {
    /// The last tick at which this signal sounds.
    pub open spec fn end(self) -> nat {
        self.start as nat + self.duration.ticks as nat
    }

    /// Whether this signal sounds at `tick`.
    pub open spec fn sounds_at(self, tick: nat) -> bool {
        self.start <= tick <= self.end()
    }

    /// Whether this signal sounds at `tick` or later.
    pub open spec fn lasts_to(self, tick: nat) -> bool {
        tick <= self.end()
    }

    /// The signal that the fields of a line describe.
    pub fn parse(line: &Vec<char>, ampl: Option<Number>) -> (r: Result<Self, SyntaxErrorType>)
        ensures
            renders(r, signal_of(line@, ampl)),
            r is Ok ==> r->Ok_0.ampl.finite_non_negative(),
    {
        let parts = split_whitespace(line);
        assert(forall|k: int|
            0 <= k < parts.len() ==> parts[k]@ == #[trigger] fields(line@)[k]) by {
            assert(forall|k: int| 0 <= k < parts.len() ==> tokens(parts@)[k] == parts[k]@);
        }
        assert(parts.len() == fields(line@).len()) by {
            assert(tokens(parts@).len() == parts.len());
        }
        if parts.len() < 1 {
            return Err(SyntaxErrorType::MissingEntry);
        }
        let start: u32 = match parse_unsigned(&parts[0], 0xffff_ffff) {
            Some(n) => n as u32,
            None => {
                return Err(SyntaxErrorType::BadStartTime(string_of(&parts[0])));
            },
        };
        if parts.len() < 2 {
            return Err(SyntaxErrorType::MissingEntry);
        }
        let duration = match NoteDuration::parse(&parts[1]) {
            Ok(d) => d,
            Err(e) => {
                return Err(e);
            },
        };
        if parts.len() < 3 {
            return Err(SyntaxErrorType::MissingEntry);
        }
        let note = match Note::parse(&parts[2]) {
            Ok(n) => n,
            Err(e) => {
                return Err(e);
            },
        };
        if parts.len() < 4 {
            return Err(SyntaxErrorType::MissingEntry);
        }
        let ampl = match ampl {
            Some(a) => a,
            None => {
                return Err(SyntaxErrorType::BadAmplitude(string_of(&parts[3])));
            },
        };
        if !ampl.is_finite_non_negative() {
            return Err(SyntaxErrorType::BadAmplitude(string_of(&parts[3])));
        }
        if parts.len() < 5 {
            return Err(SyntaxErrorType::MissingEntry);
        }
        let wavetype = match WaveType::parse(&parts[4]) {
            Ok(w) => w,
            Err(e) => {
                return Err(e);
            },
        };
        Ok(Self { start, duration, note, ampl, wavetype })
    }

    /// Reads a line of five fields separated by white space, such as
    /// `0 Q A4 1.0 S`. `ampl` is what the fourth field reads as, `None` where
    /// it reads as no number. An amplitude is a finite number, not below zero.
    pub fn new(input: &str, ampl: Option<Number>) -> (r: Result<Self, SyntaxErrorType>)
        ensures
            renders(r, signal_of(input@, ampl)),
            r is Ok ==> r->Ok_0.ampl.finite_non_negative(),
    {
        let line = chars_of(input);
        Self::parse(&line, ampl)
    }

    /// The field of a line that holds the amplitude, the fourth: what it reads
    /// as is what `new` takes as `ampl`. Empty where the line has fewer fields.
    pub fn amplitude_field(input: &str) -> (token: String)
        ensures
            token@ == field_or_empty(input@, 3),
    {
        let line = chars_of(input);
        let parts = split_whitespace(&line);
        assert(tokens(parts@).len() == parts.len());
        if 3 < parts.len() {
            assert(tokens(parts@)[3] == parts[3]@);
            string_of(&parts[3])
        } else {
            String::new()
        }
    }

    /// The last tick at which this signal sounds.
    pub fn end_tick(&self) -> (t: u64)
        ensures
            t == self.end(),
    {
        self.start as u64 + self.duration.ticks as u64
    }
}

} // verus!
