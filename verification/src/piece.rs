//! A musical piece: the signals of a score with a tempo and a master
//! amplitude, and how a piece is read from the text of a score.

use crate::error::{MusicError, MusicFlaw, SyntaxErrorType, SyntaxFlaw};
use crate::number::Number;
use crate::signal::{signal_of, NoteSignal};
use crate::synthesis::Synthesis;
use crate::tempo::{tick_at, tick_of};
use crate::text::{
    chars_of, field_or_empty, fields, lines, parse_unsigned, split_lines, split_whitespace,
    starts_with, string_of, tokens, unsigned_within,
};
use crate::utils::{default_bpm, DEFAULT_AMPL, DEFAULT_BPM_BITS};
use vstd::prelude::*;

verus! {

/// A score with a tempo and a master amplitude.
#[derive(Debug)]
pub struct MusicalPiece {
    /// The signals, in the order of their lines.
    pub signals: Vec<NoteSignal>,
    /// The tempo in beats per minute.
    pub bpm: Number,
    /// The master amplitude, which scales every signal.
    pub ampl: u16,
}

/// A `MusicalPiece` with its signals as a sequence.
pub struct Score {
    pub signals: Seq<NoteSignal>,
    pub bpm: Number,
    pub ampl: u16,
}

impl View for MusicalPiece {
    type V = Score;

    open spec fn view(&self) -> Score {
        Score { signals: self.signals@, bpm: self.bpm, ampl: self.ampl }
    }
}

/// What has been read of a score so far: the signals, and the tempo and the
/// master amplitude once either is set.
pub struct Draft {
    pub signals: Seq<NoteSignal>,
    pub bpm: Option<Number>,
    pub ampl: Option<u16>,
}

/// Whether `line` is a tempo directive.
pub open spec fn is_tempo_line(line: Seq<char>) -> bool {
    "BPM "@.is_prefix_of(line)
}

/// Whether `line` is a master-amplitude directive.
pub open spec fn is_amplitude_line(line: Seq<char>) -> bool {
    "AMPL "@.is_prefix_of(line) || "AMPLITUDE "@.is_prefix_of(line)
}

/// The token of `line` that stands for a number with a fraction: the tempo of
/// a tempo directive, the amplitude of a signal. Empty where the line has none.
pub open spec fn number_field(line: Seq<char>) -> Seq<char> {
    if is_tempo_line(line) {
        field_or_empty(line, 1)
    } else if is_amplitude_line(line) {
        Seq::empty()
    } else {
        field_or_empty(line, 3)
    }
}

/// Entry `k` of `readings`, or `None` where there is no such entry.
pub open spec fn reading_at(readings: Seq<Option<Number>>, k: int) -> Option<Number> {
    if 0 <= k < readings.len() {
        readings[k]
    } else {
        None
    }
}

/// The tempo that a reading of a directive's number gives: the reading itself,
/// where it is a finite number above zero.
pub open spec fn tempo_of(reading: Option<Number>) -> Option<Number> {
    match reading {
        Some(bpm) => if bpm.finite_positive() {
            Some(bpm)
        } else {
            None
        },
        None => None,
    }
}

/// What one line adds to a draft. `reading` is what the line's number field
/// reads as, `None` where it reads as no number.
///
/// A directive sets its value only while that value is not set: whoever sets it
/// first, the caller or an earlier line, wins, and the line is then passed
/// over unread. A tempo directive whose number is no finite number above zero
/// is a `BadBPM`. An empty line adds nothing. Every other line is a signal.
pub open spec fn with_line(draft: Draft, line: Seq<char>, reading: Option<Number>) -> Result<
    Draft,
    SyntaxFlaw,
> {
    if is_tempo_line(line) {
        if draft.bpm is Some {
            Ok(draft)
        } else if tempo_of(reading) is Some {
            Ok(Draft { bpm: reading, ..draft })
        } else {
            Err(SyntaxFlaw::BadBPM(field_or_empty(line, 1)))
        }
    } else if is_amplitude_line(line) {
        if draft.ampl is Some {
            Ok(draft)
        } else {
            match unsigned_within(field_or_empty(line, 1), u16::MAX as nat) {
                Some(a) => Ok(Draft { ampl: Some(a as u16), ..draft }),
                None => Err(SyntaxFlaw::BadAmplitude(field_or_empty(line, 1))),
            }
        }
    } else if line.len() == 0 {
        Ok(draft)
    } else {
        match signal_of(line, reading) {
            Ok(signal) => Ok(Draft { signals: draft.signals.push(signal), ..draft }),
            Err(flaw) => Err(flaw),
        }
    }
}

/// The piece that a finished draft stands for: a tempo or a master amplitude
/// that nothing has set takes its default.
pub open spec fn finished(draft: Draft) -> Score {
    Score {
        signals: draft.signals,
        bpm: match draft.bpm {
            Some(bpm) => bpm,
            None => default_bpm(),
        },
        ampl: match draft.ampl {
            Some(ampl) => ampl,
            None => DEFAULT_AMPL,
        },
    }
}

/// The piece that the lines from line `k` on make of `draft`, or the first
/// flaw among them with the number of its line, counted from 1.
pub open spec fn load_from(
    lines: Seq<Seq<char>>,
    readings: Seq<Option<Number>>,
    k: int,
    draft: Draft,
) -> Result<Score, MusicFlaw>
    decreases lines.len() - k,
{
    if 0 <= k < lines.len() {
        match with_line(draft, lines[k], reading_at(readings, k)) {
            Ok(next) => load_from(lines, readings, k + 1, next),
            Err(flaw) => Err(MusicFlaw::SyntaxError((k + 1) as usize, flaw)),
        }
    } else {
        Ok(finished(draft))
    }
}

/// The piece that a score describes. `readings` holds for each line what its
/// number field reads as; `bpm` and `ampl`, where given, overrule the
/// directives of the score.
pub open spec fn load(
    text: Seq<char>,
    readings: Seq<Option<Number>>,
    bpm: Option<Number>,
    ampl: Option<u16>,
) -> Result<Score, MusicFlaw> {
    load_from(lines(text), readings, 0, Draft { signals: Seq::empty(), bpm, ampl })
}

/// A tempo that is set stays: whether the caller gave it or a directive set
/// it, no later line changes it.
pub proof fn lemma_set_tempo_stays(
    lines: Seq<Seq<char>>,
    readings: Seq<Option<Number>>,
    k: int,
    draft: Draft,
)
    requires
        draft.bpm is Some,
        load_from(lines, readings, k, draft) is Ok,
    ensures
        load_from(lines, readings, k, draft)->Ok_0.bpm == draft.bpm->Some_0,
    decreases lines.len() - k,
{
    if 0 <= k < lines.len() {
        let next = with_line(draft, lines[k], reading_at(readings, k))->Ok_0;
        lemma_set_tempo_stays(lines, readings, k + 1, next);
    }
}

/// A master amplitude that is set stays: whether the caller gave it or a
/// directive set it, no later line changes it.
pub proof fn lemma_set_amplitude_stays(
    lines: Seq<Seq<char>>,
    readings: Seq<Option<Number>>,
    k: int,
    draft: Draft,
)
    requires
        draft.ampl is Some,
        load_from(lines, readings, k, draft) is Ok,
    ensures
        load_from(lines, readings, k, draft)->Ok_0.ampl == draft.ampl->Some_0,
    decreases lines.len() - k,
{
    if 0 <= k < lines.len() {
        let next = with_line(draft, lines[k], reading_at(readings, k))->Ok_0;
        lemma_set_amplitude_stays(lines, readings, k + 1, next);
    }
}

/// What the caller gives overrules the score: a piece is loaded with the
/// tempo and the master amplitude that the caller gave, whatever its
/// directives say.
pub proof fn lemma_caller_overrules(
    text: Seq<char>,
    readings: Seq<Option<Number>>,
    bpm: Option<Number>,
    ampl: Option<u16>,
)
    requires
        load(text, readings, bpm, ampl) is Ok,
    ensures
        bpm is Some ==> load(text, readings, bpm, ampl)->Ok_0.bpm == bpm->Some_0,
        ampl is Some ==> load(text, readings, bpm, ampl)->Ok_0.ampl == ampl->Some_0,
{
    let draft = Draft { signals: Seq::empty(), bpm, ampl };
    if bpm is Some {
        lemma_set_tempo_stays(lines(text), readings, 0, draft);
    }
    if ampl is Some {
        lemma_set_amplitude_stays(lines(text), readings, 0, draft);
    }
}

/// Whether every signal has an amplitude that is finite and not below zero.
pub open spec fn amplitudes_sound(signals: Seq<NoteSignal>) -> bool {
    forall|i: int| 0 <= i < signals.len() ==> (#[trigger] signals[i]).ampl.finite_non_negative()
}

/// Whether a tempo, where one is set, is a finite number above zero.
pub open spec fn tempo_sound(bpm: Option<Number>) -> bool {
    bpm is Some ==> bpm->Some_0.finite_positive()
}

/// The tempo of a piece that names none is a finite number above zero.
pub proof fn lemma_default_tempo_is_sound()
    ensures
        default_bpm().finite_positive(),
{
}

/// Reading lines keeps a draft sound: the signals that are added have
/// amplitudes that are finite and not below zero, and a tempo that a
/// directive sets is finite and above zero.
pub proof fn lemma_lines_keep_sound(
    lines: Seq<Seq<char>>,
    readings: Seq<Option<Number>>,
    k: int,
    draft: Draft,
)
    requires
        load_from(lines, readings, k, draft) is Ok,
    ensures
        amplitudes_sound(draft.signals) ==> amplitudes_sound(
            load_from(lines, readings, k, draft)->Ok_0.signals,
        ),
        tempo_sound(draft.bpm) ==> load_from(lines, readings, k, draft)->Ok_0.bpm.finite_positive(),
    decreases lines.len() - k,
{
    if 0 <= k < lines.len() {
        let next = with_line(draft, lines[k], reading_at(readings, k))->Ok_0;
        lemma_lines_keep_sound(lines, readings, k + 1, next);
        if amplitudes_sound(draft.signals) {
            assert forall|i: int| 0 <= i < next.signals.len() implies (
            #[trigger] next.signals[i]).ampl.finite_non_negative() by {
                if i < draft.signals.len() {
                    assert(next.signals[i] == draft.signals[i]);
                }
            }
        }
    } else {
        lemma_default_tempo_is_sound();
    }
}

/// A loaded piece is sound: every amplitude in it is a finite number not below
/// zero, and unless the caller gave another its tempo is a finite number
/// above zero.
pub proof fn lemma_loaded_piece_is_sound(
    text: Seq<char>,
    readings: Seq<Option<Number>>,
    bpm: Option<Number>,
    ampl: Option<u16>,
)
    requires
        load(text, readings, bpm, ampl) is Ok,
    ensures
        amplitudes_sound(load(text, readings, bpm, ampl)->Ok_0.signals),
        tempo_sound(bpm) ==> load(text, readings, bpm, ampl)->Ok_0.bpm.finite_positive(),
{
    let draft = Draft { signals: Seq::empty(), bpm, ampl };
    lemma_lines_keep_sound(lines(text), readings, 0, draft);
}

/// A flawed line ends the reading whatever was read before it, and the error
/// names the line by its number, counted from 1.
pub proof fn lemma_flaw_names_its_line(
    lines: Seq<Seq<char>>,
    readings: Seq<Option<Number>>,
    k: int,
    draft: Draft,
)
    requires
        0 <= k < lines.len(),
        with_line(draft, lines[k], reading_at(readings, k)) is Err,
    ensures
        load_from(lines, readings, k, draft) == Err::<Score, MusicFlaw>(
            MusicFlaw::SyntaxError(
                (k + 1) as usize,
                with_line(draft, lines[k], reading_at(readings, k))->Err_0,
            ),
        ),
{
}

/// A line that is no directive and has one to four fields, each of them
/// accepted, is reported as a missing entry.
pub proof fn lemma_short_line_is_reported(
    lines: Seq<Seq<char>>,
    readings: Seq<Option<Number>>,
    k: int,
    draft: Draft,
)
    requires
        0 <= k < lines.len(),
        !is_tempo_line(lines[k]),
        !is_amplitude_line(lines[k]),
        0 < fields(lines[k]).len() < 5,
        signal_of(lines[k], reading_at(readings, k)) == Err::<NoteSignal, SyntaxFlaw>(
            SyntaxFlaw::MissingEntry,
        ),
    ensures
        load_from(lines, readings, k, draft) == Err::<Score, MusicFlaw>(
            MusicFlaw::SyntaxError((k + 1) as usize, SyntaxFlaw::MissingEntry),
        ),
{
    assert(lines[k].len() > 0) by {
        if lines[k].len() == 0 {
            assert(fields(lines[k]).len() == 0);
        }
    }
}

/// Field `k` of `line`, or an empty token where the line has no such field.
pub fn field_at(line: &Vec<char>, k: usize) -> (token: Vec<char>)
    ensures
        token@ == field_or_empty(line@, k as int),
{
    let mut parts = split_whitespace(line);
    assert(tokens(parts@).len() == parts.len());
    if k < parts.len() {
        assert(tokens(parts@)[k as int] == parts[k as int]@);
        parts.swap_remove(k)
    } else {
        Vec::new()
    }
}

/// The number field of `line`.
pub fn number_field_of(line: &Vec<char>) -> (token: Vec<char>)
    ensures
        token@ == number_field(line@),
{
    if starts_with(line, "BPM ") {
        field_at(line, 1)
    } else if starts_with(line, "AMPL ") || starts_with(line, "AMPLITUDE ") {
        Vec::new()
    } else {
        field_at(line, 3)
    }
}

impl MusicalPiece {
    /// The number field of each line of a score, in the order of the lines.
    /// What each reads as is what `new` takes as `readings`.
    pub fn number_fields(input: &str) -> (out: Vec<String>)
        ensures
            out@.len() == lines(input@).len(),
            forall|k: int|
                0 <= k < out@.len() ==> (#[trigger] out@[k])@ == number_field(lines(input@)[k]),
    {
        let text = chars_of(input);
        let all = split_lines(&text);
        assert(tokens(all@).len() == all.len());
        let mut out: Vec<String> = Vec::new();
        let mut k: usize = 0;
        while k < all.len()
            invariant
                k <= all.len(),
                tokens(all@) == lines(input@),
                out@.len() == k,
                forall|j: int|
                    0 <= j < k ==> (#[trigger] out@[j])@ == number_field(lines(input@)[j]),
            decreases all.len() - k,
        {
            assert(tokens(all@)[k as int] == all[k as int]@);
            let token = number_field_of(&all[k]);
            out.push(string_of(&token));
            k += 1;
        }
        out
    }

    /// Reads a score. A line is a tempo directive (`BPM`, then the beats per
    /// minute), a master-amplitude directive (`AMPL` or `AMPLITUDE`, then a
    /// whole number up to 65535), or a signal in five fields. `readings` holds
    /// for each line what its number field reads as, `None` where it reads as
    /// no number or where `readings` is too short. A tempo is a finite number
    /// above zero, an amplitude a finite number not below zero. `bpm` and
    /// `ampl`, where given, overrule the directives, and are taken as they
    /// are. The first flaw ends the reading, and is returned with the number
    /// of its line.
    pub fn new(
        input: &str,
        readings: &Vec<Option<Number>>,
        bpm: Option<Number>,
        ampl: Option<u16>,
    ) -> (r: Result<Self, MusicError>)
        ensures
            match load(input@, readings@, bpm, ampl) {
                Ok(score) => r is Ok && r->Ok_0@ == score,
                Err(flaw) => r is Err && r->Err_0@ == flaw,
            },
            r is Ok ==> amplitudes_sound(r->Ok_0.signals@),
            r is Ok && tempo_sound(bpm) ==> r->Ok_0.bpm.finite_positive(),
    {
        proof {
            if load(input@, readings@, bpm, ampl) is Ok {
                lemma_loaded_piece_is_sound(input@, readings@, bpm, ampl);
            }
        }
        let text = chars_of(input);
        let all = split_lines(&text);
        assert(tokens(all@).len() == all.len());
        let mut signals: Vec<NoteSignal> = Vec::new();
        let mut tempo = bpm;
        let mut master = ampl;
        let mut k: usize = 0;
        while k < all.len()
            invariant
                k <= all.len(),
                tokens(all@) == lines(input@),
                load_from(
                    lines(input@),
                    readings@,
                    k as int,
                    Draft { signals: signals@, bpm: tempo, ampl: master },
                ) == load(input@, readings@, bpm, ampl),
            decreases all.len() - k,
        {
            assert(tokens(all@)[k as int] == all[k as int]@);
            let line = &all[k];
            let reading = if k < readings.len() {
                readings[k]
            } else {
                None
            };
            assert(reading == reading_at(readings@, k as int));
            let ghost draft = Draft { signals: signals@, bpm: tempo, ampl: master };
            if starts_with(line, "BPM ") {
                if tempo.is_none() {
                    let accepted = match reading {
                        Some(number) => number.is_finite_positive(),
                        None => false,
                    };
                    if !accepted {
                        let token = field_at(line, 1);
                        return Err(
                            MusicError::SyntaxError(
                                k + 1,
                                SyntaxErrorType::BadBPM(string_of(&token)),
                            ),
                        );
                    }
                    tempo = reading;
                }
            } else if starts_with(line, "AMPL ") || starts_with(line, "AMPLITUDE ") {
                if master.is_none() {
                    let token = field_at(line, 1);
                    match parse_unsigned(&token, 0xffff) {
                        Some(a) => {
                            master = Some(a as u16);
                        },
                        None => {
                            return Err(
                                MusicError::SyntaxError(
                                    k + 1,
                                    SyntaxErrorType::BadAmplitude(string_of(&token)),
                                ),
                            );
                        },
                    }
                }
            } else if line.len() == 0 {
            } else {
                match NoteSignal::parse(line, reading) {
                    Ok(signal) => {
                        signals.push(signal);
                    },
                    Err(e) => {
                        return Err(MusicError::SyntaxError(k + 1, e));
                    },
                }
            }
            assert(with_line(draft, line@, reading) == Ok::<Draft, SyntaxFlaw>(
                Draft { signals: signals@, bpm: tempo, ampl: master },
            ));
            k += 1;
        }
        let bpm = match tempo {
            Some(bpm) => bpm,
            None => Number { bits: DEFAULT_BPM_BITS },
        };
        let ampl = match master {
            Some(ampl) => ampl,
            None => DEFAULT_AMPL,
        };
        Ok(Self { signals, bpm, ampl })
    }

    /// The tick in which sample `sample` lies at the tempo of this piece.
    pub fn sample_to_tick(&self, sample: u64) -> (t: u32)
        ensures
            t == tick_at(self.bpm, sample as nat),
    {
        tick_of(self.bpm, sample)
    }

    /// Begins a synthesis of this piece: no sample is made yet, and every
    /// signal is running.
    pub fn synthesize(&self) -> (s: Synthesis)
        ensures
            s.running@ == self.signals@,
            s.bpm == self.bpm,
            s.data@ == Seq::<u8>::empty(),
            s.follows(self@),
    {
        let mut running: Vec<NoteSignal> = Vec::new();
        let mut i: usize = 0;
        while i < self.signals.len()
            invariant
                i <= self.signals.len(),
                running@ == self.signals@.take(i as int),
            decreases self.signals.len() - i,
        {
            running.push(self.signals[i]);
            i += 1;
        }
        assert(running@ == self.signals@);
        Synthesis { running, bpm: self.bpm, data: Vec::new() }
    }
}

} // verus!
