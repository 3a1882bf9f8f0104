//! The bookkeeping of a synthesis. Sample by sample it tells which signals
//! sound, takes the rounded sum of their waves, holds it to 16 bits, and drops
//! the signals that have ended. The waves themselves are the caller's part.

use crate::number::Number;
use crate::piece::Score;
use crate::signal::NoteSignal;
use crate::tempo::{lemma_tick_monotone, lemma_tick_unbounded, tick_at, tick_of};
use crate::utils::{clamp_sample, clamped, push_sample, sample_bytes};
use vstd::prelude::*;

verus! {

/// The test that a signal sounds at `tick`.
pub open spec fn sounding_at(tick: nat) -> spec_fn(NoteSignal) -> bool {
    |signal: NoteSignal| signal.sounds_at(tick)
}

/// The test that a signal sounds at `tick` or later.
pub open spec fn lasting_to(tick: nat) -> spec_fn(NoteSignal) -> bool {
    |signal: NoteSignal| signal.lasts_to(tick)
}

/// The signals that are still running when `n` samples of a piece have been
/// made: after each sample, the signals that ended before its tick are dropped.
pub open spec fn running_after(signals: Seq<NoteSignal>, bpm: Number, n: nat) -> Seq<NoteSignal>
    decreases n,
{
    if n == 0 {
        signals
    } else {
        running_after(signals, bpm, (n - 1) as nat).filter(
            lasting_to(tick_at(bpm, (n - 1) as nat)),
        )
    }
}

/// Filtering a sequence with one more item at its end.
proof fn lemma_filter_push<A>(s: Seq<A>, x: A, keep: spec_fn(A) -> bool)
    ensures
        s.push(x).filter(keep) == if keep(x) {
            s.filter(keep).push(x)
        } else {
            s.filter(keep)
        },
{
    reveal(Seq::filter);
    assert(s.push(x).drop_last() == s);
}

/// Filtering twice, where all that passes the second test passes the first,
/// is filtering by the second test alone.
proof fn lemma_filter_narrows<A>(
    s: Seq<A>,
    wide: spec_fn(A) -> bool,
    narrow: spec_fn(A) -> bool,
)
    requires
        forall|x: A| #[trigger] narrow(x) ==> wide(x),
    ensures
        s.filter(wide).filter(narrow) == s.filter(narrow),
    decreases s.len(),
{
    reveal(Seq::filter);
    if s.len() > 0 {
        let head = s.drop_last();
        lemma_filter_narrows(head, wide, narrow);
        if wide(s.last()) {
            lemma_filter_push(head.filter(wide), s.last(), narrow);
        }
    }
}

/// Dropping the signals that have ended loses nothing: once a sample has been
/// made, the running signals are those of the piece that last to the tick of
/// that sample.
pub proof fn lemma_running_are_lasting(signals: Seq<NoteSignal>, bpm: Number, n: nat)
    requires
        n > 0,
    ensures
        running_after(signals, bpm, n) == signals.filter(lasting_to(tick_at(bpm, (n - 1) as nat))),
    decreases n,
{
    let before = running_after(signals, bpm, (n - 1) as nat);
    assert(running_after(signals, bpm, n) == before.filter(
        lasting_to(tick_at(bpm, (n - 1) as nat)),
    ));
    if n > 1 {
        lemma_running_are_lasting(signals, bpm, (n - 1) as nat);
        assert(before == signals.filter(lasting_to(tick_at(bpm, (n - 2) as nat))));
        lemma_tick_monotone(bpm, (n - 2) as nat, (n - 1) as nat);
        lemma_filter_narrows(
            signals,
            lasting_to(tick_at(bpm, (n - 2) as nat)),
            lasting_to(tick_at(bpm, (n - 1) as nat)),
        );
    } else {
        assert(before == signals);
    }
}

/// The running signals that sound at a sample are the signals of the piece
/// that sound at it: no signal is dropped before its last sample.
pub proof fn lemma_running_sound_alike(signals: Seq<NoteSignal>, bpm: Number, n: nat)
    ensures
        running_after(signals, bpm, n).filter(sounding_at(tick_at(bpm, n))) == signals.filter(
            sounding_at(tick_at(bpm, n)),
        ),
{
    if n > 0 {
        lemma_running_are_lasting(signals, bpm, n);
        lemma_tick_monotone(bpm, (n - 1) as nat, n);
        lemma_filter_narrows(
            signals,
            lasting_to(tick_at(bpm, (n - 1) as nat)),
            sounding_at(tick_at(bpm, n)),
        );
    }
}

/// No signal lasts to `tick` exactly when every signal ends before it.
pub proof fn lemma_none_lasting(signals: Seq<NoteSignal>, tick: nat)
    ensures
        signals.filter(lasting_to(tick)).len() == 0 <==> forall|i: int|
            0 <= i < signals.len() ==> (#[trigger] signals[i]).end() < tick,
    decreases signals.len(),
{
    reveal(Seq::filter);
    if signals.len() > 0 {
        let head = signals.drop_last();
        lemma_none_lasting(head, tick);
        if forall|i: int| 0 <= i < signals.len() ==> (#[trigger] signals[i]).end() < tick {
            assert forall|i: int| 0 <= i < head.len() implies (#[trigger] head[i]).end() < tick by {
                assert(head[i] == signals[i]);
            }
            assert(signals[signals.len() - 1].end() < tick);
        }
        if signals.filter(lasting_to(tick)).len() == 0 {
            assert forall|i: int| 0 <= i < signals.len() implies (#[trigger] signals[i]).end()
                < tick by {
                if i < head.len() {
                    assert(head[i] == signals[i]);
                }
            }
        }
    }
}

/// A synthesis is over with sample `n` exactly when every signal of the piece
/// ends before the tick of that sample: then, and only then, nothing is left
/// running once the sample is made.
pub proof fn lemma_over_when_all_ended(signals: Seq<NoteSignal>, bpm: Number, n: nat)
    ensures
        running_after(signals, bpm, n + 1).len() == 0 <==> forall|i: int|
            0 <= i < signals.len() ==> (#[trigger] signals[i]).end() < tick_at(bpm, n),
{
    lemma_running_are_lasting(signals, bpm, n + 1);
    lemma_none_lasting(signals, tick_at(bpm, n));
}

/// Once nothing is left running, nothing runs again.
pub proof fn lemma_over_stays_over(signals: Seq<NoteSignal>, bpm: Number, m: nat, n: nat)
    requires
        m <= n,
        running_after(signals, bpm, m).len() == 0,
    ensures
        running_after(signals, bpm, n).len() == 0,
    decreases n - m,
{
    if m < n {
        lemma_over_stays_over(signals, bpm, m, (n - 1) as nat);
        running_after(signals, bpm, (n - 1) as nat).lemma_filter_len(
            lasting_to(tick_at(bpm, (n - 1) as nat)),
        );
    }
}

/// Every synthesis ends: at a tempo above zero, and with signals that all end
/// before the last tick that a `u32` holds, nothing is left running after some
/// number of samples.
pub proof fn lemma_synthesis_ends(signals: Seq<NoteSignal>, bpm: Number)
    requires
        bpm.positive(),
        forall|i: int| 0 <= i < signals.len() ==> (#[trigger] signals[i]).end() < u32::MAX,
    ensures
        exists|n: nat| running_after(signals, bpm, n).len() == 0,
{
    lemma_tick_unbounded(bpm, (u32::MAX - 1) as nat);
    let n = choose|n: nat| tick_at(bpm, n) > (u32::MAX - 1) as nat;
    lemma_over_when_all_ended(signals, bpm, n);
    assert(running_after(signals, bpm, n + 1).len() == 0);
}

/// What sounds of two scores played together is what sounds of the one, then
/// what sounds of the other: signals do not silence each other.
pub proof fn lemma_sounding_together(a: Seq<NoteSignal>, b: Seq<NoteSignal>, tick: nat)
    ensures
        (a + b).filter(sounding_at(tick)) == a.filter(sounding_at(tick)) + b.filter(
            sounding_at(tick),
        ),
{
    Seq::filter_distributes_over_add(a, b, sounding_at(tick));
}

/// Two signals of a score whose windows both hold a tick both sound at it,
/// each in its own right, even where the two are alike: neither stands for
/// the other, so their waves add up.
pub proof fn lemma_overlapping_both_sound(signals: Seq<NoteSignal>, i: int, j: int, tick: nat)
    requires
        0 <= i < j < signals.len(),
        signals[i].sounds_at(tick),
        signals[j].sounds_at(tick),
    ensures
        exists|a: int, b: int|
            0 <= a < b < signals.filter(sounding_at(tick)).len()
                && #[trigger] signals.filter(sounding_at(tick))[a] == signals[i]
                && #[trigger] signals.filter(sounding_at(tick))[b] == signals[j],
{
    let test = sounding_at(tick);
    let first = signals.subrange(0, i);
    let between = signals.subrange(i + 1, j);
    let rest = signals.subrange(j + 1, signals.len() as int);
    let upto_i = first.push(signals[i]);
    let upto_j = (upto_i + between).push(signals[j]);
    assert(signals == upto_j + rest);
    lemma_filter_push(first, signals[i], test);
    Seq::filter_distributes_over_add(upto_i, between, test);
    lemma_filter_push(upto_i + between, signals[j], test);
    Seq::filter_distributes_over_add(upto_j, rest, test);
    let a = first.filter(test).len() as int;
    let b = a + 1 + between.filter(test).len();
    let sounding = signals.filter(test);
    assert(sounding == first.filter(test).push(signals[i]).add(between.filter(test)).push(
        signals[j],
    ).add(rest.filter(test)));
    assert(sounding[a] == signals[i]);
    assert(sounding[b] == signals[j]);
    assert(0 <= a < b < sounding.len());
}

/// A synthesis under way: the samples made so far and the signals that are
/// still running. The caller adds what sounds at each sample and hands in the
/// rounded sum.
#[derive(Debug)]
pub struct Synthesis {
    /// The signals that have not ended, in the order of the piece.
    pub running: Vec<NoteSignal>,
    /// The tempo of the piece.
    pub bpm: Number,
    /// The samples made so far, two bytes each.
    pub data: Vec<u8>,
}

impl Synthesis {
    /// The index of the sample that is to be made next.
    pub open spec fn sample(&self) -> nat {
        self.data@.len() / 2
    }

    /// The tick in which the next sample lies.
    pub open spec fn tick(&self) -> nat {
        tick_at(self.bpm, self.sample())
    }

    /// Whether this is a synthesis of `piece`: it runs at the tempo of the
    /// piece, and the signals of the piece that have not ended are running.
    pub open spec fn follows(&self, piece: Score) -> bool {
        &&& self.bpm == piece.bpm
        &&& self.running@ == running_after(piece.signals, piece.bpm, self.sample())
    }

    /// The index of the sample that is to be made next, counted from 0.
    pub fn sample_index(&self) -> (n: u64)
        ensures
            n == self.sample(),
    {
        (self.data.len() / 2) as u64
    }

    /// The running signals that sound at the next sample, in their order: a
    /// signal sounds from its start tick to its end tick, both included.
    pub fn sounding(&self) -> (out: Vec<NoteSignal>)
        ensures
            out@ == self.running@.filter(sounding_at(self.tick())),
    {
        let tick = tick_of(self.bpm, self.sample_index()) as u64;
        let mut out: Vec<NoteSignal> = Vec::new();
        let mut i: usize = 0;
        proof {
            reveal(Seq::filter);
        }
        while i < self.running.len()
            invariant
                i <= self.running.len(),
                tick == self.tick(),
                out@ == self.running@.take(i as int).filter(sounding_at(self.tick())),
            decreases self.running.len() - i,
        {
            let signal = self.running[i];
            proof {
                lemma_filter_push(self.running@.take(i as int), signal, sounding_at(self.tick()));
                assert(self.running@.take(i + 1) == self.running@.take(i as int).push(signal));
            }
            if signal.start as u64 <= tick && tick <= signal.end_tick() {
                out.push(signal);
            }
            i += 1;
        }
        assert(self.running@.take(self.running.len() as int) == self.running@);
        out
    }

    /// Makes the next sample from `level`, the rounded sum of what sounds at
    /// it: appends the two bytes of the level, held to the range of a sample,
    /// and drops the signals that ended before the tick of this sample. Returns
    /// whether the synthesis is over: whether no signal is left running.
    pub fn advance(&mut self, level: i64) -> (done: bool)
        ensures
            final(self).data@ == old(self).data@ + sample_bytes(clamped(level as int)),
            final(self).running@ == old(self).running@.filter(lasting_to(old(self).tick())),
            final(self).bpm == old(self).bpm,
            final(self).sample() == old(self).sample() + 1,
            forall|piece: Score| #[trigger]
                old(self).follows(piece) ==> final(self).follows(piece),
            done == (final(self).running@.len() == 0),
    {
        let tick = tick_of(self.bpm, self.sample_index()) as u64;
        push_sample(&mut self.data, clamp_sample(level));
        let mut kept: Vec<NoteSignal> = Vec::new();
        let mut i: usize = 0;
        proof {
            reveal(Seq::filter);
        }
        while i < self.running.len()
            invariant
                i <= self.running.len(),
                self.running == old(self).running,
                tick == old(self).tick(),
                kept@ == self.running@.take(i as int).filter(lasting_to(old(self).tick())),
            decreases self.running.len() - i,
        {
            let signal = self.running[i];
            proof {
                lemma_filter_push(
                    self.running@.take(i as int),
                    signal,
                    lasting_to(old(self).tick()),
                );
                assert(self.running@.take(i + 1) == self.running@.take(i as int).push(signal));
            }
            if tick <= signal.end_tick() {
                kept.push(signal);
            }
            i += 1;
        }
        assert(self.running@.take(self.running.len() as int) == self.running@);
        self.running = kept;
        self.running.len() == 0
    }

    /// The samples made, two bytes each, the low byte first.
    pub fn into_data(self) -> (data: Vec<u8>)
        ensures
            data@ == self.data@,
    {
        self.data
    }
}

} // verus!
