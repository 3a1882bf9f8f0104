//! Where a sample lies in the score: the tempo turns the index of a sample
//! into a tick, in integer arithmetic on the bits of the tempo.

use crate::number::{Number, EXPONENT_MAX, HIDDEN_BIT};
use crate::utils::SAMPLE_RATE;
use vstd::arithmetic::div_mod::{
    lemma_basic_div, lemma_div_denominator, lemma_div_is_ordered, lemma_div_multiples_vanish,
};
use vstd::arithmetic::power2::{
    lemma2_to64, lemma2_to64_rest, lemma_pow2_adds, lemma_pow2_pos, lemma_pow2_strictly_increases,
    pow2,
};
use vstd::bits::lemma_u128_shr_is_div;
use vstd::prelude::*;

verus! {

/// Ticks in a beat: a beat is a quarter note.
pub const TICKS_PER_BEAT: u64 = 16;

/// Samples in a minute of audio: 60 times the sample rate.
pub const SAMPLES_PER_MINUTE: u64 = 2_646_000;

/// A minute of audio has 60 times the sample rate in samples.
pub proof fn lemma_samples_per_minute()
    ensures
        SAMPLES_PER_MINUTE == 60 * SAMPLE_RATE,
{
}

/// The ticks that have gone by at sample `n` of a piece played at `bpm` beats
/// per minute, before rounding down: `n` samples are `n / 44100` seconds, a
/// minute has `bpm` beats, and a beat has 16 ticks. The tempo is
/// `significand()` times two to the power of `scale()`.
pub open spec fn ticks_elapsed(bpm: Number, n: nat) -> nat {
    if bpm.scale() >= 0 {
        (n * TICKS_PER_BEAT as nat * bpm.significand() * pow2(bpm.scale() as nat))
            / SAMPLES_PER_MINUTE as nat
    } else {
        (n * TICKS_PER_BEAT as nat * bpm.significand()) / (SAMPLES_PER_MINUTE as nat * pow2(
            (-bpm.scale()) as nat,
        ))
    }
}

/// The tick in which sample `n` lies at the tempo `bpm`: the ticks gone by,
/// `n / 44100 * 16 * bpm / 60`, rounded down, and no more than a `u32`
/// holds. A tempo that is negative or no number leaves every sample in tick
/// 0; an infinite tempo puts every sample but the first in the last tick.
pub open spec fn tick_at(bpm: Number, n: nat) -> nat {
    if bpm.negative() || bpm.nan() {
        0
    } else if !bpm.finite() {
        if n == 0 {
            0
        } else {
            u32::MAX as nat
        }
    } else if ticks_elapsed(bpm, n) > u32::MAX {
        u32::MAX as nat
    } else {
        ticks_elapsed(bpm, n)
    }
}

/// Time does not run backwards: a later sample never lies in an earlier tick,
/// whatever the tempo.
pub proof fn lemma_tick_monotone(bpm: Number, m: nat, n: nat)
    requires
        m <= n,
    ensures
        tick_at(bpm, m) <= tick_at(bpm, n),
{
    if bpm.finite() && !bpm.negative() {
        let s = bpm.significand();
        if bpm.scale() >= 0 {
            let p = pow2(bpm.scale() as nat);
            assert(m * TICKS_PER_BEAT as nat * s * p <= n * TICKS_PER_BEAT as nat * s * p)
                by (nonlinear_arith)
                requires
                    m <= n,
            ;
            lemma_div_is_ordered(
                (m * TICKS_PER_BEAT as nat * s * p) as int,
                (n * TICKS_PER_BEAT as nat * s * p) as int,
                SAMPLES_PER_MINUTE as int,
            );
        } else {
            let p = pow2((-bpm.scale()) as nat);
            lemma_pow2_pos((-bpm.scale()) as nat);
            assert(m * TICKS_PER_BEAT as nat * s <= n * TICKS_PER_BEAT as nat * s)
                by (nonlinear_arith)
                requires
                    m <= n,
            ;
            assert(SAMPLES_PER_MINUTE as nat * p > 0) by (nonlinear_arith)
                requires
                    p > 0,
            ;
            lemma_div_is_ordered(
                (m * TICKS_PER_BEAT as nat * s) as int,
                (n * TICKS_PER_BEAT as nat * s) as int,
                (SAMPLES_PER_MINUTE as nat * p) as int,
            );
        }
    }
}

/// At a tempo above zero time does not stand still: every tick but the last
/// that a `u32` holds is passed at some sample.
pub proof fn lemma_tick_unbounded(bpm: Number, tick: nat)
    requires
        bpm.positive(),
        tick < u32::MAX,
    ensures
        exists|n: nat| tick_at(bpm, n) > tick,
{
    if !bpm.finite() {
        assert(tick_at(bpm, 1) > tick);
    } else {
        let s = bpm.significand();
        assert(s >= 1);
        if bpm.scale() >= 0 {
            let p = pow2(bpm.scale() as nat);
            lemma_pow2_pos(bpm.scale() as nat);
            let n = (tick + 1) * SAMPLES_PER_MINUTE as nat;
            let k = (tick + 1) * TICKS_PER_BEAT as nat * s * p;
            assert(n * TICKS_PER_BEAT as nat * s * p == SAMPLES_PER_MINUTE as nat * k)
                by (nonlinear_arith)
                requires
                    n == (tick + 1) * SAMPLES_PER_MINUTE as nat,
                    k == (tick + 1) * TICKS_PER_BEAT as nat * s * p,
            ;
            lemma_div_multiples_vanish(k as int, SAMPLES_PER_MINUTE as int);
            assert(k >= tick + 1) by (nonlinear_arith)
                requires
                    k == (tick + 1) * TICKS_PER_BEAT as nat * s * p,
                    TICKS_PER_BEAT == 16,
                    s >= 1,
                    p >= 1,
            ;
            assert(ticks_elapsed(bpm, n) == k);
            assert(tick_at(bpm, n) > tick);
        } else {
            let p = pow2((-bpm.scale()) as nat);
            lemma_pow2_pos((-bpm.scale()) as nat);
            let d = SAMPLES_PER_MINUTE as nat * p;
            let n = (tick + 1) * d;
            let k = (tick + 1) * TICKS_PER_BEAT as nat * s;
            assert(d > 0) by (nonlinear_arith)
                requires
                    d == SAMPLES_PER_MINUTE as nat * p,
                    SAMPLES_PER_MINUTE == 2_646_000,
                    p > 0,
            ;
            assert(n * TICKS_PER_BEAT as nat * s == d * k) by (nonlinear_arith)
                requires
                    n == (tick + 1) * d,
                    k == (tick + 1) * TICKS_PER_BEAT as nat * s,
            ;
            lemma_div_multiples_vanish(k as int, d as int);
            assert(k >= tick + 1) by (nonlinear_arith)
                requires
                    k == (tick + 1) * TICKS_PER_BEAT as nat * s,
                    TICKS_PER_BEAT == 16,
                    s >= 1,
            ;
            assert(ticks_elapsed(bpm, n) == k);
            assert(tick_at(bpm, n) > tick);
        }
    }
}

/// The tick in which sample `sample` lies at the tempo `bpm`.
pub fn tick_of(bpm: Number, sample: u64) -> (t: u32)
    ensures
        t == tick_at(bpm, sample as nat),
{
    if bpm.is_negative() {
        return 0;
    }
    let e = bpm.exponent_field();
    let f = bpm.fraction_field();
    if e == EXPONENT_MAX {
        return if f != 0 || sample == 0 {
            0
        } else {
            u32::MAX
        };
    }
    let sig: u64 = if e == 0 {
        f
    } else {
        HIDDEN_BIT + f
    };
    assert(sig == bpm.significand());
    let ghost n = sample as nat;
    let ghost s = sig as nat;
    if sample == 0 || sig == 0 {
        proof {
            assert(n * TICKS_PER_BEAT as nat * s == 0) by (nonlinear_arith)
                requires
                    n == 0 || s == 0,
            ;
            if bpm.scale() >= 0 {
                assert(n * TICKS_PER_BEAT as nat * s * pow2(bpm.scale() as nat) == 0)
                    by (nonlinear_arith)
                    requires
                        n * TICKS_PER_BEAT as nat * s == 0,
                ;
            } else {
                let p = pow2((-bpm.scale()) as nat);
                lemma_pow2_pos((-bpm.scale()) as nat);
                assert(SAMPLES_PER_MINUTE as nat * p > 0) by (nonlinear_arith)
                    requires
                        p > 0,
                ;
                lemma_basic_div(0, (SAMPLES_PER_MINUTE as nat * p) as int);
            }
        }
        return 0;
    }
    if e >= 1075 {
        proof {
            let p = pow2(bpm.scale() as nat);
            lemma_pow2_pos(bpm.scale() as nat);
            assert(n * TICKS_PER_BEAT as nat * s * p >= 0x100_0000_0000_0000) by (nonlinear_arith)
                requires
                    n >= 1,
                    s >= 0x10_0000_0000_0000,
                    p >= 1,
                    TICKS_PER_BEAT == 16,
            ;
            lemma_div_is_ordered(
                0x100_0000_0000_0000,
                (n * TICKS_PER_BEAT as nat * s * p) as int,
                SAMPLES_PER_MINUTE as int,
            );
        }
        return u32::MAX;
    }
    let down: u64 = if e == 0 {
        1074
    } else {
        1075 - e
    };
    assert(down == -bpm.scale());
    assert(n * 16 * s < 0x200_0000_0000_0000_0000_0000_0000_0000) by (nonlinear_arith)
        requires
            n < 0x1_0000_0000_0000_0000,
            s < 0x20_0000_0000_0000,
    ;
    assert(n * 16 < 0x10_0000_0000_0000_0000) by (nonlinear_arith)
        requires
            n < 0x1_0000_0000_0000_0000,
    ;
    let num: u128 = sample as u128 * 16 * sig as u128;
    let ghost p = pow2(down as nat);
    proof {
        lemma_pow2_pos(down as nat);
        assert(SAMPLES_PER_MINUTE as nat * p >= p) by (nonlinear_arith)
            requires
                p > 0,
                SAMPLES_PER_MINUTE == 2_646_000,
        ;
    }
    if down >= 121 {
        proof {
            lemma2_to64();
            lemma2_to64_rest();
            lemma_pow2_adds(64, 57);
            assert(pow2(121) == 0x200_0000_0000_0000_0000_0000_0000_0000) by (nonlinear_arith)
                requires
                    pow2(121) == pow2(64) * pow2(57),
                    pow2(64) == 0x1_0000_0000_0000_0000,
                    pow2(57) == 0x200_0000_0000_0000,
            ;
            if down > 121 {
                lemma_pow2_strictly_increases(121, down as nat);
            }
            lemma_basic_div(num as int, (SAMPLES_PER_MINUTE as nat * p) as int);
        }
        return 0;
    }
    let shifted: u128 = num >> (down as u128);
    let q: u128 = shifted / (SAMPLES_PER_MINUTE as u128);
    proof {
        lemma_u128_shr_is_div(num, down as u128);
        lemma_div_denominator(num as int, p as int, SAMPLES_PER_MINUTE as int);
        assert(p * SAMPLES_PER_MINUTE as nat == SAMPLES_PER_MINUTE as nat * p) by (nonlinear_arith);
        assert(q == ticks_elapsed(bpm, n));
    }
    if q > 0xffff_ffff {
        u32::MAX
    } else {
        q as u32
    }
}

} // verus!
