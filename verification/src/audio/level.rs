//! Peak levels.

use vstd::prelude::*;

verus! {

/// The distance of a sample from silence.
pub open spec fn amplitude(sample: i16) -> nat {
    if sample >= 0 {
        sample as nat
    } else {
        (-sample) as nat
    }
}

/// The larger of two levels.
pub open spec fn louder(a: nat, b: nat) -> nat {
    if a >= b {
        a
    } else {
        b
    }
}

/// The largest amplitude among `samples`; 0 where there are none.
pub open spec fn peak(samples: Seq<i16>) -> nat
    decreases samples.len(),
{
    if samples.len() == 0 {
        0
    } else {
        louder(peak(samples.drop_last()), amplitude(samples.last()))
    }
}

/// The peak is the least level that no sample exceeds.
pub proof fn law_peak_is_the_maximum(samples: Seq<i16>)
    ensures
        forall|i: int| 0 <= i < samples.len() ==> amplitude(#[trigger] samples[i]) <= peak(samples),
        samples.len() > 0 ==> exists|i: int|
            0 <= i < samples.len() && amplitude(#[trigger] samples[i]) == peak(samples),
        peak(samples) <= 32768,
    decreases samples.len(),
{
    if samples.len() > 0 {
        let front = samples.drop_last();
        law_peak_is_the_maximum(front);
        assert forall|i: int| 0 <= i < samples.len() implies amplitude(#[trigger] samples[i])
            <= peak(samples) by {
            if i < front.len() {
                assert(front[i] == samples[i]);
            }
        }
        assert(samples[samples.len() - 1] == samples.last());
        if front.len() > 0 && peak(front) > amplitude(samples.last()) {
            let k = choose|i: int| 0 <= i < front.len() && amplitude(#[trigger] front[i]) == peak(
                front,
            );
            assert(samples[k] == front[k]);
        }
    }
}

/// The peak of two chunks in a row is the louder of their peaks.
pub proof fn law_peaks_join(a: Seq<i16>, b: Seq<i16>)
    ensures
        peak(a + b) == louder(peak(a), peak(b)),
    decreases b.len(),
{
    if b.len() == 0 {
        assert(a + b =~= a);
    } else {
        law_peaks_join(a, b.drop_last());
        assert((a + b).drop_last() =~= a + b.drop_last());
    }
}

/// Peak absolute amplitude of an interleaved buffer, out of 32768.
pub fn peak_of(samples: &[i16]) -> (level: u16)
    ensures
        level == peak(samples@),
{
    let mut level: u16 = 0;
    let mut i: usize = 0;
    while i < samples.len()
        invariant
            i <= samples@.len(),
            level == peak(samples@.take(i as int)),
        decreases samples@.len() - i,
    {
        let s: i16 = samples[i];
        let a: u16 = if s >= 0 {
            s as u16
        } else {
            (-(s as i32)) as u16
        };
        assert(samples@.take(i + 1).drop_last() =~= samples@.take(i as int));
        if a > level {
            level = a;
        }
        i = i + 1;
    }
    assert(samples@.take(i as int) =~= samples@);
    level
}

/// The louder of two levels.
pub fn louder_of(a: u16, b: u16) -> (level: u16)
    ensures
        level == louder(a as nat, b as nat),
{
    if a >= b {
        a
    } else {
        b
    }
}

/// Levels are distances: as far below silence is as loud as far above it, and the
/// louder of two is one of them and neither is louder than it.
pub proof fn law_levels_are_distances(sample: i16, a: nat, b: nat)
    ensures
        amplitude(sample) == sample || amplitude(sample) == -sample,
        amplitude(sample) >= sample && amplitude(sample) >= -sample,
        louder(a, b) == a || louder(a, b) == b,
        a <= louder(a, b) && b <= louder(a, b),
        peak(Seq::empty()) == 0,
{
}

} // verus!
