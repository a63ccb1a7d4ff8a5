//! Silence trimming and the shared sample buffer.

use vstd::prelude::*;
use crate::sample::Sample;

verus! {

/// Number of samples at the front of `s` that stay below `threshold`.
pub open spec fn leading_silence(s: Seq<Sample>, threshold: Sample) -> nat
    decreases s.len(),
{
    if s.len() == 0 || s[0].reaches(threshold) {
        0
    } else {
        1 + leading_silence(s.drop_first(), threshold)
    }
}

/// Number of samples at the back of `s` that stay below `threshold`.
pub open spec fn trailing_silence(s: Seq<Sample>, threshold: Sample) -> nat
    decreases s.len(),
{
    if s.len() == 0 || s.last().reaches(threshold) {
        0
    } else {
        1 + trailing_silence(s.drop_last(), threshold)
    }
}

/// No sample of `s` reaches `threshold`.
pub open spec fn all_silent(s: Seq<Sample>, threshold: Sample) -> bool {
    forall|i: int| 0 <= i < s.len() ==> !(#[trigger] s[i]).reaches(threshold)
}

/// What is left of `s` once the silent runs at both ends are cut away:
/// nothing if no sample reaches `threshold`, else everything from the first
/// sample that does to the last one that does.
pub open spec fn trimmed(s: Seq<Sample>, threshold: Sample) -> Seq<Sample> {
    if leading_silence(s, threshold) >= s.len() {
        Seq::empty()
    } else {
        s.subrange(leading_silence(s, threshold) as int, s.len() - trailing_silence(s, threshold))
    }
}

/// The leading run is exactly the samples before the first one that reaches
/// the threshold.
pub proof fn lemma_leading_silence(s: Seq<Sample>, threshold: Sample)
    ensures
        leading_silence(s, threshold) <= s.len(),
        forall|i: int|
            0 <= i < leading_silence(s, threshold) ==> !(#[trigger] s[i]).reaches(threshold),
        leading_silence(s, threshold) < s.len() ==> s[leading_silence(s, threshold) as int].reaches(
            threshold,
        ),
    decreases s.len(),
{
    if s.len() == 0 || s[0].reaches(threshold) {
    } else {
        let rest = s.drop_first();
        lemma_leading_silence(rest, threshold);
        assert forall|i: int| 0 <= i < leading_silence(s, threshold) implies !(#[trigger] s[i]).reaches(
            threshold,
        ) by {
            if i > 0 {
                assert(s[i] == rest[i - 1]);
            }
        }
        if leading_silence(s, threshold) < s.len() {
            assert(s[leading_silence(s, threshold) as int] == rest[leading_silence(
                rest,
                threshold,
            ) as int]);
        }
    }
}

/// The trailing run is exactly the samples after the last one that reaches
/// the threshold.
pub proof fn lemma_trailing_silence(s: Seq<Sample>, threshold: Sample)
    ensures
        trailing_silence(s, threshold) <= s.len(),
        forall|i: int|
            s.len() - trailing_silence(s, threshold) <= i < s.len() ==> !(#[trigger] s[i]).reaches(
                threshold,
            ),
        trailing_silence(s, threshold) < s.len() ==> s[s.len() - trailing_silence(s, threshold)
            - 1].reaches(threshold),
    decreases s.len(),
{
    if s.len() == 0 || s.last().reaches(threshold) {
    } else {
        let rest = s.drop_last();
        lemma_trailing_silence(rest, threshold);
        assert forall|i: int|
            s.len() - trailing_silence(s, threshold) <= i < s.len() implies !(#[trigger] s[i]).reaches(
            threshold,
        ) by {
            if i < s.len() - 1 {
                assert(s[i] == rest[i]);
            }
        }
        if trailing_silence(s, threshold) < s.len() {
            assert(s[s.len() - trailing_silence(s, threshold) - 1] == rest[rest.len()
                - trailing_silence(rest, threshold) - 1]);
        }
    }
}

/// A silent prefix of length `n` followed by a sample that reaches the
/// threshold fixes the leading run at `n`.
pub proof fn lemma_leading_silence_is(s: Seq<Sample>, threshold: Sample, n: int)
    requires
        0 <= n <= s.len(),
        forall|i: int| 0 <= i < n ==> !(#[trigger] s[i]).reaches(threshold),
        n < s.len() ==> s[n].reaches(threshold),
    ensures
        leading_silence(s, threshold) == n,
{
    lemma_leading_silence(s, threshold);
    let k = leading_silence(s, threshold) as int;
    if k < n {
        assert(!s[k].reaches(threshold));
    } else if k > n {
        assert(!s[n].reaches(threshold));
    }
}

/// A silent suffix of length `n` preceded by a sample that reaches the
/// threshold fixes the trailing run at `n`.
pub proof fn lemma_trailing_silence_is(s: Seq<Sample>, threshold: Sample, n: int)
    requires
        0 <= n <= s.len(),
        forall|i: int| s.len() - n <= i < s.len() ==> !(#[trigger] s[i]).reaches(threshold),
        n < s.len() ==> s[s.len() - n - 1].reaches(threshold),
    ensures
        trailing_silence(s, threshold) == n,
{
    lemma_trailing_silence(s, threshold);
    let k = trailing_silence(s, threshold) as int;
    if k < n {
        assert(!s[s.len() - k - 1].reaches(threshold));
    } else if k > n {
        assert(!s[s.len() - n - 1].reaches(threshold));
    }
}

/// A buffer in which no sample reaches the threshold trims to nothing.
pub proof fn lemma_trim_all_silent(s: Seq<Sample>, threshold: Sample)
    requires
        all_silent(s, threshold),
    ensures
        trimmed(s, threshold).len() == 0,
{
    lemma_leading_silence_is(s, threshold, s.len() as int);
}

/// A buffer in which the sample at position `k` is the only one to reach the
/// threshold trims to exactly that sample.
pub proof fn lemma_trim_single_sample(s: Seq<Sample>, threshold: Sample, k: int)
    requires
        0 <= k < s.len(),
        s[k].reaches(threshold),
        forall|i: int| 0 <= i < s.len() && i != k ==> !(#[trigger] s[i]).reaches(threshold),
    ensures
        trimmed(s, threshold) == seq![s[k]],
{
    lemma_leading_silence_is(s, threshold, k);
    lemma_trailing_silence_is(s, threshold, s.len() - k - 1);
    assert(trimmed(s, threshold) =~= seq![s[k]]);
}

/// A buffer that starts and ends with a sample that reaches the threshold
/// is kept whole.
pub proof fn lemma_trim_keeps_loud_ends(s: Seq<Sample>, threshold: Sample)
    requires
        s.len() > 0,
        s.first().reaches(threshold),
        s.last().reaches(threshold),
    ensures
        trimmed(s, threshold) == s,
{
    lemma_leading_silence_is(s, threshold, 0);
    lemma_trailing_silence_is(s, threshold, 0);
    assert(trimmed(s, threshold) =~= s);
}

/// What trimming keeps is a stretch of the input that starts and ends with a
/// sample that reaches the threshold, with only silence cut away around it.
pub proof fn lemma_trimmed_bounds(s: Seq<Sample>, threshold: Sample)
    ensures
        trimmed(s, threshold).len() <= s.len(),
        all_silent(s, threshold) <==> trimmed(s, threshold).len() == 0,
        trimmed(s, threshold).len() > 0 ==> trimmed(s, threshold).first().reaches(threshold)
            && trimmed(s, threshold).last().reaches(threshold),
        trimmed(s, threshold).len() > 0 ==> leading_silence(s, threshold) + trimmed(
            s,
            threshold,
        ).len() + trailing_silence(s, threshold) == s.len(),
{
    lemma_leading_silence(s, threshold);
    lemma_trailing_silence(s, threshold);
    let a = leading_silence(s, threshold) as int;
    let b = trailing_silence(s, threshold) as int;
    if a < s.len() {
        assert(s[a].reaches(threshold));
        assert(!all_silent(s, threshold));
        if b >= s.len() - a {
            assert(!s[a].reaches(threshold));
        }
        assert(b < s.len());
        assert(trimmed(s, threshold).first() == s[a]);
        assert(trimmed(s, threshold).last() == s[s.len() - b - 1]);
    } else {
        assert(all_silent(s, threshold));
    }
}

/// Cuts the silent runs off both ends of `samples`.  If no sample reaches
/// `threshold` the buffer is emptied.
pub fn trim_silence(samples: &mut Vec<Sample>, threshold: Sample)
    ensures
        final(samples)@ == trimmed(old(samples)@, threshold),
{
    let len = samples.len();
    let mut start: usize = 0;
    while start < len && !samples[start].at_or_above(threshold)
        invariant
            start <= len,
            len == samples.len(),
            samples@ == old(samples)@,
            forall|i: int| 0 <= i < start ==> !(#[trigger] samples@[i]).reaches(threshold),
        decreases len - start,
    {
        start += 1;
    }
    proof {
        lemma_leading_silence_is(samples@, threshold, start as int);
    }
    if start == len {
        samples.clear();
        return ;
    }
    let mut end: usize = len;
    while !samples[end - 1].at_or_above(threshold)
        invariant
            start < end <= len,
            len == samples.len(),
            samples@ == old(samples)@,
            samples@[start as int].reaches(threshold),
            forall|i: int| end <= i < len ==> !(#[trigger] samples@[i]).reaches(threshold),
        decreases end,
    {
        end -= 1;
    }
    proof {
        lemma_trailing_silence_is(samples@, threshold, len - end);
    }
    samples.truncate(end);
    let kept = samples.split_off(start);
    *samples = kept;
    assert(samples@ =~= trimmed(old(samples)@, threshold));
}

} // verus!
