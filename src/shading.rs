//! Histogram colouring: from the escape count of every sample of a frame to
//! the blue channel that each sample is drawn with.
//!
//! A sample that escaped after `n` iterations gets the brightness
//! `before(n) / total`, where `before(n)` counts the samples of the frame that
//! escaped after fewer than `n` iterations and `total` counts those that
//! escaped at all. Its blue channel is `floor(255 * brightness)`. A sample that
//! reached the budget never escaped and stays black.

use vstd::prelude::*;

verus! {

/// How many samples of `s` escaped after fewer than `n` iterations.
pub open spec fn below(s: Seq<u32>, n: int) -> nat
    decreases s.len(),
{
    if s.len() == 0 {
        0
    } else {
        below(s.drop_last(), n) + if (s.last() as int) < n { 1nat } else { 0nat }
    }
}

/// How many samples of `s` escaped after exactly `k` iterations.
pub open spec fn occurrences(s: Seq<u32>, k: int) -> nat
    decreases s.len(),
{
    if s.len() == 0 {
        0
    } else {
        occurrences(s.drop_last(), k) + if s.last() as int == k { 1nat } else { 0nat }
    }
}

/// The sum of the histogram's buckets `0 .. n`.
pub open spec fn histogram_prefix(s: Seq<u32>, n: nat) -> nat
    decreases n,
{
    if n == 0 {
        0
    } else {
        histogram_prefix(s, (n - 1) as nat) + occurrences(s, n - 1)
    }
}

/// The blue channel of the brightness `before / total`; black when nothing
/// escaped.
pub open spec fn blue_of(before: nat, total: nat) -> nat {
    if total == 0 {
        0
    } else {
        255 * before / total
    }
}

/// The blue channel of a sample with escape count `n` in a frame whose samples
/// have the counts `s`, under the budget `max_iterations`.
pub open spec fn sample_blue(s: Seq<u32>, max_iterations: u32, n: u32) -> nat {
    if n >= max_iterations {
        0
    } else {
        blue_of(below(s, n as int), below(s, max_iterations as int))
    }
}

proof fn lemma_below_bounded(s: Seq<u32>, n: int)
    ensures
        below(s, n) <= s.len(),
    decreases s.len(),
{
    if s.len() > 0 {
        lemma_below_bounded(s.drop_last(), n);
    }
}

proof fn lemma_occurrences_bounded(s: Seq<u32>, k: int)
    ensures
        occurrences(s, k) <= s.len(),
    decreases s.len(),
{
    if s.len() > 0 {
        lemma_occurrences_bounded(s.drop_last(), k);
    }
}

proof fn lemma_below_step(s: Seq<u32>, n: int)
    ensures
        below(s, n + 1) == below(s, n) + occurrences(s, n),
    decreases s.len(),
{
    if s.len() > 0 {
        lemma_below_step(s.drop_last(), n);
    }
}

proof fn lemma_below_monotonic(s: Seq<u32>, m: int, n: int)
    requires
        m <= n,
    ensures
        below(s, m) <= below(s, n),
    decreases s.len(),
{
    if s.len() > 0 {
        lemma_below_monotonic(s.drop_last(), m, n);
    }
}

/// A sample whose count lies in `n .. m` makes `below(s, n)` fall short of
/// `below(s, m)`.
proof fn lemma_below_strict(s: Seq<u32>, i: int, n: int, m: int)
    requires
        0 <= i < s.len(),
        n <= s[i] < m,
    ensures
        below(s, n) < below(s, m),
    decreases s.len(),
{
    if i == s.len() - 1 {
        lemma_below_monotonic(s.drop_last(), n, m);
    } else {
        lemma_below_strict(s.drop_last(), i, n, m);
    }
}

/// Summing the histogram's buckets below `n` counts the samples that escaped
/// after fewer than `n` iterations.
pub proof fn lemma_histogram_prefix(s: Seq<u32>, n: nat)
    ensures
        histogram_prefix(s, n) == below(s, n as int),
    decreases n,
{
    if n == 0 {
        lemma_below_zero(s);
    } else {
        lemma_histogram_prefix(s, (n - 1) as nat);
        lemma_below_step(s, n - 1);
    }
}

proof fn lemma_below_zero(s: Seq<u32>)
    ensures
        below(s, 0) == 0,
    decreases s.len(),
{
    if s.len() > 0 {
        lemma_below_zero(s.drop_last());
    }
}

/// The blue channel of the brightness `before / total`.
pub fn blue(before: usize, total: usize) -> (r: u8)
    requires
        before <= total,
    ensures
        r == blue_of(before as nat, total as nat),
{
    if total == 0 {
        0
    } else {
        let b: u128 = before as u128;
        let t: u128 = total as u128;
        proof {
            assert(255 * b <= 255 * t) by (nonlinear_arith)
                requires
                    b <= t,
            ;
            assert((255 * b) as int / (t as int) <= 255) by (nonlinear_arith)
                requires
                    b <= t,
                    t > 0,
            ;
        }
        ((255 * b) / t) as u8
    }
}

/// Bucket `k` counts the samples that escaped after exactly `k` iterations,
/// for every `k` below the budget; the last bucket, for the budget itself,
/// stays empty, since such samples never escaped.
pub fn histogram(counts: &Vec<u32>, max_iterations: u32) -> (r: Vec<usize>)
    requires
        max_iterations < usize::MAX,
    ensures
        r@.len() == max_iterations as nat + 1,
        forall|k: int| 0 <= k < max_iterations ==> #[trigger] r@[k] == occurrences(counts@, k),
        r@[max_iterations as int] == 0,
{
    let len: usize = max_iterations as usize + 1;
    let mut hist: Vec<usize> = Vec::new();
    let mut k: usize = 0;
    while k < len
        invariant
            len == max_iterations as nat + 1,
            k <= len,
            hist@.len() == k,
            forall|j: int| 0 <= j < k ==> #[trigger] hist@[j] == 0,
        decreases len - k,
    {
        hist.push(0);
        k = k + 1;
    }
    let mut i: usize = 0;
    while i < counts.len()
        invariant
            i <= counts@.len(),
            hist@.len() == max_iterations as nat + 1,
            forall|j: int|
                0 <= j < max_iterations ==> #[trigger] hist@[j] == occurrences(
                    counts@.take(i as int),
                    j,
                ),
            hist@[max_iterations as int] == 0,
        decreases counts@.len() - i,
    {
        let c: u32 = counts[i];
        let ghost before = counts@.take(i as int);
        let ghost after = counts@.take(i as int + 1);
        proof {
            assert(after.drop_last() =~= before);
            assert(after.last() == c);
        }
        if c < max_iterations {
            proof {
                lemma_occurrences_bounded(before, c as int);
            }
            let cu: usize = c as usize;
            let v: usize = hist[cu];
            hist.set(cu, v + 1);
        }
        i = i + 1;
    }
    proof {
        assert(counts@.take(counts@.len() as int) =~= counts@);
    }
    hist
}

/// The blue channel of every sample, in the order of `counts`.
pub fn sample_blues(counts: &Vec<u32>, max_iterations: u32) -> (r: Vec<u8>)
    requires
        max_iterations < usize::MAX,
    ensures
        r@.len() == counts@.len(),
        forall|i: int|
            0 <= i < counts@.len() ==> #[trigger] r@[i] == sample_blue(
                counts@,
                max_iterations,
                counts@[i],
            ),
{
    let hist: Vec<usize> = histogram(counts, max_iterations);
    let max: usize = max_iterations as usize;
    let n_samples: usize = counts.len();
    // before[k] counts the samples that escaped after fewer than k iterations
    let mut before: Vec<usize> = Vec::new();
    before.push(0);
    proof {
        lemma_below_zero(counts@);
    }
    let mut k: usize = 0;
    while k < max
        invariant
            max == max_iterations,
            n_samples == counts@.len(),
            hist@.len() == max + 1,
            forall|j: int| 0 <= j < max_iterations ==> #[trigger] hist@[j] == occurrences(counts@, j),
            k <= max,
            before@.len() == k + 1,
            forall|j: int| 0 <= j <= k ==> #[trigger] before@[j] == below(counts@, j),
        decreases max - k,
    {
        proof {
            lemma_below_step(counts@, k as int);
            lemma_below_bounded(counts@, k as int + 1);
        }
        let next: usize = before[k] + hist[k];
        before.push(next);
        k = k + 1;
    }
    let total: usize = before[max];
    let mut blues: Vec<u8> = Vec::new();
    let mut i: usize = 0;
    while i < counts.len()
        invariant
            max == max_iterations,
            before@.len() == max + 1,
            forall|j: int| 0 <= j <= max ==> #[trigger] before@[j] == below(counts@, j),
            total == below(counts@, max as int),
            i <= counts@.len(),
            blues@.len() == i,
            forall|j: int|
                0 <= j < i ==> #[trigger] blues@[j] == sample_blue(
                    counts@,
                    max_iterations,
                    counts@[j],
                ),
        decreases counts@.len() - i,
    {
        let n: u32 = counts[i];
        let b: u8 = if n >= max_iterations {
            0
        } else {
            proof {
                lemma_below_monotonic(counts@, n as int, max as int);
            }
            blue(before[n as usize], total)
        };
        blues.push(b);
        i = i + 1;
    }
    blues
}

/// A sample that escapes later is never darker than one that escaped
/// earlier in the same frame.
pub proof fn lemma_blue_monotonic(s: Seq<u32>, max_iterations: u32, m: u32, n: u32)
    requires
        m <= n < max_iterations,
    ensures
        sample_blue(s, max_iterations, m) <= sample_blue(s, max_iterations, n),
{
    let t = below(s, max_iterations as int);
    let a = below(s, m as int);
    let b = below(s, n as int);
    lemma_below_monotonic(s, m as int, n as int);
    if t > 0 {
        assert(255 * a / t <= 255 * b / t) by (nonlinear_arith)
            requires
                a <= b,
                t > 0,
        ;
    }
}

/// Every sample of a frame has a brightness below one, so its blue channel
/// stays under 255; a sample that never escaped is black.
pub proof fn lemma_blue_below_full(s: Seq<u32>, max_iterations: u32, i: int)
    requires
        0 <= i < s.len(),
    ensures
        sample_blue(s, max_iterations, s[i]) < 255,
        s[i] >= max_iterations ==> sample_blue(s, max_iterations, s[i]) == 0,
{
    if s[i] < max_iterations {
        let t = below(s, max_iterations as int);
        let a = below(s, s[i] as int);
        lemma_below_strict(s, i, s[i] as int, max_iterations as int);
        assert(255 * a / t < 255) by (nonlinear_arith)
            requires
                a < t,
        ;
    }
}

/// Where no sample of a frame escaped, every sample is black, whatever its
/// count.
pub proof fn lemma_no_escape_is_black(s: Seq<u32>, max_iterations: u32)
    requires
        below(s, max_iterations as int) == 0,
    ensures
        forall|n: u32| #[trigger] sample_blue(s, max_iterations, n) == 0,
{
}

} // verus!
