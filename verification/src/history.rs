//! Bounded histories of samples and the sums taken over them.

use vstd::prelude::*;

verus! {

/// Appends `x`, then drops the oldest sample if the history holds more than `max`.
pub open spec fn spec_push_then_trim<T>(h: Seq<T>, x: T, max: nat) -> Seq<T> {
    let p = h.push(x);
    if p.len() > max {
        p.subrange(1, p.len() as int)
    } else {
        p
    }
}

/// Drops the oldest sample when the history already holds `max` samples, then appends `x`.
pub open spec fn spec_trim_then_push<T>(h: Seq<T>, x: T, max: nat) -> Seq<T> {
    if h.len() >= max && h.len() > 0 {
        h.subrange(1, h.len() as int).push(x)
    } else {
        h.push(x)
    }
}

/// Appends `x` to `h`, then removes the oldest sample if there are more than `max`.
pub fn push_then_trim<T>(h: &mut Vec<T>, x: T, max: usize)
    ensures
        final(h)@ == spec_push_then_trim(old(h)@, x, max as nat),
{
    h.push(x);
    if h.len() > max {
        h.remove(0);
    }
    assert(final(h)@ =~= spec_push_then_trim(old(h)@, x, max as nat));
}

/// Removes the oldest sample of `h` if it already holds `max` (and is not empty),
/// then appends `x`.
pub fn trim_then_push<T>(h: &mut Vec<T>, x: T, max: usize)
    ensures
        final(h)@ == spec_trim_then_push(old(h)@, x, max as nat),
{
    if h.len() >= max && h.len() > 0 {
        h.remove(0);
    }
    h.push(x);
    assert(final(h)@ =~= spec_trim_then_push(old(h)@, x, max as nat));
}

/// Index of the first of the last `n` samples of a history of length `len`.
pub open spec fn tail_start(len: nat, n: nat) -> nat {
    if len > n {
        (len - n) as nat
    } else {
        0
    }
}

/// The last `n` samples of `h` (all of them when there are fewer).
pub open spec fn spec_take_last<T>(h: Seq<T>, n: nat) -> Seq<T> {
    h.subrange(tail_start(h.len(), n) as int, h.len() as int)
}

/// Copies the last `n` samples of `h`, oldest first.
pub fn take_last<T: Copy>(h: &Vec<T>, n: usize) -> (r: Vec<T>)
    ensures
        r@ == spec_take_last(h@, n as nat),
{
    let start: usize = if h.len() > n {
        h.len() - n
    } else {
        0
    };
    let mut r: Vec<T> = Vec::new();
    let mut i = start;
    while i < h.len()
        invariant
            start <= i <= h.len(),
            start == tail_start(h@.len(), n as nat),
            r@ == h@.subrange(start as int, i as int),
        decreases h.len() - i,
    {
        r.push(h[i]);
        assert(r@ =~= h@.subrange(start as int, i + 1));
        i = i + 1;
    }
    r
}

/// Sum of a sequence of integers.
pub open spec fn seq_sum(s: Seq<int>) -> int
    decreases s.len(),
{
    if s.len() == 0 {
        0
    } else {
        seq_sum(s.drop_last()) + s.last()
    }
}

/// Appending a value adds it to the sum.
pub proof fn lemma_sum_push(s: Seq<int>, x: int)
    ensures
        seq_sum(s.push(x)) == seq_sum(s) + x,
{
    assert(s.push(x).drop_last() =~= s);
}

/// Summing splits over concatenation.
pub proof fn lemma_sum_concat(a: Seq<int>, b: Seq<int>)
    ensures
        seq_sum(a + b) == seq_sum(a) + seq_sum(b),
    decreases b.len(),
{
    if b.len() == 0 {
        assert(a + b =~= a);
    } else {
        lemma_sum_concat(a, b.drop_last());
        assert((a + b).drop_last() =~= a + b.drop_last());
    }
}

/// Replacing one value changes the sum by the difference.
pub proof fn lemma_sum_update(s: Seq<int>, k: int, x: int)
    requires
        0 <= k < s.len(),
    ensures
        seq_sum(s.update(k, x)) == seq_sum(s) - s[k] + x,
    decreases s.len(),
{
    if k == s.len() - 1 {
        assert(s.update(k, x).drop_last() =~= s.drop_last());
    } else {
        lemma_sum_update(s.drop_last(), k, x);
        assert(s.update(k, x).drop_last() =~= s.drop_last().update(k, x));
    }
}

/// A non-negative value of a sequence of non-negative values is at most their sum.
pub proof fn lemma_sum_bounds_element(s: Seq<int>, k: int)
    requires
        0 <= k < s.len(),
        forall|i: int| 0 <= i < s.len() ==> s[i] >= 0,
    ensures
        s[k] <= seq_sum(s),
        seq_sum(s) >= 0,
    decreases s.len(),
{
    lemma_sum_nonneg(s.drop_last());
    if k < s.len() - 1 {
        lemma_sum_bounds_element(s.drop_last(), k);
    }
}

/// A sum of non-negative values is non-negative.
pub proof fn lemma_sum_nonneg(s: Seq<int>)
    requires
        forall|i: int| 0 <= i < s.len() ==> s[i] >= 0,
    ensures
        seq_sum(s) >= 0,
    decreases s.len(),
{
    if s.len() > 0 {
        lemma_sum_nonneg(s.drop_last());
    }
}

/// A history after a push-then-trim holds at most `max` samples, ends with the new
/// sample unless `max` is zero, and keeps the order of the samples it retains.
pub proof fn law_push_then_trim_bounded<T>(h: Seq<T>, x: T, max: nat)
    requires
        h.len() <= max,
    ensures
        spec_push_then_trim(h, x, max).len() <= max,
        max > 0 ==> spec_push_then_trim(h, x, max).last() == x,
        max > 0 ==> spec_push_then_trim(h, x, max).len() == if h.len() < max {
            h.len() + 1
        } else {
            max
        },
        forall|i: int|
            0 <= i < spec_push_then_trim(h, x, max).len() - 1 ==> #[trigger] spec_push_then_trim(
                h,
                x,
                max,
            )[i] == h[i + h.len() + 1 - spec_push_then_trim(h, x, max).len()],
{
}

/// A history after a trim-then-push holds at most `max` samples (for `max > 0`),
/// ends with the new sample, and keeps the order of the samples it retains.
pub proof fn law_trim_then_push_bounded<T>(h: Seq<T>, x: T, max: nat)
    requires
        h.len() <= max,
        max > 0,
    ensures
        spec_trim_then_push(h, x, max).len() <= max,
        spec_trim_then_push(h, x, max).last() == x,
        forall|i: int|
            0 <= i < spec_trim_then_push(h, x, max).len() - 1 ==> #[trigger] spec_trim_then_push(
                h,
                x,
                max,
            )[i] == h[i + h.len() + 1 - spec_trim_then_push(h, x, max).len()],
{
}

/// The history after the samples `xs` were added in order, each by a
/// trim-then-push, starting from `h`.
pub open spec fn spec_trim_then_push_all<T>(h: Seq<T>, xs: Seq<T>, max: nat) -> Seq<T>
    decreases xs.len(),
{
    if xs.len() == 0 {
        h
    } else {
        spec_trim_then_push(spec_trim_then_push_all(h, xs.drop_last(), max), xs.last(), max)
    }
}

/// Retention: starting empty, after the samples `xs` were added in order by
/// trim-then-push with a capacity of at least one, the history holds exactly
/// the newest `min(xs.len(), max)` of them, oldest first.
pub proof fn law_trim_then_push_keeps_newest<T>(xs: Seq<T>, max: nat)
    requires
        max > 0,
    ensures
        spec_trim_then_push_all(Seq::<T>::empty(), xs, max) == spec_take_last(xs, max),
    decreases xs.len(),
{
    if xs.len() > 0 {
        let ys = xs.drop_last();
        law_trim_then_push_keeps_newest(ys, max);
        let h = spec_take_last(ys, max);
        let k = xs.len();
        if ys.len() >= max {
            assert(h.subrange(1, h.len() as int).push(xs.last()) =~= xs.subrange(k - max, k as int));
        } else {
            assert(h =~= ys);
            assert(ys.push(xs.last()) =~= xs);
            assert(xs.subrange(0, k as int) =~= xs);
        }
    } else {
        assert(spec_take_last(xs, max) =~= xs);
    }
}

/// Every partial sum of a sequence of non-negative values is at most its sum.
pub proof fn lemma_sum_prefix_bound(s: Seq<int>)
    requires
        forall|i: int| 0 <= i < s.len() ==> s[i] >= 0,
    ensures
        forall|k: int| 0 <= k <= s.len() ==> seq_sum(#[trigger] s.subrange(0, k)) <= seq_sum(s),
    decreases s.len(),
{
    if s.len() > 0 {
        lemma_sum_prefix_bound(s.drop_last());
        assert forall|k: int| 0 <= k <= s.len() implies seq_sum(#[trigger] s.subrange(0, k))
            <= seq_sum(s) by {
            if k == s.len() {
                assert(s.subrange(0, k) =~= s);
            } else {
                assert(s.drop_last().subrange(0, k) =~= s.subrange(0, k));
                crate::history::lemma_sum_nonneg(s.drop_last());
            }
        }
    }
}

/// Sum of a sequence of non-negative values, or `None` when it does not fit in 64 bits.
pub fn checked_sum(v: &Vec<u64>) -> (r: Option<u64>)
    ensures
        match r {
            Some(t) => t == seq_sum(v@.map_values(|x: u64| x as int)),
            None => seq_sum(v@.map_values(|x: u64| x as int)) > u64::MAX,
        },
{
    let ghost s = v@.map_values(|x: u64| x as int);
    proof {
        lemma_sum_prefix_bound(s);
    }
    let mut acc: u64 = 0;
    let mut i: usize = 0;
    while i < v.len()
        invariant
            i <= v.len(),
            s == v@.map_values(|x: u64| x as int),
            forall|k: int| 0 <= k <= s.len() ==> seq_sum(#[trigger] s.subrange(0, k)) <= seq_sum(s),
            acc == seq_sum(s.subrange(0, i as int)),
        decreases v.len() - i,
    {
        assert(s.subrange(0, i + 1).drop_last() =~= s.subrange(0, i as int));
        match acc.checked_add(v[i]) {
            Some(a) => {
                acc = a;
            },
            None => {
                return None;
            },
        }
        i = i + 1;
    }
    assert(s.subrange(0, i as int) =~= s);
    Some(acc)
}

} // verus!
