//! The pool of scanned addresses: per domain, the IPv4 addresses found for it
//! with their measured round-trip time and availability, ordered by round-trip
//! time, and the choice of the address that DNS answers hand out.

use vstd::prelude::*;
use vstd::hash_map::StringHashMap;
use crate::config::{Config, ConfigView, string_views};
use crate::text::{spec_decimal, append_decimal, push_char};

verus! {

broadcast use vstd::seq_lib::group_to_multiset_ensures;

/// One scanned address: the address, the time a TCP connection to port 443
/// took (in nanoseconds), whether it connected, and whether an HTTPS request
/// to it succeeded.
#[derive(Clone, Copy, Debug)]
pub struct IpInfo {
    pub ip: [u8; 4],
    pub rtt_nanos: u64,
    pub reachable: bool,
    pub https_available: bool,
}

/// An address can be handed out when it connected and answered HTTPS.
pub open spec fn usable(i: IpInfo) -> bool {
    i.reachable && i.https_available
}

/// Some entry of `s` is usable.
pub open spec fn has_usable(s: Seq<IpInfo>) -> bool {
    exists|j: int| 0 <= j < s.len() && #[trigger] usable(s[j])
}

/// `k` is the first usable entry of `s` with the least round-trip time among
/// the usable entries.
pub open spec fn is_best_index(s: Seq<IpInfo>, k: int) -> bool {
    &&& 0 <= k < s.len()
    &&& usable(s[k])
    &&& forall|j: int| 0 <= j < s.len() && #[trigger] usable(s[j]) ==> s[k].rtt_nanos <= s[j].rtt_nanos
    &&& forall|j: int| 0 <= j < k && #[trigger] usable(s[j]) ==> s[k].rtt_nanos < s[j].rtt_nanos
}

/// The address handed out for a domain whose scan gave `s`: that of the first
/// fastest usable entry, none when no entry is usable.
pub open spec fn spec_best_ip(s: Seq<IpInfo>) -> Option<[u8; 4]> {
    if has_usable(s) {
        Some(s[choose|k: int| is_best_index(s, k)].ip)
    } else {
        None
    }
}

/// At most one index is the best one.
pub proof fn lemma_best_index_unique(s: Seq<IpInfo>, a: int, b: int)
    requires
        is_best_index(s, a),
        is_best_index(s, b),
    ensures
        a == b,
{
    if a < b {
        assert(s[b].rtt_nanos < s[a].rtt_nanos);
    } else if b < a {
        assert(s[a].rtt_nanos < s[b].rtt_nanos);
    }
}

/// Where some entry is usable, a best index exists.
pub proof fn lemma_best_index_exists(s: Seq<IpInfo>)
    requires
        has_usable(s),
    ensures
        exists|k: int| is_best_index(s, k),
    decreases s.len(),
{
    let p = s.drop_last();
    let n = s.len() - 1;
    if has_usable(p) {
        lemma_best_index_exists(p);
        let k = choose|k: int| is_best_index(p, k);
        if usable(s[n]) && s[n].rtt_nanos < s[k].rtt_nanos {
            assert forall|j: int| 0 <= j < n && #[trigger] usable(s[j]) implies s[n].rtt_nanos
                < s[j].rtt_nanos by {
                assert(usable(p[j]));
            }
            assert(is_best_index(s, n));
        } else {
            assert forall|j: int| 0 <= j < s.len() && #[trigger] usable(s[j]) implies s[k].rtt_nanos
                <= s[j].rtt_nanos by {
                if j < n {
                    assert(usable(p[j]));
                }
            }
            assert forall|j: int| 0 <= j < k && #[trigger] usable(s[j]) implies s[k].rtt_nanos
                < s[j].rtt_nanos by {
                assert(usable(p[j]));
            }
            assert(is_best_index(s, k));
        }
    } else {
        let j0 = choose|j: int| 0 <= j < s.len() && #[trigger] usable(s[j]);
        if j0 < n {
            assert(usable(p[j0]));
        }
        assert forall|j: int| 0 <= j < s.len() && #[trigger] usable(s[j]) implies j == n by {
            if j < n {
                assert(usable(p[j]));
            }
        }
        assert(is_best_index(s, n));
    }
}

/// The index of the first fastest usable entry of `ips`, none when no entry is
/// usable.
pub fn best_index(ips: &Vec<IpInfo>) -> (r: Option<usize>)
    ensures
        r is None <==> !has_usable(ips@),
        r matches Some(k) ==> is_best_index(ips@, k as int),
{
    let mut best: Option<usize> = None;
    let mut i: usize = 0;
    while i < ips.len()
        invariant
            i <= ips.len(),
            best is None <==> !has_usable(ips@.take(i as int)),
            best matches Some(k) ==> is_best_index(ips@.take(i as int), k as int),
        decreases ips.len() - i,
    {
        let ghost t = ips@.take(i as int);
        let ghost t1 = ips@.take(i as int + 1);
        assert(t1.drop_last() =~= t);
        let x = ips[i];
        if x.reachable && x.https_available {
            match best {
                None => {
                    assert forall|j: int| 0 <= j < t1.len() && #[trigger] usable(t1[j]) implies j
                        == i by {
                        if j < i {
                            assert(usable(t[j]));
                        }
                    }
                    best = Some(i);
                },
                Some(k) => {
                    if x.rtt_nanos < ips[k].rtt_nanos {
                        assert forall|j: int| 0 <= j < i && #[trigger] usable(t1[j]) implies x.rtt_nanos
                            < t1[j].rtt_nanos by {
                            assert(usable(t[j]));
                        }
                        best = Some(i);
                    } else {
                        assert forall|j: int|
                            0 <= j < t1.len() && #[trigger] usable(t1[j]) implies t1[k as int].rtt_nanos
                            <= t1[j].rtt_nanos by {
                            if j < i {
                                assert(usable(t[j]));
                            }
                        }
                        assert forall|j: int| 0 <= j < k && #[trigger] usable(t1[j]) implies t1[k as int].rtt_nanos
                            < t1[j].rtt_nanos by {
                            assert(usable(t[j]));
                        }
                    }
                },
            }
            assert(usable(t1[i as int]));
        } else {
            assert forall|j: int| 0 <= j < t1.len() && #[trigger] usable(t1[j]) implies j < i by {}
            if let Some(k) = best {
                assert forall|j: int|
                    0 <= j < t1.len() && #[trigger] usable(t1[j]) implies t1[k as int].rtt_nanos
                    <= t1[j].rtt_nanos by {
                    assert(usable(t[j]));
                }
                assert forall|j: int| 0 <= j < k && #[trigger] usable(t1[j]) implies t1[k as int].rtt_nanos
                    < t1[j].rtt_nanos by {
                    assert(usable(t[j]));
                }
            } else {
                assert forall|j: int| 0 <= j < t1.len() implies !#[trigger] usable(t1[j]) by {
                    if j < i {
                        assert(!usable(t[j]));
                    }
                }
            }
        }
        i = i + 1;
    }
    assert(ips@.take(ips.len() as int) =~= ips@);
    best
}

/// The address handed out for a scan result: that of its first fastest usable
/// entry.
pub fn best_ip_of(ips: &Vec<IpInfo>) -> (r: Option<[u8; 4]>)
    ensures
        r == spec_best_ip(ips@),
{
    match best_index(ips) {
        None => None,
        Some(k) => {
            proof {
                let c = choose|c: int| is_best_index(ips@, c);
                lemma_best_index_unique(ips@, c, k as int);
            }
            Some(ips[k].ip)
        },
    }
}

/// The address handed out, when there is one, is usable, no usable address of
/// the scan is faster, and every usable address before it is slower.
pub proof fn law_best_ip_is_first_fastest_usable(s: Seq<IpInfo>)
    ensures
        spec_best_ip(s) is None <==> !has_usable(s),
        has_usable(s) ==> exists|k: int|
            is_best_index(s, k) && spec_best_ip(s) == Some(#[trigger] s[k].ip),
{
    if has_usable(s) {
        lemma_best_index_exists(s);
        let k = choose|k: int| is_best_index(s, k);
        assert(spec_best_ip(s) == Some(s[k].ip));
    }
}

// ---------------------------------------------------------------------------
// Ordering a scan result by round-trip time
// ---------------------------------------------------------------------------

/// `x` inserted into `s` after every entry whose round-trip time is not
/// greater than its own, scanning from the end.
pub open spec fn insert_by_rtt(s: Seq<IpInfo>, x: IpInfo) -> Seq<IpInfo>
    decreases s.len(),
{
    if s.len() == 0 {
        seq![x]
    } else if x.rtt_nanos < s.last().rtt_nanos {
        insert_by_rtt(s.drop_last(), x).push(s.last())
    } else {
        s.push(x)
    }
}

/// `s` ordered by round-trip time, entries with equal times in their input
/// order (a stable sort).
pub open spec fn spec_sort_by_rtt(s: Seq<IpInfo>) -> Seq<IpInfo>
    decreases s.len(),
{
    if s.len() == 0 {
        Seq::empty()
    } else {
        insert_by_rtt(spec_sort_by_rtt(s.drop_last()), s.last())
    }
}

/// Entries are in non-decreasing order of round-trip time.
pub open spec fn sorted_by_rtt(s: Seq<IpInfo>) -> bool {
    forall|i: int, j: int| 0 <= i <= j < s.len() ==> s[i].rtt_nanos <= s[j].rtt_nanos
}

/// The position at which `insert_by_rtt` places `x`.
pub open spec fn insert_pos(s: Seq<IpInfo>, x: IpInfo) -> nat
    decreases s.len(),
{
    if s.len() == 0 {
        0
    } else if x.rtt_nanos < s.last().rtt_nanos {
        insert_pos(s.drop_last(), x)
    } else {
        s.len()
    }
}

proof fn lemma_insert_at_pos(s: Seq<IpInfo>, x: IpInfo)
    ensures
        insert_pos(s, x) <= s.len(),
        insert_by_rtt(s, x) == s.take(insert_pos(s, x) as int).push(x) + s.skip(
            insert_pos(s, x) as int,
        ),
    decreases s.len(),
{
    let p = insert_pos(s, x) as int;
    if s.len() == 0 {
        assert(insert_by_rtt(s, x) =~= s.take(p).push(x) + s.skip(p));
    } else if x.rtt_nanos < s.last().rtt_nanos {
        let d = s.drop_last();
        lemma_insert_at_pos(d, x);
        assert(insert_by_rtt(s, x) =~= s.take(p).push(x) + s.skip(p)) by {
            assert(d.take(p) =~= s.take(p));
            assert(d.skip(p).push(s.last()) =~= s.skip(p));
        }
    } else {
        assert(insert_by_rtt(s, x) =~= s.take(p).push(x) + s.skip(p));
    }
}

proof fn lemma_insert_keeps_order(s: Seq<IpInfo>, x: IpInfo)
    requires
        sorted_by_rtt(s),
    ensures
        sorted_by_rtt(insert_by_rtt(s, x)),
        insert_by_rtt(s, x).to_multiset() == s.to_multiset().insert(x),
        insert_by_rtt(s, x).len() == s.len() + 1,
        forall|k: int|
            0 <= k < insert_by_rtt(s, x).len() ==> (#[trigger] insert_by_rtt(s, x)[k] == x
                || s.contains(insert_by_rtt(s, x)[k])),
    decreases s.len(),
{
    let r = insert_by_rtt(s, x);
    if s.len() == 0 {
        assert(r.to_multiset() =~= s.to_multiset().insert(x)) by {
            assert(r =~= s.push(x));
        }
    } else if x.rtt_nanos < s.last().rtt_nanos {
        let d = s.drop_last();
        let l = s.last();
        assert(s =~= d.push(l));
        lemma_insert_keeps_order(d, x);
        let q = insert_by_rtt(d, x);
        assert forall|k: int| 0 <= k < q.len() implies #[trigger] q[k].rtt_nanos <= l.rtt_nanos by {
            if q[k] != x {
                assert(d.contains(q[k]));
                let m = choose|m: int| 0 <= m < d.len() && d[m] == q[k];
                assert(s[m] == d[m]);
            }
        }
        assert forall|k: int| 0 <= k < r.len() implies (#[trigger] r[k] == x || s.contains(r[k])) by {
            if k < q.len() {
                if q[k] != x {
                    let m = choose|m: int| 0 <= m < d.len() && d[m] == q[k];
                    assert(s[m] == d[m]);
                }
            } else {
                assert(s[s.len() - 1] == l);
            }
        }
    } else {
        assert(r == s.push(x));
        assert forall|k: int| 0 <= k < r.len() implies (#[trigger] r[k] == x || s.contains(r[k])) by {
            if k < s.len() {
                assert(s[k] == r[k]);
            }
        }
    }
}

/// The stable ordering by round-trip time yields a permutation of its input
/// in non-decreasing order of round-trip time.
pub proof fn law_sort_by_rtt_orders_and_keeps_entries(s: Seq<IpInfo>)
    ensures
        sorted_by_rtt(spec_sort_by_rtt(s)),
        spec_sort_by_rtt(s).to_multiset() == s.to_multiset(),
        spec_sort_by_rtt(s).len() == s.len(),
    decreases s.len(),
{
    if s.len() > 0 {
        let d = s.drop_last();
        law_sort_by_rtt_orders_and_keeps_entries(d);
        lemma_insert_keeps_order(spec_sort_by_rtt(d), s.last());
        assert(s =~= d.push(s.last()));
    } else {
        assert(s.to_multiset() =~= spec_sort_by_rtt(s).to_multiset());
    }
}

/// A scan result ordered by round-trip time, equal times keeping their order,
/// as `sort_by` on the round-trip time orders it.
pub fn sort_by_rtt(ips: &Vec<IpInfo>) -> (r: Vec<IpInfo>)
    ensures
        r@ == spec_sort_by_rtt(ips@),
{
    let mut out: Vec<IpInfo> = Vec::new();
    let mut i: usize = 0;
    while i < ips.len()
        invariant
            i <= ips.len(),
            out@ == spec_sort_by_rtt(ips@.take(i as int)),
        decreases ips.len() - i,
    {
        let x = ips[i];
        let mut j: usize = out.len();
        assert(out@.take(j as int) =~= out@);
        while j > 0 && x.rtt_nanos < out[j - 1].rtt_nanos
            invariant
                j <= out.len(),
                insert_pos(out@, x) == insert_pos(out@.take(j as int), x),
            decreases j,
        {
            assert(out@.take(j as int).drop_last() =~= out@.take(j as int - 1));
            j = j - 1;
        }
        proof {
            lemma_insert_at_pos(out@, x);
            if j > 0 {
                assert(out@.take(j as int).last() == out@[j - 1]);
            }
            assert(insert_pos(out@, x) == j);
            assert(ips@.take(i as int + 1).drop_last() =~= ips@.take(i as int));
        }
        let ghost before = out@;
        out.insert(j, x);
        assert(out@ =~= before.take(j as int).push(x) + before.skip(j as int));
        i = i + 1;
    }
    assert(ips@.take(ips.len() as int) =~= ips@);
    out
}

/// Membership carries over between two sequences with the same multiset.
proof fn lemma_same_multiset_contains(a: Seq<IpInfo>, b: Seq<IpInfo>, x: IpInfo)
    requires
        a.to_multiset() == b.to_multiset(),
        a.contains(x),
    ensures
        b.contains(x),
{
    assert(a.to_multiset().count(x) > 0);
}

/// The address handed out for a domain after a scan is an address of that
/// scan which connected and answered HTTPS, and no such address of the scan
/// had a shorter round-trip time; none is handed out when no address of the
/// scan was usable.
pub proof fn law_scan_answer_is_fastest_usable(results: Seq<IpInfo>)
    ensures
        spec_best_ip(spec_sort_by_rtt(results)) is None <==> !has_usable(results),
        has_usable(results) ==> exists|k: int|
            #![trigger results[k]]
            0 <= k < results.len() && usable(results[k]) && spec_best_ip(spec_sort_by_rtt(results))
                == Some(results[k].ip) && forall|j: int|
                0 <= j < results.len() && #[trigger] usable(results[j]) ==> results[k].rtt_nanos
                    <= results[j].rtt_nanos,
{
    let t = spec_sort_by_rtt(results);
    law_sort_by_rtt_orders_and_keeps_entries(results);
    if has_usable(results) {
        let j0 = choose|j: int| 0 <= j < results.len() && #[trigger] usable(results[j]);
        lemma_same_multiset_contains(results, t, results[j0]);
        let i0 = choose|i: int| 0 <= i < t.len() && t[i] == results[j0];
        assert(usable(t[i0]));
        assert(has_usable(t));
        lemma_best_index_exists(t);
        let k = choose|k: int| is_best_index(t, k);
        assert(t.contains(t[k]));
        lemma_same_multiset_contains(t, results, t[k]);
        let m = choose|m: int| 0 <= m < results.len() && results[m] == t[k];
        assert(spec_best_ip(t) == Some(t[k].ip));
        assert forall|j: int| 0 <= j < results.len() && #[trigger] usable(results[j]) implies results[m].rtt_nanos
            <= results[j].rtt_nanos by {
            assert(results.contains(results[j]));
            lemma_same_multiset_contains(results, t, results[j]);
            let i = choose|i: int| 0 <= i < t.len() && t[i] == results[j];
            assert(usable(t[i]));
        }
        assert(usable(results[m]));
    } else {
        if has_usable(t) {
            let i = choose|i: int| 0 <= i < t.len() && #[trigger] usable(t[i]);
            assert(t.contains(t[i]));
            lemma_same_multiset_contains(t, results, t[i]);
            let m = choose|m: int| 0 <= m < results.len() && results[m] == t[i];
            assert(usable(results[m]));
        }
    }
}

/// The running choice of a scan read in order: a usable entry replaces the
/// current choice when there is none or it is strictly faster.
pub open spec fn choice_step(b: Option<IpInfo>, x: IpInfo) -> Option<IpInfo> {
    if usable(x) && (b is None || x.rtt_nanos < b->0.rtt_nanos) {
        Some(x)
    } else {
        b
    }
}

/// The choice after reading `s` in order, starting from `b`.
pub open spec fn choice_from(b: Option<IpInfo>, s: Seq<IpInfo>) -> Option<IpInfo>
    decreases s.len(),
{
    if s.len() == 0 {
        b
    } else {
        choice_from(choice_step(b, s[0]), s.drop_first())
    }
}

proof fn lemma_choice_push(b: Option<IpInfo>, s: Seq<IpInfo>, x: IpInfo)
    ensures
        choice_from(b, s.push(x)) == choice_step(choice_from(b, s), x),
    decreases s.len(),
{
    assert(s.push(x)[0] == if s.len() > 0 { s[0] } else { x });
    if s.len() > 0 {
        assert(s.push(x).drop_first() =~= s.drop_first().push(x));
        lemma_choice_push(choice_step(b, s[0]), s.drop_first(), x);
    } else {
        assert(s.push(x).drop_first() =~= Seq::<IpInfo>::empty());
        assert(choice_from(choice_step(b, x), Seq::<IpInfo>::empty()) == choice_step(b, x));
    }
}

proof fn lemma_choice_concat(b: Option<IpInfo>, a: Seq<IpInfo>, c: Seq<IpInfo>)
    ensures
        choice_from(b, a + c) == choice_from(choice_from(b, a), c),
    decreases a.len(),
{
    if a.len() > 0 {
        assert((a + c).drop_first() =~= a.drop_first() + c);
        lemma_choice_concat(choice_step(b, a[0]), a.drop_first(), c);
    } else {
        assert(a + c =~= c);
    }
}

/// Reading entries that are all slower than `r` keeps a choice of time at most `r`.
proof fn lemma_choice_keeps_faster(b: IpInfo, c: Seq<IpInfo>, r: u64)
    requires
        b.rtt_nanos <= r,
        forall|i: int| 0 <= i < c.len() ==> r < #[trigger] c[i].rtt_nanos,
    ensures
        choice_from(Some(b), c) == Some(b),
    decreases c.len(),
{
    if c.len() > 0 {
        assert(r < c[0].rtt_nanos);
        assert forall|i: int| 0 <= i < c.drop_first().len() implies r < #[trigger] c.drop_first()[i].rtt_nanos by {
            assert(c.drop_first()[i] == c[i + 1]);
        }
        lemma_choice_keeps_faster(b, c.drop_first(), r);
    }
}

/// Reading entries all slower than `r` from `b` gives `b` or a choice slower than `r`.
proof fn lemma_choice_slower(b: Option<IpInfo>, c: Seq<IpInfo>, r: u64)
    requires
        forall|i: int| 0 <= i < c.len() ==> r < #[trigger] c[i].rtt_nanos,
    ensures
        choice_from(b, c) == b || (choice_from(b, c) matches Some(e) && r < e.rtt_nanos),
    decreases c.len(),
{
    if c.len() > 0 {
        assert(r < c[0].rtt_nanos);
        assert forall|i: int| 0 <= i < c.drop_first().len() implies r < #[trigger] c.drop_first()[i].rtt_nanos by {
            assert(c.drop_first()[i] == c[i + 1]);
        }
        let b1 = choice_step(b, c[0]);
        lemma_choice_slower(b1, c.drop_first(), r);
        if b1 != b {
            assert(b1 == Some(c[0]));
        }
    }
}

proof fn lemma_sorted_split(t: Seq<IpInfo>, x: IpInfo)
    requires
        sorted_by_rtt(t),
    ensures
        insert_pos(t, x) <= t.len(),
        forall|i: int| 0 <= i < insert_pos(t, x) ==> #[trigger] t[i].rtt_nanos <= x.rtt_nanos,
        forall|i: int| insert_pos(t, x) <= i < t.len() ==> x.rtt_nanos < #[trigger] t[i].rtt_nanos,
    decreases t.len(),
{
    if t.len() > 0 {
        let d = t.drop_last();
        assert(sorted_by_rtt(d));
        lemma_sorted_split(d, x);
        if x.rtt_nanos < t.last().rtt_nanos {
            assert forall|i: int| insert_pos(t, x) <= i < t.len() implies x.rtt_nanos < #[trigger] t[i].rtt_nanos by {
                if i < d.len() {
                    assert(t[i] == d[i]);
                }
            }
            assert forall|i: int| 0 <= i < insert_pos(t, x) implies #[trigger] t[i].rtt_nanos <= x.rtt_nanos by {
                assert(t[i] == d[i]);
            }
        } else {
            assert forall|i: int| 0 <= i < insert_pos(t, x) implies #[trigger] t[i].rtt_nanos <= x.rtt_nanos by {
                assert(t[i].rtt_nanos <= t[t.len() - 1].rtt_nanos);
            }
        }
    }
}

proof fn lemma_choice_insert(t: Seq<IpInfo>, x: IpInfo)
    requires
        sorted_by_rtt(t),
    ensures
        choice_from(None, insert_by_rtt(t, x)) == choice_step(choice_from(None, t), x),
{
    lemma_insert_at_pos(t, x);
    lemma_sorted_split(t, x);
    let p = insert_pos(t, x) as int;
    let a = t.take(p);
    let c = t.skip(p);
    assert(t =~= a + c);
    lemma_choice_concat(None, a.push(x), c);
    lemma_choice_push(None, a, x);
    lemma_choice_concat(None, a, c);
    let b0 = choice_from(None, a);
    assert forall|i: int| 0 <= i < c.len() implies x.rtt_nanos < #[trigger] c[i].rtt_nanos by {
        assert(c[i] == t[p + i]);
    }
    // every entry of `a` is at most as slow as x, so a choice from `a` is too
    lemma_choice_from_prefix_bound(a, x.rtt_nanos);
    let b1 = choice_from(b0, c);
    if usable(x) && (b0 is None || x.rtt_nanos < b0->0.rtt_nanos) {
        lemma_choice_keeps_faster(x, c, x.rtt_nanos);
        lemma_choice_slower(b0, c, x.rtt_nanos);
    } else if usable(x) {
        let e = b0->0;
        lemma_choice_keeps_faster(e, c, x.rtt_nanos);
    } else {
    }
}

/// A choice made from entries no slower than `r` is no slower than `r`.
proof fn lemma_choice_from_prefix_bound(a: Seq<IpInfo>, r: u64)
    requires
        forall|i: int| 0 <= i < a.len() ==> #[trigger] a[i].rtt_nanos <= r,
    ensures
        choice_from(None, a) matches Some(e) ==> e.rtt_nanos <= r,
    decreases a.len(),
{
    if a.len() > 0 {
        let d = a.drop_last();
        assert forall|i: int| 0 <= i < d.len() implies #[trigger] d[i].rtt_nanos <= r by {
            assert(d[i] == a[i]);
        }
        lemma_choice_from_prefix_bound(d, r);
        assert(a =~= d.push(a.last()));
        lemma_choice_push(None, d, a.last());
    }
}

proof fn lemma_choice_sorted(s: Seq<IpInfo>)
    ensures
        choice_from(None, spec_sort_by_rtt(s)) == choice_from(None, s),
    decreases s.len(),
{
    if s.len() > 0 {
        let d = s.drop_last();
        lemma_choice_sorted(d);
        law_sort_by_rtt_orders_and_keeps_entries(d);
        lemma_choice_insert(spec_sort_by_rtt(d), s.last());
        assert(s =~= d.push(s.last()));
        lemma_choice_push(None, d, s.last());
    }
}

/// The running choice over a scan is its first fastest usable entry.
proof fn lemma_choice_is_best(s: Seq<IpInfo>)
    ensures
        choice_from(None, s) is None <==> !has_usable(s),
        forall|k: int| is_best_index(s, k) ==> choice_from(None, s) == Some(#[trigger] s[k]),
    decreases s.len(),
{
    if s.len() == 0 {
        return;
    }
    let d = s.drop_last();
    let x = s.last();
    let n = s.len() - 1;
    lemma_choice_is_best(d);
    assert(s =~= d.push(x));
    lemma_choice_push(None, d, x);
    assert forall|j: int| 0 <= j < d.len() implies #[trigger] s[j] == d[j] by {}
    if has_usable(d) {
        lemma_best_index_exists(d);
        let kd = choose|k: int| is_best_index(d, k);
        assert(choice_from(None, d) == Some(d[kd]));
        if usable(x) && x.rtt_nanos < d[kd].rtt_nanos {
            assert forall|j: int| 0 <= j < s.len() && #[trigger] usable(s[j]) implies x.rtt_nanos <= s[j].rtt_nanos by {
                if j < n {
                    assert(usable(d[j]));
                }
            }
            assert forall|j: int| 0 <= j < n && #[trigger] usable(s[j]) implies x.rtt_nanos < s[j].rtt_nanos by {
                assert(usable(d[j]));
            }
            assert(is_best_index(s, n));
            assert forall|k: int| is_best_index(s, k) implies choice_from(None, s) == Some(#[trigger] s[k]) by {
                lemma_best_index_unique(s, k, n);
            }
        } else {
            assert forall|j: int| 0 <= j < s.len() && #[trigger] usable(s[j]) implies s[kd].rtt_nanos <= s[j].rtt_nanos by {
                if j < n {
                    assert(usable(d[j]));
                }
            }
            assert forall|j: int| 0 <= j < kd && #[trigger] usable(s[j]) implies s[kd].rtt_nanos < s[j].rtt_nanos by {
                assert(usable(d[j]));
            }
            assert(is_best_index(s, kd));
            assert forall|k: int| is_best_index(s, k) implies choice_from(None, s) == Some(#[trigger] s[k]) by {
                lemma_best_index_unique(s, k, kd);
            }
            assert(usable(s[kd]));
        }
    } else {
        assert(choice_from(None, d) is None);
        if usable(x) {
            assert forall|j: int| 0 <= j < s.len() && #[trigger] usable(s[j]) implies j == n by {
                if j < n {
                    assert(usable(d[j]));
                }
            }
            assert(is_best_index(s, n));
            assert forall|k: int| is_best_index(s, k) implies choice_from(None, s) == Some(#[trigger] s[k]) by {
                lemma_best_index_unique(s, k, n);
            }
        } else {
            assert forall|j: int| 0 <= j < s.len() implies !#[trigger] usable(s[j]) by {
                if j < n {
                    assert(!usable(d[j]));
                }
            }
        }
    }
}

/// Ordering a scan by round-trip time does not change the address handed
/// out for it: the first fastest usable entry is the same one either way.
pub proof fn law_ordering_keeps_the_answer(s: Seq<IpInfo>)
    ensures
        spec_best_ip(spec_sort_by_rtt(s)) == spec_best_ip(s),
{
    let t = spec_sort_by_rtt(s);
    lemma_choice_sorted(s);
    lemma_choice_is_best(s);
    lemma_choice_is_best(t);
    if has_usable(s) {
        lemma_best_index_exists(s);
        lemma_best_index_exists(t);
        let k = choose|k: int| is_best_index(s, k);
        let kt = choose|k: int| is_best_index(t, k);
        assert(choice_from(None, s) == Some(s[k]));
        assert(choice_from(None, t) == Some(t[kt]));
    }
}

// ---------------------------------------------------------------------------
// Dotted-quad text of an address
// ---------------------------------------------------------------------------

/// The dotted-quad text of an address, as `Ipv4Addr`'s `to_string` writes it.
pub open spec fn spec_ipv4_text(ip: [u8; 4]) -> Seq<char> {
    spec_decimal(ip[0] as nat) + seq!['.'] + spec_decimal(ip[1] as nat) + seq!['.']
        + spec_decimal(ip[2] as nat) + seq!['.'] + spec_decimal(ip[3] as nat)
}

/// The dotted-quad text of an address.
pub fn ipv4_text(ip: [u8; 4]) -> (r: String)
    ensures
        r@ == spec_ipv4_text(ip),
{
    let mut s = String::new();
    append_decimal(&mut s, ip[0] as u64);
    push_char(&mut s, '.');
    append_decimal(&mut s, ip[1] as u64);
    push_char(&mut s, '.');
    append_decimal(&mut s, ip[2] as u64);
    push_char(&mut s, '.');
    append_decimal(&mut s, ip[3] as u64);
    assert(s@ =~= spec_ipv4_text(ip));
    s
}

// ---------------------------------------------------------------------------
// The pool of scan results
// ---------------------------------------------------------------------------

/// The scan results of one domain.
pub struct DomainIps {
    pub domain: String,
    pub ips: Vec<IpInfo>,
}

/// A copy of a scan result.
pub fn copy_ips(v: &Vec<IpInfo>) -> (r: Vec<IpInfo>)
    ensures
        r@ == v@,
{
    let mut r: Vec<IpInfo> = Vec::new();
    let mut i: usize = 0;
    while i < v.len()
        invariant
            i <= v.len(),
            r@ == v@.take(i as int),
        decreases v.len() - i,
    {
        r.push(v[i]);
        assert(r@ =~= v@.take(i as int + 1));
        i = i + 1;
    }
    assert(v@.take(v.len() as int) =~= v@);
    r
}

/// The address scanner's state: the configuration it scans by and, per
/// scanned domain, the latest scan result ordered by round-trip time.
pub struct Scanner {
    config: Config,
    pool: StringHashMap<Vec<IpInfo>>,
    order: Vec<String>,
}

impl Scanner {
    /// The pool's keys are the scanned domains, each once.
    pub closed spec fn wf(&self) -> bool {
        &&& string_views(self.order@).no_duplicates()
        &&& forall|d: Seq<char>|
            #[trigger] self.pool@.contains_key(d) <==> string_views(self.order@).contains(d)
    }

    /// The configuration.
    pub closed spec fn config_view(&self) -> ConfigView {
        self.config@
    }

    /// The scanned domains, in the order they were first scanned.
    pub closed spec fn scanned(&self) -> Seq<Seq<char>> {
        string_views(self.order@)
    }

    /// The latest scan result of a domain, none when it was never scanned.
    pub closed spec fn ips_of(&self, d: Seq<char>) -> Option<Seq<IpInfo>> {
        if self.pool@.contains_key(d) {
            Some(self.pool@[d]@)
        } else {
            None
        }
    }

    /// The address handed out for `d`: the first fastest usable address of its
    /// latest scan, none when it was never scanned or no address was usable.
    pub open spec fn best_for(&self, d: Seq<char>) -> Option<[u8; 4]> {
        match self.ips_of(d) {
            Some(s) => spec_best_ip(s),
            None => None,
        }
    }

    /// A scanner with an empty pool.
    pub fn new(config: Config) -> (r: Self)
        ensures
            r.wf(),
            r.config_view() == config@,
            r.scanned() == Seq::<Seq<char>>::empty(),
            forall|d: Seq<char>| #[trigger] r.ips_of(d) is None,
    {
        let r = Scanner { config, pool: StringHashMap::new(), order: Vec::new() };
        assert(string_views(r.order@) =~= Seq::<Seq<char>>::empty());
        r
    }

    /// The configuration the scanner works by.
    pub fn config(&self) -> (r: &Config)
        ensures
            r@ == self.config_view(),
    {
        &self.config
    }

    /// Stores the result of scanning `domain`, ordered by round-trip time, in
    /// place of any earlier result for it.
    pub fn record_scan(&mut self, domain: String, results: Vec<IpInfo>)
        requires
            old(self).wf(),
        ensures
            final(self).wf(),
            final(self).config_view() == old(self).config_view(),
            final(self).ips_of(domain@) == Some(spec_sort_by_rtt(results@)),
            forall|d: Seq<char>| d != domain@ ==> #[trigger] final(self).ips_of(d) == old(self).ips_of(d),
            final(self).scanned() == (if old(self).scanned().contains(domain@) {
                old(self).scanned()
            } else {
                old(self).scanned().push(domain@)
            }),
    {
        let sorted = sort_by_rtt(&results);
        let present = self.pool.contains_key(domain.as_str());
        if !present {
            let key = domain.clone();
            let ghost before = self.order@;
            self.order.push(key);
            proof {
                assert(string_views(self.order@) =~= string_views(before).push(domain@));
                let sv = string_views(self.order@);
                assert forall|a: int, b: int| 0 <= a < sv.len() && 0 <= b < sv.len() && a != b
                    implies sv[a] != sv[b] by {
                    if a == sv.len() - 1 {
                        assert(string_views(before).contains(sv[b]));
                    } else if b == sv.len() - 1 {
                        assert(string_views(before).contains(sv[a]));
                    }
                }
            }
        }
        proof {
            if present {
                assert(string_views(self.order@) == string_views(old(self).order@));
            } else {
                assert(string_views(self.order@) =~= string_views(old(self).order@).push(domain@));
            }
        }
        let ghost d0 = domain@;
        self.pool.insert(domain, sorted);
        proof {
            let nv = string_views(self.order@);
            let ov = string_views(old(self).order@);
            assert forall|d: Seq<char>|
                #[trigger] self.pool@.contains_key(d) <==> nv.contains(d) by {
                if d == d0 {
                    if !present {
                        assert(nv[nv.len() - 1] == d0);
                    }
                    assert(old(self).pool@.contains_key(d0) == present);
                } else if !present {
                    if nv.contains(d) {
                        let k = choose|k: int| 0 <= k < nv.len() && nv[k] == d;
                        assert(ov[k] == d);
                    }
                    if ov.contains(d) {
                        let k = choose|k: int| 0 <= k < ov.len() && ov[k] == d;
                        assert(nv[k] == d);
                    }
                }
            }
        }
    }

    /// The address DNS answers hand out for `domain`: the first fastest usable
    /// address of its latest scan, none when it was never scanned or no address
    /// was usable.
    pub fn get_best_ip(&self, domain: &str) -> (r: Option<[u8; 4]>)
        ensures
            r == self.best_for(domain@),
    {
        match self.pool.get(domain) {
            Some(ips) => best_ip_of(ips),
            None => None,
        }
    }

    /// A copy of the pool: each scanned domain with its latest scan result, in
    /// the order the domains were first scanned.
    pub fn get_ip_pool(&self) -> (r: Vec<DomainIps>)
        requires
            self.wf(),
        ensures
            r.len() == self.scanned().len(),
            forall|i: int| 0 <= i < r.len() ==> #[trigger] r[i].domain@ == self.scanned()[i],
            forall|i: int|
                0 <= i < r.len() ==> self.ips_of(self.scanned()[i]) == Some(#[trigger] r[i].ips@),
    {
        let mut r: Vec<DomainIps> = Vec::new();
        let mut i: usize = 0;
        while i < self.order.len()
            invariant
                self.wf(),
                i <= self.order.len(),
                r.len() == i,
                forall|k: int| 0 <= k < i ==> #[trigger] r[k].domain@ == self.scanned()[k],
                forall|k: int|
                    0 <= k < i ==> self.ips_of(self.scanned()[k]) == Some(#[trigger] r[k].ips@),
            decreases self.order.len() - i,
        {
            let d = &self.order[i];
            proof {
                assert(self.scanned()[i as int] == d@);
                assert(self.scanned().contains(d@));
                assert(self.pool@.contains_key(d@));
            }
            match self.pool.get(d.as_str()) {
                Some(ips) => {
                    r.push(DomainIps { domain: d.clone(), ips: copy_ips(ips) });
                },
                None => {
                    assert(false);
                },
            }
            i = i + 1;
        }
        assert(self.scanned().len() == self.order@.len());
        r
    }
}

} // verus!
