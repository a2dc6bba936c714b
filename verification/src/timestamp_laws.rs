//! Properties of timestamp tick generation that hold for every input.

use crate::span::TickSpan;
use crate::timestamp_gen::{
    candidate_spec, generate_from, insert_tick, is_first_at, label_period, labels, merge_ticks_spec,
    sample_spec, sampled_candidates, sort_dedup, strictly_increasing, try_samples_spec, TickView,
};
use crate::timestamps::Period;
use vstd::arithmetic::div_mod::{lemma_fundamental_div_mod, lemma_fundamental_div_mod_converse};
use vstd::prelude::*;

verus! {

/// Every tick lies in `[first, last)`.
pub open spec fn within(v: Seq<TickView>, first: i64, last: i64) -> bool {
    forall|i: int| 0 <= i < v.len() ==> first <= #[trigger] v[i].0 < last
}

/// The instants of a period's steps are increasing, start at `at` and stay
/// before `to`.
pub proof fn lemma_steps_before(p: Period, at: i64, to: i64)
    ensures
        forall|i: int, j: int|
            0 <= i < j < p.steps_before(at, to).len() ==> p.steps_before(at, to)[i] < p.steps_before(
                at,
                to,
            )[j],
        forall|i: int|
            0 <= i < p.steps_before(at, to).len() ==> at <= #[trigger] p.steps_before(at, to)[i]
                < to,
    decreases (if at < to { to - at } else { 0 }),
{
    if at < to {
        match p.add_spec(at) {
            Some(n) => {
                if n > at {
                    lemma_steps_before(p, n, to);
                    let rest = p.steps_before(n, to);
                    let s = p.steps_before(at, to);
                    assert(s == seq![at] + rest);
                    assert forall|i: int| 0 <= i < s.len() implies at <= #[trigger] s[i] < to by {
                        if i > 0 {
                            assert(s[i] == rest[i - 1]);
                        }
                    }
                    assert forall|i: int, j: int| 0 <= i < j < s.len() implies s[i] < s[j] by {
                        assert(s[j] == rest[j - 1]);
                        if i > 0 {
                            assert(s[i] == rest[i - 1]);
                        }
                    }
                }
            },
            None => {},
        }
    }
}

proof fn lemma_first_at_or_after(p: Period, at: i64, from: i64)
    ensures
        p.first_at_or_after(at, from) matches Some(a) ==> a >= from,
    decreases (if at < from { from - at } else { 0 }),
{
    if at < from {
        match p.add_spec(at) {
            Some(n) => {
                if n > at {
                    lemma_first_at_or_after(p, n, from);
                }
            },
            None => {},
        }
    }
}

/// A period's aligned instants in `[from, to)` are increasing and lie in
/// that range.
pub proof fn lemma_aligned_range(p: Period, from: i64, to: i64)
    ensures
        forall|i: int, j: int|
            0 <= i < j < p.aligned_range_spec(from, to).len() ==> p.aligned_range_spec(from, to)[i]
                < p.aligned_range_spec(from, to)[j],
        forall|i: int|
            0 <= i < p.aligned_range_spec(from, to).len() ==> from <= #[trigger] p.aligned_range_spec(
                from,
                to,
            )[i] < to,
{
    let start = match p.truncate_spec(from) {
        Some(a) => a,
        None => to,
    };
    lemma_first_at_or_after(p, start, from);
    match p.first_at_or_after(start, from) {
        Some(a) => {
            lemma_steps_before(p, a, to);
        },
        None => {},
    }
}

/// A period's candidate ticks are increasing and lie in `[first, last)`.
pub proof fn lemma_candidates(p: Period, first: i64, last: i64)
    ensures
        strictly_increasing(candidate_spec(p, first, last)),
        within(candidate_spec(p, first, last), first, last),
{
    lemma_aligned_range(p, first, last);
}

/// Sampling keeps items of the list, in order.
pub proof fn lemma_sample(s: Seq<TickView>, m: nat, k: nat)
    ensures
        forall|i: int|
            0 <= i < sample_spec(s, m, k).len() ==> #[trigger] s.contains(sample_spec(s, m, k)[i]),
        strictly_increasing(s) ==> strictly_increasing(sample_spec(s, m, k)),
    decreases s.len(),
{
    if s.len() > 0 {
        let prev = sample_spec(s.drop_last(), m, k);
        lemma_sample(s.drop_last(), m, k);
        let r = sample_spec(s, m, k);
        assert forall|i: int| 0 <= i < r.len() implies #[trigger] s.contains(r[i]) by {
            if i < prev.len() {
                assert(r[i] == prev[i]);
                assert(s.drop_last().contains(prev[i]));
                let w = choose|w: int| 0 <= w < s.drop_last().len() && s.drop_last()[w] == prev[i];
                assert(s[w] == r[i]);
            } else {
                assert(r[i] == s.last());
                assert(s[s.len() - 1] == r[i]);
            }
        }
        if strictly_increasing(s) {
            assert(strictly_increasing(s.drop_last()));
            assert forall|i: int, j: int| 0 <= i < j < r.len() implies r[i].0 < r[j].0 by {
                if j < prev.len() {
                    assert(r[i] == prev[i] && r[j] == prev[j]);
                } else {
                    assert(r[j] == s.last());
                    assert(r[i] == prev[i]);
                    assert(s.drop_last().contains(prev[i]));
                    let w = choose|w: int| 0 <= w < s.drop_last().len() && s.drop_last()[w] == prev[i];
                    assert(s[w] == prev[i]);
                }
            }
        }
    }
}

/// Inserting a tick into an increasing list keeps it increasing; the tick is
/// added exactly when no tick of the list is at its instant.
proof fn lemma_insert_tick(s: Seq<TickView>, t: TickView)
    requires
        strictly_increasing(s),
    ensures
        strictly_increasing(insert_tick(s, t)),
        forall|x: TickView|
            #[trigger] insert_tick(s, t).contains(x) <==> (s.contains(x) || (x == t && forall|k: int|
                0 <= k < s.len() ==> s[k].0 != t.0)),
    decreases s.len(),
{
    let r = insert_tick(s, t);
    if s.len() == 0 {
        assert forall|x: TickView| #[trigger] r.contains(x) <==> (s.contains(x) || (x == t
            && forall|k: int| 0 <= k < s.len() ==> s[k].0 != t.0)) by {
            if r.contains(x) {
                let w = choose|w: int| 0 <= w < r.len() && r[w] == x;
                assert(w == 0);
            }
            if x == t {
                assert(r[0] == t);
            }
        }
    } else if t.0 < s[0].0 {
        assert(r == seq![t] + s);
        assert forall|i: int, j: int| 0 <= i < j < r.len() implies r[i].0 < r[j].0 by {
            assert(r[j] == s[j - 1]);
            if i > 0 {
                assert(r[i] == s[i - 1]);
            } else if j - 1 > 0 {
                assert(s[0].0 < s[j - 1].0);
            }
        }
        assert forall|x: TickView| #[trigger] r.contains(x) <==> (s.contains(x) || (x == t
            && forall|k: int| 0 <= k < s.len() ==> s[k].0 != t.0)) by {
            if r.contains(x) {
                let w = choose|w: int| 0 <= w < r.len() && r[w] == x;
                if w > 0 {
                    assert(s[w - 1] == x);
                }
            }
            if s.contains(x) {
                let w = choose|w: int| 0 <= w < s.len() && s[w] == x;
                assert(r[w + 1] == x);
            }
            if x == t {
                assert(r[0] == t);
            }
            assert forall|k: int| 0 <= k < s.len() implies s[k].0 != t.0 by {
                if k > 0 {
                    assert(s[0].0 < s[k].0);
                }
            }
        }
    } else if t.0 == s[0].0 {
        assert forall|x: TickView| #[trigger] r.contains(x) <==> (s.contains(x) || (x == t
            && forall|k: int| 0 <= k < s.len() ==> s[k].0 != t.0)) by {
            if x == t && forall|k: int| 0 <= k < s.len() ==> s[k].0 != t.0 {
                assert(s[0].0 != t.0);
            }
        }
    } else {
        let s1 = s.drop_first();
        assert(strictly_increasing(s1));
        lemma_insert_tick(s1, t);
        let r1 = insert_tick(s1, t);
        assert(r == seq![s[0]] + r1);
        assert forall|i: int, j: int| 0 <= i < j < r.len() implies r[i].0 < r[j].0 by {
            assert(r[j] == r1[j - 1]);
            if i > 0 {
                assert(r[i] == r1[i - 1]);
            } else {
                let x = r1[j - 1];
                assert(r1.contains(x));
                if s1.contains(x) {
                    let w = choose|w: int| 0 <= w < s1.len() && s1[w] == x;
                    assert(s[w + 1] == x);
                }
            }
        }
        assert forall|x: TickView| #[trigger] r.contains(x) <==> (s.contains(x) || (x == t
            && forall|k: int| 0 <= k < s.len() ==> s[k].0 != t.0)) by {
            if r.contains(x) {
                let w = choose|w: int| 0 <= w < r.len() && r[w] == x;
                if w > 0 {
                    assert(r1[w - 1] == x);
                    assert(r1.contains(x));
                    if s1.contains(x) {
                        let v = choose|v: int| 0 <= v < s1.len() && s1[v] == x;
                        assert(s[v + 1] == x);
                    } else {
                        assert forall|k: int| 0 <= k < s.len() implies s[k].0 != t.0 by {
                            if k > 0 {
                                assert(s1[k - 1] == s[k]);
                            }
                        }
                    }
                } else {
                    assert(s[0] == x);
                }
            }
            if s.contains(x) {
                let w = choose|w: int| 0 <= w < s.len() && s[w] == x;
                if w == 0 {
                    assert(r[0] == x);
                } else {
                    assert(s1[w - 1] == x);
                    assert(s1.contains(x));
                    assert(r1.contains(x));
                    let v = choose|v: int| 0 <= v < r1.len() && r1[v] == x;
                    assert(r[v + 1] == x);
                }
            }
            if x == t && forall|k: int| 0 <= k < s.len() ==> s[k].0 != t.0 {
                assert forall|k: int| 0 <= k < s1.len() implies s1[k].0 != t.0 by {
                    assert(s1[k] == s[k + 1]);
                }
                assert(r1.contains(x));
                let v = choose|v: int| 0 <= v < r1.len() && r1[v] == x;
                assert(r[v + 1] == x);
            }
        }
    }
}

/// Every tick has an earliest tick at its instant, at or before it.
proof fn lemma_first_at_exists(s: Seq<TickView>, j: int)
    requires
        0 <= j < s.len(),
    ensures
        exists|i: int| #![trigger is_first_at(s, i)] 0 <= i <= j && is_first_at(s, i) && s[i].0 == s[j].0,
    decreases j,
{
    if is_first_at(s, j) {
        assert(0 <= j <= j && is_first_at(s, j) && s[j].0 == s[j].0);
    } else {
        let k = choose|k: int| 0 <= k < j && s[k].0 == s[j].0;
        lemma_first_at_exists(s, k);
        let i = choose|i: int| #![trigger is_first_at(s, i)] 0 <= i <= k && is_first_at(s, i) && s[i].0 == s[k].0;
        assert(0 <= i <= j && is_first_at(s, i) && s[i].0 == s[j].0);
    }
}

/// Sorting ticks by time and removing repeated instants gives a strictly
/// increasing list that holds, of each instant, exactly the earliest tick at
/// that instant.
pub proof fn lemma_sort_dedup(s: Seq<TickView>)
    ensures
        strictly_increasing(sort_dedup(s)),
        forall|x: TickView|
            #[trigger] sort_dedup(s).contains(x) <==> exists|i: int| is_first_at(s, i) && s[i] == x,
    decreases s.len(),
{
    if s.len() > 0 {
        let n = s.len() as int;
        let s1 = s.drop_last();
        let r1 = sort_dedup(s1);
        let t = s.last();
        lemma_sort_dedup(s1);
        lemma_insert_tick(r1, t);
        let r = sort_dedup(s);
        assert(r == insert_tick(r1, t));
        assert forall|x: TickView| #[trigger] r.contains(x) <==> exists|i: int|
            is_first_at(s, i) && s[i] == x by {
            if r1.contains(x) {
                let i = choose|i: int| is_first_at(s1, i) && s1[i] == x;
                assert forall|j: int| 0 <= j < i implies #[trigger] s[j].0 != s[i].0 by {
                    assert(s1[j] == s[j]);
                    assert(s1[i] == s[i]);
                }
                assert(is_first_at(s, i) && s[i] == x);
            }
            if x == t && forall|k: int| 0 <= k < r1.len() ==> r1[k].0 != t.0 {
                assert forall|j: int| 0 <= j < n - 1 implies #[trigger] s[j].0 != s[n - 1].0 by {
                    if s[j].0 == s[n - 1].0 {
                        assert(s1[j] == s[j]);
                        lemma_first_at_exists(s1, j);
                        let i = choose|i: int|
                            #![trigger is_first_at(s1, i)] 0 <= i <= j && is_first_at(s1, i) && s1[i].0 == s1[j].0;
                        assert(r1.contains(s1[i]));
                        let k = choose|k: int| 0 <= k < r1.len() && r1[k] == s1[i];
                        assert(r1[k].0 == t.0);
                    }
                }
                assert(is_first_at(s, n - 1) && s[n - 1] == x);
            }
            if exists|i: int| is_first_at(s, i) && s[i] == x {
                let i = choose|i: int| is_first_at(s, i) && s[i] == x;
                if i < n - 1 {
                    assert(is_first_at(s1, i) && s1[i] == x);
                    assert(r1.contains(x));
                } else {
                    assert(x == t);
                    assert forall|k: int| 0 <= k < r1.len() implies r1[k].0 != t.0 by {
                        assert(r1.contains(r1[k]));
                        let i2 = choose|i2: int| is_first_at(s1, i2) && s1[i2] == r1[k];
                        assert(s[i2] == s1[i2]);
                    }
                }
            }
        }
    } else {
        assert forall|x: TickView| #[trigger] sort_dedup(s).contains(x) <==> exists|i: int|
            is_first_at(s, i) && s[i] == x by {
            assert(sort_dedup(s).len() == 0);
        }
    }
}

/// Merging candidates into existing ticks gives a strictly increasing list
/// whose ticks are all existing ticks or candidates, which keeps the instant
/// of every existing tick, and which keeps every existing tick as it is when
/// the existing ticks are strictly increasing.
pub proof fn lemma_merge_ticks_contents(e: Seq<TickView>, c: Seq<TickView>, sample: nat)
    ensures
        strictly_increasing(merge_ticks_spec(e, c, sample)),
        forall|x: TickView|
            #[trigger] merge_ticks_spec(e, c, sample).contains(x) ==> e.contains(x) || c.contains(x),
        forall|i: int|
            #![trigger e[i]]
            0 <= i < e.len() ==> exists|k: int|
                0 <= k < merge_ticks_spec(e, c, sample).len() && #[trigger] merge_ticks_spec(
                    e,
                    c,
                    sample,
                )[k].0 == e[i].0,
        strictly_increasing(e) ==> forall|i: int|
            0 <= i < e.len() ==> merge_ticks_spec(e, c, sample).contains(#[trigger] e[i]),
{
    let sv = sampled_candidates(e, c, sample);
    let a = e + sv;
    let m = merge_ticks_spec(e, c, sample);
    lemma_sort_dedup(a);
    lemma_sample(c, crate::timestamp_gen::common_index_spec(e, c, sample) as nat, sample);
    assert forall|x: TickView| #[trigger] m.contains(x) implies e.contains(x) || c.contains(x) by {
        let i = choose|i: int| is_first_at(a, i) && a[i] == x;
        if i < e.len() {
            assert(e[i] == x);
        } else {
            assert(sv[i - e.len()] == x);
            assert(c.contains(sv[i - e.len()]));
        }
    }
    assert forall|i: int| #![trigger e[i]] 0 <= i < e.len() implies exists|k: int|
        0 <= k < m.len() && #[trigger] m[k].0 == e[i].0 by {
        assert(a[i] == e[i]);
        lemma_first_at_exists(a, i);
        let i2 = choose|i2: int| #![trigger is_first_at(a, i2)] 0 <= i2 <= i && is_first_at(a, i2) && a[i2].0 == a[i].0;
        assert(m.contains(a[i2]));
        let k = choose|k: int| 0 <= k < m.len() && m[k] == a[i2];
        assert(m[k].0 == e[i].0);
    }
    if strictly_increasing(e) {
        assert forall|i: int| 0 <= i < e.len() implies m.contains(#[trigger] e[i]) by {
            assert forall|j: int| 0 <= j < i implies a[j].0 != a[i].0 by {
                assert(a[j] == e[j] && a[i] == e[i]);
            }
            assert(is_first_at(a, i) && a[i] == e[i]);
        }
    }
}

/// Each sampled merge of ticks within the range is increasing and within
/// the range.
pub proof fn lemma_merge_ticks(t: Seq<TickView>, c: Seq<TickView>, sample: nat, first: i64, last: i64)
    requires
        within(t, first, last),
        within(c, first, last),
    ensures
        strictly_increasing(merge_ticks_spec(t, c, sample)),
        within(merge_ticks_spec(t, c, sample), first, last),
{
    let m = merge_ticks_spec(t, c, sample);
    lemma_merge_ticks_contents(t, c, sample);
    assert forall|i: int| 0 <= i < m.len() implies first <= #[trigger] m[i].0 < last by {
        assert(m.contains(m[i]));
        if t.contains(m[i]) {
            let w = choose|w: int| 0 <= w < t.len() && t[w] == m[i];
            assert(first <= t[w].0 < last);
        } else {
            let w = choose|w: int| 0 <= w < c.len() && c[w] == m[i];
            assert(first <= c[w].0 < last);
        }
    }
}

proof fn lemma_try_samples(t: Seq<TickView>, c: Seq<TickView>, span: TickSpan, sample: nat, first: i64, last: i64)
    requires
        within(t, first, last),
        within(c, first, last),
    ensures
        try_samples_spec(t, c, span, sample) matches Some((s, _)) ==> strictly_increasing(s)
            && within(s, first, last),
    decreases c.len() + 1 - sample,
{
    if sample == 0 || sample > c.len() {
    } else {
        lemma_merge_ticks(t, c, sample, first, last);
        lemma_try_samples(t, c, span, sample + 1, first, last);
    }
}

proof fn lemma_generate_from(
    periods: Seq<Period>,
    i: int,
    ticks: Seq<TickView>,
    latest: Period,
    first: i64,
    last: i64,
    span: TickSpan,
)
    requires
        strictly_increasing(ticks),
        within(ticks, first, last),
    ensures
        strictly_increasing(generate_from(periods, i, ticks, latest, first, last, span).0),
        within(generate_from(periods, i, ticks, latest, first, last, span).0, first, last),
    decreases periods.len() - i,
{
    if i < 0 || i >= periods.len() {
    } else {
        let c = candidate_spec(periods[i], first, last);
        lemma_candidates(periods[i], first, last);
        lemma_try_samples(ticks, c, span, 1, first, last);
        match try_samples_spec(ticks, c, span, 1) {
            Some((s, stop)) => {
                if !stop {
                    lemma_generate_from(periods, i + 1, s, periods[i], first, last, span);
                }
            },
            None => {
                lemma_generate_from(periods, i + 1, ticks, latest, first, last, span);
            },
        }
    }
}

/// Generated timestamp ticks are in increasing time order, without repeats,
/// and all lie in the range `[first, last)` that they were generated for.
pub proof fn lemma_generated_ticks_ordered_within(periods: Seq<Period>, first: i64, last: i64, span: TickSpan)
    requires
        periods.len() > 0,
    ensures
        strictly_increasing(generate_from(periods, 0, seq![], periods[0], first, last, span).0),
        within(generate_from(periods, 0, seq![], periods[0], first, last, span).0, first, last),
{
    lemma_generate_from(periods, 0, seq![], periods[0], first, last, span);
}

/// Whether `x` is a candidate tick of one of the first `n` periods.
pub open spec fn candidate_of_some(periods: Seq<Period>, n: int, first: i64, last: i64, x: TickView) -> bool {
    exists|k: int| 0 <= k < n && #[trigger] candidate_spec(periods[k], first, last).contains(x)
}

/// Every tick is a candidate of one of the first `n` periods.
pub open spec fn from_candidates(v: Seq<TickView>, periods: Seq<Period>, n: int, first: i64, last: i64) -> bool {
    forall|j: int| 0 <= j < v.len() ==> #[trigger] candidate_of_some(periods, n, first, last, v[j])
}

pub(crate) proof fn lemma_try_samples_contents(t: Seq<TickView>, c: Seq<TickView>, span: TickSpan, sample: nat)
    ensures
        try_samples_spec(t, c, span, sample) matches Some((s, _)) ==> forall|x: TickView|
            #[trigger] s.contains(x) ==> t.contains(x) || c.contains(x),
    decreases c.len() + 1 - sample,
{
    if sample == 0 || sample > c.len() {
    } else {
        lemma_merge_ticks_contents(t, c, sample);
        lemma_try_samples_contents(t, c, span, sample + 1);
    }
}

/// A candidate of one of the first `n` periods is one of the first `m` for
/// any `m` not below `n`.
proof fn lemma_from_candidates_grow(v: Seq<TickView>, periods: Seq<Period>, n: int, m: int, first: i64, last: i64)
    requires
        n <= m,
        from_candidates(v, periods, n, first, last),
    ensures
        from_candidates(v, periods, m, first, last),
{
    assert forall|j: int| 0 <= j < v.len() implies #[trigger] candidate_of_some(
        periods,
        m,
        first,
        last,
        v[j],
    ) by {
        assert(candidate_of_some(periods, n, first, last, v[j]));
        let k = choose|k: int|
            0 <= k < n && #[trigger] candidate_spec(periods[k], first, last).contains(v[j]);
        assert(0 <= k < m && candidate_spec(periods[k], first, last).contains(v[j]));
    }
}

proof fn lemma_generate_from_candidates(
    periods: Seq<Period>,
    i: int,
    ticks: Seq<TickView>,
    latest: Period,
    first: i64,
    last: i64,
    span: TickSpan,
)
    requires
        0 <= i <= periods.len(),
        from_candidates(ticks, periods, i, first, last),
    ensures
        from_candidates(
            generate_from(periods, i, ticks, latest, first, last, span).0,
            periods,
            periods.len() as int,
            first,
            last,
        ),
    decreases periods.len() - i,
{
    if i < periods.len() {
        let c = candidate_spec(periods[i], first, last);
        lemma_try_samples_contents(ticks, c, span, 1);
        match try_samples_spec(ticks, c, span, 1) {
            Some((s, stop)) => {
                assert forall|j: int| 0 <= j < s.len() implies #[trigger] candidate_of_some(
                    periods,
                    i + 1,
                    first,
                    last,
                    s[j],
                ) by {
                    assert(s.contains(s[j]));
                    if ticks.contains(s[j]) {
                        let w = choose|w: int| 0 <= w < ticks.len() && ticks[w] == s[j];
                        assert(candidate_of_some(periods, i, first, last, ticks[w]));
                        let k = choose|k: int|
                            0 <= k < i && #[trigger] candidate_spec(periods[k], first, last).contains(
                                ticks[w],
                            );
                        assert(0 <= k < i + 1 && candidate_spec(periods[k], first, last).contains(
                            s[j],
                        ));
                    } else {
                        assert(0 <= i < i + 1 && candidate_spec(periods[i], first, last).contains(
                            s[j],
                        ));
                    }
                }
                if stop {
                    lemma_from_candidates_grow(s, periods, i + 1, periods.len() as int, first, last);
                } else {
                    lemma_generate_from_candidates(periods, i + 1, s, periods[i], first, last, span);
                }
            },
            None => {
                lemma_from_candidates_grow(ticks, periods, i, i + 1, first, last);
                lemma_generate_from_candidates(periods, i + 1, ticks, latest, first, last, span);
            },
        }
    }
}

/// Every generated tick is a candidate of one of the generator's periods: it
/// lies on a boundary of that period and carries that period's label.
pub proof fn lemma_generated_ticks_are_candidates(periods: Seq<Period>, first: i64, last: i64, span: TickSpan)
    requires
        periods.len() > 0,
    ensures
        from_candidates(
            generate_from(periods, 0, seq![], periods[0], first, last, span).0,
            periods,
            periods.len() as int,
            first,
            last,
        ),
{
    lemma_generate_from_candidates(periods, 0, seq![], periods[0], first, last, span);
}

/// The number of indices below `n` that leave remainder `r` by `k`.
pub open spec fn congruent_count(n: nat, r: int, k: int) -> nat
    decreases n,
{
    if n == 0 {
        0
    } else {
        congruent_count((n - 1) as nat, r, k) + (if (n - 1) % k == r {
            1nat
        } else {
            0nat
        })
    }
}

/// Sampling keeps exactly the items whose index leaves the same remainder
/// by `keep_every` as `align_index`: as many as there are such indices, and
/// each such item in its place among them.
pub proof fn lemma_sample_keeps_congruent<T>(s: Seq<T>, align_index: nat, keep_every: nat)
    requires
        keep_every > 0,
    ensures
        sample_spec(s, align_index, keep_every).len() == congruent_count(
            s.len(),
            align_index as int % keep_every as int,
            keep_every as int,
        ),
        forall|i: int|
            0 <= i < s.len() && i % (keep_every as int) == (align_index as int) % (keep_every as int)
                ==> #[trigger] sample_spec(s, align_index, keep_every)[congruent_count(
                i as nat,
                align_index as int % keep_every as int,
                keep_every as int,
            ) as int] == s[i] && congruent_count(
                i as nat,
                align_index as int % keep_every as int,
                keep_every as int,
            ) < sample_spec(s, align_index, keep_every).len(),
    decreases s.len(),
{
    let r = align_index as int % keep_every as int;
    let k = keep_every as int;
    if s.len() > 0 {
        let prev = sample_spec(s.drop_last(), align_index, keep_every);
        lemma_sample_keeps_congruent(s.drop_last(), align_index, keep_every);
        let res = sample_spec(s, align_index, keep_every);
        assert forall|i: int|
            0 <= i < s.len() && i % k == r implies #[trigger] res[congruent_count(i as nat, r, k) as int]
            == s[i] && congruent_count(i as nat, r, k) < res.len() by {
            if i < s.len() - 1 {
                assert(s.drop_last()[i] == s[i]);
                lemma_congruent_count_monotone(i as nat + 1, (s.len() - 1) as nat, r, k);
                assert(congruent_count(i as nat + 1, r, k) == congruent_count(i as nat, r, k) + 1);
            }
        }
    }
}

proof fn lemma_congruent_count_monotone(a: nat, b: nat, r: int, k: int)
    requires
        a <= b,
    ensures
        congruent_count(a, r, k) <= congruent_count(b, r, k),
    decreases b - a,
{
    if a < b {
        lemma_congruent_count_monotone(a, (b - 1) as nat, r, k);
    }
}

/// The number of indices below `n` that leave remainder `r` by `k`, in closed
/// form.
pub proof fn lemma_congruent_count_closed(n: nat, r: int, k: int)
    requires
        k > 0,
        0 <= r < k,
    ensures
        congruent_count(n, r, k) == (if n > r {
            (n - 1 - r) / k + 1
        } else {
            0
        }),
    decreases n,
{
    if n > 0 {
        lemma_congruent_count_closed((n - 1) as nat, r, k);
        let m = n - 1;
        if m < r {
            lemma_fundamental_div_mod_converse(m, k, 0, m);
        } else if m == r {
            lemma_fundamental_div_mod_converse(m, k, 0, m);
            lemma_fundamental_div_mod_converse(0, k, 0, 0);
        } else {
            let x = m - r;
            lemma_fundamental_div_mod(x - 1, k);
            let q = (x - 1) / k;
            let t = (x - 1) % k;
            assert(0 <= t < k);
            assert(x - 1 == k * q + t);
            assert(k * q == q * k) by (nonlinear_arith);
            if t + 1 < k {
                lemma_fundamental_div_mod_converse(x, k, q, t + 1);
                if t + 1 + r < k {
                    lemma_fundamental_div_mod_converse(m, k, q, t + 1 + r);
                } else {
                    assert((q + 1) * k == q * k + k) by (nonlinear_arith);
                    lemma_fundamental_div_mod_converse(m, k, q + 1, t + 1 + r - k);
                }
            } else {
                assert((q + 1) * k == q * k + k) by (nonlinear_arith);
                lemma_fundamental_div_mod_converse(x, k, q + 1, 0);
                lemma_fundamental_div_mod_converse(m, k, q + 1, r);
            }
        }
    }
}

/// Keeping every `keep_every`-th of `n` items, aligned on index
/// `keep_every - 1`, keeps `n / keep_every` of them.
pub proof fn lemma_sample_every_last<T>(s: Seq<T>, keep_every: nat)
    requires
        keep_every > 0,
    ensures
        sample_spec(s, (keep_every - 1) as nat, keep_every).len() == s.len() / keep_every,
{
    let k = keep_every as int;
    let r = (keep_every - 1) as int;
    lemma_sample_keeps_congruent(s, (keep_every - 1) as nat, keep_every);
    lemma_fundamental_div_mod_converse(r, k, 0, r);
    lemma_congruent_count_closed(s.len(), r, k);
    let n = s.len() as int;
    if n > r {
        lemma_fundamental_div_mod(n - 1 - r, k);
        let q = (n - 1 - r) / k;
        let t = (n - 1 - r) % k;
        assert(n - 1 - r == k * q + t);
        assert(k * q == q * k) by (nonlinear_arith);
        assert((q + 1) * k == q * k + k) by (nonlinear_arith);
        lemma_fundamental_div_mod_converse(n, k, q + 1, t);
    } else {
        lemma_fundamental_div_mod_converse(n, k, 0, n);
    }
}

/// A period of fixed length: not a month or a year.
pub open spec fn is_fixed(p: Period) -> bool {
    p != Period::Month && p != Period::Year
}

proof fn lemma_multiple_step(a: int, d: int)
    requires
        d > 0,
        a % d == 0,
    ensures
        (a + d) % d == 0,
{
    lemma_fundamental_div_mod(a, d);
    assert(a == d * (a / d));
    assert(d * (a / d) + d == (a / d + 1) * d) by (nonlinear_arith);
    lemma_fundamental_div_mod_converse(a + d, d, a / d + 1, 0);
}

proof fn lemma_steps_multiples(p: Period, at: i64, to: i64)
    requires
        is_fixed(p),
        (at as int) % p.fixed_nanos() == 0,
    ensures
        forall|i: int|
            0 <= i < p.steps_before(at, to).len() ==> (#[trigger] p.steps_before(at, to)[i]) as int
                % p.fixed_nanos() == 0,
    decreases (if at < to { to - at } else { 0 }),
{
    if at < to {
        match p.add_spec(at) {
            Some(n) => {
                if n > at {
                    lemma_multiple_step(at as int, p.fixed_nanos());
                    lemma_steps_multiples(p, n, to);
                    let s = p.steps_before(at, to);
                    assert forall|i: int| 0 <= i < s.len() implies (#[trigger] s[i]) as int % p.fixed_nanos()
                        == 0 by {
                        if i > 0 {
                            assert(s[i] == p.steps_before(n, to)[i - 1]);
                        }
                    }
                }
            },
            None => {},
        }
    }
}

proof fn lemma_first_multiple(p: Period, at: i64, from: i64)
    requires
        is_fixed(p),
        (at as int) % p.fixed_nanos() == 0,
    ensures
        p.first_at_or_after(at, from) matches Some(a) ==> (a as int) % p.fixed_nanos() == 0,
    decreases (if at < from { from - at } else { 0 }),
{
    if at < from {
        match p.add_spec(at) {
            Some(n) => {
                if n > at {
                    lemma_multiple_step(at as int, p.fixed_nanos());
                    lemma_first_multiple(p, n, from);
                }
            },
            None => {},
        }
    }
}

/// Truncating to a period of fixed length gives a whole number of periods
/// since the epoch.
pub proof fn lemma_truncate_fixed(p: Period, at: i64)
    requires
        is_fixed(p),
    ensures
        p.truncate_spec(at) matches Some(a) ==> (a as int) % p.fixed_nanos() == 0,
{
    let d = p.fixed_nanos();
    let x = at as int;
    if at != 0 {
        lemma_fundamental_div_mod(x, d);
        assert(x - x % d == d * (x / d));
        assert(d * (x / d) == (x / d) * d) by (nonlinear_arith);
        lemma_fundamental_div_mod_converse(x - x % d, d, x / d, 0);
    }
}

/// Truncating to a period of fixed length moves an instant back by less than
/// one period, and truncating again changes nothing.
pub proof fn lemma_truncate_start(p: Period, at: i64)
    requires
        is_fixed(p),
    ensures
        p.truncate_spec(at) matches Some(a) ==> a <= at && at - a < p.fixed_nanos()
            && p.truncate_spec(a) == Some(a),
{
    lemma_truncate_fixed(p, at);
    match p.truncate_spec(at) {
        Some(a) => {
            if a != 0 {
                assert((a as int) % p.fixed_nanos() == 0);
                assert(crate::utc::floor_to_span(a, p.fixed_nanos() as i64) == Some(a));
            }
        },
        None => {},
    }
}

/// For a period of fixed length, a period boundary moved on by one period is
/// again a boundary.
pub proof fn lemma_step_keeps_aligned(p: Period, at: i64)
    requires
        is_fixed(p),
        p.truncate_spec(at) == Some(at),
    ensures
        p.add_spec(at) matches Some(n) ==> p.truncate_spec(n) == Some(n),
{
    let d = p.fixed_nanos();
    match p.add_spec(at) {
        Some(n) => {
            lemma_truncate_fixed(p, at);
            lemma_multiple_step(at as int, d);
            assert((n as int) % d == 0);
            if n != 0 {
                assert(crate::utc::floor_to_span(n, d as i64) == Some(n));
            }
        },
        None => {},
    }
}

/// For a period of fixed length, every aligned instant is a whole number of
/// periods since the epoch: ticks fall on period boundaries.
pub proof fn lemma_aligned_range_on_boundaries(p: Period, from: i64, to: i64)
    requires
        is_fixed(p),
    ensures
        forall|i: int|
            0 <= i < p.aligned_range_spec(from, to).len() ==> (#[trigger] p.aligned_range_spec(from, to)[i]) as int
                % p.fixed_nanos() == 0,
{
    lemma_truncate_fixed(p, from);
    match p.truncate_spec(from) {
        Some(a) => {
            lemma_first_multiple(p, a, from);
            match p.first_at_or_after(a, from) {
                Some(b) => lemma_steps_multiples(p, b, to),
                None => {},
            }
        },
        None => {
            lemma_first_at_or_after(p, to, from);
            match p.first_at_or_after(to, from) {
                Some(b) => {
                    assert(p.steps_before(b, to).len() == 0);
                },
                None => {},
            }
        },
    }
}

proof fn lemma_try_samples_fit(t: Seq<TickView>, c: Seq<TickView>, span: TickSpan, sample: nat)
    ensures
        try_samples_spec(t, c, span, sample) matches Some((s, _)) ==> span.consumed_spec(labels(s))
            <= span.length_spec(),
    decreases c.len() + 1 - sample,
{
    if sample == 0 || sample > c.len() {
    } else {
        lemma_try_samples_fit(t, c, span, sample + 1);
    }
}

proof fn lemma_generate_from_fits(
    periods: Seq<Period>,
    i: int,
    ticks: Seq<TickView>,
    latest: Period,
    first: i64,
    last: i64,
    span: TickSpan,
)
    requires
        span.consumed_spec(labels(ticks)) <= span.length_spec(),
    ensures
        span.consumed_spec(labels(generate_from(periods, i, ticks, latest, first, last, span).0))
            <= span.length_spec(),
    decreases periods.len() - i,
{
    if i < 0 || i >= periods.len() {
    } else {
        let c = candidate_spec(periods[i], first, last);
        lemma_try_samples_fit(ticks, c, span, 1);
        match try_samples_spec(ticks, c, span, 1) {
            Some((s, stop)) => {
                if !stop {
                    lemma_generate_from_fits(periods, i + 1, s, periods[i], first, last, span);
                }
            },
            None => {
                lemma_generate_from_fits(periods, i + 1, ticks, latest, first, last, span);
            },
        }
    }
}

/// The chosen ticks fit the span: their labels, as they were measured when
/// the ticks were chosen, take no more than the room available.
pub proof fn lemma_generated_ticks_fit(periods: Seq<Period>, first: i64, last: i64, span: TickSpan)
    requires
        periods.len() > 0,
    ensures
        span.consumed_spec(labels(generate_from(periods, 0, seq![], periods[0], first, last, span).0))
            <= span.length_spec(),
{
    let empty = Seq::<TickView>::empty();
    assert(labels(empty).len() == 0);
    assert(span.consumed_spec(labels(empty)) == 0) by (nonlinear_arith)
        requires
            labels(empty).len() == 0,
            span.consumed_spec(labels(empty)) == span.consumed_for(
                crate::span::max_label_len(labels(empty)),
                labels(empty).len() as int,
            ),
    ;
    lemma_generate_from_fits(periods, 0, empty, periods[0], first, last, span);
}

/// Sampling every candidate is no sampling: it keeps the whole list.
proof fn lemma_sample_one(s: Seq<TickView>, a: nat)
    ensures
        sample_spec(s, a, 1) == s,
    decreases s.len(),
{
    if s.len() > 0 {
        lemma_sample_one(s.drop_last(), a);
        assert(((s.len() - 1) as int) % 1 == (a as int) % 1);
        assert(s.drop_last().push(s.last()) =~= s);
    }
}

/// From a step of two on, any sample that fits stops generation.
proof fn lemma_sampled_fit_stops(t: Seq<TickView>, c: Seq<TickView>, span: TickSpan, sample: nat)
    requires
        sample >= 2,
    ensures
        try_samples_spec(t, c, span, sample) matches Some((_, stop)) ==> stop,
    decreases c.len() + 1 - sample,
{
    if sample == 0 || sample > c.len() {
    } else {
        lemma_sampled_fit_stops(t, c, span, sample + 1);
    }
}

/// One period's step of selection. When all of the period's candidates,
/// merged into the ticks so far, fit the span, they are taken whole, and
/// generation stops only if they take more than half the room. When they do
/// not fit, whatever sparser sample is taken instead ends generation: no
/// smaller period adds ticks after a sampled one.
pub proof fn lemma_sampling_stops(t: Seq<TickView>, c: Seq<TickView>, span: TickSpan)
    ensures
        try_samples_spec(t, c, span, 1) matches Some((s, stop)) ==> {
            let full = sort_dedup(t + c);
            let used = span.consumed_spec(labels(full));
            &&& used > span.length_spec() ==> stop
            &&& used <= span.length_spec() ==> s == full && (stop <==> 2 * used
                > span.length_spec())
        },
{
    if c.len() > 0 {
        let m = crate::timestamp_gen::common_index_spec(t, c, 1) as nat;
        lemma_sample_one(c, m);
        assert(sampled_candidates(t, c, 1) == c);
        assert(merge_ticks_spec(t, c, 1) == sort_dedup(t + c));
        lemma_sampled_fit_stops(t, c, span, 2);
    }
}

/// A fitting sample is the merge of the ticks with some sample step of the
/// candidates, from the step tried first up to one per candidate.
proof fn lemma_try_samples_witness(t: Seq<TickView>, c: Seq<TickView>, span: TickSpan, sample: nat)
    ensures
        try_samples_spec(t, c, span, sample) matches Some((s, _)) ==> exists|m: nat|
            sample <= m <= c.len() && m >= 1 && s == #[trigger] merge_ticks_spec(t, c, m),
    decreases c.len() + 1 - sample,
{
    if sample == 0 || sample > c.len() {
    } else {
        lemma_try_samples_witness(t, c, span, sample + 1);
        let s = merge_ticks_spec(t, c, sample);
        if span.consumed_spec(labels(s)) <= span.length_spec() {
            assert(sample <= sample <= c.len() && sample >= 1 && s == merge_ticks_spec(t, c, sample));
        }
    }
}

/// Merging a sample of at least one candidate keeps a tick at the instant of
/// some candidate.
proof fn lemma_merge_keeps_a_candidate(t: Seq<TickView>, c: Seq<TickView>, m: nat)
    requires
        1 <= m <= c.len(),
    ensures
        exists|j: int, w: int|
            0 <= j < merge_ticks_spec(t, c, m).len() && 0 <= w < c.len()
                && #[trigger] merge_ticks_spec(t, c, m)[j].0 == #[trigger] c[w].0,
{
    let a_idx = crate::timestamp_gen::common_index_spec(t, c, m);
    let sv = sampled_candidates(t, c, m);
    lemma_sample_keeps_congruent(c, a_idx as nat, m);
    let r = (a_idx as nat) as int % (m as int);
    assert(0 <= r < m);
    assert(r % (m as int) == r) by {
        vstd::arithmetic::div_mod::lemma_small_mod(r as nat, m as nat);
    }
    let q = congruent_count(r as nat, r, m as int) as int;
    assert(sv[q] == c[r]);
    let a = t + sv;
    let n = t.len() + q;
    assert(a[n] == c[r]);
    lemma_sort_dedup(a);
    lemma_first_at_exists(a, n);
    let i2 = choose|i2: int| #![trigger is_first_at(a, i2)] 0 <= i2 <= n && is_first_at(a, i2) && a[i2].0 == a[n].0;
    let res = merge_ticks_spec(t, c, m);
    assert(res.contains(a[i2]));
    let j = choose|j: int| 0 <= j < res.len() && res[j] == a[i2];
    assert(0 <= j < res.len() && 0 <= r < c.len() && res[j].0 == c[r].0);
}

/// Whether `x` is a candidate of one of the first `n` periods that is no
/// smaller than `latest`.
pub open spec fn from_no_smaller(periods: Seq<Period>, n: int, latest: Period, first: i64, last: i64, x: TickView) -> bool {
    exists|k: int|
        0 <= k < n && periods[k].rank() >= latest.rank() && #[trigger] candidate_spec(
            periods[k],
            first,
            last,
        ).contains(x)
}

/// What the formatter's latest period holds while going through the periods
/// from index `i` on: it is one of the periods; with no ticks it is the
/// first; some tick lies on one of its boundaries; and every tick is a
/// candidate of an earlier period no smaller than it.
pub open spec fn latest_fits(
    periods: Seq<Period>,
    i: int,
    ticks: Seq<TickView>,
    latest: Period,
    first: i64,
    last: i64,
) -> bool {
    &&& periods.contains(latest)
    &&& ticks.len() == 0 ==> latest == periods[0]
    &&& ticks.len() > 0 ==> exists|j: int|
        0 <= j < ticks.len() && #[trigger] latest.aligned_range_spec(first, last).contains(ticks[j].0)
    &&& forall|j: int|
        0 <= j < ticks.len() ==> #[trigger] from_no_smaller(periods, i, latest, first, last, ticks[j])
}

proof fn lemma_generate_from_latest(
    periods: Seq<Period>,
    i: int,
    ticks: Seq<TickView>,
    latest: Period,
    first: i64,
    last: i64,
    span: TickSpan,
)
    requires
        0 <= i <= periods.len(),
        forall|a: int, b: int| 0 <= a < b < periods.len() ==> periods[a].rank() > periods[b].rank(),
        latest_fits(periods, i, ticks, latest, first, last),
    ensures
        latest_fits(
            periods,
            periods.len() as int,
            generate_from(periods, i, ticks, latest, first, last, span).0,
            generate_from(periods, i, ticks, latest, first, last, span).1,
            first,
            last,
        ),
    decreases periods.len() - i,
{
    if i == periods.len() {
    } else {
        let p = periods[i];
        let c = candidate_spec(p, first, last);
        lemma_try_samples_contents(ticks, c, span, 1);
        lemma_try_samples_witness(ticks, c, span, 1);
        match try_samples_spec(ticks, c, span, 1) {
            Some((s, stop)) => {
                let m = choose|m: nat| 1 <= m <= c.len() && m >= 1 && s == #[trigger] merge_ticks_spec(ticks, c, m);
                lemma_merge_keeps_a_candidate(ticks, c, m);
                let (j, w) = choose|j: int, w: int|
                    0 <= j < s.len() && 0 <= w < c.len() && #[trigger] s[j].0 == #[trigger] c[w].0;
                let al = p.aligned_range_spec(first, last);
                assert(c[w].0 == al[w]);
                assert(p.aligned_range_spec(first, last).contains(s[j].0));
                assert(periods.contains(p)) by {
                    assert(periods[i] == p);
                }
                assert forall|jj: int| 0 <= jj < s.len() implies #[trigger] from_no_smaller(
                    periods,
                    i + 1,
                    p,
                    first,
                    last,
                    s[jj],
                ) by {
                    assert(s.contains(s[jj]));
                    if ticks.contains(s[jj]) {
                        let v = choose|v: int| 0 <= v < ticks.len() && ticks[v] == s[jj];
                        assert(from_no_smaller(periods, i, latest, first, last, ticks[v]));
                        let k = choose|k: int|
                            0 <= k < i && periods[k].rank() >= latest.rank() && #[trigger] candidate_spec(
                                periods[k],
                                first,
                                last,
                            ).contains(ticks[v]);
                        assert(periods[k].rank() > p.rank());
                        assert(0 <= k < i + 1 && periods[k].rank() >= p.rank() && candidate_spec(
                            periods[k],
                            first,
                            last,
                        ).contains(s[jj]));
                    } else {
                        assert(0 <= i < i + 1 && periods[i].rank() >= p.rank() && candidate_spec(
                            periods[i],
                            first,
                            last,
                        ).contains(s[jj]));
                    }
                }
                if stop {
                    assert forall|jj: int| 0 <= jj < s.len() implies #[trigger] from_no_smaller(
                        periods,
                        periods.len() as int,
                        p,
                        first,
                        last,
                        s[jj],
                    ) by {
                        assert(from_no_smaller(periods, i + 1, p, first, last, s[jj]));
                        let k = choose|k: int|
                            0 <= k < i + 1 && periods[k].rank() >= p.rank() && #[trigger] candidate_spec(
                                periods[k],
                                first,
                                last,
                            ).contains(s[jj]);
                        assert(0 <= k < periods.len() && periods[k].rank() >= p.rank() && candidate_spec(
                            periods[k],
                            first,
                            last,
                        ).contains(s[jj]));
                    }
                } else {
                    lemma_generate_from_latest(periods, i + 1, s, p, first, last, span);
                }
            },
            None => {
                assert forall|jj: int| 0 <= jj < ticks.len() implies #[trigger] from_no_smaller(
                    periods,
                    i + 1,
                    latest,
                    first,
                    last,
                    ticks[jj],
                ) by {
                    assert(from_no_smaller(periods, i, latest, first, last, ticks[jj]));
                    let k = choose|k: int|
                        0 <= k < i && periods[k].rank() >= latest.rank() && #[trigger] candidate_spec(
                            periods[k],
                            first,
                            last,
                        ).contains(ticks[jj]);
                    assert(0 <= k < i + 1 && periods[k].rank() >= latest.rank() && candidate_spec(
                        periods[k],
                        first,
                        last,
                    ).contains(ticks[jj]));
                }
                lemma_generate_from_latest(periods, i + 1, ticks, latest, first, last, span);
            },
        }
    }
}

/// The period that long labels are written at is the smallest period that
/// contributed ticks: it is one of the generator's periods; some generated
/// tick lies on one of its boundaries; every generated tick is a candidate of
/// a period no smaller than it; and with no ticks it is the largest period.
pub proof fn lemma_latest_is_smallest_contributor(periods: Seq<Period>, first: i64, last: i64, span: TickSpan)
    requires
        periods.len() > 0,
        forall|a: int, b: int| 0 <= a < b < periods.len() ==> periods[a].rank() > periods[b].rank(),
    ensures
        latest_fits(
            periods,
            periods.len() as int,
            generate_from(periods, 0, seq![], periods[0], first, last, span).0,
            generate_from(periods, 0, seq![], periods[0], first, last, span).1,
            first,
            last,
        ),
{
    assert(periods[0] == periods[0]);
    assert(periods.contains(periods[0]));
    lemma_generate_from_latest(periods, 0, seq![], periods[0], first, last, span);
}

/// A short label is written at the largest of the formatter's periods (kept
/// largest first) that its instant starts; an instant that starts none of
/// them is written at the latest period.
pub proof fn lemma_label_at_largest_aligned(periods: Seq<Period>, latest: Period, at: i64)
    requires
        forall|a: int, b: int| 0 <= a < b < periods.len() ==> periods[a].rank() > periods[b].rank(),
    ensures
        forall|k: int|
            0 <= k < periods.len() && #[trigger] periods[k].truncate_spec(at) == Some(at) && (forall|q: Period|
                periods.contains(q) && q.rank() > periods[k].rank() ==> q.truncate_spec(at) != Some(at))
                ==> label_period(periods, latest, at) == periods[k],
        (forall|k: int| 0 <= k < periods.len() ==> #[trigger] periods[k].truncate_spec(at) != Some(at))
            ==> label_period(periods, latest, at) == latest,
    decreases periods.len(),
{
    if periods.len() > 0 {
        let rest = periods.drop_first();
        assert forall|a: int, b: int| 0 <= a < b < rest.len() implies rest[a].rank() > rest[b].rank() by {
            assert(rest[a] == periods[a + 1] && rest[b] == periods[b + 1]);
        }
        lemma_label_at_largest_aligned(rest, latest, at);
        assert forall|k: int|
            0 <= k < periods.len() && #[trigger] periods[k].truncate_spec(at) == Some(at) && (forall|q: Period|
                periods.contains(q) && q.rank() > periods[k].rank() ==> q.truncate_spec(at) != Some(at))
            implies label_period(periods, latest, at) == periods[k] by {
            if periods[0].truncate_spec(at) == Some(at) {
                if k > 0 {
                    assert(periods.contains(periods[0]));
                    assert(periods[0].rank() > periods[k].rank());
                }
            } else {
                assert(k > 0);
                assert(rest[k - 1] == periods[k]);
                assert forall|q: Period| rest.contains(q) && q.rank() > rest[k - 1].rank() implies q.truncate_spec(at) != Some(at) by {
                    let w = choose|w: int| 0 <= w < rest.len() && rest[w] == q;
                    assert(periods[w + 1] == q);
                    assert(periods.contains(q));
                }
                assert(rest[k - 1].truncate_spec(at) == Some(at));
            }
        }
        if forall|k: int| 0 <= k < periods.len() ==> #[trigger] periods[k].truncate_spec(at) != Some(at) {
            assert forall|k: int| 0 <= k < rest.len() implies #[trigger] rest[k].truncate_spec(at) != Some(at) by {
                assert(rest[k] == periods[k + 1]);
            }
            assert(periods[0].truncate_spec(at) != Some(at));
        }
    }
}

} // verus!
