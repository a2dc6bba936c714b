//! The timestamp tick generator: picks period-aligned ticks that fit a span.

use crate::span::TickSpan;
use crate::timestamps::Period;
use crate::utc::{format_utc, utc_strftime};
use vstd::prelude::*;

verus! {

/// A tick as the generator sees it: an instant and its short label.
pub type TickView = (i64, Seq<char>);

/// A candidate tick: an instant and the label it is shown with.
#[derive(Clone, Debug)]
pub struct Timestamp {
    pub at: i64,
    pub short: String,
}

impl View for Timestamp {
    type V = TickView;

    open spec fn view(&self) -> TickView {
        (self.at, self.short@)
    }
}

/// The views of a list of ticks.
pub open spec fn views(v: Seq<Timestamp>) -> Seq<TickView> {
    v.map_values(|t: Timestamp| t@)
}

/// The labels of a list of ticks.
pub open spec fn labels(v: Seq<TickView>) -> Seq<Seq<char>> {
    v.map_values(|t: TickView| t.1)
}

/// Ticks in strictly increasing time order.
pub open spec fn strictly_increasing(v: Seq<TickView>) -> bool {
    forall|i: int, j: int| 0 <= i < j < v.len() ==> v[i].0 < v[j].0
}

/// The items whose index leaves the same remainder by `keep_every` as
/// `align_index` does, in order.
pub open spec fn sample_spec<T>(s: Seq<T>, align_index: nat, keep_every: nat) -> Seq<T>
    decreases s.len(),
{
    if s.len() == 0 {
        seq![]
    } else {
        let prev = sample_spec(s.drop_last(), align_index, keep_every);
        if (s.len() - 1) % (keep_every as int) == (align_index as int) % (keep_every as int) {
            prev.push(s.last())
        } else {
            prev
        }
    }
}

/// `t` put into the tick list `s` before the first tick that is not earlier
/// than it, unless that tick is at the same instant, in which case `s` stays.
pub open spec fn insert_tick(s: Seq<TickView>, t: TickView) -> Seq<TickView>
    decreases s.len(),
{
    if s.len() == 0 {
        seq![t]
    } else if t.0 < s[0].0 {
        seq![t] + s
    } else if t.0 == s[0].0 {
        s
    } else {
        seq![s[0]] + insert_tick(s.drop_first(), t)
    }
}

/// The ticks of `s` sorted by time with repeated instants removed, keeping
/// the earliest tick of `s` at each instant: a stable sort followed by a
/// dedup.
pub open spec fn sort_dedup(s: Seq<TickView>) -> Seq<TickView>
    decreases s.len(),
{
    if s.len() == 0 {
        seq![]
    } else {
        insert_tick(sort_dedup(s.drop_last()), s.last())
    }
}

/// Whether `s[i]` is the earliest tick of `s` at its instant.
pub open spec fn is_first_at(s: Seq<TickView>, i: int) -> bool {
    0 <= i < s.len() && forall|j: int| 0 <= j < i ==> s[j].0 != s[i].0
}

/// Whether some tick of `c` is at the instant `at`.
pub open spec fn has_at(c: Seq<TickView>, at: i64) -> bool {
    exists|j: int| 0 <= j < c.len() && c[j].0 == at
}

/// The first index of `c` whose tick is at `at`.
pub open spec fn first_index_of_at(c: Seq<TickView>, at: i64) -> int {
    choose|j: int| 0 <= j < c.len() && c[j].0 == at && forall|k: int| 0 <= k < j ==> c[k].0 != at
}

/// The index into the candidates that sampling keeps: that of the first
/// existing tick that is also a candidate, else `sample - 1`.
pub open spec fn common_index_spec(e: Seq<TickView>, c: Seq<TickView>, sample: nat) -> int
    decreases e.len(),
{
    if e.len() == 0 {
        sample - 1
    } else if has_at(c, e[0].0) {
        first_index_of_at(c, e[0].0)
    } else {
        common_index_spec(e.drop_first(), c, sample)
    }
}

/// Every `sample`-th candidate, aligned so that a candidate already among the
/// existing ticks is kept.
pub open spec fn sampled_candidates(e: Seq<TickView>, c: Seq<TickView>, sample: nat) -> Seq<TickView> {
    sample_spec(c, common_index_spec(e, c, sample) as nat, sample)
}

/// The existing ticks followed by the sampled candidates, sorted by time with
/// repeated instants removed; an existing tick wins over a candidate at the
/// same instant.
pub open spec fn merge_ticks_spec(e: Seq<TickView>, c: Seq<TickView>, sample: nat) -> Seq<TickView> {
    sort_dedup(e + sampled_candidates(e, c, sample))
}

/// The candidate ticks of a period between `first` and `last`, labelled with
/// the period's short format.
pub open spec fn candidate_spec(p: Period, first: i64, last: i64) -> Seq<TickView> {
    p.aligned_range_spec(first, last).map_values(
        |at: i64| (at, utc_strftime(at, p.short_format_spec())),
    )
}

/// Trying ever sparser samples of the candidates, from `sample` on: the
/// first merge that fits, and whether generation stops there (it had to
/// sample, or the ticks take more than half the room); `None` if none fits.
pub open spec fn try_samples_spec(t: Seq<TickView>, c: Seq<TickView>, span: TickSpan, sample: nat) -> Option<(Seq<TickView>, bool)>
    decreases c.len() + 1 - sample,
{
    if sample == 0 || sample > c.len() {
        None
    } else {
        let s = merge_ticks_spec(t, c, sample);
        let used = span.consumed_spec(labels(s));
        if used <= span.length_spec() {
            Some((s, sample != 1 || 2 * used > span.length_spec()))
        } else if s.len() == 1 {
            None
        } else {
            try_samples_spec(t, c, span, sample + 1)
        }
    }
}

/// Going through the periods from index `i` on with the ticks chosen so far:
/// the final ticks and the last period that contributed.
pub open spec fn generate_from(
    periods: Seq<Period>,
    i: int,
    ticks: Seq<TickView>,
    latest: Period,
    first: i64,
    last: i64,
    span: TickSpan,
) -> (Seq<TickView>, Period)
    decreases periods.len() - i,
{
    if i < 0 || i >= periods.len() {
        (ticks, latest)
    } else {
        match try_samples_spec(ticks, candidate_spec(periods[i], first, last), span, 1) {
            Some((s, stop)) => if stop {
                (s, periods[i])
            } else {
                generate_from(periods, i + 1, s, periods[i], first, last, span)
            },
            None => generate_from(periods, i + 1, ticks, latest, first, last, span),
        }
    }
}

/// Whether `at` is one of the aligned instants in `[first, last)` of one of
/// the periods.
pub open spec fn on_some_boundary(periods: Seq<Period>, first: i64, last: i64, at: i64) -> bool {
    exists|k: int|
        0 <= k < periods.len() && #[trigger] periods[k].aligned_range_spec(first, last).contains(at)
}

/// Whether `at` is the start of a period of one of `periods`.
pub open spec fn aligned_to_some(periods: Seq<Period>, at: i64) -> bool {
    exists|k: int| 0 <= k < periods.len() && #[trigger] periods[k].truncate_spec(at) == Some(at)
}

/// The period whose short label an instant gets: the first of `periods`
/// that `at` is aligned to, else `latest`.
pub open spec fn label_period(periods: Seq<Period>, latest: Period, at: i64) -> Period
    decreases periods.len(),
{
    if periods.len() == 0 {
        latest
    } else if periods[0].truncate_spec(at) == Some(at) {
        periods[0]
    } else {
        label_period(periods.drop_first(), latest, at)
    }
}

impl Timestamp {
    /// A candidate tick of `period` at `at`, labelled with the period's short
    /// format.
    pub fn new(period: Period, at: i64) -> (t: Self)
        ensures
            t@ == (at, utc_strftime(at, period.short_format_spec())),
    {
        let fmt = period.short_format();
        assert(crate::timestamps::is_period_format(fmt@)) by {
            assert(fmt@ == period.short_format_spec());
        }
        Timestamp { at, short: format_utc(at, fmt) }
    }

    /// A copy of the tick.
    pub fn copy(&self) -> (t: Self)
        ensures
            t@ == self@,
    {
        Timestamp { at: self.at, short: self.short.clone() }
    }
}

/// Keeps every `keep_every`-th tick, choosing the ones whose index leaves the
/// same remainder as `align_index`, so that `ticks[align_index]` (if there is
/// one) is kept.
pub fn sample_ticks<T>(ticks: Vec<T>, align_index: usize, keep_every: usize) -> (r: Vec<T>)
    requires
        keep_every > 0,
    ensures
        r@ == sample_spec(ticks@, align_index as nat, keep_every as nat),
{
    let ghost s = ticks@;
    let mod_result = align_index % keep_every;
    let mut rev: Vec<T> = Vec::new();
    let mut v = ticks;
    // Take the ticks from the back, keeping the chosen ones in reverse order.
    while v.len() > 0
        invariant
            v@.len() <= s.len(),
            v@ == s.take(v@.len() as int),
            sample_spec(s, align_index as nat, keep_every as nat) == sample_spec(
                v@,
                align_index as nat,
                keep_every as nat,
            ) + rev@.reverse(),
            keep_every > 0,
            mod_result == align_index % keep_every,
        decreases v@.len(),
    {
        let ghost before = v@;
        let i = v.len() - 1;
        let t = v.pop().unwrap();
        assert(v@ =~= before.drop_last());
        assert(v@ =~= s.take(v@.len() as int));
        if i % keep_every == mod_result {
            let ghost old_rev = rev@;
            rev.push(t);
            assert(rev@.reverse() =~= seq![t] + old_rev.reverse());
            assert(sample_spec(before, align_index as nat, keep_every as nat) =~= sample_spec(
                v@,
                align_index as nat,
                keep_every as nat,
            ).push(t));
        }
    }
    assert(v@ =~= Seq::<T>::empty());
    let mut out: Vec<T> = Vec::new();
    while rev.len() > 0
        invariant
            out@ + rev@.reverse() == sample_spec(s, align_index as nat, keep_every as nat),
        decreases rev@.len(),
    {
        let ghost before = rev@;
        let t = rev.pop().unwrap();
        assert(before.reverse() =~= seq![t] + rev@.reverse());
        out.push(t);
        assert(out@ + rev@.reverse() =~= sample_spec(s, align_index as nat, keep_every as nat));
    }
    assert(out@ =~= sample_spec(s, align_index as nat, keep_every as nat));
    out
}


/// Sampling commutes with taking views.
pub proof fn lemma_sample_views(s: Seq<Timestamp>, align_index: nat, keep_every: nat)
    ensures
        views(sample_spec(s, align_index, keep_every)) == sample_spec(views(s), align_index, keep_every),
    decreases s.len(),
{
    if s.len() > 0 {
        lemma_sample_views(s.drop_last(), align_index, keep_every);
        assert(views(s).drop_last() =~= views(s.drop_last()));
        let prev = sample_spec(s.drop_last(), align_index, keep_every);
        assert(views(prev.push(s.last())) =~= views(prev).push(s.last()@));
    }
}

/// Puts `t` into `out` before the first tick that is not earlier than it,
/// unless that tick is at the same instant, in which case `out` stays.
fn insert_tick_into(out: &mut Vec<Timestamp>, t: Timestamp)
    ensures
        views(final(out)@) == insert_tick(views(old(out)@), t@),
{
    let ghost s = views(out@);
    let ghost tv = t@;
    let mut k: usize = 0;
    assert(s.skip(0) =~= s);
    assert(s.take(0) + insert_tick(s.skip(0), tv) =~= insert_tick(s, tv));
    while k < out.len() && out[k].at < t.at
        invariant
            k <= out@.len(),
            s == views(out@),
            tv == t@,
            s.take(k as int) + insert_tick(s.skip(k as int), tv) == insert_tick(s, tv),
        decreases out@.len() - k,
    {
        let ghost r = s.skip(k as int);
        assert(r[0] == s[k as int]);
        assert(r.drop_first() =~= s.skip(k + 1));
        assert(s.take(k + 1) + insert_tick(s.skip(k + 1), tv) =~= s.take(k as int) + insert_tick(
            r,
            tv,
        ));
        k = k + 1;
    }
    if k < out.len() && out[k].at == t.at {
        assert(s.skip(k as int)[0] == s[k as int]);
        assert(s.take(k as int) + s.skip(k as int) =~= s);
    } else {
        let ghost old_v = out@;
        out.insert(k, t);
        assert(insert_tick(s.skip(k as int), tv) =~= seq![tv] + s.skip(k as int));
        assert(views(out@) =~= s.take(k as int) + (seq![tv] + s.skip(k as int)));
    }
}

/// The ticks sorted by time with repeated instants removed, keeping the
/// earliest tick at each instant.
fn sorted_unique(all: &Vec<Timestamp>) -> (r: Vec<Timestamp>)
    ensures
        views(r@) == sort_dedup(views(all@)),
{
    let ghost s = views(all@);
    let mut out: Vec<Timestamp> = Vec::new();
    let mut i: usize = 0;
    assert(s.take(0) =~= Seq::<TickView>::empty());
    assert(views(out@) =~= Seq::<TickView>::empty());
    while i < all.len()
        invariant
            i <= all@.len(),
            s == views(all@),
            views(out@) == sort_dedup(s.take(i as int)),
        decreases all@.len() - i,
    {
        assert(s.take(i + 1).drop_last() =~= s.take(i as int));
        assert(s.take(i + 1).last() == all@[i as int]@);
        insert_tick_into(&mut out, all[i].copy());
        i = i + 1;
    }
    assert(s.take(all@.len() as int) =~= s);
    out
}

/// The index into `candidate` of the first existing tick that is also a
/// candidate, or `sample - 1` when there is none.
fn common_index(existing: &Vec<Timestamp>, candidate: &Vec<Timestamp>, sample: usize) -> (r: usize)
    requires
        sample > 0,
    ensures
        r == common_index_spec(views(existing@), views(candidate@), sample as nat),
{
    let ghost e = views(existing@);
    let ghost c = views(candidate@);
    let mut i: usize = 0;
    assert(e.skip(0) =~= e);
    while i < existing.len()
        invariant
            i <= existing@.len(),
            e == views(existing@),
            c == views(candidate@),
            common_index_spec(e.skip(i as int), c, sample as nat) == common_index_spec(
                e,
                c,
                sample as nat,
            ),
        decreases existing@.len() - i,
    {
        let at = existing[i].at;
        let ghost se = e.skip(i as int);
        assert(se[0].0 == at);
        let mut j: usize = 0;
        while j < candidate.len()
            invariant
                j <= candidate@.len(),
                c == views(candidate@),
                forall|k: int| 0 <= k < j ==> c[k].0 != at,
                i < existing@.len(),
                e == views(existing@),
                se == e.skip(i as int),
                se[0].0 == at,
                common_index_spec(se, c, sample as nat) == common_index_spec(e, c, sample as nat),
            decreases candidate@.len() - j,
        {
            if candidate[j].at == at {
                assert(c[j as int].0 == at);
                assert(has_at(c, at));
                proof {
                    assert(0 <= j < c.len() && c[j as int].0 == at && forall|k: int|
                        0 <= k < j ==> c[k].0 != at);
                    assert(se.len() > 0);
                    assert(common_index_spec(se, c, sample as nat) == first_index_of_at(c, at));
                    let f = first_index_of_at(c, at);
                    assert(0 <= f < c.len() && c[f].0 == at && forall|k: int| 0 <= k < f ==> c[k].0 != at);
                    if f < j as int {
                        assert(c[f].0 != at);
                    }
                    if f > j as int {
                        assert(c[j as int].0 != at);
                    }
                }
                return j;
            }
            j = j + 1;
        }
        assert(!has_at(c, at));
        assert(se.drop_first() =~= e.skip(i + 1));
        i = i + 1;
    }
    assert(e.skip(i as int) =~= Seq::<TickView>::empty());
    sample - 1
}

/// Copies of the candidate ticks.
fn copy_ticks(v: &Vec<Timestamp>) -> (r: Vec<Timestamp>)
    ensures
        views(r@) == views(v@),
{
    let mut out: Vec<Timestamp> = Vec::new();
    let mut i: usize = 0;
    while i < v.len()
        invariant
            i <= v@.len(),
            views(out@) == views(v@).take(i as int),
        decreases v@.len() - i,
    {
        let ghost old_out = out@;
        out.push(v[i].copy());
        assert(views(out@) =~= views(old_out).push(v@[i as int]@));
        i = i + 1;
        assert(views(out@) =~= views(v@).take(i as int));
    }
    assert(views(v@).take(v@.len() as int) =~= views(v@));
    out
}

/// Merges every `sample`-th candidate into the existing ticks, aligning the
/// sample on a candidate that is already among them: the existing ticks and
/// the sampled candidates are sorted by time together and repeated instants
/// removed, the earlier tick (an existing one before a candidate) staying.
pub fn merge_ticks(existing: &Vec<Timestamp>, candidate: &Vec<Timestamp>, sample: usize) -> (r: Vec<Timestamp>)
    requires
        sample > 0,
    ensures
        views(r@) == merge_ticks_spec(views(existing@), views(candidate@), sample as nat),
        strictly_increasing(views(r@)),
{
    let common = common_index(existing, candidate, sample);
    let copies = copy_ticks(candidate);
    let mut sampled = sample_ticks(copies, common, sample);
    proof {
        lemma_sample_views(copies@, common as nat, sample as nat);
    }
    let ghost sv = views(sampled@);
    let mut all = copy_ticks(existing);
    let ghost ev = views(all@);
    all.append(&mut sampled);
    assert(views(all@) =~= ev + sv);
    let r = sorted_unique(&all);
    proof {
        crate::timestamp_laws::lemma_sort_dedup(ev + sv);
    }
    r
}

/// The candidate ticks of `period` in `[first, last)` with their labels.
pub fn candidate_ticks(period: Period, first: i64, last: i64) -> (r: Vec<Timestamp>)
    ensures
        views(r@) == candidate_spec(period, first, last),
        forall|i: int|
            0 <= i < r@.len() ==> #[trigger] period.truncate_spec(r@[i].at) == Some(r@[i].at),
{
    let ats = period.iter_aligned_range(first, last);
    let ghost target = candidate_spec(period, first, last);
    let mut out: Vec<Timestamp> = Vec::new();
    let mut i: usize = 0;
    while i < ats.len()
        invariant
            i <= ats@.len(),
            ats@ == period.aligned_range_spec(first, last),
            target == candidate_spec(period, first, last),
            views(out@) == target.take(i as int),
        decreases ats@.len() - i,
    {
        let ghost old_out = out@;
        let t = Timestamp::new(period, ats[i]);
        out.push(t);
        assert(views(out@) =~= views(old_out).push(t@));
        assert(target[i as int] == t@);
        i = i + 1;
        assert(views(out@) =~= target.take(i as int));
    }
    assert(target.take(ats@.len() as int) =~= target);
    assert forall|i: int| 0 <= i < out@.len() implies #[trigger] period.truncate_spec(out@[i].at)
        == Some(out@[i].at) by {
        assert(views(out@)[i] == out@[i]@);
        assert(target[i].0 == ats@[i]);
    }
    out
}

/// The labels of the ticks.
fn tick_labels(ticks: &Vec<Timestamp>) -> (r: Vec<String>)
    ensures
        r@.map_values(|l: String| l@) == labels(views(ticks@)),
{
    let ghost ls = labels(views(ticks@));
    let mut out: Vec<String> = Vec::new();
    let mut i: usize = 0;
    while i < ticks.len()
        invariant
            i <= ticks@.len(),
            ls == labels(views(ticks@)),
            out@.map_values(|l: String| l@) == ls.take(i as int),
        decreases ticks@.len() - i,
    {
        let ghost old_out = out@;
        out.push(ticks[i].short.clone());
        assert(out@.map_values(|l: String| l@) =~= old_out.map_values(|l: String| l@).push(
            ticks@[i as int].short@,
        ));
        i = i + 1;
        assert(out@.map_values(|l: String| l@) =~= ls.take(i as int));
    }
    assert(ls.take(ticks@.len() as int) =~= ls);
    out
}

/// The byte length of the longest label among the ticks.
fn longest_tick_label(ticks: &Vec<Timestamp>) -> (n: usize)
    ensures
        n == crate::span::max_label_len(labels(views(ticks@))),
{
    crate::span::longest_label(&tick_labels(ticks))
}

/// One period's step of tick selection: merges every candidate, then every
/// second, every third, ... into the ticks chosen so far, and gives the first
/// merge that fits the span, with whether selection stops there (it had to
/// sample, or the ticks take more than half the room). `None` when no sample
/// fits, or when even a single tick does not.
pub fn try_samples(ticks: &Vec<Timestamp>, candidate: &Vec<Timestamp>, span: &TickSpan) -> (r: Option<(Vec<Timestamp>, bool)>)
    ensures
        match r {
            Some((v, stop)) => try_samples_spec(views(ticks@), views(candidate@), *span, 1)
                == Some((views(v@), stop)),
            None => try_samples_spec(views(ticks@), views(candidate@), *span, 1) is None,
        },
{
    let ghost t = views(ticks@);
    let ghost c = views(candidate@);
    let mut k: usize = 0;
    while k < candidate.len()
        invariant
            k <= candidate@.len(),
            t == views(ticks@),
            c == views(candidate@),
            try_samples_spec(t, c, *span, (k + 1) as nat) == try_samples_spec(t, c, *span, 1),
        decreases candidate@.len() - k,
    {
        let sample = k + 1;
        let sampled = merge_ticks(ticks, candidate, sample);
        let ghost s = views(sampled@);
        let longest = longest_tick_label(&sampled);
        assert(labels(s).len() == sampled@.len());
        match span.used_if_fits(longest, sampled.len()) {
            Some(used) => {
                let avail = span.length();
                let stop = sample != 1 || (used as u128) * 2 > avail as u128;
                return Some((sampled, stop));
            },
            None => {
                if sampled.len() == 1 {
                    return None;
                }
            },
        }
        k = k + 1;
    }
    None
}

/// Ticks and the formatting state that goes with them.
pub struct GeneratedTicks<Tick, State> {
    pub ticks: Vec<Tick>,
    pub state: State,
}

impl<Tick, State> GeneratedTicks<Tick, State> {
    pub fn new(ticks: Vec<Tick>, state: State) -> (g: Self)
        ensures
            g.ticks == ticks,
            g.state == state,
    {
        GeneratedTicks { ticks, state }
    }

    /// No ticks.
    pub fn none(state: State) -> (g: Self)
        ensures
            g.ticks@.len() == 0,
            g.state == state,
    {
        GeneratedTicks { ticks: Vec::new(), state }
    }
}

/// Generated ticks compare by their ticks alone: generators must give equal
/// states for equal ticks.
impl<State> PartialEq for GeneratedTicks<i64, State> {
    fn eq(&self, other: &Self) -> (r: bool) {
        if self.ticks.len() != other.ticks.len() {
            return false;
        }
        let mut i: usize = 0;
        while i < self.ticks.len()
            invariant
                i <= self.ticks@.len(),
                self.ticks@.len() == other.ticks@.len(),
                self.ticks@.take(i as int) == other.ticks@.take(i as int),
            decreases self.ticks@.len() - i,
        {
            if self.ticks[i] != other.ticks[i] {
                assert(self.ticks@[i as int] != other.ticks@[i as int]);
                return false;
            }
            assert(self.ticks@.take(i + 1) =~= self.ticks@.take(i as int).push(self.ticks@[i as int]));
            assert(other.ticks@.take(i + 1) =~= other.ticks@.take(i as int).push(
                other.ticks@[i as int],
            ));
            i = i + 1;
        }
        assert(self.ticks@ =~= self.ticks@.take(i as int));
        assert(other.ticks@ =~= other.ticks@.take(i as int));
        true
    }
}

impl<State> vstd::std_specs::cmp::PartialEqSpecImpl for GeneratedTicks<i64, State> {
    open spec fn obeys_eq_spec() -> bool {
        true
    }

    open spec fn eq_spec(&self, other: &Self) -> bool {
        self.ticks@ == other.ticks@
    }
}

/// Formats timestamps at the precision that their ticks were chosen at.
pub struct TimestampFormatter {
    periods: Vec<Period>,
    latest_period: Period,
}

impl TimestampFormatter {
    /// The periods that labels may be shown at, largest first.
    pub closed spec fn periods_spec(&self) -> Seq<Period> {
        self.periods@
    }

    /// The smallest period that contributed ticks.
    pub closed spec fn latest_spec(&self) -> Period {
        self.latest_period
    }

    pub fn new(latest_period: Period, periods: &[Period]) -> (f: Self)
        ensures
            f.periods_spec() == periods@,
            f.latest_spec() == latest_period,
    {
        let mut v: Vec<Period> = Vec::new();
        let mut i: usize = 0;
        while i < periods.len()
            invariant
                i <= periods@.len(),
                v@ == periods@.take(i as int),
            decreases periods@.len() - i,
        {
            v.push(periods[i]);
            i = i + 1;
            assert(v@ =~= periods@.take(i as int));
        }
        assert(periods@.take(periods@.len() as int) =~= periods@);
        TimestampFormatter { periods: v, latest_period }
    }

    /// A formatter with no periods, used where there are no ticks.
    pub fn unknown() -> (f: Self)
        ensures
            f.periods_spec().len() == 0,
            f.latest_spec() == Period::Nanosecond,
    {
        TimestampFormatter { periods: Vec::new(), latest_period: Period::Nanosecond }
    }

    /// The short label of `at`: formatted at the largest period it is aligned
    /// to, else at the smallest period that contributed ticks.
    pub fn short_format(&self, at: i64) -> (s: String)
        ensures
            s@ == utc_strftime(
                at,
                label_period(self.periods_spec(), self.latest_spec(), at).short_format_spec(),
            ),
    {
        let ghost ps = self.periods@;
        let mut found = self.latest_period;
        let mut i: usize = 0;
        assert(ps.skip(0) =~= ps);
        while i < self.periods.len()
            invariant
                i <= ps.len(),
                ps == self.periods@,
                label_period(ps.skip(i as int), found, at) == label_period(ps, self.latest_period, at),
            decreases ps.len() - i,
        {
            let p = self.periods[i];
            assert(ps.skip(i as int)[0] == p);
            if p.truncate_at(at) == Some(at) {
                found = p;
                i = self.periods.len();
                assert(label_period(ps.skip(i as int), found, at) == found);
            } else {
                assert(ps.skip(i as int).drop_first() =~= ps.skip(i + 1));
                i = i + 1;
            }
        }
        assert(ps.skip(i as int) =~= Seq::<Period>::empty());
        Timestamp::new(found, at).short
    }

    /// The full description of `at` at the precision of the smallest period
    /// that contributed ticks.
    pub fn long_format(&self, at: i64) -> (s: String)
        ensures
            s@ == utc_strftime(at, self.latest_spec().long_format_spec()),
    {
        let fmt = self.latest_period.long_format();
        assert(crate::timestamps::is_period_format(fmt@)) by {
            assert(fmt@ == self.latest_period.long_format_spec());
        }
        format_utc(at, fmt)
    }
}


/// Generates timestamp ticks aligned to calendar and clock periods.
#[derive(Clone, Debug)]
pub struct TimestampGen {
    periods: Vec<Period>,
}

/// Periods of different length differ.
pub proof fn lemma_rank_injective(p: Period, q: Period)
    ensures
        p.rank() == q.rank() ==> p == q,
{
}

/// The period of rank `8 - k`: the `k`-th largest.
fn period_by_descending_index(k: usize) -> (p: Period)
    requires
        k < 9,
    ensures
        p.rank() == 8 - k,
{
    match k {
        0 => Period::Year,
        1 => Period::Month,
        2 => Period::Day,
        3 => Period::Hour,
        4 => Period::Minute,
        5 => Period::Second,
        6 => Period::Millisecond,
        7 => Period::Microsecond,
        _ => Period::Nanosecond,
    }
}

fn contains_period(periods: &[Period], p: Period) -> (b: bool)
    ensures
        b == periods@.contains(p),
{
    let mut i: usize = 0;
    while i < periods.len()
        invariant
            i <= periods@.len(),
            forall|k: int| 0 <= k < i ==> periods@[k] != p,
        decreases periods@.len() - i,
    {
        if periods[i] == p {
            return true;
        }
        i = i + 1;
    }
    false
}

impl TimestampGen {
    /// The periods that ticks may be aligned to, largest first.
    pub closed spec fn periods_spec(&self) -> Seq<Period> {
        self.periods@
    }

    /// A generator over the given periods, in any order and with repeats:
    /// it keeps each period once, largest first.
    pub fn new(periods: &[Period]) -> (g: Self)
        ensures
            forall|i: int, j: int|
                0 <= i < j < g.periods_spec().len() ==> g.periods_spec()[i].rank()
                    > g.periods_spec()[j].rank(),
            forall|p: Period| g.periods_spec().contains(p) <==> periods@.contains(p),
    {
        let mut out: Vec<Period> = Vec::new();
        let mut k: usize = 0;
        while k < 9
            invariant
                k <= 9,
                forall|i: int, j: int| 0 <= i < j < out@.len() ==> out@[i].rank() > out@[j].rank(),
                forall|i: int|
                    0 <= i < out@.len() ==> out@[i].rank() > 8 - k && periods@.contains(
                        #[trigger] out@[i],
                    ),
                forall|q: Period|
                    periods@.contains(q) && q.rank() > 8 - k ==> #[trigger] out@.contains(q),
            decreases 9 - k,
        {
            let p = period_by_descending_index(k);
            let ghost old_out = out@;
            if contains_period(periods, p) {
                out.push(p);
                assert(forall|i: int| 0 <= i < old_out.len() ==> out@[i] == old_out[i]);
                assert(out@[old_out.len() as int] == p);
            }
            assert forall|q: Period| periods@.contains(q) && q.rank() > 8 - (k + 1) implies #[trigger] out@.contains(q) by {
                lemma_rank_injective(p, q);
                if q.rank() > 8 - k {
                    assert(old_out.contains(q));
                    let w = choose|w: int| 0 <= w < old_out.len() && old_out[w] == q;
                    assert(out@[w] == q);
                } else {
                    assert(q == p);
                    assert(out@[out@.len() - 1] == q);
                }
            }
            k = k + 1;
        }
        assert forall|q: Period| out@.contains(q) <==> periods@.contains(q) by {
            if out@.contains(q) {
                let w = choose|w: int| 0 <= w < out@.len() && out@[w] == q;
                assert(periods@.contains(out@[w]));
            }
        }
        TimestampGen { periods: out }
    }

    /// Ticks for the range `[first, last)` that fit `span`: each period,
    /// largest first, adds its aligned instants to those already chosen,
    /// sampling them when they do not fit, until one had to be sampled or
    /// the ticks take more than half the room.
    pub fn generate(&self, first: i64, last: i64, span: &TickSpan) -> (g: GeneratedTicks<i64, TimestampFormatter>)
        ensures
            self.periods_spec().len() == 0 ==> g.ticks@.len() == 0 && g.state.periods_spec().len()
                == 0 && g.state.latest_spec() == Period::Nanosecond,
            self.periods_spec().len() > 0 ==> {
                let res = generate_from(
                    self.periods_spec(),
                    0,
                    seq![],
                    self.periods_spec()[0],
                    first,
                    last,
                    *span,
                );
                &&& g.ticks@ == res.0.map_values(|t: TickView| t.0)
                &&& g.state.latest_spec() == res.1
                &&& g.state.periods_spec() == self.periods_spec()
            },
            forall|i: int, j: int| 0 <= i < j < g.ticks@.len() ==> g.ticks@[i] < g.ticks@[j],
            forall|i: int| 0 <= i < g.ticks@.len() ==> first <= #[trigger] g.ticks@[i] < last,
            forall|i: int|
                0 <= i < g.ticks@.len() ==> #[trigger] on_some_boundary(
                    self.periods_spec(),
                    first,
                    last,
                    g.ticks@[i],
                ),
            forall|i: int|
                0 <= i < g.ticks@.len() ==> #[trigger] aligned_to_some(self.periods_spec(), g.ticks@[i]),
    {
        if self.periods.len() == 0 {
            return GeneratedTicks::none(TimestampFormatter::unknown());
        }
        let ghost ps = self.periods@;
        let ghost target = generate_from(ps, 0, seq![], ps[0], first, last, *span);
        let mut ticks: Vec<Timestamp> = Vec::new();
        let mut latest = self.periods[0];
        let mut i: usize = 0;
        assert(views(ticks@) =~= Seq::<TickView>::empty());
        while i < self.periods.len()
            invariant
                i <= ps.len(),
                ps == self.periods@,
                generate_from(ps, i as int, views(ticks@), latest, first, last, *span) == target,
                forall|j: int|
                    0 <= j < ticks@.len() ==> #[trigger] aligned_to_some(ps, ticks@[j].at),
            decreases ps.len() - i,
        {
            let period = self.periods[i];
            let candidate = candidate_ticks(period, first, last);
            match try_samples(&ticks, &candidate, span) {
                Some((s, stop)) => {
                    proof {
                        let tv0 = views(ticks@);
                        let cv = views(candidate@);
                        crate::timestamp_laws::lemma_try_samples_contents(tv0, cv, *span, 1);
                        assert forall|j: int| 0 <= j < s@.len() implies #[trigger] aligned_to_some(
                            ps,
                            s@[j].at,
                        ) by {
                            let x = views(s@)[j];
                            assert(x == s@[j]@);
                            assert(views(s@).contains(x));
                            if tv0.contains(x) {
                                let w = choose|w: int| 0 <= w < tv0.len() && tv0[w] == x;
                                assert(ticks@[w]@ == x);
                                assert(aligned_to_some(ps, ticks@[w].at));
                            } else {
                                let w = choose|w: int| 0 <= w < cv.len() && cv[w] == x;
                                assert(candidate@[w]@ == x);
                                assert(period.truncate_spec(candidate@[w].at) == Some(candidate@[w].at));
                                assert(ps[i as int] == period);
                                assert(0 <= i < ps.len() && ps[i as int].truncate_spec(s@[j].at) == Some(s@[j].at));
                            }
                        }
                    }
                    ticks = s;
                    latest = period;
                    if stop {
                        i = self.periods.len();
                    } else {
                        i = i + 1;
                    }
                },
                None => {
                    i = i + 1;
                },
            }
        }
        let ghost tv = views(ticks@);
        let mut ats: Vec<i64> = Vec::new();
        let mut k: usize = 0;
        while k < ticks.len()
            invariant
                k <= ticks@.len(),
                tv == views(ticks@),
                ats@ == tv.map_values(|t: TickView| t.0).take(k as int),
            decreases ticks@.len() - k,
        {
            ats.push(ticks[k].at);
            k = k + 1;
            assert(ats@ =~= tv.map_values(|t: TickView| t.0).take(k as int));
        }
        assert(tv.map_values(|t: TickView| t.0).take(ticks@.len() as int) =~= tv.map_values(
            |t: TickView| t.0,
        ));
        proof {
            crate::timestamp_laws::lemma_generated_ticks_ordered_within(ps, first, last, *span);
            assert(tv == target.0);
            assert forall|i: int| 0 <= i < ats@.len() implies first <= #[trigger] ats@[i] < last by {
                assert(ats@[i] == tv[i].0);
            }
            assert forall|i: int, j: int| 0 <= i < j < ats@.len() implies ats@[i] < ats@[j] by {
                assert(ats@[i] == tv[i].0);
                assert(ats@[j] == tv[j].0);
            }
            assert forall|i: int| 0 <= i < ats@.len() implies #[trigger] aligned_to_some(ps, ats@[i]) by {
                assert(ats@[i] == tv[i].0);
                assert(tv[i] == ticks@[i]@);
                assert(aligned_to_some(ps, ticks@[i].at));
            }
            crate::timestamp_laws::lemma_generated_ticks_are_candidates(ps, first, last, *span);
            assert forall|i: int| 0 <= i < ats@.len() implies #[trigger] on_some_boundary(
                ps,
                first,
                last,
                ats@[i],
            ) by {
                assert(ats@[i] == tv[i].0);
                assert(crate::timestamp_laws::candidate_of_some(ps, ps.len() as int, first, last, tv[i]));
                let k = choose|k: int|
                    0 <= k < ps.len() && #[trigger] candidate_spec(ps[k], first, last).contains(tv[i]);
                let c = candidate_spec(ps[k], first, last);
                let w = choose|w: int| 0 <= w < c.len() && c[w] == tv[i];
                let al = ps[k].aligned_range_spec(first, last);
                assert(c[w].0 == al[w]);
                assert(0 <= k < ps.len() && al.contains(ats@[i]));
            }
        }
        GeneratedTicks { ticks: ats, state: TimestampFormatter::new(latest, self.periods.as_slice()) }
    }
}

} // verus!
