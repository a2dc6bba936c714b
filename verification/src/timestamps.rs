//! Tick generation for timestamp axes.
//!
//! Ticks are placed on period boundaries (years, months, days, ... down to
//! nanoseconds). Periods are tried from the largest down; each period's ticks
//! are merged into those already chosen, sampled if they do not fit, until a
//! period dominates the available space.

use crate::utc::{
    add_months, floor_to_span, month_of, month_start, utc_add_months, utc_month_of, utc_month_start,
    utc_trunc, utc_year_of, year_of,
};
use vstd::prelude::*;

verus! {

/// A calendar or clock period that ticks can be aligned to.
#[derive(Copy, Clone, Debug, PartialEq, Eq, Structural, PartialOrd, Ord, Hash)]
pub enum Period {
    Nanosecond,
    Microsecond,
    Millisecond,
    Second,
    Minute,
    Hour,
    Day,
    Month,
    Year,
}

/// The periods from the largest to the smallest.
pub open spec fn all_periods() -> Seq<Period> {
    seq![
        Period::Year,
        Period::Month,
        Period::Day,
        Period::Hour,
        Period::Minute,
        Period::Second,
        Period::Millisecond,
        Period::Microsecond,
        Period::Nanosecond,
    ]
}

/// A strftime string that some period uses for its short or long labels.
pub open spec fn is_period_format(fmt: Seq<char>) -> bool {
    exists|p: Period| fmt == p.short_format_spec() || fmt == p.long_format_spec()
}

impl Period {
    /// Periods ordered by length: the nanosecond is smallest, the year largest.
    pub open spec fn rank(self) -> int {
        match self {
            Period::Nanosecond => 0,
            Period::Microsecond => 1,
            Period::Millisecond => 2,
            Period::Second => 3,
            Period::Minute => 4,
            Period::Hour => 5,
            Period::Day => 6,
            Period::Month => 7,
            Period::Year => 8,
        }
    }

    /// The length in nanoseconds of a period of fixed length (zero for months
    /// and years, whose length varies).
    pub open spec fn fixed_nanos(self) -> int {
        match self {
            Period::Nanosecond => 1,
            Period::Microsecond => 1_000,
            Period::Millisecond => 1_000_000,
            Period::Second => 1_000_000_000,
            Period::Minute => 60_000_000_000,
            Period::Hour => 3_600_000_000_000,
            Period::Day => 86_400_000_000_000,
            Period::Month => 0,
            Period::Year => 0,
        }
    }

    pub open spec fn short_format_spec(self) -> Seq<char> {
        match self {
            Period::Nanosecond => "%H:%M:%S.%f"@,
            Period::Microsecond => "%H:%M:%S.%6f"@,
            Period::Millisecond => "%H:%M:%S.%3f"@,
            Period::Second => "%H:%M:%S"@,
            Period::Minute => "%H:%M"@,
            Period::Hour => "%H:%M"@,
            Period::Day => "%a"@,
            Period::Month => "%b"@,
            Period::Year => "%Y"@,
        }
    }

    pub open spec fn long_format_spec(self) -> Seq<char> {
        match self {
            Period::Nanosecond => "%Y-%m-%d %H:%M:%S.%9f %Z"@,
            Period::Microsecond => "%Y-%m-%d %H:%M:%S.%6f %Z"@,
            Period::Millisecond => "%Y-%m-%d %H:%M:%S.%3f %Z"@,
            Period::Second => "%Y-%m-%d %H:%M:%S %Z"@,
            Period::Minute => "%Y-%m-%d %H:%M %Z"@,
            Period::Hour => "%Y-%m-%d %H:%M %Z"@,
            Period::Day => "%Y-%m-%d %Z"@,
            Period::Month => "%B %Y %Z"@,
            Period::Year => "%Y %Z"@,
        }
    }

    /// The start of the period that holds `at`, if it can be found.
    pub open spec fn truncate_spec(self, at: i64) -> Option<i64> {
        match self {
            Period::Month => utc_month_start(utc_year_of(at), utc_month_of(at)),
            Period::Year => utc_month_start(utc_year_of(at), 1),
            _ => if at == 0 {
                Some(0i64)
            } else {
                floor_to_span(at, self.fixed_nanos() as i64)
            },
        }
    }

    /// Whether `at` is the start of a period: truncating it changes nothing
    /// (and, for years, it lies in January).
    pub open spec fn is_boundary(self, at: i64) -> bool {
        &&& self.truncate_spec(at) == Some(at)
        &&& (self == Period::Year ==> utc_month_of(at) == 1)
    }

    /// `at` moved forward by one period (`None` past the range of instants).
    pub open spec fn add_spec(self, at: i64) -> Option<i64> {
        match self {
            Period::Month => utc_add_months(at, 1),
            Period::Year => utc_add_months(at, 12),
            _ => if at + self.fixed_nanos() <= i64::MAX {
                Some((at + self.fixed_nanos()) as i64)
            } else {
                None
            },
        }
    }

    /// The first instant reached from `at` by whole periods that is not
    /// before `from`; `None` if the steps run out of range.
    pub open spec fn first_at_or_after(self, at: i64, from: i64) -> Option<i64>
        decreases (if at < from { from - at } else { 0 }),
    {
        if at >= from {
            Some(at)
        } else {
            match self.add_spec(at) {
                Some(n) => if n > at {
                    self.first_at_or_after(n, from)
                } else {
                    None
                },
                None => None,
            }
        }
    }

    /// The instants from `at` stepping by one period while before `to`.
    pub open spec fn steps_before(self, at: i64, to: i64) -> Seq<i64>
        decreases (if at < to { to - at } else { 0 }),
    {
        if at >= to {
            seq![]
        } else {
            match self.add_spec(at) {
                Some(n) => if n > at {
                    seq![at] + self.steps_before(n, to)
                } else {
                    seq![at]
                },
                None => seq![at],
            }
        }
    }

    /// The period boundaries in `[from, to)`: `from` is truncated to the
    /// period and moved forward to the first boundary not before it.
    pub open spec fn aligned_range_spec(self, from: i64, to: i64) -> Seq<i64> {
        let start = match self.truncate_spec(from) {
            Some(a) => a,
            None => to,
        };
        match self.first_at_or_after(start, from) {
            Some(a) => self.steps_before(a, to),
            None => seq![],
        }
    }

    /// All periods, from the largest to the smallest.
    pub fn all() -> (r: [Period; 9])
        ensures
            r@ == all_periods(),
    {
        let r = [
            Period::Year,
            Period::Month,
            Period::Day,
            Period::Hour,
            Period::Minute,
            Period::Second,
            Period::Millisecond,
            Period::Microsecond,
            Period::Nanosecond,
        ];
        assert(r@ =~= all_periods());
        r
    }

    /// The strftime string for a tick label of this period.
    pub fn short_format(self) -> (r: &'static str)
        ensures
            r@ == self.short_format_spec(),
    {
        match self {
            Period::Nanosecond => "%H:%M:%S.%f",
            Period::Microsecond => "%H:%M:%S.%6f",
            Period::Millisecond => "%H:%M:%S.%3f",
            Period::Second => "%H:%M:%S",
            Period::Hour | Period::Minute => "%H:%M",
            Period::Day => "%a",
            Period::Month => "%b",
            Period::Year => "%Y",
        }
    }

    /// The strftime string for a full description of an instant at this
    /// period's precision.
    pub fn long_format(self) -> (r: &'static str)
        ensures
            r@ == self.long_format_spec(),
    {
        match self {
            Period::Nanosecond => "%Y-%m-%d %H:%M:%S.%9f %Z",
            Period::Microsecond => "%Y-%m-%d %H:%M:%S.%6f %Z",
            Period::Millisecond => "%Y-%m-%d %H:%M:%S.%3f %Z",
            Period::Second => "%Y-%m-%d %H:%M:%S %Z",
            Period::Minute => "%Y-%m-%d %H:%M %Z",
            Period::Hour => "%Y-%m-%d %H:%M %Z",
            Period::Day => "%Y-%m-%d %Z",
            Period::Month => "%B %Y %Z",
            Period::Year => "%Y %Z",
        }
    }

    fn fixed_nanos_exec(self) -> (n: i64)
        requires
            self != Period::Month,
            self != Period::Year,
        ensures
            n == self.fixed_nanos(),
            n > 0,
    {
        match self {
            Period::Nanosecond => 1,
            Period::Microsecond => 1_000,
            Period::Millisecond => 1_000_000,
            Period::Second => 1_000_000_000,
            Period::Minute => 60_000_000_000,
            Period::Hour => 3_600_000_000_000,
            Period::Day => 86_400_000_000_000,
            Period::Month => 1,
            Period::Year => 1,
        }
    }

    /// The start of the period that holds `at`: the month or year start from
    /// chrono's calendar, otherwise `at` rounded down to a whole number of
    /// periods since the epoch. The epoch itself is aligned to every fixed
    /// period.
    pub fn truncate_at(self, at: i64) -> (r: Option<i64>)
        ensures
            r == self.truncate_spec(at),
            r matches Some(a) ==> a <= at && self.truncate_spec(a) == Some(a),
            r matches Some(a) ==> match self {
                Period::Month => utc_year_of(a) == utc_year_of(at) && utc_month_of(a)
                    == utc_month_of(at),
                Period::Year => utc_year_of(a) == utc_year_of(at) && utc_month_of(a) == 1,
                _ => at - a < self.fixed_nanos(),
            },
    {
        match self {
            Period::Month => {
                let y = year_of(at);
                let m = month_of(at);
                month_start(y, m)
            },
            Period::Year => {
                let y = year_of(at);
                month_start(y, 1)
            },
            _ => {
                proof {
                    crate::timestamp_laws::lemma_truncate_start(self, at);
                }
                if at == 0 {
                    Some(at)
                } else {
                    utc_trunc(at, self.fixed_nanos_exec())
                }
            },
        }
    }

    /// `at` moved forward by one period: calendar months for months and
    /// years, a fixed number of nanoseconds otherwise.
    pub fn add_to(self, at: i64) -> (r: Option<i64>)
        ensures
            r == self.add_spec(at),
            self.is_boundary(at) ==> (r matches Some(n) ==> self.is_boundary(n)),
    {
        match self {
            Period::Month => add_months(at, 1),
            Period::Year => add_months(at, 12),
            _ => {
                proof {
                    if self.is_boundary(at) {
                        crate::timestamp_laws::lemma_step_keeps_aligned(self, at);
                    }
                }
                at.checked_add(self.fixed_nanos_exec())
            },
        }
    }

    /// The period boundaries in `[from, to)`, in increasing order.
    pub fn iter_aligned_range(self, from: i64, to: i64) -> (r: Vec<i64>)
        ensures
            r@ == self.aligned_range_spec(from, to),
            forall|i: int| 0 <= i < r@.len() ==> #[trigger] self.truncate_spec(r@[i]) == Some(r@[i]),
    {
        let start = match self.truncate_at(from) {
            Some(a) => a,
            None => to,
        };
        let mut cur = start;
        while cur < from
            invariant
                self.is_boundary(cur) || cur >= to,
                self.first_at_or_after(cur, from) == self.first_at_or_after(start, from),
                self.aligned_range_spec(from, to) == match self.first_at_or_after(start, from) {
                    Some(a) => self.steps_before(a, to),
                    None => seq![],
                },
            decreases (if cur < from { from - cur } else { 0 }),
        {
            match self.add_to(cur) {
                Some(n) => {
                    if n > cur {
                        cur = n;
                    } else {
                        return Vec::new();
                    }
                },
                None => {
                    return Vec::new();
                },
            }
        }
        let ghost first = cur;
        let mut out: Vec<i64> = Vec::new();
        while cur < to
            invariant
                self.is_boundary(cur) || cur >= to,
                forall|i: int|
                    0 <= i < out@.len() ==> #[trigger] self.truncate_spec(out@[i]) == Some(out@[i]),
                out@ + self.steps_before(cur, to) == self.steps_before(first, to),
                self.aligned_range_spec(from, to) == self.steps_before(first, to),
            decreases (if cur < to { to - cur } else { 0 }),
        {
            out.push(cur);
            match self.add_to(cur) {
                Some(n) => {
                    if n > cur {
                        assert(out@ + self.steps_before(n, to) =~= self.steps_before(first, to));
                        cur = n;
                    } else {
                        assert(out@ =~= self.steps_before(first, to));
                        return out;
                    }
                },
                None => {
                    assert(out@ =~= self.steps_before(first, to));
                    return out;
                },
            }
        }
        assert(out@ =~= self.steps_before(first, to));
        out
    }
}

/// The list of all periods runs from the largest to the smallest and holds
/// every period once.
pub proof fn lemma_all_periods()
    ensures
        forall|i: int, j: int|
            0 <= i < j < all_periods().len() ==> all_periods()[i].rank() > all_periods()[j].rank(),
        forall|p: Period| all_periods().contains(p),
{
    assert forall|p: Period| all_periods().contains(p) by {
        let w: int = 8 - p.rank();
        assert(all_periods()[w] == p);
    }
}

/// Whether the strftime string `fmt` holds the directive `d`.
pub open spec fn has_directive(fmt: Seq<char>, d: Seq<char>) -> bool {
    exists|i: int| 0 <= i && i + d.len() <= fmt.len() && #[trigger] fmt.subrange(i, i + d.len()) == d
}

/// Whether `fmt` shows the unit that a period counts, by one of the chrono
/// directives for that field: the fraction of a second at the period's
/// precision, the second, minute or hour, the day (of the week or month),
/// the month (by name or number) or the year.
pub open spec fn shows_unit(p: Period, fmt: Seq<char>) -> bool {
    match p {
        Period::Nanosecond => has_directive(fmt, "%f"@) || has_directive(fmt, "%9f"@),
        Period::Microsecond => has_directive(fmt, "%6f"@),
        Period::Millisecond => has_directive(fmt, "%3f"@),
        Period::Second => has_directive(fmt, "%S"@),
        Period::Minute => has_directive(fmt, "%M"@),
        Period::Hour => has_directive(fmt, "%H"@),
        Period::Day => has_directive(fmt, "%a"@) || has_directive(fmt, "%d"@),
        Period::Month => has_directive(fmt, "%b"@) || has_directive(fmt, "%B"@) || has_directive(
            fmt,
            "%m"@,
        ),
        Period::Year => has_directive(fmt, "%Y"@),
    }
}

/// Labels tell a period's boundaries apart. A short label shows the unit
/// that its period counts, and below a day it shows the clock from the hour
/// down to that unit, so two boundaries of one period on one day get
/// different labels. A long label shows its period's unit and every unit
/// from the year down to the second that is not smaller than it.
pub proof fn lemma_labels_show_their_unit(p: Period)
    ensures
        shows_unit(p, p.short_format_spec()),
        p.rank() <= Period::Hour.rank() ==> has_directive(p.short_format_spec(), "%H"@),
        p.rank() <= Period::Minute.rank() ==> has_directive(p.short_format_spec(), "%M"@),
        p.rank() <= Period::Second.rank() ==> has_directive(p.short_format_spec(), "%S"@),
        shows_unit(p, p.long_format_spec()),
        forall|q: Period|
            q.rank() >= p.rank() && q.rank() >= Period::Second.rank() ==> #[trigger] shows_unit(
                q,
                p.long_format_spec(),
            ),
{
    match p {
            Period::Nanosecond => {
                reveal_strlit("%9f");
                reveal_strlit("%H");
                reveal_strlit("%H:%M:%S.%f");
                reveal_strlit("%M");
                reveal_strlit("%S");
                reveal_strlit("%Y");
                reveal_strlit("%Y-%m-%d %H:%M:%S.%9f %Z");
                reveal_strlit("%d");
                reveal_strlit("%f");
                reveal_strlit("%m");
                assert(p.short_format_spec().subrange(9int, 9int + "%f"@.len()) =~= "%f"@);
                assert(has_directive(p.short_format_spec(), "%f"@));
                assert(p.short_format_spec().subrange(6int, 6int + "%S"@.len()) =~= "%S"@);
                assert(has_directive(p.short_format_spec(), "%S"@));
                assert(p.short_format_spec().subrange(3int, 3int + "%M"@.len()) =~= "%M"@);
                assert(has_directive(p.short_format_spec(), "%M"@));
                assert(p.short_format_spec().subrange(0int, 0int + "%H"@.len()) =~= "%H"@);
                assert(has_directive(p.short_format_spec(), "%H"@));
                assert(p.long_format_spec().subrange(18int, 18int + "%9f"@.len()) =~= "%9f"@);
                assert(has_directive(p.long_format_spec(), "%9f"@));
                assert(p.long_format_spec().subrange(15int, 15int + "%S"@.len()) =~= "%S"@);
                assert(has_directive(p.long_format_spec(), "%S"@));
                assert(p.long_format_spec().subrange(12int, 12int + "%M"@.len()) =~= "%M"@);
                assert(has_directive(p.long_format_spec(), "%M"@));
                assert(p.long_format_spec().subrange(9int, 9int + "%H"@.len()) =~= "%H"@);
                assert(has_directive(p.long_format_spec(), "%H"@));
                assert(p.long_format_spec().subrange(6int, 6int + "%d"@.len()) =~= "%d"@);
                assert(has_directive(p.long_format_spec(), "%d"@));
                assert(p.long_format_spec().subrange(3int, 3int + "%m"@.len()) =~= "%m"@);
                assert(has_directive(p.long_format_spec(), "%m"@));
                assert(p.long_format_spec().subrange(0int, 0int + "%Y"@.len()) =~= "%Y"@);
                assert(has_directive(p.long_format_spec(), "%Y"@));
            },
            Period::Microsecond => {
                reveal_strlit("%6f");
                reveal_strlit("%H");
                reveal_strlit("%H:%M:%S.%6f");
                reveal_strlit("%M");
                reveal_strlit("%S");
                reveal_strlit("%Y");
                reveal_strlit("%Y-%m-%d %H:%M:%S.%6f %Z");
                reveal_strlit("%d");
                reveal_strlit("%m");
                assert(p.short_format_spec().subrange(9int, 9int + "%6f"@.len()) =~= "%6f"@);
                assert(has_directive(p.short_format_spec(), "%6f"@));
                assert(p.short_format_spec().subrange(6int, 6int + "%S"@.len()) =~= "%S"@);
                assert(has_directive(p.short_format_spec(), "%S"@));
                assert(p.short_format_spec().subrange(3int, 3int + "%M"@.len()) =~= "%M"@);
                assert(has_directive(p.short_format_spec(), "%M"@));
                assert(p.short_format_spec().subrange(0int, 0int + "%H"@.len()) =~= "%H"@);
                assert(has_directive(p.short_format_spec(), "%H"@));
                assert(p.long_format_spec().subrange(18int, 18int + "%6f"@.len()) =~= "%6f"@);
                assert(has_directive(p.long_format_spec(), "%6f"@));
                assert(p.long_format_spec().subrange(15int, 15int + "%S"@.len()) =~= "%S"@);
                assert(has_directive(p.long_format_spec(), "%S"@));
                assert(p.long_format_spec().subrange(12int, 12int + "%M"@.len()) =~= "%M"@);
                assert(has_directive(p.long_format_spec(), "%M"@));
                assert(p.long_format_spec().subrange(9int, 9int + "%H"@.len()) =~= "%H"@);
                assert(has_directive(p.long_format_spec(), "%H"@));
                assert(p.long_format_spec().subrange(6int, 6int + "%d"@.len()) =~= "%d"@);
                assert(has_directive(p.long_format_spec(), "%d"@));
                assert(p.long_format_spec().subrange(3int, 3int + "%m"@.len()) =~= "%m"@);
                assert(has_directive(p.long_format_spec(), "%m"@));
                assert(p.long_format_spec().subrange(0int, 0int + "%Y"@.len()) =~= "%Y"@);
                assert(has_directive(p.long_format_spec(), "%Y"@));
            },
            Period::Millisecond => {
                reveal_strlit("%3f");
                reveal_strlit("%H");
                reveal_strlit("%H:%M:%S.%3f");
                reveal_strlit("%M");
                reveal_strlit("%S");
                reveal_strlit("%Y");
                reveal_strlit("%Y-%m-%d %H:%M:%S.%3f %Z");
                reveal_strlit("%d");
                reveal_strlit("%m");
                assert(p.short_format_spec().subrange(9int, 9int + "%3f"@.len()) =~= "%3f"@);
                assert(has_directive(p.short_format_spec(), "%3f"@));
                assert(p.short_format_spec().subrange(6int, 6int + "%S"@.len()) =~= "%S"@);
                assert(has_directive(p.short_format_spec(), "%S"@));
                assert(p.short_format_spec().subrange(3int, 3int + "%M"@.len()) =~= "%M"@);
                assert(has_directive(p.short_format_spec(), "%M"@));
                assert(p.short_format_spec().subrange(0int, 0int + "%H"@.len()) =~= "%H"@);
                assert(has_directive(p.short_format_spec(), "%H"@));
                assert(p.long_format_spec().subrange(18int, 18int + "%3f"@.len()) =~= "%3f"@);
                assert(has_directive(p.long_format_spec(), "%3f"@));
                assert(p.long_format_spec().subrange(15int, 15int + "%S"@.len()) =~= "%S"@);
                assert(has_directive(p.long_format_spec(), "%S"@));
                assert(p.long_format_spec().subrange(12int, 12int + "%M"@.len()) =~= "%M"@);
                assert(has_directive(p.long_format_spec(), "%M"@));
                assert(p.long_format_spec().subrange(9int, 9int + "%H"@.len()) =~= "%H"@);
                assert(has_directive(p.long_format_spec(), "%H"@));
                assert(p.long_format_spec().subrange(6int, 6int + "%d"@.len()) =~= "%d"@);
                assert(has_directive(p.long_format_spec(), "%d"@));
                assert(p.long_format_spec().subrange(3int, 3int + "%m"@.len()) =~= "%m"@);
                assert(has_directive(p.long_format_spec(), "%m"@));
                assert(p.long_format_spec().subrange(0int, 0int + "%Y"@.len()) =~= "%Y"@);
                assert(has_directive(p.long_format_spec(), "%Y"@));
            },
            Period::Second => {
                reveal_strlit("%H");
                reveal_strlit("%H:%M:%S");
                reveal_strlit("%M");
                reveal_strlit("%S");
                reveal_strlit("%Y");
                reveal_strlit("%Y-%m-%d %H:%M:%S %Z");
                reveal_strlit("%d");
                reveal_strlit("%m");
                assert(p.short_format_spec().subrange(6int, 6int + "%S"@.len()) =~= "%S"@);
                assert(has_directive(p.short_format_spec(), "%S"@));
                assert(p.short_format_spec().subrange(3int, 3int + "%M"@.len()) =~= "%M"@);
                assert(has_directive(p.short_format_spec(), "%M"@));
                assert(p.short_format_spec().subrange(0int, 0int + "%H"@.len()) =~= "%H"@);
                assert(has_directive(p.short_format_spec(), "%H"@));
                assert(p.long_format_spec().subrange(15int, 15int + "%S"@.len()) =~= "%S"@);
                assert(has_directive(p.long_format_spec(), "%S"@));
                assert(p.long_format_spec().subrange(12int, 12int + "%M"@.len()) =~= "%M"@);
                assert(has_directive(p.long_format_spec(), "%M"@));
                assert(p.long_format_spec().subrange(9int, 9int + "%H"@.len()) =~= "%H"@);
                assert(has_directive(p.long_format_spec(), "%H"@));
                assert(p.long_format_spec().subrange(6int, 6int + "%d"@.len()) =~= "%d"@);
                assert(has_directive(p.long_format_spec(), "%d"@));
                assert(p.long_format_spec().subrange(3int, 3int + "%m"@.len()) =~= "%m"@);
                assert(has_directive(p.long_format_spec(), "%m"@));
                assert(p.long_format_spec().subrange(0int, 0int + "%Y"@.len()) =~= "%Y"@);
                assert(has_directive(p.long_format_spec(), "%Y"@));
            },
            Period::Minute => {
                reveal_strlit("%H");
                reveal_strlit("%H:%M");
                reveal_strlit("%M");
                reveal_strlit("%Y");
                reveal_strlit("%Y-%m-%d %H:%M %Z");
                reveal_strlit("%d");
                reveal_strlit("%m");
                assert(p.short_format_spec().subrange(3int, 3int + "%M"@.len()) =~= "%M"@);
                assert(has_directive(p.short_format_spec(), "%M"@));
                assert(p.short_format_spec().subrange(0int, 0int + "%H"@.len()) =~= "%H"@);
                assert(has_directive(p.short_format_spec(), "%H"@));
                assert(p.long_format_spec().subrange(12int, 12int + "%M"@.len()) =~= "%M"@);
                assert(has_directive(p.long_format_spec(), "%M"@));
                assert(p.long_format_spec().subrange(9int, 9int + "%H"@.len()) =~= "%H"@);
                assert(has_directive(p.long_format_spec(), "%H"@));
                assert(p.long_format_spec().subrange(6int, 6int + "%d"@.len()) =~= "%d"@);
                assert(has_directive(p.long_format_spec(), "%d"@));
                assert(p.long_format_spec().subrange(3int, 3int + "%m"@.len()) =~= "%m"@);
                assert(has_directive(p.long_format_spec(), "%m"@));
                assert(p.long_format_spec().subrange(0int, 0int + "%Y"@.len()) =~= "%Y"@);
                assert(has_directive(p.long_format_spec(), "%Y"@));
            },
            Period::Hour => {
                reveal_strlit("%H");
                reveal_strlit("%H:%M");
                reveal_strlit("%M");
                reveal_strlit("%Y");
                reveal_strlit("%Y-%m-%d %H:%M %Z");
                reveal_strlit("%d");
                reveal_strlit("%m");
                assert(p.short_format_spec().subrange(3int, 3int + "%M"@.len()) =~= "%M"@);
                assert(has_directive(p.short_format_spec(), "%M"@));
                assert(p.short_format_spec().subrange(0int, 0int + "%H"@.len()) =~= "%H"@);
                assert(has_directive(p.short_format_spec(), "%H"@));
                assert(p.long_format_spec().subrange(12int, 12int + "%M"@.len()) =~= "%M"@);
                assert(has_directive(p.long_format_spec(), "%M"@));
                assert(p.long_format_spec().subrange(9int, 9int + "%H"@.len()) =~= "%H"@);
                assert(has_directive(p.long_format_spec(), "%H"@));
                assert(p.long_format_spec().subrange(6int, 6int + "%d"@.len()) =~= "%d"@);
                assert(has_directive(p.long_format_spec(), "%d"@));
                assert(p.long_format_spec().subrange(3int, 3int + "%m"@.len()) =~= "%m"@);
                assert(has_directive(p.long_format_spec(), "%m"@));
                assert(p.long_format_spec().subrange(0int, 0int + "%Y"@.len()) =~= "%Y"@);
                assert(has_directive(p.long_format_spec(), "%Y"@));
            },
            Period::Day => {
                reveal_strlit("%Y");
                reveal_strlit("%Y-%m-%d %Z");
                reveal_strlit("%a");
                reveal_strlit("%d");
                reveal_strlit("%m");
                assert(p.short_format_spec().subrange(0int, 0int + "%a"@.len()) =~= "%a"@);
                assert(has_directive(p.short_format_spec(), "%a"@));
                assert(p.long_format_spec().subrange(6int, 6int + "%d"@.len()) =~= "%d"@);
                assert(has_directive(p.long_format_spec(), "%d"@));
                assert(p.long_format_spec().subrange(3int, 3int + "%m"@.len()) =~= "%m"@);
                assert(has_directive(p.long_format_spec(), "%m"@));
                assert(p.long_format_spec().subrange(0int, 0int + "%Y"@.len()) =~= "%Y"@);
                assert(has_directive(p.long_format_spec(), "%Y"@));
            },
            Period::Month => {
                reveal_strlit("%B");
                reveal_strlit("%B %Y %Z");
                reveal_strlit("%Y");
                reveal_strlit("%b");
                assert(p.short_format_spec().subrange(0int, 0int + "%b"@.len()) =~= "%b"@);
                assert(has_directive(p.short_format_spec(), "%b"@));
                assert(p.long_format_spec().subrange(0int, 0int + "%B"@.len()) =~= "%B"@);
                assert(has_directive(p.long_format_spec(), "%B"@));
                assert(p.long_format_spec().subrange(3int, 3int + "%Y"@.len()) =~= "%Y"@);
                assert(has_directive(p.long_format_spec(), "%Y"@));
            },
            Period::Year => {
                reveal_strlit("%Y");
                reveal_strlit("%Y %Z");
                assert(p.short_format_spec().subrange(0int, 0int + "%Y"@.len()) =~= "%Y"@);
                assert(has_directive(p.short_format_spec(), "%Y"@));
                assert(p.long_format_spec().subrange(0int, 0int + "%Y"@.len()) =~= "%Y"@);
                assert(has_directive(p.long_format_spec(), "%Y"@));
            },
        }
    }

} // verus!
