use chrono::{DateTime, Datelike, TimeZone, Timelike, Utc};
use leptos_chartistry::span::{HorizontalSpan, TickSpan, VerticalSpan};
use leptos_chartistry::timestamp_gen::{
    merge_ticks, sample_ticks, try_samples, GeneratedTicks, Timestamp, TimestampFormatter,
    TimestampGen,
};
use leptos_chartistry::timestamps::Period;

fn nanos(dt: DateTime<Utc>) -> i64 {
    dt.timestamp_nanos_opt().unwrap()
}

fn ymd_hms(y: i32, mo: u32, d: u32, h: u32, mi: u32, s: u32) -> i64 {
    nanos(Utc.with_ymd_and_hms(y, mo, d, h, mi, s).unwrap())
}

fn dt(n: i64) -> DateTime<Utc> {
    DateTime::from_timestamp_nanos(n)
}

fn assert_ticks(ticks: GeneratedTicks<i64, TimestampFormatter>, expected: Vec<&'static str>) {
    let GeneratedTicks { ticks, state } = ticks;
    let check = ticks
        .into_iter()
        .map(|tick| state.short_format(tick))
        .collect::<Vec<_>>();
    assert_eq!(check, expected);
}

fn mk_span(width: u64) -> TickSpan {
    TickSpan::Horizontal(HorizontalSpan::new(6, 2, width))
}

#[test]
fn test_timestamp_generator() {
    let gen = TimestampGen::new(&Period::all());
    let first = ymd_hms(2014, 3, 1, 0, 0, 0);
    let last = ymd_hms(2018, 7, 5, 0, 0, 0);
    // Just years
    assert_ticks(
        gen.generate(first, last, &mk_span((4 * 6 + 4) * 4)),
        vec!["2015", "2016", "2017", "2018"],
    );
    // One year: shows mid-year and filled with months
    let last = ymd_hms(2015, 3, 5, 0, 0, 0);
    assert_ticks(
        gen.generate(first, last, &mk_span((4 * 6 + 4) * 14)),
        vec![
            "Mar", "Apr", "May", "Jun", "Jul", "Aug", "Sep", "Oct", "Nov", "Dec", "2015", "Feb",
            "Mar",
        ],
    );
    // Drill down on the edge
    let first = ymd_hms(2015, 1, 1, 0, 0, 0);
    let last = first + 1;
    assert_ticks(gen.generate(first, last, &mk_span(1000000)), vec!["2015"]);
    // Again but show ns
    let last = first + 3;
    assert_ticks(
        gen.generate(first, last, &mk_span(1000000)),
        vec!["2015", "00:00:00.000000001", "00:00:00.000000002"],
    );
    // Sampling
    let first = ymd_hms(2005, 3, 5, 6, 0, 0);
    let last = ymd_hms(2005, 3, 5, 12, 0, 0);
    assert_ticks(
        gen.generate(first, last, &mk_span((5 * 6 + 4) * 3)),
        vec!["07:00", "09:00", "11:00"],
    );
}

#[test]
fn test_timestamp_generator_zero() {
    let gen = TimestampGen::new(&Period::all());
    let first = nanos(DateTime::<Utc>::from_timestamp(0, 0).unwrap());
    let last = nanos(DateTime::<Utc>::from_timestamp(12, 6_000_000).unwrap());
    assert_ticks(
        gen.generate(first, last, &mk_span(1000)),
        vec![
            "1970", "00:00:01", "00:00:02", "00:00:03", "00:00:04", "00:00:05", "00:00:06",
            "00:00:07", "00:00:08", "00:00:09", "00:00:10", "00:00:11", "00:00:12",
        ],
    );
}

#[test]
fn test_timestamps_empty_periods() {
    let gen = TimestampGen::new(&[]);
    let first = ymd_hms(2014, 3, 1, 0, 0, 0);
    let last = ymd_hms(2018, 7, 5, 0, 0, 0);
    assert_ticks(gen.generate(first, last, &mk_span(1000)), vec![]);
}

#[test]
fn test_sample_ticks() {
    let f = sample_ticks::<u32>;
    assert_eq!(f(vec![0, 1, 2, 3, 4, 5], 0, 1), vec![0, 1, 2, 3, 4, 5]);
    assert_eq!(f(vec![0, 1, 2, 3, 4, 5], 1, 2), vec![1, 3, 5]);
    assert_eq!(f(vec![0, 1, 2, 3, 4, 5], 2, 3), vec![2, 5]);
    assert_eq!(f(vec![0, 1, 2, 3, 4, 5], 3, 4), vec![3]);
    assert_eq!(f(vec![0, 1, 2, 3, 4, 5], 4, 5), vec![4]);
    assert_eq!(f(vec![0, 1, 2, 3, 4, 5], 5, 6), vec![5]);
    assert_eq!(f(vec![0, 1, 2, 3, 4, 5], 6, 7), Vec::<u32>::new());
    assert_eq!(f((0..60).collect(), 0, 1), (0..60).collect::<Vec<_>>());
    for i in 1..100 {
        assert_eq!(f((0..60).collect(), i - 1, i).len(), 60 / i, "i={i}");
    }
}

#[test]
fn test_period_iter_range() {
    assert_eq!(
        Period::Year
            .iter_aligned_range(ymd_hms(2014, 3, 1, 0, 0, 0), ymd_hms(2018, 7, 5, 0, 0, 0))
            .into_iter()
            .map(|n| {
                let dt = dt(n);
                assert_eq!(dt.month(), 1);
                assert_eq!(dt.day(), 1);
                assert_eq!(dt.hour(), 0);
                assert_eq!(dt.minute(), 0);
                assert_eq!(dt.second(), 0);
                assert_eq!(dt.nanosecond(), 0);
                dt.year()
            })
            .collect::<Vec<_>>(),
        vec![2015, 2016, 2017, 2018]
    );
    assert!(Period::Month
        .iter_aligned_range(ymd_hms(2014, 3, 5, 0, 0, 0), ymd_hms(2014, 3, 30, 0, 0, 0))
        .into_iter()
        .map(|n| dt(n).month())
        .collect::<Vec<_>>()
        .is_empty());
    assert_eq!(
        Period::Second
            .iter_aligned_range(ymd_hms(2027, 4, 5, 1, 2, 57), ymd_hms(2027, 4, 5, 1, 3, 7))
            .into_iter()
            .map(|n| dt(n).second())
            .collect::<Vec<_>>(),
        vec![57, 58, 59, 0, 1, 2, 3, 4, 5, 6]
    );
}

#[test]
fn test_period_truncate_at() {
    let at = ymd_hms(2014, 2, 3, 4, 5, 6) + 7;
    assert_eq!(Period::Year.truncate_at(at).unwrap(), ymd_hms(2014, 1, 1, 0, 0, 0));
    assert_eq!(Period::Month.truncate_at(at).unwrap(), ymd_hms(2014, 2, 1, 0, 0, 0));
    assert_eq!(Period::Day.truncate_at(at).unwrap(), ymd_hms(2014, 2, 3, 0, 0, 0));
    assert_eq!(Period::Hour.truncate_at(at).unwrap(), ymd_hms(2014, 2, 3, 4, 0, 0));
    assert_eq!(Period::Minute.truncate_at(at).unwrap(), ymd_hms(2014, 2, 3, 4, 5, 0));
    let no_nanos = ymd_hms(2014, 2, 3, 4, 5, 6);
    assert_eq!(Period::Second.truncate_at(at).unwrap(), no_nanos);
    assert_eq!(Period::Millisecond.truncate_at(at).unwrap(), no_nanos);
    assert_eq!(Period::Microsecond.truncate_at(at).unwrap(), no_nanos);
    assert_eq!(Period::Nanosecond.truncate_at(at).unwrap(), no_nanos + 7);
}

#[test]
fn generated_ticks_increase_within_range() {
    let gen = TimestampGen::new(&[Period::Day, Period::Hour, Period::Day, Period::Minute]);
    let first = ymd_hms(2020, 2, 28, 21, 17, 5);
    let last = ymd_hms(2020, 3, 2, 3, 0, 0);
    for width in [50u64, 200, 800, 5000] {
        let GeneratedTicks { ticks, state } = gen.generate(first, last, &mk_span(width));
        assert!(ticks.windows(2).all(|w| w[0] < w[1]));
        assert!(ticks.iter().all(|&t| first <= t && t < last));
        for t in &ticks {
            assert!(!state.short_format(*t).is_empty());
        }
    }
}

#[test]
fn fixed_period_ticks_fall_on_boundaries() {
    let from = ymd_hms(2021, 6, 1, 10, 59, 58) + 123;
    let to = ymd_hms(2021, 6, 1, 11, 0, 3);
    let secs = Period::Second.iter_aligned_range(from, to);
    assert_eq!(secs.len(), 4);
    assert!(secs.iter().all(|t| t % 1_000_000_000 == 0));
    let hours = Period::Hour.iter_aligned_range(from, to);
    assert_eq!(hours, vec![ymd_hms(2021, 6, 1, 11, 0, 0)]);
}

#[test]
fn generator_keeps_periods_largest_first() {
    let gen = TimestampGen::new(&[Period::Second, Period::Year, Period::Second, Period::Day]);
    let first = ymd_hms(2001, 1, 1, 0, 0, 0);
    let last = ymd_hms(2003, 1, 1, 0, 0, 0) + 1;
    // Years take more than half the room, so they dominate.
    assert_ticks(
        gen.generate(first, last, &mk_span(100)),
        vec!["2001", "2002", "2003"],
    );
}

#[test]
fn formatter_long_format() {
    let f = TimestampFormatter::new(Period::Minute, &[Period::Year, Period::Minute]);
    assert_eq!(f.long_format(ymd_hms(2014, 2, 3, 4, 5, 6)), "2014-02-03 04:05 UTC");
    assert_eq!(f.short_format(ymd_hms(2014, 1, 1, 0, 0, 0)), "2014");
    assert_eq!(f.short_format(ymd_hms(2014, 2, 3, 4, 5, 0)), "04:05");
    let unknown = TimestampFormatter::unknown();
    assert_eq!(unknown.short_format(ymd_hms(2014, 2, 3, 4, 5, 6)), "04:05:06.000000000");
}

fn ts(at: i64, label: &str) -> Timestamp {
    Timestamp { at, short: label.to_string() }
}

fn ticks_of(v: &[Timestamp]) -> Vec<(i64, String)> {
    v.iter().map(|t| (t.at, t.short.clone())).collect()
}

#[test]
fn test_merge_ticks_removes_repeats() {
    let existing = vec![ts(1, "a"), ts(1, "b")];
    let merged = merge_ticks(&existing, &vec![], 1);
    assert_eq!(ticks_of(&merged), vec![(1, "a".to_string())]);

    let candidate = vec![ts(2, "c"), ts(2, "d"), ts(3, "e")];
    let merged = merge_ticks(&vec![], &candidate, 1);
    assert_eq!(ticks_of(&merged), vec![(2, "c".to_string()), (3, "e".to_string())]);
}

#[test]
fn test_merge_ticks_sorts_and_keeps_existing() {
    let existing = vec![ts(30, "x30"), ts(10, "x10")];
    let candidate = vec![ts(0, "c0"), ts(10, "c10"), ts(20, "c20"), ts(30, "c30"), ts(40, "c40")];
    // The first existing tick (30) is candidate 3, so every other candidate
    // counted from it is kept: 10 and 30 (existing wins there).
    let merged = merge_ticks(&existing, &candidate, 2);
    assert_eq!(
        ticks_of(&merged),
        vec![(10, "x10".to_string()), (30, "x30".to_string())]
    );
    let merged = merge_ticks(&existing, &candidate, 1);
    assert_eq!(
        ticks_of(&merged),
        vec![
            (0, "c0".to_string()),
            (10, "x10".to_string()),
            (20, "c20".to_string()),
            (30, "x30".to_string()),
            (40, "c40".to_string()),
        ]
    );
}

#[test]
fn test_generated_ticks_compare_by_ticks() {
    let a = GeneratedTicks::new(vec![1i64, 2, 3], TimestampFormatter::unknown());
    let b = GeneratedTicks::new(
        vec![1i64, 2, 3],
        TimestampFormatter::new(Period::Day, &[Period::Day]),
    );
    let c = GeneratedTicks::new(vec![1i64, 2], TimestampFormatter::unknown());
    let d = GeneratedTicks::new(vec![1i64, 2, 4], TimestampFormatter::unknown());
    assert!(a == b);
    assert!(a != c);
    assert!(a != d);
}

#[test]
fn test_truncate_is_idempotent() {
    let at = ymd_hms(2023, 7, 19, 13, 45, 12) + 123_456_789;
    for p in Period::all() {
        let r = p.truncate_at(at).unwrap();
        assert!(r <= at);
        assert_eq!(p.truncate_at(r), Some(r));
    }
    assert_eq!(Period::Month.truncate_at(at), Some(ymd_hms(2023, 7, 1, 0, 0, 0)));
    assert_eq!(Period::Year.truncate_at(at), Some(ymd_hms(2023, 1, 1, 0, 0, 0)));
    let before = ymd_hms(1969, 12, 31, 23, 59, 59) + 500;
    assert_eq!(Period::Day.truncate_at(before), Some(ymd_hms(1969, 12, 31, 0, 0, 0)));
}

#[test]
fn test_generated_ticks_lie_on_period_boundaries() {
    let first = ymd_hms(2014, 3, 1, 0, 0, 0);
    let last = ymd_hms(2014, 3, 3, 0, 0, 0);
    let gen = TimestampGen::new(&[Period::Day, Period::Hour]);
    let g = gen.generate(first, last, &mk_span(400));
    assert!(!g.ticks.is_empty());
    for t in &g.ticks {
        assert!(*t % 3_600_000_000_000 == 0);
        assert!(first <= *t && *t < last);
    }
}

#[test]
fn test_try_samples_selects_sparser_samples() {
    let candidate = vec![ts(0, "a"), ts(1, "b"), ts(2, "c"), ts(3, "d"), ts(4, "e")];
    // Room for all five ticks, using no more than half of it: keep going.
    let all = try_samples(&vec![], &candidate, &TickSpan::Vertical(VerticalSpan::new(10, 100)));
    let (ticks, stop) = all.unwrap();
    assert_eq!(ticks.iter().map(|t| t.at).collect::<Vec<_>>(), vec![0, 1, 2, 3, 4]);
    assert!(!stop);
    // All five use more than half the room: stop there.
    let (_, stop) = try_samples(&vec![], &candidate, &TickSpan::Vertical(VerticalSpan::new(10, 90)))
        .unwrap();
    assert!(stop);
    // Room for two: every second candidate, and stop.
    let (ticks, stop) = try_samples(&vec![], &candidate, &TickSpan::Vertical(VerticalSpan::new(10, 30)))
        .unwrap();
    assert_eq!(ticks.iter().map(|t| t.at).collect::<Vec<_>>(), vec![1, 3]);
    assert!(stop);
    // Not even one tick fits.
    assert!(try_samples(&vec![], &candidate, &TickSpan::Vertical(VerticalSpan::new(10, 5))).is_none());
    // Existing ticks are kept and align the sample.
    let existing = vec![ts(2, "x")];
    let (ticks, _) = try_samples(&existing, &candidate, &TickSpan::Vertical(VerticalSpan::new(10, 30)))
        .unwrap();
    assert_eq!(ticks_of(&ticks), vec![(0, "a".to_string()), (2, "x".to_string()), (4, "e".to_string())]);
}

#[test]
fn test_month_and_year_ticks_start_their_period() {
    let first = ymd_hms(2019, 11, 15, 0, 0, 0);
    let last = ymd_hms(2022, 2, 10, 0, 0, 0);
    for p in [Period::Month, Period::Year] {
        for at in p.iter_aligned_range(first, last) {
            assert_eq!(p.truncate_at(at), Some(at));
            let d = dt(at);
            assert_eq!((d.day(), d.hour(), d.minute(), d.second()), (1, 0, 0, 0));
            if p == Period::Year {
                assert_eq!(d.month(), 1);
            }
        }
    }
}
