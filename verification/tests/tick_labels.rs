use leptos_chartistry::span::{HorizontalSpan, TickSpan, VerticalSpan};
use leptos_chartistry::tick_labels::align_tick_labels;

#[test]
fn align_pads_to_longest() {
    let labels = vec!["1".to_string(), "100".to_string(), "-10".to_string(), "".to_string()];
    assert_eq!(align_tick_labels(labels), vec!["  1", "100", "-10", "   "]);
    assert_eq!(align_tick_labels(vec![]), Vec::<String>::new());
    let aligned = align_tick_labels(vec!["0.5".to_string(), "12.25".to_string()]);
    assert!(aligned.iter().all(|l| l.len() == 5));
}

#[test]
fn span_usage() {
    let span = TickSpan::Horizontal(HorizontalSpan::new(6, 2, 112));
    // (4 * 6 + 2 * 2) * 4 = 112 fits exactly
    assert_eq!(span.used_if_fits(4, 4), Some(112));
    assert_eq!(span.used_if_fits(4, 5), None);
    assert_eq!(span.used_if_fits(0, 0), Some(0));
    let span = TickSpan::Horizontal(HorizontalSpan::new(6, 2, 1000).with_min_chars(10));
    assert_eq!(span.used_if_fits(4, 2), Some(128));
    let span = TickSpan::Vertical(VerticalSpan::new(16, 100));
    assert_eq!(span.used_if_fits(50, 6), Some(96));
    assert_eq!(span.used_if_fits(1, 7), None);
    assert_eq!(span.length(), 100);
    let huge = TickSpan::Horizontal(HorizontalSpan::new(u64::MAX, u64::MAX, u64::MAX));
    assert_eq!(huge.used_if_fits(usize::MAX, 2), None);
}
