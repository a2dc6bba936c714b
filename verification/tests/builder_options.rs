use leptos_chartistry::builder_options::{AspectCalc, AspectOption, EdgeOption, InnerOption, Options};

#[test]
fn builder_names_round_trip() {
    for o in [AspectOption::Outer, AspectOption::Inner, AspectOption::Environment] {
        assert_eq!(AspectOption::from_str(&o.to_string()), Ok(o));
    }
    for c in [AspectCalc::Ratio, AspectCalc::Width, AspectCalc::Height] {
        assert_eq!(AspectCalc::from_str(&c.to_string()), Ok(c));
    }
    for e in [EdgeOption::RotatedLabel, EdgeOption::Legend, EdgeOption::TickLabels] {
        assert_eq!(EdgeOption::from_str(&e.to_string()), Ok(e));
    }
    for i in [
        InnerOption::AxisMarker,
        InnerOption::XGridLine,
        InnerOption::YGridLine,
        InnerOption::XGuideLine,
        InnerOption::YGuideLine,
        InnerOption::Legend,
    ] {
        assert_eq!(InnerOption::from_str(&i.to_string()), Ok(i));
    }
    assert_eq!(EdgeOption::RotatedLabel.to_string(), "Label");
    assert_eq!(AspectCalc::Width.to_string(), "height * ratio = width");
    assert_eq!(InnerOption::from_str("Y GUIDE LINE"), Ok(InnerOption::YGuideLine));
    assert_eq!(AspectOption::from_str("square"), Err("unknown aspect ratio option"));
    assert_eq!(AspectCalc::from_str("x"), Err("unknown aspect ratio calculation"));
    assert_eq!(EdgeOption::from_str("axis"), Err("unknown edge layout option"));
    assert_eq!(InnerOption::from_str("title"), Err("unknown inner option"));
    assert_eq!(AspectOption::default(), AspectOption::Outer);
}

#[test]
fn options_editing() {
    let opts = Options(vec!['a', 'b', 'c']);
    let opts = opts.add('d');
    assert_eq!(opts.0, vec!['a', 'b', 'c', 'd']);
    let opts = opts.move_up(2);
    assert_eq!(opts.0, vec!['a', 'c', 'b', 'd']);
    let opts = opts.move_up(0);
    assert_eq!(opts.0, vec!['a', 'c', 'b', 'd']);
    let opts = opts.move_down(1);
    assert_eq!(opts.0, vec!['a', 'b', 'c', 'd']);
    let opts = opts.move_down(3);
    assert_eq!(opts.0, vec!['a', 'b', 'c', 'd']);
    let opts = opts.remove(1);
    assert_eq!(opts.0, vec!['a', 'c', 'd']);
    let opts = opts.remove(7);
    assert_eq!(opts.into_inner(), vec!['a', 'c', 'd']);
}

#[test]
fn options_move_round_trip() {
    let opts = Options(vec![1, 2, 3]);
    assert_eq!(opts.move_down(0).move_up(1).into_inner(), vec![1, 2, 3]);
    let opts = Options(vec![1, 2, 3]);
    assert_eq!(opts.add(4).remove(3).into_inner(), vec![1, 2, 3]);
}
