use leptos_chartistry::options::{AlignOver, Anchor, AxisPlacement, HoverPlacement, SortBy};

#[test]
fn axis_placement_names_round_trip() {
    for p in [
        AxisPlacement::Top,
        AxisPlacement::Right,
        AxisPlacement::Bottom,
        AxisPlacement::Left,
        AxisPlacement::HorizontalZero,
        AxisPlacement::VerticalZero,
    ] {
        assert_eq!(AxisPlacement::from_str(&p.to_string()), Ok(p));
    }
    assert_eq!(AxisPlacement::HorizontalZero.to_string(), "horizontal zero");
    assert_eq!(AxisPlacement::from_str("TOP"), Ok(AxisPlacement::Top));
    assert_eq!(
        AxisPlacement::from_str("middle"),
        Err("unknown axis placement: `middle`".to_string())
    );
}

#[test]
fn anchor_names_and_values() {
    assert_eq!(Anchor::from_str("Middle"), Ok(Anchor::Middle));
    assert_eq!(Anchor::End.to_string(), "end");
    assert_eq!(Anchor::from_str("centre"), Err("unknown anchor: `centre`".to_string()));
    assert_eq!(Anchor::Start.css_justify_content(), "flex-start");
    assert_eq!(Anchor::Middle.css_justify_content(), "center");
    assert_eq!(Anchor::End.css_justify_content(), "flex-end");
    assert_eq!(Anchor::Middle.svg_text_anchor(), "middle");
    assert_eq!(Anchor::Start.map_points(1.0, 2.0, 3.0), 1.0);
    assert_eq!(Anchor::Middle.map_points(1.0, 2.0, 3.0), 2.0);
    assert_eq!(Anchor::End.map_points(1.0, 2.0, 3.0), 3.0);
}

#[test]
fn tooltip_choices() {
    assert_eq!(HoverPlacement::default(), HoverPlacement::LeftCursor);
    assert_eq!(HoverPlacement::LeftCursor.to_string(), "Left cursor");
    assert_eq!(HoverPlacement::from_str("left CURSOR"), Ok(HoverPlacement::LeftCursor));
    assert_eq!(HoverPlacement::from_str("Hide"), Ok(HoverPlacement::Hide));
    assert_eq!(
        HoverPlacement::from_str("right"),
        Err("invalid HoverPlacement: `right`".to_string())
    );
    assert_eq!(SortBy::default(), SortBy::Lines);
    assert_eq!(SortBy::from_str("Descending"), Ok(SortBy::Descending));
    assert_eq!(SortBy::Ascending.to_string(), "Ascending");
    assert_eq!(SortBy::from_str("up"), Err("invalid SortBy: `up`".to_string()));
    assert_eq!(AlignOver::default(), AlignOver::Mouse);
}
