use leptos_chartistry::colours::{
    axis_marker_colour, grid_line_colour, Colour, ColourScheme, ARBITRARY,
};

#[test]
fn colour_hex_string() {
    assert_eq!(Colour::new(0x12, 0xA5, 0xED).to_string(), "#12A5ED");
    assert_eq!(Colour::new(0, 0, 0).to_string(), "#000000");
    assert_eq!(Colour::new_tuple((255, 16, 9)).to_string(), "#FF1009");
}

#[test]
fn colour_scheme_by_index_wraps() {
    let a = Colour::new(1, 2, 3);
    let b = Colour::new(4, 5, 6);
    let c = Colour::new(7, 8, 9);
    let scheme = ColourScheme::new(a, &[b, c]);
    assert_eq!(scheme.len(), 3);
    assert_eq!(scheme.by_index(0), a);
    assert_eq!(scheme.by_index(1), b);
    assert_eq!(scheme.by_index(2), c);
    assert_eq!(scheme.by_index(3), a);
    assert_eq!(scheme.by_index(7), b);
    assert_eq!(scheme.by_index(usize::MAX), scheme.by_index(usize::MAX % 3));
}

#[test]
fn colour_scheme_from_tuples() {
    let scheme = ColourScheme::from_tuples(&[(1, 2, 3), (4, 5, 6)]);
    assert_eq!(scheme.len(), 2);
    assert_eq!(scheme.by_index(1), Colour::new(4, 5, 6));
    assert_eq!(ColourScheme::from_colours(&[]).len(), 0);
}

#[test]
fn colour_scheme_default_is_arbitrary_palette() {
    let scheme = ColourScheme::default();
    assert_eq!(scheme.len(), 10);
    assert_eq!(scheme.by_index(0).to_string(), "#12A5ED");
    assert_eq!(scheme.by_index(11), Colour::new_tuple(ARBITRARY[1]));
    assert_eq!(axis_marker_colour().to_string(), "#D2D2D2");
    assert_eq!(grid_line_colour().to_string(), "#EFF2FA");
}
