//! Colours and colour schemes.
//!
//! A scheme is a list of swatches that series pick from by index; the index
//! wraps around so that any number of series can be coloured.

use crate::text::push_char;
use vstd::prelude::*;

verus! {

/// An RGB colour.
#[derive(Copy, Clone, Debug, PartialEq, Eq, Structural)]
pub struct Colour {
    pub red: u8,
    pub green: u8,
    pub blue: u8,
}

/// An ordered list of colours. Series pick their colour by index.
#[derive(Clone, Debug, PartialEq)]
pub struct ColourScheme {
    colours: Vec<Colour>,
}

/// The upper-case hexadecimal digit of a value below 16.
pub open spec fn hex_digit(n: int) -> char {
    if n < 10 {
        (('0' as int) + n) as char
    } else {
        (('A' as int) + n - 10) as char
    }
}

/// The two hexadecimal digits of a byte, most significant first.
pub open spec fn hex_byte(b: u8) -> Seq<char> {
    seq![hex_digit(b as int / 16), hex_digit(b as int % 16)]
}

impl Colour {
    /// `#RRGGBB` with upper-case hexadecimal digits.
    pub open spec fn hex_spec(self) -> Seq<char> {
        seq!['#'] + hex_byte(self.red) + hex_byte(self.green) + hex_byte(self.blue)
    }

    /// A colour from its red, green and blue channels.
    pub fn new(red: u8, green: u8, blue: u8) -> (c: Self)
        ensures
            c == (Colour { red, green, blue }),
    {
        Colour { red, green, blue }
    }

    /// A colour from a `(red, green, blue)` triple.
    pub fn new_tuple(rgb: (u8, u8, u8)) -> (c: Self)
        ensures
            c == (Colour { red: rgb.0, green: rgb.1, blue: rgb.2 }),
    {
        Self::new(rgb.0, rgb.1, rgb.2)
    }

    /// The colour written as `#RRGGBB`, as CSS and SVG take it.
    pub fn to_string(&self) -> (s: String)
        ensures
            s@ == self.hex_spec(),
    {
        let mut s = String::new();
        push_char(&mut s, '#');
        push_hex_byte(&mut s, self.red);
        push_hex_byte(&mut s, self.green);
        push_hex_byte(&mut s, self.blue);
        assert(s@ =~= self.hex_spec());
        s
    }
}

fn hex_digit_exec(n: u8) -> (c: char)
    requires
        n < 16,
    ensures
        c == hex_digit(n as int),
{
    let digits: [char; 16] = ['0', '1', '2', '3', '4', '5', '6', '7', '8', '9', 'A', 'B', 'C', 'D', 'E', 'F'];
    let c = digits[n as usize];
    assert(c == hex_digit(n as int)) by {
        assert(digits@ == seq!['0', '1', '2', '3', '4', '5', '6', '7', '8', '9', 'A', 'B', 'C', 'D', 'E', 'F']);
    }
    c
}

fn push_hex_byte(s: &mut String, b: u8)
    ensures
        final(s)@ == old(s)@ + hex_byte(b),
{
    push_char(s, hex_digit_exec(b / 16));
    push_char(s, hex_digit_exec(b % 16));
    assert(s@ =~= old(s)@ + hex_byte(b));
}

impl ColourScheme {
    /// The swatches of the scheme, in order.
    pub closed spec fn swatches(&self) -> Seq<Colour> {
        self.colours@
    }

    /// A scheme of `first` followed by `rest`.
    pub fn new(first: Colour, rest: &[Colour]) -> (s: Self)
        ensures
            s.swatches() == seq![first] + rest@,
    {
        let mut colours: Vec<Colour> = Vec::new();
        colours.push(first);
        let mut i: usize = 0;
        while i < rest.len()
            invariant
                i <= rest@.len(),
                colours@ == seq![first] + rest@.subrange(0, i as int),
            decreases rest@.len() - i,
        {
            colours.push(rest[i]);
            i = i + 1;
            assert(colours@ =~= seq![first] + rest@.subrange(0, i as int));
        }
        assert(rest@.subrange(0, rest@.len() as int) =~= rest@);
        ColourScheme { colours }
    }

    /// A scheme of exactly the given colours, in order (may be empty).
    pub fn from_colours(colours: &[Colour]) -> (s: Self)
        ensures
            s.swatches() == colours@,
    {
        let mut v: Vec<Colour> = Vec::new();
        let mut i: usize = 0;
        while i < colours.len()
            invariant
                i <= colours@.len(),
                v@ == colours@.subrange(0, i as int),
            decreases colours@.len() - i,
        {
            v.push(colours[i]);
            i = i + 1;
            assert(v@ =~= colours@.subrange(0, i as int));
        }
        assert(colours@.subrange(0, colours@.len() as int) =~= colours@);
        ColourScheme { colours: v }
    }

    /// A scheme of the given `(red, green, blue)` triples, in order.
    pub fn from_tuples(rgbs: &[(u8, u8, u8)]) -> (s: Self)
        ensures
            s.swatches().len() == rgbs@.len(),
            forall|i: int|
                0 <= i < rgbs@.len() ==> #[trigger] s.swatches()[i] == (Colour {
                    red: rgbs@[i].0,
                    green: rgbs@[i].1,
                    blue: rgbs@[i].2,
                }),
    {
        let mut v: Vec<Colour> = Vec::new();
        let mut i: usize = 0;
        while i < rgbs.len()
            invariant
                i <= rgbs@.len(),
                v@.len() == i,
                forall|j: int|
                    0 <= j < i ==> #[trigger] v@[j] == (Colour {
                        red: rgbs@[j].0,
                        green: rgbs@[j].1,
                        blue: rgbs@[j].2,
                    }),
            decreases rgbs@.len() - i,
        {
            v.push(Colour::new_tuple(rgbs[i]));
            i = i + 1;
        }
        ColourScheme { colours: v }
    }

    /// The number of swatches.
    pub fn len(&self) -> (n: usize)
        ensures
            n == self.swatches().len(),
    {
        self.colours.len()
    }

    /// The colour for the `index`-th series: the swatches repeat, so the
    /// index is taken modulo the number of swatches.
    pub fn by_index(&self, index: usize) -> (c: Colour)
        requires
            self.swatches().len() > 0,
        ensures
            c == self.swatches()[index as int % self.swatches().len() as int],
    {
        let i = index % self.colours.len();
        self.colours[i]
    }
}

/// The colour of axis markers: the light grey.
pub fn axis_marker_colour() -> (c: Colour)
    ensures
        c == (Colour { red: 0xD2, green: 0xD2, blue: 0xD2 }),
{
    lightish_grey()
}

/// The colour of grid lines: the very light grey.
pub fn grid_line_colour() -> (c: Colour)
    ensures
        c == (Colour { red: 0xEF, green: 0xF2, blue: 0xFA }),
{
    lighter_grey()
}

/// A light grey.
pub fn lightish_grey() -> (c: Colour)
    ensures
        c == (Colour { red: 0xD2, green: 0xD2, blue: 0xD2 }),
{
    Colour::new(0xD2, 0xD2, 0xD2)
}

/// A very light grey.
pub fn lighter_grey() -> (c: Colour)
    ensures
        c == (Colour { red: 0xEF, green: 0xF2, blue: 0xFA }),
{
    Colour::new(0xEF, 0xF2, 0xFA)
}

/// Arbitrary colours for a brighter palette: blue, red, green, orange,
/// purple, magenta, darker green, yellow, turquoise and pink.
pub const ARBITRARY: [(u8, u8, u8); 10] = [
    (0x12, 0xA5, 0xED),
    (0xF5, 0x32, 0x5B),
    (0x71, 0xc6, 0x14),
    (0xFF, 0x84, 0x00),
    (0x7b, 0x4d, 0xff),
    (0xdb, 0x4c, 0xb2),
    (0x92, 0xb4, 0x2c),
    (0xFF, 0xCA, 0x00),
    (0x22, 0xd2, 0xba),
    (0xea, 0x60, 0xdf),
];

/// The batlow scientific colour map, from dark blue to pink; lines of a
/// stack take their colours from it.
pub const STACK_COLOUR_SCHEME: [(u8, u8, u8); 10] = [
    (0x01, 0x19, 0x59),
    (0x10, 0x3F, 0x60),
    (0x1C, 0x5A, 0x62),
    (0x3C, 0x6D, 0x56),
    (0x68, 0x7B, 0x3E),
    (0x9D, 0x89, 0x2B),
    (0xD2, 0x93, 0x43),
    (0xF8, 0xA1, 0x7B),
    (0xFD, 0xB7, 0xBC),
    (0xFA, 0xCC, 0xFA),
];

impl Default for ColourScheme {
    /// The scheme of the `ARBITRARY` palette.
    fn default() -> (s: Self)
        ensures
            s.swatches().len() == 10,
            forall|i: int|
                0 <= i < 10 ==> #[trigger] s.swatches()[i] == (Colour {
                    red: ARBITRARY@[i].0,
                    green: ARBITRARY@[i].1,
                    blue: ARBITRARY@[i].2,
                }),
    {
        let palette = ARBITRARY;
        ColourScheme::from_tuples(&palette)
    }
}

/// Series colours repeat: the series `len` places on from another takes the
/// same colour.
pub proof fn lemma_by_index_repeats(s: ColourScheme, i: nat)
    requires
        s.swatches().len() > 0,
    ensures
        s.swatches()[((i + s.swatches().len()) as int) % (s.swatches().len() as int)]
            == s.swatches()[(i as int) % (s.swatches().len() as int)],
{
    vstd::arithmetic::div_mod::lemma_mod_add_multiples_vanish(i as int, s.swatches().len() as int);
}

} // verus!
