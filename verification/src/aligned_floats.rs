//! Nicely aligned numeric ticks.
//!
//! The generator chooses a decimal scale (10s, 100s, 0.1s, ...) for a range
//! and labels every tick at that scale: digits below the scale are shown as
//! zeros, so that neighbouring labels differ only where the ticks do.

use crate::text::push_char;
use vstd::prelude::*;
use vstd::string::{StrSliceExecFns, StringExecFns};

verus! {

broadcast use vstd::string::group_string_axioms;

/// Generates a list of aligned, "nice" floats between two values. Returned
/// ticks are aligned to powers of 10 so that they are easy to read.
#[derive(Clone, Debug, PartialEq, Eq, Structural)]
pub struct AlignedFloatsGen;

/// The labelling state of a generated set of aligned ticks: the decimal scale
/// of the step between them (`-1` for tenths, `2` for hundreds, ...).
#[derive(Clone, Debug, PartialEq, Eq, Structural)]
pub struct AlignedState {
    pub scale: isize,
}

/// Whether a formatted number carries a minus sign.
pub open spec fn is_negative(s: Seq<char>) -> bool {
    s.len() > 0 && s[0] == '-'
}

/// The number of trailing digits that are zeroed for a label at a positive
/// scale: the scale, but never the leading digit.
pub open spec fn zeroed_digits(scale: int, s: Seq<char>) -> int {
    let room = s.len() - 1 - (if is_negative(s) { 1int } else { 0int });
    if scale < room {
        scale
    } else {
        room
    }
}

/// A formatted number with the digits below a positive scale replaced by
/// zeros; unchanged at scale zero or below.
pub open spec fn zero_pad_spec(scale: int, s: Seq<char>) -> Seq<char> {
    if scale > 0 {
        let k = zeroed_digits(scale, s);
        s.take(s.len() - k) + Seq::new(k as nat, |i: int| '0')
    } else {
        s
    }
}

/// Whether a formatted number starts with a minus sign.
pub fn is_negative_str(s: &str) -> (b: bool)
    ensures
        b == is_negative(s@),
{
    s.unicode_len() > 0 && s.get_char(0) == '-'
}

impl AlignedFloatsGen {
    pub fn new() -> (g: Self)
        ensures
            g == AlignedFloatsGen,
    {
        AlignedFloatsGen
    }
}

impl AlignedState {
    pub fn new(scale: isize) -> (s: Self)
        ensures
            s.scale == scale,
    {
        AlignedState { scale }
    }

    /// The number of decimal places that a label shows: the negated scale
    /// when it is negative, else none.
    pub fn precision(&self) -> (p: usize)
        requires
            self.scale > isize::MIN,
        ensures
            p == (if self.scale < 0 { -self.scale } else { 0 }),
    {
        if self.scale < 0 {
            (-self.scale) as usize
        } else {
            0
        }
    }

    /// A label from a number already written with `precision()` decimal
    /// places: at a positive scale the digits below the scale become zeros,
    /// keeping at least the leading digit.
    pub fn zero_pad(&self, formatted: &str) -> (s: String)
        requires
            formatted.is_ascii(),
            self.scale > 0 ==> formatted@.len() >= 1 + (if is_negative(formatted@) {
                1int
            } else {
                0int
            }),
        ensures
            s@ == zero_pad_spec(self.scale as int, formatted@),
    {
        let mut value = String::from_str(formatted);
        if self.scale > 0 {
            let len = formatted.unicode_len();
            let neg_offset: usize = if len > 0 && formatted.get_char(0) == '-' {
                1
            } else {
                0
            };
            let room = len - 1 - neg_offset;
            let scale = self.scale as usize;
            let k = if scale < room {
                scale
            } else {
                room
            };
            let keep = formatted.substring_ascii(0, len - k);
            value = String::from_str(keep);
            let mut i: usize = 0;
            while i < k
                invariant
                    i <= k,
                    value@ == formatted@.take(len - k) + Seq::new(i as nat, |j: int| '0'),
                decreases k - i,
            {
                push_char(&mut value, '0');
                i = i + 1;
                assert(value@ =~= formatted@.take(len - k) + Seq::new(i as nat, |j: int| '0'));
            }
            assert(k == zeroed_digits(self.scale as int, formatted@));
        }
        value
    }
}

} // verus!
