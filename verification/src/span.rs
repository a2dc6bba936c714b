//! The space that tick labels take along an axis.
//!
//! Widths are whole units (pixels); a span says how much room there is and how
//! much a list of labels uses.

use vstd::prelude::*;
use vstd::utf8::encode_utf8;

verus! {

/// The number of bytes that a label takes in UTF-8, as `str::len` counts it.
pub open spec fn label_len(label: Seq<char>) -> int {
    (encode_utf8(label).len() as usize) as int
}

/// The byte length of the longest label (zero for none).
pub open spec fn max_label_len(labels: Seq<Seq<char>>) -> int
    decreases labels.len(),
{
    if labels.len() == 0 {
        0
    } else {
        let rest = max_label_len(labels.drop_last());
        let last = label_len(labels.last());
        if last > rest {
            last
        } else {
            rest
        }
    }
}

/// Labels laid out side by side: each takes the width of the longest label
/// (counted in bytes, and at least `min_chars`) times the font width, plus
/// padding on both sides.
#[derive(Copy, Clone, Debug, PartialEq, Eq, Structural)]
pub struct HorizontalSpan {
    pub font_width: u64,
    pub min_chars: usize,
    pub padding_width: u64,
    pub avail_width: u64,
}

/// Labels stacked one above the other, one line each.
#[derive(Copy, Clone, Debug, PartialEq, Eq, Structural)]
pub struct VerticalSpan {
    pub line_height: u64,
    pub avail_height: u64,
}

/// Either kind of span.
#[derive(Copy, Clone, Debug, PartialEq, Eq, Structural)]
pub enum TickSpan {
    Horizontal(HorizontalSpan),
    Vertical(VerticalSpan),
}

impl HorizontalSpan {
    /// A span with no minimum label length.
    pub fn new(font_width: u64, padding_width: u64, avail_width: u64) -> (s: Self)
        ensures
            s == (HorizontalSpan { font_width, min_chars: 0, padding_width, avail_width }),
    {
        HorizontalSpan { font_width, min_chars: 0, padding_width, avail_width }
    }

    /// The same span, counting every label as at least `min_chars` long.
    pub fn with_min_chars(self, min_chars: usize) -> (s: Self)
        ensures
            s == (HorizontalSpan { min_chars, ..self }),
    {
        HorizontalSpan { min_chars, ..self }
    }
}

impl VerticalSpan {
    pub fn new(line_height: u64, avail_height: u64) -> (s: Self)
        ensures
            s == (VerticalSpan { line_height, avail_height }),
    {
        VerticalSpan { line_height, avail_height }
    }
}

impl TickSpan {
    /// The room available along the axis.
    pub open spec fn length_spec(self) -> int {
        match self {
            TickSpan::Horizontal(h) => h.avail_width as int,
            TickSpan::Vertical(v) => v.avail_height as int,
        }
    }

    /// The room that `count` labels use when the longest takes `longest`
    /// bytes.
    pub open spec fn consumed_for(self, longest: int, count: int) -> int {
        match self {
            TickSpan::Horizontal(h) => {
                let chars = if longest > h.min_chars {
                    longest
                } else {
                    h.min_chars as int
                };
                (chars * h.font_width + 2 * h.padding_width) * count
            },
            TickSpan::Vertical(v) => v.line_height * count,
        }
    }

    /// The room that the given labels use.
    pub open spec fn consumed_spec(self, labels: Seq<Seq<char>>) -> int {
        self.consumed_for(max_label_len(labels), labels.len() as int)
    }

    /// The room available along the axis.
    pub fn length(&self) -> (n: u64)
        ensures
            n == self.length_spec(),
    {
        match self {
            TickSpan::Horizontal(h) => h.avail_width,
            TickSpan::Vertical(v) => v.avail_height,
        }
    }

    /// The room that `count` labels whose longest takes `longest` bytes
    /// use, if it is no more than the room available; `None` when they do
    /// not fit.
    pub fn used_if_fits(&self, longest: usize, count: usize) -> (r: Option<u64>)
        ensures
            r == (if self.consumed_for(longest as int, count as int) <= self.length_spec() {
                Some(self.consumed_for(longest as int, count as int) as u64)
            } else {
                None
            }),
    {
        let ghost c = self.consumed_for(longest as int, count as int);
        if count == 0 {
            assert(c == 0) by (nonlinear_arith)
                requires
                    c == self.consumed_for(longest as int, count as int),
                    count == 0,
            ;
            return Some(0);
        }
        let n = count;
        let avail = self.length();
        let used: Option<u128> = match self {
            TickSpan::Horizontal(h) => {
                let longest = if longest > h.min_chars {
                    longest
                } else {
                    h.min_chars
                };
                let fw = h.font_width;
                assert((longest as int) * (fw as int) <= u128::MAX) by (nonlinear_arith)
                    requires
                        longest <= u64::MAX,
                        fw <= u64::MAX,
                ;
                let per = (longest as u128) * (fw as u128);
                let pads = 2u128 * (h.padding_width as u128);
                match per.checked_add(pads) {
                    Some(each) => {
                        let r = each.checked_mul(n as u128);
                        assert(r is None ==> c > u128::MAX) by (nonlinear_arith)
                            requires
                                r is None ==> each * n > u128::MAX,
                                c == each * n,
                        ;
                        r
                    },
                    None => {
                        assert(c > u128::MAX) by (nonlinear_arith)
                            requires
                                per + pads > u128::MAX,
                                c == (per + pads) * n,
                                n >= 1,
                        ;
                        None
                    },
                }
            },
            TickSpan::Vertical(v) => (v.line_height as u128).checked_mul(n as u128),
        };
        match used {
            Some(u) => {
                if u <= avail as u128 {
                    Some(u as u64)
                } else {
                    None
                }
            },
            None => None,
        }
    }
}

pub proof fn lemma_max_label_len_nonneg(labels: Seq<Seq<char>>)
    ensures
        0 <= max_label_len(labels) <= usize::MAX,
    decreases labels.len(),
{
    if labels.len() > 0 {
        lemma_max_label_len_nonneg(labels.drop_last());
    }
}

/// The byte length of the longest label.
pub fn longest_label(labels: &Vec<String>) -> (n: usize)
    ensures
        n == max_label_len(labels@.map_values(|l: String| l@)),
{
    let ghost ls = labels@.map_values(|l: String| l@);
    let mut best: usize = 0;
    let mut i: usize = 0;
    while i < labels.len()
        invariant
            i <= labels@.len(),
            ls == labels@.map_values(|l: String| l@),
            best == max_label_len(ls.take(i as int)),
        decreases labels@.len() - i,
    {
        let len = labels[i].as_str().len();
        assert(ls.take(i + 1).drop_last() =~= ls.take(i as int));
        assert(ls.take(i + 1).last() == labels@[i as int]@);
        if len > best {
            best = len;
        }
        i = i + 1;
    }
    assert(ls.take(labels@.len() as int) =~= ls);
    best
}

/// Labels take at least their own room: `count` labels whose longest takes
/// `longest` bytes use no less than `count` times that label's width plus
/// its padding, a minimum label width only ever raises this, and the room
/// used is exactly the larger of the two. On a vertical axis each label takes
/// one line.
pub proof fn lemma_consumed_covers_labels(span: TickSpan, longest: int, count: int)
    requires
        longest >= 0,
        count >= 0,
    ensures
        match span {
            TickSpan::Horizontal(h) => {
                let own = (longest * h.font_width + 2 * h.padding_width) * count;
                let least = (h.min_chars * h.font_width + 2 * h.padding_width) * count;
                &&& span.consumed_for(longest, count) >= own
                &&& span.consumed_for(longest, count) >= least
                &&& (span.consumed_for(longest, count) == own || span.consumed_for(longest, count)
                    == least)
            },
            TickSpan::Vertical(v) => span.consumed_for(longest, count) == v.line_height * count,
        },
{
    match span {
        TickSpan::Horizontal(h) => {
            let fw = h.font_width as int;
            let pw = h.padding_width as int;
            let mc = h.min_chars as int;
            if longest > mc {
                assert((longest * fw + 2 * pw) * count >= (mc * fw + 2 * pw) * count) by (nonlinear_arith)
                    requires
                        longest > mc,
                        fw >= 0,
                        count >= 0,
                ;
            } else {
                assert((mc * fw + 2 * pw) * count >= (longest * fw + 2 * pw) * count) by (nonlinear_arith)
                    requires
                        longest <= mc,
                        fw >= 0,
                        count >= 0,
                ;
            }
        },
        TickSpan::Vertical(v) => {},
    }
}

/// Longer labels never take less room.
pub proof fn lemma_consumed_monotone(span: TickSpan, shorter: int, longer: int, count: int)
    requires
        0 <= shorter <= longer,
        count >= 0,
    ensures
        span.consumed_for(shorter, count) <= span.consumed_for(longer, count),
{
    match span {
        TickSpan::Horizontal(h) => {
            let fw = h.font_width as int;
            let pw = h.padding_width as int;
            let mc = h.min_chars as int;
            let a = if shorter > mc { shorter } else { mc };
            let b = if longer > mc { longer } else { mc };
            assert(a <= b);
            assert((a * fw + 2 * pw) * count <= (b * fw + 2 * pw) * count) by (nonlinear_arith)
                requires
                    a <= b,
                    fw >= 0,
                    count >= 0,
            ;
        },
        TickSpan::Vertical(v) => {},
    }
}

} // verus!
