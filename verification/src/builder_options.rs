//! The choices of the interactive chart builder: which layout and inner
//! components to add, how the chart's size is worked out, and the editable
//! lists that hold them.

use crate::text::{ascii_lower, lowercase, text_is, to_lowercase};
use vstd::prelude::*;
use vstd::string::StringExecFns;
use vstd::utf8::is_ascii_chars;

verus! {

/// Which size a chart's aspect ratio fixes.
#[derive(Copy, Clone, Debug, PartialEq, Eq, Structural, Default)]
pub enum AspectOption {
    #[default]
    Outer,
    Inner,
    Environment,
}

impl AspectOption {
    pub open spec fn name_spec(self) -> Seq<char> {
        match self {
            AspectOption::Outer => "Outer"@,
            AspectOption::Inner => "Inner"@,
            AspectOption::Environment => "Environment"@,
        }
    }

    pub open spec fn parse_spec(lowered: Seq<char>) -> Option<AspectOption> {
        if lowered == "outer"@ {
            Some(AspectOption::Outer)
        } else if lowered == "inner"@ {
            Some(AspectOption::Inner)
        } else if lowered == "environment"@ {
            Some(AspectOption::Environment)
        } else {
            None
        }
    }

    /// The name shown for this choice.
    pub fn to_string(&self) -> (r: String)
        ensures
            r@ == self.name_spec(),
    {
        String::from_str(
            match self {
                AspectOption::Outer => "Outer",
                AspectOption::Inner => "Inner",
                AspectOption::Environment => "Environment",
            },
        )
    }

    /// The choice named by an already lower-cased string.
    pub fn from_lowercase(lowered: &String) -> (r: Option<Self>)
        ensures
            r == Self::parse_spec(lowered@),
    {
        if text_is(lowered, "outer") {
            Some(AspectOption::Outer)
        } else if text_is(lowered, "inner") {
            Some(AspectOption::Inner)
        } else if text_is(lowered, "environment") {
            Some(AspectOption::Environment)
        } else {
            None
        }
    }

    /// The choice named by `s`, in any case.
    pub fn from_str(s: &str) -> (r: Result<Self, &'static str>)
        ensures
            match Self::parse_spec(lowercase(s@)) {
                Some(p) => r == Ok::<Self, &'static str>(p),
                None => r matches Err(e) && e@ == "unknown aspect ratio option"@,
            },
    {
        match Self::from_lowercase(&to_lowercase(s)) {
            Some(p) => Ok(p),
            None => Err("unknown aspect ratio option"),
        }
    }

}

/// Each choice of the size that a chart's aspect ratio fixes has an ASCII name that, lower-cased, reads back as
/// the same choice.
pub proof fn lemma_aspect_option_names(p: AspectOption)
    ensures
        is_ascii_chars(p.name_spec()),
        AspectOption::parse_spec(ascii_lower(p.name_spec())) == Some(p),
{
    reveal_strlit("Environment");
    reveal_strlit("Inner");
    reveal_strlit("Outer");
    reveal_strlit("environment");
    reveal_strlit("inner");
    reveal_strlit("outer");
    assert("outer"@[0] != "inner"@[0]);
    match p {
        AspectOption::Outer => {
            assert(ascii_lower("Outer"@) =~= "outer"@);
        },
        AspectOption::Inner => {
            assert(ascii_lower("Inner"@) =~= "inner"@);
        },
        AspectOption::Environment => {
            assert(ascii_lower("Environment"@) =~= "environment"@);
        },
    }
}
/// Which dimension an aspect ratio derives.
#[derive(Copy, Clone, Debug, PartialEq, Eq, Structural, Default)]
pub enum AspectCalc {
    #[default]
    Ratio,
    Width,
    Height,
}

impl AspectCalc {
    pub open spec fn name_spec(self) -> Seq<char> {
        match self {
            AspectCalc::Ratio => "width / height = ratio"@,
            AspectCalc::Width => "height * ratio = width"@,
            AspectCalc::Height => "width / ratio = height"@,
        }
    }

    pub open spec fn parse_spec(lowered: Seq<char>) -> Option<AspectCalc> {
        if lowered == "width / height = ratio"@ {
            Some(AspectCalc::Ratio)
        } else if lowered == "height * ratio = width"@ {
            Some(AspectCalc::Width)
        } else if lowered == "width / ratio = height"@ {
            Some(AspectCalc::Height)
        } else {
            None
        }
    }

    /// The name shown for this choice.
    pub fn to_string(&self) -> (r: String)
        ensures
            r@ == self.name_spec(),
    {
        String::from_str(
            match self {
                AspectCalc::Ratio => "width / height = ratio",
                AspectCalc::Width => "height * ratio = width",
                AspectCalc::Height => "width / ratio = height",
            },
        )
    }

    /// The choice named by an already lower-cased string.
    pub fn from_lowercase(lowered: &String) -> (r: Option<Self>)
        ensures
            r == Self::parse_spec(lowered@),
    {
        if text_is(lowered, "width / height = ratio") {
            Some(AspectCalc::Ratio)
        } else if text_is(lowered, "height * ratio = width") {
            Some(AspectCalc::Width)
        } else if text_is(lowered, "width / ratio = height") {
            Some(AspectCalc::Height)
        } else {
            None
        }
    }

    /// The choice named by `s`, in any case.
    pub fn from_str(s: &str) -> (r: Result<Self, &'static str>)
        ensures
            match Self::parse_spec(lowercase(s@)) {
                Some(p) => r == Ok::<Self, &'static str>(p),
                None => r matches Err(e) && e@ == "unknown aspect ratio calculation"@,
            },
    {
        match Self::from_lowercase(&to_lowercase(s)) {
            Some(p) => Ok(p),
            None => Err("unknown aspect ratio calculation"),
        }
    }

}

/// Each choice of the dimension that an aspect ratio derives has an ASCII name that, lower-cased, reads back as
/// the same choice.
pub proof fn lemma_aspect_calc_names(p: AspectCalc)
    ensures
        is_ascii_chars(p.name_spec()),
        AspectCalc::parse_spec(ascii_lower(p.name_spec())) == Some(p),
{
    reveal_strlit("height * ratio = width");
    reveal_strlit("width / height = ratio");
    reveal_strlit("width / ratio = height");
    assert("width / height = ratio"@[0] != "height * ratio = width"@[0]);
    assert("width / height = ratio"@[8] != "width / ratio = height"@[8]);
    assert("height * ratio = width"@[0] != "width / ratio = height"@[0]);
    match p {
        AspectCalc::Ratio => {
            assert(ascii_lower("width / height = ratio"@) =~= "width / height = ratio"@);
        },
        AspectCalc::Width => {
            assert(ascii_lower("height * ratio = width"@) =~= "height * ratio = width"@);
        },
        AspectCalc::Height => {
            assert(ascii_lower("width / ratio = height"@) =~= "width / ratio = height"@);
        },
    }
}
/// A component that can be put on an edge of the chart.
#[derive(Copy, Clone, Debug, PartialEq, Eq, Structural, Default)]
pub enum EdgeOption {
    #[default]
    RotatedLabel,
    Legend,
    TickLabels,
}

impl EdgeOption {
    pub open spec fn name_spec(self) -> Seq<char> {
        match self {
            EdgeOption::RotatedLabel => "Label"@,
            EdgeOption::Legend => "Legend"@,
            EdgeOption::TickLabels => "Ticks"@,
        }
    }

    pub open spec fn parse_spec(lowered: Seq<char>) -> Option<EdgeOption> {
        if lowered == "label"@ {
            Some(EdgeOption::RotatedLabel)
        } else if lowered == "legend"@ {
            Some(EdgeOption::Legend)
        } else if lowered == "ticks"@ {
            Some(EdgeOption::TickLabels)
        } else {
            None
        }
    }

    /// The name shown for this choice.
    pub fn to_string(&self) -> (r: String)
        ensures
            r@ == self.name_spec(),
    {
        String::from_str(
            match self {
                EdgeOption::RotatedLabel => "Label",
                EdgeOption::Legend => "Legend",
                EdgeOption::TickLabels => "Ticks",
            },
        )
    }

    /// The choice named by an already lower-cased string.
    pub fn from_lowercase(lowered: &String) -> (r: Option<Self>)
        ensures
            r == Self::parse_spec(lowered@),
    {
        if text_is(lowered, "label") {
            Some(EdgeOption::RotatedLabel)
        } else if text_is(lowered, "legend") {
            Some(EdgeOption::Legend)
        } else if text_is(lowered, "ticks") {
            Some(EdgeOption::TickLabels)
        } else {
            None
        }
    }

    /// The choice named by `s`, in any case.
    pub fn from_str(s: &str) -> (r: Result<Self, &'static str>)
        ensures
            match Self::parse_spec(lowercase(s@)) {
                Some(p) => r == Ok::<Self, &'static str>(p),
                None => r matches Err(e) && e@ == "unknown edge layout option"@,
            },
    {
        match Self::from_lowercase(&to_lowercase(s)) {
            Some(p) => Ok(p),
            None => Err("unknown edge layout option"),
        }
    }

}

/// Each component that can be put on an edge of the chart has an ASCII name that, lower-cased, reads back as
/// the same choice.
pub proof fn lemma_edge_option_names(p: EdgeOption)
    ensures
        is_ascii_chars(p.name_spec()),
        EdgeOption::parse_spec(ascii_lower(p.name_spec())) == Some(p),
{
    reveal_strlit("Label");
    reveal_strlit("Legend");
    reveal_strlit("Ticks");
    reveal_strlit("label");
    reveal_strlit("legend");
    reveal_strlit("ticks");
    assert("label"@[0] != "ticks"@[0]);
    match p {
        EdgeOption::RotatedLabel => {
            assert(ascii_lower("Label"@) =~= "label"@);
        },
        EdgeOption::Legend => {
            assert(ascii_lower("Legend"@) =~= "legend"@);
        },
        EdgeOption::TickLabels => {
            assert(ascii_lower("Ticks"@) =~= "ticks"@);
        },
    }
}
/// A component that can be drawn inside the chart.
#[derive(Copy, Clone, Debug, PartialEq, Eq, Structural, Default)]
pub enum InnerOption {
    #[default]
    AxisMarker,
    XGridLine,
    YGridLine,
    XGuideLine,
    YGuideLine,
    Legend,
}

impl InnerOption {
    pub open spec fn name_spec(self) -> Seq<char> {
        match self {
            InnerOption::AxisMarker => "Axis marker"@,
            InnerOption::XGridLine => "X grid line"@,
            InnerOption::YGridLine => "Y grid line"@,
            InnerOption::XGuideLine => "X guide line"@,
            InnerOption::YGuideLine => "Y guide line"@,
            InnerOption::Legend => "Legend"@,
        }
    }

    pub open spec fn parse_spec(lowered: Seq<char>) -> Option<InnerOption> {
        if lowered == "axis marker"@ {
            Some(InnerOption::AxisMarker)
        } else if lowered == "x grid line"@ {
            Some(InnerOption::XGridLine)
        } else if lowered == "y grid line"@ {
            Some(InnerOption::YGridLine)
        } else if lowered == "x guide line"@ {
            Some(InnerOption::XGuideLine)
        } else if lowered == "y guide line"@ {
            Some(InnerOption::YGuideLine)
        } else if lowered == "legend"@ {
            Some(InnerOption::Legend)
        } else {
            None
        }
    }

    /// The name shown for this choice.
    pub fn to_string(&self) -> (r: String)
        ensures
            r@ == self.name_spec(),
    {
        String::from_str(
            match self {
                InnerOption::AxisMarker => "Axis marker",
                InnerOption::XGridLine => "X grid line",
                InnerOption::YGridLine => "Y grid line",
                InnerOption::XGuideLine => "X guide line",
                InnerOption::YGuideLine => "Y guide line",
                InnerOption::Legend => "Legend",
            },
        )
    }

    /// The choice named by an already lower-cased string.
    pub fn from_lowercase(lowered: &String) -> (r: Option<Self>)
        ensures
            r == Self::parse_spec(lowered@),
    {
        if text_is(lowered, "axis marker") {
            Some(InnerOption::AxisMarker)
        } else if text_is(lowered, "x grid line") {
            Some(InnerOption::XGridLine)
        } else if text_is(lowered, "y grid line") {
            Some(InnerOption::YGridLine)
        } else if text_is(lowered, "x guide line") {
            Some(InnerOption::XGuideLine)
        } else if text_is(lowered, "y guide line") {
            Some(InnerOption::YGuideLine)
        } else if text_is(lowered, "legend") {
            Some(InnerOption::Legend)
        } else {
            None
        }
    }

    /// The choice named by `s`, in any case.
    pub fn from_str(s: &str) -> (r: Result<Self, &'static str>)
        ensures
            match Self::parse_spec(lowercase(s@)) {
                Some(p) => r == Ok::<Self, &'static str>(p),
                None => r matches Err(e) && e@ == "unknown inner option"@,
            },
    {
        match Self::from_lowercase(&to_lowercase(s)) {
            Some(p) => Ok(p),
            None => Err("unknown inner option"),
        }
    }

}

/// Each component that can be drawn inside the chart has an ASCII name that, lower-cased, reads back as
/// the same choice.
pub proof fn lemma_inner_option_names(p: InnerOption)
    ensures
        is_ascii_chars(p.name_spec()),
        InnerOption::parse_spec(ascii_lower(p.name_spec())) == Some(p),
{
    reveal_strlit("Axis marker");
    reveal_strlit("Legend");
    reveal_strlit("X grid line");
    reveal_strlit("X guide line");
    reveal_strlit("Y grid line");
    reveal_strlit("Y guide line");
    reveal_strlit("axis marker");
    reveal_strlit("legend");
    reveal_strlit("x grid line");
    reveal_strlit("x guide line");
    reveal_strlit("y grid line");
    reveal_strlit("y guide line");
    assert("axis marker"@[0] != "x grid line"@[0]);
    assert("axis marker"@[0] != "y grid line"@[0]);
    assert("x grid line"@[0] != "y grid line"@[0]);
    assert("x guide line"@[0] != "y guide line"@[0]);
    match p {
        InnerOption::AxisMarker => {
            assert(ascii_lower("Axis marker"@) =~= "axis marker"@);
        },
        InnerOption::XGridLine => {
            assert(ascii_lower("X grid line"@) =~= "x grid line"@);
        },
        InnerOption::YGridLine => {
            assert(ascii_lower("Y grid line"@) =~= "y grid line"@);
        },
        InnerOption::XGuideLine => {
            assert(ascii_lower("X guide line"@) =~= "x guide line"@);
        },
        InnerOption::YGuideLine => {
            assert(ascii_lower("Y guide line"@) =~= "y guide line"@);
        },
        InnerOption::Legend => {
            assert(ascii_lower("Legend"@) =~= "legend"@);
        },
    }
}
/// An editable list of chosen components, in display order.
#[derive(Clone, Debug)]
pub struct Options<Opt>(pub Vec<Opt>);

/// `s` with the items at `i` and `j` exchanged.
pub open spec fn swapped<T>(s: Seq<T>, i: int, j: int) -> Seq<T> {
    s.update(i, s[j]).update(j, s[i])
}

impl<Opt> Options<Opt> {
    /// Adds a component at the end.
    pub fn add(self, opt: Opt) -> (r: Self)
        ensures
            r.0@ == self.0@.push(opt),
    {
        let mut v = self.0;
        v.push(opt);
        Options(v)
    }

    /// Moves the component at `index` one place towards the front; the
    /// first stays where it is.
    pub fn move_up(self, index: usize) -> (r: Self)
        requires
            index == 0 || index < self.0@.len(),
        ensures
            r.0@ == (if index > 0 {
                swapped(self.0@, index as int, index - 1)
            } else {
                self.0@
            }),
    {
        let mut v = self.0;
        if index > 0 {
            let ghost before = v@;
            let x = v.remove(index);
            v.insert(index - 1, x);
            assert(v@ =~= swapped(before, index as int, index - 1));
        }
        Options(v)
    }

    /// Moves the component at `index` one place towards the back; the last
    /// (or one past it) stays where it is.
    pub fn move_down(self, index: usize) -> (r: Self)
        requires
            self.0@.len() > 0,
        ensures
            r.0@ == (if index < self.0@.len() - 1 {
                swapped(self.0@, index as int, index + 1)
            } else {
                self.0@
            }),
    {
        let mut v = self.0;
        if index < v.len() - 1 {
            let ghost before = v@;
            let x = v.remove(index);
            v.insert(index + 1, x);
            assert(v@ =~= swapped(before, index as int, index + 1));
        }
        Options(v)
    }

    /// Removes the component at `index`, if there is one.
    pub fn remove(self, index: usize) -> (r: Self)
        ensures
            r.0@ == (if index < self.0@.len() {
                self.0@.remove(index as int)
            } else {
                self.0@
            }),
    {
        let mut v = self.0;
        if index < v.len() {
            v.remove(index);
        }
        Options(v)
    }

    /// The components, in order.
    pub fn into_inner(self) -> (r: Vec<Opt>)
        ensures
            r@ == self.0@,
    {
        self.0
    }
}

/// Moving a component down and then back up restores the list, and so does
/// moving it up and then back down.
pub proof fn lemma_move_round_trip<T>(s: Seq<T>, i: int)
    requires
        0 <= i,
        i + 1 < s.len(),
    ensures
        swapped(swapped(s, i, i + 1), i + 1, i) == s,
        swapped(swapped(s, i + 1, i), i, i + 1) == s,
{
    assert(swapped(swapped(s, i, i + 1), i + 1, i) =~= s);
    assert(swapped(swapped(s, i + 1, i), i, i + 1) =~= s);
}

/// Removing the component just added gives back the list it was added to.
pub proof fn lemma_add_then_remove<T>(s: Seq<T>, x: T)
    ensures
        s.push(x).remove(s.len() as int) == s,
{
    assert(s.push(x).remove(s.len() as int) =~= s);
}

} // verus!
