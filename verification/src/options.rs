//! Choices that configure a chart's parts, with their names as shown to and
//! read back from users.

use crate::text::{ascii_lower, lowercase, surround, text_is, to_lowercase};
use vstd::prelude::*;
use vstd::string::StringExecFns;
use vstd::utf8::is_ascii_chars;

verus! {

/// Where an axis marker is drawn.
#[derive(Copy, Clone, Debug, PartialEq, Eq, Structural)]
pub enum AxisPlacement {
    Top,
    Right,
    Bottom,
    Left,
    HorizontalZero,
    VerticalZero,
}

impl AxisPlacement {
    pub open spec fn name_spec(self) -> Seq<char> {
        match self {
            AxisPlacement::Top => "top"@,
            AxisPlacement::Right => "right"@,
            AxisPlacement::Bottom => "bottom"@,
            AxisPlacement::Left => "left"@,
            AxisPlacement::HorizontalZero => "horizontal zero"@,
            AxisPlacement::VerticalZero => "vertical zero"@,
        }
    }

    pub open spec fn parse_spec(lowered: Seq<char>) -> Option<AxisPlacement> {
        if lowered == "top"@ {
            Some(AxisPlacement::Top)
        } else if lowered == "right"@ {
            Some(AxisPlacement::Right)
        } else if lowered == "bottom"@ {
            Some(AxisPlacement::Bottom)
        } else if lowered == "left"@ {
            Some(AxisPlacement::Left)
        } else if lowered == "horizontal zero"@ {
            Some(AxisPlacement::HorizontalZero)
        } else if lowered == "vertical zero"@ {
            Some(AxisPlacement::VerticalZero)
        } else {
            None
        }
    }

    /// The name shown for this choice.
    pub fn to_string(&self) -> (r: String)
        ensures
            r@ == self.name_spec(),
    {
        String::from_str(
            match self {
                AxisPlacement::Top => "top",
                AxisPlacement::Right => "right",
                AxisPlacement::Bottom => "bottom",
                AxisPlacement::Left => "left",
                AxisPlacement::HorizontalZero => "horizontal zero",
                AxisPlacement::VerticalZero => "vertical zero",
            },
        )
    }

    /// The choice named by an already lower-cased string.
    pub fn from_lowercase(lowered: &String) -> (r: Option<Self>)
        ensures
            r == Self::parse_spec(lowered@),
    {
        if text_is(lowered, "top") {
            Some(AxisPlacement::Top)
        } else if text_is(lowered, "right") {
            Some(AxisPlacement::Right)
        } else if text_is(lowered, "bottom") {
            Some(AxisPlacement::Bottom)
        } else if text_is(lowered, "left") {
            Some(AxisPlacement::Left)
        } else if text_is(lowered, "horizontal zero") {
            Some(AxisPlacement::HorizontalZero)
        } else if text_is(lowered, "vertical zero") {
            Some(AxisPlacement::VerticalZero)
        } else {
            None
        }
    }

    /// The choice named by `s`, in any case.
    pub fn from_str(s: &str) -> (r: Result<Self, String>)
        ensures
            match Self::parse_spec(lowercase(s@)) {
                Some(p) => r == Ok::<Self, String>(p),
                None => r matches Err(e) && e@ == "unknown axis placement: `"@ + s@ + "`"@,
            },
    {
        match Self::from_lowercase(&to_lowercase(s)) {
            Some(p) => Ok(p),
            None => Err(surround("unknown axis placement: `", s, "`")),
        }
    }

}

/// Each place where an axis marker can be drawn has an ASCII name that, lower-cased, reads back as
/// the same choice.
pub proof fn lemma_axis_placement_names(p: AxisPlacement)
    ensures
        is_ascii_chars(p.name_spec()),
        AxisPlacement::parse_spec(ascii_lower(p.name_spec())) == Some(p),
{
    reveal_strlit("bottom");
    reveal_strlit("horizontal zero");
    reveal_strlit("left");
    reveal_strlit("right");
    reveal_strlit("top");
    reveal_strlit("vertical zero");
    match p {
        AxisPlacement::Top => {
            assert(ascii_lower("top"@) =~= "top"@);
        },
        AxisPlacement::Right => {
            assert(ascii_lower("right"@) =~= "right"@);
        },
        AxisPlacement::Bottom => {
            assert(ascii_lower("bottom"@) =~= "bottom"@);
        },
        AxisPlacement::Left => {
            assert(ascii_lower("left"@) =~= "left"@);
        },
        AxisPlacement::HorizontalZero => {
            assert(ascii_lower("horizontal zero"@) =~= "horizontal zero"@);
        },
        AxisPlacement::VerticalZero => {
            assert(ascii_lower("vertical zero"@) =~= "vertical zero"@);
        },
    }
}
/// Where a label sits along its edge.
#[derive(Copy, Clone, Debug, PartialEq, Eq, Structural)]
pub enum Anchor {
    Start,
    Middle,
    End,
}

impl Anchor {
    pub open spec fn name_spec(self) -> Seq<char> {
        match self {
            Anchor::Start => "start"@,
            Anchor::Middle => "middle"@,
            Anchor::End => "end"@,
        }
    }

    pub open spec fn parse_spec(lowered: Seq<char>) -> Option<Anchor> {
        if lowered == "start"@ {
            Some(Anchor::Start)
        } else if lowered == "middle"@ {
            Some(Anchor::Middle)
        } else if lowered == "end"@ {
            Some(Anchor::End)
        } else {
            None
        }
    }

    /// The name shown for this choice.
    pub fn to_string(&self) -> (r: String)
        ensures
            r@ == self.name_spec(),
    {
        String::from_str(
            match self {
                Anchor::Start => "start",
                Anchor::Middle => "middle",
                Anchor::End => "end",
            },
        )
    }

    /// The choice named by an already lower-cased string.
    pub fn from_lowercase(lowered: &String) -> (r: Option<Self>)
        ensures
            r == Self::parse_spec(lowered@),
    {
        if text_is(lowered, "start") {
            Some(Anchor::Start)
        } else if text_is(lowered, "middle") {
            Some(Anchor::Middle)
        } else if text_is(lowered, "end") {
            Some(Anchor::End)
        } else {
            None
        }
    }

    /// The choice named by `s`, in any case.
    pub fn from_str(s: &str) -> (r: Result<Self, String>)
        ensures
            match Self::parse_spec(lowercase(s@)) {
                Some(p) => r == Ok::<Self, String>(p),
                None => r matches Err(e) && e@ == "unknown anchor: `"@ + s@ + "`"@,
            },
    {
        match Self::from_lowercase(&to_lowercase(s)) {
            Some(p) => Ok(p),
            None => Err(surround("unknown anchor: `", s, "`")),
        }
    }

    pub open spec fn justify_spec(self) -> Seq<char> {
        match self {
            Anchor::Start => "flex-start"@,
            Anchor::Middle => "center"@,
            Anchor::End => "flex-end"@,
        }
    }

    /// The CSS `justify-content` value that puts content at this anchor.
    pub fn css_justify_content(&self) -> (r: &'static str)
        ensures
            r@ == self.justify_spec(),
    {
        match self {
            Anchor::Start => "flex-start",
            Anchor::Middle => "center",
            Anchor::End => "flex-end",
        }
    }

    /// The SVG `text-anchor` value for this anchor: its name.
    pub fn svg_text_anchor(&self) -> (r: &'static str)
        ensures
            r@ == self.name_spec(),
    {
        match self {
            Anchor::Start => "start",
            Anchor::Middle => "middle",
            Anchor::End => "end",
        }
    }

    /// The one of three values that sits at this anchor.
    pub fn map_points<T>(&self, left: T, middle: T, right: T) -> (r: T)
        ensures
            r == match self {
                Anchor::Start => left,
                Anchor::Middle => middle,
                Anchor::End => right,
            },
    {
        match self {
            Anchor::Start => left,
            Anchor::Middle => middle,
            Anchor::End => right,
        }
    }

}

/// Each place where a label can sit along its edge has an ASCII name that, lower-cased, reads back as
/// the same choice.
pub proof fn lemma_anchor_names(p: Anchor)
    ensures
        is_ascii_chars(p.name_spec()),
        Anchor::parse_spec(ascii_lower(p.name_spec())) == Some(p),
{
    reveal_strlit("end");
    reveal_strlit("middle");
    reveal_strlit("start");
    match p {
        Anchor::Start => {
            assert(ascii_lower("start"@) =~= "start"@);
        },
        Anchor::Middle => {
            assert(ascii_lower("middle"@) =~= "middle"@);
        },
        Anchor::End => {
            assert(ascii_lower("end"@) =~= "end"@);
        },
    }
}
/// Where the tooltip is shown while hovering.
#[derive(Copy, Clone, Debug, PartialEq, Eq, Structural, Default)]
pub enum HoverPlacement {
    Hide,
    #[default]
    LeftCursor,
}

impl HoverPlacement {
    pub open spec fn name_spec(self) -> Seq<char> {
        match self {
            HoverPlacement::Hide => "Hide"@,
            HoverPlacement::LeftCursor => "Left cursor"@,
        }
    }

    pub open spec fn parse_spec(lowered: Seq<char>) -> Option<HoverPlacement> {
        if lowered == "hide"@ {
            Some(HoverPlacement::Hide)
        } else if lowered == "left cursor"@ {
            Some(HoverPlacement::LeftCursor)
        } else {
            None
        }
    }

    /// The name shown for this choice.
    pub fn to_string(&self) -> (r: String)
        ensures
            r@ == self.name_spec(),
    {
        String::from_str(
            match self {
                HoverPlacement::Hide => "Hide",
                HoverPlacement::LeftCursor => "Left cursor",
            },
        )
    }

    /// The choice named by an already lower-cased string.
    pub fn from_lowercase(lowered: &String) -> (r: Option<Self>)
        ensures
            r == Self::parse_spec(lowered@),
    {
        if text_is(lowered, "hide") {
            Some(HoverPlacement::Hide)
        } else if text_is(lowered, "left cursor") {
            Some(HoverPlacement::LeftCursor)
        } else {
            None
        }
    }

    /// The choice named by `s`, in any case.
    pub fn from_str(s: &str) -> (r: Result<Self, String>)
        ensures
            match Self::parse_spec(lowercase(s@)) {
                Some(p) => r == Ok::<Self, String>(p),
                None => r matches Err(e) && e@ == "invalid HoverPlacement: `"@ + s@ + "`"@,
            },
    {
        match Self::from_lowercase(&to_lowercase(s)) {
            Some(p) => Ok(p),
            None => Err(surround("invalid HoverPlacement: `", s, "`")),
        }
    }

}

/// Each place where the tooltip can be shown while hovering has an ASCII name that, lower-cased, reads back as
/// the same choice.
pub proof fn lemma_hover_placement_names(p: HoverPlacement)
    ensures
        is_ascii_chars(p.name_spec()),
        HoverPlacement::parse_spec(ascii_lower(p.name_spec())) == Some(p),
{
    reveal_strlit("Hide");
    reveal_strlit("Left cursor");
    reveal_strlit("hide");
    reveal_strlit("left cursor");
    match p {
        HoverPlacement::Hide => {
            assert(ascii_lower("Hide"@) =~= "hide"@);
        },
        HoverPlacement::LeftCursor => {
            assert(ascii_lower("Left cursor"@) =~= "left cursor"@);
        },
    }
}
/// The order of the lines in a tooltip.
#[derive(Copy, Clone, Debug, PartialEq, Eq, Structural, Default)]
pub enum SortBy {
    #[default]
    Lines,
    Ascending,
    Descending,
}

impl SortBy {
    pub open spec fn name_spec(self) -> Seq<char> {
        match self {
            SortBy::Lines => "Lines"@,
            SortBy::Ascending => "Ascending"@,
            SortBy::Descending => "Descending"@,
        }
    }

    pub open spec fn parse_spec(lowered: Seq<char>) -> Option<SortBy> {
        if lowered == "lines"@ {
            Some(SortBy::Lines)
        } else if lowered == "ascending"@ {
            Some(SortBy::Ascending)
        } else if lowered == "descending"@ {
            Some(SortBy::Descending)
        } else {
            None
        }
    }

    /// The name shown for this choice.
    pub fn to_string(&self) -> (r: String)
        ensures
            r@ == self.name_spec(),
    {
        String::from_str(
            match self {
                SortBy::Lines => "Lines",
                SortBy::Ascending => "Ascending",
                SortBy::Descending => "Descending",
            },
        )
    }

    /// The choice named by an already lower-cased string.
    pub fn from_lowercase(lowered: &String) -> (r: Option<Self>)
        ensures
            r == Self::parse_spec(lowered@),
    {
        if text_is(lowered, "lines") {
            Some(SortBy::Lines)
        } else if text_is(lowered, "ascending") {
            Some(SortBy::Ascending)
        } else if text_is(lowered, "descending") {
            Some(SortBy::Descending)
        } else {
            None
        }
    }

    /// The choice named by `s`, in any case.
    pub fn from_str(s: &str) -> (r: Result<Self, String>)
        ensures
            match Self::parse_spec(lowercase(s@)) {
                Some(p) => r == Ok::<Self, String>(p),
                None => r matches Err(e) && e@ == "invalid SortBy: `"@ + s@ + "`"@,
            },
    {
        match Self::from_lowercase(&to_lowercase(s)) {
            Some(p) => Ok(p),
            None => Err(surround("invalid SortBy: `", s, "`")),
        }
    }

}

/// Each order of the lines in a tooltip has an ASCII name that, lower-cased, reads back as
/// the same choice.
pub proof fn lemma_sort_by_names(p: SortBy)
    ensures
        is_ascii_chars(p.name_spec()),
        SortBy::parse_spec(ascii_lower(p.name_spec())) == Some(p),
{
    reveal_strlit("Ascending");
    reveal_strlit("Descending");
    reveal_strlit("Lines");
    reveal_strlit("ascending");
    reveal_strlit("descending");
    reveal_strlit("lines");
    match p {
        SortBy::Lines => {
            assert(ascii_lower("Lines"@) =~= "lines"@);
        },
        SortBy::Ascending => {
            assert(ascii_lower("Ascending"@) =~= "ascending"@);
        },
        SortBy::Descending => {
            assert(ascii_lower("Descending"@) =~= "descending"@);
        },
    }
}
/// What a guide line follows.
#[derive(Copy, Clone, Debug, Default, PartialEq, Eq, Structural)]
pub enum AlignOver {
    #[default]
    Mouse,
    Data,
}

} // verus!
