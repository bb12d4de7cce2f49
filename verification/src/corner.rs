//! The four screen corners the indicator window can sit in.
use vstd::prelude::*;

use crate::text::same_text;

verus! {

/// A corner of the display that the indicator window is pinned to.
#[derive(Clone, Copy, PartialEq, Eq, Structural, Debug)]
pub enum Corner {
    TopLeft,
    TopRight,
    BottomLeft,
    BottomRight,
}

impl Corner {
    /// The name under which a corner is stored in the settings file.
    pub open spec fn name(self) -> Seq<char> {
        match self {
            Corner::TopLeft => "top-left"@,
            Corner::TopRight => "top-right"@,
            Corner::BottomLeft => "bottom-left"@,
            Corner::BottomRight => "bottom-right"@,
        }
    }

    /// The corner that a stored name stands for; any text that names no
    /// corner stands for the top-right one.
    pub open spec fn from_name(s: Seq<char>) -> Corner {
        if s == "top-left"@ {
            Corner::TopLeft
        } else if s == "bottom-left"@ {
            Corner::BottomLeft
        } else if s == "bottom-right"@ {
            Corner::BottomRight
        } else {
            Corner::TopRight
        }
    }

    /// The stored name of this corner.
    pub fn as_str(self) -> (s: &'static str)
        ensures
            s@ == self.name(),
    {
        match self {
            Corner::TopLeft => "top-left",
            Corner::TopRight => "top-right",
            Corner::BottomLeft => "bottom-left",
            Corner::BottomRight => "bottom-right",
        }
    }

    /// The corner that the stored name `s` stands for.
    pub fn parse(s: &str) -> (c: Corner)
        ensures
            c == Corner::from_name(s@),
    {
        if same_text(s, "top-left") {
            Corner::TopLeft
        } else if same_text(s, "bottom-left") {
            Corner::BottomLeft
        } else if same_text(s, "bottom-right") {
            Corner::BottomRight
        } else {
            Corner::TopRight
        }
    }

    /// Whether the window hugs the left edge in this corner.
    pub fn is_left(self) -> (r: bool)
        ensures
            r == (self == Corner::TopLeft || self == Corner::BottomLeft),
    {
        match self {
            Corner::TopLeft | Corner::BottomLeft => true,
            Corner::TopRight | Corner::BottomRight => false,
        }
    }

    /// Whether the window hugs the top edge in this corner.
    pub fn is_top(self) -> (r: bool)
        ensures
            r == (self == Corner::TopLeft || self == Corner::TopRight),
    {
        match self {
            Corner::TopLeft | Corner::TopRight => true,
            Corner::BottomLeft | Corner::BottomRight => false,
        }
    }

    /// The identifier of this corner's entry in the tray menu.
    pub open spec fn menu_id_text(self) -> Seq<char> {
        "corner:"@ + self.name()
    }

    /// The identifier of this corner's entry in the tray menu.
    pub fn menu_id(self) -> (s: String)
        ensures
            s@ == self.menu_id_text(),
    {
        let mut s = String::from_str("corner:");
        s.append(self.as_str());
        s
    }

    /// The corners in the order in which the tray menu lists them.
    pub fn all() -> (v: Vec<Corner>)
        ensures
            v@ == seq![Corner::TopLeft, Corner::TopRight, Corner::BottomLeft, Corner::BottomRight],
    {
        let v = vec![Corner::TopLeft, Corner::TopRight, Corner::BottomLeft, Corner::BottomRight];
        assert(v@ =~= seq![Corner::TopLeft, Corner::TopRight, Corner::BottomLeft, Corner::BottomRight]);
        v
    }

    /// The caption of this corner's entry in the tray menu.
    pub fn label(self) -> (s: &'static str)
        ensures
            s@ == self.label_text(),
    {
        match self {
            Corner::TopLeft => "左上角",
            Corner::TopRight => "右上角",
            Corner::BottomLeft => "左下角",
            Corner::BottomRight => "右下角",
        }
    }

    /// The caption of this corner's entry in the tray menu.
    pub open spec fn label_text(self) -> Seq<char> {
        match self {
            Corner::TopLeft => "左上角"@,
            Corner::TopRight => "右上角"@,
            Corner::BottomLeft => "左下角"@,
            Corner::BottomRight => "右下角"@,
        }
    }
}

/// Whether `s` is the stored name of one of the four corners.
pub open spec fn is_corner_name(s: Seq<char>) -> bool {
    s == "top-left"@ || s == "top-right"@ || s == "bottom-left"@ || s == "bottom-right"@
}

/// The corner whose stored name is exactly `s`, if any.
pub fn corner_named(s: &str) -> (r: Option<Corner>)
    ensures
        r is Some <==> is_corner_name(s@),
        r matches Some(c) ==> c == Corner::from_name(s@) && c.name() == s@,
{
    if same_text(s, "top-left") {
        Some(Corner::TopLeft)
    } else if same_text(s, "top-right") {
        proof {
            lemma_corner_name_round_trip(Corner::TopRight);
        }
        Some(Corner::TopRight)
    } else if same_text(s, "bottom-left") {
        proof {
            lemma_corner_name_round_trip(Corner::BottomLeft);
        }
        Some(Corner::BottomLeft)
    } else if same_text(s, "bottom-right") {
        proof {
            lemma_corner_name_round_trip(Corner::BottomRight);
        }
        Some(Corner::BottomRight)
    } else {
        None
    }
}

/// The four stored names are told apart: reading back the name of a corner
/// gives that corner.
pub proof fn lemma_corner_name_round_trip(c: Corner)
    ensures
        Corner::from_name(c.name()) == c,
{
    reveal_strlit("top-left");
    reveal_strlit("top-right");
    reveal_strlit("bottom-left");
    reveal_strlit("bottom-right");
    assert("top-right"@ != "top-left"@) by { assert("top-right"@.len() != "top-left"@.len()); }
    assert("top-right"@ != "bottom-left"@) by { assert("top-right"@[0] != "bottom-left"@[0]); }
    assert("top-right"@ != "bottom-right"@) by { assert("top-right"@[0] != "bottom-right"@[0]); }
    assert("bottom-right"@ != "top-left"@) by { assert("bottom-right"@[0] != "top-left"@[0]); }
    assert("bottom-right"@ != "bottom-left"@) by { assert("bottom-right"@.len() != "bottom-left"@.len()); }
    assert("bottom-left"@ != "top-left"@) by { assert("bottom-left"@[0] != "top-left"@[0]); }
}

/// A stored text that is none of the four names stands for the top-right
/// corner, the one a first start uses.
pub proof fn lemma_unknown_name_is_top_right(s: Seq<char>)
    requires
        s != "top-left"@,
        s != "top-right"@,
        s != "bottom-left"@,
        s != "bottom-right"@,
    ensures
        Corner::from_name(s) == Corner::TopRight,
{
}

} // verus!
