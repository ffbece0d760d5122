//! The colour of a banner marked on a map, a closed set of sixteen names.

use vstd::prelude::*;
use vstd::string::StringExecFns;
use crate::text::text_eq;

verus! {

/// The colour of a banner. Each has exactly one raw name.
#[derive(Debug, PartialEq, Eq, Clone, Copy, Structural)]
pub enum BannerColor {
    Black,
    Blue,
    Brown,
    Cyan,
    Gray,
    Green,
    LightBlue,
    LightGray,
    Lime,
    Magenta,
    Orange,
    Pink,
    Purple,
    Red,
    White,
    Yellow,
}

/// A raw text that names no banner colour. It carries the rejected text as
/// it was given.
#[derive(Debug, PartialEq, Eq, Clone)]
pub struct UnknownBannerColor(pub String);

impl UnknownBannerColor {
    /// The message of this error: a fixed opening and the rejected text,
    /// unchanged.
    pub fn message(&self) -> (m: String)
        ensures
            m@ == "unknown banner color: "@ + self.0@,
    {
        String::from_str("unknown banner color: ").concat(self.0.as_str())
    }
}

impl BannerColor {
    /// The raw name that stands for this colour.
    pub open spec fn name(self) -> Seq<char> {
        match self {
            BannerColor::Black => "black"@,
            BannerColor::Blue => "blue"@,
            BannerColor::Brown => "brown"@,
            BannerColor::Cyan => "cyan"@,
            BannerColor::Gray => "gray"@,
            BannerColor::Green => "green"@,
            BannerColor::LightBlue => "lightblue"@,
            BannerColor::LightGray => "lightgray"@,
            BannerColor::Lime => "lime"@,
            BannerColor::Magenta => "magenta"@,
            BannerColor::Orange => "orange"@,
            BannerColor::Pink => "pink"@,
            BannerColor::Purple => "purple"@,
            BannerColor::Red => "red"@,
            BannerColor::White => "white"@,
            BannerColor::Yellow => "yellow"@,
        }
    }

    /// The colour a raw name stands for, if any. Names are compared
    /// character by character: no case is folded, no part matches and no
    /// closest colour is guessed.
    pub open spec fn of_name(raw: Seq<char>) -> Option<BannerColor> {
        if raw == "black"@ {
            Some(BannerColor::Black)
        } else if raw == "blue"@ {
            Some(BannerColor::Blue)
        } else if raw == "brown"@ {
            Some(BannerColor::Brown)
        } else if raw == "cyan"@ {
            Some(BannerColor::Cyan)
        } else if raw == "gray"@ {
            Some(BannerColor::Gray)
        } else if raw == "green"@ {
            Some(BannerColor::Green)
        } else if raw == "lightblue"@ {
            Some(BannerColor::LightBlue)
        } else if raw == "lightgray"@ {
            Some(BannerColor::LightGray)
        } else if raw == "lime"@ {
            Some(BannerColor::Lime)
        } else if raw == "magenta"@ {
            Some(BannerColor::Magenta)
        } else if raw == "orange"@ {
            Some(BannerColor::Orange)
        } else if raw == "pink"@ {
            Some(BannerColor::Pink)
        } else if raw == "purple"@ {
            Some(BannerColor::Purple)
        } else if raw == "red"@ {
            Some(BannerColor::Red)
        } else if raw == "white"@ {
            Some(BannerColor::White)
        } else if raw == "yellow"@ {
            Some(BannerColor::Yellow)
        } else {
            None
        }
    }

    /// Every colour is found again from its own name, and a name that is
    /// accepted is the name of the colour it gave: the names stand one to
    /// one for the colours.
    pub proof fn name_round_trip(color: BannerColor, raw: Seq<char>)
        ensures
            BannerColor::of_name(color.name()) == Some(color),
            BannerColor::of_name(raw) matches Some(c) ==> c.name() == raw,
    {
        reveal_strlit("black");
        reveal_strlit("blue");
        reveal_strlit("brown");
        reveal_strlit("cyan");
        reveal_strlit("gray");
        reveal_strlit("green");
        reveal_strlit("lightblue");
        reveal_strlit("lightgray");
        reveal_strlit("lime");
        reveal_strlit("magenta");
        reveal_strlit("orange");
        reveal_strlit("pink");
        reveal_strlit("purple");
        reveal_strlit("red");
        reveal_strlit("white");
        reveal_strlit("yellow");
        assert("black"@[1] == 'l' && "black"@[2] == 'a' && "black"@.len() == 5);
        assert("blue"@[1] == 'l' && "blue"@[2] == 'u' && "blue"@.len() == 4);
        assert("brown"@[1] == 'r' && "brown"@[0] == 'b' && "brown"@.len() == 5);
        assert("cyan"@[0] == 'c' && "cyan"@.len() == 4);
        assert("gray"@[0] == 'g' && "gray"@.len() == 4);
        assert("green"@[0] == 'g' && "green"@.len() == 5);
        assert("lightblue"@[5] == 'b' && "lightblue"@.len() == 9);
        assert("lightgray"@[5] == 'g' && "lightgray"@.len() == 9);
        assert("lime"@[0] == 'l' && "lime"@.len() == 4);
        assert("magenta"@.len() == 7);
        assert("orange"@[0] == 'o' && "orange"@.len() == 6);
        assert("pink"@[0] == 'p' && "pink"@.len() == 4);
        assert("purple"@[0] == 'p' && "purple"@.len() == 6);
        assert("red"@.len() == 3);
        assert("white"@[0] == 'w' && "white"@.len() == 5);
        assert("yellow"@[0] == 'y' && "yellow"@.len() == 6);
    }

    /// Tells which colour a raw name stands for. Any other text is
    /// rejected, and the error holds that text.
    pub fn try_from(value: &str) -> (r: Result<BannerColor, UnknownBannerColor>)
        ensures
            match BannerColor::of_name(value@) {
                Some(c) => r == Ok::<BannerColor, UnknownBannerColor>(c),
                None => r matches Err(e) && e.0@ == value@,
            },
    {
        if text_eq(value, "black") {
            Ok(BannerColor::Black)
        } else if text_eq(value, "blue") {
            Ok(BannerColor::Blue)
        } else if text_eq(value, "brown") {
            Ok(BannerColor::Brown)
        } else if text_eq(value, "cyan") {
            Ok(BannerColor::Cyan)
        } else if text_eq(value, "gray") {
            Ok(BannerColor::Gray)
        } else if text_eq(value, "green") {
            Ok(BannerColor::Green)
        } else if text_eq(value, "lightblue") {
            Ok(BannerColor::LightBlue)
        } else if text_eq(value, "lightgray") {
            Ok(BannerColor::LightGray)
        } else if text_eq(value, "lime") {
            Ok(BannerColor::Lime)
        } else if text_eq(value, "magenta") {
            Ok(BannerColor::Magenta)
        } else if text_eq(value, "orange") {
            Ok(BannerColor::Orange)
        } else if text_eq(value, "pink") {
            Ok(BannerColor::Pink)
        } else if text_eq(value, "purple") {
            Ok(BannerColor::Purple)
        } else if text_eq(value, "red") {
            Ok(BannerColor::Red)
        } else if text_eq(value, "white") {
            Ok(BannerColor::White)
        } else if text_eq(value, "yellow") {
            Ok(BannerColor::Yellow)
        } else {
            Err(UnknownBannerColor(value.to_owned()))
        }
    }
}

} // verus!
