//! The zoom level of a map item, a closed set of five integer codes.

use vstd::prelude::*;
use vstd::std_specs::convert::TryFromSpecImpl;
use vstd::string::StringExecFns;
use crate::text::append_decimal;
use crate::text::decimal;

verus! {

/// How far a map is zoomed out. Each level has exactly one raw code.
#[derive(Debug, PartialEq, Eq, Clone, Copy, Structural)]
pub enum Scale {
    Zero,
    One,
    Two,
    Three,
    Four,
}

/// A raw integer that names no zoom level. It carries the rejected value.
#[derive(Debug, PartialEq, Eq, Clone, Copy, Structural)]
pub struct UnknownScale(pub i32);

impl UnknownScale {
    /// The message of this error: a fixed opening and the rejected code in
    /// decimal.
    pub fn message(&self) -> (m: String)
        ensures
            m@ == "unknown scale: "@ + decimal(self.0 as int),
    {
        let mut m = String::from_str("unknown scale: ");
        append_decimal(&mut m, self.0);
        m
    }
}

impl Scale {
    /// The raw code that stands for this level.
    pub open spec fn code(self) -> int {
        match self {
            Scale::Zero => 0,
            Scale::One => 1,
            Scale::Two => 2,
            Scale::Three => 3,
            Scale::Four => 4,
        }
    }

    /// The level a raw code stands for, if any.
    pub open spec fn of_code(raw: int) -> Option<Scale> {
        if raw == 0 {
            Some(Scale::Zero)
        } else if raw == 1 {
            Some(Scale::One)
        } else if raw == 2 {
            Some(Scale::Two)
        } else if raw == 3 {
            Some(Scale::Three)
        } else if raw == 4 {
            Some(Scale::Four)
        } else {
            None
        }
    }

    /// Every level is found again from its own code, a code that is
    /// accepted is the code of the level it gave, and the codes accepted
    /// are zero to four.
    pub proof fn code_round_trip(level: Scale, raw: int)
        ensures
            Scale::of_code(level.code()) == Some(level),
            Scale::of_code(raw) matches Some(l) ==> l.code() == raw,
            Scale::of_code(raw) is Some <==> 0 <= raw <= 4,
    {
    }
}

impl TryFrom<i32> for Scale {
    type Error = UnknownScale;

    fn try_from(value: i32) -> (r: Result<Scale, UnknownScale>) {
        match value {
            0 => Ok(Scale::Zero),
            1 => Ok(Scale::One),
            2 => Ok(Scale::Two),
            3 => Ok(Scale::Three),
            4 => Ok(Scale::Four),
            unknown => Err(UnknownScale(unknown)),
        }
    }
}

impl TryFromSpecImpl<i32> for Scale {
    open spec fn obeys_try_from_spec() -> bool {
        true
    }

    open spec fn try_from_spec(value: i32) -> Result<Scale, UnknownScale> {
        match Scale::of_code(value as int) {
            Some(level) => Ok(level),
            None => Err(UnknownScale(value)),
        }
    }
}

} // verus!
