//! The dimension a map shows, a closed set of three names.

use vstd::prelude::*;
use vstd::string::StringExecFns;
use crate::text::text_eq;

verus! {

/// The dimension a map was made in. Each has exactly one raw name.
#[derive(Debug, PartialEq, Eq, Clone, Copy, Structural)]
pub enum Dimension {
    Overworld,
    TheNether,
    TheEnd,
}

/// A raw text that names no dimension. It carries the rejected text as it
/// was given.
#[derive(Debug, PartialEq, Eq, Clone)]
pub struct UnknownDimension(pub String);

impl UnknownDimension {
    /// The message of this error: a fixed opening and the rejected text,
    /// unchanged.
    pub fn message(&self) -> (m: String)
        ensures
            m@ == "unknown dimension: "@ + self.0@,
    {
        String::from_str("unknown dimension: ").concat(self.0.as_str())
    }
}

impl Dimension {
    /// The raw name that stands for this dimension.
    pub open spec fn name(self) -> Seq<char> {
        match self {
            Dimension::Overworld => "minecraft:overworld"@,
            Dimension::TheNether => "minecraft:the_nether"@,
            Dimension::TheEnd => "minecraft:the_end"@,
        }
    }

    /// The dimension a raw name stands for, if any. Names are compared
    /// character by character: no case is folded and no part matches.
    pub open spec fn of_name(raw: Seq<char>) -> Option<Dimension> {
        if raw == "minecraft:overworld"@ {
            Some(Dimension::Overworld)
        } else if raw == "minecraft:the_nether"@ {
            Some(Dimension::TheNether)
        } else if raw == "minecraft:the_end"@ {
            Some(Dimension::TheEnd)
        } else {
            None
        }
    }

    /// Every dimension is found again from its own name, and a name that
    /// is accepted is the name of the dimension it gave: the names stand
    /// one to one for the dimensions.
    pub proof fn name_round_trip(dimension: Dimension, raw: Seq<char>)
        ensures
            Dimension::of_name(dimension.name()) == Some(dimension),
            Dimension::of_name(raw) matches Some(d) ==> d.name() == raw,
    {
        reveal_strlit("minecraft:overworld");
        reveal_strlit("minecraft:the_nether");
        reveal_strlit("minecraft:the_end");
        assert("minecraft:overworld"@.len() == 19);
        assert("minecraft:the_nether"@.len() == 20);
        assert("minecraft:the_end"@.len() == 17);
    }

    /// Tells which dimension a raw name stands for. Any other text is
    /// rejected, and the error holds that text.
    pub fn try_from(value: &str) -> (r: Result<Dimension, UnknownDimension>)
        ensures
            match Dimension::of_name(value@) {
                Some(d) => r == Ok::<Dimension, UnknownDimension>(d),
                None => r matches Err(e) && e.0@ == value@,
            },
    {
        if text_eq(value, "minecraft:overworld") {
            Ok(Dimension::Overworld)
        } else if text_eq(value, "minecraft:the_nether") {
            Ok(Dimension::TheNether)
        } else if text_eq(value, "minecraft:the_end") {
            Ok(Dimension::TheEnd)
        } else {
            Err(UnknownDimension(value.to_owned()))
        }
    }
}

} // verus!
