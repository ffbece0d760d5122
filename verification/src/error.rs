//! Why a document could not be decoded.

use vstd::prelude::*;

verus! {

/// The kind of a tagged value, used to say what was expected and what was
/// found.
#[derive(Debug, PartialEq, Eq, Clone, Copy, Structural)]
pub enum Kind {
    Byte,
    Short,
    Int,
    Long,
    Text,
    Bytes,
    List,
    Compound,
    /// A text that is a JSON object with the string in it that the reader
    /// asks for. Only ever expected, never found.
    Json,
    /// A float, a double, an array of ints or longs, or a value of which
    /// only the presence was kept.
    Other,
}

/// A raw scalar that named no member of a closed enumeration.
#[derive(Debug, PartialEq, Eq, Clone)]
pub enum Raw {
    Integer(i32),
    Text(String),
}

/// A rejected raw scalar, as the contracts see it.
pub enum RawM {
    Integer(i32),
    Text(Seq<char>),
}

impl View for Raw {
    type V = RawM;

    open spec fn view(&self) -> RawM {
        match self {
            Raw::Integer(v) => RawM::Integer(*v),
            Raw::Text(s) => RawM::Text(s@),
        }
    }
}

/// Every way a decode can fail. All of them are fatal to the call: no
/// partial result is ever returned beside one.
#[derive(Debug, PartialEq, Eq, Clone)]
pub enum DecodeError {
    /// A scalar outside the known set of a closed enumeration.
    UnknownEnumValue(Raw),
    /// A required key was absent when its compound closed.
    MissingField(String),
    /// A key held a value of the wrong kind: expected first, found second.
    TypeMismatch(Kind, Kind),
    /// The tag stream itself is not a well-formed document.
    MalformedInput,
}

/// A decode failure, as the contracts see it.
pub enum DecodeErrorM {
    UnknownEnumValue(RawM),
    MissingField(Seq<char>),
    TypeMismatch(Kind, Kind),
    MalformedInput,
}

impl View for DecodeError {
    type V = DecodeErrorM;

    open spec fn view(&self) -> DecodeErrorM {
        match self {
            DecodeError::UnknownEnumValue(raw) => DecodeErrorM::UnknownEnumValue(raw@),
            DecodeError::MissingField(name) => DecodeErrorM::MissingField(name@),
            DecodeError::TypeMismatch(expected, found) => DecodeErrorM::TypeMismatch(
                *expected,
                *found,
            ),
            DecodeError::MalformedInput => DecodeErrorM::MalformedInput,
        }
    }
}

impl DecodeError {
    /// The error for a required key that never appeared.
    pub fn missing(name: &str) -> (e: DecodeError)
        ensures
            e@ == DecodeErrorM::MissingField(name@),
    {
        DecodeError::MissingField(name.to_owned())
    }
}

} // verus!
