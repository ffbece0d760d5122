//! A pull cursor over the tag events of one binary document.
//!
//! The bytes are turned into events by `fastnbt`'s streaming parser; nothing
//! in this module is proved. Everything the rest of the library knows about
//! that parser is stated in the contracts below.

use vstd::prelude::*;
use fastnbt::stream::Parser;
use fastnbt::stream::Value;
use crate::tag::Leaf;
use crate::tag::LeafM;

verus! {

/// What an event does to the structure of the document.
#[derive(Debug, PartialEq, Eq, Clone, Copy, Structural)]
pub enum Shape {
    /// A value that is neither a list nor a compound.
    Leaf,
    /// A list opens. The fields are the tag number of its elements and the
    /// length written in its header.
    ListStart(u8, i32),
    /// The list that was opened last closes.
    ListEnd,
    /// A compound opens.
    CompoundStart,
    /// The compound that was opened last closes.
    CompoundEnd,
}

impl Shape {
    /// A list header after which the parser cannot be asked for more: one
    /// with a negative length, or one that announces elements of the end
    /// tag.
    pub open spec fn blocks(self) -> bool {
        self matches Shape::ListStart(elem, len) && (len < 0 || (elem == 0 && len != 0))
    }
}

/// One event of the stream, as the contracts see it.
pub struct EventM {
    /// The name of the value, where it has one. The items of a list and the
    /// two closing events have none.
    pub name: Option<Seq<char>>,
    pub shape: Shape,
    /// The payload of a leaf; `Other` for every other shape.
    pub payload: LeafM,
}

/// The name an event carries, as the contracts see it.
pub open spec fn name_view(name: Option<&str>) -> Option<Seq<char>> {
    match name {
        Some(s) => Some(s@),
        None => None,
    }
}

/// A position in the event stream of one document. A cursor stands on an
/// event. It is moved, not shared: once the stream has failed there is no
/// cursor left to ask.
///
/// Trusted: the struct hides `fastnbt::stream::Parser` over a byte slice,
/// whose declaration needs the trait `std::io::Read`, and the event that the
/// parser returned last.
#[verifier::external_body]
pub struct Cursor<'a> {
    parser: Parser<&'a [u8]>,
    current: Value,
}

/// The events that `fastnbt::stream::Parser::next` returns, call after call,
/// on a parser made over these bytes, up to the first call that returns no
/// event.
pub uninterp spec fn events_of(bytes: Seq<u8>) -> Seq<EventM>;

/// The event a cursor stands on, followed by the events that its parser
/// will still return, up to the first call that returns no event.
pub uninterp spec fn events(c: Cursor) -> Seq<EventM>;

/// Starts a cursor on the first event of a document.
///
/// Trusted: calls `Parser::new` on the slice and `Parser::next` once. The
/// contract claims that the cursor stands on the first event of the bytes,
/// and that there is no cursor exactly when the first call fails.
#[verifier::external_body]
pub(crate) fn open<'a>(bytes: &'a [u8]) -> (r: Option<Cursor<'a>>)
    ensures
        match r {
            Some(c) => events_of(bytes@).len() > 0 && events(c) == events_of(bytes@),
            None => events_of(bytes@).len() == 0,
        },
{
    let mut parser = Parser::new(bytes);
    let current = parser.next().ok()?;
    Some(Cursor { parser, current })
}

/// Moves a cursor to the next event.
///
/// Trusted: calls `Parser::next` once. The parser panics when it is asked
/// for an element of the end tag, and counts a negative length down without
/// end; a list header is the only event after which either can happen, and
/// `requires` leaves those headers out. The contract claims that the cursor
/// then stands on the next event, and that there is no cursor exactly when
/// the call fails.
#[verifier::external_body]
pub(crate) fn advance<'a>(c: Cursor<'a>) -> (r: Option<Cursor<'a>>)
    requires
        events(c).len() > 0,
        !events(c)[0].shape.blocks(),
    ensures
        match r {
            Some(next) => events(c).len() > 1 && events(next) == events(c).skip(1),
            None => events(c).len() == 1,
        },
{
    let mut c = c;
    c.current = c.parser.next().ok()?;
    Some(c)
}

/// The name and the shape of the event a cursor stands on.
///
/// Trusted: tells the variants of `fastnbt::stream::Value` apart. The ten
/// variants that carry a payload are leaves. The tag of a list's elements is
/// handed out as its number.
#[verifier::external_body]
pub(crate) fn head<'a>(c: &'a Cursor) -> (r: (Option<&'a str>, Shape))
    requires
        events(*c).len() > 0,
    ensures
        name_view(r.0) == events(*c)[0].name,
        r.1 == events(*c)[0].shape,
{
    match &c.current {
        Value::Byte(n, _) | Value::Short(n, _) | Value::Int(n, _) | Value::Long(n, _)
        | Value::Float(n, _) | Value::Double(n, _) | Value::ByteArray(n, _)
        | Value::String(n, _) | Value::IntArray(n, _) | Value::LongArray(n, _) => {
            (n.as_deref(), Shape::Leaf)
        },
        Value::List(n, t, len) => (n.as_deref(), Shape::ListStart(u8::from(*t), *len)),
        Value::ListEnd => (None, Shape::ListEnd),
        Value::Compound(n) => (n.as_deref(), Shape::CompoundStart),
        Value::CompoundEnd => (None, Shape::CompoundEnd),
    }
}

/// A copy of the payload of the event a cursor stands on.
///
/// Trusted: tells the variants of `fastnbt::stream::Value` apart. Integers,
/// strings and byte arrays are copied; every other event gives `Other`.
#[verifier::external_body]
pub(crate) fn leaf(c: &Cursor) -> (r: Leaf)
    requires
        events(*c).len() > 0,
    ensures
        r@ == events(*c)[0].payload,
{
    match &c.current {
        Value::Byte(_, v) => Leaf::Byte(*v),
        Value::Short(_, v) => Leaf::Short(*v),
        Value::Int(_, v) => Leaf::Int(*v),
        Value::Long(_, v) => Leaf::Long(*v),
        Value::String(_, v) => Leaf::Text(v.clone()),
        Value::ByteArray(_, v) => Leaf::Bytes(v.clone()),
        _ => Leaf::Other,
    }
}

/// The events that are left after a step: those of the cursor, or none
/// where the stream has ended.
pub open spec fn left(after: Option<Cursor>) -> Seq<EventM> {
    match after {
        Some(c) => events(c),
        None => Seq::empty(),
    }
}

} // verus!
