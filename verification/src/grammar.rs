//! How a run of events spells out a tree of tagged values.

use vstd::prelude::*;
use crate::cursor::EventM;
use crate::cursor::Shape;
use crate::tag::EntriesM;
use crate::tag::TagM;

verus! {

/// How many lists and compounds may stand inside one another, the document
/// itself counted. Deeper nesting is refused.
pub const MAX_DEPTH: usize = 512;

/// The value that starts at the head of `evs`, and the events after it.
/// A leaf is one event. A compound runs from its opening event through its
/// named values to the closing event; a list from its header through its
/// items to the closing event. `room` says how many lists and compounds may
/// still open inside one another. There is no value where the events run
/// out, where the head closes something, where a list header blocks, or
/// where a list or compound opens and no room is left.
pub open spec fn value_at(evs: Seq<EventM>, room: nat) -> Option<(TagM, Seq<EventM>)>
    decreases evs.len(), 0nat,
{
    if evs.len() == 0 {
        None
    } else {
        match evs[0].shape {
            Shape::Leaf => Some((TagM::Leaf(evs[0].payload), evs.skip(1))),
            Shape::CompoundStart => if room == 0 {
                None
            } else {
                match entries_at(evs.skip(1), (room - 1) as nat) {
                    Some((entries, rest)) => Some((TagM::Compound(entries), rest)),
                    None => None,
                }
            },
            Shape::ListStart(_, _) => if evs[0].shape.blocks() || room == 0 {
                None
            } else {
                match items_at(evs.skip(1), (room - 1) as nat) {
                    Some((items, rest)) => Some((TagM::List(items), rest)),
                    None => None,
                }
            },
            Shape::ListEnd => None,
            Shape::CompoundEnd => None,
        }
    }
}

/// The named values from the head of `evs` up to the event that closes
/// their compound, and the events after that one.
pub open spec fn entries_at(evs: Seq<EventM>, room: nat) -> Option<(EntriesM, Seq<EventM>)>
    decreases evs.len(), 1nat,
{
    if evs.len() == 0 {
        None
    } else if evs[0].shape == Shape::CompoundEnd {
        Some((Seq::empty(), evs.skip(1)))
    } else {
        match (evs[0].name, value_at(evs, room)) {
            (Some(key), Some((value, rest))) => if rest.len() < evs.len() {
                match entries_at(rest, room) {
                    Some((more, after)) => Some((seq![(key, value)] + more, after)),
                    None => None,
                }
            } else {
                None
            },
            _ => None,
        }
    }
}

/// The values from the head of `evs` up to the event that closes their
/// list, and the events after that one.
pub open spec fn items_at(evs: Seq<EventM>, room: nat) -> Option<(Seq<TagM>, Seq<EventM>)>
    decreases evs.len(), 1nat,
{
    if evs.len() == 0 {
        None
    } else if evs[0].shape == Shape::ListEnd {
        Some((Seq::empty(), evs.skip(1)))
    } else {
        match value_at(evs, room) {
            Some((value, rest)) => if rest.len() < evs.len() {
                match items_at(rest, room) {
                    Some((more, after)) => Some((seq![value] + more, after)),
                    None => None,
                }
            } else {
                None
            },
            None => None,
        }
    }
}

/// A value takes at least one event.
pub proof fn lemma_value_shrinks(evs: Seq<EventM>, room: nat)
    ensures
        value_at(evs, room) matches Some((_, rest)) ==> rest.len() < evs.len(),
    decreases evs.len(), 0nat,
{
    if evs.len() > 0 {
        match evs[0].shape {
            Shape::CompoundStart => {
                if room > 0 {
                    lemma_entries_shrink(evs.skip(1), (room - 1) as nat);
                }
            },
            Shape::ListStart(_, _) => {
                if room > 0 {
                    lemma_items_shrink(evs.skip(1), (room - 1) as nat);
                }
            },
            _ => {},
        }
    }
}

/// The entries of a compound, with the event that closes it, take at least
/// one event.
pub proof fn lemma_entries_shrink(evs: Seq<EventM>, room: nat)
    ensures
        entries_at(evs, room) matches Some((_, rest)) ==> rest.len() < evs.len(),
    decreases evs.len(), 1nat,
{
    if evs.len() > 0 && evs[0].shape != Shape::CompoundEnd {
        lemma_value_shrinks(evs, room);
        if let Some((_, rest)) = value_at(evs, room) {
            if rest.len() < evs.len() {
                lemma_entries_shrink(rest, room);
            }
        }
    }
}

/// The items of a list, with the event that closes it, take at least one
/// event.
pub proof fn lemma_items_shrink(evs: Seq<EventM>, room: nat)
    ensures
        items_at(evs, room) matches Some((_, rest)) ==> rest.len() < evs.len(),
    decreases evs.len(), 1nat,
{
    if evs.len() > 0 && evs[0].shape != Shape::ListEnd {
        lemma_value_shrinks(evs, room);
        if let Some((_, rest)) = value_at(evs, room) {
            if rest.len() < evs.len() {
                lemma_items_shrink(rest, room);
            }
        }
    }
}

/// The document that a run of events spells out: the compound at its
/// head, nested no deeper than `MAX_DEPTH`. What follows the compound is
/// not looked at.
pub open spec fn document_at(evs: Seq<EventM>) -> Option<TagM> {
    match value_at(evs, MAX_DEPTH as nat) {
        Some((TagM::Compound(entries), _)) => Some(TagM::Compound(entries)),
        _ => None,
    }
}

} // verus!
