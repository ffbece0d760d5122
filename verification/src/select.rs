//! Reading the wanted parts of a document off its event stream. What a
//! projection does not name is walked over and never built.

use vstd::prelude::*;
use crate::cursor::advance;
use crate::cursor::events;
use crate::cursor::events_of;
use crate::cursor::head;
use crate::cursor::leaf;
use crate::cursor::left;
use crate::cursor::open;
use crate::cursor::Cursor;
use crate::cursor::EventM;
use crate::cursor::Shape;
use crate::error::DecodeError;
use crate::error::DecodeErrorM;
use crate::grammar::document_at;
use crate::grammar::entries_at;
use crate::grammar::items_at;
use crate::grammar::lemma_value_shrinks;
use crate::grammar::value_at;
use crate::grammar::MAX_DEPTH;
use crate::projection::entry_plan;
use crate::projection::find_plan;
use crate::projection::lemma_prune_entries_push;
use crate::projection::lemma_prune_entries_whole;
use crate::projection::lemma_prune_items_push;
use crate::projection::lemma_prune_items_whole;
use crate::projection::lemma_view_fields;
use crate::projection::prune;
use crate::projection::prune_entries;
use crate::projection::prune_items;
use crate::projection::Projection;
use crate::projection::ProjectionM;
use crate::tag::entries_view;
use crate::tag::items_view;
use crate::tag::lemma_view_compound;
use crate::tag::lemma_view_list;
use crate::tag::EntriesM;
use crate::tag::Leaf;
use crate::tag::LeafM;
use crate::tag::Tag;
use crate::tag::TagM;

verus! {

/// The document that these bytes hold: the compound that their events
/// spell out, if they do.
pub open spec fn document(bytes: Seq<u8>) -> Option<TagM> {
    document_at(events_of(bytes))
}

/// The entries read so far, put in front of what the rest of the compound
/// gives.
pub open spec fn with_entries(done: EntriesM, more: Option<(EntriesM, Seq<EventM>)>) -> Option<
    (EntriesM, Seq<EventM>),
> {
    match more {
        Some((tail, rest)) => Some((done + tail, rest)),
        None => None,
    }
}

/// The items read so far, put in front of what the rest of the list gives.
pub open spec fn with_items(done: Seq<TagM>, more: Option<(Seq<TagM>, Seq<EventM>)>) -> Option<
    (Seq<TagM>, Seq<EventM>),
> {
    match more {
        Some((tail, rest)) => Some((done + tail, rest)),
        None => None,
    }
}

/// Reads the value a cursor stands on, keeping what `p` names. The cursor
/// that comes back stands on the event after the value. `room` says how
/// many lists and compounds may still open inside one another.
pub(crate) fn walk<'a>(c: Cursor<'a>, p: &Projection, room: usize) -> (r: Result<
    (Tag, Option<Cursor<'a>>),
    DecodeError,
>)
    requires
        events(c).len() > 0,
    ensures
        match value_at(events(c), room as nat) {
            Some((t, rest)) => r matches Ok((tag, after)) && tag@ == prune(t, p@) && left(after)
                == rest,
            None => r matches Err(e) && e@ == DecodeErrorM::MalformedInput,
        },
        r matches Ok((_, Some(next))) ==> events(next).len() > 0,
    decreases events(c).len(), 0nat,
{
    let (_, shape) = head(&c);
    match shape {
        Shape::Leaf => {
            let tag = match p {
                Projection::Presence => Tag::Leaf(Leaf::Other),
                _ => Tag::Leaf(leaf(&c)),
            };
            let after = advance(c);
            assert(left(after) =~= events(c).skip(1));
            Ok((tag, after))
        },
        Shape::ListEnd => Err(DecodeError::MalformedInput),
        Shape::CompoundEnd => Err(DecodeError::MalformedInput),
        Shape::CompoundStart => if room == 0 {
            Err(DecodeError::MalformedInput)
        } else {
            match advance(c) {
                None => {
                    assert(events(c).skip(1).len() == 0);
                    Err(DecodeError::MalformedInput)
                },
                Some(inner) => match walk_entries(inner, p, room - 1) {
                    Err(e) => Err(e),
                    Ok((entries, after)) => {
                        proof {
                            lemma_view_compound(entries);
                            let es = entries_at(events(inner), (room - 1) as nat)->Some_0.0;
                            lemma_prune_entries_whole(es);
                        }
                        let tag = match p {
                            Projection::Presence => Tag::Leaf(Leaf::Other),
                            _ => Tag::Compound(entries),
                        };
                        Ok((tag, after))
                    },
                },
            }
        },
        Shape::ListStart(elem, len) => {
            if len < 0 || (elem == 0 && len != 0) || room == 0 {
                Err(DecodeError::MalformedInput)
            } else {
                match advance(c) {
                    None => {
                        assert(events(c).skip(1).len() == 0);
                        Err(DecodeError::MalformedInput)
                    },
                    Some(inner) => match walk_items(inner, p, room - 1) {
                        Err(e) => Err(e),
                        Ok((items, after)) => {
                            proof {
                                lemma_view_list(items);
                                let is = items_at(events(inner), (room - 1) as nat)->Some_0.0;
                                lemma_prune_items_whole(is);
                            }
                            let tag = match p {
                                Projection::Presence => Tag::Leaf(Leaf::Other),
                                _ => Tag::List(items),
                            };
                            Ok((tag, after))
                        },
                    },
                }
            }
        },
    }
}

/// Reads the entries of a compound from the event after its opening to the
/// event that closes it, keeping those that `p` names.
fn walk_entries<'a>(c: Cursor<'a>, p: &Projection, room: usize) -> (r: Result<
    (Vec<(String, Tag)>, Option<Cursor<'a>>),
    DecodeError,
>)
    requires
        events(c).len() > 0,
    ensures
        match entries_at(events(c), room as nat) {
            Some((es, rest)) => r matches Ok((kept, after)) && entries_view(kept@)
                == prune_entries(es, p@) && left(after) == rest,
            None => r matches Err(e) && e@ == DecodeErrorM::MalformedInput,
        },
        r matches Ok((_, Some(next))) ==> events(next).len() > 0,
    decreases events(c).len(), 1nat,
{
    let ghost start = events(c);
    let ghost mut done: EntriesM = Seq::empty();
    let mut kept: Vec<(String, Tag)> = Vec::new();
    let mut cur = c;
    let whole = Projection::Whole;
    let presence = Projection::Presence;
    proof {
        lemma_prune_entries_push(Seq::empty(), Seq::empty(), TagM::Leaf(LeafM::Other), p@);
        assert(entries_view(kept@) =~= EntriesM::empty());
        if let Some((tail, rest)) = entries_at(start, room as nat) {
            assert(done + tail =~= tail);
        }
    }
    loop
        invariant
            events(cur).len() > 0,
            events(cur).len() <= start.len(),
            start == events(c),
            entries_at(start, room as nat) == with_entries(
                done,
                entries_at(events(cur), room as nat),
            ),
            entries_view(kept@) == prune_entries(done, p@),
            whole@ == ProjectionM::Whole,
            presence@ == ProjectionM::Presence,
        decreases events(cur).len(),
    {
        let ghost here = events(cur);
        let (name, shape) = head(&cur);
        if shape == Shape::CompoundEnd {
            let after = advance(cur);
            assert(left(after) =~= here.skip(1));
            assert(done + EntriesM::empty() =~= done);
            return Ok((kept, after));
        }
        let key = match name {
            None => {
                return Err(DecodeError::MalformedInput);
            },
            Some(k) => k,
        };
        let sub: Option<&Projection> = match p {
            Projection::Whole => Some(&whole),
            Projection::Presence => None,
            Projection::Fields(fields) => {
                proof {
                    lemma_view_fields(*fields);
                }
                find_plan(fields, key)
            },
        };
        assert(match entry_plan(p@, key@) {
            Some(s) => sub matches Some(x) && x@ == s,
            None => sub is None,
        });
        let owned: Option<String> = match sub {
            Some(_) => Some(key.to_owned()),
            None => None,
        };
        let plan: &Projection = match sub {
            Some(x) => x,
            None => &presence,
        };
        proof {
            lemma_value_shrinks(here, room as nat);
        }
        let (tag, after) = match walk(cur, plan, room) {
            Err(e) => {
                return Err(e);
            },
            Ok(pair) => pair,
        };
        let ghost value = value_at(here, room as nat)->Some_0.0;
        let ghost rest = value_at(here, room as nat)->Some_0.1;
        let next = match after {
            None => {
                return Err(DecodeError::MalformedInput);
            },
            Some(next) => next,
        };
        proof {
            lemma_prune_entries_push(done, key@, value, p@);
            if let Some((tail, last)) = entries_at(rest, room as nat) {
                assert(done.push((key@, value)) + tail =~= done + (seq![(key@, value)] + tail));
            }
            done = done.push((key@, value));
        }
        match owned {
            Some(k) => {
                let ghost before = kept@;
                kept.push((k, tag));
                assert(entries_view(kept@) =~= entries_view(before).push((key@, tag@)));
            },
            None => {},
        }
        cur = next;
    }
}

/// Reads the items of a list from the event after its header to the event
/// that closes it, each by `p`. Where `p` keeps only a mark, no item is
/// built.
fn walk_items<'a>(c: Cursor<'a>, p: &Projection, room: usize) -> (r: Result<
    (Vec<Tag>, Option<Cursor<'a>>),
    DecodeError,
>)
    requires
        events(c).len() > 0,
    ensures
        match items_at(events(c), room as nat) {
            Some((items, rest)) => r matches Ok((kept, after)) && (p@ is Presence || items_view(
                kept@,
            ) == prune_items(items, p@)) && left(after) == rest,
            None => r matches Err(e) && e@ == DecodeErrorM::MalformedInput,
        },
        r matches Ok((_, Some(next))) ==> events(next).len() > 0,
    decreases events(c).len(), 1nat,
{
    let ghost start = events(c);
    let ghost mut done: Seq<TagM> = Seq::empty();
    let mut kept: Vec<Tag> = Vec::new();
    let mut cur = c;
    proof {
        lemma_prune_items_push(Seq::empty(), TagM::Leaf(LeafM::Other), p@);
        assert(items_view(kept@) =~= Seq::<TagM>::empty());
        if let Some((tail, rest)) = items_at(start, room as nat) {
            assert(done + tail =~= tail);
        }
    }
    loop
        invariant
            events(cur).len() > 0,
            events(cur).len() <= start.len(),
            start == events(c),
            items_at(start, room as nat) == with_items(done, items_at(events(cur), room as nat)),
            p@ is Presence || items_view(kept@) == prune_items(done, p@),
        decreases events(cur).len(),
    {
        let ghost here = events(cur);
        let (_, shape) = head(&cur);
        if shape == Shape::ListEnd {
            let after = advance(cur);
            assert(left(after) =~= here.skip(1));
            assert(done + Seq::<TagM>::empty() =~= done);
            return Ok((kept, after));
        }
        proof {
            lemma_value_shrinks(here, room as nat);
        }
        let (tag, after) = match walk(cur, p, room) {
            Err(e) => {
                return Err(e);
            },
            Ok(pair) => pair,
        };
        let ghost value = value_at(here, room as nat)->Some_0.0;
        let ghost rest = value_at(here, room as nat)->Some_0.1;
        let next = match after {
            None => {
                return Err(DecodeError::MalformedInput);
            },
            Some(next) => next,
        };
        proof {
            lemma_prune_items_push(done, value, p@);
            if let Some((tail, last)) = items_at(rest, room as nat) {
                assert(done.push(value) + tail =~= done + (seq![value] + tail));
            }
            done = done.push(value);
        }
        match p {
            Projection::Presence => {},
            _ => {
                let ghost before = kept@;
                kept.push(tag);
                assert(items_view(kept@) =~= items_view(before).push(tag@));
            },
        }
        cur = next;
    }
}

/// Reads a document and keeps of it what `p` names. Nothing else of the
/// document is built in memory.
///
/// The bytes must spell out one compound, nested no deeper than
/// `MAX_DEPTH`; what follows it is not read. Every failure is
/// `MalformedInput`.
pub fn select(bytes: &[u8], p: &Projection) -> (r: Result<Tag, DecodeError>)
    ensures
        match document(bytes@) {
            Some(doc) => r matches Ok(tag) && tag@ == prune(doc, p@),
            None => r matches Err(e) && e@ == DecodeErrorM::MalformedInput,
        },
{
    let c = match open(bytes) {
        None => {
            return Err(DecodeError::MalformedInput);
        },
        Some(c) => c,
    };
    let (_, shape) = head(&c);
    if shape != Shape::CompoundStart {
        return Err(DecodeError::MalformedInput);
    }
    match walk(c, p, MAX_DEPTH) {
        Err(e) => Err(e),
        Ok((tag, _)) => Ok(tag),
    }
}

} // verus!
