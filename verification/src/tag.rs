//! The tree of tagged values that a document holds, and how one looks a key
//! up in a compound.

use vstd::prelude::*;
use crate::error::Kind;
use crate::text::text_eq;

verus! {

/// The payload of a leaf, as the contracts see it.
pub enum LeafM {
    Byte(i8),
    Short(i16),
    Int(i32),
    Long(i64),
    Text(Seq<char>),
    Bytes(Seq<i8>),
    /// A value whose payload is not held.
    Other,
}

/// A tagged value, as the contracts see it. A compound is a sequence of
/// named values in document order; names may repeat.
pub enum TagM {
    Leaf(LeafM),
    List(Seq<TagM>),
    Compound(Seq<(Seq<char>, TagM)>),
}

/// The entries of a compound, as the contracts see them.
pub type EntriesM = Seq<(Seq<char>, TagM)>;

/// A value that is neither a list nor a compound.
#[derive(Debug, PartialEq, Eq, Clone)]
pub enum Leaf {
    Byte(i8),
    Short(i16),
    Int(i32),
    Long(i64),
    Text(String),
    Bytes(Vec<i8>),
    /// A value whose payload is not held: a float, a double, an array of
    /// ints or longs, or a value that was only marked as present.
    Other,
}

impl View for Leaf {
    type V = LeafM;

    open spec fn view(&self) -> LeafM {
        match self {
            Leaf::Byte(v) => LeafM::Byte(*v),
            Leaf::Short(v) => LeafM::Short(*v),
            Leaf::Int(v) => LeafM::Int(*v),
            Leaf::Long(v) => LeafM::Long(*v),
            Leaf::Text(v) => LeafM::Text(v@),
            Leaf::Bytes(v) => LeafM::Bytes(v@),
            Leaf::Other => LeafM::Other,
        }
    }
}

/// A tagged value. The entries of a compound keep document order.
#[derive(Debug, PartialEq, Eq)]
pub enum Tag {
    Leaf(Leaf),
    List(Vec<Tag>),
    Compound(Vec<(String, Tag)>),
}

impl View for Tag {
    type V = TagM;

    open spec fn view(&self) -> TagM {
        tag_view(*self)
    }
}

/// What a tag stands for: its leaf, or what its items or entries stand for,
/// in their order.
pub open spec fn tag_view(t: Tag) -> TagM
    decreases t, 0nat,
{
    match t {
        Tag::Leaf(l) => TagM::Leaf(l@),
        Tag::List(items) => TagM::List(items_view_to(items, items.len() as nat)),
        Tag::Compound(entries) => TagM::Compound(entries_view_to(entries, entries.len() as nat)),
    }
}

/// What the first `n` items of a list stand for.
pub open spec fn items_view_to(items: Vec<Tag>, n: nat) -> Seq<TagM>
    decreases items, n,
{
    if n == 0 || n > items.len() {
        Seq::empty()
    } else {
        items_view_to(items, (n - 1) as nat).push(tag_view(items[n - 1]))
    }
}

/// What the first `n` entries of a compound stand for.
pub open spec fn entries_view_to(entries: Vec<(String, Tag)>, n: nat) -> EntriesM
    decreases entries, n,
{
    if n == 0 || n > entries.len() {
        Seq::empty()
    } else {
        entries_view_to(entries, (n - 1) as nat).push(
            (entries[n - 1].0@, tag_view(entries[n - 1].1)),
        )
    }
}

/// What a sequence of tags stands for.
pub open spec fn items_view(items: Seq<Tag>) -> Seq<TagM> {
    Seq::new(items.len(), |i: int| items[i]@)
}

/// What a sequence of named tags stands for.
pub open spec fn entries_view(entries: Seq<(String, Tag)>) -> EntriesM {
    Seq::new(entries.len(), |i: int| (entries[i].0@, entries[i].1@))
}

proof fn lemma_items_view_to(items: Vec<Tag>, n: nat)
    requires
        n <= items.len(),
    ensures
        items_view_to(items, n) == items_view(items@.take(n as int)),
    decreases n,
{
    if n > 0 {
        lemma_items_view_to(items, (n - 1) as nat);
        assert(items@.take(n as int - 1) =~= items@.take(n as int).take(n as int - 1));
    }
    assert(items_view_to(items, n) =~= items_view(items@.take(n as int)));
}

proof fn lemma_entries_view_to(entries: Vec<(String, Tag)>, n: nat)
    requires
        n <= entries.len(),
    ensures
        entries_view_to(entries, n) == entries_view(entries@.take(n as int)),
    decreases n,
{
    if n > 0 {
        lemma_entries_view_to(entries, (n - 1) as nat);
        assert(entries@.take(n as int - 1) =~= entries@.take(n as int).take(n as int - 1));
    }
    assert(entries_view_to(entries, n) =~= entries_view(entries@.take(n as int)));
}

/// A list stands for the list of what its items stand for.
pub proof fn lemma_view_list(items: Vec<Tag>)
    ensures
        Tag::List(items)@ == TagM::List(items_view(items@)),
{
    lemma_items_view_to(items, items.len() as nat);
    assert(items@.take(items.len() as int) =~= items@);
}

/// A compound stands for the entries that its named tags stand for.
pub proof fn lemma_view_compound(entries: Vec<(String, Tag)>)
    ensures
        Tag::Compound(entries)@ == TagM::Compound(entries_view(entries@)),
{
    lemma_entries_view_to(entries, entries.len() as nat);
    assert(entries@.take(entries.len() as int) =~= entries@);
}

impl LeafM {
    /// The kind of this leaf.
    pub open spec fn kind(self) -> Kind {
        match self {
            LeafM::Byte(_) => Kind::Byte,
            LeafM::Short(_) => Kind::Short,
            LeafM::Int(_) => Kind::Int,
            LeafM::Long(_) => Kind::Long,
            LeafM::Text(_) => Kind::Text,
            LeafM::Bytes(_) => Kind::Bytes,
            LeafM::Other => Kind::Other,
        }
    }
}

impl TagM {
    /// The kind of this value.
    pub open spec fn kind(self) -> Kind {
        match self {
            TagM::Leaf(l) => l.kind(),
            TagM::List(_) => Kind::List,
            TagM::Compound(_) => Kind::Compound,
        }
    }

    /// The integer this value holds, whatever its width.
    pub open spec fn integer(self) -> Option<int> {
        match self {
            TagM::Leaf(LeafM::Byte(v)) => Some(v as int),
            TagM::Leaf(LeafM::Short(v)) => Some(v as int),
            TagM::Leaf(LeafM::Int(v)) => Some(v as int),
            TagM::Leaf(LeafM::Long(v)) => Some(v as int),
            _ => None,
        }
    }
}

/// The value under the first entry named `key`, if there is one: where a
/// name repeats, the first occurrence wins.
pub open spec fn lookup(entries: EntriesM, key: Seq<char>) -> Option<TagM>
    decreases entries.len(),
{
    if entries.len() == 0 {
        None
    } else if entries[0].0 == key {
        Some(entries[0].1)
    } else {
        lookup(entries.skip(1), key)
    }
}

/// A key that was looked up and found sits at some position.
pub proof fn lemma_lookup_found(entries: EntriesM, key: Seq<char>)
    ensures
        lookup(entries, key) matches Some(t) ==> exists|i: int|
            0 <= i < entries.len() && #[trigger] entries[i] == (key, t),
        lookup(entries, key) is None <==> forall|i: int|
            0 <= i < entries.len() ==> (#[trigger] entries[i]).0 != key,
    decreases entries.len(),
{
    if entries.len() == 0 {
    } else if entries[0].0 == key {
        assert(entries[0] == (key, entries[0].1));
    } else {
        let rest = entries.skip(1);
        lemma_lookup_found(rest, key);
        if let Some(t) = lookup(rest, key) {
            let i = choose|i: int| 0 <= i < rest.len() && #[trigger] rest[i] == (key, t);
            assert(entries[i + 1] == rest[i]);
        }
        if lookup(rest, key) is None {
            assert forall|i: int| 0 <= i < entries.len() implies (#[trigger] entries[i]).0
                != key by {
                if i > 0 {
                    assert(entries[i] == rest[i - 1]);
                }
            }
        } else {
            let t = lookup(rest, key)->Some_0;
            let i = choose|i: int| 0 <= i < rest.len() && #[trigger] rest[i] == (key, t);
            assert(entries[i + 1].0 == key);
        }
    }
}

/// Taking away an entry of another name leaves what a key is found with as
/// it was.
pub proof fn lookup_ignores_other_keys(entries: EntriesM, i: int, key: Seq<char>)
    requires
        0 <= i < entries.len(),
        entries[i].0 != key,
    ensures
        lookup(entries.remove(i), key) == lookup(entries, key),
    decreases entries.len(),
{
    if i == 0 {
        assert(entries.remove(0) =~= entries.skip(1));
    } else {
        assert(entries.remove(i)[0] == entries[0]);
        assert(entries.remove(i).skip(1) =~= entries.skip(1).remove(i - 1));
        if entries[0].0 != key {
            lookup_ignores_other_keys(entries.skip(1), i - 1, key);
        }
    }
}

impl Tag {
    /// The kind of this value.
    pub fn kind(&self) -> (k: Kind)
        ensures
            k == self@.kind(),
    {
        match self {
            Tag::Leaf(Leaf::Byte(_)) => Kind::Byte,
            Tag::Leaf(Leaf::Short(_)) => Kind::Short,
            Tag::Leaf(Leaf::Int(_)) => Kind::Int,
            Tag::Leaf(Leaf::Long(_)) => Kind::Long,
            Tag::Leaf(Leaf::Text(_)) => Kind::Text,
            Tag::Leaf(Leaf::Bytes(_)) => Kind::Bytes,
            Tag::Leaf(Leaf::Other) => Kind::Other,
            Tag::List(_) => Kind::List,
            Tag::Compound(_) => Kind::Compound,
        }
    }

    /// The integer this value holds, widened to 64 bits.
    pub fn as_i64(&self) -> (r: Option<i64>)
        ensures
            match self@.integer() {
                Some(v) => r == Some(v as i64) && v == r->Some_0 as int,
                None => r is None,
            },
    {
        match self {
            Tag::Leaf(Leaf::Byte(v)) => Some(*v as i64),
            Tag::Leaf(Leaf::Short(v)) => Some(*v as i64),
            Tag::Leaf(Leaf::Int(v)) => Some(*v as i64),
            Tag::Leaf(Leaf::Long(v)) => Some(*v),
            _ => None,
        }
    }

    /// The text this value holds.
    pub fn as_text(&self) -> (r: Option<&String>)
        ensures
            match self@ {
                TagM::Leaf(LeafM::Text(s)) => r matches Some(t) && t@ == s,
                _ => r is None,
            },
    {
        match self {
            Tag::Leaf(Leaf::Text(s)) => Some(s),
            _ => None,
        }
    }

    /// The bytes this value holds.
    pub fn as_bytes(&self) -> (r: Option<&Vec<i8>>)
        ensures
            match self@ {
                TagM::Leaf(LeafM::Bytes(s)) => r matches Some(b) && b@ == s,
                _ => r is None,
            },
    {
        match self {
            Tag::Leaf(Leaf::Bytes(b)) => Some(b),
            _ => None,
        }
    }

    /// The items of this value, where it is a list.
    pub fn as_list(&self) -> (r: Option<&Vec<Tag>>)
        ensures
            match self@ {
                TagM::List(items) => r matches Some(v) && items_view(v@) == items,
                _ => r is None,
            },
    {
        match self {
            Tag::List(items) => {
                proof {
                    lemma_view_list(*items);
                }
                Some(items)
            },
            _ => None,
        }
    }

    /// The entries of this value, where it is a compound.
    pub fn as_compound(&self) -> (r: Option<&Vec<(String, Tag)>>)
        ensures
            match self@ {
                TagM::Compound(entries) => r matches Some(v) && entries_view(v@) == entries,
                _ => r is None,
            },
    {
        match self {
            Tag::Compound(entries) => {
                proof {
                    lemma_view_compound(*entries);
                }
                Some(entries)
            },
            _ => None,
        }
    }
}

/// Looks `key` up among the entries of a compound. The first entry of that
/// name is the one returned.
pub fn find<'a>(entries: &'a Vec<(String, Tag)>, key: &str) -> (r: Option<&'a Tag>)
    ensures
        match lookup(entries_view(entries@), key@) {
            Some(t) => r matches Some(x) && x@ == t,
            None => r is None,
        },
{
    let ghost all = entries_view(entries@);
    let mut i: usize = 0;
    assert(all.skip(0) =~= all);
    while i < entries.len()
        invariant
            i <= entries.len(),
            all == entries_view(entries@),
            lookup(all, key@) == lookup(all.skip(i as int), key@),
        decreases entries.len() - i,
    {
        assert(all.skip(i as int)[0] == all[i as int]);
        assert(all.skip(i as int).skip(1) =~= all.skip(i + 1));
        if text_eq(entries[i].0.as_str(), key) {
            return Some(&entries[i].1);
        }
        i = i + 1;
    }
    None
}

} // verus!
