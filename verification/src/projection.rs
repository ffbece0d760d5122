//! Which parts of a document a caller wants, and what a document looks like
//! once the rest is taken away.

use vstd::prelude::*;
use crate::tag::lookup;
use crate::tag::EntriesM;
use crate::tag::LeafM;
use crate::tag::TagM;
use crate::text::text_eq;

verus! {

/// What to keep of a value.
#[derive(Debug, PartialEq, Eq)]
pub enum Projection {
    /// The whole value, with everything below it.
    Whole,
    /// Only a mark that a value stood there.
    Presence,
    /// Of a compound, the entries named here, each by its own projection,
    /// in document order; every other entry is dropped. Of a list, each
    /// item by this same projection. A leaf is kept as it is.
    Fields(Vec<(String, Projection)>),
}

/// A projection, as the contracts see it.
pub enum ProjectionM {
    Whole,
    Presence,
    Fields(Seq<(Seq<char>, ProjectionM)>),
}

/// The named projections of `Fields`, as the contracts see them.
pub type FieldsM = Seq<(Seq<char>, ProjectionM)>;

impl View for Projection {
    type V = ProjectionM;

    open spec fn view(&self) -> ProjectionM {
        projection_view(*self)
    }
}

/// What a projection stands for.
pub open spec fn projection_view(p: Projection) -> ProjectionM
    decreases p, 0nat,
{
    match p {
        Projection::Whole => ProjectionM::Whole,
        Projection::Presence => ProjectionM::Presence,
        Projection::Fields(fields) => ProjectionM::Fields(
            fields_view_to(fields, fields.len() as nat),
        ),
    }
}

/// What the first `n` named projections stand for.
pub open spec fn fields_view_to(fields: Vec<(String, Projection)>, n: nat) -> FieldsM
    decreases fields, n,
{
    if n == 0 || n > fields.len() {
        Seq::empty()
    } else {
        fields_view_to(fields, (n - 1) as nat).push(
            (fields[n - 1].0@, projection_view(fields[n - 1].1)),
        )
    }
}

/// What a sequence of named projections stands for.
pub open spec fn fields_view(fields: Seq<(String, Projection)>) -> FieldsM {
    Seq::new(fields.len(), |i: int| (fields[i].0@, fields[i].1@))
}

proof fn lemma_fields_view_to(fields: Vec<(String, Projection)>, n: nat)
    requires
        n <= fields.len(),
    ensures
        fields_view_to(fields, n) == fields_view(fields@.take(n as int)),
    decreases n,
{
    if n > 0 {
        lemma_fields_view_to(fields, (n - 1) as nat);
        assert(fields@.take(n as int - 1) =~= fields@.take(n as int).take(n as int - 1));
    }
    assert(fields_view_to(fields, n) =~= fields_view(fields@.take(n as int)));
}

/// `Fields` stands for the named projections that its vector holds.
pub proof fn lemma_view_fields(fields: Vec<(String, Projection)>)
    ensures
        Projection::Fields(fields)@ == ProjectionM::Fields(fields_view(fields@)),
{
    lemma_fields_view_to(fields, fields.len() as nat);
    assert(fields@.take(fields.len() as int) =~= fields@);
}

/// The projection that `fields` gives for `key`: that of the first field of
/// that name.
pub open spec fn plan_for(fields: FieldsM, key: Seq<char>) -> Option<ProjectionM>
    decreases fields.len(),
{
    if fields.len() == 0 {
        None
    } else if fields[0].0 == key {
        Some(fields[0].1)
    } else {
        plan_for(fields.skip(1), key)
    }
}

/// What to keep of the value under `key` in a compound that is itself kept
/// by `p`; `None` where the entry is dropped.
pub open spec fn entry_plan(p: ProjectionM, key: Seq<char>) -> Option<ProjectionM> {
    match p {
        ProjectionM::Whole => Some(ProjectionM::Whole),
        ProjectionM::Presence => None,
        ProjectionM::Fields(fields) => plan_for(fields, key),
    }
}

/// What is left of a value once only what `p` names is kept.
pub open spec fn prune(t: TagM, p: ProjectionM) -> TagM
    decreases t, 0nat,
{
    match p {
        ProjectionM::Whole => t,
        ProjectionM::Presence => TagM::Leaf(LeafM::Other),
        ProjectionM::Fields(_) => match t {
            TagM::Leaf(_) => t,
            TagM::List(items) => TagM::List(prune_items_to(items, items.len(), p)),
            TagM::Compound(entries) => TagM::Compound(
                prune_entries_to(entries, entries.len(), p),
            ),
        },
    }
}

/// What is left of the first `n` items of a list.
pub open spec fn prune_items_to(items: Seq<TagM>, n: nat, p: ProjectionM) -> Seq<TagM>
    decreases items, n,
{
    if n == 0 || n > items.len() {
        Seq::empty()
    } else {
        prune_items_to(items, (n - 1) as nat, p).push(prune(items[n - 1], p))
    }
}

/// What is left of the first `n` entries of a compound: those that `p`
/// keeps, in their order.
pub open spec fn prune_entries_to(entries: EntriesM, n: nat, p: ProjectionM) -> EntriesM
    decreases entries, n,
{
    if n == 0 || n > entries.len() {
        Seq::empty()
    } else {
        let before = prune_entries_to(entries, (n - 1) as nat, p);
        match entry_plan(p, entries[n - 1].0) {
            Some(sub) => before.push((entries[n - 1].0, prune(entries[n - 1].1, sub))),
            None => before,
        }
    }
}

/// What is left of the items of a list.
pub open spec fn prune_items(items: Seq<TagM>, p: ProjectionM) -> Seq<TagM> {
    prune_items_to(items, items.len(), p)
}

/// What is left of the entries of a compound.
pub open spec fn prune_entries(entries: EntriesM, p: ProjectionM) -> EntriesM {
    prune_entries_to(entries, entries.len(), p)
}

proof fn lemma_prune_items_prefix(items: Seq<TagM>, n: nat, p: ProjectionM)
    requires
        n <= items.len(),
    ensures
        prune_items_to(items, n, p) == prune_items(items.take(n as int), p),
    decreases n,
{
    if n > 0 {
        lemma_prune_items_prefix(items, (n - 1) as nat, p);
        lemma_prune_items_prefix(items.take(n as int), (n - 1) as nat, p);
        assert(items.take(n as int).take(n as int - 1) =~= items.take(n as int - 1));
    }
}

proof fn lemma_prune_entries_prefix(entries: EntriesM, n: nat, p: ProjectionM)
    requires
        n <= entries.len(),
    ensures
        prune_entries_to(entries, n, p) == prune_entries(entries.take(n as int), p),
    decreases n,
{
    if n > 0 {
        lemma_prune_entries_prefix(entries, (n - 1) as nat, p);
        lemma_prune_entries_prefix(entries.take(n as int), (n - 1) as nat, p);
        assert(entries.take(n as int).take(n as int - 1) =~= entries.take(n as int - 1));
    }
}

/// Pruning a list that grew by one item prunes that item and leaves the
/// others as they were.
pub proof fn lemma_prune_items_push(items: Seq<TagM>, item: TagM, p: ProjectionM)
    ensures
        prune_items(items.push(item), p) == prune_items(items, p).push(prune(item, p)),
        prune_items(Seq::empty(), p) == Seq::<TagM>::empty(),
{
    let grown = items.push(item);
    lemma_prune_items_prefix(grown, items.len(), p);
    assert(grown.take(items.len() as int) =~= items);
}

/// Pruning a compound that grew by one entry keeps or drops that entry and
/// leaves the others as they were.
pub proof fn lemma_prune_entries_push(
    entries: EntriesM,
    key: Seq<char>,
    value: TagM,
    p: ProjectionM,
)
    ensures
        prune_entries(entries.push((key, value)), p) == match entry_plan(p, key) {
            Some(sub) => prune_entries(entries, p).push((key, prune(value, sub))),
            None => prune_entries(entries, p),
        },
        prune_entries(Seq::empty(), p) == EntriesM::empty(),
{
    let grown = entries.push((key, value));
    lemma_prune_entries_prefix(grown, entries.len(), p);
    assert(grown.take(entries.len() as int) =~= entries);
}

/// A projection that keeps the whole of every entry keeps the compound as
/// it is.
pub proof fn lemma_prune_entries_whole(entries: EntriesM)
    ensures
        prune_entries(entries, ProjectionM::Whole) == entries,
    decreases entries.len(),
{
    if entries.len() > 0 {
        let front = entries.drop_last();
        lemma_prune_entries_whole(front);
        assert(front.push(entries.last()) =~= entries);
        lemma_prune_entries_push(front, entries.last().0, entries.last().1, ProjectionM::Whole);
    }
}

/// A projection that keeps the whole of every item keeps the list as it is.
pub proof fn lemma_prune_items_whole(items: Seq<TagM>)
    ensures
        prune_items(items, ProjectionM::Whole) == items,
    decreases items.len(),
{
    if items.len() > 0 {
        let front = items.drop_last();
        lemma_prune_items_whole(front);
        assert(front.push(items.last()) =~= items);
        lemma_prune_items_push(front, items.last(), ProjectionM::Whole);
    }
}

/// A field whose name no earlier field bears gives its own projection.
pub proof fn lemma_plan_for_at(fields: FieldsM, i: int)
    requires
        0 <= i < fields.len(),
        forall|j: int| 0 <= j < i ==> (#[trigger] fields[j]).0 != fields[i].0,
    ensures
        plan_for(fields, fields[i].0) == Some(fields[i].1),
    decreases i,
{
    if i > 0 {
        assert(fields[0].0 != fields[i].0);
        let rest = fields.skip(1);
        assert(rest[i - 1] == fields[i]);
        assert forall|j: int| 0 <= j < i - 1 implies (#[trigger] rest[j]).0 != rest[i - 1].0 by {
            assert(rest[j] == fields[j + 1]);
        }
        lemma_plan_for_at(rest, i - 1);
    }
}

/// A name that no field bears gives no projection.
pub proof fn lemma_plan_for_none(fields: FieldsM, key: Seq<char>)
    requires
        forall|j: int| 0 <= j < fields.len() ==> (#[trigger] fields[j]).0 != key,
    ensures
        plan_for(fields, key) is None,
    decreases fields.len(),
{
    if fields.len() > 0 {
        assert(fields[0].0 != key);
        let rest = fields.skip(1);
        assert forall|j: int| 0 <= j < rest.len() implies (#[trigger] rest[j]).0 != key by {
            assert(rest[j] == fields[j + 1]);
        }
        lemma_plan_for_none(rest, key);
    }
}

/// Pruning a list prunes each item where it stands.
pub proof fn lemma_prune_items_index(items: Seq<TagM>, p: ProjectionM)
    ensures
        prune_items(items, p).len() == items.len(),
        forall|i: int| 0 <= i < items.len() ==> (#[trigger] prune_items(items, p)[i]) == prune(items[i], p),
    decreases items.len(),
{
    if items.len() > 0 {
        let front = items.drop_last();
        lemma_prune_items_index(front, p);
        assert(front.push(items.last()) =~= items);
        lemma_prune_items_push(front, items.last(), p);
    } else {
        lemma_prune_items_push(items, TagM::Leaf(LeafM::Other), p);
        assert(items =~= Seq::empty());
    }
}

/// What is left of one entry: the entry with its value pruned, or nothing.
pub open spec fn prune_entry(entry: (Seq<char>, TagM), p: ProjectionM) -> EntriesM {
    match entry_plan(p, entry.0) {
        Some(sub) => seq![(entry.0, prune(entry.1, sub))],
        None => Seq::empty(),
    }
}

/// Pruning a compound prunes its first entry and then the others.
pub proof fn lemma_prune_entries_front(entries: EntriesM, p: ProjectionM)
    requires
        entries.len() > 0,
    ensures
        prune_entries(entries, p) == prune_entry(entries[0], p) + prune_entries(
            entries.skip(1),
            p,
        ),
    decreases entries.len(),
{
    let front = entries.drop_last();
    let last = entries.last();
    assert(front.push(last) =~= entries);
    lemma_prune_entries_push(front, last.0, last.1, p);
    if entries.len() == 1 {
        assert(front =~= Seq::empty());
        assert(entries.skip(1) =~= Seq::empty());
        assert(prune_entries(entries, p) =~= prune_entry(entries[0], p) + prune_entries(
            entries.skip(1),
            p,
        ));
    } else {
        lemma_prune_entries_front(front, p);
        assert(front.skip(1).push(last) =~= entries.skip(1));
        lemma_prune_entries_push(front.skip(1), last.0, last.1, p);
        assert(prune_entries(entries, p) =~= prune_entry(entries[0], p) + prune_entries(
            entries.skip(1),
            p,
        ));
    }
}

/// Looking a key up in a pruned compound finds the pruned value of the
/// first entry of that name, or nothing where the key is not kept.
pub proof fn lemma_lookup_pruned(entries: EntriesM, p: ProjectionM, key: Seq<char>)
    ensures
        lookup(prune_entries(entries, p), key) == match (entry_plan(p, key), lookup(entries, key)) {
            (Some(sub), Some(value)) => Some(prune(value, sub)),
            _ => None,
        },
    decreases entries.len(),
{
    if entries.len() == 0 {
        lemma_prune_entries_push(entries, key, TagM::Leaf(LeafM::Other), p);
        assert(entries =~= Seq::empty());
    } else {
        lemma_prune_entries_front(entries, p);
        lemma_lookup_pruned(entries.skip(1), p, key);
        let first = prune_entry(entries[0], p);
        let others = prune_entries(entries.skip(1), p);
        if first.len() == 0 {
            assert(first + others =~= others);
        } else {
            assert((first + others)[0] == first[0]);
            assert((first + others).skip(1) =~= others);
        }
    }
}

/// The projection that a list of fields gives for a key: that of the first
/// field of that name.
pub fn find_plan<'a>(fields: &'a Vec<(String, Projection)>, key: &str) -> (r: Option<
    &'a Projection,
>)
    ensures
        match plan_for(fields_view(fields@), key@) {
            Some(sub) => r matches Some(x) && x@ == sub,
            None => r is None,
        },
{
    let ghost all = fields_view(fields@);
    let mut i: usize = 0;
    assert(all.skip(0) =~= all);
    while i < fields.len()
        invariant
            i <= fields.len(),
            all == fields_view(fields@),
            plan_for(all, key@) == plan_for(all.skip(i as int), key@),
        decreases fields.len() - i,
    {
        assert(all.skip(i as int)[0] == all[i as int]);
        assert(all.skip(i as int).skip(1) =~= all.skip(i + 1));
        if text_eq(fields[i].0.as_str(), key) {
            return Some(&fields[i].1);
        }
        i = i + 1;
    }
    None
}

impl Projection {
    /// The projection that keeps of a compound the entries named in
    /// `fields`.
    pub fn of(fields: Vec<(String, Projection)>) -> (p: Projection)
        ensures
            p@ == ProjectionM::Fields(fields_view(fields@)),
    {
        proof {
            lemma_view_fields(fields);
        }
        Projection::Fields(fields)
    }
}

/// Adds a named projection after those that `fields` holds.
pub fn add_field(fields: &mut Vec<(String, Projection)>, name: &str, p: Projection)
    ensures
        fields_view(final(fields)@) == fields_view(old(fields)@).push((name@, p@)),
{
    fields.push((name.to_owned(), p));
    assert(fields_view(fields@) =~= fields_view(old(fields)@).push((name@, p@)));
}

} // verus!
