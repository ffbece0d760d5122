//! The filled maps a player carries: every item of the inventory and of the
//! ender chest is looked at, and the number of each filled map is kept, in
//! the order the items stand in the document.

use vstd::prelude::*;
use crate::error::DecodeError;
use crate::error::DecodeErrorM;
use crate::error::Kind;
use crate::projection::add_field;
use crate::projection::entry_plan;
use crate::projection::fields_view;
use crate::projection::lemma_lookup_pruned;
use crate::projection::lemma_plan_for_at;
use crate::projection::lemma_plan_for_none;
use crate::projection::lemma_prune_entries_front;
use crate::projection::lemma_prune_entries_push;
use crate::projection::lemma_prune_items_index;
use crate::projection::prune;
use crate::projection::prune_entries;
use crate::projection::prune_entry;
use crate::projection::prune_items;
use crate::projection::Projection;
use crate::projection::ProjectionM;
use crate::select::document;
use crate::select::select;
use crate::tag::entries_view;
use crate::tag::find;
use crate::tag::items_view;
use crate::tag::lookup;
use crate::tag::lookup_ignores_other_keys;
use crate::tag::EntriesM;
use crate::tag::LeafM;
use crate::tag::Tag;
use crate::tag::TagM;
use crate::text::text_eq;

verus! {

/// What one item record says about filled maps: the number of the map it
/// is, or nothing where it is some other item.
#[derive(Debug, PartialEq, Eq, Clone, Copy)]
pub struct ItemStructure(pub Option<i64>);

/// The numbers of the filled maps a player carries, in document order, with
/// repeats kept.
#[derive(Debug, PartialEq, Eq)]
pub struct PlayerMapIds(pub Vec<i64>);

impl View for PlayerMapIds {
    type V = Seq<i64>;

    open spec fn view(&self) -> Seq<i64> {
        self.0@
    }
}

/// The value of the key `id` that marks an item as a filled map.
pub open spec fn filled_map() -> Seq<char> {
    "minecraft:filled_map"@
}

/// Whether a top-level key names a container of item records.
pub open spec fn is_container(key: Seq<char>) -> bool {
    key == "Inventory"@ || key == "EnderItems"@
}

/// The map number of an item record: the integer `map` inside the compound
/// `tag`. An integer of any width is taken.
pub open spec fn map_number(entries: EntriesM) -> Result<i64, DecodeErrorM> {
    match lookup(entries, "tag"@) {
        None => Err(DecodeErrorM::MissingField("tag"@)),
        Some(TagM::Compound(inner)) => match lookup(inner, "map"@) {
            None => Err(DecodeErrorM::MissingField("map"@)),
            Some(m) => match m.integer() {
                Some(v) => Ok(v as i64),
                None => Err(DecodeErrorM::TypeMismatch(Kind::Long, m.kind())),
            },
        },
        Some(other) => Err(DecodeErrorM::TypeMismatch(Kind::Compound, other.kind())),
    }
}

/// Whether an item record is a filled map. A record without `id` is none;
/// an `id` that is no text is an error.
pub open spec fn is_filled_map(entries: EntriesM) -> Result<bool, DecodeErrorM> {
    match lookup(entries, "id"@) {
        None => Ok(false),
        Some(TagM::Leaf(LeafM::Text(s))) => Ok(s == filled_map()),
        Some(other) => Err(DecodeErrorM::TypeMismatch(Kind::Text, other.kind())),
    }
}

/// What an item record gives when `id` is settled first: the payload under
/// `tag` is looked at only where the item is a filled map.
pub open spec fn item_id(entries: EntriesM) -> Result<Option<i64>, DecodeErrorM> {
    match is_filled_map(entries) {
        Err(e) => Err(e),
        Ok(false) => Ok(None),
        Ok(true) => match map_number(entries) {
            Err(e) => Err(e),
            Ok(v) => Ok(Some(v)),
        },
    }
}

/// What an item record gives when the whole record is decoded first and
/// `id` is tested afterwards: a payload under `tag` has to be well-formed
/// whatever the item is.
pub open spec fn item_id_eager(entries: EntriesM) -> Result<Option<i64>, DecodeErrorM> {
    match is_filled_map(entries) {
        Err(e) => Err(e),
        Ok(wanted) => if lookup(entries, "tag"@) is None {
            if wanted {
                Err(DecodeErrorM::MissingField("tag"@))
            } else {
                Ok(None)
            }
        } else {
            match map_number(entries) {
                Err(e) => Err(e),
                Ok(v) => if wanted {
                    Ok(Some(v))
                } else {
                    Ok(None)
                },
            }
        },
    }
}

/// What a value gives that stands where an item record is expected.
pub open spec fn item_of(t: TagM) -> Result<Option<i64>, DecodeErrorM> {
    match t {
        TagM::Compound(entries) => item_id(entries),
        _ => Err(DecodeErrorM::TypeMismatch(Kind::Compound, t.kind())),
    }
}

/// As `item_of`, with the whole record decoded first.
pub open spec fn item_of_eager(t: TagM) -> Result<Option<i64>, DecodeErrorM> {
    match t {
        TagM::Compound(entries) => item_id_eager(entries),
        _ => Err(DecodeErrorM::TypeMismatch(Kind::Compound, t.kind())),
    }
}

/// The numbers found so far, put in front of what the rest gives.
pub open spec fn then_ids(found: Seq<i64>, more: Result<Seq<i64>, DecodeErrorM>) -> Result<
    Seq<i64>,
    DecodeErrorM,
> {
    match more {
        Ok(rest) => Ok(found + rest),
        Err(e) => Err(e),
    }
}

/// The numbers that one item gives: one or none.
pub open spec fn ids_of_item(t: TagM) -> Result<Seq<i64>, DecodeErrorM> {
    match item_of(t) {
        Err(e) => Err(e),
        Ok(Some(v)) => Ok(seq![v]),
        Ok(None) => Ok(Seq::empty()),
    }
}

/// The map numbers of a run of item records, in their order. The first
/// record that fails decides the error.
pub open spec fn item_ids(items: Seq<TagM>) -> Result<Seq<i64>, DecodeErrorM>
    decreases items.len(),
{
    if items.len() == 0 {
        Ok(Seq::empty())
    } else {
        match ids_of_item(items[0]) {
            Err(e) => Err(e),
            Ok(first) => then_ids(first, item_ids(items.skip(1))),
        }
    }
}

/// The map numbers of a container: it has to be a list of item records.
pub open spec fn container_ids(t: TagM) -> Result<Seq<i64>, DecodeErrorM> {
    match t {
        TagM::List(items) => item_ids(items),
        _ => Err(DecodeErrorM::TypeMismatch(Kind::List, t.kind())),
    }
}

/// The numbers that one top-level entry gives: those of its items where it
/// is a container, none otherwise.
pub open spec fn ids_of_entry(entry: (Seq<char>, TagM)) -> Result<Seq<i64>, DecodeErrorM> {
    if is_container(entry.0) {
        container_ids(entry.1)
    } else {
        Ok(Seq::empty())
    }
}

/// The map numbers of a player: those of each container in the order the
/// containers stand in the document, and within a container in the order
/// of its items. A container key that repeats is read each time. An entry
/// that is no container adds nothing, and a document without containers
/// gives no numbers.
pub open spec fn player_ids(entries: EntriesM) -> Result<Seq<i64>, DecodeErrorM>
    decreases entries.len(),
{
    if entries.len() == 0 {
        Ok(Seq::empty())
    } else {
        match ids_of_entry(entries[0]) {
            Err(e) => Err(e),
            Ok(first) => then_ids(first, player_ids(entries.skip(1))),
        }
    }
}

/// The map numbers of a player document.
pub open spec fn player_of(t: TagM) -> Result<Seq<i64>, DecodeErrorM> {
    match t {
        TagM::Compound(entries) => player_ids(entries),
        _ => Err(DecodeErrorM::TypeMismatch(Kind::Compound, t.kind())),
    }
}

/// What is kept of an item record: `id`, and of `tag` only `map`.
pub open spec fn item_schema() -> ProjectionM {
    ProjectionM::Fields(
        seq![
            ("id"@, ProjectionM::Whole),
            ("tag"@, ProjectionM::Fields(seq![("map"@, ProjectionM::Whole)])),
        ],
    )
}

/// What is kept of a player document: the two containers, and of each of
/// their items what `item_schema` keeps.
pub open spec fn player_schema() -> ProjectionM {
    ProjectionM::Fields(seq![("Inventory"@, item_schema()), ("EnderItems"@, item_schema())])
}

/// An item record with `id` equal to `minecraft:filled_map` and an integer
/// at `tag.map` gives that integer. One whose `id` is another text gives
/// nothing, whatever else it holds: its payload is not looked at.
pub proof fn item_discrimination(entries: EntriesM)
    ensures
        is_filled_map(entries) == Ok::<bool, DecodeErrorM>(true) && map_number(entries)
            is Ok ==> item_id(entries) == Ok::<Option<i64>, DecodeErrorM>(
            Some(map_number(entries)->Ok_0),
        ),
        is_filled_map(entries) == Ok::<bool, DecodeErrorM>(false) ==> item_id(entries) == Ok::<
            Option<i64>,
            DecodeErrorM,
        >(None),
        item_id(entries) matches Err(e) ==> (is_filled_map(entries) == Err::<bool, DecodeErrorM>(e)
            || (is_filled_map(entries) == Ok::<bool, DecodeErrorM>(true) && map_number(entries)
            == Err::<i64, DecodeErrorM>(e))),
{
}

/// Two item records with the same first `id`, which is a text other than
/// `minecraft:filled_map`, both give nothing: no other entry matters.
pub proof fn other_items_are_passed_over(a: EntriesM, b: EntriesM, id: Seq<char>)
    requires
        lookup(a, "id"@) == Some(TagM::Leaf(LeafM::Text(id))),
        lookup(b, "id"@) == Some(TagM::Leaf(LeafM::Text(id))),
        id != filled_map(),
    ensures
        item_id(a) == Ok::<Option<i64>, DecodeErrorM>(None),
        item_id(b) == Ok::<Option<i64>, DecodeErrorM>(None),
{
}

/// An entry of an item record that is named neither `id` nor `tag` has no
/// part in what the record gives: taken away, it leaves the result as it
/// was.
pub proof fn item_ignores_unknown_keys(entries: EntriesM, i: int)
    requires
        0 <= i < entries.len(),
        entries[i].0 != "id"@,
        entries[i].0 != "tag"@,
    ensures
        item_id(entries.remove(i)) == item_id(entries),
        item_id_eager(entries.remove(i)) == item_id_eager(entries),
{
    lookup_ignores_other_keys(entries, i, "id"@);
    lookup_ignores_other_keys(entries, i, "tag"@);
}

/// The two ways of reading an item record agree wherever the record has no
/// `tag` or a well-formed one.
pub proof fn strategies_agree(entries: EntriesM)
    requires
        lookup(entries, "tag"@) is None || map_number(entries) is Ok,
    ensures
        item_id(entries) == item_id_eager(entries),
{
}

/// The numbers of a run of items that is cut in two are those of the first
/// part followed by those of the second.
pub proof fn item_ids_concat(a: Seq<TagM>, b: Seq<TagM>)
    ensures
        item_ids(a + b) == match item_ids(a) {
            Err(e) => Err(e),
            Ok(first) => then_ids(first, item_ids(b)),
        },
    decreases a.len(),
{
    if a.len() == 0 {
        assert(a + b =~= b);
        if let Ok(rest) = item_ids(b) {
            assert(Seq::<i64>::empty() + rest =~= rest);
        }
    } else {
        assert((a + b)[0] == a[0]);
        assert((a + b).skip(1) =~= a.skip(1) + b);
        item_ids_concat(a.skip(1), b);
        if let Ok(first) = ids_of_item(a[0]) {
            if let Ok(mid) = item_ids(a.skip(1)) {
                if let Ok(rest) = item_ids(b) {
                    assert(first + (mid + rest) =~= (first + mid) + rest);
                }
            }
        }
    }
}

/// The numbers of a document whose entries are cut in two are those of the
/// first part followed by those of the second: containers add up in the
/// order they stand, nothing is sorted and no repeat is dropped.
pub proof fn player_ids_concat(a: EntriesM, b: EntriesM)
    ensures
        player_ids(a + b) == match player_ids(a) {
            Err(e) => Err(e),
            Ok(first) => then_ids(first, player_ids(b)),
        },
    decreases a.len(),
{
    if a.len() == 0 {
        assert(a + b =~= b);
        if let Ok(rest) = player_ids(b) {
            assert(Seq::<i64>::empty() + rest =~= rest);
        }
    } else {
        assert((a + b)[0] == a[0]);
        assert((a + b).skip(1) =~= a.skip(1) + b);
        player_ids_concat(a.skip(1), b);
        if let Ok(first) = ids_of_entry(a[0]) {
            if let Ok(mid) = player_ids(a.skip(1)) {
                if let Ok(rest) = player_ids(b) {
                    assert(first + (mid + rest) =~= (first + mid) + rest);
                }
            }
        }
    }
}

/// An entry of a player document that is no container has no part in the
/// numbers the document gives: taken away, it leaves the result as it was,
/// wherever it stood.
pub proof fn player_ignores_unknown_keys(entries: EntriesM, i: int)
    requires
        0 <= i < entries.len(),
        !is_container(entries[i].0),
    ensures
        player_ids(entries.remove(i)) == player_ids(entries),
    decreases entries.len(),
{
    if i == 0 {
        assert(entries.remove(0) =~= entries.skip(1));
        if let Ok(rest) = player_ids(entries.skip(1)) {
            assert(Seq::<i64>::empty() + rest =~= rest);
        }
    } else {
        assert(entries.remove(i)[0] == entries[0]);
        assert(entries.remove(i).skip(1) =~= entries.skip(1).remove(i - 1));
        player_ignores_unknown_keys(entries.skip(1), i - 1);
    }
}

proof fn lemma_item_plans()
    ensures
        entry_plan(item_schema(), "id"@) == Some(ProjectionM::Whole),
        entry_plan(item_schema(), "tag"@) == Some(
            ProjectionM::Fields(seq![("map"@, ProjectionM::Whole)]),
        ),
        entry_plan(ProjectionM::Fields(seq![("map"@, ProjectionM::Whole)]), "map"@) == Some(
            ProjectionM::Whole,
        ),
{
    reveal_strlit("id");
    reveal_strlit("tag");
    assert("id"@.len() == 2);
    assert("tag"@.len() == 3);
    let item = seq![
        ("id"@, ProjectionM::Whole),
        ("tag"@, ProjectionM::Fields(seq![("map"@, ProjectionM::Whole)])),
    ];
    lemma_plan_for_at(item, 0);
    lemma_plan_for_at(item, 1);
    lemma_plan_for_at(seq![("map"@, ProjectionM::Whole)], 0);
}

proof fn lemma_player_plans(key: Seq<char>)
    ensures
        entry_plan(player_schema(), key) == if is_container(key) {
            Some(item_schema())
        } else {
            None
        },
{
    reveal_strlit("Inventory");
    reveal_strlit("EnderItems");
    assert("Inventory"@.len() == 9);
    assert("EnderItems"@.len() == 10);
    let player = seq![("Inventory"@, item_schema()), ("EnderItems"@, item_schema())];
    if key == "Inventory"@ {
        lemma_plan_for_at(player, 0);
    } else if key == "EnderItems"@ {
        lemma_plan_for_at(player, 1);
    } else {
        lemma_plan_for_none(player, key);
    }
}

/// Taking away of an item record what `item_schema` does not keep leaves
/// what the record gives as it was.
pub proof fn item_survives_pruning(t: TagM)
    ensures
        item_of(prune(t, item_schema())) == item_of(t),
{
    lemma_item_plans();
    if let TagM::Compound(entries) = t {
        let kept = prune_entries(entries, item_schema());
        let tag_plan = ProjectionM::Fields(seq![("map"@, ProjectionM::Whole)]);
        lemma_lookup_pruned(entries, item_schema(), "id"@);
        lemma_lookup_pruned(entries, item_schema(), "tag"@);
        assert(lookup(kept, "id"@) == lookup(entries, "id"@));
        if let Some(TagM::Compound(inner)) = lookup(entries, "tag"@) {
            lemma_lookup_pruned(inner, tag_plan, "map"@);
        }
    }
}

/// Taking away of a list of item records what `item_schema` does not keep
/// leaves the numbers it gives as they were.
pub proof fn items_survive_pruning(items: Seq<TagM>)
    ensures
        item_ids(prune_items(items, item_schema())) == item_ids(items),
    decreases items.len(),
{
    let kept = prune_items(items, item_schema());
    lemma_prune_items_index(items, item_schema());
    if items.len() > 0 {
        item_survives_pruning(items[0]);
        items_survive_pruning(items.skip(1));
        lemma_prune_items_index(items.skip(1), item_schema());
        assert(kept.skip(1) =~= prune_items(items.skip(1), item_schema()));
    }
}

/// Entries of a player document that are no containers, and entries of
/// item records other than `id` and `tag`, have no part in the result: the
/// document gives the same numbers, or the same error, with all of them
/// taken away.
pub proof fn unknown_keys_do_not_matter(entries: EntriesM)
    ensures
        player_ids(prune_entries(entries, player_schema())) == player_ids(entries),
    decreases entries.len(),
{
    let schema = player_schema();
    if entries.len() == 0 {
        assert(entries =~= Seq::empty());
        lemma_prune_entries_push(entries, Seq::empty(), TagM::Leaf(LeafM::Other), schema);
    } else {
        let first = entries[0];
        lemma_player_plans(first.0);
        lemma_prune_entries_front(entries, schema);
        unknown_keys_do_not_matter(entries.skip(1));
        let head = prune_entry(first, schema);
        let tail = prune_entries(entries.skip(1), schema);
        if is_container(first.0) {
            assert((head + tail)[0] == head[0]);
            assert((head + tail).skip(1) =~= tail);
            if let TagM::List(items) = first.1 {
                items_survive_pruning(items);
            }
        } else {
            assert(head + tail =~= tail);
            if let Ok(rest) = player_ids(entries.skip(1)) {
                assert(Seq::<i64>::empty() + rest =~= rest);
            }
        }
    }
}

/// A player document gives the same numbers once everything that
/// `player_schema` does not keep is taken away.
pub proof fn player_survives_pruning(doc: TagM)
    ensures
        player_of(prune(doc, player_schema())) == player_of(doc),
{
    if let TagM::Compound(entries) = doc {
        unknown_keys_do_not_matter(entries);
    }
}

/// Reads the map number of an item record that is a filled map.
fn read_map_number(entries: &Vec<(String, Tag)>) -> (r: Result<i64, DecodeError>)
    ensures
        match map_number(entries_view(entries@)) {
            Ok(v) => r == Ok::<i64, DecodeError>(v),
            Err(e) => r matches Err(x) && x@ == e,
        },
{
    let tag = match find(entries, "tag") {
        None => {
            return Err(DecodeError::missing("tag"));
        },
        Some(tag) => tag,
    };
    let inner = match tag.as_compound() {
        None => {
            return Err(DecodeError::TypeMismatch(Kind::Compound, tag.kind()));
        },
        Some(inner) => inner,
    };
    let map = match find(inner, "map") {
        None => {
            return Err(DecodeError::missing("map"));
        },
        Some(map) => map,
    };
    match map.as_i64() {
        Some(v) => Ok(v),
        None => Err(DecodeError::TypeMismatch(Kind::Long, map.kind())),
    }
}

/// Tells whether an item record is a filled map.
fn read_is_filled_map(entries: &Vec<(String, Tag)>) -> (r: Result<bool, DecodeError>)
    ensures
        match is_filled_map(entries_view(entries@)) {
            Ok(v) => r == Ok::<bool, DecodeError>(v),
            Err(e) => r matches Err(x) && x@ == e,
        },
{
    match find(entries, "id") {
        None => Ok(false),
        Some(id) => match id.as_text() {
            Some(s) => Ok(text_eq(s.as_str(), "minecraft:filled_map")),
            None => Err(DecodeError::TypeMismatch(Kind::Text, id.kind())),
        },
    }
}

impl ItemStructure {
    /// Reads one item record, settling `id` first. An item that is no
    /// filled map gives nothing and its payload is not looked at; a filled
    /// map has to carry `tag` with an integer `map` in it.
    pub fn decode(item: &Tag) -> (r: Result<ItemStructure, DecodeError>)
        ensures
            match item_of(item@) {
                Ok(id) => r == Ok::<ItemStructure, DecodeError>(ItemStructure(id)),
                Err(e) => r matches Err(x) && x@ == e,
            },
    {
        let entries = match item.as_compound() {
            None => {
                return Err(DecodeError::TypeMismatch(Kind::Compound, item.kind()));
            },
            Some(entries) => entries,
        };
        match read_is_filled_map(entries) {
            Err(e) => Err(e),
            Ok(false) => Ok(ItemStructure(None)),
            Ok(true) => match read_map_number(entries) {
                Err(e) => Err(e),
                Ok(v) => Ok(ItemStructure(Some(v))),
            },
        }
    }

    /// Reads one item record by decoding all of it first and testing `id`
    /// afterwards. On a record without `tag`, or with a well-formed one,
    /// this gives what `decode` gives; a malformed `tag` is an error here
    /// whatever the item is.
    pub fn decode_eager(item: &Tag) -> (r: Result<ItemStructure, DecodeError>)
        ensures
            match item_of_eager(item@) {
                Ok(id) => r == Ok::<ItemStructure, DecodeError>(ItemStructure(id)),
                Err(e) => r matches Err(x) && x@ == e,
            },
    {
        let entries = match item.as_compound() {
            None => {
                return Err(DecodeError::TypeMismatch(Kind::Compound, item.kind()));
            },
            Some(entries) => entries,
        };
        let wanted = match read_is_filled_map(entries) {
            Err(e) => {
                return Err(e);
            },
            Ok(wanted) => wanted,
        };
        let payload: Option<i64> = match find(entries, "tag") {
            None => None,
            Some(_) => match read_map_number(entries) {
                Err(e) => {
                    return Err(e);
                },
                Ok(v) => Some(v),
            },
        };
        if !wanted {
            Ok(ItemStructure(None))
        } else {
            match payload {
                None => Err(DecodeError::missing("tag")),
                Some(v) => Ok(ItemStructure(Some(v))),
            }
        }
    }
}

/// Adds the map numbers of a run of item records to `ids`.
fn collect_items(items: &Vec<Tag>, ids: &mut Vec<i64>) -> (r: Result<(), DecodeError>)
    ensures
        match item_ids(items_view(items@)) {
            Ok(found) => r is Ok && final(ids)@ == old(ids)@ + found,
            Err(e) => r matches Err(x) && x@ == e,
        },
{
    let ghost all = items_view(items@);
    let ghost mut found: Seq<i64> = Seq::empty();
    let mut i: usize = 0;
    proof {
        assert(all.skip(0) =~= all);
        assert(old(ids)@ + found =~= old(ids)@);
        if let Ok(rest) = item_ids(all) {
            assert(found + rest =~= rest);
        }
    }
    while i < items.len()
        invariant
            i <= items.len(),
            all == items_view(items@),
            ids@ == old(ids)@ + found,
            item_ids(all) == then_ids(found, item_ids(all.skip(i as int))),
        decreases items.len() - i,
    {
        let ghost rest = all.skip(i as int);
        assert(rest[0] == items[i as int]@);
        assert(rest.skip(1) =~= all.skip(i + 1));
        match ItemStructure::decode(&items[i]) {
            Err(e) => {
                return Err(e);
            },
            Ok(ItemStructure(None)) => {
                proof {
                    if let Ok(more) = item_ids(rest.skip(1)) {
                        assert(Seq::<i64>::empty() + more =~= more);
                    }
                }
            },
            Ok(ItemStructure(Some(v))) => {
                ids.push(v);
                proof {
                    if let Ok(more) = item_ids(rest.skip(1)) {
                        assert(found.push(v) + more =~= found + (seq![v] + more));
                    }
                    assert(old(ids)@ + found.push(v) =~= (old(ids)@ + found).push(v));
                    found = found.push(v);
                }
            },
        }
        i = i + 1;
    }
    proof {
        assert(found + Seq::<i64>::empty() =~= found);
    }
    Ok(())
}

/// Whether a top-level key names a container of item records.
fn names_container(key: &str) -> (r: bool)
    ensures
        r == is_container(key@),
{
    text_eq(key, "Inventory") || text_eq(key, "EnderItems")
}

impl PlayerMapIds {
    /// The projection that keeps of a player document what the map
    /// numbers depend on.
    pub fn projection() -> (p: Projection)
        ensures
            p@ == player_schema(),
    {
        let ghost none = Seq::<(Seq<char>, ProjectionM)>::empty();
        let ghost tag_fields = seq![("map"@, ProjectionM::Whole)];
        let ghost item_fields = seq![
            ("id"@, ProjectionM::Whole),
            ("tag"@, ProjectionM::Fields(tag_fields)),
        ];
        let mut inventory_tag: Vec<(String, Projection)> = Vec::new();
        assert(fields_view(inventory_tag@) =~= none);
        add_field(&mut inventory_tag, "map", Projection::Whole);
        assert(fields_view(inventory_tag@) =~= tag_fields);
        let mut inventory: Vec<(String, Projection)> = Vec::new();
        assert(fields_view(inventory@) =~= none);
        add_field(&mut inventory, "id", Projection::Whole);
        add_field(&mut inventory, "tag", Projection::of(inventory_tag));
        assert(fields_view(inventory@) =~= item_fields);
        let mut chest_tag: Vec<(String, Projection)> = Vec::new();
        assert(fields_view(chest_tag@) =~= none);
        add_field(&mut chest_tag, "map", Projection::Whole);
        assert(fields_view(chest_tag@) =~= tag_fields);
        let mut chest: Vec<(String, Projection)> = Vec::new();
        assert(fields_view(chest@) =~= none);
        add_field(&mut chest, "id", Projection::Whole);
        add_field(&mut chest, "tag", Projection::of(chest_tag));
        assert(fields_view(chest@) =~= item_fields);
        let mut player: Vec<(String, Projection)> = Vec::new();
        assert(fields_view(player@) =~= none);
        add_field(&mut player, "Inventory", Projection::of(inventory));
        add_field(&mut player, "EnderItems", Projection::of(chest));
        assert(fields_view(player@) =~= seq![
            ("Inventory"@, item_schema()),
            ("EnderItems"@, item_schema()),
        ]);
        Projection::of(player)
    }

    /// Reads the map numbers off a player document. The two containers,
    /// `Inventory` and `EnderItems`, are lists of item records; each may be
    /// absent, and then adds nothing. Every other entry is passed over.
    pub fn decode(doc: &Tag) -> (r: Result<PlayerMapIds, DecodeError>)
        ensures
            match player_of(doc@) {
                Ok(ids) => r matches Ok(found) && found@ == ids,
                Err(e) => r matches Err(x) && x@ == e,
            },
    {
        let entries = match doc.as_compound() {
            None => {
                return Err(DecodeError::TypeMismatch(Kind::Compound, doc.kind()));
            },
            Some(entries) => entries,
        };
        let ghost all = entries_view(entries@);
        let mut ids: Vec<i64> = Vec::new();
        let mut i: usize = 0;
        proof {
            assert(all.skip(0) =~= all);
            if let Ok(rest) = player_ids(all) {
                assert(ids@ + rest =~= rest);
            }
        }
        while i < entries.len()
            invariant
                i <= entries.len(),
                all == entries_view(entries@),
                player_of(doc@) == player_ids(all),
                player_ids(all) == then_ids(ids@, player_ids(all.skip(i as int))),
            decreases entries.len() - i,
        {
            let ghost rest = all.skip(i as int);
            let ghost before = ids@;
            assert(rest[0] == (entries[i as int].0@, entries[i as int].1@));
            assert(rest.skip(1) =~= all.skip(i + 1));
            if names_container(entries[i].0.as_str()) {
                assert(ids_of_entry(rest[0]) == container_ids(entries[i as int].1@));
                let items = match entries[i].1.as_list() {
                    None => {
                        assert(player_ids(rest) is Err);
                        return Err(DecodeError::TypeMismatch(Kind::List, entries[i].1.kind()));
                    },
                    Some(items) => items,
                };
                match collect_items(items, &mut ids) {
                    Err(e) => {
                        assert(player_ids(rest) is Err);
                        return Err(e);
                    },
                    Ok(()) => {},
                }
                proof {
                    let added = ids_of_entry(rest[0])->Ok_0;
                    if let Ok(more) = player_ids(rest.skip(1)) {
                        assert((before + added) + more =~= before + (added + more));
                    }
                }
            } else {
                proof {
                    if let Ok(more) = player_ids(rest.skip(1)) {
                        assert(Seq::<i64>::empty() + more =~= more);
                    }
                }
            }
            i = i + 1;
        }
        proof {
            assert(ids@ + Seq::<i64>::empty() =~= ids@);
        }
        Ok(PlayerMapIds(ids))
    }

    /// Reads the map numbers a player carries from the bytes of a player
    /// document. Only the two containers, and of their items only `id` and
    /// `tag.map`, are ever built in memory.
    ///
    /// Bytes that do not spell out a document give `MalformedInput`; a
    /// document gives exactly what `decode` gives on the whole of it.
    pub fn from_bytes(bytes: &[u8]) -> (r: Result<PlayerMapIds, DecodeError>)
        ensures
            match document(bytes@) {
                None => r matches Err(x) && x@ == DecodeErrorM::MalformedInput,
                Some(doc) => match player_of(doc) {
                    Ok(ids) => r matches Ok(found) && found@ == ids,
                    Err(e) => r matches Err(x) && x@ == e,
                },
            },
    {
        let p = PlayerMapIds::projection();
        let kept = match select(bytes, &p) {
            Err(e) => {
                return Err(e);
            },
            Ok(kept) => kept,
        };
        proof {
            player_survives_pruning(document(bytes@)->Some_0);
        }
        PlayerMapIds::decode(&kept)
    }
}

} // verus!
