//! Typed reads of the entries of a compound, and composite values rebuilt
//! from sibling keys.

use vstd::prelude::*;
use crate::error::DecodeError;
use crate::error::DecodeErrorM;
use crate::error::Kind;
use crate::projection::entry_plan;
use crate::projection::lemma_lookup_pruned;
use crate::projection::prune_entries;
use crate::projection::prune_items;
use crate::projection::ProjectionM;
use crate::tag::entries_view;
use crate::tag::find;
use crate::tag::items_view;
use crate::tag::lemma_lookup_found;
use crate::tag::lookup;
use crate::tag::EntriesM;
use crate::tag::LeafM;
use crate::tag::Tag;
use crate::tag::TagM;

verus! {

/// Whether an integer fits in 32 bits.
pub open spec fn fits_i32(v: int) -> bool {
    -0x8000_0000 <= v <= 0x7fff_ffff
}

/// The 32-bit integer under `key`. An integer of any width is taken, as
/// long as its value fits.
pub open spec fn int_field(entries: EntriesM, key: Seq<char>) -> Result<i32, DecodeErrorM> {
    match lookup(entries, key) {
        None => Err(DecodeErrorM::MissingField(key)),
        Some(t) => match t.integer() {
            Some(v) => if fits_i32(v) {
                Ok(v as i32)
            } else {
                Err(DecodeErrorM::TypeMismatch(Kind::Int, t.kind()))
            },
            None => Err(DecodeErrorM::TypeMismatch(Kind::Int, t.kind())),
        },
    }
}

/// The truth value under `key`: an integer of any width, true unless zero.
pub open spec fn bool_field(entries: EntriesM, key: Seq<char>) -> Result<bool, DecodeErrorM> {
    match lookup(entries, key) {
        None => Err(DecodeErrorM::MissingField(key)),
        Some(t) => match t.integer() {
            Some(v) => Ok(v != 0),
            None => Err(DecodeErrorM::TypeMismatch(Kind::Byte, t.kind())),
        },
    }
}

/// The text under `key`.
pub open spec fn text_field(entries: EntriesM, key: Seq<char>) -> Result<Seq<char>, DecodeErrorM> {
    match lookup(entries, key) {
        None => Err(DecodeErrorM::MissingField(key)),
        Some(TagM::Leaf(LeafM::Text(s))) => Ok(s),
        Some(t) => Err(DecodeErrorM::TypeMismatch(Kind::Text, t.kind())),
    }
}

/// The bytes under `key`.
pub open spec fn bytes_field(entries: EntriesM, key: Seq<char>) -> Result<Seq<i8>, DecodeErrorM> {
    match lookup(entries, key) {
        None => Err(DecodeErrorM::MissingField(key)),
        Some(TagM::Leaf(LeafM::Bytes(b))) => Ok(b),
        Some(t) => Err(DecodeErrorM::TypeMismatch(Kind::Bytes, t.kind())),
    }
}

/// The items of the list under `key`.
pub open spec fn list_field(entries: EntriesM, key: Seq<char>) -> Result<Seq<TagM>, DecodeErrorM> {
    match lookup(entries, key) {
        None => Err(DecodeErrorM::MissingField(key)),
        Some(TagM::List(items)) => Ok(items),
        Some(t) => Err(DecodeErrorM::TypeMismatch(Kind::List, t.kind())),
    }
}

/// The entries of the compound under `key`.
pub open spec fn compound_field(entries: EntriesM, key: Seq<char>) -> Result<
    EntriesM,
    DecodeErrorM,
> {
    match lookup(entries, key) {
        None => Err(DecodeErrorM::MissingField(key)),
        Some(TagM::Compound(inner)) => Ok(inner),
        Some(t) => Err(DecodeErrorM::TypeMismatch(Kind::Compound, t.kind())),
    }
}

/// The composite of two sibling integers, in declared order: first `a`,
/// then `b`, wherever they stand among the entries.
pub open spec fn pair(entries: EntriesM, a: Seq<char>, b: Seq<char>) -> Result<
    (i32, i32),
    DecodeErrorM,
> {
    match int_field(entries, a) {
        Err(e) => Err(e),
        Ok(x) => match int_field(entries, b) {
            Err(e) => Err(e),
            Ok(y) => Ok((x, y)),
        },
    }
}

/// The composite of three sibling integers, in declared order.
pub open spec fn triple(entries: EntriesM, a: Seq<char>, b: Seq<char>, c: Seq<char>) -> Result<
    (i32, i32, i32),
    DecodeErrorM,
> {
    match int_field(entries, a) {
        Err(e) => Err(e),
        Ok(x) => match pair(entries, b, c) {
            Err(e) => Err(e),
            Ok((y, z)) => Ok((x, y, z)),
        },
    }
}

/// The composite of any number of sibling integers, in declared order: the
/// integer under each of `names`, in the order of `names`, wherever the keys
/// stand among the entries. The first name that cannot be read decides the
/// error.
pub open spec fn composite(entries: EntriesM, names: Seq<Seq<char>>) -> Result<
    Seq<i32>,
    DecodeErrorM,
>
    decreases names.len(),
{
    if names.len() == 0 {
        Ok(Seq::empty())
    } else {
        match int_field(entries, names[0]) {
            Err(e) => Err(e),
            Ok(first) => match composite(entries, names.skip(1)) {
                Err(e) => Err(e),
                Ok(rest) => Ok(seq![first] + rest),
            },
        }
    }
}

/// What a vector of names stands for.
pub open spec fn names_view(names: Seq<&str>) -> Seq<Seq<char>> {
    Seq::new(names.len(), |i: int| names[i]@)
}

/// Two runs of entries hold the same entries, whatever their order.
pub open spec fn same_entries(a: EntriesM, b: EntriesM) -> bool {
    forall|e: (Seq<char>, TagM)| a.contains(e) <==> b.contains(e)
}

/// The name `key` stands before at most one value among the entries.
pub open spec fn single_valued(entries: EntriesM, key: Seq<char>) -> bool {
    forall|i: int, j: int|
        0 <= i < entries.len() && 0 <= j < entries.len() && (#[trigger] entries[i]).0 == key && (
        #[trigger] entries[j]).0 == key ==> entries[i].1 == entries[j].1
}

/// Where a name stands before one value only, looking it up gives the same
/// value however the entries are ordered.
pub proof fn lookup_ignores_order(a: EntriesM, b: EntriesM, key: Seq<char>)
    requires
        same_entries(a, b),
        single_valued(a, key),
    ensures
        lookup(a, key) == lookup(b, key),
{
    lemma_lookup_found(a, key);
    lemma_lookup_found(b, key);
    match lookup(a, key) {
        Some(t) => {
            let i = choose|i: int| 0 <= i < a.len() && #[trigger] a[i] == (key, t);
            assert(a.contains((key, t)));
            assert(b.contains((key, t)));
            let j = choose|j: int| 0 <= j < b.len() && b[j] == (key, t);
            assert(b[j].0 == key);
            let u = lookup(b, key)->Some_0;
            let k = choose|k: int| 0 <= k < b.len() && #[trigger] b[k] == (key, u);
            assert(b.contains((key, u)));
            assert(a.contains((key, u)));
            let l = choose|l: int| 0 <= l < a.len() && a[l] == (key, u);
            assert(a[l].0 == key && a[i].0 == key);
        },
        None => {
            if let Some(u) = lookup(b, key) {
                let k = choose|k: int| 0 <= k < b.len() && #[trigger] b[k] == (key, u);
                assert(b.contains((key, u)));
                assert(a.contains((key, u)));
                let l = choose|l: int| 0 <= l < a.len() && a[l] == (key, u);
                assert(a[l].0 == key);
            }
        },
    }
}

/// A composite of two siblings does not depend on the order of the keys.
pub proof fn pair_ignores_order(a: EntriesM, b: EntriesM, x: Seq<char>, y: Seq<char>)
    requires
        same_entries(a, b),
        single_valued(a, x),
        single_valued(a, y),
    ensures
        pair(a, x, y) == pair(b, x, y),
{
    lookup_ignores_order(a, b, x);
    lookup_ignores_order(a, b, y);
}

/// A composite of three siblings does not depend on the order of the keys.
pub proof fn triple_ignores_order(
    a: EntriesM,
    b: EntriesM,
    x: Seq<char>,
    y: Seq<char>,
    z: Seq<char>,
)
    requires
        same_entries(a, b),
        single_valued(a, x),
        single_valued(a, y),
        single_valued(a, z),
    ensures
        triple(a, x, y, z) == triple(b, x, y, z),
{
    lookup_ignores_order(a, b, x);
    lookup_ignores_order(a, b, y);
    lookup_ignores_order(a, b, z);
}

/// A composite of two siblings fails with `MissingField` where one sibling
/// is absent and the other is there: no partial result comes back.
pub proof fn pair_needs_both(entries: EntriesM, x: Seq<char>, y: Seq<char>)
    ensures
        lookup(entries, x) is None ==> pair(entries, x, y) == Err::<(i32, i32), DecodeErrorM>(
            DecodeErrorM::MissingField(x),
        ),
        int_field(entries, x) is Ok && lookup(entries, y) is None ==> pair(entries, x, y) == Err::<
            (i32, i32),
            DecodeErrorM,
        >(DecodeErrorM::MissingField(y)),
        pair(entries, x, y) is Ok <==> int_field(entries, x) is Ok && int_field(entries, y) is Ok,
{
}

/// A composite of three siblings fails with `MissingField` where one
/// sibling is absent and the others are there.
pub proof fn triple_needs_all(entries: EntriesM, x: Seq<char>, y: Seq<char>, z: Seq<char>)
    ensures
        lookup(entries, x) is None ==> triple(entries, x, y, z) == Err::<
            (i32, i32, i32),
            DecodeErrorM,
        >(DecodeErrorM::MissingField(x)),
        int_field(entries, x) is Ok && lookup(entries, y) is None ==> triple(entries, x, y, z)
            == Err::<(i32, i32, i32), DecodeErrorM>(DecodeErrorM::MissingField(y)),
        int_field(entries, x) is Ok && int_field(entries, y) is Ok && lookup(entries, z) is None
            ==> triple(entries, x, y, z) == Err::<(i32, i32, i32), DecodeErrorM>(
            DecodeErrorM::MissingField(z),
        ),
        triple(entries, x, y, z) is Ok <==> int_field(entries, x) is Ok && int_field(entries, y)
            is Ok && int_field(entries, z) is Ok,
{
}

/// A composite is there exactly when every sibling can be read, and then
/// holds the siblings in declared order. Where it fails, the error is that
/// of the first sibling, in declared order, that cannot be read: with one
/// sibling absent and the others there, `MissingField` of that sibling.
pub proof fn composite_needs_every_sibling(entries: EntriesM, names: Seq<Seq<char>>)
    ensures
        composite(entries, names) is Ok <==> forall|i: int|
            0 <= i < names.len() ==> (#[trigger] int_field(entries, names[i])) is Ok,
        composite(entries, names) matches Ok(values) ==> values.len() == names.len()
            && forall|i: int|
            0 <= i < names.len() ==> int_field(entries, names[i]) == Ok::<i32, DecodeErrorM>(
                #[trigger] values[i],
            ),
        composite(entries, names) matches Err(e) ==> exists|i: int|
            0 <= i < names.len() && #[trigger] int_field(entries, names[i]) == Err::<
                i32,
                DecodeErrorM,
            >(e) && forall|j: int| 0 <= j < i ==> (#[trigger] int_field(entries, names[j])) is Ok,
    decreases names.len(),
{
    if names.len() > 0 {
        let rest = names.skip(1);
        composite_needs_every_sibling(entries, rest);
        assert forall|i: int| 0 <= i < rest.len() implies rest[i] == names[i + 1] by {}
        match int_field(entries, names[0]) {
            Err(e) => {
                assert(int_field(entries, names[0]) == Err::<i32, DecodeErrorM>(e));
            },
            Ok(first) => match composite(entries, rest) {
                Err(e) => {
                    let i = choose|i: int|
                        0 <= i < rest.len() && #[trigger] int_field(entries, rest[i]) == Err::<
                            i32,
                            DecodeErrorM,
                        >(e) && forall|j: int|
                            0 <= j < i ==> (#[trigger] int_field(entries, rest[j])) is Ok;
                    assert(int_field(entries, names[i + 1]) == Err::<i32, DecodeErrorM>(e));
                    assert forall|j: int| 0 <= j < i + 1 implies (#[trigger] int_field(
                        entries,
                        names[j],
                    )) is Ok by {
                        if j > 0 {
                            assert(rest[j - 1] == names[j]);
                        }
                    }
                    assert(!(int_field(entries, names[i + 1]) is Ok));
                },
                Ok(more) => {
                    let values = seq![first] + more;
                    assert forall|i: int| 0 <= i < names.len() implies int_field(
                        entries,
                        names[i],
                    ) == Ok::<i32, DecodeErrorM>(#[trigger] values[i]) by {
                        if i > 0 {
                            assert(rest[i - 1] == names[i]);
                            assert(values[i] == more[i - 1]);
                        }
                    }
                },
            },
        }
        if composite(entries, names) is Ok {
            assert forall|i: int| 0 <= i < names.len() implies (#[trigger] int_field(
                entries,
                names[i],
            )) is Ok by {
                if i > 0 {
                    assert(rest[i - 1] == names[i]);
                    assert(int_field(entries, rest[i - 1]) is Ok);
                }
            }
        }
        if forall|i: int| 0 <= i < names.len() ==> (#[trigger] int_field(entries, names[i])) is Ok {
            assert(int_field(entries, names[0]) is Ok);
            assert forall|i: int| 0 <= i < rest.len() implies (#[trigger] int_field(
                entries,
                rest[i],
            )) is Ok by {
                assert(int_field(entries, names[i + 1]) is Ok);
            }
        }
    }
}

/// A composite does not depend on the order in which the keys stand among
/// the entries, as long as each sibling name stands before one value only.
pub proof fn composite_ignores_order(a: EntriesM, b: EntriesM, names: Seq<Seq<char>>)
    requires
        same_entries(a, b),
        forall|i: int| 0 <= i < names.len() ==> single_valued(a, #[trigger] names[i]),
    ensures
        composite(a, names) == composite(b, names),
    decreases names.len(),
{
    if names.len() > 0 {
        let rest = names.skip(1);
        assert(single_valued(a, names[0]));
        lookup_ignores_order(a, b, names[0]);
        assert forall|i: int| 0 <= i < rest.len() implies single_valued(a, #[trigger] rest[i]) by {
            assert(rest[i] == names[i + 1]);
        }
        composite_ignores_order(a, b, rest);
    }
}

/// The composites of two and of three siblings are the composite of their
/// names.
pub proof fn pair_and_triple_are_composites(
    entries: EntriesM,
    x: Seq<char>,
    y: Seq<char>,
    z: Seq<char>,
)
    ensures
        pair(entries, x, y) == match composite(entries, seq![x, y]) {
            Ok(v) => Ok((v[0], v[1])),
            Err(e) => Err(e),
        },
        triple(entries, x, y, z) == match composite(entries, seq![x, y, z]) {
            Ok(v) => Ok((v[0], v[1], v[2])),
            Err(e) => Err(e),
        },
{
    reveal_with_fuel(composite, 4);
    let two = seq![x, y];
    assert(two.skip(1)[0] == y);
    assert(two.skip(1).skip(1).len() == 0);
    let three = seq![x, y, z];
    assert(three.skip(1)[0] == y);
    assert(three.skip(1).skip(1)[0] == z);
    assert(three.skip(1).skip(1).skip(1).len() == 0);
}

/// A key that a projection keeps whole is found in the pruned entries with
/// the value it had, so every typed read of it gives what it gave.
pub proof fn lemma_whole_field_survives(entries: EntriesM, p: ProjectionM, key: Seq<char>)
    requires
        entry_plan(p, key) == Some(ProjectionM::Whole),
    ensures
        lookup(prune_entries(entries, p), key) == lookup(entries, key),
        int_field(prune_entries(entries, p), key) == int_field(entries, key),
        bool_field(prune_entries(entries, p), key) == bool_field(entries, key),
        text_field(prune_entries(entries, p), key) == text_field(entries, key),
        bytes_field(prune_entries(entries, p), key) == bytes_field(entries, key),
{
    lemma_lookup_pruned(entries, p, key);
}

/// A compound under a key that a projection keeps in part is found in the
/// pruned entries with its own entries pruned; anything else under that key
/// fails as it did.
pub proof fn lemma_compound_field_pruned(
    entries: EntriesM,
    p: ProjectionM,
    key: Seq<char>,
    sub: ProjectionM,
)
    requires
        entry_plan(p, key) == Some(sub),
        sub is Fields,
    ensures
        compound_field(prune_entries(entries, p), key) == match compound_field(entries, key) {
            Ok(inner) => Ok(prune_entries(inner, sub)),
            Err(e) => Err(e),
        },
{
    lemma_lookup_pruned(entries, p, key);
}

/// A list under a key that a projection keeps in part is found in the
/// pruned entries with each item pruned; anything else under that key fails
/// as it did.
pub proof fn lemma_list_field_pruned(
    entries: EntriesM,
    p: ProjectionM,
    key: Seq<char>,
    sub: ProjectionM,
)
    requires
        entry_plan(p, key) == Some(sub),
        sub is Fields,
    ensures
        list_field(prune_entries(entries, p), key) == match list_field(entries, key) {
            Ok(items) => Ok(prune_items(items, sub)),
            Err(e) => Err(e),
        },
{
    lemma_lookup_pruned(entries, p, key);
}

/// Reads the 32-bit integer under `key`.
pub fn read_int(entries: &Vec<(String, Tag)>, key: &str) -> (r: Result<i32, DecodeError>)
    ensures
        match int_field(entries_view(entries@), key@) {
            Ok(v) => r == Ok::<i32, DecodeError>(v),
            Err(e) => r matches Err(x) && x@ == e,
        },
{
    match find(entries, key) {
        None => Err(DecodeError::missing(key)),
        Some(t) => match t.as_i64() {
            Some(v) => if -0x8000_0000 <= v && v <= 0x7fff_ffff {
                Ok(v as i32)
            } else {
                Err(DecodeError::TypeMismatch(Kind::Int, t.kind()))
            },
            None => Err(DecodeError::TypeMismatch(Kind::Int, t.kind())),
        },
    }
}

/// Reads the truth value under `key`.
pub fn read_bool(entries: &Vec<(String, Tag)>, key: &str) -> (r: Result<bool, DecodeError>)
    ensures
        match bool_field(entries_view(entries@), key@) {
            Ok(v) => r == Ok::<bool, DecodeError>(v),
            Err(e) => r matches Err(x) && x@ == e,
        },
{
    match find(entries, key) {
        None => Err(DecodeError::missing(key)),
        Some(t) => match t.as_i64() {
            Some(v) => Ok(v != 0),
            None => Err(DecodeError::TypeMismatch(Kind::Byte, t.kind())),
        },
    }
}

/// Reads the text under `key`.
pub fn read_text<'a>(entries: &'a Vec<(String, Tag)>, key: &str) -> (r: Result<
    &'a String,
    DecodeError,
>)
    ensures
        match text_field(entries_view(entries@), key@) {
            Ok(s) => r matches Ok(t) && t@ == s,
            Err(e) => r matches Err(x) && x@ == e,
        },
{
    match find(entries, key) {
        None => Err(DecodeError::missing(key)),
        Some(t) => match t.as_text() {
            Some(s) => Ok(s),
            None => Err(DecodeError::TypeMismatch(Kind::Text, t.kind())),
        },
    }
}

/// Reads the bytes under `key`.
pub fn read_bytes<'a>(entries: &'a Vec<(String, Tag)>, key: &str) -> (r: Result<
    &'a Vec<i8>,
    DecodeError,
>)
    ensures
        match bytes_field(entries_view(entries@), key@) {
            Ok(b) => r matches Ok(v) && v@ == b,
            Err(e) => r matches Err(x) && x@ == e,
        },
{
    match find(entries, key) {
        None => Err(DecodeError::missing(key)),
        Some(t) => match t.as_bytes() {
            Some(b) => Ok(b),
            None => Err(DecodeError::TypeMismatch(Kind::Bytes, t.kind())),
        },
    }
}

/// Reads the items of the list under `key`.
pub fn read_list<'a>(entries: &'a Vec<(String, Tag)>, key: &str) -> (r: Result<
    &'a Vec<Tag>,
    DecodeError,
>)
    ensures
        match list_field(entries_view(entries@), key@) {
            Ok(items) => r matches Ok(v) && items_view(v@) == items,
            Err(e) => r matches Err(x) && x@ == e,
        },
{
    match find(entries, key) {
        None => Err(DecodeError::missing(key)),
        Some(t) => match t.as_list() {
            Some(items) => Ok(items),
            None => Err(DecodeError::TypeMismatch(Kind::List, t.kind())),
        },
    }
}

/// Reads the entries of the compound under `key`.
pub fn read_compound<'a>(entries: &'a Vec<(String, Tag)>, key: &str) -> (r: Result<
    &'a Vec<(String, Tag)>,
    DecodeError,
>)
    ensures
        match compound_field(entries_view(entries@), key@) {
            Ok(inner) => r matches Ok(v) && entries_view(v@) == inner,
            Err(e) => r matches Err(x) && x@ == e,
        },
{
    match find(entries, key) {
        None => Err(DecodeError::missing(key)),
        Some(t) => match t.as_compound() {
            Some(inner) => Ok(inner),
            None => Err(DecodeError::TypeMismatch(Kind::Compound, t.kind())),
        },
    }
}

/// Rebuilds a composite of any number of sibling integers. The result is in
/// the order of `names`, not in the order the keys were met; if a sibling
/// cannot be read, the call fails with the error of the first one, in the
/// order of `names`, that cannot.
pub fn flatten(entries: &Vec<(String, Tag)>, names: &Vec<&str>) -> (r: Result<
    Vec<i32>,
    DecodeError,
>)
    ensures
        match composite(entries_view(entries@), names_view(names@)) {
            Ok(values) => r matches Ok(found) && found@ == values,
            Err(e) => r matches Err(x) && x@ == e,
        },
{
    let ghost all = names_view(names@);
    let ghost es = entries_view(entries@);
    let mut found: Vec<i32> = Vec::new();
    let mut i: usize = 0;
    proof {
        assert(all.skip(0) =~= all);
        if let Ok(rest) = composite(es, all) {
            assert(found@ + rest =~= rest);
        }
    }
    while i < names.len()
        invariant
            i <= names.len(),
            all == names_view(names@),
            es == entries_view(entries@),
            composite(es, all) == match composite(es, all.skip(i as int)) {
                Ok(rest) => Ok(found@ + rest),
                Err(e) => Err(e),
            },
        decreases names.len() - i,
    {
        let ghost rest = all.skip(i as int);
        let ghost before = found@;
        assert(rest[0] == names@[i as int]@);
        assert(rest.skip(1) =~= all.skip(i + 1));
        let v = match read_int(entries, names[i]) {
            Err(e) => {
                return Err(e);
            },
            Ok(v) => v,
        };
        found.push(v);
        proof {
            if let Ok(more) = composite(es, rest.skip(1)) {
                assert(before.push(v) + more =~= before + (seq![v] + more));
            }
        }
        i = i + 1;
    }
    proof {
        assert(found@ + Seq::<i32>::empty() =~= found@);
    }
    Ok(found)
}

/// Rebuilds a composite of two sibling integers. The result is in declared
/// order, not in the order the keys were met; if either sibling is absent
/// the call fails with `MissingField` of the first one that is.
pub fn flatten_pair(entries: &Vec<(String, Tag)>, a: &str, b: &str) -> (r: Result<
    (i32, i32),
    DecodeError,
>)
    ensures
        match pair(entries_view(entries@), a@, b@) {
            Ok(v) => r == Ok::<(i32, i32), DecodeError>(v),
            Err(e) => r matches Err(x) && x@ == e,
        },
{
    let x = match read_int(entries, a) {
        Err(e) => {
            return Err(e);
        },
        Ok(x) => x,
    };
    let y = match read_int(entries, b) {
        Err(e) => {
            return Err(e);
        },
        Ok(y) => y,
    };
    Ok((x, y))
}

/// Rebuilds a composite of three sibling integers, in declared order.
pub fn flatten_triple(entries: &Vec<(String, Tag)>, a: &str, b: &str, c: &str) -> (r: Result<
    (i32, i32, i32),
    DecodeError,
>)
    ensures
        match triple(entries_view(entries@), a@, b@, c@) {
            Ok(v) => r == Ok::<(i32, i32, i32), DecodeError>(v),
            Err(e) => r matches Err(x) && x@ == e,
        },
{
    let x = match read_int(entries, a) {
        Err(e) => {
            return Err(e);
        },
        Ok(x) => x,
    };
    let (y, z) = match flatten_pair(entries, b, c) {
        Err(e) => {
            return Err(e);
        },
        Ok(yz) => yz,
    };
    Ok((x, y, z))
}

} // verus!
