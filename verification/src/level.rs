//! The level record of a world: the name of the version that wrote it and
//! the point where players appear.

use vstd::prelude::*;
use crate::error::DecodeError;
use crate::error::DecodeErrorM;
use crate::error::Kind;
use crate::fields::compound_field;
use crate::fields::flatten_triple;
use crate::fields::lemma_compound_field_pruned;
use crate::fields::lemma_whole_field_survives;
use crate::fields::read_compound;
use crate::fields::read_text;
use crate::fields::text_field;
use crate::fields::triple;
use crate::projection::add_field;
use crate::projection::entry_plan;
use crate::projection::fields_view;
use crate::projection::lemma_plan_for_at;
use crate::projection::prune;
use crate::projection::Projection;
use crate::projection::ProjectionM;
use crate::select::document;
use crate::select::select;
use crate::tag::entries_view;
use crate::tag::EntriesM;
use crate::tag::Tag;
use crate::tag::TagM;

verus! {

/// The version of the game that wrote a level.
#[derive(Debug, PartialEq, Eq, Clone)]
pub struct Version {
    pub name: String,
}

/// A version, as the contracts see it.
pub struct VersionM {
    pub name: Seq<char>,
}

impl View for Version {
    type V = VersionM;

    open spec fn view(&self) -> VersionM {
        VersionM { name: self.name@ }
    }
}

/// What a level record holds under `Data`.
#[derive(Debug, PartialEq, Eq)]
pub struct LevelData {
    pub version: Version,
    /// The spawn point, as x, y and z, rebuilt from three sibling keys.
    pub spawn: (i32, i32, i32),
}

/// The data of a level, as the contracts see it.
pub struct LevelDataM {
    pub version: VersionM,
    pub spawn: (i32, i32, i32),
}

impl View for LevelData {
    type V = LevelDataM;

    open spec fn view(&self) -> LevelDataM {
        LevelDataM { version: self.version@, spawn: self.spawn }
    }
}

/// A level record.
#[derive(Debug, PartialEq, Eq)]
pub struct Level {
    pub data: LevelData,
}

/// A level record, as the contracts see it.
pub struct LevelM {
    pub data: LevelDataM,
}

impl View for Level {
    type V = LevelM;

    open spec fn view(&self) -> LevelM {
        LevelM { data: self.data@ }
    }
}

/// The spawn point among the entries of `Data`: the integers under
/// `SpawnX`, `SpawnY` and `SpawnZ`, in that order.
pub open spec fn spawn_of(entries: EntriesM) -> Result<(i32, i32, i32), DecodeErrorM> {
    triple(entries, "SpawnX"@, "SpawnY"@, "SpawnZ"@)
}

/// The version that the entries of `Version` name.
pub open spec fn version_of(entries: EntriesM) -> Result<VersionM, DecodeErrorM> {
    match text_field(entries, "Name"@) {
        Err(e) => Err(e),
        Ok(name) => Ok(VersionM { name }),
    }
}

/// What the entries of `Data` hold. The version is read first, then the
/// spawn point.
pub open spec fn level_data_of(entries: EntriesM) -> Result<LevelDataM, DecodeErrorM> {
    match compound_field(entries, "Version"@) {
        Err(e) => Err(e),
        Ok(inner) => match version_of(inner) {
            Err(e) => Err(e),
            Ok(version) => match spawn_of(entries) {
                Err(e) => Err(e),
                Ok(spawn) => Ok(LevelDataM { version, spawn }),
            },
        },
    }
}

/// The level that a document holds.
pub open spec fn level_of(t: TagM) -> Result<LevelM, DecodeErrorM> {
    match t {
        TagM::Compound(entries) => match compound_field(entries, "Data"@) {
            Err(e) => Err(e),
            Ok(inner) => match level_data_of(inner) {
                Err(e) => Err(e),
                Ok(data) => Ok(LevelM { data }),
            },
        },
        _ => Err(DecodeErrorM::TypeMismatch(Kind::Compound, t.kind())),
    }
}

/// What is kept of the entries of `Version`.
pub open spec fn version_schema() -> ProjectionM {
    ProjectionM::Fields(seq![("Name"@, ProjectionM::Whole)])
}

/// What is kept of the entries of `Data`.
pub open spec fn level_data_schema() -> ProjectionM {
    ProjectionM::Fields(
        seq![
            ("Version"@, version_schema()),
            ("SpawnX"@, ProjectionM::Whole),
            ("SpawnY"@, ProjectionM::Whole),
            ("SpawnZ"@, ProjectionM::Whole),
        ],
    )
}

/// What is kept of a level document.
pub open spec fn level_schema() -> ProjectionM {
    ProjectionM::Fields(seq![("Data"@, level_data_schema())])
}

proof fn lemma_level_plans()
    ensures
        entry_plan(level_schema(), "Data"@) == Some(level_data_schema()),
        entry_plan(level_data_schema(), "Version"@) == Some(version_schema()),
        entry_plan(level_data_schema(), "SpawnX"@) == Some(ProjectionM::Whole),
        entry_plan(level_data_schema(), "SpawnY"@) == Some(ProjectionM::Whole),
        entry_plan(level_data_schema(), "SpawnZ"@) == Some(ProjectionM::Whole),
        entry_plan(version_schema(), "Name"@) == Some(ProjectionM::Whole),
{
    reveal_strlit("Version");
    reveal_strlit("SpawnX");
    reveal_strlit("SpawnY");
    reveal_strlit("SpawnZ");
    assert("Version"@.len() == 7);
    assert("SpawnX"@.len() == 6 && "SpawnX"@[5] == 'X');
    assert("SpawnY"@.len() == 6 && "SpawnY"@[5] == 'Y');
    assert("SpawnZ"@.len() == 6 && "SpawnZ"@[5] == 'Z');
    let data = seq![
        ("Version"@, version_schema()),
        ("SpawnX"@, ProjectionM::Whole),
        ("SpawnY"@, ProjectionM::Whole),
        ("SpawnZ"@, ProjectionM::Whole),
    ];
    lemma_plan_for_at(data, 0);
    lemma_plan_for_at(data, 1);
    lemma_plan_for_at(data, 2);
    lemma_plan_for_at(data, 3);
    lemma_plan_for_at(seq![("Data"@, level_data_schema())], 0);
    lemma_plan_for_at(seq![("Name"@, ProjectionM::Whole)], 0);
}

/// A level document gives the same level, or the same error, once
/// everything that `level_schema` does not keep is taken away.
pub proof fn level_survives_pruning(doc: TagM)
    ensures
        level_of(prune(doc, level_schema())) == level_of(doc),
{
    lemma_level_plans();
    if let TagM::Compound(entries) = doc {
        lemma_compound_field_pruned(entries, level_schema(), "Data"@, level_data_schema());
        if let Ok(data) = compound_field(entries, "Data"@) {
            let p = level_data_schema();
            lemma_compound_field_pruned(data, p, "Version"@, version_schema());
            lemma_whole_field_survives(data, p, "SpawnX"@);
            lemma_whole_field_survives(data, p, "SpawnY"@);
            lemma_whole_field_survives(data, p, "SpawnZ"@);
            if let Ok(version) = compound_field(data, "Version"@) {
                lemma_whole_field_survives(version, version_schema(), "Name"@);
            }
        }
    }
}

/// Rebuilds the spawn point from the three sibling keys `SpawnX`, `SpawnY`
/// and `SpawnZ` among the entries of `Data`.
pub fn tuple_from_spawn(entries: &Vec<(String, Tag)>) -> (r: Result<(i32, i32, i32), DecodeError>)
    ensures
        match spawn_of(entries_view(entries@)) {
            Ok(v) => r == Ok::<(i32, i32, i32), DecodeError>(v),
            Err(e) => r matches Err(x) && x@ == e,
        },
{
    flatten_triple(entries, "SpawnX", "SpawnY", "SpawnZ")
}

impl LevelData {
    /// Reads what the entries of `Data` hold.
    pub fn decode(entries: &Vec<(String, Tag)>) -> (r: Result<LevelData, DecodeError>)
        ensures
            match level_data_of(entries_view(entries@)) {
                Ok(data) => r matches Ok(found) && found@ == data,
                Err(e) => r matches Err(x) && x@ == e,
            },
    {
        let inner = match read_compound(entries, "Version") {
            Err(e) => {
                return Err(e);
            },
            Ok(inner) => inner,
        };
        let name = match read_text(inner, "Name") {
            Err(e) => {
                return Err(e);
            },
            Ok(name) => name,
        };
        let spawn = match tuple_from_spawn(entries) {
            Err(e) => {
                return Err(e);
            },
            Ok(spawn) => spawn,
        };
        Ok(LevelData { version: Version { name: name.clone() }, spawn })
    }
}

impl Level {
    /// The projection that keeps of a level document what a level is read
    /// from.
    pub fn projection() -> (p: Projection)
        ensures
            p@ == level_schema(),
    {
        let ghost none = Seq::<(Seq<char>, ProjectionM)>::empty();
        let mut version: Vec<(String, Projection)> = Vec::new();
        assert(fields_view(version@) =~= none);
        add_field(&mut version, "Name", Projection::Whole);
        assert(fields_view(version@) =~= seq![("Name"@, ProjectionM::Whole)]);
        let mut data: Vec<(String, Projection)> = Vec::new();
        assert(fields_view(data@) =~= none);
        add_field(&mut data, "Version", Projection::of(version));
        add_field(&mut data, "SpawnX", Projection::Whole);
        add_field(&mut data, "SpawnY", Projection::Whole);
        add_field(&mut data, "SpawnZ", Projection::Whole);
        assert(fields_view(data@) =~= seq![
            ("Version"@, version_schema()),
            ("SpawnX"@, ProjectionM::Whole),
            ("SpawnY"@, ProjectionM::Whole),
            ("SpawnZ"@, ProjectionM::Whole),
        ]);
        let mut level: Vec<(String, Projection)> = Vec::new();
        assert(fields_view(level@) =~= none);
        add_field(&mut level, "Data", Projection::of(data));
        assert(fields_view(level@) =~= seq![("Data"@, level_data_schema())]);
        Projection::of(level)
    }

    /// Reads a level off a level document.
    pub fn decode(doc: &Tag) -> (r: Result<Level, DecodeError>)
        ensures
            match level_of(doc@) {
                Ok(level) => r matches Ok(found) && found@ == level,
                Err(e) => r matches Err(x) && x@ == e,
            },
    {
        let entries = match doc.as_compound() {
            None => {
                return Err(DecodeError::TypeMismatch(Kind::Compound, doc.kind()));
            },
            Some(entries) => entries,
        };
        let inner = match read_compound(entries, "Data") {
            Err(e) => {
                return Err(e);
            },
            Ok(inner) => inner,
        };
        match LevelData::decode(inner) {
            Err(e) => Err(e),
            Ok(data) => Ok(Level { data }),
        }
    }

    /// Reads a level from the bytes of a level document. Of the document
    /// only the version name and the three spawn keys are built in memory.
    ///
    /// Bytes that do not spell out a document give `MalformedInput`; a
    /// document gives exactly what `decode` gives on the whole of it.
    pub fn from_bytes(bytes: &[u8]) -> (r: Result<Level, DecodeError>)
        ensures
            match document(bytes@) {
                None => r matches Err(x) && x@ == DecodeErrorM::MalformedInput,
                Some(doc) => match level_of(doc) {
                    Ok(level) => r matches Ok(found) && found@ == level,
                    Err(e) => r matches Err(x) && x@ == e,
                },
            },
    {
        let p = Level::projection();
        let kept = match select(bytes, &p) {
            Err(e) => {
                return Err(e);
            },
            Ok(kept) => kept,
        };
        proof {
            level_survives_pruning(document(bytes@)->Some_0);
        }
        Level::decode(&kept)
    }
}

} // verus!
