//! The record of a map item: how far it is zoomed out, where it is
//! centred, which banners are marked on it and what it shows.

use vstd::prelude::*;
use crate::banner_color::BannerColor;
use crate::dimension::Dimension;
use crate::error::DecodeError;
use crate::error::DecodeErrorM;
use crate::error::Kind;
use crate::error::Raw;
use crate::error::RawM;
use crate::fields::bool_field;
use crate::fields::bytes_field;
use crate::fields::compound_field;
use crate::fields::flatten_pair;
use crate::fields::flatten_triple;
use crate::fields::int_field;
use crate::fields::lemma_compound_field_pruned;
use crate::fields::lemma_list_field_pruned;
use crate::fields::lemma_whole_field_survives;
use crate::fields::list_field;
use crate::fields::pair;
use crate::fields::read_bool;
use crate::fields::read_bytes;
use crate::fields::read_compound;
use crate::fields::read_int;
use crate::fields::read_list;
use crate::fields::read_text;
use crate::fields::text_field;
use crate::fields::triple;
use crate::json::json_member;
use crate::json::name_text;
use crate::json::text_from_json;
use crate::projection::add_field;
use crate::projection::entry_plan;
use crate::projection::fields_view;
use crate::projection::lemma_plan_for_at;
use crate::projection::lemma_prune_items_index;
use crate::projection::prune;
use crate::projection::prune_items;
use crate::projection::Projection;
use crate::projection::ProjectionM;
use crate::scale::Scale;
use crate::select::document;
use crate::select::select;
use crate::tag::entries_view;
use crate::tag::items_view;
use crate::tag::EntriesM;
use crate::tag::Tag;
use crate::tag::TagM;

verus! {

/// A banner marked on a map.
#[derive(Debug, PartialEq, Eq)]
pub struct Banner {
    pub color: BannerColor,
    /// The visible text of the banner's name.
    pub name: String,
    /// Where the banner stands, as x, y and z.
    pub position: (i32, i32, i32),
}

/// A banner, as the contracts see it.
pub struct BannerM {
    pub color: BannerColor,
    pub name: Seq<char>,
    pub position: (i32, i32, i32),
}

impl View for Banner {
    type V = BannerM;

    open spec fn view(&self) -> BannerM {
        BannerM { color: self.color, name: self.name@, position: self.position }
    }
}

/// What a map record holds under `data`.
#[derive(Debug, PartialEq, Eq)]
pub struct MapData {
    pub scale: Scale,
    pub dimension: Dimension,
    pub unlimited_tracking: bool,
    /// The centre of the map, as x and z, rebuilt from two sibling keys.
    pub center: (i32, i32),
    pub banners: Vec<Banner>,
    /// One colour index for each point of the map.
    pub colors: Vec<u8>,
}

/// The data of a map, as the contracts see it.
pub struct MapDataM {
    pub scale: Scale,
    pub dimension: Dimension,
    pub unlimited_tracking: bool,
    pub center: (i32, i32),
    pub banners: Seq<BannerM>,
    pub colors: Seq<u8>,
}

/// What a vector of banners stands for.
pub open spec fn banners_view(banners: Seq<Banner>) -> Seq<BannerM> {
    Seq::new(banners.len(), |i: int| banners[i]@)
}

impl View for MapData {
    type V = MapDataM;

    open spec fn view(&self) -> MapDataM {
        MapDataM {
            scale: self.scale,
            dimension: self.dimension,
            unlimited_tracking: self.unlimited_tracking,
            center: self.center,
            banners: banners_view(self.banners@),
            colors: self.colors@,
        }
    }
}

/// The record of a map item.
#[derive(Debug, PartialEq, Eq)]
pub struct MapFile {
    pub data: MapData,
}

/// A map record, as the contracts see it.
pub struct MapFileM {
    pub data: MapDataM,
}

impl View for MapFile {
    type V = MapFileM;

    open spec fn view(&self) -> MapFileM {
        MapFileM { data: self.data@ }
    }
}

/// The zoom level under `scale`: an integer that has to be one of the five
/// known codes.
pub open spec fn scale_of(entries: EntriesM) -> Result<Scale, DecodeErrorM> {
    match int_field(entries, "scale"@) {
        Err(e) => Err(e),
        Ok(raw) => match Scale::of_code(raw as int) {
            Some(scale) => Ok(scale),
            None => Err(DecodeErrorM::UnknownEnumValue(RawM::Integer(raw))),
        },
    }
}

/// The dimension under `dimension`: a text that has to be one of the three
/// known names.
pub open spec fn dimension_of(entries: EntriesM) -> Result<Dimension, DecodeErrorM> {
    match text_field(entries, "dimension"@) {
        Err(e) => Err(e),
        Ok(raw) => match Dimension::of_name(raw) {
            Some(dimension) => Ok(dimension),
            None => Err(DecodeErrorM::UnknownEnumValue(RawM::Text(raw))),
        },
    }
}

/// The colour under `Color`: a text that has to be one of the sixteen known
/// names.
pub open spec fn color_of(entries: EntriesM) -> Result<BannerColor, DecodeErrorM> {
    match text_field(entries, "Color"@) {
        Err(e) => Err(e),
        Ok(raw) => match BannerColor::of_name(raw) {
            Some(color) => Ok(color),
            None => Err(DecodeErrorM::UnknownEnumValue(RawM::Text(raw))),
        },
    }
}

/// The centre of a map among the entries of `data`: the integers under
/// `xCenter` and `zCenter`, in that order.
pub open spec fn center_of(entries: EntriesM) -> Result<(i32, i32), DecodeErrorM> {
    pair(entries, "xCenter"@, "zCenter"@)
}

/// The position of a banner among the entries of `Pos`: the integers under
/// `X`, `Y` and `Z`, in that order.
pub open spec fn position_of(entries: EntriesM) -> Result<(i32, i32, i32), DecodeErrorM> {
    triple(entries, "X"@, "Y"@, "Z"@)
}

/// The visible text of the name under `Name`, which is written as JSON.
pub open spec fn banner_name_of(entries: EntriesM) -> Result<Seq<char>, DecodeErrorM> {
    match text_field(entries, "Name"@) {
        Err(e) => Err(e),
        Ok(raw) => name_text(json_member(raw, "text"@)),
    }
}

/// The banner that a list item holds. The colour is read first, then the
/// name, then the position.
pub open spec fn banner_of(t: TagM) -> Result<BannerM, DecodeErrorM> {
    match t {
        TagM::Compound(entries) => match color_of(entries) {
            Err(e) => Err(e),
            Ok(color) => match banner_name_of(entries) {
                Err(e) => Err(e),
                Ok(name) => match compound_field(entries, "Pos"@) {
                    Err(e) => Err(e),
                    Ok(pos) => match position_of(pos) {
                        Err(e) => Err(e),
                        Ok(position) => Ok(BannerM { color, name, position }),
                    },
                },
            },
        },
        _ => Err(DecodeErrorM::TypeMismatch(Kind::Compound, t.kind())),
    }
}

/// The banners read so far, put in front of what the rest gives.
pub open spec fn then_banners(found: Seq<BannerM>, more: Result<Seq<BannerM>, DecodeErrorM>)
    -> Result<Seq<BannerM>, DecodeErrorM> {
    match more {
        Ok(rest) => Ok(found + rest),
        Err(e) => Err(e),
    }
}

/// The banners that a run of list items holds, in their order. The first
/// item that fails decides the error.
pub open spec fn banners_of(items: Seq<TagM>) -> Result<Seq<BannerM>, DecodeErrorM>
    decreases items.len(),
{
    if items.len() == 0 {
        Ok(Seq::empty())
    } else {
        match banner_of(items[0]) {
            Err(e) => Err(e),
            Ok(first) => then_banners(seq![first], banners_of(items.skip(1))),
        }
    }
}

/// Signed bytes read as unsigned ones, bit for bit.
pub open spec fn unsigned(bytes: Seq<i8>) -> Seq<u8> {
    Seq::new(bytes.len(), |i: int| bytes[i] as u8)
}

/// What the entries of `data` hold. The fields are read in the order they
/// are declared in `MapData`.
pub open spec fn map_data_of(entries: EntriesM) -> Result<MapDataM, DecodeErrorM> {
    match scale_of(entries) {
        Err(e) => Err(e),
        Ok(scale) => match dimension_of(entries) {
            Err(e) => Err(e),
            Ok(dimension) => match bool_field(entries, "unlimitedTracking"@) {
                Err(e) => Err(e),
                Ok(unlimited_tracking) => match center_of(entries) {
                    Err(e) => Err(e),
                    Ok(center) => match list_field(entries, "banners"@) {
                        Err(e) => Err(e),
                        Ok(items) => match banners_of(items) {
                            Err(e) => Err(e),
                            Ok(banners) => match bytes_field(entries, "colors"@) {
                                Err(e) => Err(e),
                                Ok(bytes) => Ok(
                                    MapDataM {
                                        scale,
                                        dimension,
                                        unlimited_tracking,
                                        center,
                                        banners,
                                        colors: unsigned(bytes),
                                    },
                                ),
                            },
                        },
                    },
                },
            },
        },
    }
}

/// The map that a document holds.
pub open spec fn map_of(t: TagM) -> Result<MapFileM, DecodeErrorM> {
    match t {
        TagM::Compound(entries) => match compound_field(entries, "data"@) {
            Err(e) => Err(e),
            Ok(inner) => match map_data_of(inner) {
                Err(e) => Err(e),
                Ok(data) => Ok(MapFileM { data }),
            },
        },
        _ => Err(DecodeErrorM::TypeMismatch(Kind::Compound, t.kind())),
    }
}

/// What is kept of the entries of `Pos`.
pub open spec fn position_schema() -> ProjectionM {
    ProjectionM::Fields(
        seq![
            ("X"@, ProjectionM::Whole),
            ("Y"@, ProjectionM::Whole),
            ("Z"@, ProjectionM::Whole),
        ],
    )
}

/// What is kept of a banner.
pub open spec fn banner_schema() -> ProjectionM {
    ProjectionM::Fields(
        seq![
            ("Color"@, ProjectionM::Whole),
            ("Name"@, ProjectionM::Whole),
            ("Pos"@, position_schema()),
        ],
    )
}

/// What is kept of the entries of `data`.
pub open spec fn map_data_schema() -> ProjectionM {
    ProjectionM::Fields(
        seq![
            ("scale"@, ProjectionM::Whole),
            ("dimension"@, ProjectionM::Whole),
            ("unlimitedTracking"@, ProjectionM::Whole),
            ("xCenter"@, ProjectionM::Whole),
            ("zCenter"@, ProjectionM::Whole),
            ("banners"@, banner_schema()),
            ("colors"@, ProjectionM::Whole),
        ],
    )
}

/// What is kept of a map document.
pub open spec fn map_schema() -> ProjectionM {
    ProjectionM::Fields(seq![("data"@, map_data_schema())])
}

proof fn lemma_banner_plans()
    ensures
        entry_plan(banner_schema(), "Color"@) == Some(ProjectionM::Whole),
        entry_plan(banner_schema(), "Name"@) == Some(ProjectionM::Whole),
        entry_plan(banner_schema(), "Pos"@) == Some(position_schema()),
        entry_plan(position_schema(), "X"@) == Some(ProjectionM::Whole),
        entry_plan(position_schema(), "Y"@) == Some(ProjectionM::Whole),
        entry_plan(position_schema(), "Z"@) == Some(ProjectionM::Whole),
{
    reveal_strlit("Color");
    reveal_strlit("Name");
    reveal_strlit("Pos");
    reveal_strlit("X");
    reveal_strlit("Y");
    reveal_strlit("Z");
    assert("Color"@.len() == 5);
    assert("Name"@.len() == 4);
    assert("Pos"@.len() == 3);
    assert("X"@[0] == 'X' && "Y"@[0] == 'Y' && "Z"@[0] == 'Z');
    let banner = seq![
        ("Color"@, ProjectionM::Whole),
        ("Name"@, ProjectionM::Whole),
        ("Pos"@, position_schema()),
    ];
    lemma_plan_for_at(banner, 0);
    lemma_plan_for_at(banner, 1);
    lemma_plan_for_at(banner, 2);
    let position = seq![
        ("X"@, ProjectionM::Whole),
        ("Y"@, ProjectionM::Whole),
        ("Z"@, ProjectionM::Whole),
    ];
    lemma_plan_for_at(position, 0);
    lemma_plan_for_at(position, 1);
    lemma_plan_for_at(position, 2);
}

proof fn lemma_map_plans()
    ensures
        entry_plan(map_schema(), "data"@) == Some(map_data_schema()),
        entry_plan(map_data_schema(), "scale"@) == Some(ProjectionM::Whole),
        entry_plan(map_data_schema(), "dimension"@) == Some(ProjectionM::Whole),
        entry_plan(map_data_schema(), "unlimitedTracking"@) == Some(ProjectionM::Whole),
        entry_plan(map_data_schema(), "xCenter"@) == Some(ProjectionM::Whole),
        entry_plan(map_data_schema(), "zCenter"@) == Some(ProjectionM::Whole),
        entry_plan(map_data_schema(), "banners"@) == Some(banner_schema()),
        entry_plan(map_data_schema(), "colors"@) == Some(ProjectionM::Whole),
{
    reveal_strlit("scale");
    reveal_strlit("dimension");
    reveal_strlit("unlimitedTracking");
    reveal_strlit("xCenter");
    reveal_strlit("zCenter");
    reveal_strlit("banners");
    reveal_strlit("colors");
    assert("scale"@.len() == 5);
    assert("dimension"@.len() == 9);
    assert("unlimitedTracking"@.len() == 17);
    assert("xCenter"@.len() == 7 && "xCenter"@[0] == 'x');
    assert("zCenter"@.len() == 7 && "zCenter"@[0] == 'z');
    assert("banners"@.len() == 7 && "banners"@[0] == 'b');
    assert("colors"@.len() == 6);
    let data = seq![
        ("scale"@, ProjectionM::Whole),
        ("dimension"@, ProjectionM::Whole),
        ("unlimitedTracking"@, ProjectionM::Whole),
        ("xCenter"@, ProjectionM::Whole),
        ("zCenter"@, ProjectionM::Whole),
        ("banners"@, banner_schema()),
        ("colors"@, ProjectionM::Whole),
    ];
    lemma_plan_for_at(data, 0);
    lemma_plan_for_at(data, 1);
    lemma_plan_for_at(data, 2);
    lemma_plan_for_at(data, 3);
    lemma_plan_for_at(data, 4);
    lemma_plan_for_at(data, 5);
    lemma_plan_for_at(data, 6);
    lemma_plan_for_at(seq![("data"@, map_data_schema())], 0);
}

/// A banner gives what it gave once everything that `banner_schema` does
/// not keep is taken away.
pub proof fn banner_survives_pruning(t: TagM)
    ensures
        banner_of(prune(t, banner_schema())) == banner_of(t),
{
    lemma_banner_plans();
    if let TagM::Compound(entries) = t {
        let p = banner_schema();
        lemma_whole_field_survives(entries, p, "Color"@);
        lemma_whole_field_survives(entries, p, "Name"@);
        lemma_compound_field_pruned(entries, p, "Pos"@, position_schema());
        if let Ok(pos) = compound_field(entries, "Pos"@) {
            lemma_whole_field_survives(pos, position_schema(), "X"@);
            lemma_whole_field_survives(pos, position_schema(), "Y"@);
            lemma_whole_field_survives(pos, position_schema(), "Z"@);
        }
    }
}

/// A list of banners gives what it gave once everything that
/// `banner_schema` does not keep is taken away.
pub proof fn banners_survive_pruning(items: Seq<TagM>)
    ensures
        banners_of(prune_items(items, banner_schema())) == banners_of(items),
    decreases items.len(),
{
    let kept = prune_items(items, banner_schema());
    lemma_prune_items_index(items, banner_schema());
    if items.len() > 0 {
        banner_survives_pruning(items[0]);
        banners_survive_pruning(items.skip(1));
        lemma_prune_items_index(items.skip(1), banner_schema());
        assert(kept.skip(1) =~= prune_items(items.skip(1), banner_schema()));
    }
}

/// A map document gives the same map, or the same error, once everything
/// that `map_schema` does not keep is taken away.
pub proof fn map_survives_pruning(doc: TagM)
    ensures
        map_of(prune(doc, map_schema())) == map_of(doc),
{
    lemma_map_plans();
    if let TagM::Compound(entries) = doc {
        lemma_compound_field_pruned(entries, map_schema(), "data"@, map_data_schema());
        if let Ok(data) = compound_field(entries, "data"@) {
            let p = map_data_schema();
            lemma_whole_field_survives(data, p, "scale"@);
            lemma_whole_field_survives(data, p, "dimension"@);
            lemma_whole_field_survives(data, p, "unlimitedTracking"@);
            lemma_whole_field_survives(data, p, "xCenter"@);
            lemma_whole_field_survives(data, p, "zCenter"@);
            lemma_whole_field_survives(data, p, "colors"@);
            lemma_list_field_pruned(data, p, "banners"@, banner_schema());
            if let Ok(items) = list_field(data, "banners"@) {
                banners_survive_pruning(items);
            }
        }
    }
}

/// Rebuilds the centre of a map from the two sibling keys `xCenter` and
/// `zCenter` among the entries of `data`.
pub fn tuple_from_map_center(entries: &Vec<(String, Tag)>) -> (r: Result<(i32, i32), DecodeError>)
    ensures
        match center_of(entries_view(entries@)) {
            Ok(v) => r == Ok::<(i32, i32), DecodeError>(v),
            Err(e) => r matches Err(x) && x@ == e,
        },
{
    flatten_pair(entries, "xCenter", "zCenter")
}

/// Rebuilds the position of a banner from the three keys `X`, `Y` and `Z`
/// among the entries of `Pos`.
pub fn tuple_from_banner_position(entries: &Vec<(String, Tag)>) -> (r: Result<
    (i32, i32, i32),
    DecodeError,
>)
    ensures
        match position_of(entries_view(entries@)) {
            Ok(v) => r == Ok::<(i32, i32, i32), DecodeError>(v),
            Err(e) => r matches Err(x) && x@ == e,
        },
{
    flatten_triple(entries, "X", "Y", "Z")
}

/// Reads signed bytes as unsigned ones.
fn to_unsigned(bytes: &Vec<i8>) -> (r: Vec<u8>)
    ensures
        r@ == unsigned(bytes@),
{
    let mut out: Vec<u8> = Vec::new();
    let mut i: usize = 0;
    while i < bytes.len()
        invariant
            i <= bytes.len(),
            out@.len() == i,
            forall|j: int| 0 <= j < i ==> out@[j] == bytes@[j] as u8,
        decreases bytes.len() - i,
    {
        out.push(bytes[i] as u8);
        i = i + 1;
    }
    assert(out@ =~= unsigned(bytes@));
    out
}

impl Banner {
    /// Reads one banner off a list item.
    pub fn decode(item: &Tag) -> (r: Result<Banner, DecodeError>)
        ensures
            match banner_of(item@) {
                Ok(banner) => r matches Ok(found) && found@ == banner,
                Err(e) => r matches Err(x) && x@ == e,
            },
    {
        let entries = match item.as_compound() {
            None => {
                return Err(DecodeError::TypeMismatch(Kind::Compound, item.kind()));
            },
            Some(entries) => entries,
        };
        let raw_color = match read_text(entries, "Color") {
            Err(e) => {
                return Err(e);
            },
            Ok(raw) => raw,
        };
        let color = match BannerColor::try_from(raw_color.as_str()) {
            Err(unknown) => {
                return Err(DecodeError::UnknownEnumValue(Raw::Text(unknown.0)));
            },
            Ok(color) => color,
        };
        let raw_name = match read_text(entries, "Name") {
            Err(e) => {
                return Err(e);
            },
            Ok(raw) => raw,
        };
        let name = match text_from_json(raw_name.as_str()) {
            Err(e) => {
                return Err(e);
            },
            Ok(name) => name,
        };
        let pos = match read_compound(entries, "Pos") {
            Err(e) => {
                return Err(e);
            },
            Ok(pos) => pos,
        };
        let position = match tuple_from_banner_position(pos) {
            Err(e) => {
                return Err(e);
            },
            Ok(position) => position,
        };
        Ok(Banner { color, name, position })
    }
}

/// Reads the banners off the items of a list.
fn read_banners(items: &Vec<Tag>) -> (r: Result<Vec<Banner>, DecodeError>)
    ensures
        match banners_of(items_view(items@)) {
            Ok(banners) => r matches Ok(found) && banners_view(found@) == banners,
            Err(e) => r matches Err(x) && x@ == e,
        },
{
    let ghost all = items_view(items@);
    let mut found: Vec<Banner> = Vec::new();
    let mut i: usize = 0;
    proof {
        assert(all.skip(0) =~= all);
        if let Ok(rest) = banners_of(all) {
            assert(banners_view(found@) + rest =~= rest);
        }
    }
    while i < items.len()
        invariant
            i <= items.len(),
            all == items_view(items@),
            banners_of(all) == then_banners(banners_view(found@), banners_of(all.skip(i as int))),
        decreases items.len() - i,
    {
        let ghost rest = all.skip(i as int);
        let ghost before = banners_view(found@);
        assert(rest[0] == items[i as int]@);
        assert(rest.skip(1) =~= all.skip(i + 1));
        let banner = match Banner::decode(&items[i]) {
            Err(e) => {
                return Err(e);
            },
            Ok(banner) => banner,
        };
        let ghost one = banner@;
        found.push(banner);
        proof {
            assert(banners_view(found@) =~= before.push(one));
            if let Ok(more) = banners_of(rest.skip(1)) {
                assert(before.push(one) + more =~= before + (seq![one] + more));
            }
        }
        i = i + 1;
    }
    proof {
        assert(banners_view(found@) + Seq::<BannerM>::empty() =~= banners_view(found@));
    }
    Ok(found)
}

impl MapData {
    /// Reads what the entries of `data` hold.
    pub fn decode(entries: &Vec<(String, Tag)>) -> (r: Result<MapData, DecodeError>)
        ensures
            match map_data_of(entries_view(entries@)) {
                Ok(data) => r matches Ok(found) && found@ == data,
                Err(e) => r matches Err(x) && x@ == e,
            },
    {
        let raw_scale = match read_int(entries, "scale") {
            Err(e) => {
                return Err(e);
            },
            Ok(raw) => raw,
        };
        let scale = match Scale::try_from(raw_scale) {
            Err(unknown) => {
                return Err(DecodeError::UnknownEnumValue(Raw::Integer(unknown.0)));
            },
            Ok(scale) => scale,
        };
        let raw_dimension = match read_text(entries, "dimension") {
            Err(e) => {
                return Err(e);
            },
            Ok(raw) => raw,
        };
        let dimension = match Dimension::try_from(raw_dimension.as_str()) {
            Err(unknown) => {
                return Err(DecodeError::UnknownEnumValue(Raw::Text(unknown.0)));
            },
            Ok(dimension) => dimension,
        };
        let unlimited_tracking = match read_bool(entries, "unlimitedTracking") {
            Err(e) => {
                return Err(e);
            },
            Ok(flag) => flag,
        };
        let center = match tuple_from_map_center(entries) {
            Err(e) => {
                return Err(e);
            },
            Ok(center) => center,
        };
        let items = match read_list(entries, "banners") {
            Err(e) => {
                return Err(e);
            },
            Ok(items) => items,
        };
        let banners = match read_banners(items) {
            Err(e) => {
                return Err(e);
            },
            Ok(banners) => banners,
        };
        let bytes = match read_bytes(entries, "colors") {
            Err(e) => {
                return Err(e);
            },
            Ok(bytes) => bytes,
        };
        let colors = to_unsigned(bytes);
        Ok(MapData { scale, dimension, unlimited_tracking, center, banners, colors })
    }
}

impl MapFile {
    /// The projection that keeps of a map document what a map is read
    /// from.
    pub fn projection() -> (p: Projection)
        ensures
            p@ == map_schema(),
    {
        let ghost none = Seq::<(Seq<char>, ProjectionM)>::empty();
        let mut position: Vec<(String, Projection)> = Vec::new();
        assert(fields_view(position@) =~= none);
        add_field(&mut position, "X", Projection::Whole);
        add_field(&mut position, "Y", Projection::Whole);
        add_field(&mut position, "Z", Projection::Whole);
        assert(fields_view(position@) =~= seq![
            ("X"@, ProjectionM::Whole),
            ("Y"@, ProjectionM::Whole),
            ("Z"@, ProjectionM::Whole),
        ]);
        let mut banner: Vec<(String, Projection)> = Vec::new();
        assert(fields_view(banner@) =~= none);
        add_field(&mut banner, "Color", Projection::Whole);
        add_field(&mut banner, "Name", Projection::Whole);
        add_field(&mut banner, "Pos", Projection::of(position));
        assert(fields_view(banner@) =~= seq![
            ("Color"@, ProjectionM::Whole),
            ("Name"@, ProjectionM::Whole),
            ("Pos"@, position_schema()),
        ]);
        let mut data: Vec<(String, Projection)> = Vec::new();
        assert(fields_view(data@) =~= none);
        add_field(&mut data, "scale", Projection::Whole);
        add_field(&mut data, "dimension", Projection::Whole);
        add_field(&mut data, "unlimitedTracking", Projection::Whole);
        add_field(&mut data, "xCenter", Projection::Whole);
        add_field(&mut data, "zCenter", Projection::Whole);
        add_field(&mut data, "banners", Projection::of(banner));
        add_field(&mut data, "colors", Projection::Whole);
        assert(fields_view(data@) =~= seq![
            ("scale"@, ProjectionM::Whole),
            ("dimension"@, ProjectionM::Whole),
            ("unlimitedTracking"@, ProjectionM::Whole),
            ("xCenter"@, ProjectionM::Whole),
            ("zCenter"@, ProjectionM::Whole),
            ("banners"@, banner_schema()),
            ("colors"@, ProjectionM::Whole),
        ]);
        let mut map: Vec<(String, Projection)> = Vec::new();
        assert(fields_view(map@) =~= none);
        add_field(&mut map, "data", Projection::of(data));
        assert(fields_view(map@) =~= seq![("data"@, map_data_schema())]);
        Projection::of(map)
    }

    /// Reads a map off a map document.
    pub fn decode(doc: &Tag) -> (r: Result<MapFile, DecodeError>)
        ensures
            match map_of(doc@) {
                Ok(map) => r matches Ok(found) && found@ == map,
                Err(e) => r matches Err(x) && x@ == e,
            },
    {
        let entries = match doc.as_compound() {
            None => {
                return Err(DecodeError::TypeMismatch(Kind::Compound, doc.kind()));
            },
            Some(entries) => entries,
        };
        let inner = match read_compound(entries, "data") {
            Err(e) => {
                return Err(e);
            },
            Ok(inner) => inner,
        };
        match MapData::decode(inner) {
            Err(e) => Err(e),
            Ok(data) => Ok(MapFile { data }),
        }
    }

    /// Reads a map from the bytes of a map document. Of the document only
    /// the fields of `MapData` are built in memory.
    ///
    /// Bytes that do not spell out a document give `MalformedInput`; a
    /// document gives exactly what `decode` gives on the whole of it.
    pub fn from_bytes(bytes: &[u8]) -> (r: Result<MapFile, DecodeError>)
        ensures
            match document(bytes@) {
                None => r matches Err(x) && x@ == DecodeErrorM::MalformedInput,
                Some(doc) => match map_of(doc) {
                    Ok(map) => r matches Ok(found) && found@ == map,
                    Err(e) => r matches Err(x) && x@ == e,
                },
            },
    {
        let p = MapFile::projection();
        let kept = match select(bytes, &p) {
            Err(e) => {
                return Err(e);
            },
            Ok(kept) => kept,
        };
        proof {
            map_survives_pruning(document(bytes@)->Some_0);
        }
        MapFile::decode(&kept)
    }
}

} // verus!
