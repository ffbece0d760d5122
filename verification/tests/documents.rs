use nbt_select::error::DecodeError;
use nbt_select::error::Kind;
use nbt_select::error::Raw;
use nbt_select::banner_color::BannerColor;
use nbt_select::dimension::Dimension;
use nbt_select::fields::flatten;
use nbt_select::fields::flatten_pair;
use nbt_select::fields::flatten_triple;
use nbt_select::fields::read_bool;
use nbt_select::fields::read_int;
use nbt_select::level::tuple_from_spawn;
use nbt_select::level::Level;
use nbt_select::level::LevelData;
use nbt_select::level::Version;
use nbt_select::map::tuple_from_banner_position;
use nbt_select::map::tuple_from_map_center;
use nbt_select::map::Banner;
use nbt_select::map::MapFile;
use nbt_select::player::ItemStructure;
use nbt_select::player::PlayerMapIds;
use nbt_select::projection::Projection;
use nbt_select::scale::Scale;
use nbt_select::select::select;
use nbt_select::tag::find;
use nbt_select::tag::Leaf;
use nbt_select::tag::Tag;

// Building trees.

fn text(s: &str) -> Tag {
    Tag::Leaf(Leaf::Text(s.to_string()))
}

fn whole(v: i32) -> Tag {
    Tag::Leaf(Leaf::Int(v))
}

fn compound(entries: Vec<(&str, Tag)>) -> Tag {
    Tag::Compound(entries.into_iter().map(|(k, v)| (k.to_string(), v)).collect())
}

fn entries(list: Vec<(&str, Tag)>) -> Vec<(String, Tag)> {
    list.into_iter().map(|(k, v)| (k.to_string(), v)).collect()
}

fn map_item(number: i32) -> Tag {
    compound(vec![
        ("id", text("minecraft:filled_map")),
        ("Count", Tag::Leaf(Leaf::Byte(1))),
        ("tag", compound(vec![("map", whole(number))])),
    ])
}

fn stick() -> Tag {
    compound(vec![("id", text("minecraft:stick")), ("Count", Tag::Leaf(Leaf::Byte(3)))])
}

// Building bytes.

fn named(tag: u8, name: &str, payload: Vec<u8>) -> Vec<u8> {
    let mut out = vec![tag];
    out.extend_from_slice(&(name.len() as u16).to_be_bytes());
    out.extend_from_slice(name.as_bytes());
    out.extend(payload);
    out
}

fn b_byte(name: &str, v: i8) -> Vec<u8> {
    named(1, name, vec![v as u8])
}

fn b_short(name: &str, v: i16) -> Vec<u8> {
    named(2, name, v.to_be_bytes().to_vec())
}

fn b_int(name: &str, v: i32) -> Vec<u8> {
    named(3, name, v.to_be_bytes().to_vec())
}

fn b_long(name: &str, v: i64) -> Vec<u8> {
    named(4, name, v.to_be_bytes().to_vec())
}

fn b_double(name: &str, bits: u64) -> Vec<u8> {
    named(6, name, bits.to_be_bytes().to_vec())
}

fn p_text(s: &str) -> Vec<u8> {
    let mut out = (s.len() as u16).to_be_bytes().to_vec();
    out.extend_from_slice(s.as_bytes());
    out
}

fn b_text(name: &str, s: &str) -> Vec<u8> {
    named(8, name, p_text(s))
}

fn b_bytes(name: &str, data: &[i8]) -> Vec<u8> {
    let mut out = (data.len() as i32).to_be_bytes().to_vec();
    out.extend(data.iter().map(|b| *b as u8));
    named(7, name, out)
}

fn b_longs(name: &str, data: &[i64]) -> Vec<u8> {
    let mut out = (data.len() as i32).to_be_bytes().to_vec();
    for v in data {
        out.extend_from_slice(&v.to_be_bytes());
    }
    named(12, name, out)
}

fn p_compound(parts: Vec<Vec<u8>>) -> Vec<u8> {
    let mut out: Vec<u8> = parts.into_iter().flatten().collect();
    out.push(0);
    out
}

fn b_compound(name: &str, parts: Vec<Vec<u8>>) -> Vec<u8> {
    named(10, name, p_compound(parts))
}

fn b_list(name: &str, elem: u8, len: i32, payloads: Vec<Vec<u8>>) -> Vec<u8> {
    let mut out = vec![elem];
    out.extend_from_slice(&len.to_be_bytes());
    out.extend(payloads.into_iter().flatten());
    named(9, name, out)
}

fn b_items(name: &str, items: Vec<Vec<u8>>) -> Vec<u8> {
    b_list(name, 10, items.len() as i32, items)
}

fn root(parts: Vec<Vec<u8>>) -> Vec<u8> {
    b_compound("", parts)
}

fn p_map_item(number: i32) -> Vec<u8> {
    p_compound(vec![
        b_byte("Slot", 0),
        b_text("id", "minecraft:filled_map"),
        b_byte("Count", 1),
        b_compound("tag", vec![b_int("map", number)]),
    ])
}

fn p_stick() -> Vec<u8> {
    p_compound(vec![b_text("id", "minecraft:stick"), b_byte("Count", 3)])
}

// Looking keys up.

#[test]
fn find_takes_the_first_of_a_repeated_key() {
    let e = entries(vec![("a", whole(1)), ("b", whole(2)), ("a", whole(3))]);
    assert_eq!(find(&e, "a"), Some(&whole(1)));
    assert_eq!(find(&e, "b"), Some(&whole(2)));
    assert_eq!(find(&e, "c"), None);
    assert_eq!(find(&Vec::new(), "a"), None);
}

#[test]
fn integers_of_any_width_are_read() {
    let e = entries(vec![
        ("b", Tag::Leaf(Leaf::Byte(-5))),
        ("s", Tag::Leaf(Leaf::Short(300))),
        ("i", whole(70000)),
        ("l", Tag::Leaf(Leaf::Long(-9))),
        ("big", Tag::Leaf(Leaf::Long(5_000_000_000))),
        ("edge", Tag::Leaf(Leaf::Long(2_147_483_647))),
        ("low", Tag::Leaf(Leaf::Long(-2_147_483_648))),
        ("over", Tag::Leaf(Leaf::Long(2_147_483_648))),
    ]);
    assert_eq!(read_int(&e, "b"), Ok(-5));
    assert_eq!(read_int(&e, "s"), Ok(300));
    assert_eq!(read_int(&e, "i"), Ok(70000));
    assert_eq!(read_int(&e, "l"), Ok(-9));
    assert_eq!(read_int(&e, "edge"), Ok(2_147_483_647));
    assert_eq!(read_int(&e, "low"), Ok(-2_147_483_648));
    assert_eq!(read_int(&e, "big"), Err(DecodeError::TypeMismatch(Kind::Int, Kind::Long)));
    assert_eq!(read_int(&e, "over"), Err(DecodeError::TypeMismatch(Kind::Int, Kind::Long)));
    assert_eq!(read_int(&e, "none"), Err(DecodeError::MissingField("none".to_string())));
}

#[test]
fn truth_values_are_integers_that_are_not_zero() {
    let e = entries(vec![
        ("yes", Tag::Leaf(Leaf::Byte(1))),
        ("no", Tag::Leaf(Leaf::Byte(0))),
        ("odd", whole(-7)),
        ("word", text("true")),
    ]);
    assert_eq!(read_bool(&e, "yes"), Ok(true));
    assert_eq!(read_bool(&e, "no"), Ok(false));
    assert_eq!(read_bool(&e, "odd"), Ok(true));
    assert_eq!(read_bool(&e, "word"), Err(DecodeError::TypeMismatch(Kind::Byte, Kind::Text)));
    assert_eq!(read_bool(&e, "gone"), Err(DecodeError::MissingField("gone".to_string())));
}

// Composite fields.

#[test]
fn composite_is_the_same_in_every_key_order() {
    let orders: Vec<Vec<(&str, Tag)>> = vec![
        vec![("SpawnX", whole(1)), ("SpawnY", whole(2)), ("SpawnZ", whole(3))],
        vec![("SpawnX", whole(1)), ("SpawnZ", whole(3)), ("SpawnY", whole(2))],
        vec![("SpawnY", whole(2)), ("SpawnX", whole(1)), ("SpawnZ", whole(3))],
        vec![("SpawnY", whole(2)), ("SpawnZ", whole(3)), ("SpawnX", whole(1))],
        vec![("SpawnZ", whole(3)), ("SpawnX", whole(1)), ("SpawnY", whole(2))],
        vec![("SpawnZ", whole(3)), ("SpawnY", whole(2)), ("SpawnX", whole(1))],
    ];
    for order in orders {
        assert_eq!(tuple_from_spawn(&entries(order)), Ok((1, 2, 3)));
    }
}

#[test]
fn composite_with_a_sibling_missing_fails() {
    let no_x = entries(vec![("SpawnY", whole(2)), ("SpawnZ", whole(3))]);
    let no_y = entries(vec![("SpawnX", whole(1)), ("SpawnZ", whole(3))]);
    let no_z = entries(vec![("SpawnX", whole(1)), ("SpawnY", whole(2))]);
    assert_eq!(tuple_from_spawn(&no_x), Err(DecodeError::MissingField("SpawnX".to_string())));
    assert_eq!(tuple_from_spawn(&no_y), Err(DecodeError::MissingField("SpawnY".to_string())));
    assert_eq!(tuple_from_spawn(&no_z), Err(DecodeError::MissingField("SpawnZ".to_string())));
    assert_eq!(
        tuple_from_spawn(&Vec::new()),
        Err(DecodeError::MissingField("SpawnX".to_string()))
    );
}

#[test]
fn composite_with_a_sibling_of_the_wrong_kind_fails() {
    let e = entries(vec![("SpawnX", whole(1)), ("SpawnY", text("2")), ("SpawnZ", whole(3))]);
    assert_eq!(tuple_from_spawn(&e), Err(DecodeError::TypeMismatch(Kind::Int, Kind::Text)));
}

#[test]
fn map_center_is_x_then_z() {
    let e = entries(vec![("zCenter", whole(-64)), ("scale", whole(1)), ("xCenter", whole(192))]);
    assert_eq!(tuple_from_map_center(&e), Ok((192, -64)));
    let only_z = entries(vec![("zCenter", whole(-64))]);
    assert_eq!(
        tuple_from_map_center(&only_z),
        Err(DecodeError::MissingField("xCenter".to_string()))
    );
    let only_x = entries(vec![("xCenter", whole(5))]);
    assert_eq!(
        tuple_from_map_center(&only_x),
        Err(DecodeError::MissingField("zCenter".to_string()))
    );
}

#[test]
fn banner_position_is_x_y_z() {
    let e = entries(vec![("Z", whole(30)), ("Y", whole(64)), ("X", whole(-10))]);
    assert_eq!(tuple_from_banner_position(&e), Ok((-10, 64, 30)));
    let lower = entries(vec![("x", whole(1)), ("y", whole(2)), ("z", whole(3))]);
    assert_eq!(
        tuple_from_banner_position(&lower),
        Err(DecodeError::MissingField("X".to_string()))
    );
}

#[test]
fn flatten_reads_the_named_siblings() {
    let e = entries(vec![("c", whole(3)), ("a", whole(1)), ("b", whole(2)), ("a", whole(9))]);
    assert_eq!(flatten_pair(&e, "a", "b"), Ok((1, 2)));
    assert_eq!(flatten_pair(&e, "b", "a"), Ok((2, 1)));
    assert_eq!(flatten_triple(&e, "c", "b", "a"), Ok((3, 2, 1)));
    assert_eq!(flatten_triple(&e, "a", "b", "d"), Err(DecodeError::MissingField("d".to_string())));
}

#[test]
fn flatten_of_any_number_of_siblings() {
    let e = entries(vec![("d", whole(4)), ("a", whole(1)), ("c", whole(3)), ("b", whole(2))]);
    let shuffled = entries(vec![("b", whole(2)), ("c", whole(3)), ("a", whole(1)), ("d", whole(4))]);
    assert_eq!(flatten(&e, &vec!["a", "b", "c", "d"]), Ok(vec![1, 2, 3, 4]));
    assert_eq!(flatten(&shuffled, &vec!["a", "b", "c", "d"]), Ok(vec![1, 2, 3, 4]));
    assert_eq!(flatten(&e, &vec!["d", "a"]), Ok(vec![4, 1]));
    assert_eq!(flatten(&e, &vec![]), Ok(vec![]));
    assert_eq!(
        flatten(&e, &vec!["a", "x", "y"]),
        Err(DecodeError::MissingField("x".to_string()))
    );
    let three_of_four = entries(vec![("a", whole(1)), ("c", whole(3)), ("d", whole(4))]);
    assert_eq!(
        flatten(&three_of_four, &vec!["a", "b", "c", "d"]),
        Err(DecodeError::MissingField("b".to_string()))
    );
}

// Item records.

#[test]
fn filled_map_item_gives_its_number() {
    assert_eq!(ItemStructure::decode(&map_item(7)), Ok(ItemStructure(Some(7))));
    assert_eq!(ItemStructure::decode_eager(&map_item(7)), Ok(ItemStructure(Some(7))));
}

#[test]
fn map_number_of_any_integer_width() {
    for number in [
        Tag::Leaf(Leaf::Byte(5)),
        Tag::Leaf(Leaf::Short(5)),
        Tag::Leaf(Leaf::Int(5)),
        Tag::Leaf(Leaf::Long(5)),
    ] {
        let item = compound(vec![
            ("id", text("minecraft:filled_map")),
            ("tag", compound(vec![("map", number)])),
        ]);
        assert_eq!(ItemStructure::decode(&item), Ok(ItemStructure(Some(5))));
    }
    let wide = compound(vec![
        ("id", text("minecraft:filled_map")),
        ("tag", compound(vec![("map", Tag::Leaf(Leaf::Long(9_000_000_000)))])),
    ]);
    assert_eq!(ItemStructure::decode(&wide), Ok(ItemStructure(Some(9_000_000_000))));
}

#[test]
fn tag_before_id_gives_the_same() {
    let item = compound(vec![
        ("tag", compound(vec![("display", text("x")), ("map", whole(12))])),
        ("id", text("minecraft:filled_map")),
    ]);
    assert_eq!(ItemStructure::decode(&item), Ok(ItemStructure(Some(12))));
    assert_eq!(ItemStructure::decode_eager(&item), Ok(ItemStructure(Some(12))));
}

#[test]
fn other_item_gives_nothing() {
    assert_eq!(ItemStructure::decode(&stick()), Ok(ItemStructure(None)));
    assert_eq!(ItemStructure::decode_eager(&stick()), Ok(ItemStructure(None)));
}

#[test]
fn other_item_with_a_malformed_payload_is_passed_over() {
    let broken = vec![
        compound(vec![("id", text("minecraft:stick")), ("tag", whole(5))]),
        compound(vec![("id", text("minecraft:stick")), ("tag", compound(vec![]))]),
        compound(vec![
            ("id", text("minecraft:stick")),
            ("tag", compound(vec![("map", text("seven"))])),
        ]),
        compound(vec![("tag", Tag::List(vec![])), ("id", text("minecraft:map"))]),
    ];
    for item in broken {
        assert_eq!(ItemStructure::decode(&item), Ok(ItemStructure(None)));
    }
}

#[test]
fn eager_reading_rejects_a_malformed_payload_of_any_item() {
    let not_compound = compound(vec![("id", text("minecraft:stick")), ("tag", whole(5))]);
    assert_eq!(
        ItemStructure::decode_eager(&not_compound),
        Err(DecodeError::TypeMismatch(Kind::Compound, Kind::Int))
    );
    let no_map = compound(vec![("id", text("minecraft:stick")), ("tag", compound(vec![]))]);
    assert_eq!(
        ItemStructure::decode_eager(&no_map),
        Err(DecodeError::MissingField("map".to_string()))
    );
}

#[test]
fn item_without_id_is_not_of_interest() {
    let item = compound(vec![("tag", compound(vec![("map", whole(3))]))]);
    assert_eq!(ItemStructure::decode(&item), Ok(ItemStructure(None)));
    assert_eq!(ItemStructure::decode_eager(&item), Ok(ItemStructure(None)));
    assert_eq!(ItemStructure::decode(&compound(vec![])), Ok(ItemStructure(None)));
}

#[test]
fn filled_map_without_tag_is_an_error() {
    let item = compound(vec![("id", text("minecraft:filled_map")), ("Count", whole(1))]);
    assert_eq!(ItemStructure::decode(&item), Err(DecodeError::MissingField("tag".to_string())));
    assert_eq!(
        ItemStructure::decode_eager(&item),
        Err(DecodeError::MissingField("tag".to_string()))
    );
}

#[test]
fn filled_map_with_a_wrong_payload_is_an_error() {
    let flat = compound(vec![("id", text("minecraft:filled_map")), ("tag", text("map"))]);
    assert_eq!(
        ItemStructure::decode(&flat),
        Err(DecodeError::TypeMismatch(Kind::Compound, Kind::Text))
    );
    let empty = compound(vec![("id", text("minecraft:filled_map")), ("tag", compound(vec![]))]);
    assert_eq!(ItemStructure::decode(&empty), Err(DecodeError::MissingField("map".to_string())));
    let word = compound(vec![
        ("id", text("minecraft:filled_map")),
        ("tag", compound(vec![("map", text("seven"))])),
    ]);
    assert_eq!(
        ItemStructure::decode(&word),
        Err(DecodeError::TypeMismatch(Kind::Long, Kind::Text))
    );
}

#[test]
fn id_that_is_no_text_is_an_error() {
    let item = compound(vec![("id", whole(358)), ("tag", compound(vec![("map", whole(3))]))]);
    assert_eq!(ItemStructure::decode(&item), Err(DecodeError::TypeMismatch(Kind::Text, Kind::Int)));
    assert_eq!(
        ItemStructure::decode_eager(&item),
        Err(DecodeError::TypeMismatch(Kind::Text, Kind::Int))
    );
}

#[test]
fn item_that_is_no_compound_is_an_error() {
    assert_eq!(
        ItemStructure::decode(&whole(4)),
        Err(DecodeError::TypeMismatch(Kind::Compound, Kind::Int))
    );
    assert_eq!(
        ItemStructure::decode(&Tag::List(vec![])),
        Err(DecodeError::TypeMismatch(Kind::Compound, Kind::List))
    );
}

#[test]
fn first_id_decides() {
    let item = compound(vec![
        ("id", text("minecraft:stick")),
        ("id", text("minecraft:filled_map")),
        ("tag", compound(vec![("map", whole(3))])),
    ]);
    assert_eq!(ItemStructure::decode(&item), Ok(ItemStructure(None)));
}

// Players.

#[test]
fn containers_add_up_in_document_order() {
    let doc = compound(vec![
        ("Inventory", Tag::List(vec![map_item(10), stick(), map_item(20)])),
        ("EnderItems", Tag::List(vec![map_item(30)])),
    ]);
    assert_eq!(PlayerMapIds::decode(&doc), Ok(PlayerMapIds(vec![10, 20, 30])));
}

#[test]
fn absent_or_empty_container_adds_nothing() {
    let absent = compound(vec![("Inventory", Tag::List(vec![map_item(10), map_item(20)]))]);
    assert_eq!(PlayerMapIds::decode(&absent), Ok(PlayerMapIds(vec![10, 20])));
    let empty = compound(vec![
        ("Inventory", Tag::List(vec![map_item(10), map_item(20)])),
        ("EnderItems", Tag::List(vec![])),
    ]);
    assert_eq!(PlayerMapIds::decode(&empty), Ok(PlayerMapIds(vec![10, 20])));
    assert_eq!(PlayerMapIds::decode(&compound(vec![])), Ok(PlayerMapIds(vec![])));
}

#[test]
fn numbers_are_neither_sorted_nor_deduplicated() {
    let doc = compound(vec![
        ("EnderItems", Tag::List(vec![map_item(30), map_item(5)])),
        ("Inventory", Tag::List(vec![map_item(30), map_item(20), map_item(20)])),
    ]);
    assert_eq!(PlayerMapIds::decode(&doc), Ok(PlayerMapIds(vec![30, 5, 30, 20, 20])));
}

#[test]
fn unknown_keys_change_nothing() {
    let bare = compound(vec![
        ("Inventory", Tag::List(vec![map_item(10), map_item(20)])),
        ("EnderItems", Tag::List(vec![map_item(30)])),
    ]);
    let noisy = compound(vec![
        ("Health", Tag::Leaf(Leaf::Other)),
        ("Inventory", Tag::List(vec![map_item(10), map_item(20)])),
        ("Pos", Tag::List(vec![Tag::Leaf(Leaf::Other), Tag::Leaf(Leaf::Other)])),
        ("abilities", compound(vec![("flying", Tag::Leaf(Leaf::Byte(0)))])),
        ("EnderItems", Tag::List(vec![map_item(30)])),
        ("inventory", text("not a container")),
    ]);
    assert_eq!(PlayerMapIds::decode(&noisy), PlayerMapIds::decode(&bare));
    assert_eq!(PlayerMapIds::decode(&noisy), Ok(PlayerMapIds(vec![10, 20, 30])));
}

#[test]
fn container_that_is_no_list_is_an_error() {
    let doc = compound(vec![("Inventory", text("empty"))]);
    assert_eq!(PlayerMapIds::decode(&doc), Err(DecodeError::TypeMismatch(Kind::List, Kind::Text)));
    assert_eq!(
        PlayerMapIds::decode(&whole(1)),
        Err(DecodeError::TypeMismatch(Kind::Compound, Kind::Int))
    );
}

#[test]
fn first_failing_item_decides_the_error() {
    let doc = compound(vec![
        (
            "Inventory",
            Tag::List(vec![
                map_item(1),
                compound(vec![("id", text("minecraft:filled_map"))]),
                compound(vec![("id", whole(3))]),
            ]),
        ),
        ("EnderItems", text("broken")),
    ]);
    assert_eq!(PlayerMapIds::decode(&doc), Err(DecodeError::MissingField("tag".to_string())));
}

#[test]
fn end_to_end_scenario() {
    let bytes = root(vec![b_items("Inventory", vec![p_map_item(7), p_stick()])]);
    assert_eq!(PlayerMapIds::from_bytes(&bytes), Ok(PlayerMapIds(vec![7])));
}

#[test]
fn player_bytes_with_both_containers() {
    let bytes = root(vec![
        b_items("Inventory", vec![p_map_item(10), p_stick(), p_map_item(20)]),
        b_items("EnderItems", vec![p_map_item(30)]),
    ]);
    assert_eq!(PlayerMapIds::from_bytes(&bytes), Ok(PlayerMapIds(vec![10, 20, 30])));
    let chest_first = root(vec![
        b_items("EnderItems", vec![p_map_item(30)]),
        b_items("Inventory", vec![p_map_item(10), p_map_item(20)]),
    ]);
    assert_eq!(PlayerMapIds::from_bytes(&chest_first), Ok(PlayerMapIds(vec![30, 10, 20])));
}

#[test]
fn player_bytes_with_unknown_keys_interleaved() {
    let bare = root(vec![
        b_items("Inventory", vec![p_map_item(10), p_map_item(20)]),
        b_items("EnderItems", vec![p_map_item(30)]),
    ]);
    let noisy = root(vec![
        b_int("DataVersion", 2586),
        b_list("Pos", 6, 3, vec![vec![0; 8], vec![0; 8], vec![0; 8]]),
        b_items("Inventory", vec![p_map_item(10), p_map_item(20)]),
        b_compound(
            "abilities",
            vec![b_byte("flying", 0), b_compound("deep", vec![b_list("l", 0, 0, vec![])])],
        ),
        b_longs("UUID", &[1, 2]),
        b_double("Health", 0x4034_0000_0000_0000),
        b_items("EnderItems", vec![p_map_item(30)]),
        b_short("Air", 300),
        b_long("Seed", -1),
        b_bytes("blob", &[1, -2, 3]),
        b_list("Inventories", 10, 1, vec![p_map_item(99)]),
    ]);
    assert_eq!(PlayerMapIds::from_bytes(&noisy), PlayerMapIds::from_bytes(&bare));
    assert_eq!(PlayerMapIds::from_bytes(&noisy), Ok(PlayerMapIds(vec![10, 20, 30])));
}

#[test]
fn player_bytes_with_an_empty_list_of_no_kind() {
    let bytes = root(vec![
        b_list("Inventory", 0, 0, vec![]),
        b_items("EnderItems", vec![p_map_item(4)]),
    ]);
    assert_eq!(PlayerMapIds::from_bytes(&bytes), Ok(PlayerMapIds(vec![4])));
}

#[test]
fn player_bytes_with_a_malformed_other_item() {
    let odd = p_compound(vec![b_text("id", "minecraft:stick"), b_int("tag", 5)]);
    let bytes = root(vec![b_items("Inventory", vec![odd, p_map_item(8)])]);
    assert_eq!(PlayerMapIds::from_bytes(&bytes), Ok(PlayerMapIds(vec![8])));
}

#[test]
fn player_bytes_with_a_filled_map_without_tag() {
    let bare = p_compound(vec![b_text("id", "minecraft:filled_map")]);
    let bytes = root(vec![b_items("Inventory", vec![bare])]);
    assert_eq!(
        PlayerMapIds::from_bytes(&bytes),
        Err(DecodeError::MissingField("tag".to_string()))
    );
}

#[test]
fn bytes_that_are_no_document_are_malformed() {
    assert_eq!(PlayerMapIds::from_bytes(&[]), Err(DecodeError::MalformedInput));
    assert_eq!(PlayerMapIds::from_bytes(&[10]), Err(DecodeError::MalformedInput));
    assert_eq!(PlayerMapIds::from_bytes(&[200, 0, 0]), Err(DecodeError::MalformedInput));
    assert_eq!(PlayerMapIds::from_bytes(&b_int("", 5)), Err(DecodeError::MalformedInput));
    let whole = root(vec![b_items("Inventory", vec![p_map_item(7), p_stick()])]);
    for cut in 0..whole.len() {
        assert_eq!(PlayerMapIds::from_bytes(&whole[..cut]), Err(DecodeError::MalformedInput));
    }
}

#[test]
fn malformed_bytes_win_over_a_wrong_shape() {
    let mut bytes = root(vec![b_text("Inventory", "none"), b_int("x", 1)]);
    bytes.pop();
    assert_eq!(PlayerMapIds::from_bytes(&bytes), Err(DecodeError::MalformedInput));
}

#[test]
fn list_headers_that_cannot_be_followed_are_malformed() {
    let negative = root(vec![b_list("Inventory", 10, -1, vec![])]);
    assert_eq!(PlayerMapIds::from_bytes(&negative), Err(DecodeError::MalformedInput));
    let lowest = root(vec![b_list("other", 1, i32::MIN, vec![])]);
    assert_eq!(PlayerMapIds::from_bytes(&lowest), Err(DecodeError::MalformedInput));
    let of_end = root(vec![b_list("other", 0, 2, vec![vec![0], vec![0]])]);
    assert_eq!(PlayerMapIds::from_bytes(&of_end), Err(DecodeError::MalformedInput));
    let of_end_wanted = root(vec![b_list("Inventory", 0, 1, vec![vec![0]])]);
    assert_eq!(PlayerMapIds::from_bytes(&of_end_wanted), Err(DecodeError::MalformedInput));
}

#[test]
fn what_follows_the_document_is_not_read() {
    let mut bytes = root(vec![b_items("Inventory", vec![p_map_item(7)])]);
    bytes.extend_from_slice(&[255, 255, 255]);
    assert_eq!(PlayerMapIds::from_bytes(&bytes), Ok(PlayerMapIds(vec![7])));
}

// Selecting.

#[test]
fn select_whole_builds_the_document() {
    let bytes = root(vec![
        b_int("a", 5),
        b_compound("c", vec![b_text("t", "x"), b_bytes("b", &[1, -1])]),
        b_list("l", 2, 2, vec![vec![0, 7], vec![255, 255]]),
        b_double("d", 1),
    ]);
    let expected = compound(vec![
        ("a", whole(5)),
        (
            "c",
            compound(vec![("t", text("x")), ("b", Tag::Leaf(Leaf::Bytes(vec![1, -1])))]),
        ),
        ("l", Tag::List(vec![Tag::Leaf(Leaf::Short(7)), Tag::Leaf(Leaf::Short(-1))])),
        ("d", Tag::Leaf(Leaf::Other)),
    ]);
    assert_eq!(select(&bytes, &Projection::Whole), Ok(expected));
}

#[test]
fn select_keeps_only_what_is_named() {
    let bytes = root(vec![
        b_int("a", 5),
        b_compound("c", vec![b_text("t", "x"), b_int("n", 1), b_text("t", "y")]),
        b_int("b", 6),
        b_int("a", 7),
        b_items("l", vec![p_compound(vec![b_int("n", 1), b_int("m", 2)]), p_compound(vec![])]),
    ]);
    let p = Projection::Fields(vec![
        ("a".to_string(), Projection::Whole),
        ("c".to_string(), Projection::Fields(vec![("t".to_string(), Projection::Whole)])),
        ("l".to_string(), Projection::Fields(vec![("m".to_string(), Projection::Whole)])),
        ("b".to_string(), Projection::Presence),
    ]);
    let expected = compound(vec![
        ("a", whole(5)),
        ("c", compound(vec![("t", text("x")), ("t", text("y"))])),
        ("b", Tag::Leaf(Leaf::Other)),
        ("a", whole(7)),
        ("l", Tag::List(vec![compound(vec![("m", whole(2))]), compound(vec![])])),
    ]);
    assert_eq!(select(&bytes, &p), Ok(expected));
    assert_eq!(select(&bytes, &Projection::Presence), Ok(Tag::Leaf(Leaf::Other)));
    assert_eq!(select(&bytes, &Projection::Fields(vec![])), Ok(compound(vec![])));
}

#[test]
fn select_rejects_what_is_no_document() {
    assert_eq!(select(&[], &Projection::Whole), Err(DecodeError::MalformedInput));
    assert_eq!(select(&b_int("a", 1), &Projection::Whole), Err(DecodeError::MalformedInput));
    let mut open_ended = root(vec![b_int("a", 1)]);
    open_ended.pop();
    assert_eq!(select(&open_ended, &Projection::Presence), Err(DecodeError::MalformedInput));
}

// Levels.

fn level_bytes() -> Vec<u8> {
    root(vec![b_compound(
        "Data",
        vec![
            b_int("SpawnZ", -30),
            b_long("Time", 1234),
            b_compound("Version", vec![b_int("Id", 2586), b_text("Name", "1.16.5"), b_byte("Snapshot", 0)]),
            b_int("SpawnX", 100),
            b_text("LevelName", "world"),
            b_int("SpawnY", 64),
        ],
    )])
}

#[test]
fn level_is_read_from_bytes() {
    let expected = Level {
        data: LevelData { version: Version { name: "1.16.5".to_string() }, spawn: (100, 64, -30) },
    };
    assert_eq!(Level::from_bytes(&level_bytes()), Ok(expected));
}

#[test]
fn level_missing_parts_are_named() {
    let no_data = root(vec![b_int("SpawnX", 1)]);
    assert_eq!(Level::from_bytes(&no_data), Err(DecodeError::MissingField("Data".to_string())));
    let no_version = root(vec![b_compound("Data", vec![b_int("SpawnX", 1)])]);
    assert_eq!(
        Level::from_bytes(&no_version),
        Err(DecodeError::MissingField("Version".to_string()))
    );
    let no_name = root(vec![b_compound("Data", vec![b_compound("Version", vec![])])]);
    assert_eq!(Level::from_bytes(&no_name), Err(DecodeError::MissingField("Name".to_string())));
    let no_spawn = root(vec![b_compound(
        "Data",
        vec![
            b_compound("Version", vec![b_text("Name", "1.16.5")]),
            b_int("SpawnX", 1),
            b_int("SpawnZ", 3),
        ],
    )]);
    assert_eq!(Level::from_bytes(&no_spawn), Err(DecodeError::MissingField("SpawnY".to_string())));
    let flat = root(vec![b_text("Data", "none")]);
    assert_eq!(
        Level::from_bytes(&flat),
        Err(DecodeError::TypeMismatch(Kind::Compound, Kind::Text))
    );
    assert_eq!(Level::from_bytes(&[1, 2, 3]), Err(DecodeError::MalformedInput));
}

#[test]
fn level_decode_agrees_with_bytes() {
    let doc = select(&level_bytes(), &Projection::Whole).unwrap();
    assert_eq!(Level::decode(&doc), Level::from_bytes(&level_bytes()));
    let kept = select(&level_bytes(), &Level::projection()).unwrap();
    let expected = compound(vec![(
        "Data",
        compound(vec![
            ("SpawnZ", whole(-30)),
            ("Version", compound(vec![("Name", text("1.16.5"))])),
            ("SpawnX", whole(100)),
            ("SpawnY", whole(64)),
        ]),
    )]);
    assert_eq!(kept, expected);
}

// Maps.

fn p_banner(color: &str, name: &str, x: i32, y: i32, z: i32) -> Vec<u8> {
    p_compound(vec![
        b_text("Name", name),
        b_compound("Pos", vec![b_int("Y", y), b_int("X", x), b_int("Z", z)]),
        b_text("Color", color),
    ])
}

fn map_bytes(scale: i8, dimension: &str, banners: Vec<Vec<u8>>) -> Vec<u8> {
    root(vec![
        b_int("DataVersion", 2586),
        b_compound(
            "data",
            vec![
                b_int("zCenter", -64),
                b_byte("scale", scale),
                b_byte("trackingPosition", 1),
                b_text("dimension", dimension),
                b_bytes("colors", &[0, 1, -1, 127, -128]),
                b_byte("unlimitedTracking", 0),
                b_items("banners", banners),
                b_byte("locked", 0),
                b_int("xCenter", 192),
            ],
        ),
    ])
}

#[test]
fn map_is_read_from_bytes() {
    let bytes = map_bytes(
        2,
        "minecraft:the_nether",
        vec![
            p_banner("red", "{\"text\":\"Home\"}", 1, 2, 3),
            p_banner("lightblue", "{\"text\":\"Mine\",\"bold\":true}", -4, 5, -6),
        ],
    );
    let map = MapFile::from_bytes(&bytes).unwrap();
    assert_eq!(map.data.scale, Scale::Two);
    assert_eq!(map.data.dimension, Dimension::TheNether);
    assert_eq!(map.data.unlimited_tracking, false);
    assert_eq!(map.data.center, (192, -64));
    assert_eq!(map.data.colors, vec![0u8, 1, 255, 127, 128]);
    assert_eq!(
        map.data.banners,
        vec![
            Banner { color: BannerColor::Red, name: "Home".to_string(), position: (1, 2, 3) },
            Banner {
                color: BannerColor::LightBlue,
                name: "Mine".to_string(),
                position: (-4, 5, -6)
            },
        ]
    );
}

#[test]
fn map_without_banners_has_none() {
    let map = MapFile::from_bytes(&map_bytes(0, "minecraft:overworld", vec![])).unwrap();
    assert_eq!(map.data.scale, Scale::Zero);
    assert_eq!(map.data.dimension, Dimension::Overworld);
    assert_eq!(map.data.banners, vec![]);
}

#[test]
fn map_with_an_unknown_code_is_rejected() {
    assert_eq!(
        MapFile::from_bytes(&map_bytes(7, "minecraft:overworld", vec![])),
        Err(DecodeError::UnknownEnumValue(Raw::Integer(7)))
    );
    assert_eq!(
        MapFile::from_bytes(&map_bytes(1, "minecraft:moon", vec![])),
        Err(DecodeError::UnknownEnumValue(Raw::Text("minecraft:moon".to_string())))
    );
    assert_eq!(
        MapFile::from_bytes(&map_bytes(
            1,
            "minecraft:the_end",
            vec![p_banner("teal", "{\"text\":\"x\"}", 0, 0, 0)]
        )),
        Err(DecodeError::UnknownEnumValue(Raw::Text("teal".to_string())))
    );
}

#[test]
fn map_with_a_banner_name_that_is_no_json_is_rejected() {
    assert_eq!(
        MapFile::from_bytes(&map_bytes(
            1,
            "minecraft:the_end",
            vec![p_banner("red", "Home", 0, 0, 0)]
        )),
        Err(DecodeError::TypeMismatch(Kind::Json, Kind::Text))
    );
}

#[test]
fn map_with_an_enumeration_key_of_the_wrong_kind_is_rejected() {
    let bytes = root(vec![b_compound(
        "data",
        vec![b_list("scale", 1, 1, vec![vec![2]]), b_text("dimension", "minecraft:overworld")],
    )]);
    assert_eq!(
        MapFile::from_bytes(&bytes),
        Err(DecodeError::TypeMismatch(Kind::Int, Kind::List))
    );
    let bytes = root(vec![b_compound("data", vec![b_byte("scale", 1), b_int("dimension", 0)])]);
    assert_eq!(
        MapFile::from_bytes(&bytes),
        Err(DecodeError::TypeMismatch(Kind::Text, Kind::Int))
    );
}

#[test]
fn map_missing_parts_are_named() {
    let no_data = root(vec![]);
    assert_eq!(MapFile::from_bytes(&no_data), Err(DecodeError::MissingField("data".to_string())));
    let no_scale = root(vec![b_compound("data", vec![])]);
    assert_eq!(MapFile::from_bytes(&no_scale), Err(DecodeError::MissingField("scale".to_string())));
    let no_center = root(vec![b_compound(
        "data",
        vec![
            b_byte("scale", 1),
            b_text("dimension", "minecraft:overworld"),
            b_byte("unlimitedTracking", 1),
            b_int("zCenter", 5),
        ],
    )]);
    assert_eq!(
        MapFile::from_bytes(&no_center),
        Err(DecodeError::MissingField("xCenter".to_string()))
    );
}

#[test]
fn map_decode_agrees_with_bytes() {
    let bytes = map_bytes(3, "minecraft:the_end", vec![p_banner("white", "{\"text\":\"A\"}", 9, 8, 7)]);
    let doc = select(&bytes, &Projection::Whole).unwrap();
    assert_eq!(MapFile::decode(&doc), MapFile::from_bytes(&bytes));
    assert_eq!(Banner::decode(&whole(1)), Err(DecodeError::TypeMismatch(Kind::Compound, Kind::Int)));
}

// Nesting.

fn nested(levels: usize) -> Vec<u8> {
    let mut bytes = Vec::new();
    for _ in 0..levels {
        bytes.extend_from_slice(&[10, 0, 0]);
    }
    for _ in 0..levels {
        bytes.push(0);
    }
    bytes
}

#[test]
fn nesting_up_to_the_limit_is_read() {
    assert_eq!(PlayerMapIds::from_bytes(&nested(1)), Ok(PlayerMapIds(vec![])));
    assert_eq!(PlayerMapIds::from_bytes(&nested(512)), Ok(PlayerMapIds(vec![])));
    assert!(select(&nested(512), &Projection::Whole).is_ok());
}

#[test]
fn nesting_beyond_the_limit_is_malformed() {
    assert_eq!(PlayerMapIds::from_bytes(&nested(513)), Err(DecodeError::MalformedInput));
    assert_eq!(select(&nested(513), &Projection::Whole), Err(DecodeError::MalformedInput));
    assert_eq!(select(&nested(100_000), &Projection::Presence), Err(DecodeError::MalformedInput));
}
