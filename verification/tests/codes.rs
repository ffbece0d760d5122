use nbt_select::banner_color::BannerColor;
use nbt_select::banner_color::UnknownBannerColor;
use nbt_select::dimension::Dimension;
use nbt_select::dimension::UnknownDimension;
use nbt_select::json::text_found;
use nbt_select::json::text_from_json;
use nbt_select::error::DecodeError;
use nbt_select::error::Kind;
use nbt_select::scale::Scale;
use nbt_select::scale::UnknownScale;
use nbt_select::text::append_decimal;
use nbt_select::text::text_eq;

#[test]
fn scale_accepts_the_five_codes() {
    assert_eq!(Scale::try_from(0), Ok(Scale::Zero));
    assert_eq!(Scale::try_from(1), Ok(Scale::One));
    assert_eq!(Scale::try_from(2), Ok(Scale::Two));
    assert_eq!(Scale::try_from(3), Ok(Scale::Three));
    assert_eq!(Scale::try_from(4), Ok(Scale::Four));
}

#[test]
fn scale_rejects_every_other_code() {
    assert_eq!(Scale::try_from(5), Err(UnknownScale(5)));
    assert_eq!(Scale::try_from(-1), Err(UnknownScale(-1)));
    assert_eq!(Scale::try_from(i32::MAX), Err(UnknownScale(i32::MAX)));
    assert_eq!(Scale::try_from(i32::MIN), Err(UnknownScale(i32::MIN)));
}

#[test]
fn scale_error_message_echoes_the_code() {
    assert_eq!(UnknownScale(17).message(), "unknown scale: 17");
    assert_eq!(UnknownScale(-3).message(), "unknown scale: -3");
    assert_eq!(UnknownScale(5).message(), "unknown scale: 5");
    assert_eq!(UnknownScale(100).message(), "unknown scale: 100");
    assert_eq!(UnknownScale(i32::MAX).message(), "unknown scale: 2147483647");
    assert_eq!(UnknownScale(i32::MIN).message(), "unknown scale: -2147483648");
}

#[test]
fn integers_are_written_in_decimal() {
    for v in [0, 1, 9, 10, 11, 99, 100, 1905, -1, -10, -909, i32::MAX, i32::MIN, i32::MIN + 1] {
        let mut out = String::from("n=");
        append_decimal(&mut out, v);
        assert_eq!(out, format!("n={}", v));
    }
}

#[test]
fn texts_are_compared_character_by_character() {
    assert!(text_eq("", ""));
    assert!(text_eq("map", "map"));
    assert!(text_eq("日本", "日本"));
    assert!(!text_eq("map", "maps"));
    assert!(!text_eq("map", "mop"));
    assert!(!text_eq("map", "Map"));
    assert!(!text_eq("", " "));
}

#[test]
fn dimension_accepts_the_three_names() {
    assert_eq!(Dimension::try_from("minecraft:overworld"), Ok(Dimension::Overworld));
    assert_eq!(Dimension::try_from("minecraft:the_nether"), Ok(Dimension::TheNether));
    assert_eq!(Dimension::try_from("minecraft:the_end"), Ok(Dimension::TheEnd));
}

#[test]
fn dimension_rejects_other_names_and_echoes_them() {
    assert_eq!(
        Dimension::try_from("minecraft:aether"),
        Err(UnknownDimension("minecraft:aether".to_string()))
    );
    assert_eq!(Dimension::try_from("overworld"), Err(UnknownDimension("overworld".to_string())));
    assert_eq!(
        Dimension::try_from("Minecraft:Overworld"),
        Err(UnknownDimension("Minecraft:Overworld".to_string()))
    );
    assert_eq!(Dimension::try_from(""), Err(UnknownDimension(String::new())));
}

#[test]
fn dimension_error_message_echoes_the_name() {
    let e = UnknownDimension("minecraft:aether".to_string());
    assert_eq!(e.message(), "unknown dimension: minecraft:aether");
}

#[test]
fn banner_color_accepts_the_sixteen_names() {
    let all = [
        ("black", BannerColor::Black),
        ("blue", BannerColor::Blue),
        ("brown", BannerColor::Brown),
        ("cyan", BannerColor::Cyan),
        ("gray", BannerColor::Gray),
        ("green", BannerColor::Green),
        ("lightblue", BannerColor::LightBlue),
        ("lightgray", BannerColor::LightGray),
        ("lime", BannerColor::Lime),
        ("magenta", BannerColor::Magenta),
        ("orange", BannerColor::Orange),
        ("pink", BannerColor::Pink),
        ("purple", BannerColor::Purple),
        ("red", BannerColor::Red),
        ("white", BannerColor::White),
        ("yellow", BannerColor::Yellow),
    ];
    for (name, color) in all {
        assert_eq!(BannerColor::try_from(name), Ok(color));
    }
}

#[test]
fn banner_color_rejects_a_seventeenth_name() {
    assert_eq!(BannerColor::try_from("teal"), Err(UnknownBannerColor("teal".to_string())));
}

#[test]
fn banner_color_does_not_fold_case_or_match_parts() {
    assert_eq!(BannerColor::try_from("Black"), Err(UnknownBannerColor("Black".to_string())));
    assert_eq!(BannerColor::try_from("light"), Err(UnknownBannerColor("light".to_string())));
    assert_eq!(BannerColor::try_from("redd"), Err(UnknownBannerColor("redd".to_string())));
    assert_eq!(BannerColor::try_from(" red"), Err(UnknownBannerColor(" red".to_string())));
}

#[test]
fn banner_color_error_message_echoes_the_name() {
    let e = UnknownBannerColor("teal".to_string());
    assert_eq!(e.message(), "unknown banner color: teal");
}

#[test]
fn json_name_gives_its_text() {
    assert_eq!(text_from_json("{\"text\":\"Home\"}"), Ok("Home".to_string()));
    assert_eq!(
        text_from_json("{\"color\":\"red\",\"text\":\"Far Base\",\"bold\":true}"),
        Ok("Far Base".to_string())
    );
    assert_eq!(text_from_json("{\"text\":\"\"}"), Ok(String::new()));
}

#[test]
fn json_name_without_a_text_string_is_a_mismatch() {
    let mismatch = Err(DecodeError::TypeMismatch(Kind::Json, Kind::Text));
    assert_eq!(text_from_json("Home"), mismatch);
    assert_eq!(text_from_json("{\"text\":"), mismatch);
    assert_eq!(text_from_json("{\"name\":\"Home\"}"), mismatch);
    assert_eq!(text_from_json("{\"text\":5}"), mismatch);
    assert_eq!(text_from_json("[\"Home\"]"), mismatch);
    assert_eq!(text_from_json(""), mismatch);
}

#[test]
fn text_found_passes_the_string_on() {
    assert_eq!(text_found(Some("Home".to_string())), Ok("Home".to_string()));
    assert_eq!(text_found(None), Err(DecodeError::TypeMismatch(Kind::Json, Kind::Text)));
}
