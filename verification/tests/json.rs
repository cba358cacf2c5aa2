use ds_code::data_url::{
    fits, media_preview_limit, read_image_data_url, read_media_data_url, FileRead,
};
use ds_code::json::{texts_json, Json};
use ds_code::json_text::{compact_json, parse_json, pretty_json, quote_json};

fn kind(json: &Json) -> &'static str {
    match json {
        Json::Null => "null",
        Json::Bool(_) => "bool",
        Json::Int(_) => "int",
        Json::Other(_) => "other",
        Json::Text(_) => "text",
        Json::List(_) => "list",
        Json::Object(_) => "object",
    }
}

#[test]
fn values_are_read_by_kind() {
    let json = parse_json(
        r#"{"a":null,"b":true,"c":-5,"d":1.5,"e":"x","f":[1],"g":{},"h":18446744073709551615}"#,
    )
    .unwrap();
    let kinds: Vec<&str> = ["a", "b", "c", "d", "e", "f", "g", "h"]
        .iter()
        .map(|k| kind(json.get(k).unwrap()))
        .collect();
    assert_eq!(
        kinds,
        vec!["null", "bool", "int", "other", "text", "list", "object", "other"]
    );
    assert_eq!(json.get_int("c"), Some(-5));
    assert_eq!(json.get_int("d"), None);
    assert_eq!(json.get_bool("b"), Some(true));
    assert_eq!(json.get_text("e").map(|s| s.as_str()), Some("x"));
    assert_eq!(json.get_list("f").map(|l| l.len()), Some(1));
    assert!(json.get_object("g").is_some());
    assert!(json.get("z").is_none());
    assert!(json.get("a").unwrap().get("a").is_none());
}

#[test]
fn of_equal_keys_the_last_is_read() {
    let json = parse_json(r#"{"a":1,"a":2}"#).unwrap();
    assert_eq!(json.get_int("a"), Some(2));
}

#[test]
fn complaints_are_those_of_the_parser() {
    for text in ["", "{", "[1,]", "nul", "{\"a\":}"] {
        let expected = serde_json::from_str::<serde_json::Value>(text)
            .unwrap_err()
            .to_string();
        match parse_json(text) {
            Ok(_) => panic!("{:?} was read", text),
            Err(e) => assert_eq!(e, expected),
        }
    }
}

#[test]
fn printing_puts_keys_in_order() {
    let json = Json::Object(vec![
        ("b".to_string(), Json::Int(1)),
        ("a".to_string(), Json::Text("x\"\n".to_string())),
        ("b".to_string(), Json::Bool(false)),
    ]);
    assert_eq!(compact_json(&json).unwrap(), r#"{"a":"x\"\n","b":false}"#);
    assert_eq!(
        pretty_json(&json).unwrap(),
        "{\n  \"a\": \"x\\\"\\n\",\n  \"b\": false\n}"
    );
}

#[test]
fn numbers_with_a_fraction_are_kept() {
    let json = parse_json("[1.25, 1e3, -0.0]").unwrap();
    assert_eq!(compact_json(&json).unwrap(), "[1.25,1000.0,-0.0]");
}

#[test]
fn what_is_printed_is_read_back() {
    let text = r#"{"list":[1,-2,"x",null,{"deep":[true]}],"text":"密\u0001"}"#;
    let json = parse_json(text).unwrap();
    let printed = pretty_json(&json).unwrap();
    let again = parse_json(&printed).unwrap();
    assert_eq!(compact_json(&again).unwrap(), compact_json(&json).unwrap());
}

#[test]
fn literals_are_those_of_the_printer() {
    for c in (0..0x300u32).chain([0x2028, 0x5bc6, 0x1f980]) {
        if let Some(c) = char::from_u32(c) {
            let s = format!("a{}b", c);
            assert_eq!(quote_json(&s), serde_json::to_string(&s).unwrap());
        }
    }
}

#[test]
fn literals_stay_on_one_line() {
    let literal = quote_json("a\nb\r\u{7}\"\\");
    assert_eq!(literal, "\"a\\nb\\r\\u0007\\\"\\\\\"");
    assert!(literal.chars().all(|c| c as u32 >= 0x20));
}

#[test]
fn lists_of_texts_become_json() {
    let json = texts_json(&vec!["a".to_string(), "b".to_string()]);
    assert_eq!(compact_json(&json).unwrap(), r#"["a","b"]"#);
}

#[test]
fn pictures_become_addresses_with_their_content() {
    let file = FileRead::Content(vec![0, 1, 2, 250]);
    assert_eq!(
        read_image_data_url(&file, "JPEG").unwrap(),
        "data:image/jpeg;base64,AAEC+g=="
    );
    for (ext, mime) in [
        ("jpg", "image/jpeg"),
        ("webp", "image/webp"),
        ("Gif", "image/gif"),
        ("bmp", "image/bmp"),
        ("png", "image/png"),
        ("", "image/png"),
        ("svg", "image/png"),
    ] {
        let url = read_image_data_url(&file, ext).unwrap();
        assert_eq!(url, format!("data:{};base64,AAEC+g==", mime));
    }
}

#[test]
fn contents_are_told_apart() {
    for (bytes, text) in [
        (&b""[..], ""),
        (b"f", "Zg=="),
        (b"fo", "Zm8="),
        (b"foo", "Zm9v"),
        (b"foob", "Zm9vYg=="),
        (&[0, 0], "AAA="),
        (&[0, 0, 0], "AAAA"),
        (&[255, 255, 255], "////"),
        (&[251, 239, 190], "++++"),
    ] {
        let url = read_image_data_url(&FileRead::Content(bytes.to_vec()), "png").unwrap();
        assert_eq!(url, format!("data:image/png;base64,{}", text));
    }
}

#[test]
fn missing_and_unreadable_files_are_reported() {
    assert_eq!(
        read_image_data_url(&FileRead::Missing, "png"),
        Err("Image file does not exist".to_string())
    );
    assert_eq!(
        read_media_data_url(&FileRead::Missing, 10, "mp4"),
        Err("Media file does not exist".to_string())
    );
    let failed = FileRead::Failed("denied".to_string());
    assert_eq!(read_image_data_url(&failed, "png"), Err("denied".to_string()));
    assert_eq!(read_media_data_url(&failed, 10, "mp4"), Err("denied".to_string()));
}

#[test]
fn videos_over_the_limit_are_refused() {
    let file = FileRead::Content(b"foobar".to_vec());
    assert_eq!(
        read_media_data_url(&file, 5, "mp4"),
        Err("Media file is too large for inline preview: 6 bytes".to_string())
    );
    for (ext, mime) in [
        ("mp4", "video/mp4"),
        ("MOV", "video/quicktime"),
        ("mkv", "video/x-matroska"),
        ("avi", "video/webm"),
    ] {
        assert_eq!(
            read_media_data_url(&file, 6, ext).unwrap(),
            format!("data:{};base64,Zm9vYmFy", mime)
        );
    }
}

#[test]
fn the_limit_can_be_configured() {
    assert_eq!(media_preview_limit(None), 64 * 1024 * 1024);
    assert_eq!(media_preview_limit(Some("12")), 12);
    assert_eq!(media_preview_limit(Some("+12")), 12);
    assert_eq!(media_preview_limit(Some("12 ")), 64 * 1024 * 1024);
    assert_eq!(media_preview_limit(Some("-1")), 64 * 1024 * 1024);
    assert!(fits(0) && fits(1 << 30));
    assert!(!fits(usize::MAX));
}
