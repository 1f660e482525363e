use strivo_plugins::archiver::scanner::read_video;
use strivo_plugins::json::{parse, Json};
use strivo_plugins::number::Double;

fn text(s: &str) -> Json {
    Json::Text(s.to_string())
}

#[test]
fn parse_video_entry_from_json() {
    let json = Json::Object(vec![
        ("id".to_string(), text("abc123")),
        ("title".to_string(), text("Test Stream")),
        ("upload_date".to_string(), text("20260328")),
        ("duration".to_string(), Json::Number(Some(Double { bits: 3600.0f64.to_bits() }))),
        ("playlist_title".to_string(), text("My Playlist")),
    ]);

    let entry = read_video(&json).unwrap();

    assert_eq!(entry.video_id, "abc123");
    assert_eq!(entry.title, "Test Stream");
    assert_eq!(entry.upload_date, "20260328");
    assert_eq!(entry.duration_secs.map(|d| f64::from_bits(d.bits)), Some(3600.0));
    assert_eq!(entry.playlist.as_deref(), Some("My Playlist"));
    assert!(!entry.downloaded);
}

#[test]
fn documents_are_opened_all_the_way_down() {
    let doc = parse("{\"b\": [1, -2.5, true, null, \"x\"], \"a\": {\"c\": 9007199254740993}}").unwrap();
    let list = doc.field("b").unwrap();
    match list.item(0) {
        Some(Json::Number(Some(n))) => assert_eq!(f64::from_bits(n.bits), 1.0),
        other => panic!("{other:?}"),
    }
    match list.item(1) {
        Some(Json::Number(Some(n))) => assert_eq!(f64::from_bits(n.bits), -2.5),
        other => panic!("{other:?}"),
    }
    assert!(matches!(list.item(2), Some(Json::Bool(true))));
    assert!(matches!(list.item(3), Some(Json::Null)));
    assert!(matches!(list.item(4), Some(Json::Text(t)) if t == "x"));
    assert!(list.item(5).is_none());
    let inner = doc.field("a").unwrap();
    assert_eq!(
        inner.number_of("c").map(|n| f64::from_bits(n.bits)),
        Some(9007199254740992.0)
    );
    assert!(doc.field("z").is_none());
    assert!(list.field("b").is_none());
}

#[test]
fn lookups_fall_back() {
    let doc = parse("{\"t\": \"x\", \"n\": 2, \"s\": \"\\u00e4\\n\"}").unwrap();
    assert_eq!(doc.text_or("t", "d"), "x");
    assert_eq!(doc.text_or("n", "d"), "d");
    assert_eq!(doc.text_or("s", "d"), "ä\n");
    let zero = Double { bits: 0 };
    assert_eq!(doc.number_or("t", zero), zero);
    assert_eq!(doc.number_or("n", zero), Double { bits: 2.0f64.to_bits() });
}

#[test]
fn what_is_no_document_is_refused_with_a_message() {
    assert_eq!(parse("{").unwrap_err(), "EOF while parsing an object at line 1 column 1");
    assert!(parse("").is_err());
    assert!(parse("nope").is_err());
}
