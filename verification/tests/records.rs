//! Per-record extraction, tag merging, and the error taxonomy.

use wb2kk::ConvertError;
use wb2kk::JsonValue;
use wb2kk::convert_item;
use wb2kk::get_field;
use wb2kk::union_tags;
use wb2kk::codec::parse_json;
use wb2kk::codec::to_epoch;

fn parse_first_record(doc: &str) -> JsonValue {
    match parse_json(doc).unwrap() {
        JsonValue::Arr(mut items) => items.remove(0),
        _ => panic!("expected an array"),
    }
}

fn strings(tags: &[&str]) -> Vec<String> {
    tags.iter().map(|t| t.to_string()).collect()
}

fn cause(doc: &str) -> ConvertError {
    let record = parse_first_record(doc);
    convert_item(&record, &Vec::new()).unwrap_err()
}

#[test]
fn valid_record_converts_with_offset_honored() {
    let record = parse_first_record(
        r#"[{"is_archived":2,"tags":["a"],"title":"T","url":"https://x","created_at":"1970-01-01T01:00:00+01:00"}]"#,
    );
    let b = convert_item(&record, &strings(&["b"])).unwrap();
    assert_eq!(b.created_at, 0);
    assert_eq!(b.title, "T");
    assert_eq!(b.content.typ, "link");
    assert_eq!(b.content.url, "https://x");
    assert!(b.archived);
    assert_eq!(b.note, None);
    assert_eq!(b.tags, vec!["a".to_string(), "b".to_string()]);
}

#[test]
fn archived_is_truthy_iff_nonzero() {
    let zero = parse_first_record(
        r#"[{"is_archived":0,"tags":[],"title":"T","url":"u","created_at":"2020-01-01T00:00:00Z"}]"#,
    );
    assert!(!convert_item(&zero, &Vec::new()).unwrap().archived);
    let negative = parse_first_record(
        r#"[{"is_archived":-3,"tags":[],"title":"T","url":"u","created_at":"2020-01-01T00:00:00Z"}]"#,
    );
    assert!(convert_item(&negative, &Vec::new()).unwrap().archived);
}

#[test]
fn each_field_failure_is_attributed() {
    let ok = r#"{"is_archived":0,"tags":[],"title":"T","url":"u","created_at":"2020-01-01T00:00:00Z"}"#;
    assert!(convert_item(&parse_first_record(&format!("[{ok}]")), &Vec::new()).is_ok());

    assert_eq!(cause(r#"[{}]"#), ConvertError::MissingCreatedAt);
    assert_eq!(
        cause(r#"[{"created_at":7,"title":"T","url":"u","is_archived":0,"tags":[]}]"#),
        ConvertError::CreatedAtNotAString
    );
    assert_eq!(
        cause(r#"[{"created_at":"yesterday","title":"T","url":"u","is_archived":0,"tags":[]}]"#),
        ConvertError::CreatedAtNotATimestamp
    );
    assert_eq!(
        cause(r#"[{"created_at":"2020-01-01T00:00:00Z","url":"u","is_archived":0,"tags":[]}]"#),
        ConvertError::MissingTitle
    );
    assert_eq!(
        cause(r#"[{"created_at":"2020-01-01T00:00:00Z","title":null,"url":"u","is_archived":0,"tags":[]}]"#),
        ConvertError::TitleNotAString
    );
    assert_eq!(
        cause(r#"[{"created_at":"2020-01-01T00:00:00Z","title":"T","is_archived":0,"tags":[]}]"#),
        ConvertError::MissingUrl
    );
    assert_eq!(
        cause(r#"[{"created_at":"2020-01-01T00:00:00Z","title":"T","url":[],"is_archived":0,"tags":[]}]"#),
        ConvertError::UrlNotAString
    );
    assert_eq!(
        cause(r#"[{"created_at":"2020-01-01T00:00:00Z","title":"T","url":"u","tags":[]}]"#),
        ConvertError::MissingIsArchived
    );
    assert_eq!(
        cause(r#"[{"created_at":"2020-01-01T00:00:00Z","title":"T","url":"u","is_archived":"0","tags":[]}]"#),
        ConvertError::IsArchivedNotAnInt
    );
    assert_eq!(
        cause(r#"[{"created_at":"2020-01-01T00:00:00Z","title":"T","url":"u","is_archived":1.5,"tags":[]}]"#),
        ConvertError::IsArchivedNotAnInt
    );
    assert_eq!(
        cause(r#"[{"created_at":"2020-01-01T00:00:00Z","title":"T","url":"u","is_archived":0}]"#),
        ConvertError::MissingTags
    );
    assert_eq!(
        cause(r#"[{"created_at":"2020-01-01T00:00:00Z","title":"T","url":"u","is_archived":0,"tags":{}}]"#),
        ConvertError::TagsNotAnArray
    );
    assert_eq!(
        cause(r#"[{"created_at":"2020-01-01T00:00:00Z","title":"T","url":"u","is_archived":0,"tags":["a",3]}]"#),
        ConvertError::TagNotAString
    );
}

#[test]
fn error_messages_name_field_and_cause() {
    assert_eq!(ConvertError::MissingCreatedAt.message(), "created_at does not exist");
    assert_eq!(ConvertError::TitleNotAString.message(), "title is not a string");
    assert_eq!(ConvertError::TagsNotAnArray.message(), "tags is not an array");
}

#[test]
fn tag_union_is_a_set_union_without_duplicates() {
    let own = strings(&["a", "b", "a"]);
    let extra = strings(&["b", "c", "c"]);
    let merged = union_tags(&own, &extra);
    let mut sorted = merged.clone();
    sorted.sort();
    assert_eq!(sorted, strings(&["a", "b", "c"]));

    let reversed = union_tags(&strings(&["c", "b"]), &strings(&["a", "b"]));
    let mut sorted2 = reversed.clone();
    sorted2.sort();
    assert_eq!(sorted2, strings(&["a", "b", "c"]));
}

#[test]
fn tags_of_a_record_merge_with_extra_tags() {
    let record = parse_first_record(
        r#"[{"is_archived":0,"tags":["x","y","x"],"title":"T","url":"u","created_at":"2020-01-01T00:00:00Z"}]"#,
    );
    let b = convert_item(&record, &strings(&["y", "z"])).unwrap();
    let mut tags = b.tags.clone();
    tags.sort();
    assert_eq!(tags, strings(&["x", "y", "z"]));
}

#[test]
fn get_field_returns_first_match_on_objects_only() {
    let obj = JsonValue::Obj(vec![
        ("k".to_string(), JsonValue::Int(1)),
        ("k".to_string(), JsonValue::Int(2)),
    ]);
    assert!(matches!(get_field(&obj, "k"), Some(JsonValue::Int(1))));
    assert!(get_field(&obj, "missing").is_none());
    assert!(get_field(&JsonValue::Null, "k").is_none());
}

#[test]
fn to_epoch_applies_the_utc_offset() {
    assert_eq!(to_epoch("2025-05-15T18:45:18+02:00"), Some(1747327518));
    assert_eq!(to_epoch("2025-05-15T18:45:18Z"), Some(1747334718));
    assert_eq!(to_epoch("yesterday"), None);
}

#[test]
fn parse_json_models_numbers_and_shapes() {
    assert!(parse_json("{").is_none());
    assert!(matches!(parse_json("[]"), Some(JsonValue::Arr(v)) if v.is_empty()));
    assert!(matches!(parse_json("7"), Some(JsonValue::Int(7))));
    assert!(matches!(parse_json("1.5"), Some(JsonValue::OtherNumber(_))));
    assert!(matches!(parse_json("true"), Some(JsonValue::Bool(true))));
    assert!(matches!(parse_json("null"), Some(JsonValue::Null)));
}
