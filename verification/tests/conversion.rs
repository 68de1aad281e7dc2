//! End-to-end runs of the converter on whole documents.

use wb2kk::FatalError;
use wb2kk::convert;

#[test]
fn converts_wallabag_item_to_karakeep() {
    let input = r#"
    [
      {
        "is_archived": 0,
        "is_starred": 0,
        "tags": [],
        "is_public": false,
        "id": 20833359,
        "title": "Linux x86 Program Start Up",
        "url": "https://web.archive.org/web/20191210114310/http://dbp-consulting.com/tutorials/debugging/linuxProgramStartup.html",
        "given_url": "https://web.archive.org/web/20191210114310/http://dbp-consulting.com/tutorials/debugging/linuxProgramStartup.html",
        "content": "Linux x86 Program Start Up\n",
        "created_at": "2025-05-15T18:45:18+02:00",
        "updated_at": "2025-05-15T18:45:18+02:00",
        "published_by": [""],
        "annotations": [],
        "reading_time": 28,
        "domain_name": "web.archive.org",
        "preview_picture": "https://web.archive.org/web/20191210114310im_/http://dbp-consulting.com/images/logo.svg"
      }
    ]"#;

    let tags = vec!["wallabag".to_string()];
    let (output, diagnostics) = convert(input, tags).unwrap();
    assert!(diagnostics.is_empty());

    let produced: serde_json::Value = serde_json::from_str(&output).unwrap();
    let expected: serde_json::Value = serde_json::from_str(
        r#"{
          "bookmarks": [
            {
              "createdAt": 1747327518,
              "title": "Linux x86 Program Start Up",
              "tags": ["wallabag"],
              "content": {
                "type": "link",
                "url": "https://web.archive.org/web/20191210114310/http://dbp-consulting.com/tutorials/debugging/linuxProgramStartup.html"
              },
              "archived": false,
              "note": null
            }
          ]
        }"#,
    )
    .unwrap();

    assert_eq!(produced, expected);
}

#[test]
fn single_record_scenario() {
    let input = r#"[{"is_archived":0,"tags":[],"title":"T","url":"https://x","created_at":"2025-05-15T18:45:18+02:00"}]"#;
    let tags = vec!["wallabag".to_string()];
    let (output, diagnostics) = convert(input, tags).unwrap();
    assert!(diagnostics.is_empty());

    let produced: serde_json::Value = serde_json::from_str(&output).unwrap();
    let expected: serde_json::Value = serde_json::from_str(
        r#"{"bookmarks":[{"createdAt":1747327518,"title":"T","tags":["wallabag"],"content":{"type":"link","url":"https://x"},"archived":false,"note":null}]}"#,
    )
    .unwrap();
    assert_eq!(produced, expected);
}

#[test]
fn empty_input_array_yields_empty_bookmarks() {
    let (output, diagnostics) = convert("[]", Vec::new()).unwrap();
    assert!(diagnostics.is_empty());
    assert_eq!(output, "{\n  \"bookmarks\": []\n}");
}

#[test]
fn top_level_object_is_fatal() {
    let r = convert(r#"{"bookmarks": []}"#, Vec::new());
    assert_eq!(r.unwrap_err(), FatalError::NotAnArray);
}

#[test]
fn unparseable_input_is_fatal() {
    let r = convert("not json at all", Vec::new());
    assert_eq!(r.unwrap_err(), FatalError::Unparseable);
}

#[test]
fn fatal_error_messages() {
    assert_eq!(FatalError::Unparseable.message(), "input is not valid JSON");
    assert_eq!(FatalError::NotAnArray.message(), "Expected an array");
}

#[test]
fn record_without_url_is_skipped_with_one_diagnostic() {
    let input = r#"[{"title":"Missing URL"}]"#;
    let (output, diagnostics) = convert(input, Vec::new()).unwrap();

    let produced: serde_json::Value = serde_json::from_str(&output).unwrap();
    let expected: serde_json::Value = serde_json::from_str(r#"{"bookmarks":[]}"#).unwrap();
    assert_eq!(produced, expected);

    assert_eq!(diagnostics.len(), 1);
    assert_eq!(diagnostics[0].index, 0);
    assert_eq!(diagnostics[0].line(), "Failed to convert 0: created_at does not exist");
}

#[test]
fn decimal_rendering_of_indices() {
    assert_eq!(wb2kk::batch::decimal_string(0), "0");
    assert_eq!(wb2kk::batch::decimal_string(7), "7");
    assert_eq!(wb2kk::batch::decimal_string(10), "10");
    assert_eq!(wb2kk::batch::decimal_string(90210), "90210");
}

#[test]
fn failed_records_are_omitted_and_order_is_preserved() {
    let input = r#"[
        {"title": "bad zero"},
        {"is_archived":1,"tags":["t1"],"title":"first","url":"https://a","created_at":"2020-01-01T00:00:00Z"},
        {"is_archived":0,"tags":[],"title":"bad two","url":17,"created_at":"2020-01-01T00:00:00Z"},
        {"is_archived":0,"tags":[],"title":"second","url":"https://b","created_at":"2021-06-01T12:00:00Z"}
    ]"#;
    let (output, diagnostics) = convert(input, Vec::new()).unwrap();

    let produced: serde_json::Value = serde_json::from_str(&output).unwrap();
    let bookmarks = produced["bookmarks"].as_array().unwrap();
    assert_eq!(bookmarks.len(), 2);
    assert_eq!(bookmarks[0]["title"], serde_json::Value::String("first".to_string()));
    assert_eq!(bookmarks[1]["title"], serde_json::Value::String("second".to_string()));
    assert_eq!(bookmarks[0]["archived"], serde_json::Value::Bool(true));

    assert_eq!(diagnostics.len(), 2);
    assert_eq!(diagnostics[0].index, 0);
    assert_eq!(diagnostics[1].index, 2);
}
