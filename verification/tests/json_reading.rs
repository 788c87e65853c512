use task_dispatch::json::{parse_json, Json};

#[test]
fn parses_an_object_and_reads_a_member() {
    let doc = parse_json("{\"status\":\"ok\",\"n\":1}").expect("valid document");
    let status = doc.get("status").expect("member present");
    assert_eq!(status.as_str(), Some("ok"));
    assert!(doc.get("missing").is_none());
    assert!(matches!(doc.get("n"), Some(Json::Number(_))));
}

#[test]
fn rejects_text_that_is_not_json() {
    assert!(parse_json("{not json").is_none());
    assert!(parse_json("").is_none());
}
