use task_dispatch::config::{ConfigError, Header, RemoteConfig};
use task_dispatch::handle::HandleSlot;
use task_dispatch::json::{parse_json, Json, Member};
use task_dispatch::remote::{fetch_wps_data, search_request, update_request, update_wps_date};

fn json(text: &str) -> Json {
    parse_json(text).expect("the test's text is JSON")
}

/// Whether two values are the same JSON: objects by their members, in any
/// order.
fn same(a: &Json, b: &Json) -> bool {
    match (a, b) {
        (Json::Array(x), Json::Array(y)) => {
            x.len() == y.len() && x.iter().zip(y.iter()).all(|(p, q)| same(p, q))
        }
        (Json::Object(x), Json::Object(y)) => {
            x.len() == y.len()
                && x.iter().all(|m| match b.get(&m.key) {
                    Some(other) => same(&m.value, other),
                    None => false,
                })
        }
        _ => a == b,
    }
}

#[test]
fn the_search_asks_for_confirmed_rows_that_have_not_run() {
    let expected = json(
        r#"{"Context":{"argv":{"action":"search","sheet":"数据表","filter":{"mode":"AND",
        "criteria":[
            {"field":"设计师确认是否已完整填写可运行","op":"Equals","values":["是"]},
            {"field":"是否运行完成","op":"Equals","values":[""]}]}}}}"#,
    );
    assert!(same(&search_request(), &expected));
}

#[test]
fn the_update_marks_one_row() {
    let expected = json(
        r#"{"Context":{"argv":{"action":"update","sheet":"数据表",
        "records":[{"fields":{"是否运行完成":"是"},"id":"row-7"}]}}}"#,
    );
    assert!(same(&update_request("row-7", "是"), &expected));
    assert!(!same(&update_request("row-7", "否"), &expected));
    assert!(!same(&update_request("row-8", "是"), &expected));
}

#[test]
fn a_search_answer_with_data_is_handed_on_as_a_success() {
    let response = json(r#"{"data":{"result":{"data":[{"id":"r","fields":{"SKU":"A"}}]}},"error":""}"#);
    let envelope = fetch_wps_data(response);
    assert!(same(&envelope, &json(r#"{"status":"Success","data":[{"id":"r","fields":{"SKU":"A"}}]}"#)));
}

#[test]
fn a_search_answer_without_a_result_hands_on_nothing() {
    for text in [r#"{"data":{}}"#, r#"{"data":{"result":{}}}"#, r#"{"data":"x"}"#, r#"{"data":null}"#] {
        let envelope = fetch_wps_data(json(text));
        assert!(same(&envelope, &json(r#"{"status":"Success","data":null}"#)));
    }
}

#[test]
fn a_search_answer_without_data_is_handed_on_as_a_failure() {
    for text in [r#"{}"#, r#"{"error":"denied"}"#, r#"[1]"#, r#""data""#] {
        let envelope = fetch_wps_data(json(text));
        assert!(same(&envelope, &json(r#"{"status":"Error","message":"数据获取失败"}"#)));
    }
}

#[test]
fn an_update_answer_succeeded_if_it_has_a_status() {
    let ok = json(r#"{"status":"Success","message":"更新成功"}"#);
    assert!(same(&update_wps_date(&json(r#"{"status":"finished"}"#)), &ok));
    assert!(same(&update_wps_date(&json(r#"{"status":null}"#)), &ok));
    let failed = json(r#"{"status":"Error","message":"更新失败"}"#);
    assert!(same(&update_wps_date(&json(r#"{"error":"x"}"#)), &failed));
    assert!(same(&update_wps_date(&json(r#"[]"#)), &failed));
}

#[test]
fn objects_are_built_member_by_member() {
    let built = Json::object().with("a", Json::text("x")).with("b", Json::pair(Json::Null, Json::Bool(true)));
    assert_eq!(
        built,
        Json::Object(vec![
            Member { key: "a".to_string(), value: Json::Str("x".to_string()) },
            Member { key: "b".to_string(), value: Json::Array(vec![Json::Null, Json::Bool(true)]) },
        ])
    );
    assert_eq!(Json::single(Json::text("s")), Json::Array(vec![Json::Str("s".to_string())]));
    // what is no object is left as it is
    assert_eq!(Json::Null.with("a", Json::Null), Json::Null);
}

#[test]
fn values_are_read_by_key_and_by_position() {
    let doc = json(r#"{"s":"text","n":1.5,"a":["x",2,null],"o":{"k":"v"},"t":true}"#);
    assert_eq!(doc.str_or("s", "-"), "text");
    assert_eq!(doc.str_or("n", "-"), "-");
    assert_eq!(doc.str_or("missing", "-"), "-");
    assert_eq!(doc.get("o").map(|o| o.str_or("k", "")), Some("v"));
    assert_eq!(doc.get("t"), Some(&Json::Bool(true)));
    let array = doc.get("a").unwrap();
    assert_eq!(array.text_at(0, "-"), "x");
    assert_eq!(array.text_at(1, "-"), "-");
    assert_eq!(array.text_at(3, "-"), "-");
    assert_eq!(doc.text_at(0, "-"), "-");
    assert_eq!(array.as_array().map(|a| a.len()), Some(3));
    assert!(doc.as_array().is_none());
    assert!(array.get("a").is_none());
    assert_eq!(json(r#""plain""#).as_str(), Some("plain"));

    assert_eq!(json(r#"{"a":1,"b":"two"}"#).take("b"), Some(Json::Str("two".to_string())));
    assert_eq!(json(r#"{"a":1}"#).take("b"), None);
    assert_eq!(json(r#"[1]"#).take("b"), None);

    // of two members under one key the first is found
    let twice = Json::object().with("k", Json::text("first")).with("k", Json::text("second"));
    assert_eq!(twice.str_or("k", ""), "first");
    assert_eq!(twice.take("k"), Some(Json::Str("first".to_string())));
}

#[test]
fn documents_are_read_as_serde_json_reads_them() {
    assert_eq!(json("null"), Json::Null);
    assert_eq!(json(" [true, false] "), Json::Array(vec![Json::Bool(true), Json::Bool(false)]));
    assert_eq!(json(r#""a中\n""#), Json::Str("a中\n".to_string()));
    assert_eq!(json("12"), Json::Number(serde_json::Number::from(12)));
    // members come in the order of their keys, a key given twice counts once
    assert_eq!(
        json(r#"{"b":1,"a":2,"b":3}"#),
        Json::Object(vec![
            Member { key: "a".to_string(), value: Json::Number(serde_json::Number::from(2)) },
            Member { key: "b".to_string(), value: Json::Number(serde_json::Number::from(3)) },
        ])
    );
    for text in ["", "{", "[1,]", "{'a':1}", "1 2", "nul"] {
        assert!(parse_json(text).is_none());
    }
}

#[test]
fn both_settings_are_needed() {
    let config = RemoteConfig::new(Some("https://x".to_string()), Some("tok".to_string())).unwrap();
    assert_eq!(config.url, "https://x");
    assert_eq!(config.token, "tok");
    assert_eq!(
        config.headers(),
        [
            Header { name: "Airscript-Token".to_string(), value: "tok".to_string() },
            Header { name: "Content-Type".to_string(), value: "application/json".to_string() },
        ]
    );

    let missing = RemoteConfig::new(None, Some("tok".to_string())).unwrap_err();
    assert_eq!(missing, ConfigError::MissingUrl);
    assert_eq!(missing.message(), "WPS_URL must be set in .env file");
    let missing = RemoteConfig::new(Some("u".to_string()), None).unwrap_err();
    assert_eq!(missing, ConfigError::MissingToken);
    assert_eq!(missing.message(), "Airscript-Token must be set in .env file");
    assert_eq!(RemoteConfig::new(None, None).unwrap_err(), ConfigError::MissingUrl);
}

#[test]
fn a_handle_is_taken_out_once() {
    let mut slot: HandleSlot<String> = HandleSlot::new();
    assert!(!slot.is_held());
    assert_eq!(slot.take(), None);

    assert_eq!(slot.put("worker".to_string()), None);
    assert!(slot.is_held());
    assert_eq!(slot.put("second".to_string()), Some("worker".to_string()));
    assert_eq!(slot.take(), Some("second".to_string()));
    assert!(!slot.is_held());
    assert_eq!(slot.take(), None);
}
