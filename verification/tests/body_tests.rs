use quake::client::Quake;
use quake::json::{to_json_string, JsonValue};
use quake::models::{AggService, Host, Scroll, ScrollHost, Service};
use serde_json::Value;

/// The JSON text the library writes for a request body, read back.
fn read_back(body: &JsonValue) -> Value {
    serde_json::from_str(&to_json_string(body)).unwrap()
}

#[test]
fn test_service_serde_roundtrip() {
    let s = Service {
        query: "port:80".to_string(),
        start: 0,
        size: 10,
        ignore_cache: true,
        latest: false,
        start_time: "2023-01-01 00:00:00".to_string(),
        end_time: "2024-01-01 00:00:00".to_string(),
        ip_list: vec![],
        shortcuts: vec![],
    };
    let v = read_back(&Quake::get_service_post_data(s));
    assert_eq!(v["query"], "port:80");
    assert_eq!(v["start"], 0);
    assert_eq!(v["size"], 10);
    assert_eq!(v["ignore_cache"], true);
    assert_eq!(v["latest"], false);
}

#[test]
fn test_scroll_serde_roundtrip() {
    let s = Scroll {
        query: "port:443".to_string(),
        size: 20,
        ignore_cache: false,
        latest: true,
        pagination_id: "abc123".to_string(),
        start_time: "2023-06-01 00:00:00".to_string(),
        end_time: "2024-06-01 00:00:00".to_string(),
        ip_list: vec![],
        shortcuts: vec![],
    };
    let v = read_back(&Quake::get_scroll_post_data(s));
    assert_eq!(v["pagination_id"], "abc123");
    assert_eq!(v["size"], 20);
}

#[test]
fn test_host_serde_roundtrip() {
    let h = Host { query: "ip:1.1.1.1".to_string(), start: 0, size: 5, ignore_cache: true };
    let v = read_back(&h.body());
    assert_eq!(v["query"], "ip:1.1.1.1");
    assert_eq!(v["size"], 5);
}

#[test]
fn test_scroll_host_serde_roundtrip() {
    let sh = ScrollHost {
        query: "ip:8.8.8.8".to_string(),
        size: 10,
        pagination_id: "page2".to_string(),
        ignore_cache: false,
    };
    let v = read_back(&Quake::get_scrollhost_post_data(sh));
    assert_eq!(v["pagination_id"], "page2");
    assert_eq!(v["ignore_cache"], false);
}

#[test]
fn test_agg_service_serde_roundtrip() {
    let a = AggService {
        query: "app:\"*蜜罐*\" AND ip:1.1.1.1".to_string(),
        start: 0,
        size: 5,
        ignore_cache: false,
        aggregation_list: vec!["app".to_string()],
    };
    let v = read_back(&a.body());
    assert_eq!(v["aggregation_list"], Value::Array(vec![Value::String("app".to_string())]));
    assert_eq!(v["query"], "app:\"*蜜罐*\" AND ip:1.1.1.1");
}

#[test]
fn test_service_with_ip_list() {
    let s = Service {
        query: String::new(),
        start: 0,
        size: 100,
        ignore_cache: false,
        latest: false,
        start_time: String::new(),
        end_time: String::new(),
        ip_list: vec![
            JsonValue::String("1.1.1.1".to_string()),
            JsonValue::String("8.8.8.8".to_string()),
        ],
        shortcuts: vec![],
    };
    let v = read_back(&Quake::get_service_post_data(s));
    assert_eq!(v["ip_list"].as_array().unwrap().len(), 2);
    assert_eq!(v["ip_list"][0], Value::String("1.1.1.1".to_string()));
}

#[test]
fn test_escaped_text_reads_back() {
    let mut s = Service {
        query: "a\"b\\c\nd\u{1}é".to_string(),
        start: -1,
        size: 0,
        ignore_cache: false,
        latest: false,
        start_time: String::new(),
        end_time: String::new(),
        ip_list: vec![],
        shortcuts: vec![],
    };
    s.shortcuts.push(JsonValue::Null);
    let v = read_back(&Quake::get_service_post_data(s));
    assert_eq!(v["query"], "a\"b\\c\nd\u{1}é");
    assert_eq!(v["start"], -1);
    assert_eq!(v["shortcuts"][0], Value::Null);
}
