use quake::persistence::{read_file_host, read_file_search, save_lines};

// ========== save_lines ==========

#[test]
fn test_save_lines_basic() {
    let lines = vec!["line1".to_string(), "line2".to_string(), "line3".to_string()];
    let (writes, count) = save_lines(&lines);
    let contents = writes.concat();
    assert_eq!(count, 3);
    assert_eq!(writes, vec!["line1\n".to_string(), "line2\n".to_string(), "line3\n".to_string()]);
    assert!(contents.contains("line1\n"));
    assert!(contents.contains("line2\n"));
    assert!(contents.contains("line3\n"));
    assert_eq!(contents, "line1\nline2\nline3\n");
}

#[test]
fn test_save_lines_empty() {
    let lines: Vec<String> = vec![];
    let (writes, count) = save_lines(&lines);
    assert_eq!(count, 0);
    assert!(writes.is_empty());
}

#[test]
fn test_save_lines_append_mode() {
    let (first, _) = save_lines(&vec!["first".to_string()]);
    let (second, _) = save_lines(&vec!["second".to_string()]);
    let contents = first.concat() + &second.concat();
    assert!(contents.contains("first"));
    assert!(contents.contains("second"));
}

// ========== read_file_search ==========

#[test]
fn test_read_file_search_single_line() {
    assert_eq!(read_file_search("port:80\n", "\n"), "port:80");
}

#[test]
fn test_read_file_search_multiple_lines() {
    assert_eq!(
        read_file_search("port:80\nport:443\nport:8080\n", "\n"),
        "port:80 OR port:443 OR port:8080"
    );
}

#[test]
fn test_read_file_search_trims_trailing_or() {
    let result = read_file_search("port:80\nport:443\n", "\n");
    assert!(!result.ends_with(" OR "));
}

#[test]
fn test_read_file_search_windows_line_breaks() {
    assert_eq!(read_file_search("a\r\nb\r\n\r\n", "\r\n"), "a OR b");
}

// ========== read_file_host ==========

#[test]
fn test_read_file_host_single_ip() {
    assert_eq!(read_file_host("1.1.1.1\n", "\n"), "ip:\"1.1.1.1\"");
}

#[test]
fn test_read_file_host_multiple_ips() {
    assert_eq!(
        read_file_host("1.1.1.1\n8.8.8.8\n192.168.1.1\n", "\n"),
        "ip:\"1.1.1.1\" OR ip:\"8.8.8.8\" OR ip:\"192.168.1.1\""
    );
}

#[test]
fn test_read_file_host_wraps_in_ip_prefix() {
    let result = read_file_host("10.0.0.1\n", "\n");
    assert!(result.starts_with("ip:\""));
    assert!(result.ends_with("\""));
}

#[test]
fn test_read_file_host_empty_file() {
    assert_eq!(read_file_host("\n", "\n"), "ip:\"\"");
}

// ========== saving shown results ==========

use quake::display::{show, show_domain, show_host, show_host_by_scroll, show_scroll};
use quake::json::{JsonNumber, JsonValue};

fn s(x: &str) -> JsonValue {
    JsonValue::String(x.to_string())
}

fn n(i: u64) -> JsonValue {
    JsonValue::Number(JsonNumber::PosInt(i))
}

fn obj(pairs: Vec<(&str, JsonValue)>) -> JsonValue {
    JsonValue::Object(pairs.into_iter().map(|(k, v)| (k.to_string(), v)).collect())
}

fn page(items: Vec<JsonValue>) -> JsonValue {
    obj(vec![
        ("code", n(0)),
        ("data", JsonValue::Array(items)),
        ("meta", obj(vec![("pagination", obj(vec![("count", n(1)), ("total", n(1))]))])),
    ])
}

fn host(ip: &str) -> JsonValue {
    obj(vec![
        ("ip", s(ip)),
        ("location", obj(vec![("country_en", s("US")), ("province_en", s("CA")), ("city_en", s("SF"))])),
        ("services", JsonValue::Array(vec![obj(vec![("port", n(80)), ("name", s("http")), ("time", s("2024-01-01"))])])),
    ])
}

fn service_record(ip: &str, port: u64) -> JsonValue {
    obj(vec![
        ("ip", s(ip)),
        ("port", n(port)),
        ("service", obj(vec![("name", s("http")), ("http", obj(vec![("title", s("Test")), ("host", s("test.com"))]))])),
        ("location", obj(vec![("country_cn", s("US")), ("province_cn", s("CA")), ("city_cn", s("SF")), ("owner", s("Org"))])),
        ("time", s("2024-01-01")),
    ])
}

#[test]
fn test_save_domain_data() {
    let content = page(vec![obj(vec![
        ("ip", s("1.2.3.4")),
        ("port", n(443)),
        ("service", obj(vec![("http", obj(vec![("host", s("example.com")), ("title", s("Test"))]))])),
    ])]);
    let lines = show_domain(content, false, false, vec!["domain", "ip"]).results;
    let (writes, count) = save_lines(&lines);
    assert_eq!(count, 1);
    assert_eq!(writes.concat(), "example.com\t1.2.3.4\t\n");
}

#[test]
fn test_save_host_data() {
    let lines = show_host(page(vec![host("10.0.0.1")]), false).results;
    assert_eq!(save_lines(&lines).1, 1);
}

#[test]
fn test_save_search_data() {
    let lines = show(page(vec![service_record("1.1.1.1", 80)]), false, "", vec!["ip", "port"]).results;
    assert_eq!(save_lines(&lines).1, 1);
}

#[test]
fn test_save_scroll_data() {
    let lines = show_scroll(vec![service_record("2.2.2.2", 443)], false, "", vec!["ip"]).results;
    assert_eq!(save_lines(&lines).1, 1);
}

#[test]
fn test_save_host_by_scroll_data() {
    let lines = show_host_by_scroll(vec![host("10.0.0.1")], false).results;
    assert_eq!(save_lines(&lines).1, 1);
}
