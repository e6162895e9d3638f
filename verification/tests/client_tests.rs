use quake::client::{
    HostScroll, Quake, Shortcutable, SHORTCUT_CDN, SHORTCUT_MG, SHORTCUT_SJQC,
};
use quake::json::{to_json_string, JsonNumber, JsonValue};
use quake::models::{AggService, Host, Scroll, ScrollHost, Service};

fn s(x: &str) -> JsonValue {
    JsonValue::String(x.to_string())
}

fn n(i: i64) -> JsonValue {
    if i < 0 {
        JsonValue::Number(JsonNumber::NegInt(i))
    } else {
        JsonValue::Number(JsonNumber::PosInt(i as u64))
    }
}

fn obj(pairs: Vec<(&str, JsonValue)>) -> JsonValue {
    JsonValue::Object(pairs.into_iter().map(|(k, v)| (k.to_string(), v)).collect())
}

fn service(query: &str) -> Service {
    Service {
        query: query.to_string(),
        start: 0,
        size: 10,
        ignore_cache: false,
        latest: false,
        start_time: String::new(),
        end_time: String::new(),
        ip_list: vec![],
        shortcuts: vec![],
    }
}

fn scroll(query: &str) -> Scroll {
    Scroll {
        query: query.to_string(),
        size: 10,
        ignore_cache: false,
        latest: false,
        pagination_id: String::new(),
        start_time: String::new(),
        end_time: String::new(),
        ip_list: vec![],
        shortcuts: vec![],
    }
}

// ========== get_service_post_data ==========

#[test]
fn test_get_service_post_data_basic() {
    let s0 = Service {
        query: "port:80".to_string(),
        start: 0,
        size: 10,
        ignore_cache: true,
        latest: false,
        start_time: "2023-01-01".to_string(),
        end_time: "2024-01-01".to_string(),
        ip_list: vec![],
        shortcuts: vec![],
    };
    let data = Quake::get_service_post_data(s0);
    assert_eq!(data.get("query"), Some(&s("port:80")));
    assert_eq!(data.get("start"), Some(&n(0)));
    assert_eq!(data.get("size"), Some(&n(10)));
    assert_eq!(data.get("ignore_cache"), Some(&JsonValue::Bool(true)));
    assert_eq!(data.get("latest"), Some(&JsonValue::Bool(false)));
    assert_eq!(data.get("start_time"), Some(&s("2023-01-01")));
    assert_eq!(data.get("end_time"), Some(&s("2024-01-01")));
}

#[test]
fn test_get_service_post_data_with_ip_list() {
    let mut s0 = service("");
    s0.latest = true;
    s0.ip_list = vec![s("1.1.1.1"), s("8.8.8.8")];
    let data = Quake::get_service_post_data(s0);
    assert_eq!(data.get("query"), Some(&s("")));
    assert!(data.get("ip_list").unwrap().as_array().unwrap().len() == 2);
}

#[test]
fn test_get_service_post_data_with_shortcuts() {
    let mut s0 = service("test");
    s0.shortcuts = vec![s("shortcut1"), s("shortcut2")];
    let data = Quake::get_service_post_data(s0);
    let shortcuts = data.get("shortcuts").unwrap().as_array().unwrap();
    assert_eq!(shortcuts.len(), 2);
    assert_eq!(shortcuts[0], s("shortcut1"));
    assert_eq!(shortcuts[1], s("shortcut2"));
}

#[test]
fn test_get_service_post_data_json_text() {
    let mut s0 = service("port:80");
    s0.size = -3;
    let text = to_json_string(&Quake::get_service_post_data(s0));
    assert_eq!(
        text,
        "{\"end_time\":\"\",\"ignore_cache\":false,\"latest\":false,\"query\":\"port:80\",\"shortcuts\":[],\"size\":-3,\"start\":0,\"start_time\":\"\"}"
    );
}

#[test]
fn test_get_service_post_data_ip_list_replaces_query() {
    let mut s0 = service("port:80");
    s0.ip_list = vec![s("1.1.1.1")];
    let data = Quake::get_service_post_data(s0);
    assert_eq!(data.get("query"), Some(&s("")));
}

// ========== get_scroll_post_data ==========

#[test]
fn test_get_scroll_post_data_basic() {
    let s0 = Scroll {
        query: "port:443".to_string(),
        size: 20,
        ignore_cache: false,
        latest: true,
        pagination_id: "abc123".to_string(),
        start_time: "2023-06-01".to_string(),
        end_time: "2024-06-01".to_string(),
        ip_list: vec![],
        shortcuts: vec![],
    };
    let data = Quake::get_scroll_post_data(s0);
    assert_eq!(data.get("query"), Some(&s("port:443")));
    assert_eq!(data.get("size"), Some(&n(20)));
    assert_eq!(data.get("latest"), Some(&JsonValue::Bool(true)));
    assert_eq!(data.get("pagination_id"), Some(&s("abc123")));
}

#[test]
fn test_get_scroll_post_data_empty_pagination() {
    let data = Quake::get_scroll_post_data(scroll("test"));
    assert!(data.get("pagination_id").is_none());
}

#[test]
fn test_get_scroll_post_data_with_ip_list() {
    let mut s0 = scroll("");
    s0.ip_list = vec![s("1.1.1.1")];
    let data = Quake::get_scroll_post_data(s0);
    assert_eq!(data.get("query"), Some(&s("")));
    assert!(data.get("ip_list").unwrap().as_array().unwrap().len() == 1);
}

// ========== get_scrollhost_post_data ==========

#[test]
fn test_get_scrollhost_post_data_basic() {
    let sh = ScrollHost {
        query: "ip:8.8.8.8".to_string(),
        size: 50,
        pagination_id: "page2".to_string(),
        ignore_cache: true,
    };
    let data = Quake::get_scrollhost_post_data(sh);
    assert_eq!(data.get("query"), Some(&s("ip:8.8.8.8")));
    assert_eq!(data.get("size"), Some(&n(50)));
    assert_eq!(data.get("ignore_cache"), Some(&JsonValue::Bool(true)));
    assert_eq!(data.get("pagination_id"), Some(&s("page2")));
}

#[test]
fn test_get_scrollhost_post_data_empty_pagination() {
    let sh = ScrollHost {
        query: "test".to_string(),
        size: 10,
        pagination_id: String::new(),
        ignore_cache: false,
    };
    let data = Quake::get_scrollhost_post_data(sh);
    assert!(data.get("pagination_id").is_none());
}

// ========== init_scroll_host ==========

#[test]
fn test_init_scroll_host_basic() {
    let sh = Quake::init_scroll_host("ip:1.1.1.1", 20, "");
    assert_eq!(sh.query, "ip:1.1.1.1");
    assert_eq!(sh.size, 20);
    assert!(sh.ignore_cache);
    assert!(sh.pagination_id.is_empty());
}

#[test]
fn test_init_scroll_host_with_pagination() {
    let sh = Quake::init_scroll_host("port:80", 10, "page5");
    assert_eq!(sh.pagination_id, "page5");
    assert_eq!(sh.query, "port:80");
}

// ========== apply_shortcuts ==========

#[test]
fn test_apply_shortcuts_none() {
    let mut s0 = service("test");
    Quake::apply_shortcuts(&mut s0, 0, 0, 0, 0);
    assert!(s0.shortcuts.is_empty());
}

#[test]
fn test_apply_shortcuts_cdn() {
    let mut s0 = service("test");
    Quake::apply_shortcuts(&mut s0, 1, 0, 0, 0);
    assert_eq!(s0.shortcuts.len(), 1);
    assert_eq!(s0.shortcuts[0], JsonValue::String(SHORTCUT_CDN.to_string()));
}

#[test]
fn test_apply_shortcuts_all() {
    let mut s0 = service("test");
    Quake::apply_shortcuts(&mut s0, 1, 1, 1, 1);
    assert_eq!(s0.shortcuts.len(), 4);
}

#[test]
fn test_apply_shortcuts_on_scroll() {
    let mut s0 = scroll("test");
    Quake::apply_shortcuts(&mut s0, 0, 1, 0, 1);
    assert_eq!(s0.shortcuts.len(), 2);
    assert_eq!(s0.shortcuts[0], JsonValue::String(SHORTCUT_MG.to_string()));
    assert_eq!(s0.shortcuts[1], JsonValue::String(SHORTCUT_SJQC.to_string()));
}

#[test]
fn test_apply_shortcuts_only_flag_one_counts() {
    let mut s0 = service("test");
    Quake::apply_shortcuts(&mut s0, 2, -1, 0, 1);
    assert_eq!(s0.shortcuts, vec![JsonValue::String(SHORTCUT_SJQC.to_string())]);
    assert_eq!(s0.query, "test");
}

// ========== apply_time_range ==========

#[test]
fn test_apply_time_range_both_empty() {
    let mut start = String::new();
    let mut end = String::new();
    Quake::apply_time_range(&mut start, &mut end, "", "");
    assert!(!start.is_empty());
    assert!(!end.is_empty());
}

#[test]
fn test_apply_time_range_start_only() {
    let mut start = String::new();
    let mut end = String::new();
    Quake::apply_time_range(&mut start, &mut end, "2023-06-01", "");
    assert_eq!(start, "2023-06-01");
    assert!(!end.is_empty());
}

#[test]
fn test_apply_time_range_end_only() {
    let mut start = String::new();
    let mut end = String::new();
    Quake::apply_time_range(&mut start, &mut end, "", "2024-01-01");
    assert!(!start.is_empty());
    assert_eq!(end, "2024-01-01");
}

#[test]
fn test_apply_time_range_both_set() {
    let mut start = String::new();
    let mut end = String::new();
    Quake::apply_time_range(&mut start, &mut end, "2023-01-01", "2024-01-01");
    assert_eq!(start, "2023-01-01");
    assert_eq!(end, "2024-01-01");
}

#[test]
fn test_time_range_table() {
    let l = || "2024-05-06 07:08:09".to_string();
    let a = || "2023-05-07 07:08:09".to_string();
    assert_eq!(Quake::time_range("", "", l(), a()), Some((a(), l())));
    assert_eq!(Quake::time_range("2020-01-01", "", l(), a()), Some(("2020-01-01".to_string(), l())));
    assert_eq!(
        Quake::time_range("", "2024-01-01", l(), a()),
        Some(("2023-01-01".to_string(), "2024-01-01".to_string()))
    );
    assert_eq!(
        Quake::time_range("x", "y", l(), a()),
        Some(("x".to_string(), "y".to_string()))
    );
    assert_eq!(Quake::time_range("", "not a date", l(), a()), None);
}

#[test]
fn test_apply_time_range_bad_end() {
    let mut start = "s".to_string();
    let mut end = "e".to_string();
    assert!(!Quake::apply_time_range(&mut start, &mut end, "", "2024-13-01"));
    assert_eq!(start, "s");
    assert_eq!(end, "e");
    assert!(Quake::apply_time_range(&mut start, &mut end, "", "2024-02-29"));
    assert_eq!(start, "2023-03-01");
    assert_eq!(end, "2024-02-29");
}

// ========== init_scroll ==========

#[test]
fn test_init_scroll_basic() {
    let s0 = Quake::init_scroll("port:80", 10, "", "", 0, 0, 0, 0, 0, "").unwrap();
    assert_eq!(s0.query, "port:80");
    assert_eq!(s0.size, 10);
    assert!(s0.ignore_cache);
    assert!(s0.pagination_id.is_empty());
}

#[test]
fn test_init_scroll_with_pagination() {
    let s0 = Quake::init_scroll("test", 5, "", "", 0, 0, 0, 0, 0, "page3").unwrap();
    assert_eq!(s0.pagination_id, "page3");
}

#[test]
fn test_init_scroll_with_shortcuts_and_time() {
    let s0 = Quake::init_scroll("port:443", 20, "2023-01-01", "2024-01-01", 1, 1, 0, 0, 1, "").unwrap();
    assert_eq!(s0.shortcuts.len(), 3);
    assert_eq!(s0.start_time, "2023-01-01");
    assert_eq!(s0.end_time, "2024-01-01");
}

#[test]
fn test_init_scroll_bad_end() {
    assert!(Quake::init_scroll("q", 5, "", "junk", 0, 0, 0, 0, 0, "").is_none());
    assert!(Quake::init_scroll("q", 5, "", "", 0, 0, 0, 0, 0, "").is_some());
}

// ========== prepare_query ==========

#[test]
fn test_prepare_query_with_address_file() {
    let s0 = Quake::prepare_query("", Some("1.1.1.1\r\n8.8.8.8\n"), 0, 10, "2023-01-01", "2024-01-01", 1, 0, 0, 0, 0)
        .unwrap();
    assert_eq!(s0.ip_list, vec![s("1.1.1.1"), s("8.8.8.8")]);
    assert_eq!(s0.query, "");
    assert_eq!(s0.shortcuts, vec![JsonValue::String(SHORTCUT_CDN.to_string())]);
    assert!(s0.ignore_cache && s0.latest);
    assert_eq!(s0.start_time, "2023-01-01");
}

#[test]
fn test_prepare_query_plain() {
    let s0 = Quake::prepare_query("port:80", None, 3, 7, "", "", 0, 0, 1, 0, 0).unwrap();
    assert_eq!(s0.query, "port:80");
    assert_eq!((s0.start, s0.size), (3, 7));
    assert!(s0.ip_list.is_empty());
    assert!(Quake::prepare_query("port:80", None, 3, 7, "", "2024-02-30", 0, 0, 1, 0, 0).is_none());
}

// ========== Shortcutable ==========

#[test]
fn test_shortcutable_trait_service() {
    let mut s0 = service("test");
    s0.add_shortcut("test_id");
    assert_eq!(s0.shortcuts.len(), 1);
    assert_eq!(s0.shortcuts[0], JsonValue::String("test_id".to_string()));
}

#[test]
fn test_shortcutable_trait_scroll() {
    let mut s0 = scroll("test");
    s0.add_shortcut("test_id");
    assert_eq!(s0.shortcuts.len(), 1);
    assert_eq!(s0.shortcuts[0], JsonValue::String("test_id".to_string()));
}

// ========== responses ==========

#[test]
fn test_check_response_success_and_failure() {
    assert!(Quake::check_response(&obj(vec![("code", n(0))])).is_ok());
    let err = Quake::check_response(&obj(vec![("code", n(2)), ("message", s("bad key"))])).unwrap_err();
    assert_eq!(err, "\u{1b}[1;31m[!]\u{1b}[0m Query failed: bad key");
    let err = Quake::check_response(&obj(vec![("code", s("0"))])).unwrap_err();
    assert_eq!(err, "\u{1b}[1;31m[!]\u{1b}[0m Query failed: Unknown error");
    assert!(Quake::check_response(&obj(vec![])).is_err());
}

#[test]
fn test_host_scroll_gathers_pages() {
    let body = HostScroll::first_request("ip:1.1.1.1", 2);
    assert_eq!(to_json_string(&body), "{\"ignore_cache\":true,\"query\":\"ip:1.1.1.1\",\"size\":2}");
    let first = obj(vec![
        ("code", n(0)),
        ("data", JsonValue::Array(vec![n(1), n(2)])),
        ("meta", obj(vec![("pagination_id", s("cursor"))])),
    ]);
    let mut sc = HostScroll::start("ip:1.1.1.1", 2, first);
    assert_eq!(sc.pagination_id, "cursor");
    let next = sc.next_request().unwrap();
    assert_eq!(
        to_json_string(&next),
        "{\"ignore_cache\":true,\"pagination_id\":\"cursor\",\"query\":\"ip:1.1.1.1\",\"size\":2}"
    );
    sc.absorb(obj(vec![("data", JsonValue::Array(vec![n(3)]))]));
    assert_eq!(sc.data, vec![n(1), n(2), n(3)]);
    assert!(sc.next_request().is_none());
}

#[test]
fn test_response_data_takes_the_array() {
    let r = obj(vec![("code", n(0)), ("data", JsonValue::Array(vec![s("a")]))]);
    assert_eq!(quake::client::response_data(r), vec![s("a")]);
}

// ========== bodies ==========

#[test]
fn test_host_body_in_field_order() {
    let h = Host::search("ip:1.1.1.1", 0, 10);
    assert_eq!(
        to_json_string(&h.body()),
        "{\"query\":\"ip:1.1.1.1\",\"start\":0,\"size\":10,\"ignore_cache\":true}"
    );
}

#[test]
fn test_honeypot_aggregation() {
    let a = AggService::honeypot("1.1.1.1");
    assert_eq!(a.query, "app: \"*蜜罐*\" AND ip:1.1.1.1");
    assert_eq!(a.aggregation_list, vec!["app".to_string()]);
    assert_eq!(
        to_json_string(&a.body()),
        "{\"query\":\"app: \\\"*蜜罐*\\\" AND ip:1.1.1.1\",\"start\":0,\"size\":5,\"ignore_cache\":false,\"aggregation_list\":[\"app\"]}"
    );
}

#[test]
fn test_quake_keeps_its_key() {
    let q = Quake::new("k3y".to_string());
    assert_eq!(q.api_key(), "k3y");
}

#[test]
fn test_check_response_wants_the_integer_zero() {
    let float_zero = JsonValue::Number(JsonNumber::Float("0.0".to_string()));
    assert!(Quake::check_response(&obj(vec![("code", float_zero)])).is_err());
    assert!(Quake::check_response(&obj(vec![("code", JsonValue::Null)])).is_err());
}

#[test]
fn test_try_init_scroll_host() {
    assert_eq!(
        Quake::try_init_scroll_host("", 10, "").err(),
        Some("\u{1b}[1;34m[+]\u{1b}[0m Search failed".to_string())
    );
    let sh = Quake::try_init_scroll_host("ip:1.1.1.1", 10, "p").unwrap();
    assert_eq!((sh.query.as_str(), sh.size, sh.pagination_id.as_str()), ("ip:1.1.1.1", 10, "p"));
}

#[test]
fn test_token_header() {
    let q = Quake::new("secret".to_string());
    assert_eq!(q.token_header(), ("X-QuakeToken", "secret"));
}

#[test]
fn test_host_scroll_stops_after_an_empty_page() {
    let first = obj(vec![
        ("data", JsonValue::Array(vec![n(1), n(2)])),
        ("meta", obj(vec![("pagination_id", s("c"))])),
    ]);
    let mut sc = HostScroll::start("q", 2, first);
    let mut requests = 1;
    let mut pages = vec![vec![n(3), n(4)], vec![], vec![n(9)]].into_iter();
    while sc.next_request().is_some() {
        requests += 1;
        sc.absorb(obj(vec![("data", JsonValue::Array(pages.next().unwrap()))]));
    }
    assert_eq!(requests, 3);
    assert_eq!(sc.data, vec![n(1), n(2), n(3), n(4)]);
}

#[test]
fn test_init_scroll_at_fixed_reading() {
    let s0 = Quake::init_scroll_at(1_700_000_000, "q", 5, "2020-01-01", "", 0, 0, 0, 0, 0, "");
    assert_eq!(s0.start_time, "2020-01-01");
    assert_eq!(s0.end_time, quake::models::period_texts(1_700_000_000).0);
    let p = Quake::prepare_query_at(1_700_000_000, "q", None, 0, 10, "", "", 0, 0, 0, 0, 0).unwrap();
    let (now, ago) = quake::models::period_texts(1_700_000_000);
    assert_eq!((p.start_time, p.end_time), (ago, now));
}
