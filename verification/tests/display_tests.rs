use quake::display::{
    remove_quotes, display_honeypot, format_host_record, sanitize, show, show_domain, show_host,
    show_host_by_scroll, show_info, show_info_jf, show_scroll, try_show, try_show_scroll, Record,
};
use quake::json::{JsonNumber, JsonValue};

fn s(x: &str) -> JsonValue {
    JsonValue::String(x.to_string())
}

fn n(i: i64) -> JsonValue {
    if i < 0 {
        JsonValue::Number(JsonNumber::NegInt(i))
    } else {
        JsonValue::Number(JsonNumber::PosInt(i as u64))
    }
}

fn arr(items: Vec<JsonValue>) -> JsonValue {
    JsonValue::Array(items)
}

fn members(pairs: Vec<(&str, JsonValue)>) -> Vec<(String, JsonValue)> {
    pairs.into_iter().map(|(k, v)| (k.to_string(), v)).collect()
}

fn obj(pairs: Vec<(&str, JsonValue)>) -> JsonValue {
    JsonValue::Object(members(pairs))
}

fn red(text: &str) -> String {
    format!("\u{1b}[1;31m{}\u{1b}[0m", text)
}

fn green_plus(msg: &str) -> String {
    format!("\u{1b}[1;32m[+]\u{1b}[0m {}", msg)
}

fn blue_plus(msg: &str) -> String {
    format!("\u{1b}[1;34m[+]\u{1b}[0m {}", msg)
}

// ========== sanitize ==========

#[test]
fn test_sanitize_empty_string() {
    assert_eq!(sanitize(""), "");
}

#[test]
fn test_sanitize_no_special_chars() {
    assert_eq!(sanitize("hello world"), "hello world");
}

#[test]
fn test_sanitize_removes_quotes() {
    assert_eq!(sanitize(r#"he said "hello""#), "he said hello");
}

#[test]
fn test_sanitize_removes_tabs() {
    assert_eq!(sanitize("hello\tworld"), "helloworld");
}

#[test]
fn test_sanitize_removes_newlines() {
    assert_eq!(sanitize("line1\nline2\rline3\r\nline4"), "line1line2line3line4");
}

#[test]
fn test_sanitize_mixed() {
    assert_eq!(sanitize("\"tab\there\"\nnew\rline"), "tabherenewline");
}

#[test]
fn test_sanitize_twice_is_once() {
    let once = sanitize("a\"b\tc\nd\re");
    assert_eq!(sanitize(&once), once);
    assert_eq!(once, "abcde");
}

#[test]
fn test_remove_quotes_twice_is_once() {
    let once = remove_quotes("\"a\"b\"");
    assert_eq!(once, "ab");
    assert_eq!(remove_quotes(&once), once);
}

// ========== Record ==========

fn test_record_map() -> Vec<(String, JsonValue)> {
    members(vec![
        ("ip", s("192.168.1.1")),
        ("port", n(80)),
        (
            "service",
            obj(vec![
                ("name", s("http")),
                ("http", obj(vec![("title", s("Test Page\t\n")), ("host", s("example.com"))])),
                (
                    "tls",
                    obj(vec![(
                        "server_certificates",
                        obj(vec![(
                            "certificate",
                            obj(vec![(
                                "parsed",
                                obj(vec![(
                                    "subject",
                                    obj(vec![("common_name", arr(vec![s("*.example.com")]))]),
                                )]),
                            )]),
                        )]),
                    )]),
                ),
            ]),
        ),
        (
            "location",
            obj(vec![
                ("country_cn", s("中国")),
                ("province_cn", s("北京")),
                ("city_cn", s("北京")),
                ("owner", s("Test Org")),
            ]),
        ),
        ("time", s("2024-01-15 10:30:00")),
        (
            "components",
            arr(vec![obj(vec![("product_name_cn", s("Apache")), ("version", s("2.4.41"))])]),
        ),
    ])
}

fn make_test_record() -> Record {
    Record::from_value(&test_record_map())
}

#[test]
fn test_record_from_value_ip() {
    let record = make_test_record();
    assert_eq!(record.ip, "192.168.1.1");
}

#[test]
fn test_record_from_value_port() {
    let record = make_test_record();
    assert_eq!(record.port, "80");
}

#[test]
fn test_record_from_value_title_sanitized() {
    let record = make_test_record();
    assert_eq!(record.title, "Test Page");
}

#[test]
fn test_record_from_value_domain() {
    let record = make_test_record();
    assert_eq!(record.domain, "example.com");
}

#[test]
fn test_record_from_value_protocol() {
    let record = make_test_record();
    assert_eq!(record.protocol, "http");
}

#[test]
fn test_record_from_value_location() {
    let record = make_test_record();
    assert_eq!(record.country, "中国");
    assert_eq!(record.province, "北京");
    assert_eq!(record.city, "北京");
    assert_eq!(record.owner, "Test Org");
}

#[test]
fn test_record_from_value_time() {
    let record = make_test_record();
    assert_eq!(record.time, "2024-01-15 10:30:00");
}

#[test]
fn test_record_from_value_components() {
    let record = make_test_record();
    assert_eq!(record.product_name_cn, "Apache");
    assert_eq!(record.version, "2.4.41");
}

#[test]
fn test_record_extract_ssl() {
    let record = make_test_record();
    assert_eq!(record.ssl, "*.example.com");
}

#[test]
fn test_record_extract_ssl_fallback_handshake() {
    let map = members(vec![(
        "service",
        obj(vec![(
            "tls",
            obj(vec![(
                "handshake_log",
                obj(vec![(
                    "server_certificates",
                    obj(vec![(
                        "certificate",
                        obj(vec![(
                            "parsed",
                            obj(vec![(
                                "subject",
                                obj(vec![("common_name", arr(vec![s("fallback.example.com")]))]),
                            )]),
                        )]),
                    )]),
                )]),
            )]),
        )]),
    )]);
    let record = Record::from_value(&map);
    assert_eq!(record.ssl, "fallback.example.com");
}

#[test]
fn test_record_extract_ssl_no_cert() {
    let map = members(vec![("service", obj(vec![("name", s("ssh"))]))]);
    let record = Record::from_value(&map);
    assert_eq!(record.ssl, "");
}

#[test]
fn test_record_extract_ssl_direct() {
    assert_eq!(Record::extract_ssl(&test_record_map()), "*.example.com");
}

#[test]
fn test_record_port_keeps_json_text_of_strings() {
    let map = members(vec![("port", s("443"))]);
    let record = Record::from_value(&map);
    assert_eq!(record.port, "\"443\"");
}

#[test]
fn test_record_get_field() {
    let record = make_test_record();
    assert_eq!(record.get_field("ip"), "192.168.1.1");
    assert_eq!(record.get_field("port"), "80");
    assert_eq!(record.get_field("title"), "Test Page");
    assert_eq!(record.get_field("country"), "中国");
    assert_eq!(record.get_field("ssldomain"), "*.example.com");
    assert_eq!(record.get_field("unknown_field"), "");
}

#[test]
fn test_record_get_domain_valid_domain() {
    let record = make_test_record();
    assert_eq!(record.get_domain("domain"), "example.com");
}

#[test]
fn test_record_get_domain_ip_address() {
    let mut record = make_test_record();
    record.domain = "192.168.1.1".to_string();
    assert_eq!(record.get_domain("domain"), "");
}

#[test]
fn test_record_get_domain_ipv6_address() {
    let mut record = make_test_record();
    record.domain = "2001:db8::1".to_string();
    assert_eq!(record.get_domain("domain"), "");
}

#[test]
fn test_record_get_domain_wrong_field() {
    let record = make_test_record();
    assert_eq!(record.get_domain("ip"), "");
}

#[test]
fn test_record_format_fields() {
    let record = make_test_record();
    let result = record.format_fields(&["ip", "port", "title"]);
    assert_eq!(result, "192.168.1.1\t80\tTest Page\t");
}

#[test]
fn test_record_format_fields_empty() {
    let record = make_test_record();
    let result = record.format_fields(&[]);
    assert_eq!(result, "");
}

#[test]
fn test_record_format_fields_with_domain() {
    let record = make_test_record();
    let result = record.format_fields(&["domain", "ip"]);
    assert_eq!(result, "example.com\t192.168.1.1\t");
}

#[test]
fn test_record_format_fields_unknown_name_gives_empty_field() {
    let record = make_test_record();
    assert_eq!(record.format_fields(&["nope", "ip"]), "\t192.168.1.1\t");
}

#[test]
fn test_record_filter_text_empty_filter() {
    let record = make_test_record();
    let map: Vec<(String, JsonValue)> = Vec::new();
    let result = record.filter_text(&map, "");
    assert_eq!(result, "");
}

#[test]
fn test_record_filter_text_concatenates_fields() {
    let record = make_test_record();
    let map = members(vec![(
        "service",
        obj(vec![
            ("cert", s("cert_data")),
            ("response", s("resp_data")),
            ("http", obj(vec![("body", s("body_data")), ("response_headers", s("header_data"))])),
        ]),
    )]);
    let result = record.filter_text(&map, "test");
    assert_eq!(result, "cert_dataresp_databody_dataheader_data");
}

#[test]
fn test_record_from_value_missing_fields() {
    let map = members(vec![("ip", s("1.1.1.1"))]);
    let record = Record::from_value(&map);
    assert_eq!(record.ip, "1.1.1.1");
    assert_eq!(record.title, "");
    assert_eq!(record.ssl, "");
    assert_eq!(record.country, "");
}

// ========== format_host_record ==========

fn host_map(ip: &str, country: &str, province: &str, city: &str, services: Vec<JsonValue>) -> Vec<(String, JsonValue)> {
    members(vec![
        ("ip", s(ip)),
        (
            "location",
            obj(vec![("country_en", s(country)), ("province_en", s(province)), ("city_en", s(city))]),
        ),
        ("services", arr(services)),
    ])
}

fn service(port: i64, name: &str, time: &str) -> JsonValue {
    obj(vec![("port", n(port)), ("name", s(name)), ("time", s(time))])
}

#[test]
fn test_format_host_record_basic() {
    let map = host_map("10.0.0.1", "China", "Beijing", "Beijing", vec![service(80, "http", "2024-01-15")]);
    let result = format_host_record(&map);
    assert!(result.contains("IP: 10.0.0.1"));
    assert!(result.contains("Country: China"));
    assert!(result.contains("Province: Beijing"));
    assert!(result.contains("City: Beijing"));
    assert!(result.contains("| Port"));
    assert!(result.contains("http"));
}

#[test]
fn test_format_host_record_exact_text() {
    let map = host_map("10.0.0.1", "China", "Beijing", "Beijing", vec![service(80, "http", "2024-01-15")]);
    let result = format_host_record(&map);
    let expected = format!(
        "IP: 10.0.0.1\tCountry: China\tProvince: Beijing\tCity: Beijing\n{}\t{:>20}\t{:>20}\n| {}\t{:>20}\t{:>20}\n\n",
        "| Port", "Protocol", "time", 80, "http", "2024-01-15"
    );
    assert_eq!(result, expected);
}

#[test]
fn test_format_host_record_multiple_services() {
    let map = host_map(
        "10.0.0.1",
        "US",
        "California",
        "San Francisco",
        vec![service(80, "http", "2024-01-01"), service(443, "https", "2024-01-02")],
    );
    let result = format_host_record(&map);
    assert!(result.contains("http"));
    assert!(result.contains("https"));
}

#[test]
fn test_format_host_record_unknown_time() {
    let map = host_map("10.0.0.1", "US", "CA", "SF", vec![service(22, "ssh", "unknown")]);
    let result = format_host_record(&map);
    assert!(!result.contains("unknown"));
}

// ========== show / show_scroll ==========

fn make_search_response(count: usize, total: i64) -> JsonValue {
    let data: Vec<JsonValue> = (0..count)
        .map(|i| {
            obj(vec![
                ("ip", s(&format!("10.0.0.{}", i + 1))),
                ("port", n(80 + i as i64)),
                (
                    "service",
                    obj(vec![
                        ("name", s("http")),
                        (
                            "http",
                            obj(vec![("title", s(&format!("Page {}", i))), ("host", s(&format!("host{}.com", i)))]),
                        ),
                    ]),
                ),
                (
                    "location",
                    obj(vec![
                        ("country_cn", s("中国")),
                        ("province_cn", s("北京")),
                        ("city_cn", s("北京")),
                        ("owner", s("Org")),
                    ]),
                ),
                ("time", s("2024-01-01 00:00:00")),
            ])
        })
        .collect();
    obj(vec![
        ("code", n(0)),
        ("data", arr(data)),
        ("meta", obj(vec![("pagination", obj(vec![("count", n(count as i64)), ("total", n(total))]))])),
    ])
}

#[test]
fn test_show_returns_formatted_strings() {
    let value = make_search_response(2, 100);
    let result = show(value, false, "", vec!["ip", "port"]).results;
    assert_eq!(result.len(), 2);
    assert!(result[0].contains("10.0.0.1"));
    assert!(result[0].contains("80"));
}

#[test]
fn test_show_empty_filter() {
    let value = make_search_response(1, 1);
    let result = show(value, false, "", vec!["ip"]).results;
    assert_eq!(result.len(), 1);
    assert!(result[0].contains("10.0.0.1"));
}

#[test]
fn test_show_with_filter_match() {
    let value = make_search_response(1, 1);
    let result = show(value, false, "10\\.0\\.0\\.1", vec!["ip"]).results;
    assert_eq!(result.len(), 1);
    assert!(result[0].contains("10.0.0.1"));
}

#[test]
fn test_show_printed_text() {
    let value = make_search_response(1, 7);
    let shown = show(value, true, "", vec!["ip", "port"]);
    assert_eq!(shown.results, vec!["10.0.0.1\t80\t".to_string()]);
    let expected = format!(
        "{}\n{}\n10.0.0.1\t80\t{}\n",
        green_plus("Successful."),
        green_plus("count: 1 \ttotal: 7"),
        red("")
    );
    assert_eq!(shown.printed, expected);
}

#[test]
fn test_show_filter_match_appended_when_not_printed() {
    let value = obj(vec![
        (
            "data",
            arr(vec![obj(vec![
                ("ip", s("1.1.1.1")),
                ("service", obj(vec![("http", obj(vec![("body", s("X-OWA-Version: 15.1"))]))])),
            ])]),
        ),
        ("meta", obj(vec![("pagination", obj(vec![("count", n(1)), ("total", n(1))]))])),
    ]);
    let shown = show(value, false, "X-OWA-Version: (.*)", vec!["ip"]);
    assert_eq!(shown.results, vec!["1.1.1.1\tX-OWA-Version: 15.1".to_string()]);
    assert_eq!(shown.printed, format!("{}\n{}\n", green_plus("Successful."), green_plus("count: 1 \ttotal: 1")));
}

#[test]
fn test_show_counts_only_the_first_count_elements() {
    let mut value = make_search_response(3, 3);
    if let JsonValue::Object(m) = &mut value {
        m[2] = (
            "meta".to_string(),
            obj(vec![("pagination", obj(vec![("count", n(2)), ("total", n(3))]))]),
        );
    }
    let result = show(value, false, "", vec!["ip"]).results;
    assert_eq!(result, vec!["10.0.0.1\t".to_string(), "10.0.0.2\t".to_string()]);
}

#[test]
fn test_show_scroll_returns_formatted_strings() {
    let items = vec![obj(vec![
        ("ip", s("1.1.1.1")),
        ("port", n(443)),
        ("service", obj(vec![("name", s("https")), ("http", obj(vec![("title", s("Test")), ("host", s("test.com"))]))])),
        (
            "location",
            obj(vec![("country_cn", s("US")), ("province_cn", s("CA")), ("city_cn", s("SF")), ("owner", s("Org"))]),
        ),
        ("time", s("2024-01-01")),
    ])];
    let result = show_scroll(items, false, "", vec!["ip", "port"]).results;
    assert_eq!(result.len(), 1);
    assert!(result[0].contains("1.1.1.1"));
    assert!(result[0].contains("443"));
}

#[test]
fn test_show_scroll_skips_non_objects() {
    let items = vec![s("not a record"), obj(vec![("ip", s("2.2.2.2"))])];
    let result = show_scroll(items, false, "", vec!["ip"]).results;
    assert_eq!(result, vec!["2.2.2.2\t".to_string()]);
}

#[test]
fn test_show_with_empty_data_array() {
    let value = obj(vec![
        ("code", n(0)),
        ("data", arr(vec![])),
        ("meta", obj(vec![("pagination", obj(vec![("count", n(0)), ("total", n(0))]))])),
    ]);
    let result = show(value, false, "", vec!["ip"]).results;
    assert!(result.is_empty());
}

#[test]
fn test_try_show_refuses_a_bad_filter() {
    let value = make_search_response(1, 1);
    assert!(try_show(value, false, "(", vec!["ip"]).is_none());
}

#[test]
fn test_try_show_refuses_missing_pagination() {
    let value = obj(vec![("code", n(0)), ("data", arr(vec![]))]);
    assert!(try_show(value, false, "", vec!["ip"]).is_none());
}

#[test]
fn test_try_show_shows_a_good_page() {
    let value = make_search_response(1, 1);
    let shown = try_show(value, false, "", vec!["ip"]).unwrap();
    assert_eq!(shown.results, vec!["10.0.0.1\t".to_string()]);
}

#[test]
fn test_try_show_scroll_refuses_a_bad_filter() {
    assert!(try_show_scroll(vec![], false, "[", vec!["ip"]).is_none());
    assert!(try_show_scroll(vec![], false, "", vec!["ip"]).is_some());
}

// ========== show_host / show_host_by_scroll ==========

#[test]
fn test_show_host_returns_formatted() {
    let value = obj(vec![
        ("code", n(0)),
        (
            "data",
            arr(vec![JsonValue::Object(host_map(
                "192.168.1.1",
                "China",
                "Beijing",
                "Beijing",
                vec![service(80, "http", "2024-01-15")],
            ))]),
        ),
        ("meta", obj(vec![("pagination", obj(vec![("count", n(1)), ("total", n(1))]))])),
    ]);
    let result = show_host(value, false).results;
    assert_eq!(result.len(), 1);
    assert!(result[0].contains("IP: 192.168.1.1"));
    assert!(result[0].contains("Country: China"));
    assert!(result[0].contains("http"));
}

#[test]
fn test_show_host_by_scroll_returns_formatted() {
    let items = vec![JsonValue::Object(host_map(
        "10.0.0.1",
        "US",
        "NY",
        "NYC",
        vec![service(22, "ssh", "2024-01-01"), service(80, "http", "2024-01-02")],
    ))];
    let result = show_host_by_scroll(items, false).results;
    assert_eq!(result.len(), 1);
    assert!(result[0].contains("IP: 10.0.0.1"));
    assert!(result[0].contains("ssh"));
    assert!(result[0].contains("http"));
}

// ========== show_domain ==========

#[test]
fn test_show_domain_returns_formatted() {
    let value = obj(vec![
        ("code", n(0)),
        (
            "data",
            arr(vec![obj(vec![
                ("ip", s("1.2.3.4")),
                ("port", n(443)),
                ("service", obj(vec![("http", obj(vec![("host", s("example.com")), ("title", s("Example"))]))])),
            ])]),
        ),
        ("meta", obj(vec![("pagination", obj(vec![("count", n(1)), ("total", n(1))]))])),
    ]);
    let result = show_domain(value, false, false, vec!["domain", "ip", "port"]).results;
    assert_eq!(result.len(), 1);
    assert!(result[0].contains("example.com"));
    assert!(result[0].contains("1.2.3.4"));
    assert_eq!(result[0], "example.com\t1.2.3.4\t443\t");
}

#[test]
fn test_show_domain_only_count() {
    let value = obj(vec![
        ("code", n(0)),
        ("data", arr(vec![])),
        ("meta", obj(vec![("pagination", obj(vec![("count", n(0)), ("total", n(42))]))])),
    ]);
    let shown = show_domain(value, true, false, vec!["domain"]);
    assert!(shown.results.is_empty());
}

#[test]
fn test_show_domain_only_count_prints_total() {
    let value = obj(vec![
        ("code", n(0)),
        ("data", arr(vec![])),
        ("meta", obj(vec![("pagination", obj(vec![("count", n(0)), ("total", n(42))]))])),
    ]);
    let shown = show_domain(value, true, true, vec!["domain"]);
    let expected = format!(
        "{}\n{}\n42\n",
        green_plus("Successful."),
        green_plus("count: 0 \ttotal: 42")
    );
    assert_eq!(shown.printed, expected);
}

// ========== show_info / show_info_jf ==========

#[test]
fn test_show_info_success() {
    let info = obj(vec![
        ("code", n(0)),
        ("message", s("success")),
        (
            "data",
            obj(vec![
                ("credit", n(1000)),
                ("persistent_credit", n(5000)),
                ("user", obj(vec![("username", s("testuser")), ("email", s("test@example.com"))])),
                ("mobile_phone", s("138****1234")),
                ("role", arr(vec![obj(vec![("fullname", s("Admin"))]), obj(vec![("fullname", s("User"))])])),
            ]),
        ),
    ]);
    let text = show_info(info);
    let expected = format!(
        "{}\n{}\n{}\n{}\n{}\n{}\n{}\n",
        green_plus("Successful."),
        blue_plus("用户名:  testuser"),
        blue_plus("邮  箱:  test@example.com"),
        blue_plus("手  机:  138****1234"),
        blue_plus("月度积分: 1000"),
        blue_plus("长效积分: 5000"),
        blue_plus("角  色:  Admin,User"),
    );
    assert_eq!(text, expected);
}

#[test]
fn test_show_info_error() {
    let info = obj(vec![("code", n(-1)), ("message", s("Unauthorized"))]);
    let text = show_info(info);
    assert_eq!(text, format!("{} Unauthorized\n", red("[!]")));
}

#[test]
fn test_show_info_jf_success() {
    let info = obj(vec![("code", n(0)), ("message", s("success")), ("data", obj(vec![("credit", n(2000))]))]);
    assert_eq!(show_info_jf(info), format!("{}\n", blue_plus("月度积分: 2000")));
}

#[test]
fn test_show_info_jf_error() {
    let info = obj(vec![("code", n(-1)), ("message", s("error"))]);
    assert_eq!(show_info_jf(info), "");
}

// ========== display_honeypot ==========

#[test]
fn test_display_honeypot_detected() {
    let response = obj(vec![("data", obj(vec![("app", arr(vec![obj(vec![("key", s("蜜罐系统"))])]))]))]);
    let text = display_honeypot(response);
    assert_eq!(text, format!("{} Looks like a 系统 honeypot system! \n", red("[!]")));
}

#[test]
fn test_display_honeypot_not_detected() {
    let response = obj(vec![("data", obj(vec![("app", arr(vec![]))]))]);
    let text = display_honeypot(response);
    assert_eq!(text, format!("{}\n", green_plus("Looks like a real system!")));
}
