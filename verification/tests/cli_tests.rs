use quake::cli::{
    domain_query, get_str, host_query, parse_i32, parse_i32_text, read_gpt_query, size_warning,
    split_fields,
};

// ========== parse_i32 ==========

#[test]
fn test_parse_i32_valid_value() {
    assert_eq!(parse_i32(Some("42"), 0), 42);
}

#[test]
fn test_parse_i32_default_value() {
    assert_eq!(parse_i32(None, 10), 10);
}

#[test]
fn test_parse_i32_invalid_value_returns_default() {
    assert_eq!(parse_i32(Some("not_a_number"), 99), 99);
}

#[test]
fn test_parse_i32_zero() {
    assert_eq!(parse_i32(Some("0"), 10), 0);
}

#[test]
fn test_parse_i32_negative() {
    assert_eq!(parse_i32(Some("-5"), 0), -5);
}

#[test]
fn test_parse_i32_text_agrees_with_std() {
    let samples = [
        "", "+", "-", "0", "-0", "+7", "007", "2147483647", "2147483648", "-2147483648",
        "-2147483649", " 1", "1 ", "1_000", "99999999999999999999", "+-1", "١",
    ];
    for t in samples.iter() {
        assert_eq!(parse_i32_text(t), t.parse::<i32>().ok(), "{:?}", t);
    }
}

// ========== get_str ==========

#[test]
fn test_get_str_valid_value() {
    assert_eq!(get_str(Some("hello"), "default"), "hello");
}

#[test]
fn test_get_str_default_value() {
    assert_eq!(get_str(None, "fallback"), "fallback");
}

#[test]
fn test_get_str_empty_string_value() {
    assert_eq!(get_str(Some(""), "default"), "");
}

#[test]
fn test_get_str_with_special_chars() {
    assert_eq!(get_str(Some("port:80 AND ip:1.1.1.1"), ""), "port:80 AND ip:1.1.1.1");
}

#[test]
fn test_get_str_chinese_chars() {
    assert_eq!(get_str(Some("你好世界"), ""), "你好世界");
}

// ========== fields and queries ==========

#[test]
fn test_split_fields_like_str_split() {
    for t in ["ip,port,title", "", ",", "a,,b,", "domain"].iter() {
        let expected: Vec<String> = t.split(',').map(|x| x.to_string()).collect();
        assert_eq!(split_fields(t), expected);
        assert_eq!(split_fields(t).join(","), *t);
    }
}

#[test]
fn test_queries() {
    assert_eq!(domain_query("360.cn"), "domain:*.360.cn");
    assert_eq!(host_query("1.2.3.0/24"), "ip:1.2.3.0/24");
}

#[test]
fn test_size_warning() {
    assert!(size_warning(100).is_none());
    let w = size_warning(101).unwrap();
    assert_eq!(
        w,
        "\u{1b}[1;33m[-]\u{1b}[0m Warning: Size is set to a maximum of 100, if set too high it may cause abnormal slowdowns or timeouts."
    );
}

// ========== directives of an AI-written query ==========

#[test]
fn test_read_gpt_query_directives() {
    let g = read_gpt_query(
        "\"country: \\\"China\\\" AND app: \\\"Apache\\\" --size 20 --time_start 2022-01 --time_end 2023-01-05 --output a.txt and\"",
    )
    .unwrap();
    assert_eq!(g.size, 20);
    assert_eq!(g.time_start, "2022-01");
    assert_eq!(g.time_end, "2023-01");
    assert_eq!(g.output, Some("a.txt".to_string()));
    assert_eq!(g.query, "country: China AND app: Apache     ");
}

#[test]
fn test_read_gpt_query_defaults() {
    let g = read_gpt_query("port:80").unwrap();
    assert_eq!(g.size, 10);
    assert_eq!(g.time_start, "");
    assert_eq!(g.time_end, "");
    assert_eq!(g.output, None);
    assert_eq!(g.query, "port:80");
    let big = read_gpt_query("port:80 --size 99999999999").unwrap();
    assert_eq!(big.size, 10);
}

#[test]
fn test_count_only() {
    assert!(quake::cli::count_only(1));
    assert!(!quake::cli::count_only(0));
    assert!(!quake::cli::count_only(2));
}
