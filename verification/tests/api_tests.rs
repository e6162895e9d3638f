use quake::api::ApiKey;
use quake::json::{JsonNumber, JsonValue};

#[test]
fn test_config_paths() {
    let dir = ApiKey::config_dir("/home/u");
    assert_eq!(dir, "/home/u/.config/quake");
    assert_eq!(ApiKey::key_path(&dir, "api_key"), "/home/u/.config/quake/api_key");
}

#[test]
fn test_check_api_probe() {
    let (q, s) = ApiKey::check_api("key".to_string()).unwrap();
    assert_eq!(q.api_key(), "key");
    assert_eq!(s.query, "port:80");
    assert_eq!((s.start, s.size), (1, 1));
    assert!(!s.ignore_cache && !s.latest);
    assert!(s.start_time < s.end_time);
    assert!(s.ip_list.is_empty() && s.shortcuts.is_empty());
}

#[test]
fn test_set_api_keeps_only_answered_keys() {
    assert!(ApiKey::set_api("k".to_string(), false).is_none());
    let k = ApiKey::set_api("k".to_string(), true).unwrap();
    assert_eq!((k.file_name.as_str(), k.content.as_str()), ("api_key", "k"));
    let g = ApiKey::set_gptapi("g".to_string()).unwrap();
    assert_eq!((g.file_name.as_str(), g.content.as_str()), ("gptapi_key", "g"));
    assert!(ApiKey::check_gptapi("anything"));
}

#[test]
fn test_init_lines() {
    assert_eq!(ApiKey::init(true), "\u{1b}[1;32m[+]\u{1b}[0m 成功初始化");
    assert_eq!(ApiKey::init(false), "\u{1b}[1;31m[!]\u{1b}[0m 错误: 无效的 API 密钥");
    assert_eq!(ApiKey::gptinit(true), ApiKey::init(true));
}

#[test]
fn test_key_usable_needs_a_successful_answer() {
    let answer = |code: u64| JsonValue::Object(vec![("code".to_string(), JsonValue::Number(JsonNumber::PosInt(code)))]);
    assert!(ApiKey::key_usable(Some(&answer(0))));
    assert!(!ApiKey::key_usable(Some(&answer(401))));
    assert!(!ApiKey::key_usable(None));
}
