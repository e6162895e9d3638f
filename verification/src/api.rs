//! The API keys: where they are kept, how a Quake key is tried before it is
//! kept, and what the tool says once it is. Trying the key, and reading and
//! writing the files, are the caller's.
use vstd::prelude::*;
use crate::client::{Quake, response_succeeded};
use crate::json::JsonValue;
use crate::models::{
    Output, Service, clock_ok, error_line, period_at, period_texts, read_clock, success_line,
};
use crate::text::append_str;

verus! {

/// The file the Quake key is kept in, under the configuration directory.
pub const API_KEY_FILE: &'static str = "api_key";

/// The file the GPT key is kept in, under the configuration directory.
pub const GPT_KEY_FILE: &'static str = "gptapi_key";

/// A key to be written to a file of the configuration directory.
pub struct KeyFile {
    pub file_name: String,
    pub content: String,
}

/// The handling of the tool's API keys.
pub struct ApiKey;

/// The line printed once a key is kept, or refused.
pub open spec fn init_line(kept: bool) -> Seq<char> {
    if kept {
        success_line("成功初始化"@)
    } else {
        error_line("错误: 无效的 API 密钥"@)
    }
}

impl ApiKey {
    /// The configuration directory under a home directory.
    pub fn config_dir(home: &str) -> (r: String)
        ensures
            r@ == home@ + "/.config/quake"@,
    {
        let mut r = home.to_string();
        append_str(&mut r, "/.config/quake");
        r
    }

    /// The path of a file of the configuration directory.
    pub fn key_path(config_dir: &str, file_name: &str) -> (r: String)
        ensures
            r@ == config_dir@ + "/"@ + file_name@,
    {
        let mut r = config_dir.to_string();
        append_str(&mut r, "/");
        append_str(&mut r, file_name);
        r
    }

    /// The request a Quake key is tried with at the clock reading `now`: a
    /// client holding the key, and the search `port:80`, one result from the
    /// start, from the cache, over the year up to `now` (see `period_at`;
    /// `key_usable` reads the answer).
    pub fn check_api_at(apikey: String, now: i64) -> (r: (Quake, Service))
        requires
            clock_ok(now as int),
        ensures
            r.0.key() == apikey@,
            r.1.query@ == "port:80"@,
            r.1.start == 1,
            r.1.size == 1,
            !r.1.ignore_cache,
            !r.1.latest,
            period_at(now as int, r.1.end_time@, r.1.start_time@),
            r.1.ip_list@.len() == 0,
            r.1.shortcuts@.len() == 0,
    {
        let (local, one_years_ago) = period_texts(now);
        let s = Service {
            ip_list: Vec::new(),
            query: "port:80".to_string(),
            start: 1,
            size: 1,
            ignore_cache: false,
            latest: false,
            start_time: one_years_ago,
            end_time: local,
            shortcuts: Vec::new(),
        };
        (Quake::new(apikey), s)
    }

    /// The request a Quake key is tried with, for the clock now (see
    /// `check_api_at`); `None` where the clock cannot be read (see
    /// `read_clock`), where the tool panics.
    pub fn check_api(apikey: String) -> (r: Option<(Quake, Service)>)
        ensures
            r matches Some(p) ==> {
                &&& p.0.key() == apikey@
                &&& p.1.query@ == "port:80"@
                &&& p.1.start == 1
                &&& p.1.size == 1
                &&& !p.1.ignore_cache
                &&& !p.1.latest
                &&& exists|now: int| clock_ok(now) && period_at(now, p.1.end_time@, p.1.start_time@)
                &&& p.1.ip_list@.len() == 0
                &&& p.1.shortcuts@.len() == 0
            },
    {
        match read_clock() {
            Some(now) => Some(ApiKey::check_api_at(apikey, now)),
            None => None,
        }
    }

    /// Whether the answer to the probe of `check_api` shows the key usable:
    /// it was JSON (`reply` holds it parsed; `None` where it did not parse)
    /// and reports success.
    pub fn key_usable(reply: Option<&JsonValue>) -> (r: bool)
        ensures
            r == (reply matches Some(v) && response_succeeded(v@)),
    {
        match reply {
            Some(v) => Quake::check_response(v).is_ok(),
            None => false,
        }
    }

    /// Whether a GPT key is accepted: every key is.
    pub fn check_gptapi(apikey: &str) -> (r: bool)
        ensures
            r,
    {
        true
    }

    /// The Quake key to keep, where it proved usable (`key_usable`); `None`
    /// otherwise.
    pub fn set_api(apikey: String, usable: bool) -> (r: Option<KeyFile>)
        ensures
            r is Some <==> usable,
            r matches Some(k) ==> k.file_name@ == API_KEY_FILE@ && k.content@ == apikey@,
    {
        if usable {
            Some(KeyFile { file_name: API_KEY_FILE.to_string(), content: apikey })
        } else {
            None
        }
    }

    /// The GPT key to keep: every key is kept.
    pub fn set_gptapi(apikey: String) -> (r: Option<KeyFile>)
        ensures
            r matches Some(k) && k.file_name@ == GPT_KEY_FILE@ && k.content@ == apikey@,
    {
        if ApiKey::check_gptapi(apikey.as_str()) {
            Some(KeyFile { file_name: GPT_KEY_FILE.to_string(), content: apikey })
        } else {
            None
        }
    }

    /// The line printed after setting the Quake key: success where it was
    /// kept, an invalid-key error otherwise.
    pub fn init(kept: bool) -> (r: String)
        ensures
            r@ == init_line(kept),
    {
        if kept {
            Output::success("成功初始化")
        } else {
            Output::error("错误: 无效的 API 密钥")
        }
    }

    /// The line printed after setting the GPT key (see `init`).
    pub fn gptinit(kept: bool) -> (r: String)
        ensures
            r@ == init_line(kept),
    {
        ApiKey::init(kept)
    }
}

} // verus!
