//! The Quake API client: the request bodies it sends, the search period and
//! filters it sets, and how it reads what the API answers. The HTTP exchange
//! itself is left to the caller.
use vstd::prelude::*;
use crate::json::{
    Json, JsonNumber, JsonValue, NumberView, lemma_view_entries, lemma_view_values,
    lemma_view_values_push, str_or, view_entries, view_values,
};
use crate::models::{
    AggService, Host, Scroll, ScrollHost, Service, clock_ok, is_days_before, manual_date_ok,
    period_at, period_texts, read_clock, try_getdate_for_manual,
};

verus! {

/// The address of the Quake API.
pub const BASE_URL: &'static str = "https://quake.360.net";

/// The filter that leaves out CDN addresses.
pub const SHORTCUT_CDN: &'static str = "612f5a5ad6b3bdb87961727f";

/// The filter that leaves out honeypots.
pub const SHORTCUT_MG: &'static str = "610ce2adb1a2e3e1632e67b1";

/// The filter that leaves out invalid requests (400, 401, 403 and the like).
pub const SHORTCUT_WXQQ: &'static str = "62bc12b70537d96695680ce5";

/// The filter that removes duplicate data.
pub const SHORTCUT_SJQC: &'static str = "610ce2fbda6d29df72ac56eb";

/// A client of the Quake API, holding the key it authenticates with.
pub struct Quake {
    api_key: String,
}

impl Quake {
    /// The key the client authenticates with.
    pub closed spec fn key(&self) -> Seq<char> {
        self.api_key@
    }

    pub fn new(api_key: String) -> (q: Quake)
        ensures
            q.key() == api_key@,
    {
        Quake { api_key }
    }

    /// The key sent in the `X-QuakeToken` header.
    pub fn api_key(&self) -> (r: &str)
        ensures
            r@ == self.key(),
    {
        self.api_key.as_str()
    }

    /// The header every request of the client carries: `X-QuakeToken` with
    /// the key.
    pub fn token_header(&self) -> (r: (&'static str, &str))
        ensures
            r.0@ == "X-QuakeToken"@,
            r.1@ == self.key(),
    {
        ("X-QuakeToken", self.api_key.as_str())
    }
}

// ---------------------------------------------------------------------
// Filters
// ---------------------------------------------------------------------

/// The filters (shortcuts) that a request's flags ask for, in the order the
/// tool adds them: CDN, honeypot, invalid requests, duplicates; each where
/// its flag is 1.
pub open spec fn shortcut_ids(cdn: i32, mg: i32, wxqq: i32, sjqc: i32) -> Seq<Json> {
    (if cdn == 1 {
        seq![Json::Str(SHORTCUT_CDN@)]
    } else {
        Seq::empty()
    }) + (if mg == 1 {
        seq![Json::Str(SHORTCUT_MG@)]
    } else {
        Seq::empty()
    }) + (if wxqq == 1 {
        seq![Json::Str(SHORTCUT_WXQQ@)]
    } else {
        Seq::empty()
    }) + (if sjqc == 1 {
        seq![Json::Str(SHORTCUT_SJQC@)]
    } else {
        Seq::empty()
    })
}

/// One filter is added per flag set to 1, and no other.
pub proof fn lemma_shortcut_count(cdn: i32, mg: i32, wxqq: i32, sjqc: i32)
    ensures
        shortcut_ids(cdn, mg, wxqq, sjqc).len() == (if cdn == 1 { 1int } else { 0 }) + (if mg
            == 1 {
            1int
        } else {
            0
        }) + (if wxqq == 1 {
            1int
        } else {
            0
        }) + (if sjqc == 1 {
            1int
        } else {
            0
        }),
{
}

/// A request that carries a list of filters.
pub trait Shortcutable {
    /// The filters of the request.
    spec fn shortcut_list(&self) -> Seq<Json>;

    /// Everything else the request holds: query, start (0 where the request
    /// has none), size, cache and latest flags, cursor (empty where it has
    /// none), period and address list.
    spec fn other_fields(&self) -> (
        Seq<char>,
        int,
        int,
        bool,
        bool,
        Seq<char>,
        Seq<char>,
        Seq<char>,
        Seq<Json>,
    );

    /// Adds the filter `id` at the end of the list.
    fn add_shortcut(&mut self, id: &str)
        ensures
            final(self).shortcut_list() == old(self).shortcut_list().push(Json::Str(id@)),
            final(self).other_fields() == old(self).other_fields(),
    ;
}

impl Shortcutable for Service {
    open spec fn shortcut_list(&self) -> Seq<Json> {
        view_values(self.shortcuts@)
    }

    open spec fn other_fields(&self) -> (
        Seq<char>,
        int,
        int,
        bool,
        bool,
        Seq<char>,
        Seq<char>,
        Seq<char>,
        Seq<Json>,
    ) {
        (
            self.query@,
            self.start as int,
            self.size as int,
            self.ignore_cache,
            self.latest,
            Seq::empty(),
            self.start_time@,
            self.end_time@,
            view_values(self.ip_list@),
        )
    }

    fn add_shortcut(&mut self, id: &str) {
        let item = JsonValue::String(id.to_string());
        proof {
            lemma_view_values_push(self.shortcuts@, item);
        }
        self.shortcuts.push(item);
    }
}

impl Shortcutable for Scroll {
    open spec fn shortcut_list(&self) -> Seq<Json> {
        view_values(self.shortcuts@)
    }

    open spec fn other_fields(&self) -> (
        Seq<char>,
        int,
        int,
        bool,
        bool,
        Seq<char>,
        Seq<char>,
        Seq<char>,
        Seq<Json>,
    ) {
        (
            self.query@,
            0,
            self.size as int,
            self.ignore_cache,
            self.latest,
            self.pagination_id@,
            self.start_time@,
            self.end_time@,
            view_values(self.ip_list@),
        )
    }

    fn add_shortcut(&mut self, id: &str) {
        let item = JsonValue::String(id.to_string());
        proof {
            lemma_view_values_push(self.shortcuts@, item);
        }
        self.shortcuts.push(item);
    }
}

impl Quake {
    /// Adds the filters that the flags ask for (see `shortcut_ids`).
    pub fn apply_shortcuts<S: Shortcutable>(service: &mut S, cdn: i32, mg: i32, wxqq: i32, sjqc: i32)
        ensures
            final(service).shortcut_list() == old(service).shortcut_list() + shortcut_ids(
                cdn,
                mg,
                wxqq,
                sjqc,
            ),
            final(service).other_fields() == old(service).other_fields(),
    {
        if cdn == 1 {
            service.add_shortcut(SHORTCUT_CDN);
        }
        if mg == 1 {
            service.add_shortcut(SHORTCUT_MG);
        }
        if wxqq == 1 {
            service.add_shortcut(SHORTCUT_WXQQ);
        }
        if sjqc == 1 {
            service.add_shortcut(SHORTCUT_SJQC);
        }
        assert(service.shortcut_list() =~= old(service).shortcut_list() + shortcut_ids(
            cdn,
            mg,
            wxqq,
            sjqc,
        ));
    }
}

// ---------------------------------------------------------------------
// The search period
// ---------------------------------------------------------------------

/// The period searched, given the start and end asked for (empty when not
/// given), the local time now and the time a year before it:
/// - neither given: from a year ago to now;
/// - only the start: from the start to now;
/// - only the end: from the date 365 days before the end to the end;
/// - both: as given.
pub open spec fn time_range_ok(
    time_start: Seq<char>,
    time_end: Seq<char>,
    local: Seq<char>,
    one_years_ago: Seq<char>,
    start: Seq<char>,
    end: Seq<char>,
) -> bool {
    if time_start.len() == 0 && time_end.len() == 0 {
        start == one_years_ago && end == local
    } else if time_start.len() != 0 && time_end.len() == 0 {
        start == time_start && end == local
    } else if time_start.len() == 0 {
        is_days_before(time_end, 365, start) && end == time_end
    } else {
        start == time_start && end == time_end
    }
}

/// Whether the period can be worked out: only an end that is not a date (or
/// that has no date a year before it) stops it, and only where no start is
/// given.
pub open spec fn time_range_defined(time_start: Seq<char>, time_end: Seq<char>) -> bool {
    time_start.len() == 0 && time_end.len() != 0 ==> manual_date_ok(time_end)
}

impl Quake {
    /// The period searched (see `time_range_ok`), given the local time now and a
    /// year before it; `None` where it cannot be worked out.
    pub fn time_range(time_start: &str, time_end: &str, local: String, one_years_ago: String) -> (r:
        Option<(String, String)>)
        ensures
            r is Some <==> time_range_defined(time_start@, time_end@),
            r matches Some(p) ==> time_range_ok(
                time_start@,
                time_end@,
                local@,
                one_years_ago@,
                p.0@,
                p.1@,
            ),
    {
        let no_start = time_start.unicode_len() == 0;
        let no_end = time_end.unicode_len() == 0;
        if no_start && no_end {
            Some((one_years_ago, local))
        } else if !no_start && no_end {
            Some((time_start.to_string(), local))
        } else if no_start && !no_end {
            match try_getdate_for_manual(time_end) {
                Some(start) => Some((start, time_end.to_string())),
                None => None,
            }
        } else {
            Some((time_start.to_string(), time_end.to_string()))
        }
    }

    /// Sets the period searched from the start and end asked for and the
    /// clock reading `now` (see `time_range_ok` and `period_at`).
    pub fn apply_time_range_at(
        now: i64,
        start_time: &mut String,
        end_time: &mut String,
        time_start: &str,
        time_end: &str,
    )
        requires
            clock_ok(now as int),
            time_range_defined(time_start@, time_end@),
        ensures
            period_set_at(now as int, time_start@, time_end@, final(start_time)@, final(end_time)@),
    {
        let (local, one_years_ago) = period_texts(now);
        let ghost l = local@;
        let ghost a = one_years_ago@;
        match Quake::time_range(time_start, time_end, local, one_years_ago) {
            Some((s, e)) => {
                *start_time = s;
                *end_time = e;
                assert(period_at(now as int, l, a) && time_range_ok(
                    time_start@,
                    time_end@,
                    l,
                    a,
                    start_time@,
                    end_time@,
                ));
            },
            None => {
                proof {
                    assert(false);
                }
            },
        }
    }

    /// Sets the period searched from the start and end asked for and the
    /// clock (see `apply_time_range_at`), and gives `true`; `false`, with
    /// nothing changed, where the end given alone is no date a year of which
    /// lies within chrono's range or the clock cannot be read (see
    /// `read_clock`), where the tool panics.
    pub fn apply_time_range(
        start_time: &mut String,
        end_time: &mut String,
        time_start: &str,
        time_end: &str,
    ) -> (ok: bool)
        ensures
            !time_range_defined(time_start@, time_end@) ==> !ok,
            ok ==> period_set(time_start@, time_end@, final(start_time)@, final(end_time)@),
            !ok ==> final(start_time)@ == old(start_time)@ && final(end_time)@ == old(end_time)@,
    {
        if time_start.unicode_len() == 0 && time_end.unicode_len() != 0 {
            if try_getdate_for_manual(time_end).is_none() {
                return false;
            }
        }
        match read_clock() {
            Some(now) => {
                Quake::apply_time_range_at(now, start_time, end_time, time_start, time_end);
                true
            },
            None => false,
        }
    }
}

// ---------------------------------------------------------------------
// Request bodies
// ---------------------------------------------------------------------

/// serde_json's `Number::from` for an `i32`: negative numbers are held as
/// signed, the others as unsigned.
pub open spec fn int_number(i: i32) -> Json {
    if i < 0 {
        Json::Number(NumberView::NegInt(i as i64))
    } else {
        Json::Number(NumberView::PosInt(i as u64))
    }
}

/// The JSON number of an `i32`.
pub fn int_json(i: i32) -> (r: JsonValue)
    ensures
        r@ == int_number(i),
{
    if i < 0 {
        JsonValue::Number(JsonNumber::NegInt(i as i64))
    } else {
        JsonValue::Number(JsonNumber::PosInt(i as u64))
    }
}

/// Adds a member at the end of an object's members.
fn push_member(entries: &mut Vec<(String, JsonValue)>, key: &str, value: JsonValue)
    ensures
        view_entries(final(entries)@) == view_entries(old(entries)@).push((key@, value@)),
{
    let m = (key.to_string(), value);
    proof {
        crate::json::lemma_view_entries_push(entries@, m);
    }
    entries.push(m);
}

/// The members of a service search as the tool sends them, in the order of
/// serde_json's map (by key): `ip_list` only where addresses are given,
/// and then with an empty query.
pub open spec fn service_body(s: Service) -> Seq<(Seq<char>, Json)> {
    seq![
        ("end_time"@, Json::Str(s.end_time@)),
        ("ignore_cache"@, Json::Bool(s.ignore_cache)),
    ] + (if s.ip_list@.len() != 0 {
        seq![("ip_list"@, Json::Array(view_values(s.ip_list@)))]
    } else {
        Seq::empty()
    }) + seq![
        ("latest"@, Json::Bool(s.latest)),
        ("query"@, Json::Str(if s.ip_list@.len() != 0 { Seq::empty() } else { s.query@ })),
        ("shortcuts"@, Json::Array(view_values(s.shortcuts@))),
        ("size"@, int_number(s.size)),
        ("start"@, int_number(s.start)),
        ("start_time"@, Json::Str(s.start_time@)),
    ]
}

/// The members of a page of a scrolled service search, in key order:
/// `ip_list` as for a search, `pagination_id` only where the cursor is set.
pub open spec fn scroll_body(s: Scroll) -> Seq<(Seq<char>, Json)> {
    seq![
        ("end_time"@, Json::Str(s.end_time@)),
        ("ignore_cache"@, Json::Bool(s.ignore_cache)),
    ] + (if s.ip_list@.len() != 0 {
        seq![("ip_list"@, Json::Array(view_values(s.ip_list@)))]
    } else {
        Seq::empty()
    }) + seq![("latest"@, Json::Bool(s.latest))] + (if s.pagination_id@.len() != 0 {
        seq![("pagination_id"@, Json::Str(s.pagination_id@))]
    } else {
        Seq::empty()
    }) + seq![
        ("query"@, Json::Str(if s.ip_list@.len() != 0 { Seq::empty() } else { s.query@ })),
        ("shortcuts"@, Json::Array(view_values(s.shortcuts@))),
        ("size"@, int_number(s.size)),
        ("start_time"@, Json::Str(s.start_time@)),
    ]
}

/// The names of an object's members, in order.
pub open spec fn member_names(e: Seq<(Seq<char>, Json)>) -> Seq<Seq<char>> {
    e.map_values(|m: (Seq<char>, Json)| m.0)
}

/// The member names of a service search, `ip_list` where addresses are sent.
pub open spec fn service_names(with_ips: bool) -> Seq<Seq<char>> {
    seq!["end_time"@, "ignore_cache"@] + (if with_ips {
        seq!["ip_list"@]
    } else {
        Seq::empty()
    }) + seq!["latest"@, "query"@, "shortcuts"@, "size"@, "start"@, "start_time"@]
}

/// The member names of a page of a scrolled service search, `ip_list` where
/// addresses are sent, `pagination_id` where the cursor is set.
pub open spec fn scroll_names(with_ips: bool, with_cursor: bool) -> Seq<Seq<char>> {
    seq!["end_time"@, "ignore_cache"@] + (if with_ips {
        seq!["ip_list"@]
    } else {
        Seq::empty()
    }) + seq!["latest"@] + (if with_cursor {
        seq!["pagination_id"@]
    } else {
        Seq::empty()
    }) + seq!["query"@, "shortcuts"@, "size"@, "start_time"@]
}

/// The members of a service search: exactly those of `service_names`, which
/// are all different; `query` empty where addresses are sent, and then
/// `ip_list` holding them in order; the filters in order; the other members
/// the request's fields; no cursor.
#[verifier::rlimit(50)]
pub proof fn lemma_service_body_members(s: Service)
    ensures
        member_names(service_body(s)) == service_names(s.ip_list@.len() != 0),
        Json::Object(service_body(s)).get("query"@) == Some(
            Json::Str(
                if s.ip_list@.len() != 0 {
                    Seq::empty()
                } else {
                    s.query@
                },
            ),
        ),
        Json::Object(service_body(s)).get("ip_list"@) == if s.ip_list@.len() != 0 {
            Some(Json::Array(view_values(s.ip_list@)))
        } else {
            None
        },
        Json::Object(service_body(s)).get("shortcuts"@) == Some(
            Json::Array(view_values(s.shortcuts@)),
        ),
        Json::Object(service_body(s)).get("start"@) == Some(int_number(s.start)),
        Json::Object(service_body(s)).get("size"@) == Some(int_number(s.size)),
        Json::Object(service_body(s)).get("ignore_cache"@) == Some(Json::Bool(s.ignore_cache)),
        Json::Object(service_body(s)).get("latest"@) == Some(Json::Bool(s.latest)),
        Json::Object(service_body(s)).get("start_time"@) == Some(Json::Str(s.start_time@)),
        Json::Object(service_body(s)).get("end_time"@) == Some(Json::Str(s.end_time@)),
        Json::Object(service_body(s)).get("pagination_id"@) is None,
{
    reveal_strlit("end_time");
    reveal_strlit("ignore_cache");
    reveal_strlit("ip_list");
    reveal_strlit("latest");
    reveal_strlit("query");
    reveal_strlit("shortcuts");
    reveal_strlit("size");
    reveal_strlit("start");
    reveal_strlit("start_time");
    reveal_strlit("pagination_id");
    assert("query"@[0] != "start"@[0]);
    assert("end_time"@.len() == 8 && "ignore_cache"@.len() == 12 && "ip_list"@.len() == 7
        && "latest"@.len() == 6 && "query"@.len() == 5 && "shortcuts"@.len() == 9
        && "size"@.len() == 4 && "start"@.len() == 5 && "start_time"@.len() == 10
        && "pagination_id"@.len() == 13);
    reveal_with_fuel(crate::json::entries_get, 10);
    let b = service_body(s);
    let q = Json::Str(if s.ip_list@.len() != 0 { Seq::empty() } else { s.query@ });
    if s.ip_list@.len() != 0 {
        assert(b =~= seq![
            ("end_time"@, Json::Str(s.end_time@)),
            ("ignore_cache"@, Json::Bool(s.ignore_cache)),
            ("ip_list"@, Json::Array(view_values(s.ip_list@))),
            ("latest"@, Json::Bool(s.latest)),
            ("query"@, q),
            ("shortcuts"@, Json::Array(view_values(s.shortcuts@))),
            ("size"@, int_number(s.size)),
            ("start"@, int_number(s.start)),
            ("start_time"@, Json::Str(s.start_time@)),
        ]);
    } else {
        assert(b =~= seq![
            ("end_time"@, Json::Str(s.end_time@)),
            ("ignore_cache"@, Json::Bool(s.ignore_cache)),
            ("latest"@, Json::Bool(s.latest)),
            ("query"@, q),
            ("shortcuts"@, Json::Array(view_values(s.shortcuts@))),
            ("size"@, int_number(s.size)),
            ("start"@, int_number(s.start)),
            ("start_time"@, Json::Str(s.start_time@)),
        ]);
    }
    assert(member_names(b) =~= service_names(s.ip_list@.len() != 0));
}

/// The members of a page of a scrolled service search: exactly those of
/// `scroll_names`, which are all different; `query` empty where addresses
/// are sent, and then `ip_list` holding them; the cursor only where one is
/// set; the other members the request's fields; no offset (`start`).
#[verifier::rlimit(50)]
pub proof fn lemma_scroll_body_members(s: Scroll)
    ensures
        member_names(scroll_body(s)) == scroll_names(
            s.ip_list@.len() != 0,
            s.pagination_id@.len() != 0,
        ),
        Json::Object(scroll_body(s)).get("query"@) == Some(
            Json::Str(
                if s.ip_list@.len() != 0 {
                    Seq::empty()
                } else {
                    s.query@
                },
            ),
        ),
        Json::Object(scroll_body(s)).get("ip_list"@) == if s.ip_list@.len() != 0 {
            Some(Json::Array(view_values(s.ip_list@)))
        } else {
            None
        },
        Json::Object(scroll_body(s)).get("pagination_id"@) == if s.pagination_id@.len() != 0 {
            Some(Json::Str(s.pagination_id@))
        } else {
            None
        },
        Json::Object(scroll_body(s)).get("shortcuts"@) == Some(
            Json::Array(view_values(s.shortcuts@)),
        ),
        Json::Object(scroll_body(s)).get("size"@) == Some(int_number(s.size)),
        Json::Object(scroll_body(s)).get("ignore_cache"@) == Some(Json::Bool(s.ignore_cache)),
        Json::Object(scroll_body(s)).get("latest"@) == Some(Json::Bool(s.latest)),
        Json::Object(scroll_body(s)).get("start_time"@) == Some(Json::Str(s.start_time@)),
        Json::Object(scroll_body(s)).get("end_time"@) == Some(Json::Str(s.end_time@)),
        Json::Object(scroll_body(s)).get("start"@) is None,
{
    reveal_strlit("end_time");
    reveal_strlit("ignore_cache");
    reveal_strlit("ip_list");
    reveal_strlit("latest");
    reveal_strlit("query");
    reveal_strlit("shortcuts");
    reveal_strlit("size");
    reveal_strlit("start");
    reveal_strlit("start_time");
    reveal_strlit("pagination_id");
    assert("query"@[0] != "start"@[0]);
    assert("end_time"@.len() == 8 && "ignore_cache"@.len() == 12 && "ip_list"@.len() == 7
        && "latest"@.len() == 6 && "query"@.len() == 5 && "shortcuts"@.len() == 9
        && "size"@.len() == 4 && "start"@.len() == 5 && "start_time"@.len() == 10
        && "pagination_id"@.len() == 13);
    reveal_with_fuel(crate::json::entries_get, 10);
    let b = scroll_body(s);
    let ips = s.ip_list@.len() != 0;
    let cur = s.pagination_id@.len() != 0;
    let head = seq![("end_time"@, Json::Str(s.end_time@)), ("ignore_cache"@, Json::Bool(s.ignore_cache))];
    let ip_part = if ips {
        seq![("ip_list"@, Json::Array(view_values(s.ip_list@)))]
    } else {
        Seq::empty()
    };
    let cur_part = if cur {
        seq![("pagination_id"@, Json::Str(s.pagination_id@))]
    } else {
        Seq::empty()
    };
    let tail = seq![
        ("query"@, Json::Str(if ips { Seq::empty() } else { s.query@ })),
        ("shortcuts"@, Json::Array(view_values(s.shortcuts@))),
        ("size"@, int_number(s.size)),
        ("start_time"@, Json::Str(s.start_time@)),
    ];
    let latest = seq![("latest"@, Json::Bool(s.latest))];
    if ips && cur {
        assert(b =~= seq![head[0], head[1], ip_part[0], latest[0], cur_part[0], tail[0], tail[1], tail[2], tail[3]]);
    } else if ips {
        assert(b =~= seq![head[0], head[1], ip_part[0], latest[0], tail[0], tail[1], tail[2], tail[3]]);
    } else if cur {
        assert(b =~= seq![head[0], head[1], latest[0], cur_part[0], tail[0], tail[1], tail[2], tail[3]]);
    } else {
        assert(b =~= seq![head[0], head[1], latest[0], tail[0], tail[1], tail[2], tail[3]]);
    }
    assert(member_names(b) =~= scroll_names(ips, cur));
}

/// The members of a page of a scrolled host search, in key order;
/// `pagination_id` only where the cursor is set.
pub open spec fn scroll_host_members(
    ignore_cache: bool,
    pagination_id: Seq<char>,
    query: Seq<char>,
    size: i32,
) -> Seq<(Seq<char>, Json)> {
    seq![("ignore_cache"@, Json::Bool(ignore_cache))] + (if pagination_id.len() != 0 {
        seq![("pagination_id"@, Json::Str(pagination_id))]
    } else {
        Seq::empty()
    }) + seq![("query"@, Json::Str(query)), ("size"@, int_number(size))]
}

/// The members of a page of a scrolled host search (see
/// `scroll_host_members`).
pub open spec fn scroll_host_body(s: ScrollHost) -> Seq<(Seq<char>, Json)> {
    scroll_host_members(s.ignore_cache, s.pagination_id@, s.query@, s.size)
}

impl Quake {
    /// The body of a service search (see `service_body`).
    pub fn get_service_post_data(s: Service) -> (r: JsonValue)
        ensures
            r@ == Json::Object(service_body(s)),
    {
        let ghost old_s = s;
        let has_ips = s.ip_list.len() != 0;
        let mut data: Vec<(String, JsonValue)> = Vec::new();
        push_member(&mut data, "end_time", JsonValue::String(s.end_time));
        push_member(&mut data, "ignore_cache", JsonValue::Bool(s.ignore_cache));
        proof {
            lemma_view_values(s.ip_list@);
        }
        let query = if has_ips {
            push_member(&mut data, "ip_list", JsonValue::Array(s.ip_list));
            String::new()
        } else {
            s.query
        };
        push_member(&mut data, "latest", JsonValue::Bool(s.latest));
        push_member(&mut data, "query", JsonValue::String(query));
        push_member(&mut data, "shortcuts", JsonValue::Array(s.shortcuts));
        push_member(&mut data, "size", int_json(s.size));
        push_member(&mut data, "start", int_json(s.start));
        push_member(&mut data, "start_time", JsonValue::String(s.start_time));
        proof {
            reveal_strlit("end_time");
            reveal_strlit("ignore_cache");
            reveal_strlit("ip_list");
            reveal_strlit("latest");
            reveal_strlit("query");
            reveal_strlit("shortcuts");
            reveal_strlit("size");
            reveal_strlit("start");
            reveal_strlit("start_time");
            assert(view_entries(data@) =~= service_body(old_s));
        }
        JsonValue::Object(data)
    }

    /// The body of a page of a scrolled service search (see `scroll_body`).
    pub fn get_scroll_post_data(s: Scroll) -> (r: JsonValue)
        ensures
            r@ == Json::Object(scroll_body(s)),
    {
        let ghost old_s = s;
        let has_ips = s.ip_list.len() != 0;
        let has_cursor = s.pagination_id.unicode_len() != 0;
        let mut data: Vec<(String, JsonValue)> = Vec::new();
        push_member(&mut data, "end_time", JsonValue::String(s.end_time));
        push_member(&mut data, "ignore_cache", JsonValue::Bool(s.ignore_cache));
        let query = if has_ips {
            push_member(&mut data, "ip_list", JsonValue::Array(s.ip_list));
            String::new()
        } else {
            s.query
        };
        push_member(&mut data, "latest", JsonValue::Bool(s.latest));
        if has_cursor {
            push_member(&mut data, "pagination_id", JsonValue::String(s.pagination_id));
        }
        push_member(&mut data, "query", JsonValue::String(query));
        push_member(&mut data, "shortcuts", JsonValue::Array(s.shortcuts));
        push_member(&mut data, "size", int_json(s.size));
        push_member(&mut data, "start_time", JsonValue::String(s.start_time));
        proof {
            reveal_strlit("end_time");
            reveal_strlit("ignore_cache");
            reveal_strlit("ip_list");
            reveal_strlit("latest");
            reveal_strlit("pagination_id");
            reveal_strlit("query");
            reveal_strlit("shortcuts");
            reveal_strlit("size");
            reveal_strlit("start_time");
            assert(view_entries(data@) =~= scroll_body(old_s));
        }
        JsonValue::Object(data)
    }

    /// The body of a page of a scrolled host search (see
    /// `scroll_host_body`).
    pub fn get_scrollhost_post_data(s: ScrollHost) -> (r: JsonValue)
        ensures
            r@ == Json::Object(scroll_host_body(s)),
    {
        let ghost old_s = s;
        let has_cursor = s.pagination_id.unicode_len() != 0;
        let mut data: Vec<(String, JsonValue)> = Vec::new();
        push_member(&mut data, "ignore_cache", JsonValue::Bool(s.ignore_cache));
        if has_cursor {
            push_member(&mut data, "pagination_id", JsonValue::String(s.pagination_id));
        }
        push_member(&mut data, "query", JsonValue::String(s.query));
        push_member(&mut data, "size", int_json(s.size));
        proof {
            reveal_strlit("ignore_cache");
            reveal_strlit("pagination_id");
            reveal_strlit("query");
            reveal_strlit("size");
            assert(view_entries(data@) =~= scroll_host_body(old_s));
        }
        JsonValue::Object(data)
    }
}

// ---------------------------------------------------------------------
// Building requests
// ---------------------------------------------------------------------

/// Whether the period `start` to `end` is the one `time_range_ok` gives for
/// the clock reading `now` (see `period_at`).
pub open spec fn period_set_at(
    now: int,
    time_start: Seq<char>,
    time_end: Seq<char>,
    start: Seq<char>,
    end: Seq<char>,
) -> bool {
    exists|local: Seq<char>, one_years_ago: Seq<char>|
        period_at(now, local, one_years_ago) && time_range_ok(
            time_start,
            time_end,
            local,
            one_years_ago,
            start,
            end,
        )
}

/// Whether the period `start` to `end` is the one `time_range_ok` gives for
/// some reading of the clock within `clock_ok`.
pub open spec fn period_set(time_start: Seq<char>, time_end: Seq<char>, start: Seq<char>, end: Seq<char>) -> bool {
    exists|now: int| clock_ok(now) && period_set_at(now, time_start, time_end, start, end)
}

/// The addresses of an address file: one string per line (`str::lines`).
pub open spec fn ip_values(contents: Seq<char>) -> Seq<Json> {
    crate::text::lines_of(contents).map_values(|l: Seq<char>| Json::Str(l))
}

/// The addresses of an address file as JSON strings.
fn ip_list_of(contents: &str) -> (r: Vec<JsonValue>)
    ensures
        view_values(r@) == ip_values(contents@),
{
    let chars = crate::text::chars_of(contents);
    let lines = crate::text::lines_exec(&chars);
    let mut r: Vec<JsonValue> = Vec::new();
    let mut i: usize = 0;
    while i < lines.len()
        invariant
            i <= lines@.len(),
            lines@.len() == crate::text::lines_of(chars@).len(),
            forall|k: int| 0 <= k < lines@.len() ==> (#[trigger] lines@[k])@ == crate::text::lines_of(chars@)[k],
            chars@ == contents@,
            view_values(r@) == ip_values(contents@).take(i as int),
        decreases lines.len() - i,
    {
        let item = JsonValue::String(lines[i].clone());
        proof {
            lemma_view_values_push(r@, item);
        }
        r.push(item);
        assert(ip_values(contents@).take(i + 1) =~= ip_values(contents@).take(i as int).push(
            Json::Str(lines@[i as int]@),
        ));
        i = i + 1;
    }
    assert(ip_values(contents@).take(lines@.len() as int) =~= ip_values(contents@));
    r
}

/// Whether the API reports success: `response["code"]` is the integer 0
/// (the one value whose JSON text is `0`).
pub open spec fn response_succeeded(response: Json) -> bool {
    match response.at("code"@) {
        Json::Number(NumberView::PosInt(u)) => u == 0,
        Json::Number(NumberView::NegInt(i)) => i == 0,
        _ => false,
    }
}

/// The message of a response, `Unknown error` where it has none.
pub open spec fn response_message(response: Json) -> Seq<char> {
    str_or(response.get("message"@), "Unknown error"@)
}

impl Quake {
    /// Checks an API response: `Ok` where it reports success (see
    /// `response_succeeded`), otherwise the error line that the tool prints
    /// before it stops, `Query failed: <message>`.
    pub fn check_response(response: &JsonValue) -> (r: Result<(), String>)
        ensures
            r is Ok <==> response_succeeded(response@),
            r matches Err(line) ==> line@ == crate::models::error_line(
                "Query failed: "@ + response_message(response@),
            ),
    {
        let succeeded = match response.get("code") {
            Some(JsonValue::Number(JsonNumber::PosInt(u))) => *u == 0,
            Some(JsonValue::Number(JsonNumber::NegInt(i))) => *i == 0,
            _ => false,
        };
        if succeeded {
            Ok(())
        } else {
            let message = match response.get("message") {
                Some(m) => match m.as_str() {
                    Some(t) => t.clone(),
                    None => "Unknown error".to_string(),
                },
                None => "Unknown error".to_string(),
            };
            let mut msg = "Query failed: ".to_string();
            crate::text::append_str(&mut msg, message.as_str());
            Err(crate::models::Output::error(msg.as_str()))
        }
    }

    /// `init_scroll_host`, or, for an empty query, the line the tool prints
    /// before it stops (`Search failed`).
    pub fn try_init_scroll_host(query_string: &str, size: i32, pagination_id: &str) -> (r: Result<
        ScrollHost,
        String,
    >)
        ensures
            r is Ok <==> query_string@.len() != 0,
            r matches Ok(sh) ==> sh.query@ == query_string@ && sh.size == size && sh.ignore_cache
                && sh.pagination_id@ == pagination_id@,
            r matches Err(line) ==> line@ == crate::models::info_line("Search failed"@),
    {
        if query_string.unicode_len() == 0 {
            Err(crate::models::Output::info("Search failed"))
        } else {
            Ok(Quake::init_scroll_host(query_string, size, pagination_id))
        }
    }

    /// The first or a later page of a scrolled host search; the cursor is
    /// set only where one is given. The tool stops on an empty query.
    pub fn init_scroll_host(query_string: &str, size: i32, pagination_id: &str) -> (r: ScrollHost)
        requires
            query_string@.len() != 0,
        ensures
            r.query@ == query_string@,
            r.size == size,
            r.ignore_cache,
            r.pagination_id@ == pagination_id@,
    {
        let mut sh = ScrollHost {
            query: String::new(),
            size,
            ignore_cache: true,
            pagination_id: String::new(),
        };
        sh.query = query_string.to_string();
        if pagination_id.unicode_len() != 0 {
            sh.pagination_id = pagination_id.to_string();
        }
        sh
    }

    /// A page of a scrolled service search: the query and cursor given, the
    /// filters that the flags ask for, and the period for the clock reading
    /// `now` (see `time_range_ok` and `period_at`). `zxsj` asks for the
    /// latest data, which the request asks for anyway.
    pub fn init_scroll_at(
        now: i64,
        query_string: &str,
        size: i32,
        time_start: &str,
        time_end: &str,
        cdn: i32,
        mg: i32,
        zxsj: i32,
        wxqq: i32,
        sjqc: i32,
        pagination_id: &str,
    ) -> (r: Scroll)
        requires
            clock_ok(now as int),
            time_range_defined(time_start@, time_end@),
        ensures
            r.query@ == query_string@,
            r.size == size,
            r.ignore_cache,
            r.latest,
            r.pagination_id@ == pagination_id@,
            r.ip_list@.len() == 0,
            view_values(r.shortcuts@) == shortcut_ids(cdn, mg, wxqq, sjqc),
            period_set_at(now as int, time_start@, time_end@, r.start_time@, r.end_time@),
    {
        let mut s = Scroll {
            query: String::new(),
            size,
            ignore_cache: true,
            latest: true,
            pagination_id: String::new(),
            start_time: String::new(),
            end_time: String::new(),
            ip_list: Vec::new(),
            shortcuts: Vec::new(),
        };
        if zxsj == 1 {
            s.ignore_cache = true;
            s.latest = true;
        }
        proof {
            lemma_view_values(s.ip_list@);
            assert(view_values(s.shortcuts@) =~= Seq::<Json>::empty());
        }
        Quake::apply_shortcuts(&mut s, cdn, mg, wxqq, sjqc);
        proof {
            lemma_view_values(s.ip_list@);
        }
        let mut start_time = String::new();
        let mut end_time = String::new();
        Quake::apply_time_range_at(now, &mut start_time, &mut end_time, time_start, time_end);
        s.start_time = start_time;
        s.end_time = end_time;
        if query_string.unicode_len() != 0 {
            s.query = query_string.to_string();
        }
        if pagination_id.unicode_len() != 0 {
            s.pagination_id = pagination_id.to_string();
        }
        assert(s.shortcuts@.len() == view_values(s.shortcuts@).len()) by {
            lemma_view_values(s.shortcuts@);
        }
        s
    }

    /// A page of a scrolled service search for the clock now (see
    /// `init_scroll_at`); `None` where the tool panics: on an end given alone
    /// that is no date a year of which lies within chrono's range, or on a
    /// clock that cannot be read (see `read_clock`).
    pub fn init_scroll(
        query_string: &str,
        size: i32,
        time_start: &str,
        time_end: &str,
        cdn: i32,
        mg: i32,
        zxsj: i32,
        wxqq: i32,
        sjqc: i32,
        pagination_id: &str,
    ) -> (r: Option<Scroll>)
        ensures
            !time_range_defined(time_start@, time_end@) ==> r is None,
            r matches Some(s) ==> {
                &&& s.query@ == query_string@
                &&& s.size == size
                &&& s.ignore_cache
                &&& s.latest
                &&& s.pagination_id@ == pagination_id@
                &&& s.ip_list@.len() == 0
                &&& view_values(s.shortcuts@) == shortcut_ids(cdn, mg, wxqq, sjqc)
                &&& period_set(time_start@, time_end@, s.start_time@, s.end_time@)
            },
    {
        if time_start.unicode_len() == 0 && time_end.unicode_len() != 0 {
            if try_getdate_for_manual(time_end).is_none() {
                return None;
            }
        }
        let now = match read_clock() {
            Some(t) => t,
            None => {
                return None;
            },
        };
        Some(
            Quake::init_scroll_at(
                now,
                query_string,
                size,
                time_start,
                time_end,
                cdn,
                mg,
                zxsj,
                wxqq,
                sjqc,
                pagination_id,
            ),
        )
    }

    /// The service search that the tool sends: the query given (or, where
    /// `ip_file` holds the text of an address file, its lines as addresses),
    /// the filters that the flags ask for, and the period for the clock
    /// reading `now` (see `time_range_ok` and `period_at`); `None` where the
    /// period cannot be worked out, where the tool panics. `zxsj` asks for
    /// the latest data, which the request asks for anyway.
    pub fn prepare_query_at(
        now: i64,
        query_string: &str,
        ip_file: Option<&str>,
        start: i32,
        size: i32,
        time_start: &str,
        time_end: &str,
        cdn: i32,
        mg: i32,
        zxsj: i32,
        wxqq: i32,
        sjqc: i32,
    ) -> (r: Option<Service>)
        requires
            clock_ok(now as int),
        ensures
            r is Some <==> time_range_defined(time_start@, time_end@),
            r matches Some(s) ==> {
                &&& s.query@ == query_string@
                &&& s.start == start
                &&& s.size == size
                &&& s.ignore_cache
                &&& s.latest
                &&& view_values(s.ip_list@) == match ip_file {
                    Some(text) => ip_values(text@),
                    None => Seq::empty(),
                }
                &&& view_values(s.shortcuts@) == shortcut_ids(cdn, mg, wxqq, sjqc)
                &&& period_set_at(now as int, time_start@, time_end@, s.start_time@, s.end_time@)
            },
    {
        if time_start.unicode_len() == 0 && time_end.unicode_len() != 0 {
            if try_getdate_for_manual(time_end).is_none() {
                return None;
            }
        }
        let mut s = Service {
            query: String::new(),
            start,
            size,
            ignore_cache: true,
            latest: true,
            start_time: String::new(),
            end_time: String::new(),
            ip_list: Vec::new(),
            shortcuts: Vec::new(),
        };
        if zxsj == 1 {
            s.ignore_cache = true;
            s.latest = true;
        }
        proof {
            assert(view_values(s.shortcuts@) =~= Seq::<Json>::empty());
        }
        Quake::apply_shortcuts(&mut s, cdn, mg, wxqq, sjqc);
        let mut start_time = String::new();
        let mut end_time = String::new();
        Quake::apply_time_range_at(now, &mut start_time, &mut end_time, time_start, time_end);
        s.start_time = start_time;
        s.end_time = end_time;
        match ip_file {
            Some(text) => {
                s.ip_list = ip_list_of(text);
            },
            None => {
                proof {
                    assert(view_values(s.ip_list@) =~= Seq::<Json>::empty());
                }
            },
        }
        if query_string.unicode_len() != 0 {
            s.query = query_string.to_string();
        }
        Some(s)
    }

    /// The service search that the tool sends for the clock now (see
    /// `prepare_query_at`); `None` where the tool panics: on an end given
    /// alone that is no date a year of which lies within chrono's range, or
    /// on a clock that cannot be read (see `read_clock`).
    pub fn prepare_query(
        query_string: &str,
        ip_file: Option<&str>,
        start: i32,
        size: i32,
        time_start: &str,
        time_end: &str,
        cdn: i32,
        mg: i32,
        zxsj: i32,
        wxqq: i32,
        sjqc: i32,
    ) -> (r: Option<Service>)
        ensures
            !time_range_defined(time_start@, time_end@) ==> r is None,
            r matches Some(s) ==> {
                &&& s.query@ == query_string@
                &&& s.start == start
                &&& s.size == size
                &&& s.ignore_cache
                &&& s.latest
                &&& view_values(s.ip_list@) == match ip_file {
                    Some(text) => ip_values(text@),
                    None => Seq::empty(),
                }
                &&& view_values(s.shortcuts@) == shortcut_ids(cdn, mg, wxqq, sjqc)
                &&& period_set(time_start@, time_end@, s.start_time@, s.end_time@)
            },
    {
        if time_start.unicode_len() == 0 && time_end.unicode_len() != 0 {
            if try_getdate_for_manual(time_end).is_none() {
                return None;
            }
        }
        match read_clock() {
            Some(now) => Quake::prepare_query_at(
                now,
                query_string,
                ip_file,
                start,
                size,
                time_start,
                time_end,
                cdn,
                mg,
                zxsj,
                wxqq,
                sjqc,
            ),
            None => None,
        }
    }
}

// ---------------------------------------------------------------------
// Reading responses
// ---------------------------------------------------------------------

/// The view of an optional value.
pub open spec fn opt_value_view(o: Option<JsonValue>) -> Option<Json> {
    match o {
        Some(v) => Some(v@),
        None => None,
    }
}

/// Where the first member named `key` stands among an object's members.
fn member_index(entries: &Vec<(String, JsonValue)>, key: &str) -> (r: Option<usize>)
    ensures
        match r {
            Some(i) => i < entries@.len() && entries_get_of(entries@, key@) == Some(
                entries@[i as int].1@,
            ),
            None => entries_get_of(entries@, key@) is None,
        },
{
    proof {
        lemma_view_entries(entries@);
    }
    let n = entries.len();
    let mut i: usize = 0;
    assert(view_entries(entries@).subrange(0, n as int) =~= view_entries(entries@));
    while i < n
        invariant
            n == entries@.len(),
            i <= n,
            view_entries(entries@).len() == n,
            forall|k: int|
                0 <= k < n ==> #[trigger] view_entries(entries@)[k] == (
                    entries@[k].0@,
                    entries@[k].1@,
                ),
            entries_get_of(entries@, key@) == crate::json::entries_get(
                view_entries(entries@).subrange(i as int, n as int),
                key@,
            ),
        decreases n - i,
    {
        let ghost rest = view_entries(entries@).subrange(i as int, n as int);
        assert(rest[0] == view_entries(entries@)[i as int]);
        assert(rest.subrange(1, rest.len() as int) =~= view_entries(entries@).subrange(
            i + 1,
            n as int,
        ));
        if crate::text::str_eq(entries[i].0.as_str(), key) {
            return Some(i);
        }
        i = i + 1;
    }
    None
}

/// The member `key` of a list of members (the first so named).
pub open spec fn entries_get_of(entries: Seq<(String, JsonValue)>, key: Seq<char>) -> Option<Json> {
    crate::json::entries_get(view_entries(entries), key)
}

/// Takes the member `key` (the first so named) out of an object, dropping
/// the rest; `None` where there is none or the value is no object.
pub fn take_member(value: JsonValue, key: &str) -> (r: Option<JsonValue>)
    ensures
        opt_value_view(r) == value@.get(key@),
{
    match value {
        JsonValue::Object(mut entries) => {
            match member_index(&entries, key) {
                Some(i) => {
                    let (_, v) = entries.remove(i);
                    Some(v)
                },
                None => None,
            }
        },
        _ => None,
    }
}

/// The elements of `response["data"]`, where that is an array.
pub open spec fn data_array(response: Json) -> Option<Seq<Json>> {
    match response.get("data"@) {
        Some(Json::Array(items)) => Some(items),
        _ => None,
    }
}

/// The elements of `response["data"]`, which the tool reads as an array
/// without a check.
pub fn response_data(response: JsonValue) -> (r: Vec<JsonValue>)
    requires
        data_array(response@) is Some,
    ensures
        view_values(r@) == data_array(response@)->Some_0,
{
    match take_member(response, "data") {
        Some(JsonValue::Array(items)) => items,
        _ => {
            proof {
                assert(false);
            }
            Vec::new()
        },
    }
}

/// The cursor `response["meta"]["pagination_id"]` of a scrolled page, where
/// it is a string.
pub open spec fn pagination_id_of(response: Json) -> Option<Seq<char>> {
    match crate::json::opt_get(response.get("meta"@), "pagination_id"@) {
        Some(Json::Str(p)) => Some(p),
        _ => None,
    }
}

// ---------------------------------------------------------------------
// Scrolling through host results
// ---------------------------------------------------------------------

/// Whether a host scroll asks for another page after one of `last_len`
/// results: the page was not empty and as long as the page size.
pub open spec fn scroll_continues(last_len: nat, size: i32) -> bool {
    last_len != 0 && (last_len as i32) >= size
}

/// What a host scroll gathers from the state (`gathered`, length of the
/// last page) when the API answers its further requests with the pages
/// `rest` in turn: it asks for another page while the last one was full,
/// adds it after the results gathered, and stops after an empty or short
/// page. Also the number of further requests made; `None` where the pages
/// run out before the scroll stops.
pub open spec fn scroll_outcome(
    size: i32,
    gathered: Seq<Json>,
    last_len: nat,
    rest: Seq<Seq<Json>>,
) -> Option<(Seq<Json>, nat)>
    decreases rest.len(),
{
    if !scroll_continues(last_len, size) {
        Some((gathered, 0))
    } else if rest.len() == 0 {
        None
    } else {
        match scroll_outcome(size, gathered + rest[0], rest[0].len(), rest.drop_first()) {
            Some((g, n)) => Some((g, n + 1)),
            None => None,
        }
    }
}

/// From page `j` on, the scroll gathers pages `j + 1` through `k`, the first
/// page from `j` on that is empty or short.
proof fn lemma_scroll_outcome_from(
    size: i32,
    pages: Seq<Seq<Json>>,
    k: int,
    j: int,
    gathered: Seq<Json>,
)
    requires
        0 <= j <= k < pages.len(),
        forall|i: int| j <= i < k ==> scroll_continues(#[trigger] pages[i].len(), size),
        !scroll_continues(pages[k].len(), size),
    ensures
        scroll_outcome(size, gathered, pages[j].len(), pages.subrange(j + 1, pages.len() as int))
            == Some((gathered + pages.subrange(j + 1, k + 1).flatten(), (k - j) as nat)),
    decreases k - j,
{
    let rest = pages.subrange(j + 1, pages.len() as int);
    if j == k {
        assert(pages.subrange(j + 1, k + 1) =~= Seq::<Seq<Json>>::empty());
        assert(gathered + Seq::<Seq<Json>>::empty().flatten() =~= gathered);
    } else {
        assert(scroll_continues(pages[j].len(), size));
        assert(rest[0] == pages[j + 1]);
        assert(rest.drop_first() =~= pages.subrange(j + 2, pages.len() as int));
        lemma_scroll_outcome_from(size, pages, k, j + 1, gathered + pages[j + 1]);
        let mid = pages.subrange(j + 1, k + 1);
        assert(mid.first() == pages[j + 1]);
        assert(mid.drop_first() =~= pages.subrange(j + 2, k + 1));
        assert(gathered + pages[j + 1] + pages.subrange(j + 2, k + 1).flatten() =~= gathered
            + mid.flatten());
    }
}

/// A host scroll takes the first page, asks for the next one exactly while
/// the last was full, and ends with the pages up to the first empty or short
/// one, in order: `D0 ++ D1 ++ .. ++ Dk`, after `k` requests beyond the
/// first (see `HostScroll`, whose steps are `start`, `next_request` and
/// `absorb`).
pub proof fn lemma_host_scroll_outcome(size: i32, pages: Seq<Seq<Json>>, k: int)
    requires
        0 <= k < pages.len(),
        forall|i: int| 0 <= i < k ==> scroll_continues(#[trigger] pages[i].len(), size),
        !scroll_continues(pages[k].len(), size),
    ensures
        scroll_outcome(size, pages[0], pages[0].len(), pages.subrange(1, pages.len() as int))
            == Some((pages.take(k + 1).flatten(), k as nat)),
{
    lemma_scroll_outcome_from(size, pages, k, 0, pages[0]);
    let t = pages.take(k + 1);
    assert(t.first() == pages[0]);
    assert(t.drop_first() =~= pages.subrange(1, k + 1));
}

/// A scrolled host search under way: the query, the page size, the cursor
/// from the first page, the results gathered so far and the length of the
/// last page.
pub struct HostScroll {
    pub query: String,
    pub size: i32,
    pub pagination_id: String,
    pub data: Vec<JsonValue>,
    pub last_len: usize,
}

impl HostScroll {
    /// The body of the first page: the query, the page size, no cursor.
    pub fn first_request(query_string: &str, size: i32) -> (r: JsonValue)
        requires
            query_string@.len() != 0,
        ensures
            r@ == Json::Object(scroll_host_members(true, Seq::empty(), query_string@, size)),
    {
        let sh = Quake::init_scroll_host(query_string, size, "");
        proof {
            reveal_strlit("");
        }
        Quake::get_scrollhost_post_data(sh)
    }

    /// Starts from the first page, which the API reported a success for: its
    /// results and its cursor.
    pub fn start(query_string: &str, size: i32, first: JsonValue) -> (r: HostScroll)
        requires
            data_array(first@) is Some,
            pagination_id_of(first@) is Some,
        ensures
            r.query@ == query_string@,
            r.size == size,
            r.pagination_id@ == pagination_id_of(first@)->Some_0,
            view_values(r.data@) == data_array(first@)->Some_0,
            r.last_len == r.data@.len(),
    {
        let pagination_id = match crate::display::get_in(first.get("meta"), "pagination_id") {
            Some(p) => match p.as_str() {
                Some(t) => t.clone(),
                None => {
                    proof {
                        assert(false);
                    }
                    String::new()
                },
            },
            None => {
                proof {
                    assert(false);
                }
                String::new()
            },
        };
        let data = response_data(first);
        proof {
            lemma_view_values(data@);
        }
        let last_len = data.len();
        HostScroll { query: query_string.to_string(), size, pagination_id, data, last_len }
    }

    /// The body of the next page, with the first page's cursor, while the
    /// last page was full (see `scroll_continues`); `None` when the scroll
    /// is over.
    pub fn next_request(&self) -> (r: Option<JsonValue>)
        requires
            self.query@.len() != 0,
        ensures
            r is Some <==> scroll_continues(self.last_len as nat, self.size),
            r matches Some(b) ==> b@ == Json::Object(
                scroll_host_members(true, self.pagination_id@, self.query@, self.size),
            ),
    {
        if self.last_len != 0 && (self.last_len as i32) >= self.size {
            let sh = Quake::init_scroll_host(
                self.query.as_str(),
                self.size,
                self.pagination_id.as_str(),
            );
            Some(Quake::get_scrollhost_post_data(sh))
        } else {
            None
        }
    }

    /// Adds a later page: its results follow those gathered so far.
    pub fn absorb(&mut self, response: JsonValue)
        requires
            data_array(response@) is Some,
        ensures
            view_values(final(self).data@) == view_values(old(self).data@) + data_array(
                response@,
            )->Some_0,
            final(self).last_len == data_array(response@)->Some_0.len(),
            final(self).query == old(self).query,
            final(self).size == old(self).size,
            final(self).pagination_id == old(self).pagination_id,
    {
        let mut page = response_data(response);
        proof {
            lemma_view_values(page@);
            lemma_view_values(self.data@);
        }
        let n = page.len();
        let ghost before = self.data@;
        let ghost added = page@;
        self.data.append(&mut page);
        proof {
            lemma_view_values(self.data@);
            assert(self.data@ =~= before + added);
            assert(view_values(self.data@) =~= view_values(before) + view_values(added));
        }
        self.last_len = n;
    }
}

// ---------------------------------------------------------------------
// Host searches and aggregations
// ---------------------------------------------------------------------

/// The members of a host search as serde writes the struct: in field order.
pub open spec fn host_body(h: Host) -> Seq<(Seq<char>, Json)> {
    seq![
        ("query"@, Json::Str(h.query@)),
        ("start"@, int_number(h.start)),
        ("size"@, int_number(h.size)),
        ("ignore_cache"@, Json::Bool(h.ignore_cache)),
    ]
}

/// The members of an aggregation as serde writes the struct: in field
/// order, the aggregated fields as an array of strings.
pub open spec fn agg_body(a: AggService) -> Seq<(Seq<char>, Json)> {
    seq![
        ("query"@, Json::Str(a.query@)),
        ("start"@, int_number(a.start)),
        ("size"@, int_number(a.size)),
        ("ignore_cache"@, Json::Bool(a.ignore_cache)),
        ("aggregation_list"@, Json::Array(a.aggregation_list@.map_values(|f: String| Json::Str(f@)))),
    ]
}

/// The query of a honeypot check for an address.
pub open spec fn honeypot_query(ip: Seq<char>) -> Seq<char> {
    "app: \"*蜜罐*\" AND ip:"@ + ip
}

impl Host {
    /// The host search the tool sends: the query, offset and size given,
    /// the cache bypassed.
    pub fn search(query_string: &str, start: i32, size: i32) -> (r: Host)
        ensures
            r.query@ == query_string@,
            r.start == start,
            r.size == size,
            r.ignore_cache,
    {
        Host { query: query_string.to_string(), start, size, ignore_cache: true }
    }

    /// The body of a host search (see `host_body`).
    pub fn body(&self) -> (r: JsonValue)
        ensures
            r@ == Json::Object(host_body(*self)),
    {
        let mut data: Vec<(String, JsonValue)> = Vec::new();
        push_member(&mut data, "query", JsonValue::String(self.query.clone()));
        push_member(&mut data, "start", int_json(self.start));
        push_member(&mut data, "size", int_json(self.size));
        push_member(&mut data, "ignore_cache", JsonValue::Bool(self.ignore_cache));
        proof {
            reveal_strlit("query");
            reveal_strlit("start");
            reveal_strlit("size");
            reveal_strlit("ignore_cache");
            assert(view_entries(data@) =~= host_body(*self));
        }
        JsonValue::Object(data)
    }
}

impl AggService {
    /// The aggregation behind a honeypot check: the applications seen on
    /// the address among honeypot results, five of them, from the cache.
    pub fn honeypot(ip: &str) -> (r: AggService)
        ensures
            r.query@ == honeypot_query(ip@),
            r.start == 0,
            r.size == 5,
            !r.ignore_cache,
            r.aggregation_list@.len() == 1,
            r.aggregation_list@[0]@ == "app"@,
    {
        let mut query = "app: \"*蜜罐*\" AND ip:".to_string();
        crate::text::append_str(&mut query, ip);
        let mut aggregation_list: Vec<String> = Vec::new();
        aggregation_list.push("app".to_string());
        AggService { query, start: 0, size: 5, ignore_cache: false, aggregation_list }
    }

    /// The body of an aggregation (see `agg_body`).
    pub fn body(&self) -> (r: JsonValue)
        ensures
            r@ == Json::Object(agg_body(*self)),
    {
        let mut list: Vec<JsonValue> = Vec::new();
        let mut i: usize = 0;
        while i < self.aggregation_list.len()
            invariant
                i <= self.aggregation_list@.len(),
                view_values(list@) == self.aggregation_list@.take(i as int).map_values(
                    |f: String| Json::Str(f@),
                ),
            decreases self.aggregation_list.len() - i,
        {
            let item = JsonValue::String(self.aggregation_list[i].clone());
            proof {
                lemma_view_values_push(list@, item);
            }
            list.push(item);
            assert(self.aggregation_list@.take(i + 1).map_values(|f: String| Json::Str(f@))
                =~= self.aggregation_list@.take(i as int).map_values(|f: String| Json::Str(f@)).push(
                Json::Str(self.aggregation_list@[i as int]@),
            ));
            i = i + 1;
        }
        assert(self.aggregation_list@.take(self.aggregation_list@.len() as int)
            =~= self.aggregation_list@);
        let mut data: Vec<(String, JsonValue)> = Vec::new();
        push_member(&mut data, "query", JsonValue::String(self.query.clone()));
        push_member(&mut data, "start", int_json(self.start));
        push_member(&mut data, "size", int_json(self.size));
        push_member(&mut data, "ignore_cache", JsonValue::Bool(self.ignore_cache));
        push_member(&mut data, "aggregation_list", JsonValue::Array(list));
        proof {
            reveal_strlit("query");
            reveal_strlit("start");
            reveal_strlit("size");
            reveal_strlit("ignore_cache");
            reveal_strlit("aggregation_list");
            assert(view_entries(data@) =~= agg_body(*self));
        }
        JsonValue::Object(data)
    }
}

} // verus!
