//! The requests sent to the Quake API, coloured console lines, and the dates
//! and clock behind the default search period.
use vstd::prelude::*;
use chrono::Datelike;
use chrono::Timelike;
use crate::json::JsonValue;
use crate::text::{append_str, nat_text, push_char};

verus! {

/// A search of the service database.
pub struct Service {
    /// The Quake query.
    pub query: String,
    /// The offset of the first result.
    pub start: i32,
    /// The number of results asked for.
    pub size: i32,
    /// Whether the server's cache is bypassed.
    pub ignore_cache: bool,
    /// Whether only the latest data is asked for.
    pub latest: bool,
    /// The start of the period searched.
    pub start_time: String,
    /// The end of the period searched.
    pub end_time: String,
    /// Addresses searched for in place of a query.
    pub ip_list: Vec<JsonValue>,
    /// Identifiers of the server-side filters applied.
    pub shortcuts: Vec<JsonValue>,
}

/// A page of a scrolled service search.
pub struct Scroll {
    pub query: String,
    pub size: i32,
    pub ignore_cache: bool,
    pub latest: bool,
    /// The cursor of the scroll; empty for its first page.
    pub pagination_id: String,
    pub start_time: String,
    pub end_time: String,
    pub ip_list: Vec<JsonValue>,
    pub shortcuts: Vec<JsonValue>,
}

/// A search of the host database.
pub struct Host {
    pub query: String,
    pub start: i32,
    pub size: i32,
    pub ignore_cache: bool,
}

/// A page of a scrolled host search.
pub struct ScrollHost {
    pub query: String,
    pub size: i32,
    pub pagination_id: String,
    pub ignore_cache: bool,
}

/// An aggregation over the service database.
pub struct AggService {
    pub query: String,
    pub start: i32,
    pub size: i32,
    pub ignore_cache: bool,
    pub aggregation_list: Vec<String>,
}

// ---------------------------------------------------------------------
// Coloured console lines
// ---------------------------------------------------------------------

/// The colours of console markers.
#[derive(Clone, Copy, PartialEq, Eq, Structural, Debug)]
pub enum Colour {
    Red,
    Green,
    Yellow,
    Blue,
}

/// The ANSI foreground code of a colour.
pub open spec fn colour_code(c: Colour) -> Seq<char> {
    match c {
        Colour::Red => seq!['3', '1'],
        Colour::Green => seq!['3', '2'],
        Colour::Yellow => seq!['3', '3'],
        Colour::Blue => seq!['3', '4'],
    }
}

/// `text` painted bold in colour `c`: the ANSI prefix, the text, the reset.
pub open spec fn bold_painted(c: Colour, text: Seq<char>) -> Seq<char> {
    seq!['\u{1b}', '[', '1', ';'] + colour_code(c) + seq!['m'] + text + seq![
        '\u{1b}',
        '[',
        '0',
        'm',
    ]
}

/// ansi_term's `Colour::bold()` followed by `Style::paint` and the
/// `Display` of the painted string: ansi_term writes `ESC[1;<code>m`, the
/// text and `ESC[0m` for a bold style with a foreground colour.
#[verifier::external_body]
pub(crate) fn paint_bold(c: Colour, text: &str) -> (r: String)
    ensures
        r@ == bold_painted(c, text@),
{
    let colour = match c {
        Colour::Red => ansi_term::Colour::Red,
        Colour::Green => ansi_term::Colour::Green,
        Colour::Yellow => ansi_term::Colour::Yellow,
        Colour::Blue => ansi_term::Colour::Blue,
    };
    colour.bold().paint(text).to_string()
}

/// The marker of an error line, `[!]`.
pub open spec fn error_mark() -> Seq<char> {
    seq!['[', '!', ']']
}

/// The marker of an info or success line, `[+]`.
pub open spec fn plus_mark() -> Seq<char> {
    seq!['[', '+', ']']
}

/// The marker of a warning line, `[-]`.
pub open spec fn minus_mark() -> Seq<char> {
    seq!['[', '-', ']']
}

/// A console line: a painted marker, a space and the message.
pub open spec fn marked_line(c: Colour, mark: Seq<char>, msg: Seq<char>) -> Seq<char> {
    bold_painted(c, mark) + seq![' '] + msg
}

pub open spec fn error_line(msg: Seq<char>) -> Seq<char> {
    marked_line(Colour::Red, error_mark(), msg)
}

pub open spec fn info_line(msg: Seq<char>) -> Seq<char> {
    marked_line(Colour::Blue, plus_mark(), msg)
}

pub open spec fn success_line(msg: Seq<char>) -> Seq<char> {
    marked_line(Colour::Green, plus_mark(), msg)
}

pub open spec fn warning_line(msg: Seq<char>) -> Seq<char> {
    marked_line(Colour::Yellow, minus_mark(), msg)
}

fn marked(c: Colour, mark: &str, msg: &str) -> (line: String)
    ensures
        line@ == marked_line(c, mark@, msg@),
{
    let mut line = paint_bold(c, mark);
    push_char(&mut line, ' ');
    append_str(&mut line, msg);
    line
}

/// Console lines with a coloured marker; the caller prints them.
pub struct Output;

impl Output {
    /// An error line, marked `[!]` in red.
    pub fn error(msg: &str) -> (line: String)
        ensures
            line@ == error_line(msg@),
    {
        let line = marked(Colour::Red, "[!]", msg);
        proof {
            reveal_strlit("[!]");
            assert("[!]"@ =~= error_mark());
        }
        line
    }

    /// An information line, marked `[+]` in blue.
    pub fn info(msg: &str) -> (line: String)
        ensures
            line@ == info_line(msg@),
    {
        let line = marked(Colour::Blue, "[+]", msg);
        proof {
            reveal_strlit("[+]");
            assert("[+]"@ =~= plus_mark());
        }
        line
    }

    /// A success line, marked `[+]` in green.
    pub fn success(msg: &str) -> (line: String)
        ensures
            line@ == success_line(msg@),
    {
        let line = marked(Colour::Green, "[+]", msg);
        proof {
            reveal_strlit("[+]");
            assert("[+]"@ =~= plus_mark());
        }
        line
    }

    /// A warning line, marked `[-]` in yellow.
    pub fn warning(msg: &str) -> (line: String)
        ensures
            line@ == warning_line(msg@),
    {
        let line = marked(Colour::Yellow, "[-]", msg);
        proof {
            reveal_strlit("[-]");
            assert("[-]"@ =~= minus_mark());
        }
        line
    }
}

// ---------------------------------------------------------------------
// Calendar dates
// ---------------------------------------------------------------------

/// The earliest year chrono's `NaiveDate` holds.
pub open spec fn min_year() -> int {
    -262143
}

/// The latest year chrono's `NaiveDate` holds.
pub open spec fn max_year() -> int {
    262142
}

pub open spec fn is_leap_year(y: int) -> bool {
    (y % 4 == 0 && y % 100 != 0) || y % 400 == 0
}

pub open spec fn days_in_month(y: int, m: int) -> int {
    if m == 2 {
        if is_leap_year(y) {
            29
        } else {
            28
        }
    } else if m == 4 || m == 6 || m == 9 || m == 11 {
        30
    } else {
        31
    }
}

/// A proleptic Gregorian date within chrono's range.
pub open spec fn valid_ymd(y: int, m: int, d: int) -> bool {
    &&& min_year() <= y <= max_year()
    &&& 1 <= m <= 12
    &&& 1 <= d <= days_in_month(y, m)
}

/// The number of days from 1970-01-01 to the date (negative before it).
pub open spec fn day_number(y: int, m: int, d: int) -> int {
    let yy = if m <= 2 {
        y - 1
    } else {
        y
    };
    let era = yy / 400;
    let yoe = yy - era * 400;
    let mp = if m > 2 {
        m - 3
    } else {
        m + 9
    };
    let doy = (153 * mp + 2) / 5 + d - 1;
    let doe = yoe * 365 + yoe / 4 - yoe / 100 + doy;
    era * 146097 + doe - 719468
}

/// `s` padded with zeros on the left to at least `width` characters.
pub open spec fn zero_pad(s: Seq<char>, width: nat) -> Seq<char> {
    if s.len() < width {
        Seq::new((width - s.len()) as nat, |i: int| '0') + s
    } else {
        s
    }
}

/// chrono's `%Y`: four digits, with a sign outside 0 through 9999.
pub open spec fn year_text(y: int) -> Seq<char> {
    if 0 <= y <= 9999 {
        zero_pad(nat_text(y as nat), 4)
    } else if y < 0 {
        seq!['-'] + zero_pad(nat_text((-y) as nat), 4)
    } else {
        seq!['+'] + zero_pad(nat_text(y as nat), 4)
    }
}

/// The text of a date as chrono formats it with `%Y-%m-%d`.
pub open spec fn ymd_text(y: int, m: int, d: int) -> Seq<char> {
    year_text(y) + seq!['-'] + zero_pad(nat_text(m as nat), 2) + seq!['-'] + zero_pad(
        nat_text(d as nat),
        2,
    )
}

/// The date that chrono's `NaiveDate::parse_from_str(text, "%Y-%m-%d")`
/// reads from `text`, as (year, month, day); `None` where it fails.
pub uninterp spec fn ymd_parse(text: Seq<char>) -> Option<(int, int, int)>;

/// chrono's `NaiveDate::parse_from_str` with the format `%Y-%m-%d`, the date
/// handed back as (year, month, day). What it accepts is left to the name
/// `ymd_parse`; the one fact stated is that a `NaiveDate` is a valid date in
/// chrono's range.
#[verifier::external_body]
fn parse_ymd(text: &str) -> (r: Option<(i32, u32, u32)>)
    ensures
        match r {
            Some((y, m, d)) => ymd_parse(text@) == Some((y as int, m as int, d as int)) && valid_ymd(
                y as int,
                m as int,
                d as int,
            ),
            None => ymd_parse(text@) is None,
        },
{
    chrono::NaiveDate::parse_from_str(text, "%Y-%m-%d").ok().map(|d| (d.year(), d.month(), d.day()))
}

/// chrono's `NaiveDate::checked_sub_signed(Duration::days(days))`: the
/// date `days` days earlier, `None` where that leaves chrono's range.
#[verifier::external_body]
fn ymd_checked_minus_days(y: i32, m: u32, d: u32, days: i64) -> (r: Option<(i32, u32, u32)>)
    requires
        valid_ymd(y as int, m as int, d as int),
        0 <= days <= 1_000_000,
    ensures
        r is Some <==> day_number(y as int, m as int, d as int) - days >= day_number(
            min_year(),
            1,
            1,
        ),
        r matches Some(t) ==> valid_ymd(t.0 as int, t.1 as int, t.2 as int) && day_number(
            t.0 as int,
            t.1 as int,
            t.2 as int,
        ) == day_number(y as int, m as int, d as int) - days,
{
    let date = chrono::NaiveDate::from_ymd_opt(y, m, d).unwrap();
    date.checked_sub_signed(chrono::Duration::days(days)).map(|r| (r.year(), r.month(), r.day()))
}

/// chrono's `NaiveDate::format("%Y-%m-%d")` turned into a string.
#[verifier::external_body]
fn format_ymd(y: i32, m: u32, d: u32) -> (r: String)
    requires
        valid_ymd(y as int, m as int, d as int),
    ensures
        r@ == ymd_text(y as int, m as int, d as int),
{
    chrono::NaiveDate::from_ymd_opt(y, m, d).unwrap().format("%Y-%m-%d").to_string()
}

/// Whether `text` is the date `days` days before the date that `manual`
/// reads as.
pub open spec fn is_days_before(manual: Seq<char>, days: int, text: Seq<char>) -> bool {
    match ymd_parse(manual) {
        Some((py, pm, pd)) => exists|y: int, m: int, d: int|
            valid_ymd(y, m, d) && day_number(y, m, d) == day_number(py, pm, pd) - days && text
                == ymd_text(y, m, d),
        None => false,
    }
}

/// Whether a year before the date that `manual` reads as is still a date
/// chrono holds.
pub open spec fn manual_date_ok(manual: Seq<char>) -> bool {
    match ymd_parse(manual) {
        Some((y, m, d)) => day_number(y, m, d) - 365 >= day_number(min_year(), 1, 1),
        None => false,
    }
}

/// The date 365 days before `manual_date` (read as `%Y-%m-%d`), written
/// `%Y-%m-%d`; `None` where `manual_date` does not read as a date or a year
/// before it leaves chrono's range (where the tool would panic).
pub fn try_getdate_for_manual(manual_date: &str) -> (r: Option<String>)
    ensures
        r is Some <==> manual_date_ok(manual_date@),
        r matches Some(t) ==> is_days_before(manual_date@, 365, t@),
{
    match parse_ymd(manual_date) {
        Some((y, m, d)) => {
            match ymd_checked_minus_days(y, m, d, 365) {
                Some(_) => Some(getdate_for_manual(manual_date)),
                None => None,
            }
        },
        None => None,
    }
}

/// The date 365 days before `manual_date` (read as `%Y-%m-%d`), written
/// `%Y-%m-%d`.
pub fn getdate_for_manual(manual_date: &str) -> (r: String)
    requires
        manual_date_ok(manual_date@),
    ensures
        is_days_before(manual_date@, 365, r@),
{
    match parse_ymd(manual_date) {
        Some((y, m, d)) => {
            match ymd_checked_minus_days(y, m, d, 365) {
                Some((ry, rm, rd)) => {
                    let r = format_ymd(ry, rm, rd);
                    assert(valid_ymd(ry as int, rm as int, rd as int) && day_number(
                        ry as int,
                        rm as int,
                        rd as int,
                    ) == day_number(y as int, m as int, d as int) - 365 && r@ == ymd_text(
                        ry as int,
                        rm as int,
                        rd as int,
                    ));
                    r
                },
                None => {
                    proof {
                        assert(false);
                    }
                    String::new()
                },
            }
        },
        None => {
            proof {
                assert(false);
            }
            String::new()
        },
    }
}

// ---------------------------------------------------------------------
// The clock
// ---------------------------------------------------------------------

/// A time on the local clock, field by field.
#[derive(Clone, Copy)]
pub struct Stamp {
    pub year: i32,
    pub month: u32,
    pub day: u32,
    pub hour: u32,
    pub minute: u32,
    pub second: u32,
}

/// A valid time of day on a valid date whose year is at most one beyond
/// chrono's range: a local time can lie a day past either end of it.
pub open spec fn local_stamp_ok(t: Stamp) -> bool {
    &&& min_year() - 1 <= t.year <= max_year() + 1
    &&& 1 <= t.month <= 12
    &&& 1 <= t.day <= days_in_month(t.year as int, t.month as int)
    &&& t.hour < 24
    &&& t.minute < 60
    &&& t.second < 60
}

/// The day number of a stamp's date.
pub open spec fn stamp_day(t: Stamp) -> int {
    day_number(t.year as int, t.month as int, t.day as int)
}

/// The seconds from 1970-01-01 00:00:00 to a stamp, read as a UTC time.
pub open spec fn stamp_seconds(t: Stamp) -> int {
    stamp_day(t) * 86400 + t.hour * 3600 + t.minute * 60 + t.second
}

/// The earliest UNIX timestamp chrono holds (the start of its first day).
pub open spec fn min_timestamp() -> int {
    day_number(min_year(), 1, 1) * 86400
}

/// The latest UNIX timestamp chrono holds (the end of its last day).
pub open spec fn max_timestamp() -> int {
    day_number(max_year(), 12, 31) * 86400 + 86399
}

/// The text of a stamp as chrono formats it with `%Y-%m-%d %H:%M:%S`.
pub open spec fn stamp_text(t: Stamp) -> Seq<char> {
    ymd_text(t.year as int, t.month as int, t.day as int) + seq![' '] + zero_pad(
        nat_text(t.hour as nat),
        2,
    ) + seq![':'] + zero_pad(nat_text(t.minute as nat), 2) + seq![':'] + zero_pad(
        nat_text(t.second as nat),
        2,
    )
}

/// Whether `earlier` lies a year of 365 days before `now`, read on a local
/// clock whose offset from UTC (under a day either way) may differ at the
/// two instants.
pub open spec fn year_apart(now: Stamp, earlier: Stamp) -> bool {
    stamp_day(now) - 367 <= stamp_day(earlier) <= stamp_day(now) - 363
}

/// Whether `now` and `earlier` are the texts of two valid local times a year
/// apart (see `year_apart`).
pub open spec fn year_apart_texts(now: Seq<char>, earlier: Seq<char>) -> bool {
    exists|a: Stamp, b: Stamp|
        #![trigger stamp_text(a), stamp_text(b)]
        local_stamp_ok(a) && local_stamp_ok(b) && year_apart(a, b) && now == stamp_text(a)
            && earlier == stamp_text(b)
}

/// std's `SystemTime`, declared so that a reading of the clock can be
/// carried to `seconds_since_epoch`.
#[verifier::external_type_specification]
#[verifier::external_body]
pub struct ExSystemTime(std::time::SystemTime);

/// std's `SystemTime::now()`: the system clock now. Which time it is, is not
/// stated.
#[verifier::external_body]
fn system_now() -> std::time::SystemTime {
    std::time::SystemTime::now()
}

/// std's `SystemTime::duration_since(UNIX_EPOCH)`, in whole seconds (the
/// `Duration`'s `as_secs`); `None` for a time before 1970, where std reports
/// an error. What the clock read is not stated.
#[verifier::external_body]
fn seconds_since_epoch(t: &std::time::SystemTime) -> Option<u64> {
    t.duration_since(std::time::UNIX_EPOCH).ok().map(|d| d.as_secs())
}

/// chrono's `Local.timestamp_opt(secs, 0)` (a single result for a timestamp
/// in range), read field by field and formatted with `%Y-%m-%d %H:%M:%S`.
/// The local time is the UTC time plus the local offset, which
/// `FixedOffset::east_opt` keeps strictly within a day; chrono lets that
/// local date fall a day outside its range (`NaiveDate::BEFORE_MIN`,
/// `AFTER_MAX`). Which offset applies is not stated.
#[verifier::external_body]
fn local_time_at(secs: i64) -> (r: (Stamp, String))
    requires
        min_timestamp() <= secs <= max_timestamp(),
    ensures
        local_stamp_ok(r.0),
        secs - 86400 < stamp_seconds(r.0) < secs + 86400,
        r.1@ == stamp_text(r.0),
{
    let t = chrono::TimeZone::timestamp_opt(&chrono::Local, secs, 0).unwrap();
    let stamp = Stamp { year: t.year(), month: t.month(), day: t.day(), hour: t.hour(), minute: t.minute(), second: t.second() };
    (stamp, t.format("%Y-%m-%d %H:%M:%S").to_string())
}

/// The days the default search period reaches back.
pub const PERIOD_DAYS: i64 = 365;

/// The last UNIX timestamp chrono holds (`max_timestamp`).
pub const MAX_TIMESTAMP: u64 = 8_210_266_876_799;

/// Whether a clock reading (a UNIX time in seconds) and the time
/// `PERIOD_DAYS` days before it both lie within chrono's range.
pub open spec fn clock_ok(now: int) -> bool {
    min_timestamp() + PERIOD_DAYS * 86400 <= now <= max_timestamp()
}

/// Whether `text` is the local time, as `%Y-%m-%d %H:%M:%S`, at the UNIX
/// time `secs`: a valid local time within a day (the local offset) of it.
pub open spec fn local_text_at(text: Seq<char>, secs: int) -> bool {
    exists|a: Stamp|
        #![trigger stamp_text(a)]
        local_stamp_ok(a) && secs - 86400 < stamp_seconds(a) < secs + 86400 && text == stamp_text(a)
}

/// Whether `local` is the local time at the reading `now` and
/// `one_years_ago` the local time `PERIOD_DAYS` days (of 86400 seconds)
/// before it.
pub open spec fn period_at(now: int, local: Seq<char>, one_years_ago: Seq<char>) -> bool {
    local_text_at(local, now) && local_text_at(one_years_ago, now - PERIOD_DAYS * 86400)
}

/// The local time at the clock reading `now` and `PERIOD_DAYS` days before
/// it, as `%Y-%m-%d %H:%M:%S` (see `period_at`).
pub fn period_texts(now: i64) -> (r: (String, String))
    requires
        clock_ok(now as int),
    ensures
        period_at(now as int, r.0@, r.1@),
{
    let before = now - PERIOD_DAYS * 86_400;
    let (a, local) = local_time_at(now);
    let (b, one_years_ago) = local_time_at(before);
    assert(local_stamp_ok(a) && now - 86400 < stamp_seconds(a) < now + 86400 && local@
        == stamp_text(a));
    assert(local_stamp_ok(b) && before - 86400 < stamp_seconds(b) < before + 86400
        && one_years_ago@ == stamp_text(b));
    (local, one_years_ago)
}

/// Reads the clock: the UNIX time now in whole seconds, where it lies
/// within the range `clock_ok` asks for; `None` for a clock before 1970 or
/// past chrono's range, where the tool stops.
pub fn read_clock() -> (r: Option<i64>)
    ensures
        r matches Some(t) ==> clock_ok(t as int),
{
    assert(min_timestamp() + PERIOD_DAYS * 86400 < 0);
    assert(max_timestamp() == MAX_TIMESTAMP);
    let t = system_now();
    match seconds_since_epoch(&t) {
        Some(secs) => if secs <= MAX_TIMESTAMP {
            Some(secs as i64)
        } else {
            None
        },
        None => None,
    }
}

/// The local time now and `PERIOD_DAYS` days before (see `period_texts`);
/// `None` where the clock cannot be read (see `read_clock`).
pub fn getdate() -> (r: Option<(String, String)>)
    ensures
        r matches Some(p) ==> exists|now: int| clock_ok(now) && period_at(now, p.0@, p.1@),
{
    match read_clock() {
        Some(now) => Some(period_texts(now)),
        None => None,
    }
}

/// Two texts of the same clock reading lie a year apart: their dates are
/// 363 to 367 days apart, a local offset being under a day either way.
pub proof fn lemma_period_a_year(now: int, local: Seq<char>, one_years_ago: Seq<char>)
    requires
        period_at(now, local, one_years_ago),
    ensures
        year_apart_texts(local, one_years_ago),
{
    let a = choose|a: Stamp|
        #![trigger stamp_text(a)]
        local_stamp_ok(a) && now - 86400 < stamp_seconds(a) < now + 86400 && local == stamp_text(a);
    let b = choose|b: Stamp|
        #![trigger stamp_text(b)]
        local_stamp_ok(b) && now - PERIOD_DAYS * 86400 - 86400 < stamp_seconds(b) < now
            - PERIOD_DAYS * 86400 + 86400 && one_years_ago == stamp_text(b);
    assert(year_apart(a, b));
    assert(local_stamp_ok(a) && local_stamp_ok(b) && year_apart(a, b) && local == stamp_text(a)
        && one_years_ago == stamp_text(b));
}

} // verus!
