//! What the command line decides from the values it was given: numbers read
//! with their defaults, the fields shown, the queries built from names and
//! addresses, and the directives read out of an AI-written query.
use vstd::prelude::*;
use crate::models::{Output, warning_line};
use crate::regex_ops::{
    regex_capture, regex_capture_group, regex_erase, regex_erase_all, regex_is_valid, regex_valid,
};
use crate::text::{append_str, chars_of, push_char, replace_all, replaced, string_of_range};

verus! {

// ---------------------------------------------------------------------
// Numbers
// ---------------------------------------------------------------------

/// Whether `c` is an ASCII digit.
pub open spec fn is_digit(c: char) -> bool {
    '0' <= c && c <= '9'
}

/// The value of an ASCII digit.
pub open spec fn digit_value(c: char) -> int {
    (c as int) - ('0' as int)
}

/// Whether `s` is one or more ASCII digits.
pub open spec fn all_digits(s: Seq<char>) -> bool {
    s.len() > 0 && forall|i: int| 0 <= i < s.len() ==> is_digit(#[trigger] s[i])
}

/// The decimal value of a run of digits.
pub open spec fn digits_value(s: Seq<char>) -> nat
    decreases s.len(),
{
    if s.len() == 0 {
        0
    } else {
        (digits_value(s.drop_last()) * 10 + digit_value(s.last())) as nat
    }
}

/// The integer that std's `str::parse::<i32>` reads: an optional `+` or
/// `-`, then one or more ASCII digits, the value within `i32`; `None`
/// otherwise.
pub open spec fn i32_parse(s: Seq<char>) -> Option<int> {
    if s.len() > 0 && s[0] == '-' {
        let d = s.subrange(1, s.len() as int);
        if all_digits(d) && -digits_value(d) >= i32::MIN {
            Some(-digits_value(d))
        } else {
            None
        }
    } else {
        let d = if s.len() > 0 && s[0] == '+' {
            s.subrange(1, s.len() as int)
        } else {
            s
        };
        if all_digits(d) && digits_value(d) <= i32::MAX {
            Some(digits_value(d) as int)
        } else {
            None
        }
    }
}

/// A longer run of digits is worth at least as much as its beginning.
proof fn lemma_digits_value_prefix(s: Seq<char>, n: int)
    requires
        0 <= n <= s.len(),
        forall|i: int| 0 <= i < s.len() ==> is_digit(#[trigger] s[i]),
    ensures
        digits_value(s.subrange(0, n)) <= digits_value(s),
    decreases s.len(),
{
    if n < s.len() {
        assert(s.drop_last() =~= s.subrange(0, s.len() - 1));
        assert(s.subrange(0, n) =~= s.drop_last().subrange(0, n));
        lemma_digits_value_prefix(s.drop_last(), n);
    } else {
        assert(s.subrange(0, n) =~= s);
    }
}

/// The value of the digits of `v` from `from` on, where they are one or
/// more ASCII digits worth at most `limit`; `None` otherwise.
fn digits_up_to(v: &Vec<char>, from: usize, limit: u64) -> (r: Option<u64>)
    requires
        from <= v@.len(),
        limit <= 0x8000_0000,
    ensures
        ({
            let d = v@.subrange(from as int, v@.len() as int);
            match r {
                Some(x) => all_digits(d) && x == digits_value(d) && x <= limit,
                None => !(all_digits(d) && digits_value(d) <= limit),
            }
        }),
{
    let ghost d = v@.subrange(from as int, v@.len() as int);
    let n = v.len();
    if from == n {
        return None;
    }
    let mut acc: u64 = 0;
    let mut i: usize = from;
    while i < n
        invariant
            from <= i <= n,
            n == v@.len(),
            limit <= 0x8000_0000,
            d == v@.subrange(from as int, n as int),
            forall|k: int| from <= k < i ==> is_digit(#[trigger] v@[k]),
            acc == digits_value(v@.subrange(from as int, i as int)),
            acc <= limit,
        decreases n - i,
    {
        let c = v[i];
        if !('0' <= c && c <= '9') {
            assert(d[i - from] == c);
            return None;
        }
        let ghost pre = v@.subrange(from as int, i as int);
        assert(v@.subrange(from as int, i + 1).drop_last() =~= pre);
        let digit: u64 = (c as u32 - '0' as u32) as u64;
        acc = acc * 10 + digit;
        if acc > limit {
            proof {
                assert forall|k: int| 0 <= k < d.len() implies is_digit(#[trigger] d[k]) || !all_digits(
                    d,
                ) by {}
                if all_digits(d) {
                    assert(v@.subrange(from as int, i + 1) =~= d.subrange(0, i + 1 - from));
                    lemma_digits_value_prefix(d, i + 1 - from);
                }
            }
            return None;
        }
        i = i + 1;
    }
    assert(v@.subrange(from as int, n as int) =~= d);
    Some(acc)
}

/// std's `str::parse::<i32>` (see `i32_parse`).
pub fn parse_i32_text(s: &str) -> (r: Option<i32>)
    ensures
        match r {
            Some(x) => i32_parse(s@) == Some(x as int),
            None => i32_parse(s@) is None,
        },
{
    let v = chars_of(s);
    if v.len() > 0 && v[0] == '-' {
        match digits_up_to(&v, 1, 0x8000_0000) {
            Some(x) => {
                let r: i64 = 0 - (x as i64);
                Some(r as i32)
            },
            None => None,
        }
    } else {
        let from: usize = if v.len() > 0 && v[0] == '+' {
            1
        } else {
            0
        };
        assert(v@.subrange(0, v@.len() as int) =~= v@);
        match digits_up_to(&v, from, 0x7fff_ffff) {
            Some(x) => Some(x as i32),
            None => None,
        }
    }
}

/// The value given for a numeric option read as an `i32`, or `default`
/// where none was given or it does not read as one.
pub fn parse_i32(value: Option<&str>, default: i32) -> (r: i32)
    ensures
        r == match value {
            Some(t) => match i32_parse(t@) {
                Some(x) => x,
                None => default as int,
            },
            None => default as int,
        },
{
    match value {
        Some(t) => match parse_i32_text(t) {
            Some(x) => x,
            None => default,
        },
        None => default,
    }
}

/// The value given for a text option, or `default`.
pub fn get_str(value: Option<&str>, default: &str) -> (r: String)
    ensures
        r@ == match value {
            Some(t) => t@,
            None => default@,
        },
{
    match value {
        Some(t) => t.to_string(),
        None => default.to_string(),
    }
}

// ---------------------------------------------------------------------
// Fields and queries
// ---------------------------------------------------------------------

/// The pieces of `s` between commas (std's `str::split(',')`): one more
/// than there are commas, empty ones kept.
pub open spec fn split_commas(s: Seq<char>) -> Seq<Seq<char>>
    decreases s.len(),
{
    if s.len() == 0 {
        seq![Seq::empty()]
    } else {
        let rest = split_commas(s.drop_last());
        if s.last() == ',' {
            rest.push(Seq::empty())
        } else {
            rest.update(rest.len() - 1, rest.last().push(s.last()))
        }
    }
}

proof fn lemma_split_commas_nonempty(s: Seq<char>)
    ensures
        split_commas(s).len() > 0,
    decreases s.len(),
{
    if s.len() > 0 {
        lemma_split_commas_nonempty(s.drop_last());
    }
}

/// The fields named in a `--type` value, in order.
pub fn split_fields(s: &str) -> (r: Vec<String>)
    ensures
        r@.map_values(|f: String| f@) == split_commas(s@),
{
    let v = chars_of(s);
    let n = v.len();
    let mut r: Vec<String> = Vec::new();
    let mut start: usize = 0;
    let mut i: usize = 0;
    assert(v@.subrange(0, 0) =~= Seq::<char>::empty());
    assert(r@.map_values(|f: String| f@) =~= Seq::<Seq<char>>::empty());
    assert(split_commas(Seq::<char>::empty()) =~= seq![Seq::<char>::empty()]);
    while i < n
        invariant
            v@ == s@,
            n == v@.len(),
            start <= i <= n,
            split_commas(v@.subrange(0, i as int)) == r@.map_values(|f: String| f@).push(
                v@.subrange(start as int, i as int),
            ),
        decreases n - i,
    {
        let ghost before = r@.map_values(|f: String| f@);
        proof {
            lemma_split_commas_nonempty(v@.subrange(0, i as int));
            assert(v@.subrange(0, i + 1).drop_last() =~= v@.subrange(0, i as int));
        }
        if v[i] == ',' {
            let piece = string_of_range(&v, start, i);
            r.push(piece);
            assert(r@.map_values(|f: String| f@) =~= before.push(v@.subrange(start as int, i as int)));
            assert(v@.subrange(i + 1, i + 1) =~= Seq::<char>::empty());
            start = i + 1;
        } else {
            assert(v@.subrange(start as int, i + 1) =~= v@.subrange(start as int, i as int).push(
                v@[i as int],
            ));
        }
        i = i + 1;
    }
    let last = string_of_range(&v, start, n);
    let ghost before = r@.map_values(|f: String| f@);
    r.push(last);
    assert(r@.map_values(|f: String| f@) =~= before.push(v@.subrange(start as int, n as int)));
    assert(v@.subrange(0, n as int) =~= s@);
    r
}

/// The query of a domain search: every subdomain of `domain`.
pub fn domain_query(domain: &str) -> (r: String)
    ensures
        r@ == "domain:*."@ + domain@,
{
    let mut q = "domain:*.".to_string();
    append_str(&mut q, domain);
    q
}

/// The query of a host search for an address or network.
pub fn host_query(ip: &str) -> (r: String)
    ensures
        r@ == "ip:"@ + ip@,
{
    let mut q = "ip:".to_string();
    append_str(&mut q, ip);
    q
}

/// Whether a domain search shows only the number of matches: `--count 1`.
pub fn count_only(count: i32) -> (r: bool)
    ensures
        r == (count == 1),
{
    count == 1
}

/// The warning printed for a page size above 100.
pub open spec fn size_warning_text() -> Seq<char> {
    warning_line(
        "Warning: Size is set to a maximum of 100, if set too high it may cause abnormal slowdowns or timeouts."@,
    )
}

/// The warning line for a page size above 100; `None` for one up to 100.
pub fn size_warning(size: i32) -> (r: Option<String>)
    ensures
        r is Some <==> size > 100,
        r matches Some(w) ==> w@ == size_warning_text(),
{
    if size > 100 {
        Some(
            Output::warning(
                "Warning: Size is set to a maximum of 100, if set too high it may cause abnormal slowdowns or timeouts.",
            ),
        )
    } else {
        None
    }
}

/// The fields of a `--type` value, joined again by commas, give the value
/// back; none of them holds a comma.
pub proof fn lemma_split_join(s: Seq<char>)
    ensures
        crate::display::joined(split_commas(s), ","@) == s,
        forall|k: int, j: int|
            0 <= k < split_commas(s).len() && 0 <= j < split_commas(s)[k].len() ==> #[trigger] split_commas(
                s,
            )[k][j] != ',',
    decreases s.len(),
{
    reveal_strlit(",");
    if s.len() > 0 {
        let rest = split_commas(s.drop_last());
        lemma_split_join(s.drop_last());
        lemma_split_commas_nonempty(s.drop_last());
        if s.last() == ',' {
            assert(rest.push(Seq::empty()).drop_last() =~= rest);
            assert(crate::display::joined(rest, ","@) + ","@ + Seq::<char>::empty() =~= s);
            let up = rest.push(Seq::<char>::empty());
            assert forall|k: int, j: int|
                0 <= k < up.len() && 0 <= j < up[k].len() implies #[trigger] up[k][j] != ',' by {
                assert(up[k] == rest[k]);
            }
        } else {
            let up = rest.update(rest.len() - 1, rest.last().push(s.last()));
            if rest.len() == 1 {
                assert(up[0] =~= s);
            } else {
                assert(up.drop_last() =~= rest.drop_last());
                assert(crate::display::joined(rest.drop_last(), ","@) + ","@ + rest.last().push(s.last())
                    =~= (crate::display::joined(rest.drop_last(), ","@) + ","@ + rest.last()).push(
                    s.last(),
                ));
                assert(s.drop_last().push(s.last()) =~= s);
            }
            assert forall|k: int, j: int|
                0 <= k < up.len() && 0 <= j < up[k].len() implies #[trigger] up[k][j] != ',' by {
                if k == up.len() - 1 && j == up[k].len() - 1 {
                } else if k == up.len() - 1 {
                    assert(up[k][j] == rest[k][j]);
                }
            }
        }
    }
}

// ---------------------------------------------------------------------
// Directives in an AI-written query
// ---------------------------------------------------------------------

/// The page size asked for: `--size <digits>`.
pub const SIZE_PATTERN: &'static str = "--size\\s+(\\d+)";

/// The start of the period asked for: `--time_start <year>-<month>[-<day>]`.
pub const TIME_START_PATTERN: &'static str = "--time_start\\s+(\\d+-\\d+)(?:-\\d+)?";

/// The end of the period asked for: `--time_end <year>-<month>[-<day>]`.
pub const TIME_END_PATTERN: &'static str = "--time_end\\s+(\\d+-\\d+)(?:-\\d+)?";

/// The file the results are to be saved in: `--output <name>`.
pub const OUTPUT_PATTERN: &'static str = "--output\\s+([^\\s]+)";

/// A dangling `and` at the end of the query.
pub const AND_PATTERN: &'static str = "and\\s*$";

/// `s` without the double quotes at either end (std's
/// `str::trim_matches('"')`).
pub open spec fn trim_quotes(s: Seq<char>) -> Seq<char>
    decreases s.len(),
{
    if s.len() > 0 && s[0] == '"' {
        trim_quotes(s.subrange(1, s.len() as int))
    } else if s.len() > 0 && s.last() == '"' {
        trim_quotes(s.drop_last())
    } else {
        s
    }
}

/// `s` without the double quotes at either end.
fn trim_quotes_exec(s: &str) -> (r: String)
    ensures
        r@ == trim_quotes(s@),
{
    let v = chars_of(s);
    let n = v.len();
    let mut start: usize = 0;
    assert(v@.subrange(0, n as int) =~= v@);
    while start < n && v[start] == '"'
        invariant
            start <= n,
            n == v@.len(),
            v@ == s@,
            trim_quotes(s@) == trim_quotes(v@.subrange(start as int, n as int)),
        decreases n - start,
    {
        assert(v@.subrange(start as int, n as int).subrange(1, n - start) =~= v@.subrange(
            start + 1,
            n as int,
        ));
        start = start + 1;
    }
    let mut end: usize = n;
    while end > start && v[end - 1] == '"'
        invariant
            start <= end <= n,
            n == v@.len(),
            v@ == s@,
            start < n ==> v@[start as int] != '"',
            trim_quotes(s@) == trim_quotes(v@.subrange(start as int, end as int)),
        decreases end - start,
    {
        let ghost t = v@.subrange(start as int, end as int);
        assert(t[0] == v@[start as int]);
        assert(t.drop_last() =~= v@.subrange(start as int, end - 1));
        end = end - 1;
    }
    proof {
        let t = v@.subrange(start as int, end as int);
        if t.len() > 0 {
            assert(t[0] == v@[start as int]);
            assert(t.last() == v@[end - 1]);
        }
    }
    string_of_range(&v, start, end)
}

/// A capture group's text, or the empty text.
pub open spec fn capture_or_empty(pattern: Seq<char>, text: Seq<char>) -> Seq<char> {
    match regex_capture(pattern, text, 1) {
        Some(t) => t,
        None => Seq::empty(),
    }
}

/// The answer with the quotes around it and its backslashes removed.
pub open spec fn gpt_cleaned(answer: Seq<char>) -> Seq<char> {
    replaced(trim_quotes(answer), "\\"@, Seq::empty())
}

/// The query left once the size and period directives are erased.
pub open spec fn gpt_without_period(answer: Seq<char>) -> Seq<char> {
    regex_erase_all(
        TIME_END_PATTERN@,
        regex_erase_all(TIME_START_PATTERN@, regex_erase_all(SIZE_PATTERN@, gpt_cleaned(answer))),
    )
}

/// What the tool reads out of an AI-written query.
pub struct GptQuery {
    /// The query, every directive, a dangling `and` and the double quotes
    /// erased.
    pub query: String,
    /// The page size asked for, 10 where none is or it is no `i32`.
    pub size: i32,
    /// The start of the period asked for, empty where none is.
    pub time_start: String,
    /// The end of the period asked for, empty where none is.
    pub time_end: String,
    /// The file asked for, where one is.
    pub output: Option<String>,
}

/// Whether the patterns of the directives compile.
pub open spec fn gpt_patterns_valid() -> bool {
    &&& regex_valid(SIZE_PATTERN@)
    &&& regex_valid(TIME_START_PATTERN@)
    &&& regex_valid(TIME_END_PATTERN@)
    &&& regex_valid(OUTPUT_PATTERN@)
    &&& regex_valid(AND_PATTERN@)
}

/// What the tool reads out of `answer` (see `GptQuery`).
pub open spec fn gpt_query_ok(answer: Seq<char>, r: GptQuery) -> bool {
    let q = gpt_cleaned(answer);
    let rest = gpt_without_period(answer);
    &&& r.size == match regex_capture(SIZE_PATTERN@, q, 1) {
        Some(t) => match i32_parse(t) {
            Some(x) => x,
            None => 10,
        },
        None => 10,
    }
    &&& r.time_start@ == capture_or_empty(TIME_START_PATTERN@, q)
    &&& r.time_end@ == capture_or_empty(TIME_END_PATTERN@, q)
    &&& crate::regex_ops::opt_string_view(r.output) == regex_capture(OUTPUT_PATTERN@, rest, 1)
    &&& r.query@ == replaced(
        regex_erase_all(AND_PATTERN@, regex_erase_all(OUTPUT_PATTERN@, rest)),
        "\""@,
        Seq::empty(),
    )
}

/// Reads the directives out of an AI-written query (see `gpt_query_ok`);
/// `None` where a pattern does not compile.
pub fn read_gpt_query(answer: &str) -> (r: Option<GptQuery>)
    ensures
        r is Some <==> gpt_patterns_valid(),
        r matches Some(g) ==> gpt_query_ok(answer@, g),
{
    if !(regex_is_valid(SIZE_PATTERN) && regex_is_valid(TIME_START_PATTERN) && regex_is_valid(
        TIME_END_PATTERN,
    ) && regex_is_valid(OUTPUT_PATTERN) && regex_is_valid(AND_PATTERN)) {
        return None;
    }
    let trimmed = trim_quotes_exec(answer);
    proof {
        reveal_strlit("\\");
        reveal_strlit("");
        reveal_strlit("\"");
    }
    let query = replace_all(trimmed.as_str(), "\\", "");
    let size = match regex_capture_group(SIZE_PATTERN, query.as_str(), 1) {
        Some(t) => match parse_i32_text(t.as_str()) {
            Some(x) => x,
            None => 10,
        },
        None => 10,
    };
    let time_start = match regex_capture_group(TIME_START_PATTERN, query.as_str(), 1) {
        Some(t) => t,
        None => String::new(),
    };
    let time_end = match regex_capture_group(TIME_END_PATTERN, query.as_str(), 1) {
        Some(t) => t,
        None => String::new(),
    };
    let q1 = regex_erase(SIZE_PATTERN, query.as_str());
    let q2 = regex_erase(TIME_START_PATTERN, q1.as_str());
    let q3 = regex_erase(TIME_END_PATTERN, q2.as_str());
    let output = regex_capture_group(OUTPUT_PATTERN, q3.as_str(), 1);
    let q4 = regex_erase(OUTPUT_PATTERN, q3.as_str());
    let q5 = regex_erase(AND_PATTERN, q4.as_str());
    let q6 = replace_all(q5.as_str(), "\"", "");
    assert(""@ =~= Seq::<char>::empty());
    Some(GptQuery { query: q6, size, time_start, time_end, output })
}

} // verus!
