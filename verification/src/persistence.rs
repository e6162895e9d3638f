//! Query files read into searches, and result lines written out. Reading and
//! writing the files is the caller's; this module works on their text.
use vstd::prelude::*;
use crate::text::{
    append_str, chars_of, is_ws, lemma_trim_end_prefix, push_char, replace_all, replaced,
    string_of_range, trim_end, trim_end_len,
};

verus! {

/// The search of a query file: its lines, trailing whitespace left out,
/// joined by ` OR ` (the line break being the system's `newline`).
pub open spec fn search_query_text(contents: Seq<char>, newline: Seq<char>) -> Seq<char> {
    replaced(trim_end(contents), newline, " OR "@)
}

/// The host search of an address file: each line as `ip:"<address>"`,
/// joined by ` OR `.
pub open spec fn host_query_text(contents: Seq<char>, newline: Seq<char>) -> Seq<char> {
    "ip:\""@ + replaced(trim_end(contents), newline, "\" OR ip:\""@) + "\""@
}

/// The text of a file without its trailing whitespace.
fn trimmed(contents: &str) -> (r: String)
    ensures
        r@ == trim_end(contents@),
{
    let v = chars_of(contents);
    let n = trim_end_len(&v);
    string_of_range(&v, 0, n)
}

/// The search of a query file's text (see `search_query_text`).
pub fn read_file_search(contents: &str, newline: &str) -> (r: String)
    requires
        newline@.len() > 0,
    ensures
        r@ == search_query_text(contents@, newline@),
{
    let t = trimmed(contents);
    replace_all(t.as_str(), newline, " OR ")
}

/// The host search of an address file's text (see `host_query_text`).
pub fn read_file_host(contents: &str, newline: &str) -> (r: String)
    requires
        newline@.len() > 0,
    ensures
        r@ == host_query_text(contents@, newline@),
{
    let t = trimmed(contents);
    let query = replace_all(t.as_str(), newline, "\" OR ip:\"");
    let mut r = "ip:\"".to_string();
    append_str(&mut r, query.as_str());
    append_str(&mut r, "\"");
    r
}

/// Replacing a pattern that ends in whitespace keeps the last character of
/// a text that does not.
proof fn lemma_replaced_last(s: Seq<char>, from: Seq<char>, to: Seq<char>)
    requires
        s.len() > 0,
        !is_ws(s.last()),
        from.len() > 0,
        is_ws(from.last()),
    ensures
        replaced(s, from, to).len() > 0,
        replaced(s, from, to).last() == s.last(),
    decreases s.len(),
{
    if occurs_at_start(s, from) {
        let rest = s.subrange(from.len() as int, s.len() as int);
        assert(s.subrange(0, from.len() as int)[from.len() - 1] == from.last());
        assert(s[from.len() - 1] == from.last());
        assert(from.len() < s.len());
        assert(rest.last() == s.last());
        lemma_replaced_last(rest, from, to);
    } else {
        let rest = s.subrange(1, s.len() as int);
        if rest.len() > 0 {
            assert(rest.last() == s.last());
            lemma_replaced_last(rest, from, to);
        } else {
            assert(replaced(rest, from, to) == rest);
        }
    }
}

spec fn occurs_at_start(s: Seq<char>, from: Seq<char>) -> bool {
    crate::text::occurs_at(s, from, 0)
}

/// A search read from a query file never ends in whitespace, so never in
/// a dangling ` OR `, whatever the file holds, for a line break that ends in
/// whitespace (`\n`, `\r\n`).
pub proof fn lemma_search_query_no_trailing_space(contents: Seq<char>, newline: Seq<char>)
    requires
        newline.len() > 0,
        is_ws(newline.last()),
    ensures
        search_query_text(contents, newline).len() > 0 ==> !is_ws(
            search_query_text(contents, newline).last(),
        ),
{
    lemma_trim_end_prefix(contents);
    let t = trim_end(contents);
    if t.len() > 0 {
        lemma_replaced_last(t, newline, " OR "@);
    }
}

/// What saving lines writes to the file, one write per line: the line and
/// a line break; and how many lines that is.
pub fn save_lines(lines: &Vec<String>) -> (r: (Vec<String>, i32))
    requires
        lines@.len() <= i32::MAX,
    ensures
        r.0@.len() == lines@.len(),
        forall|i: int| 0 <= i < lines@.len() ==> (#[trigger] r.0@[i])@ == lines@[i]@ + seq!['\n'],
        r.1 == lines@.len(),
{
    let mut writes: Vec<String> = Vec::new();
    let mut count: i32 = 0;
    let mut i: usize = 0;
    while i < lines.len()
        invariant
            lines@.len() <= i32::MAX,
            i <= lines@.len(),
            count == i,
            writes@.len() == i,
            forall|k: int| 0 <= k < i ==> (#[trigger] writes@[k])@ == lines@[k]@ + seq!['\n'],
        decreases lines.len() - i,
    {
        let mut w = String::new();
        append_str(&mut w, lines[i].as_str());
        push_char(&mut w, '\n');
        writes.push(w);
        count = count + 1;
        i = i + 1;
    }
    (writes, count)
}

} // verus!
