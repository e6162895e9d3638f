//! JSON values as the API sends and receives them: the value tree, what
//! serde_json's accessors read from it, and the compact text its writer gives.
use vstd::prelude::*;
use crate::text::{append_str, int_text, nat_text, push_char, u64_text, i64_text};

verus! {

pub enum NumberView {
    PosInt(u64),
    NegInt(i64),
    Float(Seq<char>),
}

pub enum Json {
    Null,
    Bool(bool),
    Number(NumberView),
    Str(Seq<char>),
    Array(Seq<Json>),
    Object(Seq<(Seq<char>, Json)>),
}

#[derive(Debug, Clone, PartialEq)]
pub enum JsonNumber {
    PosInt(u64),
    NegInt(i64),
    Float(String),
}

#[derive(Debug, PartialEq)]
pub enum JsonValue {
    Null,
    Bool(bool),
    Number(JsonNumber),
    String(String),
    Array(Vec<JsonValue>),
    Object(Vec<(String, JsonValue)>),
}

impl View for JsonNumber {
    type V = NumberView;

    open spec fn view(&self) -> NumberView {
        match self {
            JsonNumber::PosInt(u) => NumberView::PosInt(*u),
            JsonNumber::NegInt(i) => NumberView::NegInt(*i),
            JsonNumber::Float(t) => NumberView::Float(t@),
        }
    }
}

pub open spec fn view_value(v: JsonValue) -> Json
    decreases v, 0int,
{
    match v {
        JsonValue::Null => Json::Null,
        JsonValue::Bool(b) => Json::Bool(b),
        JsonValue::Number(n) => Json::Number(n@),
        JsonValue::String(s) => Json::Str(s@),
        JsonValue::Array(a) => Json::Array(view_values(a@)),
        JsonValue::Object(e) => Json::Object(view_entries(e@)),
    }
}

pub open spec fn view_values(s: Seq<JsonValue>) -> Seq<Json>
    decreases s, 1int,
{
    if s.len() == 0 {
        Seq::empty()
    } else {
        view_values(s.subrange(0, s.len() - 1)).push(view_value(s[s.len() - 1]))
    }
}

pub open spec fn view_entries(s: Seq<(String, JsonValue)>) -> Seq<(Seq<char>, Json)>
    decreases s, 1int,
{
    if s.len() == 0 {
        Seq::empty()
    } else {
        view_entries(s.subrange(0, s.len() - 1)).push((s[s.len() - 1].0@, view_value(s[s.len() - 1].1)))
    }
}

impl View for JsonValue {
    type V = Json;

    open spec fn view(&self) -> Json {
        view_value(*self)
    }
}


pub proof fn lemma_view_values(s: Seq<JsonValue>)
    ensures
        view_values(s).len() == s.len(),
        forall|i: int| 0 <= i < s.len() ==> #[trigger] view_values(s)[i] == view_value(s[i]),
    decreases s.len(),
{
    if s.len() > 0 {
        lemma_view_values(s.subrange(0, s.len() - 1));
        assert forall|i: int| 0 <= i < s.len() implies #[trigger] view_values(s)[i] == view_value(
            s[i],
        ) by {
            if i < s.len() - 1 {
                assert(view_values(s.subrange(0, s.len() - 1))[i] == view_value(
                    s.subrange(0, s.len() - 1)[i],
                ));
            }
        }
    }
}

pub proof fn lemma_view_entries(s: Seq<(String, JsonValue)>)
    ensures
        view_entries(s).len() == s.len(),
        forall|i: int|
            0 <= i < s.len() ==> #[trigger] view_entries(s)[i] == (s[i].0@, view_value(s[i].1)),
    decreases s.len(),
{
    if s.len() > 0 {
        lemma_view_entries(s.subrange(0, s.len() - 1));
        assert forall|i: int| 0 <= i < s.len() implies #[trigger] view_entries(s)[i] == (
            s[i].0@,
            view_value(s[i].1),
        ) by {
            if i < s.len() - 1 {
                assert(view_entries(s.subrange(0, s.len() - 1))[i] == (
                    s.subrange(0, s.len() - 1)[i].0@,
                    view_value(s.subrange(0, s.len() - 1)[i].1),
                ));
            }
        }
    }
}


/// Appending a value appends its view.
pub proof fn lemma_view_values_push(s: Seq<JsonValue>, x: JsonValue)
    ensures
        view_values(s.push(x)) == view_values(s).push(view_value(x)),
{
    assert(s.push(x).subrange(0, s.len() as int) =~= s);
}

/// Appending a member appends its view.
pub proof fn lemma_view_entries_push(s: Seq<(String, JsonValue)>, x: (String, JsonValue))
    ensures
        view_entries(s.push(x)) == view_entries(s).push((x.0@, view_value(x.1))),
{
    assert(s.push(x).subrange(0, s.len() as int) =~= s);
}

// ---------------------------------------------------------------------
// Reading a JSON value (what serde_json's `Value` accessors give)
// ---------------------------------------------------------------------

/// The value under the first member named `key`. The objects serde_json
/// gives never repeat a name (its `Map` holds one value per key), and the
/// request bodies built here name each member once
/// (`lemma_service_body_members`, `lemma_scroll_body_members`).
pub open spec fn entries_get(e: Seq<(Seq<char>, Json)>, key: Seq<char>) -> Option<Json>
    decreases e.len(),
{
    if e.len() == 0 {
        None
    } else if e[0].0 == key {
        Some(e[0].1)
    } else {
        entries_get(e.subrange(1, e.len() as int), key)
    }
}

impl Json {
    /// `Value::get(key)`: the member of an object, `None` for a missing key
    /// or a value that is no object.
    pub open spec fn get(self, key: Seq<char>) -> Option<Json> {
        match self {
            Json::Object(e) => entries_get(e, key),
            _ => None,
        }
    }

    /// `value[key]`: the member of an object, `null` where `get` gives nothing.
    pub open spec fn at(self, key: Seq<char>) -> Json {
        match self.get(key) {
            Some(j) => j,
            None => Json::Null,
        }
    }

    /// `value[i]`: the element of an array, `null` where there is none.
    pub open spec fn at_index(self, i: int) -> Json {
        match self {
            Json::Array(items) => if 0 <= i < items.len() {
                items[i]
            } else {
                Json::Null
            },
            _ => Json::Null,
        }
    }

    /// `Value::as_str`.
    pub open spec fn as_str(self) -> Option<Seq<char>> {
        match self {
            Json::Str(s) => Some(s),
            _ => None,
        }
    }

    /// `Value::as_i64`: an integer that fits in `i64`.
    pub open spec fn as_i64(self) -> Option<i64> {
        match self {
            Json::Number(NumberView::PosInt(u)) => if u <= i64::MAX {
                Some(u as i64)
            } else {
                None
            },
            Json::Number(NumberView::NegInt(i)) => Some(i),
            _ => None,
        }
    }

    /// `Value::as_array`.
    pub open spec fn as_array(self) -> Option<Seq<Json>> {
        match self {
            Json::Array(items) => Some(items),
            _ => None,
        }
    }

    /// `Value::as_object`.
    pub open spec fn as_object(self) -> Option<Seq<(Seq<char>, Json)>> {
        match self {
            Json::Object(e) => Some(e),
            _ => None,
        }
    }
}

/// `get` applied to an optional value (`and_then(|v| v.get(key))`).
pub open spec fn opt_get(o: Option<Json>, key: Seq<char>) -> Option<Json> {
    match o {
        Some(j) => j.get(key),
        None => None,
    }
}

/// The string held by an optional value, or `default`
/// (`and_then(|v| v.as_str()).unwrap_or(default)`).
pub open spec fn str_or(o: Option<Json>, default: Seq<char>) -> Seq<char> {
    match o {
        Some(Json::Str(s)) => s,
        _ => default,
    }
}

/// The view of an optional reference to a value.
pub open spec fn opt_view(o: Option<&JsonValue>) -> Option<Json> {
    match o {
        Some(v) => Some(v@),
        None => None,
    }
}

/// `Map::get(key)`: the value under the first member named `key`.
pub fn entries_lookup<'a>(entries: &'a Vec<(String, JsonValue)>, key: &str) -> (r: Option<
    &'a JsonValue,
>)
    ensures
        opt_view(r) == entries_get(view_entries(entries@), key@),
{
    proof {
        lemma_view_entries(entries@);
    }
    let n = entries.len();
    let mut i: usize = 0;
    assert(view_entries(entries@).subrange(0, n as int) =~= view_entries(entries@));
    while i < n
        invariant
            n == entries@.len(),
            i <= n,
            view_entries(entries@).len() == n,
            forall|k: int|
                0 <= k < n ==> #[trigger] view_entries(entries@)[k] == (
                    entries@[k].0@,
                    view_value(entries@[k].1),
                ),
            entries_get(view_entries(entries@), key@) == entries_get(
                view_entries(entries@).subrange(i as int, n as int),
                key@,
            ),
        decreases n - i,
    {
        let ghost rest = view_entries(entries@).subrange(i as int, n as int);
        assert(rest[0] == view_entries(entries@)[i as int]);
        assert(rest.subrange(1, rest.len() as int) =~= view_entries(entries@).subrange(
            i + 1,
            n as int,
        ));
        assert(rest.len() > 0);
        if crate::text::str_eq(entries[i].0.as_str(), key) {
            let found: &JsonValue = &entries[i].1;
            assert(found@ == view_value(entries@[i as int].1));
            assert(opt_view(Some(found)) == Some(found@));
            return Some(found);
        }
        i = i + 1;
    }
    assert(view_entries(entries@).subrange(n as int, n as int).len() == 0);
    None
}

impl JsonValue {
    /// `Value::get(key)`.
    pub fn get<'a>(&'a self, key: &str) -> (r: Option<&'a JsonValue>)
        ensures
            opt_view(r) == self@.get(key@),
    {
        match self {
            JsonValue::Object(entries) => entries_lookup(entries, key),
            _ => None,
        }
    }

    /// `Value::as_str`.
    pub fn as_str<'a>(&'a self) -> (r: Option<&'a String>)
        ensures
            match r {
                Some(s) => self@.as_str() == Some(s@),
                None => self@.as_str() is None,
            },
    {
        match self {
            JsonValue::String(s) => Some(s),
            _ => None,
        }
    }

    /// `Value::as_i64`.
    pub fn as_i64(&self) -> (r: Option<i64>)
        ensures
            r == self@.as_i64(),
    {
        match self {
            JsonValue::Number(JsonNumber::PosInt(u)) => {
                if *u <= 9223372036854775807u64 {
                    Some(*u as i64)
                } else {
                    None
                }
            },
            JsonValue::Number(JsonNumber::NegInt(i)) => Some(*i),
            _ => None,
        }
    }

    /// `Value::as_array`.
    pub fn as_array<'a>(&'a self) -> (r: Option<&'a Vec<JsonValue>>)
        ensures
            match r {
                Some(a) => self@.as_array() == Some(view_values(a@)),
                None => self@.as_array() is None,
            },
    {
        match self {
            JsonValue::Array(a) => Some(a),
            _ => None,
        }
    }

    /// `Value::as_object`.
    pub fn as_object<'a>(&'a self) -> (r: Option<&'a Vec<(String, JsonValue)>>)
        ensures
            match r {
                Some(e) => self@.as_object() == Some(view_entries(e@)),
                None => self@.as_object() is None,
            },
    {
        match self {
            JsonValue::Object(e) => Some(e),
            _ => None,
        }
    }
}


// ---------------------------------------------------------------------
// Compact JSON text (what serde_json's `Display` for `Value` writes)
// ---------------------------------------------------------------------

/// The lower-case hexadecimal digit for `d` (0 through 15).
pub open spec fn hex_digit(d: int) -> char {
    if d < 10 {
        crate::text::digit_char(d)
    } else if d == 10 {
        'a'
    } else if d == 11 {
        'b'
    } else if d == 12 {
        'c'
    } else if d == 13 {
        'd'
    } else if d == 14 {
        'e'
    } else {
        'f'
    }
}

/// How one character of a string is written inside JSON quotes.
pub open spec fn escape_char(c: char) -> Seq<char> {
    if c == '"' {
        seq!['\\', '"']
    } else if c == '\\' {
        seq!['\\', '\\']
    } else if c == '\u{8}' {
        seq!['\\', 'b']
    } else if c == '\t' {
        seq!['\\', 't']
    } else if c == '\n' {
        seq!['\\', 'n']
    } else if c == '\u{c}' {
        seq!['\\', 'f']
    } else if c == '\r' {
        seq!['\\', 'r']
    } else if (c as u32) < 0x20 {
        seq!['\\', 'u', '0', '0', hex_digit(((c as u32) / 16) as int), hex_digit(((c as u32) % 16) as int)]
    } else {
        seq![c]
    }
}

/// The characters of `s`, each escaped.
pub open spec fn escaped(s: Seq<char>) -> Seq<char>
    decreases s.len(),
{
    if s.len() == 0 {
        Seq::empty()
    } else {
        escaped(s.drop_last()) + escape_char(s.last())
    }
}

/// A JSON string literal holding `s`.
pub open spec fn quoted(s: Seq<char>) -> Seq<char> {
    seq!['"'] + escaped(s) + seq!['"']
}

/// The text of a JSON number.
pub open spec fn number_text(n: NumberView) -> Seq<char> {
    match n {
        NumberView::PosInt(u) => nat_text(u as nat),
        NumberView::NegInt(i) => int_text(i as int),
        NumberView::Float(t) => t,
    }
}

/// The compact JSON text of a value.
pub open spec fn json_text(j: Json) -> Seq<char>
    decreases j, 0int,
{
    match j {
        Json::Null => seq!['n', 'u', 'l', 'l'],
        Json::Bool(b) => if b {
            seq!['t', 'r', 'u', 'e']
        } else {
            seq!['f', 'a', 'l', 's', 'e']
        },
        Json::Number(n) => number_text(n),
        Json::Str(s) => quoted(s),
        Json::Array(items) => seq!['['] + items_text(items) + seq![']'],
        Json::Object(e) => seq!['{'] + members_text(e) + seq!['}'],
    }
}

/// The elements of an array, written and separated by commas.
pub open spec fn items_text(items: Seq<Json>) -> Seq<char>
    decreases items, 1int,
{
    if items.len() == 0 {
        Seq::empty()
    } else if items.len() == 1 {
        json_text(items[0])
    } else {
        items_text(items.subrange(0, items.len() - 1)) + seq![','] + json_text(
            items[items.len() - 1],
        )
    }
}

/// The members of an object, written `"key":value` and separated by commas.
pub open spec fn members_text(e: Seq<(Seq<char>, Json)>) -> Seq<char>
    decreases e, 1int,
{
    if e.len() == 0 {
        Seq::empty()
    } else if e.len() == 1 {
        quoted(e[0].0) + seq![':'] + json_text(e[0].1)
    } else {
        members_text(e.subrange(0, e.len() - 1)) + seq![','] + quoted(e[e.len() - 1].0) + seq![
            ':',
        ] + json_text(e[e.len() - 1].1)
    }
}

fn hex_digit_exec(d: u32) -> (c: char)
    requires
        d < 16,
    ensures
        c == hex_digit(d as int),
{
    if d == 0 {
        '0'
    } else if d == 1 {
        '1'
    } else if d == 2 {
        '2'
    } else if d == 3 {
        '3'
    } else if d == 4 {
        '4'
    } else if d == 5 {
        '5'
    } else if d == 6 {
        '6'
    } else if d == 7 {
        '7'
    } else if d == 8 {
        '8'
    } else if d == 9 {
        '9'
    } else if d == 10 {
        'a'
    } else if d == 11 {
        'b'
    } else if d == 12 {
        'c'
    } else if d == 13 {
        'd'
    } else if d == 14 {
        'e'
    } else {
        'f'
    }
}

/// Appends `s` to `out` as a JSON string literal.
pub fn write_quoted(out: &mut String, s: &str)
    ensures
        final(out)@ == old(out)@ + quoted(s@),
{
    let ghost start = out@;
    push_char(out, '"');
    let v = crate::text::chars_of(s);
    let mut i: usize = 0;
    while i < v.len()
        invariant
            v@ == s@,
            i <= v@.len(),
            out@ == start + seq!['"'] + escaped(v@.subrange(0, i as int)),
        decreases v.len() - i,
    {
        let c = v[i];
        let ghost before = out@;
        if c == '"' {
            push_char(out, '\\');
            push_char(out, '"');
        } else if c == '\\' {
            push_char(out, '\\');
            push_char(out, '\\');
        } else if c == '\u{8}' {
            push_char(out, '\\');
            push_char(out, 'b');
        } else if c == '\t' {
            push_char(out, '\\');
            push_char(out, 't');
        } else if c == '\n' {
            push_char(out, '\\');
            push_char(out, 'n');
        } else if c == '\u{c}' {
            push_char(out, '\\');
            push_char(out, 'f');
        } else if c == '\r' {
            push_char(out, '\\');
            push_char(out, 'r');
        } else if (c as u32) < 0x20 {
            push_char(out, '\\');
            push_char(out, 'u');
            push_char(out, '0');
            push_char(out, '0');
            push_char(out, hex_digit_exec((c as u32) / 16));
            push_char(out, hex_digit_exec((c as u32) % 16));
        } else {
            push_char(out, c);
        }
        proof {
            assert(out@ =~= before + escape_char(c));
            assert(v@.subrange(0, i + 1).drop_last() =~= v@.subrange(0, i as int));
        }
        i = i + 1;
    }
    push_char(out, '"');
    proof {
        assert(v@.subrange(0, v@.len() as int) =~= s@);
        assert(out@ =~= start + quoted(s@));
    }
}

/// Appends the compact JSON text of `v` to `out`.
#[verifier::loop_isolation(false)]
pub fn write_json(out: &mut String, v: &JsonValue)
    ensures
        final(out)@ == old(out)@ + json_text(v@),
    decreases v,
{
    let ghost start = out@;
    match v {
        JsonValue::Null => {
            append_str(out, "null");
            proof {
                reveal_strlit("null");
                assert(out@ =~= start + json_text(v@));
            }
        },
        JsonValue::Bool(b) => {
            if *b {
                append_str(out, "true");
                proof {
                    reveal_strlit("true");
                    assert(out@ =~= start + json_text(v@));
                }
            } else {
                append_str(out, "false");
                proof {
                    reveal_strlit("false");
                    assert(out@ =~= start + json_text(v@));
                }
            }
        },
        JsonValue::Number(n) => {
            match n {
                JsonNumber::PosInt(u) => {
                    let t = u64_text(*u);
                    append_str(out, t.as_str());
                },
                JsonNumber::NegInt(i) => {
                    let t = i64_text(*i);
                    append_str(out, t.as_str());
                },
                JsonNumber::Float(t) => {
                    append_str(out, t.as_str());
                },
            }
        },
        JsonValue::String(s) => {
            write_quoted(out, s.as_str());
        },
        JsonValue::Array(items) => {
            proof {
                lemma_view_values(items@);
            }
            push_char(out, '[');
            let mut i: usize = 0;
            while i < items.len()
                invariant
                    i <= items@.len(),
                    view_values(items@).len() == items@.len(),
                    forall|k: int|
                        0 <= k < items@.len() ==> #[trigger] view_values(items@)[k] == view_value(
                            items@[k],
                        ),
                    out@ == start + seq!['['] + items_text(
                        view_values(items@).subrange(0, i as int),
                    ),
                decreases items.len() - i,
            {
                let ghost before = out@;
                if i > 0 {
                    push_char(out, ',');
                }
                proof {
                    assert(decreases_to!(items => items[i as int]));
                }
                write_json(out, &items[i]);
                proof {
                    let vs = view_values(items@);
                    let cur = vs.subrange(0, i + 1);
                    assert(cur.subrange(0, i as int) =~= vs.subrange(0, i as int));
                    assert(cur[i as int] == vs[i as int]);
                    if i == 0 {
                        assert(items_text(vs.subrange(0, 0)) =~= Seq::<char>::empty());
                        assert(out@ =~= start + seq!['['] + items_text(cur));
                    } else {
                        assert(out@ =~= start + seq!['['] + items_text(cur));
                    }
                }
                i = i + 1;
            }
            push_char(out, ']');
            proof {
                assert(view_values(items@).subrange(0, items@.len() as int) =~= view_values(
                    items@,
                ));
                assert(out@ =~= start + json_text(v@));
            }
        },
        JsonValue::Object(entries) => {
            proof {
                lemma_view_entries(entries@);
            }
            push_char(out, '{');
            let mut i: usize = 0;
            while i < entries.len()
                invariant
                    i <= entries@.len(),
                    view_entries(entries@).len() == entries@.len(),
                    forall|k: int|
                        0 <= k < entries@.len() ==> #[trigger] view_entries(entries@)[k] == (
                            entries@[k].0@,
                            view_value(entries@[k].1),
                        ),
                    out@ == start + seq!['{'] + members_text(
                        view_entries(entries@).subrange(0, i as int),
                    ),
                decreases entries.len() - i,
            {
                let ghost before = out@;
                if i > 0 {
                    push_char(out, ',');
                }
                write_quoted(out, entries[i].0.as_str());
                push_char(out, ':');
                proof {
                    assert(decreases_to!(entries => entries[i as int]));
                }
                write_json(out, &entries[i].1);
                proof {
                    let es = view_entries(entries@);
                    let cur = es.subrange(0, i + 1);
                    assert(cur.subrange(0, i as int) =~= es.subrange(0, i as int));
                    assert(cur[i as int] == es[i as int]);
                    if i == 0 {
                        assert(out@ =~= start + seq!['{'] + members_text(cur));
                    } else {
                        assert(out@ =~= start + seq!['{'] + members_text(cur));
                    }
                }
                i = i + 1;
            }
            push_char(out, '}');
            proof {
                assert(view_entries(entries@).subrange(0, entries@.len() as int) =~= view_entries(
                    entries@,
                ));
                assert(out@ =~= start + json_text(v@));
            }
        },
    }
}

/// The compact JSON text of `v` (what `v.to_string()` gives for a serde_json
/// value).
pub fn to_json_string(v: &JsonValue) -> (s: String)
    ensures
        s@ == json_text(v@),
{
    let mut s = String::new();
    write_json(&mut s, v);
    assert(s@ =~= json_text(v@));
    s
}

} // verus!
