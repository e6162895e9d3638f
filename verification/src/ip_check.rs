//! Whether a text is an IP address, through the `ipaddress` crate, and the
//! one kind of text on which that crate's check panics.
use vstd::prelude::*;
use crate::text::{chars_of, is_ws, trim, trim_end_len, trim_start_len};

verus! {

/// Whether `ipaddress::IPAddress::is_valid` accepts `s` as an IPv4 or IPv6
/// address.
pub uninterp spec fn ip_address_valid(s: Seq<char>) -> bool;

/// The state of a scan over colon-separated hexadecimal groups.
pub enum GroupScan {
    /// At the start of a group.
    Start,
    /// After a leading `+` of a group.
    Plus,
    /// Inside the digits of a group, with their value (capped at 65536).
    Digits(nat),
    /// A group that `u64::from_str_radix(_, 16)` rejects or that is 65536 or
    /// more has been seen.
    Bad,
}

pub open spec fn hex_value(c: char) -> Option<nat> {
    if '0' <= c && c <= '9' {
        Some((c as int - '0' as int) as nat)
    } else if 'a' <= c && c <= 'f' {
        Some((c as int - 'a' as int + 10) as nat)
    } else if 'A' <= c && c <= 'F' {
        Some((c as int - 'A' as int + 10) as nat)
    } else {
        None
    }
}

/// One step of the scan.
pub open spec fn group_step(st: GroupScan, c: char) -> GroupScan {
    match st {
        GroupScan::Bad => GroupScan::Bad,
        GroupScan::Start => if c == '+' {
            GroupScan::Plus
        } else {
            match hex_value(c) {
                Some(d) => GroupScan::Digits(d),
                None => GroupScan::Bad,
            }
        },
        GroupScan::Plus => match hex_value(c) {
            Some(d) => GroupScan::Digits(d),
            None => GroupScan::Bad,
        },
        GroupScan::Digits(v) => if c == ':' {
            if v < 65536 {
                GroupScan::Start
            } else {
                GroupScan::Bad
            }
        } else {
            match hex_value(c) {
                Some(d) => GroupScan::Digits(
                    if v * 16 + d < 65536 {
                        v * 16 + d
                    } else {
                        65536
                    },
                ),
                None => GroupScan::Bad,
            }
        },
    }
}

/// The state after scanning `p`.
pub open spec fn group_scan(p: Seq<char>) -> GroupScan
    decreases p.len(),
{
    if p.len() == 0 {
        GroupScan::Start
    } else {
        group_step(group_scan(p.drop_last()), p.last())
    }
}

/// Whether every `:`-separated group of `p` is read by
/// `u64::from_str_radix(_, 16)` (an optional `+`, then hexadecimal digits)
/// as a number below 65536.
pub open spec fn hex_groups_ok(p: Seq<char>) -> bool {
    match group_scan(p) {
        GroupScan::Digits(v) => v < 65536,
        _ => false,
    }
}

/// The number of `:` in `p`.
pub open spec fn colon_count(p: Seq<char>) -> nat
    decreases p.len(),
{
    if p.len() == 0 {
        0
    } else {
        colon_count(p.drop_last()) + if p.last() == ':' {
            1nat
        } else {
            0nat
        }
    }
}

/// Whether `::` occurs at `i` in `t`.
pub open spec fn dcolon_at(t: Seq<char>, i: int) -> bool {
    0 <= i && i + 1 < t.len() && t[i] == ':' && t[i + 1] == ':'
}

/// Whether `ipaddress::IPAddress::is_valid(s)` panics. It does where the
/// trimmed text has exactly one `::`, the trimmed part before it is a list
/// of at least nine valid groups, and the trimmed part after it is empty or
/// a list of valid groups: the crate then computes `128 - 16 * groups`, which
/// overflows. (A text with a `:` is never a valid IPv4 address, so the IPv6
/// check is reached.)
pub open spec fn ip_check_panics(s: Seq<char>) -> bool {
    let t = trim(s);
    exists|i: int|
        #![trigger dcolon_at(t, i)]
        dcolon_at(t, i) && (forall|j: int| 0 <= j < i ==> !dcolon_at(t, j)) && (forall|j: int|
            i + 2 <= j ==> !dcolon_at(t, j)) && {
            let pre = trim(t.subrange(0, i));
            let post = trim(t.subrange(i + 2, t.len() as int));
            &&& pre.len() > 0
            &&& colon_count(pre) >= 8
            &&& hex_groups_ok(pre)
            &&& (post.len() == 0 || hex_groups_ok(post))
        }
}

/// `ipaddress::IPAddress::is_valid`: whether `s` is an IPv4 or IPv6 address.
/// The crate panics on the texts that `ip_check_panics` describes, which the
/// `requires` leaves out.
#[verifier::external_body]
pub(crate) fn ip_is_valid(s: &str) -> (b: bool)
    requires
        !ip_check_panics(s@),
    ensures
        b == ip_address_valid(s@),
{
    ipaddress::IPAddress::is_valid(s)
}

fn hex_value_exec(c: char) -> (r: Option<u32>)
    ensures
        match r {
            Some(d) => hex_value(c) == Some(d as nat) && d < 16,
            None => hex_value(c) is None,
        },
{
    if '0' <= c && c <= '9' {
        Some((c as u32) - ('0' as u32))
    } else if 'a' <= c && c <= 'f' {
        Some((c as u32) - ('a' as u32) + 10)
    } else if 'A' <= c && c <= 'F' {
        Some((c as u32) - ('A' as u32) + 10)
    } else {
        None
    }
}

/// Scans `v[from..to]`: whether its groups are valid, and its number of `:`.
fn scan_groups(v: &Vec<char>, from: usize, to: usize) -> (r: (bool, u64))
    requires
        from <= to <= v@.len(),
    ensures
        r.0 == hex_groups_ok(v@.subrange(from as int, to as int)),
        r.1 == colon_count(v@.subrange(from as int, to as int)),
{
    // 0: start, 1: after '+', 2: digits, 3: bad
    let mut state: u8 = 0;
    let mut value: u32 = 0;
    let mut colons: u64 = 0;
    let mut k = from;
    while k < to
        invariant
            from <= k <= to <= v@.len(),
            colons == colon_count(v@.subrange(from as int, k as int)),
            colons <= k - from,
            value <= 65536,
            state <= 3,
            group_scan(v@.subrange(from as int, k as int)) == if state == 0 {
                GroupScan::Start
            } else if state == 1 {
                GroupScan::Plus
            } else if state == 2 {
                GroupScan::Digits(value as nat)
            } else {
                GroupScan::Bad
            },
        decreases to - k,
    {
        let c = v[k];
        let ghost pre = v@.subrange(from as int, k as int);
        assert(v@.subrange(from as int, k + 1).drop_last() =~= pre);
        assert(v@.subrange(from as int, k + 1).last() == c);
        if state == 3 {
        } else if state == 0 {
            if c == '+' {
                state = 1;
            } else {
                match hex_value_exec(c) {
                    Some(d) => {
                        state = 2;
                        value = d;
                    },
                    None => {
                        state = 3;
                    },
                }
            }
        } else if state == 1 {
            match hex_value_exec(c) {
                Some(d) => {
                    state = 2;
                    value = d;
                },
                None => {
                    state = 3;
                },
            }
        } else {
            if c == ':' {
                if value < 65536 {
                    state = 0;
                } else {
                    state = 3;
                }
            } else {
                match hex_value_exec(c) {
                    Some(d) => {
                        if value * 16 + d < 65536 {
                            value = value * 16 + d;
                        } else {
                            value = 65536;
                        }
                    },
                    None => {
                        state = 3;
                    },
                }
            }
        }
        if c == ':' {
            colons = colons + 1;
        }
        k = k + 1;
    }
    (state == 2 && value < 65536, colons)
}

/// Whether `::` occurs at `j` in `v[..to]`.
pub open spec fn dcolon_in(v: Seq<char>, j: int, to: int) -> bool {
    0 <= j && j + 1 < to && v[j] == ':' && v[j + 1] == ':'
}

proof fn lemma_dcolon_sub(v: Seq<char>, ts: int, te: int, j: int)
    requires
        0 <= ts <= te <= v.len(),
    ensures
        dcolon_at(v.subrange(ts, te), j) <==> (0 <= j && dcolon_in(v, ts + j, te)),
{
    let t = v.subrange(ts, te);
    if 0 <= j && j + 1 < t.len() {
        assert(t[j] == v[ts + j]);
        assert(t[j + 1] == v[ts + j + 1]);
    }
}

/// The index of the first `::` in `v[from..to]`, or `to` when there is none.
fn find_dcolon(v: &Vec<char>, from: usize, to: usize) -> (r: usize)
    requires
        from <= to <= v@.len(),
    ensures
        from <= r <= to,
        r < to ==> dcolon_in(v@, r as int, to as int),
        forall|j: int| from <= j < r ==> !dcolon_in(v@, j, to as int),
        r == to ==> forall|j: int| from <= j ==> !dcolon_in(v@, j, to as int),
{
    let mut i = from;
    while i < to && !(i + 1 < to && v[i] == ':' && v[i + 1] == ':')
        invariant
            from <= i <= to <= v@.len(),
            forall|j: int| from <= j < i ==> !dcolon_in(v@, j, to as int),
        decreases to - i,
    {
        i = i + 1;
    }
    if i < to && !(i + 1 < to) {
        // a single character is left, which starts no "::"
        assert(!dcolon_in(v@, i as int, to as int));
        return to;
    }
    i
}

/// Whether `ip_is_valid` would panic on `s` (see `ip_check_panics`).
pub fn ip_check_panics_exec(s: &str) -> (b: bool)
    ensures
        b == ip_check_panics(s@),
{
    let v = chars_of(s);
    // t = trim(s) = v[ts..te]
    let te = trim_end_len(&v);
    let ts = trim_start_len(&v, te);
    let ghost t = v@.subrange(ts as int, te as int);
    assert(t == trim(s@));
    assert forall|j: int| #[trigger]
        dcolon_at(t, j) <==> (0 <= j && dcolon_in(v@, ts + j, te as int)) by {
        lemma_dcolon_sub(v@, ts as int, te as int, j);
    }
    let i = find_dcolon(&v, ts, te);
    if i == te {
        assert forall|j: int| !#[trigger] dcolon_at(t, j) by {
            if 0 <= j {
                assert(!dcolon_in(v@, ts + j, te as int));
            }
        }
        return false;
    }
    let w: usize = i - ts;
    assert(dcolon_at(t, w as int));
    assert(forall|j: int| 0 <= j < w ==> !dcolon_at(t, j));
    let k = find_dcolon(&v, i + 2, te);
    if k < te {
        proof {
            assert(dcolon_at(t, k - ts));
            assert forall|i2: int|
                dcolon_at(t, i2) && (forall|j: int| 0 <= j < i2 ==> !dcolon_at(t, j))
                    implies !(forall|j: int| i2 + 2 <= j ==> !dcolon_at(t, j)) by {
                if i2 < w {
                    assert(dcolon_at(t, w as int));
                } else if i2 > w {
                    assert(!dcolon_at(t, w as int));
                } else {
                    assert(dcolon_at(t, k - ts));
                }
            }
        }
        return false;
    }
    assert forall|j: int| w + 2 <= j implies !dcolon_at(t, j) by {
        assert(!dcolon_in(v@, ts + j, te as int));
    }
    // pre = trim(v[ts..i]), post = trim(v[i+2..te])
    let pre_sub = string_piece(&v, ts, i);
    let pre_chars = chars_of(pre_sub.as_str());
    let pe = trim_end_len(&pre_chars);
    let ps = trim_start_len(&pre_chars, pe);
    let post_sub = string_piece(&v, i + 2, te);
    let post_chars = chars_of(post_sub.as_str());
    let qe = trim_end_len(&post_chars);
    let qs = trim_start_len(&post_chars, qe);
    proof {
        assert(t.subrange(0, w as int) =~= pre_chars@);
        assert(t.subrange(w + 2, t.len() as int) =~= post_chars@);
    }
    let (pre_ok, pre_colons) = scan_groups(&pre_chars, ps, pe);
    let (post_ok, _) = scan_groups(&post_chars, qs, qe);
    let r = pe > ps && pre_colons >= 8 && pre_ok && (qe == qs || post_ok);
    proof {
        let pre = trim(t.subrange(0, w as int));
        let post = trim(t.subrange(w + 2, t.len() as int));
        assert(pre == pre_chars@.subrange(ps as int, pe as int));
        assert(post == post_chars@.subrange(qs as int, qe as int));
        if !r {
            assert forall|i2: int|
                #![trigger dcolon_at(t, i2)]
                dcolon_at(t, i2) && (forall|j: int| 0 <= j < i2 ==> !dcolon_at(t, j)) && (forall|
                    j: int,
                | i2 + 2 <= j ==> !dcolon_at(t, j)) implies !({
                let pre2 = trim(t.subrange(0, i2));
                let post2 = trim(t.subrange(i2 + 2, t.len() as int));
                &&& pre2.len() > 0
                &&& colon_count(pre2) >= 8
                &&& hex_groups_ok(pre2)
                &&& (post2.len() == 0 || hex_groups_ok(post2))
            }) by {
                if i2 < w {
                    assert(dcolon_at(t, w as int));
                } else if i2 > w {
                    assert(!dcolon_at(t, w as int));
                }
            }
        }
    }
    r
}

/// The characters `v[from..to]` as a string.
fn string_piece(v: &Vec<char>, from: usize, to: usize) -> (s: String)
    requires
        from <= to <= v@.len(),
    ensures
        s@ == v@.subrange(from as int, to as int),
{
    crate::text::string_of_range(v, from, to)
}

} // verus!
