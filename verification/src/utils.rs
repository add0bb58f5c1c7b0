//! General helpers.

use vstd::prelude::*;
use vstd::utf8::encode_utf8;

use crate::text::{
    before_char, char_vec, first_index, index_of_char, is_alnum, is_alphanumeric, owned,
    utf8_len_exceeds,
};

verus! {

/// A character a URL scheme may hold after its first letter.
pub open spec fn scheme_char(c: char) -> bool {
    ('a' <= c && c <= 'z') || ('A' <= c && c <= 'Z') || ('0' <= c && c <= '9') || c == '+' || c
        == '-' || c == '.'
}

/// The length of the `scheme://` prefix of `s` (a letter, then letters,
/// digits, `+`, `-` or `.`, then `://`), or 0 when `s` has none.
pub open spec fn scheme_prefix_len(s: Seq<char>) -> int {
    let k = first_index(s, ':');
    if k >= 1 && k + 3 <= s.len() && s[k + 1] == '/' && s[k + 2] == '/' && (('a' <= s[0] && s[0]
        <= 'z') || ('A' <= s[0] && s[0] <= 'Z')) && forall|i: int|
        0 <= i < k ==> scheme_char(#[trigger] s[i]) {
        k + 3
    } else {
        0
    }
}

/// The host candidate of a URL: its `scheme://` prefix removed, then
/// everything from the first `/`, then everything from the first `:`.
pub open spec fn host_candidate(url: Seq<char>) -> Seq<char> {
    before_char(before_char(url.skip(scheme_prefix_len(url)), '/'), ':')
}

/// A character that a host name may hold.
pub open spec fn host_char(c: char) -> bool {
    is_alnum(c) || c == '.' || c == '-'
}

/// The host name of a URL, if its candidate is non-empty, at most 253 bytes
/// long in UTF-8, made of alphanumerics, `.` and `-` only, and does not
/// begin with `-`.
pub open spec fn hostname_of(url: Seq<char>) -> Option<Seq<char>> {
    let d = host_candidate(url);
    if d.len() == 0 || encode_utf8(d).len() > 253 || d[0] == '-' || exists|i: int|
        0 <= i < d.len() && !host_char(#[trigger] d[i]) {
        None
    } else {
        Some(d)
    }
}

/// The length of the `scheme://` prefix of `v[from..]`, or 0.
fn scheme_prefix_at(v: &Vec<char>, from: usize) -> (k: usize)
    requires
        from <= v@.len(),
    ensures
        k == scheme_prefix_len(v@.skip(from as int)),
        from + k <= v@.len(),
{
    let n = v.len();
    let ghost t = v@.skip(from as int);
    assert(t =~= v@.subrange(from as int, n as int));
    let c = index_of_char(v, from, n, ':');
    if c == from || n - c < 3 || v[c + 1] != '/' || v[c + 2] != '/' {
        return 0;
    }
    let f = v[from];
    if !(('a' <= f && f <= 'z') || ('A' <= f && f <= 'Z')) {
        assert(t[0] == f);
        return 0;
    }
    let mut i = from;
    while i < c
        invariant
            from <= i <= c,
            c < n,
            n == v@.len(),
            t == v@.skip(from as int),
            c - from == first_index(t, ':'),
            forall|j: int| 0 <= j < i - from ==> scheme_char(#[trigger] t[j]),
        decreases c - i,
    {
        let x = v[i];
        if !(('a' <= x && x <= 'z') || ('A' <= x && x <= 'Z') || ('0' <= x && x <= '9') || x == '+'
            || x == '-' || x == '.') {
            assert(t[i - from] == x);
            return 0;
        }
        i += 1;
    }
    c - from + 3
}

/// Extracts the bare host name or IP from a URL, whatever its scheme: the
/// text after the `scheme://` prefix, if any, up to the first `/` and `:`.
///
/// For example `"https://www.bilibili.com/video/xxx"` gives `Some("www.bilibili.com")`.
pub fn extract_hostname(url: &str) -> (r: Option<String>)
    ensures
        match (r, hostname_of(url@)) {
            (Some(h), Some(d)) => h@ == d,
            (None, None) => true,
            _ => false,
        },
{
    let v = char_vec(url);
    assert(v@.skip(0) =~= v@);
    let b = scheme_prefix_at(&v, 0);
    let n = v.len();
    let ghost t = v@.skip(b as int);
    assert(t =~= v@.subrange(b as int, n as int));
    let q = index_of_char(&v, b, n, '/');
    assert(before_char(t, '/') =~= v@.subrange(b as int, q as int));
    let e = index_of_char(&v, b, q, ':');
    assert(before_char(v@.subrange(b as int, q as int), ':') =~= v@.subrange(b as int, e as int));
    let domain = url.substring_char(b, e);
    assert(domain@ == host_candidate(url@));
    if b == e || utf8_len_exceeds(&v, b, e, 253) {
        return None;
    }
    if v[b] == '-' {
        assert(domain@[0] == v@[b as int]);
        return None;
    }
    let mut i = b;
    while i < e
        invariant
            b <= i <= e <= v@.len(),
            v@ == url@,
            domain@ == v@.subrange(b as int, e as int),
            domain@ == host_candidate(url@),
            b < e,
            encode_utf8(domain@).len() <= 253,
            domain@[0] != '-',
            forall|j: int| 0 <= j < i - b ==> host_char(#[trigger] domain@[j]),
        decreases e - i,
    {
        let c = v[i];
        if !is_alphanumeric(c) && c != '.' && c != '-' {
            assert(domain@[i - b] == c);
            return None;
        }
        i += 1;
    }
    Some(owned(domain))
}

/// An extracted host name is never empty, is at most 253 bytes long in
/// UTF-8, holds only alphanumerics, `.` and `-` and does not begin with `-`:
/// no shell metacharacter, space, path or option can reach the ping command
/// through it.
pub proof fn law_hostname_is_safe(url: Seq<char>)
    ensures
        hostname_of(url) matches Some(h) ==> {
            &&& h.len() > 0
            &&& encode_utf8(h).len() <= 253
            &&& h[0] != '-'
            &&& forall|i: int| 0 <= i < h.len() ==> host_char(#[trigger] h[i])
        },
{
}

} // verus!
