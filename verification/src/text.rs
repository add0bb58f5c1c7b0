//! Character-level text helpers shared by the other modules.
//!
//! Strings are modelled by their view, a `Seq<char>`. The helpers here read
//! a `&str` once into a `Vec<char>` and work on indices into it.

use vstd::prelude::*;
use vstd::utf8::{encode_scalar, encode_utf8};

verus! {

// ---------------------------------------------------------------------------
// Character classes that std computes from the Unicode tables
// ---------------------------------------------------------------------------

/// The Unicode `Alphabetic`-or-`Numeric` property of a character, as
/// `char::is_alphanumeric` reports it.
pub uninterp spec fn unicode_alphanumeric(c: char) -> bool;

/// The Unicode lowercase mapping of a whole string, as `str::to_lowercase`
/// computes it.
pub uninterp spec fn unicode_lowercase(s: Seq<char>) -> Seq<char>;

/// Whitespace in the sense of `char::is_whitespace`: the characters with
/// the Unicode `White_Space` property, which are TAB, LF, VT, FF, CR and
/// SPACE, U+0085, U+00A0, U+1680, U+2000 to U+200A, U+2028, U+2029, U+202F,
/// U+205F and U+3000.
pub open spec fn is_ws(c: char) -> bool {
    let u = c as u32;
    ||| u == 32
    ||| 9 <= u && u <= 13
    ||| u == 0x85
    ||| u == 0xa0
    ||| u == 0x1680
    ||| 0x2000 <= u && u <= 0x200a
    ||| u == 0x2028
    ||| u == 0x2029
    ||| u == 0x202f
    ||| u == 0x205f
    ||| u == 0x3000
}

/// Alphanumeric in the sense of `char::is_alphanumeric`. On ASCII the property
/// is held by the digits and the Latin letters only.
pub open spec fn is_alnum(c: char) -> bool {
    if (c as u32) < 128 {
        is_ascii_digit(c) || ('a' <= c && c <= 'z') || ('A' <= c && c <= 'Z')
    } else {
        unicode_alphanumeric(c)
    }
}

/// An ASCII decimal digit.
pub open spec fn is_ascii_digit(c: char) -> bool {
    '0' <= c && c <= '9'
}

/// `char::is_whitespace`: whether `c` has the Unicode `White_Space` property.
/// The contract claims the std result is that property, written out as the
/// list of its code points in `is_ws`.
#[verifier::external_body]
pub(crate) fn is_whitespace(c: char) -> (b: bool)
    ensures
        b == is_ws(c),
{
    c.is_whitespace()
}

/// `char::is_alphanumeric`: whether `c` is alphabetic or numeric in Unicode.
/// The contract claims the std result is that property, and that among ASCII
/// characters exactly the digits and the Latin letters have it.
#[verifier::external_body]
pub(crate) fn is_alphanumeric(c: char) -> (b: bool)
    ensures
        (c as u32) >= 128 ==> b == unicode_alphanumeric(c),
        b == is_alnum(c),
{
    c.is_alphanumeric()
}

/// Every character of `s` is ASCII.
pub open spec fn all_ascii(s: Seq<char>) -> bool {
    forall|i: int| 0 <= i < s.len() ==> (#[trigger] s[i] as u32) < 128
}

/// The lowercase form of `s` as `str::to_lowercase` gives it: on ASCII text
/// the ASCII letters lowered one by one, on other text the Unicode mapping.
pub open spec fn lowercase_of(s: Seq<char>) -> Seq<char> {
    if all_ascii(s) {
        ascii_lowercase(s)
    } else {
        unicode_lowercase(s)
    }
}

/// `str::to_lowercase`: the Unicode lowercase mapping of `s`. The contract
/// names the result and claims that on ASCII text it lowers `A`-`Z` and keeps
/// every other character, as `str::to_ascii_lowercase` does; what the mapping
/// does to other characters is not stated.
#[verifier::external_body]
pub(crate) fn to_lowercase(s: &str) -> (r: String)
    ensures
        r@ == unicode_lowercase(s@),
        r@ == lowercase_of(s@),
{
    s.to_lowercase()
}

/// `String::push`: appends one character.
#[verifier::external_body]
pub(crate) fn push_char(s: &mut String, c: char)
    ensures
        final(s)@ == old(s)@.push(c),
{
    s.push(c);
}

/// The view of an optional string.
pub open spec fn opt_text(o: Option<String>) -> Option<Seq<char>> {
    match o {
        Some(s) => Some(s@),
        None => None,
    }
}

// ---------------------------------------------------------------------------
// Reading a string
// ---------------------------------------------------------------------------

/// The characters of `s`, one per element.
pub fn char_vec(s: &str) -> (v: Vec<char>)
    ensures
        v@ == s@,
{
    let mut v: Vec<char> = Vec::new();
    for c in it: s.chars()
        invariant
            v@ == it.seq().take(it.index() as int),
            it.seq() == s@,
    {
        v.push(c);
    }
    v
}

/// A new `String` holding the characters of `s`.
pub fn owned(s: &str) -> (r: String)
    ensures
        r@ == s@,
{
    String::from_str(s)
}

/// `a` followed by `b`, as a new `String`.
pub fn concat2(a: &str, b: &str) -> (r: String)
    ensures
        r@ == a@ + b@,
{
    let mut r = String::from_str(a);
    r.append(b);
    r
}

/// `a`, `b` and `c` in a row, as a new `String`.
pub fn concat3(a: &str, b: &str, c: &str) -> (r: String)
    ensures
        r@ == a@ + b@ + c@,
{
    let mut r = String::from_str(a);
    r.append(b);
    r.append(c);
    r
}

/// Whether two strings hold the same characters.
pub fn same_text(a: &str, b: &str) -> (r: bool)
    ensures
        r == (a@ == b@),
{
    let va = char_vec(a);
    let vb = char_vec(b);
    if va.len() != vb.len() {
        return false;
    }
    let n = va.len();
    let mut i: usize = 0;
    while i < n
        invariant
            n == va@.len(),
            n == vb@.len(),
            va@ == a@,
            vb@ == b@,
            i <= n,
            forall|j: int| 0 <= j < i ==> va@[j] == vb@[j],
        decreases n - i,
    {
        if va[i] != vb[i] {
            assert(va@[i as int] != vb@[i as int]);
            return false;
        }
        i += 1;
    }
    assert(va@ =~= vb@);
    true
}

// ---------------------------------------------------------------------------
// Trimming
// ---------------------------------------------------------------------------

/// `s` without its leading whitespace.
pub open spec fn trim_start(s: Seq<char>) -> Seq<char>
    decreases s.len(),
{
    if s.len() > 0 && is_ws(s[0]) {
        trim_start(s.drop_first())
    } else {
        s
    }
}

/// `s` without its trailing whitespace.
pub open spec fn trim_end(s: Seq<char>) -> Seq<char>
    decreases s.len(),
{
    if s.len() > 0 && is_ws(s.last()) {
        trim_end(s.drop_last())
    } else {
        s
    }
}

/// `s` without leading and trailing whitespace, as `str::trim` gives it.
pub open spec fn trimmed(s: Seq<char>) -> Seq<char> {
    trim_end(trim_start(s))
}

/// Trimming the end leaves a prefix of the input.
pub proof fn lemma_trim_end_prefix(s: Seq<char>)
    ensures
        exists|k: int| 0 <= k <= s.len() && trim_end(s) == s.take(k),
    decreases s.len(),
{
    if s.len() > 0 && is_ws(s.last()) {
        lemma_trim_end_prefix(s.drop_last());
        let k = choose|k: int| 0 <= k <= s.drop_last().len() && trim_end(s.drop_last()) == s.drop_last().take(k);
        assert(s.drop_last().take(k) =~= s.take(k));
    } else {
        assert(s.take(s.len() as int) =~= s);
    }
}

/// A trimmed string neither starts nor ends with whitespace.
pub proof fn lemma_trimmed_edges(s: Seq<char>)
    ensures
        trimmed(s).len() > 0 ==> !is_ws(trimmed(s)[0]) && !is_ws(trimmed(s).last()),
        trim_start(trim_start(s)) == trim_start(s),
        trim_end(trim_end(s)) == trim_end(s),
    decreases s.len(),
{
    if s.len() > 0 && is_ws(s[0]) {
        lemma_trimmed_edges(s.drop_first());
    }
    if s.len() > 0 && is_ws(s.last()) {
        lemma_trimmed_edges(s.drop_last());
    }
    let t = trim_start(s);
    lemma_trim_end_prefix(t);
    lemma_trim_start_first(s);
    lemma_trim_end_last(t);
}

/// The first character left after trimming the start is not whitespace.
proof fn lemma_trim_start_first(s: Seq<char>)
    ensures
        trim_start(s).len() > 0 ==> !is_ws(trim_start(s)[0]),
    decreases s.len(),
{
    if s.len() > 0 && is_ws(s[0]) {
        lemma_trim_start_first(s.drop_first());
    }
}

/// The last character left after trimming the end is not whitespace.
proof fn lemma_trim_end_last(s: Seq<char>)
    ensures
        trim_end(s).len() > 0 ==> !is_ws(trim_end(s).last()),
    decreases s.len(),
{
    if s.len() > 0 && is_ws(s.last()) {
        lemma_trim_end_last(s.drop_last());
    }
}

/// Trimming the start of a string with no leading whitespace changes nothing.
proof fn lemma_trim_start_stable(s: Seq<char>)
    requires
        s.len() > 0 ==> !is_ws(s[0]),
    ensures
        trim_start(s) == s,
{
}

/// Trimming twice is trimming once.
pub proof fn lemma_trimmed_idempotent(s: Seq<char>)
    ensures
        trimmed(trimmed(s)) == trimmed(s),
{
    let t = trimmed(s);
    lemma_trimmed_edges(s);
    lemma_trim_start_stable(t);
    lemma_trimmed_edges(trim_start(s));
}

/// `s` with leading and trailing whitespace removed (`str::trim`).
pub fn trim(s: &str) -> (r: &str)
    ensures
        r@ == trimmed(s@),
{
    let v = char_vec(s);
    let n = v.len();
    let mut i: usize = 0;
    assert(s@.skip(0) =~= s@);
    while i < n && is_whitespace(v[i])
        invariant
            i <= n,
            n == v@.len(),
            v@ == s@,
            trim_start(s@) == trim_start(s@.skip(i as int)),
        decreases n - i,
    {
        assert(s@.skip(i as int).drop_first() =~= s@.skip(i + 1));
        i += 1;
    }
    let ghost t = s@.skip(i as int);
    assert(trim_start(t) == t);
    let mut j: usize = n;
    while j > i && is_whitespace(v[j - 1])
        invariant
            i <= j <= n,
            n == v@.len(),
            v@ == s@,
            t == s@.skip(i as int),
            trim_end(t) == trim_end(s@.subrange(i as int, j as int)),
        decreases j,
    {
        assert(s@.subrange(i as int, j as int).drop_last() =~= s@.subrange(i as int, j - 1));
        j -= 1;
    }
    assert(t =~= s@.subrange(i as int, n as int));
    s.substring_char(i, j)
}

// ---------------------------------------------------------------------------
// Matching
// ---------------------------------------------------------------------------

/// `p` occurs in `s` starting at index `i`.
pub open spec fn occurs_at(s: Seq<char>, p: Seq<char>, i: int) -> bool {
    0 <= i && i + p.len() <= s.len() && s.subrange(i, i + p.len()) == p
}

/// `p` occurs somewhere in `s` (`str::contains`).
pub open spec fn contains_seq(s: Seq<char>, p: Seq<char>) -> bool {
    exists|i: int| occurs_at(s, p, i)
}

/// `s` starts with `p` (`str::starts_with`).
pub open spec fn starts_with(s: Seq<char>, p: Seq<char>) -> bool {
    occurs_at(s, p, 0)
}

/// Whether `p` occurs in `v` at index `i`.
pub fn matches_at(v: &Vec<char>, p: &Vec<char>, i: usize) -> (b: bool)
    ensures
        b == occurs_at(v@, p@, i as int),
{
    if p.len() > v.len() || i > v.len() - p.len() {
        return false;
    }
    let m = p.len();
    let mut k: usize = 0;
    while k < m
        invariant
            m == p@.len(),
            i + m <= v@.len(),
            v@.len() <= usize::MAX,
            k <= m,
            forall|j: int| 0 <= j < k ==> v@[i + j] == p@[j],
        decreases m - k,
    {
        if v[i + k] != p[k] {
            assert(v@.subrange(i as int, i + m)[k as int] != p@[k as int]);
            return false;
        }
        k += 1;
    }
    assert(v@.subrange(i as int, i + m) =~= p@);
    true
}

/// The first index at or after `from` where `p` occurs in `v`, if any.
pub fn find_from(v: &Vec<char>, p: &Vec<char>, from: usize) -> (r: Option<usize>)
    ensures
        match r {
            Some(k) => from <= k && occurs_at(v@, p@, k as int) && forall|j: int|
                from <= j < k ==> !occurs_at(v@, p@, j),
            None => forall|j: int| from <= j ==> !occurs_at(v@, p@, j),
        },
{
    if p.len() > v.len() || from > v.len() - p.len() {
        return None;
    }
    let last = v.len() - p.len();
    let mut i = from;
    loop
        invariant
            from <= i <= last,
            last + p@.len() == v@.len(),
            forall|j: int| from <= j < i ==> !occurs_at(v@, p@, j),
        decreases last - i,
    {
        if matches_at(v, p, i) {
            return Some(i);
        }
        if i == last {
            return None;
        }
        i += 1;
    }
}

/// Whether `p` occurs anywhere in `v`.
pub fn contains_chars(v: &Vec<char>, p: &Vec<char>) -> (b: bool)
    ensures
        b == contains_seq(v@, p@),
{
    match find_from(v, p, 0) {
        Some(k) => true,
        None => {
            assert forall|j: int| !occurs_at(v@, p@, j) by {
                if 0 <= j {
                }
            }
            false
        },
    }
}

// ---------------------------------------------------------------------------
// Splitting
// ---------------------------------------------------------------------------

/// The index of the first `c` in `s`, or `s.len()` when there is none.
pub open spec fn first_index(s: Seq<char>, c: char) -> int
    decreases s.len(),
{
    if s.len() == 0 {
        0
    } else if s[0] == c {
        0
    } else {
        1 + first_index(s.drop_first(), c)
    }
}

/// The part of `s` before its first `c`: what `s.split(c).next()` yields.
pub open spec fn before_char(s: Seq<char>, c: char) -> Seq<char> {
    s.take(first_index(s, c))
}

/// The index of the first `c` in `v[lo..hi]`, or `hi` when there is none.
pub fn index_of_char(v: &Vec<char>, lo: usize, hi: usize, c: char) -> (k: usize)
    requires
        lo <= hi <= v@.len(),
    ensures
        lo <= k <= hi,
        k - lo == first_index(v@.subrange(lo as int, hi as int), c),
{
    let mut k = lo;
    while k < hi && v[k] != c
        invariant
            lo <= k <= hi,
            hi <= v@.len(),
            first_index(v@.subrange(lo as int, hi as int), c) == (k - lo) + first_index(
                v@.subrange(k as int, hi as int),
                c,
            ),
        decreases hi - k,
    {
        assert(v@.subrange(k as int, hi as int).drop_first() =~= v@.subrange(k + 1, hi as int));
        k += 1;
    }
    k
}


// ---------------------------------------------------------------------------
// UTF-8 length
// ---------------------------------------------------------------------------

/// The UTF-8 encoding of a concatenation is the concatenation of the encodings.
pub proof fn lemma_encode_utf8_concat(a: Seq<char>, b: Seq<char>)
    ensures
        encode_utf8(a + b) == encode_utf8(a) + encode_utf8(b),
    decreases a.len(),
{
    if a.len() == 0 {
        assert(a + b =~= b);
        assert(encode_utf8(a) + encode_utf8(b) =~= encode_utf8(b));
    } else {
        lemma_encode_utf8_concat(a.drop_first(), b);
        assert((a + b).drop_first() =~= a.drop_first() + b);
        assert((a + b)[0] == a[0]);
        assert(encode_utf8(a + b) =~= encode_scalar(a[0] as u32) + encode_utf8(a.drop_first() + b));
    }
}

/// The number of bytes `c` takes in UTF-8.
pub fn utf8_width(c: char) -> (w: usize)
    ensures
        w == encode_scalar(c as u32).len(),
        1 <= w <= 4,
{
    proof {
        vstd::utf8::char_is_scalar(c);
    }
    let u = c as u32;
    if u <= 0x7F {
        1
    } else if u <= 0x7FF {
        2
    } else if u <= 0xFFFF {
        3
    } else {
        4
    }
}

/// Whether the UTF-8 encoding of `v[lo..hi]` is longer than `limit` bytes.
pub fn utf8_len_exceeds(v: &Vec<char>, lo: usize, hi: usize, limit: usize) -> (b: bool)
    requires
        lo <= hi <= v@.len(),
        limit <= usize::MAX - 4,
    ensures
        b == (encode_utf8(v@.subrange(lo as int, hi as int)).len() > limit),
{
    let mut total: usize = 0;
    let mut i = lo;
    assert(v@.subrange(lo as int, lo as int) =~= Seq::<char>::empty());
    while i < hi
        invariant
            lo <= i <= hi <= v@.len(),
            limit <= usize::MAX - 4,
            total <= limit,
            total == encode_utf8(v@.subrange(lo as int, i as int)).len(),
        decreases hi - i,
    {
        let w = utf8_width(v[i]);
        proof {
            let a = v@.subrange(lo as int, i as int);
            let c = seq![v@[i as int]];
            assert(v@.subrange(lo as int, i + 1) =~= a + c);
            lemma_encode_utf8_concat(a, c);
            assert(c.drop_first() =~= Seq::<char>::empty());
            assert(encode_utf8(c.drop_first()) =~= Seq::<u8>::empty());
            assert(c[0] == v@[i as int]);
            assert(encode_utf8(c) =~= encode_scalar(c[0] as u32) + encode_utf8(c.drop_first()));
            assert(encode_utf8(c) =~= encode_scalar(v@[i as int] as u32));
        }
        total = total + w;
        i += 1;
        if total > limit {
            proof {
                let a = v@.subrange(lo as int, i as int);
                let r = v@.subrange(i as int, hi as int);
                assert(v@.subrange(lo as int, hi as int) =~= a + r);
                lemma_encode_utf8_concat(a, r);
            }
            return true;
        }
    }
    false
}

// ---------------------------------------------------------------------------
// Case
// ---------------------------------------------------------------------------

/// The ASCII lowercase of one character.
pub open spec fn ascii_lower(c: char) -> char {
    if 'A' <= c && c <= 'Z' {
        ((c as u32) + 32) as char
    } else {
        c
    }
}

/// `str::to_ascii_lowercase`: ASCII letters lowered, all else kept.
pub open spec fn ascii_lowercase(s: Seq<char>) -> Seq<char> {
    s.map_values(|c: char| ascii_lower(c))
}

/// The ASCII lowercase of `s`.
pub fn to_ascii_lowercase(s: &str) -> (r: String)
    ensures
        r@ == ascii_lowercase(s@),
{
    let v = char_vec(s);
    let mut r = String::new();
    let n = v.len();
    let mut i: usize = 0;
    while i < n
        invariant
            n == v@.len(),
            v@ == s@,
            i <= n,
            r@ == ascii_lowercase(s@.take(i as int)),
        decreases n - i,
    {
        let c = v[i];
        let lc = if 'A' <= c && c <= 'Z' {
            ((c as u8) + 32) as char
        } else {
            c
        };
        assert(lc == ascii_lower(c)) by {
            if 'A' <= c && c <= 'Z' {
                assert((c as u8) as u32 == c as u32);
            }
        }
        push_char(&mut r, lc);
        assert(ascii_lowercase(s@.take(i + 1)) =~= ascii_lowercase(s@.take(i as int)).push(lc));
        i += 1;
    }
    assert(s@.take(n as int) =~= s@);
    r
}

// ---------------------------------------------------------------------------
// Decimal numbers
// ---------------------------------------------------------------------------

/// The character of a decimal digit.
pub open spec fn digit_char(d: nat) -> char {
    if d == 0 {
        '0'
    } else if d == 1 {
        '1'
    } else if d == 2 {
        '2'
    } else if d == 3 {
        '3'
    } else if d == 4 {
        '4'
    } else if d == 5 {
        '5'
    } else if d == 6 {
        '6'
    } else if d == 7 {
        '7'
    } else if d == 8 {
        '8'
    } else {
        '9'
    }
}

/// The decimal notation of `n`, as `Display` prints an unsigned integer.
pub open spec fn decimal(n: nat) -> Seq<char>
    decreases n,
{
    if n < 10 {
        seq![digit_char(n)]
    } else {
        decimal(n / 10).push(digit_char(n % 10))
    }
}

/// The decimal notation of a signed integer, as `Display` prints it.
pub open spec fn signed_decimal(n: int) -> Seq<char> {
    if n < 0 {
        seq!['-'] + decimal((-n) as nat)
    } else {
        decimal(n as nat)
    }
}

fn digit(d: u64) -> (c: char)
    requires
        d < 10,
    ensures
        c == digit_char(d as nat),
{
    if d == 0 {
        '0'
    } else if d == 1 {
        '1'
    } else if d == 2 {
        '2'
    } else if d == 3 {
        '3'
    } else if d == 4 {
        '4'
    } else if d == 5 {
        '5'
    } else if d == 6 {
        '6'
    } else if d == 7 {
        '7'
    } else if d == 8 {
        '8'
    } else {
        '9'
    }
}

/// Appends the decimal notation of `n` to `out`.
pub fn push_decimal(out: &mut String, n: u64)
    ensures
        final(out)@ == old(out)@ + decimal(n as nat),
    decreases n,
{
    if n >= 10 {
        push_decimal(out, n / 10);
    }
    push_char(out, digit(n % 10));
    assert(old(out)@ + decimal(n as nat) =~= (if n >= 10 {
        old(out)@ + decimal((n / 10) as nat)
    } else {
        old(out)@
    }).push(digit_char((n % 10) as nat)));
}

/// Appends the decimal notation of the signed `n` to `out`.
pub fn push_signed_decimal(out: &mut String, n: i64)
    requires
        n > i64::MIN,
    ensures
        final(out)@ == old(out)@ + signed_decimal(n as int),
{
    if n < 0 {
        push_char(out, '-');
        push_decimal(out, (-n) as u64);
        assert(old(out)@ + signed_decimal(n as int) =~= old(out)@.push('-') + decimal((-n) as nat));
    } else {
        push_decimal(out, n as u64);
    }
}

// ---------------------------------------------------------------------------
// Searching from the end, patterns, replacing
// ---------------------------------------------------------------------------

/// The index of the last `c` in `s`, or -1 when there is none.
pub open spec fn last_index(s: Seq<char>, c: char) -> int
    decreases s.len(),
{
    if s.len() == 0 {
        -1
    } else if s.last() == c {
        s.len() - 1
    } else {
        last_index(s.drop_last(), c)
    }
}

/// The index of the last `c` in `v[lo..hi]`, relative to `lo`, or -1.
pub fn last_index_of_char(v: &Vec<char>, lo: usize, hi: usize, c: char) -> (k: Option<usize>)
    requires
        lo <= hi <= v@.len(),
    ensures
        match k {
            Some(i) => lo <= i < hi && i - lo == last_index(v@.subrange(lo as int, hi as int), c),
            None => last_index(v@.subrange(lo as int, hi as int), c) == -1,
        },
{
    let mut j = hi;
    while j > lo
        invariant
            lo <= j <= hi <= v@.len(),
            last_index(v@.subrange(lo as int, hi as int), c) == last_index(
                v@.subrange(lo as int, j as int),
                c,
            ),
        decreases j,
    {
        if v[j - 1] == c {
            return Some(j - 1);
        }
        assert(v@.subrange(lo as int, j as int).drop_last() =~= v@.subrange(lo as int, j - 1));
        j -= 1;
    }
    None
}

/// `s` with every occurrence of `p` removed, scanning from the left
/// (`str::replace(p, "")`).
pub open spec fn remove_all(s: Seq<char>, p: Seq<char>) -> Seq<char>
    decreases s.len(),
{
    if p.len() == 0 || s.len() == 0 {
        s
    } else if starts_with(s, p) {
        remove_all(s.skip(p.len() as int), p)
    } else {
        seq![s[0]] + remove_all(s.drop_first(), p)
    }
}

/// `v[lo..hi]` with every occurrence of `p` removed.
pub fn remove_all_chars(v: &Vec<char>, lo: usize, hi: usize, p: &Vec<char>) -> (r: String)
    requires
        lo <= hi <= v@.len(),
    ensures
        r@ == remove_all(v@.subrange(lo as int, hi as int), p@),
{
    let mut out = String::new();
    let ghost s = v@.subrange(lo as int, hi as int);
    if p.len() == 0 {
        let mut i = lo;
        while i < hi
            invariant
                lo <= i <= hi <= v@.len(),
                out@ == v@.subrange(lo as int, i as int),
            decreases hi - i,
        {
            push_char(&mut out, v[i]);
            assert(v@.subrange(lo as int, i + 1) =~= v@.subrange(lo as int, i as int).push(v@[i as int]));
            i += 1;
        }
        return out;
    }
    let mut i = lo;
    assert(s.skip(0) =~= s);
    while i < hi
        invariant
            lo <= i <= hi <= v@.len(),
            p@.len() > 0,
            s == v@.subrange(lo as int, hi as int),
            remove_all(s, p@) == out@ + remove_all(s.skip(i - lo), p@),
        decreases hi - i,
    {
        let ghost t = s.skip(i - lo);
        if hi - i >= p.len() && matches_at(v, p, i) {
            assert(t.subrange(0, p@.len() as int) =~= v@.subrange(i as int, i + p@.len()));
            assert(t.skip(p@.len() as int) =~= s.skip(i + p@.len() - lo));
            i = i + p.len();
        } else {
            assert(t.len() >= p@.len() ==> t.subrange(0, p@.len() as int) =~= v@.subrange(
                i as int,
                i + p@.len(),
            ));
            assert(t.drop_first() =~= s.skip(i + 1 - lo));
            assert(t[0] == v@[i as int]);
            let ghost before = out@;
            let ghost rest = remove_all(s.skip(i + 1 - lo), p@);
            push_char(&mut out, v[i]);
            assert(out@ + rest =~= before + (seq![v@[i as int]] + rest));
            i += 1;
        }
    }
    assert(s.skip(hi - lo) =~= Seq::<char>::empty());
    out
}

/// The text `String::from_utf8_lossy` makes of a byte string.
pub uninterp spec fn utf8_lossy(b: Seq<u8>) -> Seq<char>;

/// The text `String::from_utf8_lossy` makes of a byte string: valid UTF-8
/// decoded as it is, other bytes as std replaces them.
pub open spec fn lossy_text(b: Seq<u8>) -> Seq<char> {
    if vstd::utf8::valid_utf8(b) {
        vstd::utf8::decode_utf8(b)
    } else {
        utf8_lossy(b)
    }
}

/// `String::from_utf8_lossy`: decodes UTF-8, replacing invalid sequences with
/// U+FFFD. The contract names the result and claims that valid UTF-8 is
/// decoded unchanged; how invalid input is replaced is not stated.
#[verifier::external_body]
pub(crate) fn from_utf8_lossy(b: &[u8]) -> (r: String)
    ensures
        r@ == utf8_lossy(b@),
        r@ == lossy_text(b@),
{
    String::from_utf8_lossy(b).into_owned()
}

/// The ASCII uppercase of one character.
pub open spec fn ascii_upper(c: char) -> char {
    if 'a' <= c && c <= 'z' {
        ((c as u32) - 32) as char
    } else {
        c
    }
}

/// `str::to_ascii_uppercase`: ASCII letters raised, all else kept.
pub open spec fn ascii_uppercase(s: Seq<char>) -> Seq<char> {
    s.map_values(|c: char| ascii_upper(c))
}

/// Raising ASCII letters first does not change the ASCII lowercase, and
/// keeps ASCII text ASCII.
pub proof fn lemma_lower_of_upper(s: Seq<char>)
    ensures
        ascii_lowercase(ascii_uppercase(s)) == ascii_lowercase(s),
        all_ascii(s) ==> all_ascii(ascii_uppercase(s)),
{
    assert forall|i: int| 0 <= i < s.len() implies #[trigger] ascii_lowercase(ascii_uppercase(s))[i]
        == ascii_lowercase(s)[i] && ((s[i] as u32) < 128 ==> (ascii_uppercase(s)[i] as u32) < 128) by {
        let c = s[i];
        if 'a' <= c && c <= 'z' {
            let d = ascii_upper(c);
            assert(d as u32 == c as u32 - 32);
            assert('A' <= d && d <= 'Z');
            assert(ascii_lower(d) as u32 == c as u32);
        } else if 'A' <= c && c <= 'Z' {
        }
    }
    assert(ascii_lowercase(ascii_uppercase(s)) =~= ascii_lowercase(s));
}

/// ASCII lowercasing a concatenation lowers each part.
pub proof fn lemma_lowercase_concat(a: Seq<char>, b: Seq<char>)
    ensures
        ascii_lowercase(a + b) == ascii_lowercase(a) + ascii_lowercase(b),
        all_ascii(a) && all_ascii(b) ==> all_ascii(a + b),
{
    assert(ascii_lowercase(a + b) =~= ascii_lowercase(a) + ascii_lowercase(b));
    if all_ascii(a) && all_ascii(b) {
        assert forall|i: int| 0 <= i < (a + b).len() implies (#[trigger] (a + b)[i] as u32) < 128 by {
            if i < a.len() {
                assert((a + b)[i] == a[i]);
            } else {
                assert((a + b)[i] == b[i - a.len()]);
            }
        }
    }
}

/// What occurs in `x` occurs in `a + x + b`.
pub proof fn lemma_contains_padded(a: Seq<char>, x: Seq<char>, b: Seq<char>, p: Seq<char>)
    requires
        contains_seq(x, p),
    ensures
        contains_seq(a + x + b, p),
{
    let i = choose|i: int| occurs_at(x, p, i);
    assert((a + x + b).subrange(a.len() + i, a.len() + i + p.len()) =~= x.subrange(i, i + p.len()));
    assert(occurs_at(a + x + b, p, a.len() + i));
}

/// Whitespace in front is dropped by trimming the start.
pub proof fn lemma_trim_start_skips_ws(w: Seq<char>, x: Seq<char>)
    requires
        forall|i: int| 0 <= i < w.len() ==> is_ws(#[trigger] w[i]),
    ensures
        trim_start(w + x) == trim_start(x),
    decreases w.len(),
{
    if w.len() > 0 {
        assert((w + x)[0] == w[0]);
        assert((w + x).drop_first() =~= w.drop_first() + x);
        lemma_trim_start_skips_ws(w.drop_first(), x);
    } else {
        assert(w + x =~= x);
    }
}

/// Whitespace behind is dropped by trimming the end.
pub proof fn lemma_trim_end_skips_ws(y: Seq<char>, w: Seq<char>)
    requires
        forall|i: int| 0 <= i < w.len() ==> is_ws(#[trigger] w[i]),
    ensures
        trim_end(y + w) == trim_end(y),
    decreases w.len(),
{
    if w.len() > 0 {
        assert((y + w).last() == w.last());
        assert((y + w).drop_last() =~= y + w.drop_last());
        lemma_trim_end_skips_ws(y, w.drop_last());
    } else {
        assert(y + w =~= y);
    }
}

/// Trimming the start of a concatenation: the second part is kept whole once
/// the first part holds a non-whitespace character.
pub proof fn lemma_trim_start_concat(a: Seq<char>, b: Seq<char>)
    ensures
        trim_start(a).len() > 0 ==> trim_start(a + b) == trim_start(a) + b,
        trim_start(a).len() == 0 ==> trim_start(a + b) == trim_start(b),
    decreases a.len(),
{
    if a.len() > 0 {
        assert((a + b)[0] == a[0]);
        assert((a + b).drop_first() =~= a.drop_first() + b);
        lemma_trim_start_concat(a.drop_first(), b);
    } else {
        assert(a + b =~= b);
    }
}

/// Trimming ignores whitespace added on either side.
pub proof fn lemma_trimmed_padded(w1: Seq<char>, s: Seq<char>, w2: Seq<char>)
    requires
        forall|i: int| 0 <= i < w1.len() ==> is_ws(#[trigger] w1[i]),
        forall|i: int| 0 <= i < w2.len() ==> is_ws(#[trigger] w2[i]),
    ensures
        trimmed(w1 + s + w2) == trimmed(s),
{
    assert(w1 + s + w2 =~= w1 + (s + w2));
    lemma_trim_start_skips_ws(w1, s + w2);
    lemma_trim_start_concat(s, w2);
    if trim_start(s).len() > 0 {
        lemma_trim_end_skips_ws(trim_start(s), w2);
    } else {
        lemma_trim_start_skips_ws(w2, seq![]);
        assert(w2 + Seq::<char>::empty() =~= w2);
        assert(trim_start(Seq::<char>::empty()) =~= Seq::<char>::empty());
    }
}

/// ASCII lowercasing leaves whitespace as it is and lowers nothing twice.
proof fn lemma_ascii_lower_char(c: char)
    ensures
        is_ws(ascii_lower(c)) == is_ws(c),
        ascii_lower(ascii_lower(c)) == ascii_lower(c),
{
    if 'A' <= c && c <= 'Z' {
        let d = ascii_lower(c);
        assert(d as u32 == c as u32 + 32);
        assert('a' <= d && d <= 'z');
    }
}

/// ASCII lowercasing commutes with trimming the start.
proof fn lemma_trim_start_lower(s: Seq<char>)
    ensures
        trim_start(ascii_lowercase(s)) == ascii_lowercase(trim_start(s)),
    decreases s.len(),
{
    if s.len() > 0 {
        lemma_ascii_lower_char(s[0]);
        assert(ascii_lowercase(s)[0] == ascii_lower(s[0]));
        assert(ascii_lowercase(s).drop_first() =~= ascii_lowercase(s.drop_first()));
        lemma_trim_start_lower(s.drop_first());
    } else {
        assert(ascii_lowercase(s) =~= s);
    }
}

/// ASCII lowercasing commutes with trimming the end.
proof fn lemma_trim_end_lower(s: Seq<char>)
    ensures
        trim_end(ascii_lowercase(s)) == ascii_lowercase(trim_end(s)),
    decreases s.len(),
{
    if s.len() > 0 {
        lemma_ascii_lower_char(s.last());
        assert(ascii_lowercase(s).last() == ascii_lower(s.last()));
        assert(ascii_lowercase(s).drop_last() =~= ascii_lowercase(s.drop_last()));
        lemma_trim_end_lower(s.drop_last());
    } else {
        assert(ascii_lowercase(s) =~= s);
    }
}

/// Trimming and ASCII lowercasing can be done in either order, and
/// lowercasing twice is lowercasing once.
pub proof fn lemma_trimmed_lower(s: Seq<char>)
    ensures
        trimmed(ascii_lowercase(s)) == ascii_lowercase(trimmed(s)),
        ascii_lowercase(ascii_lowercase(s)) == ascii_lowercase(s),
{
    lemma_trim_start_lower(s);
    lemma_trim_end_lower(trim_start(s));
    assert forall|i: int| 0 <= i < s.len() implies #[trigger] ascii_lowercase(ascii_lowercase(s))[i]
        == ascii_lowercase(s)[i] by {
        lemma_ascii_lower_char(s[i]);
    }
    assert(ascii_lowercase(ascii_lowercase(s)) =~= ascii_lowercase(s));
}

} // verus!
