//! Privacy guard: pages that must never be captured.

use vstd::prelude::*;

use crate::text::{
    all_ascii, ascii_uppercase, char_vec, contains_chars, contains_seq, lowercase_of, to_lowercase,
};

verus! {

/// The keywords that mark a page as sensitive: payment, government
/// services and log-in pages.
pub open spec fn sensitive_keywords() -> Seq<Seq<char>> {
    seq![
        "bank"@,
        "pay"@,
        "alipay"@,
        "wechat"@,
        "wallet"@,
        "gov.cn"@,
        "12306"@,
        "password"@,
        "login"@,
        "auth"@,
        "private"@,
        "secret"@,
    ]
}

/// Some sensitive keyword occurs in `s`.
pub open spec fn has_sensitive_keyword(s: Seq<char>) -> bool {
    exists|k: int| 0 <= k < sensitive_keywords().len() && contains_seq(s, #[trigger] sensitive_keywords()[k])
}

/// A URL is sensitive when its lowercase form holds a sensitive keyword.
pub open spec fn sensitive_url(url: Seq<char>) -> bool {
    has_sensitive_keyword(lowercase_of(url))
}

/// Whether an already lowercased URL holds a sensitive keyword.
pub fn contains_sensitive_keyword(lower: &str) -> (b: bool)
    ensures
        b == has_sensitive_keyword(lower@),
{
    let keywords: [&str; 12] = [
        "bank",
        "pay",
        "alipay",
        "wechat",
        "wallet",
        "gov.cn",
        "12306",
        "password",
        "login",
        "auth",
        "private",
        "secret",
    ];
    assert(keywords@.map_values(|k: &str| k@) =~= sensitive_keywords());
    let v = char_vec(lower);
    let mut k: usize = 0;
    while k < 12
        invariant
            k <= 12,
            v@ == lower@,
            keywords@.map_values(|k: &str| k@) == sensitive_keywords(),
            forall|j: int| 0 <= j < k ==> !contains_seq(lower@, #[trigger] sensitive_keywords()[j]),
        decreases 12 - k,
    {
        let p = char_vec(keywords[k]);
        assert(keywords@.map_values(|k: &str| k@)[k as int] == keywords@[k as int]@);
        if contains_chars(&v, &p) {
            return true;
        }
        k += 1;
    }
    false
}

/// A guard that keeps sensitive pages out of storage.
#[derive(Debug, Clone, Copy)]
pub struct PrivacyGuard;

impl PrivacyGuard {
    /// Whether a URL is sensitive: its lowercase form holds one of the
    /// payment, government or log-in keywords.
    pub fn is_sensitive(url: &str) -> (b: bool)
        ensures
            b == sensitive_url(url@),
    {
        let lower = to_lowercase(url);
        contains_sensitive_keyword(lower.as_str())
    }
}

/// The guard's keywords are exactly the twelve of payment, government and
/// log-in pages: a URL is sensitive if and only if its lowercase form holds
/// `bank`, `pay`, `alipay`, `wechat`, `wallet`, `gov.cn`, `12306`,
/// `password`, `login`, `auth`, `private` or `secret`.
pub proof fn law_sensitive_keywords_are_the_twelve(u: Seq<char>)
    ensures
        sensitive_url(u) <==> {
            let l = lowercase_of(u);
            ||| contains_seq(l, "bank"@)
            ||| contains_seq(l, "pay"@)
            ||| contains_seq(l, "alipay"@)
            ||| contains_seq(l, "wechat"@)
            ||| contains_seq(l, "wallet"@)
            ||| contains_seq(l, "gov.cn"@)
            ||| contains_seq(l, "12306"@)
            ||| contains_seq(l, "password"@)
            ||| contains_seq(l, "login"@)
            ||| contains_seq(l, "auth"@)
            ||| contains_seq(l, "private"@)
            ||| contains_seq(l, "secret"@)
        },
{
    let ks = sensitive_keywords();
    assert(ks.len() == 12);
    assert(ks[0] == "bank"@);
    assert(ks[1] == "pay"@);
    assert(ks[2] == "alipay"@);
    assert(ks[3] == "wechat"@);
    assert(ks[4] == "wallet"@);
    assert(ks[5] == "gov.cn"@);
    assert(ks[6] == "12306"@);
    assert(ks[7] == "password"@);
    assert(ks[8] == "login"@);
    assert(ks[9] == "auth"@);
    assert(ks[10] == "private"@);
    assert(ks[11] == "secret"@);
}

/// On ASCII text, a sensitive URL stays sensitive whatever is written before
/// or after it.
pub proof fn law_sensitive_survives_padding(u: Seq<char>, p: Seq<char>, s: Seq<char>)
    requires
        all_ascii(u),
        all_ascii(p),
        all_ascii(s),
    ensures
        sensitive_url(u) ==> sensitive_url(p + u + s),
{
    crate::text::lemma_lowercase_concat(p, u);
    crate::text::lemma_lowercase_concat(p + u, s);
    let lower = crate::text::ascii_lowercase(u);
    let padded = crate::text::ascii_lowercase(p) + lower + crate::text::ascii_lowercase(s);
    assert(lowercase_of(p + u + s) == padded);
    if sensitive_url(u) {
        let k = choose|k: int|
            0 <= k < sensitive_keywords().len() && contains_seq(lower, #[trigger] sensitive_keywords()[k]);
        crate::text::lemma_contains_padded(
            crate::text::ascii_lowercase(p),
            lower,
            crate::text::ascii_lowercase(s),
            sensitive_keywords()[k],
        );
        assert(contains_seq(padded, sensitive_keywords()[k]));
    }
}

/// On ASCII text, the guard does not depend on letter case: raising the
/// letters of a URL gives the same answer.
pub proof fn law_sensitive_ignores_case(u: Seq<char>)
    requires
        all_ascii(u),
    ensures
        sensitive_url(ascii_uppercase(u)) == sensitive_url(u),
{
    crate::text::lemma_lower_of_upper(u);
}

} // verus!
