//! Smart preloading: manual rules first, then visit counting and prediction,
//! then hover intents.
//!
//! The store of rules and visit counts lives outside the library; the
//! functions here compute the keys to look up, the values to store and the
//! actions to take from what the store returned.

use vstd::prelude::*;
use vstd::utf8::encode_utf8;

use crate::models::{ManualRule, NavigationPayload};
use crate::network::{preconnect_target, preconnect_target_spec, third_field, third_field_range};
use crate::text::{
    char_vec, concat2, concat3, from_utf8_lossy, last_index, last_index_of_char, matches_at,
    owned, remove_all, remove_all_chars, same_text, starts_with, trim, trimmed, lossy_text,
};

verus! {

// ---------------------------------------------------------------------------
// Visit counts: 8 bytes, big-endian
// ---------------------------------------------------------------------------

/// The value of a big-endian byte sequence.
pub open spec fn be_value(s: Seq<u8>) -> nat
    decreases s.len(),
{
    if s.len() == 0 {
        0
    } else {
        be_value(s.drop_last()) * 256 + s.last() as nat
    }
}

/// 256 to the power `k`.
pub open spec fn pow256(k: nat) -> nat
    decreases k,
{
    if k == 0 {
        1
    } else {
        256 * pow256((k - 1) as nat)
    }
}

/// The count stored under a visit key: 8 bytes read big-endian, 0 for
/// anything else.
pub open spec fn count_of(s: Seq<u8>) -> nat {
    if s.len() == 8 {
        be_value(s)
    } else {
        0
    }
}

/// The last `k` bytes of `n` in big-endian order.
pub open spec fn be_bytes(n: nat, k: nat) -> Seq<u8>
    decreases k,
{
    if k == 0 {
        seq![]
    } else {
        be_bytes(n / 256, (k - 1) as nat).push((n % 256) as u8)
    }
}

proof fn lemma_be_value_bound(s: Seq<u8>)
    ensures
        be_value(s) < pow256(s.len()),
    decreases s.len(),
{
    if s.len() > 0 {
        lemma_be_value_bound(s.drop_last());
        let x = be_value(s.drop_last());
        let b = pow256((s.len() - 1) as nat);
        let y = s.last() as nat;
        assert(x * 256 + y < 256 * b) by (nonlinear_arith)
            requires
                x < b,
                y < 256,
        ;
    }
}

proof fn lemma_be_bytes(n: nat, k: nat)
    ensures
        be_bytes(n, k).len() == k,
        be_value(be_bytes(n, k)) == n % pow256(k),
    decreases k,
{
    if k == 0 {
        assert(n % 1 == 0) by (nonlinear_arith);
    } else {
        lemma_be_bytes(n / 256, (k - 1) as nat);
        let s = be_bytes(n, k);
        assert(s.drop_last() =~= be_bytes(n / 256, (k - 1) as nat));
        let b = pow256((k - 1) as nat);
        lemma_pow256_positive((k - 1) as nat);
        vstd::arithmetic::div_mod::lemma_breakdown(n as int, 256, b as int);
        assert(256 * ((n / 256) % b) == ((n / 256) % b) * 256) by (nonlinear_arith);
    }
}

proof fn lemma_pow256_positive(k: nat)
    ensures
        pow256(k) > 0,
    decreases k,
{
    if k > 0 {
        lemma_pow256_positive((k - 1) as nat);
    }
}

proof fn lemma_pow256_8()
    ensures
        pow256(7) == 0x100000000000000,
        pow256(8) == 0x10000000000000000,
{
    reveal_with_fuel(pow256, 9);
}

/// Reads a stored visit count.
pub fn decode_count(bytes: &[u8]) -> (n: u64)
    ensures
        n == count_of(bytes@),
{
    if bytes.len() != 8 {
        return 0;
    }
    let mut acc: u64 = 0;
    let mut i: usize = 0;
    proof {
        lemma_pow256_8();
    }
    assert(bytes@.take(0) =~= Seq::<u8>::empty());
    while i < 8
        invariant
            i <= 8,
            bytes@.len() == 8,
            acc == be_value(bytes@.take(i as int)),
            pow256(7) == 0x100000000000000,
        decreases 8 - i,
    {
        proof {
            lemma_be_value_bound(bytes@.take(i as int));
            if i < 7 {
                lemma_pow256_monotone(i as nat, 7);
            }
            assert(bytes@.take(i + 1).drop_last() =~= bytes@.take(i as int));
        }
        acc = acc * 256 + bytes[i] as u64;
        i += 1;
    }
    assert(bytes@.take(8) =~= bytes@);
    acc
}

proof fn lemma_pow256_monotone(a: nat, b: nat)
    requires
        a <= b,
    ensures
        pow256(a) <= pow256(b),
    decreases b,
{
    if a < b {
        lemma_pow256_monotone(a, (b - 1) as nat);
        lemma_pow256_positive((b - 1) as nat);
    }
}

fn push_be(out: &mut Vec<u8>, n: u64, k: usize)
    ensures
        final(out)@ == old(out)@ + be_bytes(n as nat, k as nat),
    decreases k,
{
    let ghost before = out@;
    if k == 0 {
        assert(before + be_bytes(n as nat, 0) =~= before);
        return;
    }
    push_be(out, n / 256, k - 1);
    out.push((n % 256) as u8);
    assert(out@ =~= before + be_bytes(n as nat, k as nat));
}

/// The stored form of a visit count: 8 bytes, big-endian.
pub fn encode_count(n: u64) -> (b: Vec<u8>)
    ensures
        b@ == be_bytes(n as nat, 8),
{
    let mut out: Vec<u8> = Vec::new();
    push_be(&mut out, n, 8);
    assert(out@ =~= be_bytes(n as nat, 8));
    out
}

/// A stored count reads back as the count that was stored.
pub proof fn law_count_round_trip(n: u64)
    ensures
        count_of(be_bytes(n as nat, 8)) == n,
{
    lemma_be_bytes(n as nat, 8);
    lemma_pow256_8();
}

/// The count stored after one more visit: the previous count (0 when there is
/// none or it is malformed) plus one, wrapping at `u64::MAX` as the release
/// build does.
pub open spec fn next_count(old: Option<Seq<u8>>) -> nat {
    let c = match old {
        Some(b) => count_of(b),
        None => 0,
    };
    if c + 1 == 0x10000000000000000 {
        0
    } else {
        c + 1
    }
}

/// The value stored under a visit key after one more visit.
pub fn next_visit_count(old: Option<&[u8]>) -> (b: Vec<u8>)
    ensures
        b@ == be_bytes(
            next_count(
                match old {
                    Some(s) => Some(s@),
                    None => None,
                },
            ),
            8,
        ),
{
    let c = match old {
        Some(s) => decode_count(s),
        None => 0,
    };
    encode_count(c.wrapping_add(1))
}

/// Each recorded visit raises the stored count by one.
pub proof fn law_visit_counts_up(n: u64)
    requires
        n < u64::MAX,
    ensures
        next_count(None) == 1,
        count_of(be_bytes(next_count(Some(be_bytes(n as nat, 8))), 8)) == n + 1,
{
    law_count_round_trip(n);
    lemma_be_bytes((n + 1) as nat, 8);
    lemma_pow256_8();
}

// ---------------------------------------------------------------------------
// Sites and keys
// ---------------------------------------------------------------------------

/// The site a URL belongs to, as manual rules are keyed: the last two
/// `.`-separated labels of its host field, or the whole URL when the host
/// field has fewer than two labels.
pub open spec fn site_domain(url: Seq<char>) -> Seq<char> {
    let host = match third_field(url) {
        Some(f) => f,
        None => seq![],
    };
    let d1 = last_index(host, '.');
    if d1 < 0 {
        url
    } else {
        host.skip(last_index(host.take(d1), '.') + 1)
    }
}

/// The site a URL belongs to.
pub fn registrable_domain(url: &str) -> (r: String)
    ensures
        r@ == site_domain(url@),
{
    let v = char_vec(url);
    let (a, b) = match third_field_range(&v) {
        Some(range) => range,
        None => (0, 0),
    };
    assert(v@.subrange(0, 0) =~= Seq::<char>::empty());
    let ghost host = v@.subrange(a as int, b as int);
    match last_index_of_char(&v, a, b, '.') {
        None => owned(url),
        Some(d1) => {
            assert(host.take(d1 - a) =~= v@.subrange(a as int, d1 as int));
            let start = match last_index_of_char(&v, a, d1, '.') {
                Some(d2) => d2 + 1,
                None => a,
            };
            assert(host.skip(start - a) =~= v@.subrange(start as int, b as int));
            owned(url.substring_char(start, b))
        },
    }
}

/// The key a manual rule for `domain` is stored under.
pub open spec fn manual_rule_key_spec(domain: Seq<char>) -> Seq<char> {
    "manual:"@ + domain
}

/// The key a manual rule for `domain` is stored under.
pub fn manual_rule_key(domain: &str) -> (k: String)
    ensures
        k@ == manual_rule_key_spec(domain@),
{
    concat2("manual:", domain)
}

/// The key that counts moves from page `current` to page `target`.
pub open spec fn nav_key_spec(current: Seq<char>, target: Seq<char>) -> Seq<char> {
    "nav:"@ + current + ":"@ + target
}

/// The key that counts moves from page `current` to page `target`.
pub fn nav_key(current: &str, target: &str) -> (k: String)
    ensures
        k@ == nav_key_spec(current@, target@),
{
    let mut k = concat3("nav:", current, ":");
    k.append(target);
    k
}

/// The common prefix of the keys that count moves away from `current`.
pub open spec fn nav_prefix_spec(current: Seq<char>) -> Seq<char> {
    "nav:"@ + current + ":"@
}

/// The common prefix of the keys that count moves away from `current`.
pub fn nav_prefix(current: &str) -> (k: String)
    ensures
        k@ == nav_prefix_spec(current@),
{
    concat3("nav:", current, ":")
}

/// The target page read back from a visit key: the text after
/// `nav:{current}:`, or nothing when the key does not start so.
pub open spec fn nav_target(key: Seq<char>, current: Seq<char>) -> Seq<char> {
    let p = nav_prefix_spec(current);
    if starts_with(key, p) {
        key.skip(p.len() as int)
    } else {
        seq![]
    }
}

/// The target page read back from a visit key.
pub fn target_from_nav_key(key: &str, current: &str) -> (t: String)
    ensures
        t@ == nav_target(key@, current@),
{
    let prefix = nav_prefix(current);
    let v = char_vec(key);
    let pv = char_vec(prefix.as_str());
    if matches_at(&v, &pv, 0) {
        assert(key@.skip(pv@.len() as int) =~= key@.subrange(pv@.len() as int, v@.len() as int));
        owned(key.substring_char(pv.len(), v.len()))
    } else {
        String::new()
    }
}

/// The target recorded in a visit key is the target read back from it.
pub proof fn law_visit_key_round_trip(current: Seq<char>, target: Seq<char>)
    ensures
        nav_target(nav_key_spec(current, target), current) == target,
{
    let k = nav_key_spec(current, target);
    let p = nav_prefix_spec(current);
    assert(k.subrange(0, p.len() as int) =~= p);
    assert(k.skip(p.len() as int) =~= target);
}

// ---------------------------------------------------------------------------
// Actions
// ---------------------------------------------------------------------------

/// Something the preloader asks its host to do.
#[derive(Debug, Clone)]
pub enum PreloadAction {
    /// show a line in the preload log
    Log(String),
    /// ask the extension to prefetch a URL with credentials
    ExtensionPreload(String),
    /// open a TCP connection to an address (`host:port`)
    Preconnect(String),
}

/// An action as a kind (0 log, 1 extension preload, 2 pre-connect) and its text.
pub open spec fn action_view(a: PreloadAction) -> (nat, Seq<char>) {
    match a {
        PreloadAction::Log(s) => (0, s@),
        PreloadAction::ExtensionPreload(s) => (1, s@),
        PreloadAction::Preconnect(s) => (2, s@),
    }
}

/// The views of a list of actions.
pub open spec fn actions_view(a: Seq<PreloadAction>) -> Seq<(nat, Seq<char>)> {
    a.map_values(|x: PreloadAction| action_view(x))
}

/// A log line.
pub open spec fn log_of(s: Seq<char>) -> (nat, Seq<char>) {
    (0, s)
}

/// A credentialed prefetch by the extension.
pub open spec fn extension_preload_of(url: Seq<char>) -> (nat, Seq<char>) {
    (1, url)
}

/// A pre-connection to the address of a URL.
pub open spec fn preconnect_of(url: Seq<char>) -> (nat, Seq<char>) {
    (2, preconnect_target_spec(url))
}

// ---------------------------------------------------------------------------
// Prediction
// ---------------------------------------------------------------------------

/// The first target with the highest count, and that count (empty and 0
/// when no count is above 0).
pub open spec fn best_of(c: Seq<(Seq<char>, nat)>) -> (Seq<char>, nat)
    decreases c.len(),
{
    if c.len() == 0 {
        (seq![], 0)
    } else {
        let (t, m) = best_of(c.drop_last());
        if c.last().1 > m {
            c.last()
        } else {
            (t, m)
        }
    }
}

/// The predicted next page: the best target when its count is at least 3 and
/// it is not empty.
pub open spec fn prediction_of(c: Seq<(Seq<char>, nat)>) -> Option<Seq<char>> {
    let (t, m) = best_of(c);
    if m >= 3 && t.len() > 0 {
        Some(t)
    } else {
        None
    }
}

/// The view of a list of (target, count) candidates.
pub open spec fn candidates_view(c: Seq<(String, u64)>) -> Seq<(Seq<char>, nat)> {
    c.map_values(|e: (String, u64)| (e.0@, e.1 as nat))
}

/// Picks the predicted next page among (target, count) candidates.
pub fn choose_prediction(cands: &Vec<(String, u64)>) -> (r: Option<String>)
    ensures
        match (r, prediction_of(candidates_view(cands@))) {
            (Some(t), Some(u)) => t@ == u,
            (None, None) => true,
            _ => false,
        },
{
    let mut best = String::new();
    let mut max: u64 = 0;
    let n = cands.len();
    let mut i: usize = 0;
    assert(candidates_view(cands@).take(0) =~= Seq::<(Seq<char>, nat)>::empty());
    while i < n
        invariant
            i <= n,
            n == cands@.len(),
            (best@, max as nat) == best_of(candidates_view(cands@).take(i as int)),
        decreases n - i,
    {
        let ghost c = candidates_view(cands@);
        assert(c.take(i + 1).drop_last() =~= c.take(i as int));
        assert(c.take(i + 1).last() == (cands@[i as int].0@, cands@[i as int].1 as nat));
        let count = cands[i].1;
        if count > max {
            max = count;
            best = cands[i].0.clone();
        }
        i += 1;
    }
    assert(candidates_view(cands@).take(n as int) =~= candidates_view(cands@));
    if max >= 3 && !best.as_str().is_empty() {
        Some(best)
    } else {
        None
    }
}

/// The (target, count) candidates of a scan of raw (key, value) entries.
pub open spec fn scan_candidates(current: Seq<char>, entries: Seq<(Vec<u8>, Vec<u8>)>) -> Seq<
    (Seq<char>, nat),
> {
    entries.map_values(
        |e: (Vec<u8>, Vec<u8>)| (nav_target(lossy_text(e.0@), current), count_of(e.1@)),
    )
}

/// The actions for a predicted next page.
pub open spec fn prediction_actions(p: Option<Seq<char>>) -> Seq<(nat, Seq<char>)> {
    match p {
        Some(t) => seq![log_of("🧠 AI 预测下一站: "@ + t), preconnect_of(t)],
        None => seq![],
    }
}

/// The (target, count) candidates of a scan of raw (key, value) entries.
fn scan_to_candidates(current: &str, entries: &Vec<(Vec<u8>, Vec<u8>)>) -> (c: Vec<(String, u64)>)
    ensures
        candidates_view(c@) == scan_candidates(current@, entries@),
{
    let mut cands: Vec<(String, u64)> = Vec::new();
    let n = entries.len();
    let mut i: usize = 0;
    while i < n
        invariant
            i <= n,
            n == entries@.len(),
            candidates_view(cands@) == scan_candidates(current@, entries@).take(i as int),
        decreases n - i,
    {
        let ghost e = entries@[i as int];
        let ghost before = candidates_view(cands@);
        let entry = &entries[i];
        let key_text = from_utf8_lossy(entry.0.as_slice());
        let target = target_from_nav_key(key_text.as_str(), current);
        let count = decode_count(entry.1.as_slice());
        let ghost item = (target@, count as nat);
        assert(item == (nav_target(lossy_text(e.0@), current@), count_of(e.1@)));
        cands.push((target, count));
        proof {
            let sc = scan_candidates(current@, entries@);
            assert(sc[i as int] == item);
            assert(sc.take(i + 1) =~= sc.take(i as int).push(item));
            assert(candidates_view(cands@) =~= before.push(item));
        }
        i += 1;
    }
    assert(scan_candidates(current@, entries@).take(n as int) =~= scan_candidates(current@, entries@));
    cands
}

/// The actions for a predicted next page.
fn prediction_to_actions(p: Option<String>) -> (a: Vec<PreloadAction>)
    ensures
        actions_view(a@) == prediction_actions(crate::text::opt_text(p)),
{
    let mut actions: Vec<PreloadAction> = Vec::new();
    match p {
        Some(t) => {
            actions.push(PreloadAction::Log(concat2("🧠 AI 预测下一站: ", t.as_str())));
            actions.push(PreloadAction::Preconnect(preconnect_target(t.as_str())));
        },
        None => {},
    }
    assert(actions_view(actions@) =~= prediction_actions(crate::text::opt_text(p)));
    actions
}

/// Predicts the next page from the visit counts stored under the prefix of
/// `current` (see `nav_prefix`), given as raw (key, value) entries.
pub fn predict_next(current: &str, entries: &Vec<(Vec<u8>, Vec<u8>)>) -> (a: Vec<PreloadAction>)
    ensures
        actions_view(a@) == prediction_actions(prediction_of(scan_candidates(current@, entries@))),
{
    let cands = scan_to_candidates(current, entries);
    let p = choose_prediction(&cands);
    prediction_to_actions(p)
}

/// The best candidate has the highest count of all, and unless that count is
/// 0 it is the first candidate with that count.
pub proof fn law_prediction_is_first_maximum(c: Seq<(Seq<char>, nat)>)
    ensures
        forall|i: int| 0 <= i < c.len() ==> (#[trigger] c[i]).1 <= best_of(c).1,
        best_of(c).1 > 0 ==> exists|i: int|
            0 <= i < c.len() && c[i] == best_of(c) && forall|j: int|
                0 <= j < i ==> (#[trigger] c[j]).1 < best_of(c).1,
    decreases c.len(),
{
    if c.len() > 0 {
        let d = c.drop_last();
        law_prediction_is_first_maximum(d);
        assert forall|i: int| 0 <= i < c.len() implies (#[trigger] c[i]).1 <= best_of(c).1 by {
            if i < c.len() - 1 {
                assert(c[i] == d[i]);
            }
        }
        if best_of(c).1 > 0 {
            if c.last().1 > best_of(d).1 {
                let k = c.len() - 1;
                assert forall|j: int| 0 <= j < k implies (#[trigger] c[j]).1 < best_of(c).1 by {
                    assert(c[j] == d[j]);
                }
            } else {
                let k = choose|i: int|
                    0 <= i < d.len() && d[i] == best_of(d) && forall|j: int|
                        0 <= j < i ==> (#[trigger] d[j]).1 < best_of(d).1;
                assert(c[k] == d[k]);
                assert forall|j: int| 0 <= j < k implies (#[trigger] c[j]).1 < best_of(c).1 by {
                    assert(c[j] == d[j]);
                }
            }
        }
    }
}

// ---------------------------------------------------------------------------
// The preload decision for one navigation event
// ---------------------------------------------------------------------------

/// What to do first for a navigation event: the URL to announce to the
/// front end (for page loads), the site of the page and the key of its
/// manual rule.
#[derive(Debug, Clone)]
pub struct PreloadStart {
    pub browser_url: Option<String>,
    pub domain: String,
    pub rule_key: String,
}

/// Starts handling a navigation event.
pub fn preload_start(p: &NavigationPayload) -> (s: PreloadStart)
    ensures
        s.browser_url is Some == (p.action_type@ == "load"@),
        s.browser_url matches Some(u) ==> u@ == p.current_url@,
        s.domain@ == site_domain(p.current_url@),
        s.rule_key@ == manual_rule_key_spec(s.domain@),
{
    let browser_url = if same_text(p.action_type.as_str(), "load") {
        Some(owned(p.current_url.as_str()))
    } else {
        None
    };
    let domain = registrable_domain(p.current_url.as_str());
    let rule_key = manual_rule_key(domain.as_str());
    PreloadStart { browser_url, domain, rule_key }
}

/// What follows the first actions of a navigation event.
#[derive(Debug, Clone)]
pub enum PreloadNext {
    /// nothing more
    Done,
    /// add one visit to the count stored under `key` (see `next_visit_count`)
    RecordVisit { key: String },
    /// scan the counts stored under `prefix` and predict (see `predict_next`)
    Predict { prefix: String },
}

/// The actions of a navigation event and what follows them.
#[derive(Debug, Clone)]
pub struct PreloadStep {
    pub actions: Vec<PreloadAction>,
    pub next: PreloadNext,
}

/// The URL warmed up by a manual rule: the rule's subdomain of the site.
pub open spec fn rule_url(domain: Seq<char>, sub: Seq<char>) -> Seq<char> {
    "https://"@ + sub + "."@ + domain
}

/// The actions of a manual rule: a log line, then either a credentialed
/// prefetch by the extension (L2) or a plain pre-connection (L1).
pub open spec fn rule_actions(domain: Seq<char>, rule: ManualRule) -> Seq<(nat, Seq<char>)> {
    let url = rule_url(domain, rule.target_sub@);
    let hit = log_of("🛠️ 命中手动规则: "@ + domain + " -> "@ + rule.target_sub@);
    if rule.allow_cookie {
        seq![hit, log_of("🛡️ 执行 L2 级预取 (携带凭证)"@), extension_preload_of(url)]
    } else {
        seq![hit, log_of("🔒 执行 L1 级预连 (无 Cookie)"@), preconnect_of(url)]
    }
}

/// Continues a navigation event once the manual rule of its site has been
/// looked up (`rule` is the stored rule, if one was found and readable).
///
/// A rule always wins. Without one, a page load with a target records the
/// move, a page load without a target predicts the next page, and a hover
/// with a target pre-connects to it.
pub fn preload_after_rule(p: &NavigationPayload, domain: &str, rule: Option<&ManualRule>) -> (s:
    PreloadStep)
    ensures
        match rule {
            Some(r) => actions_view(s.actions@) == rule_actions(domain@, *r) && s.next is Done,
            None => {
                let load = p.action_type@ == "load"@;
                let hover = p.action_type@ == "hover"@;
                match p.target_url {
                    Some(t) => if load {
                        s.actions@.len() == 0 && (s.next matches PreloadNext::RecordVisit { key }
                            && key@ == nav_key_spec(p.current_url@, t@))
                    } else if hover {
                        actions_view(s.actions@) == seq![
                            log_of("🎯 捕获意图: "@ + t@),
                            preconnect_of(t@),
                        ] && s.next is Done
                    } else {
                        s.actions@.len() == 0 && s.next is Done
                    },
                    None => if load {
                        s.actions@.len() == 0 && (s.next matches PreloadNext::Predict { prefix }
                            && prefix@ == nav_prefix_spec(p.current_url@))
                    } else {
                        s.actions@.len() == 0 && s.next is Done
                    },
                }
            },
        },
{
    let mut actions: Vec<PreloadAction> = Vec::new();
    match rule {
        Some(r) => {
            let sub = r.target_sub.as_str();
            let mut url = concat3("https://", sub, ".");
            url.append(domain);
            let mut hit = concat3("🛠️ 命中手动规则: ", domain, " -> ");
            hit.append(sub);
            actions.push(PreloadAction::Log(hit));
            if r.allow_cookie {
                actions.push(PreloadAction::Log(owned("🛡️ 执行 L2 级预取 (携带凭证)")));
                actions.push(PreloadAction::ExtensionPreload(url));
            } else {
                actions.push(PreloadAction::Log(owned("🔒 执行 L1 级预连 (无 Cookie)")));
                actions.push(PreloadAction::Preconnect(preconnect_target(url.as_str())));
            }
            assert(actions_view(actions@) =~= rule_actions(domain@, *r));
            return PreloadStep { actions, next: PreloadNext::Done };
        },
        None => {},
    }
    let load = same_text(p.action_type.as_str(), "load");
    let current = p.current_url.as_str();
    match &p.target_url {
        Some(t) => {
            if load {
                return PreloadStep {
                    actions,
                    next: PreloadNext::RecordVisit { key: nav_key(current, t.as_str()) },
                };
            }
            if same_text(p.action_type.as_str(), "hover") {
                actions.push(PreloadAction::Log(concat2("🎯 捕获意图: ", t.as_str())));
                actions.push(PreloadAction::Preconnect(preconnect_target(t.as_str())));
                assert(actions_view(actions@) =~= seq![
                    log_of("🎯 捕获意图: "@ + t@),
                    preconnect_of(t@),
                ]);
            }
            PreloadStep { actions, next: PreloadNext::Done }
        },
        None => {
            if load {
                PreloadStep { actions, next: PreloadNext::Predict { prefix: nav_prefix(current) } }
            } else {
                PreloadStep { actions, next: PreloadNext::Done }
            }
        },
    }
}

// ---------------------------------------------------------------------------
// Manual rules
// ---------------------------------------------------------------------------

/// The key and the rule stored when a rule is saved for `source`: both texts
/// are trimmed.
pub fn manual_rule_entry(source: &str, target: &str, allow_cookie: bool) -> (r: (String, ManualRule))
    ensures
        r.0@ == manual_rule_key_spec(trimmed(source@)),
        r.1.target_sub@ == trimmed(target@),
        r.1.allow_cookie == allow_cookie,
{
    let key = manual_rule_key(trim(source));
    let rule = ManualRule { target_sub: owned(trim(target)), allow_cookie };
    (key, rule)
}

/// The source read back from a stored rule key: the key with every
/// `manual:` removed.
pub fn rule_source(key: &str) -> (s: String)
    ensures
        s@ == remove_all(key@, "manual:"@),
{
    let v = char_vec(key);
    let p = char_vec("manual:");
    assert(v@.subrange(0, v@.len() as int) =~= v@);
    remove_all_chars(&v, 0, v.len(), &p)
}

/// The rules listed from a scan of stored (key, rule) entries, in scan
/// order; entries whose rule could not be read are left out.
pub open spec fn listed_rules(e: Seq<(Seq<u8>, Option<ManualRule>)>) -> Seq<(Seq<char>, ManualRule)>
    decreases e.len(),
{
    if e.len() == 0 {
        seq![]
    } else {
        let prev = listed_rules(e.drop_last());
        match e.last().1 {
            Some(r) => prev.push((remove_all(lossy_text(e.last().0), "manual:"@), r)),
            None => prev,
        }
    }
}

/// The view of a scan of stored (key, rule) entries.
pub open spec fn rule_entries_view(e: Seq<(Vec<u8>, Option<ManualRule>)>) -> Seq<(Seq<u8>, Option<ManualRule>)> {
    e.map_values(|x: (Vec<u8>, Option<ManualRule>)| (x.0@, x.1))
}

/// Lists the manual rules found by a scan of the `manual:` keys.
pub fn manual_rules_from_scan(entries: &Vec<(Vec<u8>, Option<ManualRule>)>) -> (r: Vec<(String, ManualRule)>)
    ensures
        r@.map_values(|x: (String, ManualRule)| (x.0@, x.1)) == listed_rules(rule_entries_view(entries@)),
{
    let mut out: Vec<(String, ManualRule)> = Vec::new();
    let n = entries.len();
    let mut i: usize = 0;
    assert(rule_entries_view(entries@).take(0) =~= Seq::<(Seq<u8>, Option<ManualRule>)>::empty());
    while i < n
        invariant
            i <= n,
            n == entries@.len(),
            out@.map_values(|x: (String, ManualRule)| (x.0@, x.1)) == listed_rules(
                rule_entries_view(entries@).take(i as int),
            ),
        decreases n - i,
    {
        let ghost ev = rule_entries_view(entries@);
        assert(ev.take(i + 1).drop_last() =~= ev.take(i as int));
        let entry = &entries[i];
        match &entry.1 {
            Some(rule) => {
                let key_text = from_utf8_lossy(entry.0.as_slice());
                let source = rule_source(key_text.as_str());
                let copy = ManualRule { target_sub: rule.target_sub.clone(), allow_cookie: rule.allow_cookie };
                let ghost before = out@.map_values(|x: (String, ManualRule)| (x.0@, x.1));
                out.push((source, copy));
                assert(out@.map_values(|x: (String, ManualRule)| (x.0@, x.1)) =~= before.push(
                    (remove_all(lossy_text(ev[i as int].0), "manual:"@), *rule),
                ));
            },
            None => {},
        }
        i += 1;
    }
    assert(rule_entries_view(entries@).take(n as int) =~= rule_entries_view(entries@));
    out
}

/// Removing a pattern from text that does not hold it changes nothing.
proof fn lemma_remove_absent(s: Seq<char>, p: Seq<char>)
    requires
        !crate::text::contains_seq(s, p),
    ensures
        remove_all(s, p) == s,
    decreases s.len(),
{
    if p.len() > 0 && s.len() > 0 {
        assert(!crate::text::occurs_at(s, p, 0));
        let d = s.drop_first();
        assert(!crate::text::contains_seq(d, p)) by {
            if crate::text::contains_seq(d, p) {
                let i = choose|i: int| crate::text::occurs_at(d, p, i);
                assert(s.subrange(i + 1, i + 1 + p.len()) =~= d.subrange(i, i + p.len()));
                assert(crate::text::occurs_at(s, p, i + 1));
            }
        }
        lemma_remove_absent(d, p);
        assert(seq![s[0]] + d =~= s);
    }
}

/// The source read back from the key of a source that does not hold
/// `manual:` is that source.
proof fn lemma_rule_key_source(s: Seq<char>)
    requires
        !crate::text::contains_seq(s, "manual:"@),
    ensures
        remove_all(manual_rule_key_spec(s), "manual:"@) == s,
{
    let k = manual_rule_key_spec(s);
    reveal_strlit("manual:");
    assert(crate::text::starts_with(k, "manual:"@)) by {
        assert(k.subrange(0, 7) =~= "manual:"@);
    }
    assert(k.skip(7) =~= s);
    lemma_remove_absent(s, "manual:"@);
}

/// Listing rules gives back what was saved: when each scanned entry holds the
/// stored key of a source (one without `manual:`) and a readable rule, the
/// list holds each source with its rule, in scan order; when the scanned
/// keys are distinct, no source is listed twice.
pub proof fn law_listed_rules_are_the_saved_rules(
    e: Seq<(Seq<u8>, Option<ManualRule>)>,
    sources: Seq<Seq<char>>,
)
    requires
        sources.len() == e.len(),
        forall|i: int| 0 <= i < e.len() ==> (#[trigger] e[i]).0 == encode_utf8(manual_rule_key_spec(sources[i])),
        forall|i: int| 0 <= i < e.len() ==> (#[trigger] e[i]).1 is Some,
        forall|i: int|
            0 <= i < sources.len() ==> !crate::text::contains_seq(#[trigger] sources[i], "manual:"@),
    ensures
        listed_rules(e) == Seq::new(e.len(), |i: int| (sources[i], e[i].1->0)),
        (forall|i: int, j: int| 0 <= i < j < e.len() ==> e[i].0 != e[j].0) ==> forall|i: int, j: int|
            0 <= i < j < e.len() ==> listed_rules(e)[i].0 != listed_rules(e)[j].0,
    decreases e.len(),
{
    if e.len() > 0 {
        let n = e.len() - 1;
        let d = e.drop_last();
        let ds = sources.drop_last();
        assert forall|i: int| 0 <= i < d.len() implies (#[trigger] d[i]).0 == encode_utf8(
            manual_rule_key_spec(ds[i]),
        ) && d[i].1 is Some by {
            assert(d[i] == e[i]);
        }
        assert forall|i: int| 0 <= i < ds.len() implies !crate::text::contains_seq(
            #[trigger] ds[i],
            "manual:"@,
        ) by {
            assert(ds[i] == sources[i]);
        }
        law_listed_rules_are_the_saved_rules(d, ds);
        let k = manual_rule_key_spec(sources[n]);
        assert(e[n].0 == encode_utf8(k));
        vstd::utf8::encode_utf8_valid_utf8(k);
        vstd::utf8::encode_utf8_decode_utf8(k);
        assert(!crate::text::contains_seq(sources[n], "manual:"@));
        lemma_rule_key_source(sources[n]);
        assert(e.last() == e[n]);
        assert(lossy_text(e.last().0) == k);
        assert(listed_rules(e) =~= Seq::new(e.len(), |i: int| (sources[i], e[i].1->0)));
        if forall|i: int, j: int| 0 <= i < j < e.len() ==> e[i].0 != e[j].0 {
            assert forall|i: int, j: int| 0 <= i < j < e.len() implies listed_rules(e)[i].0
                != listed_rules(e)[j].0 by {
                assert(e[i].0 != e[j].0);
                if sources[i] == sources[j] {
                    assert(e[i].0 == e[j].0);
                }
            }
        }
    }
}

/// A rule saved for a source is applied to every page of that site: the key
/// it is stored under is the key looked up for a page whose site is the
/// trimmed source, and listing the rules gives the source back (when the
/// source does not itself hold `manual:`).
pub proof fn law_saved_rule_is_found(source: Seq<char>, url: Seq<char>)
    requires
        !crate::text::contains_seq(trimmed(source), "manual:"@),
    ensures
        site_domain(url) == trimmed(source) ==> manual_rule_key_spec(site_domain(url))
            == manual_rule_key_spec(trimmed(source)),
        remove_all(manual_rule_key_spec(trimmed(source)), "manual:"@) == trimmed(source),
{
    lemma_rule_key_source(trimmed(source));
}

} // verus!
