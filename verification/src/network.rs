//! Network probing: ping targets, the quality score of a DNS + TCP probe,
//! and the address used to pre-connect to a page.

use vstd::prelude::*;

use crate::models::NetworkPulse;
use crate::text::{before_char, char_vec, concat2, first_index, index_of_char, owned};
use crate::utils::{extract_hostname, hostname_of};

verus! {

/// `url.split('/').nth(2)`: the text between the second and the third `/`
/// (or the end), if `url` holds at least two `/`.
pub open spec fn third_field(url: Seq<char>) -> Option<Seq<char>> {
    let i1 = first_index(url, '/');
    if i1 >= url.len() {
        None
    } else {
        let r1 = url.skip(i1 + 1);
        let i2 = first_index(r1, '/');
        if i2 >= r1.len() {
            None
        } else {
            Some(before_char(r1.skip(i2 + 1), '/'))
        }
    }
}

/// Finds the third `/`-separated field of `v`, as a range of indices.
pub fn third_field_range(v: &Vec<char>) -> (r: Option<(usize, usize)>)
    ensures
        match (r, third_field(v@)) {
            (Some((a, b)), Some(f)) => a <= b <= v@.len() && v@.subrange(a as int, b as int) == f,
            (None, None) => true,
            _ => false,
        },
{
    let n = v.len();
    assert(v@.subrange(0, n as int) =~= v@);
    let i1 = index_of_char(v, 0, n, '/');
    if i1 == n {
        return None;
    }
    let ghost r1 = v@.skip(i1 + 1);
    assert(r1 =~= v@.subrange(i1 + 1, n as int));
    let i2 = index_of_char(v, i1 + 1, n, '/');
    if i2 == n {
        return None;
    }
    let ghost r2 = r1.skip(i2 - i1);
    assert(r2 =~= v@.subrange(i2 + 1, n as int));
    let i3 = index_of_char(v, i2 + 1, n, '/');
    assert(before_char(r2, '/') =~= v@.subrange(i2 + 1, i3 as int));
    Some((i2 + 1, i3))
}

/// The address pre-connected to for a URL: its host field (the whole URL if
/// it has none), with `:443` added unless it already holds a `:`.
pub open spec fn preconnect_target_spec(url: Seq<char>) -> Seq<char> {
    let domain = match third_field(url) {
        Some(f) => f,
        None => url,
    };
    if first_index(domain, ':') < domain.len() {
        domain
    } else {
        domain + ":443"@
    }
}

/// The address to pre-connect to for a URL.
pub fn preconnect_target(url: &str) -> (r: String)
    ensures
        r@ == preconnect_target_spec(url@),
{
    let v = char_vec(url);
    let (a, b) = match third_field_range(&v) {
        Some(range) => range,
        None => (0, v.len()),
    };
    assert(v@.subrange(0, v@.len() as int) =~= v@);
    let domain = url.substring_char(a, b);
    let k = index_of_char(&v, a, b, ':');
    assert(domain@ == v@.subrange(a as int, b as int));
    if k < b {
        owned(domain)
    } else {
        concat2(domain, ":443")
    }
}

/// The host pinged for a target: its host name, or `127.0.0.1` when none can
/// be extracted.
pub open spec fn ping_host_spec(target: Seq<char>) -> Seq<char> {
    match hostname_of(target) {
        Some(h) => h,
        None => "127.0.0.1"@,
    }
}

/// The host to ping for a target.
pub fn ping_host(target: &str) -> (r: String)
    ensures
        r@ == ping_host_spec(target@),
{
    match extract_hostname(target) {
        Some(h) => h,
        None => owned("127.0.0.1"),
    }
}

/// The arguments of a single silent ping of `target`: `-n 1` on Windows,
/// `-c 1` elsewhere, then the host.
pub fn ping_args(target: &str, windows: bool) -> (args: Vec<String>)
    ensures
        args@.len() == 3,
        args@[0]@ == (if windows {
            "-n"@
        } else {
            "-c"@
        }),
        args@[1]@ == "1"@,
        args@[2]@ == ping_host_spec(target@),
{
    let flag = if windows {
        owned("-n")
    } else {
        owned("-c")
    };
    let mut args: Vec<String> = Vec::new();
    args.push(flag);
    args.push(owned("1"));
    args.push(ping_host(target));
    args
}

/// The address probed for a domain: the domain on port 443.
pub fn pulse_target(domain: &str) -> (r: String)
    ensures
        r@ == domain@ + ":443"@,
{
    concat2(domain, ":443")
}

/// What a DNS + TCP probe observed.
#[derive(Debug, Clone, Copy)]
pub enum ProbeOutcome {
    /// the name could not be resolved at all
    ResolveFailed,
    /// resolution returned no address, after `dns_ms`
    NoAddress { dns_ms: u128 },
    /// an address was found after `dns_ms`, and the TCP handshake took
    /// `tcp_ms` and succeeded or not
    Probed { dns_ms: u128, tcp_ms: u128, connected: bool },
}

/// The score and diagnosis of a probe that reached the TCP stage. The worse
/// conditions are judged first: a failed handshake, then a handshake over
/// 1000 ms, then one over 400 ms, then a DNS answer over 300 ms.
pub open spec fn probe_score(dns_ms: u128, tcp_ms: u128, connected: bool) -> (u8, Seq<char>) {
    if !connected {
        (0, "目标服务器拒绝连接 (RST)"@)
    } else if tcp_ms > 1000 {
        (20, "网络极差，可能会断线"@)
    } else if tcp_ms > 400 {
        (50, "物理线路拥堵 (高延迟)，已暂停预加载"@)
    } else if dns_ms > 300 {
        (60, "DNS 服务器响应迟缓，建议重置"@)
    } else {
        (98, "链路极佳，全速引擎已激活"@)
    }
}

/// The network pulse reported for a probe.
pub open spec fn pulse_spec(p: ProbeOutcome) -> (u128, u128, u8, Seq<char>) {
    match p {
        ProbeOutcome::ResolveFailed => (0, 0, 0, "DNS 解析彻底失败"@),
        ProbeOutcome::NoAddress { dns_ms } => (dns_ms, 0, 10, "DNS 解析无结果"@),
        ProbeOutcome::Probed { dns_ms, tcp_ms, connected } => {
            let (score, text) = probe_score(dns_ms, tcp_ms, connected);
            (dns_ms, tcp_ms, score, text)
        },
    }
}

/// Measures network quality in layers: scores a DNS + TCP probe.
pub fn pulse_from_probe(p: ProbeOutcome) -> (r: NetworkPulse)
    ensures
        (r.dns_time_ms, r.tcp_handshake_ms, r.quality_score, r.diagnosis@) == pulse_spec(p),
        r.quality_score <= 100,
{
    match p {
        ProbeOutcome::ResolveFailed => NetworkPulse {
            dns_time_ms: 0,
            tcp_handshake_ms: 0,
            quality_score: 0,
            diagnosis: owned("DNS 解析彻底失败"),
        },
        ProbeOutcome::NoAddress { dns_ms } => NetworkPulse {
            dns_time_ms: dns_ms,
            tcp_handshake_ms: 0,
            quality_score: 10,
            diagnosis: owned("DNS 解析无结果"),
        },
        ProbeOutcome::Probed { dns_ms, tcp_ms, connected } => {
            let (score, text) = if !connected {
                (0u8, "目标服务器拒绝连接 (RST)")
            } else if tcp_ms > 1000 {
                (20u8, "网络极差，可能会断线")
            } else if tcp_ms > 400 {
                (50u8, "物理线路拥堵 (高延迟)，已暂停预加载")
            } else if dns_ms > 300 {
                (60u8, "DNS 服务器响应迟缓，建议重置")
            } else {
                (98u8, "链路极佳，全速引擎已激活")
            };
            NetworkPulse {
                dns_time_ms: dns_ms,
                tcp_handshake_ms: tcp_ms,
                quality_score: score,
                diagnosis: owned(text),
            }
        },
    }
}

/// The pulse reported when the probe itself could not run.
pub fn probe_failed_pulse() -> (r: NetworkPulse)
    ensures
        r.dns_time_ms == 0,
        r.tcp_handshake_ms == 0,
        r.quality_score == 0,
        r.diagnosis@ == "探测失败"@,
{
    NetworkPulse {
        dns_time_ms: 0,
        tcp_handshake_ms: 0,
        quality_score: 0,
        diagnosis: owned("探测失败"),
    }
}

/// The score bands of a probe. A failed resolution scores 0, a resolution
/// without an address 10. For a probe that reached the TCP stage, a refused
/// connection scores 0; a connected probe scores 20 when the handshake took
/// over 1000 ms, 50 exactly when it took over 400 ms and at most 1000 ms, 60
/// when the handshake took at most 400 ms but DNS over 300 ms, and 98 with
/// "链路极佳，全速引擎已激活" when DNS took at most 300 ms and the handshake at
/// most 400 ms.
pub proof fn law_probe_score_bands(dns_ms: u128, tcp_ms: u128, connected: bool)
    ensures
        (probe_score(dns_ms, tcp_ms, connected).0 == 0) <==> !connected,
        (probe_score(dns_ms, tcp_ms, connected).0 == 20) <==> (connected && tcp_ms > 1000),
        (probe_score(dns_ms, tcp_ms, connected).0 == 50) <==> (connected && 400 < tcp_ms
            && tcp_ms <= 1000),
        (probe_score(dns_ms, tcp_ms, connected).0 == 60) <==> (connected && tcp_ms <= 400 && dns_ms
            > 300),
        (probe_score(dns_ms, tcp_ms, connected).0 == 98) <==> (connected && tcp_ms <= 400 && dns_ms
            <= 300),
        connected && tcp_ms <= 400 && dns_ms <= 300 ==> probe_score(dns_ms, tcp_ms, connected).1
            == "链路极佳，全速引擎已激活"@,
        connected && 400 < tcp_ms && tcp_ms <= 1000 ==> probe_score(dns_ms, tcp_ms, connected).1
            == "物理线路拥堵 (高延迟)，已暂停预加载"@,
        !connected ==> probe_score(dns_ms, tcp_ms, connected).1 == "目标服务器拒绝连接 (RST)"@,
        connected && tcp_ms > 1000 ==> probe_score(dns_ms, tcp_ms, connected).1
            == "网络极差，可能会断线"@,
        connected && tcp_ms <= 400 && dns_ms > 300 ==> probe_score(dns_ms, tcp_ms, connected).1
            == "DNS 服务器响应迟缓，建议重置"@,
        pulse_spec(ProbeOutcome::ResolveFailed) == (0u128, 0u128, 0u8, "DNS 解析彻底失败"@),
        pulse_spec(ProbeOutcome::NoAddress { dns_ms }) == (dns_ms, 0u128, 10u8, "DNS 解析无结果"@),
        pulse_spec(ProbeOutcome::Probed { dns_ms, tcp_ms, connected }) == (
            dns_ms,
            tcp_ms,
            probe_score(dns_ms, tcp_ms, connected).0,
            probe_score(dns_ms, tcp_ms, connected).1,
        ),
{
}

/// A worse network never scores better: with the same handshake outcome, a
/// probe that is no faster in DNS and no faster in TCP scores at most as high.
pub proof fn law_worse_latency_never_scores_better(
    d1: u128,
    t1: u128,
    d2: u128,
    t2: u128,
    connected: bool,
)
    requires
        d1 <= d2,
        t1 <= t2,
    ensures
        probe_score(d2, t2, connected).0 <= probe_score(d1, t1, connected).0,
{
}

} // verus!
