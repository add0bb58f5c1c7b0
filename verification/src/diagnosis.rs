//! Error diagnosis: fix suggestions for reported errors, mobile network
//! detection and the connectivity verdict.

use vstd::prelude::*;

use crate::models::{ErrorReport, FixSuggestion};
use crate::monitor::NetworkMode;
use crate::text::{char_vec, concat3, contains_chars, contains_seq, lowercase_of, owned, to_lowercase};
use crate::utils::{extract_hostname, hostname_of};

verus! {

/// The card suggesting a DNS reset.
pub open spec fn is_dns_card(s: FixSuggestion) -> bool {
    &&& s.id@ == "dns_fix"@
    &&& s.title@ == "域名解析异常"@
    &&& s.desc@ == "无法找到目标服务器。建议检查网址或刷新 DNS。"@
    &&& s.button_text@ == "一键重置 DNS"@
    &&& s.action_type@ == "RESET_DNS"@
    &&& s.script_type is None
    &&& s.code is None
}

/// The card suggesting a mirror site.
pub open spec fn is_mirror_card(s: FixSuggestion) -> bool {
    &&& s.id@ == "proxy_fix"@
    &&& s.title@ == "连接超时"@
    &&& s.desc@ == "主站响应缓慢，建议尝试镜像访问。"@
    &&& s.button_text@ == "尝试镜像站点"@
    &&& s.action_type@ == "TRY_MIRROR"@
    &&& s.script_type is None
    &&& s.code is None
}

/// The fix suggestions for a reported error: a DNS reset for an unresolved
/// name, else a mirror for a timed-out connection, else none.
pub fn diagnosis_suggestions(report: &ErrorReport) -> (v: Vec<FixSuggestion>)
    ensures
        contains_seq(report.error@, "ERR_NAME_NOT_RESOLVED"@) ==> v@.len() == 1 && is_dns_card(v@[0]),
        !contains_seq(report.error@, "ERR_NAME_NOT_RESOLVED"@) && contains_seq(
            report.error@,
            "ERR_CONNECTION_TIMED_OUT"@,
        ) ==> v@.len() == 1 && is_mirror_card(v@[0]),
        !contains_seq(report.error@, "ERR_NAME_NOT_RESOLVED"@) && !contains_seq(
            report.error@,
            "ERR_CONNECTION_TIMED_OUT"@,
        ) ==> v@.len() == 0,
{
    let e = char_vec(report.error.as_str());
    let mut v: Vec<FixSuggestion> = Vec::new();
    if contains_chars(&e, &char_vec("ERR_NAME_NOT_RESOLVED")) {
        v.push(
            FixSuggestion {
                id: owned("dns_fix"),
                title: owned("域名解析异常"),
                desc: owned("无法找到目标服务器。建议检查网址或刷新 DNS。"),
                button_text: owned("一键重置 DNS"),
                action_type: owned("RESET_DNS"),
                script_type: None,
                code: None,
            },
        );
    } else if contains_chars(&e, &char_vec("ERR_CONNECTION_TIMED_OUT")) {
        v.push(
            FixSuggestion {
                id: owned("proxy_fix"),
                title: owned("连接超时"),
                desc: owned("主站响应缓慢，建议尝试镜像访问。"),
                button_text: owned("尝试镜像站点"),
                action_type: owned("TRY_MIRROR"),
                script_type: None,
                code: None,
            },
        );
    }
    v
}

/// The log line announcing a reported error.
pub fn anomaly_log(report: &ErrorReport) -> (s: String)
    ensures
        s@ == "🚨 发现异常: "@ + report.url@ + " ("@ + report.error@ + ")"@,
{
    let mut s = concat3("🚨 发现异常: ", report.url.as_str(), " (");
    s.append(report.error.as_str());
    s.append(")");
    s
}

/// Some mobile keyword (`cellular`, `mobile`, `wwan`) occurs in `s`.
pub open spec fn has_mobile_keyword(s: Seq<char>) -> bool {
    contains_seq(s, "cellular"@) || contains_seq(s, "mobile"@) || contains_seq(s, "wwan"@)
}

/// An interface name that belongs to a mobile network.
pub open spec fn mobile_interface(name: Seq<char>) -> bool {
    has_mobile_keyword(lowercase_of(name))
}

/// An interface is taken for a mobile network exactly when its lowercase
/// name holds `cellular`, `mobile` or `wwan`; in particular any name with a
/// `WWAN` or `Mobile` part, in whatever ASCII case, is mobile.
pub proof fn law_mobile_interfaces(name: Seq<char>)
    ensures
        mobile_interface(name) <==> (contains_seq(lowercase_of(name), "cellular"@) || contains_seq(
            lowercase_of(name),
            "mobile"@,
        ) || contains_seq(lowercase_of(name), "wwan"@)),
{
}

/// Whether an already lowercased interface name holds a mobile keyword.
pub fn contains_mobile_keyword(lower: &str) -> (b: bool)
    ensures
        b == has_mobile_keyword(lower@),
{
    let v = char_vec(lower);
    contains_chars(&v, &char_vec("cellular")) || contains_chars(&v, &char_vec("mobile"))
        || contains_chars(&v, &char_vec("wwan"))
}

/// Whether an interface belongs to a mobile network, by its lowercase name.
pub fn is_mobile_interface(name: &str) -> (b: bool)
    ensures
        b == mobile_interface(name@),
{
    let lower = to_lowercase(name);
    contains_mobile_keyword(lower.as_str())
}

/// Whether any of the interfaces belongs to a mobile network.
pub fn any_mobile_interface(names: &Vec<String>) -> (b: bool)
    ensures
        b == exists|i: int| 0 <= i < names@.len() && mobile_interface(#[trigger] names@[i]@),
{
    let n = names.len();
    let mut i: usize = 0;
    while i < n
        invariant
            i <= n,
            n == names@.len(),
            forall|j: int| 0 <= j < i ==> !mobile_interface(#[trigger] names@[j]@),
        decreases n - i,
    {
        if is_mobile_interface(names[i].as_str()) {
            return true;
        }
        i += 1;
    }
    false
}

/// A change of network kind to announce: the mode and the log line.
#[derive(Debug, Clone)]
pub struct ModeChange {
    pub mode: NetworkMode,
    pub log: String,
}

/// Watches whether the machine is on a mobile network during a diagnosis.
#[derive(Debug, Clone, Copy)]
pub struct CellularWatch {
    pub last_is_cellular: bool,
}

impl CellularWatch {
    /// A watch that starts from "not mobile".
    pub fn new() -> (w: CellularWatch)
        ensures
            !w.last_is_cellular,
    {
        CellularWatch { last_is_cellular: false }
    }

    /// Records whether the machine is on a mobile network now; a change is
    /// announced as data saving (mobile) or full speed (wireless).
    pub fn observe(&mut self, is_cellular: bool) -> (c: Option<ModeChange>)
        ensures
            final(self).last_is_cellular == is_cellular,
            c is Some == (is_cellular != old(self).last_is_cellular),
            c matches Some(m) ==> if is_cellular {
                m.mode == NetworkMode::LowData && m.log@
                    == "📡 环境感知：检测到移动网络，已切换至\"省流模式\"。"@
            } else {
                m.mode == NetworkMode::HighSpeed && m.log@
                    == "🌐 环境感知：已连接至无线网络，恢复极速预加载。"@
            },
    {
        if is_cellular == self.last_is_cellular {
            return None;
        }
        self.last_is_cellular = is_cellular;
        if is_cellular {
            Some(
                ModeChange {
                    mode: NetworkMode::LowData,
                    log: owned("📡 环境感知：检测到移动网络，已切换至\"省流模式\"。"),
                },
            )
        } else {
            Some(
                ModeChange {
                    mode: NetworkMode::HighSpeed,
                    log: owned("🌐 环境感知：已连接至无线网络，恢复极速预加载。"),
                },
            )
        }
    }
}

/// The host a connectivity message names: the host name of the URL when it
/// has one, else "目标服务器".
pub open spec fn host_shown(url: Seq<char>) -> Seq<char> {
    match hostname_of(url) {
        Some(h) => h,
        None => "目标服务器"@,
    }
}

/// The verdict of the connectivity check: when the internet cannot be
/// reached the machine is offline; else the target's host (or "目标服务器")
/// is reported reachable or not.
pub open spec fn verdict_spec(internet_ok: bool, target_ok: bool, url: Seq<char>) -> Seq<char> {
    let shown = match hostname_of(url) {
        Some(h) => h,
        None => "目标服务器"@,
    };
    if !internet_ok {
        "❌ 严重：检测到本机已断网！"@
    } else if target_ok {
        "🤔 服务器 "@ + shown + " 可达，可能是应用层错误。"@
    } else {
        "❌ 目标服务器 "@ + shown + " 确实无法连接 (Ping 失败)。"@
    }
}

/// The verdict follows the two checks: offline whenever the internet cannot
/// be reached; with the internet reachable, the target is reported
/// reachable exactly when its ping succeeded, and as unreachable
/// ("确实无法连接 (Ping 失败)") exactly when it failed, naming its host when
/// one can be extracted.
pub proof fn law_verdict_follows_the_checks(internet_ok: bool, target_ok: bool, url: Seq<char>)
    ensures
        !internet_ok ==> verdict_spec(internet_ok, target_ok, url) == "❌ 严重：检测到本机已断网！"@,
        internet_ok && target_ok ==> verdict_spec(internet_ok, target_ok, url) == "🤔 服务器 "@
            + host_shown(url) + " 可达，可能是应用层错误。"@,
        internet_ok && !target_ok ==> verdict_spec(internet_ok, target_ok, url) == "❌ 目标服务器 "@
            + host_shown(url) + " 确实无法连接 (Ping 失败)。"@,
        internet_ok ==> (verdict_spec(internet_ok, target_ok, url) != verdict_spec(
            internet_ok,
            !target_ok,
            url,
        )),
{
    let shown = host_shown(url);
    if internet_ok {
        let a = "🤔 服务器 "@ + shown + " 可达，可能是应用层错误。"@;
        let b = "❌ 目标服务器 "@ + shown + " 确实无法连接 (Ping 失败)。"@;
        reveal_strlit("🤔 服务器 ");
        reveal_strlit("❌ 目标服务器 ");
        assert(a[0] != b[0]);
    }
}

/// The verdict of the connectivity check for a reported URL.
pub fn connectivity_verdict(internet_ok: bool, target_ok: bool, url: &str) -> (s: String)
    ensures
        s@ == verdict_spec(internet_ok, target_ok, url@),
{
    if !internet_ok {
        return owned("❌ 严重：检测到本机已断网！");
    }
    let shown = match extract_hostname(url) {
        Some(h) => h,
        None => owned("目标服务器"),
    };
    if target_ok {
        concat3("🤔 服务器 ", shown.as_str(), " 可达，可能是应用层错误。")
    } else {
        concat3("❌ 目标服务器 ", shown.as_str(), " 确实无法连接 (Ping 失败)。")
    }
}

} // verus!
