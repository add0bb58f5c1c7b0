use speed_browser_system::commands::{
    estimated_savings, fix_action_plan, memory_usage_summary, FixEffect, SavingsDisplay,
};
use speed_browser_system::diagnosis::{
    any_mobile_interface, anomaly_log, connectivity_verdict, contains_mobile_keyword,
    diagnosis_suggestions, is_mobile_interface, CellularWatch,
};
use speed_browser_system::models::{ErrorReport, StrategyMode};
use speed_browser_system::monitor::{
    classify_strategy, memory_warning_percent, total_traffic, MonitorState, NetworkMode,
    SPEED_INTERVAL_SECS,
};

fn report(url: &str, error: &str) -> ErrorReport {
    ErrorReport { url: url.to_string(), error: error.to_string() }
}

#[test]
fn ticks_schedule_refresh_and_probe() {
    let mut s = MonitorState::new();
    let mut refresh = vec![];
    let mut probe = vec![];
    for _ in 0..31 {
        let p = s.begin_tick();
        if p.refresh_interfaces {
            refresh.push(s.tick_count);
        }
        if p.probe_network {
            probe.push(s.tick_count);
        }
    }
    assert_eq!(refresh, vec![1, 16, 31]);
    assert_eq!(probe, vec![5, 10, 15, 20, 25, 30]);
}

#[test]
fn first_traffic_sample_only_primes() {
    assert_eq!(SPEED_INTERVAL_SECS, 2);
    let mut s = MonitorState::new();
    assert_eq!(s.record_traffic(100, 50), (0, 0));
    assert_eq!(s.record_traffic(1100, 251), (500, 100));
    assert_eq!(s.record_traffic(1000, 301), (0, 25));
    assert_eq!((s.last_rx, s.last_tx), (1000, 301));
}

#[test]
fn strategy_changes_are_announced_once() {
    let mut s = MonitorState::new();
    assert_eq!(s.apply_pulse(false, 98), None);
    assert_eq!(s.apply_pulse(false, 30), Some(NetworkMode::HighSpeed));
    assert_eq!(s.strategy, StrategyMode::Recovery);
    assert_eq!(s.apply_pulse(false, 49), None);
    assert_eq!(s.apply_pulse(true, 99), Some(NetworkMode::LowData));
    assert_eq!(s.strategy, StrategyMode::PowerSave);
    assert_eq!(s.apply_pulse(true, 0), None);
    assert_eq!(s.apply_pulse(false, 50), Some(NetworkMode::HighSpeed));
    assert_eq!(s.strategy, StrategyMode::Performance);
}

#[test]
fn strategy_classification() {
    assert_eq!(classify_strategy(true, 100), StrategyMode::PowerSave);
    assert_eq!(classify_strategy(false, 49), StrategyMode::Recovery);
    assert_eq!(classify_strategy(false, 50), StrategyMode::Performance);
}

#[test]
fn mode_labels() {
    assert_eq!(NetworkMode::LowData.label(), "LOW_DATA");
    assert_eq!(NetworkMode::HighSpeed.label(), "HIGH_SPEED");
}

#[test]
fn traffic_totals() {
    assert_eq!(total_traffic(&vec![(1, 2), (3, 4)]), (4, 6));
    assert_eq!(total_traffic(&vec![]), (0, 0));
    // the sums wrap at 2^64
    assert_eq!(total_traffic(&vec![(u64::MAX, 0), (1, 0)]), (0, 0));
    assert_eq!(total_traffic(&vec![(u64::MAX, u64::MAX), (3, 2)]), (2, 1));
}

#[test]
fn tick_counter_wraps() {
    let mut s = MonitorState::new();
    s.tick_count = u64::MAX;
    let p = s.begin_tick();
    assert_eq!(s.tick_count, 0);
    assert!(p.probe_network);
    assert!(!p.refresh_interfaces);
}

#[test]
fn memory_warning_value() {
    assert_eq!(memory_warning_percent(95, 100), 95);
    assert_eq!(memory_warning_percent(2, 3), 66);
    // the product wraps at 2^64
    assert_eq!(memory_warning_percent(u64::MAX, u64::MAX), u64::MAX.wrapping_mul(100) / u64::MAX);
    assert_eq!(memory_warning_percent(1 << 62, 1), 0);
}

#[test]
fn dns_error_suggests_reset() {
    let v = diagnosis_suggestions(&report("https://a.com", "net::ERR_NAME_NOT_RESOLVED"));
    assert_eq!(v.len(), 1);
    assert_eq!(v[0].id, "dns_fix");
    assert_eq!(v[0].title, "域名解析异常");
    assert_eq!(v[0].desc, "无法找到目标服务器。建议检查网址或刷新 DNS。");
    assert_eq!(v[0].button_text, "一键重置 DNS");
    assert_eq!(v[0].action_type, "RESET_DNS");
    assert!(v[0].script_type.is_none() && v[0].code.is_none());
}

#[test]
fn timeout_suggests_mirror() {
    let v = diagnosis_suggestions(&report("https://a.com", "ERR_CONNECTION_TIMED_OUT"));
    assert_eq!(v.len(), 1);
    assert_eq!(v[0].id, "proxy_fix");
    assert_eq!(v[0].action_type, "TRY_MIRROR");
    assert_eq!(v[0].button_text, "尝试镜像站点");
    let both = diagnosis_suggestions(&report("x", "ERR_CONNECTION_TIMED_OUT ERR_NAME_NOT_RESOLVED"));
    assert_eq!(both[0].id, "dns_fix");
    assert!(diagnosis_suggestions(&report("x", "ERR_ABORTED")).is_empty());
}

#[test]
fn anomaly_line() {
    assert_eq!(anomaly_log(&report("https://a.com", "E1")), "🚨 发现异常: https://a.com (E1)");
}

#[test]
fn mobile_interfaces() {
    assert!(is_mobile_interface("Cellular 1"));
    assert!(is_mobile_interface("WWAN0"));
    assert!(is_mobile_interface("Mobile Broadband"));
    assert!(!is_mobile_interface("wlan0"));
    assert!(!contains_mobile_keyword("Cellular"));
    assert!(any_mobile_interface(&vec!["eth0".to_string(), "wwan0".to_string()]));
    assert!(!any_mobile_interface(&vec!["eth0".to_string()]));
}

#[test]
fn cellular_changes_are_announced() {
    let mut w = CellularWatch::new();
    assert!(w.observe(false).is_none());
    let c = w.observe(true).unwrap();
    assert_eq!(c.mode, NetworkMode::LowData);
    assert_eq!(c.log, "📡 环境感知：检测到移动网络，已切换至\"省流模式\"。");
    assert!(w.observe(true).is_none());
    let c = w.observe(false).unwrap();
    assert_eq!(c.mode, NetworkMode::HighSpeed);
    assert_eq!(c.log, "🌐 环境感知：已连接至无线网络，恢复极速预加载。");
}

#[test]
fn connectivity_verdicts() {
    assert_eq!(connectivity_verdict(false, true, "https://a.com"), "❌ 严重：检测到本机已断网！");
    assert_eq!(
        connectivity_verdict(true, true, "https://a.com/x"),
        "🤔 服务器 a.com 可达，可能是应用层错误。"
    );
    assert_eq!(
        connectivity_verdict(true, false, "bad url"),
        "❌ 目标服务器 目标服务器 确实无法连接 (Ping 失败)。"
    );
}

#[test]
fn memory_summary_in_mebibytes() {
    let gib = 1024u64 * 1024 * 1024;
    assert_eq!(memory_usage_summary(16 * gib, 8 * gib + 5), "总内存: 16384 MB | 已用: 8192 MB");
    assert_eq!(memory_usage_summary(0, 0), "总内存: 0 MB | 已用: 0 MB");
}

#[test]
fn savings_estimate() {
    let mib = 1024u64 * 1024;
    match estimated_savings(5 * mib * 100) {
        SavingsDisplay::Megabytes(s) => assert_eq!(s, "100 MB"),
        other => panic!("{other:?}"),
    }
    match estimated_savings(5 * mib * 1024) {
        SavingsDisplay::Megabytes(s) => assert_eq!(s, "1024 MB"),
        other => panic!("{other:?}"),
    }
    match estimated_savings(5 * mib * 2048) {
        SavingsDisplay::Gigabytes(mb) => assert_eq!(mb, 2048),
        other => panic!("{other:?}"),
    }
}

#[test]
fn fix_actions() {
    let p = fix_action_plan("RESET_DNS", true);
    assert_eq!(p.effect, FixEffect::FlushDns);
    assert_eq!(p.reply, Ok("DNS 缓存已刷新".to_string()));
    let p = fix_action_plan("RESET_DNS", false);
    assert_eq!(p.effect, FixEffect::Nothing);
    assert_eq!(p.reply, Ok("不支持当前系统".to_string()));
    let p = fix_action_plan("TRY_MIRROR", false);
    assert_eq!(p.effect, FixEffect::Redirect);
    assert_eq!(p.reply, Ok("已尝试切换镜像".to_string()));
    let p = fix_action_plan("FREEZE_TABS", true);
    assert_eq!(p.effect, FixEffect::FreezeTabs);
    assert_eq!(p.reply, Ok("后台资源回收中".to_string()));
    let p = fix_action_plan("reset_dns", true);
    assert_eq!(p.effect, FixEffect::Nothing);
    assert_eq!(p.reply, Err("未知动作".to_string()));
}
