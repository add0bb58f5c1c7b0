use speed_browser_system::models::{
    McpParams, McpRequest, McpResult, McpSettings, PageSnapshot, TabState,
};
use speed_browser_system::server::{
    cors_allowed_origins, is_allowed_origin, is_authorized, is_loopback_http_origin, mcp_dispatch,
    mcp_method, mcp_store_failed, origin_permitted, rejection_reply, McpAction, McpMethod,
    RejectionCauses,
};

fn settings(freeze: bool, fix: bool) -> McpSettings {
    McpSettings {
        ai_enabled: true,
        allow_tab_freeze: freeze,
        allow_network_fix: fix,
        auto_execute: false,
        auth_token: "tok".to_string(),
    }
}

fn no_params() -> McpParams {
    McpParams { snapshot: None, tab_state: None, source: None, target: None }
}

fn request(method: &str, params: McpParams) -> McpRequest {
    McpRequest { method: method.to_string(), params, id: 7 }
}

fn snapshot(url: &str) -> PageSnapshot {
    PageSnapshot {
        url: url.to_string(),
        title: "Title".to_string(),
        text_content: "text".to_string(),
        timestamp: 1,
    }
}

fn causes() -> RejectionCauses {
    RejectionCauses {
        unauthorized: false,
        cors_forbidden: false,
        not_found: false,
        method_not_allowed: false,
        payload_too_large: false,
        bad_json_body: false,
    }
}

#[test]
fn extension_origins_are_allowed() {
    assert!(is_allowed_origin("chrome-extension://abcdef"));
    assert!(is_allowed_origin("moz-extension://1234"));
    assert!(is_allowed_origin("safari-web-extension://x"));
    assert!(is_allowed_origin("ms-browser-extension://x"));
}

#[test]
fn webview_origins_are_allowed() {
    assert!(is_allowed_origin("tauri://localhost"));
    assert!(is_allowed_origin("http://tauri.localhost"));
    assert!(is_allowed_origin("https://tauri.localhost"));
    assert!(!is_allowed_origin("https://tauri.localhost.evil.com"));
}

#[test]
fn loopback_origins_with_ports_are_allowed() {
    assert!(is_allowed_origin("http://localhost"));
    assert!(is_allowed_origin("http://localhost:1420"));
    assert!(is_allowed_origin(" http://127.0.0.1:3030 "));
    assert!(is_allowed_origin("https://[::1]:8443"));
    assert!(is_loopback_http_origin("http://127.0.0.1:5173"));
    assert!(!is_loopback_http_origin(" http://127.0.0.1:5173"));
}

#[test]
fn lookalike_origins_are_refused() {
    assert!(!is_allowed_origin("http://localhost.evil.com"));
    assert!(!is_allowed_origin("http://localhost:"));
    assert!(!is_allowed_origin("http://localhost:12a"));
    assert!(!is_allowed_origin("http://127.0.0.1.nip.io"));
    assert!(!is_allowed_origin("https://evil.com"));
    assert!(!is_allowed_origin("null"));
    assert!(!is_allowed_origin(""));
    assert!(!is_allowed_origin("   "));
}

#[test]
fn requests_without_origin_pass_the_gate() {
    assert!(origin_permitted(None));
    assert!(origin_permitted(Some("chrome-extension://id")));
    assert!(!origin_permitted(Some("https://evil.com")));
}

#[test]
fn cors_origins_pass_the_origin_gate() {
    let list = cors_allowed_origins();
    assert_eq!(list.len(), 13);
    assert_eq!(list[0], "tauri://localhost");
    assert_eq!(list[12], "http://127.0.0.1:3000");
    for o in list {
        assert!(is_allowed_origin(o), "{o}");
    }
}

#[test]
fn token_header_is_checked() {
    assert!(is_authorized(Some("tok"), "tok"));
    assert!(is_authorized(Some(" tok "), "tok\n"));
    assert!(!is_authorized(Some("tok2"), "tok"));
    assert!(!is_authorized(None, "tok"));
    assert!(!is_authorized(Some(""), "tok"));
    assert!(!is_authorized(Some(""), ""));
    // a blank header against a blank session token compares equal once trimmed
    assert!(is_authorized(Some("  "), ""));
}

#[test]
fn session_token_authorizes_itself() {
    let t = speed_browser_system::config::generate_token();
    assert!(is_authorized(Some(&t), &t));
}

#[test]
fn refusals_are_answered_by_cause() {
    let mut c = causes();
    let r = rejection_reply(c);
    assert_eq!((r.status, r.message.as_str()), (500, "internal server error"));
    c.bad_json_body = true;
    assert_eq!(rejection_reply(c).status, 400);
    assert_eq!(rejection_reply(c).message, "invalid json body");
    c.payload_too_large = true;
    assert_eq!(rejection_reply(c).status, 413);
    c.method_not_allowed = true;
    assert_eq!(rejection_reply(c).status, 405);
    c.not_found = true;
    assert_eq!(rejection_reply(c).status, 404);
    c.cors_forbidden = true;
    assert_eq!(rejection_reply(c).status, 403);
    assert_eq!(rejection_reply(c).message, "origin not allowed");
    c.unauthorized = true;
    let r = rejection_reply(c);
    assert_eq!(r.status, 401);
    assert_eq!(r.message, "invalid or missing x-neuro-token");
}

#[test]
fn method_names() {
    assert_eq!(mcp_method("ping"), McpMethod::Ping);
    assert_eq!(mcp_method("get_system_status"), McpMethod::GetSystemStatus);
    assert_eq!(mcp_method("save_snapshot"), McpMethod::SaveSnapshot);
    assert_eq!(mcp_method("freeze_tabs"), McpMethod::FreezeTabs);
    assert_eq!(mcp_method("fix_dns"), McpMethod::FixDns);
    assert_eq!(mcp_method("update_tab_heartbeat"), McpMethod::UpdateTabHeartbeat);
    assert_eq!(mcp_method("add_preload_rule"), McpMethod::AddPreloadRule);
    assert_eq!(mcp_method("Ping"), McpMethod::Unknown);
}

#[test]
fn ping_is_answered_pong() {
    let d = mcp_dispatch(&request("ping", no_params()), &settings(true, true));
    assert_eq!(d.response.jsonrpc, "2.0");
    assert_eq!(d.response.id, 7);
    assert!(matches!(d.response.result, McpResult::Pong));
    assert!(matches!(d.action, McpAction::Nothing));
}

#[test]
fn system_status_reads_memory() {
    let d = mcp_dispatch(&request("get_system_status", no_params()), &settings(true, true));
    assert!(matches!(d.response.result, McpResult::SystemStatus));
    assert!(matches!(d.action, McpAction::ReadMemory));
}

#[test]
fn snapshot_is_stored() {
    let mut p = no_params();
    p.snapshot = Some(snapshot("https://news.example.com/a"));
    let d = mcp_dispatch(&request("save_snapshot", p), &settings(true, true));
    assert!(matches!(d.response.result, McpResult::Saved));
    match d.action {
        McpAction::StoreSnapshot { key, snapshot, log } => {
            assert_eq!(key, "snap:https://news.example.com/a");
            assert_eq!(snapshot.url, "https://news.example.com/a");
            assert_eq!(snapshot.text_content, "text");
            assert_eq!(log, "💾 已加密存储: Title");
        }
        other => panic!("{other:?}"),
    }
}

#[test]
fn sensitive_snapshot_is_refused() {
    let mut p = no_params();
    p.snapshot = Some(snapshot("https://www.Alipay.com/pay"));
    let d = mcp_dispatch(&request("save_snapshot", p), &settings(true, true));
    assert!(matches!(d.response.result, McpResult::PrivacyBlocked));
    match d.action {
        McpAction::Log(line) => assert_eq!(line, "🛡️ 拦截敏感页面: https://www.Alipay.com/pay"),
        other => panic!("{other:?}"),
    }
}

#[test]
fn snapshot_without_data_is_invalid() {
    let d = mcp_dispatch(&request("save_snapshot", no_params()), &settings(true, true));
    assert!(matches!(d.response.result, McpResult::InvalidData));
    assert!(matches!(d.action, McpAction::Nothing));
}

#[test]
fn freeze_and_fix_need_permission() {
    let d = mcp_dispatch(&request("freeze_tabs", no_params()), &settings(true, false));
    assert!(matches!(d.response.result, McpResult::Executed));
    assert!(matches!(d.action, McpAction::FreezeTabs));
    let d = mcp_dispatch(&request("freeze_tabs", no_params()), &settings(false, true));
    assert!(matches!(d.response.result, McpResult::PermissionDenied));
    assert!(matches!(d.action, McpAction::Nothing));
    let d = mcp_dispatch(&request("fix_dns", no_params()), &settings(false, true));
    assert!(matches!(d.response.result, McpResult::Executed));
    assert!(matches!(d.action, McpAction::FixDns));
    let d = mcp_dispatch(&request("fix_dns", no_params()), &settings(true, false));
    assert!(matches!(d.response.result, McpResult::PermissionDenied));
}

#[test]
fn heartbeat_is_logged() {
    let mut p = no_params();
    p.tab_state = Some(TabState {
        url: "https://a.com".to_string(),
        title: None,
        score: -5,
        last_heartbeat: 3,
        active_reasons: vec![],
        snapshot: "null".to_string(),
    });
    let d = mcp_dispatch(&request("update_tab_heartbeat", p), &settings(true, true));
    assert!(matches!(d.response.result, McpResult::HeartbeatOk { score: -5 }));
    match d.action {
        McpAction::Log(line) => assert_eq!(line, "💓 收到心跳 [分值: -5]: 无标题"),
        other => panic!("{other:?}"),
    }
    let mut p = no_params();
    p.tab_state = Some(TabState {
        url: "https://a.com".to_string(),
        title: Some("Docs".to_string()),
        score: 42,
        last_heartbeat: 3,
        active_reasons: vec!["audio".to_string()],
        snapshot: "{}".to_string(),
    });
    let d = mcp_dispatch(&request("update_tab_heartbeat", p), &settings(true, true));
    match d.action {
        McpAction::Log(line) => assert_eq!(line, "💓 收到心跳 [分值: 42]: Docs"),
        other => panic!("{other:?}"),
    }
}

#[test]
fn malformed_heartbeat_is_reported() {
    let d = mcp_dispatch(&request("update_tab_heartbeat", no_params()), &settings(true, true));
    assert!(matches!(d.response.result, McpResult::HeartbeatInvalid));
}

#[test]
fn preload_rule_is_added() {
    let mut p = no_params();
    p.source = Some(" bilibili.com ".to_string());
    p.target = Some(" message ".to_string());
    let d = mcp_dispatch(&request("add_preload_rule", p), &settings(true, true));
    assert!(matches!(d.response.result, McpResult::Added));
    match d.action {
        McpAction::StoreRule { key, rule } => {
            assert_eq!(key, "manual:bilibili.com");
            assert_eq!(rule.target_sub, "message");
            assert!(!rule.allow_cookie);
        }
        other => panic!("{other:?}"),
    }
}

#[test]
fn preload_rule_needs_both_params() {
    let mut p = no_params();
    p.source = Some("a.com".to_string());
    p.target = Some(String::new());
    let d = mcp_dispatch(&request("add_preload_rule", p), &settings(true, true));
    assert!(matches!(d.response.result, McpResult::MissingParams));
    assert!(matches!(d.action, McpAction::Nothing));
    let d = mcp_dispatch(&request("add_preload_rule", no_params()), &settings(true, true));
    assert!(matches!(d.response.result, McpResult::MissingParams));
}

#[test]
fn unknown_method_is_reported() {
    let d = mcp_dispatch(&request("reboot", no_params()), &settings(true, true));
    assert!(matches!(d.response.result, McpResult::UnknownMethod));
    assert!(matches!(d.action, McpAction::Nothing));
}

#[test]
fn failed_store_replies() {
    let mut p = no_params();
    p.snapshot = Some(snapshot("https://a.com"));
    let d = mcp_dispatch(&request("save_snapshot", p), &settings(true, true));
    let r = mcp_store_failed(&d).unwrap();
    assert!(matches!(r.result, McpResult::SerializeError));
    assert_eq!(r.id, 7);
    let mut p = no_params();
    p.source = Some("a.com".to_string());
    p.target = Some("m".to_string());
    let d = mcp_dispatch(&request("add_preload_rule", p), &settings(true, true));
    assert!(matches!(mcp_store_failed(&d).unwrap().result, McpResult::DbError));
    let d = mcp_dispatch(&request("ping", no_params()), &settings(true, true));
    assert!(mcp_store_failed(&d).is_none());
}
