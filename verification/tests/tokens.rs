use speed_browser_system::config::{
    generate_token, plan_rotation, plan_rotation_with, plan_token_mode, plan_token_mode_with,
    resolve_session_token, resolve_session_token_with, token_fingerprint, token_from_file,
    token_info, tokens_equal, TokenFileOp, CONFIG_PATH, TOKEN_PATH,
};
use speed_browser_system::models::{AppConfig, TokenMode};
use speed_browser_system::server::is_authorized;

fn is_uuid_v4(s: &str) -> bool {
    let b: Vec<char> = s.chars().collect();
    if b.len() != 36 {
        return false;
    }
    for (i, c) in b.iter().enumerate() {
        if [8, 13, 18, 23].contains(&i) {
            if *c != '-' {
                return false;
            }
        } else if !(c.is_ascii_digit() || ('a'..='f').contains(c)) {
            return false;
        }
    }
    b[14] == '4' && ['8', '9', 'a', 'b'].contains(&b[19])
}

fn written(op: &TokenFileOp) -> Option<String> {
    match op {
        TokenFileOp::Write(s) => Some(s.clone()),
        _ => None,
    }
}

#[test]
fn file_names() {
    assert_eq!(CONFIG_PATH, "neuro_config.json");
    assert_eq!(TOKEN_PATH, "neuro_token.secret");
}

#[test]
fn mode_parsing_ignores_case_and_spaces() {
    assert_eq!(TokenMode::parse("fixed"), Ok(TokenMode::Fixed));
    assert_eq!(TokenMode::parse(" RANDOM \n"), Ok(TokenMode::Random));
    assert_eq!(TokenMode::parse("Fixed"), Ok(TokenMode::Fixed));
}

#[test]
fn mode_parsing_ignores_uppercase_and_padding() {
    for s in ["fixed", "random", "other", "Fi xed", ""] {
        assert_eq!(TokenMode::parse(&s.to_ascii_uppercase()), TokenMode::parse(s));
        assert_eq!(TokenMode::parse(&format!(" \t{s}\n\u{3000}")), TokenMode::parse(s));
    }
    assert_eq!(TokenMode::parse("\u{3000}RANDOM\r\n"), Ok(TokenMode::Random));
}

#[test]
fn mode_parsing_rejects_other_words() {
    assert_eq!(
        TokenMode::parse("  OTHER "),
        Err("无效的 token 模式: other（仅支持 fixed / random）".to_string())
    );
    assert_eq!(
        TokenMode::parse(""),
        Err("无效的 token 模式: （仅支持 fixed / random）".to_string())
    );
}

#[test]
fn defaults_are_fixed() {
    assert_eq!(TokenMode::default(), TokenMode::Fixed);
    assert_eq!(AppConfig::default().token_mode, TokenMode::Fixed);
}

#[test]
fn generated_tokens_are_uuid_v4() {
    let a = generate_token();
    let b = generate_token();
    assert!(is_uuid_v4(&a), "{a}");
    assert!(is_uuid_v4(&b), "{b}");
    assert_ne!(a, b);
}

#[test]
fn token_file_text_is_trimmed() {
    assert_eq!(token_from_file(Some("  abc \n".to_string())), Some("abc".to_string()));
    assert_eq!(token_from_file(Some(" \n ".to_string())), None);
    assert_eq!(token_from_file(None), None);
}

#[test]
fn fixed_mode_reuses_the_stored_token() {
    let p = resolve_session_token(&AppConfig { token_mode: TokenMode::Fixed }, Some("tok".to_string()));
    assert_eq!(p.token, "tok");
    assert!(matches!(p.file, TokenFileOp::Keep));
}

#[test]
fn fixed_mode_without_file_creates_and_writes() {
    let p = resolve_session_token(&AppConfig { token_mode: TokenMode::Fixed }, None);
    assert!(is_uuid_v4(&p.token));
    assert_eq!(written(&p.file), Some(p.token.clone()));
}

#[test]
fn random_mode_rotates_and_clears() {
    let cfg = AppConfig { token_mode: TokenMode::Random };
    let p = resolve_session_token(&cfg, Some("old".to_string()));
    assert!(is_uuid_v4(&p.token));
    assert!(matches!(p.file, TokenFileOp::Clear));
    let q = resolve_session_token(&cfg, Some("old".to_string()));
    assert_ne!(p.token, q.token);
}

#[test]
fn fixed_token_survives_restart() {
    let cfg = AppConfig { token_mode: TokenMode::Fixed };
    let first = resolve_session_token(&cfg, None);
    let file = written(&first.file).unwrap();
    let reread = token_from_file(Some(file));
    let second = resolve_session_token(&cfg, reread);
    assert_eq!(second.token, first.token);
    assert!(matches!(second.file, TokenFileOp::Keep));
}

#[test]
fn fingerprint_short_tokens_are_masked() {
    assert_eq!(token_fingerprint("12345678"), "****");
    assert_eq!(token_fingerprint(""), "****");
    assert_eq!(token_fingerprint("  1234567  "), "****");
}

#[test]
fn fingerprint_shows_four_bytes_each_side() {
    assert_eq!(token_fingerprint("abcdefghijkl"), "abcd…ijkl");
    assert_eq!(token_fingerprint("  abcdefghij \n"), "abcd…ghij");
    assert_eq!(
        token_fingerprint("67e55044-10b1-426f-9247-bb680e5fe0c8"),
        "67e5…e0c8"
    );
}

#[test]
fn tokens_compare_exactly() {
    assert!(tokens_equal("abc", "abc"));
    assert!(tokens_equal("", ""));
    assert!(tokens_equal("令牌", "令牌"));
    assert!(!tokens_equal("abc", "abd"));
    assert!(!tokens_equal("abc", "abcd"));
    assert!(!tokens_equal("abc", " abc"));
}

#[test]
fn switch_to_fixed_uses_given_token() {
    let s = plan_token_mode("fixed", "  mine  ", "memory").unwrap();
    assert_eq!(s.config.token_mode, TokenMode::Fixed);
    let p = s.outcome.unwrap();
    assert_eq!(p.token, "mine");
    assert_eq!(written(&p.file), Some("mine".to_string()));
}

#[test]
fn switch_to_fixed_keeps_memory_token_when_none_given() {
    let s = plan_token_mode("FIXED", "   ", " mem ").unwrap();
    let p = s.outcome.unwrap();
    assert_eq!(p.token, " mem ");
    assert_eq!(written(&p.file), Some("mem".to_string()));
}

#[test]
fn switch_to_fixed_refuses_empty_token() {
    let s = plan_token_mode("fixed", "", "").unwrap();
    assert_eq!(s.config.token_mode, TokenMode::Fixed);
    assert_eq!(s.outcome.err(), Some("固定模式下 token 不能为空".to_string()));
}

#[test]
fn switch_to_random_rotates() {
    let s = plan_token_mode("random", "given", "memory").unwrap();
    assert_eq!(s.config.token_mode, TokenMode::Random);
    let p = s.outcome.unwrap();
    assert!(is_uuid_v4(&p.token));
    assert!(matches!(p.file, TokenFileOp::Clear));
}

#[test]
fn switch_to_unknown_mode_fails() {
    let e = plan_token_mode("sometimes", "x", "y").err().unwrap();
    assert_eq!(e, "无效的 token 模式: sometimes（仅支持 fixed / random）");
}

#[test]
fn rotation_follows_mode() {
    let p = plan_rotation(TokenMode::Fixed);
    assert!(is_uuid_v4(&p.token));
    assert_eq!(written(&p.file), Some(p.token.clone()));
    let q = plan_rotation(TokenMode::Random);
    assert!(is_uuid_v4(&q.token));
    assert!(matches!(q.file, TokenFileOp::Clear));
}

#[test]
fn token_info_reports_persistence() {
    let i = token_info("t".to_string(), TokenMode::Fixed, true);
    assert_eq!(i.token, "t");
    assert!(i.persisted);
    assert!(!token_info("t".to_string(), TokenMode::Fixed, false).persisted);
    assert!(!token_info("t".to_string(), TokenMode::Random, true).persisted);
}

#[test]
fn start_up_with_a_given_fresh_token() {
    let fixed = AppConfig { token_mode: TokenMode::Fixed };
    let random = AppConfig { token_mode: TokenMode::Random };
    let p = resolve_session_token_with(&fixed, Some("kept".to_string()), "new".to_string());
    assert_eq!(p.token, "kept");
    assert!(matches!(p.file, TokenFileOp::Keep));
    let p = resolve_session_token_with(&fixed, None, " new ".to_string());
    assert_eq!(p.token, " new ");
    assert_eq!(written(&p.file), Some("new".to_string()));
    let p = resolve_session_token_with(&random, Some("old".to_string()), "new".to_string());
    assert_eq!(p.token, "new");
    assert!(matches!(p.file, TokenFileOp::Clear));
}

#[test]
fn mode_switch_with_a_given_fresh_token() {
    let s = plan_token_mode_with(" Random ", "given", "memory", "fresh".to_string()).unwrap();
    assert_eq!(s.config.token_mode, TokenMode::Random);
    let p = s.outcome.unwrap();
    assert_eq!(p.token, "fresh");
    assert!(matches!(p.file, TokenFileOp::Clear));
    let s = plan_token_mode_with("fixed", " given ", "memory", "fresh".to_string()).unwrap();
    let p = s.outcome.unwrap();
    assert_eq!(p.token, "given");
    assert_eq!(written(&p.file), Some("given".to_string()));
    let e = plan_token_mode_with("never", "", "", "fresh".to_string()).err().unwrap();
    assert_eq!(e, "无效的 token 模式: never（仅支持 fixed / random）");
}

#[test]
fn rotation_with_a_given_fresh_token() {
    let p = plan_rotation_with(TokenMode::Fixed, "abc".to_string());
    assert_eq!(p.token, "abc");
    assert_eq!(written(&p.file), Some("abc".to_string()));
    let q = plan_rotation_with(TokenMode::Random, "xyz".to_string());
    assert_eq!(q.token, "xyz");
    assert!(matches!(q.file, TokenFileOp::Clear));
}

#[test]
fn rotation_refuses_the_old_token() {
    let cfg = AppConfig { token_mode: TokenMode::Fixed };
    let old = resolve_session_token(&cfg, token_from_file(Some("  old-token \n".to_string()))).token;
    assert_eq!(old, "old-token");
    let new = plan_rotation(TokenMode::Fixed).token;
    assert_eq!(new.trim(), new);
    assert!(is_authorized(Some(&new), &new));
    assert!(!is_authorized(Some(&old), &new));
    assert!(!is_authorized(Some(&format!(" {old} ")), &new));
}

#[test]
fn session_tokens_are_kept_trimmed() {
    let s = plan_token_mode("fixed", "  typed  ", "mem").unwrap();
    assert_eq!(s.outcome.unwrap().token, "typed");
    let s = plan_token_mode("fixed", "", "mem").unwrap();
    assert_eq!(s.outcome.unwrap().token, "mem");
    let r = plan_token_mode("random", "", "mem").unwrap().outcome.unwrap().token;
    assert_eq!(r.trim(), r);
}
