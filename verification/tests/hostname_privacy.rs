use speed_browser_system::privacy::{contains_sensitive_keyword, PrivacyGuard};
use speed_browser_system::text::{to_ascii_lowercase, trim};
use speed_browser_system::utils::extract_hostname;

#[test]
fn hostname_of_documented_example() {
    assert_eq!(
        extract_hostname("https://www.bilibili.com/video/xxx"),
        Some("www.bilibili.com".to_string())
    );
}

#[test]
fn hostname_drops_port_and_path() {
    assert_eq!(extract_hostname("http://localhost:8080/x"), Some("localhost".to_string()));
    assert_eq!(extract_hostname("192.168.1.1:80"), Some("192.168.1.1".to_string()));
}

#[test]
fn hostname_strips_only_the_outer_scheme() {
    assert_eq!(extract_hostname("http://http://a.com/"), Some("http".to_string()));
    assert_eq!(extract_hostname("http://https://a.com"), Some("https".to_string()));
    assert_eq!(extract_hostname("https://http://a.com"), Some("http".to_string()));
    assert_eq!(extract_hostname("ws://ftp://h.net:1"), Some("ftp".to_string()));
}

#[test]
fn hostname_refuses_a_leading_dash() {
    assert_eq!(extract_hostname("-c"), None);
    assert_eq!(extract_hostname("https://-c/x"), None);
    assert_eq!(extract_hostname("--help"), None);
    assert_eq!(extract_hostname("https://a-b.com/"), Some("a-b.com".to_string()));
    assert_eq!(extract_hostname("x-"), Some("x-".to_string()));
}

#[test]
fn hostname_of_any_scheme() {
    assert_eq!(extract_hostname("ftp://x.org"), Some("x.org".to_string()));
    assert_eq!(
        extract_hostname("ftp://files.example.com/pub"),
        Some("files.example.com".to_string())
    );
    assert_eq!(extract_hostname("svn+ssh://repo.example.org:22/trunk"), Some("repo.example.org".to_string()));
    // no scheme: a colon before "//" is a port separator
    assert_eq!(extract_hostname("example.com:443"), Some("example.com".to_string()));
    // a scheme name must start with a letter
    assert_eq!(extract_hostname("1ab://x.org"), Some("1ab".to_string()));
}

#[test]
fn hostname_rejects_empty() {
    assert_eq!(extract_hostname(""), None);
    assert_eq!(extract_hostname("https://"), None);
    assert_eq!(extract_hostname("https:///path"), None);
}

#[test]
fn hostname_rejects_injection_characters() {
    assert_eq!(extract_hostname("https://evil.com;rm -rf"), None);
    assert_eq!(extract_hostname("a.com&&calc"), None);
    assert_eq!(extract_hostname("  https://a.com"), None);
}

#[test]
fn hostname_length_limit_is_253_bytes() {
    let ok = "a".repeat(253);
    let long = "a".repeat(254);
    assert_eq!(extract_hostname(&format!("https://{ok}/")), Some(ok.clone()));
    assert_eq!(extract_hostname(&format!("https://{long}/")), None);
    // 85 three-byte characters are 255 bytes
    let wide = "例".repeat(85);
    assert_eq!(extract_hostname(&format!("https://{wide}/")), None);
    let wide_ok = "例".repeat(84);
    assert_eq!(extract_hostname(&format!("https://{wide_ok}/")), Some(wide_ok.clone()));
}

#[test]
fn hostname_accepts_unicode_letters() {
    assert_eq!(extract_hostname("https://例子.测试/x"), Some("例子.测试".to_string()));
}

#[test]
fn sensitive_pages_are_detected() {
    assert!(PrivacyGuard::is_sensitive("https://www.mybank.com/home"));
    assert!(PrivacyGuard::is_sensitive("https://example.com/LOGIN"));
    assert!(PrivacyGuard::is_sensitive("https://kyfw.12306.cn/"));
    assert!(PrivacyGuard::is_sensitive("https://www.beijing.GOV.CN/"));
    assert!(PrivacyGuard::is_sensitive("https://alipay.com"));
    assert!(PrivacyGuard::is_sensitive("https://x.com/oauth/authorize"));
    assert!(!PrivacyGuard::is_sensitive("https://www.bilibili.com/video/1"));
    assert!(!PrivacyGuard::is_sensitive(""));
}

#[test]
fn sensitive_check_ignores_case_and_padding() {
    for u in ["https://mybank.com", "login", "https://news.example/", "x"] {
        assert_eq!(PrivacyGuard::is_sensitive(&u.to_ascii_uppercase()), PrivacyGuard::is_sensitive(u));
    }
    assert!(PrivacyGuard::is_sensitive("PAY"));
    assert!(PrivacyGuard::is_sensitive("prefix-pay-suffix"));
    assert!(PrivacyGuard::is_sensitive("http://a.com/?next=/Wallet/x"));
    assert!(!PrivacyGuard::is_sensitive("http://a.com/?next=/p-a-y"));
}

#[test]
fn sensitive_check_uses_unicode_lowercase() {
    // U+212A KELVIN SIGN lowercases to an ASCII 'k'
    assert!(PrivacyGuard::is_sensitive("https://ban\u{212A}.example"));
    assert!(!contains_sensitive_keyword("https://ban\u{212A}.example"));
}

#[test]
fn keyword_check_on_lowercase_text() {
    assert!(contains_sensitive_keyword("my-wallet"));
    assert!(contains_sensitive_keyword("top secret"));
    assert!(!contains_sensitive_keyword("BANK"));
    assert!(!contains_sensitive_keyword("news"));
}

#[test]
fn trim_removes_unicode_whitespace() {
    assert_eq!(trim("\u{3000}\t abc \n\u{3000}"), "abc");
    assert_eq!(trim("   "), "");
    assert_eq!(trim("a b"), "a b");
    assert_eq!(trim("\u{a0}\u{2028}\u{2000}x\u{200a}\u{205f}\u{85}"), "x");
    // U+180E and U+200B are not whitespace
    assert_eq!(trim("\u{180e}x\u{200b}"), "\u{180e}x\u{200b}");
}

#[test]
fn ascii_lowercase_keeps_other_characters() {
    assert_eq!(to_ascii_lowercase("FiXeD-Ä"), "fixed-Ä");
}

#[test]
fn trimming_twice_is_trimming_once() {
    for s in ["  a b  ", "\u{3000}x\u{3000}", "", " \t\n", "none"] {
        assert_eq!(trim(trim(s)), trim(s));
    }
}
