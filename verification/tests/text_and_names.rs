use mihomo_tui::command::subscription::{
    parse_content_disposition, percent_decode, resolve_provider_name, subscription_domain,
};
use mihomo_tui::command::api::parse_delays;
use mihomo_tui::ui::{popup_margin, wrap_text};

fn encode_every_byte(t: &str, upper: bool) -> String {
    t.bytes()
        .map(|b| if upper { format!("%{:02X}", b) } else { format!("%{:02x}", b) })
        .collect()
}

#[test]
fn percent_decode_undoes_encoding_of_every_byte() {
    for t in ["", "a b", "中文/订阅?x=1&y=%", "emoji \u{1f600}!"] {
        assert_eq!(percent_decode(&encode_every_byte(t, true)), t);
        assert_eq!(percent_decode(&encode_every_byte(t, false)), t);
    }
    assert_eq!(percent_decode("%41%62%63"), "Abc");
    assert_eq!(percent_decode("%e4%b8%ad"), "中");
}

#[test]
fn delay_reply_is_parsed() {
    let mut v = parse_delays("{\"A\": 120, \"B\": 35}").unwrap();
    v.sort();
    assert_eq!(v, vec![("A".to_string(), 120), ("B".to_string(), 35)]);
    assert_eq!(parse_delays("{}").unwrap(), Vec::<(String, u32)>::new());
    let dup = parse_delays("{\"A\": 1, \"A\": 2}").unwrap();
    assert_eq!(dup.len(), 1);
}

#[test]
fn delay_reply_errors_carry_prefix() {
    for body in ["not json", "[1, 2]", "{\"A\": -1}", "{\"A\": \"fast\"}", ""] {
        let e = parse_delays(body).unwrap_err();
        assert!(e.starts_with("解析延迟失败: "), "{}", e);
        assert!(e.len() > "解析延迟失败: ".len());
    }
}

#[test]
fn popup_margins() {
    assert_eq!(popup_margin(60), 20);
    assert_eq!(popup_margin(40), 30);
    assert_eq!(popup_margin(55), 22);
    assert_eq!(popup_margin(100), 0);
    assert_eq!(popup_margin(0), 50);
}

#[test]
fn percent_decode_space_and_plain() {
    assert_eq!(percent_decode("a%20b"), "a b");
    assert_eq!(percent_decode("plain-name"), "plain-name");
}

#[test]
fn percent_decode_utf8_sequence() {
    assert_eq!(percent_decode("%E4%B8%AD%E6%96%87"), "中文");
}

#[test]
fn percent_decode_keeps_incomplete_escapes() {
    assert_eq!(percent_decode("100%"), "100%");
    assert_eq!(percent_decode("%4"), "%4");
    assert_eq!(percent_decode("%zz1"), "%zz1");
}

#[test]
fn percent_decode_plus_sign_escape() {
    assert_eq!(percent_decode("%+5x"), "\u{5}x");
}

#[test]
fn percent_decode_invalid_utf8_is_empty() {
    assert_eq!(percent_decode("%FF"), "");
}

#[test]
fn content_disposition_extended_name() {
    let cd = "attachment; filename*=UTF-8''%E6%9C%BA%E5%9C%BA";
    assert_eq!(parse_content_disposition(cd), Some("机场".to_string()));
}

#[test]
fn content_disposition_extended_without_quotes_uses_whole_value() {
    assert_eq!(parse_content_disposition("filename*=abc%21"), Some("abc!".to_string()));
}

#[test]
fn content_disposition_plain_name_strips_quotes() {
    assert_eq!(
        parse_content_disposition("attachment; filename=\"sub.yaml\""),
        Some("sub.yaml".to_string())
    );
    assert_eq!(parse_content_disposition("filename='x'"), Some("x".to_string()));
}

#[test]
fn content_disposition_extended_wins_over_plain() {
    let cd = "attachment; filename=\"plain\"; filename*=utf-8''ext";
    assert_eq!(parse_content_disposition(cd), Some("ext".to_string()));
}

#[test]
fn content_disposition_ignores_case_of_parameter() {
    assert_eq!(parse_content_disposition("  FileName=abc "), Some("abc".to_string()));
}

#[test]
fn content_disposition_without_name() {
    assert_eq!(parse_content_disposition("inline"), None);
    assert_eq!(parse_content_disposition(""), None);
}

#[test]
fn provider_name_prefers_header() {
    let r = resolve_provider_name(
        Some("example.com".to_string()),
        Ok("attachment; filename=\"Nice\"".to_string()),
    );
    assert_eq!(r, Ok("Nice".to_string()));
}

#[test]
fn provider_name_falls_back_to_domain() {
    let r = resolve_provider_name(Some("example.com".to_string()), Ok(String::new()));
    assert_eq!(r, Ok("example.com".to_string()));
    let r = resolve_provider_name(Some("example.com".to_string()), Err("timeout".to_string()));
    assert_eq!(r, Ok("example.com".to_string()));
}

#[test]
fn provider_name_errors() {
    assert_eq!(
        resolve_provider_name(None, Err("timeout".to_string())),
        Err("请求失败: timeout".to_string())
    );
    assert_eq!(
        resolve_provider_name(None, Ok("inline".to_string())),
        Err("无法解析订阅名称".to_string())
    );
}

#[test]
fn domain_of_subscription_url() {
    assert_eq!(
        subscription_domain("https://sub.example.com/api?token=1"),
        Some("sub.example.com".to_string())
    );
    assert_eq!(subscription_domain("not a url"), None);
}

#[test]
fn wrap_text_cuts_lines() {
    assert_eq!(wrap_text("abcdef", 4), "abcd\nef");
    assert_eq!(wrap_text("abcd", 4), "abcd");
    assert_eq!(wrap_text("abcdefgh", 4), "abcd\nefgh");
    assert_eq!(wrap_text("", 3), "");
    assert_eq!(wrap_text("日志内容", 2), "日志\n内容");
}

#[test]
fn wrap_text_only_inserts_breaks() {
    let text = "a long line of log text";
    let wrapped = wrap_text(text, 5);
    assert_eq!(wrapped.replace('\n', ""), text);
    assert!(wrapped.lines().all(|l| l.chars().count() <= 5));
}
