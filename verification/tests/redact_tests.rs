use quota_critter::codex::rpc_error_message;
use quota_critter::redact::redact;

#[test]
fn redacts_all_occurrences_of_each_key() {
    let input = r#"{"accessToken":"abc","refreshToken":"def","accessToken":"ghi"}"#;
    let out = redact(input, None);
    assert!(!out.contains("abc"), "first accessToken leaked: {out}");
    assert!(!out.contains("def"), "refreshToken leaked: {out}");
    assert!(!out.contains("ghi"), "second accessToken leaked: {out}");
    assert_eq!(
        out.matches("<redacted>").count(),
        3,
        "should redact 3 values: {out}"
    );
}

#[test]
fn redacts_keys_inside_nested_json() {
    let input = r#"outer={"apiKey":"k1","child":{"apiKey":"k2","other":"k3"}}"#;
    let out = redact(input, None);
    assert!(!out.contains("k1"));
    assert!(!out.contains("k2"));
    assert!(
        out.contains("k3"),
        "non-sensitive field should survive: {out}"
    );
}

#[test]
fn truncates_long_values_without_punctuation_boundary() {
    let long_secret = "x".repeat(500);
    let input = format!(r#"{{"authUrl":"{long_secret}""#);
    let out = redact(&input, None);
    assert!(!out.contains(&long_secret));
    assert!(out.contains("authUrl=<redacted>"));
}

#[test]
fn respects_punctuation_boundary_when_present() {
    let input = r#"{"email":"foo@bar","other":"baz"}"#;
    let out = redact(input, None);
    assert!(!out.contains("foo@bar"));
    assert!(out.contains("\"other\":\"baz\""));
}

#[test]
fn leaves_input_untouched_when_no_sensitive_key_present() {
    let input = r#"{"latencyMs":42,"window":"5h"}"#;
    assert_eq!(redact(input, None), input);
}

#[test]
fn redacts_home_path() {
    let marker = "/qc-test-home-marker-9c4d";
    let out = redact(&format!("opened {marker}/.config/codex/log.txt"), Some(marker));
    assert!(out.contains("<home>"), "HOME path not redacted: {out}");
    assert!(!out.contains(marker), "HOME marker leaked: {out}");
}

#[test]
fn redaction_output_is_exact() {
    let input = r#"{"accessToken":"abc","refreshToken":"def","accessToken":"ghi"}"#;
    assert_eq!(
        redact(input, None),
        r#"{"accessToken=<redacted>,"refreshToken=<redacted>,"accessToken=<redacted>}"#
    );
}

#[test]
fn redaction_cuts_at_line_break_and_bracket() {
    assert_eq!(redact("email me\nnext", None), "email=<redacted>\nnext");
    assert_eq!(redact("[apiKey x] tail", None), "[apiKey=<redacted>] tail");
}

#[test]
fn short_tail_without_punctuation_is_redacted_to_the_end() {
    assert_eq!(redact("token authUrl=https://a.b/c?d", None), "token authUrl=<redacted>");
}

#[test]
fn long_tail_keeps_what_follows_the_first_200_characters() {
    let input = format!("email{}{}", "y".repeat(195), "TAIL");
    assert_eq!(redact(&input, None), "email=<redacted>TAIL");
}

#[test]
fn cap_counts_characters_not_bytes() {
    // 200 characters from the key's start are cut, whatever their UTF-8 width.
    let input = format!("authUrl{}", "é".repeat(300));
    assert_eq!(redact(&input, None), format!("authUrl=<redacted>{}", "é".repeat(107)));
    let input = format!("authUrl{}é{}", "x".repeat(192), "z".repeat(10));
    assert_eq!(redact(&input, None), "authUrl=<redacted>zzzzzzzzzz");
}

#[test]
fn empty_home_is_not_replaced() {
    assert_eq!(redact("a/b", Some("")), "a/b");
    assert_eq!(redact("/home/u/x /home/u", Some("/home/u")), "<home>/x <home>");
}

#[test]
fn rpc_errors_are_redacted() {
    assert_eq!(
        rpc_error_message(r#"{"message":"bad","email":"a@b"}"#, None),
        r#"APP_SERVER_RPC: {"message":"bad","email=<redacted>}"#
    );
}
