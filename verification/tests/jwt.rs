use base64::engine::general_purpose::{STANDARD_NO_PAD, URL_SAFE_NO_PAD};
use base64::Engine;
use openab_agent::json::Json;
use openab_agent::jwt::{extract_account_id_from_jwt, read_claims, read_payload};

fn claims(account: &str) -> String {
    format!("{{\"https://api.openai.com/auth\":{{\"chatgpt_account_id\":\"{account}\"}}}}")
}

#[test]
fn account_of_a_token() {
    for account in ["a", "ab", "abc", "abcd", "\u{43f}\u{43f}>?>?"] {
        let payload = URL_SAFE_NO_PAD.encode(claims(account));
        let token = format!("head.{payload}.sig");
        assert_eq!(extract_account_id_from_jwt(&token).as_deref(), Some(account));
    }
}

#[test]
fn standard_alphabet_is_read_too() {
    let account = ">>>???~~~";
    let payload = STANDARD_NO_PAD.encode(claims(account));
    assert!(payload.contains('/') || payload.contains('+'));
    let token = format!("head.{payload}.sig");
    assert_eq!(extract_account_id_from_jwt(&token).as_deref(), Some(account));
}

#[test]
fn tokens_without_an_account() {
    let payload = URL_SAFE_NO_PAD.encode(claims("acc"));
    assert_eq!(extract_account_id_from_jwt(&payload), None);
    assert_eq!(extract_account_id_from_jwt(&format!("a.{payload}")), None);
    assert_eq!(extract_account_id_from_jwt(&format!("a.{payload}.b.c")), None);
    assert_eq!(extract_account_id_from_jwt("a.!!!!.b"), None);
    assert_eq!(extract_account_id_from_jwt(""), None);
    for text in ["not json", "{}", "[]", "{\"https://api.openai.com/auth\":{}}"] {
        let payload = URL_SAFE_NO_PAD.encode(text);
        assert_eq!(extract_account_id_from_jwt(&format!("a.{payload}.b")), None);
    }
}

#[test]
fn payloads_are_padded() {
    assert_eq!(read_payload("a..b").as_deref(), Some(""));
    assert_eq!(read_payload("a.x.b").as_deref(), Some("x==="));
    assert_eq!(read_payload("a.xy.b").as_deref(), Some("xy=="));
    assert_eq!(read_payload("a.xyz.b").as_deref(), Some("xyz="));
    assert_eq!(read_payload("a.wxyz.b").as_deref(), Some("wxyz"));
    assert_eq!(read_payload("a.é.b").as_deref(), Some("é=="));
    assert_eq!(read_payload("a.b"), None);
}

#[test]
fn claims_of_a_token() {
    let account = |text: &str| read_claims(&Json::parse(text).unwrap());
    assert_eq!(account(&claims("acc")).as_deref(), Some("acc"));
    assert_eq!(account("{\"https://api.openai.com/auth\":{\"chatgpt_account_id\":7}}"), None);
    assert_eq!(account("null"), None);
}
