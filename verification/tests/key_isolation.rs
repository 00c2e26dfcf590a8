//! The comment stripper that the source scan for secret names relies on.

use dig_wallet_backend::types::WalletErrorCode;

/// The code of a line, without a trailing comment. Slashes inside a string are no comment.
fn strip_comment(line: &str) -> &str {
    let bytes = line.as_bytes();
    let mut quoted = false;
    let mut at = 0;
    while at < bytes.len() {
        match bytes[at] {
            b'\\' if quoted => at += 1,
            b'"' => quoted = !quoted,
            b'/' if !quoted && bytes.get(at + 1) == Some(&b'/') => return &line[..at],
            _ => {}
        }
        at += 1;
    }
    line
}

#[test]
fn strips_a_real_comment() {
    assert_eq!(
        strip_comment("let x = 1; // SecretKey in a comment").trim(),
        "let x = 1;"
    );
}

#[test]
fn does_not_strip_slashes_inside_a_string() {
    let line = r#"let u = "http://x"; let k = SecretKey;"#;
    assert!(strip_comment(line).contains("SecretKey"));
}

#[test]
fn handles_escaped_quote_in_string() {
    let line = r#"let s = "a\"b"; // SecretKey"#;
    assert!(!strip_comment(line).contains("SecretKey"));
}

#[test]
fn no_error_code_names_a_secret() {
    for code in [WalletErrorCode::SigningFailed, WalletErrorCode::Storage] {
        assert!(!code.as_str().contains("secret"));
    }
}
