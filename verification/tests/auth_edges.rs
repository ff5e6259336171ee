use acp_tunnel::auth::{eq_ignore_ascii_case, parse_bearer, Authenticator, StaticTokenAuthenticator};

#[test]
fn token_comparison_covers_every_byte() {
    let auth = StaticTokenAuthenticator::new("s3cret");
    assert!(auth.authenticate("s3cret"));
    assert!(!auth.authenticate("s3creT"));
    assert!(!auth.authenticate("s3cre"));
    assert!(!auth.authenticate("s3cret "));
    assert!(!auth.authenticate("x3cret"));
}

#[test]
fn non_ascii_tokens_compare_by_their_utf8_bytes() {
    let auth = StaticTokenAuthenticator::new("пароль");
    assert!(auth.authenticate("пароль"));
    assert!(!auth.authenticate("парол"));
    assert!(!auth.authenticate("пароля"));
}

#[test]
fn empty_token_accepts_only_the_empty_credential() {
    let auth = StaticTokenAuthenticator::new("");
    assert!(auth.authenticate(""));
    assert!(!auth.authenticate("a"));
}

#[test]
fn clone_keeps_the_token() {
    let auth = StaticTokenAuthenticator::new("token");
    let copy = auth.clone();
    assert!(copy.authenticate("token"));
    assert!(!copy.authenticate("other"));
}

#[test]
fn scheme_is_matched_up_to_ascii_case() {
    assert_eq!(parse_bearer("BEARER x"), Some("x"));
    assert_eq!(parse_bearer("BeArEr token.with-dots_1"), Some("token.with-dots_1"));
    assert_eq!(parse_bearer("Bearerx y"), None);
    assert_eq!(parse_bearer(" Bearer x"), None);
    assert_eq!(parse_bearer("bearer"), None);
    assert_eq!(parse_bearer(""), None);
}

#[test]
fn credential_splits_at_the_first_space_and_rejects_whitespace() {
    assert_eq!(parse_bearer("Bearer  x"), None);
    assert_eq!(parse_bearer("Bearer\tx"), None);
    assert_eq!(parse_bearer("Bearer x\t"), None);
    assert_eq!(parse_bearer("Bearer x\u{00A0}"), None);
    assert_eq!(parse_bearer("Bearer x\u{2003}y"), None);
    assert_eq!(parse_bearer("Bearer é"), Some("é"));
}

#[test]
fn ascii_case_insensitive_comparison() {
    assert!(eq_ignore_ascii_case("Bearer", "bearer"));
    assert!(eq_ignore_ascii_case("", ""));
    assert!(!eq_ignore_ascii_case("Bearer", "bearers"));
    assert!(!eq_ignore_ascii_case("É", "é"));
    assert!(eq_ignore_ascii_case("é", "é"));
}
