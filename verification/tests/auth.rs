use acp_tunnel::auth::{parse_bearer, Authenticator, StaticTokenAuthenticator};

#[test]
fn accepts_only_the_correct_token() {
    let auth = StaticTokenAuthenticator::new("correct");
    assert!(auth.authenticate("correct"));
    assert!(!auth.authenticate("wrong"));
    assert!(!auth.authenticate("correct-but-longer"));
    assert!(!auth.authenticate(""));
}

#[test]
fn bearer_parsing_is_strict() {
    assert_eq!(parse_bearer("Bearer abc"), Some("abc"));
    assert_eq!(parse_bearer("bearer abc"), Some("abc"));
    assert_eq!(parse_bearer("Basic abc"), None);
    assert_eq!(parse_bearer("Bearer a b"), None);
    assert_eq!(parse_bearer("Bearer "), None);
}
