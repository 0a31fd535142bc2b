use diundash::auth::{authorize, bearer_token};

#[test]
fn bearer_token_is_what_follows_the_prefix() {
    assert_eq!(bearer_token("Bearer s3cret"), Some("s3cret"));
    assert_eq!(bearer_token("Bearer a b c"), Some("a b c"));
    assert_eq!(bearer_token("Bearer  s3cret"), Some(" s3cret"));
    assert_eq!(bearer_token("Bearer clé-€"), Some("clé-€"));
}

#[test]
fn bearer_token_may_be_empty() {
    assert_eq!(bearer_token("Bearer "), Some(""));
}

#[test]
fn bearer_token_needs_the_exact_prefix() {
    assert_eq!(bearer_token(""), None);
    assert_eq!(bearer_token("Bearer"), None);
    assert_eq!(bearer_token("bearer s3cret"), None);
    assert_eq!(bearer_token("BEARER s3cret"), None);
    assert_eq!(bearer_token("Basic s3cret"), None);
    assert_eq!(bearer_token(" Bearer s3cret"), None);
    assert_eq!(bearer_token("Bearer\ts3cret"), None);
    assert_eq!(bearer_token("s3cret"), None);
    assert_eq!(bearer_token("Beare"), None);
}

#[test]
fn authorize_accepts_the_secret_as_bearer_token() {
    assert!(authorize(Some("Bearer s3cret"), "s3cret"));
    assert!(authorize(Some("Bearer clé-€"), "clé-€"));
}

#[test]
fn authorize_refuses_a_missing_header() {
    assert!(!authorize(None, "s3cret"));
    assert!(!authorize(None, ""));
}

#[test]
fn authorize_refuses_any_other_token() {
    assert!(!authorize(Some("Bearer s3cre"), "s3cret"));
    assert!(!authorize(Some("Bearer s3cret "), "s3cret"));
    assert!(!authorize(Some("Bearer S3CRET"), "s3cret"));
    assert!(!authorize(Some("Bearer "), "s3cret"));
    assert!(!authorize(Some("Bearer  s3cret"), "s3cret"));
}

#[test]
fn authorize_refuses_the_secret_without_the_prefix() {
    assert!(!authorize(Some("s3cret"), "s3cret"));
    assert!(!authorize(Some("bearer s3cret"), "s3cret"));
    assert!(!authorize(Some("Basic s3cret"), "s3cret"));
    assert!(!authorize(Some("Bearer"), ""));
}

#[test]
fn authorize_compares_an_empty_secret_like_any_other() {
    assert!(authorize(Some("Bearer "), ""));
    assert!(!authorize(Some("Bearer x"), ""));
}
