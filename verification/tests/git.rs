use cargo_tag::errors::OpError;
use cargo_tag::git::Git;

#[test]
fn env_identity_missing_both_fails_before_any_repository_work() {
    let r = Git::from_env("main", None, None);
    assert!(matches!(r, Err(OpError::MissingIdentityEnv)));
}

#[test]
fn env_identity_missing_email_fails() {
    let r = Git::from_env("main", None, Some("Jo Doe".to_string()));
    assert!(matches!(r, Err(OpError::MissingIdentityEnv)));
}

#[test]
fn env_identity_missing_name_fails() {
    let r = Git::from_env("main", Some("jo@example.com".to_string()), None);
    assert!(matches!(r, Err(OpError::MissingIdentityEnv)));
}
