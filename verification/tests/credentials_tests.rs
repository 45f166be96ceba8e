use qobuz_downloader_rust::auth::keyring::StoredCredentials;
use qobuz_downloader_rust::ui::login::credentials::{
    load_credentials_from_env, save_user_credentials_to_env,
};

fn email_pair(c: Option<StoredCredentials>) -> Option<(String, String)> {
    match c {
        Some(StoredCredentials::EmailPassword { email, password }) => Some((email, password)),
        _ => None,
    }
}

fn token_pair(c: Option<StoredCredentials>) -> Option<(String, String)> {
    match c {
        Some(StoredCredentials::Token { user_id, auth_token }) => Some((user_id, auth_token)),
        _ => None,
    }
}

#[test]
fn no_file_no_credentials() {
    assert!(load_credentials_from_env(None).is_none());
    assert!(load_credentials_from_env(Some("")).is_none());
}

#[test]
fn incomplete_credentials_are_ignored() {
    assert!(load_credentials_from_env(Some("QOBUZ_EMAIL=a@b.c")).is_none());
    assert!(load_credentials_from_env(Some("QOBUZ_USER_ID=12\nQOBUZ_PASSWORD=p")).is_none());
}

#[test]
fn email_login_is_loaded() {
    let c = load_credentials_from_env(Some("QOBUZ_EMAIL=a@b.c\nQOBUZ_PASSWORD=hash"));
    assert_eq!(email_pair(c), Some(("a@b.c".to_string(), "hash".to_string())));
}

#[test]
fn username_counts_as_email_login() {
    let c = load_credentials_from_env(Some("QOBUZ_USERNAME=someone\nQOBUZ_PASSWORD=hash"));
    assert_eq!(email_pair(c), Some(("someone".to_string(), "hash".to_string())));
}

#[test]
fn last_non_empty_value_wins() {
    let content = "QOBUZ_EMAIL=first@x\nQOBUZ_PASSWORD=p1\nQOBUZ_USERNAME=second\nQOBUZ_PASSWORD=\n";
    let c = load_credentials_from_env(Some(content));
    assert_eq!(email_pair(c), Some(("second".to_string(), "p1".to_string())));
}

#[test]
fn token_preferred_without_saved_method() {
    let content = "QOBUZ_EMAIL=a@b.c\nQOBUZ_PASSWORD=hash\nQOBUZ_USER_ID=42\nQOBUZ_USER_AUTH_TOKEN=tok";
    let c = load_credentials_from_env(Some(content));
    assert_eq!(token_pair(c), Some(("42".to_string(), "tok".to_string())));
}

#[test]
fn saved_method_wins_when_complete() {
    let content = "QOBUZ_AUTH_METHOD=email\nQOBUZ_EMAIL=a@b.c\nQOBUZ_PASSWORD=hash\nQOBUZ_USER_ID=42\nQOBUZ_USER_AUTH_TOKEN=tok";
    let c = load_credentials_from_env(Some(content));
    assert_eq!(email_pair(c), Some(("a@b.c".to_string(), "hash".to_string())));
}

#[test]
fn first_saved_method_counts() {
    let content = "QOBUZ_AUTH_METHOD=token\nQOBUZ_AUTH_METHOD=email\nQOBUZ_EMAIL=a@b.c\nQOBUZ_PASSWORD=hash\nQOBUZ_USER_ID=42\nQOBUZ_USER_AUTH_TOKEN=tok";
    let c = load_credentials_from_env(Some(content));
    assert_eq!(token_pair(c), Some(("42".to_string(), "tok".to_string())));
}

#[test]
fn saved_method_without_its_credentials_falls_back() {
    let content = "QOBUZ_AUTH_METHOD=token\nQOBUZ_EMAIL=a@b.c\nQOBUZ_PASSWORD=hash";
    let c = load_credentials_from_env(Some(content));
    assert_eq!(email_pair(c), Some(("a@b.c".to_string(), "hash".to_string())));
}

#[test]
fn comments_and_indentation_are_handled() {
    let content = "# QOBUZ_EMAIL=x@y\n   QOBUZ_EMAIL=a@b.c  \n\tQOBUZ_PASSWORD=hash";
    let c = load_credentials_from_env(Some(content));
    assert_eq!(email_pair(c), Some(("a@b.c".to_string(), "hash".to_string())));
}

#[test]
fn save_email_login_to_missing_file() {
    let out = save_user_credentials_to_env(None, Some("a@b.c"), None, "hash", "email");
    assert_eq!(out, "QOBUZ_EMAIL=a@b.c\nQOBUZ_PASSWORD=hash\nQOBUZ_AUTH_METHOD=email");
}

#[test]
fn save_username_login_uses_username_key() {
    let out = save_user_credentials_to_env(None, Some("someone"), None, "hash", "email");
    assert_eq!(out, "QOBUZ_USERNAME=someone\nQOBUZ_PASSWORD=hash\nQOBUZ_AUTH_METHOD=email");
}

#[test]
fn save_token_login_to_missing_file() {
    let out = save_user_credentials_to_env(None, None, Some("42"), "tok", "token");
    assert_eq!(out, "QOBUZ_USER_ID=42\nQOBUZ_USER_AUTH_TOKEN=tok\nQOBUZ_AUTH_METHOD=token");
}

#[test]
fn save_email_login_updates_and_removes_token_lines() {
    let content = "A=1\nQOBUZ_USER_ID=42\nQOBUZ_PASSWORD=old\nQOBUZ_USER_AUTH_TOKEN=tok\nQOBUZ_AUTH_METHOD=token";
    let out = save_user_credentials_to_env(Some(content), Some("a@b.c"), None, "new", "email");
    assert_eq!(out, "A=1\nQOBUZ_PASSWORD=new\nQOBUZ_AUTH_METHOD=email\nQOBUZ_EMAIL=a@b.c");
}

#[test]
fn save_token_login_removes_email_lines() {
    let content = "QOBUZ_EMAIL=a@b.c\nQOBUZ_PASSWORD=hash\nB=2";
    let out = save_user_credentials_to_env(Some(content), None, Some("42"), "tok", "token");
    assert_eq!(out, "B=2\nQOBUZ_USER_ID=42\nQOBUZ_USER_AUTH_TOKEN=tok\nQOBUZ_AUTH_METHOD=token");
}

#[test]
fn saved_email_login_reads_back() {
    let content = "QOBUZ_DOWNLOAD_PATH=/music\nQOBUZ_USER_ID=42\nQOBUZ_USER_AUTH_TOKEN=tok\n";
    let out = save_user_credentials_to_env(Some(content), Some("me@example.com"), None, "pw", "email");
    let c = load_credentials_from_env(Some(&out));
    assert_eq!(email_pair(c), Some(("me@example.com".to_string(), "pw".to_string())));
}

#[test]
fn saved_token_login_reads_back() {
    let content = "QOBUZ_EMAIL=a@b.c\nQOBUZ_PASSWORD=hash\nQOBUZ_AUTH_METHOD=email";
    let out = save_user_credentials_to_env(Some(content), None, Some("77"), "secret", "token");
    let c = load_credentials_from_env(Some(&out));
    assert_eq!(token_pair(c), Some(("77".to_string(), "secret".to_string())));
}

#[test]
fn save_email_login_replaces_the_username_line() {
    let content = "QOBUZ_USERNAME=bob\nQOBUZ_PASSWORD=old";
    let out = save_user_credentials_to_env(Some(content), Some("me@x.org"), None, "h", "email");
    assert_eq!(out, "QOBUZ_PASSWORD=h\nQOBUZ_EMAIL=me@x.org\nQOBUZ_AUTH_METHOD=email");
}

#[test]
fn save_username_login_replaces_the_email_line() {
    let content = "QOBUZ_EMAIL=me@x.org\nQOBUZ_PASSWORD=old\nQOBUZ_AUTH_METHOD=email";
    let out = save_user_credentials_to_env(Some(content), Some("bob"), None, "h", "email");
    assert_eq!(out, "QOBUZ_PASSWORD=h\nQOBUZ_AUTH_METHOD=email\nQOBUZ_USERNAME=bob");
}
