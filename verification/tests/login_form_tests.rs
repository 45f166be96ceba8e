use qobuz_downloader_rust::ui::login::signals::validate_login_form;

fn err(r: Result<(), String>) -> String {
    r.err().unwrap_or_default()
}

#[test]
fn email_form_checks() {
    assert_eq!(err(validate_login_form(true, "", "pw", "", "")), "Please enter your email or username");
    assert_eq!(err(validate_login_form(true, "me@x.com", "", "", "")), "Please enter your password");
    assert_eq!(err(validate_login_form(true, "me@xcom", "pw", "", "")), "Invalid email format");
    assert_eq!(validate_login_form(true, "me@x.com", "pw", "", ""), Ok(()));
    assert_eq!(validate_login_form(true, "username", "pw", "", ""), Ok(()));
}

#[test]
fn token_form_checks() {
    assert_eq!(err(validate_login_form(false, "", "", "", "t")), "Please enter your User ID");
    assert_eq!(err(validate_login_form(false, "", "", "123", "")), "Please enter your Auth Token");
    assert_eq!(err(validate_login_form(false, "", "", "12 3", "t")), "Invalid User ID format");
    assert_eq!(validate_login_form(false, "", "", "abc-123", "t"), Ok(()));
}
