//! The login form: which method is selected and what it requires.

use vstd::prelude::*;

verus! {

/// Login method selected by the user.
#[derive(Clone, Copy, Debug, PartialEq, Eq, Structural)]
pub enum LoginMethod {
    /// Email and password authentication.
    EmailPassword,
    /// User ID and auth token authentication.
    Token,
}

/// Which login method is selected, given whether the email option is active.
pub fn current_method(email_selected: bool) -> (m: LoginMethod)
    ensures
        m == if email_selected {
            LoginMethod::EmailPassword
        } else {
            LoginMethod::Token
        },
{
    if email_selected {
        LoginMethod::EmailPassword
    } else {
        LoginMethod::Token
    }
}

/// Checks that both fields of an email login are filled in; the message to
/// show otherwise.
pub fn validate_email_login(email: &str, password: &str) -> (r: Result<(), String>)
    ensures
        email@.len() > 0 && password@.len() > 0 ==> r is Ok,
        !(email@.len() > 0 && password@.len() > 0) ==> (r matches Err(m) && m@
            == "Email and password are required"@),
{
    if email.is_empty() || password.is_empty() {
        Err(String::from_str("Email and password are required"))
    } else {
        Ok(())
    }
}

/// Checks that both fields of a token login are filled in; the message to
/// show otherwise.
pub fn validate_token_login(user_id: &str, auth_token: &str) -> (r: Result<(), String>)
    ensures
        user_id@.len() > 0 && auth_token@.len() > 0 ==> r is Ok,
        !(user_id@.len() > 0 && auth_token@.len() > 0) ==> (r matches Err(m) && m@
            == "User ID and auth token are required"@),
{
    if user_id.is_empty() || auth_token.is_empty() {
        Err(String::from_str("User ID and auth token are required"))
    } else {
        Ok(())
    }
}

} // verus!
