//! The login window's checks of what the user typed before it logs in.

use vstd::prelude::*;

use crate::dashboard::{bare_id, is_bare_id};
use crate::text::{chars_of, find_char_index, has_char};

verus! {

/// The message for a login form that cannot be sent, or none: for an email
/// login, an empty email or username, an empty password, or an email with
/// `@` but no `.`; for a token login, an empty user ID, an empty token, or a
/// user ID with other characters than ASCII letters, digits and `-`.
pub open spec fn login_form_error(
    email_selected: bool,
    email: Seq<char>,
    password: Seq<char>,
    user_id: Seq<char>,
    auth_token: Seq<char>,
) -> Option<Seq<char>> {
    if email_selected {
        if email.len() == 0 {
            Some("Please enter your email or username"@)
        } else if password.len() == 0 {
            Some("Please enter your password"@)
        } else if has_char(email, '@') && !has_char(email, '.') {
            Some("Invalid email format"@)
        } else {
            None
        }
    } else {
        if user_id.len() == 0 {
            Some("Please enter your User ID"@)
        } else if auth_token.len() == 0 {
            Some("Please enter your Auth Token"@)
        } else if !is_bare_id(user_id) {
            Some("Invalid User ID format"@)
        } else {
            None
        }
    }
}

/// Whether `c` occurs in `s`.
fn has_char_in(s: &str, c: char) -> (b: bool)
    ensures
        b == has_char(s@, c),
{
    find_char_index(&chars_of(s), c).is_some()
}

/// Checks the login form before logging in; the message to show when it
/// cannot be sent.
pub fn validate_login_form(
    email_selected: bool,
    email: &str,
    password: &str,
    user_id: &str,
    auth_token: &str,
) -> (r: Result<(), String>)
    ensures
        match r {
            Ok(()) => login_form_error(email_selected, email@, password@, user_id@, auth_token@) is None,
            Err(m) => login_form_error(email_selected, email@, password@, user_id@, auth_token@)
                == Some(m@),
        },
{
    if email_selected {
        if email.is_empty() {
            Err(String::from_str("Please enter your email or username"))
        } else if password.is_empty() {
            Err(String::from_str("Please enter your password"))
        } else if has_char_in(email, '@') && !has_char_in(email, '.') {
            Err(String::from_str("Invalid email format"))
        } else {
            Ok(())
        }
    } else {
        if user_id.is_empty() {
            Err(String::from_str("Please enter your User ID"))
        } else if auth_token.is_empty() {
            Err(String::from_str("Please enter your Auth Token"))
        } else if !bare_id(&chars_of(user_id)) {
            Err(String::from_str("Invalid User ID format"))
        } else {
            Ok(())
        }
    }
}

} // verus!
