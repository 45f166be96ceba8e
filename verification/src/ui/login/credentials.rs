//! Login credentials remembered as `KEY=value` lines of the `.env` file.
//!
//! Email logins are kept as `QOBUZ_EMAIL` (or `QOBUZ_USERNAME`) and
//! `QOBUZ_PASSWORD`, token logins as `QOBUZ_USER_ID` and
//! `QOBUZ_USER_AUTH_TOKEN`, and the method last used as `QOBUZ_AUTH_METHOD`.
//! The application reads and writes the file; these functions take its
//! content (`None` when it does not exist).

use vstd::prelude::*;

use crate::auth::keyring::StoredCredentials;
use crate::auth::login_view::LoginMethod;
use crate::text::{
    chars_eq, chars_of, extend_chars, find_char_index, has_char, join, join_chars,
    lemma_find_char_at, lemma_find_char_none, lemma_lines_no_newline, lemma_trim_strip_cr, lines,
    lines_of, split_once_chars, starts_with, starts_with_chars, string_of, strip_cr, trim,
    trim_chars, views,
};
use crate::ui::settings::config::{
    content_chars, content_of, raw_entry, env_line, lemma_entry_of_env_line,
    lemma_entry_of_key_line, lemma_env_line_no_newline, opt_view, plain_key, plain_value,
};

verus! {

// ---------------------------------------------------------------------------
// Keys
// ---------------------------------------------------------------------------

/// The credential settings of the `.env` file.
#[derive(Clone, Copy, Debug, PartialEq, Eq, Structural)]
pub enum CredKey {
    /// `QOBUZ_EMAIL`
    Email,
    /// `QOBUZ_USERNAME`
    Username,
    /// `QOBUZ_USER_ID`
    UserId,
    /// `QOBUZ_PASSWORD`
    Password,
    /// `QOBUZ_USER_AUTH_TOKEN`
    AuthToken,
    /// `QOBUZ_AUTH_METHOD`
    AuthMethod,
}

/// The name of a credential setting.
pub open spec fn key_text(k: CredKey) -> Seq<char> {
    match k {
        CredKey::Email => "QOBUZ_EMAIL"@,
        CredKey::Username => "QOBUZ_USERNAME"@,
        CredKey::UserId => "QOBUZ_USER_ID"@,
        CredKey::Password => "QOBUZ_PASSWORD"@,
        CredKey::AuthToken => "QOBUZ_USER_AUTH_TOKEN"@,
        CredKey::AuthMethod => "QOBUZ_AUTH_METHOD"@,
    }
}

/// `KEY=`, the start of a line that sets `k`.
pub open spec fn key_prefix(k: CredKey) -> Seq<char> {
    key_text(k) + seq!['=']
}

/// The name of a credential setting.
fn key_chars(k: CredKey) -> (v: Vec<char>)
    ensures
        v@ == key_text(k),
{
    match k {
        CredKey::Email => chars_of("QOBUZ_EMAIL"),
        CredKey::Username => chars_of("QOBUZ_USERNAME"),
        CredKey::UserId => chars_of("QOBUZ_USER_ID"),
        CredKey::Password => chars_of("QOBUZ_PASSWORD"),
        CredKey::AuthToken => chars_of("QOBUZ_USER_AUTH_TOKEN"),
        CredKey::AuthMethod => chars_of("QOBUZ_AUTH_METHOD"),
    }
}

/// `KEY=` for a credential setting.
fn prefix_chars(k: CredKey) -> (v: Vec<char>)
    ensures
        v@ == key_prefix(k),
{
    let mut v = key_chars(k);
    v.push('=');
    assert(v@ =~= key_prefix(k));
    v
}

/// The line `KEY=value` for a credential setting.
fn line_chars(k: CredKey, value: &str) -> (v: Vec<char>)
    ensures
        v@ == env_line(key_text(k), value@),
{
    let mut v = prefix_chars(k);
    extend_chars(&mut v, &chars_of(value));
    v
}

// ---------------------------------------------------------------------------
// Reading
// ---------------------------------------------------------------------------

/// The non-empty value a line gives to `k1` or `k2`.
pub open spec fn sets_key(l: Seq<char>, k1: Seq<char>, k2: Seq<char>) -> Option<Seq<char>> {
    match raw_entry(l) {
        Some((k, v)) => if (k == k1 || k == k2) && v.len() > 0 {
            Some(v)
        } else {
            None
        },
        None => None,
    }
}

/// The non-empty value given to `k1` or `k2` by the last line that sets one
/// of them.
pub open spec fn last_set(ls: Seq<Seq<char>>, k1: Seq<char>, k2: Seq<char>) -> Option<Seq<char>>
    decreases ls.len(),
{
    if ls.len() == 0 {
        None
    } else {
        match last_set(ls.drop_first(), k1, k2) {
            Some(v) => Some(v),
            None => sets_key(ls[0], k1, k2),
        }
    }
}

/// The value, possibly empty, given to `key` by the first line that sets it.
pub open spec fn first_value(ls: Seq<Seq<char>>, key: Seq<char>) -> Option<Seq<char>>
    decreases ls.len(),
{
    if ls.len() == 0 {
        None
    } else {
        match raw_entry(ls[0]) {
            Some((k, v)) => if k == key {
                Some(v)
            } else {
                first_value(ls.drop_first(), key)
            },
            None => first_value(ls.drop_first(), key),
        }
    }
}

/// The credentials a login form is filled in with from the `.env` content:
/// the saved method when its credentials are complete, otherwise a complete
/// token login, otherwise a complete email login, otherwise none.
pub open spec fn saved_login(env_content: Option<Seq<char>>) -> Option<(LoginMethod, Seq<char>, Seq<char>)> {
    let ls = lines(content_of(env_content));
    let email = last_set(ls, key_text(CredKey::Email), key_text(CredKey::Username));
    let password = last_set(ls, key_text(CredKey::Password), key_text(CredKey::Password));
    let user_id = last_set(ls, key_text(CredKey::UserId), key_text(CredKey::UserId));
    let token = last_set(ls, key_text(CredKey::AuthToken), key_text(CredKey::AuthToken));
    let has_email = email is Some && password is Some;
    let has_token = user_id is Some && token is Some;
    let method = first_value(ls, key_text(CredKey::AuthMethod));
    if method == Some("token"@) && has_token {
        Some((LoginMethod::Token, user_id->0, token->0))
    } else if method == Some("email"@) && has_email {
        Some((LoginMethod::EmailPassword, email->0, password->0))
    } else if has_token {
        Some((LoginMethod::Token, user_id->0, token->0))
    } else if has_email {
        Some((LoginMethod::EmailPassword, email->0, password->0))
    } else {
        None
    }
}

/// The method and the two fields of stored credentials.
pub open spec fn credentials_view(c: StoredCredentials) -> (LoginMethod, Seq<char>, Seq<char>) {
    match c {
        StoredCredentials::EmailPassword { email, password } => (
            LoginMethod::EmailPassword,
            email@,
            password@,
        ),
        StoredCredentials::Token { user_id, auth_token } => (LoginMethod::Token, user_id@, auth_token@),
    }
}

/// The view of optional credentials.
pub open spec fn opt_credentials_view(c: Option<StoredCredentials>) -> Option<(LoginMethod, Seq<char>, Seq<char>)> {
    match c {
        Some(c) => Some(credentials_view(c)),
        None => None,
    }
}

/// The view of an optional character vector.
pub open spec fn opt_vec_view(v: Option<Vec<char>>) -> Option<Seq<char>> {
    match v {
        Some(v) => Some(v@),
        None => None,
    }
}

/// Whether an optional value is exactly `text`.
fn opt_is(v: &Option<Vec<char>>, text: &str) -> (b: bool)
    ensures
        b == (opt_vec_view(*v) == Some(text@)),
{
    match v {
        Some(x) => chars_eq(x, &chars_of(text)),
        None => false,
    }
}

/// The credentials to pre-fill the login form with, read from the `.env`
/// content (`None` when the file does not exist).
///
/// `QOBUZ_EMAIL` or `QOBUZ_USERNAME`, `QOBUZ_PASSWORD`, `QOBUZ_USER_ID` and
/// `QOBUZ_USER_AUTH_TOKEN` take the last non-empty value in the file, and
/// `QOBUZ_AUTH_METHOD` the first. The saved method wins when its credentials
/// are complete; otherwise a complete token login is preferred over a
/// complete email login; with neither, the form stays empty.
pub fn load_credentials_from_env(env_content: Option<&str>) -> (r: Option<StoredCredentials>)
    ensures
        opt_credentials_view(r) == saved_login(opt_view(env_content)),
{
    let content = content_chars(env_content);
    let ls = lines_of(&content);
    let ghost all = views(ls@);
    let ghost n = all.len() as int;
    let k_email = key_chars(CredKey::Email);
    let k_username = key_chars(CredKey::Username);
    let k_password = key_chars(CredKey::Password);
    let k_user_id = key_chars(CredKey::UserId);
    let k_token = key_chars(CredKey::AuthToken);
    let k_method = key_chars(CredKey::AuthMethod);
    let mut email: Option<Vec<char>> = None;
    let mut password: Option<Vec<char>> = None;
    let mut user_id: Option<Vec<char>> = None;
    let mut token: Option<Vec<char>> = None;
    let mut method: Option<Vec<char>> = None;
    let mut i: usize = ls.len();
    assert(all.subrange(n, n) =~= Seq::<Seq<char>>::empty());
    while i > 0
        invariant
            all == views(ls@),
            n == ls.len(),
            all == lines(content_of(opt_view(env_content))),
            i <= ls.len(),
            k_email@ == key_text(CredKey::Email),
            k_username@ == key_text(CredKey::Username),
            k_password@ == key_text(CredKey::Password),
            k_user_id@ == key_text(CredKey::UserId),
            k_token@ == key_text(CredKey::AuthToken),
            k_method@ == key_text(CredKey::AuthMethod),
            opt_vec_view(email) == last_set(all.subrange(i as int, n), k_email@, k_username@),
            opt_vec_view(password) == last_set(all.subrange(i as int, n), k_password@, k_password@),
            opt_vec_view(user_id) == last_set(all.subrange(i as int, n), k_user_id@, k_user_id@),
            opt_vec_view(token) == last_set(all.subrange(i as int, n), k_token@, k_token@),
            opt_vec_view(method) == first_value(all.subrange(i as int, n), k_method@),
        decreases i,
    {
        i = i - 1;
        let ghost rest = all.subrange(i as int, n);
        assert(rest.drop_first() =~= all.subrange(i + 1, n));
        assert(rest[0] == ls@[i as int]@);
        let t = trim_chars(&ls[i]);
        if t.len() > 0 && t[0] != '#' {
            if let Some((k, v)) = split_once_chars(&t, '=') {
                assert(raw_entry(ls@[i as int]@) == Some((k@, v@)));
                let filled = v.len() > 0;
                if email.is_none() && filled && (chars_eq(&k, &k_email) || chars_eq(&k, &k_username)) {
                    email = Some(v.clone());
                }
                if password.is_none() && filled && chars_eq(&k, &k_password) {
                    password = Some(v.clone());
                }
                if user_id.is_none() && filled && chars_eq(&k, &k_user_id) {
                    user_id = Some(v.clone());
                }
                if token.is_none() && filled && chars_eq(&k, &k_token) {
                    token = Some(v.clone());
                }
                if chars_eq(&k, &k_method) {
                    method = Some(v);
                }
            } else {
                assert(raw_entry(ls@[i as int]@) is None);
            }
        } else {
            assert(raw_entry(ls@[i as int]@) is None);
        }
    }
    assert(all.subrange(0, n) =~= all);
    let has_email = email.is_some() && password.is_some();
    let has_token = user_id.is_some() && token.is_some();
    let prefer_token = opt_is(&method, "token") && has_token;
    let prefer_email = opt_is(&method, "email") && has_email;
    if prefer_token || (!prefer_email && has_token) {
        match (user_id, token) {
            (Some(u), Some(t)) => Some(
                StoredCredentials::Token { user_id: string_of(&u), auth_token: string_of(&t) },
            ),
            _ => None,
        }
    } else if has_email {
        match (email, password) {
            (Some(e), Some(p)) => Some(
                StoredCredentials::EmailPassword { email: string_of(&e), password: string_of(&p) },
            ),
            _ => None,
        }
    } else {
        None
    }
}


// ---------------------------------------------------------------------------
// Saving
// ---------------------------------------------------------------------------

/// Which credential setting a line starts with, tested in the order email,
/// username, user ID, password, token, method.
pub open spec fn cred_key_of(l: Seq<char>) -> Option<CredKey> {
    if starts_with(l, key_prefix(CredKey::Email)) {
        Some(CredKey::Email)
    } else if starts_with(l, key_prefix(CredKey::Username)) {
        Some(CredKey::Username)
    } else if starts_with(l, key_prefix(CredKey::UserId)) {
        Some(CredKey::UserId)
    } else if starts_with(l, key_prefix(CredKey::Password)) {
        Some(CredKey::Password)
    } else if starts_with(l, key_prefix(CredKey::AuthToken)) {
        Some(CredKey::AuthToken)
    } else if starts_with(l, key_prefix(CredKey::AuthMethod)) {
        Some(CredKey::AuthMethod)
    } else {
        None
    }
}

/// A line rewritten with the new credentials: the email or username line
/// and the user ID line take the given value when there is one, the
/// password and token lines take the password or token, and the method line
/// takes the method.
pub open spec fn cred_update_line(
    l: Seq<char>,
    email_or_username: Option<Seq<char>>,
    user_id: Option<Seq<char>>,
    password_or_token: Seq<char>,
    auth_method: Seq<char>,
) -> Seq<char> {
    match cred_key_of(l) {
        Some(CredKey::Email) => match email_or_username {
            Some(e) => env_line(key_text(CredKey::Email), e),
            None => l,
        },
        Some(CredKey::Username) => match email_or_username {
            Some(e) => env_line(key_text(CredKey::Username), e),
            None => l,
        },
        Some(CredKey::UserId) => match user_id {
            Some(u) => env_line(key_text(CredKey::UserId), u),
            None => l,
        },
        Some(CredKey::Password) => env_line(key_text(CredKey::Password), password_or_token),
        Some(CredKey::AuthToken) => env_line(key_text(CredKey::AuthToken), password_or_token),
        Some(CredKey::AuthMethod) => env_line(key_text(CredKey::AuthMethod), auth_method),
        None => l,
    }
}

/// Every line rewritten with the new credentials.
pub open spec fn cred_updated(
    ls: Seq<Seq<char>>,
    email_or_username: Option<Seq<char>>,
    user_id: Option<Seq<char>>,
    password_or_token: Seq<char>,
    auth_method: Seq<char>,
) -> Seq<Seq<char>> {
    ls.map_values(
        |l: Seq<char>| cred_update_line(l, email_or_username, user_id, password_or_token, auth_method),
    )
}

/// Some line starts with the setting `k`.
pub open spec fn has_cred_line(ls: Seq<Seq<char>>, k: CredKey) -> bool {
    exists|i: int| 0 <= i < ls.len() && cred_key_of(#[trigger] ls[i]) == Some(k)
}

/// `ls`, with `l` added at the end unless `present`.
pub open spec fn push_unless(ls: Seq<Seq<char>>, present: bool, l: Seq<char>) -> Seq<Seq<char>> {
    if present {
        ls
    } else {
        ls.push(l)
    }
}

/// The identity setting that an email login does not write: the username
/// when the value holds `@` (it is written as the email), the email
/// otherwise.
pub open spec fn other_identity(at: bool) -> CredKey {
    if at {
        CredKey::Username
    } else {
        CredKey::Email
    }
}

/// Lines kept after an email login: all but the user ID and token lines, and
/// the lines of the identity setting not written (`at`: the value holds `@`).
pub open spec fn keeps_for_email(l: Seq<char>, at: bool) -> bool {
    &&& !starts_with(l, key_prefix(CredKey::UserId))
    &&& !starts_with(l, key_prefix(CredKey::AuthToken))
    &&& !starts_with(l, key_prefix(other_identity(at)))
}

/// Lines kept after a token login: all but the email, username and password
/// lines.
pub open spec fn keeps_for_token(l: Seq<char>) -> bool {
    &&& !starts_with(l, key_prefix(CredKey::Email))
    &&& !starts_with(l, key_prefix(CredKey::Username))
    &&& !starts_with(l, key_prefix(CredKey::Password))
}

/// The filter of lines kept after an email login.
pub open spec fn email_filter(at: bool) -> spec_fn(Seq<char>) -> bool {
    |l: Seq<char>| keeps_for_email(l, at)
}

/// The filter of lines kept after a token login.
pub open spec fn token_filter() -> spec_fn(Seq<char>) -> bool {
    |l: Seq<char>| keeps_for_token(l)
}

/// The lines of the file after saving the credentials of a login.
///
/// Existing credential lines are rewritten in place. For an email login the
/// missing email (when the value holds `@`) or username line, password line
/// and `QOBUZ_AUTH_METHOD=email` are added, and the token lines and those of
/// the other identity setting dropped, so one identity setting remains; for
/// a token login the missing user ID, token and `QOBUZ_AUTH_METHOD=token`
/// lines are added, and the email, username and password lines dropped.
pub open spec fn credentials_saved_lines(
    env_content: Option<Seq<char>>,
    email_or_username: Option<Seq<char>>,
    user_id: Option<Seq<char>>,
    password_or_token: Seq<char>,
    auth_method: Seq<char>,
) -> Seq<Seq<char>> {
    let ls = lines(content_of(env_content));
    let up = cred_updated(ls, email_or_username, user_id, password_or_token, auth_method);
    match email_or_username {
        Some(e) => {
            let a = if has_char(e, '@') {
                push_unless(up, has_cred_line(ls, CredKey::Email), env_line(key_text(CredKey::Email), e))
            } else {
                push_unless(
                    up,
                    has_cred_line(ls, CredKey::Username),
                    env_line(key_text(CredKey::Username), e),
                )
            };
            let b = push_unless(
                a,
                has_cred_line(ls, CredKey::Password),
                env_line(key_text(CredKey::Password), password_or_token),
            );
            let c = push_unless(
                b,
                has_cred_line(ls, CredKey::AuthMethod),
                env_line(key_text(CredKey::AuthMethod), "email"@),
            );
            c.filter(email_filter(has_char(e, '@')))
        },
        None => match user_id {
            Some(u) => {
                let a = push_unless(
                    up,
                    has_cred_line(ls, CredKey::UserId),
                    env_line(key_text(CredKey::UserId), u),
                );
                let b = push_unless(
                    a,
                    has_cred_line(ls, CredKey::AuthToken),
                    env_line(key_text(CredKey::AuthToken), password_or_token),
                );
                let c = push_unless(
                    b,
                    has_cred_line(ls, CredKey::AuthMethod),
                    env_line(key_text(CredKey::AuthMethod), "token"@),
                );
                c.filter(token_filter())
            },
            None => up,
        },
    }
}

/// The view of an optional `&str`.
pub open spec fn opt_str(s: Option<&str>) -> Option<Seq<char>> {
    match s {
        Some(s) => Some(s@),
        None => None,
    }
}

/// Which credential setting a line starts with.
fn cred_key_of_chars(l: &[char]) -> (k: Option<CredKey>)
    ensures
        k == cred_key_of(l@),
{
    if starts_with_chars(l, &prefix_chars(CredKey::Email)) {
        Some(CredKey::Email)
    } else if starts_with_chars(l, &prefix_chars(CredKey::Username)) {
        Some(CredKey::Username)
    } else if starts_with_chars(l, &prefix_chars(CredKey::UserId)) {
        Some(CredKey::UserId)
    } else if starts_with_chars(l, &prefix_chars(CredKey::Password)) {
        Some(CredKey::Password)
    } else if starts_with_chars(l, &prefix_chars(CredKey::AuthToken)) {
        Some(CredKey::AuthToken)
    } else if starts_with_chars(l, &prefix_chars(CredKey::AuthMethod)) {
        Some(CredKey::AuthMethod)
    } else {
        None
    }
}

/// A line rewritten with the new credentials.
fn update_line(
    l: &Vec<char>,
    email_or_username: Option<&str>,
    user_id: Option<&str>,
    password_or_token: &str,
    auth_method: &str,
) -> (r: Vec<char>)
    ensures
        r@ == cred_update_line(
            l@,
            opt_str(email_or_username),
            opt_str(user_id),
            password_or_token@,
            auth_method@,
        ),
{
    match cred_key_of_chars(l) {
        Some(CredKey::Email) => match email_or_username {
            Some(e) => line_chars(CredKey::Email, e),
            None => l.clone(),
        },
        Some(CredKey::Username) => match email_or_username {
            Some(e) => line_chars(CredKey::Username, e),
            None => l.clone(),
        },
        Some(CredKey::UserId) => match user_id {
            Some(u) => line_chars(CredKey::UserId, u),
            None => l.clone(),
        },
        Some(CredKey::Password) => line_chars(CredKey::Password, password_or_token),
        Some(CredKey::AuthToken) => line_chars(CredKey::AuthToken, password_or_token),
        Some(CredKey::AuthMethod) => line_chars(CredKey::AuthMethod, auth_method),
        None => l.clone(),
    }
}

/// Whether some line starts with the setting `k`.
fn any_line_of_key(ls: &Vec<Vec<char>>, k: CredKey) -> (b: bool)
    ensures
        b == has_cred_line(views(ls@), k),
{
    let ghost all = views(ls@);
    let mut i: usize = 0;
    while i < ls.len()
        invariant
            all == views(ls@),
            i <= ls.len(),
            forall|j: int| 0 <= j < i ==> cred_key_of(#[trigger] all[j]) != Some(k),
        decreases ls.len() - i,
    {
        assert(all[i as int] == ls@[i as int]@);
        if cred_key_of_chars(&ls[i]) == Some(k) {
            return true;
        }
        i = i + 1;
    }
    false
}

/// The lines kept by a filter: those of an email login (whose value holds
/// `@` when `at`) when `for_email`, of a token login otherwise.
fn keep_lines(ls: &Vec<Vec<char>>, for_email: bool, at: bool) -> (r: Vec<Vec<char>>)
    ensures
        views(r@) == views(ls@).filter(if for_email { email_filter(at) } else { token_filter() }),
{
    let ghost f = if for_email { email_filter(at) } else { token_filter() };
    let ghost all = views(ls@);
    let p_user_id = prefix_chars(CredKey::UserId);
    let p_token = prefix_chars(CredKey::AuthToken);
    let p_email = prefix_chars(CredKey::Email);
    let p_username = prefix_chars(CredKey::Username);
    let p_password = prefix_chars(CredKey::Password);
    let mut out: Vec<Vec<char>> = Vec::new();
    let mut i: usize = 0;
    reveal(Seq::filter);
    assert(all.take(0) =~= Seq::<Seq<char>>::empty());
    while i < ls.len()
        invariant
            all == views(ls@),
            i <= ls.len(),
            f == (if for_email { email_filter(at) } else { token_filter() }),
            p_user_id@ == key_prefix(CredKey::UserId),
            p_token@ == key_prefix(CredKey::AuthToken),
            p_email@ == key_prefix(CredKey::Email),
            p_username@ == key_prefix(CredKey::Username),
            p_password@ == key_prefix(CredKey::Password),
            views(out@) == all.take(i as int).filter(f),
        decreases ls.len() - i,
    {
        let l = &ls[i];
        let keep = if for_email {
            !starts_with_chars(l, &p_user_id) && !starts_with_chars(l, &p_token) && !(if at {
                starts_with_chars(l, &p_username)
            } else {
                starts_with_chars(l, &p_email)
            })
        } else {
            !starts_with_chars(l, &p_email) && !starts_with_chars(l, &p_username)
                && !starts_with_chars(l, &p_password)
        };
        assert(keep == f(all[i as int]));
        let ghost before = out@;
        if keep {
            out.push(l.clone());
            assert(views(out@) =~= views(before).push(all[i as int]));
        }
        proof {
            reveal(Seq::filter);
            assert(all.take(i + 1).drop_last() =~= all.take(i as int));
            assert(all.take(i + 1).last() == all[i as int]);
        }
        i = i + 1;
    }
    assert(all.take(ls.len() as int) =~= all);
    out
}

/// Pushes `l` unless `present`.
fn push_line_unless(ls: &mut Vec<Vec<char>>, present: bool, l: Vec<char>)
    ensures
        views(final(ls)@) == push_unless(views(old(ls)@), present, l@),
{
    if !present {
        let ghost before = ls@;
        ls.push(l);
        assert(views(ls@) =~= views(before).push(l@));
    }
}

/// The new text of the `.env` file after a successful login, given its
/// current content (`None` when it does not exist).
///
/// Existing credential lines are updated instead of duplicated; an email or
/// username is written as `QOBUZ_EMAIL` when it holds `@` and as
/// `QOBUZ_USERNAME` otherwise, and the line of the other one is dropped; the
/// credentials of the other method are
/// removed and the method used is remembered.
pub fn save_user_credentials_to_env(
    env_content: Option<&str>,
    email_or_username: Option<&str>,
    user_id: Option<&str>,
    password_or_token: &str,
    auth_method: &str,
) -> (r: String)
    ensures
        r@ == join(
            credentials_saved_lines(
                opt_view(env_content),
                opt_str(email_or_username),
                opt_str(user_id),
                password_or_token@,
                auth_method@,
            ),
            seq!['\n'],
        ),
{
    let content = content_chars(env_content);
    let ls = lines_of(&content);
    let ghost orig = views(ls@);
    let mut up: Vec<Vec<char>> = Vec::new();
    let mut i: usize = 0;
    while i < ls.len()
        invariant
            orig == views(ls@),
            i <= ls.len(),
            views(up@) == cred_updated(
                orig,
                opt_str(email_or_username),
                opt_str(user_id),
                password_or_token@,
                auth_method@,
            ).take(i as int),
        decreases ls.len() - i,
    {
        let l = update_line(&ls[i], email_or_username, user_id, password_or_token, auth_method);
        let ghost before = up@;
        up.push(l);
        assert(views(up@) =~= views(before).push(l@));
        assert(orig[i as int] == ls@[i as int]@);
        assert(cred_updated(
            orig,
            opt_str(email_or_username),
            opt_str(user_id),
            password_or_token@,
            auth_method@,
        ).take(i + 1) =~= cred_updated(
            orig,
            opt_str(email_or_username),
            opt_str(user_id),
            password_or_token@,
            auth_method@,
        ).take(i as int).push(l@));
        i = i + 1;
    }
    assert(cred_updated(
        orig,
        opt_str(email_or_username),
        opt_str(user_id),
        password_or_token@,
        auth_method@,
    ).take(ls.len() as int) =~= cred_updated(
        orig,
        opt_str(email_or_username),
        opt_str(user_id),
        password_or_token@,
        auth_method@,
    ));
    let out = match email_or_username {
        Some(e) => {
            let at = find_char_index(&chars_of(e), '@').is_some();
            if at {
                let present = any_line_of_key(&ls, CredKey::Email);
                push_line_unless(&mut up, present, line_chars(CredKey::Email, e));
            } else {
                let present = any_line_of_key(&ls, CredKey::Username);
                push_line_unless(&mut up, present, line_chars(CredKey::Username, e));
            }
            let present = any_line_of_key(&ls, CredKey::Password);
            push_line_unless(&mut up, present, line_chars(CredKey::Password, password_or_token));
            let present = any_line_of_key(&ls, CredKey::AuthMethod);
            push_line_unless(&mut up, present, line_chars(CredKey::AuthMethod, "email"));
            keep_lines(&up, true, at)
        },
        None => match user_id {
            Some(u) => {
                let present = any_line_of_key(&ls, CredKey::UserId);
                push_line_unless(&mut up, present, line_chars(CredKey::UserId, u));
                let present = any_line_of_key(&ls, CredKey::AuthToken);
                push_line_unless(&mut up, present, line_chars(CredKey::AuthToken, password_or_token));
                let present = any_line_of_key(&ls, CredKey::AuthMethod);
                push_line_unless(&mut up, present, line_chars(CredKey::AuthMethod, "token"));
                keep_lines(&up, false, false)
            },
            None => up,
        },
    };
    let nl: Vec<char> = vec!['\n'];
    assert(nl@ =~= seq!['\n']);
    string_of(&join_chars(&out, &nl))
}

// ---------------------------------------------------------------------------
// Laws
// ---------------------------------------------------------------------------

/// The settings that hold login credentials.
pub open spec fn is_login_key(k: Seq<char>) -> bool {
    ||| k == key_text(CredKey::Email)
    ||| k == key_text(CredKey::Username)
    ||| k == key_text(CredKey::UserId)
    ||| k == key_text(CredKey::Password)
    ||| k == key_text(CredKey::AuthToken)
}

/// A line that sets a login credential to a non-empty value starts with
/// `KEY=` (it is not indented).
pub open spec fn login_line_unindented(l: Seq<char>) -> bool {
    match raw_entry(l) {
        Some((k, v)) => v.len() > 0 && is_login_key(k) ==> starts_with(l, k + seq!['=']),
        None => true,
    }
}

/// No line of the file sets a login credential on an indented line.
pub open spec fn credential_lines_unindented(ls: Seq<Seq<char>>) -> bool {
    forall|i: int| 0 <= i < ls.len() ==> login_line_unindented(#[trigger] ls[i])
}

/// The setting names are distinct plain keys.
proof fn lemma_key_texts()
    ensures
        forall|k: CredKey| plain_key(#[trigger] key_text(k)),
        forall|k1: CredKey, k2: CredKey|
            #![trigger key_text(k1), key_text(k2)]
            k1 != k2 ==> key_text(k1) != key_text(k2),
        plain_value("email"@),
        plain_value("token"@),
        "email"@ != "token"@,
{
    reveal_strlit("QOBUZ_EMAIL");
    reveal_strlit("QOBUZ_USERNAME");
    reveal_strlit("QOBUZ_USER_ID");
    reveal_strlit("QOBUZ_PASSWORD");
    reveal_strlit("QOBUZ_USER_AUTH_TOKEN");
    reveal_strlit("QOBUZ_AUTH_METHOD");
    reveal_strlit("email");
    reveal_strlit("token");
    assert("email"@[0] != "token"@[0]);
    assert(key_text(CredKey::Username)[6] != key_text(CredKey::Password)[6]);
    assert forall|k: CredKey| plain_key(#[trigger] key_text(k)) by {
        match k {
            CredKey::Email => {},
            CredKey::Username => {},
            CredKey::UserId => {},
            CredKey::Password => {},
            CredKey::AuthToken => {},
            CredKey::AuthMethod => {},
        }
    }
}

/// A `KEY=value` line starts with `KEY=`.
proof fn lemma_env_line_prefix(k: CredKey, v: Seq<char>)
    ensures
        starts_with(env_line(key_text(k), v), key_prefix(k)),
{
    let l = env_line(key_text(k), v);
    assert(l.subrange(0, key_prefix(k).len() as int) =~= key_prefix(k));
}

/// A line that starts with `KEY=` has the entry of `k` and starts with no
/// other setting.
proof fn lemma_prefix_entry(l: Seq<char>, k: CredKey)
    requires
        starts_with(l, key_prefix(k)),
    ensures
        raw_entry(l) matches Some((kk, _v)) && kk == key_text(k),
        forall|k2: CredKey| k2 != k ==> !starts_with(l, #[trigger] key_prefix(k2)),
{
    lemma_key_texts();
    lemma_entry_of_key_line(l, key_text(k));
    assert forall|k2: CredKey| k2 != k implies !starts_with(l, #[trigger] key_prefix(k2)) by {
        if starts_with(l, key_prefix(k2)) {
            lemma_entry_of_key_line(l, key_text(k2));
        }
    }
}

/// The line `KEY=value` holds the entry of `k` with that value, has no line
/// feed, and starts with no other setting.
proof fn lemma_written_line(k: CredKey, v: Seq<char>)
    requires
        plain_value(v),
    ensures
        raw_entry(env_line(key_text(k), v)) == Some((key_text(k), v)),
        !has_char(env_line(key_text(k), v), '\n'),
        starts_with(env_line(key_text(k), v), key_prefix(k)),
        forall|k2: CredKey|
            k2 != k ==> !starts_with(env_line(key_text(k), v), #[trigger] key_prefix(k2)),
{
    lemma_key_texts();
    assert(plain_key(key_text(k)));
    lemma_entry_of_env_line(key_text(k), v);
    lemma_env_line_no_newline(key_text(k), v);
    lemma_env_line_prefix(k, v);
    lemma_prefix_entry(env_line(key_text(k), v), k);
}

/// A line that starts with no credential setting gives none a value.
proof fn lemma_plain_line(l: Seq<char>)
    requires
        login_line_unindented(l),
        cred_key_of(l) is None,
    ensures
        match raw_entry(l) {
            Some((k, v)) => v.len() > 0 ==> !is_login_key(k),
            None => true,
        },
{
}

/// Reading back lines joined with line feeds finds the entries of the lines
/// joined, and each of those entries.
#[verifier::spinoff_prover]
#[verifier::rlimit(40)]
proof fn lemma_lines_join_entries(ls: Seq<Seq<char>>)
    requires
        forall|i: int| 0 <= i < ls.len() ==> !has_char(#[trigger] ls[i], '\n'),
    ensures
        forall|i: int|
            0 <= i < lines(join(ls, seq!['\n'])).len() ==> exists|j: int|
                0 <= j < ls.len() && raw_entry(#[trigger] lines(join(ls, seq!['\n']))[i])
                    == raw_entry(ls[j]),
        forall|j: int|
            0 <= j < ls.len() && (#[trigger] raw_entry(ls[j])) is Some ==> exists|i: int|
                0 <= i < lines(join(ls, seq!['\n'])).len() && raw_entry(
                    lines(join(ls, seq!['\n']))[i],
                ) == raw_entry(ls[j]),
    decreases ls.len(),
{
    let nl = seq!['\n'];
    let big = lines(join(ls, nl));
    if ls.len() == 0 {
        assert(big =~= Seq::<Seq<char>>::empty());
    } else if ls.len() == 1 {
        let l = ls[0];
        assert(join(ls, nl) == l);
        assert(!has_char(l, '\n'));
        if l.len() == 0 {
            assert(big =~= Seq::<Seq<char>>::empty());
            assert(trim(l) =~= Seq::<char>::empty());
            assert(raw_entry(l) is None);
        } else {
            lemma_find_char_none(l, '\n');
            assert(big =~= seq![l]);
            assert(raw_entry(big[0]) == raw_entry(ls[0]));
        }
    } else {
        let rest = ls.drop_first();
        let j = join(ls, nl);
        let l = ls[0];
        assert(j == l + nl + join(rest, nl));
        assert(!has_char(l, '\n'));
        assert forall|k: int| 0 <= k < l.len() implies j[k] != '\n' by {
            assert(j[k] == l[k]);
        }
        lemma_find_char_at(j, '\n', l.len() as int);
        assert(j.subrange(0, l.len() as int) =~= l);
        assert(j.subrange(l.len() as int + 1, j.len() as int) =~= join(rest, nl));
        let small = lines(join(rest, nl));
        assert(big == seq![strip_cr(l)] + small);
        assert forall|i: int| 0 <= i < rest.len() implies !has_char(#[trigger] rest[i], '\n') by {
            assert(rest[i] == ls[i + 1]);
        }
        lemma_lines_join_entries(rest);
        lemma_trim_strip_cr(l);
        assert(raw_entry(strip_cr(l)) == raw_entry(l));
        assert(raw_entry(big[0]) == raw_entry(ls[0]));
        assert forall|i: int| 0 <= i < big.len() implies exists|jj: int|
            0 <= jj < ls.len() && raw_entry(#[trigger] big[i]) == raw_entry(ls[jj]) by {
            if i > 0 {
                assert(big[i] == small[i - 1]);
                let jj = choose|jj: int|
                    0 <= jj < rest.len() && raw_entry(#[trigger] small[i - 1]) == raw_entry(rest[jj]);
                assert(rest[jj] == ls[jj + 1]);
            }
        }
        assert forall|jj: int| 0 <= jj < ls.len() && (#[trigger] raw_entry(ls[jj])) is Some implies exists|i: int|
            0 <= i < big.len() && raw_entry(big[i]) == raw_entry(ls[jj]) by {
            if jj > 0 {
                assert(ls[jj] == rest[jj - 1]);
                assert(raw_entry(rest[jj - 1]) is Some);
                let i = choose|i: int|
                    0 <= i < small.len() && raw_entry(small[i]) == raw_entry(rest[jj - 1]);
                assert(big[i + 1] == small[i]);
            }
        }
    }
}

/// No line sets `k1` or `k2`: the last value set is none.
proof fn lemma_last_set_none(ls: Seq<Seq<char>>, k1: Seq<char>, k2: Seq<char>)
    requires
        forall|i: int| 0 <= i < ls.len() ==> sets_key(#[trigger] ls[i], k1, k2) is None,
    ensures
        last_set(ls, k1, k2) is None,
    decreases ls.len(),
{
    if ls.len() > 0 {
        let rest = ls.drop_first();
        assert forall|i: int| 0 <= i < rest.len() implies sets_key(#[trigger] rest[i], k1, k2) is None by {
            assert(rest[i] == ls[i + 1]);
        }
        lemma_last_set_none(rest, k1, k2);
        assert(sets_key(ls[0], k1, k2) is None);
    }
}

/// Every line that sets `k1` or `k2` sets `x`, and one does: the last value
/// set is `x`.
proof fn lemma_last_set_only(ls: Seq<Seq<char>>, k1: Seq<char>, k2: Seq<char>, x: Seq<char>)
    requires
        forall|i: int|
            0 <= i < ls.len() ==> (sets_key(#[trigger] ls[i], k1, k2) matches Some(v) ==> v == x),
        exists|i: int| 0 <= i < ls.len() && sets_key(#[trigger] ls[i], k1, k2) == Some(x),
    ensures
        last_set(ls, k1, k2) == Some(x),
    decreases ls.len(),
{
    let rest = ls.drop_first();
    assert forall|i: int| 0 <= i < rest.len() implies (sets_key(#[trigger] rest[i], k1, k2) matches Some(v)
        ==> v == x) by {
        assert(rest[i] == ls[i + 1]);
    }
    if exists|i: int| 0 <= i < rest.len() && sets_key(#[trigger] rest[i], k1, k2) == Some(x) {
        lemma_last_set_only(rest, k1, k2, x);
    } else {
        assert forall|i: int| 0 <= i < rest.len() implies sets_key(#[trigger] rest[i], k1, k2) is None by {
            assert(rest[i] == ls[i + 1]);
            if sets_key(rest[i], k1, k2) is Some {
                assert(sets_key(ls[i + 1], k1, k2) == Some(x));
            }
        }
        lemma_last_set_none(rest, k1, k2);
        let w = choose|i: int| 0 <= i < ls.len() && sets_key(#[trigger] ls[i], k1, k2) == Some(x);
        if w > 0 {
            assert(rest[w - 1] == ls[w]);
        }
    }
}

/// What an email login needs of a line written for it: no line feed, the
/// email or username and password it sets are the saved ones, and a kept
/// line sets no user ID.
spec fn email_line_ok(l: Seq<char>, x: Seq<char>, pw: Seq<char>, at: bool) -> bool {
    &&& (keeps_for_email(l, at) ==> !has_char(l, '\n'))
    &&& (sets_key(l, key_text(CredKey::Email), key_text(CredKey::Username)) matches Some(v) ==> v
        == x)
    &&& (sets_key(l, key_text(CredKey::Password), key_text(CredKey::Password)) matches Some(v) ==> v
        == pw)
    &&& (keeps_for_email(l, at) ==> sets_key(l, key_text(CredKey::UserId), key_text(CredKey::UserId)) is None)
}

/// What a token login needs of a line written for it: no line feed, the user
/// ID and token it sets are the saved ones, and a kept line sets no email
/// or username.
spec fn token_line_ok(l: Seq<char>, y: Seq<char>, tok: Seq<char>) -> bool {
    &&& !has_char(l, '\n')
    &&& (sets_key(l, key_text(CredKey::UserId), key_text(CredKey::UserId)) matches Some(v) ==> v
        == y)
    &&& (sets_key(l, key_text(CredKey::AuthToken), key_text(CredKey::AuthToken)) matches Some(v)
        ==> v == tok)
    &&& (keeps_for_token(l) ==> sets_key(l, key_text(CredKey::Email), key_text(CredKey::Username)) is None)
}

/// A file line rewritten for an email login.
proof fn lemma_email_update_line(
    l0: Seq<char>,
    x: Seq<char>,
    u: Option<Seq<char>>,
    pw: Seq<char>,
    m: Seq<char>,
    at: bool,
)
    requires
        !has_char(l0, '\n'),
        login_line_unindented(l0),
        plain_value(x),
        plain_value(pw),
        !has_char(m, '\n'),
    ensures
        email_line_ok(cred_update_line(l0, Some(x), u, pw, m), x, pw, at),
{
    lemma_key_texts();
    let l = cred_update_line(l0, Some(x), u, pw, m);
    match cred_key_of(l0) {
        Some(CredKey::Email) => lemma_written_line(CredKey::Email, x),
        Some(CredKey::Username) => lemma_written_line(CredKey::Username, x),
        Some(CredKey::UserId) => {
            if let Some(y) = u {
                lemma_env_line_prefix(CredKey::UserId, y);
            }
            lemma_prefix_entry(l, CredKey::UserId);
        },
        Some(CredKey::Password) => lemma_written_line(CredKey::Password, pw),
        Some(CredKey::AuthToken) => lemma_written_line(CredKey::AuthToken, pw),
        Some(CredKey::AuthMethod) => {
            lemma_env_line_prefix(CredKey::AuthMethod, m);
            lemma_prefix_entry(l, CredKey::AuthMethod);
            lemma_env_line_no_newline(key_text(CredKey::AuthMethod), m);
        },
        None => lemma_plain_line(l0),
    }
}

/// A file line rewritten for a token login.
proof fn lemma_token_update_line(l0: Seq<char>, y: Seq<char>, tok: Seq<char>, m: Seq<char>)
    requires
        !has_char(l0, '\n'),
        login_line_unindented(l0),
        plain_value(y),
        plain_value(tok),
        !has_char(m, '\n'),
    ensures
        token_line_ok(cred_update_line(l0, None, Some(y), tok, m), y, tok),
{
    lemma_key_texts();
    let l = cred_update_line(l0, None, Some(y), tok, m);
    match cred_key_of(l0) {
        Some(CredKey::Email) => lemma_prefix_entry(l0, CredKey::Email),
        Some(CredKey::Username) => lemma_prefix_entry(l0, CredKey::Username),
        Some(CredKey::UserId) => lemma_written_line(CredKey::UserId, y),
        Some(CredKey::Password) => lemma_written_line(CredKey::Password, tok),
        Some(CredKey::AuthToken) => lemma_written_line(CredKey::AuthToken, tok),
        Some(CredKey::AuthMethod) => {
            lemma_env_line_prefix(CredKey::AuthMethod, m);
            lemma_prefix_entry(l, CredKey::AuthMethod);
            lemma_env_line_no_newline(key_text(CredKey::AuthMethod), m);
        },
        None => lemma_plain_line(l0),
    }
}

/// The value the file read back gives to `k1` or `k2`, when every kept line
/// that sets them sets `x` and one does.
proof fn lemma_read_back_only(
    c: Seq<Seq<char>>,
    f: spec_fn(Seq<char>) -> bool,
    k1: Seq<char>,
    k2: Seq<char>,
    x: Seq<char>,
)
    requires
        forall|t: int| 0 <= t < c.len() && f(c[t]) ==> !has_char(#[trigger] c[t], '\n'),
        forall|t: int|
            0 <= t < c.len() && f(c[t]) ==> (sets_key(#[trigger] c[t], k1, k2) matches Some(v) ==> v
                == x),
        exists|t: int| 0 <= t < c.len() && f(c[t]) && sets_key(#[trigger] c[t], k1, k2) == Some(x),
    ensures
        last_set(lines(join(c.filter(f), seq!['\n'])), k1, k2) == Some(x),
{
    let kept = c.filter(f);
    let big = lines(join(kept, seq!['\n']));
    assert forall|i: int| 0 <= i < kept.len() implies f(#[trigger] kept[i]) && exists|t: int|
        0 <= t < c.len() && c[t] == kept[i] by {
        c.lemma_filter_pred(f, i);
        assert(kept.contains(kept[i]));
        c.lemma_filter_contains_rev(f, kept[i]);
    }
    assert forall|i: int| 0 <= i < kept.len() implies !has_char(#[trigger] kept[i], '\n') && (sets_key(
        kept[i],
        k1,
        k2,
    ) matches Some(v) ==> v == x) by {
        let t = choose|t: int| 0 <= t < c.len() && c[t] == kept[i];
        assert(f(c[t]));
    }
    lemma_lines_join_entries(kept);
    assert forall|i: int| 0 <= i < big.len() implies (sets_key(#[trigger] big[i], k1, k2) matches Some(v)
        ==> v == x) by {
        let j = choose|j: int| 0 <= j < kept.len() && raw_entry(big[i]) == raw_entry(kept[j]);
        assert(sets_key(big[i], k1, k2) == sets_key(kept[j], k1, k2));
    }
    let t = choose|t: int| 0 <= t < c.len() && f(c[t]) && sets_key(#[trigger] c[t], k1, k2) == Some(x);
    c.lemma_filter_contains(f, t);
    let j = choose|j: int| 0 <= j < kept.len() && kept[j] == c[t];
    assert(raw_entry(kept[j]) is Some);
    let i = choose|i: int| 0 <= i < big.len() && raw_entry(big[i]) == raw_entry(kept[j]);
    assert(sets_key(big[i], k1, k2) == Some(x));
    lemma_last_set_only(big, k1, k2, x);
}

/// The file read back gives `k1` and `k2` no value, when no kept line sets
/// them.
proof fn lemma_read_back_none(
    c: Seq<Seq<char>>,
    f: spec_fn(Seq<char>) -> bool,
    k1: Seq<char>,
    k2: Seq<char>,
)
    requires
        forall|t: int| 0 <= t < c.len() && f(c[t]) ==> !has_char(#[trigger] c[t], '\n'),
        forall|t: int| 0 <= t < c.len() && f(c[t]) ==> sets_key(#[trigger] c[t], k1, k2) is None,
    ensures
        last_set(lines(join(c.filter(f), seq!['\n'])), k1, k2) is None,
{
    let kept = c.filter(f);
    let big = lines(join(kept, seq!['\n']));
    assert forall|i: int| 0 <= i < kept.len() implies !has_char(#[trigger] kept[i], '\n')
        && sets_key(kept[i], k1, k2) is None by {
        c.lemma_filter_pred(f, i);
        assert(kept.contains(kept[i]));
        c.lemma_filter_contains_rev(f, kept[i]);
        let t = choose|t: int| 0 <= t < c.len() && c[t] == kept[i];
    }
    lemma_lines_join_entries(kept);
    assert forall|i: int| 0 <= i < big.len() implies sets_key(#[trigger] big[i], k1, k2) is None by {
        let j = choose|j: int| 0 <= j < kept.len() && raw_entry(big[i]) == raw_entry(kept[j]);
        assert(sets_key(big[i], k1, k2) == sets_key(kept[j], k1, k2));
    }
    lemma_last_set_none(big, k1, k2);
}

/// After an email login is saved, reading the file back on the next start
/// fills the form with that email login, whatever else the file held (and
/// whatever user ID was passed along), provided no credential line of the
/// file is indented.
pub proof fn lemma_saved_email_login_reads_back(
    env_content: Option<Seq<char>>,
    email_or_username: Seq<char>,
    user_id: Option<Seq<char>>,
    password: Seq<char>,
    auth_method: Seq<char>,
)
    requires
        plain_value(email_or_username),
        plain_value(password),
        !has_char(auth_method, '\n'),
        credential_lines_unindented(lines(content_of(env_content))),
    ensures
        saved_login(
            Some(
                join(
                    credentials_saved_lines(
                        env_content,
                        Some(email_or_username),
                        user_id,
                        password,
                        auth_method,
                    ),
                    seq!['\n'],
                ),
            ),
        ) == Some((LoginMethod::EmailPassword, email_or_username, password)),
{
    lemma_key_texts();
    let x = email_or_username;
    let pw = password;
    let m = auth_method;
    let ls = lines(content_of(env_content));
    lemma_lines_no_newline(content_of(env_content));
    let up = cred_updated(ls, Some(x), user_id, pw, m);
    let at = has_char(x, '@');
    assert forall|t: int| 0 <= t < up.len() implies email_line_ok(#[trigger] up[t], x, pw, at) by {
        lemma_email_update_line(ls[t], x, user_id, pw, m, at);
    }
    let ek = if has_char(x, '@') { CredKey::Email } else { CredKey::Username };
    lemma_written_line(ek, x);
    lemma_written_line(CredKey::Password, pw);
    lemma_written_line(CredKey::AuthMethod, "email"@);
    let a = push_unless(up, has_cred_line(ls, ek), env_line(key_text(ek), x));
    let b = push_unless(a, has_cred_line(ls, CredKey::Password), env_line(key_text(CredKey::Password), pw));
    let c = push_unless(
        b,
        has_cred_line(ls, CredKey::AuthMethod),
        env_line(key_text(CredKey::AuthMethod), "email"@),
    );
    let f = email_filter(at);
    assert(credentials_saved_lines(env_content, Some(x), user_id, pw, m) == c.filter(f));
    assert forall|t: int| 0 <= t < a.len() implies email_line_ok(#[trigger] a[t], x, pw, at) by {
        if t < up.len() {
            assert(a[t] == up[t]);
        }
    }
    assert forall|t: int| 0 <= t < b.len() implies email_line_ok(#[trigger] b[t], x, pw, at) by {
        if t < a.len() {
            assert(b[t] == a[t]);
        }
    }
    assert forall|t: int| 0 <= t < c.len() implies email_line_ok(#[trigger] c[t], x, pw, at) by {
        if t < b.len() {
            assert(c[t] == b[t]);
        }
    }
    // A kept line sets the email or username to `x`.
    let te = if has_cred_line(ls, ek) {
        choose|t: int| 0 <= t < ls.len() && cred_key_of(#[trigger] ls[t]) == Some(ek)
    } else {
        up.len() as int
    };
    assert(a[te] == env_line(key_text(ek), x));
    assert(c[te] == a[te]);
    assert(f(c[te]) && sets_key(c[te], key_text(CredKey::Email), key_text(CredKey::Username))
        == Some(x));
    // A kept line sets the password to `pw`.
    let tp = if has_cred_line(ls, CredKey::Password) {
        choose|t: int| 0 <= t < ls.len() && cred_key_of(#[trigger] ls[t]) == Some(CredKey::Password)
    } else {
        a.len() as int
    };
    assert(b[tp] == env_line(key_text(CredKey::Password), pw));
    assert(c[tp] == b[tp]);
    assert(f(c[tp]) && sets_key(c[tp], key_text(CredKey::Password), key_text(CredKey::Password))
        == Some(pw));
    assert forall|t: int| 0 <= t < c.len() && f(c[t]) implies sets_key(
        #[trigger] c[t],
        key_text(CredKey::UserId),
        key_text(CredKey::UserId),
    ) is None by {
        assert(email_line_ok(c[t], x, pw, at));
    }
    lemma_read_back_only(c, f, key_text(CredKey::Email), key_text(CredKey::Username), x);
    lemma_read_back_only(c, f, key_text(CredKey::Password), key_text(CredKey::Password), pw);
    lemma_read_back_none(c, f, key_text(CredKey::UserId), key_text(CredKey::UserId));
}

/// After a token login is saved, reading the file back on the next start
/// fills the form with that token login, whatever else the file held,
/// provided no credential line of the file is indented.
pub proof fn lemma_saved_token_login_reads_back(
    env_content: Option<Seq<char>>,
    user_id: Seq<char>,
    auth_token: Seq<char>,
    auth_method: Seq<char>,
)
    requires
        plain_value(user_id),
        plain_value(auth_token),
        !has_char(auth_method, '\n'),
        credential_lines_unindented(lines(content_of(env_content))),
    ensures
        saved_login(
            Some(
                join(
                    credentials_saved_lines(env_content, None, Some(user_id), auth_token, auth_method),
                    seq!['\n'],
                ),
            ),
        ) == Some((LoginMethod::Token, user_id, auth_token)),
{
    lemma_key_texts();
    let y = user_id;
    let tok = auth_token;
    let m = auth_method;
    let ls = lines(content_of(env_content));
    lemma_lines_no_newline(content_of(env_content));
    let up = cred_updated(ls, None, Some(y), tok, m);
    assert forall|t: int| 0 <= t < up.len() implies token_line_ok(#[trigger] up[t], y, tok) by {
        lemma_token_update_line(ls[t], y, tok, m);
    }
    lemma_written_line(CredKey::UserId, y);
    lemma_written_line(CredKey::AuthToken, tok);
    lemma_written_line(CredKey::AuthMethod, "token"@);
    let a = push_unless(up, has_cred_line(ls, CredKey::UserId), env_line(key_text(CredKey::UserId), y));
    let b = push_unless(
        a,
        has_cred_line(ls, CredKey::AuthToken),
        env_line(key_text(CredKey::AuthToken), tok),
    );
    let c = push_unless(
        b,
        has_cred_line(ls, CredKey::AuthMethod),
        env_line(key_text(CredKey::AuthMethod), "token"@),
    );
    let f = token_filter();
    assert(credentials_saved_lines(env_content, None, Some(y), tok, m) == c.filter(f));
    assert forall|t: int| 0 <= t < a.len() implies token_line_ok(#[trigger] a[t], y, tok) by {
        if t < up.len() {
            assert(a[t] == up[t]);
        }
    }
    assert forall|t: int| 0 <= t < b.len() implies token_line_ok(#[trigger] b[t], y, tok) by {
        if t < a.len() {
            assert(b[t] == a[t]);
        }
    }
    assert forall|t: int| 0 <= t < c.len() implies token_line_ok(#[trigger] c[t], y, tok) by {
        if t < b.len() {
            assert(c[t] == b[t]);
        }
    }
    let tu = if has_cred_line(ls, CredKey::UserId) {
        choose|t: int| 0 <= t < ls.len() && cred_key_of(#[trigger] ls[t]) == Some(CredKey::UserId)
    } else {
        up.len() as int
    };
    assert(a[tu] == env_line(key_text(CredKey::UserId), y));
    assert(c[tu] == a[tu]);
    assert(f(c[tu]) && sets_key(c[tu], key_text(CredKey::UserId), key_text(CredKey::UserId))
        == Some(y));
    let tt = if has_cred_line(ls, CredKey::AuthToken) {
        choose|t: int| 0 <= t < ls.len() && cred_key_of(#[trigger] ls[t]) == Some(CredKey::AuthToken)
    } else {
        a.len() as int
    };
    assert(b[tt] == env_line(key_text(CredKey::AuthToken), tok));
    assert(c[tt] == b[tt]);
    assert(f(c[tt]) && sets_key(c[tt], key_text(CredKey::AuthToken), key_text(CredKey::AuthToken))
        == Some(tok));
    assert forall|t: int| 0 <= t < c.len() && f(c[t]) implies sets_key(
        #[trigger] c[t],
        key_text(CredKey::Email),
        key_text(CredKey::Username),
    ) is None by {
        assert(token_line_ok(c[t], y, tok));
    }
    lemma_read_back_only(c, f, key_text(CredKey::UserId), key_text(CredKey::UserId), y);
    lemma_read_back_only(c, f, key_text(CredKey::AuthToken), key_text(CredKey::AuthToken), tok);
    lemma_read_back_none(c, f, key_text(CredKey::Email), key_text(CredKey::Username));
}

} // verus!
