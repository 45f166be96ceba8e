//! The authentication state and how login results change it.

use vstd::prelude::*;

verus! {

/// Events sent from background auth operations to the GUI thread.
#[derive(Clone, Debug)]
pub enum AuthEvent {
    /// Login succeeded.
    Authenticated {
        /// The authenticated user's ID.
        user_id: String,
    },
    /// Login failed with reason.
    AuthenticationFailed {
        /// Error description.
        error: String,
    },
}

/// Tracks the current authentication status.
#[derive(Clone, Debug)]
pub enum AuthState {
    /// No credentials stored or login required.
    Unauthenticated,
    /// Login in progress.
    Authenticating,
    /// Successfully authenticated with user ID.
    Authenticated {
        /// The authenticated user's ID.
        user_id: String,
    },
}

impl Default for AuthState {
    /// Not logged in.
    fn default() -> (s: AuthState)
        ensures
            s is Unauthenticated,
    {
        AuthState::Unauthenticated
    }
}

/// Applies a login result to the session: a success records the user, a
/// failure logs out. Returns the failure message to show, if it is not
/// empty (a silent keyring login that fails reports an empty one).
pub fn handle_auth_event(state: &mut AuthState, event: AuthEvent) -> (notice: Option<String>)
    ensures
        match event {
            AuthEvent::Authenticated { user_id } => {
                &&& *final(state) matches AuthState::Authenticated { user_id: u } && u@ == user_id@
                &&& notice is None
            },
            AuthEvent::AuthenticationFailed { error } => {
                &&& *final(state) is Unauthenticated
                &&& if error@.len() > 0 {
                    notice matches Some(m) && m@ == error@
                } else {
                    notice is None
                }
            },
        },
{
    match event {
        AuthEvent::Authenticated { user_id } => {
            *state = AuthState::Authenticated { user_id };
            None
        },
        AuthEvent::AuthenticationFailed { error } => {
            *state = AuthState::Unauthenticated;
            if error.as_str().is_empty() {
                None
            } else {
                Some(error)
            }
        },
    }
}

/// The user ID reported after a login when the account's ID is not known:
/// the API service does not expose it, so the presence of an auth token
/// stands for it.
pub fn extract_user_id(has_auth_token: bool) -> (r: String)
    ensures
        r@ == if has_auth_token {
            "authenticated"@
        } else {
            "unknown"@
        },
{
    if has_auth_token {
        String::from_str("authenticated")
    } else {
        String::from_str("unknown")
    }
}


/// The user ID a successful login reports: the account's ID when the login
/// was made with it (a token login, from the form or from the keyring),
/// otherwise what `extract_user_id` reports.
pub fn login_user_id(known_user_id: Option<String>, has_auth_token: bool) -> (r: String)
    ensures
        r@ == match known_user_id {
            Some(u) => u@,
            None => if has_auth_token {
                "authenticated"@
            } else {
                "unknown"@
            },
        },
{
    match known_user_id {
        Some(u) => u,
        None => extract_user_id(has_auth_token),
    }
}

/// The event a finished login sends to the window: the user on success; on
/// failure the error text, or an empty one for the silent login with
/// keyring credentials at start-up.
pub fn login_outcome_event(result: Result<String, String>, silent: bool) -> (e: AuthEvent)
    ensures
        match result {
            Ok(u) => e matches AuthEvent::Authenticated { user_id } && user_id@ == u@,
            Err(m) => e matches AuthEvent::AuthenticationFailed { error } && error@ == if silent {
                Seq::<char>::empty()
            } else {
                m@
            },
        },
{
    match result {
        Ok(user_id) => AuthEvent::Authenticated { user_id },
        Err(message) => {
            if silent {
                AuthEvent::AuthenticationFailed { error: String::new() }
            } else {
                AuthEvent::AuthenticationFailed { error: message }
            }
        },
    }
}

/// A failed silent login leaves the user logged out without a message; a
/// failed interactive login shows its error whenever it has one.
pub proof fn lemma_failed_login_notice(
    message: Seq<char>,
    silent: bool,
    event: AuthEvent,
    after: AuthState,
    notice: Option<String>,
)
    requires
        event matches AuthEvent::AuthenticationFailed { error } && error@ == if silent {
            Seq::<char>::empty()
        } else {
            message
        },
        match event {
            AuthEvent::AuthenticationFailed { error } => {
                &&& after is Unauthenticated
                &&& if error@.len() > 0 {
                    notice matches Some(m) && m@ == error@
                } else {
                    notice is None
                }
            },
            _ => false,
        },
    ensures
        after is Unauthenticated,
        silent ==> notice is None,
        !silent && message.len() > 0 ==> (notice matches Some(m) && m@ == message),
{
}
} // verus!
