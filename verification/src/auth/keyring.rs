//! Credentials kept in the system keyring.

use vstd::prelude::*;

verus! {

/// Stored credentials retrieved from the keyring.
#[derive(Debug)]
pub enum StoredCredentials {
    /// Email and password authentication.
    EmailPassword {
        /// Qobuz account email.
        email: String,
        /// Qobuz account password.
        password: String,
    },
    /// User ID and auth token authentication.
    Token {
        /// Qobuz user ID.
        user_id: String,
        /// User authentication token.
        auth_token: String,
    },
}

} // verus!
