//! Authentication: stored credentials, the login form and the session state.

pub mod keyring;
pub mod login_view;
pub mod session;
