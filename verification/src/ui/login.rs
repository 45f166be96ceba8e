//! The login window: credentials remembered in the `.env` file.

pub mod credentials;
pub mod signals;
