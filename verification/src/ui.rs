//! The main window and its pages: settings stored in `.env`, the login
//! window's saved credentials and form checks, the download queue, and the
//! catalog search page.

pub mod settings;
pub mod main_window;
pub mod search;
pub mod login;
