//! User preferences: the settings kept on disk and the preferences dialog.

pub mod dialog;
pub mod settings;
