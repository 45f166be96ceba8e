//! Verified core of a Qobuz music downloader: text handling, `.env`
//! configuration files, download queues and the decisions of the download
//! workers, search scopes and audio quality selection.

pub mod text;
pub mod types;
pub mod browse;
pub mod ui;
pub mod dashboard;
pub mod url_patterns;
pub mod download;
pub mod errors;
pub mod search;
pub mod preferences;
pub mod auth;
