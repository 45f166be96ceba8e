//! Persistent user preferences.

use std::path::PathBuf;

use vstd::prelude::*;

use crate::types::Quality;

verus! {

/// Persistent user preferences.
#[derive(Debug)]
pub struct AppSettings {
    /// Download output location.
    pub download_directory: PathBuf,
    /// Default audio quality.
    pub default_quality: Quality,
    /// Saved window width.
    pub window_width: i32,
    /// Saved window height.
    pub window_height: i32,
}

impl AppSettings {
    /// The settings used when none are saved: downloads go to
    /// `download_directory` (the user's music folder), in FLAC 16-bit /
    /// 44.1kHz, and the window is 800 by 600.
    pub fn with_download_directory(download_directory: PathBuf) -> (s: Self)
        ensures
            s.download_directory == download_directory,
            s.default_quality == Quality::Flac16_44,
            s.window_width == 800,
            s.window_height == 600,
    {
        AppSettings {
            download_directory,
            default_quality: Quality::Flac16_44,
            window_width: 800,
            window_height: 600,
        }
    }
}

} // verus!
