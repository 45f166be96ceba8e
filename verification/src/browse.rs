//! Detail views for albums, artists and playlists: their shared helpers.

pub mod detail_common;
pub mod releases;
