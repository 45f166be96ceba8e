use qobuz_downloader_rust::ui::main_window::{
    album_download_dir, album_folder_names, album_metadata, cancelled_by_user, check_album_tracks,
    choose_cover_url, track_failure_message,
    fallback_track_path, file_extension, format_id_for_index, index_for_format_id,
    track_file_path, track_file_stem, track_metadata, track_number_or_position, year_of_timestamp,
    track_title_or_default, AlbumDownloadTally, album_track_plan, AlbumTrack,
};

#[test]
fn format_ids_of_quality_list() {
    assert_eq!(format_id_for_index(0), "5");
    assert_eq!(format_id_for_index(1), "6");
    assert_eq!(format_id_for_index(2), "7");
    assert_eq!(format_id_for_index(3), "27");
    assert_eq!(format_id_for_index(9), "6");
    for i in 0..4u32 {
        assert_eq!(index_for_format_id(&format_id_for_index(i)), i);
    }
    assert_eq!(index_for_format_id("abc"), 1);
}

#[test]
fn extensions() {
    assert_eq!(file_extension("5"), "mp3");
    assert_eq!(file_extension("27"), "flac");
    assert_eq!(file_extension("6"), "flac");
}

#[test]
fn folder_names() {
    assert_eq!(
        album_folder_names(Some("Artist".to_string()), None),
        Ok(("Artist".to_string(), "Unknown Album".to_string()))
    );
    assert_eq!(
        album_folder_names(None, None),
        Err("Invalid album information received from API".to_string())
    );
    assert_eq!(
        album_folder_names(Some("Unknown Artist".to_string()), Some("Unknown Album".to_string())),
        Err("Invalid album information received from API".to_string())
    );
}

#[test]
fn paths() {
    assert_eq!(album_download_dir("downloads", "Artist", "Album"), "downloads/Artist/Album");
    assert_eq!(track_file_stem(3, "Intro"), "03. Intro");
    assert_eq!(track_file_stem(12, "Song"), "12. Song");
    assert_eq!(track_file_path("d/a/b", "03. Intro", "flac"), "d/a/b/03. Intro.flac");
    assert_eq!(fallback_track_path("downloads", "123", "mp3"), "downloads/track_123.mp3");
}

#[test]
fn track_defaults() {
    assert_eq!(track_title_or_default(None, "77"), "Track 77");
    assert_eq!(track_title_or_default(Some("Real".to_string()), "77"), "Real");
    assert_eq!(track_number_or_position(None, 4), 5);
    assert_eq!(track_number_or_position(Some(9), 4), 9);
}

#[test]
fn years_and_covers() {
    assert_eq!(year_of_timestamp(1577836800), 2020);
    assert_eq!(year_of_timestamp(1577836799), 2019);
    assert_eq!(year_of_timestamp(0), 1970);
    assert_eq!(year_of_timestamp(-1), 1969);
    assert_eq!(year_of_timestamp(951782400), 2000);
    assert_eq!(year_of_timestamp(4107542400), 2100);
    assert_eq!(year_of_timestamp(-62135596800), 1);
    assert_eq!(year_of_timestamp(-62135596801), 0);
    assert_eq!(year_of_timestamp(i64::MAX), 292277026596);
    assert_eq!(year_of_timestamp(i64::MIN), -292277022657);
    assert_eq!(choose_cover_url(None, Some("m".to_string()), Some("s".to_string())), Some("m".to_string()));
    assert_eq!(choose_cover_url(None, None, None), None);
}

#[test]
fn metadata_builders() {
    let m = album_metadata(
        None,
        Some("Kind of Blue".to_string()),
        Some(-327456000),
        Some("L".to_string()),
        None,
        None,
        Some(5),
    );
    assert_eq!(m.title, "Kind of Blue");
    assert_eq!(m.artist, "Unknown Artist");
    assert_eq!(m.release_year, Some("1959".to_string()));
    assert_eq!(m.cover_url, Some("L".to_string()));
    assert_eq!(m.track_count, Some(5));
    let t = track_metadata(
        "42",
        None,
        None,
        Some("Composer".to_string()),
        None,
        Some(300),
        None,
        None,
        None,
        Some("S".to_string()),
    );
    assert_eq!(t.title, "Track 42");
    assert_eq!(t.artist, "Composer");
    assert_eq!(t.album, Some("Unknown Album".to_string()));
    assert_eq!(t.duration, Some(300));
    assert_eq!(t.cover_url, Some("S".to_string()));
    assert_eq!(t.track_count, None);
}

#[test]
fn album_tally() {
    let mut t = AlbumDownloadTally::new();
    assert_eq!(t.finish(), Err("No tracks were successfully downloaded".to_string()));
    t.record_success();
    assert_eq!(t.finish(), Ok(()));
    assert_eq!(cancelled_by_user(), "Download cancelled by user");
}

#[test]
fn album_track_list_checks() {
    assert_eq!(check_album_tracks(false, false), Err("No tracks data in album".to_string()));
    assert_eq!(check_album_tracks(true, false), Err("No tracks found in album".to_string()));
    assert_eq!(check_album_tracks(true, true), Ok(()));
}

#[test]
fn track_failure_messages() {
    assert_eq!(track_failure_message(None, "12", "timeout"), "Failed to download track Track 12: timeout");
    assert_eq!(
        track_failure_message(Some("Song".to_string()), "12", "404"),
        "Failed to download track Song: 404"
    );
}

#[test]
fn album_plan_keeps_order_and_skips_tracks_without_id() {
    let tracks = vec![
        AlbumTrack { id: Some("11".to_string()), track_number: Some(1), title: Some("Intro".to_string()) },
        AlbumTrack { id: None, track_number: Some(2), title: Some("Lost".to_string()) },
        AlbumTrack { id: Some("13".to_string()), track_number: None, title: None },
    ];
    let plan = album_track_plan(&tracks);
    assert_eq!(plan.len(), 2);
    assert_eq!(plan[0].index, 0);
    assert_eq!(plan[0].track_id, "11");
    assert_eq!(plan[0].file_stem, "01. Intro");
    assert_eq!(plan[1].index, 2);
    assert_eq!(plan[1].track_id, "13");
    assert_eq!(plan[1].file_stem, "03. Track 13");
    assert!(album_track_plan(&Vec::new()).is_empty());
}
