use std::path::PathBuf;

use qobuz_downloader_rust::auth::login_view::{
    current_method, validate_email_login, validate_token_login, LoginMethod,
};
use qobuz_downloader_rust::auth::session::{
    extract_user_id, handle_auth_event, login_user_id, login_outcome_event, AuthEvent, AuthState,
};
use qobuz_downloader_rust::dashboard::{combo_index_to_quality, quality_to_combo_index};
use qobuz_downloader_rust::preferences::dialog::{index_to_quality, quality_to_index};
use qobuz_downloader_rust::preferences::settings::AppSettings;
use qobuz_downloader_rust::search::controller::{
    is_searchable_query, is_stale_query, QueryCounter, SearchController, SearchScope,
};
use qobuz_downloader_rust::types::Quality;

#[test]
fn quality_extensions_and_text() {
    assert_eq!(Quality::Mp3_320.extension(), "mp3");
    assert_eq!(Quality::Flac24_192.extension(), "flac");
    assert_eq!(Quality::Flac16_44.to_string(), "FLAC 16-bit / 44.1kHz");
    assert_eq!(Quality::Mp3_320.to_string(), "MP3 320kbps");
    assert_eq!(Quality::default(), Quality::Flac16_44);
}

#[test]
fn quality_format_ids_round_trip() {
    for q in [Quality::Mp3_320, Quality::Flac16_44, Quality::Flac24_96, Quality::Flac24_192] {
        assert_eq!(Quality::try_from_format_id(i32::from(q)), Ok(q));
    }
    assert_eq!(i32::from(Quality::Flac24_192), 27);
    let five: i32 = Quality::Mp3_320.into();
    assert_eq!(five, 5);
}

#[test]
fn unknown_format_id_is_refused() {
    assert_eq!(Quality::try_from_format_id(99), Err("Unknown quality format_id: 99".to_string()));
    assert_eq!(Quality::try_from_format_id(-3), Err("Unknown quality format_id: -3".to_string()));
}

#[test]
fn dashboard_quality_combo_round_trip() {
    for q in [Quality::Mp3_320, Quality::Flac16_44, Quality::Flac24_96, Quality::Flac24_192] {
        assert_eq!(combo_index_to_quality(quality_to_combo_index(q)), q);
    }
    assert_eq!(combo_index_to_quality(17), Quality::Flac16_44);
}

#[test]
fn preferences_quality_round_trip() {
    for i in 0..4u32 {
        assert_eq!(quality_to_index(index_to_quality(i)), i);
    }
    assert_eq!(index_to_quality(8), Quality::Flac16_44);
}

#[test]
fn default_settings() {
    let s = AppSettings::with_download_directory(PathBuf::from("/home/me/Music"));
    assert_eq!(s.download_directory, PathBuf::from("/home/me/Music"));
    assert_eq!(s.default_quality, Quality::Flac16_44);
    assert_eq!((s.window_width, s.window_height), (800, 600));
}

#[test]
fn search_scope_indices() {
    for v in 0..5u32 {
        assert_eq!(SearchScope::from_u32(v).to_u32(), v);
    }
    assert_eq!(SearchScope::from_u32(3), SearchScope::Artists);
    assert_eq!(SearchScope::from_u32(42), SearchScope::All);
    assert_eq!(SearchScope::Playlists.to_u32(), 4);
}

#[test]
fn stale_queries() {
    let mut c = QueryCounter::new();
    let first = c.submit();
    assert!(!is_stale_query(&c, first));
    let second = c.submit();
    assert!(is_stale_query(&c, first));
    assert!(!is_stale_query(&c, second));
}

#[test]
fn stale_queries_across_the_wrap() {
    let mut c = QueryCounter { value: u64::MAX - 1 };
    let first = c.submit();
    assert!(!is_stale_query(&c, first));
    let second = c.submit();
    assert_eq!(second, u64::MAX);
    assert_eq!(c.value, 0);
    assert!(is_stale_query(&c, first));
}

#[test]
fn searchable_queries() {
    assert!(is_searchable_query(" miles davis "));
    assert!(!is_searchable_query("   "));
    assert!(!is_searchable_query(""));
}

#[test]
fn login_form_checks() {
    assert_eq!(current_method(true), LoginMethod::EmailPassword);
    assert_eq!(current_method(false), LoginMethod::Token);
    assert_eq!(validate_email_login("a@b.c", "pw"), Ok(()));
    assert_eq!(validate_email_login("", "pw"), Err("Email and password are required".to_string()));
    assert_eq!(validate_token_login("1", ""), Err("User ID and auth token are required".to_string()));
    assert_eq!(validate_token_login("1", "t"), Ok(()));
}

#[test]
fn auth_events_update_state() {
    let mut s = AuthState::default();
    assert!(matches!(s, AuthState::Unauthenticated));
    let n = handle_auth_event(&mut s, AuthEvent::Authenticated { user_id: "u1".to_string() });
    assert!(n.is_none());
    match &s {
        AuthState::Authenticated { user_id } => assert_eq!(user_id, "u1"),
        _ => panic!("not authenticated"),
    }
    let n = handle_auth_event(&mut s, AuthEvent::AuthenticationFailed { error: "bad".to_string() });
    assert_eq!(n, Some("bad".to_string()));
    assert!(matches!(s, AuthState::Unauthenticated));
    let silent = handle_auth_event(&mut s, AuthEvent::AuthenticationFailed { error: String::new() });
    assert!(silent.is_none());
}

#[test]
fn user_id_placeholder() {
    assert_eq!(extract_user_id(true), "authenticated");
    assert_eq!(extract_user_id(false), "unknown");
    assert_eq!(login_user_id(Some("12345".to_string()), true), "12345");
    assert_eq!(login_user_id(None, true), "authenticated");
    assert_eq!(login_user_id(None, false), "unknown");
}

#[test]
fn controller_numbers_queries() {
    let mut c = SearchController::new();
    assert_eq!(c.search_scoped("  "), None);
    assert_eq!(c.query_counter.value, 0);
    let first = c.search_scoped("jazz").unwrap();
    assert_eq!(first, 0);
    assert!(!is_stale_query(&c.query_counter, first));
    let second = c.search_scoped("blues").unwrap();
    assert_eq!(second, 1);
    assert!(is_stale_query(&c.query_counter, first));
    assert!(!is_stale_query(&c.query_counter, second));
}

#[test]
fn login_outcomes() {
    match login_outcome_event(Ok("u7".to_string()), false) {
        AuthEvent::Authenticated { user_id } => assert_eq!(user_id, "u7"),
        _ => panic!("success not reported"),
    }
    let mut s = AuthState::default();
    let silent = login_outcome_event(Err("no keyring".to_string()), true);
    assert!(handle_auth_event(&mut s, silent).is_none());
    assert!(matches!(s, AuthState::Unauthenticated));
    let loud = login_outcome_event(Err("bad password".to_string()), false);
    assert_eq!(handle_auth_event(&mut s, loud), Some("bad password".to_string()));
}
