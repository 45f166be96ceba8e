use qobuz_downloader_rust::ui::settings::config::{
    load_download_path, load_env_var, load_metadata_config, load_preferred_format,
    load_search_scope, save_download_path, save_env_var, save_preferred_format, save_search_scope,
};

#[test]
fn load_env_var_missing_file_gives_default() {
    assert_eq!(load_env_var(None, "QOBUZ_DOWNLOAD_PATH", "downloads"), "downloads");
}

#[test]
fn load_env_var_finds_value() {
    let content = "# settings\nQOBUZ_DOWNLOAD_PATH=/music\nOTHER=1\n";
    assert_eq!(load_env_var(Some(content), "QOBUZ_DOWNLOAD_PATH", "downloads"), "/music");
    assert_eq!(load_env_var(Some(content), "OTHER", "x"), "1");
}

#[test]
fn load_env_var_first_non_empty_value_wins() {
    let content = "KEY=\nKEY=first\nKEY=second";
    assert_eq!(load_env_var(Some(content), "KEY", "d"), "first");
}

#[test]
fn load_env_var_trims_lines_and_skips_comments() {
    let content = "   KEY=spaced   \r\n#KEY=commented\n";
    assert_eq!(load_env_var(Some(content), "KEY", "d"), "spaced");
    assert_eq!(load_env_var(Some("#KEY=commented"), "KEY", "d"), "d");
}

#[test]
fn load_env_var_keeps_equals_in_value() {
    assert_eq!(load_env_var(Some("URL=a=b=c"), "URL", "d"), "a=b=c");
}

#[test]
fn load_env_var_key_must_match_exactly() {
    assert_eq!(load_env_var(Some("KEYS=w\nMYKEY=x"), "KEY", "d"), "d");
    assert_eq!(load_env_var(Some("KEY =v\nKEYS=w"), "KEY", "d"), "v");
}

#[test]
fn load_env_var_trims_keys_and_values() {
    assert_eq!(load_preferred_format(Some("QOBUZ_PREFERRED_FORMAT = 27")), "27");
    assert_eq!(load_env_var(Some("  A\t=  x y  \r\nB=1"), "A", "d"), "x y");
    assert_eq!(load_env_var(Some("A =   \nA= z"), "A", "d"), "z");
}

#[test]
fn save_env_var_appends_to_missing_file() {
    assert_eq!(save_env_var(None, "QOBUZ_DOWNLOAD_PATH", "/music"), "QOBUZ_DOWNLOAD_PATH=/music");
}

#[test]
fn save_env_var_rewrites_existing_line_in_place() {
    let content = "A=1\nQOBUZ_PREFERRED_FORMAT=5\nB=2";
    assert_eq!(
        save_env_var(Some(content), "QOBUZ_PREFERRED_FORMAT", "27"),
        "A=1\nQOBUZ_PREFERRED_FORMAT=27\nB=2"
    );
}

#[test]
fn save_env_var_rewrites_every_matching_line() {
    let content = "K=1\nK=2";
    assert_eq!(save_env_var(Some(content), "K", "3"), "K=3\nK=3");
}

#[test]
fn save_env_var_adds_line_at_end() {
    assert_eq!(save_env_var(Some("A=1\nB=2\n"), "C", "3"), "A=1\nB=2\nC=3");
}

#[test]
fn save_env_var_keeps_comments_and_crlf_stripped_lines() {
    assert_eq!(save_env_var(Some("# note\r\nA=1"), "B", "2"), "# note\nA=1\nB=2");
}

#[test]
fn load_after_save_reads_saved_value() {
    let content = "A=1\n  # comment\nQOBUZ_DOWNLOAD_PATH=/old\n";
    let saved = save_download_path(Some(content), "/new/place");
    assert_eq!(load_download_path(Some(&saved)), "/new/place");
    let saved2 = save_download_path(None, "/x");
    assert_eq!(load_download_path(Some(&saved2)), "/x");
}

#[test]
fn save_keeps_other_keys() {
    let content = "QOBUZ_DOWNLOAD_PATH=/music\nQOBUZ_SEARCH_SCOPE=2";
    let saved = save_preferred_format(Some(content), "7");
    assert_eq!(load_download_path(Some(&saved)), "/music");
    assert_eq!(load_search_scope(Some(&saved)), "2");
    assert_eq!(load_preferred_format(Some(&saved)), "7");
}

#[test]
fn named_settings_and_defaults() {
    assert_eq!(load_download_path(None), "downloads");
    assert_eq!(load_preferred_format(None), "6");
    assert_eq!(load_search_scope(None), "0");
    let s = save_search_scope(None, "3");
    assert_eq!(s, "QOBUZ_SEARCH_SCOPE=3");
    assert_eq!(load_search_scope(Some(&s)), "3");
    assert_eq!(save_preferred_format(None, "27"), "QOBUZ_PREFERRED_FORMAT=27");
}

#[test]
fn metadata_config_defaults() {
    let c = load_metadata_config(None);
    assert!(c.album_artist && c.artist && c.track_title && c.track_number && c.track_total);
    assert!(c.disc_number && c.disc_total && c.album && c.explicit && c.upc && c.isrc);
    assert!(c.copyright && c.composer && c.genre && c.release_year && c.release_date);
    assert!(!c.comment);
    assert!(c.cover_art && c.label && c.producer && c.involved_people && c.url && c.media_type);
}

#[test]
fn metadata_config_reads_flags() {
    let content = "QOBUZ_TAG_COMMENT=true\nQOBUZ_TAG_GENRE=false\nQOBUZ_TAG_UPC=yes\nQOBUZ_TAG_ISRC=FALSE";
    let c = load_metadata_config(Some(content));
    assert!(c.comment);
    assert!(!c.genre);
    assert!(c.upc);
    assert!(c.isrc);
    assert!(c.label);
}

#[test]
fn save_then_load_when_a_rewritten_line_comes_first() {
    let saved = save_env_var(Some("QOBUZ_DOWNLOAD_PATH=/a\nQOBUZ_DOWNLOAD_PATH = /b"), "QOBUZ_DOWNLOAD_PATH", "/c");
    assert_eq!(saved, "QOBUZ_DOWNLOAD_PATH=/c\nQOBUZ_DOWNLOAD_PATH = /b");
    assert_eq!(load_env_var(Some(&saved), "QOBUZ_DOWNLOAD_PATH", "d"), "/c");
    let lone = save_env_var(Some("QOBUZ_DOWNLOAD_PATH = /b"), "QOBUZ_DOWNLOAD_PATH", "/c");
    assert_eq!(lone, "QOBUZ_DOWNLOAD_PATH = /b\nQOBUZ_DOWNLOAD_PATH=/c");
    assert_eq!(load_env_var(Some(&lone), "QOBUZ_DOWNLOAD_PATH", "d"), "/b");
}
