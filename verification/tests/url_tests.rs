use qobuz_downloader_rust::dashboard::{
    build_download_item, fetched_meta, parse_qobuz_url, parsed_url_from_captures, thumbnail_cover,
    try_parse_download_url, ParsedUrl,
};
use qobuz_downloader_rust::download::progress::DownloadItem;
use qobuz_downloader_rust::ui::main_window::DownloadType;

fn show(p: Option<ParsedUrl>) -> Option<(&'static str, String)> {
    match p {
        Some(ParsedUrl::Album(s)) => Some(("album", s)),
        Some(ParsedUrl::Track(s)) => Some(("track", s)),
        Some(ParsedUrl::Playlist(s)) => Some(("playlist", s)),
        None => None,
    }
}

fn show_type(d: Option<DownloadType>) -> Option<(&'static str, String)> {
    match d {
        Some(DownloadType::Album(s)) => Some(("album", s)),
        Some(DownloadType::Track(s)) => Some(("track", s)),
        None => None,
    }
}

#[test]
fn parse_bare_id_is_album() {
    assert_eq!(show(parse_qobuz_url("  ip8qjy1m6dakc ")), Some(("album", "ip8qjy1m6dakc".to_string())));
    assert_eq!(show(parse_qobuz_url("123456789")), Some(("album", "123456789".to_string())));
}

#[test]
fn parse_player_urls() {
    assert_eq!(
        show(parse_qobuz_url("https://play.qobuz.com/album/ip8qjy1m6dakc")),
        Some(("album", "ip8qjy1m6dakc".to_string()))
    );
    assert_eq!(
        show(parse_qobuz_url("https://open.qobuz.com/track/12345")),
        Some(("track", "12345".to_string()))
    );
}

#[test]
fn parse_playlist_url() {
    assert_eq!(
        show(parse_qobuz_url("https://www.qobuz.com/us-en/playlists/my-mix/987654")),
        Some(("playlist", "987654".to_string()))
    );
}

#[test]
fn parse_store_urls() {
    assert_eq!(
        show(parse_qobuz_url("https://www.qobuz.com/fr-fr/album/some-title/0060254783545")),
        Some(("album", "0060254783545".to_string()))
    );
    assert_eq!(
        show(parse_qobuz_url("https://www.qobuz.com/track/a-song/31337")),
        Some(("track", "31337".to_string()))
    );
    // Without `www.` the player pattern matches first and takes the slug.
    assert_eq!(
        show(parse_qobuz_url("http://qobuz.com/track/a-song/31337")),
        Some(("track", "a-song".to_string()))
    );
}

#[test]
fn parse_rejects_other_text() {
    assert_eq!(show(parse_qobuz_url("https://example.com/not-qobuz")), None);
    assert_eq!(show(parse_qobuz_url("   ")), None);
    assert_eq!(show(parse_qobuz_url("hello world")), None);
}

#[test]
fn captures_in_order_of_preference() {
    let r = parsed_url_from_captures(None, Some("t".to_string()), Some("p".to_string()), Some("a".to_string()), None);
    assert_eq!(show(r), Some(("track", "t".to_string())));
    let r = parsed_url_from_captures(None, None, None, None, Some("x".to_string()));
    assert_eq!(show(r), Some(("track", "x".to_string())));
    assert_eq!(show(parsed_url_from_captures(None, None, None, None, None)), None);
}

#[test]
fn try_parse_reports_errors() {
    match try_parse_download_url("  ") {
        Err(m) => assert_eq!(m, "Please enter a Qobuz URL or ID"),
        Ok(_) => panic!("blank input accepted"),
    }
    match try_parse_download_url("https://example.com/x") {
        Err(m) => assert_eq!(m, "Invalid Qobuz URL or ID format"),
        Ok(_) => panic!("foreign URL accepted"),
    }
    match try_parse_download_url("https://play.qobuz.com/track/99") {
        Ok(ParsedUrl::Track(id)) => assert_eq!(id, "99"),
        _ => panic!("track URL refused"),
    }
}

#[test]
fn download_type_from_url_examples() {
    assert_eq!(
        show_type(DownloadType::from_url("https://play.qobuz.com/album/ip8qjy1m6dakc")),
        Some(("album", "ip8qjy1m6dakc".to_string()))
    );
    assert_eq!(show_type(DownloadType::from_url("123456789")), Some(("album", "123456789".to_string())));
    assert_eq!(show_type(DownloadType::from_url("https://example.com/not-qobuz")), None);
    assert_eq!(
        show_type(DownloadType::from_url("https://play.qobuz.com/track/555")),
        Some(("track", "555".to_string()))
    );
    assert_eq!(
        show_type(DownloadType::from_url("https://www.qobuz.com/gb-en/album/name/42")),
        Some(("album", "42".to_string()))
    );
    assert_eq!(show_type(DownloadType::from_url("")), None);
}

#[test]
fn download_type_from_captures_prefers_player_album() {
    let r = DownloadType::from_captures(Some("a".to_string()), Some("b".to_string()), None, None);
    assert_eq!(show_type(r), Some(("album", "a".to_string())));
    let r = DownloadType::from_captures(None, None, None, Some("d".to_string()));
    assert_eq!(show_type(r), Some(("track", "d".to_string())));
}

#[test]
fn download_type_is_album() {
    assert!(DownloadType::Album("1".to_string()).is_album());
    assert!(!DownloadType::Track("1".to_string()).is_album());
}

#[test]
fn download_items_from_parsed_urls() {
    let meta = fetched_meta(&ParsedUrl::Track("77".to_string()), None, Some("Singer".to_string()), None);
    assert_eq!(meta.title, "Unknown Track");
    assert_eq!(meta.artist, "Singer");
    match build_download_item(&ParsedUrl::Track("77".to_string()), &meta) {
        DownloadItem::Track { track_id, title, .. } => {
            assert_eq!(track_id, 77);
            assert_eq!(title, "Unknown Track");
        }
        _ => panic!("track URL gives a track item"),
    }
    match build_download_item(&ParsedUrl::Track("-12".to_string()), &meta) {
        DownloadItem::Track { track_id, .. } => assert_eq!(track_id, -12),
        _ => panic!("track URL gives a track item"),
    }
    match build_download_item(&ParsedUrl::Track("abc".to_string()), &meta) {
        DownloadItem::Track { track_id, .. } => assert_eq!(track_id, 0),
        _ => panic!("track URL gives a track item"),
    }
    match build_download_item(&ParsedUrl::Track("99999999999".to_string()), &meta) {
        DownloadItem::Track { track_id, .. } => assert_eq!(track_id, 0),
        _ => panic!("track URL gives a track item"),
    }
    let pm = fetched_meta(&ParsedUrl::Playlist("5".to_string()), None, None, Some("c".to_string()));
    assert_eq!(pm.artist, "Unknown Creator");
    assert_eq!(pm.title, "Unknown Playlist");
    match build_download_item(&ParsedUrl::Playlist("5".to_string()), &pm) {
        DownloadItem::Playlist { playlist_id, cover_url, .. } => {
            assert_eq!(playlist_id, "5");
            assert_eq!(cover_url, Some("c".to_string()));
        }
        _ => panic!("playlist URL gives a playlist item"),
    }
    let am = fetched_meta(&ParsedUrl::Album("a1".to_string()), None, None, None);
    assert_eq!((am.title.as_str(), am.artist.as_str()), ("Unknown Album", "Unknown Artist"));
    assert_eq!(
        thumbnail_cover(None, Some("s".to_string()), Some("u".to_string())),
        Some("s".to_string())
    );
}
