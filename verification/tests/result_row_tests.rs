use qobuz_downloader_rust::ui::main_window::DownloadType;
use qobuz_downloader_rust::ui::search::{
    album_result_row, encode_result_row, parse_result_row, row_download_type, row_subtitle,
    largest_image_url, search_result_rows, search_start, track_result_row, unescape_html, AlbumHit,
    ResultRow, SearchScope, SearchStart, TrackHit,
};

fn album() -> ResultRow {
    ResultRow::Album {
        id: "0060254783545".to_string(),
        title: "Kind of Blue".to_string(),
        artist: "Miles Davis".to_string(),
        year: "1959".to_string(),
        duration: "45:44".to_string(),
        image_url: "https://img/x.jpg".to_string(),
        bit_depth: 24,
        sampling_rate: "96.0".to_string(),
        track_count: 5,
    }
}

#[test]
fn album_row_text() {
    assert_eq!(
        encode_result_row(&album()),
        "ALBUM:0060254783545|Kind of Blue|Miles Davis|1959|45:44|https://img/x.jpg|24|96.0|5"
    );
}

#[test]
fn track_row_text() {
    let row = ResultRow::Track {
        id: -7,
        title: "So What".to_string(),
        artist: "Miles Davis".to_string(),
        album: "Kind of Blue".to_string(),
        duration: "9:22".to_string(),
        image_url: String::new(),
        bit_depth: 16,
        sampling_rate: "44.1".to_string(),
    };
    assert_eq!(
        encode_result_row(&row),
        "TRACK:-7|So What|Miles Davis|Kind of Blue|9:22||16|44.1"
    );
}

#[test]
fn album_row_reads_back() {
    let f = parse_result_row(&encode_result_row(&album())).unwrap();
    assert_eq!(f.id, "0060254783545");
    assert_eq!(f.title, "Kind of Blue");
    assert_eq!(f.artist, "Miles Davis");
    assert_eq!(f.extra_info, "1959");
    assert_eq!(f.image_url, "https://img/x.jpg");
    assert!(!f.is_track);
    assert_eq!(f.bit_depth, 24);
    assert_eq!(f.sampling_rate, "96.0");
    assert_eq!(f.track_count, 5);
}

#[test]
fn documented_album_row_is_read() {
    let f = parse_result_row("ALBUM:1|T|A|2020|45:00||24|96.0|12").unwrap();
    assert_eq!(f.id, "1");
    assert_eq!(f.title, "T");
    assert_eq!(f.extra_info, "2020");
    assert_eq!(f.track_count, 12);
    assert_eq!(row_subtitle(&f, "24-bit/96kHz"), "A • 2020 • 12 tracks • 24-bit/96kHz");
    match row_download_type(&f) {
        DownloadType::Album(id) => assert_eq!(id, "1"),
        _ => panic!("album row gives an album download"),
    }
}

#[test]
fn track_row_reads_back() {
    let row = track_result_row(42, "A | B", None, Some("Al &amp; Bum"), Some(125), String::new(), Some(24), "192.0".to_string());
    let f = parse_result_row(&encode_result_row(&row)).unwrap();
    assert_eq!(f.id, "42");
    assert_eq!(f.title, "A  -  B");
    assert_eq!(f.artist, "Unknown Artist");
    assert_eq!(f.extra_info, "Al & Bum");
    assert!(f.is_track);
    assert_eq!(f.bit_depth, 24);
    assert_eq!(f.track_count, 0);
}

#[test]
fn parse_rejects_other_rows() {
    assert!(parse_result_row("PLAYLIST:1|a").is_none());
    assert!(parse_result_row("ALBUM:1|a|b").is_none());
    assert!(parse_result_row("ALBUM:1|a|b|c|d|e|f|g").is_none());
    assert!(parse_result_row("TRACK:1|a|b|c|d|e|f").is_none());
    assert!(parse_result_row("").is_none());
}

#[test]
fn parse_defaults_unreadable_numbers() {
    let f = parse_result_row("ALBUM:x|t|a|d|u|i|99999999999|r|+7").unwrap();
    assert_eq!(f.bit_depth, 0);
    assert_eq!(f.track_count, 7);
    let g = parse_result_row("TRACK:1|t|a|al|d|i|+16|44.1|extra").unwrap();
    assert_eq!(g.bit_depth, 16);
    assert_eq!(g.sampling_rate, "44.1|extra");
}

#[test]
fn album_row_defaults() {
    let row = album_result_row("id1".to_string(), "T&quot;", None, None, None, String::new(), None, "0.0".to_string(), 0);
    match row {
        ResultRow::Album { title, artist, year, duration, bit_depth, .. } => {
            assert_eq!(title, "T\"");
            assert_eq!(artist, "Unknown Artist");
            assert_eq!(year, "Unknown");
            assert_eq!(duration, "Unknown");
            assert_eq!(bit_depth, 0);
        }
        _ => panic!("not an album row"),
    }
}

#[test]
fn album_row_year_from_timestamp() {
    let row = album_result_row("id1".to_string(), "T", Some("A"), Some(1577836800), Some(61), String::new(), Some(16), "44.1".to_string(), 3);
    assert_eq!(encode_result_row(&row), "ALBUM:id1|T|A|2020|1:01||16|44.1|3");
}

#[test]
fn subtitles_and_download_types() {
    let f = parse_result_row(&encode_result_row(&album())).unwrap();
    assert_eq!(row_subtitle(&f, "24-bit/96kHz"), "Miles Davis • 1959 • 5 tracks • 24-bit/96kHz");
    assert_eq!(row_subtitle(&f, ""), "Miles Davis • 1959 • 5 tracks");
    match row_download_type(&f) {
        DownloadType::Album(id) => assert_eq!(id, "0060254783545"),
        _ => panic!("album row gives an album download"),
    }
    let t = parse_result_row("TRACK:9|t|a|al|d|i|16|44.1").unwrap();
    assert_eq!(row_subtitle(&t, ""), "a • al");
    match row_download_type(&t) {
        DownloadType::Track(id) => assert_eq!(id, "9"),
        _ => panic!("track row gives a track download"),
    }
}

#[test]
fn cleaned_text_has_no_bar() {
    assert!(!unescape_html("a|b||c").contains('|'));
}

#[test]
fn response_rows_skip_items_without_id_or_title() {
    let album = |id: Option<&str>, title: Option<&str>| AlbumHit {
        id: id.map(|s| s.to_string()),
        title: title.map(|s| s.to_string()),
        artist_name: Some("Art".to_string()),
        released_at: Some(0),
        duration: None,
        image_url: String::new(),
        bit_depth: Some(24),
        sampling_rate: "96.0".to_string(),
        track_count: 2,
    };
    let track = |id: Option<i32>, title: Option<&str>| TrackHit {
        id,
        title: title.map(|s| s.to_string()),
        performer_name: None,
        album_title: Some("Alb".to_string()),
        duration: Some(59),
        image_url: "u".to_string(),
        bit_depth: None,
        sampling_rate: "44.1".to_string(),
    };
    let albums = vec![album(Some("a1"), Some("One")), album(None, Some("X")), album(Some("a3"), None), album(Some("a4"), Some("Four"))];
    let tracks = vec![track(Some(5), Some("T5")), track(None, Some("T")), track(Some(7), None)];
    let rows = search_result_rows(&albums, &tracks);
    assert_eq!(
        rows,
        vec![
            "ALBUM:a1|One|Art|1970|Unknown||24|96.0|2".to_string(),
            "ALBUM:a4|Four|Art|1970|Unknown||24|96.0|2".to_string(),
            "TRACK:5|T5|Unknown Artist|Alb|0:59|u|0|44.1".to_string(),
        ]
    );
    assert!(search_result_rows(&Vec::new(), &Vec::new()).is_empty());
}

#[test]
fn cover_is_the_largest_image_present() {
    let sizes = vec![None, Some("L".to_string()), Some("M".to_string()), None, None, None];
    assert_eq!(largest_image_url(&sizes), "L");
    assert_eq!(largest_image_url(&vec![None, None, None, None, None, Some("B".to_string())]), "B");
    assert_eq!(largest_image_url(&vec![None; 6]), "");
}

#[test]
fn search_requests() {
    assert!(matches!(search_start("   ", false, SearchScope::All), SearchStart::EmptyQuery));
    assert!(matches!(search_start("jazz", true, SearchScope::Albums), SearchStart::AlreadyLoading));
    match search_start("jazz", false, SearchScope::Tracks) {
        SearchStart::Start(t) => assert_eq!(t, "Searching Tracks..."),
        _ => panic!("a search should start"),
    }
}
