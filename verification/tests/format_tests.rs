use qobuz_downloader_rust::browse::releases::order_releases_newest_first;
use qobuz_downloader_rust::browse::detail_common::{
    format_duration as detail_format_duration, quality_from_index, resolve_image_url,
    strip_html_tags, track_count_duration_label, ImageUrls,
};
use qobuz_downloader_rust::search::view::{
    build_subtitle, format_duration as view_format_duration, result_order, section_headers, ResultSummary,
    SearchCategory,
};
use qobuz_downloader_rust::types::Quality;
use qobuz_downloader_rust::ui::search::{format_duration, unescape_html, SearchScope};

#[test]
fn format_duration_examples() {
    assert_eq!(format_duration(65), "1:05");
    assert_eq!(format_duration(120), "2:00");
    assert_eq!(format_duration(7), "0:07");
    assert_eq!(format_duration(3600), "60:00");
    assert_eq!(format_duration(0), "0:00");
}

#[test]
fn format_duration_negative_follows_truncating_division() {
    assert_eq!(format_duration(-5), "0:-5");
    assert_eq!(format_duration(-65), "-1:-5");
    assert_eq!(detail_format_duration(-61), "-1:-1");
}

#[test]
fn format_duration_other_pages() {
    assert_eq!(detail_format_duration(125), "2:05");
    assert_eq!(view_format_duration(59), "0:59");
}

#[test]
fn unescape_html_examples() {
    assert_eq!(unescape_html("Artist & Band"), "Artist & Band");
    assert_eq!(unescape_html("Song Title | Album"), "Song Title  -  Album");
    assert_eq!(unescape_html("Don&#039;t Stop"), "Don't Stop");
}

#[test]
fn unescape_html_entities() {
    assert_eq!(unescape_html("Tom &amp; Jerry"), "Tom & Jerry");
    assert_eq!(unescape_html("&lt;b&gt; &quot;x&quot; it&#39;s"), "<b> \"x\" it's");
    assert_eq!(unescape_html("&amp;lt;"), "<");
}

#[test]
fn strip_html_tags_examples() {
    assert_eq!(strip_html_tags("<p>Hello</p><p>World</p>"), "Hello\n\nWorld");
    assert_eq!(strip_html_tags("Line<br>two<BR />three"), "Line\ntwo\nthree");
    assert_eq!(strip_html_tags("  <b>bold</b> text  "), "bold text");
    assert_eq!(strip_html_tags("a < b"), "a");
    assert_eq!(strip_html_tags(""), "");
}

#[test]
fn track_count_label() {
    assert_eq!(track_count_duration_label(12, 3725), "12 tracks • 62:05");
    assert_eq!(track_count_duration_label(3, 0), "3 tracks");
}

#[test]
fn quality_dropdown_index() {
    assert_eq!(quality_from_index(0), Quality::Mp3_320);
    assert_eq!(quality_from_index(1), Quality::Flac16_44);
    assert_eq!(quality_from_index(2), Quality::Flac24_96);
    assert_eq!(quality_from_index(3), Quality::Flac24_192);
}

#[test]
fn api_query_of_scopes() {
    assert_eq!(SearchScope::All.to_api_query(), None);
    assert_eq!(SearchScope::Albums.to_api_query(), Some("albums"));
    assert_eq!(SearchScope::Tracks.to_api_query(), Some("tracks"));
    assert_eq!(SearchScope::from_index(2), SearchScope::Tracks);
    assert_eq!(SearchScope::from_index(9), SearchScope::All);
}

#[test]
fn subtitles() {
    let t = ResultSummary::Track {
        artist: "Artist".to_string(),
        album: "Album".to_string(),
        duration: 185,
        quality: "24-bit/96kHz".to_string(),
    };
    assert_eq!(build_subtitle(&t), "Artist • Album • 3:05 • 24-bit/96kHz");
    let t2 = ResultSummary::Track {
        artist: "A".to_string(),
        album: "B".to_string(),
        duration: 0,
        quality: String::new(),
    };
    assert_eq!(build_subtitle(&t2), "A • B");
    let a = ResultSummary::Album {
        artist: "Artist".to_string(),
        year: "1999".to_string(),
        track_count: 10,
        duration: 2400,
        quality: "16-bit/44.1kHz".to_string(),
    };
    assert_eq!(build_subtitle(&a), "Artist • 1999 • 10 tracks • 40:00 • 16-bit/44.1kHz");
    let a2 = ResultSummary::Album {
        artist: "Artist".to_string(),
        year: String::new(),
        track_count: 0,
        duration: 0,
        quality: String::new(),
    };
    assert_eq!(build_subtitle(&a2), "Artist");
    assert_eq!(build_subtitle(&ResultSummary::Artist), "Artist");
    assert_eq!(build_subtitle(&ResultSummary::Playlist), "Playlist");
}

#[test]
fn section_headers_mark_category_changes() {
    let cats = vec![
        SearchCategory::Tracks,
        SearchCategory::Tracks,
        SearchCategory::Albums,
        SearchCategory::Tracks,
    ];
    assert_eq!(section_headers(&cats), vec![true, false, true, true]);
    assert_eq!(section_headers(&Vec::new()), Vec::<bool>::new());
    assert_eq!(SearchCategory::Playlists.label(), "Playlists");
}

#[test]
fn image_url_preference() {
    let img = ImageUrls {
        large: None,
        extra_large: None,
        medium: Some("m".to_string()),
        thumbnail: Some("t".to_string()),
        small: None,
        url: Some("u".to_string()),
    };
    assert_eq!(resolve_image_url(Some(&img)), Some("m".to_string()));
    let only_url = ImageUrls {
        large: None,
        extra_large: None,
        medium: None,
        thumbnail: None,
        small: None,
        url: Some("u".to_string()),
    };
    assert_eq!(resolve_image_url(Some(&only_url)), Some("u".to_string()));
    let large = ImageUrls { large: Some("l".to_string()), ..img.clone() };
    assert_eq!(resolve_image_url(Some(&large)), Some("l".to_string()));
    assert_eq!(resolve_image_url(None), None);
}

#[test]
fn strip_html_tags_is_clean_and_idempotent() {
    for input in ["<p> Hi <i>there</i> </p>", "x > y <br> z", "\n<a href='u'>link</a>\t", "plain"] {
        let once = strip_html_tags(input);
        assert!(!once.contains('<') && !once.contains('>'));
        assert_eq!(once.trim(), once);
        assert_eq!(strip_html_tags(&once), once);
    }
}

#[test]
fn releases_are_ordered_newest_first() {
    let dates = vec![
        Some("2001-05-01".to_string()),
        None,
        Some("2019-10-11".to_string()),
        Some("2001-05-01".to_string()),
        Some("1999-12-31".to_string()),
        Some("2019-10-11".to_string()),
    ];
    assert_eq!(order_releases_newest_first(&dates), vec![2, 5, 0, 3, 4, 1]);
    assert!(order_releases_newest_first(&Vec::new()).is_empty());
}

#[test]
fn text_without_brackets_is_only_trimmed() {
    assert_eq!(strip_html_tags("  plain & simple\n"), "plain & simple");
    assert_eq!(strip_html_tags("br p /p"), "br p /p");
}

#[test]
fn results_listed_by_category_skipping_items_without_id() {
    let r = result_order(&vec![true, false, true], &vec![false, true], &vec![], 2);
    assert_eq!(
        r,
        vec![
            (SearchCategory::Tracks, 0),
            (SearchCategory::Tracks, 2),
            (SearchCategory::Albums, 1),
            (SearchCategory::Playlists, 0),
            (SearchCategory::Playlists, 1),
        ]
    );
    assert!(result_order(&vec![false], &vec![], &vec![false], 0).is_empty());
}
