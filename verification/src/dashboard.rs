//! Dashboard page logic: recognising a pasted Qobuz URL or ID, the quality
//! selector, and the download item built from fetched metadata.

use vstd::prelude::*;

use crate::download::progress::DownloadItem;
use crate::text::{chars_of, i32_from_str, parse_i32, string_of, trim, trim_chars};
use crate::types::Quality;
use crate::url_patterns::{opt_chars, regex_capture_group1, regex_compiles, regex_group1, regex_is_valid};

verus! {

/// Download type parsed from a Qobuz URL or ID.
#[derive(Clone, Debug)]
pub enum ParsedUrl {
    /// Album download.
    Album(String),
    /// Track download.
    Track(String),
    /// Playlist download.
    Playlist(String),
}

/// The kind and identifier of a parsed URL.
pub ghost enum ParsedUrlView {
    /// Album identifier.
    Album(Seq<char>),
    /// Track identifier.
    Track(Seq<char>),
    /// Playlist identifier.
    Playlist(Seq<char>),
}

impl ParsedUrl {
    /// The kind and identifier.
    pub open spec fn view(&self) -> ParsedUrlView {
        match self {
            ParsedUrl::Album(s) => ParsedUrlView::Album(s@),
            ParsedUrl::Track(s) => ParsedUrlView::Track(s@),
            ParsedUrl::Playlist(s) => ParsedUrlView::Playlist(s@),
        }
    }
}

/// The view of an optional parse result.
pub open spec fn parsed_view(p: Option<ParsedUrl>) -> Option<ParsedUrlView> {
    match p {
        Some(u) => Some(u@),
        None => None,
    }
}

/// An ASCII letter or digit, or `-`: what a bare Qobuz ID is made of.
pub open spec fn is_id_char(c: char) -> bool {
    ('a' <= c && c <= 'z') || ('A' <= c && c <= 'Z') || ('0' <= c && c <= '9') || c == '-'
}

/// Every character of `t` may appear in a bare ID.
pub open spec fn is_bare_id(t: Seq<char>) -> bool {
    forall|i: int| 0 <= i < t.len() ==> is_id_char(t[i])
}

/// Whether `c` may appear in a bare ID.
pub fn id_char(c: char) -> (b: bool)
    ensures
        b == is_id_char(c),
{
    ('a' <= c && c <= 'z') || ('A' <= c && c <= 'Z') || ('0' <= c && c <= '9') || c == '-'
}

/// Whether every character of `t` may appear in a bare ID.
pub fn bare_id(t: &[char]) -> (b: bool)
    ensures
        b == is_bare_id(t@),
{
    let mut i: usize = 0;
    while i < t.len()
        invariant
            i <= t.len(),
            forall|j: int| 0 <= j < i ==> is_id_char(t@[j]),
        decreases t.len() - i,
    {
        if !id_char(t[i]) {
            return false;
        }
        i = i + 1;
    }
    true
}

/// Playlist URL: `https://[www.|play.|open.]qobuz.com/[xx-xx/]playlist[s]/<name>/<digits>`.
pub open spec fn playlist_pattern() -> Seq<char> {
    "https?://(?:www\\.|play\\.|open\\.)?qobuz\\.com/(?:[a-z]{2}-[a-z]{2}/)?playlists?/[^/]+/(\\d+)"@
}

/// Album URL of the web player.
pub open spec fn album_play_pattern() -> Seq<char> {
    "https?://(?:play\\.|open\\.)?qobuz\\.com/album/([a-zA-Z0-9-]+)"@
}

/// Track URL of the web player.
pub open spec fn track_play_pattern() -> Seq<char> {
    "https?://(?:play\\.|open\\.)?qobuz\\.com/track/([a-zA-Z0-9-]+)"@
}

/// Album URL of the store site.
pub open spec fn old_album_pattern() -> Seq<char> {
    "https?://(?:www\\.)?qobuz\\.com/(?:[a-z]{2}-[a-z]{2}/)?album/[^/]+/(\\d+)"@
}

/// Track URL of the store site.
pub open spec fn old_track_pattern() -> Seq<char> {
    "https?://(?:www\\.)?qobuz\\.com/(?:[a-z]{2}-[a-z]{2}/)?track/[^/]+/(\\d+)"@
}

/// The first URL pattern that captures an ID decides the download type:
/// player album, player track, playlist, store album, store track.
pub open spec fn parsed_from_captures(
    album: Option<Seq<char>>,
    track: Option<Seq<char>>,
    playlist: Option<Seq<char>>,
    old_album: Option<Seq<char>>,
    old_track: Option<Seq<char>>,
) -> Option<ParsedUrlView> {
    if album is Some {
        Some(ParsedUrlView::Album(album->0))
    } else if track is Some {
        Some(ParsedUrlView::Track(track->0))
    } else if playlist is Some {
        Some(ParsedUrlView::Playlist(playlist->0))
    } else if old_album is Some {
        Some(ParsedUrlView::Album(old_album->0))
    } else if old_track is Some {
        Some(ParsedUrlView::Track(old_track->0))
    } else {
        None
    }
}

/// What `parse_qobuz_url` makes of `input`.
pub open spec fn parse_qobuz_url_spec(input: Seq<char>) -> Option<ParsedUrlView> {
    let t = trim(input);
    if t.len() == 0 {
        None
    } else if is_bare_id(t) {
        Some(ParsedUrlView::Album(t))
    } else if !(regex_compiles(playlist_pattern()) && regex_compiles(album_play_pattern())
        && regex_compiles(track_play_pattern()) && regex_compiles(old_album_pattern())
        && regex_compiles(old_track_pattern())) {
        None
    } else {
        parsed_from_captures(
            regex_group1(album_play_pattern(), t),
            regex_group1(track_play_pattern(), t),
            regex_group1(playlist_pattern(), t),
            regex_group1(old_album_pattern(), t),
            regex_group1(old_track_pattern(), t),
        )
    }
}

/// Picks the download type from the IDs that the URL patterns captured, in
/// order of preference.
pub fn parsed_url_from_captures(
    album: Option<String>,
    track: Option<String>,
    playlist: Option<String>,
    old_album: Option<String>,
    old_track: Option<String>,
) -> (r: Option<ParsedUrl>)
    ensures
        parsed_view(r) == parsed_from_captures(
            opt_chars(album),
            opt_chars(track),
            opt_chars(playlist),
            opt_chars(old_album),
            opt_chars(old_track),
        ),
{
    if let Some(id) = album {
        return Some(ParsedUrl::Album(id));
    }
    if let Some(id) = track {
        return Some(ParsedUrl::Track(id));
    }
    if let Some(id) = playlist {
        return Some(ParsedUrl::Playlist(id));
    }
    if let Some(id) = old_album {
        return Some(ParsedUrl::Album(id));
    }
    if let Some(id) = old_track {
        return Some(ParsedUrl::Track(id));
    }
    None
}

/// Parses a Qobuz URL or direct ID into a download type.
///
/// A trimmed input made only of ASCII letters, digits and `-` is taken as an
/// album ID; otherwise the player, playlist and store URL forms are tried.
pub fn parse_qobuz_url(input: &str) -> (r: Option<ParsedUrl>)
    ensures
        parsed_view(r) == parse_qobuz_url_spec(input@),
{
    let tv = trim_chars(&chars_of(input));
    if tv.len() == 0 {
        return None;
    }
    if bare_id(&tv) {
        return Some(ParsedUrl::Album(string_of(&tv)));
    }
    let t = string_of(&tv);
    let p_playlist = "https?://(?:www\\.|play\\.|open\\.)?qobuz\\.com/(?:[a-z]{2}-[a-z]{2}/)?playlists?/[^/]+/(\\d+)";
    let p_album = "https?://(?:play\\.|open\\.)?qobuz\\.com/album/([a-zA-Z0-9-]+)";
    let p_track = "https?://(?:play\\.|open\\.)?qobuz\\.com/track/([a-zA-Z0-9-]+)";
    let p_old_album = "https?://(?:www\\.)?qobuz\\.com/(?:[a-z]{2}-[a-z]{2}/)?album/[^/]+/(\\d+)";
    let p_old_track = "https?://(?:www\\.)?qobuz\\.com/(?:[a-z]{2}-[a-z]{2}/)?track/[^/]+/(\\d+)";
    if !regex_is_valid(p_playlist) || !regex_is_valid(p_album) || !regex_is_valid(p_track)
        || !regex_is_valid(p_old_album) || !regex_is_valid(p_old_track) {
        return None;
    }
    let album = regex_capture_group1(p_album, t.as_str());
    let track = regex_capture_group1(p_track, t.as_str());
    let playlist = regex_capture_group1(p_playlist, t.as_str());
    let old_album = regex_capture_group1(p_old_album, t.as_str());
    let old_track = regex_capture_group1(p_old_track, t.as_str());
    parsed_url_from_captures(album, track, playlist, old_album, old_track)
}

/// Validates the text of the URL field: the parsed download type, or the
/// message of the error notice to show.
pub fn try_parse_download_url(text: &str) -> (r: Result<ParsedUrl, String>)
    ensures
        trim(text@).len() == 0 ==> (r matches Err(m) && m@ == "Please enter a Qobuz URL or ID"@),
        trim(text@).len() > 0 ==> match r {
            Ok(p) => parse_qobuz_url_spec(text@) == Some(p@),
            Err(m) => parse_qobuz_url_spec(text@) is None && m@
                == "Invalid Qobuz URL or ID format"@,
        },
{
    let tv = trim_chars(&chars_of(text));
    if tv.len() == 0 {
        return Err(String::from_str("Please enter a Qobuz URL or ID"));
    }
    match parse_qobuz_url(text) {
        Some(p) => Ok(p),
        None => Err(String::from_str("Invalid Qobuz URL or ID format")),
    }
}

/// The quality offered at each position of the dashboard's quality list.
pub open spec fn combo_quality(index: u32) -> Quality {
    if index == 0 {
        Quality::Mp3_320
    } else if index == 2 {
        Quality::Flac24_96
    } else if index == 3 {
        Quality::Flac24_192
    } else {
        Quality::Flac16_44
    }
}

/// The position of each quality in the dashboard's quality list.
pub open spec fn combo_index(q: Quality) -> u32 {
    match q {
        Quality::Mp3_320 => 0,
        Quality::Flac16_44 => 1,
        Quality::Flac24_96 => 2,
        Quality::Flac24_192 => 3,
    }
}

/// Maps a `ComboRow` selected index to a `Quality` value.
pub fn combo_index_to_quality(index: u32) -> (q: Quality)
    ensures
        q == combo_quality(index),
{
    match index {
        0 => Quality::Mp3_320,
        2 => Quality::Flac24_96,
        3 => Quality::Flac24_192,
        _ => Quality::Flac16_44,
    }
}

/// Maps a `Quality` value to the `ComboRow` selected index.
pub fn quality_to_combo_index(quality: Quality) -> (i: u32)
    ensures
        i == combo_index(quality),
{
    match quality {
        Quality::Mp3_320 => 0,
        Quality::Flac16_44 => 1,
        Quality::Flac24_96 => 2,
        Quality::Flac24_192 => 3,
    }
}

/// Selecting the list position of a quality selects that quality again, and
/// every position of the list reads back as itself.
pub proof fn lemma_combo_round_trip(q: Quality, index: u32)
    ensures
        combo_quality(combo_index(q)) == q,
        index < 4 ==> combo_index(combo_quality(index)) == index,
{
}


/// Display metadata fetched for a pasted URL or ID.
pub struct FetchedMeta {
    /// Display title.
    pub title: String,
    /// Display artist.
    pub artist: String,
    /// Cover art URL.
    pub cover_url: Option<String>,
}

/// `value`, or `default` when absent.
pub open spec fn text_or(value: Option<String>, default: Seq<char>) -> Seq<char> {
    match value {
        Some(v) => v@,
        None => default,
    }
}

/// The title shown when the catalog gave none, by kind.
pub open spec fn title_placeholder(parsed: ParsedUrlView) -> Seq<char> {
    match parsed {
        ParsedUrlView::Album(_) => "Unknown Album"@,
        ParsedUrlView::Track(_) => "Unknown Track"@,
        ParsedUrlView::Playlist(_) => "Unknown Playlist"@,
    }
}

/// The artist shown when the catalog gave none, by kind.
pub open spec fn artist_placeholder(parsed: ParsedUrlView) -> Seq<char> {
    match parsed {
        ParsedUrlView::Playlist(_) => "Unknown Creator"@,
        _ => "Unknown Artist"@,
    }
}

/// `value`, or `default` when absent.
fn string_or(value: Option<String>, default: &str) -> (r: String)
    ensures
        r@ == text_or(value, default@),
{
    match value {
        Some(v) => v,
        None => String::from_str(default),
    }
}

/// The metadata shown for a parsed URL: the fetched title and artist (the
/// playlist's creator), or the placeholders of its kind.
pub fn fetched_meta(
    parsed: &ParsedUrl,
    title: Option<String>,
    artist: Option<String>,
    cover_url: Option<String>,
) -> (m: FetchedMeta)
    ensures
        m.title@ == text_or(title, title_placeholder(parsed@)),
        m.artist@ == text_or(artist, artist_placeholder(parsed@)),
        m.cover_url == cover_url,
{
    let (t, a) = match parsed {
        ParsedUrl::Album(_) => ("Unknown Album", "Unknown Artist"),
        ParsedUrl::Track(_) => ("Unknown Track", "Unknown Artist"),
        ParsedUrl::Playlist(_) => ("Unknown Playlist", "Unknown Creator"),
    };
    FetchedMeta { title: string_or(title, t), artist: string_or(artist, a), cover_url }
}

/// The cover of an album or track: the thumbnail, else the small image,
/// else the generic URL.
pub fn thumbnail_cover(thumbnail: Option<String>, small: Option<String>, url: Option<String>) -> (r: Option<String>)
    ensures
        r == if thumbnail is Some {
            thumbnail
        } else if small is Some {
            small
        } else {
            url
        },
{
    if thumbnail.is_some() {
        thumbnail
    } else if small.is_some() {
        small
    } else {
        url
    }
}

/// A copy of an optional string.
fn copy_opt(s: &Option<String>) -> (r: Option<String>)
    ensures
        r == *s,
{
    match s {
        Some(v) => Some(v.clone()),
        None => None,
    }
}

/// The track number a track ID stands for: its value, or 0 when it is not
/// an `i32`.
pub open spec fn track_number_of(id: Seq<char>) -> i32 {
    match i32_from_str(id) {
        Some(v) => v as i32,
        None => 0,
    }
}

/// The download item for a parsed URL and its metadata; a track ID that is
/// not a number becomes 0.
pub fn build_download_item(parsed: &ParsedUrl, meta: &FetchedMeta) -> (d: DownloadItem)
    ensures
        match *parsed {
            ParsedUrl::Album(id) => d == DownloadItem::Album {
                album_id: id,
                title: meta.title,
                artist: meta.artist,
                cover_url: meta.cover_url,
            },
            ParsedUrl::Track(id) => d == DownloadItem::Track {
                track_id: track_number_of(id@),
                title: meta.title,
                artist: meta.artist,
                cover_url: meta.cover_url,
            },
            ParsedUrl::Playlist(id) => d == DownloadItem::Playlist {
                playlist_id: id,
                title: meta.title,
                cover_url: meta.cover_url,
            },
        },
{
    match parsed {
        ParsedUrl::Album(id) => DownloadItem::Album {
            album_id: id.clone(),
            title: meta.title.clone(),
            artist: meta.artist.clone(),
            cover_url: copy_opt(&meta.cover_url),
        },
        ParsedUrl::Track(id) => {
            let track_id = match parse_i32(&chars_of(id.as_str())) {
                Some(v) => v,
                None => 0,
            };
            DownloadItem::Track {
                track_id,
                title: meta.title.clone(),
                artist: meta.artist.clone(),
                cover_url: copy_opt(&meta.cover_url),
            }
        },
        ParsedUrl::Playlist(id) => DownloadItem::Playlist {
            playlist_id: id.clone(),
            title: meta.title.clone(),
            cover_url: copy_opt(&meta.cover_url),
        },
    }
}
} // verus!
