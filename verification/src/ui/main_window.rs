//! The main window's download queue and the decisions around it: what a
//! pasted URL asks for, which format is selected, where files are saved.

use std::time::SystemTime;

use tokio_util::sync::CancellationToken;
use vstd::prelude::*;

use crate::text::{
    chars_of, extend_chars, find_char, find_char_index, i64_decimal_pad2, int_decimal_pad2,
    int_decimal, lemma_nat_decimal_injective, nat_decimal, slice_chars, string_of, trim, trim_chars, u64_decimal,
};
use crate::url_patterns::{opt_chars, regex_capture_group1, regex_compiles, regex_group1, regex_is_valid};
use crate::dashboard::{bare_id, is_bare_id, old_album_pattern, old_track_pattern};

verus! {

/// A cancellation signal shared with a running download.
#[verifier::external_type_specification]
#[verifier::external_body]
pub struct ExCancellationToken(CancellationToken);

/// Represents the type of Qobuz content to download.
#[derive(Debug, Clone)]
pub enum DownloadType {
    /// An album download identified by its Qobuz album ID.
    Album(String),
    /// A track download identified by its Qobuz track ID.
    Track(String),
}

/// The kind and identifier of a download type.
pub ghost enum DownloadTypeView {
    /// Album identifier.
    Album(Seq<char>),
    /// Track identifier.
    Track(Seq<char>),
}

impl DownloadType {
    /// The kind and identifier.
    pub open spec fn view(&self) -> DownloadTypeView {
        match self {
            DownloadType::Album(s) => DownloadTypeView::Album(s@),
            DownloadType::Track(s) => DownloadTypeView::Track(s@),
        }
    }
}

/// The view of an optional download type.
pub open spec fn download_type_view(d: Option<DownloadType>) -> Option<DownloadTypeView> {
    match d {
        Some(t) => Some(t@),
        None => None,
    }
}

/// Album URL of the web player.
pub open spec fn play_album_pattern() -> Seq<char> {
    "https?://play\\.qobuz\\.com/album/([a-zA-Z0-9-]+)"@
}

/// Track URL of the web player.
pub open spec fn play_track_pattern() -> Seq<char> {
    "https?://play\\.qobuz\\.com/track/([a-zA-Z0-9-]+)"@
}

/// The first URL pattern that captures an ID decides: player album, player
/// track, store album, store track.
pub open spec fn download_type_from_captures_spec(
    play_album: Option<Seq<char>>,
    play_track: Option<Seq<char>>,
    old_album: Option<Seq<char>>,
    old_track: Option<Seq<char>>,
) -> Option<DownloadTypeView> {
    if play_album is Some {
        Some(DownloadTypeView::Album(play_album->0))
    } else if play_track is Some {
        Some(DownloadTypeView::Track(play_track->0))
    } else if old_album is Some {
        Some(DownloadTypeView::Album(old_album->0))
    } else if old_track is Some {
        Some(DownloadTypeView::Track(old_track->0))
    } else {
        None
    }
}

/// What `DownloadType::from_url` makes of `url`.
pub open spec fn download_type_from_url(url: Seq<char>) -> Option<DownloadTypeView> {
    let t = trim(url);
    if is_bare_id(t) && t.len() > 0 {
        Some(DownloadTypeView::Album(t))
    } else if !(regex_compiles(play_album_pattern()) && regex_compiles(play_track_pattern())
        && regex_compiles(old_album_pattern()) && regex_compiles(old_track_pattern())) {
        None
    } else {
        download_type_from_captures_spec(
            regex_group1(play_album_pattern(), t),
            regex_group1(play_track_pattern(), t),
            regex_group1(old_album_pattern(), t),
            regex_group1(old_track_pattern(), t),
        )
    }
}

/// How a pasted URL (trimmed, holding a `:` so that it is no bare ID) is
/// read once the four URL patterns compile: a web-player album URL gives
/// that album, else a web-player track URL that track, else a store album
/// URL (`qobuz.com/[xx-xx/]album/<slug>/<digits>`) that album, else a store
/// track URL (`qobuz.com/[xx-xx/]track/<slug>/<digits>`) that track, each
/// with exactly the ID the pattern captured; a URL that no pattern matches
/// is refused.
pub proof fn lemma_url_forms(url: Seq<char>, k: int)
    requires
        0 <= k < trim(url).len(),
        trim(url)[k] == ':',
        regex_compiles("https?://play\\.qobuz\\.com/album/([a-zA-Z0-9-]+)"@),
        regex_compiles("https?://play\\.qobuz\\.com/track/([a-zA-Z0-9-]+)"@),
        regex_compiles("https?://(?:www\\.)?qobuz\\.com/(?:[a-z]{2}-[a-z]{2}/)?album/[^/]+/(\\d+)"@),
        regex_compiles("https?://(?:www\\.)?qobuz\\.com/(?:[a-z]{2}-[a-z]{2}/)?track/[^/]+/(\\d+)"@),
    ensures
        ({
            let t = trim(url);
            let pa = regex_group1("https?://play\\.qobuz\\.com/album/([a-zA-Z0-9-]+)"@, t);
            let pt = regex_group1("https?://play\\.qobuz\\.com/track/([a-zA-Z0-9-]+)"@, t);
            let sa = regex_group1(
                "https?://(?:www\\.)?qobuz\\.com/(?:[a-z]{2}-[a-z]{2}/)?album/[^/]+/(\\d+)"@,
                t,
            );
            let st = regex_group1(
                "https?://(?:www\\.)?qobuz\\.com/(?:[a-z]{2}-[a-z]{2}/)?track/[^/]+/(\\d+)"@,
                t,
            );
            let r = download_type_from_url(url);
            &&& pa is Some ==> r == Some(DownloadTypeView::Album(pa->0))
            &&& pa is None && pt is Some ==> r == Some(DownloadTypeView::Track(pt->0))
            &&& pa is None && pt is None && sa is Some ==> r == Some(DownloadTypeView::Album(sa->0))
            &&& pa is None && pt is None && sa is None && st is Some ==> r == Some(
                DownloadTypeView::Track(st->0),
            )
            &&& pa is None && pt is None && sa is None && st is None ==> r is None
        }),
{
    assert(!crate::dashboard::is_id_char(':'));
    assert(!is_bare_id(trim(url)));
}

impl DownloadType {
    /// Picks the download type from the IDs that the URL patterns captured,
    /// in order of preference.
    pub fn from_captures(
        play_album: Option<String>,
        play_track: Option<String>,
        old_album: Option<String>,
        old_track: Option<String>,
    ) -> (r: Option<DownloadType>)
        ensures
            download_type_view(r) == download_type_from_captures_spec(
                opt_chars(play_album),
                opt_chars(play_track),
                opt_chars(old_album),
                opt_chars(old_track),
            ),
    {
        if let Some(id) = play_album {
            return Some(DownloadType::Album(id));
        }
        if let Some(id) = play_track {
            return Some(DownloadType::Track(id));
        }
        if let Some(id) = old_album {
            return Some(DownloadType::Album(id));
        }
        if let Some(id) = old_track {
            return Some(DownloadType::Track(id));
        }
        None
    }

    /// Parses a Qobuz URL or direct ID and returns the corresponding download
    /// type: a non-empty trimmed input of ASCII letters, digits and `-` is
    /// an album ID; otherwise the player and store URL forms are tried.
    pub fn from_url(url: &str) -> (r: Option<DownloadType>)
        ensures
            download_type_view(r) == download_type_from_url(url@),
    {
        let tv = trim_chars(&chars_of(url));
        if bare_id(&tv) && tv.len() > 0 {
            return Some(DownloadType::Album(string_of(&tv)));
        }
        let t = string_of(&tv);
        let p_play_album = "https?://play\\.qobuz\\.com/album/([a-zA-Z0-9-]+)";
        let p_play_track = "https?://play\\.qobuz\\.com/track/([a-zA-Z0-9-]+)";
        let p_old_album = "https?://(?:www\\.)?qobuz\\.com/(?:[a-z]{2}-[a-z]{2}/)?album/[^/]+/(\\d+)";
        let p_old_track = "https?://(?:www\\.)?qobuz\\.com/(?:[a-z]{2}-[a-z]{2}/)?track/[^/]+/(\\d+)";
        if !regex_is_valid(p_play_album) || !regex_is_valid(p_play_track) || !regex_is_valid(
            p_old_album,
        ) || !regex_is_valid(p_old_track) {
            return None;
        }
        let a = regex_capture_group1(p_play_album, t.as_str());
        let b = regex_capture_group1(p_play_track, t.as_str());
        let c = regex_capture_group1(p_old_album, t.as_str());
        let d = regex_capture_group1(p_old_track, t.as_str());
        DownloadType::from_captures(a, b, c, d)
    }

    /// Whether this is an album download.
    pub fn is_album(&self) -> (b: bool)
        ensures
            b == (self is Album),
    {
        match self {
            DownloadType::Album(_) => true,
            DownloadType::Track(_) => false,
        }
    }
}

/// Metadata information for Qobuz content items.
#[derive(Debug, Clone)]
pub struct DownloadMetadata {
    /// The title of the content (album title or track title).
    pub title: String,
    /// The primary artist or performer name.
    pub artist: String,
    /// The album title (only present for track downloads).
    pub album: Option<String>,
    /// Duration in seconds (only present for track downloads).
    pub duration: Option<i64>,
    /// The release year as a string (e.g., "2023").
    pub release_year: Option<String>,
    /// URL to the cover art image.
    pub cover_url: Option<String>,
    /// Number of tracks in the album (only present for album downloads).
    pub track_count: Option<usize>,
}

/// The current status of a download item in the queue.
#[derive(Debug, Clone)]
pub enum DownloadStatus {
    /// The item is waiting in the queue to be processed.
    Queued,
    /// The item is currently being downloaded.
    Downloading,
    /// The download completed successfully.
    Completed,
    /// The download was cancelled by the user.
    Cancelled,
    /// The download failed with an associated error message.
    Failed(String),
}

/// A download item in the queue. The progress fraction of a running
/// download is kept beside the queue by the window.
#[derive(Debug)]
pub struct DownloadItem {
    /// Unique identifier for the download item, used for cancellation and tracking.
    pub id: String,
    /// The type of content to download (album or track).
    pub download_type: DownloadType,
    /// The Qobuz audio quality format ID (e.g., "5" for MP3, "6" for FLAC Lossless).
    pub format_id: String,
    /// Optional rich metadata for enhanced UI display.
    pub metadata: Option<DownloadMetadata>,
    /// Current status of the download operation.
    pub status: DownloadStatus,
    /// Timestamp when the item was added to the queue.
    pub created_at: SystemTime,
}

/// The item is waiting to be processed.
pub open spec fn is_queued(item: DownloadItem) -> bool {
    item.status is Queued
}

/// The item is waiting or being downloaded.
pub open spec fn is_live(item: DownloadItem) -> bool {
    item.status is Queued || item.status is Downloading
}

/// The item with its status replaced.
pub open spec fn with_status(item: DownloadItem, status: DownloadStatus) -> DownloadItem {
    DownloadItem { status, ..item }
}

/// What a row of the download queue shows for an item.
pub struct QueueRowDisplay {
    /// The title line.
    pub title: String,
    /// The line under the title: artist, and album when there is one.
    pub subtitle: String,
    /// The status indicator.
    pub status_text: String,
    /// Whether the progress bar is shown.
    pub show_progress: bool,
    /// Whether the cancel button is shown.
    pub show_cancel: bool,
    /// The cover image to load, when the metadata names one.
    pub cover_url: Option<String>,
}

/// The status indicator of a queue row.
pub open spec fn status_text_of(status: DownloadStatus) -> Seq<char> {
    match status {
        DownloadStatus::Queued => "Queued"@,
        DownloadStatus::Downloading => "Downloading..."@,
        DownloadStatus::Completed => "Completed"@,
        DownloadStatus::Cancelled => "Cancelled"@,
        DownloadStatus::Failed(e) => "Failed: "@ + e@,
    }
}

/// The title line of a queue row: the metadata title, or a placeholder
/// while the metadata is being fetched.
pub open spec fn row_title_of(metadata: Option<DownloadMetadata>) -> Seq<char> {
    match metadata {
        Some(m) => m.title@,
        None => "Loading metadata..."@,
    }
}

/// The subtitle of a queue row: the artist, followed by ` • ` and the album
/// when there is one; empty without metadata.
pub open spec fn row_subtitle_of(metadata: Option<DownloadMetadata>) -> Seq<char> {
    match metadata {
        Some(m) => match m.album {
            Some(a) => m.artist@ + " • "@ + a@,
            None => m.artist@,
        },
        None => Seq::empty(),
    }
}

/// The cover image of a queue row: the metadata's cover URL unless it is
/// missing or empty.
pub open spec fn row_cover_of(metadata: Option<DownloadMetadata>) -> Option<Seq<char>> {
    match metadata {
        Some(m) => match m.cover_url {
            Some(u) => if u@.len() > 0 {
                Some(u@)
            } else {
                None
            },
            None => None,
        },
        None => None,
    }
}

/// The characters of `p` followed by those of `s`.
fn prefixed(p: &str, s: &str) -> (r: String)
    ensures
        r@ == p@ + s@,
{
    let mut v = chars_of(p);
    extend_chars(&mut v, &chars_of(s));
    string_of(&v)
}

/// The characters of `a`, `sep` and `b` one after the other.
fn joined(a: &str, sep: &str, b: &str) -> (r: String)
    ensures
        r@ == a@ + sep@ + b@,
{
    let mut v = chars_of(a);
    extend_chars(&mut v, &chars_of(sep));
    extend_chars(&mut v, &chars_of(b));
    string_of(&v)
}

/// What the row of `item` in the download queue shows: title and subtitle
/// from the metadata, the status indicator, the progress bar only while
/// downloading, the cancel button only while the item is waiting or
/// downloading, and the cover to load.
pub fn queue_row_display(item: &DownloadItem) -> (d: QueueRowDisplay)
    ensures
        d.title@ == row_title_of(item.metadata),
        d.subtitle@ == row_subtitle_of(item.metadata),
        d.status_text@ == status_text_of(item.status),
        d.show_progress == (item.status is Downloading),
        d.show_cancel == (item.status is Queued || item.status is Downloading),
        opt_chars(d.cover_url) == row_cover_of(item.metadata),
{
    let (title, subtitle, cover_url) = match &item.metadata {
        Some(m) => {
            let subtitle = match &m.album {
                Some(a) => joined(m.artist.as_str(), " • ", a.as_str()),
                None => string_of(&chars_of(m.artist.as_str())),
            };
            let cover_url = match &m.cover_url {
                Some(u) => {
                    let cu = chars_of(u.as_str());
                    if cu.len() > 0 {
                        Some(string_of(&cu))
                    } else {
                        None
                    }
                },
                None => None,
            };
            (string_of(&chars_of(m.title.as_str())), subtitle, cover_url)
        },
        None => (String::from_str("Loading metadata..."), String::new(), None),
    };
    let (status_text, show_progress, show_cancel) = match &item.status {
        DownloadStatus::Queued => (String::from_str("Queued"), false, true),
        DownloadStatus::Downloading => (String::from_str("Downloading..."), true, true),
        DownloadStatus::Completed => (String::from_str("Completed"), false, false),
        DownloadStatus::Cancelled => (String::from_str("Cancelled"), false, false),
        DownloadStatus::Failed(e) => (prefixed("Failed: ", e.as_str()), false, false),
    };
    QueueRowDisplay { title, subtitle, status_text, show_progress, show_cancel, cover_url }
}

/// The position of the first item with identifier `id`.
pub open spec fn first_with_id(q: Seq<DownloadItem>, id: Seq<char>) -> Option<int>
    decreases q.len(),
{
    if q.len() == 0 {
        None
    } else if q[0].id@ == id {
        Some(0)
    } else {
        match first_with_id(q.drop_first(), id) {
            Some(k) => Some(k + 1),
            None => None,
        }
    }
}

/// The position of the first queued item.
pub open spec fn first_queued(q: Seq<DownloadItem>) -> Option<int>
    decreases q.len(),
{
    if q.len() == 0 {
        None
    } else if is_queued(q[0]) {
        Some(0)
    } else {
        match first_queued(q.drop_first()) {
            Some(k) => Some(k + 1),
            None => None,
        }
    }
}

/// What `first_queued` reports.
pub proof fn lemma_first_queued(q: Seq<DownloadItem>)
    ensures
        match first_queued(q) {
            Some(k) => 0 <= k < q.len() && is_queued(q[k]) && forall|j: int| 0 <= j < k ==> !is_queued(#[trigger] q[j]),
            None => forall|j: int| 0 <= j < q.len() ==> !is_queued(#[trigger] q[j]),
        },
    decreases q.len(),
{
    if q.len() > 0 {
        lemma_first_queued(q.drop_first());
        assert forall|j: int| 1 <= j < q.len() implies q[j] == q.drop_first()[j - 1] by {}
    }
}

/// The first queued item is at `k`.
pub proof fn lemma_first_queued_at(q: Seq<DownloadItem>, k: int)
    requires
        0 <= k < q.len(),
        is_queued(q[k]),
        forall|j: int| 0 <= j < k ==> !is_queued(#[trigger] q[j]),
    ensures
        first_queued(q) == Some(k),
    decreases k,
{
    if k > 0 {
        assert(!is_queued(q[0]));
        assert forall|j: int| 0 <= j < k - 1 implies !is_queued(#[trigger] q.drop_first()[j]) by {
            assert(q.drop_first()[j] == q[j + 1]);
        }
        lemma_first_queued_at(q.drop_first(), k - 1);
    }
}

/// No item is queued.
pub proof fn lemma_first_queued_none(q: Seq<DownloadItem>)
    requires
        forall|j: int| 0 <= j < q.len() ==> !is_queued(#[trigger] q[j]),
    ensures
        first_queued(q) is None,
    decreases q.len(),
{
    if q.len() > 0 {
        assert(!is_queued(q[0]));
        assert forall|j: int| 0 <= j < q.len() - 1 implies !is_queued(#[trigger] q.drop_first()[j]) by {
            assert(q.drop_first()[j] == q[j + 1]);
        }
        lemma_first_queued_none(q.drop_first());
    }
}

/// What `first_with_id` reports.
pub proof fn lemma_first_with_id(q: Seq<DownloadItem>, id: Seq<char>)
    ensures
        match first_with_id(q, id) {
            Some(k) => 0 <= k < q.len() && q[k].id@ == id && forall|j: int| 0 <= j < k ==> (#[trigger] q[j]).id@ != id,
            None => forall|j: int| 0 <= j < q.len() ==> (#[trigger] q[j]).id@ != id,
        },
    decreases q.len(),
{
    if q.len() > 0 {
        lemma_first_with_id(q.drop_first(), id);
        assert forall|j: int| 1 <= j < q.len() implies q[j] == q.drop_first()[j - 1] by {}
    }
}

/// The first item with identifier `id` is at `k`.
pub proof fn lemma_first_with_id_at(q: Seq<DownloadItem>, id: Seq<char>, k: int)
    requires
        0 <= k < q.len(),
        q[k].id@ == id,
        forall|j: int| 0 <= j < k ==> (#[trigger] q[j]).id@ != id,
    ensures
        first_with_id(q, id) == Some(k),
    decreases k,
{
    if k > 0 {
        assert(q[0].id@ != id);
        assert forall|j: int| 0 <= j < k - 1 implies (#[trigger] q.drop_first()[j]).id@ != id by {
            assert(q.drop_first()[j] == q[j + 1]);
        }
        lemma_first_with_id_at(q.drop_first(), id, k - 1);
    }
}

/// No item has identifier `id`.
pub proof fn lemma_first_with_id_none(q: Seq<DownloadItem>, id: Seq<char>)
    requires
        forall|j: int| 0 <= j < q.len() ==> (#[trigger] q[j]).id@ != id,
    ensures
        first_with_id(q, id) is None,
    decreases q.len(),
{
    if q.len() > 0 {
        assert(q[0].id@ != id);
        assert forall|j: int| 0 <= j < q.len() - 1 implies (#[trigger] q.drop_first()[j]).id@ != id by {
            assert(q.drop_first()[j] == q[j + 1]);
        }
        lemma_first_with_id_none(q.drop_first(), id);
    }
}

/// `q2` is `q` with the item at `i` (if any) given `status`.
pub open spec fn updated_at(q: Seq<DownloadItem>, q2: Seq<DownloadItem>, i: Option<int>, status: DownloadStatus) -> bool {
    &&& q2.len() == q.len()
    &&& forall|j: int| 0 <= j < q.len() && Some(j) != i ==> q2[j] == q[j]
    &&& i matches Some(k) ==> q2[k] == with_status(q[k], status)
}

/// `q` with the item at `i` (if any) given `status`.
pub open spec fn marked(q: Seq<DownloadItem>, i: Option<int>, status: DownloadStatus) -> Seq<DownloadItem> {
    match i {
        Some(k) => q.update(k, with_status(q[k], status)),
        None => q,
    }
}

/// The queue after processing starts: the first queued item, and then the
/// first item with its ID, are marked as downloading.
pub open spec fn started_queue(q: Seq<DownloadItem>) -> Seq<DownloadItem> {
    match first_queued(q) {
        Some(k) => {
            let q1 = marked(q, Some(k), DownloadStatus::Downloading);
            marked(q1, first_with_id(q1, q[k].id@), DownloadStatus::Downloading)
        },
        None => q,
    }
}

/// The status that a finished download leaves: completed, or failed with
/// the error message.
pub open spec fn finished_status(result: Result<(), String>) -> DownloadStatus {
    match result {
        Ok(()) => DownloadStatus::Completed,
        Err(e) => DownloadStatus::Failed(e),
    }
}

/// A copy of an optional string.
fn copy_opt_string(s: &Option<String>) -> (r: Option<String>)
    ensures
        r == *s,
{
    match s {
        Some(v) => Some(v.clone()),
        None => None,
    }
}

/// A copy of a download type.
fn copy_download_type(d: &DownloadType) -> (r: DownloadType)
    ensures
        r == *d,
{
    match d {
        DownloadType::Album(id) => DownloadType::Album(id.clone()),
        DownloadType::Track(id) => DownloadType::Track(id.clone()),
    }
}

/// A copy of item metadata.
fn copy_metadata(m: &DownloadMetadata) -> (r: DownloadMetadata)
    ensures
        r == *m,
{
    DownloadMetadata {
        title: m.title.clone(),
        artist: m.artist.clone(),
        album: copy_opt_string(&m.album),
        duration: m.duration,
        release_year: copy_opt_string(&m.release_year),
        cover_url: copy_opt_string(&m.cover_url),
        track_count: m.track_count,
    }
}

/// A copy of a download status.
fn copy_status(s: &DownloadStatus) -> (r: DownloadStatus)
    ensures
        r == *s,
{
    match s {
        DownloadStatus::Queued => DownloadStatus::Queued,
        DownloadStatus::Downloading => DownloadStatus::Downloading,
        DownloadStatus::Completed => DownloadStatus::Completed,
        DownloadStatus::Cancelled => DownloadStatus::Cancelled,
        DownloadStatus::Failed(e) => DownloadStatus::Failed(e.clone()),
    }
}

/// A copy of a queue item, field by field.
fn copy_item(item: &DownloadItem) -> (r: DownloadItem)
    ensures
        r == *item,
{
    DownloadItem {
        id: item.id.clone(),
        download_type: copy_download_type(&item.download_type),
        format_id: item.format_id.clone(),
        metadata: match &item.metadata {
            Some(m) => Some(copy_metadata(m)),
            None => None,
        },
        status: copy_status(&item.status),
        created_at: item.created_at,
    }
}

/// The item has ended: completed, cancelled or failed.
pub open spec fn has_ended(item: DownloadItem) -> bool {
    item.status is Completed || item.status is Cancelled || item.status is Failed
}

/// The queue after the download of `id` ends with `result`: its first item
/// is marked completed or failed, unless it has already ended (a download
/// the user cancelled stays cancelled).
pub open spec fn finished_queue(q: Seq<DownloadItem>, id: Seq<char>, result: Result<(), String>) -> Seq<DownloadItem> {
    match first_with_id(q, id) {
        Some(k) => if has_ended(q[k]) {
            q
        } else {
            marked(q, Some(k), finished_status(result))
        },
        None => q,
    }
}

/// Thread-unaware core of the download queue manager: the queue, the
/// downloading flag, and the cancellation tokens of running downloads by
/// item ID. Item IDs are drawn from a counter that all managers share and
/// that the caller holds.
pub struct DownloadQueueManager {
    queue: Vec<DownloadItem>,
    is_downloading: bool,
    cancellation_tokens: Vec<(String, CancellationToken)>,
    cancelled_ids: Ghost<Set<Seq<char>>>,
}

/// The value at which the process-wide counter of queue item IDs starts.
pub fn item_id_counter_start() -> (n: u64)
    ensures
        n == 0,
{
    0
}

/// The keys of the token registry.
pub open spec fn token_keys(tokens: Seq<(String, CancellationToken)>) -> Seq<Seq<char>> {
    tokens.map_values(|p: (String, CancellationToken)| p.0@)
}

/// The token registered for each download ID (a later entry wins).
pub open spec fn token_map(tokens: Seq<(String, CancellationToken)>) -> Map<Seq<char>, CancellationToken>
    decreases tokens.len(),
{
    if tokens.len() == 0 {
        Map::empty()
    } else {
        token_map(tokens.drop_last()).insert(tokens.last().0@, tokens.last().1)
    }
}

/// The IDs with a registered token are the keys of the registry.
proof fn lemma_token_map_dom(ts: Seq<(String, CancellationToken)>)
    ensures
        forall|s: Seq<char>| #[trigger] token_map(ts).dom().contains(s) <==> token_keys(ts).contains(s),
    decreases ts.len(),
{
    if ts.len() > 0 {
        let init = ts.drop_last();
        lemma_token_map_dom(init);
        assert(token_keys(ts) =~= token_keys(init).push(ts.last().0@));
        assert forall|s: Seq<char>| #[trigger] token_map(ts).dom().contains(s) <==> token_keys(ts).contains(s) by {
            assert(token_map(init).dom().contains(s) <==> token_keys(init).contains(s));
            if token_keys(ts).contains(s) {
                let j = choose|j: int| 0 <= j < token_keys(ts).len() && token_keys(ts)[j] == s;
                if j < init.len() {
                    assert(token_keys(init)[j] == s);
                }
            }
            if token_keys(init).contains(s) {
                let j = choose|j: int| 0 <= j < token_keys(init).len() && token_keys(init)[j] == s;
                assert(token_keys(ts)[j] == s);
            }
            assert(token_keys(ts)[ts.len() - 1] == ts.last().0@);
        }
    }
}

/// Replacing the token of an ID already registered sets that ID's token.
proof fn lemma_token_map_update(ts: Seq<(String, CancellationToken)>, k: int, p: (String, CancellationToken))
    requires
        0 <= k < ts.len(),
        token_keys(ts).no_duplicates(),
        p.0@ == ts[k].0@,
    ensures
        token_map(ts.update(k, p)) == token_map(ts).insert(p.0@, p.1),
    decreases ts.len(),
{
    let up = ts.update(k, p);
    if k == ts.len() - 1 {
        assert(up.drop_last() =~= ts.drop_last());
        assert(token_map(up) =~= token_map(ts).insert(p.0@, p.1));
    } else {
        let init = ts.drop_last();
        assert(up.drop_last() =~= init.update(k, p));
        assert forall|a: int, b: int| 0 <= a < b < token_keys(init).len() implies token_keys(init)[a]
            != token_keys(init)[b] by {
            assert(token_keys(init)[a] == token_keys(ts)[a]);
            assert(token_keys(init)[b] == token_keys(ts)[b]);
        }
        lemma_token_map_update(init, k, p);
        assert(token_keys(ts)[k] != token_keys(ts)[ts.len() - 1]);
        assert(token_map(up) =~= token_map(ts).insert(p.0@, p.1));
    }
}

/// Dropping the entry at `k` drops that ID's token.
proof fn lemma_token_map_remove(ts: Seq<(String, CancellationToken)>, k: int)
    requires
        0 <= k < ts.len(),
        token_keys(ts).no_duplicates(),
    ensures
        token_map(ts.remove(k)) == token_map(ts).remove(ts[k].0@),
    decreases ts.len(),
{
    let rm = ts.remove(k);
    let init = ts.drop_last();
    assert forall|a: int, b: int| 0 <= a < b < token_keys(init).len() implies token_keys(init)[a]
        != token_keys(init)[b] by {
        assert(token_keys(init)[a] == token_keys(ts)[a]);
        assert(token_keys(init)[b] == token_keys(ts)[b]);
    }
    if k == ts.len() - 1 {
        assert(rm =~= init);
        lemma_token_map_dom(init);
        assert(!token_keys(init).contains(ts[k].0@)) by {
            if token_keys(init).contains(ts[k].0@) {
                let j = choose|j: int| 0 <= j < token_keys(init).len() && token_keys(init)[j] == ts[k].0@;
                assert(token_keys(ts)[j] == token_keys(ts)[k]);
            }
        }
        assert(token_map(rm) =~= token_map(ts).remove(ts[k].0@));
    } else {
        assert(rm.drop_last() =~= init.remove(k));
        assert(rm.last() == ts.last());
        lemma_token_map_remove(init, k);
        assert(token_keys(ts)[k] != token_keys(ts)[ts.len() - 1]);
        assert(token_map(rm) =~= token_map(ts).remove(ts[k].0@));
    }
}

impl DownloadQueueManager {
    /// The items in the queue, in order.
    pub closed spec fn items(&self) -> Seq<DownloadItem> {
        self.queue@
    }

    /// Whether queue processing is active.
    pub closed spec fn downloading(&self) -> bool {
        self.is_downloading
    }

    /// The IDs of the downloads that have a registered cancellation token.
    pub closed spec fn token_ids(&self) -> Seq<Seq<char>> {
        token_keys(self.cancellation_tokens@)
    }

    /// The cancellation token registered for each download ID.
    pub closed spec fn tokens(&self) -> Map<Seq<char>, CancellationToken> {
        token_map(self.cancellation_tokens@)
    }

    /// The IDs whose registered token this manager has cancelled.
    pub closed spec fn cancelled(&self) -> Set<Seq<char>> {
        self.cancelled_ids@
    }

    /// Each download has at most one registered token.
    #[verifier::type_invariant]
    spec fn tokens_unique(&self) -> bool {
        token_keys(self.cancellation_tokens@).no_duplicates()
    }

    /// Creates an empty manager.
    pub fn new() -> (m: Self)
        ensures
            m.items() == Seq::<DownloadItem>::empty(),
            !m.downloading(),
            m.tokens() == Map::<Seq<char>, CancellationToken>::empty(),
            m.cancelled() == Set::<Seq<char>>::empty(),
    {
        let m = DownloadQueueManager {
            queue: Vec::new(),
            is_downloading: false,
            cancellation_tokens: Vec::new(),
            cancelled_ids: Ghost(Set::empty()),
        };
        assert(m.token_ids() =~= Seq::<Seq<char>>::empty());
        assert(m.tokens() =~= Map::<Seq<char>, CancellationToken>::empty());
        m
    }

    /// Adds a new download item to the queue, giving it the next unique ID:
    /// the decimal rendering of the shared `counter`, which then advances
    /// (wrapping, as an atomic `fetch_add` does).
    pub fn add_item(&mut self, item: DownloadItem, counter: &mut u64)
        ensures
            final(self).items().len() == old(self).items().len() + 1,
            final(self).items().drop_last() == old(self).items(),
            final(self).items().last().id@ == nat_decimal(*old(counter) as nat),
            final(self).items().last() == (DownloadItem { id: final(self).items().last().id, ..item }),
            *final(counter) == if *old(counter) == u64::MAX {
                0
            } else {
                (*old(counter) + 1) as u64
            },
            final(self).downloading() == old(self).downloading(),
            final(self).tokens() == old(self).tokens(),
            final(self).cancelled() == old(self).cancelled(),
    {
        proof {
            use_type_invariant(&*self);
        }
        let n = crate::download::progress::next_id(counter);
        let id = string_of(&u64_decimal(n));
        let mut item = item;
        item.id = id;
        let ghost old_q = self.queue@;
        let mut q: Vec<DownloadItem> = Vec::new();
        std::mem::swap(&mut q, &mut self.queue);
        q.push(item);
        self.queue = q;
        assert(self.queue@.drop_last() =~= old_q);
    }

    /// The first item with the given ID.
    fn position_of(&self, item_id: &str) -> (r: Option<usize>)
        ensures
            match r {
                Some(k) => first_with_id(self.queue@, item_id@) == Some(k as int) && k
                    < self.queue@.len(),
                None => first_with_id(self.queue@, item_id@) is None,
            },
    {
        let key = chars_of(item_id);
        let mut i: usize = 0;
        while i < self.queue.len()
            invariant
                i <= self.queue@.len(),
                key@ == item_id@,
                forall|j: int| 0 <= j < i ==> self.queue@[j].id@ != item_id@,
            decreases self.queue@.len() - i,
        {
            if crate::text::chars_eq(&chars_of(self.queue[i].id.as_str()), &key) {
                proof {
                    lemma_first_with_id_at(self.queue@, item_id@, i as int);
                }
                return Some(i);
            }
            i = i + 1;
        }
        proof {
            lemma_first_with_id_none(self.queue@, item_id@);
        }
        None
    }

    /// The position of the registered token of `item_id`.
    fn token_position(&self, item_id: &str) -> (r: Option<usize>)
        ensures
            match r {
                Some(k) => k < self.token_ids().len() && self.token_ids()[k as int] == item_id@,
                None => !self.token_ids().contains(item_id@),
            },
    {
        let key = chars_of(item_id);
        let mut i: usize = 0;
        while i < self.cancellation_tokens.len()
            invariant
                i <= self.cancellation_tokens@.len(),
                key@ == item_id@,
                forall|j: int| 0 <= j < i ==> self.token_ids()[j] != item_id@,
            decreases self.cancellation_tokens@.len() - i,
        {
            if crate::text::chars_eq(&chars_of(self.cancellation_tokens[i].0.as_str()), &key) {
                return Some(i);
            }
            i = i + 1;
        }
        None
    }

    /// Sets the status of the item at `k`.
    fn set_status_at(&mut self, k: usize, status: DownloadStatus)
        requires
            k < old(self).queue@.len(),
        ensures
            final(self).queue@ == old(self).queue@.update(k as int, with_status(old(self).queue@[k as int], status)),
            final(self).is_downloading == old(self).is_downloading,
            final(self).cancellation_tokens == old(self).cancellation_tokens,
            final(self).cancelled_ids == old(self).cancelled_ids,
            final(self).tokens() == old(self).tokens(),
    {
        proof {
            use_type_invariant(&*self);
        }
        let mut q: Vec<DownloadItem> = Vec::new();
        std::mem::swap(&mut q, &mut self.queue);
        q[k].status = status;
        self.queue = q;
        assert(self.queue@ =~= old(self).queue@.update(k as int, with_status(old(self).queue@[k as int], status)));
    }

    /// Removes the registered token at `k`.
    fn remove_token_at(&mut self, k: usize) -> (t: CancellationToken)
        requires
            k < old(self).cancellation_tokens@.len(),
        ensures
            final(self).cancellation_tokens@ == old(self).cancellation_tokens@.remove(k as int),
            final(self).token_ids() == old(self).token_ids().remove(k as int),
            final(self).tokens() == old(self).tokens().remove(old(self).token_ids()[k as int]),
            t == old(self).cancellation_tokens@[k as int].1,
            final(self).queue == old(self).queue,
            final(self).is_downloading == old(self).is_downloading,
            final(self).cancelled_ids == old(self).cancelled_ids,
    {
        proof {
            use_type_invariant(&*self);
        }
        let ghost before = self.token_ids();
        let ghost ts = self.cancellation_tokens@;
        proof {
            lemma_token_map_remove(ts, k as int);
            assert(before[k as int] == ts[k as int].0@);
            let after = token_keys(ts.remove(k as int));
            assert(after =~= before.remove(k as int));
            assert forall|a: int, b: int| 0 <= a < b < after.len() implies after[a] != after[b] by {
                let a2 = if a < k { a } else { a + 1 };
                let b2 = if b < k { b } else { b + 1 };
                assert(after[a] == before[a2]);
                assert(after[b] == before[b2]);
            }
        }
        let mut tokens: Vec<(String, CancellationToken)> = Vec::new();
        std::mem::swap(&mut tokens, &mut self.cancellation_tokens);
        let (_, t) = tokens.remove(k);
        self.cancellation_tokens = tokens;
        assert(self.token_ids() =~= before.remove(k as int));
        t
    }

    /// Cancels the registered token at `k` (`CancellationToken::cancel`),
    /// which stops the download that holds a clone of it; the ID it is
    /// registered under joins the cancelled IDs. Nothing else changes.
    #[verifier::external_body]
    fn cancel_token_at(&mut self, k: usize)
        requires
            k < old(self).cancellation_tokens@.len(),
        ensures
            final(self).cancelled() == old(self).cancelled().insert(old(self).token_ids()[k as int]),
            final(self).queue == old(self).queue,
            final(self).is_downloading == old(self).is_downloading,
            final(self).cancellation_tokens == old(self).cancellation_tokens,
    {
        self.cancellation_tokens[k].1.cancel();
    }

    /// Cancels a specific download item by its ID: a registered token is
    /// cancelled and removed, and the first item with that ID is cancelled
    /// whatever its state.
    pub fn cancel_item(&mut self, item_id: &str)
        ensures
            final(self).tokens() == old(self).tokens().remove(item_id@),
            final(self).cancelled() == old(self).cancelled() + (if old(self).tokens().dom().contains(item_id@) {
                set![item_id@]
            } else {
                Set::<Seq<char>>::empty()
            }),
            updated_at(old(self).items(), final(self).items(), first_with_id(old(self).items(), item_id@), DownloadStatus::Cancelled),
            final(self).downloading() == old(self).downloading(),
    {
        proof {
            use_type_invariant(&*self);
        }
        let ghost m0 = self.tokens();
        let ghost c0 = self.cancelled();
        proof {
            lemma_token_map_dom(self.cancellation_tokens@);
        }
        if let Some(k) = self.token_position(item_id) {
            self.cancel_token_at(k);
            let _t = self.remove_token_at(k);
            proof {
                assert(token_keys(old(self).cancellation_tokens@).contains(item_id@));
                assert(m0.dom().contains(item_id@));
                assert(self.cancelled() =~= c0 + set![item_id@]);
            }
        } else {
            proof {
                lemma_token_map_dom(self.cancellation_tokens@);
                assert(!m0.dom().contains(item_id@));
                assert(m0.remove(item_id@) =~= m0);
                assert(self.cancelled() =~= c0 + Set::<Seq<char>>::empty());
            }
        }
        let ghost q0 = self.queue@;
        if let Some(i) = self.position_of(item_id) {
            self.set_status_at(i, DownloadStatus::Cancelled);
        }
    }

    /// Cancels all active and queued download items and drops every token
    /// (each is cancelled first).
    pub fn cancel_all(&mut self)
        ensures
            final(self).tokens() == Map::<Seq<char>, CancellationToken>::empty(),
            final(self).cancelled() == old(self).cancelled() + old(self).tokens().dom(),
            final(self).items().len() == old(self).items().len(),
            forall|i: int| 0 <= i < old(self).items().len() ==> #[trigger] final(self).items()[i] == if is_live(old(self).items()[i]) {
                with_status(old(self).items()[i], DownloadStatus::Cancelled)
            } else {
                old(self).items()[i]
            },
            final(self).downloading() == old(self).downloading(),
    {
        proof {
            use_type_invariant(&*self);
        }
        while self.cancellation_tokens.len() > 0
            invariant
                self.queue == old(self).queue,
                self.is_downloading == old(self).is_downloading,
                self.tokens().dom().subset_of(old(self).tokens().dom()),
                self.cancelled() == old(self).cancelled() + old(self).tokens().dom().difference(self.tokens().dom()),
            decreases self.cancellation_tokens@.len(),
        {
            let last = self.cancellation_tokens.len() - 1;
            let ghost key = self.token_ids()[last as int];
            let ghost d0 = self.tokens().dom();
            proof {
                lemma_token_map_dom(self.cancellation_tokens@);
                assert(token_keys(self.cancellation_tokens@)[last as int] == key);
                assert(d0.contains(key));
            }
            self.cancel_token_at(last);
            let _t = self.remove_token_at(last);
            proof {
                assert(self.tokens().dom() =~= d0.remove(key));
                assert(self.cancelled() =~= old(self).cancelled() + old(self).tokens().dom().difference(self.tokens().dom()));
            }
        }
        assert(self.token_ids() =~= Seq::<Seq<char>>::empty());
        proof {
            lemma_token_map_dom(self.cancellation_tokens@);
            assert(self.tokens().dom() =~= Set::<Seq<char>>::empty());
            assert(self.cancelled() =~= old(self).cancelled() + old(self).tokens().dom());
        }
        let ghost c1 = self.cancelled_ids;
        let ghost q0 = self.queue@;
        let mut i: usize = 0;
        while i < self.queue.len()
            invariant
                i <= self.queue@.len(),
                self.queue@.len() == q0.len(),
                forall|j: int| 0 <= j < i ==> #[trigger] self.queue@[j] == if is_live(q0[j]) {
                    with_status(q0[j], DownloadStatus::Cancelled)
                } else {
                    q0[j]
                },
                forall|j: int| i <= j < q0.len() ==> #[trigger] self.queue@[j] == q0[j],
                self.token_ids() == Seq::<Seq<char>>::empty(),
                self.is_downloading == old(self).is_downloading,
                self.cancelled_ids == c1,
            decreases self.queue@.len() - i,
        {
            let live = match self.queue[i].status {
                DownloadStatus::Queued | DownloadStatus::Downloading => true,
                _ => false,
            };
            if live {
                self.set_status_at(i, DownloadStatus::Cancelled);
            }
            i = i + 1;
        }
    }

    /// Clears all items from the download queue, and all remaining tokens
    /// (without triggering them).
    pub fn clear_queue(&mut self)
        ensures
            final(self).items() == Seq::<DownloadItem>::empty(),
            final(self).tokens() == Map::<Seq<char>, CancellationToken>::empty(),
            final(self).downloading() == old(self).downloading(),
            final(self).cancelled() == old(self).cancelled(),
    {
        proof {
            use_type_invariant(&*self);
        }
        self.queue = Vec::new();
        self.cancellation_tokens = Vec::new();
        assert(self.token_ids() =~= Seq::<Seq<char>>::empty());
        assert(self.queue@ =~= Seq::<DownloadItem>::empty());
    }

    /// Cancels all downloads and clears the entire queue.
    pub fn cancel_all_and_clear(&mut self)
        ensures
            final(self).items() == Seq::<DownloadItem>::empty(),
            final(self).tokens() == Map::<Seq<char>, CancellationToken>::empty(),
            final(self).downloading() == old(self).downloading(),
            final(self).cancelled() == old(self).cancelled() + old(self).tokens().dom(),
    {
        proof {
            use_type_invariant(&*self);
        }
        self.cancel_all();
        self.clear_queue();
    }

    /// A copy of the items in the queue.
    pub fn get_items(&self) -> (r: Vec<DownloadItem>)
        ensures
            r@ == self.items(),
    {
        let mut r: Vec<DownloadItem> = Vec::new();
        let mut i: usize = 0;
        while i < self.queue.len()
            invariant
                i <= self.queue@.len(),
                r@ == self.queue@.take(i as int),
            decreases self.queue@.len() - i,
        {
            r.push(copy_item(&self.queue[i]));
            assert(r@ =~= self.queue@.take(i + 1));
            i = i + 1;
        }
        assert(self.queue@.take(self.queue@.len() as int) =~= self.queue@);
        r
    }

    /// Updates the status of the first item with the given ID.
    pub fn update_status(&mut self, item_id: &str, status: DownloadStatus)
        ensures
            updated_at(old(self).items(), final(self).items(), first_with_id(old(self).items(), item_id@), status),
            final(self).downloading() == old(self).downloading(),
            final(self).tokens() == old(self).tokens(),
            final(self).cancelled() == old(self).cancelled(),
    {
        proof {
            use_type_invariant(&*self);
        }
        if let Some(i) = self.position_of(item_id) {
            self.set_status_at(i, status);
        }
    }

    /// Updates the metadata of the first item with the given ID.
    pub fn update_metadata(&mut self, item_id: &str, metadata: Option<DownloadMetadata>)
        ensures
            final(self).items().len() == old(self).items().len(),
            forall|j: int| 0 <= j < old(self).items().len() && Some(j) != first_with_id(old(self).items(), item_id@) ==> final(self).items()[j] == old(self).items()[j],
            first_with_id(old(self).items(), item_id@) matches Some(k) ==> final(self).items()[k] == (DownloadItem { metadata, ..old(self).items()[k] }),
            final(self).downloading() == old(self).downloading(),
            final(self).tokens() == old(self).tokens(),
            final(self).cancelled() == old(self).cancelled(),
    {
        proof {
            use_type_invariant(&*self);
        }
        if let Some(i) = self.position_of(item_id) {
            let mut q: Vec<DownloadItem> = Vec::new();
            std::mem::swap(&mut q, &mut self.queue);
            q[i].metadata = metadata;
            self.queue = q;
        }
    }

    /// Retrieves the next queued item for processing: the first queued item
    /// is marked as downloading (it stays in the queue) and its ID returned.
    pub fn get_next_item(&mut self) -> (r: Option<DownloadItem>)
        ensures
            updated_at(old(self).items(), final(self).items(), first_queued(old(self).items()), DownloadStatus::Downloading),
            match first_queued(old(self).items()) {
                Some(k) => r == Some(final(self).items()[k]),
                None => r is None,
            },
            final(self).downloading() == old(self).downloading(),
            final(self).tokens() == old(self).tokens(),
            final(self).cancelled() == old(self).cancelled(),
    {
        proof {
            use_type_invariant(&*self);
        }
        let mut i: usize = 0;
        while i < self.queue.len()
            invariant
                i <= self.queue@.len(),
                *self == *old(self),
                forall|j: int| 0 <= j < i ==> !is_queued(self.queue@[j]),
            decreases self.queue@.len() - i,
        {
            let queued = match self.queue[i].status {
                DownloadStatus::Queued => true,
                _ => false,
            };
            if queued {
                proof {
                    lemma_first_queued_at(self.queue@, i as int);
                }
                self.set_status_at(i, DownloadStatus::Downloading);
                return Some(copy_item(&self.queue[i]));
            }
            i = i + 1;
        }
        proof {
            lemma_first_queued_none(self.queue@);
        }
        None
    }

    /// Checks if the queue is effectively empty: no item is waiting.
    pub fn is_empty(&self) -> (b: bool)
        ensures
            b == (first_queued(self.items()) is None),
    {
        let mut i: usize = 0;
        while i < self.queue.len()
            invariant
                i <= self.queue@.len(),
                forall|j: int| 0 <= j < i ==> !is_queued(self.queue@[j]),
            decreases self.queue@.len() - i,
        {
            if let DownloadStatus::Queued = self.queue[i].status {
                assert(is_queued(self.queue@[i as int]));
                proof {
                    lemma_first_queued_at(self.queue@, i as int);
                }
                return false;
            }
            i = i + 1;
        }
        proof {
            lemma_first_queued_none(self.queue@);
        }
        true
    }

    /// Sets the downloading state flag.
    pub fn set_downloading(&mut self, downloading: bool)
        ensures
            final(self).downloading() == downloading,
            final(self).items() == old(self).items(),
            final(self).tokens() == old(self).tokens(),
            final(self).cancelled() == old(self).cancelled(),
    {
        proof {
            use_type_invariant(&*self);
        }
        self.is_downloading = downloading;
    }

    /// Checks if the queue processor is currently active.
    pub fn is_downloading(&self) -> (b: bool)
        ensures
            b == self.downloading(),
    {
        self.is_downloading
    }

    /// Registers a cancellation token for a download item, replacing any
    /// token already registered for it.
    pub fn register_cancellation_token(&mut self, item_id: String, token: CancellationToken)
        ensures
            final(self).tokens() == old(self).tokens().insert(item_id@, token),
            final(self).items() == old(self).items(),
            final(self).downloading() == old(self).downloading(),
            final(self).cancelled() == old(self).cancelled(),
    {
        proof {
            use_type_invariant(&*self);
        }
        let ghost before = self.token_ids();
        let ghost ts = self.cancellation_tokens@;
        let ghost gp = (item_id, token);
        match self.token_position(item_id.as_str()) {
            Some(k) => {
                proof {
                    assert(token_keys(ts.update(k as int, gp)) =~= before);
                    assert(before[k as int] == ts[k as int].0@);
                    lemma_token_map_update(ts, k as int, gp);
                }
                let mut tokens: Vec<(String, CancellationToken)> = Vec::new();
                std::mem::swap(&mut tokens, &mut self.cancellation_tokens);
                tokens.set(k, (item_id, token));
                self.cancellation_tokens = tokens;
            },
            None => {
                proof {
                    let after = token_keys(ts.push(gp));
                    assert(after =~= before.push(gp.0@));
                    assert(ts.push(gp).drop_last() =~= ts);
                    assert forall|a: int, b: int| 0 <= a < b < after.len() implies after[a] != after[b] by {
                        if b == before.len() {
                            assert(after[a] == before[a]);
                        }
                    }
                }
                let mut tokens: Vec<(String, CancellationToken)> = Vec::new();
                std::mem::swap(&mut tokens, &mut self.cancellation_tokens);
                tokens.push((item_id, token));
                self.cancellation_tokens = tokens;
                assert(self.cancellation_tokens@.drop_last() =~= ts);
            },
        }
    }

    /// Unregisters the cancellation token of a download item.
    pub fn unregister_cancellation_token(&mut self, item_id: &str)
        ensures
            final(self).tokens() == old(self).tokens().remove(item_id@),
            final(self).items() == old(self).items(),
            final(self).downloading() == old(self).downloading(),
            final(self).cancelled() == old(self).cancelled(),
    {
        proof {
            use_type_invariant(&*self);
        }
        let ghost m0 = self.tokens();
        if let Some(k) = self.token_position(item_id) {
            let _t = self.remove_token_at(k);
        } else {
            proof {
                lemma_token_map_dom(self.cancellation_tokens@);
                assert(!m0.dom().contains(item_id@));
                assert(m0.remove(item_id@) =~= m0);
            }
        }
    }

    /// Starts processing the queue if an item is waiting: the flag is set,
    /// the first waiting item is marked as downloading and its ID returned.
    /// With nothing waiting, nothing changes.
    pub fn start_queue_processing(&mut self) -> (r: Option<String>)
        ensures
            final(self).items() == started_queue(old(self).items()),
            match first_queued(old(self).items()) {
                Some(k) => r matches Some(id) && id@ == old(self).items()[k].id@
                    && final(self).downloading(),
                None => r is None && final(self).downloading() == old(self).downloading(),
            },
            final(self).tokens() == old(self).tokens(),
            final(self).cancelled() == old(self).cancelled(),
    {
        proof {
            use_type_invariant(&*self);
        }
        if self.is_empty() {
            return None;
        }
        self.set_downloading(true);
        match self.get_next_item() {
            Some(item) => {
                let id = item.id;
                let ghost q1 = self.queue@;
                self.update_status(id.as_str(), DownloadStatus::Downloading);
                proof {
                    lemma_first_queued(old(self).queue@);
                    let k = first_queued(old(self).queue@)->0;
                    assert(q1 =~= marked(old(self).queue@, Some(k), DownloadStatus::Downloading));
                    lemma_first_with_id(q1, id@);
                    let j = first_with_id(q1, id@);
                    assert(self.queue@ =~= marked(q1, j, DownloadStatus::Downloading));
                }
                Some(id)
            },
            None => {
                self.set_downloading(false);
                None
            },
        }
    }

    /// Records the end of the running download of `item_id`: completed, or
    /// failed with the error message; processing stops, and the result says
    /// whether another item is waiting.
    pub fn finish_download(&mut self, item_id: &str, result: Result<(), String>) -> (more: bool)
        ensures
            final(self).items() == finished_queue(old(self).items(), item_id@, result),
            !final(self).downloading(),
            more == (first_queued(final(self).items()) is Some),
            final(self).tokens() == old(self).tokens(),
            final(self).cancelled() == old(self).cancelled(),
    {
        proof {
            use_type_invariant(&*self);
        }
        let status = match result {
            Ok(()) => DownloadStatus::Completed,
            Err(e) => DownloadStatus::Failed(e),
        };
        if let Some(i) = self.position_of(item_id) {
            let ended = match self.queue[i].status {
                DownloadStatus::Completed | DownloadStatus::Cancelled | DownloadStatus::Failed(_) => true,
                _ => false,
            };
            if !ended {
                self.set_status_at(i, status);
                assert(self.queue@ =~= marked(old(self).queue@, Some(i as int), finished_status(result)));
            }
        }
        self.set_downloading(false);
        !self.is_empty()
    }
}

/// Cancelling everything leaves no item waiting or downloading, so the queue
/// counts as empty.
pub proof fn lemma_cancel_all_leaves_none_pending(before: Seq<DownloadItem>, after: Seq<DownloadItem>)
    requires
        after.len() == before.len(),
        forall|i: int| 0 <= i < before.len() ==> #[trigger] after[i] == if is_live(before[i]) {
            with_status(before[i], DownloadStatus::Cancelled)
        } else {
            before[i]
        },
    ensures
        forall|i: int| 0 <= i < after.len() ==> !is_live(#[trigger] after[i]),
        first_queued(after) is None,
{
    assert forall|i: int| 0 <= i < after.len() implies !is_live(#[trigger] after[i]) by {
        assert(after[i] == if is_live(before[i]) {
            with_status(before[i], DownloadStatus::Cancelled)
        } else {
            before[i]
        });
    }
    lemma_first_queued_none(after);
}

/// Processing takes items in queue order: when processing starts, every
/// item before the one taken was not waiting, and the one taken is then
/// marked as downloading.
pub proof fn lemma_start_takes_first_waiting(q: Seq<DownloadItem>)
    requires
        first_queued(q) is Some,
    ensures
        ({
            let k = first_queued(q)->0;
            &&& 0 <= k < q.len()
            &&& is_queued(q[k])
            &&& forall|j: int| 0 <= j < k ==> !is_queued(q[j])
            &&& started_queue(q)[k].status is Downloading
            &&& started_queue(q).len() == q.len()
        }),
{
    lemma_first_queued(q);
    let k = first_queued(q)->0;
    let q1 = marked(q, Some(k), DownloadStatus::Downloading);
    lemma_first_with_id(q1, q[k].id@);
    assert(q1[k].status is Downloading);
    let j = first_with_id(q1, q[k].id@);
    assert(q1[k].id@ == q[k].id@);
    if let Some(jj) = j {
        assert(0 <= jj < q1.len());
    }
}


/// Every item ID is the decimal rendering of a counter value below `next`,
/// and no two items share an ID.
pub open spec fn ids_issued_below(items: Seq<DownloadItem>, next: nat) -> bool {
    &&& forall|i: int|
        #![trigger items[i]]
        0 <= i < items.len() ==> exists|k: nat| k < next && items[i].id@ == #[trigger] nat_decimal(k)
    &&& forall|i: int, j: int| 0 <= i < j < items.len() ==> #[trigger] items[i].id@ != #[trigger] items[j].id@
}

/// Before any item is added, no ID has been issued from the counter's
/// start: the first step of `lemma_add_item_keeps_ids_unique`.
pub proof fn lemma_no_ids_issued_at_start()
    ensures
        ids_issued_below(Seq::<DownloadItem>::empty(), 0),
{
}

/// Items added to the queues get unique IDs: when the IDs issued so far, by
/// every manager drawing from the same counter, are distinct and were made
/// from counter values below `next`, adding an item under the ID `next` (the
/// counter has not wrapped) keeps every ID distinct.
pub proof fn lemma_add_item_keeps_ids_unique(before: Seq<DownloadItem>, after: Seq<DownloadItem>, next: u64)
    requires
        ids_issued_below(before, next as nat),
        next < u64::MAX,
        after.len() == before.len() + 1,
        after.drop_last() == before,
        after.last().id@ == nat_decimal(next as nat),
    ensures
        ids_issued_below(after, (next + 1) as nat),
{
    let n = before.len() as int;
    assert forall|i: int|
        #![trigger after[i]]
        0 <= i < after.len() implies exists|k: nat| k < next + 1 && after[i].id@ == #[trigger] nat_decimal(k) by {
        if i < n {
            assert(after[i] == before[i]);
            let k = choose|k: nat| k < next && before[i].id@ == #[trigger] nat_decimal(k);
            assert(after[i].id@ == nat_decimal(k));
        } else {
            assert(after[i].id@ == nat_decimal(next as nat));
        }
    }
    assert forall|i: int, j: int| 0 <= i < j < after.len() implies #[trigger] after[i].id@ != #[trigger] after[j].id@ by {
        assert(after[i] == before[i]);
        if j < n {
            assert(after[j] == before[j]);
        } else {
            let k = choose|k: nat| k < next && before[i].id@ == #[trigger] nat_decimal(k);
            if after[i].id@ == after[j].id@ {
                lemma_nat_decimal_injective(k, next as nat);
            }
        }
    }
}

/// The Qobuz format ID offered at each position of the quality list.
pub open spec fn format_id_at(index: u32) -> Seq<char> {
    if index == 0 {
        "5"@
    } else if index == 1 {
        "6"@
    } else if index == 2 {
        "7"@
    } else if index == 3 {
        "27"@
    } else {
        "6"@
    }
}

/// The position in the quality list of a saved format ID; unknown IDs
/// select FLAC lossless.
pub open spec fn index_of_format_id(format_id: Seq<char>) -> u32 {
    if format_id == "5"@ {
        0
    } else if format_id == "6"@ {
        1
    } else if format_id == "7"@ {
        2
    } else if format_id == "27"@ {
        3
    } else {
        1
    }
}

/// Maps the selected quality index to the Qobuz format ID: MP3 320 (5),
/// FLAC lossless (6), FLAC Hi-Res up to 96kHz (7), FLAC Hi-Res above 96kHz
/// (27); FLAC lossless for any other index.
pub fn format_id_for_index(index: u32) -> (r: String)
    ensures
        r@ == format_id_at(index),
{
    match index {
        0 => String::from_str("5"),
        1 => String::from_str("6"),
        2 => String::from_str("7"),
        3 => String::from_str("27"),
        _ => String::from_str("6"),
    }
}

/// Maps a saved format ID to the position selected in the quality list.
pub fn index_for_format_id(format_id: &str) -> (i: u32)
    ensures
        i == index_of_format_id(format_id@),
{
    proof {
        reveal_strlit("5");
        reveal_strlit("6");
        reveal_strlit("7");
        reveal_strlit("27");
    }
    let f = chars_of(format_id);
    if crate::text::chars_eq(&f, &chars_of("5")) {
        0
    } else if crate::text::chars_eq(&f, &chars_of("6")) {
        1
    } else if crate::text::chars_eq(&f, &chars_of("7")) {
        2
    } else if crate::text::chars_eq(&f, &chars_of("27")) {
        3
    } else {
        1
    }
}

/// Selecting a quality and saving its format ID selects the same quality at
/// the next start.
pub proof fn lemma_format_index_round_trip(index: u32)
    requires
        index < 4,
    ensures
        index_of_format_id(format_id_at(index)) == index,
{
    reveal_strlit("5");
    reveal_strlit("6");
    reveal_strlit("7");
    reveal_strlit("27");
    assert("6"@[0] != "5"@[0]);
    assert("7"@[0] != "5"@[0] && "7"@[0] != "6"@[0]);
    assert("27"@.len() != "5"@.len() && "27"@.len() != "6"@.len() && "27"@.len() != "7"@.len());
}

/// The file extension for a Qobuz format ID: `mp3` for format 5, `flac`
/// otherwise.
pub fn file_extension(format_id: &str) -> (r: &'static str)
    ensures
        r@ == if format_id@ == "5"@ {
            "mp3"@
        } else {
            "flac"@
        },
{
    if crate::text::chars_eq(&chars_of(format_id), &chars_of("5")) {
        "mp3"
    } else {
        "flac"
    }
}

/// The notice shown when an item joins the queue.
pub fn added_to_queue_message(download_type: &DownloadType) -> (r: &'static str)
    ensures
        r@ == match download_type {
            DownloadType::Album(_) => "Album added to download queue"@,
            DownloadType::Track(_) => "Track added to download queue"@,
        },
{
    match download_type {
        DownloadType::Album(_) => "Album added to download queue",
        DownloadType::Track(_) => "Track added to download queue",
    }
}

/// `value`, or `default` when absent.
pub open spec fn or_default(value: Option<Seq<char>>, default: Seq<char>) -> Seq<char> {
    match value {
        Some(v) => v,
        None => default,
    }
}

/// `value`, or `default` when absent.
fn string_or(value: Option<String>, default: &str) -> (r: String)
    ensures
        r@ == or_default(opt_chars(value), default@),
{
    match value {
        Some(v) => v,
        None => String::from_str(default),
    }
}

/// The artist and title folder names of an album: the API's values, or
/// `Unknown Artist` and `Unknown Album`; an album for which both are
/// unknown is refused.
pub fn album_folder_names(artist_name: Option<String>, album_title: Option<String>) -> (r: Result<(String, String), String>)
    ensures
        ({
            let a = or_default(opt_chars(artist_name), "Unknown Artist"@);
            let t = or_default(opt_chars(album_title), "Unknown Album"@);
            if a == "Unknown Artist"@ && t == "Unknown Album"@ {
                r matches Err(m) && m@ == "Invalid album information received from API"@
            } else {
                r matches Ok((ra, rt)) && ra@ == a && rt@ == t
            }
        }),
{
    let a = string_or(artist_name, "Unknown Artist");
    let t = string_or(album_title, "Unknown Album");
    let unknown_artist = crate::text::chars_eq(&chars_of(a.as_str()), &chars_of("Unknown Artist"));
    let unknown_title = crate::text::chars_eq(&chars_of(t.as_str()), &chars_of("Unknown Album"));
    if unknown_artist && unknown_title {
        Err(String::from_str("Invalid album information received from API"))
    } else {
        Ok((a, t))
    }
}

/// The directory of an album: `{download_path}/{artist_dir}/{title_dir}`.
pub fn album_download_dir(download_path: &str, artist_dir: &str, title_dir: &str) -> (r: String)
    ensures
        r@ == download_path@ + "/"@ + artist_dir@ + "/"@ + title_dir@,
{
    let mut v = chars_of(download_path);
    extend_chars(&mut v, &chars_of("/"));
    extend_chars(&mut v, &chars_of(artist_dir));
    extend_chars(&mut v, &chars_of("/"));
    extend_chars(&mut v, &chars_of(title_dir));
    string_of(&v)
}

/// The file name of a track before sanitising: its number on two digits,
/// a dot, a space and its title (`{:02}. {}`).
pub fn track_file_stem(track_number: i32, track_title: &str) -> (r: String)
    ensures
        r@ == int_decimal_pad2(track_number as int) + ". "@ + track_title@,
{
    let mut v = i64_decimal_pad2(track_number as i64);
    extend_chars(&mut v, &chars_of(". "));
    extend_chars(&mut v, &chars_of(track_title));
    string_of(&v)
}

/// The title of a track, or `Track {track_id}` when the API gave none.
pub fn track_title_or_default(title: Option<String>, track_id: &str) -> (r: String)
    ensures
        r@ == or_default(opt_chars(title), "Track "@ + track_id@),
{
    match title {
        Some(t) => t,
        None => {
            let mut v = chars_of("Track ");
            extend_chars(&mut v, &chars_of(track_id));
            string_of(&v)
        },
    }
}

/// The number of a track in an album: the API's, or its position counted
/// from one.
pub fn track_number_or_position(track_number: Option<i32>, index: usize) -> (r: i32)
    requires
        index < usize::MAX,
    ensures
        r == match track_number {
            Some(n) => n,
            None => ((index + 1) as usize) as i32,
        },
{
    match track_number {
        Some(n) => n,
        None => (index + 1) as i32,
    }
}

/// The path of a track file: `{dir}/{file_name}.{extension}`.
pub fn track_file_path(dir: &str, file_name: &str, extension: &str) -> (r: String)
    ensures
        r@ == dir@ + "/"@ + file_name@ + "."@ + extension@,
{
    let mut v = chars_of(dir);
    extend_chars(&mut v, &chars_of("/"));
    extend_chars(&mut v, &chars_of(file_name));
    extend_chars(&mut v, &chars_of("."));
    extend_chars(&mut v, &chars_of(extension));
    string_of(&v)
}

/// The path of a track whose album is unknown:
/// `{download_path}/track_{track_id}.{extension}`.
pub fn fallback_track_path(download_path: &str, track_id: &str, extension: &str) -> (r: String)
    ensures
        r@ == download_path@ + "/track_"@ + track_id@ + "."@ + extension@,
{
    let mut v = chars_of(download_path);
    extend_chars(&mut v, &chars_of("/track_"));
    extend_chars(&mut v, &chars_of(track_id));
    extend_chars(&mut v, &chars_of("."));
    extend_chars(&mut v, &chars_of(extension));
    string_of(&v)
}

/// The leap years among years `1..=n` of the proleptic Gregorian calendar,
/// less those among `n+1..=0` when `n` is negative (floor divisions).
pub open spec fn leap_days_through(n: int) -> int {
    n / 4 - n / 100 + n / 400
}

/// Whether `y` is a leap year of the Gregorian calendar.
pub open spec fn is_leap_year(y: int) -> bool {
    (y % 4 == 0 && y % 100 != 0) || y % 400 == 0
}

/// The day, counted from 1970-01-01 (day 0), on which year `y` begins.
pub open spec fn year_start(y: int) -> int {
    365 * (y - 1970) + leap_days_through(y - 1) - leap_days_through(1969)
}

/// The year in which the UTC day `day` (counted from 1970-01-01) falls.
pub open spec fn is_year_of_day(y: int, day: int) -> bool {
    year_start(y) <= day < year_start(y + 1)
}

/// A year is one day longer than 365 exactly when it is a leap year.
#[verifier::spinoff_prover]
#[verifier::rlimit(40)]
pub proof fn lemma_year_length(y: int)
    ensures
        year_start(y + 1) - year_start(y) == if is_leap_year(y) {
            366int
        } else {
            365int
        },
{
    assert(y / 4 - (y - 1) / 4 == if y % 4 == 0 { 1int } else { 0int });
    assert(y / 100 - (y - 1) / 100 == if y % 100 == 0 { 1int } else { 0int });
    assert(y / 400 - (y - 1) / 400 == if y % 400 == 0 { 1int } else { 0int });
    assert(y % 100 == 0 ==> y % 4 == 0) by {
        if y % 100 == 0 {
            assert(y == 100 * (y / 100));
            assert((100 * (y / 100)) % 4 == 0);
        }
    }
    assert(y % 400 == 0 ==> y % 100 == 0) by {
        if y % 400 == 0 {
            assert(y == 400 * (y / 400));
            assert((400 * (y / 400)) % 100 == 0);
        }
    }
}

/// The calendar repeats every 400 years, which hold 146097 days.
proof fn lemma_year_cycles(y: int, c: int)
    ensures
        year_start(y + 400 * c) == year_start(y) + 146097 * c,
        is_leap_year(y + 400 * c) == is_leap_year(y),
{
    let n = y - 1;
    assert((n + 400 * c) / 4 == n / 4 + 100 * c) by {
        vstd::arithmetic::div_mod::lemma_hoist_over_denominator(n, 100 * c, 4);
    }
    assert((n + 400 * c) / 100 == n / 100 + 4 * c) by {
        vstd::arithmetic::div_mod::lemma_hoist_over_denominator(n, 4 * c, 100);
    }
    assert((n + 400 * c) / 400 == n / 400 + c) by {
        vstd::arithmetic::div_mod::lemma_hoist_over_denominator(n, c, 400);
    }
    assert((y + 400 * c) % 4 == y % 4) by {
        vstd::arithmetic::div_mod::lemma_mod_multiples_vanish(100 * c, y, 4);
    }
    assert((y + 400 * c) % 100 == y % 100) by {
        vstd::arithmetic::div_mod::lemma_mod_multiples_vanish(4 * c, y, 100);
    }
    assert((y + 400 * c) % 400 == y % 400) by {
        vstd::arithmetic::div_mod::lemma_mod_multiples_vanish(c, y, 400);
    }
}

/// The year in which the Unix timestamp `ts` falls (there is one: see
/// `lemma_year_of_day_unique`).
pub open spec fn timestamp_year(ts: int) -> int {
    choose|y: int| #[trigger] is_year_of_day(y, ts / 86400)
}

/// Later years begin later.
proof fn lemma_year_start_grows(a: int, b: int)
    requires
        a < b,
    ensures
        year_start(a + 1) <= year_start(b),
    decreases b - a,
{
    if a + 1 < b {
        lemma_year_start_grows(a, b - 1);
        lemma_year_length(b - 1);
    }
}

/// A day falls in one year only.
pub proof fn lemma_year_of_day_unique(a: int, b: int, day: int)
    requires
        is_year_of_day(a, day),
        is_year_of_day(b, day),
    ensures
        a == b,
{
    if a < b {
        lemma_year_start_grows(a, b);
    } else if b < a {
        lemma_year_start_grows(b, a);
    }
}

/// Whether the non-negative `y` is a leap year.
fn leap_year_exec(y: i128) -> (b: bool)
    requires
        y >= 0,
    ensures
        b == is_leap_year(y as int),
{
    (y % 4 == 0 && y % 100 != 0) || y % 400 == 0
}

/// The UTC year of a Unix timestamp (seconds since 1970-01-01T00:00:00Z,
/// negative before), in the proleptic Gregorian calendar.
pub fn year_of_timestamp(ts: i64) -> (y: i64)
    ensures
        is_year_of_day(y as int, ts as int / 86400),
        y == timestamp_year(ts as int),
{
    // Shifting by whole 400-year cycles keeps every division below on
    // non-negative numbers.
    let cycles_shift: i128 = 800_000_000;
    let shift_days: i128 = 146097 * cycles_shift;
    let shifted = ts as i128 + 86400 * shift_days;
    let ds = shifted / 86400;
    assert(ds - shift_days == ts as int / 86400);
    let cs = ds / 146097;
    let r = ds % 146097;
    let c = cs - cycles_shift;
    let base: i128 = 1970 + 400 * c;
    proof {
        lemma_year_cycles(1970, c as int);
        assert(year_start(1970) == 0);
    }
    let mut j: i128 = 0;
    let mut s: i128 = 0;
    let mut len: i128 = if leap_year_exec(1970) { 366 } else { 365 };
    proof {
        lemma_year_length(base as int);
        lemma_year_cycles(1970, c as int);
    }
    while s + len <= r
        invariant
            0 <= s <= r < 146097,
            0 <= j <= s / 365,
            base == 1970 + 400 * c,
            -800_000_001 <= c <= 800_000_000,
            year_start(base + j) == 146097 * c + s,
            len == year_start(base + j + 1) - year_start(base + j),
            len == if is_leap_year(1970 + j) { 366int } else { 365int },
        decreases r - s,
    {
        s = s + len;
        j = j + 1;
        len = if leap_year_exec(1970 + j) { 366 } else { 365 };
        proof {
            lemma_year_length(base + j);
            lemma_year_cycles(1970 + j, c as int);
        }
    }
    proof {
        let d = ts as int / 86400;
        assert(is_year_of_day(base + j, d));
        lemma_year_of_day_unique(base + j, timestamp_year(ts as int), d);
    }
    (base + j) as i64
}

/// The release year of a Unix timestamp, in decimal.
fn year_text(ts: i64) -> (r: String)
    ensures
        r@ == int_decimal(timestamp_year(ts as int)),
{
    string_of(&crate::text::i64_decimal(year_of_timestamp(ts)))
}

/// The first of the large, medium and small cover URLs that is present.
pub open spec fn cover_choice(large: Option<Seq<char>>, medium: Option<Seq<char>>, small: Option<Seq<char>>) -> Option<Seq<char>> {
    if large is Some {
        large
    } else if medium is Some {
        medium
    } else {
        small
    }
}

/// The preferred cover URL among the large, medium and small images.
pub fn choose_cover_url(large: Option<String>, medium: Option<String>, small: Option<String>) -> (r: Option<String>)
    ensures
        opt_chars(r) == cover_choice(opt_chars(large), opt_chars(medium), opt_chars(small)),
{
    if large.is_some() {
        large
    } else if medium.is_some() {
        medium
    } else {
        small
    }
}

/// The release year of an optional Unix timestamp.
fn opt_release_year(released_at: Option<i64>) -> (r: Option<String>)
    ensures
        match released_at {
            Some(ts) => r matches Some(y) && y@ == int_decimal(timestamp_year(ts as int)),
            None => r is None,
        },
{
    match released_at {
        Some(ts) => Some(year_text(ts)),
        None => None,
    }
}

/// The queue metadata of an album: title and artist (or their unknown
/// placeholders), release year (from the release timestamp), preferred
/// cover and track count.
pub fn album_metadata(
    artist_name: Option<String>,
    title: Option<String>,
    released_at: Option<i64>,
    large: Option<String>,
    medium: Option<String>,
    small: Option<String>,
    track_count: Option<usize>,
) -> (m: DownloadMetadata)
    ensures
        m.title@ == or_default(opt_chars(title), "Unknown Album"@),
        m.artist@ == or_default(opt_chars(artist_name), "Unknown Artist"@),
        m.album is None,
        m.duration is None,
        match released_at {
            Some(ts) => m.release_year matches Some(y) && y@ == int_decimal(timestamp_year(ts as int)),
            None => m.release_year is None,
        },
        opt_chars(m.cover_url) == cover_choice(opt_chars(large), opt_chars(medium), opt_chars(small)),
        m.track_count == track_count,
{
    DownloadMetadata {
        title: string_or(title, "Unknown Album"),
        artist: string_or(artist_name, "Unknown Artist"),
        album: None,
        duration: None,
        release_year: opt_release_year(released_at),
        cover_url: choose_cover_url(large, medium, small),
        track_count,
    }
}

/// The queue metadata of a track: its title (or `Track {id}`), its
/// performers, else its composer, else `Unknown Artist`, its album title (or
/// `Unknown Album`), duration, the album's release year and preferred cover.
pub fn track_metadata(
    track_id: &str,
    title: Option<String>,
    performers: Option<String>,
    composer_name: Option<String>,
    album_title: Option<String>,
    duration: Option<i64>,
    album_released_at: Option<i64>,
    large: Option<String>,
    medium: Option<String>,
    small: Option<String>,
) -> (m: DownloadMetadata)
    ensures
        m.title@ == or_default(opt_chars(title), "Track "@ + track_id@),
        m.artist@ == match performers {
            Some(p) => p@,
            None => or_default(opt_chars(composer_name), "Unknown Artist"@),
        },
        m.album matches Some(a) && a@ == or_default(opt_chars(album_title), "Unknown Album"@),
        m.duration == duration,
        match album_released_at {
            Some(ts) => m.release_year matches Some(y) && y@ == int_decimal(timestamp_year(ts as int)),
            None => m.release_year is None,
        },
        opt_chars(m.cover_url) == cover_choice(opt_chars(large), opt_chars(medium), opt_chars(small)),
        m.track_count is None,
{
    let artist = match performers {
        Some(p) => p,
        None => string_or(composer_name, "Unknown Artist"),
    };
    DownloadMetadata {
        title: track_title_or_default(title, track_id),
        artist,
        album: Some(string_or(album_title, "Unknown Album")),
        duration,
        release_year: opt_release_year(album_released_at),
        cover_url: choose_cover_url(large, medium, small),
        track_count: None,
    }
}

/// Tracks of an album download that were saved.
pub struct AlbumDownloadTally {
    /// Number of tracks saved.
    pub downloaded: usize,
}

impl AlbumDownloadTally {
    /// Nothing saved yet.
    pub fn new() -> (t: Self)
        ensures
            t.downloaded == 0,
    {
        AlbumDownloadTally { downloaded: 0 }
    }

    /// Counts one more saved track; failed tracks are passed over.
    pub fn record_success(&mut self)
        requires
            old(self).downloaded < usize::MAX,
        ensures
            final(self).downloaded == old(self).downloaded + 1,
    {
        self.downloaded = self.downloaded + 1;
    }

    /// The end of the album: an error when no track was saved.
    pub fn finish(&self) -> (r: Result<(), String>)
        ensures
            self.downloaded > 0 ==> r is Ok,
            self.downloaded == 0 ==> (r matches Err(m) && m@ == "No tracks were successfully downloaded"@),
    {
        if self.downloaded == 0 {
            Err(String::from_str("No tracks were successfully downloaded"))
        } else {
            Ok(())
        }
    }
}

/// A track of an album as the catalog lists it.
pub struct AlbumTrack {
    /// The track's ID, when the catalog gives one.
    pub id: Option<String>,
    /// Its number in the album.
    pub track_number: Option<i32>,
    /// Its title.
    pub title: Option<String>,
}

/// A track that an album download fetches, in the order it fetches them.
pub struct PlannedTrack {
    /// The track's position in the album listing, from zero.
    pub index: usize,
    /// The track's ID.
    pub track_id: String,
    /// Its file name before sanitising: `{number:02}. {title}`.
    pub file_stem: String,
}

/// The number a track is saved under: its own, or its position counted
/// from one.
pub open spec fn planned_number(t: AlbumTrack, i: usize) -> i32 {
    match t.track_number {
        Some(n) => n,
        None => ((i + 1) as usize) as i32,
    }
}

/// The file name, before sanitising, of the track at position `i`.
pub open spec fn planned_stem(t: AlbumTrack, i: usize) -> Seq<char> {
    int_decimal_pad2(planned_number(t, i) as int) + ". "@ + or_default(
        opt_chars(t.title),
        "Track "@ + t.id->0@,
    )
}

/// `p` is the plan entry of the track at its position in `tracks`.
pub open spec fn plans_track(tracks: Seq<AlbumTrack>, p: PlannedTrack) -> bool {
    &&& p.index < tracks.len()
    &&& tracks[p.index as int].id matches Some(id) && p.track_id@ == id@
    &&& p.file_stem@ == planned_stem(tracks[p.index as int], p.index)
}

/// A planned track is saved under its catalog number when the catalog
/// gives one (so a second disc that starts again at 1 gives `01. ...`), and
/// under its position counted from one only when it gives none; the number
/// has two digits at least and is followed by `. ` and the title, or
/// `Track {id}` without one.
pub proof fn lemma_planned_file_stem(tracks: Seq<AlbumTrack>, p: PlannedTrack)
    requires
        plans_track(tracks, p),
    ensures
        ({
            let t = tracks[p.index as int];
            let title = match t.title {
                Some(x) => x@,
                None => "Track "@ + p.track_id@,
            };
            match t.track_number {
                Some(n) => p.file_stem@ == int_decimal_pad2(n as int) + ". "@ + title,
                None => p.file_stem@ == int_decimal_pad2(((p.index + 1) as usize) as i32 as int) + ". "@ + title,
            }
        }),
{
}

/// The tracks an album download fetches, in album order: every track that
/// has an ID, with the file name it is saved under; tracks without an ID
/// are skipped.
pub fn album_track_plan(tracks: &Vec<AlbumTrack>) -> (plan: Vec<PlannedTrack>)
    ensures
        forall|k: int| 0 <= k < plan@.len() ==> plans_track(tracks@, #[trigger] plan@[k]),
        forall|a: int, b: int| 0 <= a < b < plan@.len() ==> #[trigger] plan@[a].index < #[trigger] plan@[b].index,
        forall|j: int| 0 <= j < tracks@.len() && (#[trigger] tracks@[j]).id is Some ==> exists|k: int|
            0 <= k < plan@.len() && #[trigger] plan@[k].index == j,
{
    let mut plan: Vec<PlannedTrack> = Vec::new();
    let mut i: usize = 0;
    while i < tracks.len()
        invariant
            i <= tracks@.len(),
            forall|k: int| 0 <= k < plan@.len() ==> plans_track(tracks@, #[trigger] plan@[k]) && plan@[k].index < i,
            forall|a: int, b: int| 0 <= a < b < plan@.len() ==> #[trigger] plan@[a].index < #[trigger] plan@[b].index,
            forall|j: int| 0 <= j < i && (#[trigger] tracks@[j]).id is Some ==> exists|k: int|
                0 <= k < plan@.len() && #[trigger] plan@[k].index == j,
        decreases tracks@.len() - i,
    {
        let t = &tracks[i];
        if let Some(id) = &t.id {
            let number = track_number_or_position(t.track_number, i);
            let title = track_title_or_default(copy_opt_string(&t.title), id.as_str());
            let stem = track_file_stem(number, title.as_str());
            let entry = PlannedTrack { index: i, track_id: string_of(&chars_of(id.as_str())), file_stem: stem };
            let ghost before = plan@;
            plan.push(entry);
            proof {
                assert(plan@[before.len() as int].index == i);
                assert forall|j: int| 0 <= j < i + 1 && (#[trigger] tracks@[j]).id is Some implies exists|k: int|
                    0 <= k < plan@.len() && #[trigger] plan@[k].index == j by {
                    if j < i {
                        let k = choose|k: int| 0 <= k < before.len() && #[trigger] before[k].index == j;
                        assert(plan@[k] == before[k]);
                    } else {
                        assert(plan@[before.len() as int].index == j);
                    }
                }
            }
        } else {
            proof {
                assert forall|j: int| 0 <= j < i + 1 && (#[trigger] tracks@[j]).id is Some implies exists|k: int|
                    0 <= k < plan@.len() && #[trigger] plan@[k].index == j by {
                    if j == i {
                        assert(tracks@[j].id is None);
                    }
                }
            }
        }
        i = i + 1;
    }
    plan
}

/// The error of a download that the user cancelled.
pub fn cancelled_by_user() -> (m: String)
    ensures
        m@ == "Download cancelled by user"@,
{
    String::from_str("Download cancelled by user")
}


/// Checks that a download can start: the user is logged in and the API
/// service holds an app ID and secret; the message to show otherwise.
pub fn check_download_ready(logged_in: bool, app_id: &str, app_secret: &str) -> (r: Result<(), &'static str>)
    ensures
        !logged_in ==> (r matches Err(m) && m@ == "Not authenticated. Please log in first."@),
        logged_in && (app_id@.len() == 0 || app_secret@.len() == 0) ==> (r matches Err(m) && m@
            == "Invalid API credentials. Please log in again."@),
        logged_in && app_id@.len() > 0 && app_secret@.len() > 0 ==> r is Ok,
{
    if !logged_in {
        Err("Not authenticated. Please log in first.")
    } else if app_id.is_empty() || app_secret.is_empty() {
        Err("Invalid API credentials. Please log in again.")
    } else {
        Ok(())
    }
}

/// Checks that an album came with its track list: the error when the album
/// has no track data, or track data without items.
pub fn check_album_tracks(has_track_data: bool, has_items: bool) -> (r: Result<(), String>)
    ensures
        !has_track_data ==> (r matches Err(m) && m@ == "No tracks data in album"@),
        has_track_data && !has_items ==> (r matches Err(m) && m@ == "No tracks found in album"@),
        has_track_data && has_items ==> r is Ok,
{
    if !has_track_data {
        Err(String::from_str("No tracks data in album"))
    } else if !has_items {
        Err(String::from_str("No tracks found in album"))
    } else {
        Ok(())
    }
}

/// The error of a single track that could not be downloaded:
/// `Failed to download track {title}: {error}`, the title being
/// `Track {track_id}` when the API gave none.
pub fn track_failure_message(title: Option<String>, track_id: &str, error: &str) -> (m: String)
    ensures
        m@ == "Failed to download track "@ + or_default(opt_chars(title), "Track "@ + track_id@)
            + ": "@ + error@,
{
    let t = track_title_or_default(title, track_id);
    let mut v = chars_of("Failed to download track ");
    extend_chars(&mut v, &chars_of(t.as_str()));
    extend_chars(&mut v, &chars_of(": "));
    extend_chars(&mut v, &chars_of(error));
    string_of(&v)
}
} // verus!
