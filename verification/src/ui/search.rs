//! The search page's scope selector, the cleaning of result text, and the
//! text rows in which the page lists its results.

use vstd::prelude::*;

use crate::text::{
    chars_eq, chars_of, duration_chars, duration_text, extend_chars, has_char, i64_decimal,
    int_decimal, is_digit, join, join_chars, lemma_decimal_parses_back, lemma_has_char_concat,
    lemma_join_starts_with_first, lemma_nat_decimal_digits, lemma_splitn_join,
    nat_decimal, parse_unsigned, replace_all, replace_all_chars, slice_chars, splitn, splitn_chars,
    starts_with, starts_with_chars, string_of, trim, trim_chars, u64_decimal, unsigned_from_str, views,
};
use crate::ui::main_window::{timestamp_year, year_of_timestamp};

verus! {

/// Search scope for filtering results by content type.
#[derive(Debug, Clone, Copy, PartialEq, Eq, Structural)]
pub enum SearchScope {
    /// Search across all content types (albums and tracks).
    All,
    /// Search only for albums.
    Albums,
    /// Search only for tracks.
    Tracks,
}

impl SearchScope {
    /// Converts the search scope to the corresponding Qobuz API query
    /// parameter: none for all, `albums` or `tracks`.
    pub fn to_api_query(self) -> (r: Option<&'static str>)
        ensures
            match self {
                SearchScope::All => r is None,
                SearchScope::Albums => r matches Some(q) && q@ == "albums"@,
                SearchScope::Tracks => r matches Some(q) && q@ == "tracks"@,
            },
    {
        match self {
            SearchScope::All => None,
            SearchScope::Albums => Some("albums"),
            SearchScope::Tracks => Some("tracks"),
        }
    }

    /// The scope at a position of the scope dropdown; other positions mean
    /// all.
    pub fn from_index(index: u32) -> (s: Self)
        ensures
            s == if index == 1 {
                SearchScope::Albums
            } else if index == 2 {
                SearchScope::Tracks
            } else {
                SearchScope::All
            },
    {
        match index {
            0 => SearchScope::All,
            1 => SearchScope::Albums,
            2 => SearchScope::Tracks,
            _ => SearchScope::All,
        }
    }
}

/// Formats a duration in seconds as `M:SS`.
pub fn format_duration(seconds: i64) -> (s: String)
    ensures
        s@ == duration_text(seconds as int),
{
    string_of(&duration_chars(seconds))
}

/// The text with common HTML entities decoded and `|` turned into ` - `.
pub open spec fn unescaped(text: Seq<char>) -> Seq<char> {
    let s = replace_all(text, "&amp;"@, "&"@);
    let s = replace_all(s, "&lt;"@, "<"@);
    let s = replace_all(s, "&gt;"@, ">"@);
    let s = replace_all(s, "&quot;"@, "\""@);
    let s = replace_all(s, "&#039;"@, "'"@);
    let s = replace_all(s, "&#39;"@, "'"@);
    replace_all(s, "|"@, " - "@)
}

/// `s` with every `p` replaced by `r`.
fn replace_lit(s: &[char], p: &str, r: &str) -> (out: Vec<char>)
    ensures
        out@ == replace_all(s@, p@, r@),
{
    let pv = chars_of(p);
    let rv = chars_of(r);
    replace_all_chars(s, &pv, &rv)
}

/// Decodes common HTML entities found in Qobuz API responses to plain text,
/// and replaces pipe characters with ` - `.
pub fn unescape_html(text: &str) -> (r: String)
    ensures
        r@ == unescaped(text@),
{
    let s = chars_of(text);
    let s = replace_lit(&s, "&amp;", "&");
    let s = replace_lit(&s, "&lt;", "<");
    let s = replace_lit(&s, "&gt;", ">");
    let s = replace_lit(&s, "&quot;", "\"");
    let s = replace_lit(&s, "&#039;", "'");
    let s = replace_lit(&s, "&#39;", "'");
    let s = replace_lit(&s, "|", " - ");
    string_of(&s)
}


/// What the search page does when a search is asked for.
pub enum SearchStart {
    /// A blank query: the results are cleared and `Enter a search query`
    /// is shown.
    EmptyQuery,
    /// A search is already running: the request is ignored.
    AlreadyLoading,
    /// The search starts: the page is marked as loading and the toast with
    /// this text is shown until the results arrive.
    Start(String),
}

/// The name of a scope in the loading toast.
pub open spec fn scope_name(scope: SearchScope) -> Seq<char> {
    match scope {
        SearchScope::All => "All"@,
        SearchScope::Albums => "Albums"@,
        SearchScope::Tracks => "Tracks"@,
    }
}

/// Decides what a search request does: a blank query clears the results,
/// a request while a search runs is ignored, and otherwise the search
/// starts with the toast `Searching {scope}...`.
pub fn search_start(query: &str, is_loading: bool, scope: SearchScope) -> (r: SearchStart)
    ensures
        trim(query@).len() == 0 ==> r is EmptyQuery,
        trim(query@).len() > 0 && is_loading ==> r is AlreadyLoading,
        trim(query@).len() > 0 && !is_loading ==> (r matches SearchStart::Start(t) && t@
            == "Searching "@ + scope_name(scope) + "..."@),
{
    if trim_chars(&chars_of(query)).len() == 0 {
        return SearchStart::EmptyQuery;
    }
    if is_loading {
        return SearchStart::AlreadyLoading;
    }
    let name = match scope {
        SearchScope::All => "All",
        SearchScope::Albums => "Albums",
        SearchScope::Tracks => "Tracks",
    };
    let mut v = chars_of("Searching ");
    extend_chars(&mut v, &chars_of(name));
    extend_chars(&mut v, &chars_of("..."));
    SearchStart::Start(string_of(&v))
}

// ---------------------------------------------------------------------------
// Result rows
// ---------------------------------------------------------------------------

/// One search result as the search page lists it. The page keeps each row
/// as one line of text (`ALBUM:` or `TRACK:`, then `|`-separated fields)
/// and reads the fields back when it shows the row. The sampling rate comes
/// formatted with one decimal by the caller.
pub enum ResultRow {
    /// An album.
    Album {
        /// Album ID.
        id: String,
        /// Album title.
        title: String,
        /// Artist name.
        artist: String,
        /// Release year text.
        year: String,
        /// Duration text.
        duration: String,
        /// Cover URL, or empty.
        image_url: String,
        /// Maximum bit depth, 0 when unknown.
        bit_depth: u32,
        /// Maximum sampling rate in kHz, as text.
        sampling_rate: String,
        /// Number of tracks.
        track_count: usize,
    },
    /// A track.
    Track {
        /// Track ID.
        id: i32,
        /// Track title.
        title: String,
        /// Performer name.
        artist: String,
        /// Album title.
        album: String,
        /// Duration text.
        duration: String,
        /// Cover URL, or empty.
        image_url: String,
        /// Maximum bit depth, 0 when unknown.
        bit_depth: u32,
        /// Maximum sampling rate in kHz, as text.
        sampling_rate: String,
    },
}

/// The fields the search page reads back from a row.
pub struct RowFields {
    /// Album or track ID.
    pub id: String,
    /// Title.
    pub title: String,
    /// Artist or performer name.
    pub artist: String,
    /// Release year of an album, album title of a track.
    pub extra_info: String,
    /// Cover URL, or empty.
    pub image_url: String,
    /// Whether the row is a track.
    pub is_track: bool,
    /// Maximum bit depth, 0 when unreadable.
    pub bit_depth: u32,
    /// Maximum sampling rate in kHz, as text.
    pub sampling_rate: String,
    /// Number of tracks of an album, 0 for a track or when unreadable.
    pub track_count: usize,
}

/// The fields of a row, as sequences.
pub ghost struct RowFieldsView {
    /// Album or track ID.
    pub id: Seq<char>,
    /// Title.
    pub title: Seq<char>,
    /// Artist or performer name.
    pub artist: Seq<char>,
    /// Release year of an album, album title of a track.
    pub extra_info: Seq<char>,
    /// Cover URL, or empty.
    pub image_url: Seq<char>,
    /// Whether the row is a track.
    pub is_track: bool,
    /// Maximum bit depth.
    pub bit_depth: u32,
    /// Maximum sampling rate in kHz, as text.
    pub sampling_rate: Seq<char>,
    /// Number of tracks.
    pub track_count: usize,
}

impl RowFields {
    /// The fields, as sequences.
    pub open spec fn view(&self) -> RowFieldsView {
        RowFieldsView {
            id: self.id@,
            title: self.title@,
            artist: self.artist@,
            extra_info: self.extra_info@,
            image_url: self.image_url@,
            is_track: self.is_track,
            bit_depth: self.bit_depth,
            sampling_rate: self.sampling_rate@,
            track_count: self.track_count,
        }
    }
}

/// The fields of a row, in the order they are written.
pub open spec fn row_parts(row: ResultRow) -> Seq<Seq<char>> {
    match row {
        ResultRow::Album {
            id,
            title,
            artist,
            year,
            duration,
            image_url,
            bit_depth,
            sampling_rate,
            track_count,
        } => seq![
            "ALBUM:"@ + id@,
            title@,
            artist@,
            year@,
            duration@,
            image_url@,
            nat_decimal(bit_depth as nat),
            sampling_rate@,
            nat_decimal(track_count as nat),
        ],
        ResultRow::Track {
            id,
            title,
            artist,
            album,
            duration,
            image_url,
            bit_depth,
            sampling_rate,
        } => seq![
            "TRACK:"@ + int_decimal(id as int),
            title@,
            artist@,
            album@,
            duration@,
            image_url@,
            nat_decimal(bit_depth as nat),
            sampling_rate@,
        ],
    }
}

/// The text of a row: its fields joined with `|`.
pub open spec fn row_text(row: ResultRow) -> Seq<char> {
    join(row_parts(row), seq!['|'])
}

/// The number a field holds, or 0 when it holds none that fits.
pub open spec fn number_or_zero(s: Seq<char>, max: int) -> int {
    match unsigned_from_str(s, max) {
        Some(v) => v,
        None => 0,
    }
}

/// `s` without the prefix `p`, or nothing when `s` does not start with it.
pub open spec fn strip_prefix_or_empty(s: Seq<char>, p: Seq<char>) -> Seq<char> {
    if starts_with(s, p) {
        s.subrange(p.len() as int, s.len() as int)
    } else {
        Seq::empty()
    }
}

/// The fields the search page reads from a row's text: album rows have nine
/// `|`-separated fields, track rows eight; anything else is passed over.
pub open spec fn parsed_row(data: Seq<char>) -> Option<RowFieldsView> {
    if starts_with(data, "ALBUM:"@) {
        let parts = splitn(data, 9, '|');
        if parts.len() < 9 {
            None
        } else {
            Some(
                RowFieldsView {
                    id: strip_prefix_or_empty(parts[0], "ALBUM:"@),
                    title: parts[1],
                    artist: parts[2],
                    extra_info: parts[3],
                    image_url: parts[5],
                    is_track: false,
                    bit_depth: number_or_zero(parts[6], u32::MAX as int) as u32,
                    sampling_rate: parts[7],
                    track_count: number_or_zero(parts[8], usize::MAX as int) as usize,
                },
            )
        }
    } else if starts_with(data, "TRACK:"@) {
        let parts = splitn(data, 8, '|');
        if parts.len() < 8 {
            None
        } else {
            Some(
                RowFieldsView {
                    id: strip_prefix_or_empty(parts[0], "TRACK:"@),
                    title: parts[1],
                    artist: parts[2],
                    extra_info: parts[3],
                    image_url: parts[5],
                    is_track: true,
                    bit_depth: number_or_zero(parts[6], u32::MAX as int) as u32,
                    sampling_rate: parts[7],
                    track_count: 0,
                },
            )
        }
    } else {
        None
    }
}

/// `tag` followed by `rest`.
fn tagged(tag: &str, rest: &[char]) -> (v: Vec<char>)
    ensures
        v@ == tag@ + rest@,
{
    let mut v = chars_of(tag);
    extend_chars(&mut v, rest);
    v
}

/// The text of a search result row.
pub fn encode_result_row(row: &ResultRow) -> (r: String)
    ensures
        r@ == row_text(*row),
{
    let mut parts: Vec<Vec<char>> = Vec::new();
    match row {
        ResultRow::Album {
            id,
            title,
            artist,
            year,
            duration,
            image_url,
            bit_depth,
            sampling_rate,
            track_count,
        } => {
            parts.push(tagged("ALBUM:", &chars_of(id.as_str())));
            parts.push(chars_of(title.as_str()));
            parts.push(chars_of(artist.as_str()));
            parts.push(chars_of(year.as_str()));
            parts.push(chars_of(duration.as_str()));
            parts.push(chars_of(image_url.as_str()));
            parts.push(u64_decimal(*bit_depth as u64));
            parts.push(chars_of(sampling_rate.as_str()));
            parts.push(u64_decimal(*track_count as u64));
        },
        ResultRow::Track {
            id,
            title,
            artist,
            album,
            duration,
            image_url,
            bit_depth,
            sampling_rate,
        } => {
            parts.push(tagged("TRACK:", &i64_decimal(*id as i64)));
            parts.push(chars_of(title.as_str()));
            parts.push(chars_of(artist.as_str()));
            parts.push(chars_of(album.as_str()));
            parts.push(chars_of(duration.as_str()));
            parts.push(chars_of(image_url.as_str()));
            parts.push(u64_decimal(*bit_depth as u64));
            parts.push(chars_of(sampling_rate.as_str()));
        },
    }
    assert(views(parts@) =~= row_parts(*row));
    let bar = chars_of("|");
    proof {
        reveal_strlit("|");
        assert(bar@ =~= seq!['|']);
    }
    string_of(&join_chars(&parts, &bar))
}

/// The number a field holds, or 0.
fn number_or_zero_of(s: &[char], max: u64) -> (n: u64)
    ensures
        n as int == number_or_zero(s@, max as int),
{
    match parse_unsigned(s, max) {
        Some(v) => v,
        None => 0,
    }
}

/// `s` without the prefix `p`, or nothing when `s` does not start with it.
fn strip_prefix_chars(s: &[char], p: &str) -> (t: Vec<char>)
    ensures
        t@ == strip_prefix_or_empty(s@, p@),
{
    let pv = chars_of(p);
    if starts_with_chars(s, &pv) {
        slice_chars(s, pv.len(), s.len())
    } else {
        Vec::new()
    }
}

/// Reads the fields of a search result row back from its text; `None` for
/// text that is not a complete album or track row.
pub fn parse_result_row(data: &str) -> (r: Option<RowFields>)
    ensures
        match r {
            Some(f) => parsed_row(data@) == Some(f@),
            None => parsed_row(data@) is None,
        },
{
    let d = chars_of(data);
    let is_album = starts_with_chars(&d, &chars_of("ALBUM:"));
    let is_track = !is_album && starts_with_chars(&d, &chars_of("TRACK:"));
    if !is_album && !is_track {
        return None;
    }
    let n: usize = if is_album { 9 } else { 8 };
    let parts = splitn_chars(&d, n, '|');
    if parts.len() < n {
        return None;
    }
    let id = if is_album {
        strip_prefix_chars(&parts[0], "ALBUM:")
    } else {
        strip_prefix_chars(&parts[0], "TRACK:")
    };
    let bit_depth = number_or_zero_of(&parts[6], 0xffff_ffffu64) as u32;
    let track_count: usize = if is_album {
        number_or_zero_of(&parts[8], usize::MAX as u64) as usize
    } else {
        0
    };
    Some(
        RowFields {
            id: string_of(&id),
            title: string_of(&parts[1]),
            artist: string_of(&parts[2]),
            extra_info: string_of(&parts[3]),
            image_url: string_of(&parts[5]),
            is_track,
            bit_depth,
            sampling_rate: string_of(&parts[7]),
            track_count,
        },
    )
}

/// The fields a row reads back as.
pub open spec fn row_fields(row: ResultRow) -> RowFieldsView {
    match row {
        ResultRow::Album {
            id,
            title,
            artist,
            year,
            duration,
            image_url,
            bit_depth,
            sampling_rate,
            track_count,
        } => RowFieldsView {
            id: id@,
            title: title@,
            artist: artist@,
            extra_info: year@,
            image_url: image_url@,
            is_track: false,
            bit_depth,
            sampling_rate: sampling_rate@,
            track_count,
        },
        ResultRow::Track {
            id,
            title,
            artist,
            album,
            duration,
            image_url,
            bit_depth,
            sampling_rate,
        } => RowFieldsView {
            id: int_decimal(id as int),
            title: title@,
            artist: artist@,
            extra_info: album@,
            image_url: image_url@,
            is_track: true,
            bit_depth,
            sampling_rate: sampling_rate@,
            track_count: 0,
        },
    }
}

/// No text field of the row holds the separator `|`.
pub open spec fn row_fields_unbarred(row: ResultRow) -> bool {
    match row {
        ResultRow::Album { id, title, artist, year, duration, image_url, sampling_rate, .. } => {
            &&& !has_char(id@, '|')
            &&& !has_char(title@, '|')
            &&& !has_char(artist@, '|')
            &&& !has_char(year@, '|')
            &&& !has_char(duration@, '|')
            &&& !has_char(image_url@, '|')
            &&& !has_char(sampling_rate@, '|')
        },
        ResultRow::Track { title, artist, album, duration, image_url, sampling_rate, .. } => {
            &&& !has_char(title@, '|')
            &&& !has_char(artist@, '|')
            &&& !has_char(album@, '|')
            &&& !has_char(duration@, '|')
            &&& !has_char(image_url@, '|')
            &&& !has_char(sampling_rate@, '|')
        },
    }
}

/// A decimal rendering holds no `|`.
proof fn lemma_decimal_unbarred(n: nat)
    ensures
        !has_char(nat_decimal(n), '|'),
{
    lemma_nat_decimal_digits(n);
    if has_char(nat_decimal(n), '|') {
        let i = choose|i: int| 0 <= i < nat_decimal(n).len() && nat_decimal(n)[i] == '|';
        assert(is_digit(nat_decimal(n)[i]));
    }
}

/// Reading a row back from its text gives the row's fields, when no text
/// field holds the separator `|` (titles and names are shown through
/// `unescape_html`, which leaves none).
pub proof fn lemma_row_round_trip(row: ResultRow)
    requires
        row_fields_unbarred(row),
    ensures
        parsed_row(row_text(row)) == Some(row_fields(row)),
{
    reveal_strlit("ALBUM:");
    reveal_strlit("TRACK:");
    reveal_strlit("-");
    let ps = row_parts(row);
    let text = row_text(row);
    assert(!has_char("ALBUM:"@, '|'));
    assert(!has_char("TRACK:"@, '|'));
    match row {
        ResultRow::Album { id, bit_depth, track_count, .. } => {
            lemma_has_char_concat("ALBUM:"@, id@, '|');
            lemma_decimal_unbarred(bit_depth as nat);
            lemma_decimal_unbarred(track_count as nat);
            lemma_decimal_parses_back(bit_depth as nat, u32::MAX as int);
            lemma_decimal_parses_back(track_count as nat, usize::MAX as int);
        },
        ResultRow::Track { id, bit_depth, .. } => {
            lemma_decimal_unbarred(bit_depth as nat);
            lemma_decimal_parses_back(bit_depth as nat, u32::MAX as int);
            let d = int_decimal(id as int);
            if id < 0 {
                lemma_decimal_unbarred((-id) as nat);
                lemma_has_char_concat(seq!['-'], nat_decimal((-id) as nat), '|');
                assert(!has_char(seq!['-'], '|'));
            } else {
                lemma_decimal_unbarred(id as nat);
            }
            assert(!has_char(d, '|'));
            lemma_has_char_concat("TRACK:"@, d, '|');
        },
    }
    assert forall|i: int| 0 <= i < ps.len() - 1 implies !has_char(#[trigger] ps[i], '|') by {}
    lemma_splitn_join(ps, '|');
    lemma_join_starts_with_first(ps, seq!['|']);
    match row {
        ResultRow::Album { id, .. } => {
            assert(starts_with(ps[0], "ALBUM:"@)) by {
                assert(ps[0].subrange(0, 6) =~= "ALBUM:"@);
            }
            assert(text.subrange(0, 6) =~= ps[0].subrange(0, 6));
            assert(starts_with(text, "ALBUM:"@));
            assert(ps[0].subrange(6, ps[0].len() as int) =~= id@);
        },
        ResultRow::Track { .. } => {
            assert(ps[0][0] == 'T');
            assert(text[0] == 'T');
            assert(!starts_with(text, "ALBUM:"@)) by {
                if starts_with(text, "ALBUM:"@) {
                    assert(text.subrange(0, 6)[0] == 'A');
                }
            }
            assert(starts_with(ps[0], "TRACK:"@)) by {
                assert(ps[0].subrange(0, 6) =~= "TRACK:"@);
            }
            assert(text.subrange(0, 6) =~= ps[0].subrange(0, 6));
            assert(starts_with(text, "TRACK:"@));
            assert(ps[0].subrange(6, ps[0].len() as int) =~= int_decimal(row->Track_id as int));
        },
    }
}

/// Replacing every `|` leaves none.
proof fn lemma_no_bar_after_replace(s: Seq<char>)
    ensures
        !has_char(replace_all(s, "|"@, " - "@), '|'),
    decreases s.len(),
{
    reveal_strlit("|");
    reveal_strlit(" - ");
    assert(!has_char(" - "@, '|'));
    if s.len() >= 1 {
        if s.subrange(0, 1) == "|"@ {
            lemma_no_bar_after_replace(s.subrange(1, s.len() as int));
            lemma_has_char_concat(" - "@, replace_all(s.subrange(1, s.len() as int), "|"@, " - "@), '|');
        } else {
            assert(s[0] != '|') by {
                if s[0] == '|' {
                    assert(s.subrange(0, 1) =~= "|"@);
                }
            }
            assert(!has_char(seq![s[0]], '|'));
            lemma_no_bar_after_replace(s.drop_first());
            lemma_has_char_concat(seq![s[0]], replace_all(s.drop_first(), "|"@, " - "@), '|');
        }
    } else {
        assert(s.len() == 0);
    }
}

/// Cleaned result text holds no `|`, so it can stand in a result row.
pub proof fn lemma_unescaped_has_no_bar(text: Seq<char>)
    ensures
        !has_char(unescaped(text), '|'),
{
    let s = replace_all(text, "&amp;"@, "&"@);
    let s = replace_all(s, "&lt;"@, "<"@);
    let s = replace_all(s, "&gt;"@, ">"@);
    let s = replace_all(s, "&quot;"@, "\""@);
    let s = replace_all(s, "&#039;"@, "'"@);
    let s = replace_all(s, "&#39;"@, "'"@);
    lemma_no_bar_after_replace(s);
}

/// The cleaned name, or `default` when absent.
pub open spec fn cleaned_text_or(name: Option<&str>, default: Seq<char>) -> Seq<char> {
    match name {
        Some(n) => unescaped(n@),
        None => default,
    }
}

/// The cleaned name, or `default` when absent.
fn cleaned_or(name: Option<&str>, default: &str) -> (r: String)
    ensures
        r@ == cleaned_text_or(name, default@),
{
    match name {
        Some(n) => unescape_html(n),
        None => String::from_str(default),
    }
}

/// The duration text of a result: `M:SS`, or `Unknown`.
fn duration_or_unknown(duration: Option<i64>) -> (r: String)
    ensures
        r@ == match duration {
            Some(d) => duration_text(d as int),
            None => "Unknown"@,
        },
{
    match duration {
        Some(d) => format_duration(d),
        None => String::from_str("Unknown"),
    }
}

/// A bit depth as the page keeps it: the API's value, or 0 when unknown.
pub open spec fn bit_depth_or_zero(bit_depth: Option<i32>) -> u32 {
    match bit_depth {
        Some(v) => v as u32,
        None => 0,
    }
}

/// The release year text of an album result: the year of its release
/// timestamp, or `Unknown`.
pub open spec fn year_text_or_unknown(released_at: Option<i64>) -> Seq<char> {
    match released_at {
        Some(ts) => int_decimal(timestamp_year(ts as int)),
        None => "Unknown"@,
    }
}

/// The row of an album result: the title and artist cleaned (`Unknown
/// Artist` without one), the release year and duration or `Unknown`, and
/// the bit depth or 0.
pub fn album_result_row(
    id: String,
    title: &str,
    artist_name: Option<&str>,
    released_at: Option<i64>,
    duration: Option<i64>,
    image_url: String,
    bit_depth: Option<i32>,
    sampling_rate: String,
    track_count: usize,
) -> (row: ResultRow)
    ensures
        row matches ResultRow::Album { id: i, title: t, artist: a, year: y, duration: d,
            image_url: u, bit_depth: b, sampling_rate: s, track_count: n }
            && i@ == id@ && t@ == unescaped(title@)
            && a@ == cleaned_text_or(artist_name, "Unknown Artist"@)
            && y@ == year_text_or_unknown(released_at)
            && d@ == (match duration { Some(x) => duration_text(x as int), None => "Unknown"@ })
            && u@ == image_url@ && b == bit_depth_or_zero(bit_depth) && s@ == sampling_rate@
            && n == track_count,
{
    let year = match released_at {
        Some(ts) => string_of(&i64_decimal(year_of_timestamp(ts))),
        None => String::from_str("Unknown"),
    };
    let bits: u32 = match bit_depth {
        Some(v) => v as u32,
        None => 0,
    };
    ResultRow::Album {
        id,
        title: unescape_html(title),
        artist: cleaned_or(artist_name, "Unknown Artist"),
        year,
        duration: duration_or_unknown(duration),
        image_url,
        bit_depth: bits,
        sampling_rate,
        track_count,
    }
}

/// The row of a track result: the title, performer (`Unknown Artist`
/// without one) and album title (`Unknown Album` without one) cleaned, the
/// duration or `Unknown`, and the bit depth or 0.
pub fn track_result_row(
    id: i32,
    title: &str,
    performer_name: Option<&str>,
    album_title: Option<&str>,
    duration: Option<i64>,
    image_url: String,
    bit_depth: Option<i32>,
    sampling_rate: String,
) -> (row: ResultRow)
    ensures
        row matches ResultRow::Track { id: i, title: t, artist: a, album: al, duration: d,
            image_url: u, bit_depth: b, sampling_rate: s }
            && i == id && t@ == unescaped(title@)
            && a@ == cleaned_text_or(performer_name, "Unknown Artist"@)
            && al@ == cleaned_text_or(album_title, "Unknown Album"@)
            && d@ == (match duration { Some(x) => duration_text(x as int), None => "Unknown"@ })
            && u@ == image_url@ && b == bit_depth_or_zero(bit_depth) && s@ == sampling_rate@,
{
    let bits: u32 = match bit_depth {
        Some(v) => v as u32,
        None => 0,
    };
    ResultRow::Track {
        id,
        title: unescape_html(title),
        artist: cleaned_or(performer_name, "Unknown Artist"),
        album: cleaned_or(album_title, "Unknown Album"),
        duration: duration_or_unknown(duration),
        image_url,
        bit_depth: bits,
        sampling_rate,
    }
}

/// The subtitle shown under a row's title: the artist, the release year or
/// album, `N tracks` for an album with tracks, and the quality text when
/// known, joined with ` • `.
pub open spec fn row_subtitle_text(f: RowFieldsView, quality: Seq<char>) -> Seq<char> {
    let base = seq![f.artist, f.extra_info];
    let with_count = if !f.is_track && f.track_count > 0 {
        base.push(nat_decimal(f.track_count as nat) + " tracks"@)
    } else {
        base
    };
    let all = if quality.len() > 0 {
        with_count.push(quality)
    } else {
        with_count
    };
    join(all, " • "@)
}

/// The subtitle of a row read back from its text; the quality text
/// (`24-bit/96kHz`, or empty) comes formatted from the sampling rate by the
/// caller.
pub fn row_subtitle(fields: &RowFields, quality: &str) -> (r: String)
    ensures
        r@ == row_subtitle_text(fields@, quality@),
{
    let mut parts: Vec<Vec<char>> = Vec::new();
    parts.push(chars_of(fields.artist.as_str()));
    parts.push(chars_of(fields.extra_info.as_str()));
    let ghost p0 = views(parts@);
    assert(p0 =~= seq![fields.artist@, fields.extra_info@]);
    if !fields.is_track && fields.track_count > 0 {
        let mut t = u64_decimal(fields.track_count as u64);
        extend_chars(&mut t, &chars_of(" tracks"));
        parts.push(t);
    }
    let ghost p1 = views(parts@);
    assert(p1 =~= if !fields.is_track && fields.track_count > 0 {
        p0.push(nat_decimal(fields.track_count as nat) + " tracks"@)
    } else {
        p0
    });
    if !quality.is_empty() {
        parts.push(chars_of(quality));
        assert(views(parts@) =~= p1.push(quality@));
    }
    string_of(&join_chars(&parts, &chars_of(" • ")))
}

/// The download a row's button starts: the track or the album with the
/// row's ID.
pub fn row_download_type(fields: &RowFields) -> (d: crate::ui::main_window::DownloadType)
    ensures
        d@ == if fields.is_track {
            crate::ui::main_window::DownloadTypeView::Track(fields.id@)
        } else {
            crate::ui::main_window::DownloadTypeView::Album(fields.id@)
        },
{
    if fields.is_track {
        crate::ui::main_window::DownloadType::Track(fields.id.clone())
    } else {
        crate::ui::main_window::DownloadType::Album(fields.id.clone())
    }
}

// ---------------------------------------------------------------------------
// The list of results
// ---------------------------------------------------------------------------

/// An album of a search response, with what its row needs.
pub struct AlbumHit {
    /// Album ID.
    pub id: Option<String>,
    /// Album title.
    pub title: Option<String>,
    /// Artist name.
    pub artist_name: Option<String>,
    /// Release time (Unix timestamp).
    pub released_at: Option<i64>,
    /// Duration in seconds.
    pub duration: Option<i64>,
    /// Cover URL (see `largest_image_url`), or empty.
    pub image_url: String,
    /// Maximum bit depth.
    pub bit_depth: Option<i32>,
    /// Maximum sampling rate in kHz, formatted with one decimal.
    pub sampling_rate: String,
    /// Number of tracks listed.
    pub track_count: usize,
}

/// A track of a search response, with what its row needs.
pub struct TrackHit {
    /// Track ID.
    pub id: Option<i32>,
    /// Track title.
    pub title: Option<String>,
    /// Performer name.
    pub performer_name: Option<String>,
    /// Album title.
    pub album_title: Option<String>,
    /// Duration in seconds.
    pub duration: Option<i64>,
    /// Cover URL (see `largest_image_url`), or empty.
    pub image_url: String,
    /// Maximum bit depth.
    pub bit_depth: Option<i32>,
    /// Maximum sampling rate in kHz, formatted with one decimal.
    pub sampling_rate: String,
}

/// The cover of a result: the first image present among the extra-large,
/// large, medium, small, thumbnail and back images, or empty.
pub open spec fn largest_image(sizes: Seq<Option<String>>) -> Seq<char>
    decreases sizes.len(),
{
    if sizes.len() == 0 {
        Seq::empty()
    } else {
        match sizes[0] {
            Some(u) => u@,
            None => largest_image(sizes.drop_first()),
        }
    }
}

/// The cover URL of a result row, given its image sizes from the largest
/// (extra-large, large, medium, small, thumbnail, back): the first present,
/// or empty when the result has none.
pub fn largest_image_url(sizes: &Vec<Option<String>>) -> (r: String)
    ensures
        r@ == largest_image(sizes@),
{
    let mut k: usize = 0;
    assert(sizes@.subrange(0, sizes@.len() as int) =~= sizes@);
    while k < sizes.len()
        invariant
            k <= sizes@.len(),
            largest_image(sizes@) == largest_image(sizes@.subrange(k as int, sizes@.len() as int)),
        decreases sizes@.len() - k,
    {
        let ghost rest = sizes@.subrange(k as int, sizes@.len() as int);
        assert(rest[0] == sizes@[k as int]);
        assert(rest.drop_first() =~= sizes@.subrange(k + 1, sizes@.len() as int));
        if let Some(u) = &sizes[k] {
            return string_of(&chars_of(u.as_str()));
        }
        k = k + 1;
    }
    String::new()
}

/// The cleaned name, or `default` when absent.
pub open spec fn cleaned_or_default(name: Option<String>, default: Seq<char>) -> Seq<char> {
    match name {
        Some(n) => unescaped(n@),
        None => default,
    }
}

/// The duration text of a result, or `Unknown`.
pub open spec fn duration_or_unknown_text(duration: Option<i64>) -> Seq<char> {
    match duration {
        Some(x) => duration_text(x as int),
        None => "Unknown"@,
    }
}

/// The fields of the row of a listed album.
pub open spec fn album_hit_parts(h: AlbumHit) -> Seq<Seq<char>> {
    seq![
        "ALBUM:"@ + h.id->0@,
        unescaped(h.title->0@),
        cleaned_or_default(h.artist_name, "Unknown Artist"@),
        year_text_or_unknown(h.released_at),
        duration_or_unknown_text(h.duration),
        h.image_url@,
        nat_decimal(bit_depth_or_zero(h.bit_depth) as nat),
        h.sampling_rate@,
        nat_decimal(h.track_count as nat),
    ]
}

/// The fields of the row of a listed track.
pub open spec fn track_hit_parts(h: TrackHit) -> Seq<Seq<char>> {
    seq![
        "TRACK:"@ + int_decimal(h.id->0 as int),
        unescaped(h.title->0@),
        cleaned_or_default(h.performer_name, "Unknown Artist"@),
        cleaned_or_default(h.album_title, "Unknown Album"@),
        duration_or_unknown_text(h.duration),
        h.image_url@,
        nat_decimal(bit_depth_or_zero(h.bit_depth) as nat),
        h.sampling_rate@,
    ]
}

/// The rows of the albums that have an ID and a title, in order.
pub open spec fn album_rows(hits: Seq<AlbumHit>) -> Seq<Seq<char>>
    decreases hits.len(),
{
    if hits.len() == 0 {
        Seq::empty()
    } else {
        let h = hits.last();
        let rest = album_rows(hits.drop_last());
        if h.id is Some && h.title is Some {
            rest.push(join(album_hit_parts(h), seq!['|']))
        } else {
            rest
        }
    }
}

/// The rows of the tracks that have an ID and a title, in order.
pub open spec fn track_rows(hits: Seq<TrackHit>) -> Seq<Seq<char>>
    decreases hits.len(),
{
    if hits.len() == 0 {
        Seq::empty()
    } else {
        let h = hits.last();
        let rest = track_rows(hits.drop_last());
        if h.id is Some && h.title is Some {
            rest.push(join(track_hit_parts(h), seq!['|']))
        } else {
            rest
        }
    }
}

/// The leading fields of a joined row: when `ps` has at least four parts,
/// the row starts with the first three, each followed by `|`.
proof fn lemma_row_starts_with(ps: Seq<Seq<char>>)
    requires
        ps.len() >= 4,
    ensures
        ({
            let prefix = ps[0] + seq!['|'] + ps[1] + seq!['|'] + ps[2] + seq!['|'];
            let row = join(ps, seq!['|']);
            row.len() >= prefix.len() && row.subrange(0, prefix.len() as int) == prefix
        }),
{
    let sep = seq!['|'];
    let q1 = ps.drop_first();
    let q2 = q1.drop_first();
    let q3 = q2.drop_first();
    assert(join(ps, sep) == ps[0] + sep + join(q1, sep));
    assert(join(q1, sep) == q1[0] + sep + join(q2, sep));
    assert(join(q2, sep) == q2[0] + sep + join(q3, sep));
    let prefix = ps[0] + sep + ps[1] + sep + ps[2] + sep;
    assert(join(ps, sep) =~= prefix + join(q3, sep));
    assert((prefix + join(q3, sep)).subrange(0, prefix.len() as int) =~= prefix);
}

/// One more track in a response adds one row when it has an ID and a
/// title, and none otherwise. The row added starts with `TRACK:` and the ID,
/// the cleaned title and then the cleaned performer name when the response
/// gives one, `Unknown Artist` only when it gives none.
pub proof fn lemma_track_row_names(hits: Seq<TrackHit>, h: TrackHit)
    ensures
        !(h.id is Some && h.title is Some) ==> track_rows(hits.push(h)) == track_rows(hits),
        h.id is Some && h.title is Some ==> {
            let artist = match h.performer_name {
                Some(n) => unescaped(n@),
                None => "Unknown Artist"@,
            };
            let prefix = "TRACK:"@ + int_decimal(h.id->0 as int) + seq!['|'] + unescaped(h.title->0@)
                + seq!['|'] + artist + seq!['|'];
            let rows = track_rows(hits.push(h));
            &&& rows.len() == track_rows(hits).len() + 1
            &&& rows.drop_last() == track_rows(hits)
            &&& rows.last().len() >= prefix.len()
            &&& rows.last().subrange(0, prefix.len() as int) == prefix
        },
{
    assert(hits.push(h).drop_last() =~= hits);
    assert(hits.push(h).last() == h);
    if h.id is Some && h.title is Some {
        assert(track_rows(hits.push(h)) == track_rows(hits).push(join(track_hit_parts(h), seq!['|'])));
        assert(track_rows(hits.push(h)).drop_last() =~= track_rows(hits));
        lemma_row_starts_with(track_hit_parts(h));
    }
}

/// One more album in a response adds one row when it has an ID and a
/// title, and none otherwise. The row added starts with `ALBUM:` and the ID,
/// the cleaned title and then the cleaned artist name when the response
/// gives one, `Unknown Artist` only when it gives none.
pub proof fn lemma_album_row_names(hits: Seq<AlbumHit>, h: AlbumHit)
    ensures
        !(h.id is Some && h.title is Some) ==> album_rows(hits.push(h)) == album_rows(hits),
        h.id is Some && h.title is Some ==> {
            let artist = match h.artist_name {
                Some(n) => unescaped(n@),
                None => "Unknown Artist"@,
            };
            let prefix = "ALBUM:"@ + h.id->0@ + seq!['|'] + unescaped(h.title->0@) + seq!['|'] + artist
                + seq!['|'];
            let rows = album_rows(hits.push(h));
            &&& rows.len() == album_rows(hits).len() + 1
            &&& rows.drop_last() == album_rows(hits)
            &&& rows.last().len() >= prefix.len()
            &&& rows.last().subrange(0, prefix.len() as int) == prefix
        },
{
    assert(hits.push(h).drop_last() =~= hits);
    assert(hits.push(h).last() == h);
    if h.id is Some && h.title is Some {
        assert(album_rows(hits.push(h)) == album_rows(hits).push(join(album_hit_parts(h), seq!['|'])));
        assert(album_rows(hits.push(h)).drop_last() =~= album_rows(hits));
        lemma_row_starts_with(album_hit_parts(h));
    }
}

/// The texts of a list of strings.
pub open spec fn string_views(v: Seq<String>) -> Seq<Seq<char>> {
    v.map_values(|s: String| s@)
}

/// An optional name, borrowed.
fn opt_as_str(name: &Option<String>) -> (r: Option<&str>)
    ensures
        match *name {
            Some(n) => r matches Some(m) && m@ == n@,
            None => r is None,
        },
{
    match name {
        Some(n) => Some(n.as_str()),
        None => None,
    }
}

/// The rows the search page lists for a response, replacing what it
/// listed before: one per album that has an ID and a title, then one per
/// track that has both, each in the response's order; the others are
/// passed over.
pub fn search_result_rows(albums: &Vec<AlbumHit>, tracks: &Vec<TrackHit>) -> (rows: Vec<String>)
    ensures
        string_views(rows@) == album_rows(albums@) + track_rows(tracks@),
{
    let mut rows: Vec<String> = Vec::new();
    let mut i: usize = 0;
    while i < albums.len()
        invariant
            i <= albums@.len(),
            string_views(rows@) == album_rows(albums@.take(i as int)),
        decreases albums@.len() - i,
    {
        let h = &albums[i];
        let ghost before = rows@;
        assert(albums@.take(i + 1).drop_last() =~= albums@.take(i as int));
        assert(albums@.take(i + 1).last() == *h);
        match (&h.id, &h.title) {
            (Some(id), Some(title)) => {
                let row = album_result_row(
                    string_of(&chars_of(id.as_str())),
                    title.as_str(),
                    opt_as_str(&h.artist_name),
                    h.released_at,
                    h.duration,
                    string_of(&chars_of(h.image_url.as_str())),
                    h.bit_depth,
                    string_of(&chars_of(h.sampling_rate.as_str())),
                    h.track_count,
                );
                let text = encode_result_row(&row);
                assert(row_parts(row) =~= album_hit_parts(*h));
                rows.push(text);
                assert(string_views(rows@) =~= string_views(before).push(text@));
            },
            _ => {},
        }
        i = i + 1;
    }
    assert(albums@.take(albums@.len() as int) =~= albums@);
    let ghost album_part = string_views(rows@);
    let mut j: usize = 0;
    assert(track_rows(tracks@.take(0)) =~= Seq::<Seq<char>>::empty());
    assert(album_part + Seq::<Seq<char>>::empty() =~= album_part);
    while j < tracks.len()
        invariant
            j <= tracks@.len(),
            string_views(rows@) == album_part + track_rows(tracks@.take(j as int)),
        decreases tracks@.len() - j,
    {
        let h = &tracks[j];
        let ghost before = rows@;
        assert(tracks@.take(j + 1).drop_last() =~= tracks@.take(j as int));
        assert(tracks@.take(j + 1).last() == *h);
        match (&h.id, &h.title) {
            (Some(id), Some(title)) => {
                let row = track_result_row(
                    *id,
                    title.as_str(),
                    opt_as_str(&h.performer_name),
                    opt_as_str(&h.album_title),
                    h.duration,
                    string_of(&chars_of(h.image_url.as_str())),
                    h.bit_depth,
                    string_of(&chars_of(h.sampling_rate.as_str())),
                );
                let text = encode_result_row(&row);
                assert(row_parts(row) =~= track_hit_parts(*h));
                rows.push(text);
                assert(string_views(rows@) =~= string_views(before).push(text@));
                assert(album_part + track_rows(tracks@.take(j + 1)) =~= (album_part + track_rows(tracks@.take(j as int))).push(text@));
            },
            _ => {},
        }
        j = j + 1;
    }
    assert(tracks@.take(tracks@.len() as int) =~= tracks@);
    rows
}
} // verus!
