//! Search results: sections by category, subtitles and durations.

use vstd::prelude::*;

use crate::text::{
    chars_of, duration_chars, duration_text, extend_chars, i64_decimal, int_decimal, join,
    join_chars, lemma_join_push, string_of, views,
};

verus! {

/// Category of a search result for section grouping.
#[derive(Clone, Copy, Debug, PartialEq, Eq, Structural)]
pub enum SearchCategory {
    /// Track results.
    Tracks,
    /// Album results.
    Albums,
    /// Artist results.
    Artists,
    /// Playlist results.
    Playlists,
}

impl SearchCategory {
    /// Returns the display label for this category.
    pub fn label(self) -> (r: &'static str)
        ensures
            r@ == match self {
                SearchCategory::Tracks => "Tracks"@,
                SearchCategory::Albums => "Albums"@,
                SearchCategory::Artists => "Artists"@,
                SearchCategory::Playlists => "Playlists"@,
            },
    {
        match self {
            SearchCategory::Tracks => "Tracks",
            SearchCategory::Albums => "Albums",
            SearchCategory::Artists => "Artists",
            SearchCategory::Playlists => "Playlists",
        }
    }
}

/// Whether row `i` of the results starts a new section: it is the first row,
/// or its category differs from the row before.
pub open spec fn starts_section(cats: Seq<SearchCategory>, i: int) -> bool {
    i == 0 || cats[i] != cats[i - 1]
}

/// For each result row, whether a section header goes before it.
pub fn section_headers(cats: &Vec<SearchCategory>) -> (r: Vec<bool>)
    ensures
        r@.len() == cats@.len(),
        forall|i: int| 0 <= i < cats@.len() ==> #[trigger] r@[i] == starts_section(cats@, i),
{
    let mut r: Vec<bool> = Vec::new();
    let mut current: Option<SearchCategory> = None;
    let mut i: usize = 0;
    while i < cats.len()
        invariant
            i <= cats@.len(),
            r@.len() == i,
            forall|j: int| 0 <= j < i ==> #[trigger] r@[j] == starts_section(cats@, j),
            i == 0 ==> current is None,
            i > 0 ==> current == Some(cats@[i - 1]),
        decreases cats@.len() - i,
    {
        let c = cats[i];
        let needs = match current {
            Some(p) => p != c,
            None => true,
        };
        r.push(needs);
        current = Some(c);
        i = i + 1;
    }
    r
}

/// Formats a duration in seconds to `MM:SS` format.
pub fn format_duration(seconds: i32) -> (s: String)
    ensures
        s@ == duration_text(seconds as int),
{
    string_of(&duration_chars(seconds as i64))
}


/// What the subtitle of a search result row is made of. The quality text
/// (`24-bit/96kHz`, or empty when unknown) comes formatted from the
/// sampling rate by the caller.
pub enum ResultSummary {
    /// A track.
    Track {
        /// Artist name.
        artist: String,
        /// Album name.
        album: String,
        /// Duration in seconds.
        duration: i32,
        /// Formatted audio quality, or empty.
        quality: String,
    },
    /// An album.
    Album {
        /// Artist name.
        artist: String,
        /// Release year, or empty.
        year: String,
        /// Number of tracks.
        track_count: i32,
        /// Total duration in seconds.
        duration: i32,
        /// Formatted audio quality, or empty.
        quality: String,
    },
    /// An artist.
    Artist,
    /// A playlist.
    Playlist,
}

/// The separator between subtitle parts.
pub open spec fn subtitle_sep() -> Seq<char> {
    " • "@
}

/// The duration (when positive) and quality (when known) parts of a
/// subtitle.
pub open spec fn quality_parts(duration: int, quality: Seq<char>) -> Seq<Seq<char>> {
    let d = if duration > 0 {
        seq![duration_text(duration)]
    } else {
        Seq::empty()
    };
    if quality.len() > 0 {
        d.push(quality)
    } else {
        d
    }
}

/// The subtitle of a search result row: `artist • album • duration •
/// quality` for a track; `artist • year • N tracks • duration • quality` for
/// an album, leaving out an empty year and a track count that is not
/// positive; `Artist` or `Playlist` otherwise.
pub open spec fn subtitle_text(item: ResultSummary) -> Seq<char> {
    match item {
        ResultSummary::Track { artist, album, duration, quality } => join(
            seq![artist@, album@] + quality_parts(duration as int, quality@),
            subtitle_sep(),
        ),
        ResultSummary::Album { artist, year, track_count, duration, quality } => {
            let y = if year@.len() > 0 {
                seq![year@]
            } else {
                Seq::empty()
            };
            let t = if track_count > 0 {
                seq![int_decimal(track_count as int) + " tracks"@]
            } else {
                Seq::empty()
            };
            join(seq![artist@] + y + t + quality_parts(duration as int, quality@), subtitle_sep())
        },
        ResultSummary::Artist => "Artist"@,
        ResultSummary::Playlist => "Playlist"@,
    }
}

/// Appends the duration and quality parts.
fn push_quality_parts(parts: &mut Vec<Vec<char>>, duration: i32, quality: &str)
    ensures
        views(final(parts)@) == views(old(parts)@) + quality_parts(duration as int, quality@),
{
    let ghost before = views(parts@);
    if duration > 0 {
        parts.push(duration_chars(duration as i64));
    }
    let ghost mid = views(parts@);
    assert(mid =~= before + if duration > 0 {
        seq![duration_text(duration as int)]
    } else {
        Seq::<Seq<char>>::empty()
    });
    if !quality.is_empty() {
        parts.push(chars_of(quality));
        assert(views(parts@) =~= mid.push(quality@));
    }
    assert(views(parts@) =~= before + quality_parts(duration as int, quality@));
}

/// `text` preceded by the separator, when `present`; nothing otherwise.
pub open spec fn optional_part(present: bool, text: Seq<char>) -> Seq<char> {
    if present {
        " • "@ + text
    } else {
        Seq::empty()
    }
}

/// Joining one more part, or none, adds it after a separator, or nothing.
proof fn lemma_join_optional(ps: Seq<Seq<char>>, present: bool, x: Seq<char>)
    requires
        ps.len() >= 1,
    ensures
        join(if present { ps.push(x) } else { ps }, " • "@) == join(ps, " • "@) + optional_part(present, x),
{
    if present {
        lemma_join_push(ps, x, " • "@);
        assert(join(ps, " • "@) + " • "@ + x =~= join(ps, " • "@) + (" • "@ + x));
    } else {
        assert(join(ps, " • "@) + Seq::<char>::empty() =~= join(ps, " • "@));
    }
}

/// The subtitle of a track: artist and album, then the duration `M:SS`
/// whenever it is positive, then the quality whenever it is known, each
/// after ` • `. The duration does not depend on the quality being known.
pub proof fn lemma_track_subtitle(artist: String, album: String, duration: i32, quality: String)
    ensures
        subtitle_text(ResultSummary::Track { artist, album, duration, quality }) == artist@ + " • "@
            + album@ + optional_part(duration > 0, duration_text(duration as int)) + optional_part(
            quality@.len() > 0,
            quality@,
        ),
{
    let ps0 = seq![artist@, album@];
    lemma_join_push(seq![artist@], album@, " • "@);
    assert(seq![artist@].push(album@) =~= ps0);
    assert(join(seq![artist@], " • "@) == artist@);
    let ps1 = if duration > 0 { ps0.push(duration_text(duration as int)) } else { ps0 };
    lemma_join_optional(ps0, duration > 0, duration_text(duration as int));
    lemma_join_optional(ps1, quality@.len() > 0, quality@);
    let ps2 = if quality@.len() > 0 { ps1.push(quality@) } else { ps1 };
    assert(ps0 + quality_parts(duration as int, quality@) =~= ps2);
}

/// The subtitle of an album: the artist, then the year when known, `N
/// tracks` when the count is positive, the duration `M:SS` when positive and
/// the quality when known, each after ` • `.
pub proof fn lemma_album_subtitle(artist: String, year: String, track_count: i32, duration: i32, quality: String)
    ensures
        subtitle_text(ResultSummary::Album { artist, year, track_count, duration, quality }) == artist@
            + optional_part(year@.len() > 0, year@) + optional_part(
            track_count > 0,
            int_decimal(track_count as int) + " tracks"@,
        ) + optional_part(duration > 0, duration_text(duration as int)) + optional_part(
            quality@.len() > 0,
            quality@,
        ),
{
    let ps0 = seq![artist@];
    let tc = int_decimal(track_count as int) + " tracks"@;
    let ps1 = if year@.len() > 0 { ps0.push(year@) } else { ps0 };
    let ps2 = if track_count > 0 { ps1.push(tc) } else { ps1 };
    let ps3 = if duration > 0 { ps2.push(duration_text(duration as int)) } else { ps2 };
    let ps4 = if quality@.len() > 0 { ps3.push(quality@) } else { ps3 };
    lemma_join_optional(ps0, year@.len() > 0, year@);
    lemma_join_optional(ps1, track_count > 0, tc);
    lemma_join_optional(ps2, duration > 0, duration_text(duration as int));
    lemma_join_optional(ps3, quality@.len() > 0, quality@);
    let y = if year@.len() > 0 { seq![year@] } else { Seq::<Seq<char>>::empty() };
    let t = if track_count > 0 { seq![tc] } else { Seq::<Seq<char>>::empty() };
    assert(seq![artist@] + y + t + quality_parts(duration as int, quality@) =~= ps4);
}

/// Formats a subtitle string for a search result item.
pub fn build_subtitle(item: &ResultSummary) -> (r: String)
    ensures
        r@ == subtitle_text(*item),
{
    match item {
        ResultSummary::Track { artist, album, duration, quality } => {
            let mut parts: Vec<Vec<char>> = Vec::new();
            parts.push(chars_of(artist.as_str()));
            parts.push(chars_of(album.as_str()));
            assert(views(parts@) =~= seq![artist@, album@]);
            push_quality_parts(&mut parts, *duration, quality.as_str());
            string_of(&join_chars(&parts, &chars_of(" • ")))
        },
        ResultSummary::Album { artist, year, track_count, duration, quality } => {
            let mut parts: Vec<Vec<char>> = Vec::new();
            parts.push(chars_of(artist.as_str()));
            let ghost p0 = views(parts@);
            assert(p0 =~= seq![artist@]);
            if !year.as_str().is_empty() {
                parts.push(chars_of(year.as_str()));
            }
            let ghost p1 = views(parts@);
            assert(p1 =~= p0 + if year@.len() > 0 {
                seq![year@]
            } else {
                Seq::<Seq<char>>::empty()
            });
            if *track_count > 0 {
                let mut t = i64_decimal(*track_count as i64);
                extend_chars(&mut t, &chars_of(" tracks"));
                parts.push(t);
            }
            assert(views(parts@) =~= p1 + if *track_count > 0 {
                seq![int_decimal(*track_count as int) + " tracks"@]
            } else {
                Seq::<Seq<char>>::empty()
            });
            push_quality_parts(&mut parts, *duration, quality.as_str());
            string_of(&join_chars(&parts, &chars_of(" • ")))
        },
        ResultSummary::Artist => String::from_str("Artist"),
        ResultSummary::Playlist => String::from_str("Playlist"),
    }
}

/// The entries of the items of one category that are listed: the positions
/// of those that have an ID, in order.
pub open spec fn kept_entries(has_id: Seq<bool>, cat: SearchCategory) -> Seq<(SearchCategory, usize)>
    decreases has_id.len(),
{
    if has_id.len() == 0 {
        Seq::empty()
    } else {
        let rest = kept_entries(has_id.drop_last(), cat);
        if has_id.last() {
            rest.push((cat, (has_id.len() - 1) as usize))
        } else {
            rest
        }
    }
}

/// Appends the listed entries of one category.
fn append_kept(out: &mut Vec<(SearchCategory, usize)>, has_id: &Vec<bool>, cat: SearchCategory)
    ensures
        final(out)@ == old(out)@ + kept_entries(has_id@, cat),
{
    let ghost start = out@;
    let mut i: usize = 0;
    assert(start + kept_entries(has_id@.take(0), cat) =~= start);
    while i < has_id.len()
        invariant
            i <= has_id@.len(),
            out@ == start + kept_entries(has_id@.take(i as int), cat),
        decreases has_id@.len() - i,
    {
        assert(has_id@.take(i + 1).drop_last() =~= has_id@.take(i as int));
        assert(has_id@.take(i + 1).last() == has_id@[i as int]);
        if has_id[i] {
            out.push((cat, i));
            assert(out@ =~= start + kept_entries(has_id@.take(i + 1), cat));
        }
        i = i + 1;
    }
    assert(has_id@.take(has_id@.len() as int) =~= has_id@);
}

/// The results the search view lists, by category and position in the
/// response: tracks, then albums, then artists, each without those lacking
/// an ID (`*_has_id` says which have one), then every playlist.
pub fn result_order(
    track_has_id: &Vec<bool>,
    album_has_id: &Vec<bool>,
    artist_has_id: &Vec<bool>,
    playlist_count: usize,
) -> (r: Vec<(SearchCategory, usize)>)
    ensures
        r@ == kept_entries(track_has_id@, SearchCategory::Tracks) + kept_entries(album_has_id@, SearchCategory::Albums)
            + kept_entries(artist_has_id@, SearchCategory::Artists) + Seq::new(
            playlist_count as nat,
            |i: int| (SearchCategory::Playlists, i as usize),
        ),
{
    let mut r: Vec<(SearchCategory, usize)> = Vec::new();
    append_kept(&mut r, track_has_id, SearchCategory::Tracks);
    append_kept(&mut r, album_has_id, SearchCategory::Albums);
    append_kept(&mut r, artist_has_id, SearchCategory::Artists);
    let ghost before = r@;
    let mut j: usize = 0;
    while j < playlist_count
        invariant
            j <= playlist_count,
            r@ == before + Seq::new(j as nat, |i: int| (SearchCategory::Playlists, i as usize)),
        decreases playlist_count - j,
    {
        r.push((SearchCategory::Playlists, j));
        assert(r@ =~= before + Seq::new((j + 1) as nat, |i: int| (SearchCategory::Playlists, i as usize)));
        j = j + 1;
    }
    r
}

} // verus!
