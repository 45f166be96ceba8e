//! Reading and updating `KEY=value` settings in the text of a `.env` file.
//!
//! The file itself is read and written by the application; these functions
//! take its content (`None` when the file does not exist) and compute the
//! value found or the new content to write.

use vstd::prelude::*;

use crate::text::{
    find_char, has_char, is_ws, lemma_find_char_at, lemma_find_char_props, lemma_join_push,
    lemma_lines_no_newline, lemma_trim_fixed, lemma_trim_strip_cr, strip_cr, trim_end, trim_start,
    chars_eq, chars_of, extend_chars, join, join_chars, lines, lines_of, split_once, split_once_chars,
    starts_with, starts_with_chars, string_of, trim, trim_chars, views,
};

verus! {

/// The key and value of a `.env` line as they stand: whitespace around the
/// line is ignored, empty lines and `#` comments hold none, and the key ends
/// at the first `=`.
pub open spec fn raw_entry(line: Seq<char>) -> Option<(Seq<char>, Seq<char>)> {
    let t = trim(line);
    if t.len() == 0 || t[0] == '#' {
        None
    } else {
        split_once(t, '=')
    }
}

/// The key and value of a `.env` setting: as in `raw_entry`, with the
/// whitespace around the key and around the value ignored too.
pub open spec fn env_entry(line: Seq<char>) -> Option<(Seq<char>, Seq<char>)> {
    match raw_entry(line) {
        Some((k, v)) => Some((trim(k), trim(v))),
        None => None,
    }
}

/// The value of the first line that sets `key` to a non-empty value.
pub open spec fn env_lookup(ls: Seq<Seq<char>>, key: Seq<char>) -> Option<Seq<char>>
    decreases ls.len(),
{
    if ls.len() == 0 {
        None
    } else {
        match env_entry(ls[0]) {
            Some((k, v)) => if k == key && v.len() > 0 {
                Some(v)
            } else {
                env_lookup(ls.drop_first(), key)
            },
            None => env_lookup(ls.drop_first(), key),
        }
    }
}

/// The text of a `.env` file; a missing file reads as empty.
pub open spec fn content_of(env_content: Option<Seq<char>>) -> Seq<char> {
    match env_content {
        Some(c) => c,
        None => Seq::empty(),
    }
}

/// The value `load_env_var` gives for `key`: the value set in the file, or
/// `default`.
pub open spec fn env_value_or(env_content: Option<Seq<char>>, key: Seq<char>, default: Seq<char>) -> Seq<char> {
    match env_lookup(lines(content_of(env_content)), key) {
        Some(v) => v,
        None => default,
    }
}

/// The line `KEY=value`.
pub open spec fn env_line(key: Seq<char>, value: Seq<char>) -> Seq<char> {
    key + seq!['='] + value
}

/// Each line that starts with `KEY=` replaced by `KEY=value`.
pub open spec fn env_replace_lines(ls: Seq<Seq<char>>, key: Seq<char>, value: Seq<char>) -> Seq<Seq<char>> {
    ls.map_values(
        |l: Seq<char>|
            if starts_with(l, key + seq!['=']) {
                env_line(key, value)
            } else {
                l
            },
    )
}

/// Some line starts with `KEY=`.
pub open spec fn env_has_line(ls: Seq<Seq<char>>, key: Seq<char>) -> bool {
    exists|i: int| 0 <= i < ls.len() && starts_with(#[trigger] ls[i], key + seq!['='])
}

/// The new text of the file after setting `key` to `value`: lines that start
/// with `KEY=` are rewritten, otherwise `KEY=value` is added at the end.
pub open spec fn env_saved(env_content: Option<Seq<char>>, key: Seq<char>, value: Seq<char>) -> Seq<char> {
    let ls = lines(content_of(env_content));
    let up = env_replace_lines(ls, key, value);
    if env_has_line(ls, key) {
        join(up, seq!['\n'])
    } else {
        join(up.push(env_line(key, value)), seq!['\n'])
    }
}

/// The characters of an optional file content.
pub(crate) fn content_chars(env_content: Option<&str>) -> (v: Vec<char>)
    ensures
        v@ == content_of(opt_view(env_content)),
{
    match env_content {
        Some(c) => chars_of(c),
        None => Vec::new(),
    }
}

/// The view of an optional file content.
pub open spec fn opt_view(env_content: Option<&str>) -> Option<Seq<char>> {
    match env_content {
        Some(c) => Some(c@),
        None => None,
    }
}

/// Looks up `key` in the `.env` content (`None` when the file does not
/// exist), falling back to `default` when no line sets a non-empty value.
pub fn load_env_var(env_content: Option<&str>, key: &str, default: &str) -> (r: String)
    ensures
        r@ == env_value_or(opt_view(env_content), key@, default@),
{
    let content = content_chars(env_content);
    let ls = lines_of(&content);
    let key_chars = chars_of(key);
    let ghost all = views(ls@);
    let mut i: usize = 0;
    assert(all.subrange(0, all.len() as int) =~= all);
    while i < ls.len()
        invariant
            all == views(ls@),
            all == lines(content_of(opt_view(env_content))),
            i <= ls.len(),
            key_chars@ == key@,
            env_lookup(all, key@) == env_lookup(all.subrange(i as int, all.len() as int), key@),
        decreases ls.len() - i,
    {
        assert(all.subrange(i as int, all.len() as int).drop_first() =~= all.subrange(
            i + 1,
            all.len() as int,
        ));
        assert(all.subrange(i as int, all.len() as int)[0] == ls@[i as int]@);
        let t = trim_chars(&ls[i]);
        if t.len() > 0 && t[0] != '#' {
            if let Some((k0, v0)) = split_once_chars(&t, '=') {
                let k = trim_chars(&k0);
                let v = trim_chars(&v0);
                if chars_eq(&k, &key_chars) && v.len() > 0 {
                    assert(env_entry(ls@[i as int]@) == Some((k@, v@)));
                    assert(env_lookup(all.subrange(i as int, all.len() as int), key@) == Some(v@));
                    assert(env_lookup(all, key@) == Some(v@));
                    return string_of(&v);
                }
            }
        }
        i = i + 1;
    }
    string_of(&chars_of(default))
}

/// The text of the file after setting `key` to `value`, keeping every other
/// line as it was.
pub fn save_env_var(env_content: Option<&str>, key: &str, value: &str) -> (r: String)
    ensures
        r@ == env_saved(opt_view(env_content), key@, value@),
{
    let content = content_chars(env_content);
    let mut ls = lines_of(&content);
    let ghost orig = views(ls@);
    let mut prefix = chars_of(key);
    prefix.push('=');
    let mut kv = prefix.clone();
    let value_chars = chars_of(value);
    extend_chars(&mut kv, &value_chars);
    assert(kv@ == env_line(key@, value@));
    let mut found = false;
    let mut i: usize = 0;
    while i < ls.len()
        invariant
            i <= ls.len(),
            orig.len() == ls.len(),
            prefix@ == key@ + seq!['='],
            kv@ == env_line(key@, value@),
            forall|j: int| 0 <= j < i ==> views(ls@)[j] == env_replace_lines(orig, key@, value@)[j],
            forall|j: int| i <= j < ls.len() ==> views(ls@)[j] == orig[j],
            found == exists|j: int| 0 <= j < i && starts_with(#[trigger] orig[j], key@ + seq!['=']),
        decreases ls.len() - i,
    {
        let ghost before = ls@;
        let ghost rep = env_replace_lines(orig, key@, value@);
        assert(before[i as int]@ == orig[i as int]);
        if starts_with_chars(&ls[i], &prefix) {
            ls.set(i, kv.clone());
            found = true;
        }
        assert(ls@[i as int]@ == rep[i as int]);
        assert forall|j: int| 0 <= j < i + 1 implies views(ls@)[j] == rep[j] by {
            if j < i {
                assert(ls@[j] == before[j]);
                assert(views(before)[j] == before[j]@);
            }
        }
        assert forall|j: int| i + 1 <= j < ls.len() implies views(ls@)[j] == orig[j] by {
            assert(ls@[j] == before[j]);
            assert(views(before)[j] == before[j]@);
        }
        i = i + 1;
    }
    assert(views(ls@) =~= env_replace_lines(orig, key@, value@));
    if !found {
        ls.push(kv);
        assert(views(ls@) =~= env_replace_lines(orig, key@, value@).push(env_line(key@, value@)));
    }
    let nl: Vec<char> = vec!['\n'];
    assert(nl@ =~= seq!['\n']);
    let out = join_chars(&ls, &nl);
    string_of(&out)
}

/// Loads the configured download path from the `.env` file content.
///
/// Retrieves `QOBUZ_DOWNLOAD_PATH`; when the variable is not set or the file
/// does not exist, the default download directory is `downloads`.
pub fn load_download_path(env_content: Option<&str>) -> (r: String)
    ensures
        r@ == env_value_or(opt_view(env_content), "QOBUZ_DOWNLOAD_PATH"@, "downloads"@),
{
    load_env_var(env_content, "QOBUZ_DOWNLOAD_PATH", "downloads")
}

/// The new `.env` content that sets `QOBUZ_DOWNLOAD_PATH` to `download_path`.
pub fn save_download_path(env_content: Option<&str>, download_path: &str) -> (r: String)
    ensures
        r@ == env_saved(opt_view(env_content), "QOBUZ_DOWNLOAD_PATH"@, download_path@),
{
    save_env_var(env_content, "QOBUZ_DOWNLOAD_PATH", download_path)
}

/// Loads the preferred audio format (`QOBUZ_PREFERRED_FORMAT`, default `6`,
/// FLAC lossless) from the `.env` file content.
pub fn load_preferred_format(env_content: Option<&str>) -> (r: String)
    ensures
        r@ == env_value_or(opt_view(env_content), "QOBUZ_PREFERRED_FORMAT"@, "6"@),
{
    load_env_var(env_content, "QOBUZ_PREFERRED_FORMAT", "6")
}

/// Loads the preferred search scope (`QOBUZ_SEARCH_SCOPE`, default `0`, all
/// content) from the `.env` file content.
pub fn load_search_scope(env_content: Option<&str>) -> (r: String)
    ensures
        r@ == env_value_or(opt_view(env_content), "QOBUZ_SEARCH_SCOPE"@, "0"@),
{
    load_env_var(env_content, "QOBUZ_SEARCH_SCOPE", "0")
}

/// The new `.env` content that sets `QOBUZ_SEARCH_SCOPE` to `scope_index`.
pub fn save_search_scope(env_content: Option<&str>, scope_index: &str) -> (r: String)
    ensures
        r@ == env_saved(opt_view(env_content), "QOBUZ_SEARCH_SCOPE"@, scope_index@),
{
    save_env_var(env_content, "QOBUZ_SEARCH_SCOPE", scope_index)
}

/// The new `.env` content that sets `QOBUZ_PREFERRED_FORMAT` to `format_id`.
pub fn save_preferred_format(env_content: Option<&str>, format_id: &str) -> (r: String)
    ensures
        r@ == env_saved(opt_view(env_content), "QOBUZ_PREFERRED_FORMAT"@, format_id@),
{
    save_env_var(env_content, "QOBUZ_PREFERRED_FORMAT", format_id)
}

/// Which metadata tags are written into downloaded files.
#[derive(Clone, Copy, Debug, PartialEq, Eq)]
pub struct MetadataConfig {
    /// Album artist name.
    pub album_artist: bool,
    /// Track artist name.
    pub artist: bool,
    /// Track title.
    pub track_title: bool,
    /// Track number within the album.
    pub track_number: bool,
    /// Total tracks in the album.
    pub track_total: bool,
    /// Disc number of a multi-disc release.
    pub disc_number: bool,
    /// Total discs in the release.
    pub disc_total: bool,
    /// Album title.
    pub album: bool,
    /// Explicit content advisory.
    pub explicit: bool,
    /// Universal Product Code.
    pub upc: bool,
    /// International Standard Recording Code.
    pub isrc: bool,
    /// Copyright information.
    pub copyright: bool,
    /// Composer credits.
    pub composer: bool,
    /// Music genre.
    pub genre: bool,
    /// Release year.
    pub release_year: bool,
    /// Full release date.
    pub release_date: bool,
    /// Comments (off unless enabled).
    pub comment: bool,
    /// Album cover artwork.
    pub cover_art: bool,
    /// Record label.
    pub label: bool,
    /// Producer credits.
    pub producer: bool,
    /// Additional personnel credits.
    pub involved_people: bool,
    /// Qobuz track or album URL.
    pub url: bool,
    /// Media format type.
    pub media_type: bool,
}

/// The flag a `.env` setting holds: its value (or the default written as
/// `true` or `false`) parsed as a `bool`, or the default when it is neither
/// `true` nor `false`.
pub open spec fn bool_setting(env_content: Option<Seq<char>>, key: Seq<char>, default: bool) -> bool {
    let v = env_value_or(env_content, key, if default { "true"@ } else { "false"@ });
    if v == "true"@ {
        true
    } else if v == "false"@ {
        false
    } else {
        default
    }
}

/// Reads a flag from the `.env` content.
fn load_bool(env_content: Option<&str>, key: &str, default: bool) -> (b: bool)
    ensures
        b == bool_setting(opt_view(env_content), key@, default),
{
    let default_text = if default { "true" } else { "false" };
    let v = load_env_var(env_content, key, default_text);
    let vc = chars_of(v.as_str());
    if chars_eq(&vc, &chars_of("true")) {
        true
    } else if chars_eq(&vc, &chars_of("false")) {
        false
    } else {
        default
    }
}

/// Loads which metadata tags to write from the `.env` content (`None` when
/// the file does not exist): each `QOBUZ_TAG_*` flag defaults to enabled,
/// except `QOBUZ_TAG_COMMENT`, which defaults to disabled.
pub fn load_metadata_config(env_content: Option<&str>) -> (c: MetadataConfig)
    ensures
        c.album_artist == bool_setting(opt_view(env_content), "QOBUZ_TAG_ALBUM_ARTIST"@, true),
        c.artist == bool_setting(opt_view(env_content), "QOBUZ_TAG_ARTIST"@, true),
        c.track_title == bool_setting(opt_view(env_content), "QOBUZ_TAG_TRACK_TITLE"@, true),
        c.track_number == bool_setting(opt_view(env_content), "QOBUZ_TAG_TRACK_NUMBER"@, true),
        c.track_total == bool_setting(opt_view(env_content), "QOBUZ_TAG_TRACK_TOTAL"@, true),
        c.disc_number == bool_setting(opt_view(env_content), "QOBUZ_TAG_DISC_NUMBER"@, true),
        c.disc_total == bool_setting(opt_view(env_content), "QOBUZ_TAG_DISC_TOTAL"@, true),
        c.album == bool_setting(opt_view(env_content), "QOBUZ_TAG_ALBUM"@, true),
        c.explicit == bool_setting(opt_view(env_content), "QOBUZ_TAG_EXPLICIT"@, true),
        c.upc == bool_setting(opt_view(env_content), "QOBUZ_TAG_UPC"@, true),
        c.isrc == bool_setting(opt_view(env_content), "QOBUZ_TAG_ISRC"@, true),
        c.copyright == bool_setting(opt_view(env_content), "QOBUZ_TAG_COPYRIGHT"@, true),
        c.composer == bool_setting(opt_view(env_content), "QOBUZ_TAG_COMPOSER"@, true),
        c.genre == bool_setting(opt_view(env_content), "QOBUZ_TAG_GENRE"@, true),
        c.release_year == bool_setting(opt_view(env_content), "QOBUZ_TAG_RELEASE_YEAR"@, true),
        c.release_date == bool_setting(opt_view(env_content), "QOBUZ_TAG_RELEASE_DATE"@, true),
        c.comment == bool_setting(opt_view(env_content), "QOBUZ_TAG_COMMENT"@, false),
        c.cover_art == bool_setting(opt_view(env_content), "QOBUZ_TAG_COVER_ART"@, true),
        c.label == bool_setting(opt_view(env_content), "QOBUZ_TAG_LABEL"@, true),
        c.producer == bool_setting(opt_view(env_content), "QOBUZ_TAG_PRODUCER"@, true),
        c.involved_people == bool_setting(opt_view(env_content), "QOBUZ_TAG_INVOLVED_PEOPLE"@, true),
        c.url == bool_setting(opt_view(env_content), "QOBUZ_TAG_URL"@, true),
        c.media_type == bool_setting(opt_view(env_content), "QOBUZ_TAG_MEDIA_TYPE"@, true),
{
    MetadataConfig {
        album_artist: load_bool(env_content, "QOBUZ_TAG_ALBUM_ARTIST", true),
        artist: load_bool(env_content, "QOBUZ_TAG_ARTIST", true),
        track_title: load_bool(env_content, "QOBUZ_TAG_TRACK_TITLE", true),
        track_number: load_bool(env_content, "QOBUZ_TAG_TRACK_NUMBER", true),
        track_total: load_bool(env_content, "QOBUZ_TAG_TRACK_TOTAL", true),
        disc_number: load_bool(env_content, "QOBUZ_TAG_DISC_NUMBER", true),
        disc_total: load_bool(env_content, "QOBUZ_TAG_DISC_TOTAL", true),
        album: load_bool(env_content, "QOBUZ_TAG_ALBUM", true),
        explicit: load_bool(env_content, "QOBUZ_TAG_EXPLICIT", true),
        upc: load_bool(env_content, "QOBUZ_TAG_UPC", true),
        isrc: load_bool(env_content, "QOBUZ_TAG_ISRC", true),
        copyright: load_bool(env_content, "QOBUZ_TAG_COPYRIGHT", true),
        composer: load_bool(env_content, "QOBUZ_TAG_COMPOSER", true),
        genre: load_bool(env_content, "QOBUZ_TAG_GENRE", true),
        release_year: load_bool(env_content, "QOBUZ_TAG_RELEASE_YEAR", true),
        release_date: load_bool(env_content, "QOBUZ_TAG_RELEASE_DATE", true),
        comment: load_bool(env_content, "QOBUZ_TAG_COMMENT", false),
        cover_art: load_bool(env_content, "QOBUZ_TAG_COVER_ART", true),
        label: load_bool(env_content, "QOBUZ_TAG_LABEL", true),
        producer: load_bool(env_content, "QOBUZ_TAG_PRODUCER", true),
        involved_people: load_bool(env_content, "QOBUZ_TAG_INVOLVED_PEOPLE", true),
        url: load_bool(env_content, "QOBUZ_TAG_URL", true),
        media_type: load_bool(env_content, "QOBUZ_TAG_MEDIA_TYPE", true),
    }
}

// ---------------------------------------------------------------------------
// Laws
// ---------------------------------------------------------------------------

/// A key that reads back from its own `KEY=value` line: non-empty, neither
/// starting nor ending with whitespace, not starting with `#`, without `=` or
/// line feeds.
pub open spec fn plain_key(key: Seq<char>) -> bool {
    &&& key.len() > 0
    &&& !is_ws(key[0])
    &&& !is_ws(key.last())
    &&& key[0] != '#'
    &&& !has_char(key, '=')
    &&& !has_char(key, '\n')
}

/// A value that reads back from its own `KEY=value` line: non-empty, without
/// line feeds and not ending in whitespace.
pub open spec fn plain_value(value: Seq<char>) -> bool {
    &&& value.len() > 0
    &&& !is_ws(value.last())
    &&& !has_char(value, '\n')
}

/// A setting value that reads back from its own `KEY=value` line: a plain
/// value that does not start with whitespace either.
pub open spec fn trimmed_value(value: Seq<char>) -> bool {
    plain_value(value) && !is_ws(value[0])
}

/// The line gives `key` a non-empty value, as the loader reads it.
pub open spec fn sets_key_value(l: Seq<char>, key: Seq<char>) -> bool {
    env_entry(l) matches Some((k, v)) && k == key && v.len() > 0
}

/// The line starts with `KEY=`: saving rewrites it.
pub open spec fn is_key_line(l: Seq<char>, key: Seq<char>) -> bool {
    starts_with(l, key + seq!['='])
}

/// The loader meets a line that saving rewrites before any other line that
/// gives `key` a value: each line that sets `key` without starting with
/// `KEY=` (indented, or with whitespace before its `=`) comes after a line
/// that starts with `KEY=`.
pub open spec fn key_lines_come_first(ls: Seq<Seq<char>>, key: Seq<char>) -> bool {
    forall|i: int|
        0 <= i < ls.len() && sets_key_value(#[trigger] ls[i], key) && !is_key_line(ls[i], key)
            ==> exists|j: int| 0 <= j < i && is_key_line(#[trigger] ls[j], key)
}

proof fn lemma_trim_end_prefix(s: Seq<char>) -> (m: int)
    ensures
        0 <= m <= s.len(),
        trim_end(s) == s.subrange(0, m),
        forall|j: int| m <= j < s.len() ==> is_ws(s[j]),
    decreases s.len(),
{
    if s.len() > 0 && is_ws(s.last()) {
        let m = lemma_trim_end_prefix(s.drop_last());
        assert(s.drop_last().subrange(0, m) =~= s.subrange(0, m));
        assert forall|j: int| m <= j < s.len() implies is_ws(s[j]) by {
            if j < s.len() - 1 {
                assert(s[j] == s.drop_last()[j]);
            }
        }
        m
    } else {
        assert(s.subrange(0, s.len() as int) =~= s);
        s.len() as int
    }
}

/// A line starting with `KEY=` holds an entry for `key`.
pub(crate) proof fn lemma_entry_of_key_line(l: Seq<char>, key: Seq<char>)
    requires
        plain_key(key),
        starts_with(l, key + seq!['=']),
    ensures
        raw_entry(l) matches Some((k, _v)) && k == key,
        env_entry(l) matches Some((k, _v)) && k == key,
{
    let p = key + seq!['='];
    assert(l[0] == p[0]);
    assert(trim_start(l) == l);
    let m = lemma_trim_end_prefix(l);
    assert(l[key.len() as int] == p[key.len() as int]);
    assert(m > key.len());
    let t = trim(l);
    assert(t == l.subrange(0, m));
    assert forall|j: int| 0 <= j < key.len() implies t[j] != '=' by {
        assert(t[j] == p[j]);
        assert(p[j] == key[j]);
    }
    lemma_find_char_at(t, '=', key.len() as int);
    assert(t.subrange(0, key.len() as int) =~= key) by {
        assert forall|j: int| 0 <= j < key.len() implies t.subrange(0, key.len() as int)[j]
            == key[j] by {
            assert(t[j] == p[j]);
        }
    }
    lemma_trim_fixed(key);
}

/// The line `KEY=value` holds exactly that entry; as a setting too when the
/// value does not start with whitespace.
pub(crate) proof fn lemma_entry_of_env_line(key: Seq<char>, value: Seq<char>)
    requires
        plain_key(key),
        plain_value(value),
    ensures
        raw_entry(env_line(key, value)) == Some((key, value)),
        !is_ws(value[0]) ==> env_entry(env_line(key, value)) == Some((key, value)),
{
    let l = env_line(key, value);
    assert(l[0] == key[0]);
    assert(l.last() == value.last());
    lemma_trim_fixed(l);
    assert forall|j: int| 0 <= j < key.len() implies l[j] != '=' by {
        assert(l[j] == key[j]);
    }
    lemma_find_char_at(l, '=', key.len() as int);
    assert(l.subrange(0, key.len() as int) =~= key);
    assert(l.subrange(key.len() as int + 1, l.len() as int) =~= value);
    lemma_trim_fixed(key);
    if !is_ws(value[0]) {
        lemma_trim_fixed(value);
    }
}

/// `KEY=value` has no line feed.
pub(crate) proof fn lemma_env_line_no_newline(key: Seq<char>, value: Seq<char>)
    requires
        !has_char(key, '\n'),
        !has_char(value, '\n'),
    ensures
        !has_char(env_line(key, value), '\n'),
{
    let l = env_line(key, value);
    if has_char(l, '\n') {
        let j = choose|j: int| 0 <= j < l.len() && l[j] == '\n';
        if j < key.len() {
            assert(key[j] == '\n');
        } else if j > key.len() {
            assert(value[j - key.len() - 1] == '\n');
        }
    }
}

/// Reading the joined lines back finds what the lines themselves hold.
proof fn lemma_lookup_lines_join(ls: Seq<Seq<char>>, key: Seq<char>)
    requires
        forall|i: int| 0 <= i < ls.len() ==> !has_char(#[trigger] ls[i], '\n'),
    ensures
        env_lookup(lines(join(ls, seq!['\n'])), key) == env_lookup(ls, key),
    decreases ls.len(),
{
    let nl = seq!['\n'];
    if ls.len() == 0 {
        assert(lines(join(ls, nl)) =~= Seq::<Seq<char>>::empty());
    } else if ls.len() == 1 {
        let l = ls[0];
        assert(!has_char(l, '\n'));
        if l.len() == 0 {
            assert(trim(l) =~= Seq::<char>::empty());
            assert(env_entry(l) is None);
            assert(ls.drop_first() =~= Seq::<Seq<char>>::empty());
        } else {
            crate::text::lemma_find_char_none(l, '\n');
            assert(lines(l) =~= seq![l]);
            assert(ls =~= seq![l]);
        }
    } else {
        let rest = ls.drop_first();
        let j = join(ls, nl);
        let l = ls[0];
        assert(j == l + nl + join(rest, nl));
        assert(!has_char(l, '\n'));
        assert forall|k: int| 0 <= k < l.len() implies j[k] != '\n' by {
            assert(j[k] == l[k]);
        }
        lemma_find_char_at(j, '\n', l.len() as int);
        assert(j.subrange(0, l.len() as int) =~= l);
        assert(j.subrange(l.len() as int + 1, j.len() as int) =~= join(rest, nl));
        assert(lines(j) == seq![strip_cr(l)] + lines(join(rest, nl)));
        assert(forall|i: int| 0 <= i < rest.len() ==> !has_char(#[trigger] rest[i], '\n')) by {
            assert forall|i: int| 0 <= i < rest.len() implies !has_char(#[trigger] rest[i], '\n') by {
                assert(rest[i] == ls[i + 1]);
            }
        }
        lemma_lookup_lines_join(rest, key);
        lemma_trim_strip_cr(l);
        assert(env_entry(strip_cr(l)) == env_entry(l));
        assert((seq![strip_cr(l)] + lines(join(rest, nl))).drop_first() =~= lines(join(rest, nl)));
    }
}

/// After the rewrite, the first line that sets `key` is `KEY=value`, or the
/// lookup reaches `tail`.
proof fn lemma_lookup_replaced(
    ls: Seq<Seq<char>>,
    tail: Seq<Seq<char>>,
    key: Seq<char>,
    value: Seq<char>,
)
    requires
        plain_key(key),
        trimmed_value(value),
        key_lines_come_first(ls, key),
        env_has_line(ls, key) || env_lookup(tail, key) == Some(value),
    ensures
        env_lookup(env_replace_lines(ls, key, value) + tail, key) == Some(value),
    decreases ls.len(),
{
    let up = env_replace_lines(ls, key, value);
    if ls.len() == 0 {
        assert(up + tail =~= tail);
    } else {
        let l = ls[0];
        let rest = ls.drop_first();
        assert((up + tail)[0] == up[0]);
        assert((up + tail).drop_first() =~= env_replace_lines(rest, key, value) + tail);
        if starts_with(l, key + seq!['=']) {
            lemma_entry_of_env_line(key, value);
            assert(up[0] == env_line(key, value));
        } else {
            assert(up[0] == l);
            assert(!is_key_line(ls[0], key));
            assert(!sets_key_value(ls[0], key));
            assert(key_lines_come_first(rest, key)) by {
                assert forall|i: int|
                    0 <= i < rest.len() && sets_key_value(#[trigger] rest[i], key) && !is_key_line(rest[i], key)
                    implies exists|j: int| 0 <= j < i && is_key_line(#[trigger] rest[j], key) by {
                    assert(rest[i] == ls[i + 1]);
                    assert(sets_key_value(ls[i + 1], key) && !is_key_line(ls[i + 1], key));
                    let j = choose|j: int| 0 <= j < i + 1 && is_key_line(#[trigger] ls[j], key);
                    assert(j != 0);
                    assert(rest[j - 1] == ls[j]);
                }
            }
            if env_has_line(ls, key) {
                let i = choose|i: int| 0 <= i < ls.len() && starts_with(#[trigger] ls[i], key + seq!['=']);
                assert(i > 0);
                assert(rest[i - 1] == ls[i]);
                assert(env_has_line(rest, key));
            }
            lemma_lookup_replaced(rest, tail, key, value);
        }
    }
}

/// Reading a setting back after saving it gives the saved value, provided
/// the loader meets a rewritten line first: every line that sets the key
/// without starting with `KEY=` comes after one that does (exactly the
/// files on which the saved value is the one read).
pub proof fn lemma_load_after_save(
    env_content: Option<Seq<char>>,
    key: Seq<char>,
    value: Seq<char>,
    default: Seq<char>,
)
    requires
        plain_key(key),
        trimmed_value(value),
        key_lines_come_first(lines(content_of(env_content)), key),
    ensures
        env_value_or(Some(env_saved(env_content, key, value)), key, default) == value,
{
    let ls = lines(content_of(env_content));
    let up = env_replace_lines(ls, key, value);
    let kv = env_line(key, value);
    lemma_lines_no_newline(content_of(env_content));
    lemma_env_line_no_newline(key, value);
    assert forall|i: int| 0 <= i < up.len() implies !has_char(#[trigger] up[i], '\n') by {
        assert(!has_char(ls[i], '\n'));
    }
    if env_has_line(ls, key) {
        lemma_lookup_lines_join(up, key);
        lemma_lookup_replaced(ls, Seq::empty(), key, value);
        assert(up + Seq::<Seq<char>>::empty() =~= up);
    } else {
        let full = up.push(kv);
        assert forall|i: int| 0 <= i < full.len() implies !has_char(#[trigger] full[i], '\n') by {
            if i < up.len() {
                assert(full[i] == up[i]);
            }
        }
        lemma_lookup_lines_join(full, key);
        lemma_entry_of_env_line(key, value);
        assert(env_lookup(seq![kv], key) == Some(value));
        lemma_lookup_replaced(ls, seq![kv], key, value);
        assert(up + seq![kv] =~= full);
    }
}

/// Rewriting the lines of `key` leaves every other key's lookup as it was.
proof fn lemma_lookup_other_key(
    ls: Seq<Seq<char>>,
    tail: Seq<Seq<char>>,
    key: Seq<char>,
    value: Seq<char>,
    other: Seq<char>,
)
    requires
        plain_key(key),
        other != key,
        env_lookup(tail, other) is None,
    ensures
        env_lookup(env_replace_lines(ls, key, value) + tail, other) == env_lookup(ls, other),
    decreases ls.len(),
{
    let up = env_replace_lines(ls, key, value);
    if ls.len() == 0 {
        assert(up + tail =~= tail);
    } else {
        let l = ls[0];
        let rest = ls.drop_first();
        assert((up + tail)[0] == up[0]);
        assert((up + tail).drop_first() =~= env_replace_lines(rest, key, value) + tail);
        lemma_lookup_other_key(rest, tail, key, value, other);
        if starts_with(l, key + seq!['=']) {
            lemma_entry_of_key_line(l, key);
            let kv = env_line(key, value);
            assert(kv.subrange(0, key.len() as int + 1) =~= key + seq!['=']);
            lemma_entry_of_key_line(kv, key);
            assert(up[0] == kv);
        } else {
            assert(up[0] == l);
        }
    }
}

/// Saving one setting leaves the value read for every other key unchanged.
pub proof fn lemma_save_keeps_other_keys(
    env_content: Option<Seq<char>>,
    key: Seq<char>,
    value: Seq<char>,
    other: Seq<char>,
    default: Seq<char>,
)
    requires
        plain_key(key),
        !has_char(value, '\n'),
        other != key,
    ensures
        env_value_or(Some(env_saved(env_content, key, value)), other, default) == env_value_or(
            env_content,
            other,
            default,
        ),
{
    let ls = lines(content_of(env_content));
    let up = env_replace_lines(ls, key, value);
    let kv = env_line(key, value);
    lemma_lines_no_newline(content_of(env_content));
    lemma_env_line_no_newline(key, value);
    assert forall|i: int| 0 <= i < up.len() implies !has_char(#[trigger] up[i], '\n') by {
        assert(!has_char(ls[i], '\n'));
    }
    assert(env_lookup(Seq::<Seq<char>>::empty(), other) is None);
    if env_has_line(ls, key) {
        lemma_lookup_lines_join(up, other);
        lemma_lookup_other_key(ls, Seq::empty(), key, value, other);
        assert(up + Seq::<Seq<char>>::empty() =~= up);
    } else {
        let full = up.push(kv);
        assert forall|i: int| 0 <= i < full.len() implies !has_char(#[trigger] full[i], '\n') by {
            if i < up.len() {
                assert(full[i] == up[i]);
            }
        }
        lemma_lookup_lines_join(full, other);
        assert(kv.subrange(0, key.len() as int + 1) =~= key + seq!['=']);
        lemma_entry_of_key_line(kv, key);
        assert(seq![kv].drop_first() =~= Seq::<Seq<char>>::empty());
        assert(env_lookup(seq![kv], other) is None);
        lemma_lookup_other_key(ls, seq![kv], key, value, other);
        assert(up + seq![kv] =~= full);
    }
}

} // verus!
