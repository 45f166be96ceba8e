//! Helpers shared by the detail views: quality selection, durations and
//! cleaning up HTML descriptions.

use vstd::prelude::*;

use crate::text::{
    chars_of, duration_chars, duration_text, has_char, is_ws, lemma_has_char_concat, lemma_trim_fixed,
    replace_all, replace_all_chars, string_of, trim, trim_chars, trim_end, trim_start,
};
use crate::types::Quality;
use crate::url_patterns::opt_chars;

verus! {

/// The quality offered at each position of the quality dropdown.
pub open spec fn quality_at_index(index: u32) -> Quality {
    if index == 0 {
        Quality::Mp3_320
    } else if index == 2 {
        Quality::Flac24_96
    } else if index == 3 {
        Quality::Flac24_192
    } else {
        Quality::Flac16_44
    }
}

/// Maps `DropDown` index to quality.
pub fn quality_from_index(index: u32) -> (q: Quality)
    ensures
        q == quality_at_index(index),
{
    match index {
        0 => Quality::Mp3_320,
        2 => Quality::Flac24_96,
        3 => Quality::Flac24_192,
        _ => Quality::Flac16_44,
    }
}

/// Formats duration in seconds to MM:SS.
pub fn format_duration(seconds: i32) -> (s: String)
    ensures
        s@ == duration_text(seconds as int),
{
    let v = duration_chars(seconds as i64);
    string_of(&v)
}

/// The text beside an item count and total duration: `N tracks • M:SS`, or
/// `N tracks` when the duration is not positive.
pub open spec fn track_count_duration_text(track_count: int, total_duration: int) -> Seq<char> {
    if total_duration > 0 {
        crate::text::int_decimal(track_count) + " tracks • "@ + duration_text(total_duration)
    } else {
        crate::text::int_decimal(track_count) + " tracks"@
    }
}

/// The label text that `append_track_count_duration` shows.
pub fn track_count_duration_label(track_count: i32, total_duration: i32) -> (s: String)
    ensures
        s@ == track_count_duration_text(track_count as int, total_duration as int),
{
    let mut v = crate::text::i64_decimal(track_count as i64);
    if total_duration > 0 {
        let sep = chars_of(" tracks • ");
        crate::text::extend_chars(&mut v, &sep);
        let d = duration_chars(total_duration as i64);
        crate::text::extend_chars(&mut v, &d);
    } else {
        let sep = chars_of(" tracks");
        crate::text::extend_chars(&mut v, &sep);
    }
    string_of(&v)
}

/// `s` with the line-break and paragraph tags turned into newlines.
pub open spec fn html_breaks_to_newlines(s: Seq<char>) -> Seq<char> {
    let s = replace_all(s, "<br>"@, "\n"@);
    let s = replace_all(s, "<br/>"@, "\n"@);
    let s = replace_all(s, "<br />"@, "\n"@);
    let s = replace_all(s, "<BR>"@, "\n"@);
    let s = replace_all(s, "<BR/>"@, "\n"@);
    let s = replace_all(s, "<BR />"@, "\n"@);
    let s = replace_all(s, "</p><p>"@, "\n\n"@);
    let s = replace_all(s, "</p> <p>"@, "\n\n"@);
    let s = replace_all(s, "</P><P>"@, "\n\n"@);
    let s = replace_all(s, "</P> <P>"@, "\n\n"@);
    let s = replace_all(s, "<p>"@, ""@);
    let s = replace_all(s, "</p>"@, ""@);
    let s = replace_all(s, "<P>"@, ""@);
    replace_all(s, "</P>"@, ""@)
}

/// `s` without the characters from each `<` up to the next `>` (both
/// included); `in_tag` says whether a `<` is still open.
pub open spec fn drop_tags(s: Seq<char>, in_tag: bool) -> Seq<char>
    decreases s.len(),
{
    if s.len() == 0 {
        Seq::empty()
    } else if s[0] == '<' {
        drop_tags(s.drop_first(), true)
    } else if s[0] == '>' {
        drop_tags(s.drop_first(), false)
    } else if !in_tag {
        seq![s[0]] + drop_tags(s.drop_first(), false)
    } else {
        drop_tags(s.drop_first(), true)
    }
}

/// The plain text of an HTML description.
pub open spec fn html_to_text(s: Seq<char>) -> Seq<char> {
    trim(drop_tags(html_breaks_to_newlines(s), false))
}

/// `s` with every `p` replaced by `r`.
fn replace_lit(s: &[char], p: &str, r: &str) -> (out: Vec<char>)
    ensures
        out@ == replace_all(s@, p@, r@),
{
    let pv = chars_of(p);
    let rv = chars_of(r);
    replace_all_chars(s, &pv, &rv)
}

/// Removes everything between `<` and `>`.
fn drop_tags_chars(s: &[char]) -> (out: Vec<char>)
    ensures
        out@ == drop_tags(s@, false),
{
    let n = s.len();
    let mut out: Vec<char> = Vec::new();
    let mut in_tag = false;
    let mut i: usize = 0;
    assert(s@.subrange(0, n as int) =~= s@);
    while i < n
        invariant
            n == s@.len(),
            i <= n,
            drop_tags(s@, false) == out@ + drop_tags(s@.subrange(i as int, n as int), in_tag),
        decreases n - i,
    {
        let ch = s[i];
        let ghost old_out = out@;
        assert(s@.subrange(i as int, n as int).drop_first() =~= s@.subrange(i + 1, n as int));
        if ch == '<' {
            in_tag = true;
        } else if ch == '>' {
            in_tag = false;
        } else if !in_tag {
            out.push(ch);
            assert(old_out + (seq![ch] + drop_tags(s@.subrange(i + 1, n as int), false)) =~= out@
                + drop_tags(s@.subrange(i + 1, n as int), false));
        }
        i = i + 1;
    }
    assert(out@ + drop_tags(s@.subrange(n as int, n as int), in_tag) =~= out@);
    out
}

/// Strips HTML tags from a string, replacing `<br>` with newlines and paragraph boundaries with
/// double newlines.
pub fn strip_html_tags(input: &str) -> (r: String)
    ensures
        r@ == html_to_text(input@),
{
    let s = chars_of(input);
    let s = replace_lit(&s, "<br>", "\n");
    let s = replace_lit(&s, "<br/>", "\n");
    let s = replace_lit(&s, "<br />", "\n");
    let s = replace_lit(&s, "<BR>", "\n");
    let s = replace_lit(&s, "<BR/>", "\n");
    let s = replace_lit(&s, "<BR />", "\n");
    let s = replace_lit(&s, "</p><p>", "\n\n");
    let s = replace_lit(&s, "</p> <p>", "\n\n");
    let s = replace_lit(&s, "</P><P>", "\n\n");
    let s = replace_lit(&s, "</P> <P>", "\n\n");
    let s = replace_lit(&s, "<p>", "");
    let s = replace_lit(&s, "</p>", "");
    let s = replace_lit(&s, "<P>", "");
    let s = replace_lit(&s, "</P>", "");
    let cleaned = drop_tags_chars(&s);
    let t = trim_chars(&cleaned);
    string_of(&t)
}


// ---------------------------------------------------------------------------
// Laws of the plain text of a description
// ---------------------------------------------------------------------------

/// Text that neither starts nor ends with whitespace.
pub open spec fn is_trimmed(t: Seq<char>) -> bool {
    t.len() == 0 || (!is_ws(t[0]) && !is_ws(t.last()))
}

/// What is left after dropping tags holds no angle bracket.
proof fn lemma_drop_tags_no_brackets(s: Seq<char>, in_tag: bool)
    ensures
        !has_char(drop_tags(s, in_tag), '<'),
        !has_char(drop_tags(s, in_tag), '>'),
    decreases s.len(),
{
    if s.len() > 0 {
        lemma_drop_tags_no_brackets(s.drop_first(), s[0] == '<' || (in_tag && s[0] != '>'));
        if s[0] != '<' && s[0] != '>' && !in_tag {
            lemma_has_char_concat(seq![s[0]], drop_tags(s.drop_first(), false), '<');
            lemma_has_char_concat(seq![s[0]], drop_tags(s.drop_first(), false), '>');
        }
    }
}

/// Trimming keeps only characters of the text.
proof fn lemma_trim_keeps_chars(s: Seq<char>, c: char)
    ensures
        has_char(trim_start(s), c) ==> has_char(s, c),
        has_char(trim_end(s), c) ==> has_char(s, c),
    decreases s.len(),
{
    if s.len() > 0 {
        lemma_trim_keeps_chars(s.drop_first(), c);
        lemma_trim_keeps_chars(s.drop_last(), c);
        if has_char(s.drop_first(), c) {
            let i = choose|i: int| 0 <= i < s.drop_first().len() && s.drop_first()[i] == c;
            assert(s[i + 1] == c);
        }
        if has_char(s.drop_last(), c) {
            let i = choose|i: int| 0 <= i < s.drop_last().len() && s.drop_last()[i] == c;
            assert(s[i] == c);
        }
    }
}

/// Trimmed text neither starts nor ends with whitespace.
proof fn lemma_trim_is_trimmed(s: Seq<char>)
    ensures
        trim_start(s).len() == 0 || !is_ws(trim_start(s)[0]),
        (s.len() == 0 || !is_ws(s[0])) ==> is_trimmed(trim_end(s)),
        is_trimmed(trim(s)),
    decreases s.len(),
{
    if s.len() > 0 {
        lemma_trim_is_trimmed(s.drop_first());
        lemma_trim_is_trimmed(s.drop_last());
        if !is_ws(s[0]) && is_ws(s.last()) {
            assert(s.len() >= 2);
            assert(s.drop_last()[0] == s[0]);
        }
    }
    lemma_trim_is_trimmed_end(trim_start(s));
}

/// Trimming the end of text that does not start with whitespace.
proof fn lemma_trim_is_trimmed_end(s: Seq<char>)
    requires
        s.len() == 0 || !is_ws(s[0]),
    ensures
        is_trimmed(trim_end(s)),
    decreases s.len(),
{
    if s.len() > 0 && is_ws(s.last()) {
        assert(s.len() >= 2);
        assert(s.drop_last()[0] == s[0]);
        lemma_trim_is_trimmed_end(s.drop_last());
    }
}

/// Replacing a pattern that cannot start anywhere in the text changes
/// nothing.
proof fn lemma_replace_absent(s: Seq<char>, p: Seq<char>, r: Seq<char>)
    requires
        p.len() > 0,
        !has_char(s, p[0]),
    ensures
        replace_all(s, p, r) == s,
    decreases s.len(),
{
    if s.len() >= p.len() {
        if s.subrange(0, p.len() as int) == p {
            assert(s[0] == s.subrange(0, p.len() as int)[0]);
        }
        assert(!has_char(s.drop_first(), p[0])) by {
            if has_char(s.drop_first(), p[0]) {
                let i = choose|i: int| 0 <= i < s.drop_first().len() && s.drop_first()[i] == p[0];
                assert(s[i + 1] == p[0]);
            }
        }
        lemma_replace_absent(s.drop_first(), p, r);
        assert(seq![s[0]] + s.drop_first() =~= s);
    }
}

/// Text without angle brackets has no tag to drop.
proof fn lemma_drop_tags_plain(s: Seq<char>)
    requires
        !has_char(s, '<'),
        !has_char(s, '>'),
    ensures
        drop_tags(s, false) == s,
    decreases s.len(),
{
    if s.len() > 0 {
        assert(s[0] != '<' && s[0] != '>');
        assert(!has_char(s.drop_first(), '<') && !has_char(s.drop_first(), '>')) by {
            if has_char(s.drop_first(), '<') {
                let i = choose|i: int| 0 <= i < s.drop_first().len() && s.drop_first()[i] == '<';
                assert(s[i + 1] == '<');
            }
            if has_char(s.drop_first(), '>') {
                let i = choose|i: int| 0 <= i < s.drop_first().len() && s.drop_first()[i] == '>';
                assert(s[i + 1] == '>');
            }
        }
        lemma_drop_tags_plain(s.drop_first());
        assert(seq![s[0]] + s.drop_first() =~= s);
    }
}

/// The plain text of a description holds no tag bracket and neither starts
/// nor ends with whitespace.
pub proof fn lemma_plain_text_is_clean(s: Seq<char>)
    ensures
        !has_char(html_to_text(s), '<'),
        !has_char(html_to_text(s), '>'),
        is_trimmed(html_to_text(s)),
{
    let d = drop_tags(html_breaks_to_newlines(s), false);
    lemma_drop_tags_no_brackets(html_breaks_to_newlines(s), false);
    lemma_trim_keeps_chars(d, '<');
    lemma_trim_keeps_chars(d, '>');
    lemma_trim_keeps_chars(trim_start(d), '<');
    lemma_trim_keeps_chars(trim_start(d), '>');
    lemma_trim_is_trimmed(d);
}

/// A tag: starts with `<`, ends with `>`, and holds no other bracket.
pub open spec fn is_single_tag(x: Seq<char>) -> bool {
    &&& x.len() >= 2
    &&& x[0] == '<'
    &&& x.last() == '>'
    &&& !has_char(x.drop_first(), '<')
    &&& !has_char(x.drop_last(), '>')
}

/// Replacing a tag pattern in text with a single tag between bracket-free
/// parts: the tag is replaced when it is the pattern, nothing otherwise.
proof fn lemma_replace_at_tag(a: Seq<char>, x: Seq<char>, b: Seq<char>, p: Seq<char>, r: Seq<char>)
    requires
        is_single_tag(x),
        p.len() > 0,
        p[0] == '<',
        p.last() == '>',
        !has_char(a, '<'),
        !has_char(b, '<'),
        !has_char(b, '>'),
    ensures
        replace_all(a + x + b, p, r) == if p == x { a + r + b } else { a + x + b },
    decreases a.len(),
{
    let s = a + x + b;
    if a.len() > 0 {
        assert(s[0] == a[0]);
        assert(a[0] != '<');
        if s.len() >= p.len() {
            assert(s.subrange(0, p.len() as int) != p) by {
                if s.subrange(0, p.len() as int) == p {
                    assert(s.subrange(0, p.len() as int)[0] == s[0]);
                }
            }
        }
        assert(!has_char(a.drop_first(), '<')) by {
            if has_char(a.drop_first(), '<') {
                let i = choose|i: int| 0 <= i < a.drop_first().len() && a.drop_first()[i] == '<';
                assert(a[i + 1] == '<');
            }
        }
        lemma_replace_at_tag(a.drop_first(), x, b, p, r);
        assert(s.drop_first() =~= a.drop_first() + x + b);
        if p == x {
            assert(seq![s[0]] + (a.drop_first() + r + b) =~= a + r + b);
        } else {
            assert(seq![s[0]] + (a.drop_first() + x + b) =~= a + x + b);
        }
    } else {
        assert(s =~= x + b);
        // A match of `p` at the start ends at the only `>` of `x + b`.
        let matched = s.len() >= p.len() && s.subrange(0, p.len() as int) == p;
        if matched {
            let m = p.len() as int;
            assert(s[m - 1] == '>') by {
                assert(s.subrange(0, m)[m - 1] == p[m - 1]);
            }
            if m - 1 < x.len() - 1 {
                assert(x.drop_last()[m - 1] == '>');
            } else if m - 1 > x.len() - 1 {
                assert(b[m - 1 - x.len()] == '>');
            }
            assert(m == x.len());
            assert(x =~= s.subrange(0, m));
        }
        if p == x {
            assert(s.subrange(0, p.len() as int) =~= p);
            assert(s.subrange(p.len() as int, s.len() as int) =~= b);
            lemma_replace_absent(b, p, r);
        } else {
            assert(!matched);
            let rest = s.drop_first();
            assert(rest =~= x.drop_first() + b);
            assert(!has_char(rest, '<')) by {
                lemma_has_char_concat(x.drop_first(), b, '<');
            }
            lemma_replace_absent(rest, p, r);
            if s.len() >= p.len() {
                assert(seq![s[0]] + rest =~= s);
            }
        }
    }
}

/// Each line-break tag (`<br>`, `<br/>`, `<br />` and their capitals)
/// becomes a line feed: between bracket-free texts `a` and `b`, the plain
/// text of `a`, the tag and `b` is `a`, a line feed and `b`, trimmed.
pub proof fn lemma_break_tag_becomes_newline(a: Seq<char>, tag: Seq<char>, b: Seq<char>)
    requires
        !has_char(a, '<'),
        !has_char(a, '>'),
        !has_char(b, '<'),
        !has_char(b, '>'),
        tag == "<br>"@ || tag == "<br/>"@ || tag == "<br />"@ || tag == "<BR>"@ || tag == "<BR/>"@
            || tag == "<BR />"@,
    ensures
        html_to_text(a + tag + b) == trim(a + "\n"@ + b),
{
    reveal_strlit("<br>");
    reveal_strlit("<br/>");
    reveal_strlit("<br />");
    reveal_strlit("<BR>");
    reveal_strlit("<BR/>");
    reveal_strlit("<BR />");
    assert(is_single_tag(tag)) by {
        assert(!has_char(tag.drop_first(), '<')) by {
            if has_char(tag.drop_first(), '<') {
                let i = choose|i: int| 0 <= i < tag.drop_first().len() && tag.drop_first()[i] == '<';
            }
        }
        assert(!has_char(tag.drop_last(), '>')) by {
            if has_char(tag.drop_last(), '>') {
                let i = choose|i: int| 0 <= i < tag.drop_last().len() && tag.drop_last()[i] == '>';
            }
        }
    }
    lemma_break_rest(a, tag, b);
}

/// The break patterns, one after the other: the one equal to the tag turns
/// it into a line feed and the others leave the text as it is; the
/// paragraph patterns then find no bracket.
proof fn lemma_break_rest(a: Seq<char>, tag: Seq<char>, b: Seq<char>)
    requires
        !has_char(a, '<'),
        !has_char(a, '>'),
        !has_char(b, '<'),
        !has_char(b, '>'),
        is_single_tag(tag),
        tag == "<br>"@ || tag == "<br/>"@ || tag == "<br />"@ || tag == "<BR>"@ || tag == "<BR/>"@
            || tag == "<BR />"@,
    ensures
        trim(drop_tags(html_breaks_to_newlines(a + tag + b), false)) == trim(a + "\n"@ + b),
{
    reveal_strlit("<br>");
    reveal_strlit("<br/>");
    reveal_strlit("<br />");
    reveal_strlit("<BR>");
    reveal_strlit("<BR/>");
    reveal_strlit("<BR />");
    reveal_strlit("</p><p>");
    reveal_strlit("</p> <p>");
    reveal_strlit("</P><P>");
    reveal_strlit("</P> <P>");
    reveal_strlit("<p>");
    reveal_strlit("</p>");
    reveal_strlit("<P>");
    reveal_strlit("</P>");
    reveal_strlit("\n");
    reveal_strlit("\n\n");
    reveal_strlit("");
    let n = a + "\n"@ + b;
    let t = a + tag + b;
    assert(!has_char(n, '<') && !has_char(n, '>')) by {
        lemma_has_char_concat(a, "\n"@, '<');
        lemma_has_char_concat(a + "\n"@, b, '<');
        lemma_has_char_concat(a, "\n"@, '>');
        lemma_has_char_concat(a + "\n"@, b, '>');
    }
    // After each step the text is `t` until the tag's own pattern, and `n`
    // from then on.
    let s1 = replace_all(t, "<br>"@, "\n"@);
    lemma_step(a, tag, b, t, "<br>"@, "\n"@);
    let s2 = replace_all(s1, "<br/>"@, "\n"@);
    lemma_step(a, tag, b, s1, "<br/>"@, "\n"@);
    let s3 = replace_all(s2, "<br />"@, "\n"@);
    lemma_step(a, tag, b, s2, "<br />"@, "\n"@);
    let s4 = replace_all(s3, "<BR>"@, "\n"@);
    lemma_step(a, tag, b, s3, "<BR>"@, "\n"@);
    let s5 = replace_all(s4, "<BR/>"@, "\n"@);
    lemma_step(a, tag, b, s4, "<BR/>"@, "\n"@);
    let s6 = replace_all(s5, "<BR />"@, "\n"@);
    lemma_step(a, tag, b, s5, "<BR />"@, "\n"@);
    assert(s6 == n);
    lemma_replace_absent(n, "</p><p>"@, "\n\n"@);
    lemma_replace_absent(n, "</p> <p>"@, "\n\n"@);
    lemma_replace_absent(n, "</P><P>"@, "\n\n"@);
    lemma_replace_absent(n, "</P> <P>"@, "\n\n"@);
    lemma_replace_absent(n, "<p>"@, ""@);
    lemma_replace_absent(n, "</p>"@, ""@);
    lemma_replace_absent(n, "<P>"@, ""@);
    lemma_replace_absent(n, "</P>"@, ""@);
    assert(html_breaks_to_newlines(t) == n);
    lemma_drop_tags_plain(n);
}

/// One break pattern applied to `a + tag + b` (replaced when it is the tag)
/// or to the already replaced text (left as it is).
proof fn lemma_step(a: Seq<char>, tag: Seq<char>, b: Seq<char>, s: Seq<char>, p: Seq<char>, r: Seq<char>)
    requires
        !has_char(a, '<'),
        !has_char(a, '>'),
        !has_char(b, '<'),
        !has_char(b, '>'),
        is_single_tag(tag),
        p.len() > 0,
        p[0] == '<',
        p.last() == '>',
        r == "\n"@,
        s == a + tag + b || s == a + "\n"@ + b,
    ensures
        replace_all(s, p, r) == if s == a + tag + b && p == tag { a + "\n"@ + b } else { s },
{
    reveal_strlit("\n");
    if s == a + tag + b {
        lemma_replace_at_tag(a, tag, b, p, r);
    } else {
        lemma_has_char_concat(a, "\n"@, '<');
        lemma_has_char_concat(a + "\n"@, b, '<');
        lemma_replace_absent(s, p, r);
    }
}

/// A description without angle brackets is only trimmed: it holds no tag,
/// line-break or paragraph marker to turn into text.
pub proof fn lemma_text_without_tags_is_trimmed(s: Seq<char>)
    requires
        !has_char(s, '<'),
        !has_char(s, '>'),
    ensures
        html_to_text(s) == trim(s),
{
    reveal_strlit("<br>");
    reveal_strlit("<br/>");
    reveal_strlit("<br />");
    reveal_strlit("<BR>");
    reveal_strlit("<BR/>");
    reveal_strlit("<BR />");
    reveal_strlit("</p><p>");
    reveal_strlit("</p> <p>");
    reveal_strlit("</P><P>");
    reveal_strlit("</P> <P>");
    reveal_strlit("<p>");
    reveal_strlit("</p>");
    reveal_strlit("<P>");
    reveal_strlit("</P>");
    lemma_replace_absent(s, "<br>"@, "\n"@);
    lemma_replace_absent(s, "<br/>"@, "\n"@);
    lemma_replace_absent(s, "<br />"@, "\n"@);
    lemma_replace_absent(s, "<BR>"@, "\n"@);
    lemma_replace_absent(s, "<BR/>"@, "\n"@);
    lemma_replace_absent(s, "<BR />"@, "\n"@);
    lemma_replace_absent(s, "</p><p>"@, "\n\n"@);
    lemma_replace_absent(s, "</p> <p>"@, "\n\n"@);
    lemma_replace_absent(s, "</P><P>"@, "\n\n"@);
    lemma_replace_absent(s, "</P> <P>"@, "\n\n"@);
    lemma_replace_absent(s, "<p>"@, ""@);
    lemma_replace_absent(s, "</p>"@, ""@);
    lemma_replace_absent(s, "<P>"@, ""@);
    lemma_replace_absent(s, "</P>"@, ""@);
    assert(html_breaks_to_newlines(s) == s);
    lemma_drop_tags_plain(s);
}

/// Cleaning a description twice gives what cleaning it once gives.
pub proof fn lemma_html_to_text_idempotent(s: Seq<char>)
    ensures
        html_to_text(html_to_text(s)) == html_to_text(s),
{
    let t = html_to_text(s);
    lemma_plain_text_is_clean(s);
    lemma_text_without_tags_is_trimmed(t);
    if t.len() > 0 {
        lemma_trim_fixed(t);
    } else {
        assert(trim(t) =~= t);
    }
}

/// The URLs of the sizes of an image as the catalog gives them; some
/// responses give a single `url` instead.
#[derive(Clone, Debug)]
pub struct ImageUrls {
    /// The large size.
    pub large: Option<String>,
    /// The extra-large size.
    pub extra_large: Option<String>,
    /// The medium size.
    pub medium: Option<String>,
    /// The thumbnail size.
    pub thumbnail: Option<String>,
    /// The small size.
    pub small: Option<String>,
    /// The one URL of endpoints without sizes.
    pub url: Option<String>,
}

/// The first of `a` and `b` that is present.
pub open spec fn or_else(a: Option<Seq<char>>, b: Option<Seq<char>>) -> Option<Seq<char>> {
    if a is Some {
        a
    } else {
        b
    }
}

/// The URL preferred for an image: large, then extra large, medium,
/// thumbnail, small, and the generic URL.
pub open spec fn preferred_image_url(img: ImageUrls) -> Option<Seq<char>> {
    or_else(
        opt_chars(img.large),
        or_else(
            opt_chars(img.extra_large),
            or_else(
                opt_chars(img.medium),
                or_else(opt_chars(img.thumbnail), or_else(opt_chars(img.small), opt_chars(img.url))),
            ),
        ),
    )
}

/// The first present URL, cloned.
fn first_present(a: &Option<String>, b: Option<String>) -> (r: Option<String>)
    ensures
        opt_chars(r) == or_else(opt_chars(*a), opt_chars(b)),
{
    match a {
        Some(x) => Some(x.clone()),
        None => b,
    }
}

/// Resolves the best available cover art URL from an optional image.
///
/// Tries multiple image sizes in order of preference, falling back to the
/// generic `url` field (which some endpoints return instead of a size map).
pub fn resolve_image_url(img: Option<&ImageUrls>) -> (r: Option<String>)
    ensures
        opt_chars(r) == match img {
            Some(i) => preferred_image_url(*i),
            None => None,
        },
{
    match img {
        None => None,
        Some(i) => {
            let tail = first_present(&i.small, i.url.clone());
            let tail = first_present(&i.thumbnail, tail);
            let tail = first_present(&i.medium, tail);
            let tail = first_present(&i.extra_large, tail);
            first_present(&i.large, tail)
        },
    }
}
} // verus!
