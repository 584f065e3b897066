//! The image references of a markdown text: markdown images `![alt](url)`
//! and HTML `<img ... src="url" ...>` tags, found left to right without
//! overlap, with the text between them.
//!
//! A markdown image is `!`, `[`, the alternative text (anything but `]`),
//! `]`, `(`, optional whitespace, an optional `<`, the URL (one or more
//! characters other than `)`, `>` and whitespace), an optional `>`, optional
//! whitespace and `)`.
//!
//! An HTML image is `<img` not followed by a word character, then anything
//! but `>` up to the last `src` (not preceded by a word character) that is
//! followed by optional whitespace, `=`, optional whitespace and a quote; the
//! value is one or more characters other than quotes; a quote and anything
//! but `>` follow, up to `>`.
use crate::process::strs;
use crate::text::{chars_of, is_whitespace, is_ws, slice_chars, string_of};
use vstd::prelude::*;

verus! {

/// Four texts of one match.
pub type Quad = (Seq<char>, Seq<char>, Seq<char>, Seq<char>);

/// Whether the `regex` crate counts `c` as a word character (`\w`), which
/// decides its word boundaries (`\b`).
pub uninterp spec fn regex_word_char(c: char) -> bool;

/// Whether `c` is a word character for the `regex` crate: `Regex::is_match`
/// of the pattern `\w` on `c` alone. Claimed: the answer depends on `c`
/// alone (named `regex_word_char`).
#[verifier::external_body]
fn is_regex_word_char(c: char) -> (r: bool)
    ensures
        r == regex_word_char(c),
{
    let mut buffer = [0u8; 4];
    match regex::Regex::new(r"\w") {
        Ok(re) => re.is_match(c.encode_utf8(&mut buffer)),
        Err(_) => false,
    }
}

// ---------------------------------------------------------------------------
// Scanning helpers
// ---------------------------------------------------------------------------

/// The first position from `p` that is the end or not whitespace.
pub open spec fn skip_ws(s: Seq<char>, p: int) -> int
    decreases s.len() - p,
{
    if p < 0 || p >= s.len() || !is_ws(s[p]) {
        p
    } else {
        skip_ws(s, p + 1)
    }
}

/// A character that may stand in the URL of a markdown image.
pub open spec fn md_url_char(c: char) -> bool {
    c != ')' && c != '>' && !is_ws(c)
}

/// The first position from `p` that is the end or no URL character.
pub open spec fn url_run_end(s: Seq<char>, p: int) -> int
    decreases s.len() - p,
{
    if p < 0 || p >= s.len() || !md_url_char(s[p]) {
        p
    } else {
        url_run_end(s, p + 1)
    }
}

/// The first position from `p` that is the end or holds `c`.
pub open spec fn find_char(s: Seq<char>, p: int, c: char) -> int
    decreases s.len() - p,
{
    if p < 0 || p >= s.len() || s[p] == c {
        p
    } else {
        find_char(s, p + 1, c)
    }
}

/// A quotation mark, single or double.
pub open spec fn is_quote(c: char) -> bool {
    c == '"' || c == '\''
}

/// The first position from `p` that is the end or holds a quote.
pub open spec fn find_quote(s: Seq<char>, p: int) -> int
    decreases s.len() - p,
{
    if p < 0 || p >= s.len() || is_quote(s[p]) {
        p
    } else {
        find_quote(s, p + 1)
    }
}

fn skip_ws_exec(s: &[char], p: usize) -> (r: usize)
    requires
        p <= s@.len(),
    ensures
        r == skip_ws(s@, p as int),
        p <= r <= s@.len(),
{
    let mut q = p;
    while q < s.len() && is_whitespace(s[q])
        invariant
            p <= q <= s@.len(),
            skip_ws(s@, p as int) == skip_ws(s@, q as int),
        decreases s.len() - q,
    {
        q = q + 1;
    }
    q
}

fn url_run_end_exec(s: &[char], p: usize) -> (r: usize)
    requires
        p <= s@.len(),
    ensures
        r == url_run_end(s@, p as int),
        p <= r <= s@.len(),
{
    let mut q = p;
    while q < s.len() && s[q] != ')' && s[q] != '>' && !is_whitespace(s[q])
        invariant
            p <= q <= s@.len(),
            url_run_end(s@, p as int) == url_run_end(s@, q as int),
        decreases s.len() - q,
    {
        q = q + 1;
    }
    q
}

fn find_char_exec(s: &[char], p: usize, c: char) -> (r: usize)
    requires
        p <= s@.len(),
    ensures
        r == find_char(s@, p as int, c),
        p <= r <= s@.len(),
{
    let mut q = p;
    while q < s.len() && s[q] != c
        invariant
            p <= q <= s@.len(),
            find_char(s@, p as int, c) == find_char(s@, q as int, c),
        decreases s.len() - q,
    {
        q = q + 1;
    }
    q
}

fn find_quote_exec(s: &[char], p: usize) -> (r: usize)
    requires
        p <= s@.len(),
    ensures
        r == find_quote(s@, p as int),
        p <= r <= s@.len(),
{
    let mut q = p;
    while q < s.len() && s[q] != '"' && s[q] != '\''
        invariant
            p <= q <= s@.len(),
            find_quote(s@, p as int) == find_quote(s@, q as int),
        decreases s.len() - q,
    {
        q = q + 1;
    }
    q
}

// ---------------------------------------------------------------------------
// Markdown images
// ---------------------------------------------------------------------------

/// The markdown image starting at `i`, if one does: where it ends, its
/// alternative text and its URL.
pub open spec fn md_match_at(s: Seq<char>, i: int) -> Option<(int, Seq<char>, Seq<char>)> {
    if !(0 <= i && i + 1 < s.len() && s[i] == '!' && s[i + 1] == '[') {
        None
    } else {
        let j = find_char(s, i + 2, ']');
        if !(j + 1 < s.len() && s[j + 1] == '(') {
            None
        } else {
            let p = skip_ws(s, j + 2);
            let start = if p + 1 < s.len() && s[p] == '<' && md_url_char(s[p + 1]) {
                p + 1
            } else {
                p
            };
            let q = url_run_end(s, start);
            if q == start {
                None
            } else {
                let r = if q < s.len() && s[q] == '>' {
                    q + 1
                } else {
                    q
                };
                let t = skip_ws(s, r);
                if t < s.len() && s[t] == ')' {
                    Some((t + 1, s.subrange(i + 2, j), s.subrange(start, q)))
                } else {
                    None
                }
            }
        }
    }
}

proof fn lemma_helpers_bounds(s: Seq<char>, p: int)
    requires
        0 <= p <= s.len(),
    ensures
        p <= skip_ws(s, p) <= s.len(),
        p <= url_run_end(s, p) <= s.len(),
        p <= find_quote(s, p) <= s.len(),
        forall|c: char| p <= #[trigger] find_char(s, p, c) <= s.len(),
    decreases s.len() - p,
{
    if p < s.len() {
        lemma_helpers_bounds(s, p + 1);
        assert forall|c: char| p <= #[trigger] find_char(s, p, c) <= s.len() by {
            if s[p] != c {
                assert(find_char(s, p, c) == find_char(s, p + 1, c));
                assert(find_char(s, p + 1, c) <= s.len());
            }
        }
    }
}

proof fn lemma_md_match_bounds(s: Seq<char>, i: int)
    requires
        0 <= i,
    ensures
        md_match_at(s, i) matches Some((e, _, _)) ==> i < e <= s.len(),
{
    if 0 <= i && i + 1 < s.len() && s[i] == '!' && s[i + 1] == '[' {
        lemma_helpers_bounds(s, i + 2);
        let j = find_char(s, i + 2, ']');
        if j + 1 < s.len() && s[j + 1] == '(' {
            lemma_helpers_bounds(s, j + 2);
            let p = skip_ws(s, j + 2);
            let start = if p + 1 < s.len() && s[p] == '<' && md_url_char(s[p + 1]) {
                p + 1
            } else {
                p
            };
            lemma_helpers_bounds(s, start);
            let q = url_run_end(s, start);
            let r = if q < s.len() && s[q] == '>' {
                q + 1
            } else {
                q
            };
            lemma_helpers_bounds(s, r);
        }
    }
}

/// The markdown image starting at `i`, if one does.
fn md_match_exec(s: &[char], i: usize) -> (r: Option<(usize, Vec<char>, Vec<char>)>)
    requires
        i < s@.len(),
    ensures
        match r {
            Some((e, alt, url)) => md_match_at(s@, i as int) == Some((e as int, alt@, url@)),
            None => md_match_at(s@, i as int) is None,
        },
{
    let n = s.len();
    if !(i + 1 < n && s[i] == '!' && s[i + 1] == '[') {
        return None;
    }
    let j = find_char_exec(s, i + 2, ']');
    if !(j < n && j + 1 < n && s[j + 1] == '(') {
        return None;
    }
    let p = skip_ws_exec(s, j + 2);
    let start = if p < n && p + 1 < n && s[p] == '<' && s[p + 1] != ')' && s[p + 1] != '>'
        && !is_whitespace(s[p + 1]) {
        p + 1
    } else {
        p
    };
    let q = url_run_end_exec(s, start);
    if q == start {
        return None;
    }
    let r = if q < n && s[q] == '>' {
        q + 1
    } else {
        q
    };
    let t = skip_ws_exec(s, r);
    if t < n && s[t] == ')' {
        Some((t + 1, slice_chars(s, i + 2, j), slice_chars(s, start, q)))
    } else {
        None
    }
}

/// The markdown images of `s` from position `i` on, the text between them
/// starting at `gap`: for each image, the text before it, the image, its
/// alternative text and its URL; then the text after the last one.
pub open spec fn md_split_from(s: Seq<char>, gap: int, i: int) -> (Seq<Quad>, Seq<char>)
    decreases s.len() - i,
{
    if i < 0 || i >= s.len() {
        (seq![], s.subrange(gap, s.len() as int))
    } else {
        match md_match_at(s, i) {
            Some((e, alt, url)) => if i < e <= s.len() {
                let rest = md_split_from(s, e, e);
                (seq![(s.subrange(gap, i), s.subrange(i, e), alt, url)] + rest.0, rest.1)
            } else {
                md_split_from(s, gap, i + 1)
            },
            None => md_split_from(s, gap, i + 1),
        }
    }
}

/// The markdown images of a text, left to right, with the text around them.
pub open spec fn markdown_image_split(text: Seq<char>) -> (Seq<Quad>, Seq<char>) {
    md_split_from(text, 0, 0)
}

// ---------------------------------------------------------------------------
// HTML images
// ---------------------------------------------------------------------------

/// The `src` attribute at `p`, if one stands there: where its value starts,
/// where it ends (at the closing quote) and where the tag ends.
pub open spec fn html_src_at(s: Seq<char>, p: int) -> Option<(int, int, int)> {
    if !(1 <= p && p + 3 <= s.len() && s[p] == 's' && s[p + 1] == 'r' && s[p + 2] == 'c'
        && regex_word_char(s[p - 1]) != regex_word_char('s')) {
        None
    } else {
        let a = skip_ws(s, p + 3);
        if !(a < s.len() && s[a] == '=') {
            None
        } else {
            let b = skip_ws(s, a + 1);
            if !(b < s.len() && is_quote(s[b])) {
                None
            } else {
                let u = find_quote(s, b + 1);
                if !(b + 1 < u && u < s.len()) {
                    None
                } else {
                    let e = find_char(s, u + 1, '>');
                    if e < s.len() {
                        Some((b + 1, u, e + 1))
                    } else {
                        None
                    }
                }
            }
        }
    }
}

/// The last `src` attribute at or before `p` (and after `<img` at `i`).
pub open spec fn html_src_before(s: Seq<char>, i: int, p: int) -> Option<(int, int, int)>
    decreases p - i,
{
    if p < i + 4 {
        None
    } else {
        match html_src_at(s, p) {
            Some(x) => Some(x),
            None => html_src_before(s, i, p - 1),
        }
    }
}

/// The `<img` tag starting at `i`, if one does (see the module's text).
pub open spec fn html_match_at(s: Seq<char>, i: int) -> Option<(int, int, int)> {
    if !(0 <= i && i + 4 < s.len() && s[i] == '<' && s[i + 1] == 'i' && s[i + 2] == 'm' && s[i + 3]
        == 'g' && regex_word_char('g') != regex_word_char(s[i + 4])) {
        None
    } else {
        html_src_before(s, i, find_char(s, i + 4, '>'))
    }
}

proof fn lemma_html_src_at_bounds(s: Seq<char>, p: int)
    requires
        0 <= p,
    ensures
        html_src_at(s, p) matches Some((q, u, e)) ==> p < q < u < e <= s.len(),
{
    if 1 <= p && p + 3 <= s.len() {
        lemma_helpers_bounds(s, p + 3);
        let a = skip_ws(s, p + 3);
        if a < s.len() {
            lemma_helpers_bounds(s, a + 1);
            let b = skip_ws(s, a + 1);
            if b < s.len() {
                lemma_helpers_bounds(s, b + 1);
                let u = find_quote(s, b + 1);
                if u < s.len() {
                    lemma_helpers_bounds(s, u + 1);
                }
            }
        }
    }
}

proof fn lemma_html_src_before_bounds(s: Seq<char>, i: int, p: int)
    requires
        0 <= i,
    ensures
        html_src_before(s, i, p) matches Some((q, u, e)) ==> i < q < u < e <= s.len(),
    decreases p - i,
{
    if p >= i + 4 {
        lemma_html_src_at_bounds(s, p);
        lemma_html_src_before_bounds(s, i, p - 1);
    }
}

fn html_src_exec(s: &[char], p: usize) -> (r: Option<(usize, usize, usize)>)
    requires
        p <= s@.len(),
    ensures
        match r {
            Some((q, u, e)) => html_src_at(s@, p as int) == Some((q as int, u as int, e as int)),
            None => html_src_at(s@, p as int) is None,
        },
{
    let n = s.len();
    if !(1 <= p && p < n && n - p >= 3 && s[p] == 's' && s[p + 1] == 'r' && s[p + 2] == 'c') {
        return None;
    }
    if is_regex_word_char(s[p - 1]) == is_regex_word_char('s') {
        return None;
    }
    let a = skip_ws_exec(s, p + 3);
    if !(a < n && s[a] == '=') {
        return None;
    }
    let b = skip_ws_exec(s, a + 1);
    if !(b < n && (s[b] == '"' || s[b] == '\'')) {
        return None;
    }
    let u = find_quote_exec(s, b + 1);
    if !(b + 1 < u && u < n) {
        return None;
    }
    let e = find_char_exec(s, u + 1, '>');
    if e < n {
        Some((b + 1, u, e + 1))
    } else {
        None
    }
}

/// The `<img` tag starting at `i`, if one does.
fn html_match_exec(s: &[char], i: usize) -> (r: Option<(usize, usize, usize)>)
    requires
        i < s@.len(),
    ensures
        match r {
            Some((q, u, e)) => html_match_at(s@, i as int) == Some((q as int, u as int, e as int)),
            None => html_match_at(s@, i as int) is None,
        },
{
    let n = s.len();
    if !(n - i > 4 && s[i] == '<' && s[i + 1] == 'i' && s[i + 2] == 'm' && s[i + 3] == 'g') {
        return None;
    }
    if is_regex_word_char('g') == is_regex_word_char(s[i + 4]) {
        return None;
    }
    let g = find_char_exec(s, i + 4, '>');
    let mut p = g;
    while p >= i + 4
        invariant
            i + 4 < n,
            n == s@.len(),
            p <= g <= n,
            html_match_at(s@, i as int) == html_src_before(s@, i as int, p as int),
        decreases p,
    {
        match html_src_exec(s, p) {
            Some(x) => {
                return Some(x);
            },
            None => {},
        }
        p = p - 1;
    }
    None
}

/// The HTML images of `s` from position `i` on, the text between them
/// starting at `gap`: for each tag, the text before it, the tag up to its
/// value, the value, and the rest of the tag; then the text after the last.
pub open spec fn html_split_from(s: Seq<char>, gap: int, i: int) -> (Seq<Quad>, Seq<char>)
    decreases s.len() - i,
{
    if i < 0 || i >= s.len() {
        (seq![], s.subrange(gap, s.len() as int))
    } else {
        match html_match_at(s, i) {
            Some((q, u, e)) => if i < q < u < e <= s.len() {
                let rest = html_split_from(s, e, e);
                (
                    seq![(s.subrange(gap, i), s.subrange(i, q), s.subrange(q, u), s.subrange(u, e))]
                        + rest.0,
                    rest.1,
                )
            } else {
                html_split_from(s, gap, i + 1)
            },
            None => html_split_from(s, gap, i + 1),
        }
    }
}

/// The HTML images of a text, left to right, with the text around them.
pub open spec fn html_image_split(text: Seq<char>) -> (Seq<Quad>, Seq<char>) {
    html_split_from(text, 0, 0)
}

// ---------------------------------------------------------------------------
// Rejoining
// ---------------------------------------------------------------------------

/// The text the pieces of a split stand for: before-text and match, in
/// order, then the rest.
pub open spec fn rejoin(parts: Seq<(Seq<char>, Seq<char>)>, tail: Seq<char>) -> Seq<char>
    decreases parts.len(),
{
    if parts.len() == 0 {
        tail
    } else {
        parts[0].0 + parts[0].1 + rejoin(parts.drop_first(), tail)
    }
}

/// The before-text and whole match of each markdown image.
pub open spec fn md_pairs(parts: Seq<Quad>) -> Seq<(Seq<char>, Seq<char>)> {
    parts.map_values(|q: Quad| (q.0, q.1))
}

/// The before-text and whole tag of each HTML image.
pub open spec fn html_pairs(parts: Seq<Quad>) -> Seq<(Seq<char>, Seq<char>)> {
    parts.map_values(|q: Quad| (q.0, q.1 + q.2 + q.3))
}

proof fn lemma_md_rejoin(s: Seq<char>, gap: int, i: int)
    requires
        0 <= gap <= i <= s.len(),
    ensures
        rejoin(md_pairs(md_split_from(s, gap, i).0), md_split_from(s, gap, i).1) == s.subrange(
            gap,
            s.len() as int,
        ),
    decreases s.len() - i,
{
    if i < s.len() {
        lemma_md_match_bounds(s, i);
        match md_match_at(s, i) {
            Some((e, alt, url)) => {
                lemma_md_rejoin(s, e, e);
                let rest = md_split_from(s, e, e);
                let parts = seq![(s.subrange(gap, i), s.subrange(i, e), alt, url)] + rest.0;
                assert(md_pairs(parts).drop_first() =~= md_pairs(rest.0));
                assert(md_pairs(parts)[0] == (s.subrange(gap, i), s.subrange(i, e)));
                assert(s.subrange(gap, i) + s.subrange(i, e) + s.subrange(e, s.len() as int)
                    =~= s.subrange(gap, s.len() as int));
            },
            None => {
                lemma_md_rejoin(s, gap, i + 1);
            },
        }
    } else {
        assert(md_pairs(Seq::<Quad>::empty()) =~= Seq::<(Seq<char>, Seq<char>)>::empty());
    }
}

proof fn lemma_html_rejoin(s: Seq<char>, gap: int, i: int)
    requires
        0 <= gap <= i <= s.len(),
    ensures
        rejoin(html_pairs(html_split_from(s, gap, i).0), html_split_from(s, gap, i).1)
            == s.subrange(gap, s.len() as int),
    decreases s.len() - i,
{
    if i < s.len() {
        match html_match_at(s, i) {
            Some((q, u, e)) => {
                if i < q < u < e <= s.len() {
                    lemma_html_rejoin(s, e, e);
                    let rest = html_split_from(s, e, e);
                    let parts = seq![
                        (s.subrange(gap, i), s.subrange(i, q), s.subrange(q, u), s.subrange(u, e)),
                    ] + rest.0;
                    assert(html_pairs(parts).drop_first() =~= html_pairs(rest.0));
                    assert(html_pairs(parts)[0] == (
                        s.subrange(gap, i),
                        s.subrange(i, q) + s.subrange(q, u) + s.subrange(u, e),
                    ));
                    assert(s.subrange(gap, i) + (s.subrange(i, q) + s.subrange(q, u) + s.subrange(
                        u,
                        e,
                    )) + s.subrange(e, s.len() as int) =~= s.subrange(gap, s.len() as int));
                } else {
                    lemma_html_rejoin(s, gap, i + 1);
                }
            },
            None => {
                lemma_html_rejoin(s, gap, i + 1);
            },
        }
    } else {
        assert(html_pairs(Seq::<Quad>::empty()) =~= Seq::<(Seq<char>, Seq<char>)>::empty());
    }
}

// ---------------------------------------------------------------------------
// Scanning
// ---------------------------------------------------------------------------

/// The texts of four-string tuples.
pub open spec fn quads(v: Seq<(String, String, String, String)>) -> Seq<Quad> {
    v.map_values(|q: (String, String, String, String)| (q.0@, q.1@, q.2@, q.3@))
}

fn text_of(s: &[char], from: usize, to: usize) -> (r: String)
    requires
        from <= to <= s@.len(),
    ensures
        r@ == s@.subrange(from as int, to as int),
{
    string_of(slice_chars(s, from, to).as_slice())
}

/// The markdown images of a text (see [`markdown_image_split`]): for each,
/// the text before it, the image, its alternative text and its URL; then the
/// text after the last one. The pieces rejoin into the text.
pub fn markdown_image_captures(text: &str) -> (r: (Vec<(String, String, String, String)>, String))
    ensures
        (quads(r.0@), r.1@) == markdown_image_split(text@),
        rejoin(md_pairs(quads(r.0@)), r.1@) == text@,
{
    let cs = chars_of(text);
    let s = cs.as_slice();
    let ghost t = s@;
    let mut parts: Vec<(String, String, String, String)> = Vec::new();
    let mut gap: usize = 0;
    let mut i: usize = 0;
    assert(quads(parts@) =~= Seq::<Quad>::empty());
    while i < s.len()
        invariant
            t == s@,
            gap <= i <= s@.len(),
            markdown_image_split(t) == (
                quads(parts@) + md_split_from(t, gap as int, i as int).0,
                md_split_from(t, gap as int, i as int).1,
            ),
        decreases s.len() - i,
    {
        proof {
            lemma_md_match_bounds(t, i as int);
        }
        match md_match_exec(s, i) {
            Some((e, alt, url)) => {
                let ghost before = quads(parts@);
                let ghost rest = md_split_from(t, e as int, e as int);
                parts.push(
                    (text_of(s, gap, i), text_of(s, i, e), string_of(alt.as_slice()), string_of(url.as_slice())),
                );
                assert(quads(parts@) =~= before.push(
                    (t.subrange(gap as int, i as int), t.subrange(i as int, e as int), alt@, url@),
                ));
                assert(before + (seq![
                    (t.subrange(gap as int, i as int), t.subrange(i as int, e as int), alt@, url@),
                ] + rest.0) =~= quads(parts@) + rest.0);
                gap = e;
                i = e;
            },
            None => {
                i = i + 1;
            },
        }
    }
    let tail = text_of(s, gap, s.len());
    assert(quads(parts@) + Seq::<Quad>::empty() =~= quads(parts@));
    proof {
        lemma_md_rejoin(t, 0, 0);
        assert(t.subrange(0, t.len() as int) =~= t);
    }
    (parts, tail)
}

/// The HTML images of a text (see [`html_image_split`]): for each, the text
/// before it, the tag up to its value, the value, and the rest of the tag;
/// then the text after the last one. The pieces rejoin into the text.
pub fn html_image_captures(text: &str) -> (r: (Vec<(String, String, String, String)>, String))
    ensures
        (quads(r.0@), r.1@) == html_image_split(text@),
        rejoin(html_pairs(quads(r.0@)), r.1@) == text@,
{
    let cs = chars_of(text);
    let s = cs.as_slice();
    let ghost t = s@;
    let mut parts: Vec<(String, String, String, String)> = Vec::new();
    let mut gap: usize = 0;
    let mut i: usize = 0;
    assert(quads(parts@) =~= Seq::<Quad>::empty());
    while i < s.len()
        invariant
            t == s@,
            gap <= i <= s@.len(),
            html_image_split(t) == (
                quads(parts@) + html_split_from(t, gap as int, i as int).0,
                html_split_from(t, gap as int, i as int).1,
            ),
        decreases s.len() - i,
    {
        proof {
            lemma_html_src_before_bounds(t, i as int, find_char(t, i as int + 4, '>'));
        }
        match html_match_exec(s, i) {
            Some((q, u, e)) => {
                let ghost before = quads(parts@);
                let ghost rest = html_split_from(t, e as int, e as int);
                parts.push((text_of(s, gap, i), text_of(s, i, q), text_of(s, q, u), text_of(s, u, e)));
                let ghost quad = (
                    t.subrange(gap as int, i as int),
                    t.subrange(i as int, q as int),
                    t.subrange(q as int, u as int),
                    t.subrange(u as int, e as int),
                );
                assert(quads(parts@) =~= before.push(quad));
                assert(before + (seq![quad] + rest.0) =~= quads(parts@) + rest.0);
                gap = e;
                i = e;
            },
            None => {
                i = i + 1;
            },
        }
    }
    let tail = text_of(s, gap, s.len());
    assert(quads(parts@) + Seq::<Quad>::empty() =~= quads(parts@));
    proof {
        lemma_html_rejoin(t, 0, 0);
        assert(t.subrange(0, t.len() as int) =~= t);
    }
    (parts, tail)
}

} // verus!
