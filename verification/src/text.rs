//! Character-sequence helpers shared by the parsers of this crate.
//!
//! Text is handled as `Vec<char>` / `[char]` inside the library; the two
//! conversions with `str` / `String` are the only trusted steps.
use vstd::prelude::*;

verus! {

// ---------------------------------------------------------------------------
// Conversions
// ---------------------------------------------------------------------------

/// The characters of `s` in order (`str::chars` collected into a vector).
#[verifier::external_body]
pub(crate) fn chars_of(s: &str) -> (v: Vec<char>)
    ensures
        v@ == s@,
{
    s.chars().collect()
}

/// The string made of the characters of `v` (`String::from_iter`).
#[verifier::external_body]
pub(crate) fn string_of(v: &[char]) -> (s: String)
    ensures
        s@ == v@,
{
    v.iter().collect()
}

/// What `str::to_lowercase` yields for the given characters (full Unicode lowercase mapping).
pub uninterp spec fn lowercase(s: Seq<char>) -> Seq<char>;

/// `str::to_lowercase`: the Unicode lowercase form of `s`.
#[verifier::external_body]
pub(crate) fn to_lowercase(s: &[char]) -> (r: Vec<char>)
    ensures
        r@ == lowercase(s@),
{
    let text: String = s.iter().collect();
    text.to_lowercase().chars().collect()
}

/// Copies `s[from..to]`.
pub fn slice_chars(s: &[char], from: usize, to: usize) -> (r: Vec<char>)
    requires
        from <= to <= s@.len(),
    ensures
        r@ == s@.subrange(from as int, to as int),
{
    let mut r: Vec<char> = Vec::new();
    let mut i = from;
    while i < to
        invariant
            from <= i <= to <= s@.len(),
            r@ == s@.subrange(from as int, i as int),
        decreases to - i,
    {
        r.push(s[i]);
        i = i + 1;
        assert(r@ =~= s@.subrange(from as int, i as int));
    }
    r
}

/// Appends all characters of `t` to `out`.
pub fn push_all(out: &mut Vec<char>, t: &[char])
    ensures
        final(out)@ == old(out)@ + t@,
{
    let mut i: usize = 0;
    while i < t.len()
        invariant
            i <= t@.len(),
            out@ == old(out)@ + t@.take(i as int),
        decreases t.len() - i,
    {
        out.push(t[i]);
        i = i + 1;
        assert(out@ =~= old(out)@ + t@.take(i as int));
    }
    assert(t@.take(t@.len() as int) =~= t@);
}

/// Appends all characters of `t` to `out`.
pub fn push_str(out: &mut Vec<char>, t: &str)
    ensures
        final(out)@ == old(out)@ + t@,
{
    let v = chars_of(t);
    push_all(out, v.as_slice());
}

// ---------------------------------------------------------------------------
// Predicates
// ---------------------------------------------------------------------------

/// `pat` occurs in `s` starting at index `i`.
pub open spec fn occurs_at(s: Seq<char>, pat: Seq<char>, i: int) -> bool {
    0 <= i && i + pat.len() <= s.len() && s.subrange(i, i + pat.len()) == pat
}

/// `pat` occurs somewhere in `s` (`str::contains` with a string pattern).
pub open spec fn contains_seq(s: Seq<char>, pat: Seq<char>) -> bool {
    exists|i: int| occurs_at(s, pat, i)
}

/// `str::starts_with`.
pub open spec fn starts(s: Seq<char>, pat: Seq<char>) -> bool {
    pat.len() <= s.len() && s.take(pat.len() as int) == pat
}

/// `str::ends_with`.
pub open spec fn ends(s: Seq<char>, pat: Seq<char>) -> bool {
    pat.len() <= s.len() && s.skip(s.len() - pat.len()) == pat
}

/// Whether `pat` occurs in `s`.
pub fn contains(s: &[char], pat: &[char]) -> (r: bool)
    ensures
        r == contains_seq(s@, pat@),
{
    if pat.len() > s.len() {
        assert forall|i: int| !occurs_at(s@, pat@, i) by {}
        return false;
    }
    let last = s.len() - pat.len();
    let mut i: usize = 0;
    while i < last
        invariant
            last == s@.len() - pat@.len(),
            pat@.len() <= s@.len(),
            i <= last,
            forall|k: int| 0 <= k < i ==> !occurs_at(s@, pat@, k),
        decreases last - i,
    {
        if occurs_here(s, pat, i) {
            return true;
        }
        i = i + 1;
    }
    if occurs_here(s, pat, last) {
        return true;
    }
    assert forall|k: int| !occurs_at(s@, pat@, k) by {
        if 0 <= k <= last {
        }
    }
    false
}

/// Whether `pat` occurs in `s`.
pub fn contains_str(s: &[char], pat: &str) -> (r: bool)
    ensures
        r == contains_seq(s@, pat@),
{
    let p = chars_of(pat);
    contains(s, p.as_slice())
}

/// Whether `pat` occurs in `s` at index `i`.
pub fn occurs_here(s: &[char], pat: &[char], i: usize) -> (r: bool)
    requires
        i + pat@.len() <= s@.len(),
    ensures
        r == occurs_at(s@, pat@, i as int),
{
    let n = s.len();
    let mut j: usize = 0;
    while j < pat.len()
        invariant
            n == s@.len(),
            i + pat@.len() <= s@.len(),
            j <= pat@.len(),
            forall|k: int| 0 <= k < j ==> s@[i + k] == pat@[k],
        decreases pat.len() - j,
    {
        if s[i + j] != pat[j] {
            assert(s@.subrange(i as int, i + pat@.len())[j as int] != pat@[j as int]);
            return false;
        }
        j = j + 1;
    }
    assert(s@.subrange(i as int, i + pat@.len()) =~= pat@);
    true
}

/// Whether `s` starts with `pat`.
pub fn starts_with(s: &[char], pat: &[char]) -> (r: bool)
    ensures
        r == starts(s@, pat@),
{
    if pat.len() > s.len() {
        return false;
    }
    let r = occurs_here(s, pat, 0);
    assert(s@.subrange(0, pat@.len() as int) =~= s@.take(pat@.len() as int));
    r
}

/// Whether `s` starts with `pat`.
pub fn starts_with_str(s: &[char], pat: &str) -> (r: bool)
    ensures
        r == starts(s@, pat@),
{
    let p = chars_of(pat);
    starts_with(s, p.as_slice())
}

/// Whether `s` ends with `pat`.
pub fn ends_with(s: &[char], pat: &[char]) -> (r: bool)
    ensures
        r == ends(s@, pat@),
{
    if pat.len() > s.len() {
        return false;
    }
    let r = occurs_here(s, pat, s.len() - pat.len());
    assert(s@.subrange(s@.len() - pat@.len(), s@.len() as int) =~= s@.skip(
        s@.len() - pat@.len(),
    ));
    r
}

/// Whether `s` ends with `pat`.
pub fn ends_with_str(s: &[char], pat: &str) -> (r: bool)
    ensures
        r == ends(s@, pat@),
{
    let p = chars_of(pat);
    ends_with(s, p.as_slice())
}

/// Whether the two character sequences are equal.
pub fn chars_eq(a: &[char], b: &[char]) -> (r: bool)
    ensures
        r == (a@ == b@),
{
    if a.len() != b.len() {
        return false;
    }
    let r = occurs_here(a, b, 0);
    assert(a@.subrange(0, b@.len() as int) =~= a@);
    r
}

/// Whether two strings are equal.
pub fn str_eq(a: &str, b: &str) -> (r: bool)
    ensures
        r == (a@ == b@),
{
    let x = chars_of(a);
    eq_str(x.as_slice(), b)
}

/// Whether the characters of `a` spell `b`.
pub fn eq_str(a: &[char], b: &str) -> (r: bool)
    ensures
        r == (a@ == b@),
{
    let p = chars_of(b);
    chars_eq(a, p.as_slice())
}

/// `str::replace` with a non-empty string pattern: every non-overlapping
/// occurrence of `from`, scanning left to right, replaced by `to`.
pub open spec fn replace_all(s: Seq<char>, from: Seq<char>, to: Seq<char>) -> Seq<char>
    decreases s.len(),
{
    if from.len() == 0 || s.len() < from.len() {
        s
    } else if starts(s, from) {
        to + replace_all(s.skip(from.len() as int), from, to)
    } else {
        seq![s[0]] + replace_all(s.drop_first(), from, to)
    }
}

/// `str::trim_end_matches` with a string pattern: every trailing copy of `pat` removed.
pub open spec fn trim_end_matches(s: Seq<char>, pat: Seq<char>) -> Seq<char>
    decreases s.len(),
{
    if pat.len() > 0 && ends(s, pat) {
        trim_end_matches(s.take(s.len() - pat.len()), pat)
    } else {
        s
    }
}

/// `str::replace` with a non-empty string pattern.
pub fn replace_chars(s: &[char], from: &[char], to: &[char]) -> (r: Vec<char>)
    requires
        from@.len() > 0,
    ensures
        r@ == replace_all(s@, from@, to@),
{
    let mut out: Vec<char> = Vec::new();
    let mut i: usize = 0;
    assert(s@.skip(0) =~= s@);
    while i < s.len()
        invariant
            i <= s@.len(),
            from@.len() > 0,
            out@ + replace_all(s@.skip(i as int), from@, to@) == replace_all(s@, from@, to@),
        decreases s.len() - i,
    {
        let ghost rest = s@.skip(i as int);
        if from.len() <= s.len() - i && occurs_here(s, from, i) {
            assert(rest.take(from@.len() as int) =~= s@.subrange(i as int, i + from@.len()));
            assert(rest.skip(from@.len() as int) =~= s@.skip(i + from@.len()));
            push_all(&mut out, to);
            i = i + from.len();
            assert(out@ + replace_all(s@.skip(i as int), from@, to@) =~= replace_all(s@, from@, to@));
        } else {
            proof {
                if rest.len() >= from@.len() {
                    assert(rest.take(from@.len() as int) =~= s@.subrange(i as int, i + from@.len()));
                }
                assert(rest.drop_first() =~= s@.skip(i + 1));
                assert(rest[0] == s@[i as int]);
                if rest.len() < from@.len() {
                    // no occurrence fits: the rest is copied as is
                    lemma_replace_short(rest, from@, to@);
                    lemma_replace_short(rest.drop_first(), from@, to@);
                }
            }
            out.push(s[i]);
            i = i + 1;
            assert(out@ + replace_all(s@.skip(i as int), from@, to@) =~= replace_all(s@, from@, to@));
        }
    }
    assert(s@.skip(i as int) =~= Seq::<char>::empty());
    assert(out@ + Seq::<char>::empty() =~= out@);
    out
}

proof fn lemma_replace_short(s: Seq<char>, from: Seq<char>, to: Seq<char>)
    requires
        s.len() < from.len(),
    ensures
        replace_all(s, from, to) == s,
{
}

/// `str::trim_end_matches` with a non-empty string pattern.
pub fn trim_end_matches_chars(s: &[char], pat: &[char]) -> (r: Vec<char>)
    requires
        pat@.len() > 0,
    ensures
        r@ == trim_end_matches(s@, pat@),
{
    let mut end = s.len();
    assert(s@.take(end as int) =~= s@);
    while end >= pat.len() && occurs_here(s, pat, end - pat.len())
        invariant
            end <= s@.len(),
            pat@.len() > 0,
            trim_end_matches(s@.take(end as int), pat@) == trim_end_matches(s@, pat@),
        decreases end,
    {
        let ghost t = s@.take(end as int);
        assert(t.skip(t.len() - pat@.len()) =~= s@.subrange(end - pat@.len(), end as int));
        assert(t.take(t.len() - pat@.len()) =~= s@.take(end - pat@.len()));
        end = end - pat.len();
    }
    proof {
        let t = s@.take(end as int);
        if end >= pat@.len() {
            assert(t.skip(t.len() - pat@.len()) =~= s@.subrange(end - pat@.len(), end as int));
        }
    }
    slice_chars(s, 0, end)
}

/// `str::strip_prefix`.
pub fn strip_prefix(s: &[char], pat: &[char]) -> (r: Option<Vec<char>>)
    ensures
        match r {
            Some(rest) => starts(s@, pat@) && rest@ == s@.skip(pat@.len() as int),
            None => !starts(s@, pat@),
        },
{
    if starts_with(s, pat) {
        let rest = slice_chars(s, pat.len(), s.len());
        assert(rest@ =~= s@.skip(pat@.len() as int));
        Some(rest)
    } else {
        None
    }
}

/// `str::strip_prefix` with a string pattern.
pub fn strip_prefix_str(s: &[char], pat: &str) -> (r: Option<Vec<char>>)
    ensures
        match r {
            Some(rest) => starts(s@, pat@) && rest@ == s@.skip(pat@.len() as int),
            None => !starts(s@, pat@),
        },
{
    let p = chars_of(pat);
    strip_prefix(s, p.as_slice())
}

// ---------------------------------------------------------------------------
// Whitespace and trimming
// ---------------------------------------------------------------------------

/// `char::is_whitespace`: the Unicode `White_Space` property.
pub open spec fn is_ws(c: char) -> bool {
    ('\u{9}' <= c && c <= '\u{d}') || c == ' ' || c == '\u{85}' || c == '\u{a0}' || c
        == '\u{1680}' || ('\u{2000}' <= c && c <= '\u{200a}') || c == '\u{2028}' || c
        == '\u{2029}' || c == '\u{202f}' || c == '\u{205f}' || c == '\u{3000}'
}

/// `str::trim_start`.
pub open spec fn trim_start(s: Seq<char>) -> Seq<char>
    decreases s.len(),
{
    if s.len() > 0 && is_ws(s[0]) {
        trim_start(s.drop_first())
    } else {
        s
    }
}

/// `str::trim_end`.
pub open spec fn trim_end(s: Seq<char>) -> Seq<char>
    decreases s.len(),
{
    if s.len() > 0 && is_ws(s.last()) {
        trim_end(s.drop_last())
    } else {
        s
    }
}

/// `str::trim`.
pub open spec fn trim(s: Seq<char>) -> Seq<char> {
    trim_end(trim_start(s))
}

pub fn is_whitespace(c: char) -> (r: bool)
    ensures
        r == is_ws(c),
{
    ('\u{9}' <= c && c <= '\u{d}') || c == ' ' || c == '\u{85}' || c == '\u{a0}' || c
        == '\u{1680}' || ('\u{2000}' <= c && c <= '\u{200a}') || c == '\u{2028}' || c
        == '\u{2029}' || c == '\u{202f}' || c == '\u{205f}' || c == '\u{3000}'
}

proof fn lemma_trim_start_skip(s: Seq<char>, i: int)
    requires
        0 <= i <= s.len(),
        forall|k: int| 0 <= k < i ==> is_ws(s[k]),
    ensures
        trim_start(s) == trim_start(s.skip(i)),
    decreases i,
{
    if i > 0 {
        assert(s.skip(1) == s.drop_first());
        lemma_trim_start_skip(s.drop_first(), i - 1);
        assert(s.drop_first().skip(i - 1) =~= s.skip(i));
    } else {
        assert(s.skip(0) =~= s);
    }
}

proof fn lemma_trim_end_take(s: Seq<char>, j: int)
    requires
        0 <= j <= s.len(),
        forall|k: int| j <= k < s.len() ==> is_ws(s[k]),
    ensures
        trim_end(s) == trim_end(s.take(j)),
    decreases s.len() - j,
{
    if j < s.len() {
        lemma_trim_end_take(s.drop_last(), j);
        assert(s.drop_last().take(j) =~= s.take(j));
    } else {
        assert(s.take(j) =~= s);
    }
}

/// The trimmed text `trim(s)` as `s[start..end]`.
pub fn trim_bounds(s: &[char]) -> (r: (usize, usize))
    ensures
        r.0 <= r.1 <= s@.len(),
        trim(s@) == s@.subrange(r.0 as int, r.1 as int),
{
    let mut a: usize = 0;
    while a < s.len() && is_whitespace(s[a])
        invariant
            a <= s@.len(),
            forall|k: int| 0 <= k < a ==> is_ws(s@[k]),
        decreases s.len() - a,
    {
        a = a + 1;
    }
    proof {
        lemma_trim_start_skip(s@, a as int);
    }
    let ghost t = s@.skip(a as int);
    let mut b: usize = s.len();
    while b > a && is_whitespace(s[b - 1])
        invariant
            a <= b <= s@.len(),
            t == s@.skip(a as int),
            forall|k: int| b <= k < s@.len() ==> is_ws(s@[k]),
        decreases b,
    {
        b = b - 1;
    }
    proof {
        lemma_trim_end_take(t, b - a);
        assert(t.take(b - a) =~= s@.subrange(a as int, b as int));
        if b > a {
            assert(!is_ws(t.take(b - a).last()));
        }
        if t.take(b - a).len() > 0 {
            assert(!is_ws(t.take(b - a)[0]));
        }
        if a < s@.len() {
            assert(!is_ws(t[0]));
        }
        assert(trim_start(t) == t);
        if b - a > 0 {
            assert(trim_end(t.take(b - a)) == t.take(b - a));
        } else {
            assert(t.take(b - a).len() == 0);
        }
    }
    (a, b)
}

/// `str::trim`.
pub fn trimmed(s: &[char]) -> (r: Vec<char>)
    ensures
        r@ == trim(s@),
{
    let (a, b) = trim_bounds(s);
    slice_chars(s, a, b)
}


/// The leading run of non-whitespace characters of `t`.
pub open spec fn word_prefix(t: Seq<char>) -> Seq<char>
    decreases t.len(),
{
    if t.len() == 0 || is_ws(t[0]) {
        seq![]
    } else {
        seq![t[0]] + word_prefix(t.drop_first())
    }
}

/// `str::split_whitespace().next()`: the first word, if there is one.
pub open spec fn first_word(s: Seq<char>) -> Option<Seq<char>> {
    let t = trim_start(s);
    if t.len() == 0 {
        None
    } else {
        Some(word_prefix(t))
    }
}

/// The first whitespace-separated word of `s`.
pub fn first_word_of(s: &[char]) -> (r: Option<Vec<char>>)
    ensures
        match r {
            Some(w) => first_word(s@) == Some(w@),
            None => first_word(s@) is None,
        },
{
    let mut i: usize = 0;
    assert(s@.skip(0) =~= s@);
    while i < s.len() && is_whitespace(s[i])
        invariant
            i <= s@.len(),
            trim_start(s@) == trim_start(s@.skip(i as int)),
        decreases s.len() - i,
    {
        assert(s@.skip(i as int).drop_first() =~= s@.skip(i + 1));
        i = i + 1;
    }
    if i == s.len() {
        assert(s@.skip(i as int) =~= Seq::<char>::empty());
        return None;
    }
    assert(trim_start(s@) == s@.skip(i as int));
    let mut j: usize = i;
    assert(s@.subrange(i as int, j as int) =~= Seq::<char>::empty());
    while j < s.len() && !is_whitespace(s[j])
        invariant
            i <= j <= s@.len(),
            word_prefix(s@.skip(i as int)) == s@.subrange(i as int, j as int) + word_prefix(
                s@.skip(j as int),
            ),
        decreases s.len() - j,
    {
        assert(s@.skip(j as int).drop_first() =~= s@.skip(j + 1));
        assert(s@.subrange(i as int, j + 1) =~= s@.subrange(i as int, j as int) + seq![s@[j as int]]);
        j = j + 1;
    }
    if j < s.len() {
        assert(word_prefix(s@.skip(j as int)) =~= Seq::<char>::empty());
    } else {
        assert(s@.skip(j as int) =~= Seq::<char>::empty());
    }
    assert(s@.subrange(i as int, j as int) + Seq::<char>::empty() =~= s@.subrange(i as int, j as int));
    Some(slice_chars(s, i, j))
}

// ---------------------------------------------------------------------------
// Splitting
// ---------------------------------------------------------------------------

/// The character sequences of a vector of character vectors.
pub open spec fn texts(v: Seq<Vec<char>>) -> Seq<Seq<char>> {
    v.map_values(|x: Vec<char>| x@)
}

/// `str::split` on a single character: the pieces between occurrences of `sep`
/// (always at least one piece).
pub open spec fn split(s: Seq<char>, sep: char) -> Seq<Seq<char>>
    decreases s.len(),
{
    if s.len() == 0 {
        seq![Seq::<char>::empty()]
    } else {
        let prev = split(s.drop_last(), sep);
        if s.last() == sep {
            prev.push(Seq::<char>::empty())
        } else {
            prev.update(prev.len() - 1, prev.last().push(s.last()))
        }
    }
}

pub proof fn lemma_split_nonempty(s: Seq<char>, sep: char)
    ensures
        split(s, sep).len() >= 1,
    decreases s.len(),
{
    if s.len() > 0 {
        lemma_split_nonempty(s.drop_last(), sep);
    }
}

/// Removes one trailing carriage return.
pub open spec fn strip_cr(line: Seq<char>) -> Seq<char> {
    if line.len() > 0 && line.last() == '\r' {
        line.drop_last()
    } else {
        line
    }
}

/// `str::lines`: pieces ended by `\n` (with a `\r` before it removed); a final
/// line ending adds no empty line.
pub open spec fn lines(s: Seq<char>) -> Seq<Seq<char>> {
    let p = split(s, '\n');
    let ended = p.drop_last().map_values(|l: Seq<char>| strip_cr(l));
    if p.last().len() == 0 {
        ended
    } else {
        ended.push(p.last())
    }
}

/// The pieces of `s` between occurrences of `sep`.
pub fn split_char(s: &[char], sep: char) -> (r: Vec<Vec<char>>)
    ensures
        texts(r@) == split(s@, sep),
{
    let mut done: Vec<Vec<char>> = Vec::new();
    let mut cur: Vec<char> = Vec::new();
    let mut i: usize = 0;
    assert(s@.take(0) =~= Seq::<char>::empty());
    while i < s.len()
        invariant
            i <= s@.len(),
            texts(done@).push(cur@) == split(s@.take(i as int), sep),
        decreases s.len() - i,
    {
        let c = s[i];
        proof {
            assert(s@.take(i + 1).drop_last() =~= s@.take(i as int));
            assert(s@.take(i + 1).last() == c);
            lemma_split_nonempty(s@.take(i as int), sep);
        }
        let ghost prev = split(s@.take(i as int), sep);
        let ghost before = texts(done@);
        if c == sep {
            let ghost fin = cur@;
            let finished = cur;
            done.push(finished);
            assert(texts(done@) =~= before.push(fin));
            cur = Vec::new();
            assert(texts(done@).push(cur@) =~= prev.push(Seq::<char>::empty()));
        } else {
            cur.push(c);
            assert(texts(done@).push(cur@) =~= prev.update(
                prev.len() - 1,
                prev.last().push(c),
            ));
        }
        i = i + 1;
    }
    assert(s@.take(s@.len() as int) =~= s@);
    let ghost before = texts(done@);
    let ghost fin = cur@;
    done.push(cur);
    assert(texts(done@) =~= before.push(fin));
    done
}

/// The lines of `s`, as `str::lines` yields them.
pub fn split_lines(s: &[char]) -> (r: Vec<Vec<char>>)
    ensures
        texts(r@) == lines(s@),
{
    let pieces = split_char(s, '\n');
    proof {
        lemma_split_nonempty(s@, '\n');
    }
    let n = pieces.len();
    let mut out: Vec<Vec<char>> = Vec::new();
    let mut i: usize = 0;
    let ghost p = split(s@, '\n');
    while i + 1 < n
        invariant
            n == pieces@.len(),
            n >= 1,
            texts(pieces@) == p,
            i < n,
            texts(out@) == p.take(i as int).map_values(|l: Seq<char>| strip_cr(l)),
        decreases n - i,
    {
        let line = &pieces[i];
        let stripped = if line.len() > 0 && line[line.len() - 1] == '\r' {
            slice_chars(line.as_slice(), 0, line.len() - 1)
        } else {
            slice_chars(line.as_slice(), 0, line.len())
        };
        proof {
            assert(line@ == p[i as int]);
            assert(stripped@ =~= strip_cr(p[i as int]));
        }
        let ghost before = texts(out@);
        let ghost st = stripped@;
        out.push(stripped);
        assert(texts(out@) =~= before.push(st));
        assert(p.take(i + 1) =~= p.take(i as int).push(p[i as int]));
        i = i + 1;
        assert(texts(out@) =~= p.take(i as int).map_values(|l: Seq<char>| strip_cr(l)));
    }
    assert(p.take(i as int) =~= p.drop_last());
    let last = &pieces[n - 1];
    assert(last@ == p.last());
    if last.len() > 0 {
        let copy = slice_chars(last.as_slice(), 0, last.len());
        assert(copy@ =~= p.last());
        let ghost before = texts(out@);
        out.push(copy);
        assert(texts(out@) =~= before.push(p.last()));
    }
    out
}

// ---------------------------------------------------------------------------
// Numbers
// ---------------------------------------------------------------------------

/// The decimal digits of `n` (no sign, no leading zeros; `0` for zero), as
/// `u32`'s `Display` writes them.
pub open spec fn decimal(n: nat) -> Seq<char>
    decreases n,
{
    if n < 10 {
        seq![digit_char(n)]
    } else {
        decimal(n / 10).push(digit_char(n % 10))
    }
}

pub open spec fn digit_char(d: nat) -> char {
    if d == 0 { '0' } else if d == 1 { '1' } else if d == 2 { '2' } else if d == 3 { '3' }
    else if d == 4 { '4' } else if d == 5 { '5' } else if d == 6 { '6' } else if d == 7 { '7' }
    else if d == 8 { '8' } else { '9' }
}

fn digit(d: u64) -> (c: char)
    requires
        d < 10,
    ensures
        c == digit_char(d as nat),
{
    if d == 0 { '0' } else if d == 1 { '1' } else if d == 2 { '2' } else if d == 3 { '3' }
    else if d == 4 { '4' } else if d == 5 { '5' } else if d == 6 { '6' } else if d == 7 { '7' }
    else if d == 8 { '8' } else { '9' }
}

/// The decimal text of `n`.
pub fn decimal_chars(n: u64) -> (r: Vec<char>)
    ensures
        r@ == decimal(n as nat),
    decreases n,
{
    if n < 10 {
        let mut r = Vec::new();
        r.push(digit(n));
        assert(r@ =~= seq![digit_char(n as nat)]);
        r
    } else {
        let mut r = decimal_chars(n / 10);
        r.push(digit(n % 10));
        r
    }
}

/// The decimal text of `n`, as a string.
pub fn decimal_string(n: u64) -> (r: String)
    ensures
        r@ == decimal(n as nat),
{
    let v = decimal_chars(n);
    string_of(v.as_slice())
}

pub open spec fn is_digit(c: char) -> bool {
    '0' <= c && c <= '9'
}

pub open spec fn all_digits(s: Seq<char>) -> bool {
    forall|i: int| 0 <= i < s.len() ==> is_digit(#[trigger] s[i])
}

/// The decimal value of a digit string.
pub open spec fn digits_value(s: Seq<char>) -> nat
    decreases s.len(),
{
    if s.len() == 0 {
        0
    } else {
        digits_value(s.drop_last()) * 10 + ((s.last() as int - '0' as int) as nat)
    }
}

/// `u32::from_str`: an optional `+`, then one or more decimal digits, whose value fits.
pub open spec fn parse_u32(s: Seq<char>) -> Option<u32> {
    let body = if s.len() > 0 && s[0] == '+' {
        s.drop_first()
    } else {
        s
    };
    if body.len() > 0 && all_digits(body) && digits_value(body) <= u32::MAX {
        Some(digits_value(body) as u32)
    } else {
        None
    }
}

proof fn lemma_digits_step(s: Seq<char>, k: int)
    requires
        0 <= k < s.len(),
        all_digits(s),
    ensures
        digits_value(s.take(k + 1)) == digits_value(s.take(k)) * 10 + (s[k] as int - '0' as int),
{
    assert(s.take(k + 1).drop_last() =~= s.take(k));
    assert(is_digit(s[k]));
}

proof fn lemma_digits_monotone(s: Seq<char>, i: int, j: int)
    requires
        0 <= i <= j <= s.len(),
        all_digits(s),
    ensures
        digits_value(s.take(i)) <= digits_value(s.take(j)),
    decreases j - i,
{
    if i < j {
        lemma_digits_monotone(s, i, j - 1);
        assert(s.take(j).drop_last() =~= s.take(j - 1));
        assert(is_digit(s[j - 1]));
    }
}

/// `str::parse::<u32>`.
pub fn parse_u32_chars(s: &[char]) -> (r: Option<u32>)
    ensures
        r == parse_u32(s@),
{
    let start: usize = if s.len() > 0 && s[0] == '+' {
        1
    } else {
        0
    };
    let ghost body = if s@.len() > 0 && s@[0] == '+' {
        s@.drop_first()
    } else {
        s@
    };
    assert(body =~= s@.skip(start as int));
    if start >= s.len() {
        return None;
    }
    let mut i = start;
    while i < s.len()
        invariant
            start <= i <= s@.len(),
            body == s@.skip(start as int),
            body == (if s@.len() > 0 && s@[0] == '+' {
                s@.drop_first()
            } else {
                s@
            }),
            forall|k: int| start <= k < i ==> is_digit(#[trigger] s@[k]),
        decreases s.len() - i,
    {
        if !('0' <= s[i] && s[i] <= '9') {
            assert(!is_digit(body[i - start]));
            assert(!all_digits(body));
            assert(parse_u32(s@) is None);
            return None;
        }
        i = i + 1;
    }
    assert(all_digits(body)) by {
        assert forall|k: int| 0 <= k < body.len() implies is_digit(#[trigger] body[k]) by {
            assert(body[k] == s@[k + start]);
        }
    }
    let mut value: u64 = 0;
    let mut j = start;
    assert(body.take(0) =~= Seq::<char>::empty());
    while j < s.len()
        invariant
            start <= j <= s@.len(),
            body == s@.skip(start as int),
            body == (if s@.len() > 0 && s@[0] == '+' {
                s@.drop_first()
            } else {
                s@
            }),
            all_digits(body),
            value == digits_value(body.take(j - start)),
            value <= u32::MAX,
        decreases s.len() - j,
    {
        assert(body[j - start] == s@[j as int]);
        assert(is_digit(body[j - start]));
        let d = (s[j] as u32 - '0' as u32) as u64;
        proof {
            lemma_digits_step(body, j - start);
        }
        let next = value * 10 + d;
        if next > 4294967295 {
            proof {
                lemma_digits_monotone(body, j - start + 1, body.len() as int);
                assert(body.take(body.len() as int) =~= body);
                assert(digits_value(body) > u32::MAX);
                assert(parse_u32(s@) is None);
            }
            return None;
        }
        value = next;
        j = j + 1;
    }
    assert(body.take(body.len() as int) =~= body);
    Some(value as u32)
}

/// An unsigned number written in plain decimal digits, if it fits in `u64`.
pub open spec fn parse_u64_digits(s: Seq<char>) -> Option<u64> {
    if s.len() > 0 && all_digits(s) && digits_value(s) <= u64::MAX {
        Some(digits_value(s) as u64)
    } else {
        None
    }
}

/// Reads an unsigned number written in plain decimal digits.
pub fn parse_u64_digits_chars(s: &[char]) -> (r: Option<u64>)
    ensures
        r == parse_u64_digits(s@),
{
    if s.len() == 0 {
        return None;
    }
    let mut i: usize = 0;
    while i < s.len()
        invariant
            i <= s@.len(),
            forall|k: int| 0 <= k < i ==> is_digit(#[trigger] s@[k]),
        decreases s.len() - i,
    {
        if !('0' <= s[i] && s[i] <= '9') {
            assert(!is_digit(s@[i as int]));
            return None;
        }
        i = i + 1;
    }
    assert(all_digits(s@));
    let mut value: u128 = 0;
    let mut j: usize = 0;
    assert(s@.take(0) =~= Seq::<char>::empty());
    while j < s.len()
        invariant
            j <= s@.len(),
            all_digits(s@),
            value == digits_value(s@.take(j as int)),
            value <= u64::MAX,
        decreases s.len() - j,
    {
        assert(is_digit(s@[j as int]));
        let d = (s[j] as u32 - '0' as u32) as u128;
        proof {
            lemma_digits_step(s@, j as int);
        }
        let next = value * 10 + d;
        if next > 18446744073709551615 {
            proof {
                lemma_digits_monotone(s@, j + 1, s@.len() as int);
                assert(s@.take(s@.len() as int) =~= s@);
            }
            return None;
        }
        value = next;
        j = j + 1;
    }
    assert(s@.take(s@.len() as int) =~= s@);
    Some(value as u64)
}

/// The first index at or after `from` where `pat` occurs in `s`.
pub open spec fn find_from(s: Seq<char>, pat: Seq<char>, from: int) -> Option<int>
    decreases s.len() + 1 - from,
{
    if from < 0 || from + pat.len() > s.len() {
        None
    } else if occurs_at(s, pat, from) {
        Some(from)
    } else {
        find_from(s, pat, from + 1)
    }
}

/// The first index at or after `from` where `pat` occurs in `s`.
pub fn find_str_from(s: &[char], pat: &[char], from: usize) -> (r: Option<usize>)
    ensures
        match r {
            Some(i) => find_from(s@, pat@, from as int) == Some(i as int),
            None => find_from(s@, pat@, from as int) is None,
        },
{
    if pat.len() > s.len() {
        return None;
    }
    let last = s.len() - pat.len();
    let mut i = from;
    while i <= last
        invariant
            last == s@.len() - pat@.len(),
            from <= i,
            find_from(s@, pat@, from as int) == find_from(s@, pat@, i as int),
        decreases last + 1 - i,
    {
        if occurs_here(s, pat, i) {
            return Some(i);
        }
        if i == last {
            assert(find_from(s@, pat@, i + 1) is None);
            return None;
        }
        i = i + 1;
    }
    None
}

/// Where `find_from` finds `pat`, it occurs, at or after `from`.
pub proof fn lemma_find_from(s: Seq<char>, pat: Seq<char>, from: int)
    ensures
        find_from(s, pat, from) matches Some(i) ==> occurs_at(s, pat, i) && from <= i && i
            + pat.len() <= s.len(),
    decreases s.len() + 1 - from,
{
    if from < 0 || from + pat.len() > s.len() {
    } else if occurs_at(s, pat, from) {
    } else {
        lemma_find_from(s, pat, from + 1);
    }
}

} // verus!
