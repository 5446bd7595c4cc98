//! The line grammar of configuration documents.
//!
//! A document is a sequence of lines separated by `'\n'`. After surrounding
//! spaces, tabs and carriage returns are trimmed, a line is blank, a section
//! header `[name]`, or an assignment `key = value`, where the value is either
//! a bare word or a single-quoted literal holding no quote.
use vstd::prelude::*;

verus! {

/// Characters trimmed around lines, keys and values.
pub open spec fn is_space_spec(c: char) -> bool {
    c == ' ' || c == '\t' || c == '\r'
}

/// Characters of a bare key or section name.
pub open spec fn is_key_char_spec(c: char) -> bool {
    ('a' <= c && c <= 'z') || ('A' <= c && c <= 'Z') || ('0' <= c && c <= '9') || c == '_' || c
        == '-'
}

/// Characters of an unquoted value.
pub open spec fn is_bare_char_spec(c: char) -> bool {
    is_key_char_spec(c) || c == '.' || c == '+'
}

pub open spec fn is_key(s: Seq<char>) -> bool {
    s.len() > 0 && forall|i: int| 0 <= i < s.len() ==> is_key_char_spec(#[trigger] s[i])
}

pub open spec fn is_bare_value(s: Seq<char>) -> bool {
    s.len() > 0 && forall|i: int| 0 <= i < s.len() ==> is_bare_char_spec(#[trigger] s[i])
}

pub open spec fn has_no_quote(s: Seq<char>) -> bool {
    forall|i: int| 0 <= i < s.len() ==> #[trigger] s[i] != '\''
}

pub open spec fn trim_start(s: Seq<char>) -> Seq<char>
    decreases s.len(),
{
    if s.len() > 0 && is_space_spec(s[0]) {
        trim_start(s.drop_first())
    } else {
        s
    }
}

pub open spec fn trim_end(s: Seq<char>) -> Seq<char>
    decreases s.len(),
{
    if s.len() > 0 && is_space_spec(s.last()) {
        trim_end(s.drop_last())
    } else {
        s
    }
}

pub open spec fn trim(s: Seq<char>) -> Seq<char> {
    trim_end(trim_start(s))
}

/// The first index at or after `i` that holds `c`, or `s.len()` when none does.
pub open spec fn find_char(s: Seq<char>, i: int, c: char) -> int
    decreases s.len() - i,
{
    if 0 <= i < s.len() {
        if s[i] == c {
            i
        } else {
            find_char(s, i + 1, c)
        }
    } else {
        s.len() as int
    }
}

/// What a trimmed value text denotes: the inside of a single-quoted literal,
/// or the bare word itself.
pub open spec fn value_of(s: Seq<char>) -> Option<Seq<char>> {
    if s.len() >= 2 && s[0] == '\'' && s.last() == '\'' && has_no_quote(
        s.subrange(1, s.len() - 1),
    ) {
        Some(s.subrange(1, s.len() - 1))
    } else if is_bare_value(s) {
        Some(s)
    } else {
        None
    }
}

/// The meaning of one line of a document.
pub enum Line {
    Blank,
    Header(Seq<char>),
    Assign(Seq<char>, Seq<char>),
    Malformed,
}

pub open spec fn line_of(raw: Seq<char>) -> Line {
    let s = trim(raw);
    if s.len() == 0 {
        Line::Blank
    } else if s[0] == '[' {
        if s.len() >= 2 && s.last() == ']' && is_key(trim(s.subrange(1, s.len() - 1))) {
            Line::Header(trim(s.subrange(1, s.len() - 1)))
        } else {
            Line::Malformed
        }
    } else {
        let k = find_char(s, 0, '=');
        if k < s.len() {
            let key = trim(s.subrange(0, k));
            let value = value_of(trim(s.subrange(k + 1, s.len() as int)));
            if is_key(key) && value is Some {
                Line::Assign(key, value->0)
            } else {
                Line::Malformed
            }
        } else {
            Line::Malformed
        }
    }
}

pub fn is_space(c: char) -> (r: bool)
    ensures
        r == is_space_spec(c),
{
    c == ' ' || c == '\t' || c == '\r'
}

fn is_key_char(c: char) -> (r: bool)
    ensures
        r == is_key_char_spec(c),
{
    ('a' <= c && c <= 'z') || ('A' <= c && c <= 'Z') || ('0' <= c && c <= '9') || c == '_' || c
        == '-'
}

fn is_bare_char(c: char) -> (r: bool)
    ensures
        r == is_bare_char_spec(c),
{
    is_key_char(c) || c == '.' || c == '+'
}

/// Narrows `lo..hi` to the trimmed part of the line.
pub fn trim_range(t: &Vec<char>, lo: usize, hi: usize) -> (r: (usize, usize))
    requires
        lo <= hi <= t@.len(),
    ensures
        lo <= r.0 <= r.1 <= hi,
        t@.subrange(r.0 as int, r.1 as int) == trim(t@.subrange(lo as int, hi as int)),
{
    let mut a = lo;
    while a < hi && is_space(t[a])
        invariant
            lo <= a <= hi <= t@.len(),
            trim_start(t@.subrange(lo as int, hi as int)) == trim_start(
                t@.subrange(a as int, hi as int),
            ),
        decreases hi - a,
    {
        assert(t@.subrange(a as int, hi as int).drop_first() =~= t@.subrange(a + 1, hi as int));
        a = a + 1;
    }
    let mut b = hi;
    while b > a && is_space(t[b - 1])
        invariant
            lo <= a <= b <= hi <= t@.len(),
            trim(t@.subrange(lo as int, hi as int)) == trim_end(t@.subrange(a as int, b as int)),
        decreases b - a,
    {
        assert(t@.subrange(a as int, b as int).drop_last() =~= t@.subrange(a as int, b - 1));
        b = b - 1;
    }
    (a, b)
}

/// The first index in `lo..hi` that holds `c`, or `hi`.
pub fn find_in(t: &Vec<char>, lo: usize, hi: usize, c: char) -> (k: usize)
    requires
        lo <= hi <= t@.len(),
    ensures
        lo <= k <= hi,
        k - lo == find_char(t@.subrange(lo as int, hi as int), 0, c),
{
    let ghost s = t@.subrange(lo as int, hi as int);
    let mut k = lo;
    while k < hi && t[k] != c
        invariant
            lo <= k <= hi <= t@.len(),
            s == t@.subrange(lo as int, hi as int),
            find_char(s, 0, c) == find_char(s, k - lo, c),
        decreases hi - k,
    {
        k = k + 1;
    }
    k
}

fn all_key_chars(t: &Vec<char>, a: usize, b: usize) -> (r: bool)
    requires
        a <= b <= t@.len(),
    ensures
        r == is_key(t@.subrange(a as int, b as int)),
{
    if a == b {
        return false;
    }
    let mut i = a;
    while i < b
        invariant
            a <= i <= b <= t@.len(),
            forall|j: int| a <= j < i ==> is_key_char_spec(#[trigger] t@[j]),
        decreases b - i,
    {
        if !is_key_char(t[i]) {
            assert(!is_key_char_spec(t@.subrange(a as int, b as int)[i - a]));
            return false;
        }
        i = i + 1;
    }
    assert forall|j: int| 0 <= j < b - a implies is_key_char_spec(
        #[trigger] t@.subrange(a as int, b as int)[j],
    ) by {
        assert(is_key_char_spec(t@[a + j]));
    }
    true
}

fn all_bare_chars(t: &Vec<char>, a: usize, b: usize) -> (r: bool)
    requires
        a <= b <= t@.len(),
    ensures
        r == is_bare_value(t@.subrange(a as int, b as int)),
{
    if a == b {
        return false;
    }
    let mut i = a;
    while i < b
        invariant
            a <= i <= b <= t@.len(),
            forall|j: int| a <= j < i ==> is_bare_char_spec(#[trigger] t@[j]),
        decreases b - i,
    {
        if !is_bare_char(t[i]) {
            assert(!is_bare_char_spec(t@.subrange(a as int, b as int)[i - a]));
            return false;
        }
        i = i + 1;
    }
    assert forall|j: int| 0 <= j < b - a implies is_bare_char_spec(
        #[trigger] t@.subrange(a as int, b as int)[j],
    ) by {
        assert(is_bare_char_spec(t@[a + j]));
    }
    true
}

/// The range of the value that the trimmed text `a..b` denotes.
fn value_range(t: &Vec<char>, a: usize, b: usize) -> (r: Option<(usize, usize)>)
    requires
        a <= b <= t@.len(),
    ensures
        match value_of(t@.subrange(a as int, b as int)) {
            None => r is None,
            Some(v) => r matches Some(p) && a <= p.0 <= p.1 <= b && t@.subrange(
                p.0 as int,
                p.1 as int,
            ) == v,
        },
{
    let ghost s = t@.subrange(a as int, b as int);
    if b - a >= 2 && t[a] == '\'' && t[b - 1] == '\'' {
        let q = find_in(t, a + 1, b - 1, '\'');
        assert(s.subrange(1, s.len() - 1) =~= t@.subrange(a + 1, b - 1));
        if q == b - 1 {
            let ghost inner = t@.subrange(a + 1, b - 1);
            assert forall|i: int| 0 <= i < inner.len() implies #[trigger] inner[i] != '\'' by {
                if inner[i] == '\'' {
                    lemma_find_char_first(inner, 0, '\'', i);
                }
            }
            return Some((a + 1, b - 1));
        } else {
            assert(t@.subrange(a + 1, b - 1)[q - (a + 1)] == '\'') by {
                lemma_find_char_found(t@.subrange(a + 1, b - 1), 0, '\'');
            }
            assert(!has_no_quote(s.subrange(1, s.len() - 1)));
        }
    }
    if all_bare_chars(t, a, b) {
        Some((a, b))
    } else {
        None
    }
}

/// `find_char` returns no index past a match at or after `i`.
pub proof fn lemma_find_char_first(s: Seq<char>, i: int, c: char, j: int)
    requires
        0 <= i <= j < s.len(),
        s[j] == c,
    ensures
        i <= find_char(s, i, c) <= j,
    decreases j - i,
{
    if s[i] != c {
        lemma_find_char_first(s, i + 1, c, j);
    }
}

/// When `find_char` returns an index inside `s`, that index holds `c`.
pub proof fn lemma_find_char_found(s: Seq<char>, i: int, c: char)
    requires
        0 <= i,
    ensures
        i <= find_char(s, i, c) <= s.len() || i > s.len(),
        find_char(s, i, c) < s.len() ==> s[find_char(s, i, c)] == c,
    decreases s.len() - i,
{
    if 0 <= i < s.len() && s[i] != c {
        lemma_find_char_found(s, i + 1, c);
    }
}

/// One classified line, as index ranges into the document's characters.
pub enum LineRange {
    Blank,
    Header(usize, usize),
    Assign(usize, usize, usize, usize),
    Malformed,
}

impl LineRange {
    pub open spec fn within(self, n: nat) -> bool {
        match self {
            LineRange::Header(a, b) => a <= b <= n,
            LineRange::Assign(a, b, c, d) => a <= b <= n && c <= d <= n,
            _ => true,
        }
    }

    pub open spec fn line_in(self, t: Seq<char>) -> Line {
        match self {
            LineRange::Blank => Line::Blank,
            LineRange::Header(a, b) => Line::Header(t.subrange(a as int, b as int)),
            LineRange::Assign(a, b, c, d) => Line::Assign(
                t.subrange(a as int, b as int),
                t.subrange(c as int, d as int),
            ),
            LineRange::Malformed => Line::Malformed,
        }
    }
}

/// Classifies the line `lo..hi` of `t`.
pub fn classify(t: &Vec<char>, lo: usize, hi: usize) -> (r: LineRange)
    requires
        lo <= hi <= t@.len(),
    ensures
        r.within(t@.len()),
        r.line_in(t@) == line_of(t@.subrange(lo as int, hi as int)),
{
    let (a, b) = trim_range(t, lo, hi);
    let ghost s = t@.subrange(a as int, b as int);
    if a == b {
        return LineRange::Blank;
    }
    if t[a] == '[' {
        if b - a >= 2 && t[b - 1] == ']' {
            assert(s.subrange(1, s.len() - 1) =~= t@.subrange(a + 1, b - 1));
            let (na, nb) = trim_range(t, a + 1, b - 1);
            if all_key_chars(t, na, nb) {
                return LineRange::Header(na, nb);
            }
        }
        return LineRange::Malformed;
    }
    let k = find_in(t, a, b, '=');
    if k == b {
        return LineRange::Malformed;
    }
    assert(s.subrange(0, k - a) =~= t@.subrange(a as int, k as int));
    assert(s.subrange(k - a + 1, s.len() as int) =~= t@.subrange(k + 1, b as int));
    let (ka, kb) = trim_range(t, a, k);
    let (va, vb) = trim_range(t, k + 1, b);
    if !all_key_chars(t, ka, kb) {
        return LineRange::Malformed;
    }
    match value_range(t, va, vb) {
        Some((c, d)) => LineRange::Assign(ka, kb, c, d),
        None => LineRange::Malformed,
    }
}

/// `find_char` stops at the first `c` at or after `i`.
pub proof fn lemma_find_char_at(s: Seq<char>, i: int, c: char, j: int)
    requires
        0 <= i <= j <= s.len(),
        forall|k: int| i <= k < j ==> s[k] != c,
        j == s.len() || s[j] == c,
    ensures
        find_char(s, i, c) == j,
    decreases j - i,
{
    if i < j {
        lemma_find_char_at(s, i + 1, c, j);
    }
}

/// Trimming leaves alone a text that starts and ends with no space.
pub proof fn lemma_trim_unchanged(s: Seq<char>)
    requires
        s.len() > 0 ==> !is_space_spec(s[0]) && !is_space_spec(s.last()),
    ensures
        trim(s) == s,
{
}

/// Trimming drops one leading space from a text that is otherwise trimmed.
pub proof fn lemma_trim_leading_space(s: Seq<char>)
    requires
        s.len() > 1,
        is_space_spec(s[0]),
        !is_space_spec(s[1]),
        !is_space_spec(s.last()),
    ensures
        trim(s) == s.drop_first(),
{
    assert(trim_start(s) == trim_start(s.drop_first()));
}

/// Trimming drops one trailing space from a text that is otherwise trimmed.
pub proof fn lemma_trim_trailing_space(s: Seq<char>)
    requires
        s.len() > 1,
        !is_space_spec(s[0]),
        is_space_spec(s.last()),
        !is_space_spec(s[s.len() - 2]),
    ensures
        trim(s) == s.drop_last(),
{
    assert(trim_end(s) == trim_end(s.drop_last()));
}

} // verus!
