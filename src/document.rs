//! Reading a whole document into a `RootConfig`.
use vstd::prelude::*;
use vstd::std_specs::iter::IteratorSpec;
use crate::grammar::{Line, LineRange, line_of, find_char, classify, find_in, lemma_find_char_at};
use crate::schema::{RootConfig, LoggingConfig, ConfigError, version_key, debug_key, logging_key};

verus! {

/// Where the lines read so far have left the reader.
#[derive(Clone, Copy, PartialEq, Eq, Structural)]
pub enum Section {
    Root,
    Logging,
    Other,
}

/// What the lines read so far have established.
pub struct ScanState {
    pub section: Section,
    pub version: Option<Seq<char>>,
    pub logging_seen: bool,
    pub debug: Option<Seq<char>>,
}

pub open spec fn initial_state() -> ScanState {
    ScanState { section: Section::Root, version: None, logging_seen: false, debug: None }
}

/// The effect of one line; `None` when the line breaks the document.
/// Keys other than the schema's are ignored, as are sections other than
/// `logging`; `version`, `debug` and the `logging` header may each appear once.
pub open spec fn step(st: ScanState, line: Line) -> Option<ScanState> {
    match line {
        Line::Blank => Some(st),
        Line::Malformed => None,
        Line::Header(name) => if name == logging_key() {
            if st.logging_seen {
                None
            } else {
                Some(ScanState { section: Section::Logging, logging_seen: true, ..st })
            }
        } else {
            Some(ScanState { section: Section::Other, ..st })
        },
        Line::Assign(key, value) => match st.section {
            Section::Root => if key == version_key() {
                if st.version is Some {
                    None
                } else {
                    Some(ScanState { version: Some(value), ..st })
                }
            } else {
                Some(st)
            },
            Section::Logging => if key == debug_key() {
                if st.debug is Some {
                    None
                } else {
                    Some(ScanState { debug: Some(value), ..st })
                }
            } else {
                Some(st)
            },
            Section::Other => Some(st),
        },
    }
}

/// Reads the lines of `t` in order, starting from `st`.
pub open spec fn scan(t: Seq<char>, st: ScanState) -> Option<ScanState>
    decreases t.len(),
{
    let e = find_char(t, 0, '\n');
    match step(st, line_of(t.subrange(0, e))) {
        None => None,
        Some(next) => if 0 <= e < t.len() {
            scan(t.subrange(e + 1, t.len() as int), next)
        } else {
            Some(next)
        },
    }
}

/// The `version` and `debug` values of a document, or `None` when it does not
/// parse or lacks either of them.
pub open spec fn document_of(t: Seq<char>) -> Option<(Seq<char>, Seq<char>)> {
    match scan(t, initial_state()) {
        Some(st) => if st.version is Some && st.debug is Some {
            Some((st.version->0, st.debug->0))
        } else {
            None
        },
        None => None,
    }
}

/// The characters of `text`, in order.
pub fn chars_of(text: &str) -> (v: Vec<char>)
    ensures
        v@ == text@,
{
    let mut it = text.chars();
    let mut v: Vec<char> = Vec::new();
    loop
        invariant
            it.obeys_prophetic_iter_laws(),
            v@ + it.remaining() == text@,
            it.decrease() is Some,
        decreases it.decrease()->0,
    {
        let ghost before = it.remaining();
        match it.next() {
            Some(c) => {
                v.push(c);
                assert(v@ + it.remaining() =~= text@);
            },
            None => {
                assert(v@ =~= text@);
                return v;
            },
        }
    }
}

/// Whether `t[a..b]` spells `w`.
fn range_is(t: &Vec<char>, a: usize, b: usize, w: &Vec<char>) -> (r: bool)
    requires
        a <= b <= t@.len(),
    ensures
        r == (t@.subrange(a as int, b as int) == w@),
{
    if b - a != w.len() {
        return false;
    }
    let mut i: usize = 0;
    while i < w.len()
        invariant
            a <= b <= t@.len(),
            b - a == w@.len(),
            0 <= i <= w@.len(),
            forall|j: int| 0 <= j < i ==> t@[a + j] == #[trigger] w@[j],
        decreases w@.len() - i,
    {
        if t[a + i] != w[i] {
            assert(t@.subrange(a as int, b as int)[i as int] != w@[i as int]);
            return false;
        }
        i = i + 1;
    }
    assert(t@.subrange(a as int, b as int) =~= w@);
    true
}

/// The reader's state as index ranges into the document's characters.
struct Cursor {
    section: Section,
    version: Option<(usize, usize)>,
    logging_seen: bool,
    debug: Option<(usize, usize)>,
}

spec fn range_within(r: Option<(usize, usize)>, n: nat) -> bool {
    r matches Some(p) ==> p.0 <= p.1 <= n
}

spec fn range_text(r: Option<(usize, usize)>, t: Seq<char>) -> Option<Seq<char>> {
    match r {
        Some(p) => Some(t.subrange(p.0 as int, p.1 as int)),
        None => None,
    }
}

impl Cursor {
    spec fn within(self, n: nat) -> bool {
        range_within(self.version, n) && range_within(self.debug, n)
    }

    spec fn state_in(self, t: Seq<char>) -> ScanState {
        ScanState {
            section: self.section,
            version: range_text(self.version, t),
            logging_seen: self.logging_seen,
            debug: range_text(self.debug, t),
        }
    }

    /// Applies one classified line.
    fn advance(self, t: &Vec<char>, line: LineRange) -> (r: Option<Cursor>)
        requires
            self.within(t@.len()),
            line.within(t@.len()),
        ensures
            match step(self.state_in(t@), line.line_in(t@)) {
                None => r is None,
                Some(st) => r matches Some(c) && c.within(t@.len()) && c.state_in(t@) == st,
            },
    {
        match line {
            LineRange::Blank => Some(self),
            LineRange::Malformed => None,
            LineRange::Header(a, b) => {
                if range_is(t, a, b, &vec!['l', 'o', 'g', 'g', 'i', 'n', 'g']) {
                    if self.logging_seen {
                        None
                    } else {
                        Some(Cursor { section: Section::Logging, logging_seen: true, ..self })
                    }
                } else {
                    Some(Cursor { section: Section::Other, ..self })
                }
            },
            LineRange::Assign(a, b, c, d) => match self.section {
                Section::Root => {
                    if range_is(t, a, b, &vec!['v', 'e', 'r', 's', 'i', 'o', 'n']) {
                        if self.version.is_some() {
                            None
                        } else {
                            Some(Cursor { version: Some((c, d)), ..self })
                        }
                    } else {
                        Some(self)
                    }
                },
                Section::Logging => {
                    if range_is(t, a, b, &vec!['d', 'e', 'b', 'u', 'g']) {
                        if self.debug.is_some() {
                            None
                        } else {
                            Some(Cursor { debug: Some((c, d)), ..self })
                        }
                    } else {
                        Some(self)
                    }
                },
                Section::Other => Some(self),
            },
        }
    }
}

/// Reads `text` into a `RootConfig`: `Ok` exactly when the document parses
/// and holds both `version` and `logging.debug`, with their values.
pub fn parse_config(text: &str) -> (r: Result<RootConfig, ConfigError>)
    ensures
        match document_of(text@) {
            None => r == Err::<RootConfig, ConfigError>(ConfigError::Parse),
            Some((v, d)) => r matches Ok(c) && c.version@ == v && c.logging.debug@ == d,
        },
{
    let t = chars_of(text);
    let n = t.len();
    let mut i: usize = 0;
    let mut cur = Cursor { section: Section::Root, version: None, logging_seen: false, debug: None };
    assert(cur.state_in(t@) == initial_state());
    assert(t@.subrange(0, n as int) =~= t@);
    loop
        invariant_except_break
            scan(text@, initial_state()) == scan(t@.subrange(i as int, n as int), cur.state_in(t@)),
        invariant
            n == t@.len(),
            t@ == text@,
            i <= n,
            cur.within(n as nat),
        ensures
            scan(text@, initial_state()) == Some(cur.state_in(t@)),
        decreases n - i,
    {
        let ghost rest = t@.subrange(i as int, n as int);
        let e = find_in(&t, i, n, '\n');
        assert(rest.subrange(0, e - i) =~= t@.subrange(i as int, e as int));
        let line = classify(&t, i, e);
        match cur.advance(&t, line) {
            None => {
                return Err(ConfigError::Parse);
            },
            Some(next) => {
                cur = next;
                if e == n {
                    break;
                }
                assert(rest.subrange(e - i + 1, rest.len() as int) =~= t@.subrange(e + 1, n as int));
                i = e + 1;
            },
        }
    }
    match (cur.version, cur.debug) {
        (Some((va, vb)), Some((da, db))) => {
            let version = text.substring_char(va, vb).to_owned();
            let debug = text.substring_char(da, db).to_owned();
            Ok(RootConfig { version, logging: LoggingConfig { debug } })
        },
        _ => Err(ConfigError::Parse),
    }
}

/// Scanning a line that ends in a newline applies that line, then scans the rest.
pub proof fn lemma_scan_line(line: Seq<char>, rest: Seq<char>, st: ScanState)
    requires
        forall|k: int| 0 <= k < line.len() ==> line[k] != '\n',
    ensures
        scan(line + seq!['\n'] + rest, st) == match step(st, line_of(line)) {
            None => None,
            Some(next) => scan(rest, next),
        },
{
    let t = line + seq!['\n'] + rest;
    lemma_find_char_at(t, 0, '\n', line.len() as int);
    assert(t.subrange(0, line.len() as int) =~= line);
    assert(t.subrange(line.len() as int + 1, t.len() as int) =~= rest);
}

/// Scanning a last line with no newline applies just that line.
pub proof fn lemma_scan_last_line(line: Seq<char>, st: ScanState)
    requires
        forall|k: int| 0 <= k < line.len() ==> line[k] != '\n',
    ensures
        scan(line, st) == step(st, line_of(line)),
{
    lemma_find_char_at(line, 0, '\n', line.len() as int);
    assert(line.subrange(0, line.len() as int) =~= line);
}

} // verus!
