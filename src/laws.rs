//! Laws relating rendering, parsing and validation.
use vstd::prelude::*;
use crate::constants::{BuildConstants, VERSION};
use crate::document::{
    document_of, scan, step, initial_state, lemma_scan_line, lemma_scan_last_line,
};
use crate::grammar::{
    Line, line_of, is_bare_value, is_bare_char_spec, is_key, lemma_find_char_at,
    lemma_trim_unchanged, lemma_trim_leading_space, lemma_trim_trailing_space,
};
use crate::loader::{rendered, outcome, text_result, expected_version};
use crate::schema::{ConfigError, ConfigField, version_key, debug_key, logging_key};

verus! {

/// The `debug` value that the canonical document carries.
pub open spec fn rendered_debug() -> Seq<char> {
    seq!['t', 'r', 'u', 'e']
}

proof fn lemma_version_line(version: Seq<char>)
    requires
        is_bare_value(version),
    ensures
        line_of(seq!['v', 'e', 'r', 's', 'i', 'o', 'n', ' ', '=', ' '] + version) == Line::Assign(
            version_key(),
            version,
        ),
{
    let s = seq!['v', 'e', 'r', 's', 'i', 'o', 'n', ' ', '=', ' '] + version;
    assert(is_bare_char_spec(version[0]));
    assert(is_bare_char_spec(version.last()));
    assert(s.last() == version.last());
    lemma_trim_unchanged(s);
    lemma_find_char_at(s, 0, '=', 8);
    let key = s.subrange(0, 8);
    lemma_trim_trailing_space(key);
    assert(key.drop_last() =~= version_key());
    let value = s.subrange(9, s.len() as int);
    assert(value.drop_first() =~= version);
    lemma_trim_leading_space(value);
    assert(is_key(version_key()));
}

proof fn lemma_logging_line()
    ensures
        line_of(seq!['[', 'l', 'o', 'g', 'g', 'i', 'n', 'g', ']']) == Line::Header(logging_key()),
{
    let s = seq!['[', 'l', 'o', 'g', 'g', 'i', 'n', 'g', ']'];
    lemma_trim_unchanged(s);
    assert(s.subrange(1, 8) =~= logging_key());
    lemma_trim_unchanged(logging_key());
    assert(is_key(logging_key()));
}

proof fn lemma_debug_line()
    ensures
        line_of(seq!['d', 'e', 'b', 'u', 'g', ' ', '=', ' ', '\'', 't', 'r', 'u', 'e', '\''])
            == Line::Assign(debug_key(), rendered_debug()),
{
    let s = seq!['d', 'e', 'b', 'u', 'g', ' ', '=', ' ', '\'', 't', 'r', 'u', 'e', '\''];
    lemma_trim_unchanged(s);
    lemma_find_char_at(s, 0, '=', 6);
    let key = s.subrange(0, 6);
    lemma_trim_trailing_space(key);
    assert(key.drop_last() =~= debug_key());
    let value = s.subrange(7, 14);
    lemma_trim_leading_space(value);
    let quoted = value.drop_first();
    assert(quoted.subrange(1, 5) =~= rendered_debug());
    assert(is_key(debug_key()));
}

proof fn lemma_blank_line()
    ensures
        line_of(Seq::<char>::empty()) == Line::Blank,
{
    lemma_trim_unchanged(Seq::<char>::empty());
}

/// Parsing the canonical document gives back the version it was rendered
/// with, and the `debug` value `true`, for every version written as a bare
/// value.
pub proof fn lemma_render_then_parse(version: Seq<char>)
    requires
        is_bare_value(version),
    ensures
        document_of(rendered(version)) == Some((version, rendered_debug())),
{
    reveal_strlit("version = ");
    reveal_strlit("\n\n[logging]\ndebug = 'true'\n");
    let l1 = seq!['v', 'e', 'r', 's', 'i', 'o', 'n', ' ', '=', ' '] + version;
    let l3 = seq!['[', 'l', 'o', 'g', 'g', 'i', 'n', 'g', ']'];
    let l4 = seq!['d', 'e', 'b', 'u', 'g', ' ', '=', ' ', '\'', 't', 'r', 'u', 'e', '\''];
    let nl = seq!['\n'];
    let e = Seq::<char>::empty();
    let r3 = l4 + nl + e;
    let r2 = l3 + nl + r3;
    let r1 = e + nl + r2;
    assert(rendered(version) =~= l1 + nl + r1);
    assert forall|k: int| 0 <= k < l1.len() implies l1[k] != '\n' by {
        if k >= 10 {
            assert(is_bare_char_spec(version[k - 10]));
        }
    }
    lemma_version_line(version);
    lemma_blank_line();
    lemma_logging_line();
    lemma_debug_line();
    let s0 = initial_state();
    let s1 = step(s0, Line::Assign(version_key(), version))->0;
    let s3 = step(s1, Line::Header(logging_key()))->0;
    let s4 = step(s3, Line::Assign(debug_key(), rendered_debug()))->0;
    lemma_scan_line(l1, r1, s0);
    lemma_scan_line(e, r2, s1);
    lemma_scan_line(l3, r3, s1);
    lemma_scan_line(l4, e, s3);
    lemma_scan_last_line(e, s4);
    assert(scan(rendered(version), s0) == Some(s4));
}

/// The canonical document never passes validation: its `debug` value is
/// `true`, not `t`. A document rendered with the version `true` fails on
/// `debug`; one rendered with any other bare version fails on `version`.
pub proof fn lemma_render_then_validate(version: Seq<char>)
    requires
        is_bare_value(version),
    ensures
        outcome(rendered(version)) == if version == expected_version() {
            Err::<Seq<char>, ConfigError>(ConfigError::Validation(ConfigField::Debug))
        } else {
            Err::<Seq<char>, ConfigError>(ConfigError::Validation(ConfigField::Version))
        },
{
    lemma_render_then_parse(version);
    assert(rendered_debug().len() != seq!['t'].len());
}

/// This build's version is a bare value, so its document parses, and
/// validation rejects it on `version`.
pub proof fn lemma_current_outcome()
    ensures
        is_bare_value(VERSION@),
        document_of(rendered(VERSION@)) == Some((VERSION@, rendered_debug())),
        outcome(rendered(VERSION@)) == Err::<Seq<char>, ConfigError>(
            ConfigError::Validation(ConfigField::Version),
        ),
{
    reveal_strlit("v0.0.5");
    assert(VERSION@ =~= seq!['v', '0', '.', '0', '.', '5']);
    assert(is_bare_value(VERSION@));
    assert(VERSION@ != expected_version());
    lemma_render_then_validate(VERSION@);
    lemma_render_then_parse(VERSION@);
}

/// This build's canonical document, character for character.
pub proof fn lemma_current_text()
    ensures
        rendered(VERSION@) == "version = v0.0.5\n\n[logging]\ndebug = 'true'\n"@,
{
    reveal_strlit("v0.0.5");
    reveal_strlit("version = ");
    reveal_strlit("\n\n[logging]\ndebug = 'true'\n");
    reveal_strlit("version = v0.0.5\n\n[logging]\ndebug = 'true'\n");
    assert(rendered(VERSION@) =~= "version = v0.0.5\n\n[logging]\ndebug = 'true'\n"@);
}

/// Rendering depends on the version alone: two renderings from constants
/// with the same version are the same text.
pub proof fn lemma_render_repeatable(
    a: &BuildConstants,
    b: &BuildConstants,
    ra: Seq<char>,
    rb: Seq<char>,
)
    requires
        a.version@ == b.version@,
        ra == rendered(a.version@),
        rb == rendered(b.version@),
    ensures
        ra == rb,
{
}

/// Parsing and validating depends on the text alone: two calls on the same
/// text give the same value or the same error.
pub proof fn lemma_parse_and_validate_repeatable(
    text: Seq<char>,
    r1: Result<String, ConfigError>,
    r2: Result<String, ConfigError>,
)
    requires
        text_result(r1) == outcome(text),
        text_result(r2) == outcome(text),
    ensures
        r1 is Ok <==> r2 is Ok,
        r1 matches Ok(s1) ==> r2 matches Ok(s2) && s1@ == s2@,
        r1 matches Err(e1) ==> r2 matches Err(e2) && e1 == e2,
{
}

} // verus!
