//! Rendering the canonical document, and parsing and validating documents.
use vstd::prelude::*;
use crate::constants::BuildConstants;
use crate::document::{document_of, parse_config};
use crate::schema::{RootConfig, ConfigError, ConfigField};

verus! {

/// The canonical document for a given version.
pub open spec fn rendered(version: Seq<char>) -> Seq<char> {
    "version = "@ + version + "\n\n[logging]\ndebug = 'true'\n"@
}

/// The value `version` must hold to pass validation.
pub open spec fn expected_version() -> Seq<char> {
    seq!['t', 'r', 'u', 'e']
}

/// The value `logging.debug` must hold to pass validation.
pub open spec fn expected_debug() -> Seq<char> {
    seq!['t']
}

/// Validation of parsed values: `version` is checked first, then `debug`,
/// and on success the `debug` value is the result.
pub open spec fn validated(version: Seq<char>, debug: Seq<char>) -> Result<Seq<char>, ConfigError> {
    if version != expected_version() {
        Err(ConfigError::Validation(ConfigField::Version))
    } else if debug != expected_debug() {
        Err(ConfigError::Validation(ConfigField::Debug))
    } else {
        Ok(debug)
    }
}

/// What parsing and then validating the text `t` gives.
pub open spec fn outcome(t: Seq<char>) -> Result<Seq<char>, ConfigError> {
    match document_of(t) {
        None => Err(ConfigError::Parse),
        Some((v, d)) => validated(v, d),
    }
}

/// A result with its string replaced by the string's characters.
pub open spec fn text_result(r: Result<String, ConfigError>) -> Result<Seq<char>, ConfigError> {
    match r {
        Ok(s) => Ok(s@),
        Err(e) => Err(e),
    }
}

/// Renders the canonical document for `constants`.
pub fn render_config(constants: &BuildConstants) -> (r: String)
    ensures
        r@ == rendered(constants.version@),
{
    let mut text = "version = ".to_owned();
    text.append(constants.version.as_str());
    text.append("\n\n[logging]\ndebug = 'true'\n");
    text
}

/// Checks a parsed document against the expected values.
pub fn validate(config: &RootConfig) -> (r: Result<String, ConfigError>)
    ensures
        text_result(r) == validated(config.version@, config.logging.debug@),
{
    let version = "true".to_owned();
    let debug = "t".to_owned();
    proof {
        reveal_strlit("true");
        reveal_strlit("t");
        assert(version@ =~= expected_version());
        assert(debug@ =~= expected_debug());
    }
    if config.version != version {
        return Err(ConfigError::Validation(ConfigField::Version));
    }
    if config.logging.debug != debug {
        return Err(ConfigError::Validation(ConfigField::Debug));
    }
    Ok(config.logging.debug.clone())
}

/// Parses `text` and validates it; on success the result is the `debug` value.
pub fn parse_and_validate(text: &str) -> (r: Result<String, ConfigError>)
    ensures
        text_result(r) == outcome(text@),
{
    match parse_config(text) {
        Ok(config) => validate(&config),
        Err(e) => Err(e),
    }
}

/// Renders the document for `constants`, then parses and validates it.
pub fn load(constants: &BuildConstants) -> (r: Result<String, ConfigError>)
    ensures
        text_result(r) == outcome(rendered(constants.version@)),
{
    let text = render_config(constants);
    parse_and_validate(text.as_str())
}

/// Loads the document rendered from this build's constants.
pub fn parse() -> (r: Result<String, ConfigError>)
    ensures
        text_result(r) == outcome(rendered(crate::constants::VERSION@)),
        r == Err::<String, ConfigError>(ConfigError::Validation(ConfigField::Version)),
{
    proof {
        crate::laws::lemma_current_outcome();
    }
    load(&BuildConstants::current())
}

} // verus!
