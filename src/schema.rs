//! The records a configuration document is read into, and the loader's errors.
use vstd::prelude::*;

verus! {

/// The `[logging]` section of a document.
#[derive(Debug)]
pub struct LoggingConfig {
    pub debug: String,
}

/// A whole document: its top-level `version` and its `[logging]` section.
#[derive(Debug)]
pub struct RootConfig {
    pub version: String,
    pub logging: LoggingConfig,
}

/// A field that validation compares against its expected value.
#[derive(Clone, Copy, Debug, PartialEq, Eq, Structural)]
pub enum ConfigField {
    Version,
    Debug,
}

impl ConfigField {
    /// The field's key as it is written in a document.
    pub fn name(&self) -> (r: &'static str)
        ensures
            r@ == match self {
                ConfigField::Version => version_key(),
                ConfigField::Debug => debug_key(),
            },
    {
        proof {
            reveal_strlit("version");
            reveal_strlit("debug");
        }
        match self {
            ConfigField::Version => "version",
            ConfigField::Debug => "debug",
        }
    }
}

#[derive(Clone, Copy, Debug, PartialEq, Eq, Structural)]
pub enum ConfigError {
    /// The text breaks the grammar, or a required field is absent or repeated.
    Parse,
    /// A field parsed but differs from its expected value.
    Validation(ConfigField),
}

pub open spec fn version_key() -> Seq<char> {
    seq!['v', 'e', 'r', 's', 'i', 'o', 'n']
}

pub open spec fn debug_key() -> Seq<char> {
    seq!['d', 'e', 'b', 'u', 'g']
}

pub open spec fn logging_key() -> Seq<char> {
    seq!['l', 'o', 'g', 'g', 'i', 'n', 'g']
}

} // verus!
