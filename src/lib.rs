//! Loader for a small, versioned configuration document: it renders the
//! canonical text from build constants, parses it with a line-oriented
//! key/value grammar, and checks the parsed fields against fixed sentinels.
pub mod grammar;
pub mod schema;
pub mod document;
pub mod constants;
pub mod loader;
pub mod laws;
