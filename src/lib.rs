//! Credential helper for git: the `key=value` exchange format, the backing
//! helper's command and answer, and the decisions of the OAuth device flow.
pub mod credhelper;
pub mod ghauth;
pub mod operation;
pub mod paramparsing;
pub mod params;
pub mod prompt;
pub mod session;
pub mod text;
pub mod verbosity;
