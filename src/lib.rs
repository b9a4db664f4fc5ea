//! Verified core of a command-line helper that shows the CI check runs of a
//! repository's current commit, and signs in through the OAuth device flow.
pub mod checks;
pub mod credential;
pub mod poll;
pub mod vcs;
