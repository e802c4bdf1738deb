//! The run's configuration: an immutable record loaded once at process start
//! and never mutated. The caller parses it from its well-known location and
//! hands it over as plain values.

use vstd::prelude::*;

verus! {

/// The static record driving one run: target and credentials, where the
/// dataset lives, which batch to search, the completion marker that tags rows
/// still requiring action, and the session's startup arguments.
#[derive(Debug)]
pub struct Config {
    /// The profile the run acts for.
    pub profile: String,
    /// The application's base URL; the authentication check compares the
    /// observed location against it.
    pub base_url: String,
    /// Login credential: the username.
    pub username: String,
    /// Login credential: the password.
    pub password: String,
    /// Directory of the dataset files.
    pub csv_path: String,
    /// The batch/search identifier: names the dataset file and is the text
    /// searched for in the results table.
    pub post_id: String,
    /// The completion marker: cells equal to it mark rows still to process.
    pub error_message: String,
    /// Startup arguments for the browser session, in order.
    pub driver_args: Vec<String>,
}

} // verus!
