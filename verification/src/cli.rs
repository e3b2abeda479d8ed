//! The command-line surface, as plain data: where the template comes from,
//! the credential and identity to act under, and where the output goes.

use vstd::prelude::*;

verus! {

/// The arguments a run is started with.
#[derive(Debug, PartialEq, Eq)]
pub struct Cli {
    /// Path to the template file.
    pub template_file: String,
    /// The code-hosting service's API token.
    pub token: String,
    /// The acting user's name.
    pub username: String,
    /// Path to the output file; standard output when absent.
    pub output_file: Option<String>,
}

} // verus!
