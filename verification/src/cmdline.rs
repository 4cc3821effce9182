//! The command-line options of a run, as plain values. Parsing the
//! actual argument list happens outside the library; modules read these
//! fields through the global context.

use vstd::prelude::*;

verus! {

/// Parsed command-line options.
#[derive(Default)]
pub struct Args {
    /// The song or playlist URLs to fetch.
    pub urls: Vec<String>,
    /// Where to fetch the album cover from, if anywhere.
    pub cover_url: Option<String>,
    /// Where downloads should land, if not the working directory.
    pub output_dir: Option<String>,
    /// The name of the configuration to load.
    pub config: Option<String>,
}

} // verus!
