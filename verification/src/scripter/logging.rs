//! Where the log file goes. Writing it, with the terminal colour codes
//! stripped, is the caller's part.

use vstd::prelude::*;

verus! {

/// The folder and file name of a log file whose writer strips terminal
/// colour codes
#[derive(Debug)]
pub struct StripAnsiWriter {
    /// the folder the log file is in
    pub dir: String,
    /// the log file's name
    pub filename: String,
}

impl StripAnsiWriter {
    /// The writer for the log file `filename` in folder `dir`.
    pub fn new(dir: &str, filename: &str) -> (r: StripAnsiWriter)
        ensures
            r.dir@ == dir@,
            r.filename@ == filename@,
    {
        StripAnsiWriter { dir: dir.to_owned(), filename: filename.to_owned() }
    }
}

} // verus!
