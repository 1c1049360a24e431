//! The lines of a file, or of the files of a directory, as a reader hands
//! them over.

use vstd::prelude::*;

verus! {

/// The non-empty lines of one file.
pub struct ParsedFile {
    pub filename: String,
    pub lines: Vec<String>,
}

/// The files found under a directory, in the order they were visited.
pub struct ParsedDirectory {
    pub directory_path: String,
    pub files: Vec<ParsedFile>,
}

/// A single file or a whole directory.
pub enum ParseData {
    Directory(ParsedDirectory),
    File(ParsedFile),
}

} // verus!
