//! What the command line hands the library.

use vstd::prelude::*;

use crate::text::{chars_equal, chars_of};

verus! {

/// The inputs of one run: the directory to work in, the target file name
/// (or, in update mode, a name whose extension picks the files), the path
/// of the license, and whether to update a directory recursively.
pub struct Args {
    pub directory: String,
    pub file_name: String,
    pub license: String,
    pub update: bool,
}

impl Args {
    /// The directory, the file name and the license path.
    pub fn paths(&self) -> (r: (String, String, String))
        ensures
            r.0@ == self.directory@,
            r.1@ == self.file_name@,
            r.2@ == self.license@,
    {
        (self.directory.clone(), self.file_name.clone(), self.license.clone())
    }

    /// Whether the file name is the placeholder `*.*`, which leaves the
    /// language of a recursive update still to be asked for.
    pub fn asks_for_filetype(&self) -> (r: bool)
        ensures
            r == (self.file_name@ == "*.*"@),
    {
        let name = chars_of(self.file_name.as_str());
        let placeholder = chars_of("*.*");
        chars_equal(&name, &placeholder)
    }

    /// Whether to update a directory recursively.
    pub fn update(&self) -> (r: bool)
        ensures
            r == self.update,
    {
        self.update
    }
}

} // verus!
