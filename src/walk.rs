//! The glob patterns that pick the files of a recursive update.

use vstd::prelude::*;

use crate::filetype::{endings_in, extensions, FileType};

verus! {

/// The pattern for the files, at any depth under `directory`, whose name
/// ends in `.` and `ending`.
pub open spec fn glob_pattern_of(directory: Seq<char>, ending: Seq<char>) -> Seq<char> {
    "./"@ + directory + "/**/*."@ + ending
}

/// The pattern for the files, at any depth under `directory`, whose name
/// ends in `.` and `ending`.
pub fn glob_pattern(directory: &str, ending: &str) -> (r: String)
    ensures
        r@ == glob_pattern_of(directory@, ending@),
{
    let mut r = "./".to_owned();
    r.append(directory);
    r.append("/**/*.");
    r.append(ending);
    r
}

/// One pattern for each extension of `ft`, in table order: together they
/// pick every file under `directory` in that language.
pub fn walk_patterns(directory: &str, ft: FileType) -> (r: Vec<String>)
    ensures
        r@.len() == endings_in(extensions(), ft).len(),
        forall|i: int|
            0 <= i < r@.len() ==> (#[trigger] r@[i])@ == glob_pattern_of(
                directory@,
                endings_in(extensions(), ft)[i],
            ),
{
    let endings = ft.file_endings();
    let ghost ev = endings@.map_values(|e: &str| e@);
    let mut r: Vec<String> = Vec::new();
    let mut i: usize = 0;
    while i < endings.len()
        invariant
            ev == endings@.map_values(|e: &str| e@),
            ev == endings_in(extensions(), ft),
            i <= endings.len(),
            r@.len() == i,
            forall|j: int|
                0 <= j < i ==> (#[trigger] r@[j])@ == glob_pattern_of(directory@, ev[j]),
        decreases endings.len() - i,
    {
        let p = glob_pattern(directory, endings[i]);
        r.push(p);
        i = i + 1;
    }
    r
}

} // verus!
