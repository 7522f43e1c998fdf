//! Names for the temporary file that a new content is written to before it
//! replaces the target.

use vstd::prelude::*;

use crate::filetype::last_index_of;
use crate::text::chars_of;

verus! {

/// The length of a temporary file name.
pub const FILENAMELEN: usize = 16;

/// Whether `c` is an ASCII letter or digit.
pub open spec fn is_alphanumeric(c: char) -> bool {
    ('a' <= c && c <= 'z') || ('A' <= c && c <= 'Z') || ('0' <= c && c <= '9')
}

/// Relies on rand's Alphanumeric distribution (DistString::sample_string,
/// with thread_rng): `len` random characters, each an ASCII letter or digit.
#[verifier::external_body]
fn random_file_name(len: usize) -> (r: String)
    ensures
        r@.len() == len,
        forall|i: int| 0 <= i < r@.len() ==> is_alphanumeric(#[trigger] r@[i]),
{
    rand::distributions::DistString::sample_string(
        &rand::distributions::Alphanumeric,
        &mut rand::thread_rng(),
        len,
    )
}

/// The length of `s` without the `/` characters that end it.
pub open spec fn trimmed_len(s: Seq<char>, n: int) -> int
    decreases n,
{
    if n > 0 && s[n - 1] == '/' {
        trimmed_len(s, n - 1)
    } else {
        n
    }
}

/// The path of a file named `name` in the directory that holds `path`: the
/// separators that end `path` are dropped, then its text is kept up to and
/// including its last `/`, and `name` follows; just `name` when no `/` is
/// left. So `a/b.rs` and `a/b/` both give `a/` and `name`.
pub open spec fn sibling_path(path: Seq<char>, name: Seq<char>) -> Seq<char> {
    match last_index_of(path, '/', trimmed_len(path, path.len() as int)) {
        Some(i) => path.subrange(0, i + 1) + name,
        None => name,
    }
}

/// The path of a file named `name` next to the file at `path`.
pub fn tmp_file_named(path: &str, name: &str) -> (r: String)
    ensures
        r@ == sibling_path(path@, name@),
{
    let v = chars_of(path);
    let mut t = v.len();
    while t > 0 && v[t - 1] == '/'
        invariant
            t <= v.len(),
            v@ == path@,
            trimmed_len(v@, t as int) == trimmed_len(v@, v.len() as int),
        decreases t,
    {
        t = t - 1;
    }
    let mut n = t;
    while n > 0 && v[n - 1] != '/'
        invariant
            n <= t <= v.len(),
            v@ == path@,
            last_index_of(v@, '/', n as int) == last_index_of(v@, '/', t as int),
        decreases n,
    {
        n = n - 1;
    }
    if n == 0 {
        return name.to_owned();
    }
    let mut r = path.substring_char(0, n).to_owned();
    r.append(name);
    r
}

/// The path of a temporary file next to the file at `path`, with a random
/// name of `FILENAMELEN` ASCII letters and digits.
pub fn tmp_file_from_path(path: &str) -> (r: String)
    ensures
        exists|name: Seq<char>|
            name.len() == FILENAMELEN && (forall|i: int|
                0 <= i < name.len() ==> is_alphanumeric(#[trigger] name[i])) && r@ == sibling_path(
                path@,
                name,
            ),
{
    let name = random_file_name(FILENAMELEN);
    tmp_file_named(path, name.as_str())
}

} // verus!
