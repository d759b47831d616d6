//! Paths as text. What a path means is left to `std::path`; the library
//! names its answers and builds on them.

use crate::decimal::{trim, trimmed};
use vstd::prelude::*;
use vstd::string::*;

verus! {

/// What `Path::strip_prefix` gives for a path and a base, both as text: the
/// rest of the path below the base, or nothing where the path does not lie
/// below it.
pub uninterp spec fn path_strip_prefix(path: Seq<char>, base: Seq<char>) -> Option<Seq<char>>;

/// What `Path::join` gives for a base and a path to put below it, as text.
pub uninterp spec fn path_join(base: Seq<char>, rest: Seq<char>) -> Seq<char>;

/// What `Path::extension` gives for a path, as text: the part of the file
/// name behind its last dot, or nothing where the path has none.
pub uninterp spec fn path_extension(path: Seq<char>) -> Option<Seq<char>>;

/// Calls `Path::strip_prefix` on a path and a base given as text. Claimed:
/// the answer is a function of the two texts alone, named
/// `path_strip_prefix`; `None` stands for the error that std returns for a
/// path that does not start with the base.
#[verifier::external_body]
fn strip_prefix(path: &str, base: &str) -> (rest: Option<String>)
    ensures
        match rest {
            Some(r) => path_strip_prefix(path@, base@) == Some(r@),
            None => path_strip_prefix(path@, base@) is None,
        },
{
    match std::path::Path::new(path).strip_prefix(base) {
        Ok(rest) => Some(rest.to_string_lossy().into_owned()),
        Err(_) => None,
    }
}

/// Calls `Path::join` on a base and a path given as text. Claimed: the
/// answer is a function of the two texts alone, named `path_join`.
#[verifier::external_body]
pub(crate) fn join(base: &str, rest: &str) -> (joined: String)
    ensures
        joined@ == path_join(base@, rest@),
{
    std::path::Path::new(base).join(rest).to_string_lossy().into_owned()
}

/// Calls `Path::extension` on a path given as text. Claimed: the answer is
/// a function of the text alone, named `path_extension`.
#[verifier::external_body]
fn extension(path: &str) -> (ext: Option<String>)
    ensures
        match ext {
            Some(e) => path_extension(path@) == Some(e@),
            None => path_extension(path@) is None,
        },
{
    match std::path::Path::new(path).extension() {
        Some(ext) => Some(ext.to_string_lossy().into_owned()),
        None => None,
    }
}

/// The file type recorded for a file without an extension.
pub open spec fn unknown_type() -> Seq<char> {
    "unknown"@
}

/// A character with the letters `A` to `Z` turned into `a` to `z`.
pub open spec fn lower_char(c: char) -> char {
    if 'A' <= c && c <= 'Z' {
        ((c as u8) + 32) as char
    } else {
        c
    }
}

/// A text with the letters `A` to `Z` turned into `a` to `z`.
pub open spec fn lowercase(text: Seq<char>) -> Seq<char> {
    Seq::new(text.len(), |i: int| lower_char(text[i]))
}

/// The file type of a path, given its extension: the extension in lower
/// case, or `unknown` where there is none.
pub open spec fn file_type_from(ext: Option<Seq<char>>) -> Seq<char> {
    match ext {
        Some(e) => lowercase(e),
        None => unknown_type(),
    }
}

/// Where a file of the source tree goes, given its path below the root of
/// the tree: below the backup root; nowhere if it is not in the tree.
pub open spec fn destination_from(backup_root: Seq<char>, rest: Option<Seq<char>>) -> Option<
    Seq<char>,
> {
    match rest {
        Some(r) => Some(path_join(backup_root, r)),
        None => None,
    }
}

/// Turns the letters `A` to `Z` of a text into `a` to `z`.
pub fn to_lowercase(text: &str) -> (lower: String)
    ensures
        lower@ == lowercase(text@),
{
    let n = text.unicode_len();
    let mut lower = String::new();
    let mut i: usize = 0;
    while i < n
        invariant
            n == text@.len(),
            i <= n,
            lower@.len() == i,
            forall|k: int| 0 <= k < i ==> #[trigger] lower@[k] == lower_char(text@[k]),
        decreases n - i,
    {
        let c = text.get_char(i);
        let low: char = if 'A' <= c && c <= 'Z' {
            ((c as u8) + 32) as char
        } else {
            c
        };
        lower.push(low);
        i = i + 1;
    }
    assert(lower@ =~= lowercase(text@));
    lower
}

/// The file type of a path: its extension in lower case, or `unknown`.
pub fn file_type_of(path: &str) -> (file_type: String)
    ensures
        file_type@ == file_type_from(path_extension(path@)),
{
    match extension(path) {
        Some(ext) => to_lowercase(ext.as_str()),
        None => String::from_str("unknown"),
    }
}

/// Where a file of the source tree goes in the backup: the backup root
/// joined with the file's path below the source root. `None` for a path that
/// does not lie below the source root.
pub fn destination(backup_root: &str, source_root: &str, path: &str) -> (dest: Option<String>)
    ensures
        match dest {
            Some(d) => destination_from(backup_root@, path_strip_prefix(path@, source_root@))
                == Some(d@),
            None => destination_from(backup_root@, path_strip_prefix(path@, source_root@))
                is None,
        },
{
    match strip_prefix(path, source_root) {
        Some(rest) => Some(join(backup_root, rest.as_str())),
        None => None,
    }
}

/// Where the index is kept: the file `backup_metadata.json` in the
/// directory that the daemon saved as its working directory, white space
/// around the saved text aside; in the current directory where none was
/// saved.
pub open spec fn metadata_path_spec(saved_dir: Option<Seq<char>>) -> Seq<char> {
    match saved_dir {
        Some(dir) => path_join(trimmed(dir), "backup_metadata.json"@),
        None => "backup_metadata.json"@,
    }
}

/// The path of the file that holds the index, given the working directory
/// that the daemon saved, if it saved one.
pub fn get_metadata_path(saved_dir: Option<&str>) -> (path: String)
    ensures
        path@ == metadata_path_spec(
            match saved_dir {
                Some(dir) => Some(dir@),
                None => None,
            },
        ),
{
    match saved_dir {
        Some(dir) => join(trim(dir), "backup_metadata.json"),
        None => String::from_str("backup_metadata.json"),
    }
}

} // verus!
