//! The list of tracked files: entries and how one is shown.
use vstd::prelude::*;
use crate::text::{concat_str, string_push};

verus! {

/// A file with saved editing history.
pub struct FileEntry {
    /// Full path of the file.
    pub path: String,
    /// Whether the history holds changes that were not saved to the file.
    pub has_unsaved_changes: bool,
}

/// The final component of `path` as `std::path::Path::file_name` gives it.
pub uninterp spec fn path_file_name(path: Seq<char>) -> Option<Seq<char>>;

/// The parent of `path` as `std::path::Path::parent` gives it.
pub uninterp spec fn path_parent(path: Seq<char>) -> Option<Seq<char>>;

/// Calls `Path::file_name` on `path` (the name, when it is valid Unicode).
#[verifier::external_body]
fn file_name_of(path: &str) -> (r: Option<String>)
    ensures
        match r {
            Some(n) => path_file_name(path@) == Some(n@),
            None => path_file_name(path@) is None,
        },
{
    std::path::Path::new(path).file_name().and_then(|n| n.to_str()).map(|n| n.to_string())
}

/// Calls `Path::parent` on `path` (the parent, when there is one).
#[verifier::external_body]
fn parent_of(path: &str) -> (r: Option<String>)
    ensures
        match r {
            Some(p) => path_parent(path@) == Some(p@),
            None => path_parent(path@) is None,
        },
{
    std::path::Path::new(path).parent().and_then(|p| p.to_str()).map(|p| p.to_string())
}

/// How a tracked file is listed: `name (directory/)`, the directory ending in
/// a slash.
pub open spec fn file_display(name: Seq<char>, dir: Seq<char>) -> Seq<char> {
    let slash: Seq<char> = if dir.len() > 0 && dir.last() == '/' { Seq::empty() } else { seq!['/'] };
    name + seq![' ', '('] + dir + slash + seq![')']
}

/// Show a path as `file name (directory/)`; a missing name shows as empty
/// and a missing parent as `/`.
pub fn format_file_display(path: &str) -> (r: String)
    ensures
        ({
            let name = match path_file_name(path@) { Some(n) => n, None => Seq::empty() };
            let dir = match path_parent(path@) { Some(p) => p, None => seq!['/'] };
            r@ == file_display(name, dir)
        }),
{
    let name = match file_name_of(path) {
        Some(n) => n,
        None => String::new(),
    };
    let dir = match parent_of(path) {
        Some(p) => p,
        None => {
            let mut s = String::new();
            string_push(&mut s, '/');
            s
        },
    };
    let n = dir.unicode_len();
    let ends_with_slash = n > 0 && dir.as_str().get_char(n - 1) == '/';
    let mut r = name;
    string_push(&mut r, ' ');
    string_push(&mut r, '(');
    r.append(dir.as_str());
    if !ends_with_slash {
        string_push(&mut r, '/');
    }
    string_push(&mut r, ')');
    proof {
        let ghost_name = match path_file_name(path@) { Some(n) => n, None => Seq::<char>::empty() };
        let ghost_dir = match path_parent(path@) { Some(p) => p, None => seq!['/'] };
        assert(r@ =~= file_display(ghost_name, ghost_dir));
    }
    r
}

} // verus!
