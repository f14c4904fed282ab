//! Path decisions made before the file system is touched.
use vstd::prelude::*;

use crate::error::ShellError;
use crate::text::chars_of;

verus! {

/// Whether the path `p` has a parent component, as `std::path::Path::parent`
/// computes it.
pub uninterp spec fn has_parent_path(p: Seq<char>) -> bool;

/// Relies on `std::path::Path::parent`: `None` exactly for a path without a
/// final component to strip; the empty path and `/` are two such paths.
#[verifier::external_body]
fn path_has_parent(path: &str) -> (r: bool)
    ensures
        r == has_parent_path(path@),
        path@.len() == 0 ==> !r,
        path@ == seq!['/'] ==> !r,
{
    std::path::Path::new(path).parent().is_some()
}

/// The kind of file system entry found at a path.
#[derive(Debug, PartialEq, Eq, Clone, Copy, Structural)]
pub enum PathKind {
    Missing,
    Directory,
    Other,
}

/// The `cd` arguments that mean the home directory: none, `~` and `~/`.
pub open spec fn means_home(path: Seq<char>) -> bool {
    path.len() == 0 || path == seq!['~'] || path == seq!['~', '/']
}

/// File-related decisions of the shell.
pub struct FileManager;

impl FileManager {
    /// Whether `path` names the home directory.
    pub fn should_go_to_homedir(&self, path: &str) -> (r: bool)
        ensures
            r == means_home(path@),
    {
        let c = chars_of(path);
        if c.len() == 0 {
            return true;
        }
        if c.len() == 1 && c[0] == '~' {
            assert(c@ =~= seq!['~']);
            return true;
        }
        if c.len() == 2 && c[0] == '~' && c[1] == '/' {
            assert(c@ =~= seq!['~', '/']);
            return true;
        }
        assert(c@ != seq!['~']);
        assert(c@ != seq!['~', '/']);
        false
    }

    /// A redirection target needs a parent directory component.
    pub fn parent_dir_exist(&self, path: &str) -> (r: Result<(), ShellError>)
        ensures
            has_parent_path(path@) ==> r is Ok,
            !has_parent_path(path@) ==> (match r {
                Err(ShellError::NotADirectory(p)) => p@ == path@,
                _ => false,
            }),
    {
        if path_has_parent(path) {
            Ok(())
        } else {
            Err(ShellError::NotADirectory(String::from_str(path)))
        }
    }
}

} // verus!
