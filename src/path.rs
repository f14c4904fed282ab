//! The search path: the ordered directories in which external executables
//! are looked up.
use vstd::prelude::*;

use crate::text::{chars_of, concat, push_char, string_of};

verus! {

/// `name` appended to the directory `dir` as a path component: an absolute
/// `name` stands alone, an empty `dir` adds nothing, and a `/` separates
/// the two unless `dir` already ends with one.
pub open spec fn join_path(dir: Seq<char>, name: Seq<char>) -> Seq<char> {
    if name.len() > 0 && name[0] == '/' {
        name
    } else if dir.len() == 0 {
        name
    } else if dir.last() == '/' {
        dir + name
    } else {
        dir.push('/') + name
    }
}

/// `probe` may answer `b` for the path `path`.
pub open spec fn probe_says<F: Fn(&str) -> bool>(probe: F, path: Seq<char>, b: bool) -> bool {
    exists|s: &str| s@ == path && #[trigger] probe.ensures((s,), b)
}

/// The path of `name` in the directory `dir`.
pub fn join_dir(dir: &str, name: &str) -> (r: String)
    ensures
        r@ == join_path(dir@, name@),
{
    let d = chars_of(dir);
    let n = chars_of(name);
    if n.len() > 0 && n[0] == '/' {
        return string_of(&n);
    }
    if d.len() == 0 {
        return string_of(&n);
    }
    if d[d.len() - 1] == '/' {
        return concat(dir, name);
    }
    let mut s = String::from_str(dir);
    push_char(&mut s, '/');
    let r = concat(s.as_str(), name);
    r
}

/// The directories of the search path, in the order in which they are searched.
pub struct PathDirsProvider {
    pub path_dirs: Vec<String>,
}

impl PathDirsProvider {
    pub fn new(path_dirs: Vec<String>) -> (r: Self)
        ensures
            r.path_dirs@ == path_dirs@,
    {
        PathDirsProvider { path_dirs }
    }

    /// The directories, in search order.
    pub fn iter(&self) -> (r: &[String])
        ensures
            r@ == self.path_dirs@,
    {
        self.path_dirs.as_slice()
    }

    /// The path that `exe_name` would have in the `i`-th directory.
    pub open spec fn candidate(&self, exe_name: Seq<char>, i: int) -> Seq<char> {
        join_path(self.path_dirs@[i]@, exe_name)
    }

    /// `p` is the entry `exe_name` of the first directory, in order, for
    /// which the probe reported an executable file.
    pub open spec fn search_hit<F: Fn(&str) -> bool>(
        &self,
        exe_name: Seq<char>,
        probe: F,
        p: Seq<char>,
    ) -> bool {
        exists|i: int|
            0 <= i < self.path_dirs@.len() && p == #[trigger] self.candidate(exe_name, i)
                && probe_says(probe, p, true) && forall|j: int|
                0 <= j < i ==> probe_says(probe, #[trigger] self.candidate(exe_name, j), false)
    }

    /// The probe reported no directory's entry `exe_name` as an executable file.
    pub open spec fn search_miss<F: Fn(&str) -> bool>(&self, exe_name: Seq<char>, probe: F) -> bool {
        forall|j: int|
            0 <= j < self.path_dirs@.len() ==> probe_says(
                probe,
                #[trigger] self.candidate(exe_name, j),
                false,
            )
    }

    /// The first directory, in order, whose entry `exe_name` the probe
    /// reports as an executable regular file; the result is that entry's path.
    pub fn find_executable<F: Fn(&str) -> bool>(&self, exe_name: &str, is_executable: &F) -> (r:
        Option<String>)
        requires
            forall|s: &str| is_executable.requires((s,)),
        ensures
            match r {
                Some(p) => self.search_hit(exe_name@, *is_executable, p@),
                None => self.search_miss(exe_name@, *is_executable),
            },
    {
        let mut i: usize = 0;
        while i < self.path_dirs.len()
            invariant
                i <= self.path_dirs@.len(),
                forall|s: &str| is_executable.requires((s,)),
                forall|j: int|
                    0 <= j < i ==> probe_says(
                        *is_executable,
                        #[trigger] self.candidate(exe_name@, j),
                        false,
                    ),
            decreases self.path_dirs@.len() - i,
        {
            let exe_path = join_dir(self.path_dirs[i].as_str(), exe_name);
            let found = is_executable(exe_path.as_str());
            assert(probe_says(*is_executable, exe_path@, found));
            if found {
                assert(exe_path@ == self.candidate(exe_name@, i as int));
                return Some(exe_path);
            }
            i += 1;
        }
        None
    }
}

} // verus!
