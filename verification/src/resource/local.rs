//! The local directory pool: the server's own complete copy of every resource.
//!
//! The local copy is the fullest truth of the content: a resource lands here first, and
//! pool membership and synchronization push from it. Clients never download from it.
use vstd::prelude::*;
use crate::common::text::{chars_of, has_suffix, join2, join3, owned, strip_front, strip_start, ends_with};
use crate::resource::error::PoolError;

verus! {

/// A `.` or `..` segment of `s` spans `[a, b)`.
pub open spec fn is_dot_segment_at(s: Seq<char>, a: int, b: int) -> bool {
    &&& 0 <= a < b <= s.len()
    &&& (a == 0 || s[a - 1] == '/')
    &&& (b == s.len() || s[b] == '/')
    &&& ((b == a + 1 && s[a] == '.') || (b == a + 2 && s[a] == '.' && s[a + 1] == '.'))
}

/// Whether `s` has a `.` or `..` segment.
pub open spec fn has_dot_segment(s: Seq<char>) -> bool {
    exists|a: int, b: int| #[trigger] is_dot_segment_at(s, a, b)
}

/// `root` joined with the relative path `rel`, as `PathBuf::join` does: a separator is
/// put in between unless `root` is empty or already ends with one.
pub open spec fn joined(root: Seq<char>, rel: Seq<char>) -> Seq<char> {
    if root.len() > 0 && !has_suffix(root, "/"@) {
        root + "/"@ + rel
    } else {
        root + rel
    }
}

/// What [`LocalPool::resolve`] gives for `path` under `root`.
pub open spec fn resolved(root: Seq<char>, path: Seq<char>) -> Option<Seq<char>> {
    let rel = strip_front(path, '/');
    if has_dot_segment(rel) {
        None
    } else {
        Some(joined(root, rel))
    }
}

/// Whether the characters have a `.` or `..` segment.
pub fn find_dot_segment(s: &Vec<char>) -> (found: bool)
    ensures
        found == has_dot_segment(s@),
{
    let n = s.len();
    let mut i: usize = 0;
    while i < n
        invariant
            i <= n == s.len(),
            forall|a: int, b: int| 0 <= a < i ==> !#[trigger] is_dot_segment_at(s@, a, b),
        decreases n - i,
    {
        if s[i] == '.' && (i == 0 || s[i - 1] == '/') {
            if i + 1 == n || s[i + 1] == '/' {
                assert(is_dot_segment_at(s@, i as int, i + 1));
                return true;
            }
            if s[i + 1] == '.' && (i + 2 == n || s[i + 2] == '/') {
                assert(is_dot_segment_at(s@, i as int, i + 2));
                return true;
            }
        }
        i += 1;
    }
    false
}

/// The local pool, rooted at a directory.
pub struct LocalPool {
    root: String,
}

impl LocalPool {
    /// The root directory.
    pub closed spec fn root_view(&self) -> Seq<char> {
        self.root@
    }

    /// A pool rooted at `root` (the directory itself is created by the caller).
    pub fn new(root: String) -> (p: LocalPool)
        ensures
            p.root_view() == root@,
    {
        LocalPool { root }
    }

    /// The root directory.
    pub fn root(&self) -> (r: &str)
        ensures
            r@ == self.root_view(),
    {
        self.root.as_str()
    }

    /// Pool-relative path → absolute path. Leading slashes are dropped; a `.` or `..`
    /// segment is refused, so no path leaves the root.
    pub fn resolve(&self, path: &str) -> (r: Result<String, PoolError>)
        ensures
            match resolved(self.root_view(), path@) {
                Some(full) => r matches Ok(p) && p@ == full,
                None => r matches Err(PoolError::Config(m)) && m@ == "path escapes pool root: "@
                    + path@,
            },
    {
        let rel = strip_start(path, '/');
        let chars = chars_of(rel.as_str());
        if find_dot_segment(&chars) {
            return Err(PoolError::Config(join2("path escapes pool root: ", path)));
        }
        if !self.root.as_str().is_empty() && !ends_with(self.root.as_str(), "/") {
            Ok(join3(self.root.as_str(), "/", rel.as_str()))
        } else {
            Ok(join2(self.root.as_str(), rel.as_str()))
        }
    }
}

/// No path that [`LocalPool::resolve`] accepts holds a `..` segment after the root, so
/// resolution never climbs out of the pool.
pub proof fn law_resolve_stays_inside(root: Seq<char>, path: Seq<char>)
    requires
        resolved(root, path) is Some,
    ensures
        !has_dot_segment(strip_front(path, '/')),
        has_prefix_of(resolved(root, path)->0, root),
{
    let rel = strip_front(path, '/');
    if root.len() > 0 && !has_suffix(root, "/"@) {
        assert((root + "/"@ + rel).subrange(0, root.len() as int) =~= root);
    } else {
        assert((root + rel).subrange(0, root.len() as int) =~= root);
    }
}

/// Whether `prefix` begins `s`.
pub open spec fn has_prefix_of(s: Seq<char>, prefix: Seq<char>) -> bool {
    crate::common::text::has_prefix(s, prefix)
}

} // verus!
