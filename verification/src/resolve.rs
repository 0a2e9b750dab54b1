//! The path resolver: from a request path to a target under the root.
//!
//! A request path always starts with `/`.  Stripping that slash leaves a
//! relative path that the caller joins onto the server's root directory.
//! The remainder is used verbatim — embedded `/` characters name nested
//! directories — but a path that would resolve outside the root is rejected:
//! one with a `..` segment, or one whose relative part itself starts with
//! `/` (which a filesystem join would treat as absolute).

use vstd::prelude::*;
use crate::error::ServeError;
use vstd::string::StrSliceExecFns;
use vstd::string::StringExecFns;

verus! {

/// A resolved request: the display name shown on listing pages (the raw
/// request path) and the relative filesystem path under the root directory
/// (empty exactly for the root itself).
pub struct Directory {
    /// The raw request path, shown as the listing's heading.
    pub name: String,
    /// The path of the target relative to the root directory.
    pub path: String,
}

/// A `..` path segment begins at position `i` of `s`: two dots delimited by
/// `/` or by an end of the string on either side.
pub open spec fn dotdot_at(s: Seq<char>, i: int) -> bool {
    &&& 0 <= i
    &&& i + 2 <= s.len()
    &&& s[i] == '.'
    &&& s[i + 1] == '.'
    &&& (i == 0 || s[i - 1] == '/')
    &&& (i + 2 == s.len() || s[i + 2] == '/')
}

/// Whether some segment of `s` is exactly `..`.
pub open spec fn has_dotdot_segment(s: Seq<char>) -> bool {
    exists|i: int| dotdot_at(s, i)
}

/// Whether the relative path `rel` could escape the root directory when
/// joined onto it: it has a `..` segment, or starts with `/` and would be
/// taken as absolute.
pub open spec fn escapes_root(rel: Seq<char>) -> bool {
    has_dotdot_segment(rel) || (rel.len() > 0 && rel[0] == '/')
}

/// Decides whether some segment of `s` is exactly `..`.
pub fn contains_dotdot_segment(s: &str) -> (r: bool)
    ensures
        r == has_dotdot_segment(s@),
{
    let n = s.unicode_len();
    let mut i: usize = 0;
    while i < n
        invariant
            0 <= i <= n,
            n == s@.len(),
            forall|k: int| 0 <= k < i ==> !dotdot_at(s@, k),
        decreases n - i,
    {
        if i + 1 < n {
            let c0 = s.get_char(i);
            let c1 = s.get_char(i + 1);
            let before_ok = i == 0 || s.get_char(i - 1) == '/';
            let after_ok = i + 2 == n || s.get_char(i + 2) == '/';
            if c0 == '.' && c1 == '.' && before_ok && after_ok {
                assert(dotdot_at(s@, i as int));
                return true;
            }
        }
        proof {
            assert(!dotdot_at(s@, i as int));
        }
        i = i + 1;
    }
    proof {
        assert forall|k: int| !dotdot_at(s@, k) by {
            if 0 <= k < n {
                assert(!dotdot_at(s@, k));
            }
        }
    }
    false
}

/// Resolves a request path: strips the leading `/` and keeps the remainder
/// as the relative path under the root, rejecting any path that could
/// resolve outside the root.  Existence and type of the target are not
/// checked here; that is the dispatcher's concern.
pub fn resolve(request_path: &str) -> (r: Result<Directory, ServeError>)
    requires
        request_path@.len() >= 1,
        request_path@[0] == '/',
    ensures
        match r {
            Ok(d) => {
                &&& !escapes_root(request_path@.skip(1))
                &&& d.name@ == request_path@
                &&& d.path@ == request_path@.skip(1)
            },
            Err(e) => {
                &&& e == ServeError::TraversalAttempt
                &&& escapes_root(request_path@.skip(1))
            },
        },
{
    let n = request_path.unicode_len();
    let rel = request_path.substring_char(1, n);
    proof {
        assert(rel@ =~= request_path@.skip(1));
    }
    if rel.unicode_len() > 0 && rel.get_char(0) == '/' {
        return Err(ServeError::TraversalAttempt);
    }
    if contains_dotdot_segment(rel) {
        return Err(ServeError::TraversalAttempt);
    }
    Ok(Directory { name: String::from_str(request_path), path: String::from_str(rel) })
}

} // verus!
