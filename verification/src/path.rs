//! The path validator: which caller-supplied names may be used as a single
//! path segment under the storage root.

use vstd::prelude::*;

verus! {

/// The character that separates the segments of a path.
pub const SEPARATOR: char = '/';

/// `s` is the current-directory marker `.`.
pub open spec fn is_current_marker(s: Seq<char>) -> bool {
    s.len() == 1 && s[0] == '.'
}

/// `s` is the parent-directory marker `..`.
pub open spec fn is_parent_marker(s: Seq<char>) -> bool {
    s.len() == 2 && s[0] == '.' && s[1] == '.'
}

/// `s` is exactly one normal path segment: it is not empty, holds no
/// separator (so it is neither rooted nor made of several segments), and is
/// neither `.` nor `..`.
pub open spec fn is_safe_segment(s: Seq<char>) -> bool {
    &&& s.len() > 0
    &&& !s.contains(SEPARATOR)
    &&& !is_current_marker(s)
    &&& !is_parent_marker(s)
}

/// Decides whether `path` is safe to use as a single segment under the
/// storage root. A pure predicate: it never fails, it only answers.
pub fn path_is_valid(path: &str) -> (ok: bool)
    ensures
        ok == is_safe_segment(path@),
{
    let mut count: usize = 0;
    let mut separated = false;
    let mut dots_only = true;
    let ghost mut seen: int = 0;
    for c in it: path.chars()
        invariant
            it.seq() == path@,
            seen == it.index(),
            count == (if seen < 3 { seen } else { 3 }),
            separated == path@.take(seen).contains(SEPARATOR),
            dots_only == (forall|k: int| 0 <= k < seen ==> path@[k] == '.'),
    {
        let ghost before = path@.take(seen);
        let ghost after = path@.take(seen + 1);
        assert(after == before.push(c));
        if c == SEPARATOR {
            assert(after[seen] == SEPARATOR);
            separated = true;
        } else {
            assert forall|k: int| 0 <= k < after.len() && after[k] == SEPARATOR implies before.contains(
                SEPARATOR,
            ) by {
                assert(before[k] == SEPARATOR);
            }
        }
        if c != '.' {
            dots_only = false;
        }
        if count < 3 {
            count += 1;
        }
        proof {
            seen = seen + 1;
        }
    }
    assert(path@.take(seen) == path@);
    count > 0 && !separated && !(dots_only && count <= 2)
}

/// Every name that holds a separator, and each of `..`, `.` and the empty
/// name, is refused.
pub proof fn lemma_unsafe_names_are_refused(s: Seq<char>)
    requires
        s.contains(SEPARATOR) || is_parent_marker(s) || is_current_marker(s) || s.len() == 0,
    ensures
        !is_safe_segment(s),
{
}

/// Every name that is a single non-empty segment without a separator, other
/// than `.` and `..`, is accepted.
pub proof fn lemma_plain_names_are_accepted(s: Seq<char>)
    requires
        s.len() > 0,
        forall|i: int| 0 <= i < s.len() ==> s[i] != SEPARATOR,
        !is_current_marker(s),
        !is_parent_marker(s),
    ensures
        is_safe_segment(s),
{
}

} // verus!
