use vstd::prelude::*;

verus! {

/// A relative path is hidden when one of its `/`-separated segments starts
/// with a dot: either the path itself starts with `.`, or a `.` follows a `/`.
pub open spec fn path_hidden(p: Seq<char>) -> bool {
    exists|i: int| 0 <= i < p.len() && #[trigger] p[i] == '.' && (i == 0 || p[i - 1] == '/')
}

/// Whether any segment of the relative path `path` names a hidden entry.
pub fn is_hidden(path: &str) -> (r: bool)
    ensures
        r == path_hidden(path@),
{
    let mut at_segment_start = true;
    for c in it: path.chars()
        invariant
            it.seq() == path@,
            at_segment_start == (it.index() == 0 || path@[it.index() - 1] == '/'),
            forall|j: int|
                0 <= j < it.index() ==> !(#[trigger] path@[j] == '.' && (j == 0 || path@[j - 1] == '/')),
    {
        if at_segment_start && c == '.' {
            return true;
        }
        at_segment_start = c == '/';
    }
    false
}

} // verus!
