use vstd::prelude::*;

use crate::paths::{is_hidden, path_hidden};
use crate::pattern::{glob_compiles, glob_matches, glob_path_matches, glob_pattern_valid};

verus! {

/// Why a selection was refused.
#[derive(Debug, PartialEq, Eq)]
pub enum SelectError {
    /// The inclusion pattern does not compile; it carries the pattern.
    InvalidInclude(String),
    /// The exclusion pattern does not compile; it carries the pattern.
    InvalidExclude(String),
}

/// The text of an optional pattern.
pub open spec fn pattern_text(p: Option<String>) -> Option<Seq<char>> {
    match p {
        Some(s) => Some(s@),
        None => None,
    }
}

/// An absent pattern is valid; a present one must compile.
pub open spec fn pattern_ok(p: Option<Seq<char>>) -> bool {
    match p {
        Some(g) => glob_pattern_valid(g),
        None => true,
    }
}

/// An absent inclusion pattern takes every path.
pub open spec fn include_takes(inc: Option<Seq<char>>, path: Seq<char>) -> bool {
    match inc {
        Some(g) => glob_path_matches(g, path),
        None => true,
    }
}

/// An absent exclusion pattern takes no path.
pub open spec fn exclude_takes(exc: Option<Seq<char>>, path: Seq<char>) -> bool {
    match exc {
        Some(g) => glob_path_matches(g, path),
        None => false,
    }
}

/// The hidden-file policy: hidden paths stay only when `include_hidden` is set.
pub open spec fn visible_under(include_hidden: bool, path: Seq<char>) -> bool {
    include_hidden || !path_hidden(path)
}

/// The candidate paths that the inclusion pattern takes, under the hidden policy.
pub open spec fn included_set(
    files: Seq<Seq<char>>,
    inc: Option<Seq<char>>,
    include_hidden: bool,
) -> Set<Seq<char>> {
    files.to_set().filter(|p: Seq<char>| include_takes(inc, p) && visible_under(include_hidden, p))
}

/// The candidate paths that the exclusion pattern takes, under the hidden policy.
pub open spec fn excluded_set(
    files: Seq<Seq<char>>,
    exc: Option<Seq<char>>,
    include_hidden: bool,
) -> Set<Seq<char>> {
    files.to_set().filter(|p: Seq<char>| exclude_takes(exc, p) && visible_under(include_hidden, p))
}

/// The selected set: what the inclusion pattern takes minus what the exc
/// pattern takes.
pub open spec fn selection(
    files: Seq<Seq<char>>,
    inc: Option<Seq<char>>,
    exc: Option<Seq<char>>,
    include_hidden: bool,
) -> Set<Seq<char>> {
    included_set(files, inc, include_hidden).difference(
        excluded_set(files, exc, include_hidden),
    )
}

/// Whether one path is kept, stated per path.
pub open spec fn keeps(
    inc: Option<Seq<char>>,
    exc: Option<Seq<char>>,
    include_hidden: bool,
    path: Seq<char>,
) -> bool {
    include_takes(inc, path) && visible_under(include_hidden, path) && !exclude_takes(
        exc,
        path,
    )
}

/// Whether an optional pattern matches `path`; `absent` when there is none.
fn optional_matches(pattern: &Option<String>, absent: bool, path: &str) -> (r: bool)
    requires
        pattern_ok(pattern_text(*pattern)),
    ensures
        r == match pattern_text(*pattern) {
            Some(g) => glob_path_matches(g, path@),
            None => absent,
        },
{
    match pattern {
        Some(g) => glob_matches(g.as_str(), path),
        None => absent,
    }
}

/// Whether `path` is already among `paths`.
fn contains_path(paths: &Vec<String>, path: &String) -> (r: bool)
    ensures
        r == paths.deep_view().contains(path@),
{
    let ghost dv = paths.deep_view();
    for i in 0..paths.len()
        invariant
            dv == paths.deep_view(),
            forall|j: int| 0 <= j < i ==> dv[j] != path@,
    {
        if paths[i] == *path {
            assert(dv[i as int] == path@);
            return true;
        }
    }
    false
}

/// Selects, among `files` (the regular files under the root, as relative
/// paths with `/` separators), those that the inclusion pattern takes (every
/// file when it is absent) and the exclusion pattern does not, leaving hidden
/// paths out unless `include_hidden` is set. Each selected path appears once.
pub fn get_filtered_files(
    files: &Vec<String>,
    include_pattern: Option<String>,
    exclude_pattern: Option<String>,
    include_hidden: bool,
) -> (r: Result<Vec<String>, SelectError>)
    ensures
        match r {
            Ok(selected) => {
                &&& pattern_ok(pattern_text(include_pattern))
                &&& pattern_ok(pattern_text(exclude_pattern))
                &&& selected.deep_view().no_duplicates()
                &&& selected.deep_view().to_set() == selection(
                    files.deep_view(),
                    pattern_text(include_pattern),
                    pattern_text(exclude_pattern),
                    include_hidden,
                )
            },
            Err(SelectError::InvalidInclude(g)) => {
                &&& include_pattern == Some(g)
                &&& !glob_pattern_valid(g@)
            },
            Err(SelectError::InvalidExclude(g)) => {
                &&& pattern_ok(pattern_text(include_pattern))
                &&& exclude_pattern == Some(g)
                &&& !glob_pattern_valid(g@)
            },
        },
{
    if let Some(g) = &include_pattern {
        if !glob_compiles(g.as_str()) {
            return Err(SelectError::InvalidInclude(g.clone()));
        }
    }
    if let Some(g) = &exclude_pattern {
        if !glob_compiles(g.as_str()) {
            return Err(SelectError::InvalidExclude(g.clone()));
        }
    }
    let ghost inc = pattern_text(include_pattern);
    let ghost exc = pattern_text(exclude_pattern);
    let ghost fv = files.deep_view();
    let mut selected: Vec<String> = Vec::new();
    for i in 0..files.len()
        invariant
            fv == files.deep_view(),
            inc == pattern_text(include_pattern),
            exc == pattern_text(exclude_pattern),
            pattern_ok(inc),
            pattern_ok(exc),
            selected.deep_view().no_duplicates(),
            forall|p: Seq<char>|
                #![trigger selected.deep_view().contains(p)]
                selected.deep_view().contains(p) <==> (exists|j: int|
                    0 <= j < i && #[trigger] fv[j] == p) && keeps(inc, exc, include_hidden, p),
    {
        let path = &files[i];
        assert(fv[i as int] == path@);
        let keep = optional_matches(&include_pattern, true, path.as_str()) && (include_hidden
            || !is_hidden(path.as_str())) && !optional_matches(
            &exclude_pattern,
            false,
            path.as_str(),
        );
        assert(keep == keeps(inc, exc, include_hidden, path@));
        let ghost before = selected.deep_view();
        if keep && !contains_path(&selected, path) {
            selected.push(path.clone());
            assert(selected.deep_view() =~= before.push(path@));
        }
        assert forall|p: Seq<char>|
            #![trigger selected.deep_view().contains(p)]
            selected.deep_view().contains(p) <==> (exists|j: int|
                0 <= j < i + 1 && #[trigger] fv[j] == p) && keeps(inc, exc, include_hidden, p) by {
            if p == path@ {
                assert(fv[i as int] == p);
                if selected.deep_view() != before {
                    assert(selected.deep_view()[before.len() as int] == p);
                }
            } else {
                if selected.deep_view() != before {
                    if selected.deep_view().contains(p) {
                        let k = choose|k: int|
                            0 <= k < selected.deep_view().len() && selected.deep_view()[k] == p;
                        assert(before[k] == p);
                    }
                    if before.contains(p) {
                        let k = choose|k: int| 0 <= k < before.len() && before[k] == p;
                        assert(selected.deep_view()[k] == p);
                    }
                }
                if exists|j: int| 0 <= j < i + 1 && #[trigger] fv[j] == p {
                    let j = choose|j: int| 0 <= j < i + 1 && #[trigger] fv[j] == p;
                    assert(j < i);
                }
            }
        }
    }
    let ghost sv = selected.deep_view();
    assert(sv.to_set() =~= selection(fv, inc, exc, include_hidden)) by {
        assert forall|p: Seq<char>| sv.to_set().contains(p) implies selection(
            fv,
            inc,
            exc,
            include_hidden,
        ).contains(p) by {
            assert(sv.contains(p));
            let j = choose|j: int| 0 <= j < files.len() && fv[j] == p;
            assert(fv.contains(p));
        }
        assert forall|p: Seq<char>| selection(fv, inc, exc, include_hidden).contains(p) implies sv.to_set().contains(p) by {
            assert(fv.contains(p));
            let j = choose|j: int| 0 <= j < fv.len() && fv[j] == p;
            assert(sv.contains(p));
        }
    }
    Ok(selected)
}

} // verus!
