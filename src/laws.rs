use vstd::prelude::*;

use crate::decode::{lemma_read_back, read_json_export};
use crate::export::{json_export, markdown_document};
use crate::paths::path_hidden;
use crate::selection::{exclude_takes, include_takes, selection};

verus! {

/// A path with a segment that starts with a dot is hidden wherever that
/// segment stands, the last one or a directory above it: the selection leaves
/// it out when hidden files are not wanted, and when they are, keeps it
/// exactly when the patterns alone would.
pub proof fn lemma_hidden_segment_anywhere(
    files: Seq<Seq<char>>,
    inc: Option<Seq<char>>,
    exc: Option<Seq<char>>,
    parent: Seq<char>,
    rest: Seq<char>,
)
    requires
        parent.len() == 0 || parent.last() == '/',
    ensures
        path_hidden(parent + seq!['.'] + rest),
        !selection(files, inc, exc, false).contains(parent + seq!['.'] + rest),
        selection(files, inc, exc, true).contains(parent + seq!['.'] + rest) <==> (files.contains(
            parent + seq!['.'] + rest,
        ) && include_takes(inc, parent + seq!['.'] + rest) && !exclude_takes(
            exc,
            parent + seq!['.'] + rest,
        )),
        selection(files, None, None, true).contains(parent + seq!['.'] + rest) == files.contains(
            parent + seq!['.'] + rest,
        ),
{
    let p = parent + seq!['.'] + rest;
    let i = parent.len() as int;
    assert(p[i] == '.');
    if i > 0 {
        assert(p[i - 1] == parent.last());
    }
    assert(path_hidden(p));
}

/// The selection depends on which paths the tree holds, not on the order in
/// which they were listed: two listings of one unchanged tree select the same
/// set.
pub proof fn lemma_selection_order_independent(
    first: Seq<Seq<char>>,
    second: Seq<Seq<char>>,
    inc: Option<Seq<char>>,
    exc: Option<Seq<char>>,
    include_hidden: bool,
)
    requires
        first.to_set() == second.to_set(),
    ensures
        selection(first, inc, exc, include_hidden) == selection(second, inc, exc, include_hidden),
{
}

/// Selecting again, with the same patterns and policy, among the paths that
/// a selection kept gives back the same set.
pub proof fn lemma_selection_idempotent(
    files: Seq<Seq<char>>,
    selected: Seq<Seq<char>>,
    inc: Option<Seq<char>>,
    exc: Option<Seq<char>>,
    include_hidden: bool,
)
    requires
        selected.to_set() == selection(files, inc, exc, include_hidden),
    ensures
        selection(selected, inc, exc, include_hidden) == selection(files, inc, exc, include_hidden),
{
    assert(selection(selected, inc, exc, include_hidden) =~= selection(
        files,
        inc,
        exc,
        include_hidden,
    ));
}

/// Without an inclusion or an exclusion pattern, every listed file is
/// selected when hidden files are wanted, and every one that is not hidden
/// otherwise.
pub proof fn lemma_default_selection(files: Seq<Seq<char>>)
    ensures
        selection(files, None, None, true) == files.to_set(),
        selection(files, None, None, false) == files.to_set().filter(
            |p: Seq<char>| !path_hidden(p),
        ),
{
    assert(selection(files, None, None, true) =~= files.to_set());
    assert(selection(files, None, None, false) =~= files.to_set().filter(
        |p: Seq<char>| !path_hidden(p),
    ));
}

/// With nothing selected, the Markdown document is empty and the JSON
/// document is the empty array `[]`.
pub proof fn lemma_empty_export()
    ensures
        markdown_document(Seq::empty()) == Seq::<char>::empty(),
        json_export(Seq::empty()) == "[]"@,
{
    reveal_strlit("[");
    reveal_strlit("]");
    reveal_strlit("[]");
    assert(json_export(Seq::empty()) =~= "[]"@);
}

/// Reading an exported JSON document back, by JSON's rules for strings,
/// gives exactly the (location, content) pairs that were exported, in order.
pub proof fn lemma_json_round_trip(entries: Seq<(Seq<char>, Seq<char>)>)
    ensures
        read_json_export(json_export(entries)) == Some(entries),
{
    lemma_read_back(entries);
}

} // verus!
