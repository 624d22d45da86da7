//! Properties of the classification rules, stated over the outcome
//! functions that the classifier's methods are proved to follow.

use vstd::prelude::*;
use crate::path::{base_name, parent_dir, is_top_level};
use crate::classifier::{Report, all_top_level, create_outcome, remove_outcome};
use crate::resolver::{TreeEntry, entry_matches, first_match, lemma_first_match};

verus! {

/// Creating a directory directly under the root, with a name other than the
/// placeholder, is reported once as created, and the path becomes known.
pub proof fn law_create_reported(
    known: Set<Seq<char>>,
    root: Seq<char>,
    placeholder: Seq<char>,
    path: Seq<char>,
)
    requires
        is_top_level(path, root),
        base_name(path) != placeholder,
    ensures
        create_outcome(known, root, placeholder, path, true) == (
            known.insert(path),
            Some(Report::Created(path)),
        ),
        create_outcome(known, root, placeholder, path, true).0.contains(path),
{
}

/// A directory named as the placeholder is never reported as created or
/// removed, and the known set changes just as it would for any other name.
pub proof fn law_placeholder_squelched(
    known: Set<Seq<char>>,
    root: Seq<char>,
    placeholder: Seq<char>,
    other: Seq<char>,
    path: Seq<char>,
    is_dir: bool,
    found: Option<Seq<char>>,
)
    requires
        base_name(path) == placeholder,
    ensures
        !(create_outcome(known, root, placeholder, path, is_dir).1 is Some),
        !(remove_outcome(known, root, placeholder, path, found).1 matches Some(
            Report::Removed(_),
        )),
        create_outcome(known, root, placeholder, path, is_dir).0 == create_outcome(
            known,
            root,
            other,
            path,
            is_dir,
        ).0,
        remove_outcome(known, root, placeholder, path, found).0 == remove_outcome(
            known,
            root,
            other,
            path,
            found,
        ).0,
{
}

/// Removing a known directory of which no directory of the same name is
/// left in the tree reports it once as removed and forgets it, for any name
/// but the placeholder.
pub proof fn law_true_deletion(
    known: Set<Seq<char>>,
    root: Seq<char>,
    placeholder: Seq<char>,
    path: Seq<char>,
    entries: Seq<TreeEntry>,
)
    requires
        known.contains(path),
        base_name(path) != placeholder,
        forall|i: int| 0 <= i < entries.len() ==> !entry_matches(#[trigger] entries[i], base_name(path)),
    ensures
        remove_outcome(known, root, placeholder, path, first_match(entries, base_name(path))) == (
            known.remove(path),
            Some(Report::Removed(path)),
        ),
{
    lemma_first_match(entries, base_name(path));
}

/// Removing a known top-level directory while a directory of the same name
/// stands elsewhere in the tree reports one move to that directory; the old
/// path is forgotten, and the new one is known exactly when it lies directly
/// under the root.
pub proof fn law_move_detected(
    known: Set<Seq<char>>,
    root: Seq<char>,
    placeholder: Seq<char>,
    path: Seq<char>,
    entries: Seq<TreeEntry>,
)
    requires
        all_top_level(known, root),
        known.contains(path),
        exists|i: int| 0 <= i < entries.len() && entry_matches(#[trigger] entries[i], base_name(path)),
        forall|i: int|
            0 <= i < entries.len() && entry_matches(#[trigger] entries[i], base_name(path))
                ==> entries[i].path@ != path,
    ensures
        first_match(entries, base_name(path)) is Some,
        ({
            let q = first_match(entries, base_name(path))->0;
            let (after, report) = remove_outcome(known, root, placeholder, path, Some(q));
            &&& base_name(q) == base_name(path)
            &&& q != path
            &&& report == Some(Report::Moved(base_name(path), q))
            &&& !after.contains(path)
            &&& after.contains(q) <==> parent_dir(q) == Some(root)
        }),
{
    let name = base_name(path);
    lemma_first_match(entries, name);
    let q = first_match(entries, name)->0;
    let i = choose|i: int|
        0 <= i < entries.len() && entry_matches(#[trigger] entries[i], name) && entries[i].path@
            == q && forall|j: int| 0 <= j < i ==> !entry_matches(#[trigger] entries[j], name);
    assert(entries[i].path@ != path);
    assert(is_top_level(path, root));
    if parent_dir(q) == Some(root) {
        assert(is_top_level(q, root));
    } else {
        assert(!known.contains(q));
    }
}

/// A remove notification for a path that is not known changes nothing and
/// reports nothing.
pub proof fn law_unknown_remove_ignored(
    known: Set<Seq<char>>,
    root: Seq<char>,
    placeholder: Seq<char>,
    path: Seq<char>,
    found: Option<Seq<char>>,
)
    requires
        !known.contains(path),
    ensures
        remove_outcome(known, root, placeholder, path, found) == (known, None::<Report>),
{
}

/// Create and remove notifications for paths that are not directly under
/// the root change nothing and report nothing, while every known path lies
/// directly under the root.
pub proof fn law_nested_ignored(
    known: Set<Seq<char>>,
    root: Seq<char>,
    placeholder: Seq<char>,
    path: Seq<char>,
    is_dir: bool,
    found: Option<Seq<char>>,
)
    requires
        all_top_level(known, root),
        !is_top_level(path, root),
    ensures
        create_outcome(known, root, placeholder, path, is_dir) == (known, None::<Report>),
        remove_outcome(known, root, placeholder, path, found) == (known, None::<Report>),
{
}

} // verus!
