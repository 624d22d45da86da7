//! Finding where a directory went: the first directory of a scanned tree
//! whose base name is a given name.

use vstd::prelude::*;
use crate::path::{base_name, opt_view, file_name};

verus! {

/// One entry of a scan of the watched tree, in the order the scan met it.
#[derive(Clone, Debug)]
pub struct TreeEntry {
    pub path: String,
    pub is_dir: bool,
}

/// `e` is a directory whose base name is `name`.
pub open spec fn entry_matches(e: TreeEntry, name: Seq<char>) -> bool {
    e.is_dir && base_name(e.path@) == name
}

/// The path of the first entry of `entries` that is a directory named `name`.
pub open spec fn first_match(entries: Seq<TreeEntry>, name: Seq<char>) -> Option<Seq<char>>
    decreases entries.len(),
{
    if entries.len() == 0 {
        None
    } else if entry_matches(entries[0], name) {
        Some(entries[0].path@)
    } else {
        first_match(entries.drop_first(), name)
    }
}

/// `first_match` finds nothing exactly when no entry matches, and otherwise
/// the path of a matching entry that no earlier entry precedes.
pub proof fn lemma_first_match(entries: Seq<TreeEntry>, name: Seq<char>)
    ensures
        first_match(entries, name) is None <==> forall|i: int|
            0 <= i < entries.len() ==> !entry_matches(#[trigger] entries[i], name),
        first_match(entries, name) is Some ==> exists|i: int|
            0 <= i < entries.len() && entry_matches(#[trigger] entries[i], name)
                && entries[i].path@ == first_match(entries, name)->0 && forall|j: int|
                0 <= j < i ==> !entry_matches(#[trigger] entries[j], name),
    decreases entries.len(),
{
    if entries.len() > 0 {
        let rest = entries.drop_first();
        lemma_first_match(rest, name);
        if !entry_matches(entries[0], name) {
            if first_match(rest, name) is None {
                assert forall|i: int| 0 <= i < entries.len() implies !entry_matches(
                    #[trigger] entries[i],
                    name,
                ) by {
                    if i > 0 {
                        assert(entries[i] == rest[i - 1]);
                    }
                }
            } else {
                let k = choose|k: int|
                    0 <= k < rest.len() && entry_matches(#[trigger] rest[k], name)
                        && rest[k].path@ == first_match(rest, name)->0 && forall|j: int|
                        0 <= j < k ==> !entry_matches(#[trigger] rest[j], name);
                assert(entries[k + 1] == rest[k]);
                assert forall|j: int| 0 <= j < k + 1 implies !entry_matches(
                    #[trigger] entries[j],
                    name,
                ) by {
                    if j > 0 {
                        assert(entries[j] == rest[j - 1]);
                    }
                }
                assert(!entry_matches(rest[k], name) ==> false);
            }
        } else {
            assert(entry_matches(entries[0], name));
        }
    }
}

/// The path of the first directory among `entries` whose base name is
/// `name`, or `None` when there is none.
pub fn find_by_name(name: &String, entries: &Vec<TreeEntry>) -> (r: Option<String>)
    ensures
        opt_view(r) == first_match(entries@, name@),
{
    let mut i: usize = 0;
    assert(entries@.subrange(0, entries@.len() as int) =~= entries@);
    while i < entries.len()
        invariant
            i <= entries@.len(),
            first_match(entries@, name@) == first_match(
                entries@.subrange(i as int, entries@.len() as int),
                name@,
            ),
        decreases entries@.len() - i,
    {
        let ghost rest = entries@.subrange(i as int, entries@.len() as int);
        assert(rest[0] == entries@[i as int]);
        let e = &entries[i];
        if e.is_dir && file_name(&e.path) == *name {
            return Some(e.path.clone());
        }
        assert(rest.drop_first() =~= entries@.subrange(i + 1, entries@.len() as int));
        i += 1;
    }
    None
}

} // verus!
