//! Directory paths as normalized strings: components joined by `/`, with no
//! trailing separator. The parent of a path is what stands before its last
//! separator; its base name is what stands after it.

use vstd::prelude::*;

verus! {

/// What follows the last `/` of `p` (all of `p` when it holds none).
pub open spec fn base_name(p: Seq<char>) -> Seq<char>
    decreases p.len(),
{
    if p.len() == 0 {
        p
    } else if p.last() == '/' {
        Seq::empty()
    } else {
        base_name(p.drop_last()).push(p.last())
    }
}

/// What precedes the last `/` of `p`; `None` when `p` holds no separator.
pub open spec fn parent_dir(p: Seq<char>) -> Option<Seq<char>> {
    if p.contains('/') {
        Some(p.subrange(0, p.len() - base_name(p).len() - 1))
    } else {
        None
    }
}

/// `p` names a direct child of `root`: its parent is `root` and its base name
/// is not empty.
pub open spec fn is_top_level(p: Seq<char>, root: Seq<char>) -> bool {
    &&& parent_dir(p) == Some(root)
    &&& base_name(p).len() > 0
}

pub open spec fn opt_view(o: Option<String>) -> Option<Seq<char>> {
    match o {
        Some(s) => Some(s@),
        None => None,
    }
}

/// The base name is a suffix of `p` free of separators, and where `p` holds
/// one, a separator stands right before that suffix.
pub proof fn lemma_base_name_suffix(p: Seq<char>)
    ensures
        base_name(p).len() <= p.len(),
        !base_name(p).contains('/'),
        base_name(p) == p.subrange(p.len() - base_name(p).len(), p.len() as int),
        p.contains('/') ==> base_name(p).len() < p.len() && p[p.len() - base_name(p).len()
            - 1] == '/',
        !p.contains('/') ==> base_name(p) == p,
    decreases p.len(),
{
    if p.len() == 0 {
        assert(p.subrange(0, 0) =~= p);
    } else if p.last() == '/' {
        assert(p.contains('/')) by {
            assert(p[p.len() - 1] == '/');
        }
        assert(p.subrange(p.len() as int, p.len() as int) =~= Seq::<char>::empty());
    } else {
        let q = p.drop_last();
        lemma_base_name_suffix(q);
        let b = base_name(q);
        assert(base_name(p) == b.push(p.last()));
        assert(!b.push(p.last()).contains('/')) by {
            if b.push(p.last()).contains('/') {
                let i = choose|i: int| 0 <= i < b.len() + 1 && b.push(p.last())[i] == '/';
                if i < b.len() {
                    assert(b[i] == '/');
                }
            }
        }
        assert(b.push(p.last()) =~= p.subrange(p.len() - b.len() - 1, p.len() as int));
        if p.contains('/') {
            let i = choose|i: int| 0 <= i < p.len() && p[i] == '/';
            assert(i < q.len());
            assert(q[i] == '/');
            assert(q.contains('/'));
            assert(p[p.len() - b.len() - 2] == q[q.len() - b.len() - 1]);
        } else {
            assert(!q.contains('/')) by {
                if q.contains('/') {
                    let i = choose|i: int| 0 <= i < q.len() && q[i] == '/';
                    assert(p[i] == '/');
                }
            }
            assert(q.push(p.last()) =~= p);
        }
    }
}

/// Splitting `a + "/" + b`, where `b` holds no separator, gives back `a` and `b`.
pub proof fn lemma_split_joined(a: Seq<char>, b: Seq<char>)
    requires
        !b.contains('/'),
    ensures
        base_name(a + seq!['/'] + b) == b,
        parent_dir(a + seq!['/'] + b) == Some(a),
    decreases b.len(),
{
    let p = a + seq!['/'] + b;
    assert(p[a.len() as int] == '/');
    assert(p.contains('/'));
    if b.len() == 0 {
        assert(p.last() == '/');
        assert(p.subrange(0, p.len() - 1) =~= a);
    } else {
        let c = b.drop_last();
        assert(!c.contains('/')) by {
            if c.contains('/') {
                let i = choose|i: int| 0 <= i < c.len() && c[i] == '/';
                assert(b[i] == '/');
            }
        }
        lemma_split_joined(a, c);
        assert(p.drop_last() =~= a + seq!['/'] + c);
        assert(b.last() != '/') by {
            assert(b[b.len() - 1] == b.last());
        }
        assert(c.push(b.last()) =~= b);
        assert(p.subrange(0, p.len() - b.len() - 1) =~= a);
    }
}

/// Relies on `str::rsplit_once`: it splits at the last occurrence of the
/// separator, returning what stands before it and what stands after it, and
/// returns `None` where the separator does not occur.
#[verifier::external_body]
fn rsplit_separator(p: &str) -> (r: Option<(String, String)>)
    ensures
        match r {
            Some((a, b)) => p@ == a@ + seq!['/'] + b@ && !b@.contains('/'),
            None => !p@.contains('/'),
        },
{
    p.rsplit_once('/').map(|(a, b)| (a.to_string(), b.to_string()))
}

/// The parent (if any) and the base name of `p`.
pub fn split_path(p: &String) -> (r: (Option<String>, String))
    ensures
        opt_view(r.0) == parent_dir(p@),
        r.1@ == base_name(p@),
{
    match rsplit_separator(p.as_str()) {
        Some((a, b)) => {
            proof {
                lemma_split_joined(a@, b@);
            }
            (Some(a), b)
        },
        None => {
            proof {
                lemma_base_name_suffix(p@);
            }
            (None, p.clone())
        },
    }
}

/// The base name of `p`.
pub fn file_name(p: &String) -> (r: String)
    ensures
        r@ == base_name(p@),
{
    split_path(p).1
}

/// Whether `p` is a direct child of `root`.
pub fn is_child_of(p: &String, root: &String) -> (r: bool)
    ensures
        r == is_top_level(p@, root@),
{
    let (parent, base) = split_path(p);
    match parent {
        Some(a) => a == *root && !base.as_str().is_empty(),
        None => false,
    }
}

} // verus!
