//! The set of directory paths currently known to be top-level children of
//! the watched root.

use vstd::prelude::*;

verus! {

/// A set of paths, held as a list without repetitions.
pub struct PathRegistry {
    paths: Vec<String>,
}

impl View for PathRegistry {
    type V = Set<Seq<char>>;

    closed spec fn view(&self) -> Set<Seq<char>> {
        self.items().to_set()
    }
}

impl PathRegistry {
    /// The paths as character sequences, in the order they are held.
    closed spec fn items(&self) -> Seq<Seq<char>> {
        self.paths@.map_values(|s: String| s@)
    }

    /// No path is held twice.
    pub closed spec fn wf(&self) -> bool {
        self.items().no_duplicates()
    }

    /// An empty registry.
    pub fn new() -> (r: PathRegistry)
        ensures
            r.wf(),
            r@ == Set::<Seq<char>>::empty(),
    {
        let r = PathRegistry { paths: Vec::new() };
        assert(r.items() =~= Seq::<Seq<char>>::empty());
        assert(r@ =~= Set::<Seq<char>>::empty());
        r
    }

    /// Where `p` is held, if it is.
    fn position(&self, p: &String) -> (r: Option<usize>)
        ensures
            match r {
                Some(i) => i < self.items().len() && self.items()[i as int] == p@,
                None => !self.items().contains(p@),
            },
    {
        let mut i: usize = 0;
        while i < self.paths.len()
            invariant
                i <= self.paths@.len(),
                forall|j: int| 0 <= j < i ==> self.items()[j] != p@,
            decreases self.paths@.len() - i,
        {
            if self.paths[i] == *p {
                return Some(i);
            }
            i += 1;
        }
        None
    }

    /// Whether `p` is in the set.
    pub fn contains(&self, p: &String) -> (r: bool)
        ensures
            r == self@.contains(p@),
    {
        self.position(p).is_some()
    }

    /// Adds `p` to the set.
    pub fn insert(&mut self, p: String)
        requires
            old(self).wf(),
        ensures
            final(self).wf(),
            final(self)@ == old(self)@.insert(p@),
    {
        if self.position(&p).is_none() {
            let ghost before = self.items();
            let ghost v = p@;
            self.paths.push(p);
            assert(self.items() =~= before.push(v));
            assert(self@ =~= old(self)@.insert(v)) by {
                broadcast use vstd::seq_lib::lemma_seq_contains_after_push;

            }
        } else {
            assert(old(self)@.insert(p@) =~= old(self)@);
        }
    }

    /// Takes `p` out of the set; the result says whether it was there.
    pub fn remove(&mut self, p: &String) -> (r: bool)
        requires
            old(self).wf(),
        ensures
            final(self).wf(),
            r == old(self)@.contains(p@),
            final(self)@ == old(self)@.remove(p@),
    {
        match self.position(p) {
            Some(i) => {
                let ghost before = self.items();
                self.paths.remove(i);
                assert(self.items() =~= before.remove(i as int));
                assert(self.wf()) by {
                    assert forall|a: int, b: int|
                        0 <= a < self.items().len() && 0 <= b < self.items().len() && a != b
                        implies self.items()[a] != self.items()[b] by {
                        let a2 = if a < i { a } else { a + 1 };
                        let b2 = if b < i { b } else { b + 1 };
                        assert(self.items()[a] == before[a2]);
                        assert(self.items()[b] == before[b2]);
                    }
                }
                assert(self@ =~= old(self)@.remove(p@)) by {
                    assert forall|s: Seq<char>| self@.contains(s) <==> old(self)@.remove(p@).contains(s) by {
                        if self.items().contains(s) {
                            let k = choose|k: int| 0 <= k < self.items().len() && self.items()[k] == s;
                            let k2 = if k < i { k } else { k + 1 };
                            assert(before[k2] == s);
                            assert(k2 != i);
                        }
                        if s != p@ && before.contains(s) {
                            let k = choose|k: int| 0 <= k < before.len() && before[k] == s;
                            assert(k != i);
                            let k2 = if k < i { k } else { k - 1 };
                            assert(self.items()[k2] == s);
                        }
                    }
                }
                true
            },
            None => {
                assert(old(self)@.remove(p@) =~= old(self)@);
                false
            },
        }
    }

    /// How many paths the set holds.
    pub fn len(&self) -> (r: usize)
        requires
            self.wf(),
        ensures
            r == self@.len(),
    {
        proof {
            self.items().unique_seq_to_set();
        }
        self.paths.len()
    }
}

} // verus!
