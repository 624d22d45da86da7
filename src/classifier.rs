//! The state machine that turns raw create/remove notifications into
//! classified events, keeping the set of known top-level directories.

use vstd::prelude::*;
use crate::path::{base_name, is_top_level, opt_view, file_name, is_child_of};
use crate::registry::PathRegistry;
use crate::resolver::{TreeEntry, first_match, find_by_name};

verus! {

/// What the classifier reports.
#[derive(Clone, Debug, PartialEq, Eq)]
pub enum ClassifiedEvent {
    /// A new directory appeared directly under the root.
    TopLevelCreated(String),
    /// A known top-level directory, by its base name, was found again at a new path.
    TopLevelMoved(String, String),
    /// A known top-level directory disappeared from the tree.
    TopLevelRemoved(String),
    /// The notification layer reported a failure.
    WatchError(String),
}

/// The mathematical form of a `ClassifiedEvent`.
pub enum Report {
    Created(Seq<char>),
    Moved(Seq<char>, Seq<char>),
    Removed(Seq<char>),
    Error(Seq<char>),
}

impl View for ClassifiedEvent {
    type V = Report;

    open spec fn view(&self) -> Report {
        match self {
            ClassifiedEvent::TopLevelCreated(p) => Report::Created(p@),
            ClassifiedEvent::TopLevelMoved(n, p) => Report::Moved(n@, p@),
            ClassifiedEvent::TopLevelRemoved(p) => Report::Removed(p@),
            ClassifiedEvent::WatchError(d) => Report::Error(d@),
        }
    }
}

pub open spec fn opt_report(e: Option<ClassifiedEvent>) -> Option<Report> {
    match e {
        Some(ev) => Some(ev@),
        None => None,
    }
}

/// Every member of `known` is a direct child of `root`.
pub open spec fn all_top_level(known: Set<Seq<char>>, root: Seq<char>) -> bool {
    forall|p: Seq<char>| known.contains(p) ==> is_top_level(p, root)
}

/// The known set after, and the report for, a create notification for `path`.
/// A directory directly under the root joins the set; it is reported unless
/// its name is the placeholder. Anything else changes nothing.
pub open spec fn create_outcome(
    known: Set<Seq<char>>,
    root: Seq<char>,
    placeholder: Seq<char>,
    path: Seq<char>,
    is_dir: bool,
) -> (Set<Seq<char>>, Option<Report>) {
    if is_dir && is_top_level(path, root) {
        (
            known.insert(path),
            if base_name(path) != placeholder {
                Some(Report::Created(path))
            } else {
                None
            },
        )
    } else {
        (known, None)
    }
}

/// The known set after, and the report for, a remove notification for
/// `path`, where `found` is where a directory of the same base name was found
/// in the tree. An unknown path changes nothing. A found directory makes a
/// move, always reported, and takes the old path's place if it lies directly
/// under the root. Otherwise the path leaves the set and is reported as
/// removed unless its name is the placeholder.
pub open spec fn remove_outcome(
    known: Set<Seq<char>>,
    root: Seq<char>,
    placeholder: Seq<char>,
    path: Seq<char>,
    found: Option<Seq<char>>,
) -> (Set<Seq<char>>, Option<Report>) {
    if !known.contains(path) {
        (known, None)
    } else {
        match found {
            Some(q) => (
                if is_top_level(q, root) {
                    known.remove(path).insert(q)
                } else {
                    known.remove(path)
                },
                Some(Report::Moved(base_name(path), q)),
            ),
            None => (
                known.remove(path),
                if base_name(path) != placeholder {
                    Some(Report::Removed(path))
                } else {
                    None
                },
            ),
        }
    }
}

/// The classifier: the watched root, the placeholder name whose creation and
/// removal go unreported, and the known top-level directories.
pub struct EventClassifier {
    root: String,
    placeholder: String,
    known: PathRegistry,
}

impl EventClassifier {
    pub closed spec fn root(&self) -> Seq<char> {
        self.root@
    }

    pub closed spec fn placeholder(&self) -> Seq<char> {
        self.placeholder@
    }

    pub closed spec fn known(&self) -> Set<Seq<char>> {
        self.known@
    }

    /// The registry holds no path twice.
    pub closed spec fn registry_wf(&self) -> bool {
        self.known.wf()
    }

    /// The registry is well formed and holds top-level paths only.
    pub open spec fn wf(&self) -> bool {
        &&& self.registry_wf()
        &&& all_top_level(self.known(), self.root())
    }

    /// A classifier for `root` that knows no directory yet.
    pub fn new(root: String, placeholder: String) -> (r: EventClassifier)
        ensures
            r.wf(),
            r.root() == root@,
            r.placeholder() == placeholder@,
            r.known() == Set::<Seq<char>>::empty(),
    {
        EventClassifier { root, placeholder, known: PathRegistry::new() }
    }

    /// Records an entry of the initial listing of the root: directories
    /// directly under the root become known, anything else is skipped.
    pub fn seed(&mut self, path: String, is_dir: bool)
        requires
            old(self).wf(),
        ensures
            final(self).wf(),
            final(self).root() == old(self).root(),
            final(self).placeholder() == old(self).placeholder(),
            final(self).known() == if is_dir && is_top_level(path@, old(self).root()) {
                old(self).known().insert(path@)
            } else {
                old(self).known()
            },
    {
        if is_dir && is_child_of(&path, &self.root) {
            self.known.insert(path);
        }
    }

    /// Whether `path` is a known top-level directory.
    pub fn is_known(&self, path: &String) -> (r: bool)
        ensures
            r == self.known().contains(path@),
    {
        self.known.contains(path)
    }

    /// How many top-level directories are known.
    pub fn known_count(&self) -> (r: usize)
        requires
            self.wf(),
        ensures
            r == self.known().len(),
    {
        self.known.len()
    }

    /// Classifies a create notification for `path`; `is_dir` says whether
    /// the path is a directory.
    pub fn on_create(&mut self, path: &String, is_dir: bool) -> (r: Option<ClassifiedEvent>)
        requires
            old(self).wf(),
        ensures
            final(self).wf(),
            final(self).root() == old(self).root(),
            final(self).placeholder() == old(self).placeholder(),
            (final(self).known(), opt_report(r)) == create_outcome(
                old(self).known(),
                old(self).root(),
                old(self).placeholder(),
                path@,
                is_dir,
            ),
    {
        if is_dir && is_child_of(path, &self.root) {
            let name = file_name(path);
            let r = if name != self.placeholder {
                Some(ClassifiedEvent::TopLevelCreated(path.clone()))
            } else {
                None
            };
            self.known.insert(path.clone());
            r
        } else {
            None
        }
    }

    /// The name to search the tree for on a remove notification for `path`:
    /// its base name where the path is known, and `None` where a remove of it
    /// is to be ignored.
    pub fn name_to_resolve(&self, path: &String) -> (r: Option<String>)
        ensures
            r is Some <==> self.known().contains(path@),
            r is Some ==> r->0@ == base_name(path@),
    {
        if self.known.contains(path) {
            Some(file_name(path))
        } else {
            None
        }
    }

    /// Classifies a remove notification for `path`, where `found` is the
    /// first directory of the tree found with the same base name, if any.
    pub fn on_remove(&mut self, path: &String, found: Option<String>) -> (r: Option<
        ClassifiedEvent,
    >)
        requires
            old(self).wf(),
        ensures
            final(self).wf(),
            final(self).root() == old(self).root(),
            final(self).placeholder() == old(self).placeholder(),
            (final(self).known(), opt_report(r)) == remove_outcome(
                old(self).known(),
                old(self).root(),
                old(self).placeholder(),
                path@,
                opt_view(found),
            ),
    {
        if !self.known.contains(path) {
            return None;
        }
        let name = file_name(path);
        match found {
            Some(new_path) => {
                self.known.remove(path);
                if is_child_of(&new_path, &self.root) {
                    self.known.insert(new_path.clone());
                }
                Some(ClassifiedEvent::TopLevelMoved(name, new_path))
            },
            None => {
                self.known.remove(path);
                if name != self.placeholder {
                    Some(ClassifiedEvent::TopLevelRemoved(path.clone()))
                } else {
                    None
                }
            },
        }
    }

    /// Classifies a remove notification for `path` against a scan of the
    /// tree as it stands now: a known path is looked up by its base name
    /// among `entries`.
    pub fn on_remove_in_tree(&mut self, path: &String, entries: &Vec<TreeEntry>) -> (r: Option<
        ClassifiedEvent,
    >)
        requires
            old(self).wf(),
        ensures
            final(self).wf(),
            final(self).root() == old(self).root(),
            final(self).placeholder() == old(self).placeholder(),
            (final(self).known(), opt_report(r)) == remove_outcome(
                old(self).known(),
                old(self).root(),
                old(self).placeholder(),
                path@,
                first_match(entries@, base_name(path@)),
            ),
    {
        match self.name_to_resolve(path) {
            Some(name) => {
                let found = find_by_name(&name, entries);
                self.on_remove(path, found)
            },
            None => self.on_remove(path, None),
        }
    }

    /// Classifies a failure reported by the notification layer; the state
    /// is left as it is.
    pub fn on_error(&self, diagnostic: String) -> (r: ClassifiedEvent)
        ensures
            r@ == Report::Error(diagnostic@),
    {
        ClassifiedEvent::WatchError(diagnostic)
    }
}

} // verus!
