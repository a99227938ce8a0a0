//! The set of local files that the freshly rewritten manifests refer to.
//!
//! While channels are synchronised the set only grows ([`ReferenceSet`]).
//! Collection works on what is left when synchronisation is over
//! ([`ReferenceSnapshot`]), which offers no way to change it. Every path is
//! held in its normalized form.

use vstd::prelude::*;
use crate::names::NameSet;
use crate::path::{lemma_normalized_is_idempotent, normalize_path, normalized};

verus! {

/// The referenced paths, while they are being gathered.
pub struct ReferenceSet {
    paths: NameSet,
}

/// The referenced paths, once gathering is over.
pub struct ReferenceSnapshot {
    paths: NameSet,
}

impl View for ReferenceSet {
    type V = Set<Seq<char>>;

    closed spec fn view(&self) -> Set<Seq<char>> {
        self.paths@
    }
}

impl View for ReferenceSnapshot {
    type V = Set<Seq<char>>;

    closed spec fn view(&self) -> Set<Seq<char>> {
        self.paths@
    }
}

impl ReferenceSet {
    /// Every path is held in its normalized form.
    #[verifier::type_invariant]
    pub closed spec fn wf(&self) -> bool {
        forall|p: Seq<char>| self.paths@.contains(p) ==> normalized(p) == p
    }

    /// Every path that is held is in normal form.
    pub proof fn lemma_paths_are_normal(&self, p: Seq<char>)
        requires
            self.wf(),
            self@.contains(p),
        ensures
            normalized(p) == p,
    {
    }

    /// The number of paths held.
    pub closed spec fn count(&self) -> nat {
        self.paths.listed().len()
    }

    /// The empty set.
    pub fn new() -> (r: ReferenceSet)
        ensures
            r.wf(),
            r@ == Set::<Seq<char>>::empty(),
            r.count() == 0,
    {
        ReferenceSet { paths: NameSet::new() }
    }

    /// Records that `path` is referenced. The path is held in its
    /// normalized form; the result says whether it was new. Nothing that
    /// was referenced before is lost.
    pub fn insert(&mut self, path: &str) -> (added: bool)
        ensures
            final(self).wf(),
            final(self)@ == old(self)@.insert(normalized(path@)),
            added == !old(self)@.contains(normalized(path@)),
            final(self).count() == old(self).count() + (if added { 1nat } else { 0nat }),
    {
        proof {
            use_type_invariant(&*self);
            lemma_normalized_is_idempotent(path@);
        }
        let mut taken = ReferenceSet::new();
        std::mem::swap(self, &mut taken);
        let mut paths = taken.paths;
        let added = paths.insert(normalize_path(path));
        *self = ReferenceSet { paths };
        added
    }

    /// Whether `path`, in its normalized form, is referenced.
    pub fn contains(&self, path: &str) -> (r: bool)
        ensures
            r == self@.contains(normalized(path@)),
    {
        let key = normalize_path(path);
        self.paths.contains(&key)
    }

    /// The number of paths held.
    pub fn len(&self) -> (n: usize)
        ensures
            n == self.count(),
    {
        self.paths.len()
    }

    /// Ends gathering: the same paths, from now on read-only.
    pub fn freeze(self) -> (r: ReferenceSnapshot)
        ensures
            r@ == self@,
            r.count() == self.count(),
    {
        ReferenceSnapshot { paths: self.paths }
    }
}

impl ReferenceSnapshot {
    /// The number of paths held.
    pub closed spec fn count(&self) -> nat {
        self.paths.listed().len()
    }

    /// Whether `path`, in its normalized form, is referenced.
    pub fn contains(&self, path: &str) -> (r: bool)
        ensures
            r == self@.contains(normalized(path@)),
    {
        let key = normalize_path(path);
        self.paths.contains(&key)
    }

    /// The number of paths held.
    pub fn len(&self) -> (n: usize)
        ensures
            n == self.count(),
    {
        self.paths.len()
    }
}

} // verus!
