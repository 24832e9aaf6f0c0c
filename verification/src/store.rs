//! The artifact store: the rendered artifact of each logical path, and the
//! listing of all paths that have one.

use crate::builder::{BuiltFile, BuiltFileView};
use crate::order::{in_listing_order, listing_order, sort_files};
use crate::text::{copy_files, texts};
use crate::textmap::TextMap;
use vstd::prelude::*;

verus! {

/// Maps logical paths to artifacts and lists the paths.
pub struct ArtifactStore {
    map: TextMap<BuiltFile>,
    files: Vec<String>,
}

/// Two sequences hold the same elements equally often, one of them without
/// repetition: then so does the other, and each element of one is in the
/// other.
pub proof fn lemma_rearranged<A>(a: Seq<A>, b: Seq<A>)
    requires
        a.to_multiset() == b.to_multiset(),
        a.no_duplicates(),
    ensures
        b.no_duplicates(),
        forall|x: A| a.contains(x) <==> b.contains(x),
{
    a.to_multiset_ensures();
    b.to_multiset_ensures();
    a.lemma_multiset_has_no_duplicates();
    b.lemma_multiset_has_no_duplicates_conv();
    assert forall|x: A| a.contains(x) <==> b.contains(x) by {
        assert(b.contains(x) <==> b.to_multiset().count(x) > 0);
    }
}

/// A sequence without repetition that gains an element it did not hold is
/// still without repetition, and holds what it held and the new element.
pub proof fn lemma_push_fresh<A>(s: Seq<A>, x: A)
    requires
        s.no_duplicates(),
        !s.contains(x),
    ensures
        s.push(x).no_duplicates(),
        forall|y: A| #[trigger] s.push(x).contains(y) <==> s.contains(y) || y == x,
{
    let grown = s.push(x);
    assert forall|y: A| grown.contains(y) <==> s.contains(y) || y == x by {
        if grown.contains(y) {
            let i = choose|i: int| 0 <= i < grown.len() && grown[i] == y;
            if i < s.len() {
                assert(s[i] == y);
            }
        }
        if s.contains(y) {
            let i = choose|i: int| 0 <= i < s.len() && s[i] == y;
            assert(grown[i] == y);
        }
        if y == x {
            assert(grown[s.len() as int] == y);
        }
    }
    assert forall|i: int, j: int| 0 <= i < grown.len() && 0 <= j < grown.len() && i != j implies grown[i]
        != grown[j] by {
        if i < s.len() {
            assert(s.contains(s[i]));
        }
        if j < s.len() {
            assert(s.contains(s[j]));
        }
    }
}

impl ArtifactStore {
    /// The artifact of each path that has one.
    pub closed spec fn artifacts(&self) -> Map<Seq<char>, BuiltFileView> {
        self.map.model().map_values(|file: BuiltFile| file@)
    }

    /// The listing: the known paths in their present order.
    pub closed spec fn listing(&self) -> Seq<Seq<char>> {
        texts(self.files@)
    }

    /// The map holds no path twice.
    pub closed spec fn consistent(&self) -> bool {
        self.map.wf()
    }

    /// The listing names each path once, and names exactly the paths that
    /// have an artifact.
    pub open spec fn wf(&self) -> bool {
        &&& self.consistent()
        &&& self.listing().no_duplicates()
        &&& forall|path: Seq<char>|
            self.listing().contains(path) <==> self.artifacts().contains_key(path)
    }

    /// A store without artifacts.
    pub fn new() -> (store: Self)
        ensures
            store.wf(),
            store.artifacts() == Map::<Seq<char>, BuiltFileView>::empty(),
            store.listing() == Seq::<Seq<char>>::empty(),
    {
        ArtifactStore { map: TextMap::new(), files: Vec::new() }
    }

    /// The artifact of `path`.
    pub fn get(&self, path: &str) -> (found: Option<&BuiltFile>)
        requires
            self.wf(),
        ensures
            match found {
                Some(file) => self.artifacts().contains_key(path@) && file@
                    == self.artifacts()[path@],
                None => !self.artifacts().contains_key(path@),
            },
    {
        self.map.get(path)
    }

    /// Whether `path` is in the listing.
    pub fn contains(&self, path: &str) -> (known: bool)
        requires
            self.wf(),
        ensures
            known == self.listing().contains(path@),
            known == self.artifacts().contains_key(path@),
    {
        self.map.contains_key(path)
    }

    /// Stores `artifact` as the artifact of `path`; a path that had none is
    /// appended to the listing.
    pub fn put(&mut self, path: String, artifact: BuiltFile)
        requires
            old(self).wf(),
        ensures
            final(self).wf(),
            final(self).artifacts() == old(self).artifacts().insert(path@, artifact@),
            final(self).listing() == if old(self).artifacts().contains_key(path@) {
                old(self).listing()
            } else {
                old(self).listing().push(path@)
            },
    {
        let listed = path.clone();
        let fresh = self.map.insert(path, artifact);
        if fresh {
            self.files.push(listed);
        }
        proof {
            if fresh {
                assert(self.listing() == old(self).listing().push(path@));
                lemma_push_fresh(old(self).listing(), path@);
            }
        }
    }

    /// Number of paths in the listing.
    pub fn len(&self) -> (n: usize)
        ensures
            n == self.listing().len(),
    {
        self.files.len()
    }

    /// A copy of the listing as it stands.
    pub fn files(&self) -> (files: Vec<String>)
        ensures
            texts(files@) == self.listing(),
    {
        copy_files(&self.files)
    }

    /// Brings the listing into listing order.
    pub fn sort(&mut self)
        requires
            old(self).wf(),
        ensures
            final(self).wf(),
            final(self).artifacts() == old(self).artifacts(),
            final(self).listing() == listing_order(old(self).listing()),
            in_listing_order(final(self).listing()),
    {
        sort_files(&mut self.files);
        proof {
            lemma_rearranged(old(self).listing(), self.listing());
        }
    }
}

} // verus!
