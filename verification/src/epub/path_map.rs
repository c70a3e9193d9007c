//! The path map: where each resource of the archive lands in the site.
use crate::paths::optional_text;
use vstd::hash_map::StringHashMap;
use vstd::prelude::*;

verus! {

/// Maps the normalized key of each resource to its destination, a path
/// relative to the site's root. No two keys share a destination.
pub struct PathMap {
    destinations: StringHashMap<String>,
    taken: StringHashMap<bool>,
}

/// The view of a path map is what it maps: each key with its destination.
/// The destinations that are set aside besides are `taken()`.
impl View for PathMap {
    type V = Map<Seq<char>, Seq<char>>;

    closed spec fn view(&self) -> Map<Seq<char>, Seq<char>> {
        Map::new(
            |k: Seq<char>| self.destinations@.contains_key(k),
            |k: Seq<char>| self.destinations@[k]@,
        )
    }
}

impl PathMap {
    /// The destinations that are in use: those of the map's keys, and those
    /// set aside with `reserve`.
    pub closed spec fn taken(&self) -> Set<Seq<char>> {
        self.taken@.dom()
    }

    /// The invariant of a path map: every destination of a key is marked as
    /// taken, distinct keys have distinct destinations, and finitely many
    /// destinations are taken.
    pub closed spec fn wf(&self) -> bool {
        &&& self.taken@.dom().finite()
        &&& forall|k: Seq<char>| #[trigger]
            self.destinations@.contains_key(k) ==> self.taken@.contains_key(
                self.destinations@[k]@,
            )
        &&& forall|a: Seq<char>, b: Seq<char>|
            #![trigger self.destinations@[a], self.destinations@[b]]
            self.destinations@.contains_key(a) && self.destinations@.contains_key(b) && a != b
                ==> self.destinations@[a]@ != self.destinations@[b]@
    }

    /// In a well-formed map two different keys never share a destination.
    pub proof fn destinations_are_distinct(self, a: Seq<char>, b: Seq<char>)
        requires
            self.wf(),
            self@.contains_key(a),
            self@.contains_key(b),
            a != b,
        ensures
            self@[a] != self@[b],
    {
    }

    /// In a well-formed map the destination of every key is taken.
    pub proof fn destinations_are_taken(self, k: Seq<char>)
        requires
            self.wf(),
            self@.contains_key(k),
        ensures
            self.taken().contains(self@[k]),
            self.taken().finite(),
    {
    }

    /// In a well-formed map finitely many destinations are taken.
    pub proof fn taken_is_finite(self)
        requires
            self.wf(),
        ensures
            self.taken().finite(),
    {
    }

    /// An empty map with no destination taken.
    pub fn new() -> (r: PathMap)
        ensures
            r.wf(),
            r@ == Map::<Seq<char>, Seq<char>>::empty(),
            r.taken() == Set::<Seq<char>>::empty(),
    {
        let r = PathMap { destinations: StringHashMap::new(), taken: StringHashMap::new() };
        r
    }

    /// Sets `dest` aside, so that no key is mapped to it from now on.
    pub fn reserve(&mut self, dest: String)
        requires
            old(self).wf(),
        ensures
            final(self).wf(),
            final(self)@ == old(self)@,
            final(self).taken() == old(self).taken().insert(dest@),
    {
        self.taken.insert(dest, true);
    }

    /// Whether `key` has a destination.
    pub fn contains_key(&self, key: &str) -> (r: bool)
        ensures
            r == self@.contains_key(key@),
    {
        self.destinations.contains_key(key)
    }

    /// The destination of `key`, if it has one.
    pub fn get(&self, key: &str) -> (r: Option<String>)
        ensures
            optional_text(r) == if self@.contains_key(key@) {
                Some(self@[key@])
            } else {
                None
            },
    {
        match self.destinations.get(key) {
            Some(dest) => Some(dest.clone()),
            None => None,
        }
    }

    /// Whether `dest` is in use.
    pub fn is_taken(&self, dest: &str) -> (r: bool)
        ensures
            r == self.taken().contains(dest@),
    {
        self.taken.contains_key(dest)
    }

    /// The number of destinations in use.
    pub fn taken_count(&self) -> (r: usize)
        ensures
            r == self.taken().len(),
    {
        self.taken.len()
    }

    /// The number of keys.
    pub fn len(&self) -> (r: usize)
        ensures
            r == self@.dom().len(),
    {
        let r = self.destinations.len();
        assert(self@.dom() =~= self.destinations@.dom());
        r
    }

    /// Maps `key` to `dest`, unless `key` already has a destination or
    /// `dest` is in use, in which case the map stays as it is. Returns
    /// whether the entry was added.
    pub fn insert(&mut self, key: String, dest: String) -> (added: bool)
        requires
            old(self).wf(),
        ensures
            final(self).wf(),
            added == (!old(self)@.contains_key(key@) && !old(self).taken().contains(dest@)),
            added ==> final(self)@ == old(self)@.insert(key@, dest@) && final(self).taken() == old(
                self,
            ).taken().insert(dest@),
            !added ==> final(self)@ == old(self)@ && final(self).taken() == old(self).taken(),
    {
        if self.destinations.contains_key(key.as_str()) || self.taken.contains_key(dest.as_str()) {
            return false;
        }
        self.taken.insert(dest.clone(), true);
        self.destinations.insert(key, dest);
        true
    }
}

} // verus!
