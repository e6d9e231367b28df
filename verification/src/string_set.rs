use vstd::prelude::*;

verus! {

/// A set of strings, held in a `hashbrown::HashSet`.
#[verifier::external_body]
pub struct StringSet {
    set: hashbrown::HashSet<String>,
}

/// The strings a set holds.
pub uninterp spec fn set_contents(s: StringSet) -> Set<Seq<char>>;

impl StringSet {
    /// Calls `hashbrown::HashSet::new`, which makes an empty set.
    #[verifier::external_body]
    pub(crate) fn new() -> (s: StringSet)
        ensures
            set_contents(s) == Set::<Seq<char>>::empty(),
    {
        StringSet { set: hashbrown::HashSet::new() }
    }

    /// Calls `hashbrown::HashSet::contains`, which tells whether the set holds a string equal to
    /// `item`.
    #[verifier::external_body]
    pub(crate) fn contains(&self, item: &str) -> (r: bool)
        ensures
            r == set_contents(*self).contains(item@),
    {
        self.set.contains(item)
    }

    /// Calls `hashbrown::HashSet::insert`, after which the set holds `item` besides what it held.
    #[verifier::external_body]
    pub(crate) fn insert(&mut self, item: String)
        ensures
            set_contents(*final(self)) == set_contents(*old(self)).insert(item@),
    {
        self.set.insert(item);
    }

    /// Calls `hashbrown::HashSet::remove`, after which the set holds what it held but `item`.
    #[verifier::external_body]
    pub(crate) fn remove(&mut self, item: &str)
        ensures
            set_contents(*final(self)) == set_contents(*old(self)).remove(item@),
    {
        self.set.remove(item);
    }

    /// Calls `hashbrown::HashSet::clear`, after which the set is empty.
    #[verifier::external_body]
    pub(crate) fn clear(&mut self)
        ensures
            set_contents(*final(self)) == Set::<Seq<char>>::empty(),
    {
        self.set.clear();
    }
}

} // verus!
