//! The set of names committed to array use.

use vstd::prelude::*;

verus! {

/// A set of variable names, kept as a list in which no name occurs twice.
#[derive(Debug)]
pub struct NameSet {
    names: Vec<String>,
}

impl View for NameSet {
    type V = Set<Seq<char>>;

    closed spec fn view(&self) -> Set<Seq<char>> {
        Set::new(|name: Seq<char>| exists|i: int| 0 <= i < self.names.len() && self.names[i]@ == name)
    }
}

impl NameSet {
    #[verifier::type_invariant]
    spec fn distinct(self) -> bool {
        forall|i: int, j: int|
            0 <= i < j < self.names.len() ==> self.names[i]@ != self.names[j]@
    }

    /// The empty set.
    pub fn new() -> (set: NameSet)
        ensures
            set@ == Set::<Seq<char>>::empty(),
    {
        let set = NameSet { names: Vec::new() };
        assert(set@ =~= Set::<Seq<char>>::empty());
        set
    }

    /// Whether `name` is in the set.
    pub fn contains(&self, name: &String) -> (found: bool)
        ensures
            found == self@.contains(name@),
    {
        let mut i: usize = 0;
        while i < self.names.len()
            invariant
                i <= self.names.len(),
                forall|j: int| 0 <= j < i ==> self.names[j]@ != name@,
            decreases self.names.len() - i,
        {
            if self.names[i] == *name {
                return true;
            }
            i += 1;
        }
        false
    }

    /// Adds `name`; the result says whether it was new.
    pub fn insert(&mut self, name: String) -> (fresh: bool)
        ensures
            final(self)@ == old(self)@.insert(name@),
            fresh == !old(self)@.contains(name@),
    {
        if self.contains(&name) {
            assert(self@ =~= self@.insert(name@));
            false
        } else {
            proof {
                use_type_invariant(&*self);
            }
            let mut names: Vec<String> = Vec::new();
            core::mem::swap(&mut self.names, &mut names);
            let ghost before = names@;
            names.push(name);
            core::mem::swap(&mut self.names, &mut names);
            assert(self@ =~= old(self)@.insert(name@)) by {
                assert(self.names[before.len() as int]@ == name@);
                assert forall|n: Seq<char>| old(self)@.contains(n) implies self@.contains(n) by {
                    let i = choose|i: int| 0 <= i < before.len() && before[i]@ == n;
                    assert(self.names[i]@ == n);
                }
            }
            true
        }
    }
}

} // verus!
