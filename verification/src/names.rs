use vstd::prelude::*;

use crate::text::same_text;

verus! {

/// A set of driver names: each name is held once.
///
/// It is kept in a `Vec` with the invariant that no name occurs twice. A
/// `BTreeSet<String>` or `HashSet<String>` would serve at run time, but with
/// `String` keys their specifications in vstd let next to nothing be proved
/// (not even the size after one insertion); with the names in a `Vec` every
/// operation below states its exact effect on the set. Only membership is
/// ever read: no caller depends on the order in which names are held.
pub struct NameSet {
    names: Vec<String>,
}

impl NameSet {
    /// The names held, in the order they were added.
    pub closed spec fn entries(&self) -> Seq<Seq<char>> {
        self.names@.map_values(|s: String| s@)
    }

    #[verifier::type_invariant]
    closed spec fn each_once(&self) -> bool {
        self.entries().no_duplicates()
    }
}

impl View for NameSet {
    type V = Set<Seq<char>>;

    closed spec fn view(&self) -> Set<Seq<char>> {
        self.entries().to_set()
    }
}

impl NameSet {
    /// The empty set.
    pub fn new() -> (r: NameSet)
        ensures
            r@ == Set::<Seq<char>>::empty(),
    {
        let r = NameSet { names: Vec::new() };
        assert(r.entries().to_set() =~= Set::<Seq<char>>::empty());
        r
    }

    fn position(&self, name: &str) -> (r: Option<usize>)
        ensures
            match r {
                Some(i) => i < self.names.len() && self.entries()[i as int] == name@,
                None => !self.entries().contains(name@),
            },
    {
        let mut i: usize = 0;
        while i < self.names.len()
            invariant
                0 <= i <= self.names.len(),
                forall|k: int| 0 <= k < i ==> self.entries()[k] != name@,
            decreases self.names.len() - i,
        {
            if same_text(self.names[i].as_str(), name) {
                return Some(i);
            }
            i = i + 1;
        }
        None
    }

    /// Whether `name` is in the set.
    pub fn contains(&self, name: &str) -> (r: bool)
        ensures
            r == self@.contains(name@),
    {
        let p = self.position(name);
        p.is_some()
    }

    /// Adds `name`; says whether it was absent.
    pub fn insert(&mut self, name: String) -> (r: bool)
        ensures
            final(self)@ == old(self)@.insert(name@),
            r == !old(self)@.contains(name@),
    {
        proof {
            use_type_invariant(&*self);
        }
        if self.contains(name.as_str()) {
            proof {
                assert(old(self)@.insert(name@) =~= old(self)@);
            }
            return false;
        }
        let ghost before = self.entries();
        let mut names: Vec<String> = Vec::new();
        std::mem::swap(&mut names, &mut self.names);
        names.push(name);
        proof {
            let after = names@.map_values(|s: String| s@);
            assert(after =~= before.push(name@));
            before.lemma_push_to_set_commute(name@);
            assert forall|i: int, j: int|
                0 <= i < after.len() && 0 <= j < after.len() && i != j
                implies after[i] != after[j] by {
                if i < before.len() && j < before.len() {
                    assert(before[i] != before[j]);
                }
            }
        }
        *self = NameSet { names };
        true
    }

    /// Removes `name`; says whether it was present.
    pub fn remove(&mut self, name: &str) -> (r: bool)
        ensures
            final(self)@ == old(self)@.remove(name@),
            r == old(self)@.contains(name@),
    {
        proof {
            use_type_invariant(&*self);
        }
        match self.position(name) {
            None => {
                proof {
                    assert(old(self)@.remove(name@) =~= old(self)@);
                }
                false
            },
            Some(i) => {
                let ghost before = self.entries();
                let mut names: Vec<String> = Vec::new();
                std::mem::swap(&mut names, &mut self.names);
                names.remove(i);
                let ghost after = names@.map_values(|s: String| s@);
                proof {
                    assert(after =~= before.remove(i as int));
                    assert forall|a: int, b: int|
                        0 <= a < after.len() && 0 <= b < after.len() && a != b
                        implies after[a] != after[b] by {
                        let a0 = if a < i { a } else { a + 1 };
                        let b0 = if b < i { b } else { b + 1 };
                        assert(after[a] == before[a0]);
                        assert(after[b] == before[b0]);
                    }
                    assert forall|x: Seq<char>| after.to_set().contains(x)
                        <==> before.to_set().remove(name@).contains(x) by {
                        if after.to_set().contains(x) {
                            let k = choose|k: int| 0 <= k < after.len() && after[k] == x;
                            let k0 = if k < i { k } else { k + 1 };
                            assert(before[k0] == x);
                            assert(k0 != i);
                        }
                        if before.to_set().remove(name@).contains(x) {
                            let k = choose|k: int| 0 <= k < before.len() && before[k] == x;
                            assert(k != i);
                            let k1 = if k < i { k } else { k - 1 };
                            assert(after[k1] == x);
                        }
                    }
                    assert(after.to_set() =~= before.to_set().remove(name@));
                }
                *self = NameSet { names };
                true
            },
        }
    }

    /// Removes every name.
    pub fn clear(&mut self)
        ensures
            final(self)@ == Set::<Seq<char>>::empty(),
    {
        *self = NameSet::new();
    }

    /// The number of names.
    pub fn len(&self) -> (r: usize)
        ensures
            r == self@.len(),
    {
        proof {
            use_type_invariant(self);
            self.entries().unique_seq_to_set();
        }
        self.names.len()
    }

    /// Whether the set is empty.
    pub fn is_empty(&self) -> (r: bool)
        ensures
            r == (self@.len() == 0),
    {
        self.len() == 0
    }

    /// Keeps only the names that `allowed` also holds.
    pub fn retain_within(&mut self, allowed: &NameSet)
        ensures
            final(self)@ == old(self)@.intersect(allowed@),
    {
        let ghost before = self.entries();
        let mut kept = NameSet::new();
        let mut i: usize = 0;
        while i < self.names.len()
            invariant
                0 <= i <= self.names.len(),
                self.entries() == before,
                kept@ == before.take(i as int).to_set().intersect(allowed@),
            decreases self.names.len() - i,
        {
            let ghost prev = kept@;
            if allowed.contains(self.names[i].as_str()) {
                kept.insert(self.names[i].clone());
            }
            proof {
                assert(before.take(i + 1) =~= before.take(i as int).push(before[i as int]));
                before.take(i as int).lemma_push_to_set_commute(before[i as int]);
                assert(kept@ =~= before.take(i + 1).to_set().intersect(allowed@));
            }
            i = i + 1;
        }
        proof {
            assert(before.take(i as int) =~= before);
        }
        *self = kept;
    }
}

} // verus!
