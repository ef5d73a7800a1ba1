//! A set of names kept in ascending order.

use vstd::prelude::*;

use crate::text::comes_before;
use crate::text::lemma_less_total;
use crate::text::lemma_less_transitive;
use crate::text::less;
use crate::text::same_text;
use crate::text::texts;

verus! {

/// Names without repetition, in ascending order.
pub struct NameSet {
    names: Vec<String>,
}

/// True if the texts strictly ascend.
pub open spec fn ascending(t: Seq<Seq<char>>) -> bool {
    forall|i: int, j: int| 0 <= i < j < t.len() ==> less(#[trigger] t[i], #[trigger] t[j])
}

impl NameSet {
    /// The names in ascending order.
    pub closed spec fn listed(&self) -> Seq<Seq<char>> {
        texts(self.names@)
    }

    /// The set of names held.
    pub open spec fn view(&self) -> Set<Seq<char>> {
        self.listed().to_set()
    }

    /// The names ascend, so none is held twice.
    pub open spec fn wf(&self) -> bool {
        ascending(self.listed())
    }

    /// The empty set.
    pub fn new() -> (r: Self)
        ensures
            r.wf(),
            r@ == Set::<Seq<char>>::empty(),
    {
        let r = NameSet { names: Vec::new() };
        assert(r@ =~= Set::<Seq<char>>::empty());
        r
    }

    /// A set with the same names.
    pub fn copy(&self) -> (r: Self)
        requires
            self.wf(),
        ensures
            r.wf(),
            r@ == self@,
    {
        let mut names: Vec<String> = Vec::new();
        let mut i: usize = 0;
        while i < self.names.len()
            invariant
                i <= self.names@.len(),
                names@.len() == i,
                forall|j: int| 0 <= j < i ==> (#[trigger] names@[j])@ == self.names@[j]@,
            decreases self.names@.len() - i,
        {
            names.push(self.names[i].clone());
            i = i + 1;
        }
        let r = NameSet { names };
        assert(r.listed() =~= self.listed());
        r
    }

    /// How many names are held.
    pub fn len(&self) -> (r: usize)
        ensures
            r == self.listed().len(),
    {
        self.names.len()
    }

    /// The name at position `i` of the ascending order.
    pub fn name(&self, i: usize) -> (r: &str)
        requires
            i < self.listed().len(),
        ensures
            r@ == self.listed()[i as int],
    {
        self.names[i].as_str()
    }

    /// True if `name` is held.
    pub fn contains(&self, name: &str) -> (r: bool)
        ensures
            r == self@.contains(name@),
    {
        let mut i: usize = 0;
        while i < self.names.len()
            invariant
                i <= self.names@.len(),
                forall|j: int| 0 <= j < i ==> #[trigger] self.listed()[j] != name@,
            decreases self.names@.len() - i,
        {
            if same_text(name, self.names[i].as_str()) {
                assert(self.listed()[i as int] == name@);
                assert(self.listed().contains(name@));
                return true;
            }
            i = i + 1;
        }
        false
    }

    /// Adds `name`; a name that is held already is left as it is.
    pub fn insert(&mut self, name: String)
        requires
            old(self).wf(),
        ensures
            final(self).wf(),
            final(self)@ == old(self)@.insert(name@),
    {
        let ghost t = self.listed();
        let mut i: usize = 0;
        while i < self.names.len() && comes_before(self.names[i].as_str(), name.as_str())
            invariant
                self.wf(),
                t == self.listed(),
                t == old(self).listed(),
                t == texts(self.names@),
                i <= self.names@.len(),
                forall|j: int| 0 <= j < i ==> less(#[trigger] t[j], name@),
            decreases self.names@.len() - i,
        {
            i = i + 1;
        }
        if i < self.names.len() && same_text(self.names[i].as_str(), name.as_str()) {
            proof {
                assert(t[i as int] == name@);
                assert(t.contains(name@));
                assert(self@ =~= old(self)@.insert(name@));
            }
            return;
        }
        proof {
            if i < t.len() {
                lemma_less_total(t[i as int], name@);
            }
            assert forall|j: int| i <= j < t.len() implies less(name@, #[trigger] t[j]) by {
                if j > i {
                    lemma_less_transitive(name@, t[i as int], t[j]);
                }
            }
        }
        let ghost w = name@;
        self.names.insert(i, name);
        proof {
            let u = self.listed();
            assert(u =~= t.insert(i as int, w));
            assert forall|a: int, b: int| 0 <= a < b < u.len() implies less(
                #[trigger] u[a],
                #[trigger] u[b],
            ) by {
                let a0 = if a < i { a } else { a - 1 };
                let b0 = if b < i { b } else { b - 1 };
                if a != i && b != i {
                    assert(u[a] == t[a0]);
                    assert(u[b] == t[b0]);
                    assert(less(t[a0], t[b0]));
                } else if a == i {
                    assert(u[b] == t[b0]);
                } else {
                    assert(u[a] == t[a0]);
                }
            }
            assert forall|x: Seq<char>| #[trigger] u.to_set().contains(x) == t.to_set().insert(
                w,
            ).contains(x) by {
                if t.contains(x) {
                    let k = choose|k: int| 0 <= k < t.len() && t[k] == x;
                    let k1 = if k < i { k } else { k + 1 };
                    assert(u[k1] == x);
                }
                if u.contains(x) {
                    let k = choose|k: int| 0 <= k < u.len() && u[k] == x;
                    if k != i {
                        let k0 = if k < i { k } else { k - 1 };
                        assert(t[k0] == x);
                    }
                }
                assert(u[i as int] == w);
            }
            assert(self@ =~= old(self)@.insert(w));
        }
    }
}

} // verus!
