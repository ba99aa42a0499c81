//! A registry of casters, by node name.
use vstd::prelude::*;

verus! {

/// Things that act on a `T` when they meet it.
pub trait InteractWith<T> {
    fn interact(&mut self, with: &mut T);
}

/// Casters registered under distinct names.
pub struct CasterRegistry<C> {
    names: Vec<String>,
    casters: Vec<C>,
}

impl<C> CasterRegistry<C> {
    pub closed spec fn wf(&self) -> bool {
        &&& self.names@.len() == self.casters@.len()
        &&& forall|i: int, j: int|
            0 <= i < j < self.names@.len() ==> self.names@[i]@ != self.names@[j]@
    }

    /// The registered names, each with its caster.
    pub closed spec fn entries(&self) -> Map<Seq<char>, C> {
        Map::new(
            |k: Seq<char>| exists|i: int| 0 <= i < self.names@.len() && self.names@[i]@ == k,
            |k: Seq<char>|
                self.casters@[choose|i: int| 0 <= i < self.names@.len() && self.names@[i]@ == k],
        )
    }

    pub fn new() -> (r: Self)
        ensures
            r.wf(),
            r.entries() == Map::<Seq<char>, C>::empty(),
    {
        let r = CasterRegistry { names: Vec::new(), casters: Vec::new() };
        proof {
            assert(r.entries() =~= Map::<Seq<char>, C>::empty());
        }
        r
    }

    /// The position of `name`, if it is registered.
    fn position(&self, name: &str) -> (r: Option<usize>)
        requires
            self.wf(),
        ensures
            r.is_none() ==> forall|i: int| 0 <= i < self.names@.len() ==> self.names@[i]@ != name@,
            r.is_some() ==> r.unwrap() < self.names@.len() && self.names@[r.unwrap() as int]@ == name@,
    {
        let key = name.to_owned();
        let mut i: usize = 0;
        while i < self.names.len()
            invariant
                i <= self.names@.len(),
                key@ == name@,
                forall|j: int| 0 <= j < i ==> self.names@[j]@ != name@,
            decreases self.names@.len() - i,
        {
            if self.names[i] == key {
                return Some(i);
            }
            i = i + 1;
        }
        None
    }

    /// Registers `caster` under `name`, in place of any caster registered under it.
    pub fn register(&mut self, name: &str, caster: C)
        requires
            old(self).wf(),
        ensures
            final(self).wf(),
            final(self).entries() == old(self).entries().insert(name@, caster),
    {
        let ghost pre = self.entries();
        let ghost old_names = self.names@;
        let ghost old_casters = self.casters@;
        match self.position(name) {
            Some(i) => {
                self.casters.set(i, caster);
                proof {
                    assert forall|k: Seq<char>| #[trigger] self.entries().contains_key(k)
                        == pre.insert(name@, caster).contains_key(k) by {
                        if k == name@ {
                            assert(self.names@[i as int]@ == k);
                        }
                    }
                    assert forall|k: Seq<char>| #[trigger] self.entries().contains_key(k) implies self.entries()[k]
                        == pre.insert(name@, caster)[k] by {
                        let j = choose|j: int| 0 <= j < self.names@.len() && self.names@[j]@ == k;
                        if k == name@ {
                            assert(j == i);
                        } else {
                            assert(j != i);
                            let j2 = choose|j2: int| 0 <= j2 < old_names.len() && old_names[j2]@ == k;
                            assert(j2 == j);
                        }
                    }
                    assert(self.entries() =~= pre.insert(name@, caster));
                }
            },
            None => {
                self.names.push(name.to_owned());
                self.casters.push(caster);
                proof {
                    let n = (self.names@.len() - 1) as int;
                    assert(self.names@[n]@ == name@);
                    assert forall|k: Seq<char>| #[trigger] self.entries().contains_key(k)
                        == pre.insert(name@, caster).contains_key(k) by {
                        if k == name@ {
                            assert(self.names@[n]@ == k);
                        }
                        if self.entries().contains_key(k) && k != name@ {
                            let j = choose|j: int| 0 <= j < self.names@.len() && self.names@[j]@ == k;
                            assert(j < n);
                            assert(old_names[j] == self.names@[j]);
                        }
                        if pre.contains_key(k) {
                            let j = choose|j: int| 0 <= j < old_names.len() && old_names[j]@ == k;
                            assert(self.names@[j] == old_names[j]);
                        }
                    }
                    assert forall|k: Seq<char>| #[trigger] self.entries().contains_key(k) implies self.entries()[k]
                        == pre.insert(name@, caster)[k] by {
                        let j = choose|j: int| 0 <= j < self.names@.len() && self.names@[j]@ == k;
                        if k == name@ {
                            assert(j == n);
                        } else {
                            assert(j < n);
                            assert(old_names[j]@ == k);
                            let j2 = choose|j2: int| 0 <= j2 < old_names.len() && old_names[j2]@ == k;
                            assert(j2 == j);
                        }
                    }
                    assert(self.entries() =~= pre.insert(name@, caster));
                }
            },
        }
    }

    /// Whether a caster is registered under `name`.
    pub fn is_registered(&self, name: &str) -> (r: bool)
        requires
            self.wf(),
        ensures
            r == self.entries().contains_key(name@),
    {
        self.position(name).is_some()
    }
}

} // verus!
