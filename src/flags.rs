//! Kinds that are numbered from zero and stored as one bit each of a `u32` set.
use vstd::prelude::*;

verus! {

/// A kind with a fixed number of values, numbered `0 .. count()` in declaration order.
pub trait FlagKind: Sized + Copy {
    spec fn count() -> nat;

    spec fn spec_index(self) -> nat;

    spec fn spec_at(i: nat) -> Self;

    proof fn lemma_index_at(self)
        ensures
            Self::count() <= 32,
            self.spec_index() < Self::count(),
            Self::spec_at(self.spec_index()) == self,
    ;

    proof fn lemma_at_index(i: nat)
        requires
            i < Self::count(),
        ensures
            Self::spec_at(i).spec_index() == i,
    ;

    /// The number of values of the kind.
    fn kinds() -> (r: u32)
        ensures
            r == Self::count(),
            r <= 32,
    ;

    /// The number of this value.
    fn index(&self) -> (r: u32)
        ensures
            r == self.spec_index(),
    ;

    /// The value numbered `i`.
    fn at(i: u32) -> (r: Self)
        requires
            i < Self::count(),
        ensures
            r == Self::spec_at(i as nat),
    ;
}

/// Whether bit `i` of `bits` is set.
pub open spec fn has_bit(bits: u32, i: nat) -> bool {
    i < 32 && (bits >> (i as u32)) & 1u32 == 1u32
}

/// The set with bit `i` alone.
pub open spec fn bit(i: nat) -> u32 {
    1u32 << (i as u32)
}

/// The set of values whose bits are set in `bits`.
pub open spec fn kinds_in<T: FlagKind>(bits: u32) -> Set<T> {
    Set::new(|x: T| has_bit(bits, x.spec_index()))
}

/// Whether `s` lists its values in increasing number, each once.
pub open spec fn in_order<T: FlagKind>(s: Seq<T>) -> bool {
    forall|i: int, j: int| 0 <= i < j < s.len() ==> s[i].spec_index() < s[j].spec_index()
}

pub proof fn lemma_set_bit(bits: u32, k: u32)
    requires
        k < 32,
    ensures
        forall|i: nat| #[trigger] has_bit(bits | bit(k as nat), i) == (has_bit(bits, i) || i == k),
{
    assert forall|i: nat| #[trigger] has_bit(bits | bit(k as nat), i) == (has_bit(bits, i) || i == k) by {
        if i < 32 {
            let j = i as u32;
            assert(((bits | (1u32 << k)) >> j) & 1u32 == 1u32 <==> ((bits >> j) & 1u32 == 1u32 || j
                == k)) by (bit_vector)
                requires
                    j < 32,
                    k < 32,
            ;
        }
    }
}

/// No bit of the empty set is set.
pub proof fn lemma_no_kinds<T: FlagKind>()
    ensures
        kinds_in::<T>(0u32) == Set::<T>::empty(),
{
    assert forall|x: T| !kinds_in::<T>(0u32).contains(x) by {
        if x.spec_index() < 32 {
            let j = x.spec_index() as u32;
            assert((0u32 >> j) & 1u32 == 0u32) by (bit_vector);
        }
    }
    assert(kinds_in::<T>(0u32) =~= Set::<T>::empty());
}

/// Setting the flag of `x` adds `x` to the set.
pub proof fn lemma_insert_kind<T: FlagKind>(bits: u32, x: T)
    ensures
        kinds_in::<T>(bits | bit(x.spec_index())) == kinds_in::<T>(bits).insert(x),
{
    x.lemma_index_at();
    lemma_set_bit(bits, x.spec_index() as u32);
    assert forall|y: T| kinds_in::<T>(bits | bit(x.spec_index())).contains(y)
        == kinds_in::<T>(bits).insert(x).contains(y) by {
        y.lemma_index_at();
        assert(has_bit(bits | bit(x.spec_index()), y.spec_index()) == (has_bit(bits, y.spec_index())
            || y.spec_index() == x.spec_index()));
    }
    assert(kinds_in::<T>(bits | bit(x.spec_index())) =~= kinds_in::<T>(bits).insert(x));
}

/// Whether bit `i` of `bits` is set.
pub fn test_bit(bits: u32, i: u32) -> (r: bool)
    requires
        i < 32,
    ensures
        r == has_bit(bits, i as nat),
{
    (bits >> i) & 1u32 == 1u32
}

/// The flag of a value: the set with its bit alone.
pub fn flag_of<T: FlagKind>(x: &T) -> (r: u32)
    ensures
        r == bit(x.spec_index()),
        kinds_in::<T>(r) == Set::empty().insert(*x),
{
    let i = x.index();
    proof {
        x.lemma_index_at();
        assert(i < 32);
        let s = kinds_in::<T>(1u32 << i);
        lemma_set_bit(0u32, i);
        assert(0u32 | (1u32 << i) == 1u32 << i) by (bit_vector);
        assert forall|y: T| s.contains(y) <==> y == *x by {
            y.lemma_index_at();
            assert(has_bit(0u32 | bit(i as nat), y.spec_index()) == (has_bit(0u32, y.spec_index()) || y.spec_index() == i));
            assert(!has_bit(0u32, y.spec_index())) by {
                let j = y.spec_index() as u32;
                if y.spec_index() < 32 {
                    assert((0u32 >> j) & 1u32 == 0u32) by (bit_vector);
                }
            }
        }
        assert(s =~= Set::empty().insert(*x));
    }
    1u32 << i
}

/// The value whose flag is `f`.
pub fn kind_of_flag<T: FlagKind>(f: u32) -> (r: T)
    requires
        exists|i: nat| i < T::count() && f == bit(i),
    ensures
        bit(r.spec_index()) == f,
{
    let n = T::kinds();
    let ghost k = choose|i: nat| i < T::count() && f == bit(i);
    let mut i: u32 = 0;
    while i < n
        invariant
            n == T::count(),
            n <= 32,
            k < n,
            f == bit(k),
            i <= k,
        decreases n - i,
    {
        if 1u32 << i == f {
            let r = T::at(i);
            proof {
                T::lemma_at_index(i as nat);
            }
            return r;
        }
        proof {
            let kk = k as u32;
            assert(1u32 << i != 1u32 << kk ==> i != kk);
        }
        i = i + 1;
    }
    proof {
        assert(false);
    }
    T::at(0)
}

/// The values whose bits are set in `bits`, in increasing number.
pub fn list_kinds<T: FlagKind>(bits: u32) -> (r: Vec<T>)
    ensures
        r@.to_set() == kinds_in::<T>(bits),
        forall|x: T| r@.contains(x) <==> has_bit(bits, x.spec_index()),
        in_order(r@),
{
    let n = T::kinds();
    let mut r: Vec<T> = Vec::new();
    let mut i: u32 = 0;
    while i < n
        invariant
            n == T::count(),
            n <= 32,
            i <= n,
            forall|x: T| r@.contains(x) <==> x.spec_index() < i && has_bit(bits, x.spec_index()),
            forall|j: int| 0 <= j < r@.len() ==> r@[j].spec_index() < i,
            in_order(r@),
        decreases n - i,
    {
        if test_bit(bits, i) {
            let x = T::at(i);
            proof {
                T::lemma_at_index(i as nat);
            }
            let ghost before = r@;
            r.push(x);
            proof {
                assert forall|y: T| r@.contains(y) <==> y.spec_index() < i + 1 && has_bit(
                    bits,
                    y.spec_index(),
                ) by {
                    y.lemma_index_at();
                    if y.spec_index() == i {
                        assert(y == x);
                        assert(r@[before.len() as int] == x);
                    }
                    if r@.contains(y) && y != x {
                        let j = choose|j: int| 0 <= j < r@.len() && r@[j] == y;
                        assert(j < before.len());
                        assert(before.contains(y));
                    }
                    if before.contains(y) {
                        let j = choose|j: int| 0 <= j < before.len() && before[j] == y;
                        assert(r@[j] == y);
                    }
                }
            }
        } else {
            proof {
                assert forall|y: T| r@.contains(y) <==> y.spec_index() < i + 1 && has_bit(
                    bits,
                    y.spec_index(),
                ) by {
                    if y.spec_index() == i {
                        assert(!has_bit(bits, i as nat));
                    }
                }
            }
        }
        i = i + 1;
    }
    proof {
        assert forall|x: T| r@.contains(x) <==> has_bit(bits, x.spec_index()) by {
            x.lemma_index_at();
        }
        assert(r@.to_set() =~= kinds_in::<T>(bits));
    }
    r
}

} // verus!
