//! Maps that list their entries in the order of their keys.
use crate::text::{str_lt, text_lt, text_lt_irreflexive, text_lt_total, text_lt_transitive};
use vstd::prelude::*;
use vstd::string::*;

verus! {

/// A value that can be copied without a change to what it stands for.
pub trait Dup: View + Sized {
    fn dup(&self) -> (r: Self)
        ensures
            r@ == self@,
    ;
}

/// A key with a strict total order on what it stands for.
pub trait MapKey: Dup {
    spec fn precedes(a: Self::V, b: Self::V) -> bool;

    proof fn order_laws()
        ensures
            forall|a: Self::V| !(#[trigger] Self::precedes(a, a)),
            forall|a: Self::V, b: Self::V, c: Self::V| #[trigger]
                Self::precedes(a, b) && #[trigger] Self::precedes(b, c) ==> Self::precedes(a, c),
            forall|a: Self::V, b: Self::V|
                a == b || #[trigger] Self::precedes(a, b) || Self::precedes(b, a),
    ;

    fn before(&self, other: &Self) -> (r: bool)
        ensures
            r == Self::precedes(self@, other@),
    ;
}

impl MapKey for String {
    open spec fn precedes(a: Seq<char>, b: Seq<char>) -> bool {
        text_lt(a, b)
    }

    proof fn order_laws() {
        assert forall|a: Seq<char>| !(#[trigger] text_lt(a, a)) by {
            text_lt_irreflexive(a);
        }
        assert forall|a: Seq<char>, b: Seq<char>, c: Seq<char>| #[trigger]
            text_lt(a, b) && #[trigger] text_lt(b, c) implies text_lt(a, c) by {
            text_lt_transitive(a, b, c);
        }
        assert forall|a: Seq<char>, b: Seq<char>|
            a == b || #[trigger] text_lt(a, b) || text_lt(b, a) by {
            text_lt_total(a, b);
        }
    }

    fn before(&self, other: &Self) -> (r: bool) {
        str_lt(self.as_str(), other.as_str())
    }
}

impl Dup for String {
    fn dup(&self) -> (r: Self) {
        self.clone()
    }
}

impl MapKey for u64 {
    open spec fn precedes(a: u64, b: u64) -> bool {
        a < b
    }

    proof fn order_laws() {
    }

    fn before(&self, other: &Self) -> (r: bool) {
        *self < *other
    }
}

impl Dup for u64 {
    fn dup(&self) -> (r: Self) {
        *self
    }
}

/// Whether `s` lists exactly the keys of `dom`, each before the next.
pub open spec fn lists<K: MapKey>(s: Seq<K::V>, dom: Set<K::V>) -> bool {
    &&& forall|i: int, j: int|
        0 <= i < j < s.len() ==> K::precedes(#[trigger] s[i], #[trigger] s[j])
    &&& forall|k: K::V| #[trigger] dom.contains(k) <==> s.contains(k)
}

/// The keys of a set in their order.
pub open spec fn sorted_keys<K: MapKey>(dom: Set<K::V>) -> Seq<K::V> {
    choose|s: Seq<K::V>| lists::<K>(s, dom)
}

/// A set has at most one listing in key order.
pub proof fn listing_unique<K: MapKey>(s: Seq<K::V>, t: Seq<K::V>, dom: Set<K::V>)
    requires
        lists::<K>(s, dom),
        lists::<K>(t, dom),
    ensures
        s == t,
    decreases s.len(),
{
    K::order_laws();
    if s.len() == 0 {
        if t.len() > 0 {
            assert(t.contains(t[0]));
            assert(dom.contains(t[0]));
            assert(s.contains(t[0]));
        }
        assert(s =~= t);
    } else {
        assert(s.contains(s.last()));
        assert(dom.contains(s.last()));
        assert(t.contains(s.last()));
        let i = t.index_of(s.last());
        assert(t.contains(t.last()));
        assert(dom.contains(t.last()));
        assert(s.contains(t.last()));
        let j = s.index_of(t.last());
        if s.last() != t.last() {
            assert(K::precedes(t[i], t[t.len() - 1]));
            assert(K::precedes(s[j], s[s.len() - 1]));
            assert(false);
        }
        let m = s.last();
        let d = dom.remove(m);
        let (s1, t1) = (s.drop_last(), t.drop_last());
        listing_without_last::<K>(s, dom);
        listing_without_last::<K>(t, dom);
        listing_unique::<K>(s1, t1, d);
        assert(s =~= s1.push(m));
        assert(t =~= t1.push(m));
    }
}

proof fn listing_without_last<K: MapKey>(s: Seq<K::V>, dom: Set<K::V>)
    requires
        lists::<K>(s, dom),
        s.len() > 0,
    ensures
        lists::<K>(s.drop_last(), dom.remove(s.last())),
{
    K::order_laws();
    let m = s.last();
    let s1 = s.drop_last();
    let d = dom.remove(m);
    assert forall|k: K::V| #[trigger] d.contains(k) <==> s1.contains(k) by {
        if d.contains(k) {
            assert(dom.contains(k));
            assert(s.contains(k));
            let i = s.index_of(k);
            assert(s1[i] == k);
        }
        if s1.contains(k) {
            let i = s1.index_of(k);
            assert(s[i] == k);
            assert(s.contains(k));
            assert(dom.contains(k));
            assert(K::precedes(s[i], s[s.len() - 1]));
        }
    }
}

/// The keys of the entries that satisfy `p`, in key order.
pub open spec fn keys_where<K: MapKey, W>(m: Map<K::V, W>, p: spec_fn(K::V, W) -> bool) -> Seq<K::V> {
    sorted_keys::<K>(m.dom()).filter(|k: K::V| p(k, m[k]))
}

/// Whether some entry satisfies `p`.
pub open spec fn some_entry<A, W>(m: Map<A, W>, p: spec_fn(A, W) -> bool) -> bool {
    exists|k: A| #[trigger] m.contains_key(k) && p(k, m[k])
}

/// What the keys in a vector stand for.
pub open spec fn views<K: View>(s: Seq<K>) -> Seq<K::V> {
    s.map_values(|k: K| k@)
}

/// A map from keys to values, with its entries in key order.
pub struct OrdMap<K: MapKey, V: View> {
    keys: Vec<K>,
    vals: Vec<V>,
}

impl<K: MapKey, V: View> View for OrdMap<K, V> {
    type V = Map<K::V, V::V>;

    closed spec fn view(&self) -> Map<K::V, V::V> {
        Map::new(
            |k: K::V| exists|i: int| self.at(i, k),
            |k: K::V| self.vals@[choose|i: int| self.at(i, k)]@,
        )
    }
}

impl<K: MapKey, V: View> OrdMap<K, V> {
    spec fn at(&self, i: int, k: K::V) -> bool {
        0 <= i < self.keys@.len() && self.keys@[i]@ == k
    }

    #[verifier::type_invariant]
    spec fn sorted(self) -> bool {
        &&& self.keys@.len() == self.vals@.len()
        &&& increasing::<K>(self.keys@)
    }

    /// A map holds finitely many keys.
    pub proof fn finite(&self)
        ensures
            self@.dom().finite(),
    {
        broadcast use vstd::seq_lib::seq_to_set_is_finite;

        let ks = views(self.keys@);
        assert forall|k: K::V| self@.dom().contains(k) implies ks.to_set().contains(k) by {
            let i = choose|i: int| self.at(i, k);
            assert(ks[i] == k);
        }
        vstd::set_lib::lemma_len_subset(self@.dom(), ks.to_set());
    }

    proof fn view_at(&self, i: int)
        requires
            self.sorted(),
            0 <= i < self.keys@.len(),
        ensures
            self@.contains_key(self.keys@[i]@),
            self@[self.keys@[i]@] == self.vals@[i]@,
    {
        K::order_laws();
        let k = self.keys@[i]@;
        assert(self.at(i, k));
        let c = choose|j: int| self.at(j, k);
        assert(self.at(c, k));
        assert(c == i) by {
            if c < i {
                assert(K::precedes(self.keys@[c]@, self.keys@[i]@));
            }
            if i < c {
                assert(K::precedes(self.keys@[i]@, self.keys@[c]@));
            }
        }
    }

    proof fn view_key(&self, k: K::V) -> (i: int)
        requires
            self.sorted(),
            self@.contains_key(k),
        ensures
            0 <= i < self.keys@.len(),
            self.keys@[i]@ == k,
            self@[k] == self.vals@[i]@,
    {
        let i = choose|i: int| self.at(i, k);
        self.view_at(i);
        i
    }

    proof fn listing(&self)
        requires
            self.sorted(),
        ensures
            views(self.keys@) == sorted_keys::<K>(self@.dom()),
            lists::<K>(views(self.keys@), self@.dom()),
    {
        let s = views(self.keys@);
        let dom = self@.dom();
        assert forall|k: K::V| #[trigger] dom.contains(k) <==> s.contains(k) by {
            if dom.contains(k) {
                let i = self.view_key(k);
                assert(s[i] == k);
            }
            if s.contains(k) {
                let i = s.index_of(k);
                self.view_at(i);
            }
        }
        assert(lists::<K>(s, dom));
        let t = sorted_keys::<K>(dom);
        listing_unique::<K>(s, t, dom);
    }

    proof fn absent(&self, k: K::V)
        requires
            forall|j: int| 0 <= j < self.keys@.len() ==> (#[trigger] self.keys@[j])@ != k,
        ensures
            !self@.contains_key(k),
    {
        if self@.contains_key(k) {
            let i = choose|i: int| self.at(i, k);
            assert(self.at(i, k));
            assert(self.keys@[i]@ != k);
        }
    }

    pub fn new() -> (r: Self)
        ensures
            r@ == Map::<K::V, V::V>::empty(),
    {
        let r = OrdMap { keys: Vec::new(), vals: Vec::new() };
        proof {
            assert(r@ =~= Map::<K::V, V::V>::empty());
        }
        r
    }

    fn find(&self, k: &K) -> (r: Result<usize, usize>)
        ensures
            match r {
                Ok(i) => i < self.keys@.len() && self.keys@[i as int]@ == k@,
                Err(i) => i <= self.keys@.len() && (forall|j: int|
                    0 <= j < i ==> K::precedes((#[trigger] self.keys@[j])@, k@)) && (forall|
                    j: int,
                |
                    i <= j < self.keys@.len() ==> K::precedes(k@, (#[trigger] self.keys@[j])@)),
            },
    {
        proof {
            use_type_invariant(self);
            K::order_laws();
        }
        let mut i: usize = 0;
        while i < self.keys.len()
            invariant
                i <= self.keys@.len(),
                forall|j: int| 0 <= j < i ==> K::precedes((#[trigger] self.keys@[j])@, k@),
            ensures
                i <= self.keys@.len(),
                forall|j: int| 0 <= j < i ==> K::precedes((#[trigger] self.keys@[j])@, k@),
                i < self.keys@.len() ==> !K::precedes(self.keys@[i as int]@, k@),
            decreases self.keys@.len() - i,
        {
            if !self.keys[i].before(k) {
                break;
            }
            i += 1;
        }
        if i < self.keys.len() {
            if k.before(&self.keys[i]) {
                proof {
                    assert forall|j: int| i <= j < self.keys@.len() implies K::precedes(
                        k@,
                        (#[trigger] self.keys@[j])@,
                    ) by {
                        if j > i {
                            assert(K::precedes(self.keys@[i as int]@, self.keys@[j]@));
                        }
                    }
                }
                Err(i)
            } else {
                Ok(i)
            }
        } else {
            Err(i)
        }
    }

    pub fn get(&self, k: &K) -> (r: Option<&V>)
        ensures
            match r {
                Some(v) => self@.contains_key(k@) && v@ == self@[k@],
                None => !self@.contains_key(k@),
            },
    {
        proof {
            use_type_invariant(self);
            K::order_laws();
        }
        match self.find(k) {
            Ok(i) => {
                proof {
                    self.view_at(i as int);
                }
                Some(&self.vals[i])
            },
            Err(_) => {
                proof {
                    self.absent(k@);
                }
                None
            },
        }
    }

    pub fn contains_key(&self, k: &K) -> (r: bool)
        ensures
            r == self@.contains_key(k@),
    {
        self.get(k).is_some()
    }

    proof fn replaced(before: &Self, after: &Self, i: int)
        requires
            before.sorted(),
            0 <= i < before.keys@.len(),
            after.keys@ == before.keys@,
            after.vals@.len() == before.vals@.len(),
            forall|j: int|
                0 <= j < before.vals@.len() && j != i ==> after.vals@[j] == before.vals@[j],
        ensures
            after.sorted(),
            after@ == before@.insert(before.keys@[i]@, after.vals@[i]@),
    {
        let k = before.keys@[i]@;
        let m = before@.insert(k, after.vals@[i]@);
        before.view_at(i);
        after.view_at(i);
        assert forall|x: K::V| after@.contains_key(x) == m.contains_key(x) by {
            if after@.contains_key(x) {
                let j = after.view_key(x);
                before.view_at(j);
            }
            if before@.contains_key(x) {
                let j = before.view_key(x);
                after.view_at(j);
            }
        }
        assert forall|x: K::V| after@.contains_key(x) implies after@[x] == m[x] by {
            let j = after.view_key(x);
            before.view_at(j);
        }
        assert(after@ =~= m);
    }

    pub fn get_mut(&mut self, k: &K) -> (r: Option<&mut V>)
        ensures
            match r {
                Some(v) => old(self)@.contains_key(k@) && v@ == old(self)@[k@] && final(self)@
                    == old(self)@.insert(k@, final(v)@),
                None => !old(self)@.contains_key(k@) && final(self)@ == old(self)@,
            },
    {
        proof {
            use_type_invariant(&*self);
            K::order_laws();
        }
        match self.find(k) {
            Ok(i) => {
                proof {
                    self.view_at(i as int);
                }
                let ghost before = *self;
                let r = &mut self.vals[i];
                proof {
                    Self::replaced(&before, &after_borrow(*self), i as int);
                }
                Some(r)
            },
            Err(_) => {
                proof {
                    self.absent(k@);
                }
                None
            },
        }
    }

    /// Puts `v` under `k`; gives back whether `k` was there before.
    pub fn insert(&mut self, k: K, v: V) -> (r: bool)
        ensures
            final(self)@ == old(self)@.insert(k@, v@),
            r == old(self)@.contains_key(k@),
    {
        proof {
            use_type_invariant(&*self);
            K::order_laws();
        }
        let ghost before = *self;
        match self.find(&k) {
            Ok(i) => {
                proof {
                    self.view_at(i as int);
                }
                self.vals[i] = v;
                proof {
                    Self::replaced(&before, self, i as int);
                }
                true
            },
            Err(i) => {
                proof {
                    self.absent(k@);
                }
                let mut whole: Self = OrdMap::new();
                core::mem::swap(self, &mut whole);
                let OrdMap { mut keys, mut vals } = whole;
                keys.insert(i, k);
                vals.insert(i, v);
                proof {
                    assert forall|a: int, b: int| 0 <= a < b < keys@.len() implies K::precedes(
                        (#[trigger] keys@[a])@,
                        (#[trigger] keys@[b])@,
                    ) by {
                        if a != i && b != i {
                            let a1 = if a < i { a } else { a - 1 };
                            let b1 = if b < i { b } else { b - 1 };
                            assert(K::precedes(before.keys@[a1]@, before.keys@[b1]@));
                        }
                    }
                }
                *self = OrdMap { keys, vals };
                proof {
                    Self::inserted(&before, self, i as int, k, v);
                }
                false
            },
        }
    }

    proof fn inserted(before: &Self, after: &Self, i: int, k: K, v: V)
        requires
            before.sorted(),
            after.sorted(),
            0 <= i <= before.keys@.len(),
            after.keys@ == before.keys@.insert(i, k),
            after.vals@ == before.vals@.insert(i, v),
        ensures
            after@ == before@.insert(k@, v@),
    {
        let m = before@.insert(k@, v@);
        after.view_at(i);
        assert forall|x: K::V| after@.contains_key(x) == m.contains_key(x) by {
            if after@.contains_key(x) {
                let j = after.view_key(x);
                if j < i {
                    before.view_at(j);
                } else if j > i {
                    before.view_at(j - 1);
                }
            }
            if before@.contains_key(x) {
                let j = before.view_key(x);
                if j < i {
                    after.view_at(j);
                } else {
                    after.view_at(j + 1);
                }
            }
        }
        assert forall|x: K::V| after@.contains_key(x) implies after@[x] == m[x] by {
            let j = after.view_key(x);
            if j < i {
                before.view_at(j);
            } else if j > i {
                before.view_at(j - 1);
            }
        }
        assert(after@ =~= m);
    }

    /// Takes out what stands under `k`, where something does.
    pub fn remove(&mut self, k: &K) -> (r: Option<V>)
        ensures
            final(self)@ == old(self)@.remove(k@),
            match r {
                Some(v) => old(self)@.contains_key(k@) && v@ == old(self)@[k@],
                None => !old(self)@.contains_key(k@),
            },
    {
        proof {
            use_type_invariant(&*self);
            K::order_laws();
        }
        let ghost before = *self;
        match self.find(k) {
            Ok(i) => {
                proof {
                    self.view_at(i as int);
                }
                let mut whole: Self = OrdMap::new();
                core::mem::swap(self, &mut whole);
                let OrdMap { mut keys, mut vals } = whole;
                let _ = keys.remove(i);
                let v = vals.remove(i);
                proof {
                    assert forall|a: int, b: int| 0 <= a < b < keys@.len() implies K::precedes(
                        (#[trigger] keys@[a])@,
                        (#[trigger] keys@[b])@,
                    ) by {
                        let a1 = if a < i { a } else { a + 1 };
                        let b1 = if b < i { b } else { b + 1 };
                        assert(K::precedes(before.keys@[a1]@, before.keys@[b1]@));
                    }
                }
                *self = OrdMap { keys, vals };
                proof {
                    Self::removed(&before, self, i as int);
                }
                Some(v)
            },
            Err(_) => {
                proof {
                    self.absent(k@);
                    assert(before@.remove(k@) =~= before@);
                }
                None
            },
        }
    }

    proof fn removed(before: &Self, after: &Self, i: int)
        requires
            before.sorted(),
            after.sorted(),
            0 <= i < before.keys@.len(),
            after.keys@ == before.keys@.remove(i),
            after.vals@ == before.vals@.remove(i),
        ensures
            after@ == before@.remove(before.keys@[i]@),
    {
        K::order_laws();
        let k = before.keys@[i]@;
        let m = before@.remove(k);
        assert forall|x: K::V| after@.contains_key(x) == m.contains_key(x) by {
            if after@.contains_key(x) {
                let j = after.view_key(x);
                if j < i {
                    before.view_at(j);
                    assert(K::precedes(before.keys@[j]@, before.keys@[i]@));
                } else {
                    before.view_at(j + 1);
                    assert(K::precedes(before.keys@[i]@, before.keys@[j + 1]@));
                }
            }
            if m.contains_key(x) {
                let j = before.view_key(x);
                if j < i {
                    after.view_at(j);
                } else {
                    after.view_at(j - 1);
                }
            }
        }
        assert forall|x: K::V| after@.contains_key(x) implies after@[x] == m[x] by {
            let j = after.view_key(x);
            if j < i {
                before.view_at(j);
            } else {
                before.view_at(j + 1);
            }
        }
        assert(after@ =~= m);
    }

    /// The number of entries.
    pub fn len(&self) -> (r: usize)
        ensures
            r == sorted_keys::<K>(self@.dom()).len(),
            r == self@.dom().len(),
            lists::<K>(sorted_keys::<K>(self@.dom()), self@.dom()),
    {
        proof {
            use_type_invariant(self);
            self.listing();
            listing_len::<K>(sorted_keys::<K>(self@.dom()), self@.dom());
        }
        self.keys.len()
    }

    pub fn is_empty(&self) -> (r: bool)
        ensures
            r == (self@.dom().len() == 0),
    {
        self.len() == 0
    }

    /// The key of entry `i` in key order.
    pub fn key_at(&self, i: usize) -> (r: &K)
        requires
            i < sorted_keys::<K>(self@.dom()).len(),
        ensures
            r@ == sorted_keys::<K>(self@.dom())[i as int],
            self@.contains_key(r@),
    {
        proof {
            use_type_invariant(self);
            self.listing();
            self.view_at(i as int);
            assert(views(self.keys@)[i as int] == self.keys@[i as int]@);
        }
        &self.keys[i]
    }

    /// The value of entry `i` in key order.
    pub fn val_at(&self, i: usize) -> (r: &V)
        requires
            i < sorted_keys::<K>(self@.dom()).len(),
        ensures
            r@ == self@[sorted_keys::<K>(self@.dom())[i as int]],
            self@.contains_key(sorted_keys::<K>(self@.dom())[i as int]),
    {
        proof {
            use_type_invariant(self);
            self.listing();
            self.view_at(i as int);
            assert(views(self.keys@)[i as int] == self.keys@[i as int]@);
        }
        &self.vals[i]
    }

    /// The keys of the entries that `f` accepts, in key order. `p` is what `f` decides.
    pub(crate) fn select<F: Fn(&K, &V) -> bool>(
        &self,
        f: F,
        Ghost(p): Ghost<spec_fn(K::V, V::V) -> bool>,
    ) -> (r: Vec<K>)
        requires
            forall|k: &K, v: &V| #[trigger] f.requires((k, v)),
            forall|k: &K, v: &V, b: bool| #[trigger] f.ensures((k, v), b) ==> b == p(k@, v@),
        ensures
            views(r@) == keys_where::<K, V::V>(self@, p),
            forall|i: int|
                0 <= i < r@.len() ==> self@.contains_key((#[trigger] r@[i])@) && p(
                    r@[i]@,
                    self@[r@[i]@],
                ),
    {
        let mut out: Vec<K> = Vec::new();
        let n: usize = self.len();
        let ghost ks = sorted_keys::<K>(self@.dom());
        let ghost q = |k: K::V| p(k, self@[k]);
        let mut i: usize = 0;
        proof {
            reveal(Seq::filter);
            assert(views(out@) =~= ks.take(0).filter(q));
        }
        while i < n
            invariant
                n == ks.len(),
                i <= n,
                ks == sorted_keys::<K>(self@.dom()),
                q == (|k: K::V| p(k, self@[k])),
                forall|k: &K, v: &V| #[trigger] f.requires((k, v)),
                forall|k: &K, v: &V, b: bool| #[trigger] f.ensures((k, v), b) ==> b == p(k@, v@),
                views(out@) == ks.take(i as int).filter(q),
                forall|j: int|
                    0 <= j < out@.len() ==> self@.contains_key((#[trigger] out@[j])@) && p(
                        out@[j]@,
                        self@[out@[j]@],
                    ),
            decreases n - i,
        {
            let k = self.key_at(i);
            let v = self.val_at(i);
            proof {
                reveal(Seq::filter);
                let t = ks.take(i + 1);
                assert(t.drop_last() =~= ks.take(i as int));
                assert(t.last() == k@);
            }
            if f(k, v) {
                let ghost was = out@;
                out.push(k.dup());
                proof {
                    assert(views(out@) =~= views(was).push(k@));
                }
            }
            i += 1;
        }
        proof {
            assert(ks.take(n as int) =~= ks);
        }
        out
    }

    /// Whether `f` accepts some entry. `p` is what `f` decides.
    pub(crate) fn any<F: Fn(&K, &V) -> bool>(
        &self,
        f: F,
        Ghost(p): Ghost<spec_fn(K::V, V::V) -> bool>,
    ) -> (r: bool)
        requires
            forall|k: &K, v: &V| #[trigger] f.requires((k, v)),
            forall|k: &K, v: &V, b: bool| #[trigger] f.ensures((k, v), b) ==> b == p(k@, v@),
        ensures
            r == some_entry(self@, p),
    {
        let n: usize = self.len();
        let ghost ks = sorted_keys::<K>(self@.dom());
        let mut i: usize = 0;
        while i < n
            invariant
                n == ks.len(),
                i <= n,
                ks == sorted_keys::<K>(self@.dom()),
                forall|k: &K, v: &V| #[trigger] f.requires((k, v)),
                forall|k: &K, v: &V, b: bool| #[trigger] f.ensures((k, v), b) ==> b == p(k@, v@),
                forall|j: int| 0 <= j < i ==> !p(#[trigger] ks[j], self@[ks[j]]),
            decreases n - i,
        {
            let k = self.key_at(i);
            let v = self.val_at(i);
            if f(k, v) {
                return true;
            }
            i += 1;
        }
        proof {
            use_type_invariant(self);
            self.listing();
            assert forall|k: K::V| #[trigger] self@.contains_key(k) implies !p(k, self@[k]) by {
                assert(self@.dom().contains(k));
                assert(ks.contains(k));
                let j = ks.index_of(k);
                assert(ks[j] == k);
            }
        }
        false
    }
}

impl<K: MapKey, V: Dup> OrdMap<K, V> {
    /// A copy of the map.
    pub fn dup(&self) -> (r: Self)
        ensures
            r@ == self@,
    {
        proof {
            use_type_invariant(self);
        }
        let mut keys: Vec<K> = Vec::new();
        let mut vals: Vec<V> = Vec::new();
        let mut i: usize = 0;
        while i < self.keys.len()
            invariant
                i <= self.keys@.len(),
                self.keys@.len() == self.vals@.len(),
                keys@.len() == i,
                vals@.len() == i,
                forall|j: int| 0 <= j < i ==> (#[trigger] keys@[j])@ == self.keys@[j]@,
                forall|j: int| 0 <= j < i ==> (#[trigger] vals@[j])@ == self.vals@[j]@,
            decreases self.keys@.len() - i,
        {
            keys.push(self.keys[i].dup());
            vals.push(self.vals[i].dup());
            i += 1;
        }
        proof {
            assert forall|a: int, b: int| 0 <= a < b < keys@.len() implies K::precedes(
                (#[trigger] keys@[a])@,
                (#[trigger] keys@[b])@,
            ) by {
                assert(K::precedes(self.keys@[a]@, self.keys@[b]@));
            }
        }
        let r = OrdMap { keys, vals };
        proof {
            assert forall|k: K::V| r@.contains_key(k) == self@.contains_key(k) by {
                if r@.contains_key(k) {
                    let j = r.view_key(k);
                    self.view_at(j);
                }
                if self@.contains_key(k) {
                    let j = self.view_key(k);
                    r.view_at(j);
                }
            }
            assert forall|k: K::V| r@.contains_key(k) implies r@[k] == self@[k] by {
                let j = r.view_key(k);
                self.view_at(j);
            }
            assert(r@ =~= self@);
        }
        r
    }
}

/// Keys in strictly increasing order.
pub open spec fn increasing<K: MapKey>(s: Seq<K>) -> bool {
    forall|i: int, j: int|
        0 <= i < j < s.len() ==> K::precedes((#[trigger] s[i])@, (#[trigger] s[j])@)
}

proof fn listing_len<K: MapKey>(s: Seq<K::V>, dom: Set<K::V>)
    requires
        lists::<K>(s, dom),
    ensures
        dom.finite(),
        dom.len() == s.len(),
    decreases s.len(),
{
    if s.len() == 0 {
        assert forall|k: K::V| !dom.contains(k) by {
            if dom.contains(k) {
                assert(s.contains(k));
            }
        }
        assert(dom =~= Set::<K::V>::empty());
    } else {
        listing_without_last::<K>(s, dom);
        listing_len::<K>(s.drop_last(), dom.remove(s.last()));
        assert(s.contains(s.last()));
        assert(dom.contains(s.last()));
        assert(dom =~= dom.remove(s.last()).insert(s.last()));
    }
}

/// Every finite set of keys has a listing in key order.
pub proof fn keys_listed<K: MapKey>(dom: Set<K::V>)
    requires
        dom.finite(),
    ensures
        lists::<K>(sorted_keys::<K>(dom), dom),
{
    let s = listing_exists::<K>(dom);
    assert(lists::<K>(s, dom));
}

proof fn listing_exists<K: MapKey>(dom: Set<K::V>) -> (s: Seq<K::V>)
    requires
        dom.finite(),
    ensures
        lists::<K>(s, dom),
    decreases dom.len(),
{
    K::order_laws();
    if dom.len() == 0 {
        assert(dom =~= Set::<K::V>::empty());
        Seq::empty()
    } else {
        let x = dom.choose();
        let rest = listing_exists::<K>(dom.remove(x));
        let i = place_for::<K>(rest, x, rest.len() as int);
        assert forall|k: K::V| #[trigger] rest.contains(k) implies k != x by {
            assert(dom.remove(x).contains(k));
        }
        let s = rest.insert(i, x);
        assert forall|a: int, b: int| 0 <= a < b < s.len() implies K::precedes(
            #[trigger] s[a],
            #[trigger] s[b],
        ) by {
            let a1 = if a < i {
                a
            } else {
                a - 1
            };
            let b1 = if b < i {
                b
            } else {
                b - 1
            };
            if a == i {
                assert(s[b] == rest[b1]);
                assert(rest.contains(rest[b1]));
            } else if b == i {
                assert(s[a] == rest[a1]);
                assert(rest.contains(rest[a1]));
            } else {
                assert(s[a] == rest[a1] && s[b] == rest[b1]);
            }
        }
        assert forall|k: K::V| #[trigger] dom.contains(k) <==> s.contains(k) by {
            if dom.contains(k) {
                if k == x {
                    assert(s[i] == x);
                } else {
                    assert(dom.remove(x).contains(k));
                    let j = rest.index_of(k);
                    assert(s[if j < i {
                        j
                    } else {
                        j + 1
                    }] == k);
                }
            }
            if s.contains(k) {
                let j = s.index_of(k);
                if j != i {
                    let j1 = if j < i {
                        j
                    } else {
                        j - 1
                    };
                    assert(rest[j1] == k);
                    assert(rest.contains(k));
                    assert(dom.remove(x).contains(k));
                }
            }
        }
        s
    }
}

/// The place of `x` in an ordered listing: all before it precede it, and it precedes the others.
proof fn place_for<K: MapKey>(s: Seq<K::V>, x: K::V, n: int) -> (i: int)
    requires
        0 <= n <= s.len(),
        forall|a: int, b: int|
            0 <= a < b < s.len() ==> K::precedes(#[trigger] s[a], #[trigger] s[b]),
        !s.contains(x),
        forall|j: int| n <= j < s.len() ==> K::precedes(x, #[trigger] s[j]),
    ensures
        0 <= i <= s.len(),
        forall|j: int| 0 <= j < i ==> K::precedes(#[trigger] s[j], x),
        forall|j: int| i <= j < s.len() ==> K::precedes(x, #[trigger] s[j]),
    decreases n,
{
    K::order_laws();
    if n == 0 {
        0
    } else {
        assert(s.contains(s[n - 1]));
        if K::precedes(x, s[n - 1]) {
            place_for::<K>(s, x, n - 1)
        } else {
            assert forall|j: int| 0 <= j < n implies K::precedes(#[trigger] s[j], x) by {
                assert(K::precedes(s[n - 1], x));
                if j < n - 1 {
                    assert(K::precedes(s[j], s[n - 1]));
                }
            }
            n
        }
    }
}

/// A key is among those that satisfy `p` exactly if its entry does.
pub proof fn keys_where_has<K: MapKey, W>(m: Map<K::V, W>, p: spec_fn(K::V, W) -> bool, k: K::V)
    requires
        m.dom().finite(),
    ensures
        keys_where::<K, W>(m, p).contains(k) <==> m.contains_key(k) && p(k, m[k]),
{
    keys_listed::<K>(m.dom());
    let s = sorted_keys::<K>(m.dom());
    let q = |x: K::V| p(x, m[x]);
    filter_has(s, q, k);
    assert(m.dom().contains(k) <==> s.contains(k));
}

proof fn filter_has<A>(s: Seq<A>, q: spec_fn(A) -> bool, x: A)
    ensures
        s.filter(q).contains(x) <==> s.contains(x) && q(x),
    decreases s.len(),
{
    reveal(Seq::filter);
    if s.len() > 0 {
        let t = s.drop_last();
        filter_has(t, q, x);
        let f = t.filter(q);
        if s.contains(x) {
            let i = s.index_of(x);
            if i < t.len() {
                assert(t[i] == x);
            }
        }
        if t.contains(x) {
            let i = t.index_of(x);
            assert(s[i] == x);
        }
        if q(s.last()) {
            let g = f.push(s.last());
            if f.contains(x) {
                let i = f.index_of(x);
                assert(g[i] == x);
            }
            if g.contains(x) {
                let i = g.index_of(x);
                if i < f.len() {
                    assert(f[i] == x);
                }
            }
            if x == s.last() {
                assert(g[f.len() as int] == x);
                assert(s[s.len() - 1] == x);
            }
        }
    }
}

/// Two maps with the same keys whose entries satisfy two conditions alike list the same keys.
pub proof fn keys_where_same<K: MapKey, W, X>(
    m: Map<K::V, W>,
    n: Map<K::V, X>,
    p: spec_fn(K::V, W) -> bool,
    q: spec_fn(K::V, X) -> bool,
)
    requires
        m.dom() == n.dom(),
        m.dom().finite(),
        forall|k: K::V| #[trigger] m.contains_key(k) ==> p(k, m[k]) == q(k, n[k]),
    ensures
        keys_where::<K, W>(m, p) == keys_where::<K, X>(n, q),
{
    keys_listed::<K>(m.dom());
    let s = sorted_keys::<K>(m.dom());
    let a = |k: K::V| p(k, m[k]);
    let b = |k: K::V| q(k, n[k]);
    assert forall|i: int| 0 <= i < s.len() implies a(#[trigger] s[i]) == b(s[i]) by {
        assert(s.contains(s[i]));
        assert(m.dom().contains(s[i]));
        assert(m.contains_key(s[i]));
    }
    filter_same(s, a, b);
}

/// Two conditions that agree on a sequence filter it alike.
pub proof fn filter_same<A>(s: Seq<A>, a: spec_fn(A) -> bool, b: spec_fn(A) -> bool)
    requires
        forall|i: int| 0 <= i < s.len() ==> a(#[trigger] s[i]) == b(s[i]),
    ensures
        s.filter(a) == s.filter(b),
    decreases s.len(),
{
    reveal(Seq::filter);
    if s.len() > 0 {
        let t = s.drop_last();
        assert forall|i: int| 0 <= i < t.len() implies a(#[trigger] t[i]) == b(t[i]) by {
            assert(t[i] == s[i]);
        }
        filter_same(t, a, b);
        assert(s[s.len() - 1] == s.last());
    }
}

} // verus!
