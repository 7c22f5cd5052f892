//! Ordered maps and sets over strictly ascending vectors.
//!
//! A map is the mathematical map from key models to values; the ascending
//! order of its keys is the order in which it is walked.

use vstd::prelude::*;

use crate::text::lemma_text_lt_irreflexive;
use crate::text::lemma_text_lt_total;
use crate::text::lemma_text_lt_transitive;
use crate::text::text_less;
use crate::text::text_lt;

verus! {

/// A key with a mathematical model and a strict total order on the models.
pub trait OrderedKey: Sized {
    type Model;

    spec fn model(&self) -> Self::Model;

    spec fn before(a: Self::Model, b: Self::Model) -> bool;

    proof fn before_is_irreflexive(a: Self::Model)
        ensures
            !Self::before(a, a),
    ;

    proof fn before_is_transitive(a: Self::Model, b: Self::Model, c: Self::Model)
        requires
            Self::before(a, b),
            Self::before(b, c),
        ensures
            Self::before(a, c),
    ;

    proof fn before_is_total(a: Self::Model, b: Self::Model)
        requires
            !Self::before(a, b),
            !Self::before(b, a),
        ensures
            a == b,
    ;

    fn precedes(&self, other: &Self) -> (r: bool)
        ensures
            r == Self::before(self.model(), other.model()),
    ;
}

impl OrderedKey for String {
    type Model = Seq<char>;

    open spec fn model(&self) -> Seq<char> {
        self@
    }

    open spec fn before(a: Seq<char>, b: Seq<char>) -> bool {
        text_lt(a, b)
    }

    proof fn before_is_irreflexive(a: Seq<char>) {
        lemma_text_lt_irreflexive(a);
    }

    proof fn before_is_transitive(a: Seq<char>, b: Seq<char>, c: Seq<char>) {
        lemma_text_lt_transitive(a, b, c);
    }

    proof fn before_is_total(a: Seq<char>, b: Seq<char>) {
        lemma_text_lt_total(a, b);
    }

    fn precedes(&self, other: &String) -> (r: bool) {
        text_less(self.as_str(), other.as_str())
    }
}

/// Pairs are ordered by their first part, then by their second.
impl<A: OrderedKey, B: OrderedKey> OrderedKey for (A, B) {
    type Model = (A::Model, B::Model);

    open spec fn model(&self) -> (A::Model, B::Model) {
        (self.0.model(), self.1.model())
    }

    open spec fn before(a: (A::Model, B::Model), b: (A::Model, B::Model)) -> bool {
        A::before(a.0, b.0) || (a.0 == b.0 && B::before(a.1, b.1))
    }

    proof fn before_is_irreflexive(a: (A::Model, B::Model)) {
        A::before_is_irreflexive(a.0);
        B::before_is_irreflexive(a.1);
    }

    proof fn before_is_transitive(
        a: (A::Model, B::Model),
        b: (A::Model, B::Model),
        c: (A::Model, B::Model),
    ) {
        if A::before(a.0, b.0) && A::before(b.0, c.0) {
            A::before_is_transitive(a.0, b.0, c.0);
        }
        if a.0 == b.0 && b.0 == c.0 && B::before(a.1, b.1) && B::before(b.1, c.1) {
            B::before_is_transitive(a.1, b.1, c.1);
        }
    }

    proof fn before_is_total(a: (A::Model, B::Model), b: (A::Model, B::Model)) {
        A::before_is_total(a.0, b.0);
        B::before_is_total(a.1, b.1);
    }

    fn precedes(&self, other: &Self) -> (r: bool) {
        if self.0.precedes(&other.0) {
            return true;
        }
        if other.0.precedes(&self.0) {
            proof {
                if self.0.model() == other.0.model() {
                    A::before_is_irreflexive(self.0.model());
                }
            }
            return false;
        }
        proof {
            A::before_is_total(self.0.model(), other.0.model());
        }
        self.1.precedes(&other.1)
    }
}

/// What is absent comes before all that is present.
impl<A: OrderedKey> OrderedKey for Option<A> {
    type Model = Option<A::Model>;

    open spec fn model(&self) -> Option<A::Model> {
        match self {
            Some(a) => Some(a.model()),
            None => None,
        }
    }

    open spec fn before(a: Option<A::Model>, b: Option<A::Model>) -> bool {
        match (a, b) {
            (None, Some(_)) => true,
            (Some(x), Some(y)) => A::before(x, y),
            _ => false,
        }
    }

    proof fn before_is_irreflexive(a: Option<A::Model>) {
        if let Some(x) = a {
            A::before_is_irreflexive(x);
        }
    }

    proof fn before_is_transitive(
        a: Option<A::Model>,
        b: Option<A::Model>,
        c: Option<A::Model>,
    ) {
        match (a, b, c) {
            (Some(x), Some(y), Some(z)) => {
                A::before_is_transitive(x, y, z);
            },
            _ => {},
        }
    }

    proof fn before_is_total(a: Option<A::Model>, b: Option<A::Model>) {
        match (a, b) {
            (Some(x), Some(y)) => {
                A::before_is_total(x, y);
            },
            _ => {},
        }
    }

    fn precedes(&self, other: &Self) -> (r: bool) {
        match (self, other) {
            (None, Some(_)) => true,
            (Some(x), Some(y)) => x.precedes(y),
            _ => false,
        }
    }
}

/// The keys stand in strictly ascending order.
pub open spec fn ascending<K: OrderedKey>(keys: Seq<K::Model>) -> bool {
    forall|i: int, j: int|
        #![trigger keys[i], keys[j]]
        0 <= i < j < keys.len() ==> K::before(keys[i], keys[j])
}

/// The keys in ascending order.
pub open spec fn sorted<K: OrderedKey>(keys: Set<K::Model>) -> Seq<K::Model> {
    choose|order: Seq<K::Model>| #[trigger] ascending::<K>(order) && order.to_set() == keys
}

/// A map whose keys are walked in ascending order.
pub struct SortedMap<K, V> {
    keys: Vec<K>,
    values: Vec<V>,
}

impl<K: OrderedKey, V> SortedMap<K, V> {
    /// The key models in the order in which the map is walked.
    pub closed spec fn order(&self) -> Seq<K::Model> {
        self.keys@.map_values(|k: K| k.model())
    }

    /// The values in the order of their keys.
    pub closed spec fn in_order(&self) -> Seq<V> {
        self.values@
    }

    pub open spec fn wf(&self) -> bool {
        &&& ascending::<K>(self.order())
        &&& self.order().len() == self.in_order().len()
    }
}

impl<K: OrderedKey, V> View for SortedMap<K, V> {
    type V = Map<K::Model, V>;

    open spec fn view(&self) -> Map<K::Model, V> {
        Map::new(
            |k: K::Model| self.order().contains(k),
            |k: K::Model| self.in_order()[self.order().index_of(k)],
        )
    }
}

/// Ascending keys never repeat, so each key has one place.
pub proof fn lemma_ascending_unique<K: OrderedKey>(keys: Seq<K::Model>, i: int)
    requires
        ascending::<K>(keys),
        0 <= i < keys.len(),
    ensures
        keys.index_of(keys[i]) == i,
        keys.contains(keys[i]),
{
    let j = keys.index_of(keys[i]);
    assert(keys.contains(keys[i]));
    assert(0 <= j < keys.len() && keys[j] == keys[i]);
    if j < i {
        K::before_is_irreflexive(keys[i]);
    } else if i < j {
        K::before_is_irreflexive(keys[i]);
    }
}

/// Two ascending walks over the same keys are the same walk.
pub proof fn lemma_ascending_determined<K: OrderedKey>(a: Seq<K::Model>, b: Seq<K::Model>)
    requires
        ascending::<K>(a),
        ascending::<K>(b),
        a.to_set() == b.to_set(),
    ensures
        a == b,
    decreases a.len(),
{
    if a.len() == 0 {
        if b.len() > 0 {
            assert(b.to_set().contains(b[0]));
            assert(a.to_set().contains(b[0]));
        }
        assert(a =~= b);
    } else {
        assert(a.to_set().contains(a.last()));
        assert(b.to_set().contains(a.last()));
        assert(b.len() > 0);
        assert(b.to_set().contains(b.last()));
        assert(a.to_set().contains(b.last()));
        let i = choose|i: int| 0 <= i < b.len() && b[i] == a.last();
        let j = choose|j: int| 0 <= j < a.len() && a[j] == b.last();
        if i < b.len() - 1 {
            assert(K::before(b[i], b.last()));
            if j < a.len() - 1 {
                assert(K::before(a[j], a.last()));
                K::before_is_transitive(a.last(), b.last(), a.last());
            }
            K::before_is_irreflexive(a.last());
        }
        assert(a.last() == b.last());
        let x = a.drop_last();
        let y = b.drop_last();
        assert(ascending::<K>(x));
        assert(ascending::<K>(y));
        assert forall|k: K::Model| x.to_set().contains(k) implies y.to_set().contains(k) by {
            let m = choose|m: int| 0 <= m < x.len() && x[m] == k;
            assert(a[m] == k);
            assert(a.to_set().contains(k));
            assert(b.to_set().contains(k));
            let n = choose|n: int| 0 <= n < b.len() && b[n] == k;
            if n == b.len() - 1 {
                assert(K::before(a[m], a.last()));
                K::before_is_irreflexive(k);
            }
            assert(y[n] == k);
        }
        assert forall|k: K::Model| y.to_set().contains(k) implies x.to_set().contains(k) by {
            let m = choose|m: int| 0 <= m < y.len() && y[m] == k;
            assert(b[m] == k);
            assert(b.to_set().contains(k));
            assert(a.to_set().contains(k));
            let n = choose|n: int| 0 <= n < a.len() && a[n] == k;
            if n == a.len() - 1 {
                assert(K::before(b[m], b.last()));
                K::before_is_irreflexive(k);
            }
            assert(x[n] == k);
        }
        assert(x.to_set() =~= y.to_set());
        lemma_ascending_determined::<K>(x, y);
        assert(a =~= x.push(a.last()));
        assert(b =~= y.push(b.last()));
    }
}

/// The number of ascending keys is the number of different keys.
pub proof fn lemma_ascending_len<K: OrderedKey>(keys: Seq<K::Model>)
    requires
        ascending::<K>(keys),
    ensures
        keys.to_set().finite(),
        keys.to_set().len() == keys.len(),
{
    assert(keys.no_duplicates()) by {
        assert forall|i: int, j: int|
            0 <= i < keys.len() && 0 <= j < keys.len() && i != j implies keys[i] != keys[j] by {
            K::before_is_irreflexive(keys[i]);
            if i < j {
                assert(K::before(keys[i], keys[j]));
            } else {
                assert(K::before(keys[j], keys[i]));
            }
        }
    }
    keys.unique_seq_to_set();
}

impl<K: OrderedKey, V> SortedMap<K, V> {
    /// The map that holds nothing.
    pub fn new() -> (r: Self)
        ensures
            r.wf(),
            r@ == Map::<K::Model, V>::empty(),
    {
        let r = SortedMap { keys: Vec::new(), values: Vec::new() };
        assert(r.order() =~= Seq::<K::Model>::empty());
        assert(r@ =~= Map::<K::Model, V>::empty());
        r
    }

    pub proof fn lemma_domain(&self)
        requires
            self.wf(),
        ensures
            self@.dom() == self.order().to_set(),
            self.order() == sorted::<K>(self@.dom()),
            self@.dom().finite(),
            self@.dom().len() == self.order().len(),
            forall|i: int|
                #![trigger self.order()[i]]
                0 <= i < self.order().len() ==> self@.dom().contains(self.order()[i])
                    && self@[self.order()[i]] == self.in_order()[i],
    {
        assert(self@.dom() =~= self.order().to_set());
        lemma_ascending_determined::<K>(self.order(), sorted::<K>(self@.dom()));
        lemma_ascending_len::<K>(self.order());
        assert forall|i: int| 0 <= i < self.order().len() implies self@.dom().contains(
            #[trigger] self.order()[i],
        ) && self@[self.order()[i]] == self.in_order()[i] by {
            lemma_ascending_unique::<K>(self.order(), i);
        }
    }

    /// How many keys the map holds.
    pub fn len(&self) -> (r: usize)
        requires
            self.wf(),
        ensures
            r == self@.dom().len(),
            r == self.order().len(),
    {
        proof {
            self.lemma_domain();
        }
        self.keys.len()
    }

    /// The key at place `i` of the ascending walk.
    pub fn key_at(&self, i: usize) -> (r: &K)
        requires
            self.wf(),
            i < self.order().len(),
        ensures
            r.model() == self.order()[i as int],
            self@.dom().contains(r.model()),
    {
        proof {
            self.lemma_domain();
            assert(self.keys@[i as int].model() == self.order()[i as int]);
        }
        &self.keys[i]
    }

    /// The value at place `i` of the ascending walk.
    pub fn value_at(&self, i: usize) -> (r: &V)
        requires
            self.wf(),
            i < self.order().len(),
        ensures
            *r == self.in_order()[i as int],
            *r == self@[self.order()[i as int]],
    {
        proof {
            self.lemma_domain();
        }
        &self.values[i]
    }

    /// Where `key` stands, or would stand, in the ascending walk.
    fn place_of(&self, key: &K) -> (r: (usize, bool))
        requires
            self.wf(),
        ensures
            r.0 <= self.order().len(),
            forall|j: int| 0 <= j < r.0 ==> K::before(#[trigger] self.order()[j], key.model()),
            forall|j: int|
                r.0 <= j < self.order().len() ==> !K::before(
                    #[trigger] self.order()[j],
                    key.model(),
                ),
            r.1 == self.order().contains(key.model()),
            r.1 ==> r.0 < self.order().len() && self.order()[r.0 as int] == key.model(),
            !r.1 ==> forall|j: int|
                r.0 <= j < self.order().len() ==> K::before(key.model(), #[trigger] self.order()[j]),
    {
        let ghost order = self.order();
        let mut lo: usize = 0;
        let mut hi: usize = self.keys.len();
        while lo < hi
            invariant
                self.wf(),
                order == self.order(),
                order.len() == self.keys@.len(),
                lo <= hi <= order.len(),
                forall|j: int| 0 <= j < lo ==> K::before(#[trigger] order[j], key.model()),
                forall|j: int| hi <= j < order.len() ==> !K::before(#[trigger] order[j], key.model()),
            decreases hi - lo,
        {
            let mid: usize = lo + (hi - lo) / 2;
            assert(self.keys@[mid as int].model() == order[mid as int]);
            if self.keys[mid].precedes(key) {
                assert forall|j: int| 0 <= j < mid + 1 implies K::before(
                    #[trigger] order[j],
                    key.model(),
                ) by {
                    if j < mid {
                        K::before_is_transitive(order[j], order[mid as int], key.model());
                    }
                }
                lo = mid + 1;
            } else {
                assert forall|j: int| mid <= j < order.len() implies !K::before(
                    #[trigger] order[j],
                    key.model(),
                ) by {
                    if mid < j && K::before(order[j], key.model()) {
                        K::before_is_transitive(order[mid as int], order[j], key.model());
                    }
                }
                hi = mid;
            }
        }
        let found = lo < self.keys.len() && !key.precedes(&self.keys[lo]);
        proof {
            assert(lo < order.len() ==> self.keys@[lo as int].model() == order[lo as int]);
            if found {
                K::before_is_total(order[lo as int], key.model());
                assert(order.contains(key.model()));
            } else {
                if order.contains(key.model()) {
                    let j = choose|j: int| 0 <= j < order.len() && order[j] == key.model();
                    K::before_is_irreflexive(key.model());
                    assert(lo <= j);
                    assert(K::before(key.model(), order[lo as int]));
                    if lo < j {
                        K::before_is_transitive(key.model(), order[lo as int], order[j]);
                    }
                }
                assert forall|j: int| lo <= j < order.len() implies K::before(
                    key.model(),
                    #[trigger] order[j],
                ) by {
                    if lo < j {
                        K::before_is_transitive(key.model(), order[lo as int], order[j]);
                    }
                }
            }
        }
        (lo, found)
    }

    /// The value under `key`, if there is one.
    pub fn get(&self, key: &K) -> (r: Option<&V>)
        requires
            self.wf(),
        ensures
            r is Some == self@.dom().contains(key.model()),
            r matches Some(v) ==> *v == self@[key.model()],
    {
        let place = self.place_of(key);
        proof {
            self.lemma_domain();
        }
        if place.1 {
            Some(&self.values[place.0])
        } else {
            None
        }
    }

    /// Whether the map holds `key`.
    pub fn contains_key(&self, key: &K) -> (r: bool)
        requires
            self.wf(),
        ensures
            r == self@.dom().contains(key.model()),
    {
        self.place_of(key).1
    }

    /// Puts `value` under `key` and hands back what stood there before.
    pub fn insert(&mut self, key: K, value: V) -> (r: Option<V>)
        requires
            old(self).wf(),
        ensures
            final(self).wf(),
            final(self)@ == old(self)@.insert(key.model(), value),
            r is Some == old(self)@.dom().contains(key.model()),
            r matches Some(v) ==> v == old(self)@[key.model()],
    {
        let place = self.place_of(&key);
        let at: usize = place.0;
        let ghost before = *self;
        proof {
            before.lemma_domain();
        }
        if place.1 {
            let mut value = value;
            let ghost fresh = value;
            std::mem::swap(&mut self.values[at], &mut value);
            proof {
                assert(self.order() == before.order());
                assert(self.in_order() =~= before.in_order().update(at as int, fresh));
                self.lemma_domain();
                let want = before@.insert(key.model(), fresh);
                assert(self@.dom() =~= want.dom());
                assert forall|k: K::Model| self@.dom().contains(k) implies self@[k] == want[k] by {
                    let i = before.order().index_of(k);
                    assert(before.order()[i] == k);
                    assert(before@[before.order()[i]] == before.in_order()[i]);
                    assert(self@[self.order()[i]] == self.in_order()[i]);
                    if i != at {
                        lemma_ascending_unique::<K>(before.order(), i);
                        lemma_ascending_unique::<K>(before.order(), at as int);
                    }
                }
                assert(self@ =~= want);
            }
            Some(value)
        } else {
            let ghost model = key.model();
            self.keys.insert(at, key);
            self.values.insert(at, value);
            proof {
                let o = before.order();
                let n = self.order();
                assert(n =~= o.insert(at as int, model));
                assert(self.in_order() =~= before.in_order().insert(at as int, value));
                assert forall|i: int, j: int| 0 <= i < j < n.len() implies K::before(
                    #[trigger] n[i],
                    #[trigger] n[j],
                ) by {
                    if j < at {
                        assert(K::before(o[i], o[j]));
                    } else if j == at {
                        assert(n[i] == o[i]);
                    } else if i < at {
                        assert(K::before(o[i], o[j - 1]));
                    } else if i == at {
                        assert(n[j] == o[j - 1]);
                    } else {
                        assert(K::before(o[i - 1], o[j - 1]));
                    }
                }
                self.lemma_domain();
                let want = before@.insert(model, value);
                assert forall|k: K::Model| self@.dom().contains(k) == want.dom().contains(k) by {
                    if self@.dom().contains(k) {
                        let i = choose|i: int| 0 <= i < n.len() && n[i] == k;
                        if i < at {
                            assert(o[i] == k);
                        } else if i > at {
                            assert(o[i - 1] == k);
                        }
                    }
                    if before@.dom().contains(k) {
                        let i = choose|i: int| 0 <= i < o.len() && o[i] == k;
                        if i < at {
                            assert(n[i] == k);
                        } else {
                            assert(n[i + 1] == k);
                        }
                    }
                    assert(n[at as int] == model);
                }
                assert(self@.dom() =~= want.dom());
                assert forall|k: K::Model| self@.dom().contains(k) implies self@[k] == want[k] by {
                    let i = n.index_of(k);
                    assert(n[i] == k);
                    assert(self@[n[i]] == self.in_order()[i]);
                    if i < at {
                        assert(before@[o[i]] == before.in_order()[i]);
                    } else if i > at {
                        assert(before@[o[i - 1]] == before.in_order()[i - 1]);
                    }
                    if i != at && k == model {
                        lemma_ascending_unique::<K>(n, i);
                        lemma_ascending_unique::<K>(n, at as int);
                    }
                }
                assert(self@ =~= want);
            }
            None
        }
    }

    /// Takes `key` out of the map and hands back what stood under it.
    pub fn remove(&mut self, key: &K) -> (r: Option<V>)
        requires
            old(self).wf(),
        ensures
            final(self).wf(),
            final(self)@ == old(self)@.remove(key.model()),
            r is Some == old(self)@.dom().contains(key.model()),
            r matches Some(v) ==> v == old(self)@[key.model()],
    {
        let place = self.place_of(key);
        let at: usize = place.0;
        let ghost before = *self;
        proof {
            before.lemma_domain();
        }
        if place.1 {
            let _ = self.keys.remove(at);
            let value = self.values.remove(at);
            proof {
                self.lemma_after_removal(before, at as int);
            }
            Some(value)
        } else {
            assert(self@ =~= before@.remove(key.model()));
            None
        }
    }

    /// Takes the first key of the ascending walk out of the map.
    pub fn pop_first(&mut self) -> (r: Option<(K, V)>)
        requires
            old(self).wf(),
        ensures
            final(self).wf(),
            r is None == (old(self).order().len() == 0),
            r is None ==> final(self)@ == old(self)@,
            r matches Some(p) ==> {
                &&& p.0.model() == old(self).order()[0]
                &&& p.1 == old(self)@[old(self).order()[0]]
                &&& final(self)@ == old(self)@.remove(old(self).order()[0])
                &&& final(self).order() == old(self).order().drop_first()
            },
    {
        if self.keys.len() == 0 {
            assert(self.order().len() == 0);
            return None;
        }
        let ghost before = *self;
        proof {
            before.lemma_domain();
            assert(before.keys@[0].model() == before.order()[0]);
        }
        let key = self.keys.remove(0);
        let value = self.values.remove(0);
        proof {
            self.lemma_after_removal(before, 0);
            assert(self.order() =~= before.order().drop_first());
        }
        Some((key, value))
    }

    proof fn lemma_after_removal(&self, before: Self, at: int)
        requires
            before.wf(),
            0 <= at < before.order().len(),
            self.keys@ == before.keys@.remove(at),
            self.values@ == before.values@.remove(at),
        ensures
            self.wf(),
            self@ == before@.remove(before.order()[at]),
    {
        let o = before.order();
        let n = self.order();
        before.lemma_domain();
        assert(n =~= o.remove(at));
        assert forall|i: int, j: int| 0 <= i < j < n.len() implies K::before(
            #[trigger] n[i],
            #[trigger] n[j],
        ) by {
            let a = if i < at { i } else { i + 1 };
            let b = if j < at { j } else { j + 1 };
            assert(K::before(o[a], o[b]));
        }
        self.lemma_domain();
        let want = before@.remove(o[at]);
        assert forall|k: K::Model| self@.dom().contains(k) == want.dom().contains(k) by {
            if self@.dom().contains(k) {
                let i = choose|i: int| 0 <= i < n.len() && n[i] == k;
                let a = if i < at { i } else { i + 1 };
                assert(o[a] == k);
                if k == o[at] {
                    lemma_ascending_unique::<K>(o, a);
                    lemma_ascending_unique::<K>(o, at);
                }
            }
            if want.dom().contains(k) {
                let i = choose|i: int| 0 <= i < o.len() && o[i] == k;
                if i < at {
                    assert(n[i] == k);
                } else {
                    assert(n[i - 1] == k);
                }
            }
        }
        assert(self@.dom() =~= want.dom());
        assert forall|k: K::Model| self@.dom().contains(k) implies self@[k] == want[k] by {
            let i = n.index_of(k);
            assert(n[i] == k);
            assert(self@[n[i]] == self.in_order()[i]);
            let a = if i < at { i } else { i + 1 };
            assert(before@[o[a]] == before.in_order()[a]);
        }
        assert(self@ =~= want);
    }
}

/// A set whose members are walked in ascending order.
pub struct SortedSet<K> {
    map: SortedMap<K, ()>,
}

impl<K: OrderedKey> SortedSet<K> {
    /// The member models in the order in which the set is walked.
    pub closed spec fn order(&self) -> Seq<K::Model> {
        self.map.order()
    }

    pub closed spec fn wf(&self) -> bool {
        self.map.wf()
    }
}

impl<K: OrderedKey> View for SortedSet<K> {
    type V = Set<K::Model>;

    closed spec fn view(&self) -> Set<K::Model> {
        self.map@.dom()
    }
}

impl<K: OrderedKey> SortedSet<K> {
    pub proof fn lemma_members(&self)
        requires
            self.wf(),
        ensures
            ascending::<K>(self.order()),
            self@ == self.order().to_set(),
            self@.finite(),
            self@.len() == self.order().len(),
    {
        self.map.lemma_domain();
    }

    /// The set that holds nothing.
    pub fn new() -> (r: Self)
        ensures
            r.wf(),
            r@ == Set::<K::Model>::empty(),
    {
        let r = SortedSet { map: SortedMap::new() };
        assert(r@ =~= Set::<K::Model>::empty());
        r
    }

    /// How many members the set has.
    pub fn len(&self) -> (r: usize)
        requires
            self.wf(),
        ensures
            r == self@.len(),
            r == self.order().len(),
    {
        self.map.len()
    }

    /// Whether `key` is a member.
    pub fn contains(&self, key: &K) -> (r: bool)
        requires
            self.wf(),
        ensures
            r == self@.contains(key.model()),
    {
        self.map.contains_key(key)
    }

    /// The member at place `i` of the ascending walk.
    pub fn at(&self, i: usize) -> (r: &K)
        requires
            self.wf(),
            i < self.order().len(),
        ensures
            r.model() == self.order()[i as int],
            self@.contains(r.model()),
    {
        self.map.key_at(i)
    }

    /// Adds `key`, and says whether it was new.
    pub fn insert(&mut self, key: K) -> (r: bool)
        requires
            old(self).wf(),
        ensures
            final(self).wf(),
            final(self)@ == old(self)@.insert(key.model()),
            r == !old(self)@.contains(key.model()),
    {
        let prior = self.map.insert(key, ());
        assert(self@ =~= old(self)@.insert(key.model()));
        prior.is_none()
    }

    /// Takes `key` out, and says whether it was a member.
    pub fn remove(&mut self, key: &K) -> (r: bool)
        requires
            old(self).wf(),
        ensures
            final(self).wf(),
            final(self)@ == old(self)@.remove(key.model()),
            r == old(self)@.contains(key.model()),
    {
        let prior = self.map.remove(key);
        assert(self@ =~= old(self)@.remove(key.model()));
        prior.is_some()
    }
}

/// The characters of each string, in order.
pub open spec fn texts(v: Seq<String>) -> Seq<Seq<char>> {
    v.map_values(|s: String| s@)
}

impl SortedSet<String> {
    /// A set with the same members.
    pub fn copy(&self) -> (r: Self)
        requires
            self.wf(),
        ensures
            r.wf(),
            r@ == self@,
    {
        let mut out: SortedSet<String> = SortedSet::new();
        proof {
            self.lemma_members();
        }
        let n: usize = self.len();
        let mut i: usize = 0;
        while i < n
            invariant
                self.wf(),
                out.wf(),
                i <= n == self.order().len(),
                out@ == self.order().take(i as int).to_set(),
            decreases n - i,
        {
            let _ = out.insert(self.at(i).clone());
            proof {
                lemma_to_set_step(self.order(), i as int);
            }
            i += 1;
        }
        assert(self.order().take(n as int) =~= self.order());
        out
    }

    /// Adds every member of `other`.
    pub fn extend(&mut self, other: &SortedSet<String>)
        requires
            old(self).wf(),
            other.wf(),
        ensures
            final(self).wf(),
            final(self)@ == old(self)@.union(other@),
    {
        let n: usize = other.len();
        let mut i: usize = 0;
        proof {
            other.lemma_members();
            assert(self@ =~= old(self)@.union(other.order().take(0).to_set()));
        }
        while i < n
            invariant
                self.wf(),
                other.wf(),
                i <= n == other.order().len(),
                self@ == old(self)@.union(other.order().take(i as int).to_set()),
            decreases n - i,
        {
            let _ = self.insert(other.at(i).clone());
            proof {
                lemma_to_set_step(other.order(), i as int);
                assert(self@ =~= old(self)@.union(other.order().take(i + 1).to_set()));
            }
            i += 1;
        }
        assert(other.order().take(n as int) =~= other.order());
    }

    /// The members in ascending order.
    pub fn to_strings(&self) -> (r: Vec<String>)
        requires
            self.wf(),
        ensures
            texts(r@) == self.order(),
            ascending::<String>(texts(r@)),
            texts(r@).to_set() == self@,
    {
        let mut out: Vec<String> = Vec::new();
        let n: usize = self.len();
        let mut i: usize = 0;
        while i < n
            invariant
                self.wf(),
                i <= n == self.order().len(),
                texts(out@) == self.order().take(i as int),
            decreases n - i,
        {
            let s = self.at(i).clone();
            out.push(s);
            proof {
                assert(texts(out@) =~= self.order().take(i as int).push(s@));
                assert(self.order().take(i + 1) =~= self.order().take(i as int).push(s@));
            }
            i += 1;
        }
        proof {
            self.lemma_members();
            assert(self.order().take(n as int) =~= self.order());
        }
        out
    }

    /// The set of the strings in `items`.
    pub fn from_strings(items: &Vec<String>) -> (r: Self)
        ensures
            r.wf(),
            r@ == texts(items@).to_set(),
    {
        let mut out: SortedSet<String> = SortedSet::new();
        let mut i: usize = 0;
        assert(texts(items@).take(0).to_set() =~= Set::<Seq<char>>::empty());
        while i < items.len()
            invariant
                out.wf(),
                i <= items@.len(),
                out@ == texts(items@).take(i as int).to_set(),
            decreases items@.len() - i,
        {
            let _ = out.insert(items[i].clone());
            proof {
                lemma_to_set_step(texts(items@), i as int);
            }
            i += 1;
        }
        assert(texts(items@).take(items@.len() as int) =~= texts(items@));
        out
    }
}

/// One more element of a prefix is one more member of its set.
pub proof fn lemma_to_set_step<A>(s: Seq<A>, i: int)
    requires
        0 <= i < s.len(),
    ensures
        s.take(i + 1).to_set() == s.take(i).to_set().insert(s[i]),
{
    let short = s.take(i);
    let long = s.take(i + 1);
    let a = long.to_set();
    let b = short.to_set().insert(s[i]);
    assert forall|x: A| a.contains(x) == b.contains(x) by {
        if a.contains(x) {
            let j = choose|j: int| 0 <= j < long.len() && long[j] == x;
            if j < i {
                assert(short[j] == x);
            }
        }
        if short.contains(x) {
            let j = choose|j: int| 0 <= j < short.len() && short[j] == x;
            assert(long[j] == x);
        }
        assert(long[i] == s[i]);
    }
    assert(a =~= b);
}

impl<V> SortedMap<String, V> {
    /// The keys in ascending order.
    pub fn keys(&self) -> (r: Vec<String>)
        requires
            self.wf(),
        ensures
            texts(r@) == self.order(),
            ascending::<String>(texts(r@)),
            texts(r@).to_set() == self@.dom(),
    {
        let mut out: Vec<String> = Vec::new();
        let n: usize = self.len();
        let mut i: usize = 0;
        while i < n
            invariant
                self.wf(),
                i <= n == self.order().len(),
                texts(out@) == self.order().take(i as int),
            decreases n - i,
        {
            let s = self.key_at(i).clone();
            out.push(s);
            proof {
                assert(texts(out@) =~= self.order().take(i as int).push(s@));
                assert(self.order().take(i + 1) =~= self.order().take(i as int).push(s@));
            }
            i += 1;
        }
        proof {
            self.lemma_domain();
            assert(self.order().take(n as int) =~= self.order());
        }
        out
    }
}

} // verus!
