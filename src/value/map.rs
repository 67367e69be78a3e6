//! [`ValueMap`]: string keys to values, kept in key order.

use super::Value;
use vstd::prelude::*;
use vstd::utf8::{encode_utf8, encode_utf8_decode_utf8};

verus! {

/// `a` sorts before `b` in lexicographic byte order (the order of `str`).
pub open spec fn bytes_lt(a: Seq<u8>, b: Seq<u8>) -> bool {
    exists|i: int|
        #![trigger a.subrange(0, i), b.subrange(0, i)]
        0 <= i <= a.len() && i <= b.len() && a.subrange(0, i) == b.subrange(0, i) && ((i
            == a.len() && i < b.len()) || (i < a.len() && i < b.len() && a[i] < b[i]))
}

/// The UTF-8 bytes of a key; keys are ordered by them.
pub open spec fn key_bytes(k: Seq<char>) -> Seq<u8> {
    encode_utf8(k)
}

/// The byte order is a strict order.
pub proof fn lemma_bytes_lt_order(a: Seq<u8>, b: Seq<u8>, c: Seq<u8>)
    ensures
        !bytes_lt(a, a),
        bytes_lt(a, b) && bytes_lt(b, c) ==> bytes_lt(a, c),
{
    if bytes_lt(a, b) && bytes_lt(b, c) {
        let i = choose|i: int|
            #![trigger a.subrange(0, i), b.subrange(0, i)]
            0 <= i <= a.len() && i <= b.len() && a.subrange(0, i) == b.subrange(0, i) && ((i
                == a.len() && i < b.len()) || (i < a.len() && i < b.len() && a[i] < b[i]));
        let j = choose|j: int|
            #![trigger b.subrange(0, j), c.subrange(0, j)]
            0 <= j <= b.len() && j <= c.len() && b.subrange(0, j) == c.subrange(0, j) && ((j
                == b.len() && j < c.len()) || (j < b.len() && j < c.len() && b[j] < c[j]));
        let k = if i < j {
            i
        } else {
            j
        };
        assert(a.subrange(0, k) =~= c.subrange(0, k)) by {
            assert forall|t: int| 0 <= t < k implies a[t] == c[t] by {
                assert(a.subrange(0, i)[t] == b.subrange(0, i)[t]);
                assert(b.subrange(0, j)[t] == c.subrange(0, j)[t]);
            }
        }
        if i < j {
            assert(b.subrange(0, j)[i] == c.subrange(0, j)[i]);
        } else if j < i {
            assert(a.subrange(0, i)[j] == b.subrange(0, i)[j]);
        }
    }
    if bytes_lt(a, a) {
        let i = choose|i: int|
            #![trigger a.subrange(0, i), a.subrange(0, i)]
            0 <= i <= a.len() && i <= a.len() && a.subrange(0, i) == a.subrange(0, i) && ((i
                == a.len() && i < a.len()) || (i < a.len() && i < a.len() && a[i] < a[i]));
    }
}

/// Keys with the same bytes are the same key.
pub proof fn lemma_key_bytes_injective(a: Seq<char>, b: Seq<char>)
    ensures
        key_bytes(a) == key_bytes(b) ==> a == b,
{
    encode_utf8_decode_utf8(a);
    encode_utf8_decode_utf8(b);
}

/// Compares two byte strings in lexicographic order: negative, zero or
/// positive as `a` sorts before, equal to, or after `b`.
pub fn compare_bytes(a: &[u8], b: &[u8]) -> (r: i8)
    ensures
        r == 0 <==> a@ == b@,
        r < 0 <==> bytes_lt(a@, b@),
        r > 0 <==> bytes_lt(b@, a@),
{
    let mut i: usize = 0;
    while i < a.len() && i < b.len() && a[i] == b[i]
        invariant
            0 <= i <= a@.len(),
            i <= b@.len(),
            a@.subrange(0, i as int) == b@.subrange(0, i as int),
        decreases a@.len() - i,
    {
        assert(a@.subrange(0, i + 1) =~= a@.subrange(0, i as int).push(a@[i as int]));
        assert(b@.subrange(0, i + 1) =~= b@.subrange(0, i as int).push(b@[i as int]));
        i = i + 1;
    }
    proof {
        lemma_bytes_lt_order(a@, a@, a@);
        lemma_bytes_lt_order(b@, b@, b@);
    }
    let r: i8 = if i == a.len() && i == b.len() {
        assert(a@ =~= a@.subrange(0, i as int));
        assert(b@ =~= b@.subrange(0, i as int));
        0
    } else if i == a.len() || (i < b.len() && a[i] < b[i]) {
        assert(bytes_lt(a@, b@)) by {
            assert(a@.subrange(0, i as int) == b@.subrange(0, i as int));
        }
        -1
    } else {
        assert(bytes_lt(b@, a@)) by {
            assert(b@.subrange(0, i as int) == a@.subrange(0, i as int));
        }
        1
    };
    proof {
        if bytes_lt(a@, b@) && bytes_lt(b@, a@) {
            lemma_bytes_lt_order(a@, b@, a@);
        }
    }
    r
}

/// Keys in increasing byte order (and so without repeats).
pub open spec fn keys_in_order(keys: Seq<Seq<char>>) -> bool {
    forall|i: int, j: int|
        0 <= i < j < keys.len() ==> bytes_lt(#[trigger] key_bytes(keys[i]), #[trigger] key_bytes(keys[j]))
}

/// A map from string keys to values, with unique keys kept in increasing
/// byte order (the order of `str`), so iteration follows key order.
///
/// The entries live in two parallel vectors rather than a std `BTreeMap`:
/// vstd specifies `BTreeMap` only for key types whose ordering Verus knows
/// to be lawful, which `String`'s is not, and gives no specification to
/// `get_mut` or `entry`, so nothing about a `BTreeMap<String, Value>` could
/// be proved.
#[derive(Debug)]
pub struct ValueMap {
    keys: Vec<String>,
    vals: Vec<Value>,
}

impl ValueMap {
    /// The keys are in increasing byte order and there is one value per
    /// key; every map that exists satisfies this.
    #[verifier::type_invariant]
    pub closed spec fn wf(self) -> bool {
        &&& self.keys@.len() == self.vals@.len()
        &&& forall|i: int, j: int|
            0 <= i < j < self.keys@.len() ==> bytes_lt(
                #[trigger] key_bytes(self.keys@[i]@),
                #[trigger] key_bytes(self.keys@[j]@),
            )
    }

    /// The keys in iteration order.
    pub closed spec fn keys(self) -> Seq<Seq<char>> {
        self.keys@.map_values(|k: String| k@)
    }

    /// The values in iteration order.
    pub closed spec fn values(self) -> Seq<Value> {
        self.vals@
    }

    /// The two maps have the same keys in the same order, and equal values
    /// under each (as [`Value::deep_eq`] compares them).
    pub open spec fn deep_eq(self, other: ValueMap) -> bool
        decreases self,
    {
        &&& self.keys() == other.keys()
        &&& self.values().len() == other.values().len()
        &&& forall|i: int|
            0 <= i < self.values().len() ==> (#[trigger] self.values()[i]).deep_eq(other.values()[i])
    }

    /// The value under a key.
    pub open spec fn spec_get(self, k: Seq<char>) -> Option<Value> {
        if self.keys().contains(k) {
            Some(self.values()[self.keys().index_of(k)])
        } else {
            None
        }
    }

    /// Keys are unique and in increasing byte order, and there are as many
    /// values as keys.
    pub proof fn lemma_keys_in_order(&self)
        requires
            self.wf(),
        ensures
            self.keys().len() == self.values().len(),
            forall|i: int, j: int|
                0 <= i < j < self.keys().len() ==> bytes_lt(
                    #[trigger] key_bytes(self.keys()[i]),
                    #[trigger] key_bytes(self.keys()[j]),
                ),
            self.keys().no_duplicates(),
    {
        assert forall|i: int, j: int|
            0 <= i < j < self.keys().len() implies bytes_lt(
            #[trigger] key_bytes(self.keys()[i]),
            #[trigger] key_bytes(self.keys()[j]),
        ) by {
            assert(key_bytes(self.keys@[i]@) == key_bytes(self.keys()[i]));
            assert(key_bytes(self.keys@[j]@) == key_bytes(self.keys()[j]));
        }
        assert forall|i: int, j: int|
            0 <= i < self.keys().len() && 0 <= j < self.keys().len() && i != j implies self.keys()[i]
            != self.keys()[j] by {
            lemma_bytes_lt_order(key_bytes(self.keys()[i]), key_bytes(self.keys()[i]), key_bytes(self.keys()[i]));
            if i < j {
                assert(bytes_lt(key_bytes(self.keys()[i]), key_bytes(self.keys()[j])));
            } else {
                assert(bytes_lt(key_bytes(self.keys()[j]), key_bytes(self.keys()[i])));
            }
        }
    }

    /// An empty map.
    pub fn new() -> (r: ValueMap)
        ensures
            r.keys() == Seq::<Seq<char>>::empty(),
            r.values() == Seq::<Value>::empty(),
    {
        let r = ValueMap { keys: Vec::new(), vals: Vec::new() };
        assert(r.keys() =~= Seq::<Seq<char>>::empty());
        assert(r.values() =~= Seq::<Value>::empty());
        r
    }

    /// The number of entries.
    pub fn len(&self) -> (r: usize)
        ensures
            r == self.keys().len(),
    {
        proof {
            use_type_invariant(self);
        }
        self.keys.len()
    }

    /// The map has no entries.
    pub fn is_empty(&self) -> (r: bool)
        ensures
            r == (self.keys().len() == 0),
    {
        self.keys.len() == 0
    }

    /// Where `k` stands: its position if present (`true`), else the position
    /// where it would be inserted to keep the keys in order (`false`).
    fn search(&self, k: &str) -> (r: (bool, usize))
        ensures
            r.1 <= self.keys().len(),
            r.0 ==> r.1 < self.keys().len() && self.keys()[r.1 as int] == k@ && self.keys().index_of(k@) == r.1,
            r.0 == self.keys().contains(k@),
            !r.0 ==> forall|i: int|
                0 <= i < r.1 ==> bytes_lt(#[trigger] key_bytes(self.keys()[i]), key_bytes(k@)),
            !r.0 ==> forall|i: int|
                r.1 <= i < self.keys().len() ==> bytes_lt(key_bytes(k@), #[trigger] key_bytes(self.keys()[i])),
    {
        proof {
            use_type_invariant(self);
            self.lemma_keys_in_order();
            lemma_bytes_lt_order(key_bytes(k@), key_bytes(k@), key_bytes(k@));
        }
        let kb = k.as_bytes();
        let mut i: usize = 0;
        while i < self.keys.len()
            invariant
                i <= self.keys@.len(),
                kb@ == key_bytes(k@),
                self.keys().len() == self.keys@.len(),
                forall|j: int| 0 <= j < i ==> bytes_lt(#[trigger] key_bytes(self.keys()[j]), key_bytes(k@)),
            decreases self.keys@.len() - i,
        {
            assert(self.keys()[i as int] == self.keys@[i as int]@);
            proof {
                use_type_invariant(self);
                self.lemma_keys_in_order();
            }
            let key_i = self.keys[i].as_str().as_bytes();
            assert(key_i@ == key_bytes(self.keys()[i as int]));
            let c = compare_bytes(key_i, kb);
            if c == 0 {
                proof {
                    lemma_key_bytes_injective(self.keys()[i as int], k@);
                    assert(self.keys().contains(k@));
                    let j = self.keys().index_of(k@);
                    assert(self.keys()[j] == k@);
                    if j != i {
                        assert(self.keys()[j] != self.keys()[i as int]);
                    }
                }
                return (true, i);
            }
            if c > 0 {
                proof {
                    assert forall|j: int| i <= j < self.keys().len() implies bytes_lt(
                        key_bytes(k@),
                        #[trigger] key_bytes(self.keys()[j]),
                    ) by {
                        assert(bytes_lt(key_bytes(k@), key_i@));
                        if j > i {
                            assert(bytes_lt(key_bytes(self.keys()[i as int]), key_bytes(self.keys()[j])));
                            lemma_bytes_lt_order(key_bytes(k@), key_bytes(self.keys()[i as int]), key_bytes(self.keys()[j]));
                        }
                    }
                    if self.keys().contains(k@) {
                        let j = self.keys().index_of(k@);
                        if j < i {
                            assert(bytes_lt(key_bytes(self.keys()[j]), key_bytes(k@)));
                        } else {
                            assert(bytes_lt(key_bytes(k@), key_bytes(self.keys()[j])));
                        }
                    }
                }
                return (false, i);
            }
            i = i + 1;
        }
        proof {
            lemma_bytes_lt_order(key_bytes(k@), key_bytes(k@), key_bytes(k@));
            if self.keys().contains(k@) {
                let j = self.keys().index_of(k@);
                assert(bytes_lt(key_bytes(self.keys()[j]), key_bytes(k@)));
            }
        }
        (false, i)
    }

    /// The value under `k`, if present.
    pub fn get(&self, k: &str) -> (r: Option<&Value>)
        ensures
            r is Some == self.keys().contains(k@),
            r is Some ==> self.spec_get(k@) == Some(*r.unwrap()),
    {
        proof {
            use_type_invariant(self);
        }
        let (found, i) = self.search(k);
        if found {
            Some(&self.vals[i])
        } else {
            None
        }
    }

    /// A mutable reference to the value under `k`, if present. The keys stay
    /// as they are.
    pub fn get_mut(&mut self, k: &str) -> (r: Option<&mut Value>)
        ensures
            r is Some == old(self).keys().contains(k@),
            r is Some ==> {
                &&& old(self).spec_get(k@) == Some(*r.unwrap())
                &&& final(self).keys() == old(self).keys()
                &&& final(self).values() == old(self).values().update(
                    old(self).keys().index_of(k@),
                    *final(r.unwrap()),
                )
            },
            r is None ==> *final(self) == *old(self),
            keys_in_order(final(self).keys()),
    {
        proof {
            use_type_invariant(&*self);
            self.lemma_keys_in_order();
        }
        let (found, i) = self.search(k);
        if found {
            Some(&mut self.vals[i])
        } else {
            None
        }
    }

    /// The entry at position `i` in iteration order.
    pub fn entry(&self, i: usize) -> (r: (&String, &Value))
        requires
            i < self.keys().len(),
        ensures
            r.0@ == self.keys()[i as int],
            *r.1 == self.values()[i as int],
    {
        proof {
            use_type_invariant(self);
        }
        (&self.keys[i], &self.vals[i])
    }

    /// Inserts `k` with `v` at position `p`, where the keys before `p` sort
    /// before `k` and the others after it.
    fn insert_at(&mut self, p: usize, k: String, v: Value)
        requires
            p <= old(self).keys().len(),
            forall|i: int|
                0 <= i < p ==> bytes_lt(#[trigger] key_bytes(old(self).keys()[i]), key_bytes(k@)),
            forall|i: int|
                p <= i < old(self).keys().len() ==> bytes_lt(
                    key_bytes(k@),
                    #[trigger] key_bytes(old(self).keys()[i]),
                ),
        ensures
            final(self).keys() == old(self).keys().insert(p as int, k@),
            final(self).values() == old(self).values().insert(p as int, v),
    {
        proof {
            use_type_invariant(&*self);
            self.lemma_keys_in_order();
        }
        let ghost old_keys = self.keys();
        let ghost kk = k@;
        let mut taken = ValueMap { keys: Vec::new(), vals: Vec::new() };
        core::mem::swap(self, &mut taken);
        let ValueMap { mut keys, mut vals } = taken;
        keys.insert(p, k);
        vals.insert(p, v);
        let ghost new_keys = keys@.map_values(|s: String| s@);
        assert(new_keys =~= old_keys.insert(p as int, kk));
        assert forall|i: int, j: int|
            0 <= i < j < keys@.len() implies bytes_lt(
            #[trigger] key_bytes(keys@[i]@),
            #[trigger] key_bytes(keys@[j]@),
        ) by {
            assert(keys@[i]@ == new_keys[i]);
            assert(keys@[j]@ == new_keys[j]);
            if j < p {
                assert(new_keys[i] == old_keys[i] && new_keys[j] == old_keys[j]);
            } else if j == p {
                assert(new_keys[i] == old_keys[i]);
            } else if i > p {
                assert(new_keys[i] == old_keys[i - 1] && new_keys[j] == old_keys[j - 1]);
            } else if i == p {
                assert(new_keys[j] == old_keys[j - 1]);
            } else {
                assert(new_keys[i] == old_keys[i] && new_keys[j] == old_keys[j - 1]);
                lemma_bytes_lt_order(key_bytes(old_keys[i]), key_bytes(kk), key_bytes(old_keys[j - 1]));
            }
        }
        *self = ValueMap { keys, vals };
    }

    /// A mutable reference to the value under `k`. An absent key is first
    /// inserted, in key order, with [`Value::Null`].
    pub fn get_or_insert_null(&mut self, k: &str) -> (r: &mut Value)
        ensures
            old(self).keys().contains(k@) ==> {
                &&& Some(*r) == old(self).spec_get(k@)
                &&& final(self).keys() == old(self).keys()
                &&& final(self).values() == old(self).values().update(
                    old(self).keys().index_of(k@),
                    *final(r),
                )
            },
            !old(self).keys().contains(k@) ==> {
                &&& *r == Value::Null
                &&& exists|p: int|
                    0 <= p <= old(self).keys().len() && final(self).keys() == old(self).keys().insert(
                        p,
                        k@,
                    ) && final(self).values() == old(self).values().insert(p, *final(r))
            },
            keys_in_order(final(self).keys()),
    {
        proof {
            use_type_invariant(&*self);
        }
        let (found, i) = self.search(k);
        if !found {
            self.insert_at(i, k.to_owned(), Value::Null);
        }
        proof {
            use_type_invariant(&*self);
            self.lemma_keys_in_order();
        }
        &mut self.vals[i]
    }

    /// Binds `k` to `v`, returning the value it replaces, if any.
    pub fn insert(&mut self, k: String, v: Value) -> (r: Option<Value>)
        ensures
            r == old(self).spec_get(k@),
            final(self).spec_get(k@) == Some(v),
            forall|other: Seq<char>|
                other != k@ ==> #[trigger] final(self).spec_get(other) == old(self).spec_get(other),
            keys_in_order(final(self).keys()),
    {
        proof {
            use_type_invariant(&*self);
        }
        let ghost old_map = *self;
        let ghost kk = k@;
        let ghost vv = v;
        let (found, i) = self.search(k.as_str());
        proof {
            old_map.lemma_keys_in_order();
        }
        if found {
            let mut replaced = v;
            core::mem::swap(&mut self.vals[i], &mut replaced);
            proof {
                assert(self.keys() == old_map.keys());
                assert(self.values() == old_map.values().update(i as int, vv));
                assert forall|other: Seq<char>|
                    other != kk implies #[trigger] self.spec_get(other) == old_map.spec_get(other) by {
                    if self.keys().contains(other) {
                        let j = self.keys().index_of(other);
                        assert(self.keys()[j] == other);
                        assert(j != i);
                    }
                }
            }
            Some(replaced)
        } else {
            self.insert_at(i, k, v);
            proof {
                use_type_invariant(&*self);
                self.lemma_keys_in_order();
                let ks = self.keys();
                let vs = self.values();
                assert(ks[i as int] == kk);
                assert(ks.contains(kk));
                let q = ks.index_of(kk);
                assert(ks[q] == kk);
                if q != i {
                    assert(ks[q] != ks[i as int]);
                }
                assert forall|other: Seq<char>|
                    other != kk implies #[trigger] self.spec_get(other) == old_map.spec_get(other) by {
                    if old_map.keys().contains(other) {
                        let j = old_map.keys().index_of(other);
                        assert(old_map.keys()[j] == other);
                        let j2 = if j < i { j } else { j + 1 };
                        assert(ks[j2] == other);
                        assert(ks.contains(other));
                        let q2 = ks.index_of(other);
                        assert(ks[q2] == other);
                        if q2 != j2 {
                            assert(ks[q2] != ks[j2]);
                        }
                        assert(vs[j2] == old_map.values()[j]);
                    }
                    if ks.contains(other) {
                        let q2 = ks.index_of(other);
                        assert(ks[q2] == other);
                        assert(q2 != i);
                        let j = if q2 < i { q2 } else { q2 - 1 };
                        assert(old_map.keys()[j] == other);
                        assert(old_map.keys().contains(other));
                    }
                }
            }
            None
        }
    }

    /// The key is present.
    pub fn contains_key(&self, k: &str) -> (r: bool)
        ensures
            r == self.keys().contains(k@),
    {
        self.search(k).0
    }

    /// The key at position `i` in iteration order.
    pub fn key_at(&self, i: usize) -> (r: &String)
        requires
            i < self.keys().len(),
        ensures
            r@ == self.keys()[i as int],
    {
        &self.keys[i]
    }

    /// The keys in iteration order.
    pub fn key_list(&self) -> (r: Vec<String>)
        ensures
            r@.len() == self.keys().len(),
            forall|t: int| 0 <= t < r@.len() ==> #[trigger] r@[t]@ == self.keys()[t],
    {
        let mut out: Vec<String> = Vec::new();
        let mut i: usize = 0;
        while i < self.keys.len()
            invariant
                i <= self.keys@.len(),
                self.keys().len() == self.keys@.len(),
                out@.len() == i,
                forall|t: int| 0 <= t < i ==> #[trigger] out@[t]@ == self.keys()[t],
            decreases self.keys@.len() - i,
        {
            let c = self.keys[i].clone();
            assert(c@ == self.keys()[i as int]);
            out.push(c);
            i = i + 1;
        }
        out
    }

    /// Removes `k`, returning the value it was bound to, if any. The other
    /// entries keep their keys, values and order.
    pub fn remove(&mut self, k: &str) -> (r: Option<Value>)
        ensures
            r == old(self).spec_get(k@),
            old(self).keys().contains(k@) ==> {
                let p = old(self).keys().index_of(k@);
                &&& final(self).keys() == old(self).keys().remove(p)
                &&& final(self).values() == old(self).values().remove(p)
            },
            !old(self).keys().contains(k@) ==> *final(self) == *old(self),
            !final(self).keys().contains(k@),
            forall|other: Seq<char>|
                other != k@ ==> #[trigger] final(self).spec_get(other) == old(self).spec_get(other),
            keys_in_order(final(self).keys()),
    {
        proof {
            use_type_invariant(&*self);
            self.lemma_keys_in_order();
        }
        let ghost old_map = *self;
        let (found, i) = self.search(k);
        if !found {
            return None;
        }
        let mut taken = ValueMap { keys: Vec::new(), vals: Vec::new() };
        core::mem::swap(self, &mut taken);
        let ValueMap { mut keys, mut vals } = taken;
        let ghost old_keys = old_map.keys();
        keys.remove(i);
        let removed = vals.remove(i);
        let ghost ks = keys@.map_values(|s: String| s@);
        assert(ks =~= old_keys.remove(i as int));
        assert forall|a: int, b: int|
            0 <= a < b < keys@.len() implies bytes_lt(
            #[trigger] key_bytes(keys@[a]@),
            #[trigger] key_bytes(keys@[b]@),
        ) by {
            assert(keys@[a]@ == ks[a] && keys@[b]@ == ks[b]);
            let a2 = if a < i { a } else { a + 1 };
            let b2 = if b < i { b } else { b + 1 };
            assert(ks[a] == old_keys[a2] && ks[b] == old_keys[b2]);
        }
        *self = ValueMap { keys, vals };
        proof {
            use_type_invariant(&*self);
            self.lemma_keys_in_order();
            assert(self.keys() == old_keys.remove(i as int));
            assert(old_keys[i as int] == k@);
            if self.keys().contains(k@) {
                let q = self.keys().index_of(k@);
                assert(self.keys()[q] == k@);
                let q2 = if q < i { q } else { q + 1 };
                assert(old_keys[q2] == k@);
                assert(q2 != i);
            }
            assert forall|other: Seq<char>|
                other != k@ implies #[trigger] self.spec_get(other) == old_map.spec_get(other) by {
                let ks2 = self.keys();
                let vs2 = self.values();
                if old_keys.contains(other) {
                    let j = old_keys.index_of(other);
                    assert(old_keys[j] == other);
                    assert(j != i);
                    let j2 = if j < i { j } else { j - 1 };
                    assert(ks2[j2] == other);
                    assert(ks2.contains(other));
                    let q2 = ks2.index_of(other);
                    assert(ks2[q2] == other);
                    if q2 != j2 {
                        assert(ks2[q2] != ks2[j2]);
                    }
                    assert(vs2[j2] == old_map.values()[j]);
                }
                if ks2.contains(other) {
                    let q2 = ks2.index_of(other);
                    assert(ks2[q2] == other);
                    let j = if q2 < i { q2 } else { q2 + 1 };
                    assert(old_keys[j] == other);
                    assert(old_keys.contains(other));
                }
            }
        }
        Some(removed)
    }

    /// A copy of the map and of every value in it.
    pub fn deep_clone(&self) -> (r: ValueMap)
        ensures
            r.deep_eq(*self),
        decreases self,
    {
        proof {
            use_type_invariant(self);
        }
        let mut keys: Vec<String> = Vec::new();
        let mut vals: Vec<Value> = Vec::new();
        let mut i: usize = 0;
        while i < self.keys.len()
            invariant
                self.wf(),
                i <= self.keys@.len(),
                keys@.len() == i,
                vals@.len() == i,
                forall|j: int| 0 <= j < i ==> (#[trigger] keys@[j])@ == self.keys@[j]@,
                forall|j: int| 0 <= j < i ==> (#[trigger] vals@[j]).deep_eq(self.vals@[j]),
            decreases self.keys@.len() - i,
        {
            proof {
                assert(decreases_to!(*self => (*self).vals));
                assert(decreases_to!(self.vals => self.vals@));
                assert(decreases_to!(self.vals@ => self.vals@[i as int]));
            }
            let k = self.keys[i].clone();
            keys.push(k);
            let v = self.vals[i].deep_clone();
            vals.push(v);
            i = i + 1;
        }
        let ghost ks = keys@.map_values(|s: String| s@);
        assert(ks =~= self.keys());
        assert forall|a: int, b: int|
            0 <= a < b < keys@.len() implies bytes_lt(
            #[trigger] key_bytes(keys@[a]@),
            #[trigger] key_bytes(keys@[b]@),
        ) by {
            assert(keys@[a]@ == self.keys@[a]@ && keys@[b]@ == self.keys@[b]@);
        }
        ValueMap { keys, vals }
    }

    /// Compares two maps, as [`ValueMap::deep_eq`] says.
    pub fn equals(&self, other: &ValueMap) -> (r: bool)
        ensures
            r == self.deep_eq(*other),
        decreases self,
    {
        proof {
            use_type_invariant(self);
            use_type_invariant(other);
        }
        if self.keys.len() != other.keys.len() {
            proof {
                assert(self.keys().len() != other.keys().len());
            }
            return false;
        }
        let mut i: usize = 0;
        while i < self.keys.len()
            invariant
                self.wf(),
                other.wf(),
                self.keys@.len() == other.keys@.len(),
                i <= self.keys@.len(),
                forall|j: int| 0 <= j < i ==> (#[trigger] self.keys@[j])@ == other.keys@[j]@,
                forall|j: int| 0 <= j < i ==> (#[trigger] self.vals@[j]).deep_eq(other.vals@[j]),
            decreases self.keys@.len() - i,
        {
            proof {
                assert(decreases_to!(*self => (*self).vals));
                assert(decreases_to!(self.vals => self.vals@));
                assert(decreases_to!(self.vals@ => self.vals@[i as int]));
            }
            let c = compare_bytes(self.keys[i].as_str().as_bytes(), other.keys[i].as_str().as_bytes());
            if c != 0 {
                proof {
                    assert(self.keys()[i as int] == self.keys@[i as int]@);
                    assert(other.keys()[i as int] == other.keys@[i as int]@);
                }
                return false;
            }
            proof {
                lemma_key_bytes_injective(self.keys@[i as int]@, other.keys@[i as int]@);
            }
            if !self.vals[i].equals(&other.vals[i]) {
                return false;
            }
            i = i + 1;
        }
        proof {
            assert(self.keys() =~= other.keys());
        }
        true
    }
}

impl Clone for ValueMap {
    /// A copy of the map and of every value in it.
    fn clone(&self) -> (r: ValueMap)
        ensures
            r.deep_eq(*self),
    {
        self.deep_clone()
    }
}

impl PartialEq for ValueMap {
    /// Two maps are equal as [`ValueMap::deep_eq`] says.
    fn eq(&self, other: &ValueMap) -> (r: bool) {
        self.equals(other)
    }
}

impl vstd::std_specs::cmp::PartialEqSpecImpl for ValueMap {
    open spec fn obeys_eq_spec() -> bool {
        true
    }

    open spec fn eq_spec(&self, other: &ValueMap) -> bool {
        self.deep_eq(*other)
    }
}

} // verus!
