//! Indexing into vectors by position and into maps by key.

use super::map::{bytes_lt, key_bytes, keys_in_order, lemma_bytes_lt_order};
use super::Value;
use vstd::prelude::*;

verus! {

/// Why an index could not be applied to a value.
#[derive(Clone, Copy, Debug, PartialEq, Eq, Structural)]
pub enum ValueIndexError {
    /// The value is a scalar (null, boolean, number or string).
    NotIndexable,
    /// The value is a container of the other kind: a position into a map,
    /// or a key into a vector.
    IncompatibleIndexType,
    /// The container has no entry at that position or key.
    KeyNotFound,
}

/// What an index designates: a position in a vector or a key in a map.
pub enum IndexKey {
    /// A position in a vector.
    Position(usize),
    /// A key in a map, as its characters.
    Key(Seq<char>),
}

impl Value {
    /// The error that applying `key` to this value gives whatever the
    /// contents: a scalar cannot be indexed, and each container takes one
    /// kind of index.
    pub open spec fn index_type_error(self, key: IndexKey) -> Option<ValueIndexError> {
        match self {
            Value::Vector(_) => if key is Position {
                None
            } else {
                Some(ValueIndexError::IncompatibleIndexType)
            },
            Value::Mapping(_) => if key is Key {
                None
            } else {
                Some(ValueIndexError::IncompatibleIndexType)
            },
            _ => Some(ValueIndexError::NotIndexable),
        }
    }

    /// What reading this value at `key` gives.
    pub open spec fn lookup(self, key: IndexKey) -> Result<Value, ValueIndexError> {
        match (self, key) {
            (Value::Vector(v), IndexKey::Position(i)) => if i < v@.len() {
                Ok(v@[i as int])
            } else {
                Err(ValueIndexError::KeyNotFound)
            },
            (Value::Mapping(m), IndexKey::Key(k)) => match m.spec_get(k) {
                Some(x) => Ok(x),
                None => Err(ValueIndexError::KeyNotFound),
            },
            _ => Err(self.index_type_error(key)->0),
        }
    }

    /// `after` is this value once the entry at `key` has been made to exist
    /// and then set to `slot_final`, and `slot` is what that entry held when
    /// it was handed out. A vector too short is first padded with nulls up
    /// to and including the position; an absent key is first inserted, in
    /// key order, bound to null.
    pub open spec fn inserted_at(self, key: IndexKey, slot: Value, slot_final: Value, after: Value) -> bool {
        match (self, key) {
            (Value::Vector(v), IndexKey::Position(i)) => {
                let padded = if i < v@.len() {
                    v@
                } else {
                    v@ + Seq::new((i + 1 - v@.len()) as nat, |j: int| Value::Null)
                };
                &&& slot == padded[i as int]
                &&& after is Vector
                &&& after->Vector_0@ == padded.update(i as int, slot_final)
            },
            (Value::Mapping(m), IndexKey::Key(k)) => {
                &&& after is Mapping
                &&& keys_in_order(after->Mapping_0.keys())
                &&& if m.keys().contains(k) {
                    &&& Some(slot) == m.spec_get(k)
                    &&& after->Mapping_0.keys() == m.keys()
                    &&& after->Mapping_0.values() == m.values().update(m.keys().index_of(k), slot_final)
                } else {
                    &&& slot == Value::Null
                    &&& exists|p: int|
                        0 <= p <= m.keys().len() && after->Mapping_0.keys() == m.keys().insert(p, k)
                            && after->Mapping_0.values() == m.values().insert(p, slot_final)
                }
            },
            _ => false,
        }
    }

    /// Inserting at `key` would need a vector longer than `usize` can count.
    pub open spec fn insert_overflows(self, key: IndexKey) -> bool {
        self is Vector && key is Position && key->Position_0 == usize::MAX
    }
}

/// After an entry has been made to exist and set (by `get_or_insert`,
/// `index_mut` or `get_mut`), reading the same index gives what was set.
pub proof fn lemma_read_after_insert(
    before: Value,
    key: IndexKey,
    slot: Value,
    slot_final: Value,
    after: Value,
)
    requires
        before is Mapping ==> before->Mapping_0.wf(),
        before.inserted_at(key, slot, slot_final, after),
    ensures
        after.lookup(key) == Ok::<Value, ValueIndexError>(slot_final),
{
    match (before, key) {
        (Value::Mapping(m), IndexKey::Key(k)) => {
            let m2 = after->Mapping_0;
            let ks = m2.keys();
            m.lemma_keys_in_order();
            if m.keys().contains(k) {
                let j = m.keys().index_of(k);
                assert(m.keys()[j] == k);
                assert(ks.contains(k));
                assert(m2.values()[j] == slot_final);
                assert(m2.spec_get(k) == Some(slot_final));
            } else {
                let p = choose|p: int|
                    0 <= p <= m.keys().len() && m2.keys() == m.keys().insert(p, k)
                        && m2.values() == m.values().insert(p, slot_final);
                assert(ks[p] == k);
                assert(ks.contains(k));
                let q = ks.index_of(k);
                assert(ks[q] == k);
                if q != p {
                    lemma_bytes_lt_order(key_bytes(k), key_bytes(k), key_bytes(k));
                    if q < p {
                        assert(bytes_lt(key_bytes(ks[q]), key_bytes(ks[p])));
                    } else {
                        assert(bytes_lt(key_bytes(ks[p]), key_bytes(ks[q])));
                    }
                }
                assert(m2.values()[p] == slot_final);
                assert(m2.spec_get(k) == Some(slot_final));
            }
        },
        (Value::Vector(v), IndexKey::Position(i)) => {
            let padded = if i < v@.len() {
                v@
            } else {
                v@ + Seq::new((i + 1 - v@.len()) as nat, |j: int| Value::Null)
            };
            assert(i < padded.len());
            assert(after->Vector_0@[i as int] == slot_final);
        },
        _ => {},
    }
}

/// An index into a [`Value`]: a `usize` position into a vector, or a string
/// key into a map.
pub trait IndexInto {
    /// What the index designates.
    spec fn spec_key(&self) -> IndexKey;

    /// The position, for an index into vectors.
    fn as_position(&self) -> (r: Option<usize>)
        ensures
            r == (match self.spec_key() {
                IndexKey::Position(i) => Some(i),
                IndexKey::Key(_) => None::<usize>,
            }),
    ;

    /// Reads the entry of `value` at this index.
    fn index_into<'a>(&self, value: &'a Value) -> (r: Result<&'a Value, ValueIndexError>)
        ensures
            match r {
                Ok(v) => value.lookup(self.spec_key()) == Ok::<Value, ValueIndexError>(*v),
                Err(e) => value.lookup(self.spec_key()) == Err::<Value, ValueIndexError>(e),
            },
    ;

    /// A mutable reference to the entry of `value` at this index.
    fn index_into_mut<'a>(&self, value: &'a mut Value) -> (r: Result<&'a mut Value, ValueIndexError>)
        ensures
            r is Ok ==> old(value).lookup(self.spec_key()) is Ok && old(value).inserted_at(
                self.spec_key(),
                *r.unwrap(),
                *final(r.unwrap()),
                *final(value),
            ),
            r is Err ==> old(value).lookup(self.spec_key()) == Err::<Value, ValueIndexError>(
                r->Err_0,
            ) && *final(value) == *old(value),
    ;

    /// A mutable reference to the entry of `value` at this index, which is
    /// created first if absent: a vector is padded with nulls, a map gets the
    /// key bound to null.
    fn index_into_or_insert<'a>(&self, value: &'a mut Value) -> (r: Result<
        &'a mut Value,
        ValueIndexError,
    >)
        requires
            !old(value).insert_overflows(self.spec_key()),
        ensures
            r is Ok ==> old(value).index_type_error(self.spec_key()) is None && old(
                value,
            ).inserted_at(self.spec_key(), *r.unwrap(), *final(r.unwrap()), *final(value)),
            r is Err ==> old(value).index_type_error(self.spec_key()) == Some(r->Err_0)
                && *final(value) == *old(value),
    ;
}


impl IndexInto for usize {
    open spec fn spec_key(&self) -> IndexKey {
        IndexKey::Position(*self)
    }

    fn as_position(&self) -> (r: Option<usize>) {
        Some(*self)
    }

    fn index_into<'a>(&self, value: &'a Value) -> (r: Result<&'a Value, ValueIndexError>) {
        match value {
            Value::Vector(vec) => {
                if *self < vec.len() {
                    Ok(&vec[*self])
                } else {
                    Err(ValueIndexError::KeyNotFound)
                }
            },
            Value::Mapping(_) => Err(ValueIndexError::IncompatibleIndexType),
            _ => Err(ValueIndexError::NotIndexable),
        }
    }

    fn index_into_mut<'a>(&self, value: &'a mut Value) -> (r: Result<&'a mut Value, ValueIndexError>) {
        match value {
            Value::Vector(vec) => {
                if *self < vec.len() {
                    Ok(&mut vec[*self])
                } else {
                    Err(ValueIndexError::KeyNotFound)
                }
            },
            Value::Mapping(_) => Err(ValueIndexError::IncompatibleIndexType),
            _ => Err(ValueIndexError::NotIndexable),
        }
    }

    fn index_into_or_insert<'a>(&self, value: &'a mut Value) -> (r: Result<
        &'a mut Value,
        ValueIndexError,
    >) {
        match value {
            Value::Vector(vec) => {
                let ghost before = vec@;
                let ghost padded = if *self < before.len() {
                    before
                } else {
                    before + Seq::new((*self + 1 - before.len()) as nat, |j: int| Value::Null)
                };
                assert forall|j: int| before.len() <= j < padded.len() implies padded[j]
                    == Value::Null by {
                    assert(padded[j] == Seq::new(
                        (*self + 1 - before.len()) as nat,
                        |j: int| Value::Null,
                    )[j - before.len()]);
                }
                while vec.len() <= *self
                    invariant
                        forall|j: int| before.len() <= j < padded.len() ==> padded[j] == Value::Null,
                        *self < usize::MAX,
                        before.len() <= vec@.len() <= *self + 1 || (*self < before.len() && vec@
                            == before),
                        vec@ == padded.subrange(0, vec@.len() as int),
                        padded.len() == if *self < before.len() {
                            before.len() as int
                        } else {
                            *self + 1
                        },
                    decreases *self + 1 - vec@.len(),
                {
                    assert(padded[vec@.len() as int] == Value::Null);
                    vec.push(Value::Null);
                    assert(vec@ =~= padded.subrange(0, vec@.len() as int));
                }
                assert(vec@ =~= padded);
                Ok(&mut vec[*self])
            },
            Value::Mapping(_) => Err(ValueIndexError::IncompatibleIndexType),
            _ => Err(ValueIndexError::NotIndexable),
        }
    }
}

impl IndexInto for str {
    open spec fn spec_key(&self) -> IndexKey {
        IndexKey::Key(self@)
    }

    fn as_position(&self) -> (r: Option<usize>) {
        None
    }

    fn index_into<'a>(&self, value: &'a Value) -> (r: Result<&'a Value, ValueIndexError>) {
        match value {
            Value::Mapping(map) => match map.get(self) {
                Some(v) => Ok(v),
                None => Err(ValueIndexError::KeyNotFound),
            },
            Value::Vector(_) => Err(ValueIndexError::IncompatibleIndexType),
            _ => Err(ValueIndexError::NotIndexable),
        }
    }

    fn index_into_mut<'a>(&self, value: &'a mut Value) -> (r: Result<&'a mut Value, ValueIndexError>) {
        match value {
            Value::Mapping(map) => match map.get_mut(self) {
                Some(v) => Ok(v),
                None => Err(ValueIndexError::KeyNotFound),
            },
            Value::Vector(_) => Err(ValueIndexError::IncompatibleIndexType),
            _ => Err(ValueIndexError::NotIndexable),
        }
    }

    fn index_into_or_insert<'a>(&self, value: &'a mut Value) -> (r: Result<
        &'a mut Value,
        ValueIndexError,
    >) {
        match value {
            Value::Mapping(map) => Ok(map.get_or_insert_null(self)),
            Value::Vector(_) => Err(ValueIndexError::IncompatibleIndexType),
            _ => Err(ValueIndexError::NotIndexable),
        }
    }
}

impl IndexInto for String {
    open spec fn spec_key(&self) -> IndexKey {
        IndexKey::Key(self@)
    }

    fn as_position(&self) -> (r: Option<usize>) {
        None
    }

    fn index_into<'a>(&self, value: &'a Value) -> (r: Result<&'a Value, ValueIndexError>) {
        self.as_str().index_into(value)
    }

    fn index_into_mut<'a>(&self, value: &'a mut Value) -> (r: Result<&'a mut Value, ValueIndexError>) {
        self.as_str().index_into_mut(value)
    }

    fn index_into_or_insert<'a>(&self, value: &'a mut Value) -> (r: Result<
        &'a mut Value,
        ValueIndexError,
    >) {
        self.as_str().index_into_or_insert(value)
    }
}

impl<T: IndexInto + ?Sized> IndexInto for &T {
    open spec fn spec_key(&self) -> IndexKey {
        (**self).spec_key()
    }

    fn as_position(&self) -> (r: Option<usize>) {
        (**self).as_position()
    }

    fn index_into<'a>(&self, value: &'a Value) -> (r: Result<&'a Value, ValueIndexError>) {
        (**self).index_into(value)
    }

    fn index_into_mut<'a>(&self, value: &'a mut Value) -> (r: Result<&'a mut Value, ValueIndexError>) {
        (**self).index_into_mut(value)
    }

    fn index_into_or_insert<'a>(&self, value: &'a mut Value) -> (r: Result<
        &'a mut Value,
        ValueIndexError,
    >) {
        (**self).index_into_or_insert(value)
    }
}

/// Indexing.
impl Value {
    /// The entry at `index`: an element of a vector by position, or the
    /// value under a key of a map. `None` when the value cannot be indexed
    /// that way or has no such entry.
    pub fn get<I: IndexInto>(&self, index: I) -> (r: Option<&Value>)
        ensures
            r is Some == self.lookup(index.spec_key()) is Ok,
            r is Some ==> self.lookup(index.spec_key()) == Ok::<Value, ValueIndexError>(
                *r.unwrap(),
            ),
    {
        match index.index_into(self) {
            Ok(v) => Some(v),
            Err(_) => None,
        }
    }

    /// A mutable reference to the entry at `index`, as for [`Value::get`].
    pub fn get_mut<I: IndexInto>(&mut self, index: I) -> (r: Option<&mut Value>)
        ensures
            r is Some == old(self).lookup(index.spec_key()) is Ok,
            r is Some ==> old(self).inserted_at(
                index.spec_key(),
                *r.unwrap(),
                *final(r.unwrap()),
                *final(self),
            ),
            r is None ==> *final(self) == *old(self),
    {
        match index.index_into_mut(self) {
            Ok(v) => Some(v),
            Err(_) => None,
        }
    }

    /// A mutable reference to the entry at `index`, created first if
    /// absent: a vector is padded with nulls up to and including the
    /// position, a map gets the key bound to null. `None` only when the
    /// value cannot be indexed that way.
    pub fn get_or_insert<I: IndexInto>(&mut self, index: I) -> (r: Option<&mut Value>)
        requires
            !old(self).insert_overflows(index.spec_key()),
        ensures
            r is Some == (old(self).index_type_error(index.spec_key()) is None),
            r is Some ==> old(self).inserted_at(
                index.spec_key(),
                *r.unwrap(),
                *final(r.unwrap()),
                *final(self),
            ),
            r is None ==> *final(self) == *old(self),
    {
        match index.index_into_or_insert(self) {
            Ok(v) => Some(v),
            Err(_) => None,
        }
    }

    /// The entry at `index`, or null when there is none. Indexing a scalar,
    /// or a container with the other kind of index, is a programming error
    /// that the precondition rules out.
    pub fn index<I: IndexInto>(&self, index: I) -> (r: &Value)
        requires
            self.index_type_error(index.spec_key()) is None,
        ensures
            *r == match self.lookup(index.spec_key()) {
                Ok(v) => v,
                Err(_) => Value::Null,
            },
    {
        match index.index_into(self) {
            Ok(v) => v,
            Err(_) => &Value::Null,
        }
    }

    /// A mutable reference to the entry at `index`, created first if
    /// absent, as for [`Value::get_or_insert`]. Indexing a scalar, or a
    /// container with the other kind of index, is a programming error that
    /// the precondition rules out.
    pub fn index_mut<I: IndexInto>(&mut self, index: I) -> (r: &mut Value)
        requires
            old(self).index_type_error(index.spec_key()) is None,
            !old(self).insert_overflows(index.spec_key()),
        ensures
            old(self).inserted_at(index.spec_key(), *r, *final(r), *final(self)),
    {
        match index.index_into_or_insert(self) {
            Ok(v) => v,
            Err(_) => vstd::pervasive::unreached(),
        }
    }
}

} // verus!
