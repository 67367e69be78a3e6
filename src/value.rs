//! The Twic [`Value`] tree.

pub mod index;
pub mod map;
pub mod number;
mod partial_eq;

pub use index::{IndexInto, IndexKey, ValueIndexError};
pub use map::ValueMap;
pub use number::Number;

use vstd::prelude::*;
use vstd::std_specs::convert::IntoSpec;

verus! {

/// A Twic value: a tree whose containers own their children.
#[derive(Debug)]
pub enum Value {
    /// The null value.
    Null,
    /// A boolean.
    Boolean(bool),
    /// A number.
    Number(Number),
    /// A UTF-8 string.
    String(String),
    /// An ordered sequence of values.
    Vector(Vec<Value>),
    /// A map from string keys to values, ordered by key.
    Mapping(ValueMap),
}

impl Default for Value {
    /// The null value.
    fn default() -> (r: Value)
        ensures
            r == Value::Null,
    {
        Value::Null
    }
}

/// Type checks and typed access.
impl Value {
    /// Checks if the value is null.
    pub fn is_null(&self) -> (r: bool)
        ensures
            r == self is Null,
    {
        matches!(self, Value::Null)
    }

    /// `Some(())` if the value is null.
    pub fn as_null(&self) -> (r: Option<()>)
        ensures
            r is Some == self is Null,
    {
        if self.is_null() {
            Some(())
        } else {
            None
        }
    }

    /// Checks if the value is a boolean.
    pub fn is_boolean(&self) -> (r: bool)
        ensures
            r == self is Boolean,
    {
        matches!(self, Value::Boolean(_))
    }

    /// The boolean, if the value is one.
    pub fn as_boolean(&self) -> (r: Option<bool>)
        ensures
            r == (match *self {
                Value::Boolean(b) => Some(b),
                _ => None,
            }),
    {
        if let Value::Boolean(b) = self {
            Some(*b)
        } else {
            None
        }
    }

    /// A mutable reference to the boolean, if the value is one.
    pub fn as_boolean_mut(&mut self) -> (r: Option<&mut bool>)
        ensures
            r is Some == *old(self) is Boolean,
            r is Some ==> *r.unwrap() == (*old(self))->Boolean_0 && *final(self) == Value::Boolean(
                *final(r.unwrap()),
            ),
            r is None ==> *final(self) == *old(self),
    {
        if let Value::Boolean(b) = self {
            Some(b)
        } else {
            None
        }
    }

    /// Checks if the value is a number.
    pub fn is_number(&self) -> (r: bool)
        ensures
            r == self is Number,
    {
        matches!(self, Value::Number(_))
    }

    /// The number, if the value is one.
    pub fn as_number(&self) -> (r: Option<Number>)
        ensures
            r == (match *self {
                Value::Number(n) => Some(n),
                _ => None,
            }),
    {
        if let Value::Number(n) = self {
            Some(*n)
        } else {
            None
        }
    }

    /// A mutable reference to the number, if the value is one.
    pub fn as_number_mut(&mut self) -> (r: Option<&mut Number>)
        ensures
            r is Some == *old(self) is Number,
            r is Some ==> *r.unwrap() == (*old(self))->Number_0 && *final(self) == Value::Number(
                *final(r.unwrap()),
            ),
            r is None ==> *final(self) == *old(self),
    {
        if let Value::Number(n) = self {
            Some(n)
        } else {
            None
        }
    }

    /// Checks if the value is a string.
    pub fn is_string(&self) -> (r: bool)
        ensures
            r == self is String,
    {
        matches!(self, Value::String(_))
    }

    /// The string, if the value is one.
    pub fn as_string(&self) -> (r: Option<&String>)
        ensures
            r is Some == self is String,
            r is Some ==> *r.unwrap() == self->String_0,
    {
        if let Value::String(s) = self {
            Some(s)
        } else {
            None
        }
    }

    /// A mutable reference to the string, if the value is one.
    pub fn as_string_mut(&mut self) -> (r: Option<&mut String>)
        ensures
            r is Some == *old(self) is String,
            r is Some ==> *r.unwrap() == (*old(self))->String_0 && *final(self) == Value::String(
                *final(r.unwrap()),
            ),
            r is None ==> *final(self) == *old(self),
    {
        if let Value::String(s) = self {
            Some(s)
        } else {
            None
        }
    }

    /// The text of the string, if the value is one.
    pub fn as_str(&self) -> (r: Option<&str>)
        ensures
            r is Some == self is String,
            r is Some ==> r.unwrap()@ == self->String_0@,
    {
        if let Value::String(s) = self {
            Some(s.as_str())
        } else {
            None
        }
    }

    /// Checks if the value is a vector.
    pub fn is_vector(&self) -> (r: bool)
        ensures
            r == self is Vector,
    {
        matches!(self, Value::Vector(_))
    }

    /// The vector, if the value is one.
    pub fn as_vector(&self) -> (r: Option<&Vec<Value>>)
        ensures
            r is Some == self is Vector,
            r is Some ==> r.unwrap()@ == self->Vector_0@,
    {
        if let Value::Vector(v) = self {
            Some(v)
        } else {
            None
        }
    }

    /// A mutable reference to the vector, if the value is one.
    pub fn as_vector_mut(&mut self) -> (r: Option<&mut Vec<Value>>)
        ensures
            r is Some == *old(self) is Vector,
            r is Some ==> r.unwrap()@ == (*old(self))->Vector_0@ && *final(self) == Value::Vector(
                *final(r.unwrap()),
            ),
            r is None ==> *final(self) == *old(self),
    {
        if let Value::Vector(v) = self {
            Some(v)
        } else {
            None
        }
    }

    /// Checks if the value is a map.
    pub fn is_map(&self) -> (r: bool)
        ensures
            r == self is Mapping,
    {
        matches!(self, Value::Mapping(_))
    }

    /// The map, if the value is one.
    pub fn as_map(&self) -> (r: Option<&ValueMap>)
        ensures
            r is Some == self is Mapping,
            r is Some ==> *r.unwrap() == self->Mapping_0,
    {
        if let Value::Mapping(m) = self {
            Some(m)
        } else {
            None
        }
    }

    /// A mutable reference to the map, if the value is one.
    pub fn as_map_mut(&mut self) -> (r: Option<&mut ValueMap>)
        ensures
            r is Some == *old(self) is Mapping,
            r is Some ==> *r.unwrap() == (*old(self))->Mapping_0 && *final(self) == Value::Mapping(
                *final(r.unwrap()),
            ),
            r is None ==> *final(self) == *old(self),
    {
        if let Value::Mapping(m) = self {
            Some(m)
        } else {
            None
        }
    }

    /// A stable lowercase name of the value's kind, for diagnostics.
    pub fn kind_name(&self) -> (r: &'static str)
        ensures
            r@ == self.spec_kind_name(),
    {
        match self {
            Value::Null => "null",
            Value::Boolean(_) => "boolean",
            Value::Number(_) => "number",
            Value::String(_) => "string",
            Value::Vector(_) => "vector",
            Value::Mapping(_) => "map",
        }
    }

    /// The two trees are equal: the same kind at every node, equal
    /// booleans and strings, numbers equal as `Number`'s `==` has it (NaN
    /// equals NaN, +0.0 equals -0.0), vectors of equal length with equal
    /// items, maps with the same keys and equal values.
    pub open spec fn deep_eq(self, other: Value) -> bool
        decreases self,
    {
        match self {
            Value::Null => other is Null,
            Value::Boolean(b) => other == Value::Boolean(b),
            Value::Number(n) => other is Number && Number::numbers_equal(n, other->Number_0),
            Value::String(s) => other is String && other->String_0@ == s@,
            Value::Vector(a) => other is Vector && a@.len() == other->Vector_0@.len() && forall|i: int|
                0 <= i < a@.len() ==> (#[trigger] a@[i]).deep_eq(other->Vector_0@[i]),
            Value::Mapping(m) => other is Mapping && m.deep_eq(other->Mapping_0),
        }
    }

    /// The name that [`Value::kind_name`] gives.
    pub open spec fn spec_kind_name(self) -> Seq<char> {
        match self {
            Value::Null => "null"@,
            Value::Boolean(_) => "boolean"@,
            Value::Number(_) => "number"@,
            Value::String(_) => "string"@,
            Value::Vector(_) => "vector"@,
            Value::Mapping(_) => "map"@,
        }
    }
}

/// Constructors.
impl Value {
    /// The null value.
    pub fn null() -> (r: Value)
        ensures
            r == Value::Null,
    {
        Value::Null
    }

    /// A boolean value.
    pub fn boolean(b: bool) -> (r: Value)
        ensures
            r == Value::Boolean(b),
    {
        Value::Boolean(b)
    }

    /// A number value, from anything that converts to a [`Number`].
    pub fn number<N: Into<Number>>(n: N) -> (r: Value)
        ensures
            <N as IntoSpec<Number>>::obeys_into_spec() ==> r == Value::Number(n.into_spec()),
            r is Number,
    {
        Value::Number(n.into())
    }

    /// A string value.
    pub fn string(s: String) -> (r: Value)
        ensures
            r == Value::String(s),
    {
        Value::String(s)
    }

    /// A vector value that takes ownership of `v`.
    pub fn vector(v: Vec<Value>) -> (r: Value)
        ensures
            r == Value::Vector(v),
    {
        Value::Vector(v)
    }

    /// An empty vector value.
    pub fn vector_empty() -> (r: Value)
        ensures
            r is Vector && r->Vector_0@.len() == 0,
    {
        Value::Vector(Vec::new())
    }

    /// A vector value whose elements are `items`, each converted to a value.
    pub fn vector_from<T: Into<Value>>(items: Vec<T>) -> (r: Value)
        ensures
            r is Vector,
            r->Vector_0@.len() == items@.len(),
            <T as IntoSpec<Value>>::obeys_into_spec() ==> forall|i: int|
                0 <= i < items@.len() ==> r->Vector_0@[i] == #[trigger] items@[i].into_spec(),
    {
        let mut items = items;
        let ghost given = items@;
        let mut reversed: Vec<Value> = Vec::new();
        while items.len() > 0
            invariant
                items@.len() + reversed@.len() == given.len(),
                items@ == given.subrange(0, items@.len() as int),
                <T as IntoSpec<Value>>::obeys_into_spec() ==> forall|i: int|
                    0 <= i < reversed@.len() ==> reversed@[i] == #[trigger] given[given.len()
                        - 1 - i].into_spec(),
            decreases items@.len(),
        {
            let item = items.pop().unwrap();
            reversed.push(item.into());
            assert(items@ =~= given.subrange(0, items@.len() as int));
        }
        let mut out: Vec<Value> = Vec::new();
        while reversed.len() > 0
            invariant
                out@.len() + reversed@.len() == given.len(),
                <T as IntoSpec<Value>>::obeys_into_spec() ==> forall|i: int|
                    0 <= i < reversed@.len() ==> reversed@[i] == #[trigger] given[given.len()
                        - 1 - i].into_spec(),
                <T as IntoSpec<Value>>::obeys_into_spec() ==> forall|i: int|
                    0 <= i < out@.len() ==> out@[i] == #[trigger] given[i].into_spec(),
            decreases reversed@.len(),
        {
            proof {
                if <T as IntoSpec<Value>>::obeys_into_spec() {
                    let k = reversed@.len() - 1;
                    assert(reversed@[k] == given[given.len() - 1 - k].into_spec());
                }
            }
            let v = reversed.pop().unwrap();
            out.push(v);
        }
        Value::Vector(out)
    }

    /// A vector value holding a clone of each item of `items`, each
    /// converted to a value. What a clone holds is up to `T`'s `Clone`, so
    /// the contract speaks of the shape only.
    pub fn vector_clone_from<T: Clone + Into<Value>>(items: &[T]) -> (r: Value)
        ensures
            r is Vector,
            r->Vector_0@.len() == items@.len(),
    {
        let mut out: Vec<Value> = Vec::new();
        let mut i: usize = 0;
        while i < items.len()
            invariant
                i <= items@.len(),
                out@.len() == i,
            decreases items@.len() - i,
        {
            let c = items[i].clone();
            out.push(c.into());
            i = i + 1;
        }
        Value::Vector(out)
    }

    /// A map value that takes ownership of `m`.
    pub fn map(m: ValueMap) -> (r: Value)
        ensures
            r == Value::Mapping(m),
    {
        Value::Mapping(m)
    }

    /// An empty map value.
    pub fn map_empty() -> (r: Value)
        ensures
            r is Mapping && r->Mapping_0.keys().len() == 0,
    {
        Value::Mapping(ValueMap::new())
    }
}


impl From<()> for Value {
    /// The unit converts to null.
    fn from(value: ()) -> Value {
        Value::Null
    }
}

impl vstd::std_specs::convert::FromSpecImpl<()> for Value {
    open spec fn obeys_from_spec() -> bool {
        true
    }

    open spec fn from_spec(v: ()) -> Value {
        Value::Null
    }
}

impl From<bool> for Value {
    /// A boolean value.
    fn from(value: bool) -> Value {
        Value::Boolean(value)
    }
}

impl vstd::std_specs::convert::FromSpecImpl<bool> for Value {
    open spec fn obeys_from_spec() -> bool {
        true
    }

    open spec fn from_spec(v: bool) -> Value {
        Value::Boolean(v)
    }
}

impl From<Number> for Value {
    /// A number value.
    fn from(value: Number) -> Value {
        Value::Number(value)
    }
}

impl vstd::std_specs::convert::FromSpecImpl<Number> for Value {
    open spec fn obeys_from_spec() -> bool {
        true
    }

    open spec fn from_spec(v: Number) -> Value {
        Value::Number(v)
    }
}

impl From<i8> for Value {
    /// A number value holding the `i8`.
    fn from(value: i8) -> Value {
        Value::Number(Number::from(value))
    }
}

impl vstd::std_specs::convert::FromSpecImpl<i8> for Value {
    open spec fn obeys_from_spec() -> bool {
        true
    }

    open spec fn from_spec(v: i8) -> Value {
        Value::Number(Number::from_int(v as int))
    }
}

impl From<i16> for Value {
    /// A number value holding the `i16`.
    fn from(value: i16) -> Value {
        Value::Number(Number::from(value))
    }
}

impl vstd::std_specs::convert::FromSpecImpl<i16> for Value {
    open spec fn obeys_from_spec() -> bool {
        true
    }

    open spec fn from_spec(v: i16) -> Value {
        Value::Number(Number::from_int(v as int))
    }
}

impl From<i32> for Value {
    /// A number value holding the `i32`.
    fn from(value: i32) -> Value {
        Value::Number(Number::from(value))
    }
}

impl vstd::std_specs::convert::FromSpecImpl<i32> for Value {
    open spec fn obeys_from_spec() -> bool {
        true
    }

    open spec fn from_spec(v: i32) -> Value {
        Value::Number(Number::from_int(v as int))
    }
}

impl From<i64> for Value {
    /// A number value holding the `i64`.
    fn from(value: i64) -> Value {
        Value::Number(Number::from(value))
    }
}

impl vstd::std_specs::convert::FromSpecImpl<i64> for Value {
    open spec fn obeys_from_spec() -> bool {
        true
    }

    open spec fn from_spec(v: i64) -> Value {
        Value::Number(Number::from_int(v as int))
    }
}

impl From<isize> for Value {
    /// A number value holding the `isize`.
    fn from(value: isize) -> Value {
        Value::Number(Number::from(value))
    }
}

impl vstd::std_specs::convert::FromSpecImpl<isize> for Value {
    open spec fn obeys_from_spec() -> bool {
        true
    }

    open spec fn from_spec(v: isize) -> Value {
        Value::Number(Number::from_int(v as int))
    }
}

impl From<u8> for Value {
    /// A number value holding the `u8`.
    fn from(value: u8) -> Value {
        Value::Number(Number::from(value))
    }
}

impl vstd::std_specs::convert::FromSpecImpl<u8> for Value {
    open spec fn obeys_from_spec() -> bool {
        true
    }

    open spec fn from_spec(v: u8) -> Value {
        Value::Number(Number::from_int(v as int))
    }
}

impl From<u16> for Value {
    /// A number value holding the `u16`.
    fn from(value: u16) -> Value {
        Value::Number(Number::from(value))
    }
}

impl vstd::std_specs::convert::FromSpecImpl<u16> for Value {
    open spec fn obeys_from_spec() -> bool {
        true
    }

    open spec fn from_spec(v: u16) -> Value {
        Value::Number(Number::from_int(v as int))
    }
}

impl From<u32> for Value {
    /// A number value holding the `u32`.
    fn from(value: u32) -> Value {
        Value::Number(Number::from(value))
    }
}

impl vstd::std_specs::convert::FromSpecImpl<u32> for Value {
    open spec fn obeys_from_spec() -> bool {
        true
    }

    open spec fn from_spec(v: u32) -> Value {
        Value::Number(Number::from_int(v as int))
    }
}

impl From<u64> for Value {
    /// A number value holding the `u64`.
    fn from(value: u64) -> Value {
        Value::Number(Number::from(value))
    }
}

impl vstd::std_specs::convert::FromSpecImpl<u64> for Value {
    open spec fn obeys_from_spec() -> bool {
        true
    }

    open spec fn from_spec(v: u64) -> Value {
        Value::Number(Number::from_int(v as int))
    }
}

impl From<usize> for Value {
    /// A number value holding the `usize`.
    fn from(value: usize) -> Value {
        Value::Number(Number::from(value))
    }
}

impl vstd::std_specs::convert::FromSpecImpl<usize> for Value {
    open spec fn obeys_from_spec() -> bool {
        true
    }

    open spec fn from_spec(v: usize) -> Value {
        Value::Number(Number::from_int(v as int))
    }
}

impl From<String> for Value {
    /// A string value.
    fn from(value: String) -> Value {
        Value::String(value)
    }
}

impl vstd::std_specs::convert::FromSpecImpl<String> for Value {
    open spec fn obeys_from_spec() -> bool {
        true
    }

    open spec fn from_spec(v: String) -> Value {
        Value::String(v)
    }
}

impl From<&str> for Value {
    /// A string value holding a copy of the text.
    fn from(value: &str) -> (r: Value) {
        Value::String(value.to_owned())
    }
}

impl vstd::std_specs::convert::FromSpecImpl<&str> for Value {
    open spec fn obeys_from_spec() -> bool {
        false
    }

    open spec fn from_spec(v: &str) -> Value {
        Value::Null
    }
}

impl From<Vec<Value>> for Value {
    /// A vector value.
    fn from(value: Vec<Value>) -> Value {
        Value::Vector(value)
    }
}

impl vstd::std_specs::convert::FromSpecImpl<Vec<Value>> for Value {
    open spec fn obeys_from_spec() -> bool {
        true
    }

    open spec fn from_spec(v: Vec<Value>) -> Value {
        Value::Vector(v)
    }
}

impl From<ValueMap> for Value {
    /// A map value.
    fn from(value: ValueMap) -> Value {
        Value::Mapping(value)
    }
}

impl vstd::std_specs::convert::FromSpecImpl<ValueMap> for Value {
    open spec fn obeys_from_spec() -> bool {
        true
    }

    open spec fn from_spec(v: ValueMap) -> Value {
        Value::Mapping(v)
    }
}

/// Copying and comparing whole trees.
impl Value {
    /// A copy of the whole tree.
    pub fn deep_clone(&self) -> (r: Value)
        ensures
            r.deep_eq(*self),
        decreases self,
    {
        match self {
            Value::Null => Value::Null,
            Value::Boolean(b) => Value::Boolean(*b),
            Value::Number(n) => Value::Number(*n),
            Value::String(s) => Value::String(s.clone()),
            Value::Vector(items) => {
                let mut out: Vec<Value> = Vec::new();
                let mut i: usize = 0;
                while i < items.len()
                    invariant
                        *self == Value::Vector(*items),
                        i <= items@.len(),
                        out@.len() == i,
                        forall|j: int| 0 <= j < i ==> (#[trigger] out@[j]).deep_eq(items@[j]),
                    decreases items@.len() - i,
                {
                    proof {
                        assert(decreases_to!(*self => (*self)->Vector_0));
                        assert(decreases_to!(*items => items@));
                        assert(decreases_to!(items@ => items@[i as int]));
                    }
                    let c = items[i].deep_clone();
                    out.push(c);
                    i = i + 1;
                }
                Value::Vector(out)
            },
            Value::Mapping(m) => {
                proof {
                    assert(decreases_to!(*self => (*self)->Mapping_0));
                }
                Value::Mapping(m.deep_clone())
            },
        }
    }

    /// Compares two whole trees, as [`Value::deep_eq`] says.
    pub fn equals(&self, other: &Value) -> (r: bool)
        ensures
            r == self.deep_eq(*other),
        decreases self,
    {
        match (self, other) {
            (Value::Null, Value::Null) => true,
            (Value::Boolean(a), Value::Boolean(b)) => *a == *b,
            (Value::Number(a), Value::Number(b)) => *a == *b,
            (Value::String(a), Value::String(b)) => *a == *b,
            (Value::Vector(a), Value::Vector(b)) => {
                if a.len() != b.len() {
                    return false;
                }
                let mut i: usize = 0;
                while i < a.len()
                    invariant
                        *self == Value::Vector(*a),
                        *other == Value::Vector(*b),
                        a@.len() == b@.len(),
                        i <= a@.len(),
                        forall|j: int| 0 <= j < i ==> (#[trigger] a@[j]).deep_eq(b@[j]),
                    decreases a@.len() - i,
                {
                    proof {
                        assert(decreases_to!(*self => (*self)->Vector_0));
                        assert(decreases_to!(*a => a@));
                        assert(decreases_to!(a@ => a@[i as int]));
                    }
                    if !a[i].equals(&b[i]) {
                        proof {
                            assert(!(a@[i as int]).deep_eq(b@[i as int]));
                            assert(!self.deep_eq(*other));
                        }
                        return false;
                    }
                    i = i + 1;
                }
                true
            },
            (Value::Mapping(a), Value::Mapping(b)) => {
                proof {
                    assert(decreases_to!(*self => (*self)->Mapping_0));
                }
                a.equals(b)
            },
            _ => false,
        }
    }
}

impl Clone for Value {
    /// A copy of the whole tree.
    fn clone(&self) -> (r: Value)
        ensures
            r.deep_eq(*self),
    {
        self.deep_clone()
    }
}

impl PartialEq for Value {
    /// Two trees are equal as [`Value::deep_eq`] says.
    fn eq(&self, other: &Value) -> (r: bool) {
        self.equals(other)
    }
}

impl vstd::std_specs::cmp::PartialEqSpecImpl for Value {
    open spec fn obeys_eq_spec() -> bool {
        true
    }

    open spec fn eq_spec(&self, other: &Value) -> bool {
        self.deep_eq(*other)
    }
}

impl<T: Into<Value>> From<Option<T>> for Value {
    /// The converted item, or null for `None`.
    fn from(option: Option<T>) -> Value {
        match option {
            Some(item) => item.into(),
            None => Value::Null,
        }
    }
}

impl<T: Into<Value>> vstd::std_specs::convert::FromSpecImpl<Option<T>> for Value {
    open spec fn obeys_from_spec() -> bool {
        <T as IntoSpec<Value>>::obeys_into_spec()
    }

    open spec fn from_spec(v: Option<T>) -> Value {
        match v {
            Some(item) => item.into_spec(),
            None => Value::Null,
        }
    }
}

/// Every value has exactly one kind, and its kind name is one of six
/// fixed strings, one per kind.
pub proof fn lemma_kind_coherence(v: Value)
    ensures
        (v is Null) as int + (v is Boolean) as int + (v is Number) as int + (v is String) as int + (
        v is Vector) as int + (v is Mapping) as int == 1,
        v.spec_kind_name() == "null"@ <==> v is Null,
        v.spec_kind_name() == "boolean"@ <==> v is Boolean,
        v.spec_kind_name() == "number"@ <==> v is Number,
        v.spec_kind_name() == "string"@ <==> v is String,
        v.spec_kind_name() == "vector"@ <==> v is Vector,
        v.spec_kind_name() == "map"@ <==> v is Mapping,
{
    reveal_strlit("null");
    reveal_strlit("boolean");
    reveal_strlit("number");
    reveal_strlit("string");
    reveal_strlit("vector");
    reveal_strlit("map");
    assert("null"@.len() == 4 && "boolean"@.len() == 7 && "map"@.len() == 3);
    assert("number"@.len() == 6 && "string"@.len() == 6 && "vector"@.len() == 6);
    assert("number"@[0] == 'n' && "string"@[0] == 's' && "vector"@[0] == 'v');
}

} // verus!
