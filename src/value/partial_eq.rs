//! Comparisons of values with primitive values.

use super::map::{compare_bytes, lemma_key_bytes_injective};
use super::Value;
use vstd::prelude::*;

verus! {

/// The text of a string value equals `other`.
fn str_equals(value: &Value, other: &str) -> (r: bool)
    ensures
        r == (match *value {
            Value::String(s) => s@ == other@,
            _ => false,
        }),
{
    match value {
        Value::String(s) => {
            let c = compare_bytes(s.as_str().as_bytes(), other.as_bytes());
            proof {
                lemma_key_bytes_injective(s@, other@);
            }
            c == 0
        },
        _ => false,
    }
}

impl PartialEq<()> for Value {
    /// Only null equals the unit.
    fn eq(&self, other: &()) -> bool {
        self.is_null()
    }
}

impl vstd::std_specs::cmp::PartialEqSpecImpl<()> for Value {
    open spec fn obeys_eq_spec() -> bool {
        true
    }

    open spec fn eq_spec(&self, other: &()) -> bool {
        *self is Null
    }
}

impl PartialEq<Value> for () {
    /// Only null equals the unit.
    fn eq(&self, other: &Value) -> bool {
        other.is_null()
    }
}

impl vstd::std_specs::cmp::PartialEqSpecImpl<Value> for () {
    open spec fn obeys_eq_spec() -> bool {
        true
    }

    open spec fn eq_spec(&self, other: &Value) -> bool {
        *other is Null
    }
}

impl PartialEq<bool> for Value {
    /// A boolean value equals the same boolean.
    fn eq(&self, other: &bool) -> bool {
        match self {
            Value::Boolean(b) => *b == *other,
            _ => false,
        }
    }
}

impl vstd::std_specs::cmp::PartialEqSpecImpl<bool> for Value {
    open spec fn obeys_eq_spec() -> bool {
        true
    }

    open spec fn eq_spec(&self, other: &bool) -> bool {
        *self == Value::Boolean(*other)
    }
}

impl PartialEq<Value> for bool {
    /// A boolean value equals the same boolean.
    fn eq(&self, other: &Value) -> bool {
        match other {
            Value::Boolean(b) => *b == *self,
            _ => false,
        }
    }
}

impl vstd::std_specs::cmp::PartialEqSpecImpl<Value> for bool {
    open spec fn obeys_eq_spec() -> bool {
        true
    }

    open spec fn eq_spec(&self, other: &Value) -> bool {
        *other == Value::Boolean(*self)
    }
}

impl PartialEq<i8> for Value {
    /// A number value equals a `i8` it holds exactly.
    fn eq(&self, other: &i8) -> bool {
        match self {
            Value::Number(n) => *n == *other,
            _ => false,
        }
    }
}

impl vstd::std_specs::cmp::PartialEqSpecImpl<i8> for Value {
    open spec fn obeys_eq_spec() -> bool {
        true
    }

    open spec fn eq_spec(&self, other: &i8) -> bool {
        match *self {
            Value::Number(n) => n.exact_int() == Some(*other as int),
            _ => false,
        }
    }
}

impl PartialEq<Value> for i8 {
    /// A number value equals a `i8` it holds exactly.
    fn eq(&self, other: &Value) -> bool {
        match other {
            Value::Number(n) => *n == *self,
            _ => false,
        }
    }
}

impl vstd::std_specs::cmp::PartialEqSpecImpl<Value> for i8 {
    open spec fn obeys_eq_spec() -> bool {
        true
    }

    open spec fn eq_spec(&self, other: &Value) -> bool {
        match *other {
            Value::Number(n) => n.exact_int() == Some(*self as int),
            _ => false,
        }
    }
}

impl PartialEq<i16> for Value {
    /// A number value equals a `i16` it holds exactly.
    fn eq(&self, other: &i16) -> bool {
        match self {
            Value::Number(n) => *n == *other,
            _ => false,
        }
    }
}

impl vstd::std_specs::cmp::PartialEqSpecImpl<i16> for Value {
    open spec fn obeys_eq_spec() -> bool {
        true
    }

    open spec fn eq_spec(&self, other: &i16) -> bool {
        match *self {
            Value::Number(n) => n.exact_int() == Some(*other as int),
            _ => false,
        }
    }
}

impl PartialEq<Value> for i16 {
    /// A number value equals a `i16` it holds exactly.
    fn eq(&self, other: &Value) -> bool {
        match other {
            Value::Number(n) => *n == *self,
            _ => false,
        }
    }
}

impl vstd::std_specs::cmp::PartialEqSpecImpl<Value> for i16 {
    open spec fn obeys_eq_spec() -> bool {
        true
    }

    open spec fn eq_spec(&self, other: &Value) -> bool {
        match *other {
            Value::Number(n) => n.exact_int() == Some(*self as int),
            _ => false,
        }
    }
}

impl PartialEq<i32> for Value {
    /// A number value equals a `i32` it holds exactly.
    fn eq(&self, other: &i32) -> bool {
        match self {
            Value::Number(n) => *n == *other,
            _ => false,
        }
    }
}

impl vstd::std_specs::cmp::PartialEqSpecImpl<i32> for Value {
    open spec fn obeys_eq_spec() -> bool {
        true
    }

    open spec fn eq_spec(&self, other: &i32) -> bool {
        match *self {
            Value::Number(n) => n.exact_int() == Some(*other as int),
            _ => false,
        }
    }
}

impl PartialEq<Value> for i32 {
    /// A number value equals a `i32` it holds exactly.
    fn eq(&self, other: &Value) -> bool {
        match other {
            Value::Number(n) => *n == *self,
            _ => false,
        }
    }
}

impl vstd::std_specs::cmp::PartialEqSpecImpl<Value> for i32 {
    open spec fn obeys_eq_spec() -> bool {
        true
    }

    open spec fn eq_spec(&self, other: &Value) -> bool {
        match *other {
            Value::Number(n) => n.exact_int() == Some(*self as int),
            _ => false,
        }
    }
}

impl PartialEq<i64> for Value {
    /// A number value equals a `i64` it holds exactly.
    fn eq(&self, other: &i64) -> bool {
        match self {
            Value::Number(n) => *n == *other,
            _ => false,
        }
    }
}

impl vstd::std_specs::cmp::PartialEqSpecImpl<i64> for Value {
    open spec fn obeys_eq_spec() -> bool {
        true
    }

    open spec fn eq_spec(&self, other: &i64) -> bool {
        match *self {
            Value::Number(n) => n.exact_int() == Some(*other as int),
            _ => false,
        }
    }
}

impl PartialEq<Value> for i64 {
    /// A number value equals a `i64` it holds exactly.
    fn eq(&self, other: &Value) -> bool {
        match other {
            Value::Number(n) => *n == *self,
            _ => false,
        }
    }
}

impl vstd::std_specs::cmp::PartialEqSpecImpl<Value> for i64 {
    open spec fn obeys_eq_spec() -> bool {
        true
    }

    open spec fn eq_spec(&self, other: &Value) -> bool {
        match *other {
            Value::Number(n) => n.exact_int() == Some(*self as int),
            _ => false,
        }
    }
}

impl PartialEq<isize> for Value {
    /// A number value equals a `isize` it holds exactly.
    fn eq(&self, other: &isize) -> bool {
        match self {
            Value::Number(n) => *n == *other,
            _ => false,
        }
    }
}

impl vstd::std_specs::cmp::PartialEqSpecImpl<isize> for Value {
    open spec fn obeys_eq_spec() -> bool {
        true
    }

    open spec fn eq_spec(&self, other: &isize) -> bool {
        match *self {
            Value::Number(n) => n.exact_int() == Some(*other as int),
            _ => false,
        }
    }
}

impl PartialEq<Value> for isize {
    /// A number value equals a `isize` it holds exactly.
    fn eq(&self, other: &Value) -> bool {
        match other {
            Value::Number(n) => *n == *self,
            _ => false,
        }
    }
}

impl vstd::std_specs::cmp::PartialEqSpecImpl<Value> for isize {
    open spec fn obeys_eq_spec() -> bool {
        true
    }

    open spec fn eq_spec(&self, other: &Value) -> bool {
        match *other {
            Value::Number(n) => n.exact_int() == Some(*self as int),
            _ => false,
        }
    }
}

impl PartialEq<i128> for Value {
    /// A number value equals a `i128` it holds exactly.
    fn eq(&self, other: &i128) -> bool {
        match self {
            Value::Number(n) => *n == *other,
            _ => false,
        }
    }
}

impl vstd::std_specs::cmp::PartialEqSpecImpl<i128> for Value {
    open spec fn obeys_eq_spec() -> bool {
        true
    }

    open spec fn eq_spec(&self, other: &i128) -> bool {
        match *self {
            Value::Number(n) => n.exact_int() == Some(*other as int),
            _ => false,
        }
    }
}

impl PartialEq<Value> for i128 {
    /// A number value equals a `i128` it holds exactly.
    fn eq(&self, other: &Value) -> bool {
        match other {
            Value::Number(n) => *n == *self,
            _ => false,
        }
    }
}

impl vstd::std_specs::cmp::PartialEqSpecImpl<Value> for i128 {
    open spec fn obeys_eq_spec() -> bool {
        true
    }

    open spec fn eq_spec(&self, other: &Value) -> bool {
        match *other {
            Value::Number(n) => n.exact_int() == Some(*self as int),
            _ => false,
        }
    }
}

impl PartialEq<u8> for Value {
    /// A number value equals a `u8` it holds exactly.
    fn eq(&self, other: &u8) -> bool {
        match self {
            Value::Number(n) => *n == *other,
            _ => false,
        }
    }
}

impl vstd::std_specs::cmp::PartialEqSpecImpl<u8> for Value {
    open spec fn obeys_eq_spec() -> bool {
        true
    }

    open spec fn eq_spec(&self, other: &u8) -> bool {
        match *self {
            Value::Number(n) => n.exact_int() == Some(*other as int),
            _ => false,
        }
    }
}

impl PartialEq<Value> for u8 {
    /// A number value equals a `u8` it holds exactly.
    fn eq(&self, other: &Value) -> bool {
        match other {
            Value::Number(n) => *n == *self,
            _ => false,
        }
    }
}

impl vstd::std_specs::cmp::PartialEqSpecImpl<Value> for u8 {
    open spec fn obeys_eq_spec() -> bool {
        true
    }

    open spec fn eq_spec(&self, other: &Value) -> bool {
        match *other {
            Value::Number(n) => n.exact_int() == Some(*self as int),
            _ => false,
        }
    }
}

impl PartialEq<u16> for Value {
    /// A number value equals a `u16` it holds exactly.
    fn eq(&self, other: &u16) -> bool {
        match self {
            Value::Number(n) => *n == *other,
            _ => false,
        }
    }
}

impl vstd::std_specs::cmp::PartialEqSpecImpl<u16> for Value {
    open spec fn obeys_eq_spec() -> bool {
        true
    }

    open spec fn eq_spec(&self, other: &u16) -> bool {
        match *self {
            Value::Number(n) => n.exact_int() == Some(*other as int),
            _ => false,
        }
    }
}

impl PartialEq<Value> for u16 {
    /// A number value equals a `u16` it holds exactly.
    fn eq(&self, other: &Value) -> bool {
        match other {
            Value::Number(n) => *n == *self,
            _ => false,
        }
    }
}

impl vstd::std_specs::cmp::PartialEqSpecImpl<Value> for u16 {
    open spec fn obeys_eq_spec() -> bool {
        true
    }

    open spec fn eq_spec(&self, other: &Value) -> bool {
        match *other {
            Value::Number(n) => n.exact_int() == Some(*self as int),
            _ => false,
        }
    }
}

impl PartialEq<u32> for Value {
    /// A number value equals a `u32` it holds exactly.
    fn eq(&self, other: &u32) -> bool {
        match self {
            Value::Number(n) => *n == *other,
            _ => false,
        }
    }
}

impl vstd::std_specs::cmp::PartialEqSpecImpl<u32> for Value {
    open spec fn obeys_eq_spec() -> bool {
        true
    }

    open spec fn eq_spec(&self, other: &u32) -> bool {
        match *self {
            Value::Number(n) => n.exact_int() == Some(*other as int),
            _ => false,
        }
    }
}

impl PartialEq<Value> for u32 {
    /// A number value equals a `u32` it holds exactly.
    fn eq(&self, other: &Value) -> bool {
        match other {
            Value::Number(n) => *n == *self,
            _ => false,
        }
    }
}

impl vstd::std_specs::cmp::PartialEqSpecImpl<Value> for u32 {
    open spec fn obeys_eq_spec() -> bool {
        true
    }

    open spec fn eq_spec(&self, other: &Value) -> bool {
        match *other {
            Value::Number(n) => n.exact_int() == Some(*self as int),
            _ => false,
        }
    }
}

impl PartialEq<u64> for Value {
    /// A number value equals a `u64` it holds exactly.
    fn eq(&self, other: &u64) -> bool {
        match self {
            Value::Number(n) => *n == *other,
            _ => false,
        }
    }
}

impl vstd::std_specs::cmp::PartialEqSpecImpl<u64> for Value {
    open spec fn obeys_eq_spec() -> bool {
        true
    }

    open spec fn eq_spec(&self, other: &u64) -> bool {
        match *self {
            Value::Number(n) => n.exact_int() == Some(*other as int),
            _ => false,
        }
    }
}

impl PartialEq<Value> for u64 {
    /// A number value equals a `u64` it holds exactly.
    fn eq(&self, other: &Value) -> bool {
        match other {
            Value::Number(n) => *n == *self,
            _ => false,
        }
    }
}

impl vstd::std_specs::cmp::PartialEqSpecImpl<Value> for u64 {
    open spec fn obeys_eq_spec() -> bool {
        true
    }

    open spec fn eq_spec(&self, other: &Value) -> bool {
        match *other {
            Value::Number(n) => n.exact_int() == Some(*self as int),
            _ => false,
        }
    }
}

impl PartialEq<usize> for Value {
    /// A number value equals a `usize` it holds exactly.
    fn eq(&self, other: &usize) -> bool {
        match self {
            Value::Number(n) => *n == *other,
            _ => false,
        }
    }
}

impl vstd::std_specs::cmp::PartialEqSpecImpl<usize> for Value {
    open spec fn obeys_eq_spec() -> bool {
        true
    }

    open spec fn eq_spec(&self, other: &usize) -> bool {
        match *self {
            Value::Number(n) => n.exact_int() == Some(*other as int),
            _ => false,
        }
    }
}

impl PartialEq<Value> for usize {
    /// A number value equals a `usize` it holds exactly.
    fn eq(&self, other: &Value) -> bool {
        match other {
            Value::Number(n) => *n == *self,
            _ => false,
        }
    }
}

impl vstd::std_specs::cmp::PartialEqSpecImpl<Value> for usize {
    open spec fn obeys_eq_spec() -> bool {
        true
    }

    open spec fn eq_spec(&self, other: &Value) -> bool {
        match *other {
            Value::Number(n) => n.exact_int() == Some(*self as int),
            _ => false,
        }
    }
}

impl PartialEq<u128> for Value {
    /// A number value equals a `u128` it holds exactly.
    fn eq(&self, other: &u128) -> bool {
        match self {
            Value::Number(n) => *n == *other,
            _ => false,
        }
    }
}

impl vstd::std_specs::cmp::PartialEqSpecImpl<u128> for Value {
    open spec fn obeys_eq_spec() -> bool {
        true
    }

    open spec fn eq_spec(&self, other: &u128) -> bool {
        match *self {
            Value::Number(n) => n.exact_int() == Some(*other as int),
            _ => false,
        }
    }
}

impl PartialEq<Value> for u128 {
    /// A number value equals a `u128` it holds exactly.
    fn eq(&self, other: &Value) -> bool {
        match other {
            Value::Number(n) => *n == *self,
            _ => false,
        }
    }
}

impl vstd::std_specs::cmp::PartialEqSpecImpl<Value> for u128 {
    open spec fn obeys_eq_spec() -> bool {
        true
    }

    open spec fn eq_spec(&self, other: &Value) -> bool {
        match *other {
            Value::Number(n) => n.exact_int() == Some(*self as int),
            _ => false,
        }
    }
}

impl PartialEq<str> for Value {
    /// A string value equals its text.
    fn eq(&self, other: &str) -> bool {
        str_equals(self, other)
    }
}

impl vstd::std_specs::cmp::PartialEqSpecImpl<str> for Value {
    open spec fn obeys_eq_spec() -> bool {
        true
    }

    open spec fn eq_spec(&self, other: &str) -> bool {
        match *self {
            Value::String(s) => s@ == other@,
            _ => false,
        }
    }
}

impl PartialEq<Value> for str {
    /// A string value equals its text.
    fn eq(&self, other: &Value) -> bool {
        str_equals(other, self)
    }
}

impl vstd::std_specs::cmp::PartialEqSpecImpl<Value> for str {
    open spec fn obeys_eq_spec() -> bool {
        true
    }

    open spec fn eq_spec(&self, other: &Value) -> bool {
        match *other {
            Value::String(s) => s@ == self@,
            _ => false,
        }
    }
}

impl PartialEq<String> for Value {
    /// A string value equals its text.
    fn eq(&self, other: &String) -> bool {
        str_equals(self, other.as_str())
    }
}

impl vstd::std_specs::cmp::PartialEqSpecImpl<String> for Value {
    open spec fn obeys_eq_spec() -> bool {
        true
    }

    open spec fn eq_spec(&self, other: &String) -> bool {
        match *self {
            Value::String(s) => s@ == other@,
            _ => false,
        }
    }
}

impl PartialEq<Value> for String {
    /// A string value equals its text.
    fn eq(&self, other: &Value) -> bool {
        str_equals(other, self.as_str())
    }
}

impl vstd::std_specs::cmp::PartialEqSpecImpl<Value> for String {
    open spec fn obeys_eq_spec() -> bool {
        true
    }

    open spec fn eq_spec(&self, other: &Value) -> bool {
        match *other {
            Value::String(s) => s@ == self@,
            _ => false,
        }
    }
}

} // verus!
