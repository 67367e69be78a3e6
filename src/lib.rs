//! An in-memory model of Twic values: a dynamically typed tree of nulls,
//! booleans, numbers, strings, vectors and string-keyed maps, with a precise
//! numeric type that covers every 65-bit signed integer and every IEEE-754
//! double.

pub mod value;

pub use value::{Number, Value};
