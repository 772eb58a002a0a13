//! Property values as the media player publishes them on the bus, held as
//! plain values.
use vstd::prelude::*;
use crate::table::{owned, Table};

verus! {

/// One property value.
#[derive(Debug)]
pub enum PropValue {
    Str(String),
    Array(Vec<PropValue>),
    Int(i64),
    /// A double, held as its IEEE 754 bit pattern.
    Double(u64),
    Bool(bool),
    /// A value of a kind the decoder never reads (a dictionary, a path).
    Other,
}

/// A string-keyed dictionary of property values.
pub type PropMap = Table<PropValue>;

/// The characters of a non-empty text value.
pub open spec fn text_value(v: Option<PropValue>) -> Option<Seq<char>> {
    match v {
        Some(PropValue::Str(s)) => if s@.len() > 0 {
            Some(s@)
        } else {
            None
        },
        _ => None,
    }
}

/// The items of a list value; nothing for any other value.
pub open spec fn list_items(v: Option<PropValue>) -> Seq<PropValue> {
    match v {
        Some(PropValue::Array(items)) => items@,
        _ => Seq::empty(),
    }
}

/// The text of `v` as an owned string, when it is non-empty text.
pub fn text_of(v: Option<&PropValue>) -> (r: Option<String>)
    ensures
        match r {
            Some(s) => text_value(owned(v)) == Some(s@),
            None => text_value(owned(v)) is None,
        },
{
    match v {
        Some(PropValue::Str(s)) => {
            if s.as_str().is_empty() {
                None
            } else {
                Some(s.clone())
            }
        },
        _ => None,
    }
}

} // verus!
