//! A plain model of JSON data, so that response-shape logic can be
//! verified. The runner turns the wire form into this shape before the
//! driver reads it.

use vstd::prelude::*;

verus! {

/// One JSON value. Numbers are kept as integers where they are exact;
/// any other number is carried opaquely and never read by the driver.
#[derive(Debug)]
pub enum JsonValue {
    Null,
    Bool(bool),
    UInt(u64),
    Int(i64),
    NumOther,
    Str(String),
    Arr(Vec<JsonValue>),
    Obj(Vec<(String, JsonValue)>),
}

/// The first value under `key`, if any.
pub open spec fn obj_lookup(entries: Seq<(String, JsonValue)>, key: Seq<char>) -> Option<
    JsonValue,
>
    decreases entries.len(),
{
    if entries.len() == 0 {
        None
    } else if entries.first().0@ == key {
        Some(entries.first().1)
    } else {
        obj_lookup(entries.drop_first(), key)
    }
}

/// The field under `key` of an object, if the value is an object and the
/// key is present.
pub open spec fn json_get(v: JsonValue, key: Seq<char>) -> Option<JsonValue> {
    match v {
        JsonValue::Obj(entries) => obj_lookup(entries@, key),
        _ => None,
    }
}

/// The characters of a string value.
pub open spec fn as_str_of(v: JsonValue) -> Option<Seq<char>> {
    match v {
        JsonValue::Str(s) => Some(s@),
        _ => None,
    }
}

/// The elements of an array value.
pub open spec fn as_arr_of(v: JsonValue) -> Option<Seq<JsonValue>> {
    match v {
        JsonValue::Arr(items) => Some(items@),
        _ => None,
    }
}

/// The value of an exactly-representable unsigned number.
pub open spec fn as_u64_of(v: JsonValue) -> Option<u64> {
    match v {
        JsonValue::UInt(n) => Some(n),
        _ => None,
    }
}

impl JsonValue {
    /// The field under `key`, when this value is an object holding it.
    pub fn get<'a>(&'a self, key: &str) -> (r: Option<&'a JsonValue>)
        ensures
            match r {
                Some(v) => json_get(*self, key@) == Some(*v),
                None => json_get(*self, key@) is None,
            },
    {
        match self {
            JsonValue::Obj(entries) => {
                let len = entries.len();
                let mut i: usize = 0;
                proof {
                    assert(entries@.skip(0) =~= entries@);
                }
                while i < len
                    invariant
                        len == entries@.len(),
                        i <= len,
                        json_get(*self, key@) == obj_lookup(entries@, key@),
                        obj_lookup(entries@, key@) == obj_lookup(
                            entries@.skip(i as int),
                            key@,
                        ),
                        forall|j: int| 0 <= j < i ==> (#[trigger] entries@[j]).0@ != key@,
                    decreases len - i,
                {
                    proof {
                        assert(entries@.skip(i as int).first() == entries@[i as int]);
                        assert(entries@.skip(i as int).drop_first() =~= entries@.skip(i + 1));
                    }
                    if crate::text::str_eq(entries[i].0.as_str(), key) {
                        proof {
                            assert(obj_lookup(entries@.skip(i as int), key@) == Some(
                                entries@[i as int].1,
                            ));
                        }
                        return Some(&entries[i].1);
                    }
                    i = i + 1;
                }
                proof {
                    assert(entries@.skip(len as int) =~= Seq::<(String, JsonValue)>::empty());
                }
                None
            },
            _ => None,
        }
    }

    /// The string slice inside, when this is a string value.
    pub fn as_str<'a>(&'a self) -> (r: Option<&'a String>)
        ensures
            match r {
                Some(s) => as_str_of(*self) == Some(s@),
                None => as_str_of(*self) is None,
            },
    {
        match self {
            JsonValue::Str(s) => Some(s),
            _ => None,
        }
    }

    /// The elements inside, when this is an array value.
    pub fn as_array<'a>(&'a self) -> (r: Option<&'a Vec<JsonValue>>)
        ensures
            match r {
                Some(items) => as_arr_of(*self) == Some(items@),
                None => as_arr_of(*self) is None,
            },
    {
        match self {
            JsonValue::Arr(items) => Some(items),
            _ => None,
        }
    }

    /// The exact unsigned value inside, when this is one.
    pub fn as_u64(&self) -> (r: Option<u64>)
        ensures
            r == as_u64_of(*self),
    {
        match self {
            JsonValue::UInt(n) => Some(*n),
            _ => None,
        }
    }

    /// Whether this value is an object.
    pub fn is_object(&self) -> (r: bool)
        ensures
            r == (self is Obj),
    {
        match self {
            JsonValue::Obj(_) => true,
            _ => false,
        }
    }
}

} // verus!
