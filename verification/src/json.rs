//! JSON values as plain data, with the accessors a reader of them needs.
use vstd::prelude::*;

use crate::text::str_eq;

verus! {

/// A JSON value. A number keeps what readers and writers use of it: its
/// value as an integer, when it is one. An object keeps its fields in order,
/// each key once.
pub enum JsonValue {
    Null,
    Bool(bool),
    Number(Option<i128>),
    Str(String),
    Array(Vec<JsonValue>),
    Object(Vec<(String, JsonValue)>),
}

/// A JSON value as plain data.
pub ghost enum JsonV {
    Null,
    Bool(bool),
    Number(Option<int>),
    Str(Seq<char>),
    Array(Seq<JsonV>),
    Object(Seq<(Seq<char>, JsonV)>),
}

pub open spec fn jview(v: JsonValue) -> JsonV
    decreases v,
{
    match v {
        JsonValue::Null => JsonV::Null,
        JsonValue::Bool(b) => JsonV::Bool(b),
        JsonValue::Number(n) => JsonV::Number(match n {
            Some(k) => Some(k as int),
            None => None,
        }),
        JsonValue::Str(s) => JsonV::Str(s@),
        JsonValue::Array(a) => JsonV::Array(jviews(a@)),
        JsonValue::Object(fs) => JsonV::Object(fields_view(fs@)),
    }
}

pub open spec fn jviews(s: Seq<JsonValue>) -> Seq<JsonV>
    decreases s,
{
    if s.len() == 0 {
        Seq::empty()
    } else {
        jviews(s.drop_last()).push(jview(s.last()))
    }
}

pub open spec fn fields_view(fs: Seq<(String, JsonValue)>) -> Seq<(Seq<char>, JsonV)>
    decreases fs,
{
    if fs.len() == 0 {
        Seq::empty()
    } else {
        fields_view(fs.drop_last()).push((fs.last().0@, jview(fs.last().1)))
    }
}

/// The value of the first field named `key`.
pub open spec fn find_field(fs: Seq<(String, JsonValue)>, key: Seq<char>) -> Option<JsonValue>
    decreases fs.len(),
{
    if fs.len() == 0 {
        None
    } else if fs[0].0@ == key {
        Some(fs[0].1)
    } else {
        find_field(fs.drop_first(), key)
    }
}

/// The field `key` of an object; `None` for a missing field or a non-object.
pub open spec fn jget(v: JsonValue, key: Seq<char>) -> Option<JsonValue> {
    match v {
        JsonValue::Object(fs) => find_field(fs@, key),
        _ => None,
    }
}

pub open spec fn jstr(v: JsonValue) -> Option<Seq<char>> {
    match v {
        JsonValue::Str(s) => Some(s@),
        _ => None,
    }
}

/// A number's value as an unsigned 64-bit integer, when it is one.
pub open spec fn ju64(v: JsonValue) -> Option<u64> {
    match v {
        JsonValue::Number(Some(n)) => if 0 <= n <= u64::MAX { Some(n as u64) } else { None },
        _ => None,
    }
}

/// A number's value as a signed 64-bit integer, when it is one.
pub open spec fn ji64(v: JsonValue) -> Option<i64> {
    match v {
        JsonValue::Number(Some(n)) => if i64::MIN <= n <= i64::MAX { Some(n as i64) } else { None },
        _ => None,
    }
}

pub open spec fn jarray(v: JsonValue) -> Option<Seq<JsonValue>> {
    match v {
        JsonValue::Array(a) => Some(a@),
        _ => None,
    }
}

/// `jget` then `jstr`, `None` at the first step that fails.
pub open spec fn jget_str(v: JsonValue, key: Seq<char>) -> Option<Seq<char>> {
    match jget(v, key) {
        Some(x) => jstr(x),
        None => None,
    }
}

pub open spec fn jget_u64(v: JsonValue, key: Seq<char>) -> Option<u64> {
    match jget(v, key) {
        Some(x) => ju64(x),
        None => None,
    }
}

impl JsonValue {
    /// The field `key` of an object.
    pub fn get(&self, key: &str) -> (r: Option<&JsonValue>)
        ensures
            match r {
                Some(x) => jget(*self, key@) == Some(*x),
                None => jget(*self, key@) is None,
            },
    {
        match self {
            JsonValue::Object(fs) => {
                let n = fs.len();
                let mut i: usize = 0;
                assert(fs@.skip(0) =~= fs@);
                while i < n
                    invariant
                        n == fs@.len(),
                        i <= n,
                        jget(*self, key@) == find_field(fs@, key@),
                        find_field(fs@, key@) == find_field(fs@.skip(i as int), key@),
                    decreases n - i,
                {
                    proof {
                        assert(fs@.skip(i as int)[0] == fs@[i as int]);
                        assert(fs@.skip(i as int).drop_first() =~= fs@.skip(i + 1));
                    }
                    if str_eq(fs[i].0.as_str(), key) {
                        return Some(&fs[i].1);
                    }
                    i += 1;
                }
                None
            },
            _ => None,
        }
    }

    pub fn as_str(&self) -> (r: Option<&str>)
        ensures
            match r {
                Some(s) => jstr(*self) == Some(s@),
                None => jstr(*self) is None,
            },
    {
        match self {
            JsonValue::Str(s) => Some(s.as_str()),
            _ => None,
        }
    }

    pub fn as_u64(&self) -> (r: Option<u64>)
        ensures
            r == ju64(*self),
    {
        match self {
            JsonValue::Number(Some(n)) => if 0 <= *n && *n <= 0xffff_ffff_ffff_ffff { Some(*n as u64) } else { None },
            _ => None,
        }
    }

    pub fn as_i64(&self) -> (r: Option<i64>)
        ensures
            r == ji64(*self),
    {
        match self {
            JsonValue::Number(Some(n)) => if -0x8000_0000_0000_0000 <= *n && *n <= 0x7fff_ffff_ffff_ffff {
                Some(*n as i64)
            } else {
                None
            },
            _ => None,
        }
    }

    pub fn as_array(&self) -> (r: Option<&Vec<JsonValue>>)
        ensures
            match r {
                Some(a) => jarray(*self) == Some(a@),
                None => jarray(*self) is None,
            },
    {
        match self {
            JsonValue::Array(a) => Some(a),
            _ => None,
        }
    }

    pub fn is_null(&self) -> (b: bool)
        ensures
            b == (*self is Null),
    {
        match self {
            JsonValue::Null => true,
            _ => false,
        }
    }

    /// The string field `key` of an object.
    pub fn get_str(&self, key: &str) -> (r: Option<&str>)
        ensures
            match r {
                Some(s) => jget_str(*self, key@) == Some(s@),
                None => jget_str(*self, key@) is None,
            },
    {
        match self.get(key) {
            Some(v) => v.as_str(),
            None => None,
        }
    }

    /// The unsigned-integer field `key` of an object.
    pub fn get_u64(&self, key: &str) -> (r: Option<u64>)
        ensures
            r == jget_u64(*self, key@),
    {
        match self.get(key) {
            Some(v) => v.as_u64(),
            None => None,
        }
    }
}

} // verus!
