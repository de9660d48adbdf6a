//! JSON values as the Notion and Paperless APIs send and receive them, with
//! the lookups that the rest of the library performs on them.

use vstd::prelude::*;
use crate::text::str_eq;

verus! {

/// A JSON number, kept as the kind of value that the lookups distinguish.
#[derive(Debug, Clone, PartialEq)]
pub enum JsonNumber {
    /// A non-negative integer that fits in `u64`.
    Unsigned(u64),
    /// A negative integer that fits in `i64`.
    Negative(i64),
    /// Any other number, in its textual form.
    Fractional(String),
}

/// A JSON value. An object keeps its members in order.
#[derive(Debug, PartialEq)]
pub enum Json {
    Null,
    Bool(bool),
    Number(JsonNumber),
    Str(String),
    Array(Vec<Json>),
    Object(Vec<JsonMember>),
}

/// One `key: value` member of a JSON object.
#[derive(Debug, PartialEq)]
pub struct JsonMember {
    pub key: String,
    pub value: Json,
}

/// The value of the first member from index `i` on whose key is `key`, or
/// `Null` when there is none.
pub open spec fn lookup_from(members: Seq<JsonMember>, key: Seq<char>, i: int) -> Json
    decreases members.len() - i,
{
    if i < 0 || i >= members.len() {
        Json::Null
    } else if members[i].key@ == key {
        members[i].value
    } else {
        lookup_from(members, key, i + 1)
    }
}

impl Json {
    /// The member `key` of an object; `Null` for a missing member or a value
    /// that is no object.
    pub open spec fn at(self, key: Seq<char>) -> Json {
        match self {
            Json::Object(members) => lookup_from(members@, key, 0),
            _ => Json::Null,
        }
    }

    /// The text of a string value.
    pub open spec fn str_of(self) -> Option<Seq<char>> {
        match self {
            Json::Str(s) => Some(s@),
            _ => None,
        }
    }

    /// The elements of an array value.
    pub open spec fn array_of(self) -> Option<Seq<Json>> {
        match self {
            Json::Array(v) => Some(v@),
            _ => None,
        }
    }

    /// The members of an object value.
    pub open spec fn object_of(self) -> Option<Seq<JsonMember>> {
        match self {
            Json::Object(m) => Some(m@),
            _ => None,
        }
    }

    /// A number that is a non-negative integer fitting in `u64`.
    pub open spec fn u64_of(self) -> Option<u64> {
        match self {
            Json::Number(JsonNumber::Unsigned(n)) => Some(n),
            _ => None,
        }
    }

    /// The truth value of a boolean value.
    pub open spec fn bool_of(self) -> Option<bool> {
        match self {
            Json::Bool(b) => Some(b),
            _ => None,
        }
    }

    /// The value is the string `text`.
    pub open spec fn is_text(self, text: Seq<char>) -> bool {
        self.str_of() == Some(text)
    }

    /// The member `key`, or `None` where `at` gives `Null` for want of one.
    pub fn get<'a>(&'a self, key: &str) -> (r: Option<&'a Json>)
        ensures
            r matches Some(v) ==> *v == self.at(key@),
            r is None ==> self.at(key@) == Json::Null,
    {
        match self {
            Json::Object(members) => {
                let mut i: usize = 0;
                while i < members.len()
                    invariant
                        i <= members@.len(),
                        self.at(key@) == lookup_from(members@, key@, 0),
                        lookup_from(members@, key@, 0) == lookup_from(members@, key@, i as int),
                    decreases members@.len() - i,
                {
                    if str_eq(members[i].key.as_str(), key) {
                        assert(lookup_from(members@, key@, i as int) == members@[i as int].value);
                        return Some(&members[i].value);
                    }
                    i = i + 1;
                }
                None
            },
            _ => None,
        }
    }

    /// Moves the member `key` out of an object; `Null` where `at` gives it.
    pub fn take(self, key: &str) -> (r: Json)
        ensures
            r == self.at(key@),
    {
        let ghost whole = self;
        match self {
            Json::Object(members) => {
                let mut members = members;
                let mut i: usize = 0;
                while i < members.len()
                    invariant
                        i <= members@.len(),
                        whole == self,
                        whole.at(key@) == lookup_from(members@, key@, i as int),
                    decreases members@.len() - i,
                {
                    if str_eq(members[i].key.as_str(), key) {
                        assert(lookup_from(members@, key@, i as int) == members@[i as int].value);
                        let ghost ms = members@;
                        let m = members.remove(i);
                        assert(m == ms[i as int]);
                        return m.value;
                    }
                    i = i + 1;
                }
                Json::Null
            },
            _ => Json::Null,
        }
    }

    /// The text of a string value.
    pub fn as_str(&self) -> (r: Option<&String>)
        ensures
            r matches Some(s) ==> self.str_of() == Some(s@),
            r is None ==> self.str_of() is None,
    {
        match self {
            Json::Str(s) => Some(s),
            _ => None,
        }
    }

    /// The elements of an array value.
    pub fn as_array(&self) -> (r: Option<&Vec<Json>>)
        ensures
            r matches Some(v) ==> self.array_of() == Some(v@),
            r is None ==> self.array_of() is None,
    {
        match self {
            Json::Array(v) => Some(v),
            _ => None,
        }
    }

    /// The members of an object value.
    pub fn as_object(&self) -> (r: Option<&Vec<JsonMember>>)
        ensures
            r matches Some(m) ==> self.object_of() == Some(m@),
            r is None ==> self.object_of() is None,
    {
        match self {
            Json::Object(m) => Some(m),
            _ => None,
        }
    }

    /// A number that is a non-negative integer fitting in `u64`.
    pub fn as_u64(&self) -> (r: Option<u64>)
        ensures
            r == self.u64_of(),
    {
        match self {
            Json::Number(JsonNumber::Unsigned(n)) => Some(*n),
            _ => None,
        }
    }

    /// The truth value of a boolean value.
    pub fn as_bool(&self) -> (r: Option<bool>)
        ensures
            r == self.bool_of(),
    {
        match self {
            Json::Bool(b) => Some(*b),
            _ => None,
        }
    }

    /// The text of the string member `key`.
    pub fn str_at(&self, key: &str) -> (r: Option<&String>)
        ensures
            r matches Some(s) ==> self.at(key@).str_of() == Some(s@),
            r is None ==> self.at(key@).str_of() is None,
    {
        match self.get(key) {
            Some(v) => v.as_str(),
            None => None,
        }
    }

    /// The elements of the array member `key`.
    pub fn array_at(&self, key: &str) -> (r: Option<&Vec<Json>>)
        ensures
            r matches Some(v) ==> self.at(key@).array_of() == Some(v@),
            r is None ==> self.at(key@).array_of() is None,
    {
        match self.get(key) {
            Some(v) => v.as_array(),
            None => None,
        }
    }

    /// The members of the object member `key`.
    pub fn object_at(&self, key: &str) -> (r: Option<&Vec<JsonMember>>)
        ensures
            r matches Some(m) ==> self.at(key@).object_of() == Some(m@),
            r is None ==> self.at(key@).object_of() is None,
    {
        match self.get(key) {
            Some(v) => v.as_object(),
            None => None,
        }
    }

    /// Whether the member `key` is the string `text`.
    pub fn text_at_is(&self, key: &str, text: &str) -> (r: bool)
        ensures
            r == self.at(key@).is_text(text@),
    {
        match self.str_at(key) {
            Some(s) => str_eq(s.as_str(), text),
            None => false,
        }
    }
}

} // verus!
