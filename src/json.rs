//! A JSON document as plain values: what the catalogue parser reads.
use vstd::prelude::*;

use crate::text::same_text;

verus! {

/// A JSON value.
///
/// A number is kept as what the parser can use of it: `Number(Some(n))` for a
/// non-negative integer that fits in a `u64`, `Number(None)` for any other
/// number (negative, fractional or too large). Object members keep their
/// order; where a key occurs twice the first member is the one that counts.
pub enum Json {
    Null,
    Bool(bool),
    Number(Option<u64>),
    Str(String),
    Array(Vec<Json>),
    Object(Vec<(String, Json)>),
}

/// The value of the first member of `members` named `key`, or `Null`.
pub open spec fn lookup(members: Seq<(String, Json)>, key: Seq<char>) -> Json
    decreases members.len(),
{
    if members.len() == 0 {
        Json::Null
    } else if members[0].0@ == key {
        members[0].1
    } else {
        lookup(members.drop_first(), key)
    }
}

impl Json {
    /// The member `key` of an object; `Null` where `self` is no object or has
    /// no such member (as indexing a `serde_json::Value` by a key gives it).
    pub open spec fn field(self, key: Seq<char>) -> Json {
        match self {
            Json::Object(members) => lookup(members@, key),
            _ => Json::Null,
        }
    }

    /// The element `i` of an array; `Null` where `self` is no array or is too
    /// short.
    pub open spec fn item(self, i: int) -> Json {
        match self {
            Json::Array(items) => if 0 <= i < items@.len() {
                items@[i]
            } else {
                Json::Null
            },
            _ => Json::Null,
        }
    }

    /// The text of a string value.
    pub open spec fn text(self) -> Option<Seq<char>> {
        match self {
            Json::Str(s) => Some(s@),
            _ => None,
        }
    }

    /// The member `key`, as `field` gives it.
    pub fn get(&self, key: &str) -> (r: &Json)
        ensures
            *r == self.field(key@),
    {
        match self {
            Json::Object(members) => {
                let mut i: usize = 0;
                assert(members@.subrange(0, members@.len() as int) =~= members@);
                while i < members.len()
                    invariant
                        self.field(key@) == lookup(members@, key@),
                        i <= members@.len(),
                        lookup(members@, key@) == lookup(members@.subrange(
                            i as int,
                            members@.len() as int,
                        ), key@),
                    decreases members@.len() - i,
                {
                    assert(members@.subrange(i as int, members@.len() as int).drop_first()
                        =~= members@.subrange(i + 1, members@.len() as int));
                    let entry = &members[i];
                    if same_text(entry.0.as_str(), key) {
                        let ghost rest = members@.subrange(i as int, members@.len() as int);
                        assert(rest[0] == members@[i as int]);
                        assert(rest[0].0@ == key@);
                        assert(lookup(rest, key@) == rest[0].1);
                        return &entry.1;
                    }
                    i = i + 1;
                }
                &Json::Null
            },
            _ => &Json::Null,
        }
    }

    /// The element `i`, as `item` gives it.
    pub fn at(&self, i: usize) -> (r: &Json)
        ensures
            *r == self.item(i as int),
    {
        match self {
            Json::Array(items) => if i < items.len() {
                &items[i]
            } else {
                &Json::Null
            },
            _ => &Json::Null,
        }
    }

    pub fn is_null(&self) -> (r: bool)
        ensures
            r == (*self is Null),
    {
        match self {
            Json::Null => true,
            _ => false,
        }
    }

    pub fn as_str(&self) -> (r: Option<&str>)
        ensures
            match r {
                Some(s) => self.text() == Some(s@),
                None => self.text() is None,
            },
    {
        match self {
            Json::Str(s) => Some(s.as_str()),
            _ => None,
        }
    }
}

} // verus!
