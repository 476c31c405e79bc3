use vstd::prelude::*;

verus! {

/// A JSON document as the Codex app-server sends it. Object members keep the
/// order in which they were given; looking a key up takes the first member
/// with that key. A number is an `Integer` when it is an integer that fits in
/// `u64` or `i64`, and a `Decimal` otherwise.
#[derive(Debug)]
pub enum Json {
    Null,
    Bool(bool),
    Integer(i128),
    Decimal,
    Str(String),
    Array(Vec<Json>),
    Object(Vec<(String, Json)>),
}

/// The value of the first member named `key` among `members`.
pub open spec fn member(members: Seq<(String, Json)>, key: Seq<char>) -> Option<Json>
    decreases members.len(),
{
    if members.len() == 0 {
        None
    } else if members[0].0@ == key {
        Some(members[0].1)
    } else {
        member(members.drop_first(), key)
    }
}

/// `value[key]` when `value` is an object that has such a member.
pub open spec fn get_spec(value: Json, key: Seq<char>) -> Option<Json> {
    match value {
        Json::Object(members) => member(members@, key),
        _ => None,
    }
}

/// Looks a key up in an optional value (a missing value has no members).
pub open spec fn get_in(value: Option<Json>, key: Seq<char>) -> Option<Json> {
    match value {
        Some(v) => get_spec(v, key),
        None => None,
    }
}

/// The number held by `value` when it is an integer in the `i64` range.
pub open spec fn as_i64_spec(value: Json) -> Option<i64> {
    match value {
        Json::Integer(n) => if i64::MIN <= n <= i64::MAX {
            Some(n as i64)
        } else {
            None
        },
        _ => None,
    }
}

/// The number held by `value` when it is an integer in the `u64` range.
pub open spec fn as_u64_spec(value: Json) -> Option<u64> {
    match value {
        Json::Integer(n) => if 0 <= n <= u64::MAX {
            Some(n as u64)
        } else {
            None
        },
        _ => None,
    }
}

/// The text held by `value` when it is a string.
pub open spec fn as_str_spec(value: Json) -> Option<Seq<char>> {
    match value {
        Json::Str(s) => Some(s@),
        _ => None,
    }
}

/// Whether an optional reference designates the given optional value.
pub open spec fn designates(r: Option<&Json>, v: Option<Json>) -> bool {
    match r {
        Some(x) => v == Some(*x),
        None => v is None,
    }
}

pub fn text_eq(a: &String, b: &str) -> (r: bool)
    ensures
        r == (a@ == b@),
{
    let owned = String::from_str(b);
    *a == owned
}

impl Json {
    /// The first member named `key` when `self` is an object.
    pub fn get<'a>(&'a self, key: &str) -> (r: Option<&'a Json>)
        ensures
            designates(r, get_spec(*self, key@)),
    {
        match self {
            Json::Object(members) => {
                let mut i: usize = 0;
                assert(members@.skip(0) =~= members@);
                while i < members.len()
                    invariant
                        i <= members.len(),
                        get_spec(*self, key@) == member(members@.skip(i as int), key@),
                    decreases members.len() - i,
                {
                    assert(members@.skip(i as int).drop_first() =~= members@.skip(i + 1));
                    let entry = &members[i];
                    assert(members@.skip(i as int)[0] == members@[i as int]);
                    if text_eq(&entry.0, key) {
                        return Some(&entry.1);
                    }
                    i = i + 1;
                }
                None
            },
            _ => None,
        }
    }

    pub fn is_null(&self) -> (r: bool)
        ensures
            r == (*self is Null),
    {
        match self {
            Json::Null => true,
            _ => false,
        }
    }

    pub fn as_i64(&self) -> (r: Option<i64>)
        ensures
            r == as_i64_spec(*self),
    {
        match self {
            Json::Integer(n) => {
                if i64::MIN as i128 <= *n && *n <= i64::MAX as i128 {
                    Some(*n as i64)
                } else {
                    None
                }
            },
            _ => None,
        }
    }

    pub fn as_u64(&self) -> (r: Option<u64>)
        ensures
            r == as_u64_spec(*self),
    {
        match self {
            Json::Integer(n) => {
                if 0 <= *n && *n <= u64::MAX as i128 {
                    Some(*n as u64)
                } else {
                    None
                }
            },
            _ => None,
        }
    }

    pub fn as_str(&self) -> (r: Option<&str>)
        ensures
            match r {
                Some(s) => as_str_spec(*self) == Some(s@),
                None => as_str_spec(*self) is None,
            },
    {
        match self {
            Json::Str(s) => Some(s.as_str()),
            _ => None,
        }
    }
}

} // verus!
