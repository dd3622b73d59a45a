//! A JSON value as the library reads it: the shape of a parsed document, with numbers kept as
//! the integers they are (or as their text when they have a fraction or exponent).
use crate::text::{decimal, decimal_chars, from_chars, str_eq};
use vstd::prelude::*;

verus! {

/// A JSON value.
#[derive(Debug)]
pub enum Json {
    Null,
    Bool(bool),
    /// A non-negative integer.
    UInt(u64),
    /// A negative integer.
    NegInt(i64),
    /// A number with a fraction or an exponent, by its shortest text.
    Fraction(String),
    Str(String),
    Array(Vec<Json>),
    /// Members in document order; a key occurs at most once.
    Object(Vec<(String, Json)>),
}

/// The value of the first member named `key` among `members`.
pub open spec fn member(members: Seq<(String, Json)>, key: Seq<char>) -> Option<Json>
    decreases members.len(),
{
    if members.len() == 0 {
        None
    } else if members[0].0@ == key {
        Some(members[0].1)
    } else {
        member(members.drop_first(), key)
    }
}

/// The member `key` of an object; nothing for any other value.
pub open spec fn field(value: Json, key: Seq<char>) -> Option<Json> {
    match value {
        Json::Object(members) => member(members@, key),
        _ => None,
    }
}

/// The text of a string value.
pub open spec fn text_of(value: Option<Json>) -> Option<Seq<char>> {
    match value {
        Some(Json::Str(s)) => Some(s@),
        _ => None,
    }
}

/// A non-negative integer value.
pub open spec fn unsigned_of(value: Option<Json>) -> Option<u64> {
    match value {
        Some(Json::UInt(n)) => Some(n),
        _ => None,
    }
}

/// An integer value that fits in `i64`.
pub open spec fn signed_of(value: Option<Json>) -> Option<i64> {
    match value {
        Some(Json::UInt(n)) => if n <= i64::MAX { Some(n as i64) } else { None },
        Some(Json::NegInt(n)) => Some(n),
        _ => None,
    }
}

/// Decimal text of an integer, with a leading '-' when negative.
pub open spec fn signed_decimal(n: int) -> Seq<char> {
    if n < 0 {
        seq!['-'] + decimal((-n) as nat)
    } else {
        decimal(n as nat)
    }
}

/// The text of a number value, as a JSON writer prints it.
pub open spec fn number_text(value: Json) -> Option<Seq<char>> {
    match value {
        Json::UInt(n) => Some(decimal(n as nat)),
        Json::NegInt(n) => Some(signed_decimal(n as int)),
        Json::Fraction(t) => Some(t@),
        _ => None,
    }
}

impl Json {
    /// The member `key` of this value, when it is an object that has one.
    pub fn get(&self, key: &str) -> (r: Option<&Json>)
        ensures
            match r {
                Some(v) => field(*self, key@) == Some(*v),
                None => field(*self, key@) is None,
            },
    {
        match self {
            Json::Object(members) => {
                let mut i: usize = 0;
                assert(members@.skip(0) =~= members@);
                while i < members.len()
                    invariant
                        i <= members.len(),
                        field(*self, key@) == member(members@, key@),
                        member(members@, key@) == member(members@.skip(i as int), key@),
                    decreases members.len() - i,
                {
                    assert(members@.skip(i as int).drop_first() =~= members@.skip(i + 1));
                    assert(members@.skip(i as int)[0] == members@[i as int]);
                    if str_eq(members[i].0.as_str(), key) {
                        assert(member(members@.skip(i as int), key@) == Some(members@[i as int].1));
                        return Some(&members[i].1);
                    }
                    i += 1;
                }
                None
            },
            _ => None,
        }
    }

    /// The text of a string value.
    pub fn as_str(&self) -> (r: Option<&str>)
        ensures
            match r {
                Some(s) => text_of(Some(*self)) == Some(s@),
                None => text_of(Some(*self)) is None,
            },
    {
        match self {
            Json::Str(s) => Some(s.as_str()),
            _ => None,
        }
    }

    /// A non-negative integer value.
    pub fn as_u64(&self) -> (r: Option<u64>)
        ensures
            r == unsigned_of(Some(*self)),
    {
        match self {
            Json::UInt(n) => Some(*n),
            _ => None,
        }
    }

    /// The text of a number value, as a JSON writer prints it.
    pub fn number_text(&self) -> (r: Option<String>)
        ensures
            match r {
                Some(t) => number_text(*self) == Some(t@),
                None => number_text(*self) is None,
            },
    {
        match self {
            Json::UInt(n) => Some(from_chars(&decimal_chars(*n))),
            Json::NegInt(n) => {
                if *n >= 0 {
                    return Some(from_chars(&decimal_chars(*n as u64)));
                }
                let wide: i128 = -(*n as i128);
                assert(0 < wide <= 9223372036854775808i128);
                let magnitude: u64 = wide as u64;
                let mut text: Vec<char> = Vec::new();
                text.push('-');
                let digits = decimal_chars(magnitude);
                let mut k: usize = 0;
                while k < digits.len()
                    invariant
                        k <= digits.len(),
                        text@ == seq!['-'] + digits@.take(k as int),
                    decreases digits.len() - k,
                {
                    text.push(digits[k]);
                    k += 1;
                    assert(text@ =~= seq!['-'] + digits@.take(k as int));
                }
                assert(digits@.take(k as int) =~= digits@);
                Some(from_chars(&text))
            },
            Json::Fraction(t) => Some(t.clone()),
            _ => None,
        }
    }

    /// An integer value that fits in `i64`.
    pub fn as_i64(&self) -> (r: Option<i64>)
        ensures
            r == signed_of(Some(*self)),
    {
        match self {
            Json::UInt(n) => if *n <= 9223372036854775807u64 { Some(*n as i64) } else { None },
            Json::NegInt(n) => Some(*n),
            _ => None,
        }
    }
}

} // verus!
