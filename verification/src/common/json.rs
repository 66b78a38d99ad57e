//! A JSON object as configuration logic reads it: each member's kind, with the scalars
//! the logic tests (strings, booleans, unsigned integers) held as values.
use vstd::prelude::*;
use crate::common::text::str_eq;

verus! {

/// One member value of a JSON object.
pub enum JsonField {
    Null,
    Bool(bool),
    /// A number; holds its value when it is an unsigned integer that fits in `u64`
    /// (what `as_u64` gives), `None` for negative or fractional numbers.
    Number(Option<u64>),
    Str(String),
    Array,
    Object,
}

/// A JSON value seen as an object: its members in order (keys distinct), or `None` when
/// the value is not an object at all.
pub struct JsonConfig {
    pub members: Option<Vec<(String, JsonField)>>,
}

/// The first member named `key` among `members`.
pub open spec fn member_of(members: Seq<(String, JsonField)>, key: Seq<char>) -> Option<JsonField>
    decreases members.len(),
{
    if members.len() == 0 {
        None
    } else if members[0].0@ == key {
        Some(members[0].1)
    } else {
        member_of(members.drop_first(), key)
    }
}

/// The member `key` of `c` (`Value::get`): `None` when `c` is no object or lacks it.
pub open spec fn config_get(c: JsonConfig, key: Seq<char>) -> Option<JsonField> {
    match c.members {
        Some(m) => member_of(m@, key),
        None => None,
    }
}

/// Member `key` as a string (`get(key).and_then(as_str)`).
pub open spec fn config_str(c: JsonConfig, key: Seq<char>) -> Option<Seq<char>> {
    match config_get(c, key) {
        Some(JsonField::Str(s)) => Some(s@),
        _ => None,
    }
}

/// Member `key` as a string, empty when absent or of another kind.
pub open spec fn string_value(c: JsonConfig, key: Seq<char>) -> Seq<char> {
    match config_str(c, key) {
        Some(s) => s,
        None => Seq::empty(),
    }
}

/// Member `key` as an unsigned integer, 0 when absent or of another kind.
pub open spec fn number_value(c: JsonConfig, key: Seq<char>) -> u64 {
    match config_get(c, key) {
        Some(JsonField::Number(Some(n))) => n,
        _ => 0,
    }
}

/// Member `key` as a boolean, `false` when absent or of another kind.
pub open spec fn bool_value(c: JsonConfig, key: Seq<char>) -> bool {
    match config_get(c, key) {
        Some(JsonField::Bool(b)) => b,
        _ => false,
    }
}

impl JsonConfig {
    /// An empty object (`{}`).
    pub fn empty_object() -> (c: JsonConfig)
        ensures
            c.members matches Some(m) && m@.len() == 0,
    {
        JsonConfig { members: Some(Vec::new()) }
    }

    /// Whether the value is an object.
    pub fn is_object(&self) -> (yes: bool)
        ensures
            yes == self.members is Some,
    {
        self.members.is_some()
    }

    /// The member `key` (`Value::get`).
    pub fn get(&self, key: &str) -> (r: Option<&JsonField>)
        ensures
            match r {
                Some(f) => config_get(*self, key@) == Some(*f),
                None => config_get(*self, key@) is None,
            },
    {
        match &self.members {
            None => None,
            Some(members) => {
                let mut i: usize = 0;
                assert(members@.skip(0) =~= members@);
                while i < members.len()
                    invariant
                        self.members == Some(*members),
                        i <= members@.len(),
                        member_of(members@, key@) == member_of(members@.skip(i as int), key@),
                    decreases members@.len() - i,
                {
                    assert(members@.skip(i as int).drop_first() =~= members@.skip(i + 1));
                    assert(members@.skip(i as int)[0] == members@[i as int]);
                    if str_eq(members[i].0.as_str(), key) {
                        return Some(&members[i].1);
                    }
                    i += 1;
                }
                None
            },
        }
    }

    /// Member `key` as a string, empty when absent or of another kind.
    pub fn string(&self, key: &str) -> (s: String)
        ensures
            s@ == string_value(*self, key@),
    {
        match self.get(key) {
            Some(JsonField::Str(s)) => s.clone(),
            _ => String::new(),
        }
    }

    /// Member `key` as an unsigned integer, 0 when absent or of another kind.
    pub fn number(&self, key: &str) -> (n: u64)
        ensures
            n == number_value(*self, key@),
    {
        match self.get(key) {
            Some(JsonField::Number(Some(n))) => *n,
            _ => 0,
        }
    }

    /// Member `key` as a boolean, `false` when absent or of another kind.
    pub fn bool_of(&self, key: &str) -> (b: bool)
        ensures
            b == bool_value(*self, key@),
    {
        match self.get(key) {
            Some(JsonField::Bool(b)) => *b,
            _ => false,
        }
    }
}

} // verus!
