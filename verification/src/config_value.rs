//! The dynamic config value: a closed tagged union representing one parsed
//! configuration node. Every higher component consumes this type instead of
//! a concrete parser type; equality and type inspection are structural.

use vstd::prelude::*;
use crate::strutil::str_eq;

verus! {

/// One parsed configuration node: a string, a boolean, an ordered sequence,
/// an ordered string-keyed mapping, or an absent value.
pub enum ConfigValue {
    Str(String),
    Bool(bool),
    Array(Vec<ConfigValue>),
    Hash(Vec<(String, ConfigValue)>),
    Absent,
}

/// The value at `key` in an ordered mapping: the first entry with that key,
/// or `None` when no entry has it.
pub open spec fn lookup(entries: Seq<(String, ConfigValue)>, key: Seq<char>) -> Option<ConfigValue>
    decreases entries.len(),
{
    if entries.len() == 0 {
        None
    } else if entries[0].0@ == key {
        Some(entries[0].1)
    } else {
        lookup(entries.drop_first(), key)
    }
}

impl ConfigValue {
    /// Whether this value is a string.
    pub fn is_string(&self) -> (r: bool)
        ensures
            r == (self is Str),
    {
        match self {
            ConfigValue::Str(_) => true,
            _ => false,
        }
    }

    /// Whether this value is an ordered sequence.
    pub fn is_array(&self) -> (r: bool)
        ensures
            r == (self is Array),
    {
        match self {
            ConfigValue::Array(_) => true,
            _ => false,
        }
    }

    /// Whether this value is an ordered string-keyed mapping.
    pub fn is_hash(&self) -> (r: bool)
        ensures
            r == (self is Hash),
    {
        match self {
            ConfigValue::Hash(_) => true,
            _ => false,
        }
    }

    /// The held string, when this value is one.
    pub fn as_str(&self) -> (r: Option<&String>)
        ensures
            self is Str <==> r is Some,
            r matches Some(s) ==> *s == self->Str_0,
    {
        match self {
            ConfigValue::Str(s) => Some(s),
            _ => None,
        }
    }

    /// The held boolean, when this value is one.
    pub fn as_bool(&self) -> (r: Option<bool>)
        ensures
            self is Bool <==> r is Some,
            r matches Some(b) ==> b == self->Bool_0,
    {
        match self {
            ConfigValue::Bool(b) => Some(*b),
            _ => None,
        }
    }

    /// The held sequence, when this value is one.
    pub fn as_vec(&self) -> (r: Option<&Vec<ConfigValue>>)
        ensures
            self is Array <==> r is Some,
            r matches Some(v) ==> *v == self->Array_0,
    {
        match self {
            ConfigValue::Array(v) => Some(v),
            _ => None,
        }
    }

    /// The held mapping entries, when this value is one.
    pub fn as_hash(&self) -> (r: Option<&Vec<(String, ConfigValue)>>)
        ensures
            self is Hash <==> r is Some,
            r matches Some(v) ==> *v == self->Hash_0,
    {
        match self {
            ConfigValue::Hash(v) => Some(v),
            _ => None,
        }
    }

}

/// The value at `key` in `entries`, by reference: the first entry whose key
/// matches, as `lookup` describes.
pub fn hash_get<'a>(entries: &'a Vec<(String, ConfigValue)>, key: &str) -> (r: Option<
    &'a ConfigValue,
>)
    ensures
        match r {
            Some(v) => lookup(entries@, key@) == Some(*v),
            None => lookup(entries@, key@) is None,
        },
{
    let mut i: usize = 0;
    proof {
        assert(entries@.skip(0) =~= entries@);
    }
    while i < entries.len()
        invariant
            i <= entries.len(),
            lookup(entries@, key@) == lookup(entries@.skip(i as int), key@),
        decreases entries.len() - i,
    {
        proof {
            assert(entries@.skip(i as int)[0] == entries@[i as int]);
            assert(entries@.skip(i as int).drop_first() =~= entries@.skip(i as int + 1));
        }
        if str_eq(entries[i].0.as_str(), key) {
            return Some(&entries[i].1);
        }
        i = i + 1;
    }
    proof {
        assert(entries@.skip(entries@.len() as int).len() == 0);
    }
    None
}

} // verus!
