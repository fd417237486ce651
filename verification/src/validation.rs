//! The validation engine: composable predicates over a `ConfigValue` with
//! human-readable, composable error messages. Every command validates its
//! arguments with these rules before acting, so validation failures are
//! reported before any filesystem or process effect.

use vstd::prelude::*;
use crate::config_value::{ConfigValue, lookup, hash_get};
use crate::strutil::{join_seqs, join_strings, lemma_join_push, str_concat3, strs};

verus! {

/// A validation rule over one config value. `OneOf` succeeds when any of
/// its sub-rules succeeds; with zero sub-rules it always fails, with an
/// empty joined message.
pub enum Rule {
    IsString,
    IsArray,
    Required,
    OneOf(Vec<Rule>),
}

/// Whether `v` satisfies rule `r`.
pub open spec fn rule_passes(r: Rule, v: ConfigValue) -> bool
    decreases r,
{
    match r {
        Rule::IsString => v is Str,
        Rule::IsArray => v is Array,
        Rule::Required => !(v is Absent),
        Rule::OneOf(rs) => exists|i: int| 0 <= i < rs@.len() && rule_passes(#[trigger] rs@[i], v),
    }
}

/// The error messages of the rules in `rs`, in order.
pub open spec fn errors_of(rs: Seq<Rule>) -> Seq<Seq<char>>
    decreases rs,
{
    if rs.len() == 0 {
        Seq::empty()
    } else {
        seq![rule_error(rs[0])] + errors_of(rs.drop_first())
    }
}

/// The error message reported when `r` fails: for `OneOf`, the join of all
/// sub-rule messages with `" | "`.
pub open spec fn rule_error(r: Rule) -> Seq<char>
    decreases r,
{
    match r {
        Rule::IsString => "value is not a string"@,
        Rule::IsArray => "value is not an array"@,
        Rule::Required => "value is required"@,
        Rule::OneOf(rs) => join_seqs(errors_of(rs@), " | "@),
    }
}

/// Applies one rule, reporting the rule's message on failure.
pub fn check_rule(r: &Rule, v: &ConfigValue) -> (res: Result<(), String>)
    ensures
        res is Ok <==> rule_passes(*r, *v),
        res matches Err(m) ==> m@ == rule_error(*r),
    decreases *r,
{
    match r {
        Rule::IsString => {
            if v.is_string() {
                Ok(())
            } else {
                Err(String::from_str("value is not a string"))
            }
        },
        Rule::IsArray => {
            if v.is_array() {
                Ok(())
            } else {
                Err(String::from_str("value is not an array"))
            }
        },
        Rule::Required => {
            match v {
                ConfigValue::Absent => Err(String::from_str("value is required")),
                _ => Ok(()),
            }
        },
        Rule::OneOf(rs) => {
            let mut sub_errors: Vec<String> = Vec::new();
            let mut i: usize = 0;
            while i < rs.len()
                invariant
                    i <= rs.len(),
                    *r == Rule::OneOf(*rs),
                    forall|j: int| 0 <= j < i ==> !rule_passes(rs@[j], *v),
                    strs(sub_errors@) =~= errors_of(rs@.take(i as int)),
                decreases rs.len() - i,
            {
                proof {
                    assert(decreases_to!(*r => r->OneOf_0));
                    assert(decreases_to!(r->OneOf_0 => r->OneOf_0@));
                    assert(decreases_to!(r->OneOf_0@ => r->OneOf_0@[i as int]));
                    assert(r->OneOf_0@[i as int] == rs@[i as int]);
                    assert(decreases_to!(*r => rs@[i as int]));
                }
                match check_rule(&rs[i], v) {
                    Ok(()) => {
                        proof {
                            assert(rule_passes(rs@[i as int], *v));
                        }
                        return Ok(());
                    },
                    Err(m) => {
                        sub_errors.push(m);
                        proof {
                            lemma_errors_of_take_push(rs@, i as int);
                        }
                    },
                }
                i = i + 1;
            }
            proof {
                assert(rs@.take(rs@.len() as int) =~= rs@);
            }
            Err(join_strings(&sub_errors, " | "))
        },
    }
}

/// `errors_of` over one more rule appends that rule's message.
proof fn lemma_errors_of_take_push(rs: Seq<Rule>, i: int)
    requires
        0 <= i < rs.len(),
    ensures
        errors_of(rs.take(i + 1)) =~= errors_of(rs.take(i)).push(rule_error(rs[i])),
    decreases i,
{
    if i == 0 {
        assert(rs.take(1) =~= seq![rs[0]]);
        assert(rs.take(1).drop_first() =~= Seq::<Rule>::empty());
        assert(rs.take(0) =~= Seq::<Rule>::empty());
    } else {
        assert(rs.take(i + 1).drop_first() =~= rs.drop_first().take(i));
        assert(rs.take(i).drop_first() =~= rs.drop_first().take(i - 1));
        lemma_errors_of_take_push(rs.drop_first(), i - 1);
        assert(rs.drop_first().take(i - 1 + 1) =~= rs.drop_first().take(i));
        assert(rs.drop_first()[i - 1] == rs[i]);
        assert(rs.take(i + 1)[0] == rs[0]);
        assert(rs.take(i)[0] == rs[0]);
    }
}

/// The message of the first failing rule in `rules` on `v`, or `None` when
/// every rule passes.
pub open spec fn first_failure(rules: Seq<Rule>, v: ConfigValue) -> Option<Seq<char>>
    decreases rules.len(),
{
    if rules.len() == 0 {
        None
    } else if !rule_passes(rules[0], v) {
        Some(rule_error(rules[0]))
    } else {
        first_failure(rules.drop_first(), v)
    }
}

/// Applies every rule to one value, in order; fails on the first failing
/// rule with that rule's message.
pub fn validate_args(value: &ConfigValue, rules: &Vec<Rule>) -> (res: Result<(), String>)
    ensures
        res is Ok <==> first_failure(rules@, *value) is None,
        res matches Err(m) ==> first_failure(rules@, *value) == Some(m@),
{
    let mut i: usize = 0;
    proof {
        assert(rules@.skip(0) =~= rules@);
    }
    while i < rules.len()
        invariant
            i <= rules.len(),
            first_failure(rules@, *value) == first_failure(rules@.skip(i as int), *value),
        decreases rules.len() - i,
    {
        proof {
            assert(rules@.skip(i as int)[0] == rules@[i as int]);
            assert(rules@.skip(i as int).drop_first() =~= rules@.skip(i as int + 1));
        }
        match check_rule(&rules[i], value) {
            Ok(()) => {},
            Err(m) => {
                return Err(m);
            },
        }
        i = i + 1;
    }
    proof {
        assert(rules@.skip(rules@.len() as int).len() == 0);
    }
    Ok(())
}

/// The value at `key` in a mapping, with a missing key read as `Absent` so
/// that `Required` can fire on it.
pub open spec fn value_at(entries: Seq<(String, ConfigValue)>, key: Seq<char>) -> ConfigValue {
    match lookup(entries, key) {
        Some(v) => v,
        None => ConfigValue::Absent,
    }
}

/// The first failing declared key's message, prefixed with that key, or
/// `None` when every declared key's rules pass.
pub open spec fn named_first_failure(
    entries: Seq<(String, ConfigValue)>,
    named: Seq<(String, Vec<Rule>)>,
) -> Option<Seq<char>>
    decreases named.len(),
{
    if named.len() == 0 {
        None
    } else {
        match first_failure(named[0].1@, value_at(entries, named[0].0@)) {
            Some(m) => Some(named[0].0@ + ": "@ + m),
            None => named_first_failure(entries, named.drop_first()),
        }
    }
}

/// For each declared key, applies that key's rules to the value at the key
/// (absent values included); the first key whose rules fail determines the
/// reported error, as `"{key}: {rule_message}"`. A non-mapping argument is
/// itself a validation error.
pub fn validate_named_args(args: &ConfigValue, named: &Vec<(String, Vec<Rule>)>) -> (res: Result<
    (),
    String,
>)
    ensures
        args is Hash ==> (res is Ok <==> named_first_failure(args->Hash_0@, named@) is None),
        args is Hash ==> (res matches Err(m) ==> named_first_failure(args->Hash_0@, named@)
            == Some(m@)),
        !(args is Hash) ==> (res matches Err(m) && m@ == "args is not an object"@),
{
    let entries = match args.as_hash() {
        Some(entries) => entries,
        None => {
            return Err(String::from_str("args is not an object"));
        },
    };
    let absent = ConfigValue::Absent;
    let mut i: usize = 0;
    proof {
        assert(named@.skip(0) =~= named@);
    }
    while i < named.len()
        invariant
            i <= named.len(),
            args is Hash,
            *entries == args->Hash_0,
            absent is Absent,
            named_first_failure(entries@, named@) == named_first_failure(
                entries@,
                named@.skip(i as int),
            ),
        decreases named.len() - i,
    {
        proof {
            assert(named@.skip(i as int)[0] == named@[i as int]);
            assert(named@.skip(i as int).drop_first() =~= named@.skip(i as int + 1));
        }
        let value = match hash_get(entries, named[i].0.as_str()) {
            Some(v) => v,
            None => &absent,
        };
        match validate_args(value, &named[i].1) {
            Ok(()) => {},
            Err(m) => {
                return Err(str_concat3(named[i].0.as_str(), ": ", m.as_str()));
            },
        }
        i = i + 1;
    }
    proof {
        assert(named@.skip(named@.len() as int).len() == 0);
    }
    Ok(())
}

} // verus!
