//! Path resolution and the parsing of directory entries. A config-supplied
//! path may be home-relative (`~/...`), hold environment variables, or be
//! relative to the directory of the config file; resolution expands it and
//! absolutizes it through the filesystem boundary. Parsing a directory
//! entry into a `DirSpec` is pure and exact; the src-equals-target check
//! runs on the resolved paths, before any filesystem mutation.

use vstd::prelude::*;
use crate::config_value::{ConfigValue, hash_get, lookup};
use crate::fsio::{absolute_path, create_dir_all, expand_str, resolve_dir};
use crate::strutil::{str_concat, str_concat3, strs};
use crate::validation::{Rule, first_failure, named_first_failure, rule_error, rule_passes,
    value_at, validate_named_args};

verus! {

/// A resolved synchronization request: where to read, where to mirror,
/// what to skip, and whether an existing destination file may be replaced.
#[derive(Debug)]
pub struct DirSpec {
    pub src: String,
    pub target: String,
    pub ignore: Vec<String>,
    pub force: bool,
}

/// Whether the string holds a `$` immediately followed by a character
/// outside ASCII. The shell expansion behind `expand_str` slices one byte
/// behind such a `$` and can fall mid-character there, so these strings
/// are refused before expansion. (This is a shade wider than the exact
/// panic condition — any non-ASCII character after a `$` is refused, not
/// only alphanumeric ones — because the simple rule is checkable and the
/// excluded paths name no real variable.)
pub open spec fn dollar_hazard(s: Seq<char>) -> bool {
    exists|i: int| 0 <= i < s.len() - 1 && #[trigger] s[i] == '$' && (s[i + 1] as u32) > 127
}

/// Whether the string is refused before expansion, as `dollar_hazard`
/// states.
pub fn has_dollar_hazard(s: &str) -> (r: bool)
    ensures
        r == dollar_hazard(s@),
{
    let n = s.unicode_len();
    let mut i: usize = 0;
    while i < n
        invariant
            i <= n,
            n == s@.len(),
            forall|j: int|
                0 <= j < i ==> !(#[trigger] s@[j] == '$' && j < s@.len() - 1 && (s@[j + 1] as u32)
                    > 127),
        decreases n - i,
    {
        if s.get_char(i) == '$' && i + 1 < n {
            let next = s.get_char(i + 1);
            if next as u32 > 127 {
                proof {
                    let w = i as int;
                    assert(0 <= w < s@.len() - 1 && s@[w] == '$' && (s@[w + 1] as u32) > 127);
                }
                return true;
            }
        }
        i = i + 1;
    }
    false
}

/// Expands `~` and environment variables and absolutizes the path against
/// the current directory, without requiring it to exist. A path the
/// expansion cannot take (see `dollar_hazard`) is refused with an exact
/// message; past that, the result depends on the environment and the
/// current directory, so nothing more is promised here; callers check
/// existence themselves.
pub fn expand_path(raw: &str) -> (r: Result<String, String>)
    ensures
        dollar_hazard(raw@) ==> (r matches Err(m) && m@ == "cannot expand path: "@ + raw@),
{
    if has_dollar_hazard(raw) {
        return Err(str_concat("cannot expand path: ", raw));
    }
    let expanded = match expand_str(raw) {
        Ok(e) => e,
        Err(e) => {
            return Err(e);
        },
    };
    absolute_path(expanded.as_str())
}

/// Expands the path and resolves it as a directory: with
/// `create_if_missing` the directory and its ancestors are created first
/// (an existing directory is kept); without it, a missing directory is an
/// error whose message names the path. A path the expansion cannot take
/// (see `dollar_hazard`) is refused with an exact message.
pub fn expand_dir(raw: &str, create_if_missing: bool) -> (r: Result<String, String>)
    ensures
        dollar_hazard(raw@) ==> (r matches Err(m) && m@ == "cannot expand path: "@ + raw@),
{
    if has_dollar_hazard(raw) {
        return Err(str_concat("cannot expand path: ", raw));
    }
    let expanded = match expand_str(raw) {
        Ok(e) => e,
        Err(e) => {
            return Err(e);
        },
    };
    if create_if_missing {
        create_dir_all(expanded.as_str())
    } else {
        resolve_dir(expanded.as_str())
    }
}

/// The "same directory" guard: fails exactly when the two resolved paths
/// are equal, naming the entry's source; succeeds otherwise. Commands run
/// this before any tree walk, so an entry whose source and target resolve
/// to the same directory mutates nothing.
pub fn check_same_dir(source_label: &str, src: &String, target: &String) -> (r: Result<(), String>)
    ensures
        r is Ok <==> src@ != target@,
        r matches Err(m) ==> m@ == "Source and destination directories are the same: "@
            + source_label@,
{
    if crate::strutil::str_eq(src.as_str(), target.as_str()) {
        Err(str_concat("Source and destination directories are the same: ", source_label))
    } else {
        Ok(())
    }
}

/// The missing-source guard: succeeds exactly when the resolved source
/// was found on disk, and otherwise names the entry's source. The drawn
/// existence boolean is this function's argument, so the decision itself
/// is verified for either draw.
pub fn check_source_exists(source_label: &str, exists: bool) -> (r: Result<(), String>)
    ensures
        r is Ok <==> exists,
        r matches Err(m) ==> m@ == "Source directory does not exist: "@ + source_label@,
{
    if exists {
        Ok(())
    } else {
        Err(str_concat("Source directory does not exist: ", source_label))
    }
}

/// The pattern strings among the elements of an ignore list, in order;
/// elements of other types carry no pattern and are skipped.
pub open spec fn patterns_of(es: Seq<ConfigValue>) -> Seq<Seq<char>>
    decreases es.len(),
{
    if es.len() == 0 {
        Seq::empty()
    } else if es[0] is Str {
        seq![es[0]->Str_0@] + patterns_of(es.drop_first())
    } else {
        patterns_of(es.drop_first())
    }
}

/// Collecting one more element appends its pattern, if it carries one.
pub proof fn lemma_patterns_push(es: Seq<ConfigValue>, e: ConfigValue)
    ensures
        patterns_of(es.push(e)) =~= if e is Str {
            patterns_of(es).push(e->Str_0@)
        } else {
            patterns_of(es)
        },
    decreases es.len(),
{
    if es.len() == 0 {
        assert(es.push(e).drop_first() =~= Seq::<ConfigValue>::empty());
        assert(es.push(e)[0] == e);
        assert(patterns_of(Seq::<ConfigValue>::empty()) =~= Seq::<Seq<char>>::empty());
        assert(es =~= Seq::<ConfigValue>::empty());
    } else {
        assert(es.push(e).drop_first() =~= es.drop_first().push(e));
        lemma_patterns_push(es.drop_first(), e);
        assert(es.push(e)[0] == es[0]);
    }
}

/// Collects the pattern strings of an ignore list, as `patterns_of`
/// states.
pub fn collect_patterns(es: &Vec<ConfigValue>) -> (r: Vec<String>)
    ensures
        strs(r@) == patterns_of(es@),
{
    let mut out: Vec<String> = Vec::new();
    let mut i: usize = 0;
    while i < es.len()
        invariant
            i <= es.len(),
            strs(out@) =~= patterns_of(es@.take(i as int)),
        decreases es.len() - i,
    {
        proof {
            lemma_patterns_push(es@.take(i as int), es@[i as int]);
            assert(es@.take(i as int).push(es@[i as int]) =~= es@.take(i as int + 1));
        }
        match &es[i] {
            ConfigValue::Str(s) => {
                out.push(s.clone());
                proof {
                    assert(strs(out@) =~= strs(out@.drop_last()).push(out@.last()@));
                }
            },
            _ => {},
        }
        i = i + 1;
    }
    proof {
        assert(es@.take(es@.len() as int) =~= es@);
    }
    out
}

/// The ignore strings wrapped back into config values, pattern for
/// pattern.
pub fn patterns_as_values(v: &Vec<String>) -> (r: Vec<ConfigValue>)
    ensures
        patterns_of(r@) == strs(v@),
{
    let mut out: Vec<ConfigValue> = Vec::new();
    let mut i: usize = 0;
    while i < v.len()
        invariant
            i <= v.len(),
            patterns_of(out@) =~= strs(v@.take(i as int)),
        decreases v.len() - i,
    {
        proof {
            lemma_patterns_push(out@, ConfigValue::Str(v@[i as int]));
        }
        out.push(ConfigValue::Str(v[i].clone()));
        proof {
            assert(strs(v@.take(i as int + 1)) =~= strs(v@.take(i as int)).push(v@[i as int]@));
        }
        i = i + 1;
    }
    proof {
        assert(strs(v@.take(v@.len() as int)) =~= strs(v@));
    }
    out
}

/// A path string of an entry resolved against the config directory:
/// absolute and home-relative paths stand as they are, anything else is
/// read relative to `base`.
pub open spec fn resolve_src(raw: Seq<char>, base: Seq<char>) -> Seq<char> {
    if raw.len() > 0 && (raw[0] == '/' || raw[0] == '~') {
        raw
    } else {
        base + "/"@ + raw
    }
}

/// What a directory entry parses to: the resolved source, the target, the
/// ignore patterns and the force flag — or the validation error reported.
pub open spec fn dir_spec_of(args: ConfigValue, base: Seq<char>) -> Result<
    (Seq<char>, Seq<char>, Seq<Seq<char>>, bool),
    Seq<char>,
> {
    if !(args is Hash) {
        Err("args is not an object"@)
    } else {
        let entries = args->Hash_0@;
        let sv = value_at(entries, "src"@);
        let tv = value_at(entries, "target"@);
        if !(sv is Str) {
            Err(
                "src"@ + ": "@ + if sv is Absent {
                    "value is required"@
                } else {
                    "value is not a string"@
                },
            )
        } else if !(tv is Str) {
            Err(
                "target"@ + ": "@ + if tv is Absent {
                    "value is required"@
                } else {
                    "value is not a string"@
                },
            )
        } else {
            match lookup(entries, "ignore"@) {
                Some(iv) => if iv is Array {
                    Ok(
                        (
                            resolve_src(sv->Str_0@, base),
                            resolve_src(tv->Str_0@, base),
                            patterns_of(iv->Array_0@),
                            force_of(entries),
                        ),
                    )
                } else {
                    Err("ignore: value is not an array"@)
                },
                None => Ok(
                    (
                        resolve_src(sv->Str_0@, base),
                        resolve_src(tv->Str_0@, base),
                        Seq::empty(),
                        force_of(entries),
                    ),
                ),
            }
        }
    }
}

/// The force flag of an entry: the boolean at `force`, false when the key
/// is missing or holds anything but a boolean.
pub open spec fn force_of(entries: Seq<(String, ConfigValue)>) -> bool {
    match lookup(entries, "force"@) {
        Some(v) => v is Bool && v->Bool_0,
        None => false,
    }
}

/// The required-string rule list used for `src` and `target`.
fn required_string_rules() -> (r: Vec<Rule>)
    ensures
        r@ =~= seq![Rule::Required, Rule::IsString],
{
    let mut rules: Vec<Rule> = Vec::new();
    rules.push(Rule::Required);
    rules.push(Rule::IsString);
    rules
}

/// What the required-string rule list reports on one value.
proof fn lemma_required_string(rules: Seq<Rule>, v: ConfigValue)
    requires
        rules =~= seq![Rule::Required, Rule::IsString],
    ensures
        first_failure(rules, v) == if v is Absent {
            Some("value is required"@)
        } else if !(v is Str) {
            Some("value is not a string"@)
        } else {
            None::<Seq<char>>
        },
{
    assert(rules[0] == Rule::Required);
    assert(rules[1] == Rule::IsString);
    assert(rules.drop_first() =~= seq![Rule::IsString]);
    assert(rules.drop_first().drop_first() =~= Seq::<Rule>::empty());
    if v is Absent {
        assert(!rule_passes(rules[0], v));
        assert(first_failure(rules, v) == Some(rule_error(Rule::Required)));
    } else {
        assert(rule_passes(rules[0], v));
        assert(first_failure(rules, v) == first_failure(rules.drop_first(), v));
        assert(rules.drop_first()[0] == Rule::IsString);
        if v is Str {
            assert(rule_passes(rules.drop_first()[0], v));
            assert(first_failure(rules.drop_first(), v) == first_failure(
                rules.drop_first().drop_first(),
                v,
            ));
            assert(first_failure(Seq::<Rule>::empty(), v) is None);
        } else {
            assert(first_failure(rules.drop_first(), v) == Some(rule_error(Rule::IsString)));
        }
    }
}

/// Resolves one entry path against the config directory, as
/// `resolve_src` states.
fn resolve_against_base(raw: String, base_dir: &str) -> (r: String)
    ensures
        r@ == resolve_src(raw@, base_dir@),
{
    if raw.as_str().unicode_len() > 0 && (raw.as_str().get_char(0) == '/' || raw.as_str().get_char(
        0,
    ) == '~') {
        raw
    } else {
        str_concat3(base_dir, "/", raw.as_str())
    }
}

/// Parses a directory entry into a resolved `DirSpec`, as `dir_spec_of`
/// states: `src` and `target` are required strings (validated through the
/// validation engine before anything else is read), `ignore` defaults to
/// the empty pattern list, `force` to false, and relative source and
/// target paths are resolved against the config directory. A bare-string
/// entry carries no
/// target of its own — supplying one is the dispatcher's convention — so
/// only mappings are accepted here.
pub fn get_source_and_target(args: &ConfigValue, base_dir: &str) -> (r: Result<DirSpec, String>)
    ensures
        match r {
            Ok(d) => dir_spec_of(*args, base_dir@) == Ok::<
                (Seq<char>, Seq<char>, Seq<Seq<char>>, bool),
                Seq<char>,
            >((d.src@, d.target@, strs(d.ignore@), d.force)),
            Err(m) => dir_spec_of(*args, base_dir@) == Err::<
                (Seq<char>, Seq<char>, Seq<Seq<char>>, bool),
                Seq<char>,
            >(m@),
        },
{
    let mut named: Vec<(String, Vec<Rule>)> = Vec::new();
    named.push((String::from_str("src"), required_string_rules()));
    named.push((String::from_str("target"), required_string_rules()));
    proof {
        assert(named@.drop_first() =~= seq![named@[1]]);
        assert(named@.drop_first().drop_first() =~= Seq::<(String, Vec<Rule>)>::empty());
    }
    proof {
        assert(named@[0].0@ == "src"@);
        assert(named@[1].0@ == "target"@);
    }
    match validate_named_args(args, &named) {
        Err(m) => {
            proof {
                if args is Hash {
                    let entries = args->Hash_0@;
                    lemma_required_string(named@[0].1@, value_at(entries, "src"@));
                    lemma_required_string(named@[1].1@, value_at(entries, "target"@));
                    assert(named_first_failure(entries, named@) == Some(m@));
                    let f0 = first_failure(named@[0].1@, value_at(entries, "src"@));
                    if f0 is Some {
                        assert(named_first_failure(entries, named@) == Some(
                            "src"@ + ": "@ + f0->Some_0,
                        ));
                    } else {
                        assert(named_first_failure(entries, named@) == named_first_failure(
                            entries,
                            named@.drop_first(),
                        ));
                        let f1 = first_failure(named@[1].1@, value_at(entries, "target"@));
                        assert(named@.drop_first()[0] == named@[1]);
                        assert(named@.drop_first().drop_first() =~= Seq::<(
                            String,
                            Vec<Rule>,
                        )>::empty());
                        if f1 is Some {
                            assert(named_first_failure(entries, named@.drop_first()) == Some(
                                "target"@ + ": "@ + f1->Some_0,
                            ));
                        } else {
                            assert(named_first_failure(
                                entries,
                                Seq::<(String, Vec<Rule>)>::empty(),
                            ) is None);
                            assert(false);
                        }
                    }
                }
            }
            Err(m)
        },
        Ok(()) => {
            proof {
                let entries = args->Hash_0@;
                lemma_required_string(named@[0].1@, value_at(entries, "src"@));
                lemma_required_string(named@[1].1@, value_at(entries, "target"@));
                assert(named_first_failure(entries, named@) is None);
                assert(named@.drop_first()[0] == named@[1]);
                assert(first_failure(named@[0].1@, value_at(entries, "src"@)) is None);
                assert(named_first_failure(entries, named@.drop_first()) is None);
                assert(first_failure(named@[1].1@, value_at(entries, "target"@)) is None);
                assert(value_at(entries, "src"@) is Str);
                assert(value_at(entries, "target"@) is Str);
            }
            let entries = match args.as_hash() {
                Some(entries) => entries,
                None => {
                    proof {
                        assert(false);
                    }
                    return Err(String::new());
                },
            };
            let src_raw: String = match hash_get(entries, "src") {
                Some(ConfigValue::Str(s)) => s.clone(),
                _ => {
                    proof {
                        assert(false);
                    }
                    return Err(String::new());
                },
            };
            let target_raw: String = match hash_get(entries, "target") {
                Some(ConfigValue::Str(s)) => s.clone(),
                _ => {
                    proof {
                        assert(false);
                    }
                    return Err(String::new());
                },
            };
            let target = target_raw;
            let ignore: Vec<String> = match hash_get(entries, "ignore") {
                None => Vec::new(),
                Some(ConfigValue::Array(es)) => collect_patterns(es),
                Some(_) => {
                    return Err(String::from_str("ignore: value is not an array"));
                },
            };
            let force: bool = match hash_get(entries, "force") {
                Some(ConfigValue::Bool(b)) => *b,
                _ => false,
            };
            let src = resolve_against_base(src_raw, base_dir);
            let target = resolve_against_base(target, base_dir);
            proof {
                if lookup(args->Hash_0@, "ignore"@) is None {
                    assert(strs(ignore@) =~= Seq::<Seq<char>>::empty());
                }
            }
            Ok(DirSpec { src, target, ignore, force })
        },
    }
}

} // verus!
