//! Small executable string helpers with exact contracts, shared by the
//! validation engine, the command resolver and the tree-sync planner.

use vstd::prelude::*;

verus! {

/// The views of a sequence of strings.
pub open spec fn strs(v: Seq<String>) -> Seq<Seq<char>> {
    v.map(|i: int, s: String| s@)
}

/// `xs` joined with the separator `sep`: no separator before the first
/// element or after the last.
pub open spec fn join_seqs(xs: Seq<Seq<char>>, sep: Seq<char>) -> Seq<char>
    decreases xs.len(),
{
    if xs.len() == 0 {
        Seq::empty()
    } else if xs.len() == 1 {
        xs[0]
    } else {
        xs[0] + sep + join_seqs(xs.drop_first(), sep)
    }
}

/// Appending one element to the joined sequence appends one separator and
/// that element (or just the element, when nothing was joined yet).
pub proof fn lemma_join_push(xs: Seq<Seq<char>>, sep: Seq<char>, x: Seq<char>)
    ensures
        join_seqs(xs.push(x), sep) == if xs.len() == 0 {
            x
        } else {
            join_seqs(xs, sep) + sep + x
        },
    decreases xs.len(),
{
    if xs.len() == 0 {
        assert(xs.push(x) =~= seq![x]);
    } else if xs.len() == 1 {
        assert(xs.push(x).drop_first() =~= seq![x]);
        assert(xs.push(x)[0] == xs[0]);
        assert(join_seqs(seq![x], sep) == x);
        assert(join_seqs(xs.push(x), sep) == xs[0] + sep + join_seqs(xs.push(x).drop_first(), sep));
        assert(join_seqs(xs, sep) + sep + x == xs[0] + sep + x);
    } else {
        assert(xs.push(x).drop_first() =~= xs.drop_first().push(x));
        lemma_join_push(xs.drop_first(), sep, x);
        assert(join_seqs(xs.push(x), sep) == xs[0] + sep + join_seqs(xs.drop_first().push(x), sep));
        assert(join_seqs(xs.drop_first().push(x), sep) == join_seqs(xs.drop_first(), sep) + sep + x);
        assert((xs[0] + sep + (join_seqs(xs.drop_first(), sep) + sep + x)) =~= ((xs[0] + sep
            + join_seqs(xs.drop_first(), sep)) + sep + x));
    }
}

/// Whether two string slices hold the same characters.
pub fn str_eq(a: &str, b: &str) -> (r: bool)
    ensures
        r == (a@ == b@),
{
    let owned_a: String = a.to_owned();
    let owned_b: String = b.to_owned();
    owned_a == owned_b
}

/// The concatenation of two string slices.
pub fn str_concat(a: &str, b: &str) -> (r: String)
    ensures
        r@ == a@ + b@,
{
    let owned: String = a.to_owned();
    owned.concat(b)
}

/// The concatenation of three string slices.
pub fn str_concat3(a: &str, b: &str, c: &str) -> (r: String)
    ensures
        r@ == a@ + b@ + c@,
{
    let owned: String = a.to_owned();
    owned.concat(b).concat(c)
}

/// `parts` joined with the separator `sep`.
pub fn join_strings(parts: &Vec<String>, sep: &str) -> (r: String)
    ensures
        r@ == join_seqs(strs(parts@), sep@),
{
    let mut out = String::new();
    let mut i: usize = 0;
    while i < parts.len()
        invariant
            i <= parts.len(),
            out@ == join_seqs(strs(parts@).take(i as int), sep@),
        decreases parts.len() - i,
    {
        proof {
            lemma_join_push(strs(parts@).take(i as int), sep@, parts@[i as int]@);
            assert(strs(parts@).take(i as int).push(parts@[i as int]@) =~= strs(parts@).take(
                i as int + 1,
            ));
        }
        if i > 0 {
            out.append(sep);
        }
        out.append(parts[i].as_str());
        i = i + 1;
    }
    proof {
        assert(strs(parts@).take(parts@.len() as int) =~= strs(parts@));
    }
    out
}

} // verus!
