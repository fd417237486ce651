//! The tree-synchronization engine. A walk of the source tree is planned
//! as a pure function over the listed entries: ignored paths are dropped,
//! directory entries become mirrored-directory creations, file entries
//! become per-file operations on mirrored paths. The planner carries the
//! engine's guarantees (every non-ignored file exactly once, the root
//! never); executing the plan performs the per-file action, collects the
//! first error, and keeps going, so one failing file does not abort the
//! rest of the walk. Re-running a walk is safe: directory creation is
//! idempotent and the per-file actions check the destination first.

use vstd::prelude::*;
use crate::fsio::{
    copy_file, create_dir_all, list_tree, make_symlink, path_is_file, path_is_symlink,
    remove_file_at, remove_symlink_at,
};
use crate::pattern::spec_ignored;
use crate::pattern::is_ignored;
use crate::strutil::{str_concat, str_concat3, strs};

verus! {

/// One entry of a listed source tree: its path relative to the walk root
/// and whether it is a directory.
pub struct TreeEntry {
    pub rel: String,
    pub is_dir: bool,
}

/// One planned step of a walk: for a directory, create the mirrored
/// directory; for a file, apply the per-file action to the mirrored pair.
pub struct WalkStep {
    pub is_dir: bool,
    pub src: String,
    pub dest: String,
}

/// The per-file capability a walk applies at each mirrored file pair.
/// Copy fails on an existing destination file. Linking leaves an existing
/// destination symlink alone (so a second install run is a no-op, never
/// an error) and with `force` replaces an existing regular file — never a
/// symlink or directory — before linking. Unlinking removes the
/// destination only when it is a symlink; removing (the copy command's
/// uninstall) removes it only when it is a regular file; neither ever
/// touches the source. Each policy is a verified decision function over
/// the drawn destination state: `copy_conflict_check`, `link_decision`,
/// `unlink_decision` and `remove_decision`.
pub enum FileAction {
    CopyFile,
    LinkFile { force: bool },
    UnlinkFile,
    RemoveFile,
}

/// What a link step does with the destination it found.
pub enum LinkStep {
    Skip,
    ReplaceThenLink,
    LinkOnly,
}

/// What an unlink or remove step does with the destination it found.
pub enum UnlinkStep {
    Remove,
    Leave,
}

/// The copy conflict policy: copying is allowed exactly when no regular
/// file already stands at the destination, and the conflict error names
/// the destination. The drawn boolean is an argument, so the decision is
/// verified for either draw.
pub fn copy_conflict_check(dest: &str, dest_is_file: bool) -> (r: Result<(), String>)
    ensures
        r is Ok <==> !dest_is_file,
        r matches Err(m) ==> m@ == "Destination file already exists: "@ + dest@,
{
    if dest_is_file {
        Err(str_concat("Destination file already exists: ", dest))
    } else {
        Ok(())
    }
}

/// The link policy over the drawn destination state: an existing symlink
/// is left alone (a second install run is a no-op); with `force` an
/// existing regular file is removed first; otherwise the link is simply
/// attempted, so without `force` an existing file makes it fail. A
/// symlink or directory is never replaced, even under `force`.
pub fn link_decision(force: bool, dest_is_symlink: bool, dest_is_file: bool) -> (r: LinkStep)
    ensures
        dest_is_symlink ==> r is Skip,
        !dest_is_symlink && force && dest_is_file ==> r is ReplaceThenLink,
        !dest_is_symlink && !(force && dest_is_file) ==> r is LinkOnly,
{
    if dest_is_symlink {
        LinkStep::Skip
    } else if force && dest_is_file {
        LinkStep::ReplaceThenLink
    } else {
        LinkStep::LinkOnly
    }
}

/// The unlink policy: remove the destination exactly when it is a
/// symlink, so files the install did not create stay untouched and a
/// second uninstall is a no-op.
pub fn unlink_decision(dest_is_symlink: bool) -> (r: UnlinkStep)
    ensures
        r is Remove <==> dest_is_symlink,
{
    if dest_is_symlink {
        UnlinkStep::Remove
    } else {
        UnlinkStep::Leave
    }
}

/// The copied-file removal policy: remove the destination exactly when it
/// is a regular file and not a symlink — what a copy install put there —
/// leaving unrelated symlinks, directories and missing paths alone.
pub fn remove_decision(dest_is_file: bool, dest_is_symlink: bool) -> (r: UnlinkStep)
    ensures
        r is Remove <==> (dest_is_file && !dest_is_symlink),
{
    if dest_is_file && !dest_is_symlink {
        UnlinkStep::Remove
    } else {
        UnlinkStep::Leave
    }
}

/// `base` and `rel` joined with the path separator.
pub open spec fn joined(base: Seq<char>, rel: Seq<char>) -> Seq<char> {
    base + "/"@ + rel
}

/// The planned step of one entry, as a (is_dir, source path, destination
/// path) triple.
pub open spec fn entry_step(source: Seq<char>, dest: Seq<char>, e: TreeEntry) -> (
    bool,
    Seq<char>,
    Seq<char>,
) {
    (e.is_dir, joined(source, e.rel@), joined(dest, e.rel@))
}

/// What one entry contributes to the plan: nothing when ignored, its step
/// otherwise.
pub open spec fn step_of(
    source: Seq<char>,
    dest: Seq<char>,
    e: TreeEntry,
    pats: Seq<Seq<char>>,
) -> Seq<(bool, Seq<char>, Seq<char>)> {
    if spec_ignored(e.rel@, pats) {
        Seq::empty()
    } else {
        seq![entry_step(source, dest, e)]
    }
}

/// The plan of a walk: the steps of the non-ignored entries, in listed
/// order.
pub open spec fn spec_plan(
    source: Seq<char>,
    dest: Seq<char>,
    entries: Seq<TreeEntry>,
    pats: Seq<Seq<char>>,
) -> Seq<(bool, Seq<char>, Seq<char>)>
    decreases entries.len(),
{
    if entries.len() == 0 {
        Seq::empty()
    } else {
        step_of(source, dest, entries[0], pats) + spec_plan(source, dest, entries.drop_first(), pats)
    }
}

/// The views of a step list.
pub open spec fn steps_view(steps: Seq<WalkStep>) -> Seq<(bool, Seq<char>, Seq<char>)> {
    steps.map(|i: int, s: WalkStep| (s.is_dir, s.src@, s.dest@))
}

/// Planning one more entry appends that entry's contribution.
proof fn lemma_plan_push(
    source: Seq<char>,
    dest: Seq<char>,
    entries: Seq<TreeEntry>,
    pats: Seq<Seq<char>>,
    e: TreeEntry,
)
    ensures
        spec_plan(source, dest, entries.push(e), pats) =~= spec_plan(source, dest, entries, pats)
            + step_of(source, dest, e, pats),
    decreases entries.len(),
{
    if entries.len() == 0 {
        reveal_with_fuel(spec_plan, 3);
        assert(entries.push(e).drop_first() =~= Seq::<TreeEntry>::empty());
        assert(entries.push(e)[0] == e);
        assert(entries =~= Seq::<TreeEntry>::empty());
        assert(spec_plan(source, dest, Seq::<TreeEntry>::empty(), pats)
            =~= Seq::<(bool, Seq<char>, Seq<char>)>::empty());
        assert(spec_plan(source, dest, entries.push(e), pats) == step_of(source, dest, e, pats)
            + spec_plan(source, dest, Seq::<TreeEntry>::empty(), pats));
        assert(step_of(source, dest, e, pats) + Seq::<(bool, Seq<char>, Seq<char>)>::empty() =~= Seq::<
            (bool, Seq<char>, Seq<char>),
        >::empty() + step_of(source, dest, e, pats));
    } else {
        assert(entries.push(e).drop_first() =~= entries.drop_first().push(e));
        lemma_plan_push(source, dest, entries.drop_first(), pats, e);
        assert(entries.push(e)[0] == entries[0]);
        assert(step_of(source, dest, entries[0], pats) + (spec_plan(
            source,
            dest,
            entries.drop_first(),
            pats,
        ) + step_of(source, dest, e, pats)) =~= (step_of(source, dest, entries[0], pats)
            + spec_plan(source, dest, entries.drop_first(), pats)) + step_of(
            source,
            dest,
            e,
            pats,
        ));
    }
}

/// Computes the plan of a walk, as `spec_plan` states.
pub fn plan_walk(
    source: &str,
    destination: &str,
    entries: &Vec<TreeEntry>,
    patterns: &Vec<String>,
) -> (r: Vec<WalkStep>)
    ensures
        steps_view(r@) == spec_plan(source@, destination@, entries@, strs(patterns@)),
{
    let mut out: Vec<WalkStep> = Vec::new();
    let mut i: usize = 0;
    while i < entries.len()
        invariant
            i <= entries.len(),
            steps_view(out@) =~= spec_plan(
                source@,
                destination@,
                entries@.take(i as int),
                strs(patterns@),
            ),
        decreases entries.len() - i,
    {
        proof {
            lemma_plan_push(
                source@,
                destination@,
                entries@.take(i as int),
                strs(patterns@),
                entries@[i as int],
            );
            assert(entries@.take(i as int).push(entries@[i as int]) =~= entries@.take(i as int + 1));
        }
        if !is_ignored(entries[i].rel.as_str(), patterns) {
            let sp = str_concat3(source, "/", entries[i].rel.as_str());
            let dp = str_concat3(destination, "/", entries[i].rel.as_str());
            out.push(WalkStep { is_dir: entries[i].is_dir, src: sp, dest: dp });
            proof {
                assert(steps_view(out@) =~= steps_view(out@.drop_last()).push(
                    entry_step(source@, destination@, entries@[i as int]),
                ));
            }
        }
        i = i + 1;
    }
    proof {
        assert(entries@.take(entries@.len() as int) =~= entries@);
    }
    out
}

/// Appending to a prefix keeps it equal under concatenation: cancellation
/// of a shared prefix.
proof fn lemma_concat_cancel(x: Seq<char>, a: Seq<char>, b: Seq<char>)
    requires
        x + a == x + b,
    ensures
        a == b,
{
    assert(a =~= (x + a).skip(x.len() as int));
    assert(b =~= (x + b).skip(x.len() as int));
}

/// Joining distinct relative paths onto one base gives distinct paths.
proof fn lemma_joined_inj(base: Seq<char>, a: Seq<char>, b: Seq<char>)
    requires
        joined(base, a) == joined(base, b),
    ensures
        a == b,
{
    lemma_concat_cancel(base + "/"@, a, b);
}

/// Whether the triple `t` is the step of some non-ignored entry.
pub open spec fn step_from_entry(
    source: Seq<char>,
    dest: Seq<char>,
    entries: Seq<TreeEntry>,
    pats: Seq<Seq<char>>,
    t: (bool, Seq<char>, Seq<char>),
) -> bool {
    exists|i: int|
        0 <= i < entries.len() && !spec_ignored(entries[i].rel@, pats) && t == entry_step(
            source,
            dest,
            #[trigger] entries[i],
        )
}

/// A step of the plan is exactly the step of some non-ignored entry.
proof fn lemma_plan_membership(
    source: Seq<char>,
    dest: Seq<char>,
    entries: Seq<TreeEntry>,
    pats: Seq<Seq<char>>,
)
    ensures
        forall|k: int|
            0 <= k < spec_plan(source, dest, entries, pats).len() ==> step_from_entry(
                source,
                dest,
                entries,
                pats,
                #[trigger] spec_plan(source, dest, entries, pats)[k],
            ),
        forall|i: int|
            0 <= i < entries.len() && !spec_ignored(#[trigger] entries[i].rel@, pats) ==> spec_plan(
                source,
                dest,
                entries,
                pats,
            ).contains(entry_step(source, dest, entries[i])),
    decreases entries.len(),
{
    if entries.len() > 0 {
        lemma_plan_membership(source, dest, entries.drop_first(), pats);
        let plan = spec_plan(source, dest, entries, pats);
        let head = step_of(source, dest, entries[0], pats);
        let rest = spec_plan(source, dest, entries.drop_first(), pats);
        assert(plan == head + rest);
        assert forall|k: int| 0 <= k < plan.len() implies step_from_entry(
            source,
            dest,
            entries,
            pats,
            plan[k],
        ) by {
            if k < head.len() {
                assert(plan[k] == entry_step(source, dest, entries[0]));
                assert(!spec_ignored(entries[0].rel@, pats));
            } else {
                let k2 = k - head.len();
                assert(rest[k2] == plan[k]);
                assert(step_from_entry(source, dest, entries.drop_first(), pats, rest[k2]));
                let i2 = choose|i2: int|
                    0 <= i2 < entries.drop_first().len() && !spec_ignored(
                        entries.drop_first()[i2].rel@,
                        pats,
                    ) && rest[k2] == entry_step(source, dest, #[trigger] entries.drop_first()[i2]);
                assert(entries.drop_first()[i2] == entries[i2 + 1]);
                assert(plan[k] == entry_step(source, dest, entries[i2 + 1]));
            }
        }
        assert forall|i: int|
            0 <= i < entries.len() && !spec_ignored(#[trigger] entries[i].rel@, pats) implies plan
            .contains(entry_step(source, dest, entries[i])) by {
            if i == 0 {
                assert(plan[0] == entry_step(source, dest, entries[0]));
            } else {
                assert(entries.drop_first()[i - 1] == entries[i]);
                assert(rest.contains(entry_step(source, dest, entries[i])));
                let k2 = choose|k2: int|
                    0 <= k2 < rest.len() && rest[k2] == entry_step(source, dest, entries[i]);
                assert(plan[head.len() + k2] == entry_step(source, dest, entries[i]));
            }
        }
    }
}

/// The tree-sync engine's walk guarantee: over entries with distinct,
/// non-empty relative paths (as the walker yields them), the plan holds
/// one step for every non-ignored regular file, at its mirrored source
/// and destination paths; every planned file step is of such an entry; no
/// two steps share a source path, so nothing is visited twice; and no
/// step touches the walk root itself.
pub proof fn lemma_walk_visits_files_once(
    source: Seq<char>,
    dest: Seq<char>,
    entries: Seq<TreeEntry>,
    pats: Seq<Seq<char>>,
)
    requires
        forall|i: int, j: int| 0 <= i < j < entries.len() ==> entries[i].rel@ != entries[j].rel@,
        forall|i: int| 0 <= i < entries.len() ==> entries[i].rel@.len() > 0,
    ensures
        forall|i: int|
            0 <= i < entries.len() && !entries[i].is_dir && !spec_ignored(
                #[trigger] entries[i].rel@,
                pats,
            ) ==> spec_plan(source, dest, entries, pats).contains(
                (false, joined(source, entries[i].rel@), joined(dest, entries[i].rel@)),
            ),
        forall|k: int|
            0 <= k < spec_plan(source, dest, entries, pats).len() ==> step_from_entry(
                source,
                dest,
                entries,
                pats,
                #[trigger] spec_plan(source, dest, entries, pats)[k],
            ),
        forall|k1: int, k2: int|
            0 <= k1 < k2 < spec_plan(source, dest, entries, pats).len() ==> spec_plan(
                source,
                dest,
                entries,
                pats,
            )[k1].1 != spec_plan(source, dest, entries, pats)[k2].1,
        forall|k: int|
            0 <= k < spec_plan(source, dest, entries, pats).len() ==> spec_plan(
                source,
                dest,
                entries,
                pats,
            )[k].1 != source,
{
    reveal_strlit("/");
    lemma_plan_membership(source, dest, entries, pats);
    let plan = spec_plan(source, dest, entries, pats);
    assert forall|i: int|
        0 <= i < entries.len() && !entries[i].is_dir && !spec_ignored(
            #[trigger] entries[i].rel@,
            pats,
        ) implies plan.contains(
        (false, joined(source, entries[i].rel@), joined(dest, entries[i].rel@)),
    ) by {
        assert(entry_step(source, dest, entries[i]) == (
            false,
            joined(source, entries[i].rel@),
            joined(dest, entries[i].rel@),
        ));
    }
    assert forall|k1: int, k2: int| 0 <= k1 < k2 < plan.len() implies plan[k1].1 != plan[k2].1 by {
        assert(step_from_entry(source, dest, entries, pats, plan[k1]));
        assert(step_from_entry(source, dest, entries, pats, plan[k2]));
        let i1 = choose|i: int|
            0 <= i < entries.len() && !spec_ignored(entries[i].rel@, pats) && plan[k1]
                == entry_step(source, dest, #[trigger] entries[i]);
        let i2 = choose|i: int|
            0 <= i < entries.len() && !spec_ignored(entries[i].rel@, pats) && plan[k2]
                == entry_step(source, dest, #[trigger] entries[i]);
        if plan[k1].1 == plan[k2].1 {
            lemma_joined_inj(source, entries[i1].rel@, entries[i2].rel@);
            assert(entries[i1].rel@ == entries[i2].rel@);
            assert(i1 == i2);
            lemma_plan_entry_at_most_once(source, dest, entries, pats, i1, k1, k2);
            assert(false);
        }
    }
    assert forall|k: int| 0 <= k < plan.len() implies plan[k].1 != source by {
        assert(step_from_entry(source, dest, entries, pats, plan[k]));
        let i = choose|i: int|
            0 <= i < entries.len() && !spec_ignored(entries[i].rel@, pats) && plan[k] == entry_step(
                source,
                dest,
                #[trigger] entries[i],
            );
        assert(plan[k].1.len() == source.len() + 1 + entries[i].rel@.len());
    }
}

/// One entry's step stands at one position of the plan at most: two
/// positions holding it coincide.
proof fn lemma_plan_entry_at_most_once(
    source: Seq<char>,
    dest: Seq<char>,
    entries: Seq<TreeEntry>,
    pats: Seq<Seq<char>>,
    i: int,
    k1: int,
    k2: int,
)
    requires
        forall|a: int, b: int| 0 <= a < b < entries.len() ==> entries[a].rel@ != entries[b].rel@,
        0 <= i < entries.len(),
        0 <= k1 <= k2 < spec_plan(source, dest, entries, pats).len(),
        spec_plan(source, dest, entries, pats)[k1] == entry_step(source, dest, entries[i]),
        spec_plan(source, dest, entries, pats)[k2] == entry_step(source, dest, entries[i]),
    ensures
        k1 == k2,
    decreases entries.len(),
{
    if k1 == k2 {
        return;
    }
    let plan = spec_plan(source, dest, entries, pats);
    let head = step_of(source, dest, entries[0], pats);
    let rest = spec_plan(source, dest, entries.drop_first(), pats);
    assert(plan == head + rest);
    if k1 < head.len() {
        // k1 is the step of the first entry; k2 lies in the rest, whose
        // steps are of entries with other relative paths.
        lemma_plan_membership(source, dest, entries.drop_first(), pats);
        let k2r = k2 - head.len();
        assert(step_from_entry(source, dest, entries.drop_first(), pats, rest[k2r]));
        let j = choose|j: int|
            0 <= j < entries.drop_first().len() && !spec_ignored(
                entries.drop_first()[j].rel@,
                pats,
            ) && rest[k2r] == entry_step(source, dest, #[trigger] entries.drop_first()[j]);
        assert(entries.drop_first()[j] == entries[j + 1]);
        lemma_joined_inj(source, entries[0].rel@, entries[j + 1].rel@);
        lemma_joined_inj(source, entries[i].rel@, entries[0].rel@);
    } else {
        let s = entries.drop_first();
        assert(forall|a: int, b: int| 0 <= a < b < s.len() ==> s[a].rel@ != s[b].rel@);
        lemma_plan_membership(source, dest, s, pats);
        let k1r = k1 - head.len();
        let k2r = k2 - head.len();
        assert(step_from_entry(source, dest, s, pats, rest[k1r]));
        let j = choose|j: int|
            0 <= j < s.len() && !spec_ignored(s[j].rel@, pats) && rest[k1r] == entry_step(
                source,
                dest,
                #[trigger] s[j],
            );
        lemma_joined_inj(source, entries[i].rel@, s[j].rel@);
        lemma_plan_entry_at_most_once(source, dest, s, pats, j, k1r, k2r);
    }
}

/// The round-trip guarantee of the planner: an uninstall walk (which
/// ignores nothing) plans a step for every destination path that the
/// install walk's plan reaches, so removing what was created needs no
/// ignore list.
pub proof fn lemma_unlink_covers_link(
    source: Seq<char>,
    dest: Seq<char>,
    entries: Seq<TreeEntry>,
    pats: Seq<Seq<char>>,
)
    ensures
        forall|k: int|
            0 <= k < spec_plan(source, dest, entries, pats).len() ==> spec_plan(
                source,
                dest,
                entries,
                Seq::empty(),
            ).contains(#[trigger] spec_plan(source, dest, entries, pats)[k]),
{
    lemma_plan_membership(source, dest, entries, pats);
    lemma_plan_membership(source, dest, entries, Seq::empty());
    let plan = spec_plan(source, dest, entries, pats);
    let full = spec_plan(source, dest, entries, Seq::empty());
    assert forall|k: int| 0 <= k < plan.len() implies full.contains(plan[k]) by {
        assert(step_from_entry(source, dest, entries, pats, plan[k]));
        let i = choose|i: int|
            0 <= i < entries.len() && !spec_ignored(entries[i].rel@, pats) && plan[k] == entry_step(
                source,
                dest,
                #[trigger] entries[i],
            );
        assert(!spec_ignored(entries[i].rel@, Seq::empty()));
        assert(full.contains(entry_step(source, dest, entries[i])));
    }
}

/// The first error among the step outcomes, in walk order.
pub open spec fn first_step_error(outcomes: Seq<Option<String>>) -> Option<Seq<char>>
    decreases outcomes.len(),
{
    if outcomes.len() == 0 {
        None
    } else {
        match outcomes[0] {
            Some(e) => Some(e@),
            None => first_step_error(outcomes.drop_first()),
        }
    }
}

/// The walk's error rule over its per-step outcomes: success exactly when
/// every step succeeded, and otherwise the first error, in walk order, as
/// `first_step_error` states.
pub fn select_first_error(outcomes: &Vec<Option<String>>) -> (r: Result<(), String>)
    ensures
        r is Ok <==> first_step_error(outcomes@) is None,
        r matches Err(m) ==> first_step_error(outcomes@) == Some(m@),
{
    let mut i: usize = 0;
    proof {
        assert(outcomes@.skip(0) =~= outcomes@);
    }
    while i < outcomes.len()
        invariant
            i <= outcomes.len(),
            first_step_error(outcomes@) == first_step_error(outcomes@.skip(i as int)),
        decreases outcomes.len() - i,
    {
        proof {
            assert(outcomes@.skip(i as int)[0] == outcomes@[i as int]);
            assert(outcomes@.skip(i as int).drop_first() =~= outcomes@.skip(i as int + 1));
        }
        match &outcomes[i] {
            Some(e) => {
                return Err(e.clone());
            },
            None => {},
        }
        i = i + 1;
    }
    proof {
        assert(outcomes@.skip(outcomes@.len() as int).len() == 0);
    }
    Ok(())
}

/// Walks the source tree and applies `action` at every non-ignored
/// regular file's mirrored destination, creating mirrored directories
/// along the way, as `spec_plan` of the listed entries states (the
/// entries come from the walker with distinct, non-empty relative paths,
/// so `lemma_walk_visits_files_once` applies to every such plan). Every
/// step is attempted and its outcome recorded; the result is the first
/// error in walk order, through `select_first_error`, so a partially
/// failing walk still processes every independent file.
pub fn walk_files(
    source: &str,
    destination: &str,
    patterns: &Vec<String>,
    action: &FileAction,
) -> (r: Result<(), String>)
{
    let entries = match list_tree(source) {
        Ok(entries) => entries,
        Err(e) => {
            return Err(e);
        },
    };
    let plan = plan_walk(source, destination, &entries, patterns);
    let mut outcomes: Vec<Option<String>> = Vec::new();
    let mut i: usize = 0;
    while i < plan.len()
        decreases plan.len() - i,
    {
        let step = &plan[i];
        let outcome: Option<String> = if step.is_dir {
            match create_dir_all(step.dest.as_str()) {
                Ok(_) => None,
                Err(e) => Some(str_concat("Failed to create directory: ", e.as_str())),
            }
        } else {
            match run_file_action(action, step.src.as_str(), step.dest.as_str()) {
                Ok(()) => None,
                Err(e) => Some(e),
            }
        };
        outcomes.push(outcome);
        i = i + 1;
    }
    select_first_error(&outcomes)
}

/// Applies one per-file action to a mirrored source/destination pair.
/// The destination's drawn state goes through the verified decision
/// functions above; this function only performs what they decide.
fn run_file_action(action: &FileAction, src: &str, dest: &str) -> (r: Result<(), String>) {
    match action {
        FileAction::CopyFile => {
            match copy_conflict_check(dest, path_is_file(dest)) {
                Err(e) => Err(e),
                Ok(()) => match copy_file(src, dest) {
                    Ok(()) => Ok(()),
                    Err(e) => Err(str_concat("Failed to copy file: ", e.as_str())),
                },
            }
        },
        FileAction::LinkFile { force } => {
            match link_decision(*force, path_is_symlink(dest), path_is_file(dest)) {
                LinkStep::Skip => Ok(()),
                LinkStep::ReplaceThenLink => {
                    match remove_file_at(dest) {
                        Ok(()) => {},
                        Err(_) => {},
                    }
                    match make_symlink(src, dest) {
                        Ok(()) => Ok(()),
                        Err(e) => Err(str_concat("Failed to link file: ", e.as_str())),
                    }
                },
                LinkStep::LinkOnly => match make_symlink(src, dest) {
                    Ok(()) => Ok(()),
                    Err(e) => Err(str_concat("Failed to link file: ", e.as_str())),
                },
            }
        },
        FileAction::UnlinkFile => {
            match unlink_decision(path_is_symlink(dest)) {
                UnlinkStep::Remove => match remove_symlink_at(dest) {
                    Ok(()) => Ok(()),
                    Err(e) => Err(str_concat("Failed to unlink file: ", e.as_str())),
                },
                UnlinkStep::Leave => Ok(()),
            }
        },
        FileAction::RemoveFile => {
            match remove_decision(path_is_file(dest), path_is_symlink(dest)) {
                UnlinkStep::Remove => match remove_file_at(dest) {
                    Ok(()) => Ok(()),
                    Err(e) => Err(str_concat("Failed to remove file: ", e.as_str())),
                },
                UnlinkStep::Leave => Ok(()),
            }
        },
    }
}

} // verus!
