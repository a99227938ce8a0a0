//! Retention: which files of a dated directory are reclaimed.
//!
//! A file that a rewritten manifest refers to is kept. Of the others, a file
//! of the rolling channel is kept until its directory's date lies before
//! the cutoff; any other file is reclaimed at once. Checksum sidecars are
//! never judged: they leave with the file they belong to. A directory in
//! which nothing is kept is removed as a whole.

use vstd::prelude::*;
use vstd::string::StringExecFns;
use crate::bindings::date_moved_back;
use crate::channel::{lemma_with_files, with_files};
use crate::date::{
    date_of_name, earlier, parse_dir_date, retention_cutoff, ymd_of, CalendarDate,
};
use crate::path::{join_of, join_path, normalized};
use crate::refs::ReferenceSnapshot;
use crate::text::{chars_of, contains, ends_with, has_suffix, occurs_in, texts};

verus! {

/// What a file's name says about it.
#[derive(Clone, Copy, Debug, PartialEq, Eq, Structural)]
pub enum FileKind {
    /// A checksum sidecar: the name ends in `.sha256`.
    Sidecar,
    /// A file of the rolling channel: the name holds `nightly`.
    Rolling,
    /// Any other file.
    Pinned,
}

/// What becomes of a file.
#[derive(Clone, Copy, Debug, PartialEq, Eq, Structural)]
pub enum Verdict {
    /// Not judged on its own.
    Skip,
    Keep,
    Delete,
}

/// How long unreferenced files of the rolling channel are kept.
#[derive(Clone, Copy, Debug, PartialEq, Eq, Structural)]
pub struct RetentionPolicy {
    /// The first day that is still kept. With no cutoff, files of the
    /// rolling channel are never deleted for their age.
    pub cutoff: Option<CalendarDate>,
}

/// What the collector does to one directory.
pub struct DirectoryPlan {
    /// The names of the files to delete, each together with its sidecar, in
    /// the order of the listing.
    pub deletions: Vec<String>,
    /// Whether the directory is removed as a whole afterwards.
    pub remove_directory: bool,
}

/// The mathematical value of a [`DirectoryPlan`].
pub struct PlanView {
    pub deletions: Seq<Seq<char>>,
    pub remove_directory: bool,
}

impl View for DirectoryPlan {
    type V = PlanView;

    open spec fn view(&self) -> PlanView {
        PlanView { deletions: texts(self.deletions@), remove_directory: self.remove_directory }
    }
}

/// What is found at the top of the mirror's `dist` directory: an entry's
/// name, whether it is a directory, and, for a directory, the names of the
/// files in it.
pub struct Listing {
    pub name: String,
    pub is_dir: bool,
    pub files: Vec<String>,
}

/// The plan for one directory, with the directory's name.
pub struct DatedPlan {
    pub directory: String,
    pub plan: DirectoryPlan,
}

/// What the verdict on a file of one directory depends on, besides its name.
pub struct Scope {
    /// The referenced paths.
    pub refs: Set<Seq<char>>,
    /// The path of the directory.
    pub dir: Seq<char>,
    /// Whether the directory's date lies before the cutoff.
    pub expired: bool,
}

/// A directory is expired when there is a cutoff, its name is a date, and
/// that date lies strictly before the cutoff.
pub open spec fn expired(date: Option<(int, int, int)>, cutoff: Option<(int, int, int)>) -> bool {
    match (date, cutoff) {
        (Some(d), Some(c)) => earlier(d, c),
        _ => false,
    }
}

/// The kind of the file `name`: a sidecar where the name ends in `.sha256`,
/// else of the rolling channel where it holds `nightly`, else pinned.
pub open spec fn kind_of(name: Seq<char>) -> FileKind {
    if ends_with(name, ".sha256"@) {
        FileKind::Sidecar
    } else if occurs_in(name, "nightly"@) {
        FileKind::Rolling
    } else {
        FileKind::Pinned
    }
}

/// What becomes of a file: a sidecar is not judged; a referenced file is
/// kept; an unreferenced file of the rolling channel is kept until its
/// directory is expired; any other unreferenced file is deleted.
pub open spec fn verdict(kind: FileKind, referenced: bool, expired: bool) -> Verdict {
    match kind {
        FileKind::Sidecar => Verdict::Skip,
        FileKind::Rolling => if referenced || !expired {
            Verdict::Keep
        } else {
            Verdict::Delete
        },
        FileKind::Pinned => if referenced {
            Verdict::Keep
        } else {
            Verdict::Delete
        },
    }
}

/// The path of the directory `name` below the mirror's `dist` directory.
pub open spec fn dated_dir(mirror: Seq<char>, name: Seq<char>) -> Seq<char> {
    join_of(join_of(mirror, "dist"@), name)
}

/// Whether the file `name` of the directory is referenced.
pub open spec fn referenced(scope: Scope, name: Seq<char>) -> bool {
    scope.refs.contains(normalized(join_of(scope.dir, name)))
}

/// The verdict on the file `name` of the directory.
pub open spec fn verdict_on(scope: Scope, name: Seq<char>) -> Verdict {
    verdict(kind_of(name), referenced(scope, name), scope.expired)
}

/// The files of `names` on which the verdict is `Delete`, in their order.
pub open spec fn deletions_of(scope: Scope, names: Seq<Seq<char>>) -> Seq<Seq<char>>
    decreases names.len(),
{
    if names.len() == 0 {
        Seq::empty()
    } else {
        let before = deletions_of(scope, names.drop_last());
        if verdict_on(scope, names.last()) == Verdict::Delete {
            before.push(names.last())
        } else {
            before
        }
    }
}

/// Some file of `names` is kept.
pub open spec fn keeps_any(scope: Scope, names: Seq<Seq<char>>) -> bool {
    exists|i: int| 0 <= i < names.len() && verdict_on(scope, #[trigger] names[i]) == Verdict::Keep
}

/// The plan for a directory with the files `names`.
pub open spec fn plan_of(scope: Scope, names: Seq<Seq<char>>) -> PlanView {
    PlanView {
        deletions: deletions_of(scope, names),
        remove_directory: !keeps_any(scope, names),
    }
}

/// The scope of the directory `dir_name` of the mirror.
pub open spec fn scope_of(
    refs: Set<Seq<char>>,
    mirror: Seq<char>,
    dir_name: Seq<char>,
    date: Option<(int, int, int)>,
    cutoff: Option<(int, int, int)>,
) -> Scope {
    Scope { refs, dir: dated_dir(mirror, dir_name), expired: expired(date, cutoff) }
}

/// The plans for the directories among `listings`, in their order, each
/// with the directory's name. Entries that are no directories have none.
pub open spec fn collection_of(
    refs: Set<Seq<char>>,
    mirror: Seq<char>,
    cutoff: Option<(int, int, int)>,
    listings: Seq<Listing>,
) -> Seq<(Seq<char>, PlanView)>
    decreases listings.len(),
{
    if listings.len() == 0 {
        Seq::empty()
    } else {
        let before = collection_of(refs, mirror, cutoff, listings.drop_last());
        let l = listings.last();
        if l.is_dir {
            before.push(
                (
                    l.name@,
                    plan_of(
                        scope_of(refs, mirror, l.name@, date_of_name(l.name@), cutoff),
                        texts(l.files@),
                    ),
                ),
            )
        } else {
            before
        }
    }
}

/// The names and plans that `plans` holds.
pub open spec fn dated_plans(plans: Seq<DatedPlan>) -> Seq<(Seq<char>, PlanView)> {
    plans.map_values(|p: DatedPlan| (p.directory@, p.plan@))
}

/// `name` is the sidecar of a file of `names` that is deleted.
pub open spec fn leaves_with_subject(scope: Scope, names: Seq<Seq<char>>, name: Seq<char>) -> bool {
    exists|i: int|
        0 <= i < names.len() && verdict_on(scope, #[trigger] names[i]) == Verdict::Delete && name
            == names[i] + ".sha256"@
}

/// What is left of the listing `names` once the plan for it is carried out
/// and the directory itself stays.
pub open spec fn survivors(scope: Scope, names: Seq<Seq<char>>) -> Seq<Seq<char>> {
    names.filter(
        |n: Seq<char>| verdict_on(scope, n) != Verdict::Delete && !leaves_with_subject(scope, names, n),
    )
}

impl RetentionPolicy {
    /// Year, month and day of the cutoff, if there is one.
    pub open spec fn limit(self) -> Option<(int, int, int)> {
        ymd_of(self.cutoff)
    }

    /// The policy that keeps files of the rolling channel whatever their
    /// age.
    pub fn unlimited() -> (p: RetentionPolicy)
        ensures
            p.cutoff is None,
    {
        RetentionPolicy { cutoff: None }
    }

    /// The policy that keeps files of the rolling channel for `days` days
    /// before `today`. `None` where that day lies outside the calendar's
    /// range.
    pub fn keep_days(today: &CalendarDate, days: i64) -> (r: Option<RetentionPolicy>)
        ensures
            r matches Some(p) ==> p.limit() is Some && date_moved_back(today.ymd(), days as int)
                == p.limit(),
            r is None ==> date_moved_back(today.ymd(), days as int) is None,
    {
        match retention_cutoff(today, days) {
            Some(cutoff) => Some(RetentionPolicy { cutoff: Some(cutoff) }),
            None => None,
        }
    }
}

/// What a file's name says about it.
pub fn classify(name: &str) -> (k: FileKind)
    ensures
        k == kind_of(name@),
{
    let n = chars_of(name);
    let sidecar = chars_of(".sha256");
    let rolling = chars_of("nightly");
    if has_suffix(n.as_slice(), sidecar.as_slice()) {
        FileKind::Sidecar
    } else if contains(n.as_slice(), rolling.as_slice()) {
        FileKind::Rolling
    } else {
        FileKind::Pinned
    }
}

/// What becomes of a file of the given kind.
pub fn decide(kind: FileKind, referenced: bool, expired: bool) -> (v: Verdict)
    ensures
        v == verdict(kind, referenced, expired),
{
    match kind {
        FileKind::Sidecar => Verdict::Skip,
        FileKind::Rolling => if referenced || !expired {
            Verdict::Keep
        } else {
            Verdict::Delete
        },
        FileKind::Pinned => if referenced {
            Verdict::Keep
        } else {
            Verdict::Delete
        },
    }
}

/// Whether a directory with the date `date` has passed the cutoff.
pub fn is_expired(date: Option<CalendarDate>, cutoff: Option<CalendarDate>) -> (r: bool)
    ensures
        r == expired(ymd_of(date), ymd_of(cutoff)),
{
    match (date, cutoff) {
        (Some(d), Some(c)) => d.is_before(&c),
        _ => false,
    }
}

/// The name of the sidecar that holds the checksum of the file `name`.
pub fn sidecar_name(name: &str) -> (r: String)
    ensures
        r@ == name@ + ".sha256"@,
{
    let mut r = name.to_owned();
    r.append(".sha256");
    r
}

/// The plan for the directory `dir_name` of the mirror, whose date is
/// already read, given the names of the files in it.
pub fn plan_dated_directory(
    mirror: &str,
    dir_name: &str,
    date: Option<CalendarDate>,
    files: &Vec<String>,
    refs: &ReferenceSnapshot,
    policy: &RetentionPolicy,
) -> (plan: DirectoryPlan)
    ensures
        plan@ == plan_of(
            scope_of(refs@, mirror@, dir_name@, ymd_of(date), policy.limit()),
            texts(files@),
        ),
{
    let dist = join_path(mirror, "dist");
    let dir = join_path(dist.as_str(), dir_name);
    let stale = is_expired(date, policy.cutoff);
    let ghost scope = Scope { refs: refs@, dir: dir@, expired: stale };
    let mut deletions: Vec<String> = Vec::new();
    let mut kept = false;
    let mut i: usize = 0;
    while i < files.len()
        invariant
            i <= files.len(),
            scope.refs == refs@,
            scope.dir == dir@,
            scope.expired == stale,
            texts(deletions@) == deletions_of(scope, texts(files@).take(i as int)),
            kept == keeps_any(scope, texts(files@).take(i as int)),
        decreases files.len() - i,
    {
        let ghost seen = texts(files@).take(i as int);
        let ghost next = texts(files@).take(i + 1);
        assert(next.drop_last() =~= seen);
        assert(next.last() == files@[i as int]@);
        let name = &files[i];
        let path = join_path(dir.as_str(), name.as_str());
        let v = decide(classify(name.as_str()), refs.contains(path.as_str()), stale);
        assert(v == verdict_on(scope, name@));
        match v {
            Verdict::Delete => {
                deletions.push(name.clone());
                assert(texts(deletions@) =~= deletions_of(scope, seen).push(name@));
            },
            Verdict::Keep => {
                kept = true;
            },
            Verdict::Skip => {},
        }
        proof {
            if keeps_any(scope, seen) {
                let j = choose|j: int|
                    0 <= j < seen.len() && verdict_on(scope, #[trigger] seen[j]) == Verdict::Keep;
                assert(next[j] == seen[j]);
            }
            if v == Verdict::Keep {
                assert(verdict_on(scope, next[i as int]) == Verdict::Keep);
            }
            if keeps_any(scope, next) {
                let j = choose|j: int|
                    0 <= j < next.len() && verdict_on(scope, #[trigger] next[j]) == Verdict::Keep;
                if j < i {
                    assert(seen[j] == next[j]);
                }
            }
        }
        i += 1;
    }
    assert(texts(files@).take(files.len() as int) =~= texts(files@));
    DirectoryPlan { deletions, remove_directory: !kept }
}

/// The plan for the directory `dir_name` of the mirror, given the names of
/// the files in it. The directory's date is read from its name.
pub fn plan_directory(
    mirror: &str,
    dir_name: &str,
    files: &Vec<String>,
    refs: &ReferenceSnapshot,
    policy: &RetentionPolicy,
) -> (plan: DirectoryPlan)
    ensures
        plan@ == plan_of(
            scope_of(refs@, mirror@, dir_name@, date_of_name(dir_name@), policy.limit()),
            texts(files@),
        ),
{
    let date = if policy.cutoff.is_some() {
        parse_dir_date(dir_name)
    } else {
        None
    };
    plan_dated_directory(mirror, dir_name, date, files, refs, policy)
}

/// The plans for all directories at the top of the mirror's `dist`
/// directory. Entries that are no directories are passed over.
pub fn plan_collection(
    mirror: &str,
    listings: &Vec<Listing>,
    refs: &ReferenceSnapshot,
    policy: &RetentionPolicy,
) -> (plans: Vec<DatedPlan>)
    ensures
        dated_plans(plans@) == collection_of(refs@, mirror@, policy.limit(), listings@),
{
    let mut plans: Vec<DatedPlan> = Vec::new();
    let mut i: usize = 0;
    while i < listings.len()
        invariant
            i <= listings.len(),
            dated_plans(plans@) == collection_of(
                refs@,
                mirror@,
                policy.limit(),
                listings@.take(i as int),
            ),
        decreases listings.len() - i,
    {
        assert(listings@.take(i + 1).drop_last() =~= listings@.take(i as int));
        assert(listings@.take(i + 1).last() == listings@[i as int]);
        let l = &listings[i];
        if l.is_dir {
            let plan = plan_directory(mirror, l.name.as_str(), &l.files, refs, policy);
            let ghost before = dated_plans(plans@);
            plans.push(DatedPlan { directory: l.name.clone(), plan });
            assert(dated_plans(plans@) =~= before.push((l.name@, plan@)));
        }
        i += 1;
    }
    assert(listings@.take(listings.len() as int) =~= listings@);
    plans
}

/// Whether carrying out the plan removes the file `name` of the listing:
/// the file is deleted, or it is the sidecar of a deleted file, or the
/// directory goes as a whole.
pub open spec fn removes(scope: Scope, names: Seq<Seq<char>>, name: Seq<char>) -> bool {
    ||| deletions_of(scope, names).contains(name)
    ||| leaves_with_subject(scope, names, name)
    ||| !keeps_any(scope, names)
}

/// A name with `.sha256` appended is the name of a sidecar.
pub proof fn lemma_sidecar_name_is_sidecar(name: Seq<char>)
    ensures
        kind_of(name + ".sha256"@) == FileKind::Sidecar,
{
    let suffix = ".sha256"@;
    let whole = name + suffix;
    assert(whole.subrange(whole.len() - suffix.len(), whole.len() as int) =~= suffix);
}

/// Only files on which the verdict is `Delete` are among the deletions, and
/// all of them are.
pub proof fn lemma_deletions_are_verdicts(scope: Scope, names: Seq<Seq<char>>, name: Seq<char>)
    ensures
        deletions_of(scope, names).contains(name) <==> names.contains(name) && verdict_on(
            scope,
            name,
        ) == Verdict::Delete,
    decreases names.len(),
{
    if names.len() > 0 {
        let before = names.drop_last();
        lemma_deletions_are_verdicts(scope, before, name);
        let d = deletions_of(scope, before);
        if names.contains(name) {
            let i = choose|i: int| 0 <= i < names.len() && names[i] == name;
            if i < names.len() - 1 {
                assert(before[i] == name);
            }
        }
        if before.contains(name) {
            let i = choose|i: int| 0 <= i < before.len() && before[i] == name;
            assert(names[i] == name);
        }
        if verdict_on(scope, names.last()) == Verdict::Delete {
            assert(d.push(names.last()).last() == names.last());
            if d.contains(name) {
                let i = choose|i: int| 0 <= i < d.len() && d[i] == name;
                assert(d.push(names.last())[i] == name);
            }
            if d.push(names.last()).contains(name) {
                let i = choose|i: int| 0 <= i < d.len() + 1 && d.push(names.last())[i] == name;
                if i < d.len() {
                    assert(d[i] == name);
                }
            }
        }
        assert(names[names.len() - 1] == names.last());
    }
}

/// Safety. A referenced file that is no sidecar is not removed: it is not
/// deleted, it does not leave as the sidecar of another file, and its
/// directory stays. Neither the cutoff nor the channel that the name
/// indicates matters.
pub proof fn lemma_referenced_files_stay(scope: Scope, names: Seq<Seq<char>>, i: int)
    requires
        0 <= i < names.len(),
        referenced(scope, names[i]),
        kind_of(names[i]) != FileKind::Sidecar,
    ensures
        !removes(scope, names, names[i]),
{
    lemma_deletions_are_verdicts(scope, names, names[i]);
    assert(verdict_on(scope, names[i]) == Verdict::Keep);
    if leaves_with_subject(scope, names, names[i]) {
        let j = choose|j: int|
            0 <= j < names.len() && verdict_on(scope, #[trigger] names[j]) == Verdict::Delete
                && names[i] == names[j] + ".sha256"@;
        lemma_sidecar_name_is_sidecar(names[j]);
    }
}

/// Completeness. Where every file of a directory that is no sidecar is
/// unreferenced and not of the rolling channel, each of them is deleted and
/// the directory is removed as a whole.
pub proof fn lemma_unreferenced_directory_goes(scope: Scope, names: Seq<Seq<char>>)
    requires
        forall|i: int|
            0 <= i < names.len() && kind_of(#[trigger] names[i]) != FileKind::Sidecar ==> !referenced(
                scope,
                names[i],
            ) && kind_of(names[i]) != FileKind::Rolling,
    ensures
        !keeps_any(scope, names),
        forall|i: int|
            0 <= i < names.len() && kind_of(#[trigger] names[i]) != FileKind::Sidecar
                ==> deletions_of(scope, names).contains(names[i]),
{
    assert forall|i: int|
        0 <= i < names.len() && kind_of(#[trigger] names[i]) != FileKind::Sidecar implies deletions_of(
        scope,
        names,
    ).contains(names[i]) by {
        lemma_deletions_are_verdicts(scope, names, names[i]);
    }
}

/// A listing in which no verdict is `Delete` has no deletions.
pub proof fn lemma_nothing_to_delete(scope: Scope, names: Seq<Seq<char>>)
    requires
        forall|i: int| 0 <= i < names.len() ==> verdict_on(scope, #[trigger] names[i]) != Verdict::Delete,
    ensures
        deletions_of(scope, names) == Seq::<Seq<char>>::empty(),
    decreases names.len(),
{
    if names.len() > 0 {
        let before = names.drop_last();
        assert forall|i: int| 0 <= i < before.len() implies verdict_on(scope, #[trigger] before[i])
            != Verdict::Delete by {
            assert(before[i] == names[i]);
        }
        lemma_nothing_to_delete(scope, before);
        assert(names.last() == names[names.len() - 1]);
    }
}

/// Idempotence. Once the plan for a directory that stays is carried out, a
/// second pass with the same references and the same cutoff finds nothing
/// to delete and lets the directory stay.
pub proof fn lemma_second_pass_is_idle(scope: Scope, names: Seq<Seq<char>>)
    requires
        keeps_any(scope, names),
    ensures
        deletions_of(scope, survivors(scope, names)) == Seq::<Seq<char>>::empty(),
        keeps_any(scope, survivors(scope, names)),
{
    let stays = |n: Seq<char>|
        verdict_on(scope, n) != Verdict::Delete && !leaves_with_subject(scope, names, n);
    let left = names.filter(stays);
    assert forall|i: int| 0 <= i < left.len() implies verdict_on(scope, #[trigger] left[i])
        != Verdict::Delete by {
        names.lemma_filter_pred(stays, i);
    }
    lemma_nothing_to_delete(scope, left);
    let k = choose|k: int| 0 <= k < names.len() && verdict_on(scope, #[trigger] names[k]) == Verdict::Keep;
    if leaves_with_subject(scope, names, names[k]) {
        let j = choose|j: int|
            0 <= j < names.len() && verdict_on(scope, #[trigger] names[j]) == Verdict::Delete
                && names[k] == names[j] + ".sha256"@;
        lemma_sidecar_name_is_sidecar(names[j]);
    }
    assert(stays(names[k]));
    names.lemma_filter_contains(stays, k);
    let m = choose|m: int| 0 <= m < left.len() && left[m] == names[k];
    assert(verdict_on(scope, left[m]) == Verdict::Keep);
}

/// What synchronisation records, collection keeps. Where the references
/// are those gathered from `files`, a listed file that is no sidecar and
/// whose normalized path is that of one of `files` is not removed.
pub proof fn lemma_recorded_files_stay(
    before: Set<Seq<char>>,
    files: Seq<Seq<char>>,
    scope: Scope,
    names: Seq<Seq<char>>,
    i: int,
    k: int,
)
    requires
        scope.refs == with_files(before, files),
        0 <= i < files.len(),
        0 <= k < names.len(),
        normalized(join_of(scope.dir, names[k])) == normalized(files[i]),
        kind_of(names[k]) != FileKind::Sidecar,
    ensures
        !removes(scope, names, names[k]),
{
    lemma_with_files(before, files, normalized(files[i]));
    lemma_referenced_files_stay(scope, names, k);
}

} // verus!
