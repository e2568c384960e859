use crate::duration::{decimal, duration_text, format_duration, push_decimal};
use crate::eligibility::{is_raw_replay_name, ReplayNameFilter};
use crate::naming::Properties;
use vstd::prelude::*;

verus! {

/// How a batch runs: `dry_run` renames nothing, `quiet` prints no line per file.
#[derive(Clone, Copy, Debug, PartialEq, Eq)]
pub struct Options {
    pub dry_run: bool,
    pub quiet: bool,
}

/// Why one file of a batch could not be renamed.
#[derive(Clone, Debug, PartialEq, Eq)]
pub enum FileError {
    /// The path has no parent directory or no file name in UTF-8.
    NoFileName,
    /// The file could not be read; the message of the failure.
    Read(String),
    /// The replay could not be decoded; the message of the failure.
    Decode(String),
    /// The frame rate is zero, negative or not finite, so the match has no length.
    FrameRate,
    /// The target name is taken, by a file of the directory or by a file
    /// earlier in the batch.
    Collision,
    /// The file system refused the rename; the message of the failure.
    Rename(String),
}

/// What became of one file of a batch.
#[derive(Clone, Debug, PartialEq, Eq)]
pub enum RenameResult {
    Renamed,
    DryRun,
    Skipped,
    Failed(FileError),
}

/// What to do with a replay once its name is known: the file name to give
/// it, whether to print the rename, and whether to perform it.
pub struct Plan {
    pub target: String,
    pub announce: bool,
    pub rename: bool,
}

/// The next step for a planned file once collisions are settled.
pub enum Step {
    /// The file is done, with this result.
    Done(RenameResult),
    /// The file system rename is to be made; `rename_result` gives the outcome.
    Rename,
}

/// Whether a result counts as a rename in the summary.
pub open spec fn is_success(r: RenameResult) -> bool {
    r is Renamed || r is DryRun
}

/// The number of results that count as renames.
pub open spec fn success_count(rs: Seq<RenameResult>) -> nat
    decreases rs.len(),
{
    if rs.len() == 0 {
        0
    } else {
        success_count(rs.drop_last()) + if is_success(rs.last()) {
            1nat
        } else {
            0nat
        }
    }
}

/// The result that a file name alone settles: `Skipped` for a name that is not
/// that of a replay waiting to be renamed, and nothing for one that is.
pub open spec fn screened(name: Seq<char>) -> Option<RenameResult> {
    if is_raw_replay_name(name) {
        None
    } else {
        Some(RenameResult::Skipped)
    }
}

/// The plan that a decoded replay gives: its target name, whether it is
/// printed, and whether it is renamed; nothing where it has no length.
pub open spec fn plan_of(p: Properties, options: Options) -> Option<(Seq<char>, bool, bool)> {
    if p.has_length() {
        Some((p.target_name(), !options.quiet, !options.dry_run))
    } else {
        None
    }
}

/// The result that settles a planned file before any rename, if one does: a
/// collision fails it and a dry run ends it; `None` where the rename is made.
pub open spec fn settled_result(rename: bool, granted: bool) -> Option<RenameResult> {
    if !granted {
        Some(RenameResult::Failed(FileError::Collision))
    } else if !rename {
        Some(RenameResult::DryRun)
    } else {
        None
    }
}

/// The name a string option stands for.
pub open spec fn name_view(t: Option<String>) -> Option<Seq<char>> {
    match t {
        Some(s) => Some(s@),
        None => None,
    }
}

/// The names a list of strings holds.
pub open spec fn name_views(names: Seq<String>) -> Seq<Seq<char>> {
    names.map_values(|s: String| s@)
}

/// The target names a batch holds, where it has them.
pub open spec fn target_views(targets: Seq<Option<String>>) -> Seq<Option<Seq<char>>> {
    targets.map_values(|t: Option<String>| name_view(t))
}

/// Whether the `i`th file of a batch may take its target name: it has one,
/// no file of the directory bears it, and no earlier file of the batch takes it.
pub open spec fn is_granted(
    existing: Seq<Seq<char>>,
    targets: Seq<Option<Seq<char>>>,
    i: int,
) -> bool {
    &&& targets[i] is Some
    &&& !existing.contains(targets[i]->0)
    &&& forall|j: int| 0 <= j < i ==> targets[j] != targets[i]
}

/// The verb of the summary line.
pub open spec fn summary_verb(dry_run: bool) -> Seq<char> {
    if dry_run {
        seq!['P', 'r', 'e', 't', 'e', 'n', 'd', 'e', 'd', ' ', 't', 'o', ' ', 'r', 'e', 'n', 'a', 'm', 'e']
    } else {
        seq!['R', 'e', 'n', 'a', 'm', 'e', 'd']
    }
}

/// The line that ends a batch: how many replays were renamed, or would have
/// been under a dry run, and in how long.
pub open spec fn summary_text(dry_run: bool, count: nat, secs: nat, millis: nat) -> Seq<char> {
    summary_verb(dry_run) + seq![' '] + decimal(count) + seq![' ', 'r', 'e', 'p', 'l', 'a', 'y', 's', ' ', 'i', 'n', ' '] + duration_text(secs, millis)
        + seq!['.']
}

/// Decides from its bare name whether a file goes on to be read: `None` where
/// it does, and the file's result where it does not. A path without a file
/// name fails.
pub fn screen(filter: &ReplayNameFilter, name: Option<&str>) -> (r: Option<RenameResult>)
    ensures
        name is None ==> r == Some(RenameResult::Failed(FileError::NoFileName)),
        name matches Some(n) ==> r == screened(n@),
{
    match name {
        None => Some(RenameResult::Failed(FileError::NoFileName)),
        Some(n) => {
            if filter.is_eligible(n) {
                None
            } else {
                Some(RenameResult::Skipped)
            }
        },
    }
}

/// The plan for a decoded replay, or `FrameRate` where its frame rate gives
/// it no length.
pub fn plan_rename(p: &Properties, options: Options) -> (r: Result<Plan, FileError>)
    ensures
        r is Ok <==> plan_of(*p, options) is Some,
        r matches Ok(pl) ==> plan_of(*p, options) == Some((pl.target@, pl.announce, pl.rename)),
        r matches Err(e) ==> e == FileError::FrameRate,
{
    match p.file_name() {
        Some(target) => Ok(Plan { target, announce: !options.quiet, rename: !options.dry_run }),
        None => Err(FileError::FrameRate),
    }
}

/// Which files of a batch may take their target names. A file without a
/// target, or whose target a file of the directory bears or an earlier file
/// takes, may not.
pub fn grant_targets(existing: &Vec<String>, targets: &Vec<Option<String>>) -> (r: Vec<bool>)
    ensures
        r.len() == targets.len(),
        forall|i: int|
            0 <= i < targets.len() ==> r[i] == is_granted(
                name_views(existing@),
                target_views(targets@),
                i,
            ),
{
    let ghost ex = name_views(existing@);
    let ghost ts = target_views(targets@);
    let mut r: Vec<bool> = Vec::new();
    let mut i: usize = 0;
    while i < targets.len()
        invariant
            i <= targets.len(),
            r.len() == i,
            ex == name_views(existing@),
            ts == target_views(targets@),
            forall|k: int| 0 <= k < i ==> r[k] == is_granted(ex, ts, k),
        decreases targets.len() - i,
    {
        let granted = match &targets[i] {
            None => false,
            Some(t) => !bears_name(existing, t) && !taken_before(targets, i, t),
        };
        r.push(granted);
        i = i + 1;
    }
    r
}

fn bears_name(existing: &Vec<String>, t: &String) -> (r: bool)
    ensures
        r == name_views(existing@).contains(t@),
{
    let ghost ex = name_views(existing@);
    let mut k: usize = 0;
    while k < existing.len()
        invariant
            k <= existing.len(),
            ex == name_views(existing@),
            forall|m: int| 0 <= m < k ==> ex[m] != t@,
        decreases existing.len() - k,
    {
        if existing[k] == *t {
            assert(ex[k as int] == t@);
            return true;
        }
        k = k + 1;
    }
    false
}

fn taken_before(targets: &Vec<Option<String>>, i: usize, t: &String) -> (r: bool)
    requires
        i <= targets.len(),
    ensures
        r == exists|j: int|
            0 <= j < i && #[trigger] target_views(targets@)[j] == Some(t@),
{
    let ghost ts = target_views(targets@);
    let mut j: usize = 0;
    while j < i
        invariant
            j <= i <= targets.len(),
            ts == target_views(targets@),
            forall|m: int| 0 <= m < j ==> ts[m] != Some(t@),
        decreases i - j,
    {
        match &targets[j] {
            Some(u) => {
                if *u == *t {
                    assert(ts[j as int] == Some(t@));
                    return true;
                }
            },
            None => {},
        }
        j = j + 1;
    }
    false
}

/// The next step for a planned file: a collision fails it, a dry run ends it
/// as `DryRun`, and otherwise it is renamed.
pub fn next_step(plan: &Plan, granted: bool) -> (r: Step)
    ensures
        settled_result(plan.rename, granted) matches Some(x) ==> r == Step::Done(x),
        settled_result(plan.rename, granted) is None ==> r is Rename,
{
    if !granted {
        Step::Done(RenameResult::Failed(FileError::Collision))
    } else if !plan.rename {
        Step::Done(RenameResult::DryRun)
    } else {
        Step::Rename
    }
}

/// The result of a rename that the file system made or refused.
pub fn rename_result(outcome: Result<(), String>) -> (r: RenameResult)
    ensures
        outcome is Ok ==> r == RenameResult::Renamed,
        outcome matches Err(m) ==> r == RenameResult::Failed(FileError::Rename(m)),
{
    match outcome {
        Ok(()) => RenameResult::Renamed,
        Err(m) => RenameResult::Failed(FileError::Rename(m)),
    }
}

/// The number of files of a batch that were renamed, or would have been under
/// a dry run.
pub fn count_renamed(results: &Vec<RenameResult>) -> (r: u64)
    ensures
        r == success_count(results@),
{
    let mut n: u64 = 0;
    let mut i: usize = 0;
    while i < results.len()
        invariant
            i <= results.len(),
            n == success_count(results@.subrange(0, i as int)),
            n <= i,
        decreases results.len() - i,
    {
        assert(results@.subrange(0, i + 1).drop_last() =~= results@.subrange(0, i as int));
        match &results[i] {
            RenameResult::Renamed => {
                n = n + 1;
            },
            RenameResult::DryRun => {
                n = n + 1;
            },
            _ => {},
        }
        i = i + 1;
    }
    assert(results@.subrange(0, results.len() as int) =~= results@);
    n
}

/// The line that ends a batch, for `count` renames that took `secs` seconds
/// and `millis` further milliseconds.
pub fn summary_line(dry_run: bool, count: u64, secs: u64, millis: u32) -> (r: String)
    ensures
        r@ == summary_text(dry_run, count as nat, secs as nat, millis as nat),
{
    let mut out = String::new();
    if dry_run {
        out.append("Pretended to rename");
    } else {
        out.append("Renamed");
    }
    out.append(" ");
    push_decimal(&mut out, count);
    out.append(" replays in ");
    let d = format_duration(secs, millis);
    out.append(d.as_str());
    out.append(".");
    proof {
        reveal_strlit("Pretended to rename");
        reveal_strlit("Renamed");
        reveal_strlit(" ");
        reveal_strlit(" replays in ");
        reveal_strlit(".");
        assert(out@ =~= summary_text(dry_run, count as nat, secs as nat, millis as nat));
    }
    out
}

} // verus!
