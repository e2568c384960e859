use crate::batch::{
    is_success, plan_of, screened, settled_result, success_count, summary_text, FileError, Options,
    RenameResult,
};
use crate::duration::{decimal, duration_text};
use crate::eligibility::{is_raw_replay_name, is_upper_hex, replay_extension};
use crate::frame_rate::{exact_length, is_positive_rate, length_secs, scale, significand};
use crate::naming::{mode_text, sanitized, score_value, Properties};
use vstd::arithmetic::power2::{lemma_pow2_pos, pow2};
use vstd::prelude::*;

verus! {

/// A name of one or more upper-case hexadecimal digits followed by `.replay`
/// goes on to be read and renamed.
pub proof fn lemma_hex_name_is_read(digits: Seq<char>)
    requires
        digits.len() >= 1,
        forall|i: int| 0 <= i < digits.len() ==> is_upper_hex(#[trigger] digits[i]),
    ensures
        is_raw_replay_name(digits + replay_extension()),
        screened(digits + replay_extension()) is None,
{
    let name = digits + replay_extension();
    assert(name.subrange(name.len() - 7, name.len() as int) =~= replay_extension());
    assert forall|i: int| 0 <= i < name.len() - 7 implies is_upper_hex(#[trigger] name[i]) by {
        assert(name[i] == digits[i]);
    }
}

/// A name that a match's properties give is not that of a replay waiting to
/// be renamed, so a later run skips the file.
pub proof fn lemma_target_name_is_skipped(p: Properties)
    ensures
        !is_raw_replay_name(p.target_name()),
        screened(p.target_name()) == Some(RenameResult::Skipped),
{
    let d = sanitized(p.date@);
    let rest = seq![' ', '-', ' '] + mode_text(p.team_size as nat) + seq![' ', '-', ' ']
        + sanitized(p.map_name@) + seq![' ', '('] + sanitized(p.match_type@) + seq![
        ')',
        ' ',
        '-',
        ' ',
    ] + decimal(score_value(p.team0_score)) + seq!['-'] + decimal(score_value(p.team1_score))
        + seq![' ', '-', ' '] + duration_text(
        length_secs(p.num_frames as nat, p.record_fps.bits),
        0,
    );
    let name = p.target_name();
    assert(name =~= d + (rest + replay_extension()));
    assert(rest[0] == ' ');
    assert(name[d.len() as int] == ' ');
    assert(d.len() < name.len() - 7);
    assert(!is_upper_hex(name[d.len() as int]));
}

proof fn lemma_skipped_count_zero(rs: Seq<RenameResult>)
    requires
        forall|i: int| 0 <= i < rs.len() ==> rs[i] is Skipped,
    ensures
        success_count(rs) == 0,
    decreases rs.len(),
{
    if rs.len() > 0 {
        lemma_skipped_count_zero(rs.drop_last());
    }
}

/// A second run over files that a first run renamed renames none of them: each
/// renamed file bears the name its properties give, which the first step
/// skips, so the count of renames is zero and the summary says so.
pub proof fn lemma_second_run_renames_nothing(renamed: Seq<Properties>, secs: nat, millis: nat)
    ensures
        success_count(
            renamed.map_values(|p: Properties| screened(p.target_name())->0),
        ) == 0,
        summary_text(
            false,
            success_count(renamed.map_values(|p: Properties| screened(p.target_name())->0)),
            secs,
            millis,
        ) == summary_text(false, 0, secs, millis),
{
    let rs = renamed.map_values(|p: Properties| screened(p.target_name())->0);
    assert forall|i: int| 0 <= i < rs.len() implies rs[i] is Skipped by {
        lemma_target_name_is_skipped(renamed[i]);
    }
    lemma_skipped_count_zero(rs);
}

/// A dry run plans the same name and prints the same line as a real run, and
/// plans no rename: a file free to take its name ends as `DryRun`, which counts
/// as a rename does, and a collision fails it as it fails a real run.
pub proof fn lemma_dry_run_reports_alike(p: Properties, quiet: bool, granted: bool)
    ensures
        plan_of(p, Options { dry_run: true, quiet }) is Some <==> plan_of(
            p,
            Options { dry_run: false, quiet },
        ) is Some,
        plan_of(p, Options { dry_run: true, quiet }) matches Some(d) ==> {
            &&& plan_of(p, Options { dry_run: false, quiet }) matches Some(w)
            &&& d.0 == w.0
            &&& d.1 == w.1
            &&& !d.2
            &&& settled_result(d.2, true) == Some(RenameResult::DryRun)
            &&& !granted ==> settled_result(d.2, granted) == settled_result(w.2, granted)
        },
        is_success(RenameResult::DryRun) == is_success(RenameResult::Renamed),
{
}

/// Where a match's scores are absent, its name gives them as `0-0`.
pub proof fn lemma_absent_scores_read_zero(p: Properties)
    requires
        p.team0_score is None,
        p.team1_score is None,
    ensures
        exists|k: int| #[trigger]
            p.target_name().subrange(k, k + 3) == seq!['0', '-', '0'],
{
    let pre = sanitized(p.date@) + seq![' ', '-', ' '] + mode_text(p.team_size as nat) + seq![
        ' ',
        '-',
        ' ',
    ] + sanitized(p.map_name@) + seq![' ', '('] + sanitized(p.match_type@) + seq![
        ')',
        ' ',
        '-',
        ' ',
    ];
    let post = seq![' ', '-', ' '] + duration_text(
        length_secs(p.num_frames as nat, p.record_fps.bits),
        0,
    ) + replay_extension();
    assert(decimal(0) =~= seq!['0']);
    assert(p.target_name() =~= pre + seq!['0', '-', '0'] + post);
    let k = pre.len() as int;
    assert(p.target_name().subrange(k, k + 3) =~= seq!['0', '-', '0']);
}

/// A match of no frames lasts zero seconds, written `0ms`.
pub proof fn lemma_no_frames_no_length(bits: u32)
    requires
        is_positive_rate(bits),
    ensures
        length_secs(0, bits) == 0,
        duration_text(length_secs(0, bits), 0) == seq!['0', 'm', 's'],
{
    if scale(bits) < 0 {
        lemma_pow2_pos((-scale(bits)) as nat);
        assert(0 * pow2((-scale(bits)) as nat) == 0);
    } else {
        lemma_pow2_pos(scale(bits) as nat);
        assert(significand(bits) * pow2(scale(bits) as nat) > 0) by (nonlinear_arith)
            requires
                significand(bits) > 0,
                pow2(scale(bits) as nat) > 0,
        ;
    }
    assert(exact_length(0, bits) == 0);
    assert(decimal(0) =~= seq!['0']);
    assert(duration_text(0, 0) =~= seq!['0', 'm', 's']);
}

/// A frame rate of zero, of either sign, gives no plan: the file fails
/// with `FrameRate` rather than stopping the batch.
pub proof fn lemma_zero_rate_fails(p: Properties, options: Options)
    requires
        p.record_fps.bits == 0 || p.record_fps.bits == 0x8000_0000,
    ensures
        plan_of(p, options) is None,
{
}

/// A failed file adds nothing to the count of a batch, and a renamed one adds
/// one, whatever the other files did.
pub proof fn lemma_failures_do_not_count(rs: Seq<RenameResult>, e: FileError)
    ensures
        success_count(rs.push(RenameResult::Failed(e))) == success_count(rs),
        success_count(rs.push(RenameResult::Renamed)) == success_count(rs) + 1,
        success_count(rs.push(RenameResult::DryRun)) == success_count(rs) + 1,
        success_count(rs.push(RenameResult::Skipped)) == success_count(rs),
{
    assert(rs.push(RenameResult::Failed(e)).drop_last() =~= rs);
    assert(rs.push(RenameResult::Renamed).drop_last() =~= rs);
    assert(rs.push(RenameResult::DryRun).drop_last() =~= rs);
    assert(rs.push(RenameResult::Skipped).drop_last() =~= rs);
}

} // verus!
