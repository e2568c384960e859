//! Renames game-replay files after the match metadata held in their headers.
mod batch;
mod duration;
mod eligibility;
mod frame_rate;
mod laws;
mod naming;

pub use duration::{decimal, digit_char, duration_text, format_duration, push_decimal};
pub use frame_rate::{
    exact_length, exponent_field, fraction_field, is_positive_rate, length_secs, scale,
    sign_field, significand, FrameRate,
};
pub use eligibility::{
    is_raw_replay_name, is_upper_hex, raw_name_pattern, replay_extension, ReplayNameFilter,
};
pub use naming::{
    game_length, is_unsafe_char, mode_name, mode_text, name_text, push_sanitized, safe_char,
    sanitized, score_value, Properties,
};
pub use batch::{
    count_renamed, grant_targets, is_granted, is_success, name_view, name_views, next_step,
    plan_of, plan_rename, rename_result, screen, screened, settled_result, success_count,
    summary_line, summary_text, summary_verb, target_views, FileError, Options, Plan,
    RenameResult, Step,
};
pub use laws::{
    lemma_absent_scores_read_zero, lemma_hex_name_is_read, lemma_dry_run_reports_alike,
    lemma_failures_do_not_count, lemma_no_frames_no_length, lemma_second_run_renames_nothing,
    lemma_target_name_is_skipped, lemma_zero_rate_fails,
};
