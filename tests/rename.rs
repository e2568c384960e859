use replay_renamer::{
    count_renamed, format_duration, game_length, grant_targets, mode_name, next_step,
    plan_rename, rename_result, screen, summary_line, FileError, FrameRate, Options, Properties,
    RenameResult, ReplayNameFilter, Step,
};

fn props(
    team_size: u8,
    scores: (Option<u8>, Option<u8>),
    fps: f32,
    frames: u32,
    map: &str,
    date: &str,
    kind: &str,
) -> Properties {
    Properties {
        team_size,
        team0_score: scores.0,
        team1_score: scores.1,
        record_fps: FrameRate { bits: fps.to_bits() },
        map_name: map.to_string(),
        date: date.to_string(),
        num_frames: frames,
        match_type: kind.to_string(),
    }
}

fn stadium() -> Properties {
    props(3, (Some(2), Some(1)), 30.0, 18000, "Stadium", "2024-01-01", "Online")
}

const REAL: Options = Options { dry_run: false, quiet: false };
const DRY: Options = Options { dry_run: true, quiet: false };

#[test]
fn raw_identifier_is_eligible() {
    let filter = ReplayNameFilter::new();
    assert!(filter.is_eligible("28E4E0FE49754D401B77288664EC770A.replay"));
    assert!(filter.is_eligible("AAAAAAAA.replay"));
}

#[test]
fn synthesized_name_is_not_eligible() {
    let filter = ReplayNameFilter::new();
    let name = stadium().file_name().unwrap();
    assert!(!filter.is_eligible(&name));
    assert!(!filter.is_eligible("2024-01-01 - 3v3 - Stadium (Online) - 2-1 - 10m 0s.replay"));
}

#[test]
fn unrelated_names_are_not_eligible() {
    let filter = ReplayNameFilter::new();
    assert!(!filter.is_eligible("notes.txt"));
    assert!(!filter.is_eligible("abcdef.replay"));
    assert!(!filter.is_eligible(".replay"));
    assert!(!filter.is_eligible("AAAA.replays.txt"));
    assert!(!filter.is_eligible("AB.replay.bak"));
    assert!(!filter.is_eligible("old copy F.replay"));
    assert!(!filter.is_eligible("My Replay.replay"));
    assert!(!filter.is_eligible("AAAA.repla"));
}

#[test]
fn concrete_scenario_name() {
    let name = stadium().file_name().unwrap();
    assert_eq!(name, "2024-01-01 - 3v3 - Stadium (Online) - 2-1 - 10m 0s.replay");
    for part in ["2024-01-01", "3v3", "Stadium", "Online", "2-1", "10m 0s"] {
        assert!(name.contains(part));
    }
    assert!(name.ends_with(".replay"));
}

#[test]
fn absent_scores_default_to_zero() {
    let p = props(2, (None, None), 30.0, 900, "Park", "2023-05-06", "Private");
    let name = p.file_name().unwrap();
    assert_eq!(name, "2023-05-06 - 2v2 - Park (Private) - 0-0 - 30s.replay");
    let q = props(1, (Some(4), None), 30.0, 900, "Park", "d", "t");
    assert!(q.file_name().unwrap().contains(" - 4-0 - "));
}

#[test]
fn zero_frames_give_zero_milliseconds() {
    let p = props(1, (Some(0), Some(0)), 30.0, 0, "Map", "Date", "Kind");
    assert_eq!(game_length(&p), Some("0ms".to_string()));
    assert!(p.file_name().unwrap().ends_with(" - 0ms.replay"));
}

#[test]
fn zero_frame_rate_fails_the_file() {
    let p = props(1, (Some(0), Some(0)), 0.0, 100, "Map", "Date", "Kind");
    assert_eq!(p.file_name(), None);
    assert!(matches!(plan_rename(&p, REAL), Err(FileError::FrameRate)));
    let neg = props(1, (None, None), -0.0, 100, "Map", "Date", "Kind");
    assert_eq!(game_length(&neg), None);
    let nan = props(1, (None, None), f32::NAN, 100, "Map", "Date", "Kind");
    assert_eq!(game_length(&nan), None);
    let inf = props(1, (None, None), f32::INFINITY, 100, "Map", "Date", "Kind");
    assert_eq!(game_length(&inf), None);
}

#[test]
fn frame_rate_lengths() {
    assert_eq!(FrameRate { bits: 30.0f32.to_bits() }.game_length_secs(18000), Some(600));
    assert_eq!(FrameRate { bits: 30.0f32.to_bits() }.game_length_secs(59), Some(1));
    assert_eq!(FrameRate { bits: 60.0f32.to_bits() }.game_length_secs(59), Some(0));
    assert_eq!(FrameRate { bits: 0.5f32.to_bits() }.game_length_secs(3), Some(6));
    assert_eq!(FrameRate { bits: 1.0e30f32.to_bits() }.game_length_secs(u32::MAX), Some(0));
    assert_eq!(FrameRate { bits: 1.0f32.to_bits() }.game_length_secs(u32::MAX), Some(4294967295));
    assert_eq!(FrameRate { bits: 1 }.game_length_secs(1), Some(u64::MAX));
    assert_eq!(FrameRate { bits: 1 }.game_length_secs(0), Some(0));
    assert_eq!(FrameRate { bits: 29.97f32.to_bits() }.game_length_secs(17982), Some(600));
}

#[test]
fn duration_formatting() {
    assert_eq!(format_duration(0, 0), "0ms");
    assert_eq!(format_duration(0, 250), "250ms");
    assert_eq!(format_duration(1, 999), "1s");
    assert_eq!(format_duration(59, 0), "59s");
    assert_eq!(format_duration(60, 0), "1m 0s");
    assert_eq!(format_duration(605, 3), "10m 5s");
    assert_eq!(format_duration(7325, 0), "122m 5s");
}

#[test]
fn mode_label() {
    assert_eq!(mode_name(&stadium()), "3v3");
    let p = props(10, (None, None), 30.0, 1, "m", "d", "t");
    assert_eq!(mode_name(&p), "10v10");
}

#[test]
fn unsafe_characters_are_replaced() {
    let p = props(1, (Some(1), Some(2)), 30.0, 300, "a/b\\c", "2024/01/01", "x:y*z?\"<>|\n");
    let name = p.file_name().unwrap();
    assert_eq!(name, "2024_01_01 - 1v1 - a_b_c (x_y_z______) - 1-2 - 10s.replay");
    assert!(!name.contains('/'));
}

#[test]
fn screen_skips_and_fails() {
    let filter = ReplayNameFilter::new();
    assert_eq!(screen(&filter, Some("readme.md")), Some(RenameResult::Skipped));
    assert_eq!(screen(&filter, Some("0A1B.replay")), None);
    assert_eq!(screen(&filter, None), Some(RenameResult::Failed(FileError::NoFileName)));
}

#[test]
fn dry_run_plans_alike() {
    let real = plan_rename(&stadium(), REAL).unwrap();
    let dry = plan_rename(&stadium(), DRY).unwrap();
    assert_eq!(real.target, dry.target);
    assert_eq!(real.announce, dry.announce);
    assert!(real.rename);
    assert!(!dry.rename);
    assert!(matches!(next_step(&dry, true), Step::Done(RenameResult::DryRun)));
    assert!(matches!(next_step(&real, true), Step::Rename));
    let quiet = plan_rename(&stadium(), Options { dry_run: true, quiet: true }).unwrap();
    assert!(!quiet.announce);
}

#[test]
fn collisions_fail_all_but_first() {
    let existing = vec!["taken.replay".to_string(), "AAAA.replay".to_string()];
    let targets = vec![
        Some("x.replay".to_string()),
        None,
        Some("taken.replay".to_string()),
        Some("x.replay".to_string()),
        Some("y.replay".to_string()),
    ];
    assert_eq!(grant_targets(&existing, &targets), vec![true, false, false, false, true]);
    let plan = plan_rename(&stadium(), REAL).unwrap();
    assert!(matches!(
        next_step(&plan, false),
        Step::Done(RenameResult::Failed(FileError::Collision))
    ));
}

#[test]
fn rename_outcomes() {
    assert_eq!(rename_result(Ok(())), RenameResult::Renamed);
    assert_eq!(
        rename_result(Err("denied".to_string())),
        RenameResult::Failed(FileError::Rename("denied".to_string()))
    );
}

#[test]
fn partial_failure_counts_one() {
    let results = vec![
        RenameResult::Failed(FileError::Decode("bad header".to_string())),
        RenameResult::Renamed,
    ];
    assert_eq!(count_renamed(&results), 1);
    let mixed = vec![
        RenameResult::Skipped,
        RenameResult::DryRun,
        RenameResult::Failed(FileError::FrameRate),
        RenameResult::DryRun,
    ];
    assert_eq!(count_renamed(&mixed), 2);
    assert_eq!(count_renamed(&vec![]), 0);
}

#[test]
fn second_run_renames_nothing() {
    let filter = ReplayNameFilter::new();
    let first = stadium().file_name().unwrap();
    let second = screen(&filter, Some(&first));
    assert_eq!(second, Some(RenameResult::Skipped));
    assert_eq!(count_renamed(&vec![second.unwrap()]), 0);
}

#[test]
fn summary_lines() {
    assert_eq!(summary_line(false, 12, 0, 37), "Renamed 12 replays in 37ms.");
    assert_eq!(summary_line(true, 1, 2, 5), "Pretended to rename 1 replays in 2s.");
    assert_eq!(summary_line(false, 0, 61, 0), "Renamed 0 replays in 1m 1s.");
}
