use bundle_supervisor::marker::{archive_stamp, decimal_text, marker_matches};
use bundle_supervisor::stager::{
    needs_unpack, plan_staging, step_error, StageError, StageStep, MARKER_FILE_NAME,
};

/// A directory held in memory, to carry out plans the way the host does.
struct FakeDir {
    exists: bool,
    marker: Option<String>,
    sentinel: bool,
    extractions: u32,
}

impl FakeDir {
    fn fresh() -> FakeDir {
        FakeDir { exists: false, marker: None, sentinel: false, extractions: 0 }
    }

    fn stage(&mut self, mtime: u64) {
        let observed = if self.exists { self.marker.clone() } else { None };
        for step in plan_staging(self.exists, &observed, mtime) {
            match step {
                StageStep::RemoveDir => {
                    self.exists = false;
                    self.marker = None;
                    self.sentinel = false;
                }
                StageStep::CreateDir => self.exists = true,
                StageStep::Extract => {
                    self.extractions += 1;
                    self.sentinel = false;
                }
                StageStep::WriteMarker(text) => self.marker = Some(text),
            }
        }
    }
}

fn is_write_marker(step: &StageStep, text: &str) -> bool {
    matches!(step, StageStep::WriteMarker(t) if t == text)
}

#[test]
fn stamp_is_decimal_text() {
    assert_eq!(archive_stamp(0), "0");
    assert_eq!(archive_stamp(7), "7");
    assert_eq!(archive_stamp(1000), "1000");
    assert_eq!(archive_stamp(1700000000), "1700000000");
    assert_eq!(archive_stamp(u64::MAX), u64::MAX.to_string());
    assert_eq!(decimal_text(1420), "1420");
}

#[test]
fn marker_round_trip_for_sample_stamps() {
    for n in [0u64, 9, 10, 1000, 1001, 1712345678, u64::MAX] {
        let written = archive_stamp(n);
        assert!(marker_matches(&written, &n.to_string()));
        assert!(marker_matches(&format!("{}\n", written), &n.to_string()));
    }
}

#[test]
fn marker_comparison_trims_white_space_only() {
    assert!(marker_matches("  1000 \r\n", "1000"));
    assert!(marker_matches("\t1000\u{a0}", "1000"));
    assert!(!marker_matches("1000x", "1000"));
    assert!(!marker_matches("10 00", "1000"));
    assert!(!marker_matches("", "1000"));
    assert!(!marker_matches("01000", "1000"));
    assert!(marker_matches("   ", ""));
}

#[test]
fn missing_directory_needs_unpack() {
    assert!(needs_unpack(false, &Some("1000".to_string()), "1000"));
    assert!(needs_unpack(false, &None, "1000"));
}

#[test]
fn unreadable_marker_needs_unpack() {
    assert!(needs_unpack(true, &None, "1000"));
}

#[test]
fn matching_marker_needs_no_unpack() {
    assert!(!needs_unpack(true, &Some("1000\n".to_string()), "1000"));
    assert!(needs_unpack(true, &Some("999".to_string()), "1000"));
}

#[test]
fn plan_for_missing_directory() {
    let plan = plan_staging(false, &None, 1000);
    assert_eq!(plan.len(), 3);
    assert!(matches!(plan[0], StageStep::CreateDir));
    assert!(matches!(plan[1], StageStep::Extract));
    assert!(is_write_marker(&plan[2], "1000"));
}

#[test]
fn plan_for_stale_directory_removes_first() {
    let plan = plan_staging(true, &Some("1000".to_string()), 1001);
    assert_eq!(plan.len(), 4);
    assert!(matches!(plan[0], StageStep::RemoveDir));
    assert!(matches!(plan[1], StageStep::CreateDir));
    assert!(matches!(plan[2], StageStep::Extract));
    assert!(is_write_marker(&plan[3], "1001"));
}

#[test]
fn plan_for_current_directory_is_empty() {
    assert!(plan_staging(true, &Some("1000".to_string()), 1000).is_empty());
}

#[test]
fn idempotent_staging_extracts_once() {
    let mut dir = FakeDir::fresh();
    dir.stage(42);
    dir.stage(42);
    assert_eq!(dir.extractions, 1);
    assert_eq!(dir.marker.as_deref(), Some("42"));
}

#[test]
fn staleness_restages_with_new_marker() {
    let mut dir = FakeDir { exists: true, marker: Some("5".to_string()), sentinel: true, extractions: 3 };
    dir.stage(6);
    assert_eq!(dir.extractions, 4);
    assert!(!dir.sentinel);
    assert_eq!(dir.marker.as_deref(), Some("6"));
}

#[test]
fn missing_marker_restages_whatever_the_contents() {
    let mut dir = FakeDir { exists: true, marker: None, sentinel: true, extractions: 1 };
    dir.stage(1000);
    assert_eq!(dir.extractions, 2);
    assert!(!dir.sentinel);
    assert_eq!(dir.marker.as_deref(), Some("1000"));
}

#[test]
fn interrupted_run_is_redone() {
    let plan = plan_staging(false, &None, 77);
    // Carry out all but the marker write, as a crash would leave it.
    assert!(is_write_marker(plan.last().unwrap(), "77"));
    assert!(needs_unpack(true, &None, "77"));
    assert_eq!(plan_staging(true, &None, 77).len(), 4);
}

#[test]
fn scenario_stage_restage_on_new_timestamp() {
    let mut dir = FakeDir::fresh();
    dir.stage(1000);
    assert_eq!(dir.extractions, 1);
    assert_eq!(dir.marker.as_deref(), Some("1000"));
    dir.sentinel = true;
    dir.stage(1000);
    assert_eq!(dir.extractions, 1);
    assert!(dir.sentinel);
    dir.stage(1001);
    assert_eq!(dir.extractions, 2);
    assert!(!dir.sentinel);
    assert_eq!(dir.marker.as_deref(), Some("1001"));
}

#[test]
fn step_failures_map_to_errors() {
    assert!(matches!(step_error(&StageStep::RemoveDir, "busy".to_string()), StageError::StagingIoError(c) if c == "busy"));
    assert!(matches!(step_error(&StageStep::CreateDir, "denied".to_string()), StageError::StagingIoError(_)));
    assert!(matches!(step_error(&StageStep::Extract, "corrupt".to_string()), StageError::ExtractionFailed(c) if c == "corrupt"));
    assert!(matches!(step_error(&StageStep::WriteMarker("1".to_string()), "full".to_string()), StageError::StagingIoError(_)));
}

#[test]
fn marker_file_name() {
    assert_eq!(MARKER_FILE_NAME, ".archive_mtime");
}

#[test]
fn trimmed_characters_are_std_white_space() {
    for code in 0u32..0x31000 {
        if let Some(c) = char::from_u32(code) {
            let content = format!("{}7{}", c, c);
            assert_eq!(marker_matches(&content, "7"), content.trim() == "7", "U+{:04X}", code);
        }
    }
}
