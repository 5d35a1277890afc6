use cipher_purge::config::{parse_i64, purge_days_from, DEFAULT_PURGE_DAYS};
use cipher_purge::cutoff::{
    cutoff_millis, cutoff_text, EARLIEST_MILLIS, LATEST_MILLIS, MILLIS_PER_DAY,
};
use cipher_purge::records::{
    count_purgeable, delete_purgeable, is_purgeable, purge_records, text_before, Record,
};
use cipher_purge::task::{PurgeAction, PurgeError, PurgePhase, PurgeTask, StoreReply};

/// 2024-01-15T10:30:00.000Z
const NOW: i64 = 1_705_314_600_000;

fn live(id: &str) -> Record {
    Record { id: id.to_string(), deleted_at: None }
}

fn trashed(id: &str, at: &str) -> Record {
    Record { id: id.to_string(), deleted_at: Some(at.to_string()) }
}

fn days_ago(days: i64) -> String {
    cutoff_text(NOW, days).unwrap()
}

fn ids(records: &[Record]) -> Vec<String> {
    records.iter().map(|r| r.id.clone()).collect()
}

#[test]
fn purge_days_default_when_unset() {
    assert_eq!(purge_days_from(None), 30);
    assert_eq!(DEFAULT_PURGE_DAYS, 30);
}

#[test]
fn purge_days_reads_integers() {
    assert_eq!(purge_days_from(Some("30")), 30);
    assert_eq!(purge_days_from(Some("45")), 45);
    assert_eq!(purge_days_from(Some("0")), 0);
    assert_eq!(purge_days_from(Some("-5")), -5);
    assert_eq!(purge_days_from(Some("+7")), 7);
    assert_eq!(purge_days_from(Some("007")), 7);
}

#[test]
fn purge_days_default_when_unparsable() {
    for raw in ["", "-", "+", "abc", " 5", "5 ", "1.5", "5d", "--5", "+-5", "9223372036854775808"] {
        assert_eq!(purge_days_from(Some(raw)), 30, "{raw:?}");
    }
}

#[test]
fn parse_i64_matches_std_parse() {
    for raw in [
        "0", "-0", "+0", "12", "-12", "9223372036854775807", "-9223372036854775808",
        "9223372036854775808", "-9223372036854775809", "99999999999999999999999", "", "-", "x1",
        "1x", "１",
    ] {
        assert_eq!(parse_i64(raw), raw.parse::<i64>().ok(), "{raw:?}");
    }
    assert_eq!(parse_i64("9223372036854775807"), Some(i64::MAX));
    assert_eq!(parse_i64("-9223372036854775808"), Some(i64::MIN));
}

#[test]
fn cutoff_is_whole_days_before_now() {
    assert_eq!(MILLIS_PER_DAY, 86_400_000);
    assert_eq!(cutoff_millis(NOW, 30), Some(NOW - 2_592_000_000));
    assert_eq!(cutoff_millis(NOW, 1), Some(1_705_228_200_000));
    assert_eq!(cutoff_millis(NOW, -2), Some(NOW + 172_800_000));
}

#[test]
fn cutoff_text_has_millis_and_zulu_suffix() {
    assert_eq!(cutoff_text(NOW, 0).unwrap(), "2024-01-15T10:30:00.000Z");
    assert_eq!(cutoff_text(NOW + 30 * MILLIS_PER_DAY, 30).unwrap(), "2024-01-15T10:30:00.000Z");
    assert_eq!(cutoff_text(NOW + 123, 1).unwrap(), "2024-01-14T10:30:00.123Z");
    assert_eq!(cutoff_text(NOW, 30).unwrap(), "2023-12-16T10:30:00.000Z");
    assert_eq!(cutoff_text(0, 0).unwrap(), "1970-01-01T00:00:00.000Z");
    assert_eq!(cutoff_text(-1, 0).unwrap(), "1969-12-31T23:59:59.999Z");
}

#[test]
fn cutoff_out_of_calendar_range() {
    assert!(cutoff_text(EARLIEST_MILLIS, 0).is_some());
    assert!(cutoff_text(LATEST_MILLIS, 0).is_some());
    assert_eq!(cutoff_millis(EARLIEST_MILLIS + MILLIS_PER_DAY - 1, 1), None);
    assert_eq!(cutoff_text(EARLIEST_MILLIS + MILLIS_PER_DAY - 1, 1), None);
    assert_eq!(cutoff_text(LATEST_MILLIS, -1), None);
    assert_eq!(cutoff_millis(i64::MIN, i64::MAX), None);
    assert_eq!(cutoff_millis(i64::MAX, i64::MIN), None);
}

#[test]
fn disabled_when_zero_days() {
    let (task, action) = PurgeTask::new(0, NOW);
    assert_eq!(action, PurgeAction::Finish(0));
    assert_eq!(task.phase, PurgePhase::Done);
}

#[test]
fn disabled_when_negative_days() {
    let (task, action) = PurgeTask::new(-5, NOW);
    assert_eq!(action, PurgeAction::Finish(0));
    assert_eq!(task.phase, PurgePhase::Done);
    let (_, action) = PurgeTask::start(-5);
    assert_eq!(action, PurgeAction::Finish(0));
    let (_, action) = PurgeTask::new(i64::MIN, NOW);
    assert_eq!(action, PurgeAction::Finish(0));
}

#[test]
fn run_counts_then_deletes() {
    let (mut task, action) = PurgeTask::new(30, NOW);
    assert_eq!(action, PurgeAction::Count("2023-12-16T10:30:00.000Z".to_string()));
    assert_eq!(task.phase, PurgePhase::Counting);
    let action = task.step(StoreReply::Counted(Some(4)));
    assert_eq!(action, PurgeAction::Delete("2023-12-16T10:30:00.000Z".to_string()));
    assert_eq!(task.phase, PurgePhase::Deleting);
    assert_eq!(task.counted, 4);
    assert_eq!(task.step(StoreReply::Deleted), PurgeAction::Finish(4));
    assert_eq!(task.phase, PurgePhase::Done);
}

#[test]
fn run_skips_delete_when_nothing_counted() {
    let (mut task, _) = PurgeTask::new(30, NOW);
    assert_eq!(task.step(StoreReply::Counted(Some(0))), PurgeAction::Finish(0));
    let (mut task, _) = PurgeTask::new(30, NOW);
    assert_eq!(task.step(StoreReply::Counted(None)), PurgeAction::Finish(0));
    assert_eq!(task.phase, PurgePhase::Done);
}

#[test]
fn run_fails_when_store_fails() {
    let (mut task, _) = PurgeTask::new(30, NOW);
    assert_eq!(task.step(StoreReply::Failed), PurgeAction::Fail(PurgeError::StoreFailed));
    assert_eq!(task.phase, PurgePhase::Done);
    let (mut task, _) = PurgeTask::new(30, NOW);
    task.step(StoreReply::Counted(Some(2)));
    assert_eq!(task.step(StoreReply::Failed), PurgeAction::Fail(PurgeError::StoreFailed));
}

#[test]
fn run_rejects_replies_out_of_order() {
    let (mut task, _) = PurgeTask::new(30, NOW);
    assert_eq!(task.step(StoreReply::Deleted), PurgeAction::Fail(PurgeError::UnexpectedReply));
    let (mut task, _) = PurgeTask::new(0, NOW);
    assert_eq!(
        task.step(StoreReply::Counted(Some(1))),
        PurgeAction::Fail(PurgeError::UnexpectedReply)
    );
}

#[test]
fn run_fails_when_cutoff_has_no_date() {
    let (task, action) = PurgeTask::new(i64::MAX, NOW);
    assert_eq!(action, PurgeAction::Fail(PurgeError::CutoffOutOfRange));
    assert_eq!(task.phase, PurgePhase::Done);
}

#[test]
fn start_uses_current_time() {
    let (task, action) = PurgeTask::start(30);
    match action {
        PurgeAction::Count(cutoff) => {
            assert_eq!(cutoff, task.cutoff);
            assert_eq!(cutoff.len(), 24);
            assert!(cutoff.ends_with('Z'));
            assert_eq!(&cutoff[10..11], "T");
        }
        other => panic!("unexpected first action {other:?}"),
    }
}

#[test]
fn text_order_is_byte_order() {
    assert!(text_before("2024-01-14T10:30:00.000Z", "2024-01-15T10:30:00.000Z"));
    assert!(!text_before("2024-01-15T10:30:00.000Z", "2024-01-15T10:30:00.000Z"));
    assert!(!text_before("2024-01-16T00:00:00.000Z", "2024-01-15T10:30:00.000Z"));
    assert!(text_before("", "a"));
    assert!(!text_before("a", ""));
    assert!(text_before("ab", "abc"));
    assert!(!text_before("abc", "ab"));
    assert!(text_before("Z", "a"));
}

#[test]
fn purgeable_needs_soft_delete_before_cutoff() {
    let cutoff = "2024-01-15T10:30:00.000Z";
    assert!(!is_purgeable(&live("a"), cutoff));
    assert!(is_purgeable(&trashed("b", "2024-01-15T10:29:59.999Z"), cutoff));
    assert!(!is_purgeable(&trashed("c", cutoff), cutoff));
    assert!(!is_purgeable(&trashed("d", "2024-01-15T10:30:00.001Z"), cutoff));
}

#[test]
fn count_and_delete_agree() {
    let cutoff = "2024-01-15T00:00:00.000Z";
    let mut records = vec![
        trashed("a", "2024-01-01T00:00:00.000Z"),
        live("b"),
        trashed("c", "2024-02-01T00:00:00.000Z"),
        trashed("d", "2023-06-01T00:00:00.000Z"),
    ];
    assert_eq!(count_purgeable(&records, cutoff), 2);
    delete_purgeable(&mut records, cutoff);
    assert_eq!(ids(&records), vec!["b", "c"]);
    assert_eq!(count_purgeable(&records, cutoff), 0);
}

#[test]
fn default_config_with_no_trash_purges_nothing() {
    let mut records = vec![live("a"), live("b")];
    let days = purge_days_from(None);
    assert_eq!(purge_records(&mut records, days, NOW), Ok(0));
    assert_eq!(ids(&records), vec!["a", "b"]);
}

#[test]
fn record_past_retention_is_purged() {
    let days = purge_days_from(Some("30"));
    let mut records = vec![trashed("old", &days_ago(45))];
    assert_eq!(purge_records(&mut records, days, NOW), Ok(1));
    assert!(records.is_empty());
}

#[test]
fn record_within_retention_is_kept() {
    let days = purge_days_from(Some("30"));
    let mut records = vec![trashed("recent", &days_ago(10))];
    assert_eq!(purge_records(&mut records, days, NOW), Ok(0));
    assert_eq!(ids(&records), vec!["recent"]);
}

#[test]
fn zero_days_touches_nothing() {
    let mut records = vec![trashed("old", &days_ago(400)), live("b")];
    assert_eq!(purge_records(&mut records, purge_days_from(Some("0")), NOW), Ok(0));
    assert_eq!(ids(&records), vec!["old", "b"]);
}

#[test]
fn negative_days_touches_nothing() {
    let mut records = vec![trashed("old", &days_ago(400))];
    assert_eq!(purge_records(&mut records, purge_days_from(Some("-5")), NOW), Ok(0));
    assert_eq!(ids(&records), vec!["old"]);
}

#[test]
fn second_purge_reports_zero() {
    let mut records = vec![
        trashed("a", &days_ago(31)),
        trashed("b", &days_ago(29)),
        live("c"),
        trashed("d", &days_ago(365)),
    ];
    assert_eq!(purge_records(&mut records, 30, NOW), Ok(2));
    assert_eq!(ids(&records), vec!["b", "c"]);
    assert_eq!(purge_records(&mut records, 30, NOW), Ok(0));
    assert_eq!(ids(&records), vec!["b", "c"]);
}

#[test]
fn purge_spares_live_and_boundary_records() {
    let mut records = vec![
        live("live"),
        trashed("at_cutoff", &days_ago(30)),
        trashed("just_before", &cutoff_text(NOW - 1, 30).unwrap()),
        trashed("just_after", &cutoff_text(NOW + 1, 30).unwrap()),
    ];
    assert_eq!(purge_records(&mut records, 30, NOW), Ok(1));
    assert_eq!(ids(&records), vec!["live", "at_cutoff", "just_after"]);
}

#[test]
fn purge_with_unrepresentable_cutoff_fails() {
    let mut records = vec![trashed("a", "0001-01-01T00:00:00.000Z")];
    assert_eq!(
        purge_records(&mut records, i64::MAX, NOW),
        Err(PurgeError::CutoffOutOfRange)
    );
    assert_eq!(ids(&records), vec!["a"]);
}
