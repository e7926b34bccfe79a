use itch_fetch::catalog::Upload;
use itch_fetch::errors::{UnitError, UnitResult};
use itch_fetch::pool::{plan_download, run_all, PermitCounter, PoolRun, UnitPhase};
use itch_fetch::progress::ProgressLine;
use itch_fetch::stream::{declared_total, stream_chunks};
use itch_fetch::text::{pad_to_width, truncate_to_width};

fn upload(id: u64, filename: &str) -> Upload {
    Upload {
        id,
        filename: filename.to_string(),
        size: 10,
        upload_type: "default".to_string(),
        game_id: 1,
    }
}

#[test]
fn permit_counter_never_exceeds_capacity() {
    let mut permits = PermitCounter::new(2);
    assert!(permits.try_acquire());
    assert!(permits.try_acquire());
    assert!(!permits.try_acquire());
    assert_eq!(permits.in_use, 2);
    permits.release();
    assert!(permits.try_acquire());
    assert_eq!(permits.in_use, 2);
}

#[test]
fn pool_gates_starts_on_permits() {
    let mut pool = PoolRun::new(3, 1);
    pool.start(0);
    assert_eq!(pool.permits.in_use, 1);
    pool.finish(0, UnitResult::Done { extracted: false });
    assert_eq!(pool.permits.in_use, 0);
    pool.start(1);
    pool.finish(1, UnitResult::Failed(UnitError::NoUploads));
    pool.start(2);
    pool.finish(2, UnitResult::Done { extracted: true });
    assert!(matches!(pool.units[0], UnitPhase::Terminal(UnitResult::Done { extracted: false })));
    assert!(matches!(pool.units[1], UnitPhase::Terminal(UnitResult::Failed(UnitError::NoUploads))));
    assert!(matches!(pool.units[2], UnitPhase::Terminal(UnitResult::Done { extracted: true })));
}

#[test]
fn failing_unit_leaves_siblings_untouched() {
    let outcomes = vec![
        UnitResult::Done { extracted: true },
        UnitResult::Failed(UnitError::Io { detail: "disk full".to_string() }),
        UnitResult::Done { extracted: false },
    ];
    let phases = run_all(outcomes, 2);
    assert_eq!(phases.len(), 3);
    assert!(matches!(&phases[0], UnitPhase::Terminal(UnitResult::Done { extracted: true })));
    assert!(matches!(&phases[1], UnitPhase::Terminal(UnitResult::Failed(UnitError::Io { .. }))));
    assert!(matches!(&phases[2], UnitPhase::Terminal(UnitResult::Done { extracted: false })));
}

#[test]
fn run_completes_with_capacity_one_and_many_units() {
    let outcomes = vec![
        UnitResult::ExtractFailed { detail: "bad archive".to_string() },
        UnitResult::Done { extracted: false },
        UnitResult::Failed(UnitError::NoUploads),
        UnitResult::Done { extracted: true },
        UnitResult::Done { extracted: false },
    ];
    let phases = run_all(outcomes, 1);
    assert_eq!(phases.len(), 5);
    assert!(phases.iter().all(|p| matches!(p, UnitPhase::Terminal(_))));
    assert!(matches!(&phases[0], UnitPhase::Terminal(UnitResult::ExtractFailed { .. })));
}

#[test]
fn download_plan_extracts_only_archives_when_asked() {
    let ups = vec![upload(1, "a.txt"), upload(2, "b.ZIP")];
    let plan = plan_download(&ups, true, "My Game".to_string()).unwrap();
    assert_eq!(plan.index, 1);
    assert_eq!(plan.extract_dir.as_deref(), Some("My Game"));

    let plan = plan_download(&ups, false, "My Game".to_string()).unwrap();
    assert_eq!(plan.index, 1);
    assert!(plan.extract_dir.is_none());

    let plain = vec![upload(1, "a.txt")];
    let plan = plan_download(&plain, true, "My Game".to_string()).unwrap();
    assert_eq!(plan.index, 0);
    assert!(plan.extract_dir.is_none());

    assert!(plan_download(&vec![], true, "My Game".to_string()).is_none());
}

#[test]
fn streamed_bytes_equal_their_concatenation() {
    let chunks = vec![vec![1u8, 2, 3], vec![], vec![4u8], vec![5u8, 6, 7, 8, 9]];
    let mut sink = ProgressLine::new();
    let out = stream_chunks(chunks, Some(9), &mut sink, "done".to_string());
    assert_eq!(out, vec![1u8, 2, 3, 4, 5, 6, 7, 8, 9]);
    assert_eq!(sink.position, 9);
    assert_eq!(sink.total, 9);
    assert!(sink.finished);
    assert_eq!(sink.message, "done");
}

#[test]
fn chunking_does_not_change_the_bytes() {
    let data: Vec<u8> = (0u8..=50).collect();
    let coarse = vec![data.clone()];
    let fine: Vec<Vec<u8>> = data.chunks(7).map(|c| c.to_vec()).collect();
    let mut sink_a = ProgressLine::new();
    let mut sink_b = ProgressLine::new();
    let a = stream_chunks(coarse, None, &mut sink_a, "ok".to_string());
    let b = stream_chunks(fine, None, &mut sink_b, "ok".to_string());
    assert_eq!(a, b);
    assert_eq!(a, data);
    assert_eq!(sink_a.position, sink_b.position);
}

#[test]
fn unknown_length_reports_zero_total_but_real_positions() {
    let chunks = vec![vec![1u8, 2], vec![3u8]];
    let mut sink = ProgressLine::new();
    let out = stream_chunks(chunks, None, &mut sink, "ok".to_string());
    assert_eq!(out.len(), 3);
    assert_eq!(sink.total, 0);
    assert_eq!(sink.position, 3);
    assert_eq!(declared_total(Some(42)), 42);
    assert_eq!(declared_total(None), 0);
}

#[test]
fn progress_line_steps() {
    let mut line = ProgressLine::new();
    line.set_total(100);
    line.advance(30);
    line.advance(20);
    assert_eq!(line.position, 50);
    line.set_position(75);
    assert_eq!(line.position, 75);
    line.set_message("working".to_string());
    assert!(!line.finished);
    line.finish("all done".to_string());
    assert!(line.finished);
    assert_eq!(line.message, "all done");
    assert_eq!(line.total, 100);
}

#[test]
fn truncate_keeps_fitting_strings() {
    assert_eq!(truncate_to_width("hello", 10), "hello");
    assert_eq!(truncate_to_width("", 5), "");
}

#[test]
fn truncate_cuts_with_ellipsis() {
    assert_eq!(truncate_to_width("hello world!!", 8), "hello...");
}

#[test]
fn truncate_tiny_width_degrades_to_dots() {
    assert_eq!(truncate_to_width("hello world", 2), "..");
    assert_eq!(truncate_to_width("hello world", 3), "...");
    assert_eq!(truncate_to_width("hello world", 0), "");
}

#[test]
fn truncate_counts_wide_characters_as_two_columns() {
    assert_eq!(truncate_to_width("日本語", 10), "日本語");
    assert_eq!(truncate_to_width("日本語abc", 7), "日本...");
}

#[test]
fn pad_counts_visual_width() {
    assert_eq!(pad_to_width("ab", 5), "ab   ");
    assert_eq!(pad_to_width("日本", 5), "日本 ");
    assert_eq!(pad_to_width("hello", 3), "hello");
    assert_eq!(pad_to_width("", 2), "  ");
}
