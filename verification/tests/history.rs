use byetype::history::{HistoryManager, HistoryRecord, MAX_RECORDS};
use byetype::timing::{record_lines_of, TimingLog, TimingRecord};

fn record(id: u64, audio: Option<&str>) -> HistoryRecord {
    HistoryRecord {
        id,
        created_at: "2026-01-01T00:00:00.000Z".to_string(),
        audio_path: audio.map(|s| s.to_string()),
        transcribe_text: None,
        optimize_text: None,
        status: "done".to_string(),
        error_message: None,
        record_type: "voice".to_string(),
        screenshot_path: None,
        extract_text: None,
    }
}

#[test]
fn ids_follow_the_clock_and_never_repeat() {
    let mut history = HistoryManager::new("/data");
    assert_eq!(history.next_id(1_000), 1_000);
    assert_eq!(history.next_id(1_000), 1_001);
    assert_eq!(history.next_id(900), 1_002);
    assert_eq!(history.next_id(5_000), 5_000);
}

#[test]
fn history_keeps_the_three_newest_records() {
    let mut history = HistoryManager::new("/data");
    for id in 1..=3 {
        let evicted = history.add_record(id, format!("t{id}"), None, Some("x".to_string()), None, "done", None);
        assert!(evicted.is_empty());
    }
    let evicted = history.add_extract_record(4, "t4".to_string(), Some("/data/4.png".to_string()), None, "done", None);

    assert_eq!(evicted.len(), 1);
    assert_eq!(evicted[0].id, 1);
    let ids: Vec<u64> = history.get_records().iter().map(|r| r.id).collect();
    assert_eq!(ids, vec![2, 3, 4]);
    assert_eq!(history.get_records().len(), MAX_RECORDS);
    assert_eq!(history.get_records()[2].record_type, "extract");
    assert_eq!(history.get_records()[0].record_type, "voice");
}

#[test]
fn update_changes_only_the_given_texts() {
    let mut history = HistoryManager::new("/data");
    history.add_record(7, "t".to_string(), None, Some("原文".to_string()), Some("优化".to_string()), "running", None);

    history.update_record(7, None, Some("新优化".to_string()), "failed", Some("oops".to_string())).unwrap();

    let r = &history.get_records()[0];
    assert_eq!(r.transcribe_text.as_deref(), Some("原文"));
    assert_eq!(r.optimize_text.as_deref(), Some("新优化"));
    assert_eq!(r.status, "failed");
    assert_eq!(r.error_message.as_deref(), Some("oops"));
}

#[test]
fn update_of_an_unknown_record_fails() {
    let mut history = HistoryManager::new("/data");

    assert_eq!(
        history.update_record(42, None, None, "done", None),
        Err("record 42 not found".to_string())
    );
}

#[test]
fn loading_continues_ids_after_the_largest() {
    let mut history = HistoryManager::new("/data");
    history.load(vec![record(30, None), record(50, None), record(40, None)]);

    assert_eq!(history.last_id(), 50);
    assert_eq!(history.next_id(10), 51);
}

#[test]
fn attachments_are_decoded_and_named_by_id() {
    let history = HistoryManager::new("/data");

    let a = history.stage_attachment(12, "ZmFrZQ==", "wav", "audio").unwrap();
    assert_eq!(a.bytes, b"fake".to_vec());
    assert!(a.path.ends_with("12.wav"));
    assert!(a.path.starts_with("/data"));

    let e = history.stage_attachment(12, "***", "wav", "audio").err().unwrap();
    assert!(e.starts_with("Failed to decode audio: "));
}

#[test]
fn audio_path_and_missing_files() {
    let mut history = HistoryManager::new("/data");
    history.load(vec![record(1, Some("/a/1.wav")), record(2, Some("/a/2.wav"))]);

    assert_eq!(history.audio_path_of(2), Some("/a/2.wav".to_string()));
    assert_eq!(history.audio_path_of(3), None);

    history.forget_missing(&vec!["/a/2.wav".to_string()]);
    assert_eq!(history.get_records()[0].audio_path, None);
    assert_eq!(history.get_records()[1].audio_path.as_deref(), Some("/a/2.wav"));

    let orphans = history.orphans(&vec!["/a/1.wav".to_string(), "/a/2.wav".to_string(), "/a/x.png".to_string()]);
    assert_eq!(orphans, vec!["/a/1.wav".to_string(), "/a/x.png".to_string()]);
}

fn timing(ts: u64) -> TimingRecord {
    TimingRecord {
        ts,
        transcribe_ms: 3200,
        optimize_ms: 0,
        other_ms: 370,
        total_ms: 3570,
        transcribe_model: "gemini-2.5-flash".to_string(),
        transcribe_provider: "Google Gemini".to_string(),
        optimize_model: None,
        optimize_provider: None,
    }
}

#[test]
fn timing_log_records_and_clears() {
    let mut log = TimingLog::empty();
    assert!(!log.has_file());
    log.record(timing(1));
    log.record(timing(2));
    let ts: Vec<u64> = log.get_records().iter().map(|r| r.ts).collect();
    assert_eq!(ts, vec![1, 2]);

    let mut opened = TimingLog::open("/data", vec![timing(5)]);
    assert!(opened.has_file());
    assert!(opened.path().ends_with("timing.jsonl"));
    opened.clear();
    assert!(opened.get_records().is_empty());
}

#[test]
fn timing_file_lines_are_trimmed_and_blank_ones_skipped() {
    let lines = record_lines_of("  {\"ts\":1}  \n\n\t\n{\"ts\":2}\r\n");

    assert_eq!(lines, vec!["{\"ts\":1}".to_string(), "{\"ts\":2}".to_string()]);
}
