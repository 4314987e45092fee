use whisper_batch::config::ConfigManager;
use whisper_batch::manager::TranscriptionManager;
use whisper_batch::types::{
    FileEntry, FileStatus, IngestCandidate, JobEvent, OutputFormat, TranscriptionSettings,
};

fn settings(parallel: usize) -> TranscriptionSettings {
    TranscriptionSettings {
        language: None,
        model: "base".to_string(),
        output_format: OutputFormat::Srt,
        keep_wav: false,
        output_dir: None,
        parallel_jobs: parallel,
    }
}

fn manager() -> TranscriptionManager {
    TranscriptionManager::new(ConfigManager::new("/home/u"))
}

fn entry(id: &str, path: &str) -> FileEntry {
    FileEntry {
        id: id.to_string(),
        path: path.to_string(),
        name: path.rsplit('/').next().unwrap().to_string(),
        size: 10,
        status: FileStatus::Pending,
        progress: 0,
        error: None,
        output_path: None,
    }
}

fn cand(path: &str, size: u64) -> IngestCandidate {
    IngestCandidate { path: path.to_string(), size }
}

#[test]
fn ingest_keeps_only_allow_listed_paths_with_unique_ids() {
    let m = manager();
    let files = m.add_files(vec![
        cand("/a/one.mp3", 11),
        cand("/a/skip.txt", 22),
        cand("/a/two.MKV", 33),
        cand("/a/none", 44),
        cand("/a/three.wav", 55),
    ]);
    assert_eq!(files.len(), 3);
    assert_eq!(files[0].path, "/a/one.mp3");
    assert_eq!(files[1].path, "/a/two.MKV");
    assert_eq!(files[2].path, "/a/three.wav");
    assert_eq!(files[0].name, "one.mp3");
    assert_eq!(files[1].name, "two.MKV");
    assert_eq!(files[0].size, 11);
    assert_eq!(files[1].size, 33);
    assert_eq!(files[2].size, 55);
    for f in &files {
        assert_eq!(f.status, FileStatus::Pending);
        assert_eq!(f.progress, 0);
        assert_eq!(f.error, None);
        assert_eq!(f.output_path, None);
    }
    assert_ne!(files[0].id, files[1].id);
    assert_ne!(files[0].id, files[2].id);
    assert_ne!(files[1].id, files[2].id);
}

#[test]
fn ingest_ids_carry_uuid_and_position() {
    let m = manager();
    let files = m.add_files(vec![cand("/a/one.mp3", 1), cand("/a/two.mp3", 2)]);
    // 36 characters of hyphenated UUID, a separator, and the position.
    assert_eq!(files[0].id.len(), 38);
    assert!(files[0].id.ends_with("-0"));
    assert!(files[1].id.ends_with("-1"));
}

#[test]
fn start_rejects_missing_model_and_creates_nothing() {
    let mut m = manager();
    let r = m.start_transcription(vec![entry("a", "/x/a.mp3")], settings(1), false);
    assert_eq!(r.unwrap_err(), "Model not downloaded: base");
    assert!(m.get_all_jobs().is_empty());
}

#[test]
fn start_registers_pending_jobs_with_settings_copy() {
    let mut m = manager();
    let s = settings(2);
    m.start_transcription(vec![entry("a", "/x/a.mp3"), entry("b", "/x/b.mp3")], s, true).unwrap();
    let jobs = m.get_all_jobs();
    assert_eq!(jobs.len(), 2);
    let ja = m.get_job_status(&"a".to_string()).unwrap();
    assert_eq!(ja.file_path, "/x/a.mp3");
    assert_eq!(ja.status, FileStatus::Pending);
    assert_eq!(ja.progress, 0);
    assert_eq!(ja.settings.parallel_jobs, 2);
    assert_eq!(ja.settings.model, "base");
    assert!(m.get_job_status(&"missing".to_string()).is_none());
}

#[test]
fn full_pipeline_happy_path() {
    let mut m = manager();
    m.start_transcription(vec![entry("a", "/x/a.mp3")], settings(1), true).unwrap();
    let id = "a".to_string();

    let u = m.apply_event(&id, JobEvent::ConversionStarted).unwrap();
    assert_eq!(u.status, FileStatus::Converting);
    assert_eq!(u.progress, 0);
    assert_eq!(u.message, None);

    let u = m.apply_event(&id, JobEvent::ConversionSucceeded).unwrap();
    assert_eq!(u.status, FileStatus::Transcribing);
    assert_eq!(u.progress, 30);

    let u = m.apply_event(&id, JobEvent::EngineProgress(50)).unwrap();
    assert_eq!(u.status, FileStatus::Transcribing);
    assert_eq!(u.progress, 65);
    assert_eq!(u.message, Some("Transcribing...".to_string()));

    let u = m.apply_event(&id, JobEvent::OutputWritten("/x/a.srt".to_string())).unwrap();
    assert_eq!(u.status, FileStatus::Completed);
    assert_eq!(u.progress, 100);

    let j = m.get_job_status(&id).unwrap();
    assert_eq!(j.status, FileStatus::Completed);
    assert_eq!(j.progress, 100);
    assert_eq!(j.output_path, Some("/x/a.srt".to_string()));
    assert_eq!(j.error, None);
}

#[test]
fn progress_is_monotone_and_100_only_at_completion() {
    let mut m = manager();
    m.start_transcription(vec![entry("a", "/x/a.mp3")], settings(1), true).unwrap();
    let id = "a".to_string();
    let _ = m.apply_event(&id, JobEvent::ConversionStarted);
    let _ = m.apply_event(&id, JobEvent::ConversionSucceeded);
    let mut last = 0u32;
    for p in [0u32, 10, 10, 40, 80, 99, 100] {
        let u = m.apply_event(&id, JobEvent::EngineProgress(p)).unwrap();
        assert!(u.progress >= last);
        assert!(u.progress < 100);
        assert_ne!(u.status, FileStatus::Completed);
        last = u.progress;
    }
    let u = m.apply_event(&id, JobEvent::OutputWritten("/x/a.srt".to_string())).unwrap();
    assert_eq!(u.progress, 100);
    assert_eq!(u.status, FileStatus::Completed);
}

#[test]
fn engine_report_of_100_is_capped_while_live() {
    let mut m = manager();
    m.start_transcription(vec![entry("a", "/x/a.mp3")], settings(1), true).unwrap();
    let id = "a".to_string();
    let _ = m.apply_event(&id, JobEvent::ConversionStarted);
    let _ = m.apply_event(&id, JobEvent::ConversionSucceeded);
    // The engine may report 100 before returning; a live job still never
    // reads 100, so a failure afterwards leaves an Error job below 100.
    let u = m.apply_event(&id, JobEvent::EngineProgress(100)).unwrap();
    assert_eq!(u.status, FileStatus::Transcribing);
    assert_eq!(u.progress, 99);
    let u = m.apply_event(&id, JobEvent::OutputWriteFailed("disk full".to_string())).unwrap();
    assert_eq!(u.status, FileStatus::Error);
    assert_eq!(u.progress, 99);
    let j = m.get_job_status(&id).unwrap();
    assert_eq!(j.status, FileStatus::Error);
    assert_eq!(j.progress, 99);
}

#[test]
fn conversion_failure_is_isolated_to_its_job() {
    let mut m = manager();
    m.start_transcription(
        vec![entry("a", "/x/a.mp3"), entry("b", "/x/b.mp3")],
        settings(2),
        true,
    )
    .unwrap();
    let ida = "a".to_string();
    let _ = m.apply_event(&ida, JobEvent::ConversionStarted);
    let u = m
        .apply_event(&ida, JobEvent::ConversionFailed("No audio stream found".to_string()))
        .unwrap();
    assert_eq!(u.status, FileStatus::Error);
    assert_eq!(u.message, Some("Conversion failed: No audio stream found".to_string()));

    let ja = m.get_job_status(&ida).unwrap();
    assert_eq!(ja.status, FileStatus::Error);
    assert_eq!(ja.error, Some("Conversion failed: No audio stream found".to_string()));

    // The sibling is untouched.
    let jb = m.get_job_status(&"b".to_string()).unwrap();
    assert_eq!(jb.status, FileStatus::Pending);
    assert_eq!(jb.progress, 0);
    assert_eq!(jb.error, None);
}

#[test]
fn error_paths_carry_their_diagnostics() {
    let mut m = manager();
    m.start_transcription(
        vec![entry("a", "/x/a.mp3"), entry("b", "/x/b.mp3"), entry("c", "/x/c.mp3")],
        settings(3),
        true,
    )
    .unwrap();
    for id in ["a", "b", "c"] {
        let id = id.to_string();
        let _ = m.apply_event(&id, JobEvent::ConversionStarted);
        let _ = m.apply_event(&id, JobEvent::ConversionSucceeded);
    }
    let u = m
        .apply_event(&"a".to_string(), JobEvent::ModelLoadFailed("bad image".to_string()))
        .unwrap();
    assert_eq!(u.message, Some("Failed to load model: bad image".to_string()));
    let u = m
        .apply_event(&"b".to_string(), JobEvent::TranscriptionFailed("engine stop".to_string()))
        .unwrap();
    assert_eq!(u.message, Some("Transcription failed: engine stop".to_string()));
    let u = m
        .apply_event(&"c".to_string(), JobEvent::OutputWriteFailed("disk full".to_string()))
        .unwrap();
    assert_eq!(u.message, Some("Failed to save output: disk full".to_string()));
    for id in ["a", "b", "c"] {
        assert_eq!(m.get_job_status(&id.to_string()).unwrap().status, FileStatus::Error);
    }
}

#[test]
fn events_for_unknown_or_terminal_jobs_change_nothing() {
    let mut m = manager();
    m.start_transcription(vec![entry("a", "/x/a.mp3")], settings(1), true).unwrap();
    assert!(m.apply_event(&"ghost".to_string(), JobEvent::ConversionStarted).is_none());

    let id = "a".to_string();
    let _ = m.apply_event(&id, JobEvent::ConversionStarted);
    let _ = m.apply_event(&id, JobEvent::ConversionFailed("x".to_string()));
    // The job is terminal now: further events are ignored.
    assert!(m.apply_event(&id, JobEvent::EngineProgress(50)).is_none());
    let j = m.get_job_status(&id).unwrap();
    assert_eq!(j.status, FileStatus::Error);
    assert_eq!(j.error, Some("Conversion failed: x".to_string()));
}

#[test]
fn cancel_forces_error_with_fixed_message() {
    let mut m = manager();
    m.start_transcription(
        vec![entry("a", "/x/a.mp3"), entry("b", "/x/b.mp3")],
        settings(2),
        true,
    )
    .unwrap();
    // Cancelling a job that was never dispatched emits the transition's
    // update.
    let u = m.cancel_job(&"a".to_string()).unwrap().unwrap();
    assert_eq!(u.file_id, "a");
    assert_eq!(u.status, FileStatus::Error);
    assert_eq!(u.progress, 0);
    assert_eq!(u.message, Some("Cancelled by user".to_string()));
    let ja = m.get_job_status(&"a".to_string()).unwrap();
    assert_eq!(ja.status, FileStatus::Error);
    assert_eq!(ja.error, Some("Cancelled by user".to_string()));

    // Cancelling a job in the middle of transcription keeps its progress.
    let idb = "b".to_string();
    let _ = m.apply_event(&idb, JobEvent::ConversionStarted);
    let _ = m.apply_event(&idb, JobEvent::ConversionSucceeded);
    let _ = m.apply_event(&idb, JobEvent::EngineProgress(40));
    let u = m.cancel_job(&idb).unwrap().unwrap();
    assert_eq!(u.status, FileStatus::Error);
    assert_eq!(u.progress, 58);
    assert_eq!(u.message, Some("Cancelled by user".to_string()));
    let jb = m.get_job_status(&idb).unwrap();
    assert_eq!(jb.status, FileStatus::Error);
    assert_eq!(jb.error, Some("Cancelled by user".to_string()));
    assert_eq!(jb.progress, 58);

    // Cancelling an id the registry does not hold succeeds with no update.
    assert_eq!(m.cancel_job(&"ghost".to_string()).unwrap(), None);
}

#[test]
fn cancel_leaves_completed_jobs_alone() {
    let mut m = manager();
    m.start_transcription(vec![entry("a", "/x/a.mp3")], settings(1), true).unwrap();
    let id = "a".to_string();
    let _ = m.apply_event(&id, JobEvent::ConversionStarted);
    let _ = m.apply_event(&id, JobEvent::ConversionSucceeded);
    let _ = m.apply_event(&id, JobEvent::OutputWritten("/x/a.srt".to_string()));
    assert_eq!(m.cancel_job(&id).unwrap(), None);
    let j = m.get_job_status(&id).unwrap();
    assert_eq!(j.status, FileStatus::Completed);
    assert_eq!(j.progress, 100);
    assert_eq!(j.error, None);
}

#[test]
fn clear_completed_removes_all_and_only_completed() {
    let mut m = manager();
    m.start_transcription(
        vec![
            entry("done", "/x/d.mp3"),
            entry("failed", "/x/f.mp3"),
            entry("live", "/x/l.mp3"),
            entry("done2", "/x/e.mp3"),
        ],
        settings(4),
        true,
    )
    .unwrap();
    for id in ["done", "done2"] {
        let id = id.to_string();
        let _ = m.apply_event(&id, JobEvent::ConversionStarted);
        let _ = m.apply_event(&id, JobEvent::ConversionSucceeded);
        let _ = m.apply_event(&id, JobEvent::OutputWritten("/x/out.srt".to_string()));
    }
    let idf = "failed".to_string();
    let _ = m.apply_event(&idf, JobEvent::ConversionStarted);
    let _ = m.apply_event(&idf, JobEvent::ConversionFailed("boom".to_string()));

    m.clear_completed_jobs();
    let left: Vec<String> = m.get_all_jobs().into_iter().map(|j| j.id).collect();
    assert_eq!(left, vec!["failed".to_string(), "live".to_string()]);
    assert_eq!(m.get_job_status(&"done".to_string()), None);
    assert_eq!(m.get_job_status(&"done2".to_string()), None);
}

#[test]
fn pending_chunks_respects_parallelism() {
    let mut m = manager();
    let files: Vec<FileEntry> =
        ["a", "b", "c", "d", "e"].iter().map(|id| entry(id, "/x/a.mp3")).collect();
    m.start_transcription(files, settings(2), true).unwrap();
    let chunks = m.pending_chunks(2);
    let sizes: Vec<usize> = chunks.iter().map(|c| c.len()).collect();
    assert_eq!(sizes, vec![2, 2, 1]);
    let flat: Vec<String> = chunks.into_iter().flatten().collect();
    assert_eq!(flat, vec!["a", "b", "c", "d", "e"]);
}

#[test]
fn pending_chunks_skips_non_pending_jobs() {
    let mut m = manager();
    let files: Vec<FileEntry> = ["a", "b", "c"].iter().map(|id| entry(id, "/x/a.mp3")).collect();
    m.start_transcription(files, settings(1), true).unwrap();
    let _ = m.apply_event(&"b".to_string(), JobEvent::ConversionStarted);
    let chunks = m.pending_chunks(10);
    assert_eq!(chunks.len(), 1);
    assert_eq!(chunks[0], vec!["a".to_string(), "c".to_string()]);
}

#[test]
fn pending_chunks_empty_registry() {
    let m = manager();
    assert!(m.pending_chunks(3).is_empty());
}

#[test]
fn restarting_a_batch_resets_the_jobs_entry() {
    let mut m = manager();
    m.start_transcription(vec![entry("a", "/x/a.mp3")], settings(1), true).unwrap();
    let id = "a".to_string();
    let _ = m.apply_event(&id, JobEvent::ConversionStarted);
    let _ = m.apply_event(&id, JobEvent::ConversionFailed("x".to_string()));
    // Submitting the same id again replaces the failed entry with a fresh one.
    m.start_transcription(vec![entry("a", "/x/a.mp3")], settings(1), true).unwrap();
    let j = m.get_job_status(&id).unwrap();
    assert_eq!(j.status, FileStatus::Pending);
    assert_eq!(j.progress, 0);
    assert_eq!(j.error, None);
    assert_eq!(m.get_all_jobs().len(), 1);
}

#[test]
fn manager_lists_the_model_catalog() {
    let m = manager();
    let models = m.get_available_models(&vec![false, true]);
    assert_eq!(models.len(), 8);
    assert_eq!(models[1].name, "base");
    assert!(models[1].downloaded);
    assert!(!models[0].downloaded);
}
