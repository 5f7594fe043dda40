use dbx_web::error::ErrorKind;
use dbx_web::execution::{
    begin_execution, cleanup_sql_file_execution, register_execution, start_execution,
    ExecutionAction, ExecutionChecks, ExecutionEvent, ExecutionStage, ExecutionTask,
};
use dbx_web::paths::{
    new_upload_dir,
    safe_uploaded_sql_path, upload_dir_path, upload_tmp_root, validated_uploaded_sql_path,
    DEFAULT_UPLOAD_NAME,
};
use dbx_web::progress::{
    evict_expired_progress, progress_source, record_terminal_progress, terminal_progress,
    ChannelEvent, ProgressSource, ProgressStream, ProgressWait, SqlFileProgress, SqlFileStatus,
    StoredProgress, WaitStep,
};
use dbx_web::registry::Registry;
use dbx_web::uploads::{
    claim_sql_file_uploads, expire_upload, release_sql_file_upload, UploadCandidate,
};

const DATA_DIR: &str = "/tmp/dbx-web-sql-file-test-data";

fn make_terminal_progress(execution_id: &str) -> SqlFileProgress {
    SqlFileProgress {
        execution_id: execution_id.to_string(),
        status: SqlFileStatus::Done,
        statement_index: 1,
        success_count: 1,
        failure_count: 0,
        affected_rows: 0,
        elapsed_ms: 10,
        statement_summary: "SELECT 1".to_string(),
        error: None,
    }
}

fn running_progress(execution_id: &str) -> SqlFileProgress {
    SqlFileProgress { status: SqlFileStatus::Running, ..make_terminal_progress(execution_id) }
}

fn candidate(path: &str, canonical: Result<&str, &str>) -> UploadCandidate {
    UploadCandidate {
        file_path: path.to_string(),
        canonical_path: canonical.map(|p| p.to_string()).map_err(|e| e.to_string()),
        is_file: canonical.is_ok(),
    }
}

fn ok(p: &str) -> Result<String, String> {
    Ok(p.to_string())
}

#[test]
fn uploaded_sql_path_uses_only_the_file_name() {
    let tmp_dir = upload_tmp_root(DATA_DIR);
    let path = match safe_uploaded_sql_path(&tmp_dir, "../outside.sql") {
        Ok(path) => path,
        Err(error) => panic!("{}", error.message),
    };
    let expected = std::path::Path::new(DATA_DIR).join("tmp").join("outside.sql");
    assert_eq!(std::path::PathBuf::from(path), expected);
}

#[test]
fn execution_path_must_stay_inside_uploaded_tmp_dir() {
    let tmp_dir = format!("{}/tmp", DATA_DIR);
    let outside = format!("{}/outside.sql", DATA_DIR);
    let result = validated_uploaded_sql_path(&Ok(outside), true, &Ok(tmp_dir));
    assert!(result.is_err());
}

#[test]
fn safe_path_falls_back_to_default_name() {
    let cases = ["", "/", "..", "dir/.."];
    for name in cases {
        let path = safe_uploaded_sql_path("/data/tmp/u1", name).unwrap();
        assert_eq!(path, format!("/data/tmp/u1/{}", DEFAULT_UPLOAD_NAME));
    }
    assert_eq!(safe_uploaded_sql_path("/data/tmp/u1/", "a/b/c.sql").unwrap(), "/data/tmp/u1/c.sql");
    assert_eq!(safe_uploaded_sql_path("/data/tmp/u1", "/etc/passwd").unwrap(), "/data/tmp/u1/passwd");
}

#[test]
fn upload_tree_paths_are_joined() {
    assert_eq!(upload_tmp_root("/var/dbx"), "/var/dbx/tmp");
    assert_eq!(upload_tmp_root("/var/dbx/"), "/var/dbx/tmp");
    assert_eq!(upload_dir_path("/var/dbx/tmp", "abc"), "/var/dbx/tmp/abc");
}

#[test]
fn validated_path_inside_tmp_is_accepted() {
    let r = validated_uploaded_sql_path(&ok("/d/tmp/u/a.sql"), true, &ok("/d/tmp"));
    assert_eq!(r.unwrap(), "/d/tmp/u/a.sql");
    // Only whole components count as a prefix.
    let r = validated_uploaded_sql_path(&ok("/d/tmpx/a.sql"), true, &ok("/d/tmp"));
    let e = r.unwrap_err();
    assert_eq!(e.kind, ErrorKind::Internal);
    assert_eq!(e.message, "SQL file path is outside the upload directory");
}

#[test]
fn validated_path_reports_resolution_errors_in_order() {
    let r = validated_uploaded_sql_path(&Err("no such file".to_string()), false, &Err("no tmp".to_string()));
    assert_eq!(r.unwrap_err().message, "no such file");
    let r = validated_uploaded_sql_path(&ok("/d/tmp/a"), true, &Err("no tmp".to_string()));
    assert_eq!(r.unwrap_err().message, "no tmp");
}

#[test]
fn validated_path_must_be_a_file() {
    for dir in ["/d/tmp/u1", "/d/tmp"] {
        let e = validated_uploaded_sql_path(&ok(dir), false, &ok("/d/tmp")).unwrap_err();
        assert_eq!(e.message, "SQL file path is not a file");
    }
}

#[test]
fn stored_name_matches_std_file_name() {
    let names = [
        "a.sql", "dir/a.sql", "./a.sql", "a.sql/.", "a//b.sql/", "..", ".", "/", "", "...",
        "a/..", "./.", "x/./", "../../etc/x.sql", "../outside.sql", "/etc/passwd", "é.sql",
    ];
    for name in names {
        let expected_name = match std::path::Path::new(name).file_name() {
            Some(n) if !n.is_empty() => n.to_string_lossy().into_owned(),
            _ => DEFAULT_UPLOAD_NAME.to_string(),
        };
        let expected = std::path::Path::new("/up/u1").join(&expected_name);
        let path = safe_uploaded_sql_path("/up/u1", name).unwrap();
        assert_eq!(std::path::PathBuf::from(&path), expected, "name {:?}", name);
        // Storing again under the stored name gives the same path.
        assert_eq!(safe_uploaded_sql_path("/up/u1", &expected_name).unwrap(), path);
    }
}

#[test]
fn preview_path_sits_two_levels_under_tmp() {
    let tmp = upload_tmp_root("/data");
    let dir = upload_dir_path(&tmp, "0b6a-41");
    let path = safe_uploaded_sql_path(&dir, "../../etc/x.sql").unwrap();
    assert_eq!(path, "/data/tmp/0b6a-41/x.sql");
}

#[test]
fn decimal_text_formats_like_display() {
    for n in [0u64, 7, 10, 99, 100, 209715200, u64::MAX] {
        assert_eq!(dbx_web::text::decimal_text(n), n.to_string());
    }
}

#[test]
fn messages_have_the_routes_wording() {
    assert_eq!(
        dbx_web::text::file_too_large_message(209715201),
        "File too large: 209715201 bytes (max 209715200 bytes)"
    );
    assert_eq!(
        dbx_web::text::duplicate_execution_message(&"e1".to_string()),
        "SQL file execution 'e1' already exists"
    );
    assert_eq!(
        dbx_web::text::read_only_message(&"prod".to_string()),
        "Read-only mode: connection 'prod' has read-only protection enabled. SQL file execution blocked."
    );
}

#[test]
fn preview_keeps_the_first_characters() {
    let short = "select 1;";
    assert_eq!(dbx_web::text::preview_text(short), short);
    let long: String = std::iter::repeat('é').take(20_005).collect();
    let preview = dbx_web::text::preview_text(&long);
    assert_eq!(preview.chars().count(), 20_000);
    assert!(long.starts_with(&preview));
}

#[test]
fn registry_insert_get_remove() {
    let mut r: Registry<u32> = Registry::new();
    assert_eq!(r.insert("a".to_string(), 1), None);
    assert_eq!(r.insert("b".to_string(), 2), None);
    assert_eq!(r.insert("a".to_string(), 3), Some(1));
    assert_eq!(r.len(), 2);
    assert_eq!(r.get(&"a".to_string()), Some(&3));
    assert!(r.contains_key(&"b".to_string()));
    assert_eq!(r.remove(&"b".to_string()), Some(2));
    assert_eq!(r.remove(&"b".to_string()), None);
    assert_eq!(r.len(), 1);
}

#[test]
fn registry_retain_keeps_accepted_values() {
    let mut r: Registry<u32> = Registry::new();
    for (k, v) in [("a", 1), ("b", 2), ("c", 3), ("d", 4)] {
        r.insert(k.to_string(), v);
    }
    r.retain(&|v: &u32| *v % 2 == 0);
    assert_eq!(r.len(), 2);
    assert!(r.contains_key(&"b".to_string()) && r.contains_key(&"d".to_string()));
    assert!(!r.contains_key(&"a".to_string()));
}

#[test]
fn batch_claim_aborts_all_ttls() {
    let mut pending: Registry<u32> = Registry::new();
    let paths = ["/d/tmp/1/a.sql", "/d/tmp/2/b.sql", "/d/tmp/3/c.sql"];
    for (i, p) in paths.iter().enumerate() {
        pending.insert(p.to_string(), i as u32);
    }
    let candidates: Vec<UploadCandidate> = paths.iter().map(|p| candidate(p, Ok(p))).collect();
    let claimed = claim_sql_file_uploads(&mut pending, &candidates, &Ok("/d/tmp".to_string()))
        .unwrap_or_else(|error| panic!("expected successful claim: {}", error.message));
    assert_eq!(claimed.claimed, 3, "should have claimed all 3 files");
    assert_eq!(claimed.handles, vec![0, 1, 2]);
    assert_eq!(pending.len(), 0, "all TTL tasks should have been taken out");
}

#[test]
fn partial_batch_claim_fails_without_claiming_any_file() {
    let mut pending: Registry<u32> = Registry::new();
    let available = "/d/tmp/u1/available.sql";
    let unavailable = "/d/tmp/missing/missing.sql";
    pending.insert(available.to_string(), 7);
    let candidates = vec![candidate(available, Ok(available)), candidate(unavailable, Err("not found"))];
    let error = claim_sql_file_uploads(&mut pending, &candidates, &Ok("/d/tmp".to_string()))
        .expect_err("partial claim should fail");
    assert_eq!(error.kind, ErrorKind::BadRequest);
    assert!(error.message.contains(unavailable));
    assert_eq!(
        error.message,
        "Unable to claim all SQL file uploads; unavailable paths: [\"/d/tmp/missing/missing.sql\"]"
    );
    assert!(
        pending.contains_key(&available.to_string()),
        "available upload must remain unclaimed after an atomic failure"
    );
}

#[test]
fn claim_rejects_paths_outside_the_upload_tree() {
    let mut pending: Registry<u32> = Registry::new();
    pending.insert("/d/a.sql".to_string(), 1);
    pending.insert("/d/tmp/b.sql".to_string(), 2);
    let candidates = vec![candidate("/d/a.sql", Ok("/d/a.sql")), candidate("/d/tmp/b.sql", Ok("/d/tmp/b.sql"))];
    let error = claim_sql_file_uploads(&mut pending, &candidates, &Ok("/d/tmp".to_string())).unwrap_err();
    assert!(error.message.ends_with("[\"/d/a.sql\"]"));
    assert_eq!(pending.len(), 2);
}

#[test]
fn claim_with_repeated_path_takes_its_cleanup_once() {
    let mut pending: Registry<u32> = Registry::new();
    pending.insert("/d/tmp/a.sql".to_string(), 5);
    let candidates = vec![candidate("/d/tmp/a.sql", Ok("/d/tmp/a.sql")), candidate("/d/tmp/a.sql", Ok("/d/tmp/a.sql"))];
    let claimed = claim_sql_file_uploads(&mut pending, &candidates, &Ok("/d/tmp".to_string())).unwrap();
    assert_eq!(claimed.claimed, 2);
    assert_eq!(claimed.handles, vec![5]);
}

#[test]
fn preview_ttl_is_aborted_when_execute_claims_file() {
    let file_path_key = "/tmp/fake-path/test.sql".to_string();
    let mut pending: Registry<&str> = Registry::new();
    pending.insert(file_path_key.clone(), "ttl-task");
    let mut executions: Registry<u8> = Registry::new();
    let (claimed, registered) =
        begin_execution(&mut executions, &mut pending, &"exec-1".to_string(), &file_path_key, 1);
    assert_eq!(claimed, Some("ttl-task"));
    assert!(registered.is_ok());
    assert!(!expire_upload(&mut pending, &file_path_key), "TTL task should not delete a claimed file");
}

#[test]
fn expiry_deletes_unclaimed_upload() {
    let mut pending: Registry<u8> = Registry::new();
    pending.insert("/d/tmp/x.sql".to_string(), 1);
    assert!(expire_upload(&mut pending, &"/d/tmp/x.sql".to_string()));
    assert_eq!(pending.len(), 0);
}

#[test]
fn release_is_idempotent() {
    let mut pending: Registry<u8> = Registry::new();
    pending.insert("/d/tmp/u/x.sql".to_string(), 9);
    let path = "/d/tmp/u/x.sql".to_string();
    let first = release_sql_file_upload(&mut pending, &path, &Ok(path.clone()), true, &ok("/d/tmp"));
    assert_eq!(first.cleanup, Some(9));
    assert_eq!(first.delete_path, Some(path.clone()));
    let second = release_sql_file_upload(&mut pending, &path, &Err("gone".to_string()), false, &ok("/d/tmp"));
    assert_eq!(second.cleanup, None);
    assert_eq!(second.delete_path, None);
    assert_eq!(pending.len(), 0);
}

#[test]
fn duplicate_execution_is_refused_and_keeps_the_running_token() {
    let mut executions: Registry<u32> = Registry::new();
    let id = "exec-1".to_string();
    assert!(register_execution(&mut executions, &id, 1).is_ok());
    let e = register_execution(&mut executions, &id, 2).unwrap_err();
    assert_eq!(e.message, "SQL file execution 'exec-1' already exists");
    assert_eq!(executions.get(&id), Some(&1));
}

#[test]
fn cleanup_forgets_channel_and_execution() {
    let mut channels: Registry<&str> = Registry::new();
    let mut executions: Registry<u32> = Registry::new();
    let id = "exec-1".to_string();
    channels.insert(id.clone(), "tx");
    channels.insert("other".to_string(), "tx2");
    executions.insert(id.clone(), 1);
    cleanup_sql_file_execution(&mut channels, &mut executions, &id);
    assert!(!channels.contains_key(&id));
    assert!(channels.contains_key(&"other".to_string()));
    assert!(!executions.contains_key(&id));
}

#[test]
fn only_final_progress_is_recorded() {
    let mut store: Registry<StoredProgress> = Registry::new();
    assert!(!record_terminal_progress(&mut store, &running_progress("e"), 0));
    assert_eq!(store.len(), 0);
    assert!(record_terminal_progress(&mut store, &make_terminal_progress("e"), 0));
    assert_eq!(store.len(), 1);
}

#[test]
fn get_after_completion_uses_terminal_progress() {
    let mut store: Registry<StoredProgress> = Registry::new();
    let execution_id = "exec-terminal".to_string();
    record_terminal_progress(&mut store, &make_terminal_progress(&execution_id), 1_000);
    let terminal = terminal_progress(&mut store, &execution_id, 2_000).expect("terminal progress");
    assert_eq!(terminal.status, SqlFileStatus::Done);
    let source = progress_source(false, Some("{\"status\":\"done\"}".to_string()));
    assert!(matches!(source, ProgressSource::Replay(json) if json.contains("\"status\":\"done\"")));
}

#[test]
fn terminal_progress_expires_after_its_ttl() {
    let mut store: Registry<StoredProgress> = Registry::new();
    let id = "e".to_string();
    record_terminal_progress(&mut store, &make_terminal_progress(&id), 1_000);
    assert!(terminal_progress(&mut store, &id, 300_000_001_000).is_some());
    assert!(terminal_progress(&mut store, &id, 300_000_001_001).is_none());
    assert_eq!(store.len(), 0);
}

#[test]
fn eviction_keeps_fresh_entries() {
    let mut store: Registry<StoredProgress> = Registry::new();
    record_terminal_progress(&mut store, &make_terminal_progress("old"), 0);
    record_terminal_progress(&mut store, &make_terminal_progress("new"), 250_000_000_000);
    evict_expired_progress(&mut store, 400_000_000_000);
    assert!(!store.contains_key(&"old".to_string()));
    assert!(store.contains_key(&"new".to_string()));
}

#[test]
fn get_after_post_uses_active_channel() {
    let source = progress_source(true, None);
    assert!(matches!(source, ProgressSource::Live));
    let mut stream = ProgressStream::new();
    let json = "{\"status\":\"done\"}".to_string();
    let step = stream.on_event(ChannelEvent::Message(json.clone()));
    assert_eq!(step.emit, Some(json.clone()));
    assert!(!step.finished);
    let step = stream.on_event(ChannelEvent::Closed(None));
    assert_eq!(step.emit, None);
    assert!(step.finished);
}

#[test]
fn get_before_post_waits_for_channel() {
    let wait = ProgressWait::start(1_000);
    assert!(matches!(wait.poll(ProgressSource::Missing, 1_000), WaitStep::RetryAfter(100_000_000)));
    assert!(matches!(wait.poll(ProgressSource::Live, 1_200), WaitStep::Serve(ProgressSource::Live)));
}

#[test]
fn get_without_post_does_not_fail_immediately() {
    let wait = ProgressWait::start(0);
    assert!(matches!(wait.poll(ProgressSource::Missing, 500), WaitStep::RetryAfter(_)));
    match wait.poll(ProgressSource::Missing, 30_000_000_000) {
        WaitStep::GiveUp(e) => assert_eq!(e.message, "Execution not found"),
        _ => panic!("expected to give up at the deadline"),
    }
}

#[test]
fn get_after_terminal_sent_but_channel_still_active_uses_terminal_store() {
    let source = progress_source(true, Some("terminal".to_string()));
    assert!(matches!(source, ProgressSource::Replay(json) if json == "terminal"));
}

#[test]
fn terminal_emitted_but_channel_not_finalized_late_subscriber_gets_terminal() {
    let mut store: Registry<StoredProgress> = Registry::new();
    let id = "exec-terminal-emitted-not-finalized".to_string();
    // The progress is recorded before it is broadcast.
    assert!(record_terminal_progress(&mut store, &make_terminal_progress(&id), 10));
    let found = terminal_progress(&mut store, &id, 20);
    assert_eq!(found.map(|p| p.execution_id), Some(id));
}

#[test]
fn active_channel_close_rechecks_terminal_store() {
    let mut stream = ProgressStream::new();
    let step = stream.on_event(ChannelEvent::Closed(Some("done".to_string())));
    assert_eq!(step.emit, Some("done".to_string()));
    assert!(step.finished);
}

#[test]
fn get_before_post_replays_fast_terminal_completion() {
    let wait = ProgressWait::start(0);
    let source = progress_source(false, Some("done".to_string()));
    assert!(matches!(wait.poll(source, 25), WaitStep::Serve(ProgressSource::Replay(_))));
}

#[test]
fn stream_does_not_repeat_the_last_data() {
    let mut stream = ProgressStream::new();
    stream.on_event(ChannelEvent::Message("done".to_string()));
    let step = stream.on_event(ChannelEvent::Lagged(Some("done".to_string())));
    assert_eq!(step.emit, None);
    assert!(step.finished);
    let mut stream = ProgressStream::new();
    let step = stream.on_event(ChannelEvent::Lagged(None));
    assert_eq!(step.emit, None);
    assert!(!step.finished);
}

#[test]
fn execution_task_runs_to_finalize() {
    let mut task = ExecutionTask::start();
    assert!(matches!(task.advance(ExecutionEvent::FileSize(10)), ExecutionAction::LoadContent));
    assert!(matches!(task.advance(ExecutionEvent::ContentLoaded), ExecutionAction::RunExecutor));
    assert!(matches!(task.advance(ExecutionEvent::ExecutorFinished), ExecutionAction::Finalize));
    assert_eq!(task.stage, ExecutionStage::Finished);
}

#[test]
fn execution_task_reports_failures() {
    let mut task = ExecutionTask::start();
    match task.advance(ExecutionEvent::FileSize(209_715_201)) {
        ExecutionAction::FailAndFinalize(m) => {
            assert_eq!(m, "File too large: 209715201 bytes (max 209715200 bytes)")
        },
        _ => panic!("expected a failure"),
    }
    let mut task = ExecutionTask::start();
    task.advance(ExecutionEvent::FileSize(209_715_200));
    match task.advance(ExecutionEvent::ContentFailed("invalid data".to_string())) {
        ExecutionAction::FailAndFinalize(m) => assert_eq!(m, "invalid data"),
        _ => panic!("expected a failure"),
    }
    let mut task = ExecutionTask { stage: ExecutionStage::Executing };
    let a = task.advance(ExecutionEvent::ExecutorFailed { message: "boom".to_string(), terminal_recorded: true });
    assert!(matches!(a, ExecutionAction::Finalize));
    let mut task = ExecutionTask { stage: ExecutionStage::Executing };
    let a = task.advance(ExecutionEvent::ExecutorFailed { message: "boom".to_string(), terminal_recorded: false });
    assert!(matches!(a, ExecutionAction::FailAndFinalize(m) if m == "boom"));
    let mut task = ExecutionTask::start();
    let a = task.advance(ExecutionEvent::FileUnavailable("missing".to_string()));
    assert!(matches!(a, ExecutionAction::FailAndFinalize(m) if m == "missing"));
}

fn checks(read_only: Option<&str>, path: &str, is_file: bool) -> ExecutionChecks {
    ExecutionChecks {
        read_only_connection: read_only.map(|s| s.to_string()),
        canonical_path: ok(path),
        is_file,
        canonical_tmp: ok("/d/tmp"),
    }
}

#[test]
fn read_only_connection_is_refused_before_anything_is_claimed() {
    let mut executions: Registry<u8> = Registry::new();
    let mut ttls: Registry<u8> = Registry::new();
    let mut channels: Registry<u8> = Registry::new();
    ttls.insert("/d/tmp/u/a.sql".to_string(), 1);
    let (claimed, result) = start_execution(
        &mut executions, &mut ttls, &mut channels, &"e1".to_string(), &"/d/tmp/u/a.sql".to_string(),
        &checks(Some("prod"), "/d/tmp/u/a.sql", true), 7, 8,
    );
    assert_eq!(claimed, None);
    assert_eq!(
        result.unwrap_err().message,
        "Read-only mode: connection 'prod' has read-only protection enabled. SQL file execution blocked."
    );
    assert_eq!(ttls.len(), 1);
    assert_eq!(executions.len(), 0);
    assert_eq!(channels.len(), 0);
}

#[test]
fn path_outside_tmp_is_refused_before_anything_is_claimed() {
    let mut executions: Registry<u8> = Registry::new();
    let mut ttls: Registry<u8> = Registry::new();
    let mut channels: Registry<u8> = Registry::new();
    ttls.insert("/d/outside.sql".to_string(), 1);
    let (claimed, result) = start_execution(
        &mut executions, &mut ttls, &mut channels, &"e1".to_string(), &"/d/outside.sql".to_string(),
        &checks(None, "/d/outside.sql", true), 7, 8,
    );
    assert_eq!(claimed, None);
    assert_eq!(result.unwrap_err().message, "SQL file path is outside the upload directory");
    assert_eq!(ttls.len(), 1);
    assert_eq!(executions.len(), 0);
    assert_eq!(channels.len(), 0);
}

#[test]
fn admitted_execution_claims_and_registers() {
    let mut executions: Registry<u8> = Registry::new();
    let mut ttls: Registry<u8> = Registry::new();
    let mut channels: Registry<u8> = Registry::new();
    ttls.insert("/d/tmp/u/a.sql".to_string(), 1);
    let id = "e1".to_string();
    let (claimed, result) = start_execution(
        &mut executions, &mut ttls, &mut channels, &id, &"/d/tmp/u/a.sql".to_string(),
        &checks(None, "/d/tmp/u/a.sql", true), 7, 8,
    );
    assert_eq!(claimed, Some(1));
    assert_eq!(result.unwrap(), "/d/tmp/u/a.sql");
    assert_eq!(executions.get(&id), Some(&7));
    assert_eq!(channels.get(&id), Some(&8));
    assert_eq!(ttls.len(), 0);
    // The same id again is refused; the first execution keeps its token and channel.
    let (_, again) = start_execution(
        &mut executions, &mut ttls, &mut channels, &id, &"/d/tmp/u/a.sql".to_string(),
        &checks(None, "/d/tmp/u/a.sql", true), 9, 10,
    );
    assert_eq!(again.unwrap_err().message, "SQL file execution 'e1' already exists");
    assert_eq!(executions.get(&id), Some(&7));
    assert_eq!(channels.get(&id), Some(&8));
}

#[test]
fn progress_reports_of_start_and_failure() {
    let id = "e1".to_string();
    let started = SqlFileProgress::started(&id, 5);
    assert_eq!(started.status, SqlFileStatus::Started);
    assert_eq!((started.success_count, started.elapsed_ms), (0, 5));
    let failed = SqlFileProgress::failed(&id, 9, "boom".to_string());
    assert_eq!(failed.status, SqlFileStatus::Error);
    assert_eq!(failed.error, Some("boom".to_string()));
    assert_eq!(failed.execution_id, "e1");
}

#[test]
fn fresh_upload_dirs_are_distinct_and_directly_under_the_root() {
    let a = new_upload_dir("/data/tmp");
    let b = new_upload_dir("/data/tmp");
    assert_eq!(a.upload_id.len(), 36);
    assert!(a.upload_id.chars().all(|c| c.is_ascii_hexdigit() && !c.is_ascii_uppercase() || c == '-'));
    assert_eq!(a.path, format!("/data/tmp/{}", a.upload_id));
    assert_ne!(a.path, b.path);
    let f1 = safe_uploaded_sql_path(&a.path, "same.sql").unwrap();
    let f2 = safe_uploaded_sql_path(&b.path, "same.sql").unwrap();
    assert_ne!(f1, f2);
}

#[test]
fn cancel_finds_the_running_execution() {
    let mut executions: Registry<u32> = Registry::new();
    executions.insert("e1".to_string(), 4);
    let hit = dbx_web::execution::cancel_sql_file(
        &executions,
        &dbx_web::requests::CancelSqlFileRequest { execution_id: "e1".to_string() },
    );
    assert_eq!(hit, Some(&4));
    let miss = dbx_web::execution::cancel_sql_file(
        &executions,
        &dbx_web::requests::CancelSqlFileRequest { execution_id: "e2".to_string() },
    );
    assert_eq!(miss, None);
}
