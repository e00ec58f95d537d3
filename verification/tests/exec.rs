use whowns::exec::{capture_chunk, CommandRunner, QueryFailure, QueryOutput, MAX_OUTPUT_BYTES};

fn words(values: &[&str]) -> Vec<String> {
    values.iter().map(|value| value.to_string()).collect()
}

#[test]
fn a_recorded_query_is_answered_from_the_record() {
    let mut runner = CommandRunner::new();
    assert_eq!(runner.timeout_millis(), 3000);
    assert!(runner.cached("/bin/mise", &words(&["which", "node"])).is_none());
    runner.record(
        "/bin/mise",
        &words(&["which", "node"]),
        &Ok(QueryOutput { success: true, stdout: "/x/node\n".to_string(), truncated: false }),
    );
    let cached = runner.cached("/bin/mise", &words(&["which", "node"])).unwrap().unwrap();
    assert_eq!(cached.stdout, "/x/node\n");
    assert!(runner.cached("/bin/mise", &words(&["which", "python3"])).is_none());
    assert!(runner.cached("/usr/bin/mise", &words(&["which", "node"])).is_none());
    assert!(runner.diagnostics().is_empty());
}

#[test]
fn failures_and_truncations_are_noted_in_order() {
    let mut runner = CommandRunner::with_timeout(50);
    assert_eq!(runner.timeout_millis(), 50);
    runner.record("sleep", &words(&["30"]), &Err(QueryFailure::Timeout));
    runner.record(
        "sh",
        &words(&["-c", "yes"]),
        &Ok(QueryOutput { success: true, stdout: String::new(), truncated: true }),
    );
    runner.record("missing", &words(&[]), &Err(QueryFailure::SpawnFailed("not found".to_string())));
    assert_eq!(
        runner.diagnostics(),
        vec![
            "`sleep 30` did not finish within the timeout and was killed".to_string(),
            "`sh -c yes` output was truncated to 65536 bytes".to_string(),
            "`missing ` could not be started: not found".to_string(),
        ]
    );
    assert!(matches!(runner.cached("sleep", &words(&["30"])), Some(Err(QueryFailure::Timeout))));
}

#[test]
fn stdout_capture_keeps_only_the_bound_and_reports_truncation() {
    let mut buffer = Vec::new();
    let mut truncated = false;
    let chunk = vec![b'y'; 8 * 1024];
    for _ in 0..8 {
        capture_chunk(&mut buffer, &mut truncated, &chunk);
    }
    assert_eq!(buffer.len(), MAX_OUTPUT_BYTES);
    assert!(!truncated);
    capture_chunk(&mut buffer, &mut truncated, b"z");
    assert_eq!(buffer.len(), MAX_OUTPUT_BYTES);
    assert!(truncated);

    let mut small = Vec::new();
    let mut small_truncated = false;
    capture_chunk(&mut small, &mut small_truncated, b"hello");
    assert_eq!(small, b"hello");
    assert!(!small_truncated);
    assert_eq!(QueryFailure::SpawnFailed("x".into()).describe(), "could not be started: x");
}
