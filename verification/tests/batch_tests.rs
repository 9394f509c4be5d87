use booru_ingest::batch::{
    retry_delay_ms, BatchEvent, BatchOutcome, BatchState, Directive, FailureKind, Next, Phase,
    Settings,
};

fn settings(retry_attempts: u8, skip_on_error: bool) -> Settings {
    Settings {
        timeout: 30,
        retry_attempts,
        skip_on_error,
        delete_files_in_progress: true,
        delete_folder: false,
    }
}

fn uploaded(post_id: u32) -> BatchEvent {
    BatchEvent::Uploaded(BatchOutcome { post_id, artist: None })
}

/// Uploads file after file; `fails` says which files never succeed.
fn run(total: usize, settings: &Settings, fails: &[usize]) -> (BatchState, Vec<usize>, Next) {
    let (mut state, mut next) = BatchState::start(total, settings);
    let mut attempts = Vec::new();
    while let Next::Upload { file } = next {
        attempts.push(file);
        let event = if fails.contains(&file) {
            BatchEvent::Failed(FailureKind::Transport)
        } else {
            uploaded(100 + file as u32)
        };
        assert!(state.is_running());
        next = state.step(settings, event).next;
    }
    (state, attempts, next)
}

#[test]
fn retry_delay_grows_by_the_timeout() {
    assert_eq!(retry_delay_ms(30, 0), 100);
    assert_eq!(retry_delay_ms(30, 1), 130);
    assert_eq!(retry_delay_ms(30, 2), 160);
    assert_eq!(retry_delay_ms(u64::MAX, 255), 100 + 255 * (u64::MAX as u128));
}

#[test]
fn a_failing_file_is_attempted_three_times_with_two_retries() {
    let s = settings(2, true);
    let (state, attempts, next) = run(3, &s, &[1]);
    assert_eq!(attempts, vec![0, 1, 1, 1, 2]);
    assert_eq!(next, Next::Finish { remove_folder: false });
    assert_eq!(state.succeeded(), vec![100, 102]);
    assert_eq!(state.phase, Phase::Finished);
}

#[test]
fn without_skipping_the_batch_aborts_with_its_successes() {
    let s = settings(2, false);
    let (state, attempts, next) = run(3, &s, &[1]);
    assert_eq!(attempts, vec![0, 1, 1, 1]);
    assert_eq!(next, Next::Abort { failure: FailureKind::Transport });
    assert_eq!(state.succeeded(), vec![100]);
    assert_eq!(state.phase, Phase::Aborted(FailureKind::Transport));
    assert!(!state.is_running());
}

#[test]
fn directives_after_each_kind_of_event() {
    let s = settings(1, true);
    let (mut state, next) = BatchState::start(2, &s);
    assert_eq!(next, Next::Upload { file: 0 });
    let d = state.step(&s, BatchEvent::Failed(FailureKind::MaxRetriesExceeded));
    assert_eq!(d, Directive { remove_source: false, wait_ms: 100, next: Next::Upload { file: 0 } });
    assert_eq!(state.retries, 1);
    let d = state.step(&s, uploaded(7));
    assert_eq!(d, Directive { remove_source: true, wait_ms: 30, next: Next::Upload { file: 1 } });
    assert_eq!(state.retries, 0);
    let d = state.step(&s, BatchEvent::Failed(FailureKind::Transport));
    assert_eq!(d, Directive { remove_source: false, wait_ms: 100, next: Next::Upload { file: 1 } });
    let d = state.step(&s, BatchEvent::Failed(FailureKind::Transport));
    assert_eq!(
        d,
        Directive { remove_source: false, wait_ms: 30, next: Next::Finish { remove_folder: false } }
    );
    assert_eq!(state.outcomes.len(), 1);
    assert_eq!(state.outcomes[0].post_id, 7);
}

#[test]
fn failures_that_a_retry_cannot_help_settle_at_once() {
    for failure in [FailureKind::Parse, FailureKind::MissingVersion, FailureKind::VersionConflict] {
        assert!(!failure.is_retryable());
        let s = settings(5, false);
        let (mut state, _) = BatchState::start(2, &s);
        let d = state.step(&s, BatchEvent::Failed(failure));
        assert_eq!(d, Directive { remove_source: false, wait_ms: 0, next: Next::Abort { failure } });
        let s = settings(5, true);
        let (mut state, _) = BatchState::start(2, &s);
        let d = state.step(&s, BatchEvent::Failed(failure));
        assert_eq!(d.next, Next::Upload { file: 1 });
    }
    assert!(FailureKind::Transport.is_retryable());
    assert!(FailureKind::MaxRetriesExceeded.is_retryable());
}

#[test]
fn an_empty_batch_is_through_at_once() {
    let mut s = settings(1, false);
    s.delete_folder = true;
    let (state, next) = BatchState::start(0, &s);
    assert_eq!(next, Next::Finish { remove_folder: true });
    assert_eq!(state.phase, Phase::Finished);
    let (state, attempts, next) = run(2, &s, &[]);
    assert_eq!(attempts, vec![0, 1]);
    assert_eq!(next, Next::Finish { remove_folder: true });
    assert_eq!(state.succeeded(), vec![100, 101]);
}

#[test]
fn without_retries_a_file_is_attempted_once() {
    let (_, attempts, _) = run(2, &settings(0, true), &[0, 1]);
    assert_eq!(attempts, vec![0, 1]);
}

#[test]
fn the_folder_stays_where_a_file_was_passed_over() {
    let mut s = settings(0, true);
    s.delete_folder = true;
    let (_, _, next) = run(2, &s, &[1]);
    assert_eq!(next, Next::Finish { remove_folder: false });
    let (_, _, next) = run(2, &s, &[]);
    assert_eq!(next, Next::Finish { remove_folder: true });
}
