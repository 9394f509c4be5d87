use booru_ingest::batch::{FailureKind, Settings};
use booru_ingest::post_merge::{
    merge_request, merge_targets, required_version, MergeDirective, MergeEvent, MergeNext,
    MergeRequest, MergeStage, MergeState,
};

fn settings(skip_on_error: bool) -> Settings {
    Settings {
        timeout: 30,
        retry_attempts: 3,
        skip_on_error,
        delete_files_in_progress: false,
        delete_folder: false,
    }
}

fn fetched(version: u32) -> MergeEvent {
    MergeEvent::Fetched { version: Some(version) }
}

#[test]
fn merge_request_needs_both_versions() {
    let want = MergeRequest {
        remove_post_version: 3,
        remove_post: 5,
        merge_to_version: 4,
        merge_to_post: 9,
        replace_post_content: false,
    };
    assert_eq!(merge_request((5, 9), Some(3), Some(4)), Ok(want));
    assert_eq!(merge_request((5, 9), None, Some(4)), Err(FailureKind::MissingVersion));
    assert_eq!(merge_request((5, 9), Some(3), None), Err(FailureKind::MissingVersion));
    assert_eq!(required_version(Some(1)), Ok(1));
    assert_eq!(required_version(None), Err(FailureKind::MissingVersion));
}

#[test]
fn merge_targets_are_the_second_posts() {
    assert_eq!(merge_targets(&vec![(5, 9), (1, 2)]), vec![9, 2]);
    assert_eq!(merge_targets(&vec![]), Vec::<u32>::new());
}

#[test]
fn a_pair_is_fetched_twice_and_then_merged() {
    let s = settings(false);
    let (mut state, next) = MergeState::start(vec![(5, 9), (1, 2)]);
    assert_eq!(next, MergeNext::Fetch { post: 5 });
    assert!(state.accepts(&fetched(3)));
    assert!(!state.accepts(&MergeEvent::Merged));
    let d = state.step(&s, fetched(3));
    assert_eq!(d, MergeDirective { settled: None, wait_ms: 0, next: MergeNext::Fetch { post: 9 } });
    let d = state.step(&s, fetched(4));
    let request = MergeRequest {
        remove_post_version: 3,
        remove_post: 5,
        merge_to_version: 4,
        merge_to_post: 9,
        replace_post_content: false,
    };
    assert_eq!(d, MergeDirective { settled: None, wait_ms: 0, next: MergeNext::Submit { request } });
    assert!(!state.accepts(&fetched(1)));
    let d = state.step(&s, MergeEvent::Merged);
    assert_eq!(
        d,
        MergeDirective { settled: Some(true), wait_ms: 30, next: MergeNext::Fetch { post: 1 } }
    );
    state.step(&s, fetched(1));
    state.step(&s, fetched(1));
    let d = state.step(&s, MergeEvent::Merged);
    assert_eq!(d, MergeDirective { settled: Some(true), wait_ms: 30, next: MergeNext::Finish });
    assert_eq!(state.stage, MergeStage::Finished);
    assert!(!state.accepts(&MergeEvent::Failed(FailureKind::Transport)));
}

#[test]
fn a_post_without_version_fails_its_pair_and_is_not_retried() {
    let s = settings(true);
    let (mut state, _) = MergeState::start(vec![(5, 9), (1, 2)]);
    let d = state.step(&s, MergeEvent::Fetched { version: None });
    assert_eq!(
        d,
        MergeDirective { settled: Some(false), wait_ms: 30, next: MergeNext::Fetch { post: 1 } }
    );
    assert_eq!(state.current, 1);
    state.step(&s, fetched(2));
    let d = state.step(&s, MergeEvent::Fetched { version: None });
    assert_eq!(d, MergeDirective { settled: Some(false), wait_ms: 30, next: MergeNext::Finish });

    let s = settings(false);
    let (mut state, _) = MergeState::start(vec![(5, 9), (1, 2)]);
    let d = state.step(&s, MergeEvent::Fetched { version: None });
    let failure = FailureKind::MissingVersion;
    assert_eq!(
        d,
        MergeDirective { settled: Some(false), wait_ms: 0, next: MergeNext::Abort { failure } }
    );
    assert_eq!(state.stage, MergeStage::Aborted(FailureKind::MissingVersion));
}

#[test]
fn a_failed_merge_is_passed_over_or_ends_the_work() {
    let failure = FailureKind::VersionConflict;
    let s = settings(true);
    let (mut state, _) = MergeState::start(vec![(5, 9)]);
    state.step(&s, fetched(1));
    state.step(&s, fetched(1));
    let d = state.step(&s, MergeEvent::Failed(failure));
    assert_eq!(d, MergeDirective { settled: Some(false), wait_ms: 30, next: MergeNext::Finish });
    let s = settings(false);
    let (mut state, _) = MergeState::start(vec![(5, 9)]);
    let d = state.step(&s, MergeEvent::Failed(failure));
    assert_eq!(d.next, MergeNext::Abort { failure });
}

#[test]
fn no_pairs_no_work() {
    let (state, next) = MergeState::start(vec![]);
    assert_eq!(next, MergeNext::Finish);
    assert_eq!(state.stage, MergeStage::Finished);
}
