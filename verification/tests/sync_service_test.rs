use todo_app::error::AppError;
use todo_app::error::AppErrorKind;
use todo_app::sync_merge::MergeSummary;
use todo_app::sync_run::{SyncAction, SyncEvent, SyncRun, SyncStep};
use todo_app::sync_service::{
    encryption_key, webdav_password_key, SyncConfig, SyncFrequency, SyncService, SyncState, SyncStatus,
    SyncStrategy,
};

fn config(encryption_enabled: bool, paused: bool) -> SyncConfig {
    SyncConfig {
        endpoint: "https://dav.example.test".to_owned(),
        remote_directory: "todo".to_owned(),
        username: "alice".to_owned(),
        encryption_enabled,
        paused,
        strategy: SyncStrategy::SmartMerge,
        frequency: SyncFrequency::FiveMinutes,
    }
}

#[test]
fn password_key_is_namespaced() {
    assert_eq!(webdav_password_key("alice"), "webdav:alice");
}

#[test]
fn encryption_key_is_namespaced() {
    assert_eq!(encryption_key("alice"), "encryption:alice");
}

#[test]
fn automatic_intervals_follow_the_frequency() {
    assert_eq!(SyncFrequency::OneMinute.automatic_interval(), Some(std::time::Duration::from_secs(60)));
    assert_eq!(SyncFrequency::FiveMinutes.automatic_interval_seconds(), Some(300));
    assert_eq!(SyncFrequency::OneHour.automatic_interval(), Some(std::time::Duration::from_secs(3600)));
    assert_eq!(SyncFrequency::Manual.automatic_interval(), None);
}

#[test]
fn a_paused_configuration_ends_the_run_at_once() {
    let (mut run, action) = SyncRun::start(SyncStrategy::SmartMerge);
    assert!(matches!(action, SyncAction::LoadConfig));

    match run.next(SyncEvent::ConfigLoaded(Some(config(false, true)))) {
        SyncAction::Finish(Ok(summary)) => {
            assert_eq!(summary.status, SyncStatus::Paused);
            assert!(!summary.uploaded);
        }
        other => panic!("unexpected action {other:?}"),
    }
    assert_eq!(run.step, SyncStep::Finished);
}

#[test]
fn a_missing_configuration_is_reported() {
    let (mut run, _) = SyncRun::start(SyncStrategy::SmartMerge);
    match run.next(SyncEvent::ConfigLoaded(None)) {
        SyncAction::Finish(Err(error)) => assert_eq!(error.code(), "sync.configuration.missing"),
        other => panic!("unexpected action {other:?}"),
    }
}

#[test]
fn first_sync_uploads_the_local_snapshot() {
    let (mut run, _) = SyncRun::start(SyncStrategy::SmartMerge);
    match run.next(SyncEvent::ConfigLoaded(Some(config(true, false)))) {
        SyncAction::LoadSecret(key) => assert_eq!(key, "webdav:alice"),
        other => panic!("unexpected action {other:?}"),
    }
    match run.next(SyncEvent::SecretLoaded(Some("dav-password".to_owned()))) {
        SyncAction::LoadSecret(key) => assert_eq!(key, "encryption:alice"),
        other => panic!("unexpected action {other:?}"),
    }
    assert!(matches!(run.next(SyncEvent::SecretLoaded(Some("phrase".to_owned()))), SyncAction::LoadSnapshots));
    assert!(matches!(run.next(SyncEvent::Done), SyncAction::FetchRemote));
    assert!(matches!(run.next(SyncEvent::Fetched(false)), SyncAction::UploadLocal));
    assert!(matches!(run.next(SyncEvent::Done), SyncAction::SaveSynced));
    match run.next(SyncEvent::Done) {
        SyncAction::Finish(Ok(summary)) => {
            assert_eq!(summary.status, SyncStatus::Synced);
            assert!(summary.uploaded);
        }
        other => panic!("unexpected action {other:?}"),
    }
}

#[test]
fn unencrypted_sync_does_not_require_an_encryption_passphrase() {
    let (mut run, _) = SyncRun::start(SyncStrategy::SmartMerge);
    run.next(SyncEvent::ConfigLoaded(Some(config(false, false))));
    assert!(matches!(run.next(SyncEvent::SecretLoaded(Some("pw".to_owned()))), SyncAction::LoadSnapshots));
}

#[test]
fn conflicts_are_stored_without_uploading() {
    let (mut run, _) = SyncRun::start(SyncStrategy::SmartMerge);
    run.next(SyncEvent::ConfigLoaded(Some(config(false, false))));
    run.next(SyncEvent::SecretLoaded(Some("pw".to_owned())));
    run.next(SyncEvent::Done);
    assert!(matches!(run.next(SyncEvent::Fetched(true)), SyncAction::PlanMerge(SyncStrategy::SmartMerge)));
    let summary = MergeSummary { local_only: 0, remote_only: 0, merged: 1, conflicts: 1 };
    assert!(matches!(run.next(SyncEvent::Planned(summary, 1)), SyncAction::SaveConflicts(1)));
    match run.next(SyncEvent::Done) {
        SyncAction::Finish(Ok(result)) => {
            assert_eq!(result.status, SyncStatus::ConflictsPending);
            assert_eq!(result.conflicts, 1);
            assert!(!result.uploaded);
        }
        other => panic!("unexpected action {other:?}"),
    }
}

#[test]
fn keep_remote_replaces_the_local_entities() {
    let (mut run, _) = SyncRun::start(SyncStrategy::KeepRemote);
    run.next(SyncEvent::ConfigLoaded(Some(config(false, false))));
    run.next(SyncEvent::SecretLoaded(Some("pw".to_owned())));
    run.next(SyncEvent::Done);
    run.next(SyncEvent::Fetched(true));
    let summary = MergeSummary { local_only: 0, remote_only: 0, merged: 1, conflicts: 0 };
    assert!(matches!(run.next(SyncEvent::Planned(summary, 0)), SyncAction::ApplyAndUpload { replace: true }));
}

#[test]
fn a_failed_fetch_is_recorded_and_returned() {
    let (mut run, _) = SyncRun::start(SyncStrategy::SmartMerge);
    run.next(SyncEvent::ConfigLoaded(Some(config(false, false))));
    run.next(SyncEvent::SecretLoaded(Some("pw".to_owned())));
    run.next(SyncEvent::Done);
    let error = AppError::new("sync.remote.timeout", "errors.sync.remote.timeout", AppErrorKind::Remote);
    assert!(matches!(run.next(SyncEvent::Failed(error)), SyncAction::RecordFailure(_)));
    match run.next(SyncEvent::Done) {
        SyncAction::Finish(Err(returned)) => assert_eq!(returned.code(), "sync.remote.timeout"),
        other => panic!("unexpected action {other:?}"),
    }
}

#[test]
fn authentication_failures_pause_and_others_retry() {
    let mut state = SyncState::unconfigured();
    let auth = AppError::new("sync.remote.authentication_failed", "errors.sync.remote.authentication_failed", AppErrorKind::Remote);
    SyncService::<(), (), ()>::record_sync_failure(&mut state, &auth);
    assert_eq!(state.status, SyncStatus::Paused);
    assert_eq!(state.last_error_code.as_deref(), Some("sync.remote.authentication_failed"));
    let other = AppError::new("sync.remote.timeout", "errors.sync.remote.timeout", AppErrorKind::Remote);
    SyncService::<(), (), ()>::record_sync_failure(&mut state, &other);
    assert_eq!(state.status, SyncStatus::RetryPending);
}

#[test]
fn the_longest_run_ends_after_eight_answers_and_each_step_moves_on() {
    let (mut run, first) = SyncRun::start(SyncStrategy::SmartMerge);
    assert!(matches!(first, SyncAction::LoadConfig));
    let summary = MergeSummary { local_only: 1, remote_only: 2, merged: 3, conflicts: 0 };
    let events = vec![
        SyncEvent::ConfigLoaded(Some(config(true, false))),
        SyncEvent::SecretLoaded(Some("pw".to_owned())),
        SyncEvent::SecretLoaded(Some("passphrase".to_owned())),
        SyncEvent::Done,
        SyncEvent::Fetched(true),
        SyncEvent::Planned(summary, 0),
        SyncEvent::Done,
        SyncEvent::Done,
    ];
    let mut steps = vec![run.step];
    let mut last = None;
    for event in events {
        last = Some(run.next(event));
        steps.push(run.step);
    }
    assert_eq!(
        steps,
        vec![
            SyncStep::LoadingConfig,
            SyncStep::LoadingPassword,
            SyncStep::LoadingPassphrase,
            SyncStep::LoadingSnapshots,
            SyncStep::Fetching,
            SyncStep::Planning,
            SyncStep::ApplyingPlan,
            SyncStep::Saving,
            SyncStep::Finished,
        ]
    );
    match last {
        Some(SyncAction::Finish(Ok(result))) => {
            assert_eq!(result.status, SyncStatus::Synced);
            assert_eq!((result.local_only, result.remote_only, result.merged), (1, 2, 3));
            assert!(result.uploaded);
        }
        other => panic!("unexpected action {other:?}"),
    }
}
