//! One run of synchronisation as a state machine: each step says which
//! outside work comes next, and the caller reports how it went.
use vstd::prelude::*;

use crate::error::AppError;
use crate::sync_merge::{counter, MergeSummary};
use crate::sync_service::{
    configuration_error, encryption_key, summary_from_plan, webdav_password_key, SyncConfig,
    SyncRunSummary, SyncStatus, SyncStrategy, CONFIG_ERROR_CODE, CONFIG_ERROR_KEY,
};

verus! {

/// The outside work that a run asks for next.
#[derive(Debug)]
pub enum SyncAction {
    /// Read the stored configuration; answer `ConfigLoaded`.
    LoadConfig,
    /// Read the secret stored under the key; answer `SecretLoaded`.
    LoadSecret(String),
    /// Read the local snapshot and the baseline (an empty one where none is
    /// stored); answer `Done`.
    LoadSnapshots,
    /// Fetch the remote snapshot; answer `Fetched`.
    FetchRemote,
    /// Encode the local snapshot and store it remotely; answer `Done`, or
    /// `StoreFailed` where the transport failed.
    UploadLocal,
    /// Decode the remote snapshot, plan the merge by the strategy and store
    /// its conflicts; answer `Planned`.
    PlanMerge(SyncStrategy),
    /// Write the plan's entities locally (replacing all of them, or applying
    /// them), then encode the local snapshot and store it remotely; answer
    /// `Done`, or `StoreFailed` where the transport failed.
    ApplyAndUpload { replace: bool },
    /// Store the local snapshot as the baseline and the synced state; answer `Done`.
    SaveSynced,
    /// Store the state with the conflicts pending; answer `Done`.
    SaveConflicts(usize),
    /// Record the failed transfer in the stored state; answer `Done`.
    RecordFailure(AppError),
    /// The run is over.
    Finish(Result<SyncRunSummary, AppError>),
}

/// How the outside work went.
#[derive(Debug)]
pub enum SyncEvent {
    Done,
    /// The work failed; the run ends with the error (a failed fetch is recorded first).
    Failed(AppError),
    ConfigLoaded(Option<SyncConfig>),
    SecretLoaded(Option<String>),
    /// Whether a remote snapshot exists.
    Fetched(bool),
    /// Storing remotely failed; the failure is recorded and the run ends with it.
    StoreFailed(AppError),
    /// The plan's summary and its number of conflicts.
    Planned(MergeSummary, usize),
}

#[derive(Clone, Copy, Debug, PartialEq, Eq, Structural)]
pub enum SyncStep {
    LoadingConfig,
    LoadingPassword,
    LoadingPassphrase,
    LoadingSnapshots,
    Fetching,
    UploadingLocal,
    Planning,
    ApplyingPlan,
    Saving,
    RecordingFailure,
    Finished,
}

/// A run in progress: its strategy, its step, and what it has learnt.
#[derive(Debug)]
pub struct SyncRun {
    pub strategy: SyncStrategy,
    pub step: SyncStep,
    pub encryption_enabled: bool,
    pub username: String,
    pub summary: SyncRunSummary,
    pub failure: Option<AppError>,
}

/// The event answers the action that the step waits on.
pub open spec fn answers(step: SyncStep, event: SyncEvent) -> bool {
    match step {
        SyncStep::LoadingConfig => event is ConfigLoaded || event is Failed,
        SyncStep::LoadingPassword | SyncStep::LoadingPassphrase => event is SecretLoaded || event is Failed,
        SyncStep::LoadingSnapshots | SyncStep::Saving | SyncStep::RecordingFailure => event is Done
            || event is Failed,
        SyncStep::Fetching => event is Fetched || event is Failed,
        SyncStep::UploadingLocal | SyncStep::ApplyingPlan => event is Done || event is Failed
            || event is StoreFailed,
        SyncStep::Planning => event is Planned || event is Failed,
        SyncStep::Finished => false,
    }
}

/// The run ends with the configuration error.
pub open spec fn ends_unconfigured(action: SyncAction) -> bool {
    action matches SyncAction::Finish(Err(e)) && e.has(
        CONFIG_ERROR_CODE,
        CONFIG_ERROR_KEY,
        crate::error::AppErrorKind::Configuration,
    )
}

pub open spec fn summary_of(summary: MergeSummary, status: SyncStatus, uploaded: bool) -> SyncRunSummary {
    SyncRunSummary {
        status,
        local_only: summary.local_only,
        remote_only: summary.remote_only,
        merged: summary.merged,
        conflicts: summary.conflicts,
        uploaded,
    }
}

/// How far a step is from the end of a run: every step of a run moves to a
/// step nearer the end, so a run ends after at most ten steps.
pub open spec fn steps_left(step: SyncStep) -> nat {
    match step {
        SyncStep::LoadingConfig => 10,
        SyncStep::LoadingPassword => 9,
        SyncStep::LoadingPassphrase => 8,
        SyncStep::LoadingSnapshots => 7,
        SyncStep::Fetching => 6,
        SyncStep::Planning => 5,
        SyncStep::UploadingLocal => 4,
        SyncStep::ApplyingPlan => 4,
        SyncStep::Saving => 3,
        SyncStep::RecordingFailure => 2,
        SyncStep::Finished => 0,
    }
}

impl SyncRun {
    /// A run that records a failure knows the failure.
    pub open spec fn wf(&self) -> bool {
        self.step == SyncStep::RecordingFailure ==> self.failure is Some
    }

    /// A run by the strategy; it first reads the configuration.
    pub fn start(strategy: SyncStrategy) -> (r: (SyncRun, SyncAction))
        ensures
            r.0.wf(),
            r.0.strategy == strategy,
            r.0.step == SyncStep::LoadingConfig,
            r.1 is LoadConfig,
    {
        let run = SyncRun {
            strategy,
            step: SyncStep::LoadingConfig,
            encryption_enabled: false,
            username: String::new(),
            summary: SyncRunSummary::default(),
            failure: None,
        };
        (run, SyncAction::LoadConfig)
    }

    fn finish(&mut self, result: Result<SyncRunSummary, AppError>) -> (r: SyncAction)
        ensures
            final(self).failure == old(self).failure,
            final(self).step == SyncStep::Finished,
            final(self).strategy == old(self).strategy,
            r == SyncAction::Finish(result),
    {
        self.step = SyncStep::Finished;
        SyncAction::Finish(result)
    }

    /// The next action of the run, once the last one went as `event` says.
    pub fn next(&mut self, event: SyncEvent) -> (action: SyncAction)
        requires
            old(self).wf(),
            answers(old(self).step, event),
        ensures
            final(self).wf(),
            final(self).strategy == old(self).strategy,
            action is Finish <==> final(self).step == SyncStep::Finished,
            steps_left(final(self).step) < steps_left(old(self).step),
            action is RecordFailure <==> final(self).step == SyncStep::RecordingFailure,
            action is FetchRemote <==> final(self).step == SyncStep::Fetching,
            action is UploadLocal <==> final(self).step == SyncStep::UploadingLocal,
            action is PlanMerge <==> final(self).step == SyncStep::Planning,
            action is ApplyAndUpload <==> final(self).step == SyncStep::ApplyingPlan,
            action is SaveSynced || action is SaveConflicts <==> final(self).step == SyncStep::Saving,
            action is LoadSnapshots <==> final(self).step == SyncStep::LoadingSnapshots,
            action is LoadSecret <==> (final(self).step == SyncStep::LoadingPassword || final(self).step
                == SyncStep::LoadingPassphrase),
            // Any failure other than one to store or fetch remotely ends the run with it.
            event matches SyncEvent::Failed(e) ==> (old(self).step != SyncStep::Fetching ==> action
                == SyncAction::Finish(Err(e))),
            // A failed fetch or store is recorded, and the run then ends with it.
            event matches SyncEvent::Failed(e) ==> (old(self).step == SyncStep::Fetching ==> action
                == SyncAction::RecordFailure(e) && final(self).failure == Some(e)),
            event matches SyncEvent::StoreFailed(e) ==> action == SyncAction::RecordFailure(e)
                && final(self).failure == Some(e),
            old(self).step == SyncStep::RecordingFailure && event is Done ==> (old(self).failure matches Some(
                e,
            ) ==> action == SyncAction::Finish(Err(e))),
            // Configuration.
            event matches SyncEvent::ConfigLoaded(c) ==> match c {
                None => ends_unconfigured(action),
                Some(config) => if config.paused {
                    action == SyncAction::Finish(Ok(summary_with_status(SyncStatus::Paused)))
                } else {
                    &&& final(self).step == SyncStep::LoadingPassword
                    &&& action matches SyncAction::LoadSecret(key) && key@ == "webdav:"@ + config.username@
                    &&& final(self).username@ == config.username@
                    &&& final(self).encryption_enabled == config.encryption_enabled
                },
            },
            // Secrets: a missing one is a configuration error; the passphrase
            // is read only where encryption is on.
            event matches SyncEvent::SecretLoaded(s) ==> match s {
                None => ends_unconfigured(action),
                Some(_) => if old(self).step == SyncStep::LoadingPassword && old(self).encryption_enabled {
                    &&& final(self).step == SyncStep::LoadingPassphrase
                    &&& action matches SyncAction::LoadSecret(key) && key@ == "encryption:"@ + old(
                        self,
                    ).username@
                } else {
                    final(self).step == SyncStep::LoadingSnapshots && action is LoadSnapshots
                },
            },
            old(self).step == SyncStep::LoadingSnapshots && event is Done ==> action is FetchRemote,
            // No remote snapshot: the local one is uploaded.
            event == SyncEvent::Fetched(false) ==> action is UploadLocal && final(self).summary
                == summary_with_status_uploaded(SyncStatus::Synced),
            event == SyncEvent::Fetched(true) ==> action == SyncAction::PlanMerge(old(self).strategy),
            // Conflicts are stored and nothing is uploaded; else the plan is applied and uploaded.
            event matches SyncEvent::Planned(summary, n) ==> if n > 0 {
                &&& action == SyncAction::SaveConflicts(n)
                &&& final(self).summary == summary_of(summary, SyncStatus::ConflictsPending, false)
            } else {
                &&& action == SyncAction::ApplyAndUpload {
                    replace: old(self).strategy == SyncStrategy::KeepRemote,
                }
                &&& final(self).summary == summary_of(summary, SyncStatus::Synced, true)
            },
            (old(self).step == SyncStep::UploadingLocal || old(self).step == SyncStep::ApplyingPlan) && event is Done
                ==> action is SaveSynced && final(self).summary == old(self).summary,
            old(self).step == SyncStep::Saving && event is Done ==> action == SyncAction::Finish(
                Ok(old(self).summary),
            ),
    {
        match event {
            SyncEvent::Failed(e) => {
                if self.step == SyncStep::Fetching {
                    self.step = SyncStep::RecordingFailure;
                    self.failure = Some(e);
                    SyncAction::RecordFailure(e)
                } else {
                    self.finish(Err(e))
                }
            },
            SyncEvent::StoreFailed(e) => {
                self.step = SyncStep::RecordingFailure;
                self.failure = Some(e);
                SyncAction::RecordFailure(e)
            },
            SyncEvent::ConfigLoaded(config) => match config {
                None => self.finish(Err(configuration_error())),
                Some(config) => {
                    if config.paused {
                        self.finish(Ok(paused_summary()))
                    } else {
                        let key = webdav_password_key(config.username.as_str());
                        self.username = config.username;
                        self.encryption_enabled = config.encryption_enabled;
                        self.step = SyncStep::LoadingPassword;
                        SyncAction::LoadSecret(key)
                    }
                },
            },
            SyncEvent::SecretLoaded(secret) => match secret {
                None => self.finish(Err(configuration_error())),
                Some(_) => {
                    if self.step == SyncStep::LoadingPassword && self.encryption_enabled {
                        self.step = SyncStep::LoadingPassphrase;
                        SyncAction::LoadSecret(encryption_key(self.username.as_str()))
                    } else {
                        self.step = SyncStep::LoadingSnapshots;
                        SyncAction::LoadSnapshots
                    }
                },
            },
            SyncEvent::Fetched(exists) => {
                if exists {
                    self.step = SyncStep::Planning;
                    SyncAction::PlanMerge(self.strategy)
                } else {
                    self.step = SyncStep::UploadingLocal;
                    self.summary = synced_uploaded_summary();
                    SyncAction::UploadLocal
                }
            },
            SyncEvent::Planned(summary, conflicts) => {
                if conflicts > 0 {
                    self.step = SyncStep::Saving;
                    self.summary = summary_from_plan(&summary, SyncStatus::ConflictsPending, false);
                    SyncAction::SaveConflicts(conflicts)
                } else {
                    self.step = SyncStep::ApplyingPlan;
                    self.summary = summary_from_plan(&summary, SyncStatus::Synced, true);
                    SyncAction::ApplyAndUpload { replace: self.strategy == SyncStrategy::KeepRemote }
                }
            },
            SyncEvent::Done => {
                match self.step {
                    SyncStep::LoadingSnapshots => {
                        self.step = SyncStep::Fetching;
                        SyncAction::FetchRemote
                    },
                    SyncStep::UploadingLocal | SyncStep::ApplyingPlan => {
                        self.step = SyncStep::Saving;
                        SyncAction::SaveSynced
                    },
                    SyncStep::Saving => {
                        let summary = self.summary;
                        self.finish(Ok(summary))
                    },
                    _ => {
                        let failure = match self.failure {
                            Some(e) => e,
                            None => configuration_error(),
                        };
                        self.finish(Err(failure))
                    },
                }
            },
        }
    }
}

pub open spec fn summary_with_status(status: SyncStatus) -> SyncRunSummary {
    SyncRunSummary { status, local_only: 0, remote_only: 0, merged: 0, conflicts: 0, uploaded: false }
}

pub open spec fn summary_with_status_uploaded(status: SyncStatus) -> SyncRunSummary {
    SyncRunSummary { status, local_only: 0, remote_only: 0, merged: 0, conflicts: 0, uploaded: true }
}

fn paused_summary() -> (r: SyncRunSummary)
    ensures
        r == summary_with_status(SyncStatus::Paused),
{
    SyncRunSummary { status: SyncStatus::Paused, local_only: 0, remote_only: 0, merged: 0, conflicts: 0, uploaded: false }
}

fn synced_uploaded_summary() -> (r: SyncRunSummary)
    ensures
        r == summary_with_status_uploaded(SyncStatus::Synced),
{
    SyncRunSummary { status: SyncStatus::Synced, local_only: 0, remote_only: 0, merged: 0, conflicts: 0, uploaded: true }
}

} // verus!
