//! Synchronisation with a remote snapshot: its configuration and state, the
//! summary of a run, and the decisions of a run as a state machine whose
//! outside work (storage, credentials, transport) the caller performs.
use std::sync::Arc;
use vstd::prelude::*;
use vstd::string::StringExecFns;

use crate::calendar::UtcDateTime;
use crate::error::{AppError, AppErrorKind};
use crate::recurrence::str_equals;
use crate::sync::SyncEntity;
use crate::sync_merge::{
    all_wf, counter, is_merge_plan, merge_snapshots, wrap_count, MergePlan, MergeSummary,
};

verus! {

pub const CONFIG_ERROR_CODE: &'static str = "sync.configuration.missing";

pub const CONFIG_ERROR_KEY: &'static str = "errors.sync.configuration.missing";

pub const SNAPSHOT_ERROR_CODE: &'static str = "sync.snapshot.invalid";

pub const SNAPSHOT_ERROR_KEY: &'static str = "errors.sync.snapshot.invalid";

/// The code of a transport error after which synchronisation pauses.
pub const AUTHENTICATION_FAILED_CODE: &'static str = "sync.remote.authentication_failed";

#[derive(Clone, Copy, Debug, PartialEq, Eq, Structural)]
pub enum SyncStatus {
    Unconfigured,
    Scanning,
    Syncing,
    Synced,
    RetryPending,
    ConflictsPending,
    Paused,
}

#[derive(Clone, Copy, Debug, PartialEq, Eq, Structural)]
pub enum SyncStrategy {
    SmartMerge,
    KeepLocal,
    KeepRemote,
}

#[derive(Clone, Copy, Debug, PartialEq, Eq, Structural)]
pub enum SyncFrequency {
    OneMinute,
    FiveMinutes,
    FifteenMinutes,
    ThirtyMinutes,
    OneHour,
    Manual,
}

pub open spec fn interval_seconds(frequency: SyncFrequency) -> Option<u64> {
    match frequency {
        SyncFrequency::OneMinute => Some(60),
        SyncFrequency::FiveMinutes => Some(300),
        SyncFrequency::FifteenMinutes => Some(900),
        SyncFrequency::ThirtyMinutes => Some(1800),
        SyncFrequency::OneHour => Some(3600),
        SyncFrequency::Manual => None,
    }
}

/// A duration of whole seconds.
///
/// Calls `std::time::Duration::from_secs`; nothing is stated of the value,
/// which Verus holds opaque.
#[verifier::external_body]
fn duration_from_secs(seconds: u64) -> std::time::Duration {
    std::time::Duration::from_secs(seconds)
}

impl SyncFrequency {
    /// The seconds between automatic runs; none for manual synchronisation.
    pub fn automatic_interval_seconds(self) -> (r: Option<u64>)
        ensures
            r == interval_seconds(self),
    {
        match self {
            SyncFrequency::OneMinute => Some(60),
            SyncFrequency::FiveMinutes => Some(5 * 60),
            SyncFrequency::FifteenMinutes => Some(15 * 60),
            SyncFrequency::ThirtyMinutes => Some(30 * 60),
            SyncFrequency::OneHour => Some(60 * 60),
            SyncFrequency::Manual => None,
        }
    }

    /// The time between automatic runs; none for manual synchronisation.
    pub fn automatic_interval(self) -> (r: Option<std::time::Duration>)
        ensures
            r is Some <==> interval_seconds(self) is Some,
    {
        match self.automatic_interval_seconds() {
            Some(seconds) => Some(duration_from_secs(seconds)),
            None => None,
        }
    }
}

/// Where and as whom to synchronise.
#[derive(Debug)]
pub struct SyncConfig {
    pub endpoint: String,
    pub remote_directory: String,
    pub username: String,
    pub encryption_enabled: bool,
    pub paused: bool,
    pub strategy: SyncStrategy,
    pub frequency: SyncFrequency,
}

impl Clone for SyncConfig {
    fn clone(&self) -> (r: Self)
        ensures
            r.endpoint@ == self.endpoint@,
            r.remote_directory@ == self.remote_directory@,
            r.username@ == self.username@,
            r.encryption_enabled == self.encryption_enabled,
            r.paused == self.paused,
            r.strategy == self.strategy,
            r.frequency == self.frequency,
    {
        SyncConfig {
            endpoint: self.endpoint.clone(),
            remote_directory: self.remote_directory.clone(),
            username: self.username.clone(),
            encryption_enabled: self.encryption_enabled,
            paused: self.paused,
            strategy: self.strategy,
            frequency: self.frequency,
        }
    }
}

#[derive(Clone, Copy, Debug, Default, PartialEq, Eq, Structural)]
pub struct SyncCounters {
    pub pending_upload: u32,
    pub pending_download: u32,
    pub conflicts: u32,
}

/// The state of synchronisation as it is stored.
#[derive(Debug)]
pub struct SyncState {
    pub status: SyncStatus,
    pub last_synced_at: Option<UtcDateTime>,
    pub last_error_code: Option<String>,
    pub counters: SyncCounters,
    pub baseline_snapshot_id: Option<u128>,
}

impl SyncState {
    /// Nothing configured and nothing synchronised yet.
    pub fn unconfigured() -> (r: Self)
        ensures
            r.status == SyncStatus::Unconfigured,
            r.last_synced_at is None,
            r.last_error_code is None,
            r.counters == (SyncCounters { pending_upload: 0, pending_download: 0, conflicts: 0 }),
            r.baseline_snapshot_id is None,
    {
        SyncState {
            status: SyncStatus::Unconfigured,
            last_synced_at: None,
            last_error_code: None,
            counters: SyncCounters { pending_upload: 0, pending_download: 0, conflicts: 0 },
            baseline_snapshot_id: None,
        }
    }
}

impl Default for SyncState {
    fn default() -> (r: Self)
        ensures
            r.status == SyncStatus::Unconfigured,
            r.last_synced_at is None,
            r.last_error_code is None,
            r.counters == (SyncCounters { pending_upload: 0, pending_download: 0, conflicts: 0 }),
            r.baseline_snapshot_id is None,
    {
        SyncState::unconfigured()
    }
}

/// A snapshot of all synchronised entities.
#[derive(Debug)]
pub struct SyncSnapshot {
    pub format_version: u16,
    pub snapshot_id: u128,
    pub generated_at: UtcDateTime,
    pub entities: Vec<SyncEntity>,
}

impl SyncSnapshot {
    /// A snapshot of the current format, generated at `generated_at`.
    pub fn new_at(snapshot_id: u128, entities: Vec<SyncEntity>, generated_at: UtcDateTime) -> (r: Self)
        ensures
            r.format_version == crate::sync::SYNC_SNAPSHOT_FORMAT_VERSION,
            r.snapshot_id == snapshot_id,
            r.generated_at == generated_at,
            r.entities@ == entities@,
    {
        SyncSnapshot {
            format_version: crate::sync::SYNC_SNAPSHOT_FORMAT_VERSION,
            snapshot_id,
            generated_at,
            entities,
        }
    }

    /// A snapshot of the current format, generated now.
    pub fn new(snapshot_id: u128, entities: Vec<SyncEntity>) -> (r: Self)
        ensures
            r.format_version == crate::sync::SYNC_SNAPSHOT_FORMAT_VERSION,
            r.snapshot_id == snapshot_id,
            r.generated_at.wf(),
            r.entities@ == entities@,
    {
        Self::new_at(snapshot_id, entities, crate::calendar::utc_now())
    }
}

/// What a run of synchronisation did.
#[derive(Clone, Copy, Debug, PartialEq, Eq, Structural)]
pub struct SyncRunSummary {
    pub status: SyncStatus,
    pub local_only: u32,
    pub remote_only: u32,
    pub merged: u32,
    pub conflicts: u32,
    pub uploaded: bool,
}

pub open spec fn summary_with(status: SyncStatus, uploaded: bool) -> SyncRunSummary {
    SyncRunSummary { status, local_only: 0, remote_only: 0, merged: 0, conflicts: 0, uploaded }
}

impl Default for SyncRunSummary {
    fn default() -> (r: Self)
        ensures
            r == summary_with(SyncStatus::Unconfigured, false),
    {
        SyncRunSummary {
            status: SyncStatus::Unconfigured,
            local_only: 0,
            remote_only: 0,
            merged: 0,
            conflicts: 0,
            uploaded: false,
        }
    }
}

/// The service that synchronises a repository with a remote transport, with
/// secrets from a credential store.
pub struct SyncService<R, T, C> {
    pub repository: Arc<R>,
    pub transport: Arc<T>,
    pub credentials: Arc<C>,
}

impl<R, T, C> SyncService<R, T, C> {
    pub fn new(repository: Arc<R>, transport: Arc<T>, credentials: Arc<C>) -> (r: Self)
        ensures
            r.repository == repository,
            r.transport == transport,
            r.credentials == credentials,
    {
        SyncService { repository, transport, credentials }
    }

    /// Records a failed transfer in the state: an authentication failure
    /// pauses synchronisation, any other failure leaves it to be retried; the
    /// error's code is kept.
    pub fn record_sync_failure(state: &mut SyncState, error: &AppError)
        ensures
            final(state).status == if error.code@ == AUTHENTICATION_FAILED_CODE@ {
                SyncStatus::Paused
            } else {
                SyncStatus::RetryPending
            },
            final(state).last_error_code matches Some(c) && c@ == error.code@,
            final(state).last_synced_at == old(state).last_synced_at,
            final(state).counters == old(state).counters,
            final(state).baseline_snapshot_id == old(state).baseline_snapshot_id,
    {
        state.status = if str_equals(error.code(), AUTHENTICATION_FAILED_CODE) {
            SyncStatus::Paused
        } else {
            SyncStatus::RetryPending
        };
        state.last_error_code = Some(error.code().to_owned());
    }
}

/// The key under which the WebDAV password of a user is stored.
pub fn webdav_password_key(username: &str) -> (r: String)
    ensures
        r@ == "webdav:"@ + username@,
{
    let mut key = String::from_str("webdav:");
    key.append(username);
    key
}

/// The key under which the encryption passphrase of a user is stored.
pub fn encryption_key(username: &str) -> (r: String)
    ensures
        r@ == "encryption:"@ + username@,
{
    let mut key = String::from_str("encryption:");
    key.append(username);
    key
}

pub fn configuration_error() -> (r: AppError)
    ensures
        r.has(CONFIG_ERROR_CODE, CONFIG_ERROR_KEY, AppErrorKind::Configuration),
{
    AppError::new(CONFIG_ERROR_CODE, CONFIG_ERROR_KEY, AppErrorKind::Configuration)
}

pub fn snapshot_error() -> (r: AppError)
    ensures
        r.has(SNAPSHOT_ERROR_CODE, SNAPSHOT_ERROR_KEY, AppErrorKind::Conflict),
{
    AppError::new(SNAPSHOT_ERROR_CODE, SNAPSHOT_ERROR_KEY, AppErrorKind::Conflict)
}

fn clone_entities(entities: &[SyncEntity]) -> (r: Vec<SyncEntity>)
    ensures
        r@.len() == entities@.len(),
        forall|i: int| #![trigger r@[i]] 0 <= i < r@.len() ==> r@[i].id == entities@[i].id && r@[i].kind
            == entities@[i].kind && r@[i].fields@ == entities@[i].fields@ && r@[i].deleted
            == entities@[i].deleted,
{
    let mut out: Vec<SyncEntity> = Vec::new();
    let mut i: usize = 0;
    while i < entities.len()
        invariant
            i <= entities@.len(),
            out@.len() == i,
            forall|k: int| #![trigger out@[k]] 0 <= k < i ==> out@[k].id == entities@[k].id && out@[k].kind
                == entities@[k].kind && out@[k].fields@ == entities@[k].fields@ && out@[k].deleted
                == entities@[k].deleted,
        decreases entities@.len() - i,
    {
        out.push(entities[i].clone());
        i = i + 1;
    }
    out
}

/// The plan takes the snapshot `entities` as it is: the same entities, field
/// for field, all counted as merged, and nothing conflicting.
pub open spec fn is_preferred_plan(r: MergePlan, entities: Seq<SyncEntity>) -> bool {
    &&& r.entities@.len() == entities.len()
    &&& forall|i: int| #![trigger r.entities@[i]] 0 <= i < r.entities@.len() ==> r.entities@[i].id == entities[i].id
        && r.entities@[i].kind == entities[i].kind && r.entities@[i].fields@ == entities[i].fields@
        && r.entities@[i].deleted == entities[i].deleted
    &&& r.conflicts@.len() == 0
    &&& r.summary == (MergeSummary {
        local_only: 0,
        remote_only: 0,
        merged: counter(entities.len() as int) as u32,
        conflicts: 0,
    })
}

/// The plan that takes one snapshot as it is: all its entities count as
/// merged and nothing conflicts.
pub fn preferred_snapshot_plan(entities: &[SyncEntity]) -> (r: MergePlan)
    ensures
        is_preferred_plan(r, entities@),
{
    let entities = clone_entities(entities);
    let merged = wrap_count(entities.len());
    MergePlan {
        entities,
        conflicts: Vec::new(),
        summary: MergeSummary { local_only: 0, remote_only: 0, merged, conflicts: 0 },
    }
}

/// The plan of a run: the three-way merge, or one side taken as it is.
pub fn plan_for_strategy(
    strategy: SyncStrategy,
    baseline: &[SyncEntity],
    local: &[SyncEntity],
    remote: &[SyncEntity],
) -> (r: MergePlan)
    requires
        all_wf(baseline@),
        all_wf(local@),
        all_wf(remote@),
    ensures
        strategy == SyncStrategy::SmartMerge ==> is_merge_plan(r, baseline@, local@, remote@),
        strategy == SyncStrategy::KeepLocal ==> is_preferred_plan(r, local@),
        strategy == SyncStrategy::KeepRemote ==> is_preferred_plan(r, remote@),
{
    match strategy {
        SyncStrategy::SmartMerge => merge_snapshots(baseline, local, remote),
        SyncStrategy::KeepLocal => preferred_snapshot_plan(local),
        SyncStrategy::KeepRemote => preferred_snapshot_plan(remote),
    }
}

/// The summary of a run from its plan.
pub fn summary_from_plan(summary: &MergeSummary, status: SyncStatus, uploaded: bool) -> (r: SyncRunSummary)
    ensures
        r == (SyncRunSummary {
            status,
            local_only: summary.local_only,
            remote_only: summary.remote_only,
            merged: summary.merged,
            conflicts: summary.conflicts,
            uploaded,
        }),
{
    SyncRunSummary {
        status,
        local_only: summary.local_only,
        remote_only: summary.remote_only,
        merged: summary.merged,
        conflicts: summary.conflicts,
        uploaded,
    }
}

/// The state after a snapshot was synchronised: synced at the time it was
/// generated, with it as the baseline.
pub fn synced_state(snapshot: &SyncSnapshot) -> (r: SyncState)
    ensures
        r.status == SyncStatus::Synced,
        r.last_synced_at == Some(snapshot.generated_at),
        r.last_error_code is None,
        r.counters == (SyncCounters { pending_upload: 0, pending_download: 0, conflicts: 0 }),
        r.baseline_snapshot_id == Some(snapshot.snapshot_id),
{
    SyncState {
        status: SyncStatus::Synced,
        last_synced_at: Some(snapshot.generated_at),
        last_error_code: None,
        counters: SyncCounters { pending_upload: 0, pending_download: 0, conflicts: 0 },
        baseline_snapshot_id: Some(snapshot.snapshot_id),
    }
}

/// The state after a run found conflicts.
pub fn conflicts_pending_state(state: &mut SyncState, conflicts: usize)
    ensures
        final(state).status == SyncStatus::ConflictsPending,
        final(state).counters.conflicts == counter(conflicts as int),
        final(state).counters.pending_upload == old(state).counters.pending_upload,
        final(state).counters.pending_download == old(state).counters.pending_download,
        final(state).last_synced_at == old(state).last_synced_at,
        final(state).last_error_code == old(state).last_error_code,
        final(state).baseline_snapshot_id == old(state).baseline_snapshot_id,
{
    state.status = SyncStatus::ConflictsPending;
    state.counters.conflicts = wrap_count(conflicts);
}

} // verus!
