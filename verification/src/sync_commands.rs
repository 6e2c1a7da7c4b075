//! The synchronisation commands once their input is read: saving the
//! settings with their secrets, pausing and resuming, and settling a conflict.
use vstd::prelude::*;

use crate::commands::{
    is_config_for, is_decision_name, is_sync_input_error, parse_entity_kind, sync_config_from_input,
    sync_input_complete, validate_decision, SaveSyncConfigInput, SyncCommandError,
};
use crate::error::AppError;
use crate::ids::{parse_id, parsed_id};
use crate::ports::SyncRepository;
use crate::sync::SyncEntityKind;
use crate::sync_crypto::CredentialStore;
use crate::sync_service::{
    encryption_key, webdav_password_key, SyncConfig, SyncFrequency, SyncState, SyncStatus, SyncStrategy,
};

verus! {

/// Asks the synchronisation worker for a run.
pub trait SyncRequester {
    fn request_sync(&self) -> Result<(), AppError>;
}

/// A change to the stored secrets.
#[derive(Clone, Debug)]
pub enum SecretChange {
    Save { key: String, secret: String },
    Delete { key: String },
}

/// The secrets that saving the settings of `username` writes, in order: the
/// WebDAV password, then the passphrase where encryption is on, or the
/// removal of a passphrase stored before where it is off.
pub fn secret_changes(username: &str, input: &SaveSyncConfigInput) -> (r: Vec<SecretChange>)
    ensures
        r@.len() == 2,
        r@[0] matches SecretChange::Save { key, secret } && key@ == "webdav:"@ + username@ && secret@
            == input.webdav_password@,
        input.encryption_enabled ==> (r@[1] matches SecretChange::Save { key, secret } && key@
            == "encryption:"@ + username@ && secret@ == input.encryption_passphrase@),
        !input.encryption_enabled ==> (r@[1] matches SecretChange::Delete { key } && key@ == "encryption:"@
            + username@),
{
    let mut changes: Vec<SecretChange> = Vec::new();
    changes.push(SecretChange::Save { key: webdav_password_key(username), secret: input.webdav_password.clone() });
    if input.encryption_enabled {
        changes.push(
            SecretChange::Save { key: encryption_key(username), secret: input.encryption_passphrase.clone() },
        );
    } else {
        changes.push(SecretChange::Delete { key: encryption_key(username) });
    }
    changes
}

/// How a sequence of calls ended, given what each call made returned: every
/// call before the last one made succeeded; the outcome is the last call's
/// failure, or success once all `count` calls succeeded.
pub open spec fn first_failure_outcome(
    results: Seq<Result<(), AppError>>,
    count: int,
    outcome: Result<(), AppError>,
) -> bool {
    &&& results.len() <= count
    &&& forall|i: int| 0 <= i < results.len() - 1 ==> (#[trigger] results[i]) is Ok
    &&& outcome is Ok <==> (results.len() == count && forall|i: int| 0 <= i < results.len() ==> (#[trigger] results[i]) is Ok)
    &&& outcome matches Err(e) ==> results.len() > 0 && results.last() == Err::<(), AppError>(e)
}

/// Writes the changes in order and stops at the first that fails; with the
/// result comes what each call made on the credential store returned, in order.
pub fn apply_secret_changes<C: CredentialStore>(credentials: &C, changes: &Vec<SecretChange>) -> (r: (
    Result<(), AppError>,
    Ghost<Seq<Result<(), AppError>>>,
))
    ensures
        first_failure_outcome(r.1@, changes@.len() as int, r.0),
{
    let ghost mut results: Seq<Result<(), AppError>> = Seq::empty();
    let mut i: usize = 0;
    while i < changes.len()
        invariant
            i <= changes.len(),
            results.len() == i,
            forall|k: int| 0 <= k < results.len() ==> (#[trigger] results[k]) is Ok,
        decreases changes.len() - i,
    {
        let outcome = match &changes[i] {
            SecretChange::Save { key, secret } => credentials.save_secret(key.as_str(), secret.as_str()),
            SecretChange::Delete { key } => credentials.delete_secret(key.as_str()),
        };
        proof {
            results = results.push(outcome);
        }
        if let Err(error) = outcome {
            return (Err(error), Ghost(results));
        }
        i = i + 1;
    }
    (Ok(()), Ghost(results))
}

/// Saves the settings: checks them, stores the secrets and then the
/// configuration, and asks for a run; a failed request for a run does not
/// fail the save. Incomplete settings are refused before anything is stored.
pub fn save_sync_config_with<C: CredentialStore, R: SyncRepository, W: SyncRequester>(
    credentials: &C,
    repository: &R,
    worker: &W,
    input: &SaveSyncConfigInput,
    strategy: SyncStrategy,
    frequency: SyncFrequency,
) -> (r: (Result<SyncConfig, SyncCommandError>, Ghost<Seq<Result<(), AppError>>>))
    ensures
        !sync_input_complete(*input) ==> is_sync_input_error(r.0) && r.1@.len() == 0,
        sync_input_complete(*input) ==> saved_outcome(r.1@, r.0),
        r.1@.len() == 0 <==> !sync_input_complete(*input),
        r.0 matches Ok(config) ==> is_config_for(config, *input, strategy, frequency),
{
    let config = match sync_config_from_input(input, strategy, frequency) {
        Ok(config) => config,
        Err(error) => return (Err(error), Ghost(Seq::empty())),
    };
    let changes = secret_changes(config.username.as_str(), input);
    let (applied, Ghost(secret_results)) = apply_secret_changes(credentials, &changes);
    if let Err(error) = applied {
        return (Err(SyncCommandError::from_error(error)), Ghost(secret_results));
    }
    let saved = repository.save_sync_config(&config);
    let ghost results = secret_results.push(saved);
    if let Err(error) = saved {
        return (Err(SyncCommandError::from_error(error)), Ghost(results));
    }
    let _ = worker.request_sync();
    (Ok(config), Ghost(results))
}

/// How saving complete settings ended, given what each store call returned
/// (the password, the passphrase, then the configuration): every call before
/// the last one made succeeded; the settings are saved once all three
/// succeeded, and otherwise the error is the failing call's, as a command error.
pub open spec fn saved_outcome(results: Seq<Result<(), AppError>>, r: Result<SyncConfig, SyncCommandError>) -> bool {
    &&& results.len() <= 3
    &&& forall|i: int| 0 <= i < results.len() - 1 ==> (#[trigger] results[i]) is Ok
    &&& r is Ok <==> (results.len() == 3 && forall|i: int| 0 <= i < results.len() ==> (#[trigger] results[i]) is Ok)
    &&& r matches Err(e) ==> results.len() > 0 && (results.last() matches Err(a) && e.is(a.code@, a.translation_key@))
}

/// The status that pausing, or resuming, leaves: paused, or due for a retry.
pub open spec fn paused_status(paused: bool) -> SyncStatus {
    if paused {
        SyncStatus::Paused
    } else {
        SyncStatus::RetryPending
    }
}

/// The stored configuration, which pausing and resuming need.
pub fn require_sync_config(config: Option<SyncConfig>) -> (r: Result<SyncConfig, SyncCommandError>)
    ensures
        config is None ==> (r matches Err(e) && e.is(
            "sync.configuration.missing"@,
            "errors.sync.configuration.missing"@,
        )),
        config matches Some(c) ==> r == Ok::<SyncConfig, SyncCommandError>(c),
{
    match config {
        Some(config) => Ok(config),
        None => Err(SyncCommandError::configuration_missing()),
    }
}

/// The configuration with its pause flag set.
pub fn with_paused(config: SyncConfig, paused: bool) -> (r: SyncConfig)
    ensures
        r == (SyncConfig { paused, ..config }),
{
    let mut config = config;
    config.paused = paused;
    config
}

/// The state with the status that pausing, or resuming, leaves.
pub fn with_pause_status(state: SyncState, paused: bool) -> (r: SyncState)
    ensures
        r == (SyncState { status: paused_status(paused), ..state }),
{
    let mut state = state;
    state.status = if paused {
        SyncStatus::Paused
    } else {
        SyncStatus::RetryPending
    };
    state
}

/// Pauses or resumes synchronisation: stores the flag in the configuration
/// and the matching status in the state, and on resuming asks for a run.
/// Without a stored configuration it reports that none is configured.
pub fn update_paused_state<R: SyncRepository, W: SyncRequester>(repository: &R, worker: &W, paused: bool) -> (r:
    Result<SyncState, SyncCommandError>)
    ensures
        r matches Ok(state) ==> state.status == paused_status(paused),
{
    let stored = match repository.get_sync_config() {
        Ok(stored) => stored,
        Err(error) => return Err(SyncCommandError::from_error(error)),
    };
    let config = match require_sync_config(stored) {
        Ok(config) => with_paused(config, paused),
        Err(error) => return Err(error),
    };
    if let Err(error) = repository.save_sync_config(&config) {
        return Err(SyncCommandError::from_error(error));
    }
    let state = match repository.get_sync_state() {
        Ok(state) => with_pause_status(state, paused),
        Err(error) => return Err(SyncCommandError::from_error(error)),
    };
    if let Err(error) = repository.save_sync_state(&state) {
        return Err(SyncCommandError::from_error(error));
    }
    if !paused {
        let _ = worker.request_sync();
    }
    Ok(state)
}

/// What settling a conflict is given.
#[derive(Clone, Debug)]
pub struct ResolveSyncConflictInput {
    pub entity_id: String,
    pub entity_kind: String,
    pub field_name: String,
    pub decision: String,
}

/// The kind of entity that the interface names.
pub open spec fn entity_kind_named(name: Seq<char>) -> Option<SyncEntityKind> {
    if name == "task"@ {
        Some(SyncEntityKind::Task)
    } else if name == "project"@ {
        Some(SyncEntityKind::Project)
    } else if name == "tag"@ {
        Some(SyncEntityKind::Tag)
    } else {
        None
    }
}

/// The input names an entity by a valid id and kind, and a decision the
/// interface offers.
pub open spec fn is_valid_resolution(input: ResolveSyncConflictInput) -> bool {
    &&& parsed_id(input.entity_id@) is Some
    &&& entity_kind_named(input.entity_kind@) is Some
    &&& is_decision_name(input.decision@)
}

/// The entity that a conflict decision is about, once the input is checked.
pub fn conflict_target(input: &ResolveSyncConflictInput) -> (r: Result<(u128, SyncEntityKind), SyncCommandError>)
    ensures
        r is Ok <==> is_valid_resolution(*input),
        r is Err ==> is_sync_input_error(r),
        r matches Ok((id, kind)) ==> parsed_id(input.entity_id@) == Some(id) && entity_kind_named(
            input.entity_kind@,
        ) == Some(kind),
{
    proof {
        reveal_strlit("task");
        reveal_strlit("project");
        reveal_strlit("tag");
    }
    let id = match parse_id(input.entity_id.as_str()) {
        Some(id) => id,
        None => return Err(SyncCommandError::invalid_input()),
    };
    let kind = match parse_entity_kind(input.entity_kind.as_str()) {
        Ok(kind) => kind,
        Err(error) => return Err(error),
    };
    match validate_decision(input.decision.as_str()) {
        Ok(()) => Ok((id, kind)),
        Err(error) => Err(error),
    }
}

/// Settles a conflict as decided; an input naming no valid entity or
/// decision is refused before anything is stored.
pub fn resolve_sync_conflict_with<R: SyncRepository>(repository: &R, input: &ResolveSyncConflictInput) -> (r: Result<
    (),
    SyncCommandError,
>)
    ensures
        !is_valid_resolution(*input) ==> is_sync_input_error(r),
{
    let (id, kind) = match conflict_target(input) {
        Ok(target) => target,
        Err(error) => return Err(error),
    };
    match repository.resolve_sync_conflict(id, kind, input.field_name.as_str(), input.decision.as_str()) {
        Ok(()) => Ok(()),
        Err(error) => Err(SyncCommandError::from_error(error)),
    }
}

} // verus!
