//! Reminders: claiming due reminders, notifying, and releasing claims that
//! could not be delivered.
use vstd::prelude::*;

use crate::calendar::{days_in_month, CivilDate, UtcDateTime, MIN_YEAR};
use crate::error::AppError;
use crate::ids::new_id;
use crate::ports::TaskRepository;
use crate::task::Task;
use crate::task_service::{ReminderStoreCall, TaskService};

verus! {

/// How long a claim on a reminder lasts, in seconds.
pub const REMINDER_CLAIM_LEASE_SECONDS: u32 = 120;

/// Shows the reminder of a task.
pub trait ReminderNotifier {
    fn notify(&self, task: &Task) -> Result<(), AppError>;
}

/// A claim whose release failed, to be released on the next run.
#[derive(Clone, Copy, Debug, PartialEq, Eq, Structural)]
pub struct PendingReleaseClaim {
    pub task_id: u128,
    pub scheduled_at: UtcDateTime,
    pub claim_token: u128,
}

/// The day before a day.
pub open spec fn day_before(d: (int, int, int)) -> (int, int, int) {
    if d.2 > 1 {
        (d.0, d.1, d.2 - 1)
    } else if d.1 > 1 {
        (d.0, d.1 - 1, days_in_month(d.0, d.1 - 1))
    } else {
        (d.0 - 1, 12, 31)
    }
}

/// Seconds since the start of the calendar's first day, to the second.
pub open spec fn seconds_before(t: UtcDateTime, seconds: int) -> (int, int, int, int) {
    if t.second_of_day >= seconds {
        (t.date.year as int, t.date.month as int, t.date.day as int, t.second_of_day - seconds)
    } else {
        let d = day_before(t.date@);
        (d.0, d.1, d.2, t.second_of_day + 86400 - seconds)
    }
}

/// The lease before `now` can be taken back: `now` is not within its length
/// of the calendar's first instant.
pub open spec fn lease_fits(now: UtcDateTime) -> bool {
    !(now.date.year == MIN_YEAR && now.date.month == 1 && now.date.day == 1 && now.second_of_day
        < REMINDER_CLAIM_LEASE_SECONDS)
}

/// `expired_before` is the instant one claim lease before `now`.
pub open spec fn lease_expiry_of(now: UtcDateTime, expired_before: UtcDateTime) -> bool {
    &&& expired_before.wf()
    &&& (expired_before.date.year as int, expired_before.date.month as int, expired_before.date.day as int,
        expired_before.second_of_day as int) == seconds_before(now, REMINDER_CLAIM_LEASE_SECONDS as int)
    &&& expired_before.nanosecond == now.nanosecond
}

/// The instant one claim lease before `now`: claims taken before it have expired.
pub fn lease_expiry(now: UtcDateTime) -> (r: UtcDateTime)
    requires
        now.wf(),
        lease_fits(now),
    ensures
        r.wf(),
        (r.date.year as int, r.date.month as int, r.date.day as int, r.second_of_day as int) == seconds_before(
            now,
            REMINDER_CLAIM_LEASE_SECONDS as int,
        ),
        r.nanosecond == now.nanosecond,
        lease_expiry_of(now, r),
{
    if now.second_of_day >= REMINDER_CLAIM_LEASE_SECONDS {
        return UtcDateTime {
            date: now.date,
            second_of_day: now.second_of_day - REMINDER_CLAIM_LEASE_SECONDS,
            nanosecond: now.nanosecond,
        };
    }
    let d = now.date;
    let date = if d.day > 1 {
        CivilDate { year: d.year, month: d.month, day: d.day - 1 }
    } else if d.month > 1 {
        CivilDate { year: d.year, month: d.month - 1, day: crate::recurrence::last_day_of_month(d.year, d.month - 1) }
    } else {
        CivilDate { year: d.year - 1, month: 12, day: 31 }
    };
    UtcDateTime {
        date,
        second_of_day: now.second_of_day + 86400 - REMINDER_CLAIM_LEASE_SECONDS,
        nanosecond: now.nanosecond,
    }
}

/// Claims due reminders, notifies them and marks them delivered; a claim
/// whose notification failed is released, and one whose release failed is
/// kept to be released on the next run.
pub struct ReminderScheduler<R, N> {
    pub task_service: TaskService<R>,
    pub notifier: N,
    pub pending_release_claims: Vec<PendingReleaseClaim>,
    /// The steps of the last run.
    pub last_run: Ghost<ReminderTrace>,
}

impl<R: TaskRepository, N: ReminderNotifier> ReminderScheduler<R, N> {
    /// Each pending claim is kept once.
    pub open spec fn wf(&self) -> bool {
        self.pending_release_claims@.no_duplicates()
    }

    pub fn new(task_service: TaskService<R>, notifier: N) -> (r: Self)
        ensures
            r.wf(),
            r.task_service == task_service,
            r.notifier == notifier,
            r.pending_release_claims@.len() == 0,
    {
        ReminderScheduler {
            task_service,
            notifier,
            pending_release_claims: Vec::new(),
            last_run: Ghost(ReminderTrace { states: Seq::empty(), actions: Seq::empty(), events: Seq::empty(), tokens: Seq::empty() }),
        }
    }

    /// The pending claims, which the scheduler no longer keeps.
    pub fn take_pending_release_claims(&mut self) -> (r: Vec<PendingReleaseClaim>)
        ensures
            r@ == old(self).pending_release_claims@,
            final(self).pending_release_claims@.len() == 0,
            final(self).task_service == old(self).task_service,
            final(self).notifier == old(self).notifier,
            final(self).last_run == old(self).last_run,
    {
        let mut taken: Vec<PendingReleaseClaim> = Vec::new();
        std::mem::swap(&mut taken, &mut self.pending_release_claims);
        taken
    }

    /// Keeps a claim to be released later, unless it is already kept.
    pub fn record_pending_release_claim(&mut self, claim: PendingReleaseClaim)
        requires
            old(self).wf(),
        ensures
            final(self).wf(),
            final(self).pending_release_claims@ == if old(self).pending_release_claims@.contains(claim) {
                old(self).pending_release_claims@
            } else {
                old(self).pending_release_claims@.push(claim)
            },
            final(self).task_service == old(self).task_service,
            final(self).notifier == old(self).notifier,
    {
        let n = self.pending_release_claims.len();
        let mut i: usize = 0;
        while i < n
            invariant
                *self == *old(self),
                old(self).wf(),
                n == self.pending_release_claims@.len(),
                i <= n,
                forall|k: int| 0 <= k < i ==> self.pending_release_claims@[k] != claim,
            decreases n - i,
        {
            if self.pending_release_claims[i] == claim {
                proof {
                    assert(self.pending_release_claims@[i as int] == claim);
                }
                return;
            }
            i = i + 1;
        }
        let ghost before = self.pending_release_claims@;
        self.pending_release_claims.push(claim);
        proof {
            assert forall|a: int, b: int| 0 <= a < b < self.pending_release_claims@.len() implies
                self.pending_release_claims@[a] != self.pending_release_claims@[b] by {
                if b < before.len() {
                    assert(before.no_duplicates());
                }
            }
        }
    }

    /// One run at `now`: due reminders are claimed, shown and marked
    /// delivered, failed claims are released, and the claims kept from
    /// earlier runs are released; the first error is returned after all of
    /// this was tried. The run goes step by step as `reminder_next` says:
    /// the store is handed exactly the calls of the run's actions, the result
    /// is the run's last action, and the claims kept for the next run are
    /// the run's kept claims.
    pub fn run_once(&mut self, now: UtcDateTime) -> (r: Result<(), AppError>)
        requires
            old(self).wf(),
            now.wf(),
            lease_fits(now),
        ensures
            final(self).wf(),
            r is Ok ==> final(self).pending_release_claims@.len() == 0,
            final(self).task_service.repository == old(self).task_service.repository,
            final(self).notifier == old(self).notifier,
            lease_expiry_of(now, final(self).last_run@.states[0].expired_before),
            is_run_trace(
                final(self).last_run@,
                now,
                final(self).last_run@.states[0].expired_before,
                old(self).pending_release_claims@,
            ),
            final(self).last_run@.actions.last() == ReminderAction::Finish(r),
            final(self).pending_release_claims@ == final(self).last_run@.states.last().kept,
            final(self).task_service.reminder_calls@ == old(self).task_service.reminder_calls@ + store_calls(
                final(self).last_run@.actions,
            ),
    {
        let ghost calls_before = self.task_service.reminder_calls@;
        let ghost pending_before = self.pending_release_claims@;
        let pending = self.take_pending_release_claims();
        let expired_before = lease_expiry(now);
        let (mut run, mut action) = ReminderRun::start(now, expired_before, pending);
        let ghost mut states: Seq<ReminderRunView> = seq![run@];
        let ghost mut actions: Seq<ReminderAction> = seq![action];
        let ghost mut events: Seq<ReminderEvent> = Seq::empty();
        let ghost mut tokens: Seq<u128> = Seq::empty();
        loop
            invariant
                run@.wf(),
                action_fits(run@, action),
                self.task_service.repository == old(self).task_service.repository,
                self.notifier == old(self).notifier,
                is_run_trace(ReminderTrace { states, actions, events, tokens }, now, expired_before, pending_before),
                lease_expiry_of(now, expired_before),
                pending_before == old(self).pending_release_claims@,
                calls_before == old(self).task_service.reminder_calls@,
                states.last() == run@,
                actions.last() == action,
                self.task_service.reminder_calls@ == calls_before + store_calls(actions.drop_last()),
            decreases
                (if run@.phase == ReminderPhase::Listing { 1int } else { 0int }),
                run@.work(),
        {
            let event = match action {
                ReminderAction::ListCandidates { now, expired_before } => ReminderEvent::Listed(
                    self.task_service.list_due_reminder_candidates(now, expired_before),
                ),
                ReminderAction::Claim { claim, claimed_at, expired_before } => ReminderEvent::Claimed(
                    self.task_service.claim_reminder(
                        claim.task_id,
                        claim.scheduled_at,
                        claimed_at,
                        expired_before,
                        claim.claim_token,
                    ),
                ),
                ReminderAction::Notify(i) => ReminderEvent::Notified(self.notifier.notify(&run.candidates[i])),
                ReminderAction::MarkDelivered { claim, delivered_at } => ReminderEvent::Delivered(
                    self.task_service.mark_reminder_delivered(
                        claim.task_id,
                        claim.scheduled_at,
                        delivered_at,
                        claim.claim_token,
                    ),
                ),
                ReminderAction::Release(claim) => ReminderEvent::Released(
                    self.task_service.release_reminder_claim(claim.task_id, claim.scheduled_at, claim.claim_token),
                ),
                ReminderAction::Finish(result) => {
                    self.pending_release_claims = run.take_kept();
                    proof {
                        assert(actions =~= actions.drop_last().push(action));
                        assert(store_call_of(action) =~= Seq::<ReminderStoreCall>::empty());
                        assert(store_calls(actions) =~= store_calls(actions.drop_last()));
                        self.last_run@ = ReminderTrace { states, actions, events, tokens };
                    }
                    return result;
                },
            };
            proof {
                assert(actions =~= actions.drop_last().push(action));
                assert(self.task_service.reminder_calls@ =~= calls_before + store_calls(actions));
            }
            let token = new_id();
            let ghost received = event;
            let ghost before = run@;
            assert(answers(before.phase, received));
            action = run.next(event, token);
            proof {
                let old_states = states;
                let old_actions = actions;
                states = states.push(run@);
                actions = actions.push(action);
                events = events.push(received);
                tokens = tokens.push(token);
                assert(actions.drop_last() =~= old_actions);
                assert forall|i: int| 0 <= i < events.len() implies (#[trigger] states[i + 1], actions[i + 1])
                    == reminder_next(states[i], events[i], tokens[i]) by {
                    if i < events.len() - 1 {
                        assert(states[i + 1] == old_states[i + 1]);
                        assert(actions[i + 1] == old_actions[i + 1]);
                    }
                }
                assert forall|i: int| 0 <= i < events.len() implies answers(states[i].phase, #[trigger] events[i]) by {
                    if i < events.len() - 1 {
                        assert(states[i] == old_states[i]);
                    }
                }
            }
        }
    }
}

/// The steps of a run: its states, the action taken in each, the events that
/// answered them and the fresh token of each step.
pub struct ReminderTrace {
    pub states: Seq<ReminderRunView>,
    pub actions: Seq<ReminderAction>,
    pub events: Seq<ReminderEvent>,
    pub tokens: Seq<u128>,
}

/// The state of a run at `now` that releases the `pending` claims after the
/// due reminders, before it lists them.
pub open spec fn start_view(now: UtcDateTime, expired_before: UtcDateTime, pending: Seq<PendingReleaseClaim>) -> ReminderRunView {
    ReminderRunView {
        phase: ReminderPhase::Listing,
        now,
        expired_before,
        candidates: Seq::empty(),
        index: 0,
        pending,
        pending_index: 0,
        current: None,
        kept: Seq::empty(),
        first_error: None,
    }
}

/// The trace is a run at `now` from its start: it first lists the due
/// reminders, and each later action is the one `reminder_next` gives for the
/// event that answered the one before.
pub open spec fn is_run_trace(
    t: ReminderTrace,
    now: UtcDateTime,
    expired_before: UtcDateTime,
    pending: Seq<PendingReleaseClaim>,
) -> bool {
    &&& t.states.len() == t.events.len() + 1
    &&& t.actions.len() == t.events.len() + 1
    &&& t.tokens.len() == t.events.len()
    &&& t.states[0] == start_view(now, expired_before, pending)
    &&& t.actions[0] == (ReminderAction::ListCandidates { now, expired_before })
    &&& forall|i: int| 0 <= i < t.events.len() ==> (#[trigger] t.states[i + 1], t.actions[i + 1]) == reminder_next(
        t.states[i],
        t.events[i],
        t.tokens[i],
    )
    &&& forall|i: int| 0 <= i < t.events.len() ==> answers(t.states[i].phase, #[trigger] t.events[i])
}

proof fn lemma_next_pending(v: ReminderRunView, event: ReminderEvent, token: u128)
    requires
        v.wf(),
        answers(v.phase, event),
    ensures
        ({
            let (w, a) = reminder_next(v, event, token);
            &&& w.pending == v.pending
            &&& (w.pending_index == v.pending_index || (w.pending_index == v.pending_index + 1
                && a == ReminderAction::Release(v.pending[v.pending_index])))
            &&& a is Finish ==> w.pending_index == v.pending.len()
        }),
{
    lemma_next(v, event, token);
}

proof fn lemma_trace_releases(
    t: ReminderTrace,
    now: UtcDateTime,
    expired_before: UtcDateTime,
    pending: Seq<PendingReleaseClaim>,
    i: int,
)
    requires
        is_run_trace(t, now, expired_before, pending),
        0 <= i < t.states.len(),
    ensures
        t.states[i].wf(),
        t.states[i].pending == pending,
        forall|k: int| 0 <= k < t.states[i].pending_index ==> exists|j: int|
            0 <= j <= i && t.actions[j] == ReminderAction::Release(#[trigger] pending[k]),
    decreases i,
{
    if i > 0 {
        lemma_trace_releases(t, now, expired_before, pending, i - 1);
        let m = i - 1;
        let v = t.states[m];
        assert((t.states[m + 1], t.actions[m + 1]) == reminder_next(v, t.events[m], t.tokens[m]));
        assert(answers(v.phase, t.events[i - 1]));
        lemma_next(v, t.events[i - 1], t.tokens[i - 1]);
        lemma_next_pending(v, t.events[i - 1], t.tokens[i - 1]);
        assert forall|k: int| 0 <= k < t.states[i].pending_index implies exists|j: int|
            0 <= j <= i && t.actions[j] == ReminderAction::Release(#[trigger] pending[k]) by {
            if k < v.pending_index {
                let j = choose|j: int| 0 <= j <= i - 1 && t.actions[j] == ReminderAction::Release(pending[k]);
                assert(0 <= j <= i && t.actions[j] == ReminderAction::Release(pending[k]));
            } else {
                assert(t.actions[i] == ReminderAction::Release(pending[k]));
            }
        }
    }
}

/// A run that ends has released every claim kept from the run before it,
/// each with its own token: what one run keeps after a failed release, the
/// next run releases again.
pub proof fn lemma_finished_run_releases_every_kept_claim(
    t: ReminderTrace,
    now: UtcDateTime,
    expired_before: UtcDateTime,
    pending: Seq<PendingReleaseClaim>,
)
    requires
        is_run_trace(t, now, expired_before, pending),
        t.actions.last() is Finish,
    ensures
        forall|k: int| 0 <= k < pending.len() ==> exists|j: int|
            0 <= j < t.actions.len() && t.actions[j] == ReminderAction::Release(#[trigger] pending[k]),
{
    let n = t.events.len();
    assert(n > 0);
    lemma_trace_releases(t, now, expired_before, pending, n - 1);
    lemma_trace_releases(t, now, expired_before, pending, n as int);
    let m = n - 1;
    let v = t.states[m];
    assert((t.states[m + 1], t.actions[m + 1]) == reminder_next(v, t.events[m], t.tokens[m]));
    assert(answers(v.phase, t.events[n - 1]));
    lemma_next_pending(v, t.events[n - 1], t.tokens[n - 1]);
}

/// The store call that an action asks for, if it asks for one.
pub open spec fn store_call_of(action: ReminderAction) -> Seq<ReminderStoreCall> {
    match action {
        ReminderAction::ListCandidates { now, expired_before } => seq![ReminderStoreCall::ListDue { now, expired_before }],
        ReminderAction::Claim { claim, claimed_at, expired_before } => seq![
            ReminderStoreCall::Claim {
                task_id: claim.task_id,
                scheduled_at: claim.scheduled_at,
                claimed_at,
                expired_before,
                claim_token: claim.claim_token,
            },
        ],
        ReminderAction::MarkDelivered { claim, delivered_at } => seq![
            ReminderStoreCall::MarkDelivered {
                task_id: claim.task_id,
                scheduled_at: claim.scheduled_at,
                delivered_at,
                claim_token: claim.claim_token,
            },
        ],
        ReminderAction::Release(claim) => seq![
            ReminderStoreCall::Release { task_id: claim.task_id, scheduled_at: claim.scheduled_at, claim_token: claim.claim_token },
        ],
        _ => Seq::empty(),
    }
}

/// The store calls that a sequence of actions asks for, in order.
pub open spec fn store_calls(actions: Seq<ReminderAction>) -> Seq<ReminderStoreCall>
    decreases actions.len(),
{
    if actions.len() == 0 {
        Seq::empty()
    } else {
        store_calls(actions.drop_last()) + store_call_of(actions.last())
    }
}

/// Where a run of the scheduler stands.
#[derive(Clone, Copy, Debug, PartialEq, Eq, Structural)]
pub enum ReminderPhase {
    /// The due reminders are being listed.
    Listing,
    /// The current candidate is being claimed.
    Claiming,
    /// The claimed reminder is being shown.
    Notifying,
    /// The shown reminder is being marked delivered.
    Delivering,
    /// The claim of a reminder that could not be shown is being released.
    ReleasingFailed,
    /// A claim kept from an earlier run is being released.
    ReleasingKept,
    Finished,
}

/// How the work that a run asked for went.
#[derive(Debug)]
pub enum ReminderEvent {
    Listed(Result<Vec<Task>, AppError>),
    Claimed(Result<bool, AppError>),
    Notified(Result<(), AppError>),
    Delivered(Result<bool, AppError>),
    Released(Result<bool, AppError>),
}

/// The work that a run asks for next.
#[derive(Clone, Copy, Debug)]
pub enum ReminderAction {
    /// List the due reminders at `now` whose claim, if any, was taken before `expired_before`.
    ListCandidates { now: UtcDateTime, expired_before: UtcDateTime },
    /// Claim the reminder with the claim's token.
    Claim { claim: PendingReleaseClaim, claimed_at: UtcDateTime, expired_before: UtcDateTime },
    /// Show the reminder of the candidate at this index.
    Notify(usize),
    /// Mark the claimed reminder delivered.
    MarkDelivered { claim: PendingReleaseClaim, delivered_at: UtcDateTime },
    /// Release the claim.
    Release(PendingReleaseClaim),
    /// The run is over with this result.
    Finish(Result<(), AppError>),
}

/// A run of the scheduler, as a value: its phase, the candidates listed and
/// the next one, the kept claims to release and the next one, the claim in
/// hand, the claims to keep for the next run, and the first error.
pub struct ReminderRunView {
    pub phase: ReminderPhase,
    pub now: UtcDateTime,
    pub expired_before: UtcDateTime,
    pub candidates: Seq<Task>,
    pub index: int,
    pub pending: Seq<PendingReleaseClaim>,
    pub pending_index: int,
    pub current: Option<PendingReleaseClaim>,
    pub kept: Seq<PendingReleaseClaim>,
    pub first_error: Option<AppError>,
}

/// The first error of a run, once `error` has happened.
pub open spec fn first_of(first: Option<AppError>, error: AppError) -> Option<AppError> {
    match first {
        Some(e) => Some(e),
        None => Some(error),
    }
}

/// The claims to keep, with `claim` kept once.
pub open spec fn keeping(kept: Seq<PendingReleaseClaim>, claim: PendingReleaseClaim) -> Seq<PendingReleaseClaim> {
    if kept.contains(claim) {
        kept
    } else {
        kept.push(claim)
    }
}

/// The first candidate at or after `i` that has a schedule, or the number of candidates.
pub open spec fn first_scheduled(candidates: Seq<Task>, i: int) -> int
    decreases candidates.len() - i,
{
    if i >= candidates.len() {
        candidates.len() as int
    } else if candidates[i].scheduled_at is Some {
        i
    } else {
        first_scheduled(candidates, i + 1)
    }
}

/// The claim of a candidate with a token.
pub open spec fn claim_of(task: Task, token: u128) -> PendingReleaseClaim {
    PendingReleaseClaim { task_id: task.id, scheduled_at: task.scheduled_at->Some_0, claim_token: token }
}

impl ReminderRunView {
    pub open spec fn wf(self) -> bool {
        &&& 0 <= self.index <= self.candidates.len()
        &&& 0 <= self.pending_index <= self.pending.len()
        &&& self.kept.no_duplicates()
        &&& self.first_error is None ==> self.kept.len() == 0
        &&& (self.phase == ReminderPhase::Claiming || self.phase == ReminderPhase::Notifying || self.phase
            == ReminderPhase::Delivering || self.phase == ReminderPhase::ReleasingFailed) ==> self.index >= 1
            && self.current is Some
        &&& self.phase == ReminderPhase::ReleasingKept ==> self.current is Some
    }

    /// The work left: each candidate still to try and each kept claim still
    /// to release counts, and so does the step in hand.
    pub open spec fn work(self) -> int {
        let cand = 4 * (self.candidates.len() - self.index);
        let rest = 2 * (self.pending.len() - self.pending_index) + 1;
        match self.phase {
            ReminderPhase::Listing => 0,
            ReminderPhase::Finished => 0,
            ReminderPhase::ReleasingKept => rest,
            ReminderPhase::Claiming => 3 + cand + rest,
            ReminderPhase::Notifying => 2 + cand + rest,
            ReminderPhase::Delivering => 1 + cand + rest,
            ReminderPhase::ReleasingFailed => 1 + cand + rest,
        }
    }
}

/// Once the candidates are done: the next kept claim is released, or the run
/// ends with its first error.
pub open spec fn release_next(v: ReminderRunView) -> (ReminderRunView, ReminderAction) {
    if v.pending_index < v.pending.len() {
        let c = v.pending[v.pending_index];
        (
            ReminderRunView { phase: ReminderPhase::ReleasingKept, pending_index: v.pending_index + 1, current: Some(c), ..v },
            ReminderAction::Release(c),
        )
    } else {
        (
            ReminderRunView { phase: ReminderPhase::Finished, current: None, ..v },
            ReminderAction::Finish(
                match v.first_error {
                    Some(e) => Err(e),
                    None => Ok(()),
                },
            ),
        )
    }
}

/// The next candidate with a schedule is claimed with the fresh token, or,
/// where none is left, the kept claims are released.
pub open spec fn advance(v: ReminderRunView, token: u128) -> (ReminderRunView, ReminderAction) {
    let j = first_scheduled(v.candidates, v.index);
    if j < v.candidates.len() {
        let c = claim_of(v.candidates[j], token);
        (
            ReminderRunView { phase: ReminderPhase::Claiming, index: j + 1, current: Some(c), ..v },
            ReminderAction::Claim { claim: c, claimed_at: v.now, expired_before: v.expired_before },
        )
    } else {
        release_next(ReminderRunView { index: v.candidates.len() as int, ..v })
    }
}

/// The step of a run once the work it asked for went as `event` says:
/// - listed candidates are tried in order; a failed listing goes on to the kept claims;
/// - a claim taken is shown; a claim not taken moves on; a failed claim stops the
///   candidates and goes on to the kept claims;
/// - a reminder shown is marked delivered with the token that claimed it; one that
///   could not be shown has its claim released with that token;
/// - a claim whose release failed is kept, once, for the next run;
/// - every error is remembered only if it is the first; the run ends with it.
pub open spec fn reminder_next(v: ReminderRunView, event: ReminderEvent, token: u128) -> (ReminderRunView, ReminderAction) {
    match (v.phase, event) {
        (ReminderPhase::Listing, ReminderEvent::Listed(Ok(tasks))) => advance(
            ReminderRunView { candidates: tasks@, index: 0, ..v },
            token,
        ),
        (ReminderPhase::Listing, ReminderEvent::Listed(Err(e))) => release_next(
            ReminderRunView { first_error: first_of(v.first_error, e), ..v },
        ),
        (ReminderPhase::Claiming, ReminderEvent::Claimed(Ok(true))) => (
            ReminderRunView { phase: ReminderPhase::Notifying, ..v },
            ReminderAction::Notify((v.index - 1) as usize),
        ),
        (ReminderPhase::Claiming, ReminderEvent::Claimed(Ok(false))) => advance(v, token),
        (ReminderPhase::Claiming, ReminderEvent::Claimed(Err(e))) => release_next(
            ReminderRunView { first_error: first_of(v.first_error, e), ..v },
        ),
        (ReminderPhase::Notifying, ReminderEvent::Notified(Ok(()))) => (
            ReminderRunView { phase: ReminderPhase::Delivering, ..v },
            ReminderAction::MarkDelivered { claim: v.current->Some_0, delivered_at: v.now },
        ),
        (ReminderPhase::Notifying, ReminderEvent::Notified(Err(e))) => (
            ReminderRunView { phase: ReminderPhase::ReleasingFailed, first_error: first_of(v.first_error, e), ..v },
            ReminderAction::Release(v.current->Some_0),
        ),
        (ReminderPhase::Delivering, ReminderEvent::Delivered(Ok(_))) => advance(v, token),
        (ReminderPhase::Delivering, ReminderEvent::Delivered(Err(e))) => advance(
            ReminderRunView { first_error: first_of(v.first_error, e), ..v },
            token,
        ),
        (ReminderPhase::ReleasingFailed, ReminderEvent::Released(Ok(_))) => advance(v, token),
        (ReminderPhase::ReleasingFailed, ReminderEvent::Released(Err(e))) => advance(
            ReminderRunView {
                first_error: first_of(v.first_error, e),
                kept: keeping(v.kept, v.current->Some_0),
                ..v
            },
            token,
        ),
        (ReminderPhase::ReleasingKept, ReminderEvent::Released(Ok(_))) => release_next(v),
        (ReminderPhase::ReleasingKept, ReminderEvent::Released(Err(e))) => release_next(
            ReminderRunView {
                first_error: first_of(v.first_error, e),
                kept: keeping(v.kept, v.current->Some_0),
                ..v
            },
        ),
        _ => (v, ReminderAction::Finish(Ok(()))),
    }
}

proof fn lemma_first_scheduled(candidates: Seq<Task>, i: int)
    requires
        0 <= i <= candidates.len(),
    ensures
        i <= first_scheduled(candidates, i) <= candidates.len(),
        first_scheduled(candidates, i) < candidates.len() ==> candidates[first_scheduled(candidates, i)].scheduled_at is Some,
    decreases candidates.len() - i,
{
    if i < candidates.len() && candidates[i].scheduled_at is None {
        lemma_first_scheduled(candidates, i + 1);
    }
}

proof fn lemma_keeping(kept: Seq<PendingReleaseClaim>, claim: PendingReleaseClaim)
    requires
        kept.no_duplicates(),
    ensures
        keeping(kept, claim).no_duplicates(),
{
    if !kept.contains(claim) {
        let k = kept.push(claim);
        assert forall|a: int, b: int| 0 <= a < b < k.len() implies k[a] != k[b] by {
            if b == kept.len() {
                assert(kept[a] == k[a]);
            }
        }
    }
}

/// A run's well-formed state, without the claim in hand.
pub open spec fn counts_fit(v: ReminderRunView) -> bool {
    &&& 0 <= v.index <= v.candidates.len()
    &&& 0 <= v.pending_index <= v.pending.len()
    &&& v.kept.no_duplicates()
    &&& v.first_error is None ==> v.kept.len() == 0
}

proof fn lemma_release_next(v: ReminderRunView)
    requires
        counts_fit(v),
    ensures
        release_next(v).0.wf(),
        release_next(v).0.phase != ReminderPhase::Listing,
        action_fits(release_next(v).0, release_next(v).1),
        release_next(v).0.work() < 2 * (v.pending.len() - v.pending_index) + 1,
        release_next(v).0.candidates == v.candidates,
{
}

proof fn lemma_advance(v: ReminderRunView, token: u128)
    requires
        counts_fit(v),
    ensures
        advance(v, token).0.wf(),
        advance(v, token).0.phase != ReminderPhase::Listing,
        action_fits(advance(v, token).0, advance(v, token).1),
        advance(v, token).0.work() < 4 * (v.candidates.len() - v.index) + 2 * (v.pending.len() - v.pending_index) + 1,
{
    lemma_first_scheduled(v.candidates, v.index);
    let j = first_scheduled(v.candidates, v.index);
    if j >= v.candidates.len() {
        lemma_release_next(ReminderRunView { index: v.candidates.len() as int, ..v });
    }
}

proof fn lemma_next(v: ReminderRunView, event: ReminderEvent, token: u128)
    requires
        v.wf(),
        answers(v.phase, event),
    ensures
        reminder_next(v, event, token).0.wf(),
        action_fits(reminder_next(v, event, token).0, reminder_next(v, event, token).1),
        reminder_next(v, event, token).0.phase != ReminderPhase::Listing,
        v.phase != ReminderPhase::Listing ==> reminder_next(v, event, token).0.work() < v.work(),
{
    match (v.phase, event) {
        (ReminderPhase::Listing, ReminderEvent::Listed(Ok(tasks))) => {
            lemma_advance(ReminderRunView { candidates: tasks@, index: 0, ..v }, token);
        },
        (ReminderPhase::Listing, ReminderEvent::Listed(Err(e))) => {
            lemma_release_next(ReminderRunView { first_error: first_of(v.first_error, e), ..v });
        },
        (ReminderPhase::Claiming, ReminderEvent::Claimed(Ok(false))) => {
            lemma_advance(v, token);
        },
        (ReminderPhase::Claiming, ReminderEvent::Claimed(Err(e))) => {
            lemma_release_next(ReminderRunView { first_error: first_of(v.first_error, e), ..v });
        },
        (ReminderPhase::Delivering, ReminderEvent::Delivered(Ok(_))) => {
            lemma_advance(v, token);
        },
        (ReminderPhase::Delivering, ReminderEvent::Delivered(Err(e))) => {
            lemma_advance(ReminderRunView { first_error: first_of(v.first_error, e), ..v }, token);
        },
        (ReminderPhase::ReleasingFailed, ReminderEvent::Released(Ok(_))) => {
            lemma_advance(v, token);
        },
        (ReminderPhase::ReleasingFailed, ReminderEvent::Released(Err(e))) => {
            lemma_keeping(v.kept, v.current->Some_0);
            lemma_advance(
                ReminderRunView {
                    first_error: first_of(v.first_error, e),
                    kept: keeping(v.kept, v.current->Some_0),
                    ..v
                },
                token,
            );
        },
        (ReminderPhase::ReleasingKept, ReminderEvent::Released(Ok(_))) => {
            lemma_release_next(v);
        },
        (ReminderPhase::ReleasingKept, ReminderEvent::Released(Err(e))) => {
            lemma_keeping(v.kept, v.current->Some_0);
            lemma_release_next(
                ReminderRunView {
                    first_error: first_of(v.first_error, e),
                    kept: keeping(v.kept, v.current->Some_0),
                    ..v
                },
            );
        },
        _ => {},
    }
}

/// A reminder is marked delivered only right after it was shown, with the
/// claim the run took for it; a claim is released only right after its
/// reminder could not be shown, with the claim's own token, or when it was
/// kept from an earlier run.
pub proof fn lemma_delivery_and_release_follow_the_claim(v: ReminderRunView, event: ReminderEvent, token: u128)
    requires
        v.wf(),
        answers(v.phase, event),
    ensures
        reminder_next(v, event, token).1 matches ReminderAction::MarkDelivered { claim, delivered_at } ==> v.phase
            == ReminderPhase::Notifying && (event matches ReminderEvent::Notified(n) && n is Ok) && claim == v.current->Some_0
            && delivered_at == v.now,
        reminder_next(v, event, token).1 matches ReminderAction::Release(c) ==> (v.phase == ReminderPhase::Notifying
            && event is Notified && c == v.current->Some_0) || exists|k: int| 0 <= k < v.pending.len() && c == v.pending[k],
{
}

/// Every claim a step takes is for a listed candidate that has a schedule,
/// under the candidate's identifier and schedule, with the fresh token, at
/// the run's instant and lease expiry; a reminder is shown only right after
/// its claim was taken, never after a claim that was refused; the first
/// error of a run stays its first, and the run ends with it.
pub proof fn lemma_claims_and_errors_of_a_step(v: ReminderRunView, event: ReminderEvent, token: u128)
    requires
        v.wf(),
        answers(v.phase, event),
    ensures
        ({
            let (w, a) = reminder_next(v, event, token);
            &&& a matches ReminderAction::Claim { claim, claimed_at, expired_before } ==> exists|j: int|
                0 <= j < w.candidates.len() && w.index == j + 1 && (#[trigger] w.candidates[j]).scheduled_at is Some
                    && claim == (PendingReleaseClaim {
                    task_id: w.candidates[j].id,
                    scheduled_at: w.candidates[j].scheduled_at->Some_0,
                    claim_token: token,
                }) && claimed_at == v.now && expired_before == v.expired_before
            &&& a is Notify ==> v.phase == ReminderPhase::Claiming && event == ReminderEvent::Claimed(Ok(true))
            &&& event == ReminderEvent::Claimed(Ok(false)) ==> !(a is Notify) && !(a is MarkDelivered)
            &&& v.first_error is Some ==> w.first_error == v.first_error
            &&& a matches ReminderAction::Finish(r) ==> (r is Ok <==> w.first_error is None) && (
            w.first_error matches Some(e) ==> r == Err::<(), AppError>(e))
        }),
{
    let (w, a) = reminder_next(v, event, token);
    let start = match (v.phase, event) {
        (ReminderPhase::Listing, ReminderEvent::Listed(Ok(tasks))) => ReminderRunView {
            candidates: tasks@,
            index: 0,
            ..v
        },
        (ReminderPhase::Delivering, ReminderEvent::Delivered(Err(e))) => ReminderRunView {
            first_error: first_of(v.first_error, e),
            ..v
        },
        (ReminderPhase::ReleasingFailed, ReminderEvent::Released(Err(e))) => ReminderRunView {
            first_error: first_of(v.first_error, e),
            kept: keeping(v.kept, v.current->Some_0),
            ..v
        },
        _ => v,
    };
    lemma_first_scheduled(start.candidates, start.index);
    if a is Claim {
        let j = first_scheduled(start.candidates, start.index);
        assert(w.candidates[j].scheduled_at is Some);
    }
}

/// A failed claim ends the candidates of the run: what comes next is the
/// release of a claim kept from an earlier run, or the end of the run with
/// the first error.
pub proof fn lemma_failed_claim_stops_the_candidates(v: ReminderRunView, e: AppError, token: u128)
    requires
        v.wf(),
        v.phase == ReminderPhase::Claiming,
    ensures
        ({
            let (w, a) = reminder_next(v, ReminderEvent::Claimed(Err(e)), token);
            &&& w.first_error == first_of(v.first_error, e)
            &&& (a is Release && w.phase == ReminderPhase::ReleasingKept) || (a == ReminderAction::Finish(
                Err(w.first_error->Some_0),
            ) && w.phase == ReminderPhase::Finished)
        }),
{
}

/// The event answers the work that the phase asked for.
pub open spec fn answers(phase: ReminderPhase, event: ReminderEvent) -> bool {
    match phase {
        ReminderPhase::Listing => event is Listed,
        ReminderPhase::Claiming => event is Claimed,
        ReminderPhase::Notifying => event is Notified,
        ReminderPhase::Delivering => event is Delivered,
        ReminderPhase::ReleasingFailed | ReminderPhase::ReleasingKept => event is Released,
        ReminderPhase::Finished => false,
    }
}

/// The action is the one that the phase waits on, and an index it names is a candidate's.
pub open spec fn action_fits(v: ReminderRunView, action: ReminderAction) -> bool {
    match action {
        ReminderAction::ListCandidates { .. } => v.phase == ReminderPhase::Listing,
        ReminderAction::Claim { .. } => v.phase == ReminderPhase::Claiming,
        ReminderAction::Notify(i) => v.phase == ReminderPhase::Notifying && i < v.candidates.len(),
        ReminderAction::MarkDelivered { .. } => v.phase == ReminderPhase::Delivering,
        ReminderAction::Release(_) => v.phase == ReminderPhase::ReleasingFailed || v.phase == ReminderPhase::ReleasingKept,
        ReminderAction::Finish(r) => v.phase == ReminderPhase::Finished && (r is Ok ==> v.kept.len() == 0),
    }
}

/// A run of the scheduler in progress.
pub struct ReminderRun {
    pub phase: ReminderPhase,
    pub now: UtcDateTime,
    pub expired_before: UtcDateTime,
    pub candidates: Vec<Task>,
    pub index: usize,
    pub pending: Vec<PendingReleaseClaim>,
    pub pending_index: usize,
    pub current: Option<PendingReleaseClaim>,
    pub kept: Vec<PendingReleaseClaim>,
    pub first_error: Option<AppError>,
}

impl View for ReminderRun {
    type V = ReminderRunView;

    open spec fn view(&self) -> ReminderRunView {
        ReminderRunView {
            phase: self.phase,
            now: self.now,
            expired_before: self.expired_before,
            candidates: self.candidates@,
            index: self.index as int,
            pending: self.pending@,
            pending_index: self.pending_index as int,
            current: self.current,
            kept: self.kept@,
            first_error: self.first_error,
        }
    }
}

fn keep_first_error(first: Option<AppError>, error: AppError) -> (r: Option<AppError>)
    ensures
        r == first_of(first, error),
{
    match first {
        Some(e) => Some(e),
        None => Some(error),
    }
}

impl ReminderRun {
    /// A run at `now` that releases the `pending` claims after the due reminders;
    /// it first lists the due reminders.
    pub fn start(now: UtcDateTime, expired_before: UtcDateTime, pending: Vec<PendingReleaseClaim>) -> (r: (
        ReminderRun,
        ReminderAction,
    ))
        ensures
            r.0@ == start_view(now, expired_before, pending@),
            r.1 == (ReminderAction::ListCandidates { now, expired_before }),
            r.0@.wf(),
    {
        let run = ReminderRun {
            phase: ReminderPhase::Listing,
            now,
            expired_before,
            candidates: Vec::new(),
            index: 0,
            pending,
            pending_index: 0,
            current: None,
            kept: Vec::new(),
            first_error: None,
        };
        (run, ReminderAction::ListCandidates { now, expired_before })
    }

    /// The claims to keep for the next run, which the run no longer holds.
    pub fn take_kept(&mut self) -> (r: Vec<PendingReleaseClaim>)
        ensures
            r@ == old(self).kept@,
    {
        let mut kept: Vec<PendingReleaseClaim> = Vec::new();
        std::mem::swap(&mut kept, &mut self.kept);
        kept
    }

    fn keep_current(&mut self)
        requires
            old(self).current is Some,
            old(self).kept@.no_duplicates(),
        ensures
            final(self)@ == (ReminderRunView { kept: keeping(old(self)@.kept, old(self).current->Some_0), ..old(self)@ }),
            final(self).kept@.no_duplicates(),
    {
        let claim = match self.current {
            Some(c) => c,
            None => return,
        };
        let n = self.kept.len();
        let mut i: usize = 0;
        while i < n
            invariant
                *self == *old(self),
                old(self).kept@.no_duplicates(),
                n == self.kept@.len(),
                claim == old(self).current->Some_0,
                i <= n,
                forall|k: int| 0 <= k < i ==> self.kept@[k] != claim,
            decreases n - i,
        {
            if self.kept[i] == claim {
                proof {
                    assert(self.kept@.contains(claim));
                }
                return;
            }
            i = i + 1;
        }
        let ghost before = self.kept@;
        proof {
            assert(!before.contains(claim));
        }
        self.kept.push(claim);
        proof {
            assert forall|a: int, b: int| 0 <= a < b < self.kept@.len() implies self.kept@[a] != self.kept@[b] by {
                if b < before.len() {
                    assert(before.no_duplicates());
                }
            }
        }
    }

    fn release_next_exec(&mut self) -> (action: ReminderAction)
        requires
            old(self)@.wf(),
        ensures
            (final(self)@, action) == release_next(old(self)@),
    {
        if self.pending_index < self.pending.len() {
            let c = self.pending[self.pending_index];
            self.phase = ReminderPhase::ReleasingKept;
            self.pending_index = self.pending_index + 1;
            self.current = Some(c);
            ReminderAction::Release(c)
        } else {
            self.phase = ReminderPhase::Finished;
            self.current = None;
            let result = match self.first_error {
                Some(e) => Err(e),
                None => Ok(()),
            };
            ReminderAction::Finish(result)
        }
    }

    fn advance_exec(&mut self, token: u128) -> (action: ReminderAction)
        requires
            old(self)@.wf(),
        ensures
            (final(self)@, action) == advance(old(self)@, token),
    {
        let n = self.candidates.len();
        let mut j = self.index;
        while j < n && self.candidates[j].scheduled_at.is_none()
            invariant
                *self == *old(self),
                n == self.candidates@.len(),
                self.index <= j <= n,
                first_scheduled(self.candidates@, self.index as int) == first_scheduled(self.candidates@, j as int),
            decreases n - j,
        {
            j = j + 1;
        }
        if j < n {
            let scheduled_at = match self.candidates[j].scheduled_at {
                Some(s) => s,
                None => self.now,
            };
            let c = PendingReleaseClaim { task_id: self.candidates[j].id, scheduled_at, claim_token: token };
            self.phase = ReminderPhase::Claiming;
            self.index = j + 1;
            self.current = Some(c);
            ReminderAction::Claim { claim: c, claimed_at: self.now, expired_before: self.expired_before }
        } else {
            self.index = n;
            self.release_next_exec()
        }
    }

    /// The next work of the run, once the last one went as `event` says;
    /// `token` is a fresh token for a claim this step may make.
    pub fn next(&mut self, event: ReminderEvent, token: u128) -> (action: ReminderAction)
        requires
            old(self)@.wf(),
            answers(old(self)@.phase, event),
        ensures
            (final(self)@, action) == reminder_next(old(self)@, event, token),
            final(self)@.wf(),
            action_fits(final(self)@, action),
            old(self)@.phase == ReminderPhase::Listing ==> final(self)@.phase != ReminderPhase::Listing,
            old(self)@.phase != ReminderPhase::Listing ==> final(self)@.phase != ReminderPhase::Listing
                && final(self)@.work() < old(self)@.work(),
    {
        let ghost v = self@;
        proof {
            lemma_next(v, event, token);
        }
        let action = match event {
            ReminderEvent::Listed(Ok(tasks)) => {
                self.candidates = tasks;
                self.index = 0;
                self.advance_exec(token)
            },
            ReminderEvent::Listed(Err(e)) => {
                self.first_error = keep_first_error(self.first_error, e);
                self.release_next_exec()
            },
            ReminderEvent::Claimed(Ok(true)) => {
                self.phase = ReminderPhase::Notifying;
                ReminderAction::Notify(self.index - 1)
            },
            ReminderEvent::Claimed(Ok(false)) => self.advance_exec(token),
            ReminderEvent::Claimed(Err(e)) => {
                self.first_error = keep_first_error(self.first_error, e);
                self.release_next_exec()
            },
            ReminderEvent::Notified(Ok(())) => {
                self.phase = ReminderPhase::Delivering;
                let claim = match self.current {
                    Some(c) => c,
                    None => PendingReleaseClaim { task_id: 0, scheduled_at: self.now, claim_token: 0 },
                };
                ReminderAction::MarkDelivered { claim, delivered_at: self.now }
            },
            ReminderEvent::Notified(Err(e)) => {
                self.phase = ReminderPhase::ReleasingFailed;
                self.first_error = keep_first_error(self.first_error, e);
                let claim = match self.current {
                    Some(c) => c,
                    None => PendingReleaseClaim { task_id: 0, scheduled_at: self.now, claim_token: 0 },
                };
                ReminderAction::Release(claim)
            },
            ReminderEvent::Delivered(Ok(_)) => self.advance_exec(token),
            ReminderEvent::Delivered(Err(e)) => {
                self.first_error = keep_first_error(self.first_error, e);
                self.advance_exec(token)
            },
            ReminderEvent::Released(Ok(_)) => {
                if self.phase == ReminderPhase::ReleasingKept {
                    self.release_next_exec()
                } else {
                    self.advance_exec(token)
                }
            },
            ReminderEvent::Released(Err(e)) => {
                self.first_error = keep_first_error(self.first_error, e);
                self.keep_current();
                if self.phase == ReminderPhase::ReleasingKept {
                    self.release_next_exec()
                } else {
                    self.advance_exec(token)
                }
            },
        };
        action
    }
}

} // verus!
