//! When to refresh, and how outcomes reach the render loop.
//!
//! The scheduler owns the trigger timing (periodic and manual), keeps at most
//! one cycle in flight, and holds the single-slot mailbox that the running
//! cycle's outcome lands in. It never starts work itself: a trigger answers
//! whether the caller must start a cycle.
use crate::model::{outcome_view, GithubFetchResult, OutcomeModel};
use vstd::prelude::*;

verus! {

/// Seconds between two automatic triggers.
pub const REFRESH_INTERVAL_SECS: i64 = 300;

/// The scheduler's own timing state.
#[derive(Clone, Copy, Debug, PartialEq, Eq, Structural)]
pub struct SchedulerState {
    /// When the last trigger fired, in seconds.
    pub last_trigger_time: i64,
    /// Whether a cycle has started and its outcome has not been polled yet.
    pub fetch_in_flight: bool,
}

/// A single-slot handoff: one outcome at most waits in it.
pub struct Mailbox {
    slot: Option<GithubFetchResult>,
}

impl View for Mailbox {
    type V = Option<OutcomeModel>;

    closed spec fn view(&self) -> Option<OutcomeModel> {
        outcome_view(self.slot)
    }
}

impl Mailbox {
    /// An empty mailbox.
    pub fn new() -> (r: Mailbox)
        ensures
            r@ is None,
    {
        Mailbox { slot: None }
    }

    /// Puts `outcome` into the slot. Never blocks.
    pub fn send(&mut self, outcome: GithubFetchResult)
        ensures
            final(self)@ == Some(outcome@),
    {
        self.slot = Some(outcome);
    }

    /// Takes what waits in the slot, leaving it empty. Never blocks.
    pub fn take(&mut self) -> (r: Option<GithubFetchResult>)
        ensures
            final(self)@ is None,
            outcome_view(r) == old(self)@,
    {
        let mut r: Option<GithubFetchResult> = None;
        core::mem::swap(&mut r, &mut self.slot);
        r
    }

    /// Whether nothing waits in the slot.
    pub fn is_empty(&self) -> (r: bool)
        ensures
            r == (self@ is None),
    {
        self.slot.is_none()
    }
}

/// The mathematical value of a [`FetchScheduler`].
pub struct SchedulerModel {
    pub state: SchedulerState,
    pub mailbox: Option<OutcomeModel>,
}

impl SchedulerModel {
    /// What waits in the mailbox is a well-formed outcome.
    pub open spec fn wf(self) -> bool {
        self.mailbox matches Some(o) ==> o.wf()
    }
}

/// The outcome published where no credential is present.
pub open spec fn no_credential_outcome() -> OutcomeModel {
    OutcomeModel { connected: false, prs: seq![] }
}

/// Whether the automatic trigger fires at `now`.
pub open spec fn trigger_due(s: SchedulerState, now: i64) -> bool {
    !s.fetch_in_flight && now as int - s.last_trigger_time as int >= REFRESH_INTERVAL_SECS as int
}

/// A trigger that fires at `now`: with a credential a cycle starts; without
/// one none does, and the disconnected outcome is published at once.
/// The boolean says whether the caller must start a cycle.
pub open spec fn fire(m: SchedulerModel, now: i64, has_credential: bool) -> (SchedulerModel, bool) {
    if has_credential {
        (
            SchedulerModel {
                state: SchedulerState { last_trigger_time: now, fetch_in_flight: true },
                mailbox: m.mailbox,
            },
            true,
        )
    } else {
        (
            SchedulerModel {
                state: SchedulerState { last_trigger_time: now, fetch_in_flight: m.state.fetch_in_flight },
                mailbox: Some(no_credential_outcome()),
            },
            false,
        )
    }
}

/// The automatic trigger: fires only when due.
pub open spec fn periodic_trigger(m: SchedulerModel, now: i64, has_credential: bool) -> (SchedulerModel, bool) {
    if trigger_due(m.state, now) {
        fire(m, now, has_credential)
    } else {
        (m, false)
    }
}

/// The manual trigger: fires whenever no cycle is in flight.
pub open spec fn manual_trigger(m: SchedulerModel, now: i64, has_credential: bool) -> (SchedulerModel, bool) {
    if m.state.fetch_in_flight {
        (m, false)
    } else {
        fire(m, now, has_credential)
    }
}

/// Polling: takes the waiting outcome, if any, and ends the cycle in flight.
pub open spec fn polled(m: SchedulerModel) -> (SchedulerModel, Option<OutcomeModel>) {
    match m.mailbox {
        Some(o) => (
            SchedulerModel {
                state: SchedulerState { fetch_in_flight: false, ..m.state },
                mailbox: None,
            },
            Some(o),
        ),
        None => (m, None),
    }
}

/// Decides when a fetch cycle starts and hands its outcome back.
pub struct FetchScheduler {
    state: SchedulerState,
    mailbox: Mailbox,
}

impl View for FetchScheduler {
    type V = SchedulerModel;

    closed spec fn view(&self) -> SchedulerModel {
        SchedulerModel { state: self.state, mailbox: self.mailbox@ }
    }
}

impl FetchScheduler {
    /// A scheduler at time `now`, with the automatic trigger already due.
    pub fn new(now: i64) -> (r: FetchScheduler)
        requires
            now >= i64::MIN + REFRESH_INTERVAL_SECS,
        ensures
            r@.state == (SchedulerState {
                last_trigger_time: (now - REFRESH_INTERVAL_SECS) as i64,
                fetch_in_flight: false,
            }),
            r@.mailbox is None,
            r@.wf(),
            trigger_due(r@.state, now),
    {
        FetchScheduler {
            state: SchedulerState { last_trigger_time: now - REFRESH_INTERVAL_SECS, fetch_in_flight: false },
            mailbox: Mailbox::new(),
        }
    }

    /// The timing state.
    pub fn state(&self) -> (r: SchedulerState)
        ensures
            r == self@.state,
    {
        self.state
    }

    /// Whether a cycle is in flight.
    pub fn fetch_in_flight(&self) -> (r: bool)
        ensures
            r == self@.state.fetch_in_flight,
    {
        self.state.fetch_in_flight
    }

    /// Whether the automatic trigger fires at `now`.
    pub fn is_due(&self, now: i64) -> (r: bool)
        ensures
            r == trigger_due(self@.state, now),
    {
        !self.state.fetch_in_flight && (now as i128) - (self.state.last_trigger_time as i128)
            >= REFRESH_INTERVAL_SECS as i128
    }

    fn fire(&mut self, now: i64, has_credential: bool) -> (r: bool)
        requires
            old(self)@.wf(),
        ensures
            final(self)@.wf(),
            (final(self)@, r) == fire(old(self)@, now, has_credential),
    {
        self.state.last_trigger_time = now;
        if has_credential {
            self.state.fetch_in_flight = true;
            true
        } else {
            self.mailbox.send(GithubFetchResult::disconnected());
            false
        }
    }

    /// The automatic trigger, asked once per frame. Returns whether the caller
    /// must start a cycle now.
    pub fn maybe_trigger(&mut self, now: i64, has_credential: bool) -> (r: bool)
        requires
            old(self)@.wf(),
        ensures
            final(self)@.wf(),
            (final(self)@, r) == periodic_trigger(old(self)@, now, has_credential),
    {
        if self.is_due(now) {
            self.fire(now, has_credential)
        } else {
            false
        }
    }

    /// The manual trigger. Ignored while a cycle is in flight; otherwise fires
    /// whatever the time. Returns whether the caller must start a cycle now.
    pub fn trigger_now(&mut self, now: i64, has_credential: bool) -> (r: bool)
        requires
            old(self)@.wf(),
        ensures
            final(self)@.wf(),
            (final(self)@, r) == manual_trigger(old(self)@, now, has_credential),
    {
        if self.state.fetch_in_flight {
            false
        } else {
            self.fire(now, has_credential)
        }
    }

    /// Hands the outcome of the running cycle to the mailbox.
    pub fn deliver(&mut self, outcome: GithubFetchResult)
        requires
            outcome@.wf(),
        ensures
            final(self)@.wf(),
            final(self)@ == (SchedulerModel { state: old(self)@.state, mailbox: Some(outcome@) }),
    {
        self.mailbox.send(outcome);
    }

    /// Takes the waiting outcome, if any, and ends the cycle in flight.
    /// Never blocks; with nothing waiting it changes nothing.
    pub fn poll(&mut self) -> (r: Option<GithubFetchResult>)
        requires
            old(self)@.wf(),
        ensures
            final(self)@.wf(),
            (final(self)@, outcome_view(r)) == polled(old(self)@),
            r matches Some(o) ==> o@.wf(),
    {
        let r = self.mailbox.take();
        if r.is_some() {
            self.state.fetch_in_flight = false;
        }
        r
    }
}

/// A trigger, automatic or manual, that comes while a cycle is in flight
/// changes nothing and starts nothing.
pub proof fn lemma_trigger_in_flight_is_noop(m: SchedulerModel, now: i64, has_credential: bool)
    requires
        m.state.fetch_in_flight,
    ensures
        periodic_trigger(m, now, has_credential) == (m, false),
        manual_trigger(m, now, has_credential) == (m, false),
{
}

/// The automatic trigger acts only when the last trigger lies at least the
/// refresh interval back, and then moves the trigger time to `now`.
pub proof fn lemma_periodic_trigger_spacing(m: SchedulerModel, now: i64, has_credential: bool)
    ensures
        periodic_trigger(m, now, has_credential).0 != m || periodic_trigger(m, now, has_credential).1
            ==> now as int - m.state.last_trigger_time as int >= REFRESH_INTERVAL_SECS as int
            && periodic_trigger(m, now, has_credential).0.state.last_trigger_time == now,
{
}

/// A manual trigger moves the trigger time to `now` at once; after it,
/// whatever was polled or delivered meanwhile, the automatic trigger stays
/// quiet until the refresh interval has passed.
pub proof fn lemma_manual_trigger_defers_periodic(
    m: SchedulerModel,
    now: i64,
    has_credential: bool,
    later: i64,
    later_credential: bool,
)
    requires
        !m.state.fetch_in_flight,
        (later as int) - (now as int) < (REFRESH_INTERVAL_SECS as int),
    ensures
        manual_trigger(m, now, has_credential).0.state.last_trigger_time == now,
        forall|m2: SchedulerModel|
            m2.state.last_trigger_time == now ==> #[trigger] periodic_trigger(m2, later, later_credential)
                == (m2, false),
{
}

/// Polling never moves the trigger time.
pub proof fn lemma_poll_keeps_trigger_time(m: SchedulerModel)
    ensures
        polled(m).0.state.last_trigger_time == m.state.last_trigger_time,
{
}

/// Polling an empty mailbox returns nothing and changes nothing; and after a
/// poll the mailbox is empty, so polling again is such a poll.
pub proof fn lemma_poll_idempotent(m: SchedulerModel)
    ensures
        m.mailbox is None ==> polled(m) == (m, None::<OutcomeModel>),
        polled(polled(m).0) == (polled(m).0, None::<OutcomeModel>),
{
}

/// A trigger that fires without a credential starts no cycle and publishes
/// the disconnected outcome, with no items, for the next poll to return.
pub proof fn lemma_no_credential_disconnects(m: SchedulerModel, now: i64)
    ensures
        no_credential_outcome().wf(),
        trigger_due(m.state, now) ==> {
            let (m1, started) = periodic_trigger(m, now, false);
            &&& !started
            &&& m1.mailbox == Some(no_credential_outcome())
            &&& polled(m1).1 == Some(no_credential_outcome())
        },
        !m.state.fetch_in_flight ==> {
            let (m1, started) = manual_trigger(m, now, false);
            &&& !started
            &&& m1.mailbox == Some(no_credential_outcome())
            &&& polled(m1).1 == Some(no_credential_outcome())
        },
{
}

} // verus!
