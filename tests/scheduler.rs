use commit_clock::feed::PrFeed;
use commit_clock::model::{ConnectionStatus, GithubFetchResult, GithubPr};
use commit_clock::scheduler::{FetchScheduler, Mailbox, SchedulerState, REFRESH_INTERVAL_SECS};

fn one_pr() -> GithubFetchResult {
    GithubFetchResult::connected(vec![GithubPr::new("t".to_string(), "u".to_string())])
}

#[test]
fn new_scheduler_is_due() {
    let s = FetchScheduler::new(1_000);
    assert!(s.is_due(1_000));
    assert_eq!(s.state(), SchedulerState { last_trigger_time: 700, fetch_in_flight: false });
}

#[test]
fn periodic_trigger_with_credential_starts_a_cycle() {
    let mut s = FetchScheduler::new(1_000);
    assert!(s.maybe_trigger(1_000, true));
    assert_eq!(s.state(), SchedulerState { last_trigger_time: 1_000, fetch_in_flight: true });
    assert!(s.poll().is_none());
}

#[test]
fn no_credential_publishes_disconnected_without_a_cycle() {
    let mut s = FetchScheduler::new(1_000);
    assert!(!s.maybe_trigger(1_000, false));
    assert_eq!(s.state(), SchedulerState { last_trigger_time: 1_000, fetch_in_flight: false });
    let o = s.poll().expect("an outcome");
    assert!(!o.connected);
    assert!(o.prs.is_empty());
    assert!(s.poll().is_none());
}

#[test]
fn manual_trigger_without_credential_publishes_disconnected() {
    let mut s = FetchScheduler::new(1_000);
    assert!(!s.trigger_now(1_010, false));
    let o = s.poll().expect("an outcome");
    assert!(!o.connected);
    assert!(o.prs.is_empty());
}

#[test]
fn trigger_in_flight_is_a_no_op() {
    let mut s = FetchScheduler::new(1_000);
    assert!(s.maybe_trigger(1_000, true));
    let before = s.state();
    assert!(!s.trigger_now(1_050, true));
    assert!(!s.maybe_trigger(2_000, true));
    assert!(!s.trigger_now(2_000, false));
    assert_eq!(s.state(), before);
    assert!(s.poll().is_none());
}

#[test]
fn periodic_triggers_are_spaced() {
    let mut s = FetchScheduler::new(1_000);
    assert!(s.maybe_trigger(1_000, true));
    s.deliver(one_pr());
    assert!(s.poll().is_some());
    assert!(!s.maybe_trigger(1_000 + REFRESH_INTERVAL_SECS - 1, true));
    assert_eq!(s.state().last_trigger_time, 1_000);
    assert!(s.maybe_trigger(1_000 + REFRESH_INTERVAL_SECS, true));
    assert_eq!(s.state().last_trigger_time, 1_300);
}

#[test]
fn manual_trigger_defers_the_periodic_one() {
    let mut s = FetchScheduler::new(1_000);
    assert!(s.maybe_trigger(1_000, true));
    s.deliver(one_pr());
    assert!(s.poll().is_some());
    assert!(s.trigger_now(1_100, true));
    assert_eq!(s.state().last_trigger_time, 1_100);
    s.deliver(one_pr());
    assert!(s.poll().is_some());
    assert!(!s.maybe_trigger(1_300, true));
    assert!(!s.maybe_trigger(1_399, true));
    assert!(s.maybe_trigger(1_400, true));
}

#[test]
fn poll_on_empty_mailbox_changes_nothing() {
    let mut s = FetchScheduler::new(1_000);
    assert!(s.maybe_trigger(1_000, true));
    let before = s.state();
    assert!(s.poll().is_none());
    assert!(s.poll().is_none());
    assert_eq!(s.state(), before);
}

#[test]
fn poll_takes_the_delivered_outcome_once() {
    let mut s = FetchScheduler::new(1_000);
    assert!(s.maybe_trigger(1_000, true));
    s.deliver(one_pr());
    let o = s.poll().expect("an outcome");
    assert!(o.connected);
    assert_eq!(o.prs.len(), 1);
    assert!(!s.fetch_in_flight());
    assert!(s.poll().is_none());
}

#[test]
fn extreme_times_do_not_overflow() {
    let mut s = FetchScheduler::new(i64::MIN + REFRESH_INTERVAL_SECS);
    assert!(s.is_due(i64::MAX));
    assert!(s.maybe_trigger(i64::MAX, true));
    assert_eq!(s.state().last_trigger_time, i64::MAX);
}

#[test]
fn mailbox_holds_one_outcome() {
    let mut b = Mailbox::new();
    assert!(b.is_empty());
    b.send(GithubFetchResult::disconnected());
    b.send(one_pr());
    assert!(!b.is_empty());
    let o = b.take().expect("an outcome");
    assert!(o.connected);
    assert!(b.take().is_none());
}

#[test]
fn feed_shows_outcomes_wholesale() {
    let mut f = PrFeed::new();
    assert_eq!(f.status(), ConnectionStatus::Unknown);
    assert!(f.prs().is_empty());
    f.show(one_pr());
    assert_eq!(f.status(), ConnectionStatus::Connected);
    assert_eq!(f.prs().len(), 1);
    f.mark_pending();
    assert_eq!(f.status(), ConnectionStatus::Unknown);
    assert_eq!(f.prs().len(), 1);
    f.show(GithubFetchResult::disconnected());
    assert_eq!(f.status(), ConnectionStatus::Disconnected);
    assert!(f.prs().is_empty());
}

#[test]
fn outcome_well_formedness() {
    assert!(one_pr().is_well_formed());
    assert!(GithubFetchResult::disconnected().is_well_formed());
    let four = (0..4).map(|i| GithubPr::new(format!("t{}", i), "u".to_string())).collect();
    assert!(!GithubFetchResult::connected(four).is_well_formed());
    let mut odd = one_pr();
    odd.connected = false;
    assert!(!odd.is_well_formed());
}
