use pool_price_feed::pool::ResolutionError;
use pool_price_feed::poller::Termination;
use pool_price_feed::supervisor::{PollerStatus, Supervisor, Verdict};

#[test]
fn all_pollers_start_running() {
    let supervisor = Supervisor::new(3);
    assert_eq!(supervisor.len(), 3);
    assert_eq!(supervisor.running(), 3);
    assert_eq!(supervisor.status(0), Some(PollerStatus::Running));
    assert_eq!(supervisor.status(2), Some(PollerStatus::Running));
    assert_eq!(supervisor.status(3), None);
}

#[test]
fn one_failure_leaves_the_others_running() {
    let mut supervisor = Supervisor::new(3);
    let cause = Termination::Resolution(ResolutionError::InterfaceMissing);
    assert_eq!(supervisor.record(1, cause), Verdict::Continue { running: 2 });
    assert_eq!(supervisor.status(0), Some(PollerStatus::Running));
    assert_eq!(supervisor.status(1), Some(PollerStatus::Finished { cause }));
    assert_eq!(supervisor.status(2), Some(PollerStatus::Running));
}

#[test]
fn process_ends_with_the_last_poller() {
    let mut supervisor = Supervisor::new(2);
    assert_eq!(supervisor.record(0, Termination::Shutdown), Verdict::Continue { running: 1 });
    assert_eq!(supervisor.record(1, Termination::Shutdown), Verdict::Exit);
    assert_eq!(supervisor.running(), 0);
}

#[test]
fn only_the_first_report_of_a_poller_counts() {
    let mut supervisor = Supervisor::new(2);
    let first = Termination::UnsupportedPoolVersion(2);
    assert_eq!(supervisor.record(0, first), Verdict::Continue { running: 1 });
    assert_eq!(supervisor.record(0, Termination::Shutdown), Verdict::Continue { running: 1 });
    assert_eq!(supervisor.status(0), Some(PollerStatus::Finished { cause: first }));
}

#[test]
fn report_for_an_unknown_poller_changes_nothing() {
    let mut supervisor = Supervisor::new(2);
    assert_eq!(supervisor.record(2, Termination::Shutdown), Verdict::Continue { running: 2 });
    assert_eq!(supervisor.running(), 2);
}

#[test]
fn supervisor_of_no_pollers_has_nothing_to_wait_for() {
    let mut supervisor = Supervisor::new(0);
    assert_eq!(supervisor.running(), 0);
    assert_eq!(supervisor.record(0, Termination::Shutdown), Verdict::Exit);
}
