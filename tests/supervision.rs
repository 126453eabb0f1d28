use ircbot::supervisor::{Supervisor, SupervisorAction, SupervisorPhase};

#[test]
fn one_failure_then_clean_close() {
    let mut s = Supervisor::new();
    let mut actions = s.start();
    actions.extend(s.on_group_end(true));
    actions.extend(s.on_group_end(false));
    assert_eq!(
        actions,
        vec![
            SupervisorAction::Spawn(0),
            SupervisorAction::Cancel(0),
            SupervisorAction::Spawn(1),
            SupervisorAction::Cancel(1),
            SupervisorAction::Stop,
        ]
    );
    assert_eq!(s.phase, SupervisorPhase::Stopped);
    assert!(s.on_group_end(true).is_empty());
}

#[test]
fn clean_close_stops_at_once() {
    let mut s = Supervisor::new();
    assert_eq!(s.start(), vec![SupervisorAction::Spawn(0)]);
    assert!(s.start().is_empty());
    assert_eq!(s.on_group_end(false), vec![SupervisorAction::Cancel(0), SupervisorAction::Stop]);
    assert_eq!(s.generation, 0);
}

#[test]
fn every_failure_rebuilds_once() {
    let mut s = Supervisor::new();
    s.start();
    for g in 0..5u64 {
        assert_eq!(s.on_group_end(true), vec![SupervisorAction::Cancel(g), SupervisorAction::Spawn(g + 1)]);
    }
    assert_eq!(s.generation, 5);
    assert_eq!(s.phase, SupervisorPhase::Running);
}

#[test]
fn group_end_before_start_does_nothing() {
    let mut s = Supervisor::new();
    assert!(s.on_group_end(true).is_empty());
    assert_eq!(s.phase, SupervisorPhase::Starting);
}
