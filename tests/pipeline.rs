use cargo_apple::pipeline::{steps, Action, Batch, Operation, Step};

#[test]
fn archive_builds_first() {
    assert_eq!(steps(Operation::Archive), vec![Step::Build, Step::Archive]);
    assert_eq!(steps(Operation::Check), vec![Step::Check]);
    assert_eq!(steps(Operation::Build), vec![Step::Build]);
}

#[test]
fn archive_runs_build_then_archive_per_target() {
    let mut b = Batch::new(Operation::Archive, 2);
    assert_eq!(b.next_action(), Action::Run { target: 0, step: Step::Build });
    b.record(true);
    assert_eq!(b.next_action(), Action::Run { target: 0, step: Step::Archive });
    b.record(true);
    assert_eq!(b.next_action(), Action::Run { target: 1, step: Step::Build });
    b.record(true);
    assert_eq!(b.next_action(), Action::Run { target: 1, step: Step::Archive });
    b.record(true);
    assert_eq!(b.next_action(), Action::Done);
}

#[test]
fn build_failure_short_circuits_archive() {
    let mut b = Batch::new(Operation::Archive, 2);
    b.record(false);
    assert_eq!(b.next_action(), Action::Abort);
}

#[test]
fn first_failing_target_stops_the_rest() {
    let mut b = Batch::new(Operation::Check, 3);
    b.record(true);
    assert_eq!(b.next_action(), Action::Run { target: 1, step: Step::Check });
    b.record(false);
    assert_eq!(b.next_action(), Action::Abort);
}

#[test]
fn empty_batch_is_done() {
    let b = Batch::new(Operation::Build, 0);
    assert_eq!(b.next_action(), Action::Done);
}
