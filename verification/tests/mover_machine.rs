use recent_move::mover::{move_step, MoveAction, MoveEvent, MoveOutcome, MoveState};

#[test]
fn no_conflict_goes_straight_to_copy() {
    let (s, a) = move_step(MoveState::Idle, MoveEvent::Begin { target_exists: false });
    assert_eq!(s, MoveState::ReadyToCopy);
    assert_eq!(a, MoveAction::Copy);
}

#[test]
fn conflict_asks_before_touching_anything() {
    let (s, a) = move_step(MoveState::Idle, MoveEvent::Begin { target_exists: true });
    assert_eq!(s, MoveState::AwaitingConfirm);
    assert_eq!(a, MoveAction::AskOverwrite);
}

#[test]
fn declining_the_overwrite_cancels() {
    let (s, a) = move_step(
        MoveState::AwaitingConfirm,
        MoveEvent::ConfirmAnswer { overwrite: false },
    );
    assert_eq!(s, MoveState::Finished { outcome: MoveOutcome::Canceled });
    assert_eq!(a, MoveAction::Stop);
}

#[test]
fn confirming_the_overwrite_copies() {
    let (s, a) = move_step(
        MoveState::AwaitingConfirm,
        MoveEvent::ConfirmAnswer { overwrite: true },
    );
    assert_eq!(s, MoveState::ReadyToCopy);
    assert_eq!(a, MoveAction::Copy);
}

#[test]
fn successful_copy_then_successful_delete_is_a_move() {
    let (s, a) = move_step(MoveState::ReadyToCopy, MoveEvent::CopyDone { ok: true });
    assert_eq!(s, MoveState::AwaitingRemove);
    assert_eq!(a, MoveAction::Remove);
    let (s, a) = move_step(s, MoveEvent::RemoveDone { ok: true });
    assert_eq!(s, MoveState::Finished { outcome: MoveOutcome::Moved });
    assert_eq!(a, MoveAction::Stop);
}

#[test]
fn failed_delete_after_copy_is_a_partial_success() {
    let (s, a) = move_step(MoveState::AwaitingRemove, MoveEvent::RemoveDone { ok: false });
    assert_eq!(s, MoveState::Finished { outcome: MoveOutcome::CopiedOnly });
    assert_eq!(a, MoveAction::Stop);
}

#[test]
fn failed_copy_is_fatal() {
    let (s, a) = move_step(MoveState::ReadyToCopy, MoveEvent::CopyDone { ok: false });
    assert_eq!(s, MoveState::Finished { outcome: MoveOutcome::CopyFailed });
    assert_eq!(a, MoveAction::Stop);
}

#[test]
fn a_finished_machine_ignores_further_events() {
    let done = MoveState::Finished { outcome: MoveOutcome::Canceled };
    let (s, a) = move_step(done, MoveEvent::CopyDone { ok: true });
    assert_eq!(s, done);
    assert_eq!(a, MoveAction::Stop);
}

#[test]
fn full_run_without_conflict() {
    let (s, _) = move_step(MoveState::Idle, MoveEvent::Begin { target_exists: false });
    let (s, _) = move_step(s, MoveEvent::CopyDone { ok: true });
    let (s, a) = move_step(s, MoveEvent::RemoveDone { ok: true });
    assert_eq!(s, MoveState::Finished { outcome: MoveOutcome::Moved });
    assert_eq!(a, MoveAction::Stop);
}
