//! The decision core of the move operation.
//!
//! The surrounding shell owns the file system and the prompt; this module
//! owns every decision. The shell reports events — whether the target name
//! is already taken, what the user answered, how the copy and the deletion
//! went — and is told what to do next. One step never asks the shell for
//! more than one action.
//!
//! `Idle → (AwaitingConfirm →) ReadyToCopy → AwaitingRemove → Finished`,
//! with `Finished` reached early on a declined overwrite or a failed copy.

use vstd::prelude::*;

verus! {

/// How a finished move ended.
///
/// `Moved`: copied and the original deleted. `CopiedOnly`: copied, but the
/// original could not be deleted — reported as a warning, still a success.
/// `CopyFailed`: the copy itself failed — the one fatal outcome.
/// `Canceled`: the user declined to overwrite; nothing was touched.
#[derive(Clone, Copy, Debug, PartialEq, Eq, Structural)]
pub enum MoveOutcome {
    Moved,
    CopiedOnly,
    CopyFailed,
    Canceled,
}

/// Where the move stands.
#[derive(Clone, Copy, Debug, PartialEq, Eq, Structural)]
pub enum MoveState {
    Idle,
    AwaitingConfirm,
    ReadyToCopy,
    AwaitingRemove,
    Finished { outcome: MoveOutcome },
}

/// What the shell reports.
#[derive(Clone, Copy, Debug, PartialEq, Eq, Structural)]
pub enum MoveEvent {
    Begin { target_exists: bool },
    ConfirmAnswer { overwrite: bool },
    CopyDone { ok: bool },
    RemoveDone { ok: bool },
}

/// What the shell must do next.
///
/// `AskOverwrite`: put the overwrite question (defaulting to no) and report
/// the answer. `Copy`: copy the source to the target and report. `Remove`:
/// delete the original and report. `Stop`: nothing further; the state says
/// how it ended.
#[derive(Clone, Copy, Debug, PartialEq, Eq, Structural)]
pub enum MoveAction {
    AskOverwrite,
    Copy,
    Remove,
    Stop,
}

/// The transition relation, written out state by state. An event that a
/// state does not expect changes nothing and asks for nothing.
pub open spec fn move_step_spec(s: MoveState, e: MoveEvent) -> (MoveState, MoveAction) {
    match (s, e) {
        (MoveState::Idle, MoveEvent::Begin { target_exists }) => {
            if target_exists {
                (MoveState::AwaitingConfirm, MoveAction::AskOverwrite)
            } else {
                (MoveState::ReadyToCopy, MoveAction::Copy)
            }
        },
        (MoveState::AwaitingConfirm, MoveEvent::ConfirmAnswer { overwrite }) => {
            if overwrite {
                (MoveState::ReadyToCopy, MoveAction::Copy)
            } else {
                (MoveState::Finished { outcome: MoveOutcome::Canceled }, MoveAction::Stop)
            }
        },
        (MoveState::ReadyToCopy, MoveEvent::CopyDone { ok }) => {
            if ok {
                (MoveState::AwaitingRemove, MoveAction::Remove)
            } else {
                (MoveState::Finished { outcome: MoveOutcome::CopyFailed }, MoveAction::Stop)
            }
        },
        (MoveState::AwaitingRemove, MoveEvent::RemoveDone { ok }) => {
            if ok {
                (MoveState::Finished { outcome: MoveOutcome::Moved }, MoveAction::Stop)
            } else {
                (MoveState::Finished { outcome: MoveOutcome::CopiedOnly }, MoveAction::Stop)
            }
        },
        _ => (s, MoveAction::Stop),
    }
}

/// One step of the move: the next state and the action the shell must
/// perform.
pub fn move_step(s: MoveState, e: MoveEvent) -> (r: (MoveState, MoveAction))
    ensures
        r == move_step_spec(s, e),
{
    match (s, e) {
        (MoveState::Idle, MoveEvent::Begin { target_exists }) => {
            if target_exists {
                (MoveState::AwaitingConfirm, MoveAction::AskOverwrite)
            } else {
                (MoveState::ReadyToCopy, MoveAction::Copy)
            }
        },
        (MoveState::AwaitingConfirm, MoveEvent::ConfirmAnswer { overwrite }) => {
            if overwrite {
                (MoveState::ReadyToCopy, MoveAction::Copy)
            } else {
                (MoveState::Finished { outcome: MoveOutcome::Canceled }, MoveAction::Stop)
            }
        },
        (MoveState::ReadyToCopy, MoveEvent::CopyDone { ok }) => {
            if ok {
                (MoveState::AwaitingRemove, MoveAction::Remove)
            } else {
                (MoveState::Finished { outcome: MoveOutcome::CopyFailed }, MoveAction::Stop)
            }
        },
        (MoveState::AwaitingRemove, MoveEvent::RemoveDone { ok }) => {
            if ok {
                (MoveState::Finished { outcome: MoveOutcome::Moved }, MoveAction::Stop)
            } else {
                (MoveState::Finished { outcome: MoveOutcome::CopiedOnly }, MoveAction::Stop)
            }
        },
        (state, _) => (state, MoveAction::Stop),
    }
}

/// The run of the machine over a sequence of events, from `Idle`.
pub open spec fn run_from(s: MoveState, events: Seq<MoveEvent>) -> MoveState
    decreases events.len(),
{
    if events.len() == 0 {
        s
    } else {
        run_from(move_step_spec(s, events[0]).0, events.drop_first())
    }
}

/// Whether any step of the run from `s` over `events` asks the shell to
/// copy.
pub open spec fn run_copies(s: MoveState, events: Seq<MoveEvent>) -> bool
    decreases events.len(),
{
    if events.len() == 0 {
        false
    } else {
        move_step_spec(s, events[0]).1 == MoveAction::Copy || run_copies(
            move_step_spec(s, events[0]).0,
            events.drop_first(),
        )
    }
}

/// A declined overwrite touches nothing: once the machine is waiting for
/// the overwrite answer and the answer is no, no later event of the run
/// can make it ask for a copy or a deletion — the run is finished as
/// `Canceled` for good.
pub proof fn lemma_declined_overwrite_is_final(events: Seq<MoveEvent>)
    requires
        events.len() > 0,
        events[0] == (MoveEvent::ConfirmAnswer { overwrite: false }),
    ensures
        run_from(MoveState::AwaitingConfirm, events) == (MoveState::Finished {
            outcome: MoveOutcome::Canceled,
        }),
        !run_copies(MoveState::AwaitingConfirm, events),
    decreases events.len(),
{
    let canceled = MoveState::Finished { outcome: MoveOutcome::Canceled };
    lemma_finished_stays(canceled, events.drop_first());
}

/// A finished machine stays finished and never asks for anything again.
pub proof fn lemma_finished_stays(s: MoveState, events: Seq<MoveEvent>)
    requires
        s is Finished,
    ensures
        run_from(s, events) == s,
        !run_copies(s, events),
    decreases events.len(),
{
    if events.len() > 0 {
        lemma_finished_stays(s, events.drop_first());
    }
}

} // verus!
