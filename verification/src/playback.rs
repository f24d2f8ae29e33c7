//! The order of the terminal actions by which rendered frames are played.
//!
//! Playing is a sequence of actions on the terminal, each of which may fail.
//! This module decides which action comes next; the caller performs it and
//! reports whether it succeeded.

use vstd::prelude::*;

verus! {

/// One thing to do on the terminal.
#[derive(Clone, Copy, Debug, PartialEq, Eq, Structural)]
pub enum Action {
    /// Hide the cursor.
    HideCursor,
    /// Move the cursor to the top left corner, without clearing anything.
    MoveToOrigin,
    /// Write the text of the frame with this index.
    WriteFrame(usize),
    /// Flush what has been written.
    Flush,
    /// Wait for this many milliseconds.
    Sleep(u64),
    /// Show the cursor again.
    ShowCursor,
}

/// Where a playback stands: the action that is due next.
#[derive(Clone, Copy, Debug, PartialEq, Eq, Structural)]
pub enum Stage {
    /// The cursor is to be hidden.
    Hiding,
    /// The cursor is to be moved home for the frame with this index.
    Moving(usize),
    /// The frame with this index is to be written.
    Writing(usize),
    /// The output of the frame with this index is to be flushed.
    Flushing(usize),
    /// The pause after the frame with this index is due.
    Sleeping(usize),
    /// The cursor is to be shown again.
    Showing,
    /// Nothing is left to do.
    Finished,
}

/// A playback of `frame_count` frames with `delay_millis` between them.
#[derive(Clone, Copy, Debug, PartialEq, Eq, Structural)]
pub struct Playback {
    pub frame_count: usize,
    pub delay_millis: u64,
    pub stage: Stage,
    pub failed: bool,
}

/// The state in which every playback begins.
pub open spec fn initial(frame_count: usize, delay_millis: u64) -> Playback {
    Playback { frame_count, delay_millis, stage: Stage::Hiding, failed: false }
}

/// The action that is due in a state, if any.
pub open spec fn pending_action(state: Playback) -> Option<Action> {
    match state.stage {
        Stage::Hiding => Some(Action::HideCursor),
        Stage::Moving(_) => Some(Action::MoveToOrigin),
        Stage::Writing(i) => Some(Action::WriteFrame(i)),
        Stage::Flushing(_) => Some(Action::Flush),
        Stage::Sleeping(_) => Some(Action::Sleep(state.delay_millis)),
        Stage::Showing => Some(Action::ShowCursor),
        Stage::Finished => None,
    }
}

/// The stage that follows `stage` once its action has succeeded.
pub open spec fn stage_after_success(frame_count: usize, stage: Stage) -> Stage {
    match stage {
        Stage::Hiding => if frame_count > 0 {
            Stage::Moving(0)
        } else {
            Stage::Showing
        },
        Stage::Moving(i) => Stage::Writing(i),
        Stage::Writing(i) => Stage::Flushing(i),
        Stage::Flushing(i) => Stage::Sleeping(i),
        Stage::Sleeping(i) => if i + 1 < frame_count {
            Stage::Moving((i + 1) as usize)
        } else {
            Stage::Showing
        },
        Stage::Showing => Stage::Finished,
        Stage::Finished => Stage::Finished,
    }
}

/// The state that follows `state` once its action has been tried. A failure
/// ends the frames at once, but the cursor is still shown again before the
/// playback finishes, and the failure is remembered.
pub open spec fn next_state(state: Playback, succeeded: bool) -> Playback {
    match state.stage {
        Stage::Finished => state,
        Stage::Showing => Playback {
            stage: Stage::Finished,
            failed: state.failed || !succeeded,
            ..state
        },
        _ => if succeeded {
            Playback { stage: stage_after_success(state.frame_count, state.stage), ..state }
        } else {
            Playback { stage: Stage::Showing, failed: true, ..state }
        },
    }
}

/// The state reached from `state` after `steps` actions that all succeeded.
pub open spec fn after_successes(state: Playback, steps: nat) -> Playback
    decreases steps,
{
    if steps == 0 {
        state
    } else {
        next_state(after_successes(state, (steps - 1) as nat), true)
    }
}

/// The number of actions in a playback of `frame_count` frames in which
/// nothing fails: four for each frame, and hiding and showing the cursor.
pub open spec fn script_len(frame_count: usize) -> nat {
    (4 * frame_count + 2) as nat
}

/// The action with number `k` of a playback in which nothing fails.
pub open spec fn script_action(frame_count: usize, delay_millis: u64, k: int) -> Action {
    if k <= 0 {
        Action::HideCursor
    } else if k > 4 * frame_count {
        Action::ShowCursor
    } else if (k - 1) % 4 == 0 {
        Action::MoveToOrigin
    } else if (k - 1) % 4 == 1 {
        Action::WriteFrame(((k - 1) / 4) as usize)
    } else if (k - 1) % 4 == 2 {
        Action::Flush
    } else {
        Action::Sleep(delay_millis)
    }
}

/// The stage with number `k` of a playback in which nothing fails.
pub open spec fn script_stage(frame_count: usize, k: int) -> Stage {
    if k <= 0 {
        Stage::Hiding
    } else if k == 4 * frame_count + 1 {
        Stage::Showing
    } else if k > 4 * frame_count + 1 {
        Stage::Finished
    } else if (k - 1) % 4 == 0 {
        Stage::Moving(((k - 1) / 4) as usize)
    } else if (k - 1) % 4 == 1 {
        Stage::Writing(((k - 1) / 4) as usize)
    } else if (k - 1) % 4 == 2 {
        Stage::Flushing(((k - 1) / 4) as usize)
    } else {
        Stage::Sleeping(((k - 1) / 4) as usize)
    }
}

/// How many actions are still to come from a state if none of them fails.
pub open spec fn remaining_actions(state: Playback) -> int {
    match state.stage {
        Stage::Hiding => 4 * state.frame_count + 2,
        Stage::Moving(i) => 4 * (state.frame_count - i) + 1,
        Stage::Writing(i) => 4 * (state.frame_count - i),
        Stage::Flushing(i) => 4 * (state.frame_count - i) - 1,
        Stage::Sleeping(i) => 4 * (state.frame_count - i) - 2,
        Stage::Showing => 1,
        Stage::Finished => 0,
    }
}

/// The frame that a stage works on lies among the frames to be played.
pub open spec fn in_range(state: Playback) -> bool {
    match state.stage {
        Stage::Moving(i) | Stage::Writing(i) | Stage::Flushing(i) | Stage::Sleeping(i) => i
            < state.frame_count,
        _ => true,
    }
}

/// While nothing fails, the states of a playback follow the script one stage
/// at a time, with no failure recorded.
pub proof fn lemma_successes_follow_script(frame_count: usize, delay_millis: u64, steps: nat)
    ensures
        after_successes(initial(frame_count, delay_millis), steps) == (Playback {
            frame_count,
            delay_millis,
            stage: script_stage(frame_count, steps as int),
            failed: false,
        }),
    decreases steps,
{
    if steps > 0 {
        lemma_successes_follow_script(frame_count, delay_millis, (steps - 1) as nat);
        let k = steps - 1;
        assert(script_stage(frame_count, k + 1) == stage_after_success(
            frame_count,
            script_stage(frame_count, k),
        ));
    }
}

/// A playback in which nothing fails performs exactly this: it hides the
/// cursor; then, for each frame in order, it moves the cursor home, writes
/// the frame, flushes and waits for the delay; then it shows the cursor; and
/// then it has finished without failure.
pub proof fn lemma_script(frame_count: usize, delay_millis: u64)
    ensures
        forall|k: nat|
            k < script_len(frame_count) ==> pending_action(
                #[trigger] after_successes(initial(frame_count, delay_millis), k),
            ) == Some(script_action(frame_count, delay_millis, k as int)),
        after_successes(initial(frame_count, delay_millis), script_len(frame_count)).stage
            == Stage::Finished,
        !after_successes(initial(frame_count, delay_millis), script_len(frame_count)).failed,
        script_action(frame_count, delay_millis, 0) == Action::HideCursor,
        script_action(frame_count, delay_millis, script_len(frame_count) - 1)
            == Action::ShowCursor,
        forall|i: int|
            0 <= i < frame_count ==> {
                &&& #[trigger] script_action(frame_count, delay_millis, 4 * i + 1)
                    == Action::MoveToOrigin
                &&& script_action(frame_count, delay_millis, 4 * i + 2) == Action::WriteFrame(
                    i as usize,
                )
                &&& script_action(frame_count, delay_millis, 4 * i + 3) == Action::Flush
                &&& script_action(frame_count, delay_millis, 4 * i + 4) == Action::Sleep(
                    delay_millis,
                )
            },
{
    assert forall|k: nat| k < script_len(frame_count) implies pending_action(
        #[trigger] after_successes(initial(frame_count, delay_millis), k),
    ) == Some(script_action(frame_count, delay_millis, k as int)) by {
        lemma_successes_follow_script(frame_count, delay_millis, k);
    }
    lemma_successes_follow_script(frame_count, delay_millis, script_len(frame_count));
}

/// Whatever fails before the cursor is shown again, the very next action
/// shows the cursor, the playback finishes right after it, and it finishes as
/// failed.
pub proof fn lemma_failure_restores_cursor(state: Playback, show_succeeded: bool)
    requires
        state.stage != Stage::Finished,
        state.stage != Stage::Showing,
    ensures
        pending_action(next_state(state, false)) == Some(Action::ShowCursor),
        next_state(next_state(state, false), show_succeeded).stage == Stage::Finished,
        next_state(next_state(state, false), show_succeeded).failed,
{
}

/// A failure is never forgotten, and a finished playback stays as it is.
pub proof fn lemma_failure_is_kept(state: Playback, succeeded: bool)
    ensures
        state.failed ==> next_state(state, succeeded).failed,
        state.stage == Stage::Finished ==> next_state(state, succeeded) == state,
        next_state(state, succeeded).frame_count == state.frame_count,
        next_state(state, succeeded).delay_millis == state.delay_millis,
{
}

/// Each action brings an unfinished playback nearer to its end, so a
/// playback of `n` frames finishes after at most `4 * n + 2` actions, and the
/// frame it works on stays among the frames to be played.
pub proof fn lemma_progress(state: Playback, succeeded: bool)
    requires
        in_range(state),
        state.stage != Stage::Finished,
    ensures
        in_range(next_state(state, succeeded)),
        0 <= remaining_actions(next_state(state, succeeded)) < remaining_actions(state),
        remaining_actions(state) <= script_len(state.frame_count),
{
}

impl Playback {
    /// Begins a playback of `frame_count` frames with `delay_millis` after
    /// each of them.
    pub fn new(frame_count: usize, delay_millis: u64) -> (state: Playback)
        ensures
            state == initial(frame_count, delay_millis),
    {
        Playback { frame_count, delay_millis, stage: Stage::Hiding, failed: false }
    }

    /// The action to perform now, or `None` when the playback has finished.
    pub fn pending(&self) -> (action: Option<Action>)
        ensures
            action == pending_action(*self),
    {
        match self.stage {
            Stage::Hiding => Some(Action::HideCursor),
            Stage::Moving(_) => Some(Action::MoveToOrigin),
            Stage::Writing(i) => Some(Action::WriteFrame(i)),
            Stage::Flushing(_) => Some(Action::Flush),
            Stage::Sleeping(_) => Some(Action::Sleep(self.delay_millis)),
            Stage::Showing => Some(Action::ShowCursor),
            Stage::Finished => None,
        }
    }

    /// The state after the pending action has been tried, given whether it
    /// succeeded.
    pub fn advance(self, succeeded: bool) -> (next: Playback)
        ensures
            next == next_state(self, succeeded),
    {
        match self.stage {
            Stage::Finished => self,
            Stage::Showing => Playback {
                frame_count: self.frame_count,
                delay_millis: self.delay_millis,
                stage: Stage::Finished,
                failed: self.failed || !succeeded,
            },
            stage => {
                if !succeeded {
                    Playback {
                        frame_count: self.frame_count,
                        delay_millis: self.delay_millis,
                        stage: Stage::Showing,
                        failed: true,
                    }
                } else {
                    let following = match stage {
                        Stage::Hiding => if self.frame_count > 0 {
                            Stage::Moving(0)
                        } else {
                            Stage::Showing
                        },
                        Stage::Moving(i) => Stage::Writing(i),
                        Stage::Writing(i) => Stage::Flushing(i),
                        Stage::Flushing(i) => Stage::Sleeping(i),
                        Stage::Sleeping(i) => if i < self.frame_count && i + 1 < self.frame_count {
                            Stage::Moving(i + 1)
                        } else {
                            Stage::Showing
                        },
                        Stage::Showing => Stage::Finished,
                        Stage::Finished => Stage::Finished,
                    };
                    Playback {
                        frame_count: self.frame_count,
                        delay_millis: self.delay_millis,
                        stage: following,
                        failed: self.failed,
                    }
                }
            },
        }
    }

    /// Whether nothing is left to do.
    pub fn is_finished(&self) -> (done: bool)
        ensures
            done == (self.stage == Stage::Finished),
    {
        match self.stage {
            Stage::Finished => true,
            _ => false,
        }
    }

    /// Whether some action has failed so far.
    pub fn has_failed(&self) -> (failed: bool)
        ensures
            failed == self.failed,
    {
        self.failed
    }
}

} // verus!
