use ascii_video::playback::{Action, Playback, Stage};

/// Runs a playback to its end; the action with number `fail_at` fails.
fn run(frame_count: usize, delay: u64, fail_at: Option<usize>) -> (Vec<Action>, Playback) {
    let mut state = Playback::new(frame_count, delay);
    let mut actions: Vec<Action> = Vec::new();
    while let Some(action) = state.pending() {
        let succeeded = fail_at != Some(actions.len());
        actions.push(action);
        state = state.advance(succeeded);
        assert!(actions.len() <= 4 * frame_count + 2);
    }
    (actions, state)
}

#[test]
fn playback_begins_by_hiding_the_cursor() {
    let state = Playback::new(3, 33);
    assert_eq!(state.stage, Stage::Hiding);
    assert_eq!(state.frame_count, 3);
    assert_eq!(state.delay_millis, 33);
    assert!(!state.has_failed());
    assert!(!state.is_finished());
    assert_eq!(state.pending(), Some(Action::HideCursor));
}

#[test]
fn playback_of_two_frames_follows_the_script() {
    let (actions, end) = run(2, 33, None);
    assert_eq!(
        actions,
        vec![
            Action::HideCursor,
            Action::MoveToOrigin,
            Action::WriteFrame(0),
            Action::Flush,
            Action::Sleep(33),
            Action::MoveToOrigin,
            Action::WriteFrame(1),
            Action::Flush,
            Action::Sleep(33),
            Action::ShowCursor,
        ]
    );
    assert!(end.is_finished());
    assert!(!end.has_failed());
}

#[test]
fn playback_of_no_frames_hides_and_shows_the_cursor() {
    let (actions, end) = run(0, 5, None);
    assert_eq!(actions, vec![Action::HideCursor, Action::ShowCursor]);
    assert!(end.is_finished());
    assert!(!end.has_failed());
}

#[test]
fn playback_writes_every_frame_once_in_order() {
    let (actions, end) = run(25, 1, None);
    assert_eq!(actions.len(), 4 * 25 + 2);
    let mut written: Vec<usize> = Vec::new();
    for action in &actions {
        if let Action::WriteFrame(i) = action {
            written.push(*i);
        }
    }
    let expected: Vec<usize> = (0..25).collect();
    assert_eq!(written, expected);
    assert!(!end.has_failed());
}

#[test]
fn playback_sleeps_after_every_frame_for_the_delay() {
    let (actions, _) = run(4, 40, None);
    let sleeps = actions.iter().filter(|a| **a == Action::Sleep(40)).count();
    assert_eq!(sleeps, 4);
    assert_eq!(actions[actions.len() - 2], Action::Sleep(40));
}

#[test]
fn failed_write_still_shows_the_cursor() {
    let (actions, end) = run(3, 33, Some(2));
    assert_eq!(
        actions,
        vec![
            Action::HideCursor,
            Action::MoveToOrigin,
            Action::WriteFrame(0),
            Action::ShowCursor,
        ]
    );
    assert!(end.is_finished());
    assert!(end.has_failed());
}

#[test]
fn failed_flush_of_a_later_frame_still_shows_the_cursor() {
    let (actions, end) = run(3, 33, Some(7));
    assert_eq!(actions.len(), 9);
    assert_eq!(actions[7], Action::Flush);
    assert_eq!(actions[8], Action::ShowCursor);
    assert!(end.has_failed());
}

#[test]
fn failed_hide_still_shows_the_cursor() {
    let (actions, end) = run(3, 33, Some(0));
    assert_eq!(actions, vec![Action::HideCursor, Action::ShowCursor]);
    assert!(end.has_failed());
}

#[test]
fn failed_show_makes_the_playback_fail() {
    let (actions, end) = run(1, 33, Some(5));
    assert_eq!(actions.len(), 6);
    assert_eq!(actions[5], Action::ShowCursor);
    assert!(end.is_finished());
    assert!(end.has_failed());
}

#[test]
fn every_failure_point_ends_with_show_cursor() {
    let frame_count: usize = 3;
    let mut fail_at: usize = 0;
    while fail_at < 4 * frame_count + 2 {
        let (actions, end) = run(frame_count, 10, Some(fail_at));
        assert_eq!(actions[0], Action::HideCursor);
        assert_eq!(actions[actions.len() - 1], Action::ShowCursor);
        let shows = actions.iter().filter(|a| **a == Action::ShowCursor).count();
        assert_eq!(shows, 1);
        assert!(end.is_finished());
        assert!(end.has_failed());
        fail_at += 1;
    }
}

#[test]
fn finished_playback_stays_finished() {
    let (_, end) = run(1, 33, None);
    let again = end.advance(false);
    assert_eq!(again, end);
    assert_eq!(again.pending(), None);
    assert!(!again.has_failed());
}

#[test]
fn advance_steps_through_one_frame() {
    let state = Playback::new(1, 9);
    let state = state.advance(true);
    assert_eq!(state.stage, Stage::Moving(0));
    let state = state.advance(true);
    assert_eq!(state.stage, Stage::Writing(0));
    let state = state.advance(true);
    assert_eq!(state.stage, Stage::Flushing(0));
    let state = state.advance(true);
    assert_eq!(state.stage, Stage::Sleeping(0));
    assert_eq!(state.pending(), Some(Action::Sleep(9)));
    let state = state.advance(true);
    assert_eq!(state.stage, Stage::Showing);
    let state = state.advance(true);
    assert_eq!(state.stage, Stage::Finished);
}
