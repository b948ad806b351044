use res_switcher::control::{step, ChannelEvent, LoopState, StepAction};
use res_switcher::modes::{Command, DisplayMode, ScalingMode};

fn mode(w: u32, h: u32, r: u32, scaling: ScalingMode, idx: u32) -> DisplayMode {
    DisplayMode { width: w, height: h, refresh_rate: r, scaling, os_index: idx }
}

#[test]
fn quit_terminates_in_one_step() {
    let (state, action) = step(LoopState::Running, ChannelEvent::Received(Command::Quit));
    assert_eq!(state, LoopState::Terminated);
    assert_eq!(action, StepAction::DoNothing);
}

#[test]
fn quit_terminates_even_after_pending_switches() {
    // A SwitchTo read before the Quit does not delay termination past
    // the step that reads the Quit.
    let m = mode(1920, 1080, 60, ScalingMode::Default, 2);
    let events = vec![
        ChannelEvent::Received(Command::SwitchTo(m)),
        ChannelEvent::TimedOut,
        ChannelEvent::Received(Command::Quit),
    ];
    let mut state = LoopState::Running;
    let mut steps_after_quit: u32 = 0;
    for ev in events {
        let quit = matches!(ev, ChannelEvent::Received(Command::Quit));
        let (next, _) = step(state, ev);
        state = next;
        if quit {
            steps_after_quit += 1;
            assert_eq!(state, LoopState::Terminated);
        }
    }
    assert_eq!(steps_after_quit, 1);
    assert_eq!(state, LoopState::Terminated);
}

#[test]
fn switch_applies_exactly_the_captured_mode() {
    let snapshot = mode(3840, 2160, 60, ScalingMode::Default, 17);
    let (state, action) = step(
        LoopState::Running,
        ChannelEvent::Received(Command::SwitchTo(snapshot)),
    );
    assert_eq!(state, LoopState::Running);
    // Exactly one invocation of the display mutator, with the exact
    // snapshot: the action carries it byte for byte.
    assert_eq!(action, StepAction::ApplyMode(snapshot));
}

#[test]
fn empty_poll_keeps_running_and_does_nothing() {
    let (state, action) = step(LoopState::Running, ChannelEvent::TimedOut);
    assert_eq!(state, LoopState::Running);
    assert_eq!(action, StepAction::DoNothing);
}

#[test]
fn disconnected_channel_terminates_defensively() {
    let (state, action) = step(LoopState::Running, ChannelEvent::Disconnected);
    assert_eq!(state, LoopState::Terminated);
    assert_eq!(action, StepAction::DoNothing);
}

#[test]
fn terminated_is_absorbing() {
    let m = mode(1280, 720, 60, ScalingMode::Default, 0);
    let events = vec![
        ChannelEvent::Received(Command::SwitchTo(m)),
        ChannelEvent::Received(Command::Quit),
        ChannelEvent::TimedOut,
        ChannelEvent::Disconnected,
    ];
    for ev in events {
        let (state, action) = step(LoopState::Terminated, ev);
        assert_eq!(state, LoopState::Terminated);
        assert_eq!(action, StepAction::DoNothing);
    }
}
