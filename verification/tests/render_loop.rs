use tui_panels::layout::Region;
use tui_panels::render_loop::{
    first_action, step, Action, ApplicationState, InputEvent, IoFailure, LoopState, Report,
};

fn failure(detail: &str) -> IoFailure {
    IoFailure { detail: detail.to_string() }
}

#[test]
fn loop_starts_running_with_a_size_query() {
    let state = ApplicationState::new();
    assert!(state.running);
    assert_eq!(state.state(), LoopState::Running);
    assert!(matches!(first_action(), Action::Measure));
}

#[test]
fn quit_key_stops_the_loop_with_ok() {
    let (state, action) = step(ApplicationState::new(), Report::Input(InputEvent::Key('q')));
    assert_eq!(state.state(), LoopState::Stopped);
    assert!(!state.running);
    assert!(matches!(action, Action::Return(Ok(()))));
}

#[test]
fn any_other_key_keeps_running_and_draws_a_new_frame() {
    for key in ['a', 'Q', 'x', ' ', '\n', '1'] {
        let (state, action) = step(ApplicationState::new(), Report::Input(InputEvent::Key(key)));
        assert_eq!(state.state(), LoopState::Running);
        assert!(matches!(action, Action::Measure));

        let (state, action) = step(state, Report::Measured { width: 100, height: 30 });
        assert_eq!(state.state(), LoopState::Running);
        match action {
            Action::Draw(frame) => assert_eq!(frame.len(), 4),
            other => panic!("expected a frame, got {:?}", other),
        }
    }
}

#[test]
fn event_that_is_no_key_keeps_running() {
    let (state, action) = step(ApplicationState::new(), Report::Input(InputEvent::Other));
    assert_eq!(state.state(), LoopState::Running);
    assert!(matches!(action, Action::Measure));
}

#[test]
fn only_lower_case_q_is_the_quit_key() {
    assert!(InputEvent::Key('q').is_quit());
    assert!(!InputEvent::Key('Q').is_quit());
    assert!(!InputEvent::Key('w').is_quit());
    assert!(!InputEvent::Other.is_quit());
}

#[test]
fn measured_screen_is_drawn_in_full() {
    let (state, action) = step(ApplicationState::new(), Report::Measured { width: 100, height: 30 });
    assert!(state.running);
    match action {
        Action::Draw(frame) => {
            let regions: Vec<Region> = frame.iter().map(|p| p.region).collect();
            assert_eq!(
                regions,
                vec![
                    Region { x: 0, y: 0, width: 50, height: 10 },
                    Region { x: 0, y: 10, width: 50, height: 10 },
                    Region { x: 0, y: 20, width: 50, height: 10 },
                    Region { x: 50, y: 0, width: 50, height: 30 },
                ]
            );
            assert_eq!(frame[0].panel.title, "Box 1");
            assert_eq!(frame[3].panel.title, "Right Box");
        }
        other => panic!("expected a frame, got {:?}", other),
    }
}

#[test]
fn largest_screen_is_drawn_without_overflow() {
    let (_, action) = step(ApplicationState::new(), Report::Measured { width: 65535, height: 65535 });
    match action {
        Action::Draw(frame) => {
            assert_eq!(frame[3].region, Region { x: 32767, y: 0, width: 32768, height: 65535 });
            assert_eq!(frame[2].region, Region { x: 0, y: 43254, width: 32767, height: 22281 });
        }
        other => panic!("expected a frame, got {:?}", other),
    }
}

#[test]
fn drawn_frame_is_followed_by_a_wait_for_input() {
    let (state, action) = step(ApplicationState::new(), Report::Drawn);
    assert!(state.running);
    assert!(matches!(action, Action::AwaitInput));
}

#[test]
fn failed_size_query_returns_the_failure_without_drawing() {
    let state = ApplicationState::new();
    let (state, action) = step(state, Report::Input(InputEvent::Key('x')));
    assert!(matches!(action, Action::Measure));
    let (state, action) = step(state, Report::Failed(failure("size query failed")));
    assert_eq!(state.state(), LoopState::Running);
    match action {
        Action::Return(Err(failed)) => assert_eq!(failed, failure("size query failed")),
        other => panic!("expected the failure, got {:?}", other),
    }
}

#[test]
fn failure_is_returned_as_it_was_reported() {
    let (_, action) = step(ApplicationState::new(), Report::Failed(failure("broken pipe")));
    match action {
        Action::Return(Err(failed)) => assert_eq!(failed.detail, "broken pipe"),
        other => panic!("expected the failure, got {:?}", other),
    }
}

#[test]
fn stopped_loop_stays_stopped() {
    let stopped = ApplicationState { running: false };
    for report in [
        Report::Measured { width: 80, height: 24 },
        Report::Drawn,
        Report::Input(InputEvent::Key('x')),
        Report::Input(InputEvent::Key('q')),
        Report::Failed(failure("late")),
    ] {
        let (state, action) = step(stopped, report);
        assert_eq!(state.state(), LoopState::Stopped);
        assert!(matches!(action, Action::Return(Ok(()))));
    }
}

#[test]
fn two_rounds_then_quit() {
    let mut state = ApplicationState::new();
    let mut action = first_action();
    let mut keys = vec!['q', 'j'];
    let mut frames = 0;
    let result = loop {
        let report = match action {
            Action::Measure => Report::Measured { width: 80, height: 24 },
            Action::Draw(frame) => {
                assert_eq!(frame.len(), 4);
                frames += 1;
                Report::Drawn
            }
            Action::AwaitInput => Report::Input(InputEvent::Key(keys.pop().unwrap())),
            Action::Return(result) => break result,
        };
        let next = step(state, report);
        state = next.0;
        action = next.1;
    };
    assert_eq!(result, Ok(()));
    assert_eq!(state.state(), LoopState::Stopped);
    assert_eq!(frames, 2);
    assert!(keys.is_empty());
}
