//! The decisions of the render loop.
//!
//! The loop itself belongs to whoever owns the terminal: it carries out one
//! action at a time and reports back what came of it. What to do next is
//! decided here, by `step`. A round goes: measure the screen, draw the frame
//! for that size, wait for one input event; then quit on the quit key, or
//! begin the next round. Any failure ends the loop at once.

use crate::frame::{compose, depicts, frame_spec, Placement};
use crate::layout::Region;
use vstd::prelude::*;

verus! {

/// The two states of the loop.
#[derive(Clone, Copy, Debug, PartialEq, Eq, Structural)]
pub enum LoopState {
    Running,
    /// The quit key was pressed. Nothing leads back from here.
    Stopped,
}

/// All the state the application has: whether it is still running.
#[derive(Clone, Copy, Debug, PartialEq, Eq, Structural)]
pub struct ApplicationState {
    pub running: bool,
}

/// One event from the terminal's input.
#[derive(Clone, Copy, Debug, PartialEq, Eq, Structural)]
pub enum InputEvent {
    /// A key that stands for a character.
    Key(char),
    /// Anything else: another key, the mouse, a change of size.
    Other,
}

/// A failure of the terminal: of a size query, of drawing or of reading input.
#[derive(Clone, Debug, PartialEq, Eq)]
pub struct IoFailure {
    /// What the terminal said went wrong.
    pub detail: String,
}

/// What came of the action that the loop carried out last.
#[derive(Debug)]
pub enum Report {
    /// The size query gave the size of the screen.
    Measured { width: u16, height: u16 },
    /// The frame is on the screen.
    Drawn,
    /// One input event arrived.
    Input(InputEvent),
    /// The action failed.
    Failed(IoFailure),
}

/// What the loop is to do next.
#[derive(Debug)]
pub enum Action {
    /// Ask the terminal for the size of the screen.
    Measure,
    /// Draw these panels, each into its region.
    Draw(Vec<Placement>),
    /// Wait until one input event arrives.
    AwaitInput,
    /// Leave the loop with this result.
    Return(Result<(), IoFailure>),
}

/// The key that ends the loop.
pub open spec fn quit_key() -> char {
    'q'
}

/// The whole screen of a terminal of the given size.
pub open spec fn screen_spec(width: u16, height: u16) -> Region {
    Region { x: 0, y: 0, width, height }
}

impl InputEvent {
    /// The event asks the loop to end: it is the quit key, in lower case.
    pub open spec fn is_quit_spec(self) -> bool {
        self == InputEvent::Key(quit_key())
    }

    /// Whether the event asks the loop to end.
    #[verifier::when_used_as_spec(is_quit_spec)]
    pub fn is_quit(self) -> (quit: bool)
        ensures
            quit == self.is_quit_spec(),
    {
        match self {
            InputEvent::Key(key) => key == 'q',
            InputEvent::Other => false,
        }
    }
}

impl ApplicationState {
    /// The state at the entry of the loop: running.
    pub fn new() -> (state: ApplicationState)
        ensures
            state.running,
            state.state_spec() == LoopState::Running,
    {
        ApplicationState { running: true }
    }

    pub open spec fn state_spec(self) -> LoopState {
        if self.running {
            LoopState::Running
        } else {
            LoopState::Stopped
        }
    }

    /// The state of the loop.
    #[verifier::when_used_as_spec(state_spec)]
    pub fn state(self) -> (state: LoopState)
        ensures
            state == self.state_spec(),
    {
        if self.running {
            LoopState::Running
        } else {
            LoopState::Stopped
        }
    }
}

/// The state after `report`. The only way out of `Running` is the quit key;
/// there is no way out of `Stopped`.
pub open spec fn next_state(state: ApplicationState, report: Report) -> ApplicationState {
    match report {
        Report::Input(event) => ApplicationState { running: state.running && !event.is_quit() },
        _ => state,
    }
}

/// `action` is what the loop does after `report` when it was in `state`.
pub open spec fn is_next_action(state: ApplicationState, report: Report, action: Action) -> bool {
    if !state.running {
        action == Action::Return(Ok(()))
    } else {
        match report {
            Report::Measured { width, height } => {
                &&& action is Draw
                &&& depicts(action->Draw_0@, frame_spec(screen_spec(width, height)))
            },
            Report::Drawn => action == Action::AwaitInput,
            Report::Input(event) => if event.is_quit() {
                action == Action::Return(Ok(()))
            } else {
                action == Action::Measure
            },
            Report::Failed(failure) => action == Action::Return(Err(failure)),
        }
    }
}

/// The action with which the loop begins: a size query.
pub fn first_action() -> (action: Action)
    ensures
        action == Action::Measure,
{
    Action::Measure
}

/// Decides what the loop does next, given its state and what came of its last
/// action.
pub fn step(state: ApplicationState, report: Report) -> (next: (ApplicationState, Action))
    ensures
        next.0 == next_state(state, report),
        is_next_action(state, report, next.1),
{
    if !state.running {
        return (state, Action::Return(Ok(())));
    }
    match report {
        Report::Measured { width, height } => {
            let screen = Region { x: 0, y: 0, width, height };
            (state, Action::Draw(compose(screen)))
        },
        Report::Drawn => (state, Action::AwaitInput),
        Report::Input(event) => {
            if event.is_quit() {
                (ApplicationState { running: false }, Action::Return(Ok(())))
            } else {
                (state, Action::Measure)
            }
        },
        Report::Failed(failure) => (state, Action::Return(Err(failure))),
    }
}

} // verus!
