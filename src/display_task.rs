//! The display task as a state machine.
//!
//! The task initializes the panel; if that fails, the task stops and the
//! rest of the system runs without a display. Then it loops: receive a
//! reading, append it to the history, show the most recent reading. A failed
//! refresh is only reported: the next reading draws the whole frame again.
use vstd::prelude::*;

use crate::history::keep_last;
use crate::history::History;
use crate::history::HISTORY_CAPACITY;
use crate::sample::Reading;

verus! {

/// Where the display task stands
#[derive(Copy, Clone, Debug, PartialEq, Eq, Structural)]
pub enum DisplayState {
    /// Not started
    Idle,
    /// Initializing the panel
    Initializing,
    /// Waiting for a reading
    Receiving,
    /// Drawing and refreshing the panel
    Showing,
    /// The panel could not be initialized
    Stopped,
}

/// What happened since the last action
#[derive(Copy, Clone, Debug)]
pub enum DisplayEvent {
    /// The task was started
    Started,
    /// Panel initialization finished, successfully or not
    Initialized(bool),
    /// A reading arrived
    Received(Reading),
    /// The refresh finished, successfully or not
    Shown(bool),
}

/// What to do next
#[derive(Copy, Clone, Debug, PartialEq, Eq, Structural)]
pub enum DisplayAction {
    /// Initialize the panel
    InitializePanel,
    /// Wait for the next reading
    Receive,
    /// Draw this reading and refresh the panel
    Show(Reading),
    /// End the task
    Stop,
    /// Nothing: the event does not belong to the current state
    Nothing,
}

/// The display task
pub struct DisplayTask {
    state: DisplayState,
}

impl DisplayTask {
    /// Where the task stands
    pub closed spec fn state_spec(&self) -> DisplayState {
        self.state
    }

    /// A task not started yet
    pub fn new() -> (r: DisplayTask)
        ensures
            r.state_spec() == DisplayState::Idle,
    {
        DisplayTask { state: DisplayState::Idle }
    }

    /// Where the task stands
    pub fn state(&self) -> (r: DisplayState)
        ensures
            r == self.state_spec(),
    {
        self.state
    }

    /// Take an event and return the next action
    pub fn step(&mut self, history: &mut History, event: DisplayEvent) -> (r: DisplayAction)
        ensures
            (old(self).state_spec(), event) matches (DisplayState::Idle, DisplayEvent::Started) ==> (
            final(self).state_spec() == DisplayState::Initializing && r == DisplayAction::InitializePanel),
            (old(self).state_spec(), event) matches (DisplayState::Initializing, DisplayEvent::Initialized(ok))
                ==> (if ok {
                final(self).state_spec() == DisplayState::Receiving && r == DisplayAction::Receive
            } else {
                final(self).state_spec() == DisplayState::Stopped && r == DisplayAction::Stop
            }),
            (old(self).state_spec(), event) matches (DisplayState::Receiving, DisplayEvent::Received(reading))
                ==> (final(self).state_spec() == DisplayState::Showing && final(history).view()
                == keep_last(old(history).view().push(reading), HISTORY_CAPACITY as nat) && r
                == DisplayAction::Show(reading)),
            (old(self).state_spec(), event) matches (DisplayState::Showing, DisplayEvent::Shown(_)) ==> (
            final(self).state_spec() == DisplayState::Receiving && r == DisplayAction::Receive),
            !((old(self).state_spec(), event) matches (DisplayState::Receiving, DisplayEvent::Received(_)))
                ==> final(history).view() == old(history).view(),
            !handled(old(self).state_spec(), event) ==> final(self).state_spec() == old(self).state_spec()
                && r == DisplayAction::Nothing,
    {
        match (self.state, event) {
            (DisplayState::Idle, DisplayEvent::Started) => {
                self.state = DisplayState::Initializing;
                DisplayAction::InitializePanel
            },
            (DisplayState::Initializing, DisplayEvent::Initialized(ok)) => {
                if ok {
                    self.state = DisplayState::Receiving;
                    DisplayAction::Receive
                } else {
                    self.state = DisplayState::Stopped;
                    DisplayAction::Stop
                }
            },
            (DisplayState::Receiving, DisplayEvent::Received(reading)) => {
                history.write(reading);
                self.state = DisplayState::Showing;
                DisplayAction::Show(reading)
            },
            (DisplayState::Showing, DisplayEvent::Shown(_)) => {
                self.state = DisplayState::Receiving;
                DisplayAction::Receive
            },
            _ => DisplayAction::Nothing,
        }
    }
}

/// Whether a state takes an event
pub open spec fn handled(state: DisplayState, event: DisplayEvent) -> bool {
    ||| (state, event) matches (DisplayState::Idle, DisplayEvent::Started)
    ||| (state, event) matches (DisplayState::Initializing, DisplayEvent::Initialized(_))
    ||| (state, event) matches (DisplayState::Receiving, DisplayEvent::Received(_))
    ||| (state, event) matches (DisplayState::Showing, DisplayEvent::Shown(_))
}

} // verus!
