//! The decisions of the in-process backend's worker.
//!
//! The worker owns the audio sink and takes its orders from a queue, one
//! event at a time. What it does to the sink and what state it publishes is
//! decided here; the sink itself and the queue belong to the caller, who
//! carries out the actions in their sequence.

use crate::backend_trait::{Command, CommandView};
use crate::constants::SongState;
use vstd::prelude::*;

verus! {

/// The kinds of event that the worker takes from its queue.
#[derive(Clone, Copy, PartialEq, Eq, Debug, Structural)]
pub enum EventType {
    Start,
    Play,
    Pause,
    SilentPause,
    Stop,
    /// Housekeeping: look whether the sink has run empty.
    Tick,
}

/// An event of the worker's queue.
#[derive(Debug)]
pub struct Event {
    pub event_type: EventType,
    /// The file to start; empty for the other kinds.
    pub file_name: String,
}

/// Something the worker does to its sink.
#[derive(Debug)]
pub enum SinkAction {
    /// Stop the sink and put a fresh one in its place.
    Renew,
    /// Open the file, decode it, append it to the sink and play.
    Load(String),
    Play,
    Pause,
    Stop,
}

/// What the worker publishes: the state of its track and the file it loaded.
#[derive(Debug)]
pub struct Worker {
    pub state: SongState,
    pub file_name: String,
}

/// What one event made the worker do.
#[derive(Debug)]
pub struct Step {
    /// What to do to the sink, in this sequence.
    pub actions: Vec<SinkAction>,
    /// Whether the user is told of the new state.
    pub echo: bool,
}

/// The state after an event of kind `event_type`.
pub open spec fn state_after(state: SongState, event_type: EventType, sink_empty: bool) -> SongState {
    match event_type {
        EventType::Start | EventType::Play => SongState::Playing,
        EventType::Pause | EventType::SilentPause => SongState::Paused,
        EventType::Stop => SongState::Ended,
        EventType::Tick => if sink_empty {
            SongState::Ended
        } else {
            state
        },
    }
}

/// What is done to the sink on `event`.
pub open spec fn actions_on(event: Event, sink_empty: bool) -> Seq<SinkAction> {
    match event.event_type {
        EventType::Start => if sink_empty {
            seq![SinkAction::Load(event.file_name)]
        } else {
            seq![SinkAction::Renew, SinkAction::Load(event.file_name)]
        },
        EventType::Play => seq![SinkAction::Play],
        EventType::Pause | EventType::SilentPause => seq![SinkAction::Pause],
        EventType::Stop => seq![SinkAction::Stop],
        EventType::Tick => Seq::empty(),
    }
}

/// Whether the user is told of what an event of kind `event_type` did: of a
/// start, a resume and a pause, not of a silent pause, a stop or a tick.
pub open spec fn is_echoed(event_type: EventType) -> bool {
    event_type == EventType::Start || event_type == EventType::Play || event_type
        == EventType::Pause
}

/// The event by which a command reaches the worker; a toggle has none, it is
/// settled into a resume or a pause before it is sent.
pub open spec fn event_type_of(command: CommandView) -> Option<EventType> {
    match command {
        CommandView::Start(_) => Some(EventType::Start),
        CommandView::Pause => Some(EventType::Pause),
        CommandView::SilentPause => Some(EventType::SilentPause),
        CommandView::Resume => Some(EventType::Play),
        CommandView::Stop => Some(EventType::Stop),
        CommandView::Toggle => None,
    }
}

impl Worker {
    /// A worker with nothing loaded.
    pub fn new() -> (worker: Worker)
        ensures
            worker.state == SongState::Ended,
            worker.file_name@.len() == 0,
    {
        Worker { state: SongState::Ended, file_name: String::new() }
    }

    /// Takes one event from the queue. `sink_empty` tells whether the sink
    /// holds nothing more to play.
    ///
    /// A start replaces what was loaded: a sink that is not empty is renewed
    /// before the file is loaded, so that one stream is heard. A tick marks
    /// the track as ended once the sink has run empty.
    pub fn on_event(&mut self, event: Event, sink_empty: bool) -> (step: Step)
        ensures
            final(self).state == state_after(old(self).state, event.event_type, sink_empty),
            final(self).file_name == if event.event_type == EventType::Start {
                event.file_name
            } else {
                old(self).file_name
            },
            step.actions@ == actions_on(event, sink_empty),
            step.echo == is_echoed(event.event_type),
    {
        let mut actions: Vec<SinkAction> = Vec::new();
        let mut echo = false;
        match event.event_type {
            EventType::Start => {
                self.state = SongState::Playing;
                if !sink_empty {
                    actions.push(SinkAction::Renew);
                }
                actions.push(SinkAction::Load(event.file_name.clone()));
                self.file_name = event.file_name;
                echo = true;
            },
            EventType::Play => {
                actions.push(SinkAction::Play);
                self.state = SongState::Playing;
                echo = true;
            },
            EventType::Pause => {
                actions.push(SinkAction::Pause);
                self.state = SongState::Paused;
                echo = true;
            },
            EventType::SilentPause => {
                actions.push(SinkAction::Pause);
                self.state = SongState::Paused;
            },
            EventType::Stop => {
                actions.push(SinkAction::Stop);
                self.state = SongState::Ended;
            },
            EventType::Tick => {
                if sink_empty {
                    self.state = SongState::Ended;
                }
            },
        }
        proof {
            assert(actions@ =~= actions_on(event, sink_empty));
        }
        Step { actions, echo }
    }

    /// The file of the last start could not be opened or decoded: its track
    /// counts as ended, so that the next one can be played.
    pub fn on_load_failed(&mut self)
        ensures
            final(self).state == SongState::Ended,
            final(self).file_name == old(self).file_name,
    {
        self.state = SongState::Ended;
    }
}

/// The event that carries `command` to the worker.
pub fn event_for(command: Command) -> (event: Option<Event>)
    ensures
        match event {
            Some(event) => {
                &&& event_type_of(command@) == Some(event.event_type)
                &&& event.file_name@ == match command {
                    Command::Start(file) => file@,
                    _ => Seq::<char>::empty(),
                }
            },
            None => event_type_of(command@) is None,
        },
{
    match command {
        Command::Start(file) => Some(Event { event_type: EventType::Start, file_name: file }),
        Command::Pause => Some(Event { event_type: EventType::Pause, file_name: String::new() }),
        Command::SilentPause => Some(
            Event { event_type: EventType::SilentPause, file_name: String::new() },
        ),
        Command::Resume => Some(Event { event_type: EventType::Play, file_name: String::new() }),
        Command::Stop => Some(Event { event_type: EventType::Stop, file_name: String::new() }),
        Command::Toggle => None,
    }
}

/// The event that a poll of the state puts on the queue.
pub fn tick_event() -> (event: Event)
    ensures
        event.event_type == EventType::Tick,
        event.file_name@.len() == 0,
{
    Event { event_type: EventType::Tick, file_name: String::new() }
}

} // verus!
