//! What an audio backend can do, and what is asked of one.

use crate::constants::SongState;
use vstd::prelude::*;

verus! {

/// The two backends between which files are routed.
#[derive(Clone, Copy, PartialEq, Eq, Debug, Structural)]
pub enum BackendKind {
    /// Decodes and plays on a worker thread of its own.
    InProcess,
    /// Hands the file to an outside media player.
    External,
}

/// Something asked of a backend.
#[derive(Debug)]
pub enum Command {
    /// Play the file, in place of whatever was loaded.
    Start(String),
    Pause,
    /// Pause without telling the user.
    SilentPause,
    Resume,
    Stop,
    /// Resume if paused, pause if playing.
    Toggle,
}

/// A command as a mathematical value.
pub enum CommandView {
    Start(Seq<char>),
    Pause,
    SilentPause,
    Resume,
    Stop,
    Toggle,
}

impl View for Command {
    type V = CommandView;

    open spec fn view(&self) -> CommandView {
        match *self {
            Command::Start(file) => CommandView::Start(file@),
            Command::Pause => CommandView::Pause,
            Command::SilentPause => CommandView::SilentPause,
            Command::Resume => CommandView::Resume,
            Command::Stop => CommandView::Stop,
            Command::Toggle => CommandView::Toggle,
        }
    }
}

/// A command and the backend it is meant for.
#[derive(Debug)]
pub struct Directive {
    pub backend: BackendKind,
    pub command: Command,
}

/// A directive as a mathematical value.
pub struct DirectiveView {
    pub backend: BackendKind,
    pub command: CommandView,
}

impl View for Directive {
    type V = DirectiveView;

    open spec fn view(&self) -> DirectiveView {
        DirectiveView { backend: self.backend, command: self.command@ }
    }
}

/// The directives as mathematical values.
pub open spec fn directive_views(directives: Seq<Directive>) -> Seq<DirectiveView> {
    Seq::new(directives.len(), |i: int| directives[i]@)
}

/// What a toggle asks of a backend in `state`: to resume a paused track, to
/// pause a playing one, and nothing of one that has ended.
pub open spec fn toggled(state: SongState) -> Option<CommandView> {
    match state {
        SongState::Paused => Some(CommandView::Resume),
        SongState::Playing => Some(CommandView::Pause),
        SongState::Ended => None,
    }
}

/// Decides what a toggle does in `state`.
pub fn toggle_action(state: SongState) -> (action: Option<Command>)
    ensures
        match action {
            Some(command) => toggled(state) == Some(command@),
            None => toggled(state) is None,
        },
{
    match state {
        SongState::Paused => Some(Command::Resume),
        SongState::Playing => Some(Command::Pause),
        SongState::Ended => None,
    }
}

/// Whether a backend in `state` has a track loaded that has not ended.
pub fn is_busy(state: SongState) -> (busy: bool)
    ensures
        busy == (state != SongState::Ended),
{
    match state {
        SongState::Ended => false,
        _ => true,
    }
}

/// The capabilities of an audio backend.
pub trait AudioBackend {
    fn stop(&mut self);

    /// Begins to play a file, in place of whatever was loaded.
    fn start(&mut self, file_name: &str);

    fn pause(&mut self);

    /// Pauses without telling the user.
    fn silent_pause(&mut self);

    fn resume(&mut self);

    /// Whether a track is loaded that has not ended.
    fn busy(&self) -> bool;

    fn state(&self) -> SongState;

    /// Resumes a paused track and pauses a playing one; does nothing when
    /// the track has ended.
    fn toggle(&mut self) {
        match toggle_action(self.state()) {
            Some(Command::Resume) => self.resume(),
            Some(Command::Pause) => self.pause(),
            _ => {},
        }
    }

    /// The file that is loaded.
    fn file_name(&self) -> String;
}

/// What a backend says of its track when it is asked.
#[derive(Debug)]
pub struct PlaybackState {
    /// The file that the backend has loaded.
    pub file_path: String,
    pub backend_kind: BackendKind,
    pub song_state: SongState,
}

/// Asks `backend`, which is of kind `kind`, for the file it has loaded and
/// the state of its track. What the backend answers is its own affair.
pub fn poll<B: AudioBackend>(backend: &B, kind: BackendKind) -> (polled: PlaybackState)
    ensures
        polled.backend_kind == kind,
{
    PlaybackState { file_path: backend.file_name(), backend_kind: kind, song_state: backend.state() }
}

} // verus!
