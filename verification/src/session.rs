//! The two tabs of the player and the keys that lead from one to the other.

use crate::backend_trait::{directive_views, Directive, DirectiveView};
use crate::config::{switch_play_mode, switches_play_mode, Config};
use crate::directories::{initial_directories, Directories, DirectoryOutcome, State};
use crate::files::{initial_files, Files, FilesView};
use crate::index::{raw_index, ScannedEntry};
use crate::keys::{Chord, Key, Modifiers};
use crate::ui::Tab;
use crate::watch::{DirtyFlag, PlayerError};
use vstd::prelude::*;

verus! {

/// The player: its two tabs, and which of them takes the key presses.
pub struct App {
    pub current_place: Tab,
    pub directories: Directories,
    pub files: Files,
}

/// What the caller has to do after a key press.
#[derive(Debug)]
pub struct AppOutcome {
    /// What to ask of the backends, in this sequence.
    pub directives: Vec<Directive>,
    /// Read the subdirectories of the working directory and hand them in.
    pub reload: bool,
    /// Write the settings.
    pub persist: bool,
    /// The completion that was entered, where one was.
    pub entered: Option<String>,
}

/// A player that has just started, and what its start calls for.
pub struct Startup {
    pub app: App,
    /// What to ask of the backends, in this sequence.
    pub directives: Vec<Directive>,
    /// The roots to watch.
    pub watch: Vec<String>,
}

/// Whether `chord` ends the player: Control with `c` or with `d`.
pub open spec fn is_quit(chord: Chord) -> bool {
    chord.modifiers == Modifiers::Control && (chord.key == Key::Char('c') || chord.key
        == Key::Char('d'))
}

/// Whether `chord` changes the play mode: Control with `t`.
pub open spec fn is_mode_switch(chord: Chord) -> bool {
    chord.modifiers == Modifiers::Control && chord.key == Key::Char('t')
}

/// The files of a player that starts with the settings `config` and the scan
/// `scanned` of their active roots, before the first play: the roots taken,
/// the index built from the scan, the cursor on the file that the settings
/// name, and no file current.
pub open spec fn files_at_start(
    config: Config,
    scanned: Seq<ScannedEntry>,
    external_enabled: bool,
) -> FilesView {
    let rooted = initial_files(config, external_enabled).rerooted(config.working_directories@);
    let indexed = FilesView {
        generation: crate::files::next_generation(rooted.generation),
        lines: raw_index(scanned, rooted.extensions),
        ..rooted
    };
    FilesView { current_file: Seq::empty(), ..indexed.refiltered() }
}

impl App {
    /// Starts the player: takes the roots of the settings, builds the index
    /// from `scanned`, what a walk of the active roots saw, and plays the
    /// line of the file that the settings name as the current one, or the
    /// first line where that file is not listed.
    pub fn new(
        config: &mut Config,
        audio_dir: &str,
        completions: Vec<String>,
        scanned: &Vec<ScannedEntry>,
        external_enabled: bool,
        busy: bool,
    ) -> (startup: Startup)
        ensures
            startup.app.current_place == Tab::Directories,
            startup.app.directories@ == initial_directories(
                *old(config),
                audio_dir@,
                completions@,
            ),
            startup.app.files@ == files_at_start(*old(config), scanned@, external_enabled).played(),
            directive_views(startup.directives@) == files_at_start(
                *old(config),
                scanned@,
                external_enabled,
            ).play_directives(busy),
            files_at_start(*old(config), scanned@, external_enabled).noted(
                *old(config),
                *final(config),
            ),
            startup.watch@ == crate::config::active_roots(old(config).working_directories@),
            startup.app.files@.wf(),
    {
        let mut files = Files::new(config, external_enabled);
        let directories = Directories::new(config, audio_dir, completions);
        let plan = files.update_paths(directories.working_directories());
        let ticket = files.start_rebuild();
        let _ = files.update_lines(ticket, scanned);
        files.update_lines_filtered();
        files.clear_current_file();
        let directives = files.play_file(config, busy);
        Startup {
            app: App { current_place: Tab::Directories, directories, files },
            directives,
            watch: plan.watch,
        }
    }

    /// Goes to the other tab.
    pub fn cycle_tab(&mut self)
        ensures
            final(self).current_place == old(self).current_place.other(),
            final(self).directories == old(self).directories,
            final(self).files == old(self).files,
    {
        self.current_place = self.current_place.cycled();
    }

    /// The tick's look at the watcher's flag: see `Files::on_tick`.
    pub fn handle_tick(&mut self, flag: &mut DirtyFlag) -> (ticket: Result<Option<u64>, PlayerError>)
        ensures
            final(self).current_place == old(self).current_place,
            final(self).directories == old(self).directories,
            old(self).files@.ticks_to(*old(flag), final(self).files@, *final(flag), ticket),
            final(self).files@.wf(),
    {
        self.files.on_tick(flag)
    }

    /// Hands a key press to the tab that takes it.
    ///
    /// Tab leads to the other tab, except on the line on which a new root is
    /// chosen, where it enters a directory. In the files tab Control with `t`
    /// changes the play mode. Every other key goes to the current tab.
    /// `height` is the number of lines that the list of files shows; `busy`
    /// tells whether the governing backend is at work.
    pub fn handle_event_movement(
        &mut self,
        height: u16,
        chord: Chord,
        config: &mut Config,
        busy: bool,
    ) -> (outcome: AppOutcome)
        ensures
            moves(
                *old(self),
                height,
                chord,
                *final(self),
                *old(config),
                *final(config),
                busy,
                outcome,
            ),
            final(self).files@.wf(),
    {
        proof {
            use_type_invariant(&self.files);
        }
        match self.current_place {
            Tab::Directories => {
                let leaves_tab = match chord.key {
                    Key::Tab => match self.directories.state() {
                        State::Base => true,
                        State::Editing => false,
                    },
                    _ => false,
                };
                if leaves_tab {
                    self.cycle_tab();
                    proof {
                        assert(directive_views(Seq::<Directive>::empty()) =~= Seq::<
                            DirectiveView,
                        >::empty());
                    }
                    AppOutcome { directives: Vec::new(), reload: false, persist: false, entered: None }
                } else {
                    let done = self.directories.handle_event(chord, config);
                    AppOutcome {
                        directives: Vec::new(),
                        reload: done.reload,
                        persist: done.persist,
                        entered: done.entered,
                    }
                }
            },
            Tab::Files => {
                let is_tab = match chord.key {
                    Key::Tab => true,
                    _ => false,
                };
                let is_t = match chord.key {
                    Key::Char(ch) => ch == 't',
                    _ => false,
                };
                if is_tab {
                    self.cycle_tab();
                    AppOutcome { directives: Vec::new(), reload: false, persist: false, entered: None }
                } else if chord.modifiers == Modifiers::Control && is_t {
                    switch_play_mode(config);
                    AppOutcome { directives: Vec::new(), reload: false, persist: true, entered: None }
                } else {
                    let directives = self.files.handle_event(height, chord, config, busy);
                    let persist = directives.len() > 0;
                    AppOutcome { directives, reload: false, persist, entered: None }
                }
            },
        }
    }

    /// Takes a key press. Control with `c` or with `d` ends the player, which
    /// the error tells; every other key is handed to the tab that takes it.
    pub fn handle_event(&mut self, height: u16, chord: Chord, config: &mut Config, busy: bool) -> (
        outcome: Result<AppOutcome, ()>)
        ensures
            match outcome {
                Err(_) => is_quit(chord) && *final(self) == *old(self) && *final(config) == *old(
                    config,
                ),
                Ok(outcome) => !is_quit(chord) && moves(
                    *old(self),
                    height,
                    chord,
                    *final(self),
                    *old(config),
                    *final(config),
                    busy,
                    outcome,
                ),
            },
            final(self).files@.wf(),
    {
        proof {
            use_type_invariant(&self.files);
        }
        let quits = match chord.key {
            Key::Char(ch) => chord.modifiers == Modifiers::Control && (ch == 'c' || ch == 'd'),
            _ => false,
        };
        if quits {
            return Err(());
        }
        Ok(self.handle_event_movement(height, chord, config, busy))
    }
}

/// Whether `after`, `config_after` and `outcome` are what the key press
/// `chord` leads to from the player `before` and the settings `config_before`.
pub open spec fn moves(
    before: App,
    height: u16,
    chord: Chord,
    after: App,
    config_before: Config,
    config_after: Config,
    busy: bool,
    outcome: AppOutcome,
) -> bool {
    let leaves_tab = chord.key == Key::Tab && (before.current_place == Tab::Files
        || before.directories@.state == State::Base);
    if leaves_tab {
        &&& after.current_place == before.current_place.other()
        &&& after.directories == before.directories
        &&& after.files == before.files
        &&& config_after == config_before
        &&& outcome.directives@.len() == 0
        &&& !outcome.reload
        &&& !outcome.persist
        &&& outcome.entered is None
    } else {
        &&& after.current_place == before.current_place
        &&& match before.current_place {
            Tab::Directories => {
                &&& after.files == before.files
                &&& outcome.directives@.len() == 0
                &&& before.directories@.steps_to(
                    chord,
                    after.directories@,
                    config_before,
                    config_after,
                    DirectoryOutcome {
                        reload: outcome.reload,
                        persist: outcome.persist,
                        entered: outcome.entered,
                    },
                )
            },
            Tab::Files => {
                &&& after.directories == before.directories
                &&& !outcome.reload
                &&& outcome.entered is None
                &&& if is_mode_switch(chord) {
                    &&& after.files == before.files
                    &&& outcome.directives@.len() == 0
                    &&& outcome.persist
                    &&& switches_play_mode(config_before, config_after)
                } else {
                    &&& before.files@.handles(
                        height,
                        chord,
                        after.files@,
                        directive_views(outcome.directives@),
                        config_before,
                        config_after,
                        busy,
                    )
                    &&& outcome.persist == (outcome.directives@.len() > 0)
                }
            },
        }
    }
}

} // verus!
