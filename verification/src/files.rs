//! The player's control core: the raw index and its filtered view, the cursor
//! into that view, the file that is playing, and the decisions that keep them
//! together.
//!
//! Nothing here touches a backend, the filesystem or the settings on disk.
//! Each step takes what the caller has learnt from them (a scan of the roots,
//! whether the governing backend is busy, the state of its track) and gives
//! back what to do: directives for the backends, paths to watch.

use crate::backend_trait::{
    directive_views, BackendKind, Command, CommandView, Directive, DirectiveView,
};
use crate::config::{active_paths, active_roots, notes_play, Config, PlayMode, WorkingPath};
use crate::filter::{
    apply, default_scoring, filtered, have_offsets_in_names, line_views, locate_current,
    located_at, FileLine, LineView, Matcher, Scoring,
};
use crate::index::{raw_index, rebuild, FileEntry, ScannedEntry};
use crate::constants::SongState;
use crate::keys::{Chord, Key, Modifiers};
use crate::text::{extension, extension_of, starts_with, with_char, without_last};
use crate::watch::{DirtyFlag, PlayerError};
use rand::Rng;
use std::collections::VecDeque;
use vstd::prelude::*;

verus! {

/// The files of the watched roots, as the player shows and plays them.
pub struct Files {
    current_file: String,
    filter: String,
    line_index: usize,
    lines: Vec<FileEntry>,
    lines_filtered: Vec<FileLine>,
    matcher: Matcher,
    paths: Vec<String>,
    extensions: Vec<String>,
    extensions_archives: Vec<String>,
    external_enabled: bool,
    generation: u64,
}

/// The state of `Files`, as a mathematical value.
pub struct FilesView {
    /// Path of the file that was last started; empty where none was.
    pub current_file: Seq<char>,
    /// What the user has typed to narrow the view.
    pub filter: Seq<char>,
    /// The cursor: an offset into the filtered view.
    pub line_index: usize,
    /// The raw index.
    pub lines: Seq<FileEntry>,
    /// The filtered view.
    pub lines_filtered: Seq<LineView>,
    pub matcher: Matcher,
    /// The roots that are watched and indexed.
    pub paths: Seq<String>,
    /// Extensions of the files that are indexed.
    pub extensions: Seq<String>,
    pub extensions_archives: Seq<String>,
    /// Whether there is an external backend to route files to.
    pub external_enabled: bool,
    /// Counts the rebuilds begun and the changes of roots.
    pub generation: u64,
}

/// What to ask of the watcher after a change of roots.
#[derive(Debug)]
pub struct WatchPlan {
    /// Paths to stop watching; a failure to do so is of no account.
    pub unwatch: Vec<String>,
    /// Paths to watch, with all that lies under them.
    pub watch: Vec<String>,
}

/// The extension that goes to the external backend.
pub open spec fn external_extension() -> Seq<char> {
    "opus"@
}

/// The backend that governs `file_name`: the external one, where there is
/// one, for files whose extension is `external_extension()`, the in-process
/// one for all others.
pub open spec fn route(file_name: Seq<char>, external_enabled: bool) -> BackendKind {
    if external_enabled && extension_of(file_name) == Some(external_extension()) {
        BackendKind::External
    } else {
        BackendKind::InProcess
    }
}

/// `index` moved into a view of `len` lines: 0 for an empty view.
pub open spec fn clamp_index(index: int, len: int) -> int {
    if len <= 0 || index < 0 {
        0
    } else if index >= len {
        len - 1
    } else {
        index
    }
}

/// The generation that follows `generation`.
pub open spec fn next_generation(generation: u64) -> u64 {
    if generation == u64::MAX {
        0
    } else {
        (generation + 1) as u64
    }
}

impl FilesView {
    /// The cursor is a valid offset into the filtered view, or 0 where the
    /// view is empty.
    pub open spec fn wf(self) -> bool {
        &&& self.line_index == clamp_index(self.line_index as int, self.lines_filtered.len() as int)
        &&& self.matcher.is_moderate()
    }

    /// The state with the cursor moved by `delta` lines, as far as the view goes.
    pub open spec fn navigated(self, delta: int) -> FilesView {
        FilesView {
            line_index: clamp_index(
                self.line_index + delta,
                self.lines_filtered.len() as int,
            ) as usize,
            ..self
        }
    }

    /// The state with the filtered view made anew from the raw index and the
    /// filter, and the cursor on the line of the current file.
    pub open spec fn refiltered(self) -> FilesView {
        let lines_filtered = filtered(self.lines, self.filter, self.matcher);
        FilesView {
            lines_filtered,
            line_index: located_at(lines_filtered, self.current_file) as usize,
            ..self
        }
    }

    /// The state with other roots: the cursor back at the top, and every
    /// rebuild that was begun for the former roots out of date.
    pub open spec fn rerooted(self, roots: Seq<WorkingPath>) -> FilesView {
        FilesView {
            paths: active_roots(roots),
            line_index: 0,
            generation: next_generation(self.generation),
            ..self
        }
    }
}

/// `at` is the first of `paths` under which `file` lies.
pub open spec fn is_first_root_of(paths: Seq<String>, file: Seq<char>, at: int) -> bool {
    &&& 0 <= at < paths.len()
    &&& paths[at]@.is_prefix_of(file)
    &&& forall|k: int| 0 <= k < at ==> !(#[trigger] paths[k])@.is_prefix_of(file)
}

/// The root under which `file` lies: the first of `paths` that its path
/// begins with, if there is one.
pub open spec fn root_of(paths: Seq<String>, file: Seq<char>) -> Option<Seq<char>> {
    if exists|at: int| is_first_root_of(paths, file, at) {
        Some(paths[choose|at: int| is_first_root_of(paths, file, at)]@)
    } else {
        None
    }
}

/// A change to the filter.
#[derive(Clone, Copy, PartialEq, Eq, Debug, Structural)]
pub enum FilterEdit {
    /// A character typed at the end of the filter.
    Type(char),
    /// The last character taken away.
    Erase,
}

impl FilesView {
    /// The path of the line under the cursor; none where the view is empty.
    pub open spec fn target(self) -> Option<Seq<char>> {
        if self.line_index < self.lines_filtered.len() {
            Some(self.lines_filtered[self.line_index as int].entry.path@)
        } else {
            None
        }
    }

    /// The backend that governs the current file.
    pub open spec fn governing(self) -> BackendKind {
        route(self.current_file, self.external_enabled)
    }

    /// The directives that hand playback over to `target`: the backend that
    /// governed so far is paused silently if it is busy, then `target` is
    /// started on the backend that governs it.
    pub open spec fn hand_over(self, target: Seq<char>, busy: bool) -> Seq<DirectiveView> {
        let start = DirectiveView {
            backend: route(target, self.external_enabled),
            command: CommandView::Start(target),
        };
        if busy {
            seq![
                DirectiveView { backend: self.governing(), command: CommandView::SilentPause },
                start,
            ]
        } else {
            seq![start]
        }
    }

    /// The directives of a play command at the cursor: a toggle where the line
    /// under the cursor is the current file, a hand-over where it is another,
    /// nothing where the view is empty.
    pub open spec fn play_directives(self, busy: bool) -> Seq<DirectiveView> {
        match self.target() {
            None => Seq::empty(),
            Some(target) => if target == self.current_file {
                seq![DirectiveView { backend: self.governing(), command: CommandView::Toggle }]
            } else {
                self.hand_over(target, busy)
            },
        }
    }

    /// The directives that start the line under the cursor, whether or not it
    /// is the current file.
    pub open spec fn start_directives(self, busy: bool) -> Seq<DirectiveView> {
        match self.target() {
            None => Seq::empty(),
            Some(target) => self.hand_over(target, busy),
        }
    }

    /// The state after the line under the cursor was played: that line's file
    /// is the current file.
    pub open spec fn played(self) -> FilesView {
        match self.target() {
            None => self,
            Some(target) => FilesView { current_file: target, ..self },
        }
    }

    /// Whether the settings `after` are the settings `before` with the play
    /// of the line under the cursor noted in them: its file, and the cursor
    /// as the line of the root under which the file lies. Where the view is
    /// empty nothing is played and nothing noted.
    pub open spec fn noted(self, before: Config, after: Config) -> bool {
        match self.target() {
            None => after == before,
            Some(target) => notes_play(
                before,
                after,
                target,
                root_of(self.paths, target),
                self.line_index,
            ),
        }
    }

    /// Whether `pick` may be drawn for a random advance: any line of the view
    /// but the last. A view of fewer than two lines leaves nothing to draw.
    pub open spec fn is_pick(self, pick: int) -> bool {
        self.lines_filtered.len() >= 2 ==> 0 <= pick < self.lines_filtered.len() - 1
    }

    /// The state with the cursor advanced to the line to play next.
    ///
    /// In queue mode the cursor moves on by one line, without wrapping, where
    /// it stands on the current file; where it was moved away it stays. In
    /// random mode the cursor goes to the line after `pick`. An empty view
    /// leaves nothing to advance to.
    pub open spec fn advanced(self, mode: PlayMode, pick: int) -> FilesView {
        if self.lines_filtered.len() == 0 {
            self
        } else {
            match mode {
                PlayMode::Queue => if self.target() == Some(self.current_file) {
                    self.navigated(1)
                } else {
                    self
                },
                PlayMode::Random => if self.lines_filtered.len() >= 2 {
                    (FilesView { line_index: pick as usize, ..self }).navigated(1)
                } else {
                    self.navigated(1)
                },
            }
        }
    }

    /// Whether `after`, `directives` and `config_after` are what playing the
    /// next track gives for some draw: the cursor advanced by the play mode
    /// of the settings, and the line under it started.
    pub open spec fn plays_next(
        self,
        after: FilesView,
        directives: Seq<DirectiveView>,
        config_before: Config,
        config_after: Config,
        busy: bool,
    ) -> bool {
        exists|pick: int|
            {
                let moved = #[trigger] self.advanced(config_before.play_mode, pick);
                &&& self.is_pick(pick)
                &&& after == moved.played()
                &&& directives == moved.start_directives(busy)
                &&& moved.noted(config_before, config_after)
            }
    }

    /// Whether `after`, `directives` and `config_after` are what the tick's
    /// look at the track leads to: where the view has lines and the track has
    /// ended, the next track played; else nothing.
    pub open spec fn autoplays(
        self,
        after: FilesView,
        directives: Seq<DirectiveView>,
        config_before: Config,
        config_after: Config,
        state: SongState,
        busy: bool,
    ) -> bool {
        if self.lines_filtered.len() > 0 && state == SongState::Ended {
            self.plays_next(after, directives, config_before, config_after, busy)
        } else {
            &&& after == self
            &&& directives.len() == 0
            &&& config_after == config_before
        }
    }

    /// The state after the rebuild with the ticket `ticket` has ended with
    /// the scan `scanned`: the raw index made anew from the scan, the view
    /// made anew from the index, the cursor on the line of the current file.
    /// Without a ticket, or with one that is out of date, nothing changes.
    pub open spec fn refreshed(self, ticket: Option<u64>, scanned: Seq<ScannedEntry>) -> FilesView {
        if ticket == Some(self.generation) {
            (FilesView { lines: raw_index(scanned, self.extensions), ..self }).refiltered()
        } else {
            self
        }
    }

    /// The state after an edit of the filter: the filter changed, the view
    /// made anew, the cursor on the line of the current file.
    pub open spec fn edited(self, edit: FilterEdit) -> FilesView {
        match edit {
            FilterEdit::Type(ch) => (FilesView {
                filter: self.filter.push(ch),
                ..self
            }).refiltered(),
            FilterEdit::Erase => (FilesView {
                filter: if self.filter.len() == 0 {
                    self.filter
                } else {
                    self.filter.drop_last()
                },
                ..self
            }).refiltered(),
        }
    }

    /// Whether `after`, `flag_after` and `ticket` are what a tick that finds
    /// the watcher's flag as `flag_before` leads to: the failure of the
    /// watcher as an error, the first time it is found; else, where the flag
    /// is set, a rebuild begun and its ticket; else nothing. Where there is
    /// no error the flag is cleared.
    pub open spec fn ticks_to(
        self,
        flag_before: DirtyFlag,
        after: FilesView,
        flag_after: DirtyFlag,
        ticket: Result<Option<u64>, PlayerError>,
    ) -> bool {
        if flag_before.failed && !flag_before.reported {
            &&& ticket == Err::<Option<u64>, PlayerError>(PlayerError::WatcherFailed)
            &&& flag_after == (DirtyFlag { reported: true, ..flag_before })
            &&& after == self
        } else {
            &&& flag_after == (DirtyFlag { dirty: false, ..flag_before })
            &&& if flag_before.dirty {
                &&& after == (FilesView {
                    generation: next_generation(self.generation),
                    ..self
                })
                &&& ticket == Ok::<Option<u64>, PlayerError>(Some(after.generation))
            } else {
                &&& after == self
                &&& ticket == Ok::<Option<u64>, PlayerError>(None)
            }
        }
    }

    /// Whether `after`, `directives` and `config_after` are what the key
    /// press `chord` leads to from this state and the settings `config_before`.
    pub open spec fn handles(
        self,
        height: u16,
        chord: Chord,
        after: FilesView,
        directives: Seq<DirectiveView>,
        config_before: Config,
        config_after: Config,
        busy: bool,
    ) -> bool {
        match chord.key {
            Key::Enter => {
                &&& after == self.played()
                &&& directives == self.play_directives(busy)
                &&& self.noted(config_before, config_after)
            },
            Key::Char(ch) if chord.modifiers == Modifiers::Control && ch == 'n' => {
                self.plays_next(after, directives, config_before, config_after, busy)
            },
            Key::Char(ch) if chord.modifiers == Modifiers::Control && ch == 'p' => {
                self.navigated(-1).plays_next(
                    after,
                    directives,
                    config_before,
                    config_after,
                    busy,
                )
            },
            _ => {
                &&& directives.len() == 0
                &&& config_after == config_before
                &&& after == match chord.key {
                    Key::Down => self.navigated(1),
                    Key::Up => self.navigated(-1),
                    Key::PageDown => self.navigated(half_page(height)),
                    Key::PageUp => self.navigated(-half_page(height)),
                    Key::Char(ch) => self.edited(FilterEdit::Type(ch)),
                    Key::Backspace => self.edited(FilterEdit::Erase),
                    _ => self,
                }
            },
        }
    }
}

/// Half of `height`, the number of lines that a page key moves the cursor.
pub open spec fn half_page(height: u16) -> int {
    height as int / 2
}

/// The state at start: the active roots of the settings, their current
/// file, no filter, nothing indexed. File names are matched fuzzily, with a
/// bonus of 64 for a run of characters and none for the start of a word.
pub open spec fn initial_files(config: Config, external_enabled: bool) -> FilesView {
    FilesView {
        current_file: config.current_file@,
        filter: Seq::empty(),
        line_index: 0,
        lines: Seq::empty(),
        lines_filtered: Seq::empty(),
        matcher: Matcher::Fuzzy(
            Scoring {
                bonus_consecutive: 64,
                bonus_word_start: 0,
                bonus_match_case: 8,
                penalty_distance: 4,
            },
        ),
        paths: active_roots(config.working_directories@),
        extensions: config.extensions@,
        extensions_archives: config.extensions_archives@,
        external_enabled,
        generation: 0,
    }
}

impl View for Files {
    type V = FilesView;

    closed spec fn view(&self) -> FilesView {
        FilesView {
            current_file: self.current_file@,
            filter: self.filter@,
            line_index: self.line_index,
            lines: self.lines@,
            lines_filtered: line_views(self.lines_filtered@),
            matcher: self.matcher,
            paths: self.paths@,
            extensions: self.extensions@,
            extensions_archives: self.extensions_archives@,
            external_enabled: self.external_enabled,
            generation: self.generation,
        }
    }
}

impl Files {
    /// What holds of every value of the type: the cursor is inside the
    /// view, and the offsets of every line lie inside its file name.
    #[verifier::type_invariant]
    pub open spec fn inv(&self) -> bool {
        &&& self@.wf()
        &&& have_offsets_in_names(self@.lines_filtered)
    }

    /// The player's files at start.
    pub fn new(config: &Config, external_enabled: bool) -> (files: Files)
        ensures
            files@ == initial_files(*config, external_enabled),
            files@.wf(),
    {
        let standard = default_scoring();
        let scoring = Scoring { bonus_consecutive: 64, bonus_word_start: 0, ..standard };
        let files = Files {
            current_file: config.current_file.clone(),
            filter: String::new(),
            line_index: 0,
            lines: Vec::new(),
            lines_filtered: Vec::new(),
            matcher: Matcher::Fuzzy(scoring),
            paths: active_paths(&config.working_directories),
            extensions: copy_strings(&config.extensions),
            extensions_archives: copy_strings(&config.extensions_archives),
            external_enabled,
            generation: 0,
        };
        proof {
            assert(files@.lines_filtered =~= Seq::<LineView>::empty());
            assert(files@.filter =~= Seq::<char>::empty());
            assert(files@.lines =~= Seq::<FileEntry>::empty());
        }
        files
    }

    /// The path of the file that was last started; empty where none was.
    pub fn current_file(&self) -> (path: &String)
        ensures
            path@ == self@.current_file,
    {
        &self.current_file
    }

    /// The filter as the user has typed it.
    pub fn filter(&self) -> (filter: &String)
        ensures
            filter@ == self@.filter,
    {
        &self.filter
    }

    /// The cursor: a valid offset into the filtered view, or 0 where that is empty.
    pub fn line_index(&self) -> (index: usize)
        ensures
            index == self@.line_index,
            self@.lines_filtered.len() == 0 ==> index == 0,
            self@.lines_filtered.len() > 0 ==> index < self@.lines_filtered.len(),
    {
        proof {
            use_type_invariant(self);
        }
        self.line_index
    }

    /// The raw index.
    pub fn lines(&self) -> (lines: &Vec<FileEntry>)
        ensures
            lines@ == self@.lines,
    {
        &self.lines
    }

    /// The filtered view.
    pub fn lines_filtered(&self) -> (lines: &Vec<FileLine>)
        ensures
            line_views(lines@) == self@.lines_filtered,
            have_offsets_in_names(line_views(lines@)),
    {
        proof {
            use_type_invariant(self);
        }
        &self.lines_filtered
    }

    /// How file names are matched against the filter.
    pub fn matcher(&self) -> (matcher: Matcher)
        ensures
            matcher == self@.matcher,
    {
        self.matcher
    }

    /// The roots that are watched and indexed.
    pub fn paths(&self) -> (paths: &Vec<String>)
        ensures
            paths@ == self@.paths,
    {
        &self.paths
    }

    /// The extensions of the files that are indexed.
    pub fn extensions(&self) -> (extensions: &Vec<String>)
        ensures
            extensions@ == self@.extensions,
    {
        &self.extensions
    }

    /// The extensions of the archives that are unpacked.
    pub fn extensions_archives(&self) -> (extensions: &Vec<String>)
        ensures
            extensions@ == self@.extensions_archives,
    {
        &self.extensions_archives
    }

    /// Forgets the current file, so that the line under the cursor is started
    /// by the next play, whatever it is.
    pub fn clear_current_file(&mut self)
        ensures
            final(self)@ == (FilesView { current_file: Seq::empty(), ..old(self)@ }),
            final(self)@.wf(),
    {
        proof {
            use_type_invariant(&*self);
        }
        self.current_file = String::new();
    }

    /// Tells which backend governs `file_name`.
    pub fn get_backend(&self, file_name: &str) -> (backend: BackendKind)
        ensures
            backend == route(file_name@, self@.external_enabled),
    {
        if !self.external_enabled {
            return BackendKind::InProcess;
        }
        match extension(file_name) {
            Some(found) => {
                if found == String::from_str("opus") {
                    BackendKind::External
                } else {
                    BackendKind::InProcess
                }
            },
            None => BackendKind::InProcess,
        }
    }

    /// Moves the cursor by `delta` lines, down for a positive `delta`, and
    /// stops at the first and at the last line.
    pub fn navigate(&mut self, delta: i32)
        ensures
            final(self)@ == old(self)@.navigated(delta as int),
            final(self)@.wf(),
    {
        proof {
            use_type_invariant(&*self);
        }
        let len = self.lines_filtered.len();
        if len == 0 {
            return;
        }
        if delta >= 0 {
            let step = delta as usize;
            let room = len - 1 - self.line_index;
            if step >= room {
                self.line_index = len - 1;
            } else {
                self.line_index = self.line_index + step;
            }
        } else {
            let back = (-(delta as i64)) as usize;
            if back >= self.line_index {
                self.line_index = 0;
            } else {
                self.line_index = self.line_index - back;
            }
        }
    }

    /// Takes other roots. Gives the paths to stop watching, which are the
    /// roots so far, and the paths to watch, which are the active ones of
    /// `new_working_paths`. The cursor goes back to the top.
    pub fn update_paths(&mut self, new_working_paths: &VecDeque<WorkingPath>) -> (plan: WatchPlan)
        ensures
            final(self)@ == old(self)@.rerooted(new_working_paths@),
            final(self)@.wf(),
            plan.unwatch@ == old(self)@.paths,
            plan.watch@ == active_roots(new_working_paths@),
    {
        proof {
            use_type_invariant(&*self);
        }
        let new_paths = active_paths(new_working_paths);
        let watch = copy_strings(&new_paths);
        let mut unwatch = new_paths;
        std::mem::swap(&mut self.paths, &mut unwatch);
        self.line_index = 0;
        self.generation = if self.generation == u64::MAX {
            0
        } else {
            self.generation + 1
        };
        WatchPlan { unwatch, watch }
    }

    /// Begins a rebuild of the raw index and gives its ticket. A rebuild that
    /// was begun before is from now on out of date.
    pub fn start_rebuild(&mut self) -> (ticket: u64)
        ensures
            final(self)@ == (FilesView {
                generation: next_generation(old(self)@.generation),
                ..old(self)@
            }),
            ticket == final(self)@.generation,
    {
        proof {
            use_type_invariant(&*self);
        }
        self.generation = if self.generation == u64::MAX {
            0
        } else {
            self.generation + 1
        };
        self.generation
    }

    /// Ends the rebuild with the ticket `ticket`: makes the raw index anew
    /// from `scanned`, what a walk of the roots saw. Tells whether it did so:
    /// a rebuild that is out of date is dropped and changes nothing.
    pub fn update_lines(&mut self, ticket: u64, scanned: &Vec<ScannedEntry>) -> (done: bool)
        ensures
            done == (ticket == old(self)@.generation),
            done ==> final(self)@ == (FilesView {
                lines: raw_index(scanned@, old(self)@.extensions),
                ..old(self)@
            }),
            !done ==> final(self)@ == old(self)@,
    {
        proof {
            use_type_invariant(&*self);
        }
        if ticket != self.generation {
            return false;
        }
        self.lines = rebuild(scanned, &self.extensions);
        true
    }

    /// Makes the filtered view anew from the raw index and the filter, and
    /// puts the cursor on the line of the current file: on the first line
    /// where that file is not in the view. The current file stays what it is.
    /// The offsets of every line ascend and lie inside its file name.
    pub fn update_lines_filtered(&mut self)
        ensures
            final(self)@ == old(self)@.refiltered(),
            final(self)@.wf(),
            have_offsets_in_names(final(self)@.lines_filtered),
    {
        proof {
            use_type_invariant(&*self);
        }
        let lines_filtered = apply(&self.lines, self.filter.as_str(), &self.matcher);
        let line_index = locate_current(&lines_filtered, self.current_file.as_str());
        self.line_index = 0;
        self.lines_filtered = lines_filtered;
        self.line_index = line_index;
    }

    /// Puts the cursor where it stood when a file was last played under
    /// `root`, as the settings have it: on that line, or on the last line
    /// where the view has become shorter, or on the first where nothing was
    /// played under `root`.
    pub fn restore_line(&mut self, config: &Config, root: &str)
        ensures
            final(self)@ == (FilesView {
                line_index: clamp_index(
                    match crate::config::recorded_line(config.line_indices@, root@) {
                        Some(line) => line as int,
                        None => 0,
                    },
                    old(self)@.lines_filtered.len() as int,
                ) as usize,
                ..old(self)@
            }),
            final(self)@.wf(),
    {
        proof {
            use_type_invariant(&*self);
        }
        let len = self.lines_filtered.len();
        let line = match config.line_index_of(root) {
            Some(line) => line,
            None => 0,
        };
        self.line_index = if len == 0 {
            0
        } else if line >= len {
            len - 1
        } else {
            line
        };
    }

    /// Takes another way of matching file names against the filter, and
    /// makes the filtered view anew with it.
    pub fn set_matcher(&mut self, matcher: Matcher)
        requires
            matcher.is_moderate(),
        ensures
            final(self)@ == (FilesView { matcher, ..old(self)@ }).refiltered(),
            final(self)@.wf(),
    {
        proof {
            use_type_invariant(&*self);
        }
        self.matcher = matcher;
        self.update_lines_filtered();
    }

    /// Changes the filter, makes the filtered view anew and puts the cursor
    /// on the line of the current file.
    pub fn edit_filter(&mut self, edit: FilterEdit)
        ensures
            final(self)@ == old(self)@.edited(edit),
            final(self)@.wf(),
    {
        proof {
            use_type_invariant(&*self);
        }
        match edit {
            FilterEdit::Type(ch) => {
                self.filter = with_char(self.filter.as_str(), ch);
            },
            FilterEdit::Erase => {
                self.filter = without_last(self.filter.as_str());
            },
        }
        self.update_lines_filtered();
    }

    /// Finds the root under which `file` lies.
    fn find_root(&self, file: &str) -> (found: Option<usize>)
        ensures
            match found {
                Some(at) => at < self.paths.len() && root_of(self.paths@, file@) == Some(
                    self.paths@[at as int]@,
                ),
                None => root_of(self.paths@, file@) is None,
            },
    {
        let mut i: usize = 0;
        while i < self.paths.len()
            invariant
                i <= self.paths.len(),
                forall|k: int| 0 <= k < i ==> !(#[trigger] self.paths@[k])@.is_prefix_of(file@),
            decreases self.paths.len() - i,
        {
            if starts_with(file, self.paths[i].as_str()) {
                proof {
                    let chosen = choose|at: int| is_first_root_of(self.paths@, file@, at);
                    assert(is_first_root_of(self.paths@, file@, i as int));
                    if chosen < i {
                        assert(!self.paths@[chosen]@.is_prefix_of(file@));
                    }
                    if i < chosen {
                        assert(!self.paths@[i as int]@.is_prefix_of(file@));
                    }
                }
                return Some(i);
            }
            i += 1;
        }
        proof {
            assert forall|at: int| !is_first_root_of(self.paths@, file@, at) by {
                if 0 <= at < self.paths.len() {
                    assert(!self.paths@[at]@.is_prefix_of(file@));
                }
            }
        }
        None
    }

    /// Plays the line under the cursor: as a toggle where `toggle_same` holds
    /// and the line is the current file, as a hand-over otherwise.
    fn play_at_cursor(&mut self, config: &mut Config, busy: bool, toggle_same: bool) -> (directives:
        Vec<Directive>)
        ensures
            final(self)@ == old(self)@.played(),
            final(self)@.wf(),
            directive_views(directives@) == if toggle_same {
                old(self)@.play_directives(busy)
            } else {
                old(self)@.start_directives(busy)
            },
            old(self)@.noted(*old(config), *final(config)),
    {
        proof {
            use_type_invariant(&*self);
        }
        let mut directives: Vec<Directive> = Vec::new();
        if self.line_index >= self.lines_filtered.len() {
            proof {
                assert(directive_views(directives@) =~= Seq::<DirectiveView>::empty());
            }
            return directives;
        }
        let new_file = self.lines_filtered[self.line_index].entry.path.clone();
        let current_backend = self.get_backend(self.current_file.as_str());
        if toggle_same && new_file == self.current_file {
            directives.push(Directive { backend: current_backend, command: Command::Toggle });
        } else {
            if busy {
                directives.push(
                    Directive { backend: current_backend, command: Command::SilentPause },
                );
            }
            let new_backend = self.get_backend(new_file.as_str());
            directives.push(
                Directive { backend: new_backend, command: Command::Start(new_file.clone()) },
            );
            self.current_file = new_file;
        }
        proof {
            assert(directive_views(directives@) =~= if toggle_same {
                old(self)@.play_directives(busy)
            } else {
                old(self)@.start_directives(busy)
            });
        }
        match self.find_root(self.current_file.as_str()) {
            Some(at) => {
                config.record_position(
                    self.current_file.as_str(),
                    Some(self.paths[at].as_str()),
                    self.line_index,
                );
            },
            None => {
                config.record_position(self.current_file.as_str(), None, self.line_index);
            },
        }
        directives
    }

    /// Plays the line under the cursor, or toggles it.
    ///
    /// Where that line is the current file, the governing backend is asked to
    /// toggle. Where it is another file, the backend that governed so far is
    /// paused silently if `busy` says that it is at work, the file is started
    /// on the backend that governs it, and it becomes the current file. Either
    /// way the play is noted in the settings. An empty view leaves nothing to
    /// play: no directive, nothing noted.
    pub fn play_file(&mut self, config: &mut Config, busy: bool) -> (directives: Vec<Directive>)
        ensures
            final(self)@ == old(self)@.played(),
            final(self)@.wf(),
            directive_views(directives@) == old(self)@.play_directives(busy),
            old(self)@.noted(*old(config), *final(config)),
    {
        self.play_at_cursor(config, busy, true)
    }

    /// Advances the cursor to the line to play next, with `pick` as the draw
    /// of the random mode.
    pub fn advance_with(&mut self, mode: PlayMode, pick: usize)
        requires
            old(self)@.is_pick(pick as int),
        ensures
            final(self)@ == old(self)@.advanced(mode, pick as int),
            final(self)@.wf(),
    {
        proof {
            use_type_invariant(&*self);
        }
        let len = self.lines_filtered.len();
        if len == 0 {
            return;
        }
        match mode {
            PlayMode::Queue => {
                if self.lines_filtered[self.line_index].entry.path == self.current_file {
                    self.navigate(1);
                }
            },
            PlayMode::Random => {
                if len >= 2 {
                    self.line_index = pick;
                }
                self.navigate(1);
            },
        }
    }

    /// Advances the cursor to the line to play next. In random mode a line
    /// is drawn from all but the last, and the cursor goes to the line after it.
    pub fn advance(&mut self, mode: PlayMode)
        ensures
            exists|pick: int|
                old(self)@.is_pick(pick) && final(self)@ == #[trigger] old(self)@.advanced(
                    mode,
                    pick,
                ),
            final(self)@.wf(),
    {
        let len = self.lines_filtered.len();
        let pick = match mode {
            PlayMode::Random => if len >= 2 {
                random_below(len - 1)
            } else {
                0
            },
            PlayMode::Queue => 0,
        };
        self.advance_with(mode, pick);
    }

    /// Plays the next track: advances the cursor by the play mode of the
    /// settings and starts the line under it.
    pub fn play_next(&mut self, config: &mut Config, busy: bool) -> (directives: Vec<Directive>)
        ensures
            old(self)@.plays_next(
                final(self)@,
                directive_views(directives@),
                *old(config),
                *final(config),
                busy,
            ),
            final(self)@.wf(),
    {
        let ghost before = self@;
        self.advance(config.play_mode);
        let ghost moved = self@;
        let directives = self.play_at_cursor(config, busy, false);
        proof {
            let pick = choose|pick: int|
                before.is_pick(pick) && moved == #[trigger] before.advanced(
                    old(config).play_mode,
                    pick,
                );
            assert(before.advanced(old(config).play_mode, pick) == moved);
        }
        directives
    }

    /// The tick's look at the track: where the view has lines and the track
    /// of the governing backend has ended, the next one is played.
    pub fn autoplay(&mut self, config: &mut Config, state: SongState, busy: bool) -> (directives:
        Vec<Directive>)
        ensures
            old(self)@.autoplays(
                final(self)@,
                directive_views(directives@),
                *old(config),
                *final(config),
                state,
                busy,
            ),
            final(self)@.wf(),
    {
        proof {
            use_type_invariant(&*self);
        }
        if self.lines_filtered.len() == 0 {
            return Vec::new();
        }
        match state {
            SongState::Ended => self.play_next(config, busy),
            _ => Vec::new(),
        }
    }

    /// Ends a tick that `on_tick` began. Where a rebuild was begun, `ticket`
    /// is its ticket and `scanned` what a walk of the roots saw since: the
    /// raw index is made anew from it, then the filtered view, and the cursor
    /// is put on the line of the current file; a rebuild that is out of date
    /// changes nothing. After that, and once, comes the look at the track:
    /// where the view has lines and the track of the governing backend has
    /// ended, the next one is played. `state` and `busy` are what the
    /// governing backend says.
    pub fn finish_tick(
        &mut self,
        ticket: Option<u64>,
        scanned: &Vec<ScannedEntry>,
        config: &mut Config,
        state: SongState,
        busy: bool,
    ) -> (directives: Vec<Directive>)
        ensures
            old(self)@.refreshed(ticket, scanned@).autoplays(
                final(self)@,
                directive_views(directives@),
                *old(config),
                *final(config),
                state,
                busy,
            ),
            final(self)@.wf(),
            have_offsets_in_names(final(self)@.lines_filtered),
    {
        proof {
            use_type_invariant(&*self);
        }
        match ticket {
            Some(ticket) => {
                if self.update_lines(ticket, scanned) {
                    self.update_lines_filtered();
                }
            },
            None => {},
        }
        let directives = self.autoplay(config, state, busy);
        proof {
            use_type_invariant(&*self);
        }
        directives
    }

    /// Takes a key press. `height` is the number of lines that the list
    /// shows; `busy` tells whether the governing backend is at work.
    ///
    /// The arrow keys move the cursor by a line, the page keys by half of
    /// `height`. Enter plays the line under the cursor. Control with `n` plays
    /// the next track, Control with `p` moves up a line and then plays the
    /// next track. Any other character is typed into the filter, Backspace
    /// takes the filter's last character away. Other keys do nothing.
    pub fn handle_event(&mut self, height: u16, chord: Chord, config: &mut Config, busy: bool) -> (
        directives: Vec<Directive>)
        ensures
            old(self)@.handles(
                height,
                chord,
                final(self)@,
                directive_views(directives@),
                *old(config),
                *final(config),
                busy,
            ),
            final(self)@.wf(),
    {
        proof {
            use_type_invariant(&*self);
        }
        match chord.key {
            Key::Down => {
                self.navigate(1);
                Vec::new()
            },
            Key::Up => {
                self.navigate(-1);
                Vec::new()
            },
            Key::Enter => self.play_file(config, busy),
            Key::PageDown => {
                let half: u16 = height / 2;
                self.navigate(half as i32);
                Vec::new()
            },
            Key::PageUp => {
                let half: u16 = height / 2;
                self.navigate(-(half as i32));
                Vec::new()
            },
            Key::Char(ch) => {
                if chord.modifiers == Modifiers::Control && ch == 'n' {
                    self.play_next(config, busy)
                } else if chord.modifiers == Modifiers::Control && ch == 'p' {
                    self.navigate(-1);
                    self.play_next(config, busy)
                } else {
                    self.edit_filter(FilterEdit::Type(ch));
                    Vec::new()
                }
            },
            Key::Backspace => {
                self.edit_filter(FilterEdit::Erase);
                Vec::new()
            },
            _ => Vec::new(),
        }
    }

    /// The tick's look at the watcher's flag. Where something changed under
    /// the roots a rebuild is begun, and its ticket given: the caller walks
    /// the roots and ends the rebuild with `update_lines` and
    /// `update_lines_filtered`. The failure of the watcher is given once, as
    /// an error.
    pub fn on_tick(&mut self, flag: &mut DirtyFlag) -> (ticket: Result<Option<u64>, PlayerError>)
        ensures
            old(self)@.ticks_to(*old(flag), final(self)@, *final(flag), ticket),
            final(self)@.wf(),
    {
        proof {
            use_type_invariant(&*self);
        }
        match flag.take() {
            Err(error) => Err(error),
            Ok(changed) => if changed {
                Ok(Some(self.start_rebuild()))
            } else {
                Ok(None)
            },
        }
    }
}

/// Draws a number below `bound` with `rand::Rng::gen_range` from
/// `rand::thread_rng()`. Which number comes is left open; `gen_range` does
/// not take an empty range.
#[verifier::external_body]
fn random_below(bound: usize) -> (pick: usize)
    requires
        bound > 0,
    ensures
        pick < bound,
{
    rand::thread_rng().gen_range(0..bound)
}

/// Copies the strings.
pub fn copy_strings(strings: &Vec<String>) -> (copy: Vec<String>)
    ensures
        copy@ == strings@,
{
    let mut copy: Vec<String> = Vec::new();
    let mut i: usize = 0;
    while i < strings.len()
        invariant
            i <= strings.len(),
            copy@ == strings@.take(i as int),
        decreases strings.len() - i,
    {
        copy.push(strings[i].clone());
        proof {
            assert(copy@ =~= strings@.take(i + 1));
        }
        i += 1;
    }
    proof {
        assert(strings@.take(strings.len() as int) =~= strings@);
    }
    copy
}

/// The cursor stays a valid offset into the filtered view, or 0 where the
/// view is empty, whatever is done: moving it, making the view anew, taking
/// other roots, playing, advancing, editing the filter.
pub proof fn lemma_cursor_stays_valid(
    state: FilesView,
    delta: int,
    roots: Seq<WorkingPath>,
    mode: PlayMode,
    pick: int,
    edit: FilterEdit,
)
    requires
        state.wf(),
        state.lines.len() <= usize::MAX,
        state.is_pick(pick),
    ensures
        state.navigated(delta).wf(),
        state.refiltered().wf(),
        state.rerooted(roots).wf(),
        state.played().wf(),
        state.advanced(mode, pick).wf(),
        state.edited(edit).wf(),
{
    lemma_refiltered_wf(state);
    match edit {
        FilterEdit::Type(ch) => {
            lemma_refiltered_wf(FilesView { filter: state.filter.push(ch), ..state });
        },
        FilterEdit::Erase => {
            if state.filter.len() == 0 {
                lemma_refiltered_wf(state);
            } else {
                lemma_refiltered_wf(FilesView { filter: state.filter.drop_last(), ..state });
            }
        },
    }
}

/// Typing a character and taking it away again leaves the filter as it
/// was, the view as the filter gives it, the cursor on the line of the
/// current file, and the current file what it was.
pub proof fn lemma_type_then_erase(state: FilesView, ch: char)
    ensures
        state.edited(FilterEdit::Type(ch)).filter == state.filter.push(ch),
        state.edited(FilterEdit::Type(ch)).current_file == state.current_file,
        state.edited(FilterEdit::Type(ch)).lines_filtered == filtered(
            state.lines,
            state.filter.push(ch),
            state.matcher,
        ),
        state.edited(FilterEdit::Type(ch)).edited(FilterEdit::Erase) == state.refiltered(),
{
    assert(state.filter.push(ch).drop_last() =~= state.filter);
}

/// A view made anew has its cursor inside it.
pub proof fn lemma_refiltered_wf(state: FilesView)
    requires
        state.lines.len() <= usize::MAX,
        state.matcher.is_moderate(),
    ensures
        state.refiltered().wf(),
{
    let view = filtered(state.lines, state.filter, state.matcher);
    crate::filter::lemma_filtered_from_raw(state.lines, state.filter, state.matcher);
    crate::filter::lemma_located_in_view(view, state.current_file);
}

/// In queue mode the cursor does not wrap: from the last line, on the
/// current file, an advance leaves it on the last line.
pub proof fn lemma_queue_stops_at_end(state: FilesView, pick: int)
    requires
        state.wf(),
        state.lines_filtered.len() > 0,
        state.line_index == state.lines_filtered.len() - 1,
    ensures
        state.advanced(PlayMode::Queue, pick).line_index == state.line_index,
        state.advanced(PlayMode::Queue, pick).target() == state.target(),
{
}

/// A random advance leaves the cursor behind the first line of a view of two
/// lines or more, and inside the view.
pub proof fn lemma_random_advance_in_view(state: FilesView, pick: int)
    requires
        state.wf(),
        state.lines_filtered.len() >= 2,
        state.lines_filtered.len() <= usize::MAX,
        state.is_pick(pick),
    ensures
        1 <= state.advanced(PlayMode::Random, pick).line_index < state.lines_filtered.len(),
{
}

/// A hand-over while the governing backend is busy asks that backend for one
/// silent pause, before the start, and asks no backend to pause aloud.
pub proof fn lemma_hand_over_is_silent(state: FilesView, target: Seq<char>)
    ensures
        state.hand_over(target, true).len() == 2,
        state.hand_over(target, true)[0] == (DirectiveView {
            backend: state.governing(),
            command: CommandView::SilentPause,
        }),
        state.hand_over(target, true)[1] == (DirectiveView {
            backend: route(target, state.external_enabled),
            command: CommandView::Start(target),
        }),
        state.hand_over(target, false) == seq![
            DirectiveView {
                backend: route(target, state.external_enabled),
                command: CommandView::Start(target),
            },
        ],
{
}

} // verus!
