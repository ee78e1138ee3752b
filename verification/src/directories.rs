//! The list of watched roots and the line on which a new root is chosen.
//!
//! The line shows the subdirectories of the working directory as completions,
//! narrowed by what the user types. Reading the subdirectories and writing the
//! settings is the caller's part: it hands the completions in and is told
//! when to read them again and when the settings have changed.

use crate::config::{
    sets_working_directories, sets_working_directory, Config, Status, WorkingPath,
};
use crate::filter::{fuzzy_match, fuzzy_match_of, FuzzyMatch, Scoring};
use crate::keys::{Chord, Key, Modifiers};
use crate::style::{
    joined, plain, span_views, string_to_styled_spans, styled_spans, SpanView, StyledSpan,
};
use crate::text::{chars_of, starts_with, with_char, without_last};
use std::collections::VecDeque;
use vstd::prelude::*;

verus! {

/// Whether the cursor is in the list of roots or on the line below it.
#[derive(Copy, Clone, Eq, PartialEq, Debug, Structural)]
pub enum State {
    /// In the list of roots.
    Base,
    /// On the line on which a new root is chosen.
    Editing,
}

/// The roots and the choice of a new one.
pub struct Directories {
    scoring: Scoring,
    completions: Vec<String>,
    displayable_completions: Vec<Vec<StyledSpan>>,
    filter: String,
    rotate_idx: i32,
    working_directory: String,
    working_directories: VecDeque<WorkingPath>,
    line_index: i32,
    state: State,
}

/// The state of `Directories`, as a mathematical value.
pub struct DirectoriesView {
    pub scoring: Scoring,
    /// The subdirectories of the working directory.
    pub completions: Seq<String>,
    /// The completions as they were last laid out for a turn to the left.
    pub displayable_completions: Seq<Seq<SpanView>>,
    /// What the user has typed to narrow the completions.
    pub filter: Seq<char>,
    /// By how many places the completions are turned to the right.
    pub rotate_idx: i32,
    pub working_directory: Seq<char>,
    pub working_directories: Seq<WorkingPath>,
    /// The cursor in the list of roots; -1 above the first.
    pub line_index: i32,
    pub state: State,
}

/// What a key press led to, and what the caller has to do after it.
#[derive(Clone, PartialEq, Eq, Debug)]
pub struct DirectoryOutcome {
    /// Read the subdirectories of the working directory and hand them in.
    pub reload: bool,
    /// Write the settings.
    pub persist: bool,
    /// The completion that was entered, where one was: the name that was
    /// adjoined to the working directory.
    pub entered: Option<String>,
}

/// The lines as mathematical values.
pub open spec fn row_views(rows: Seq<Vec<StyledSpan>>) -> Seq<Seq<SpanView>> {
    Seq::new(rows.len(), |i: int| span_views(rows[i]@))
}

/// `i + 1`, or `i` at the upper end of `i32`.
pub open spec fn next_i32(i: i32) -> i32 {
    if i == i32::MAX {
        i
    } else {
        (i + 1) as i32
    }
}

/// `i - 1`, or `i` at the lower end of `i32`.
pub open spec fn prev_i32(i: i32) -> i32 {
    if i == i32::MIN {
        i
    } else {
        (i - 1) as i32
    }
}

/// How a completion is shown under `filter`: as it stands where the filter is
/// empty, cut at the matched characters where the filter matches with a
/// positive score, and not at all otherwise.
pub open spec fn completion_row(
    completion: Seq<char>,
    filter: Seq<char>,
    found: Option<(isize, Seq<usize>)>,
) -> Option<Seq<SpanView>> {
    if filter.len() == 0 {
        Some(seq![plain(completion)])
    } else {
        match found {
            Some((score, indices)) => if score > 0 {
                Some(styled_spans(completion, indices))
            } else {
                None
            },
            None => None,
        }
    }
}

/// The completions that are shown under `filter`, in their sequence.
pub open spec fn shown(completions: Seq<String>, filter: Seq<char>, scoring: Scoring) -> Seq<
    Seq<SpanView>,
> {
    completions.filter_map(
        |completion: String|
            completion_row(completion@, filter, fuzzy_match_of(filter, completion@, scoring)),
    )
}

/// `items` turned to the right by `by` places: each item moves `by` places
/// on, and those that fall off the end come in at the front.
pub open spec fn turned<T>(items: Seq<T>, by: int) -> Seq<T> {
    if items.len() == 0 {
        items
    } else {
        Seq::new(items.len(), |j: int| items[(j - by) % (items.len() as int)])
    }
}

/// `items` with `separator` between each two of them.
pub open spec fn separated<T>(items: Seq<T>, separator: T) -> Seq<T> {
    if items.len() == 0 {
        items
    } else {
        Seq::new(
            (2 * items.len() - 1) as nat,
            |j: int|
                if j % 2 == 0 {
                    items[j / 2]
                } else {
                    separator
                },
        )
    }
}

/// What stands between two completions.
pub open spec fn pipe() -> Seq<SpanView> {
    seq![plain(" | "@)]
}

impl DirectoriesView {
    /// The scoring is moderate.
    pub open spec fn wf(self) -> bool {
        self.scoring.is_moderate()
    }

    /// The completions as they are shown: those that the filter leaves,
    /// turned by `rotate_idx`, with a pipe between each two.
    pub open spec fn displayable(self) -> Seq<Seq<SpanView>> {
        separated(
            turned(shown(self.completions, self.filter, self.scoring), self.rotate_idx as int),
            pipe(),
        )
    }

    /// Whether the working directory is one of the roots or lies under one.
    pub open spec fn is_covered(self) -> bool {
        exists|i: int|
            0 <= i < self.working_directories.len() && (
            #[trigger] self.working_directories[i]).path@.is_prefix_of(self.working_directory)
    }

    /// The cursor a line up; it stops one above the first root.
    pub open spec fn line_up(self) -> DirectoriesView {
        DirectoriesView {
            line_index: if self.line_index >= 0 {
                (self.line_index - 1) as i32
            } else {
                self.line_index
            },
            ..self
        }
    }

    /// The cursor a line down: from the last root, or from above the first,
    /// it goes to the line on which a new root is chosen.
    pub open spec fn line_down(self) -> DirectoriesView {
        let len = self.working_directories.len() as int;
        DirectoriesView {
            state: if self.line_index < 0 || self.line_index >= len - 1 {
                State::Editing
            } else {
                self.state
            },
            line_index: if 0 <= self.line_index < len {
                next_i32(self.line_index)
            } else {
                self.line_index
            },
            ..self
        }
    }

    /// The list without the root under the cursor.
    pub open spec fn without_line(self) -> DirectoriesView {
        DirectoriesView {
            working_directories: if 0 <= self.line_index < self.working_directories.len() {
                self.working_directories.remove(self.line_index as int)
            } else {
                self.working_directories
            },
            ..self
        }
    }

    /// A character typed into the filter.
    pub open spec fn typed(self, ch: char) -> DirectoriesView {
        DirectoriesView { filter: self.filter.push(ch), ..self }
    }

    /// The filter without its last character.
    pub open spec fn erased(self) -> DirectoriesView {
        DirectoriesView {
            filter: if self.filter.len() == 0 {
                self.filter
            } else {
                self.filter.drop_last()
            },
            ..self
        }
    }

    /// The working directory as a new root at the end of the list, the
    /// cursor a line on.
    pub open spec fn with_root(self, root: WorkingPath) -> DirectoriesView {
        DirectoriesView {
            working_directories: self.working_directories.push(root),
            line_index: next_i32(self.line_index),
            ..self
        }
    }
}

/// The state at start: the roots of the settings, the cursor on the first
/// of them, and the choice of a new root starting from the working directory
/// of the settings or, where they name none, from the audio directory.
/// Completions are matched fuzzily, with a bonus of 64 for a run of
/// characters and a penalty of 16 for each character skipped.
pub open spec fn initial_directories(
    config: Config,
    audio_dir: Seq<char>,
    completions: Seq<String>,
) -> DirectoriesView {
    DirectoriesView {
        scoring: Scoring {
            bonus_consecutive: 64,
            bonus_word_start: 1,
            bonus_match_case: 8,
            penalty_distance: 16,
        },
        completions,
        displayable_completions: Seq::empty(),
        filter: Seq::empty(),
        rotate_idx: 0,
        working_directory: if config.working_directory@.len() == 0 {
            audio_dir
        } else {
            config.working_directory@
        },
        working_directories: config.working_directories@,
        line_index: 0,
        state: State::Base,
    }
}

impl View for Directories {
    type V = DirectoriesView;

    closed spec fn view(&self) -> DirectoriesView {
        DirectoriesView {
            scoring: self.scoring,
            completions: self.completions@,
            displayable_completions: row_views(self.displayable_completions@),
            filter: self.filter@,
            rotate_idx: self.rotate_idx,
            working_directory: self.working_directory@,
            working_directories: self.working_directories@,
            line_index: self.line_index,
            state: self.state,
        }
    }
}

/// Adjoins `name` to the path `base` with `std::path::Path::join`. What
/// comes of it depends on the platform's rules for paths.
#[verifier::external_body]
fn joined_path(base: &str, name: &str) -> (path: String) {
    std::path::Path::new(base).join(name).to_string_lossy().into_owned()
}

/// Cuts the path back to its parent with `std::path::PathBuf::pop`, which
/// truncates the path, or leaves it where it has no parent.
#[verifier::external_body]
fn parent_path(path: &str) -> (parent: String)
    ensures
        parent@.is_prefix_of(path@),
{
    let mut buffer = std::path::PathBuf::from(path);
    buffer.pop();
    buffer.to_string_lossy().into_owned()
}

/// Copies the spans.
pub fn copy_spans(spans: &Vec<StyledSpan>) -> (copy: Vec<StyledSpan>)
    ensures
        span_views(copy@) == span_views(spans@),
{
    let mut copy: Vec<StyledSpan> = Vec::new();
    let mut i: usize = 0;
    while i < spans.len()
        invariant
            i <= spans.len(),
            span_views(copy@) == span_views(spans@).take(i as int),
        decreases spans.len() - i,
    {
        let span = StyledSpan { text: spans[i].text.clone(), bold: spans[i].bold };
        let ghost before = copy@;
        copy.push(span);
        proof {
            assert(span_views(copy@) =~= span_views(before).push(span@));
            assert(span_views(spans@).take(i + 1) =~= span_views(spans@).take(i as int).push(
                span@,
            ));
        }
        i += 1;
    }
    proof {
        assert(span_views(spans@).take(spans.len() as int) =~= span_views(spans@));
    }
    copy
}

/// Copies the roots.
pub fn copy_roots(roots: &VecDeque<WorkingPath>) -> (copy: VecDeque<WorkingPath>)
    ensures
        copy@ == roots@,
{
    let mut copy: VecDeque<WorkingPath> = VecDeque::new();
    let mut i: usize = 0;
    while i < roots.len()
        invariant
            i <= roots.len(),
            copy@ == roots@.take(i as int),
        decreases roots.len() - i,
    {
        copy.push_back(roots[i].clone());
        proof {
            assert(copy@ =~= roots@.take(i + 1));
        }
        i += 1;
    }
    proof {
        assert(roots@.take(roots.len() as int) =~= roots@);
    }
    copy
}

/// Lays out one completion under a filter, from what the matcher found of
/// the filter in it.
pub fn completion_spans(completion: &String, filter_is_empty: bool, found: Option<FuzzyMatch>) -> (row:
    Option<Vec<StyledSpan>>)
    ensures
        match row {
            Some(spans) => {
                &&& (filter_is_empty ==> span_views(spans@) == seq![plain(completion@)])
                &&& (!filter_is_empty ==> found is Some && found->0.score > 0 && span_views(
                    spans@,
                ) == styled_spans(completion@, found->0.positions@))
            },
            None => !filter_is_empty && (found is None || found->0.score <= 0),
        },
{
    if filter_is_empty {
        let mut spans: Vec<StyledSpan> = Vec::new();
        let span = StyledSpan { text: completion.clone(), bold: false };
        spans.push(span);
        proof {
            assert(span_views(spans@) =~= seq![plain(completion@)]);
        }
        return Some(spans);
    }
    match found {
        Some(m) => {
            if m.score > 0 {
                Some(string_to_styled_spans(completion.clone(), m.positions))
            } else {
                None
            }
        },
        None => None,
    }
}

/// Turns the rows to the right by `by` places.
pub fn turn_right(rows: &Vec<Vec<StyledSpan>>, by: i32) -> (turned_rows: Vec<Vec<StyledSpan>>)
    ensures
        row_views(turned_rows@) == turned(row_views(rows@), by as int),
{
    let len = rows.len();
    let mut turned_rows: Vec<Vec<StyledSpan>> = Vec::new();
    if len == 0 {
        proof {
            assert(row_views(turned_rows@) =~= row_views(rows@));
        }
        return turned_rows;
    }
    let ghost views = row_views(rows@);
    // The place from which the first row of the result is taken.
    let first: usize = if by >= 0 {
        let back = (by as usize) % len;
        proof {
            lemma_turn_origin(by as int, len as int);
        }
        if back == 0 {
            0
        } else {
            len - back
        }
    } else {
        let forth = ((-(by as i64)) as usize) % len;
        proof {
            lemma_turn_origin(by as int, len as int);
        }
        forth
    };
    let mut j: usize = 0;
    proof {
        assert(row_views(turned_rows@) =~= turned(views, by as int).take(0));
    }
    while j < len
        invariant
            j <= len,
            len == rows.len(),
            len > 0,
            first < len,
            first as int == (0 - by as int) % (len as int),
            views == row_views(rows@),
            row_views(turned_rows@) == turned(views, by as int).take(j as int),
        decreases len - j,
    {
        let from: usize = if j < len - first {
            first + j
        } else {
            j - (len - first)
        };
        proof {
            lemma_turn_step(by as int, len as int, j as int);
        }
        let row = copy_spans(&rows[from]);
        let ghost before = turned_rows@;
        turned_rows.push(row);
        proof {
            assert(row_views(turned_rows@) =~= row_views(before).push(span_views(row@)));
            assert(turned(views, by as int).take(j + 1) =~= turned(views, by as int).take(
                j as int,
            ).push(span_views(row@)));
        }
        j += 1;
    }
    proof {
        assert(turned(views, by as int).take(len as int) =~= turned(views, by as int));
    }
    turned_rows
}

/// Where the first row of a turn by `by` comes from.
pub proof fn lemma_turn_origin(by: int, len: int)
    requires
        len > 0,
    ensures
        by >= 0 ==> (0 - by) % len == if by % len == 0 {
            0
        } else {
            len - by % len
        },
        by < 0 ==> (0 - by) % len == (-by) % len,
        0 <= (0 - by) % len < len,
{
    vstd::arithmetic::div_mod::lemma_mod_bound(0 - by, len);
    if by >= 0 {
        vstd::arithmetic::div_mod::lemma_fundamental_div_mod(by, len);
        vstd::arithmetic::div_mod::lemma_mod_bound(by, len);
        let q = by / len;
        let r = by % len;
        if r == 0 {
            assert(0 - by == (-q) * len + 0) by (nonlinear_arith)
                requires
                    by == len * q + r,
                    r == 0,
            ;
            vstd::arithmetic::div_mod::lemma_fundamental_div_mod_converse(0 - by, len, -q, 0);
        } else {
            assert(0 - by == (-q - 1) * len + (len - r)) by (nonlinear_arith)
                requires
                    by == len * q + r,
            ;
            vstd::arithmetic::div_mod::lemma_fundamental_div_mod_converse(
                0 - by,
                len,
                -q - 1,
                len - r,
            );
        }
    }
}

/// Where the row at place `j` of a turn by `by` comes from.
pub proof fn lemma_turn_step(by: int, len: int, j: int)
    requires
        len > 0,
        0 <= j < len,
    ensures
        (j - by) % len == if j < len - (0 - by) % len {
            (0 - by) % len + j
        } else {
            j - (len - (0 - by) % len)
        },
{
    let first = (0 - by) % len;
    vstd::arithmetic::div_mod::lemma_mod_bound(0 - by, len);
    vstd::arithmetic::div_mod::lemma_fundamental_div_mod(0 - by, len);
    let q = (0 - by) / len;
    if j < len - first {
        assert(j - by == q * len + (first + j)) by (nonlinear_arith)
            requires
                0 - by == len * q + first,
        ;
        vstd::arithmetic::div_mod::lemma_fundamental_div_mod_converse(j - by, len, q, first + j);
    } else {
        assert(j - by == (q + 1) * len + (j - (len - first))) by (nonlinear_arith)
            requires
                0 - by == len * q + first,
        ;
        vstd::arithmetic::div_mod::lemma_fundamental_div_mod_converse(
            j - by,
            len,
            q + 1,
            j - (len - first),
        );
    }
}

/// Puts a pipe between each two rows.
pub fn separate(rows: Vec<Vec<StyledSpan>>) -> (all: Vec<Vec<StyledSpan>>)
    ensures
        row_views(all@) == separated(row_views(rows@), pipe()),
{
    let ghost views = row_views(rows@);
    let mut all: Vec<Vec<StyledSpan>> = Vec::new();
    let len = rows.len();
    if len == 0 {
        proof {
            assert(row_views(all@) =~= views);
        }
        return all;
    }
    let mut i: usize = 0;
    proof {
        assert(row_views(all@) =~= separated(views, pipe()).take(0));
    }
    while i < len
        invariant
            i <= len,
            len == rows.len(),
            len > 0,
            views == row_views(rows@),
            all@.len() == if i == 0 {
                0
            } else {
                2 * i - 1
            },
            row_views(all@) == separated(views, pipe()).take(all@.len() as int),
        decreases len - i,
    {
        if i > 0 {
            let mut bar: Vec<StyledSpan> = Vec::new();
            let span = StyledSpan { text: String::from_str(" | "), bold: false };
            bar.push(span);
            proof {
                assert(span_views(bar@) =~= pipe());
            }
            let ghost before = all@;
            all.push(bar);
            proof {
                assert(row_views(all@) =~= row_views(before).push(pipe()));
                assert(separated(views, pipe()).take(all@.len() as int) =~= separated(
                    views,
                    pipe(),
                ).take(before.len() as int).push(pipe()));
            }
        }
        let row = copy_spans(&rows[i]);
        let ghost before = all@;
        all.push(row);
        proof {
            assert(row_views(all@) =~= row_views(before).push(span_views(row@)));
            assert(separated(views, pipe())[2 * i] == views[i as int]);
            assert(separated(views, pipe()).take(all@.len() as int) =~= separated(
                views,
                pipe(),
            ).take(before.len() as int).push(span_views(row@)));
        }
        i += 1;
    }
    proof {
        assert(separated(views, pipe()).take(all@.len() as int) =~= separated(views, pipe()));
    }
    all
}

/// All the text of the spans, in their sequence.
pub fn join_spans(spans: &Vec<StyledSpan>) -> (text: String)
    ensures
        text@ == joined(span_views(spans@)),
{
    let ghost views = span_views(spans@);
    let mut text = String::new();
    let mut i: usize = 0;
    while i < spans.len()
        invariant
            i <= spans.len(),
            views == span_views(spans@),
            text@ == joined(views.take(i as int)),
        decreases spans.len() - i,
    {
        proof {
            assert(views.take(i + 1).drop_last() =~= views.take(i as int));
            assert(views.take(i + 1).last() == spans@[i as int]@);
        }
        text.append(spans[i].text.as_str());
        i += 1;
    }
    proof {
        assert(views.take(spans.len() as int) =~= views);
    }
    text
}

/// Nothing for the caller to do.
pub open spec fn nothing_to_do() -> DirectoryOutcome {
    DirectoryOutcome { reload: false, persist: false, entered: None }
}

impl DirectoriesView {
    /// Whether `after`, `config_after` and `outcome` are what the key press
    /// `chord` leads to from this state and the settings `config_before`.
    ///
    /// In the list of roots, Down and Up move the cursor and `k` takes the
    /// root under the cursor off the list. On the line below it, Up leads
    /// back to the list; Right and Left, pressed alone, turn the completions;
    /// Tab enters the first completion; Backspace, or Left with a modifier,
    /// takes the last character of the filter away or, where the filter is
    /// empty, leaves the working directory for its parent; Enter adds the
    /// working directory to the roots unless a root covers it; any character
    /// is typed into the filter. Entering and leaving a directory call for
    /// its subdirectories to be read; these and a new root call for the
    /// settings to be written.
    pub open spec fn steps_to(
        self,
        chord: Chord,
        after: DirectoriesView,
        config_before: Config,
        config_after: Config,
        outcome: DirectoryOutcome,
    ) -> bool {
        match self.state {
            State::Base => {
                &&& outcome == nothing_to_do()
                &&& config_after == config_before
                &&& after == match chord.key {
                    Key::Down => self.line_down(),
                    Key::Up => self.line_up(),
                    Key::Char(ch) => if ch == 'k' {
                        self.without_line()
                    } else {
                        self
                    },
                    _ => self,
                }
            },
            State::Editing => if chord.key == Key::Tab {
                if self.displayable().len() == 0 {
                    &&& after == self
                    &&& outcome == nothing_to_do()
                    &&& config_after == config_before
                } else {
                    &&& after == (DirectoriesView {
                        working_directory: after.working_directory,
                        filter: Seq::empty(),
                        ..self
                    })
                    &&& outcome.reload
                    &&& outcome.persist
                    &&& outcome.entered matches Some(name)
                    &&& name@ == joined(self.displayable()[0])
                    &&& sets_working_directory(config_before, config_after, after.working_directory)
                }
            } else if chord.key == Key::Enter {
                if self.is_covered() {
                    &&& after == self
                    &&& outcome == nothing_to_do()
                    &&& config_after == config_before
                } else {
                    &&& after.working_directories.len() == self.working_directories.len() + 1
                    &&& after.working_directories.last().path@ == self.working_directory
                    &&& after.working_directories.last().status == Status::Active
                    &&& after == self.with_root(after.working_directories.last())
                    &&& outcome == (DirectoryOutcome { reload: false, persist: true, entered: None })
                    &&& sets_working_directories(
                        config_before,
                        config_after,
                        after.working_directories,
                    )
                }
            } else if self.leaves_on(chord) {
                &&& after == (DirectoriesView {
                    working_directory: after.working_directory,
                    ..self
                })
                &&& after.working_directory.is_prefix_of(self.working_directory)
                &&& outcome == (DirectoryOutcome { reload: true, persist: true, entered: None })
                &&& sets_working_directory(config_before, config_after, after.working_directory)
            } else {
                &&& outcome == nothing_to_do()
                &&& config_after == config_before
                &&& after == match chord.key {
                    Key::Up => DirectoriesView { state: State::Base, ..self.line_up() },
                    Key::Right => if chord.modifiers == Modifiers::Plain {
                        DirectoriesView { rotate_idx: prev_i32(self.rotate_idx), ..self }
                    } else {
                        self
                    },
                    Key::Left => if chord.modifiers == Modifiers::Plain {
                        let turned_on = DirectoriesView {
                            rotate_idx: next_i32(self.rotate_idx),
                            ..self
                        };
                        DirectoriesView {
                            displayable_completions: turned_on.displayable(),
                            ..turned_on
                        }
                    } else {
                        self.erased()
                    },
                    Key::Backspace => self.erased(),
                    Key::Char(ch) => self.typed(ch),
                    _ => self,
                }
            },
        }
    }

    /// Whether `chord` leaves the working directory for its parent: Backspace,
    /// or Left with a modifier, on an empty filter.
    pub open spec fn leaves_on(self, chord: Chord) -> bool {
        &&& self.filter.len() == 0
        &&& (chord.key == Key::Backspace || (chord.key == Key::Left && chord.modifiers
            != Modifiers::Plain))
    }
}

impl Directories {
    /// What holds of every value of the type.
    #[verifier::type_invariant]
    pub open spec fn inv(&self) -> bool {
        self@.wf()
    }

    /// The directory from which the choice of a new root starts: the working
    /// directory of the settings or, where they name none, the audio directory.
    pub fn start_directory(config: &Config, audio_dir: &str) -> (directory: String)
        ensures
            directory@ == if config.working_directory@.len() == 0 {
                audio_dir@
            } else {
                config.working_directory@
            },
    {
        if config.working_directory.as_str().unicode_len() == 0 {
            String::from_str(audio_dir)
        } else {
            config.working_directory.clone()
        }
    }

    /// The roots of the settings, with the cursor on the first of them, and
    /// the choice of a new root starting from `Directories::start_directory`,
    /// whose subdirectories `completions` holds.
    pub fn new(config: &Config, audio_dir: &str, completions: Vec<String>) -> (directories:
        Directories)
        ensures
            directories@ == initial_directories(*config, audio_dir@, completions@),
            directories@.wf(),
    {
        let directories = Directories {
            scoring: Scoring {
                bonus_consecutive: 64,
                bonus_word_start: 1,
                bonus_match_case: 8,
                penalty_distance: 16,
            },
            completions,
            displayable_completions: Vec::new(),
            filter: String::new(),
            rotate_idx: 0,
            working_directory: Directories::start_directory(config, audio_dir),
            working_directories: copy_roots(&config.working_directories),
            line_index: 0,
            state: State::Base,
        };
        proof {
            assert(row_views(directories.displayable_completions@) =~= Seq::<
                Seq<SpanView>,
            >::empty());
            assert(directories.filter@ =~= Seq::<char>::empty());
        }
        directories
    }

    /// The subdirectories of the working directory that are offered.
    pub fn completions(&self) -> (completions: &Vec<String>)
        ensures
            completions@ == self@.completions,
    {
        &self.completions
    }

    /// The completions as they were last laid out for a turn to the left.
    pub fn displayable_completions(&self) -> (rows: &Vec<Vec<StyledSpan>>)
        ensures
            row_views(rows@) == self@.displayable_completions,
    {
        &self.displayable_completions
    }

    /// What the user has typed to narrow the completions.
    pub fn filter(&self) -> (filter: &String)
        ensures
            filter@ == self@.filter,
    {
        &self.filter
    }

    pub fn rotate_idx(&self) -> (by: i32)
        ensures
            by == self@.rotate_idx,
    {
        self.rotate_idx
    }

    pub fn working_directory(&self) -> (directory: &String)
        ensures
            directory@ == self@.working_directory,
    {
        &self.working_directory
    }

    pub fn working_directories(&self) -> (roots: &VecDeque<WorkingPath>)
        ensures
            roots@ == self@.working_directories,
    {
        &self.working_directories
    }

    pub fn line_index(&self) -> (index: i32)
        ensures
            index == self@.line_index,
    {
        self.line_index
    }

    pub fn state(&self) -> (state: State)
        ensures
            state == self@.state,
    {
        self.state
    }

    /// Takes in the subdirectories of the working directory.
    pub fn set_completions(&mut self, completions: Vec<String>)
        ensures
            final(self)@ == (DirectoriesView { completions: completions@, ..old(self)@ }),
    {
        proof {
            use_type_invariant(&*self);
        }
        self.completions = completions;
    }

    /// Lays out the completions: those that the filter leaves, each cut at
    /// the characters that the filter matched, turned to the right by
    /// `rotate_idx` places, with a pipe between each two.
    pub fn get_displayable_completions(&self) -> (rows: Vec<Vec<StyledSpan>>)
        ensures
            row_views(rows@) == self@.displayable(),
    {
        proof {
            use_type_invariant(self);
        }
        let pattern = chars_of(self.filter.as_str());
        let filter_is_empty = pattern.len() == 0;
        let ghost keep = |completion: String|
            completion_row(
                completion@,
                self.filter@,
                fuzzy_match_of(self.filter@, completion@, self.scoring),
            );
        let mut rows: Vec<Vec<StyledSpan>> = Vec::new();
        let mut i: usize = 0;
        proof {
            assert(self.completions@.take(0).filter_map(keep) =~= Seq::<Seq<SpanView>>::empty());
            assert(row_views(rows@) =~= Seq::<Seq<SpanView>>::empty());
        }
        while i < self.completions.len()
            invariant
                i <= self.completions.len(),
                self@.wf(),
                filter_is_empty == (self.filter@.len() == 0),
                pattern@ == self.filter@,
                keep == |completion: String|
                    completion_row(
                        completion@,
                        self.filter@,
                        fuzzy_match_of(self.filter@, completion@, self.scoring),
                    ),
                row_views(rows@) == self.completions@.take(i as int).filter_map(keep),
            decreases self.completions.len() - i,
        {
            proof {
                self.completions@.lemma_filter_map_take_succ(keep, i as int);
            }
            let completion = &self.completions[i];
            let found = if filter_is_empty {
                None
            } else {
                fuzzy_match(self.filter.as_str(), &pattern, completion.as_str(), &self.scoring)
            };
            match completion_spans(completion, filter_is_empty, found) {
                Some(row) => {
                    let ghost before = rows@;
                    rows.push(row);
                    proof {
                        assert(row_views(rows@) =~= row_views(before).push(span_views(row@)));
                        assert(row_views(rows@) =~= row_views(before) + seq![span_views(row@)]);
                    }
                },
                None => {},
            }
            i += 1;
        }
        proof {
            assert(self.completions@.take(self.completions.len() as int) =~= self.completions@);
        }
        let turned_rows = turn_right(&rows, self.rotate_idx);
        separate(turned_rows)
    }

    /// Tells whether the working directory is one of the roots or lies under one.
    pub fn is_covered(&self) -> (covered: bool)
        ensures
            covered == self@.is_covered(),
    {
        let mut i: usize = 0;
        while i < self.working_directories.len()
            invariant
                i <= self.working_directories.len(),
                forall|k: int|
                    0 <= k < i ==> !(#[trigger] self.working_directories@[k]).path@.is_prefix_of(
                        self.working_directory@,
                    ),
            decreases self.working_directories.len() - i,
        {
            if starts_with(
                self.working_directory.as_str(),
                self.working_directories[i].path.as_str(),
            ) {
                return true;
            }
            i += 1;
        }
        false
    }

    /// Adds the working directory to the roots, as an active one, unless a
    /// root covers it. Tells whether it was added; the settings then hold the
    /// new list of roots.
    pub fn update_working_directories(&mut self, config: &mut Config) -> (added: bool)
        ensures
            added == !old(self)@.is_covered(),
            if added {
                &&& final(self)@.working_directories.len() == old(self)@.working_directories.len()
                    + 1
                &&& final(self)@.working_directories.last().path@ == old(self)@.working_directory
                &&& final(self)@.working_directories.last().status == Status::Active
                &&& final(self)@ == old(self)@.with_root(final(self)@.working_directories.last())
                &&& sets_working_directories(
                    *old(config),
                    *final(config),
                    final(self)@.working_directories,
                )
            } else {
                final(self)@ == old(self)@ && *final(config) == *old(config)
            },
            final(self)@.wf(),
    {
        proof {
            use_type_invariant(&*self);
        }
        if self.is_covered() {
            return false;
        }
        let mut roots = copy_roots(&self.working_directories);
        roots.push_back(
            WorkingPath { path: self.working_directory.clone(), status: Status::Active },
        );
        config.set_working_directories(copy_roots(&roots));
        self.working_directories = roots;
        if self.line_index < i32::MAX {
            self.line_index = self.line_index + 1;
        }
        true
    }

    /// Takes a key press.
    pub fn handle_event(&mut self, chord: Chord, config: &mut Config) -> (outcome: DirectoryOutcome)
        ensures
            old(self)@.steps_to(chord, final(self)@, *old(config), *final(config), outcome),
            final(self)@.wf(),
    {
        proof {
            use_type_invariant(&*self);
        }
        let nothing = DirectoryOutcome { reload: false, persist: false, entered: None };
        let len = self.working_directories.len();
        match self.state {
            State::Base => {
                match chord.key {
                    Key::Down => {
                        let index = self.line_index;
                        if index < 0 || (index as usize) + 1 >= len {
                            self.state = State::Editing;
                        }
                        if index >= 0 && (index as usize) < len {
                            if index < i32::MAX {
                                self.line_index = index + 1;
                            }
                        }
                    },
                    Key::Up => {
                        if self.line_index >= 0 {
                            self.line_index = self.line_index - 1;
                        }
                    },
                    Key::Char(ch) => {
                        if ch == 'k' && self.line_index >= 0 {
                            let mut roots = copy_roots(&self.working_directories);
                            let _ = roots.remove(self.line_index as usize);
                            self.working_directories = roots;
                        }
                    },
                    _ => {},
                }
                nothing
            },
            State::Editing => {
                match chord.key {
                    Key::Up => {
                        self.state = State::Base;
                        if self.line_index >= 0 {
                            self.line_index = self.line_index - 1;
                        }
                        nothing
                    },
                    Key::Right => {
                        if chord.modifiers == Modifiers::Plain && self.rotate_idx > i32::MIN {
                            self.rotate_idx = self.rotate_idx - 1;
                        }
                        nothing
                    },
                    Key::Left => {
                        if chord.modifiers == Modifiers::Plain {
                            if self.rotate_idx < i32::MAX {
                                self.rotate_idx = self.rotate_idx + 1;
                            }
                            self.displayable_completions = self.get_displayable_completions();
                            nothing
                        } else {
                            self.back(config)
                        }
                    },
                    Key::Tab => {
                        let rows = self.get_displayable_completions();
                        if rows.len() == 0 {
                            return nothing;
                        }
                        let name = join_spans(&rows[0]);
                        self.working_directory = joined_path(
                            self.working_directory.as_str(),
                            name.as_str(),
                        );
                        config.set_working_directory(self.working_directory.as_str());
                        self.filter = String::new();
                        DirectoryOutcome { reload: true, persist: true, entered: Some(name) }
                    },
                    Key::Backspace => self.back(config),
                    Key::Enter => {
                        let added = self.update_working_directories(config);
                        DirectoryOutcome { reload: false, persist: added, entered: None }
                    },
                    Key::Char(ch) => {
                        self.filter = with_char(self.filter.as_str(), ch);
                        nothing
                    },
                    _ => nothing,
                }
            },
        }
    }

    /// Takes the last character of the filter away, or leaves the working
    /// directory for its parent where the filter is empty.
    fn back(&mut self, config: &mut Config) -> (outcome: DirectoryOutcome)
        requires
            old(self)@.state == State::Editing,
        ensures
            old(self)@.steps_to(
                Chord { modifiers: Modifiers::Other, key: Key::Backspace },
                final(self)@,
                *old(config),
                *final(config),
                outcome,
            ),
            final(self)@.wf(),
    {
        proof {
            use_type_invariant(&*self);
        }
        if self.filter.as_str().unicode_len() == 0 {
            self.working_directory = parent_path(self.working_directory.as_str());
            config.set_working_directory(self.working_directory.as_str());
            DirectoryOutcome { reload: true, persist: true, entered: None }
        } else {
            self.filter = without_last(self.filter.as_str());
            DirectoryOutcome { reload: false, persist: false, entered: None }
        }
    }
}

} // verus!
