//! The player's settings, as values. Reading them from disk and writing them
//! back is the caller's part.

use std::collections::VecDeque;
use vstd::prelude::*;

verus! {

/// How the next track is chosen when one has ended.
#[derive(Clone, Copy, PartialEq, Eq, Debug, Structural)]
pub enum PlayMode {
    /// The entry that follows in the list.
    Queue,
    /// An entry picked at random.
    Random,
}

/// The role of a watched root.
#[derive(Clone, Copy, PartialEq, Eq, Debug, Structural)]
pub enum Status {
    /// Watched and indexed.
    Active,
    /// Kept in the list, neither watched nor indexed.
    Inactive,
    /// Holds what was taken out of archives; left out of the index scan.
    Cache,
}

impl Default for Status {
    fn default() -> (status: Self)
        ensures
            status == Status::Inactive,
    {
        Status::Inactive
    }
}

/// A directory root and its role.
#[derive(Debug)]
pub struct WorkingPath {
    pub path: String,
    pub status: Status,
}

impl Clone for WorkingPath {
    fn clone(&self) -> (copy: Self)
        ensures
            copy == *self,
    {
        WorkingPath { path: self.path.clone(), status: self.status }
    }
}

/// How much is written to the log.
#[derive(Clone, Copy, PartialEq, Eq, Debug, Structural)]
pub enum LogLevel {
    Off,
    Error,
    Warn,
    Info,
    Debug,
    Trace,
}

/// The line that was last played under a root.
#[derive(Debug)]
pub struct RootPosition {
    pub root: String,
    pub line_index: usize,
}

/// The settings.
#[derive(Debug)]
pub struct Config {
    /// Extensions of the files that are indexed.
    pub extensions: Vec<String>,
    /// Extensions of the archives that are unpacked into the cache root.
    pub extensions_archives: Vec<String>,
    /// Milliseconds between two ticks, in decimal digits.
    pub tick_rate: String,
    pub working_directories: VecDeque<WorkingPath>,
    /// The directory whose subdirectories are offered as completions.
    pub working_directory: String,
    pub play_mode: PlayMode,
    pub log_level: LogLevel,
    /// The file that was last started; empty where none was.
    pub current_file: String,
    /// For each root under which a file was played, the line that was played last.
    pub line_indices: Vec<RootPosition>,
}

impl PlayMode {
    /// The other mode.
    pub open spec fn other(self) -> PlayMode {
        match self {
            PlayMode::Queue => PlayMode::Random,
            PlayMode::Random => PlayMode::Queue,
        }
    }

    /// Gives the other mode.
    pub fn switched(self) -> (mode: PlayMode)
        ensures
            mode == self.other(),
    {
        match self {
            PlayMode::Queue => PlayMode::Random,
            PlayMode::Random => PlayMode::Queue,
        }
    }
}

/// `at` is the first record for `root`.
pub open spec fn is_first_record(records: Seq<RootPosition>, root: Seq<char>, at: int) -> bool {
    &&& 0 <= at < records.len()
    &&& records[at].root@ == root
    &&& forall|k: int| 0 <= k < at ==> (#[trigger] records[k]).root@ != root
}

/// The line recorded for `root`: that of the first record for it, if there is one.
pub open spec fn recorded_line(records: Seq<RootPosition>, root: Seq<char>) -> Option<usize> {
    if exists|at: int| is_first_record(records, root, at) {
        Some(records[choose|at: int| is_first_record(records, root, at)].line_index)
    } else {
        None
    }
}

/// The paths of the active roots, in their sequence.
pub open spec fn active_roots(roots: Seq<WorkingPath>) -> Seq<String> {
    roots.filter_map(
        |root: WorkingPath|
            if root.status == Status::Active {
                Some(root.path)
            } else {
                None
            },
    )
}

/// The settings of a first start, for the user's audio directory and the
/// player's cache directory.
pub open spec fn is_initial(config: Config, audio_dir: String, cache_dir: String) -> bool {
    &&& config.extensions@.len() == 7
    &&& config.extensions@[0]@ == "mp3"@
    &&& config.extensions@[1]@ == "mp4"@
    &&& config.extensions@[2]@ == "avi"@
    &&& config.extensions@[3]@ == "ogg"@
    &&& config.extensions@[4]@ == "m4a"@
    &&& config.extensions@[5]@ == "opus"@
    &&& config.extensions@[6]@ == "flac"@
    &&& config.extensions_archives@.len() == 1
    &&& config.extensions_archives@[0]@ == "zip"@
    &&& config.tick_rate@ == "500"@
    &&& config.working_directories@.len() == 2
    &&& config.working_directories@[0] == (WorkingPath { path: audio_dir, status: Status::Active })
    &&& config.working_directories@[1] == (WorkingPath { path: cache_dir, status: Status::Cache })
    &&& config.working_directory@.len() == 0
    &&& config.play_mode == PlayMode::Queue
    &&& config.log_level == LogLevel::Info
    &&& config.current_file@.len() == 0
    &&& config.line_indices@.len() == 0
}

/// `after` is `before` with a play noted: `current_file` as the file last
/// started and, where a root is given, `line_index` as the line of that root;
/// the lines of the other roots and the other settings are as before.
pub open spec fn notes_play(
    before: Config,
    after: Config,
    current_file: Seq<char>,
    root: Option<Seq<char>>,
    line_index: usize,
) -> bool {
    &&& after.current_file@ == current_file
    &&& match root {
        Some(root) => {
            &&& recorded_line(after.line_indices@, root) == Some(line_index)
            &&& forall|other: Seq<char>|
                other != root ==> recorded_line(after.line_indices@, other) == recorded_line(
                    before.line_indices@,
                    other,
                )
        },
        None => after.line_indices == before.line_indices,
    }
    &&& after.extensions == before.extensions
    &&& after.extensions_archives == before.extensions_archives
    &&& after.tick_rate == before.tick_rate
    &&& after.working_directories == before.working_directories
    &&& after.working_directory == before.working_directory
    &&& after.play_mode == before.play_mode
    &&& after.log_level == before.log_level
}

/// `after` is `before` with `directory` as the working directory.
pub open spec fn sets_working_directory(before: Config, after: Config, directory: Seq<char>) -> bool {
    &&& after.working_directory@ == directory
    &&& after.extensions == before.extensions
    &&& after.extensions_archives == before.extensions_archives
    &&& after.tick_rate == before.tick_rate
    &&& after.working_directories == before.working_directories
    &&& after.play_mode == before.play_mode
    &&& after.log_level == before.log_level
    &&& after.current_file == before.current_file
    &&& after.line_indices == before.line_indices
}

/// `after` is `before` with `roots` as the working directories.
pub open spec fn sets_working_directories(
    before: Config,
    after: Config,
    roots: Seq<WorkingPath>,
) -> bool {
    &&& after.working_directories@ == roots
    &&& after.extensions == before.extensions
    &&& after.extensions_archives == before.extensions_archives
    &&& after.tick_rate == before.tick_rate
    &&& after.working_directory == before.working_directory
    &&& after.play_mode == before.play_mode
    &&& after.log_level == before.log_level
    &&& after.current_file == before.current_file
    &&& after.line_indices == before.line_indices
}

/// `after` is `before` with the other play mode.
pub open spec fn switches_play_mode(before: Config, after: Config) -> bool {
    &&& after.play_mode == before.play_mode.other()
    &&& after.extensions == before.extensions
    &&& after.extensions_archives == before.extensions_archives
    &&& after.tick_rate == before.tick_rate
    &&& after.working_directories == before.working_directories
    &&& after.working_directory == before.working_directory
    &&& after.log_level == before.log_level
    &&& after.current_file == before.current_file
    &&& after.line_indices == before.line_indices
}

/// Two records of the same root that are both the first are the same record.
pub proof fn lemma_first_record_unique(records: Seq<RootPosition>, root: Seq<char>, a: int, b: int)
    requires
        is_first_record(records, root, a),
        is_first_record(records, root, b),
    ensures
        a == b,
{
    if a < b {
        assert(records[a].root@ != root);
    }
    if b < a {
        assert(records[b].root@ != root);
    }
}

impl Config {
    /// The settings of a first start: the usual audio extensions, `zip`
    /// archives, a tick every 500 ms, the audio directory as the one active
    /// root and the cache directory as the cache root, queue mode, nothing
    /// played yet.
    pub fn initial(audio_dir: String, cache_dir: String) -> (config: Config)
        ensures
            is_initial(config, audio_dir, cache_dir),
    {
        let mut extensions: Vec<String> = Vec::new();
        extensions.push(String::from_str("mp3"));
        extensions.push(String::from_str("mp4"));
        extensions.push(String::from_str("avi"));
        extensions.push(String::from_str("ogg"));
        extensions.push(String::from_str("m4a"));
        extensions.push(String::from_str("opus"));
        extensions.push(String::from_str("flac"));
        let mut extensions_archives: Vec<String> = Vec::new();
        extensions_archives.push(String::from_str("zip"));
        let mut working_directories: VecDeque<WorkingPath> = VecDeque::new();
        working_directories.push_back(WorkingPath { path: audio_dir, status: Status::Active });
        working_directories.push_back(WorkingPath { path: cache_dir, status: Status::Cache });
        Config {
            extensions,
            extensions_archives,
            tick_rate: String::from_str("500"),
            working_directories,
            working_directory: String::new(),
            play_mode: PlayMode::Queue,
            log_level: LogLevel::Info,
            current_file: String::new(),
            line_indices: Vec::new(),
        }
    }

    /// Makes `directory` the one whose subdirectories are offered.
    pub fn set_working_directory(&mut self, directory: &str)
        ensures
            sets_working_directory(*old(self), *final(self), directory@),
    {
        self.working_directory = String::from_str(directory);
    }

    /// Takes `roots` as the working directories.
    pub fn set_working_directories(&mut self, roots: VecDeque<WorkingPath>)
        ensures
            sets_working_directories(*old(self), *final(self), roots@),
    {
        self.working_directories = roots;
    }

    /// The line that was last played under `root`, if one was.
    pub fn line_index_of(&self, root: &str) -> (line: Option<usize>)
        ensures
            line == recorded_line(self.line_indices@, root@),
    {
        match find_record(&self.line_indices, root) {
            Some(at) => Some(self.line_indices[at].line_index),
            None => None,
        }
    }

    /// Notes what was played: `current_file`, and, where the file lies under
    /// a root, the line at which it stood.
    pub fn record_position(&mut self, current_file: &str, root: Option<&str>, line_index: usize)
        ensures
            notes_play(
                *old(self),
                *final(self),
                current_file@,
                match root {
                    Some(root) => Some(root@),
                    None => None,
                },
                line_index,
            ),
    {
        self.current_file = String::from_str(current_file);
        match root {
            None => {},
            Some(root) => {
                let ghost before = self.line_indices@;
                let record = RootPosition { root: String::from_str(root), line_index };
                match find_record(&self.line_indices, root) {
                    Some(at) => {
                        self.line_indices.set(at, record);
                        proof {
                            lemma_record_replaced(before, root@, at as int, record);
                        }
                    },
                    None => {
                        self.line_indices.push(record);
                        proof {
                            lemma_record_added(before, root@, record);
                        }
                    },
                }
            },
        }
    }
}

/// Finds the first record for `root`.
pub fn find_record(records: &Vec<RootPosition>, root: &str) -> (found: Option<usize>)
    ensures
        match found {
            Some(at) => is_first_record(records@, root@, at as int),
            None => forall|k: int| 0 <= k < records.len() ==> (#[trigger] records@[k]).root@ != root@,
        },
        found is Some ==> recorded_line(records@, root@) == Some(
            records@[found->0 as int].line_index,
        ),
        found is None ==> recorded_line(records@, root@) is None,
{
    let wanted = String::from_str(root);
    let mut i: usize = 0;
    while i < records.len()
        invariant
            i <= records.len(),
            wanted@ == root@,
            forall|k: int| 0 <= k < i ==> (#[trigger] records@[k]).root@ != root@,
        decreases records.len() - i,
    {
        if records[i].root == wanted {
            proof {
                assert(is_first_record(records@, root@, i as int));
                let chosen = choose|at: int| is_first_record(records@, root@, at);
                lemma_first_record_unique(records@, root@, i as int, chosen);
            }
            return Some(i);
        }
        i += 1;
    }
    None
}

/// Replacing the first record for a root changes the line of that root alone.
pub proof fn lemma_record_replaced(
    before: Seq<RootPosition>,
    root: Seq<char>,
    at: int,
    record: RootPosition,
)
    requires
        is_first_record(before, root, at),
        record.root@ == root,
    ensures
        recorded_line(before.update(at, record), root) == Some(record.line_index),
        forall|other: Seq<char>|
            other != root ==> recorded_line(before.update(at, record), other) == recorded_line(
                before,
                other,
            ),
{
    let after = before.update(at, record);
    assert(is_first_record(after, root, at)) by {
        assert forall|k: int| 0 <= k < at implies (#[trigger] after[k]).root@ != root by {
            assert(before[k].root@ != root);
        }
    }
    lemma_first_record_unique(after, root, at, choose|k: int| is_first_record(after, root, k));
    assert forall|other: Seq<char>| other != root implies recorded_line(after, other)
        == recorded_line(before, other) by {
        lemma_same_roots_same_line(before, after, other);
    }
}

/// A record added for a root that had none changes the line of that root alone.
pub proof fn lemma_record_added(before: Seq<RootPosition>, root: Seq<char>, record: RootPosition)
    requires
        forall|k: int| 0 <= k < before.len() ==> (#[trigger] before[k]).root@ != root,
        record.root@ == root,
    ensures
        recorded_line(before.push(record), root) == Some(record.line_index),
        forall|other: Seq<char>|
            other != root ==> recorded_line(before.push(record), other) == recorded_line(
                before,
                other,
            ),
{
    let after = before.push(record);
    let last = before.len() as int;
    assert(is_first_record(after, root, last)) by {
        assert forall|k: int| 0 <= k < last implies (#[trigger] after[k]).root@ != root by {
            assert(before[k].root@ != root);
        }
    }
    lemma_first_record_unique(after, root, last, choose|k: int| is_first_record(after, root, k));
    assert forall|other: Seq<char>| other != root implies recorded_line(after, other)
        == recorded_line(before, other) by {
        if exists|k: int| is_first_record(after, other, k) {
            let k = choose|k: int| is_first_record(after, other, k);
            assert(k < last);
            assert(is_first_record(before, other, k)) by {
                assert forall|j: int| 0 <= j < k implies (#[trigger] before[j]).root@ != other by {
                    assert(after[j].root@ != other);
                }
            }
            lemma_first_record_unique(
                before,
                other,
                k,
                choose|j: int| is_first_record(before, other, j),
            );
        } else {
            if exists|k: int| is_first_record(before, other, k) {
                let k = choose|k: int| is_first_record(before, other, k);
                assert(is_first_record(after, other, k)) by {
                    assert forall|j: int| 0 <= j < k implies (#[trigger] after[j]).root@
                        != other by {
                        assert(before[j].root@ != other);
                    }
                }
            }
        }
    }
}

/// Records that agree, place by place, on whether they are for `root` and on
/// the line where they are, give `root` the same line.
pub proof fn lemma_same_roots_same_line(
    before: Seq<RootPosition>,
    after: Seq<RootPosition>,
    root: Seq<char>,
)
    requires
        before.len() == after.len(),
        forall|k: int|
            0 <= k < before.len() ==> ((#[trigger] before[k]).root@ == root <==> (
            #[trigger] after[k]).root@ == root),
        forall|k: int|
            0 <= k < before.len() && (#[trigger] before[k]).root@ == root ==> before[k].line_index
                == after[k].line_index,
    ensures
        recorded_line(after, root) == recorded_line(before, root),
{
    if exists|k: int| is_first_record(before, root, k) {
        let k = choose|k: int| is_first_record(before, root, k);
        assert(is_first_record(after, root, k)) by {
            assert(after[k].root@ == root <==> before[k].root@ == root);
            assert forall|j: int| 0 <= j < k implies (#[trigger] after[j]).root@ != root by {
                assert(before[j].root@ != root);
            }
        }
        lemma_first_record_unique(after, root, k, choose|j: int| is_first_record(after, root, j));
    } else {
        if exists|k: int| is_first_record(after, root, k) {
            let k = choose|k: int| is_first_record(after, root, k);
            assert(is_first_record(before, root, k)) by {
                assert(after[k].root@ == root <==> before[k].root@ == root);
                assert forall|j: int| 0 <= j < k implies (#[trigger] before[j]).root@ != root by {
                    assert(after[j].root@ != root);
                }
            }
        }
    }
}

/// Changes the play mode of the settings to the other one.
pub fn switch_play_mode(config: &mut Config)
    ensures
        switches_play_mode(*old(config), *final(config)),
{
    config.play_mode = config.play_mode.switched();
}

/// The paths of the roots that are active, in their sequence.
pub fn active_paths(roots: &VecDeque<WorkingPath>) -> (paths: Vec<String>)
    ensures
        paths@ == active_roots(roots@),
{
    let ghost keep = |root: WorkingPath|
        if root.status == Status::Active {
            Some(root.path)
        } else {
            None
        };
    let mut paths: Vec<String> = Vec::new();
    let mut i: usize = 0;
    proof {
        assert(roots@.take(0).filter_map(keep) =~= Seq::<String>::empty());
    }
    while i < roots.len()
        invariant
            i <= roots.len(),
            keep == |root: WorkingPath|
                if root.status == Status::Active {
                    Some(root.path)
                } else {
                    None
                },
            paths@ == roots@.take(i as int).filter_map(keep),
        decreases roots.len() - i,
    {
        proof {
            roots@.lemma_filter_map_take_succ(keep, i as int);
        }
        if roots[i].status == Status::Active {
            paths.push(roots[i].path.clone());
        }
        i += 1;
    }
    proof {
        assert(roots@.take(roots.len() as int) =~= roots@);
    }
    paths
}

} // verus!
