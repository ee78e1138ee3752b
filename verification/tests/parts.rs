use dirplayer::backend_trait::{
    is_busy, poll, toggle_action, AudioBackend, BackendKind, Command,
};
use dirplayer::constants::{SongState, ECHO_SIZE};
use dirplayer::echo_area::EchoArea;
use dirplayer::external::{busy_of, quoted, state_of};
use dirplayer::in_process::{event_for, tick_event, Event, EventType, SinkAction, Worker};
use dirplayer::order::rank_descending;
use dirplayer::text::{
    chars_of, count_letters, extension, find, find_last, matches_at, starts_with, string_of,
    with_char, without_last,
};
use dirplayer::ui::{Focus, MenuTab, Tab};
use dirplayer::utils::{get_borders, RangeCkecker};
use dirplayer::watch::{delivery, DirtyFlag, PlayerError, WatchEvent};

#[test]
fn song_state_names() {
    assert_eq!(SongState::Playing.name(), "Playing");
    assert_eq!(SongState::Paused.name(), "Paused");
    assert_eq!(SongState::Ended.name(), "Ended");
    assert_eq!(ECHO_SIZE, 5);
}

#[test]
fn toggle_resumes_pauses_or_does_nothing() {
    assert!(matches!(toggle_action(SongState::Paused), Some(Command::Resume)));
    assert!(matches!(toggle_action(SongState::Playing), Some(Command::Pause)));
    assert!(toggle_action(SongState::Ended).is_none());
    assert!(is_busy(SongState::Playing));
    assert!(is_busy(SongState::Paused));
    assert!(!is_busy(SongState::Ended));
}

struct Recorder {
    state: SongState,
    calls: Vec<String>,
}

impl AudioBackend for Recorder {
    fn stop(&mut self) {
        self.calls.push("stop".to_string());
        self.state = SongState::Ended;
    }
    fn start(&mut self, file_name: &str) {
        self.calls.push(format!("start {}", file_name));
        self.state = SongState::Playing;
    }
    fn pause(&mut self) {
        self.calls.push("pause".to_string());
        self.state = SongState::Paused;
    }
    fn silent_pause(&mut self) {
        self.calls.push("silent_pause".to_string());
        self.state = SongState::Paused;
    }
    fn resume(&mut self) {
        self.calls.push("resume".to_string());
        self.state = SongState::Playing;
    }
    fn busy(&self) -> bool {
        is_busy(self.state)
    }
    fn state(&self) -> SongState {
        self.state
    }
    fn file_name(&self) -> String {
        String::new()
    }
}

#[test]
fn a_backend_toggles_by_its_state() {
    let mut backend = Recorder { state: SongState::Ended, calls: Vec::new() };
    backend.toggle();
    assert!(backend.calls.is_empty());
    backend.start("a.mp3");
    backend.toggle();
    backend.toggle();
    assert_eq!(backend.calls, vec!["start a.mp3", "pause", "resume"]);
    assert!(backend.busy());
    backend.stop();
    backend.toggle();
    assert_eq!(backend.calls.len(), 4);
}

fn event(event_type: EventType, file_name: &str) -> Event {
    Event { event_type, file_name: file_name.to_string() }
}

fn actions(step: &dirplayer::in_process::Step) -> Vec<String> {
    step.actions
        .iter()
        .map(|a| match a {
            SinkAction::Renew => "renew".to_string(),
            SinkAction::Load(file) => format!("load {}", file),
            SinkAction::Play => "play".to_string(),
            SinkAction::Pause => "pause".to_string(),
            SinkAction::Stop => "stop".to_string(),
        })
        .collect()
}

#[test]
fn worker_starts_a_file_into_an_empty_sink() {
    let mut worker = Worker::new();
    assert_eq!(worker.state, SongState::Ended);
    assert_eq!(worker.file_name, "");
    let step = worker.on_event(event(EventType::Start, "/m/a.mp3"), true);
    assert_eq!(actions(&step), vec!["load /m/a.mp3"]);
    assert!(step.echo);
    assert_eq!(worker.state, SongState::Playing);
    assert_eq!(worker.file_name, "/m/a.mp3");
}

#[test]
fn worker_renews_a_sink_that_still_plays() {
    let mut worker = Worker::new();
    worker.on_event(event(EventType::Start, "/m/a.mp3"), true);
    let step = worker.on_event(event(EventType::Start, "/m/b.mp3"), false);
    assert_eq!(actions(&step), vec!["renew", "load /m/b.mp3"]);
    assert_eq!(worker.file_name, "/m/b.mp3");
    assert_eq!(worker.state, SongState::Playing);
}

#[test]
fn worker_pauses_resumes_and_stops() {
    let mut worker = Worker::new();
    worker.on_event(event(EventType::Start, "/m/a.mp3"), true);
    let paused = worker.on_event(event(EventType::Pause, ""), false);
    assert_eq!(actions(&paused), vec!["pause"]);
    assert!(paused.echo);
    assert_eq!(worker.state, SongState::Paused);
    let resumed = worker.on_event(event(EventType::Play, ""), false);
    assert_eq!(actions(&resumed), vec!["play"]);
    assert!(resumed.echo);
    assert_eq!(worker.state, SongState::Playing);
    let silenced = worker.on_event(event(EventType::SilentPause, ""), false);
    assert_eq!(actions(&silenced), vec!["pause"]);
    assert!(!silenced.echo);
    assert_eq!(worker.state, SongState::Paused);
    let stopped = worker.on_event(event(EventType::Stop, ""), false);
    assert_eq!(actions(&stopped), vec!["stop"]);
    assert!(!stopped.echo);
    assert_eq!(worker.state, SongState::Ended);
    assert_eq!(worker.file_name, "/m/a.mp3");
}

#[test]
fn worker_tick_ends_the_track_when_the_sink_is_empty() {
    let mut worker = Worker::new();
    worker.on_event(event(EventType::Start, "/m/a.mp3"), true);
    let busy = worker.on_event(event(EventType::Tick, ""), false);
    assert!(busy.actions.is_empty());
    assert!(!busy.echo);
    assert_eq!(worker.state, SongState::Playing);
    worker.on_event(event(EventType::Tick, ""), true);
    assert_eq!(worker.state, SongState::Ended);
    assert_eq!(worker.file_name, "/m/a.mp3");
}

#[test]
fn worker_counts_a_file_that_cannot_be_decoded_as_ended() {
    let mut worker = Worker::new();
    worker.on_event(event(EventType::Start, "/m/broken.mp3"), true);
    worker.on_load_failed();
    assert_eq!(worker.state, SongState::Ended);
    assert_eq!(worker.file_name, "/m/broken.mp3");
}

#[test]
fn commands_reach_the_worker_as_events() {
    let start = event_for(Command::Start("/m/a.mp3".to_string())).unwrap();
    assert_eq!(start.event_type, EventType::Start);
    assert_eq!(start.file_name, "/m/a.mp3");
    assert_eq!(event_for(Command::Pause).unwrap().event_type, EventType::Pause);
    assert_eq!(
        event_for(Command::SilentPause).unwrap().event_type,
        EventType::SilentPause
    );
    assert_eq!(event_for(Command::Resume).unwrap().event_type, EventType::Play);
    assert_eq!(event_for(Command::Stop).unwrap().event_type, EventType::Stop);
    assert_eq!(event_for(Command::Stop).unwrap().file_name, "");
    assert!(event_for(Command::Toggle).is_none());
    assert_eq!(tick_event().event_type, EventType::Tick);
    assert_eq!(tick_event().file_name, "");
}

#[test]
fn external_player_state() {
    assert_eq!(state_of(true, true), SongState::Paused);
    assert_eq!(state_of(true, false), SongState::Paused);
    assert_eq!(state_of(false, true), SongState::Playing);
    assert_eq!(state_of(false, false), SongState::Ended);
    assert!(busy_of(Some(false)));
    assert!(!busy_of(Some(true)));
    assert!(busy_of(None));
    assert_eq!(quoted("/m/a b.opus"), "\"/m/a b.opus\"");
    assert_eq!(quoted(""), "\"\"");
}

#[test]
fn dirty_flag_is_set_by_any_event_and_cleared_by_the_tick() {
    let mut flag = DirtyFlag::new();
    assert_eq!(flag.take(), Ok(false));
    flag.note(WatchEvent::Changed);
    flag.note(WatchEvent::Changed);
    flag.note(WatchEvent::Changed);
    assert_eq!(flag.take(), Ok(true));
    assert_eq!(flag.take(), Ok(false));
}

#[test]
fn dirty_flag_reports_a_closed_channel_once() {
    let mut flag = DirtyFlag::new();
    flag.note(WatchEvent::Disconnected);
    assert_eq!(flag.take(), Err(PlayerError::WatcherFailed));
    assert_eq!(flag.take(), Ok(false));
    flag.note(WatchEvent::Disconnected);
    assert_eq!(flag.take(), Ok(false));
    assert!(flag.failed && flag.reported);
}

#[test]
fn a_failed_send_is_the_loss_of_the_backend() {
    assert_eq!(delivery(true), Ok(()));
    assert_eq!(delivery(false), Err(PlayerError::BackendDisconnected));
}

#[test]
fn echo_area_keeps_the_last_messages() {
    let mut area = EchoArea::new();
    assert_eq!(area.messages, vec!["", "", "", "", ""]);
    area.push("01/02/2024 10:00:00", "Playing a.mp3");
    assert_eq!(
        area.messages,
        vec!["", "", "", "", "[01/02/2024 10:00:00] Playing a.mp3"]
    );
    for i in 0..7 {
        area.push("t", &format!("m{}", i));
    }
    assert_eq!(
        area.messages,
        vec!["[t] m2", "[t] m3", "[t] m4", "[t] m5", "[t] m6"]
    );
}

#[test]
fn echo_area_grows_up_to_its_size() {
    let mut area = EchoArea { messages: Vec::new() };
    area.push("t", "a");
    area.push("t", "b");
    assert_eq!(area.messages, vec!["[t] a", "[t] b"]);
    let mut long = EchoArea { messages: vec!["x".to_string(); 9] };
    long.push("", "");
    assert_eq!(long.messages, vec!["x", "x", "x", "x", "[] "]);
}

#[test]
fn tabs_and_their_names() {
    assert_eq!(Tab::Directories.cycled(), Tab::Files);
    assert_eq!(Tab::Files.cycled(), Tab::Directories);
    assert_eq!(Tab::Directories.index(), 0);
    assert_eq!(Tab::Files.index(), 1);
    assert_eq!(MenuTab::Directories.name(), "Directories");
    assert_eq!(MenuTab::Files.name(), "Files");
    assert_eq!(MenuTab::Files.title(), "  Files  ");
    assert_eq!(MenuTab::Directories.title(), "  Directories  ");
    assert_eq!(MenuTab::all(), vec![MenuTab::Directories, MenuTab::Files]);
    assert_eq!(MenuTab::from_repr(0), Some(MenuTab::Directories));
    assert_eq!(MenuTab::from_repr(1), Some(MenuTab::Files));
    assert_eq!(MenuTab::from_repr(2), None);
    assert_eq!(Focus::default(), Focus::Middle);
    assert_eq!(Focus::Middle.name(), "Middle");
    assert_eq!(Focus::Down.name(), "Down");
    assert_eq!(Focus::from_repr(1), Some(Focus::Down));
    assert_eq!(Focus::from_repr(7), None);
}

#[test]
fn range_checker_reports_overflows() {
    let checker = RangeCkecker::new((0, 9));
    assert_eq!(checker.range, (0, 9));
    assert_eq!(checker.check(4), (0, 4, 0));
    assert_eq!(checker.check(-3), (3, 0, 0));
    assert_eq!(checker.check(12), (0, 9, 3));
    assert_eq!(checker.check(0), (0, 0, 0));
    assert_eq!(checker.check(9), (0, 9, 0));
    let empty = RangeCkecker::new((0, -1));
    assert_eq!(empty.check(0), (0, -1, 1));
    assert_eq!(empty.check(-2), (2, 0, 0));
}

#[test]
fn borders_in_the_middle_of_a_long_list() {
    assert_eq!(get_borders(100, 10, 50), (45, 5, 54));
    assert_eq!(get_borders(100, 11, 50), (45, 5, 55));
}

#[test]
fn borders_at_the_top_of_a_long_list() {
    assert_eq!(get_borders(100, 10, 2), (0, 2, 9));
    assert_eq!(get_borders(100, 10, 0), (0, 0, 9));
}

#[test]
fn borders_at_the_bottom_of_a_long_list() {
    assert_eq!(get_borders(100, 10, 99), (91, 8, 100));
    assert_eq!(get_borders(100, 10, 97), (91, 6, 100));
}

#[test]
fn borders_of_a_short_list() {
    assert_eq!(get_borders(5, 10, 4), (0, 4, 5));
    assert_eq!(get_borders(5, 10, 0), (0, 0, 5));
    assert_eq!(get_borders(5, 5, 4), (2, 2, 5));
    assert_eq!(get_borders(1, 1, 0), (0, 0, 1));
    assert_eq!(get_borders(0, 10, 0), (0, 0, 0));
}

#[test]
fn borders_stay_inside_the_list() {
    for lines in 1..30isize {
        for slice in 1..20isize {
            for index in 0..lines {
                let (first, row, end) = get_borders(lines, slice, index);
                assert!(0 <= first && first <= end && end <= lines);
                assert_eq!(first + row, index);
                if slice >= 3 {
                    assert!(first <= index && index < end);
                    if lines > slice {
                        assert_eq!(end - first, slice - 1);
                    }
                }
            }
        }
    }
}

#[test]
fn rank_descending_is_stable() {
    assert_eq!(rank_descending(&vec![3, 9, 3, 9, 1]), vec![1, 3, 0, 2, 4]);
    assert_eq!(rank_descending(&vec![5, 4, 3]), vec![0, 1, 2]);
    assert_eq!(rank_descending(&vec![1, 2, 3]), vec![2, 1, 0]);
    assert_eq!(rank_descending(&vec![7, 7, 7]), vec![0, 1, 2]);
    assert_eq!(
        rank_descending(&vec![i128::MIN, i128::MAX, 0, -1]),
        vec![1, 2, 3, 0]
    );
    assert!(rank_descending(&Vec::new()).is_empty());
}

#[test]
fn text_prefixes() {
    assert!(starts_with("/music/a.mp3", "/music"));
    assert!(starts_with("/music", "/music"));
    assert!(starts_with("abc", ""));
    assert!(!starts_with("/mus", "/music"));
    assert!(!starts_with("/Music/a", "/music"));
}

#[test]
fn extension_is_what_follows_the_last_dot_of_the_last_component() {
    assert_eq!(extension("/music/a.opus"), Some("opus".to_string()));
    assert_eq!(extension("a.tar.gz"), Some("gz".to_string()));
    assert_eq!(extension("/music/naïve.öpus"), Some("öpus".to_string()));
    assert_eq!(extension("/music.d/song"), None);
    assert_eq!(extension("magnumopus"), None);
    assert_eq!(extension("opus"), None);
    assert_eq!(extension(".opus"), None);
    assert_eq!(extension("/music/.hidden"), None);
    assert_eq!(extension("/music/.hidden.mp3"), Some("mp3".to_string()));
    assert_eq!(extension("a."), Some(String::new()));
    assert_eq!(extension(""), None);
    assert_eq!(extension("/music/"), None);
}

#[test]
fn find_last_looks_at_the_first_characters_only() {
    let chars: Vec<char> = "a.b.c".chars().collect();
    assert_eq!(find_last(&chars, 5, '.'), Some(3));
    assert_eq!(find_last(&chars, 3, '.'), Some(1));
    assert_eq!(find_last(&chars, 1, '.'), None);
    assert_eq!(find_last(&chars, 0, 'a'), None);
    assert_eq!(find_last(&chars, 5, 'x'), None);
}

#[test]
fn text_search() {
    let hay: Vec<char> = "abcabc".chars().collect();
    let needle: Vec<char> = "bc".chars().collect();
    assert_eq!(find(&needle, &hay), Some(1));
    assert!(matches_at(&needle, &hay, 4));
    assert!(!matches_at(&needle, &hay, 5));
    assert!(!matches_at(&needle, &hay, usize::MAX));
    assert_eq!(find(&Vec::new(), &hay), Some(0));
    assert_eq!(find(&hay, &needle), None);
    assert_eq!(find(&"cb".chars().collect(), &hay), None);
    assert_eq!(find(&"abcabc".chars().collect(), &hay), Some(0));
    assert_eq!(find(&Vec::new(), &Vec::new()), Some(0));
}

#[test]
fn text_editing() {
    assert_eq!(with_char("ab", 'c'), "abc");
    assert_eq!(with_char("", 'é'), "é");
    assert_eq!(without_last("abc"), "ab");
    assert_eq!(without_last("é"), "");
    assert_eq!(without_last("aé"), "a");
    assert_eq!(without_last(""), "");
    assert_eq!(chars_of("aé"), vec!['a', 'é']);
    let chars = chars_of("hello");
    assert_eq!(string_of(&chars, 1, 3), "el");
    assert_eq!(string_of(&chars, 2, 2), "");
    assert_eq!(string_of(&chars, 0, 5), "hello");
}

#[test]
fn signal_moves_its_window() {
    let mut signal = dirplayer::data::Signal::new(10..100, vec![1, 2, 3, 4, 5], 2);
    signal.on_tick();
    assert_eq!(signal.points, vec![3, 4, 5, 10, 11]);
    signal.on_tick();
    assert_eq!(signal.points, vec![5, 10, 11, 12, 13]);
    assert_eq!(signal.tick_rate, 2);
    assert_eq!(signal.source.next(), Some(14));
}

#[test]
fn signal_takes_what_the_source_still_has() {
    let mut signal = dirplayer::data::Signal::new(vec![7].into_iter(), vec![1, 2, 3], 3);
    signal.on_tick();
    assert_eq!(signal.points, vec![7]);
    let mut still = dirplayer::data::Signal::new(0..5, vec![9], 0);
    still.on_tick();
    assert_eq!(still.points, vec![9]);
}

#[test]
fn poll_asks_the_backend_for_its_track() {
    let mut backend = Recorder { state: SongState::Ended, calls: Vec::new() };
    let idle = poll(&backend, BackendKind::InProcess);
    assert_eq!(idle.song_state, SongState::Ended);
    assert_eq!(idle.backend_kind, BackendKind::InProcess);
    assert_eq!(idle.file_path, "");
    backend.start("a.mp3");
    let playing = poll(&backend, BackendKind::External);
    assert_eq!(playing.song_state, SongState::Playing);
    assert_eq!(playing.backend_kind, BackendKind::External);
}

#[test]
fn letters_are_the_characters_that_are_not_white_space() {
    let chars: Vec<char> = " a\tb\n c\u{a0}d\u{3000}".chars().collect();
    assert_eq!(count_letters(&chars), 4);
    assert_eq!(count_letters(&Vec::new()), 0);
    assert_eq!(count_letters(&vec![' ', ' ']), 0);
    assert_eq!(count_letters(&vec!['_', '-', '0']), 3);
}
