use dirplayer::backend_trait::{BackendKind, Command, Directive};
use dirplayer::config::{Config, PlayMode, Status, WorkingPath};
use dirplayer::constants::SongState;
use dirplayer::files::{Files, FilterEdit};
use dirplayer::filter::{Matcher, Scoring, MAX_FILTER_LETTERS};
use dirplayer::index::ScannedEntry;
use dirplayer::keys::{Chord, Key, Modifiers};
use dirplayer::watch::{DirtyFlag, PlayerError, WatchEvent};
use std::collections::VecDeque;

fn config() -> Config {
    Config::initial("/music".to_string(), "/cache".to_string())
}

fn scanned(name: &str, created_at: u64) -> ScannedEntry {
    let extension = name.rsplit('.').next().unwrap().to_string();
    ScannedEntry {
        path: format!("/music/{}", name),
        name: name.to_string(),
        is_file: true,
        extension: Some(extension),
        created_at: Some(created_at),
    }
}

/// Files over the given names, the first name the newest.
fn files_with(names: &[&str], external_enabled: bool) -> Files {
    let mut files = Files::new(&config(), external_enabled);
    let scan: Vec<ScannedEntry> = names
        .iter()
        .enumerate()
        .map(|(i, n)| scanned(n, 1000 - i as u64))
        .collect();
    let ticket = files.start_rebuild();
    assert!(files.update_lines(ticket, &scan));
    files.update_lines_filtered();
    files
}

fn shown(files: &Files) -> Vec<String> {
    files
        .lines_filtered()
        .iter()
        .map(|l| l.entry.name.clone())
        .collect()
}

fn describe(directives: &[Directive]) -> Vec<String> {
    directives
        .iter()
        .map(|d| {
            let backend = match d.backend {
                BackendKind::InProcess => "in",
                BackendKind::External => "ext",
            };
            match &d.command {
                Command::Start(file) => format!("{}:start {}", backend, file),
                Command::Pause => format!("{}:pause", backend),
                Command::SilentPause => format!("{}:silent_pause", backend),
                Command::Resume => format!("{}:resume", backend),
                Command::Stop => format!("{}:stop", backend),
                Command::Toggle => format!("{}:toggle", backend),
            }
        })
        .collect()
}

fn plain(key: Key) -> Chord {
    Chord { modifiers: Modifiers::Plain, key }
}

fn control(ch: char) -> Chord {
    Chord { modifiers: Modifiers::Control, key: Key::Char(ch) }
}

#[test]
fn new_files_take_the_active_roots_and_the_current_file() {
    let mut settings = config();
    settings.current_file = "/music/last.mp3".to_string();
    settings.working_directories.push_back(WorkingPath {
        path: "/more".to_string(),
        status: Status::Active,
    });
    settings.working_directories.push_back(WorkingPath {
        path: "/off".to_string(),
        status: Status::Inactive,
    });
    let files = Files::new(&settings, false);
    assert_eq!(files.paths(), &vec!["/music".to_string(), "/more".to_string()]);
    assert_eq!(files.current_file(), "/music/last.mp3");
    assert_eq!(files.filter(), "");
    assert_eq!(files.line_index(), 0);
    assert!(files.lines().is_empty());
    assert!(files.lines_filtered().is_empty());
    assert_eq!(files.extensions(), &settings.extensions);
    assert_eq!(files.extensions_archives(), &vec!["zip".to_string()]);
    assert_eq!(
        files.matcher(),
        Matcher::Fuzzy(Scoring {
            bonus_consecutive: 64,
            bonus_word_start: 0,
            bonus_match_case: 8,
            penalty_distance: 4,
        })
    );
}

#[test]
fn navigate_clamps_to_the_view() {
    let mut files = files_with(&["a.mp3", "b.mp3", "c.mp3"], false);
    files.navigate(1);
    assert_eq!(files.line_index(), 1);
    files.navigate(5);
    assert_eq!(files.line_index(), 2);
    files.navigate(i32::MAX);
    assert_eq!(files.line_index(), 2);
    files.navigate(-1);
    assert_eq!(files.line_index(), 1);
    files.navigate(-7);
    assert_eq!(files.line_index(), 0);
    files.navigate(i32::MIN);
    assert_eq!(files.line_index(), 0);
    files.navigate(0);
    assert_eq!(files.line_index(), 0);
}

#[test]
fn navigate_on_an_empty_view_keeps_the_cursor_at_zero() {
    let mut files = files_with(&[], false);
    files.navigate(1);
    assert_eq!(files.line_index(), 0);
    files.navigate(-1);
    assert_eq!(files.line_index(), 0);
    let mut settings = config();
    assert!(files.play_file(&mut settings, false).is_empty());
    assert!(files.play_next(&mut settings, false).is_empty());
    assert!(files
        .autoplay(&mut settings, SongState::Ended, false)
        .is_empty());
    assert!(files
        .handle_event(10, plain(Key::Enter), &mut settings, false)
        .is_empty());
    assert_eq!(files.current_file(), "");
    assert_eq!(settings.current_file, "");
}

#[test]
fn narrowing_keeps_the_current_file_and_relocates_the_cursor() {
    let mut files = files_with(&["x.mp3", "xy.mp3", "y.mp3"], false);
    let mut settings = config();
    assert_eq!(shown(&files), vec!["x.mp3", "xy.mp3", "y.mp3"]);
    files.navigate(1);
    let directives = files.play_file(&mut settings, false);
    assert_eq!(describe(&directives), vec!["in:start /music/xy.mp3"]);
    assert_eq!(files.current_file(), "/music/xy.mp3");
    files.edit_filter(FilterEdit::Type('x'));
    assert_eq!(shown(&files), vec!["x.mp3", "xy.mp3"]);
    assert_eq!(files.line_index(), 1);
    files.edit_filter(FilterEdit::Type('y'));
    assert_eq!(shown(&files), vec!["xy.mp3"]);
    assert_eq!(files.line_index(), 0);
    assert_eq!(files.current_file(), "/music/xy.mp3");
    assert_eq!(files.filter(), "xy");
}

#[test]
fn a_filter_that_hides_the_current_file_resets_the_cursor_only() {
    let mut files = files_with(&["x.mp3", "xy.mp3", "y.mp3"], false);
    let mut settings = config();
    files.navigate(2);
    files.play_file(&mut settings, false);
    assert_eq!(files.current_file(), "/music/y.mp3");
    files.edit_filter(FilterEdit::Type('x'));
    assert_eq!(shown(&files), vec!["x.mp3", "xy.mp3"]);
    assert_eq!(files.line_index(), 0);
    assert_eq!(files.current_file(), "/music/y.mp3");
    files.edit_filter(FilterEdit::Type('q'));
    assert!(shown(&files).is_empty());
    assert_eq!(files.line_index(), 0);
    files.edit_filter(FilterEdit::Erase);
    files.edit_filter(FilterEdit::Erase);
    assert_eq!(files.filter(), "");
    assert_eq!(files.line_index(), 2);
    files.edit_filter(FilterEdit::Erase);
    assert_eq!(files.filter(), "");
}

/// A name of `len` characters, no two of them alike.
fn long_name(len: u32) -> String {
    (0..len).map(|i| char::from_u32(0x4e00 + i).unwrap()).collect()
}

#[test]
fn a_filter_of_any_length_is_taken() {
    let name = format!("{}.mp3", long_name(300));
    let letters: Vec<char> = name.chars().collect();
    let mut files = files_with(&["a.mp3", &name], false);
    for letter in &letters[..MAX_FILTER_LETTERS] {
        files.edit_filter(FilterEdit::Type(*letter));
    }
    assert_eq!(files.filter().chars().count(), MAX_FILTER_LETTERS);
    assert_eq!(shown(&files), vec![name.clone()]);
    files.edit_filter(FilterEdit::Type(letters[MAX_FILTER_LETTERS]));
    assert_eq!(files.filter().chars().count(), MAX_FILTER_LETTERS + 1);
    assert!(name.starts_with(files.filter().as_str()));
    assert!(shown(&files).is_empty());
    assert_eq!(files.line_index(), 0);
    files.set_matcher(Matcher::Substring);
    assert_eq!(shown(&files), vec![name.clone()]);
    assert_eq!(files.lines_filtered()[0].score, 257);
    files.edit_filter(FilterEdit::Type('!'));
    assert!(shown(&files).is_empty());
    files.edit_filter(FilterEdit::Erase);
    assert_eq!(shown(&files), vec![name]);
}

#[test]
fn typing_and_erasing_gives_the_view_of_the_filter_as_it_was() {
    let mut files = files_with(&["x.mp3", "xy.mp3", "y.mp3"], false);
    let mut settings = config();
    files.navigate(1);
    files.play_file(&mut settings, false);
    files.handle_event(9, plain(Key::Char('x')), &mut settings, false);
    let view = shown(&files);
    let cursor = files.line_index();
    files.handle_event(9, plain(Key::Char('y')), &mut settings, false);
    assert_eq!(files.filter(), "xy");
    assert_eq!(shown(&files), vec!["xy.mp3"]);
    files.handle_event(9, plain(Key::Backspace), &mut settings, false);
    assert_eq!(files.filter(), "x");
    assert_eq!(shown(&files), view);
    assert_eq!(files.line_index(), cursor);
    assert_eq!(files.current_file(), "/music/xy.mp3");
}

#[test]
fn play_file_toggles_the_current_file() {
    let mut files = files_with(&["a.mp3", "b.mp3"], false);
    let mut settings = config();
    let first = files.play_file(&mut settings, false);
    assert_eq!(describe(&first), vec!["in:start /music/a.mp3"]);
    let second = files.play_file(&mut settings, true);
    assert_eq!(describe(&second), vec!["in:toggle"]);
    assert_eq!(files.current_file(), "/music/a.mp3");
}

#[test]
fn play_file_notes_the_play_in_the_settings() {
    let mut files = files_with(&["a.mp3", "b.mp3", "c.mp3"], false);
    let mut settings = config();
    files.navigate(2);
    files.play_file(&mut settings, false);
    assert_eq!(settings.current_file, "/music/c.mp3");
    assert_eq!(settings.line_index_of("/music"), Some(2));
    assert_eq!(settings.line_index_of("/cache"), None);
    files.navigate(-1);
    files.play_file(&mut settings, true);
    assert_eq!(settings.current_file, "/music/b.mp3");
    assert_eq!(settings.line_index_of("/music"), Some(1));
    assert_eq!(settings.line_indices.len(), 1);
}

#[test]
fn switching_backends_pauses_the_busy_one_silently() {
    let mut files = files_with(&["a.mp3", "b.opus"], true);
    let mut settings = config();
    let first = files.play_file(&mut settings, false);
    assert_eq!(describe(&first), vec!["in:start /music/a.mp3"]);
    files.navigate(1);
    let second = files.play_file(&mut settings, true);
    assert_eq!(
        describe(&second),
        vec!["in:silent_pause", "ext:start /music/b.opus"]
    );
    let silent = second
        .iter()
        .filter(|d| d.backend == BackendKind::InProcess && matches!(d.command, Command::SilentPause))
        .count();
    let loud = second
        .iter()
        .filter(|d| matches!(d.command, Command::Pause))
        .count();
    assert_eq!(silent, 1);
    assert_eq!(loud, 0);
    files.navigate(-1);
    let third = files.play_file(&mut settings, true);
    assert_eq!(
        describe(&third),
        vec!["ext:silent_pause", "in:start /music/a.mp3"]
    );
}

#[test]
fn an_idle_backend_is_not_paused_on_a_switch() {
    let mut files = files_with(&["a.mp3", "b.opus"], true);
    let mut settings = config();
    files.play_file(&mut settings, false);
    files.navigate(1);
    let directives = files.play_file(&mut settings, false);
    assert_eq!(describe(&directives), vec!["ext:start /music/b.opus"]);
}

#[test]
fn get_backend_routes_by_extension() {
    let with_external = files_with(&[], true);
    assert_eq!(with_external.get_backend("/m/a.opus"), BackendKind::External);
    assert_eq!(with_external.get_backend("a.b.opus"), BackendKind::External);
    assert_eq!(with_external.get_backend("opus"), BackendKind::InProcess);
    assert_eq!(with_external.get_backend("magnumopus"), BackendKind::InProcess);
    assert_eq!(with_external.get_backend(".opus"), BackendKind::InProcess);
    assert_eq!(with_external.get_backend("/m.opus/a"), BackendKind::InProcess);
    assert_eq!(with_external.get_backend("/m/a.mp3"), BackendKind::InProcess);
    assert_eq!(with_external.get_backend("/m/a.opus.mp3"), BackendKind::InProcess);
    assert_eq!(with_external.get_backend("/m/a.OPUS"), BackendKind::InProcess);
    assert_eq!(with_external.get_backend(""), BackendKind::InProcess);
    let without = files_with(&[], false);
    assert_eq!(without.get_backend("/m/a.opus"), BackendKind::InProcess);
}

#[test]
fn queue_does_not_wrap_at_the_last_line() {
    let mut files = files_with(&["a.mp3", "b.mp3", "c.mp3"], false);
    let mut settings = config();
    files.navigate(2);
    files.play_file(&mut settings, false);
    assert_eq!(files.current_file(), "/music/c.mp3");
    files.advance(PlayMode::Queue);
    assert_eq!(files.line_index(), 2);
    let directives = files.play_next(&mut settings, false);
    assert_eq!(files.line_index(), 2);
    assert_eq!(describe(&directives), vec!["in:start /music/c.mp3"]);
    assert_eq!(files.current_file(), "/music/c.mp3");
}

#[test]
fn queue_advance_moves_on_from_the_current_file() {
    let mut files = files_with(&["a.mp3", "b.mp3", "c.mp3"], false);
    let mut settings = config();
    files.play_file(&mut settings, false);
    let directives = files.play_next(&mut settings, false);
    assert_eq!(files.line_index(), 1);
    assert_eq!(describe(&directives), vec!["in:start /music/b.mp3"]);
    assert_eq!(settings.current_file, "/music/b.mp3");
    assert_eq!(settings.line_index_of("/music"), Some(1));
}

#[test]
fn queue_advance_plays_the_line_to_which_the_cursor_was_moved() {
    let mut files = files_with(&["a.mp3", "b.mp3", "c.mp3"], false);
    let mut settings = config();
    files.play_file(&mut settings, false);
    files.navigate(2);
    let directives = files.play_next(&mut settings, true);
    assert_eq!(files.line_index(), 2);
    assert_eq!(
        describe(&directives),
        vec!["in:silent_pause", "in:start /music/c.mp3"]
    );
}

#[test]
fn advance_with_goes_to_the_line_after_the_pick() {
    let mut files = files_with(&["a.mp3", "b.mp3", "c.mp3", "d.mp3"], false);
    files.advance_with(PlayMode::Random, 0);
    assert_eq!(files.line_index(), 1);
    files.advance_with(PlayMode::Random, 2);
    assert_eq!(files.line_index(), 3);
    files.advance_with(PlayMode::Random, 1);
    assert_eq!(files.line_index(), 2);
    files.advance_with(PlayMode::Queue, 0);
    assert_eq!(files.line_index(), 2);
}

#[test]
fn random_advance_never_lands_on_the_first_line() {
    let mut files = files_with(&["a.mp3", "b.mp3", "c.mp3", "d.mp3", "e.mp3"], false);
    let mut seen = [false; 5];
    for _ in 0..400 {
        files.advance(PlayMode::Random);
        let at = files.line_index();
        assert!(at >= 1 && at < 5);
        seen[at] = true;
    }
    assert_eq!(seen, [false, true, true, true, true]);
}

#[test]
fn random_advance_in_a_view_of_one_line_stays_on_it() {
    let mut files = files_with(&["a.mp3"], false);
    let mut settings = config();
    settings.play_mode = PlayMode::Random;
    files.advance(PlayMode::Random);
    assert_eq!(files.line_index(), 0);
    let directives = files.play_next(&mut settings, false);
    assert_eq!(describe(&directives), vec!["in:start /music/a.mp3"]);
}

#[test]
fn autoplay_starts_one_track_when_the_current_one_has_ended() {
    let mut files = files_with(&["a.mp3", "b.mp3", "c.mp3"], false);
    let mut settings = config();
    files.play_file(&mut settings, false);
    let directives = files.autoplay(&mut settings, SongState::Ended, false);
    let starts = directives
        .iter()
        .filter(|d| matches!(d.command, Command::Start(_)))
        .count();
    assert_eq!(starts, 1);
    assert_eq!(describe(&directives), vec!["in:start /music/b.mp3"]);
    assert_eq!(files.line_index(), 1);
    assert_eq!(files.current_file(), "/music/b.mp3");
}

#[test]
fn autoplay_in_random_mode_starts_one_track() {
    let mut files = files_with(&["a.mp3", "b.mp3", "c.mp3"], false);
    let mut settings = config();
    settings.play_mode = PlayMode::Random;
    files.play_file(&mut settings, false);
    for _ in 0..50 {
        let directives = files.autoplay(&mut settings, SongState::Ended, false);
        assert_eq!(directives.len(), 1);
        assert!(matches!(directives[0].command, Command::Start(_)));
        assert!(files.line_index() >= 1 && files.line_index() < 3);
        assert_eq!(
            files.current_file(),
            &files.lines_filtered()[files.line_index()].entry.path
        );
    }
}

#[test]
fn autoplay_waits_while_the_track_plays_or_is_paused() {
    let mut files = files_with(&["a.mp3", "b.mp3"], false);
    let mut settings = config();
    files.play_file(&mut settings, false);
    assert!(files
        .autoplay(&mut settings, SongState::Playing, true)
        .is_empty());
    assert!(files
        .autoplay(&mut settings, SongState::Paused, true)
        .is_empty());
    assert_eq!(files.line_index(), 0);
    assert_eq!(files.current_file(), "/music/a.mp3");
}

#[test]
fn handle_event_moves_the_cursor() {
    let names: Vec<String> = (0..20).map(|i| format!("{:02}.mp3", i)).collect();
    let refs: Vec<&str> = names.iter().map(|s| s.as_str()).collect();
    let mut files = files_with(&refs, false);
    let mut settings = config();
    assert!(files.handle_event(9, plain(Key::Down), &mut settings, false).is_empty());
    assert_eq!(files.line_index(), 1);
    files.handle_event(9, plain(Key::PageDown), &mut settings, false);
    assert_eq!(files.line_index(), 5);
    files.handle_event(9, plain(Key::PageDown), &mut settings, false);
    assert_eq!(files.line_index(), 9);
    files.handle_event(9, plain(Key::PageUp), &mut settings, false);
    assert_eq!(files.line_index(), 5);
    files.handle_event(9, plain(Key::Up), &mut settings, false);
    assert_eq!(files.line_index(), 4);
    files.handle_event(u16::MAX, plain(Key::PageDown), &mut settings, false);
    assert_eq!(files.line_index(), 19);
    files.handle_event(u16::MAX, plain(Key::PageUp), &mut settings, false);
    assert_eq!(files.line_index(), 0);
    files.handle_event(9, plain(Key::Tab), &mut settings, false);
    files.handle_event(9, plain(Key::Other), &mut settings, false);
    files.handle_event(9, plain(Key::Left), &mut settings, false);
    assert_eq!(files.line_index(), 0);
    assert_eq!(settings.current_file, "");
}

#[test]
fn handle_event_types_into_the_filter() {
    let mut files = files_with(&["ab.mp3", "cd.mp3"], false);
    let mut settings = config();
    files.handle_event(9, plain(Key::Char('c')), &mut settings, false);
    assert_eq!(files.filter(), "c");
    assert_eq!(shown(&files), vec!["cd.mp3"]);
    files.handle_event(9, control('x'), &mut settings, false);
    assert_eq!(files.filter(), "cx");
    assert!(shown(&files).is_empty());
    files.handle_event(9, plain(Key::Backspace), &mut settings, false);
    files.handle_event(9, plain(Key::Backspace), &mut settings, false);
    assert_eq!(files.filter(), "");
    assert_eq!(shown(&files), vec!["ab.mp3", "cd.mp3"]);
}

#[test]
fn handle_event_plays_and_advances() {
    let mut files = files_with(&["a.mp3", "b.mp3", "c.mp3"], false);
    let mut settings = config();
    let played = files.handle_event(9, plain(Key::Enter), &mut settings, false);
    assert_eq!(describe(&played), vec!["in:start /music/a.mp3"]);
    let next = files.handle_event(9, control('n'), &mut settings, true);
    assert_eq!(
        describe(&next),
        vec!["in:silent_pause", "in:start /music/b.mp3"]
    );
    assert_eq!(files.line_index(), 1);
    let previous = files.handle_event(9, control('p'), &mut settings, true);
    assert_eq!(
        describe(&previous),
        vec!["in:silent_pause", "in:start /music/a.mp3"]
    );
    assert_eq!(files.line_index(), 0);
    assert_eq!(files.filter(), "");
}

#[test]
fn update_paths_gives_what_to_unwatch_and_what_to_watch() {
    let mut files = files_with(&["a.mp3", "b.mp3"], false);
    files.navigate(1);
    let roots: VecDeque<WorkingPath> = VecDeque::from(vec![
        WorkingPath { path: "/one".to_string(), status: Status::Active },
        WorkingPath { path: "/two".to_string(), status: Status::Cache },
        WorkingPath { path: "/three".to_string(), status: Status::Inactive },
        WorkingPath { path: "/four".to_string(), status: Status::Active },
    ]);
    let plan = files.update_paths(&roots);
    assert_eq!(plan.unwatch, vec!["/music"]);
    assert_eq!(plan.watch, vec!["/one", "/four"]);
    assert_eq!(files.paths(), &vec!["/one".to_string(), "/four".to_string()]);
    assert_eq!(files.line_index(), 0);
    assert_eq!(shown(&files), vec!["a.mp3", "b.mp3"]);
}

#[test]
fn a_rebuild_that_is_out_of_date_is_dropped() {
    let mut files = files_with(&["a.mp3"], false);
    let scan = vec![scanned("new.mp3", 5)];
    let stale = files.start_rebuild();
    let fresh = files.start_rebuild();
    assert!(!files.update_lines(stale, &scan));
    assert_eq!(files.lines().len(), 1);
    assert_eq!(files.lines()[0].name, "a.mp3");
    assert!(files.update_lines(fresh, &scan));
    assert_eq!(files.lines()[0].name, "new.mp3");
    assert_eq!(shown(&files), vec!["a.mp3"]);
    files.update_lines_filtered();
    assert_eq!(shown(&files), vec!["new.mp3"]);
    let before_roots = files.start_rebuild();
    files.update_paths(&VecDeque::new());
    assert!(!files.update_lines(before_roots, &Vec::new()));
    assert_eq!(files.lines().len(), 1);
}

#[test]
fn on_tick_begins_a_rebuild_when_the_flag_is_set() {
    let mut files = files_with(&["a.mp3"], false);
    let mut flag = DirtyFlag::new();
    assert_eq!(files.on_tick(&mut flag), Ok(None));
    flag.note(WatchEvent::Changed);
    flag.note(WatchEvent::Changed);
    let ticket = files.on_tick(&mut flag).unwrap().unwrap();
    assert!(!flag.dirty);
    assert!(files.update_lines(ticket, &vec![scanned("b.mp3", 1)]));
    assert_eq!(files.on_tick(&mut flag), Ok(None));
}

#[test]
fn on_tick_hands_out_the_failure_of_the_watcher_once() {
    let mut files = files_with(&["a.mp3"], false);
    let mut flag = DirtyFlag::new();
    flag.note(WatchEvent::Changed);
    flag.note(WatchEvent::Disconnected);
    assert_eq!(files.on_tick(&mut flag), Err(PlayerError::WatcherFailed));
    assert!(flag.dirty);
    assert!(files.on_tick(&mut flag).unwrap().is_some());
    assert_eq!(files.on_tick(&mut flag), Ok(None));
    assert_eq!(files.on_tick(&mut flag), Ok(None));
}

#[test]
fn clear_current_file_makes_the_next_play_a_start() {
    let mut files = files_with(&["a.mp3"], false);
    let mut settings = config();
    files.play_file(&mut settings, false);
    files.clear_current_file();
    assert_eq!(files.current_file(), "");
    let directives = files.play_file(&mut settings, false);
    assert_eq!(describe(&directives), vec!["in:start /music/a.mp3"]);
}

#[test]
fn restore_line_puts_the_cursor_where_the_settings_have_it() {
    let mut files = files_with(&["a.mp3", "b.mp3", "c.mp3"], false);
    let mut settings = config();
    settings.record_position("/music/b.mp3", Some("/music"), 1);
    settings.record_position("/far/z.mp3", Some("/far"), 40);
    files.restore_line(&settings, "/music");
    assert_eq!(files.line_index(), 1);
    files.restore_line(&settings, "/far");
    assert_eq!(files.line_index(), 2);
    files.restore_line(&settings, "/nowhere");
    assert_eq!(files.line_index(), 0);
    let mut empty = files_with(&[], false);
    empty.restore_line(&settings, "/far");
    assert_eq!(empty.line_index(), 0);
}

#[test]
fn set_matcher_makes_the_view_anew() {
    let mut files = files_with(&["a-b.mp3", "ab.mp3"], false);
    files.edit_filter(FilterEdit::Type('a'));
    files.edit_filter(FilterEdit::Type('b'));
    assert_eq!(shown(&files), vec!["ab.mp3", "a-b.mp3"]);
    files.set_matcher(Matcher::Substring);
    assert_eq!(files.matcher(), Matcher::Substring);
    assert_eq!(shown(&files), vec!["ab.mp3"]);
    assert_eq!(files.lines_filtered()[0].indices, vec![0, 1]);
}

#[test]
fn a_tick_refreshes_the_view_and_then_looks_at_the_track() {
    let mut files = files_with(&["a.mp3", "b.mp3"], false);
    let mut settings = config();
    files.navigate(1);
    files.play_file(&mut settings, false);
    assert_eq!(files.current_file(), "/music/b.mp3");
    let mut flag = DirtyFlag::new();
    flag.note(WatchEvent::Changed);
    let ticket = files.on_tick(&mut flag).unwrap();
    assert!(ticket.is_some());
    let scan = vec![scanned("c.mp3", 3000), scanned("b.mp3", 999), scanned("d.mp3", 1)];
    let directives = files.finish_tick(ticket, &scan, &mut settings, SongState::Ended, false);
    assert_eq!(shown(&files), vec!["c.mp3", "b.mp3", "d.mp3"]);
    assert_eq!(describe(&directives), vec!["in:start /music/d.mp3"]);
    assert_eq!(files.line_index(), 2);
    assert_eq!(files.current_file(), "/music/d.mp3");
    assert!(!flag.dirty);
}

#[test]
fn a_tick_without_a_change_only_looks_at_the_track() {
    let mut files = files_with(&["a.mp3", "b.mp3"], false);
    let mut settings = config();
    files.play_file(&mut settings, false);
    let scan = vec![scanned("z.mp3", 1)];
    let quiet = files.finish_tick(None, &scan, &mut settings, SongState::Playing, true);
    assert!(quiet.is_empty());
    assert_eq!(shown(&files), vec!["a.mp3", "b.mp3"]);
    let next = files.finish_tick(None, &scan, &mut settings, SongState::Ended, false);
    assert_eq!(describe(&next), vec!["in:start /music/b.mp3"]);
    assert_eq!(shown(&files), vec!["a.mp3", "b.mp3"]);
}

#[test]
fn a_tick_drops_a_rebuild_that_is_out_of_date() {
    let mut files = files_with(&["a.mp3"], false);
    let mut settings = config();
    let stale = files.start_rebuild();
    let _fresh = files.start_rebuild();
    let scan = vec![scanned("z.mp3", 1)];
    let directives = files.finish_tick(Some(stale), &scan, &mut settings, SongState::Paused, true);
    assert!(directives.is_empty());
    assert_eq!(shown(&files), vec!["a.mp3"]);
    assert_eq!(files.lines()[0].name, "a.mp3");
}
