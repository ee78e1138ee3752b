use dirplayer::archives::archive_roots;
use dirplayer::config::{
    active_paths, find_record, switch_play_mode, Config, LogLevel, PlayMode, RootPosition, Status,
    WorkingPath,
};
use std::collections::VecDeque;

#[test]
fn initial_settings() {
    let config = Config::initial("/home/me/Music".to_string(), "/home/me/.cache/dirplayer".to_string());
    assert_eq!(
        config.extensions,
        vec!["mp3", "mp4", "avi", "ogg", "m4a", "opus", "flac"]
    );
    assert_eq!(config.extensions_archives, vec!["zip"]);
    assert_eq!(config.tick_rate, "500");
    assert_eq!(config.working_directories.len(), 2);
    assert_eq!(config.working_directories[0].path, "/home/me/Music");
    assert_eq!(config.working_directories[0].status, Status::Active);
    assert_eq!(config.working_directories[1].path, "/home/me/.cache/dirplayer");
    assert_eq!(config.working_directories[1].status, Status::Cache);
    assert_eq!(config.working_directory, "");
    assert_eq!(config.play_mode, PlayMode::Queue);
    assert_eq!(config.log_level, LogLevel::Info);
    assert_eq!(config.current_file, "");
    assert!(config.line_indices.is_empty());
}

#[test]
fn status_is_inactive_by_default() {
    assert_eq!(Status::default(), Status::Inactive);
}

#[test]
fn switch_play_mode_goes_back_and_forth() {
    let mut config = Config::initial("/a".to_string(), "/c".to_string());
    switch_play_mode(&mut config);
    assert_eq!(config.play_mode, PlayMode::Random);
    switch_play_mode(&mut config);
    assert_eq!(config.play_mode, PlayMode::Queue);
    assert_eq!(PlayMode::Queue.switched(), PlayMode::Random);
    assert_eq!(PlayMode::Random.switched(), PlayMode::Queue);
    assert_eq!(config.tick_rate, "500");
    assert_eq!(config.extensions.len(), 7);
}

#[test]
fn set_working_directory_changes_that_setting_only() {
    let mut config = Config::initial("/a".to_string(), "/c".to_string());
    config.set_working_directory("/a/b");
    assert_eq!(config.working_directory, "/a/b");
    assert_eq!(config.working_directories.len(), 2);
    assert_eq!(config.current_file, "");
    config.set_working_directories(VecDeque::new());
    assert!(config.working_directories.is_empty());
    assert_eq!(config.working_directory, "/a/b");
}

#[test]
fn record_position_keeps_one_line_for_each_root() {
    let mut config = Config::initial("/a".to_string(), "/c".to_string());
    assert_eq!(config.line_index_of("/a"), None);
    config.record_position("/a/x.mp3", Some("/a"), 3);
    config.record_position("/b/y.mp3", Some("/b"), 7);
    assert_eq!(config.current_file, "/b/y.mp3");
    assert_eq!(config.line_index_of("/a"), Some(3));
    assert_eq!(config.line_index_of("/b"), Some(7));
    config.record_position("/a/z.mp3", Some("/a"), 0);
    assert_eq!(config.line_index_of("/a"), Some(0));
    assert_eq!(config.line_index_of("/b"), Some(7));
    assert_eq!(config.line_indices.len(), 2);
    config.record_position("/q/z.mp3", None, 9);
    assert_eq!(config.current_file, "/q/z.mp3");
    assert_eq!(config.line_indices.len(), 2);
    assert_eq!(config.line_index_of("/q"), None);
}

#[test]
fn find_record_takes_the_first_record_of_a_root() {
    let records = vec![
        RootPosition { root: "/a".to_string(), line_index: 1 },
        RootPosition { root: "/b".to_string(), line_index: 2 },
        RootPosition { root: "/a".to_string(), line_index: 3 },
    ];
    assert_eq!(find_record(&records, "/a"), Some(0));
    assert_eq!(find_record(&records, "/b"), Some(1));
    assert_eq!(find_record(&records, "/"), None);
}

#[test]
fn active_paths_leave_out_inactive_and_cache_roots() {
    let roots: VecDeque<WorkingPath> = VecDeque::from(vec![
        WorkingPath { path: "/cache".to_string(), status: Status::Cache },
        WorkingPath { path: "/one".to_string(), status: Status::Active },
        WorkingPath { path: "/two".to_string(), status: Status::Inactive },
        WorkingPath { path: "/three".to_string(), status: Status::Active },
    ]);
    assert_eq!(active_paths(&roots), vec!["/one", "/three"]);
    assert!(active_paths(&VecDeque::new()).is_empty());
    let copy = roots[1].clone();
    assert_eq!(copy.path, "/one");
    assert_eq!(copy.status, Status::Active);
}

#[test]
fn archives_are_not_searched_in_the_cache_directory() {
    let paths = vec![
        "/music".to_string(),
        "/cache".to_string(),
        "/more".to_string(),
        "/cache".to_string(),
    ];
    assert_eq!(archive_roots(&paths, "/cache"), vec!["/music", "/more"]);
    assert_eq!(archive_roots(&paths, "/none").len(), 4);
    assert!(archive_roots(&Vec::new(), "/cache").is_empty());
}
