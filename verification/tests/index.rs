use dirplayer::index::{is_allowed, rebuild, select_indexed, sort_newest_first, FileEntry, ScannedEntry};

fn scanned(path: &str, extension: Option<&str>, created_at: Option<u64>, is_file: bool) -> ScannedEntry {
    let name = path.rsplit('/').next().unwrap().to_string();
    ScannedEntry {
        path: path.to_string(),
        name,
        is_file,
        extension: extension.map(|e| e.to_string()),
        created_at,
    }
}

fn allow(extensions: &[&str]) -> Vec<String> {
    extensions.iter().map(|e| e.to_string()).collect()
}

fn paths(entries: &[FileEntry]) -> Vec<String> {
    entries.iter().map(|e| e.path.clone()).collect()
}

#[test]
fn rebuild_lists_the_newest_file_first() {
    let scan = vec![
        scanned("/music/a.mp3", Some("mp3"), Some(100), true),
        scanned("/music/b.mp3", Some("mp3"), Some(200), true),
    ];
    let index = rebuild(&scan, &allow(&["mp3"]));
    assert_eq!(paths(&index), vec!["/music/b.mp3", "/music/a.mp3"]);
    assert_eq!(index[0].name, "b.mp3");
    assert_eq!(index[0].created_at, 200);
    assert_eq!(index[0].extension, "mp3");
}

#[test]
fn rebuild_keeps_allowed_extensions_only() {
    let scan = vec![
        scanned("/music/a.mp3", Some("mp3"), Some(1), true),
        scanned("/music/b.txt", Some("txt"), Some(2), true),
        scanned("/music/c.flac", Some("flac"), Some(3), true),
        scanned("/music/d", None, Some(4), true),
        scanned("/music/e.MP3", Some("MP3"), Some(5), true),
    ];
    let extensions = allow(&["mp3", "flac"]);
    let index = rebuild(&scan, &extensions);
    assert_eq!(paths(&index), vec!["/music/c.flac", "/music/a.mp3"]);
    for entry in &index {
        assert!(extensions.contains(&entry.extension));
    }
}

#[test]
fn rebuild_passes_over_directories_and_unreadable_entries() {
    let scan = vec![
        scanned("/music/dir.mp3", Some("mp3"), Some(9), false),
        scanned("/music/gone.mp3", Some("mp3"), None, true),
        scanned("/music/ok.mp3", Some("mp3"), Some(1), true),
    ];
    let index = rebuild(&scan, &allow(&["mp3"]));
    assert_eq!(paths(&index), vec!["/music/ok.mp3"]);
}

#[test]
fn rebuild_keeps_scan_order_among_equal_ages() {
    let scan = vec![
        scanned("/m/1.mp3", Some("mp3"), Some(5), true),
        scanned("/m/2.mp3", Some("mp3"), Some(7), true),
        scanned("/m/3.mp3", Some("mp3"), Some(5), true),
        scanned("/m/4.mp3", Some("mp3"), Some(7), true),
        scanned("/m/5.mp3", Some("mp3"), Some(6), true),
    ];
    let index = rebuild(&scan, &allow(&["mp3"]));
    assert_eq!(
        paths(&index),
        vec!["/m/2.mp3", "/m/4.mp3", "/m/5.mp3", "/m/1.mp3", "/m/3.mp3"]
    );
}

#[test]
fn rebuild_is_sorted_by_creation_time_descending() {
    let times = [3u64, 9, 1, 9, 0, u64::MAX, 4, 4, 2];
    let scan: Vec<ScannedEntry> = times
        .iter()
        .enumerate()
        .map(|(i, t)| scanned(&format!("/m/{}.ogg", i), Some("ogg"), Some(*t), true))
        .collect();
    let index = rebuild(&scan, &allow(&["ogg"]));
    assert_eq!(index.len(), times.len());
    for pair in index.windows(2) {
        assert!(pair[0].created_at >= pair[1].created_at);
    }
    assert_eq!(index[0].created_at, u64::MAX);
}

#[test]
fn rebuild_twice_gives_the_same_index() {
    let scan = vec![
        scanned("/m/a.mp3", Some("mp3"), Some(5), true),
        scanned("/m/b.mp3", Some("mp3"), Some(7), true),
        scanned("/m/c.mp3", Some("mp3"), Some(5), true),
    ];
    let extensions = allow(&["mp3"]);
    let first = rebuild(&scan, &extensions);
    let second = rebuild(&scan, &extensions);
    assert_eq!(paths(&first), paths(&second));
    let again: Vec<ScannedEntry> = first
        .iter()
        .map(|e| scanned(&e.path, Some(&e.extension), Some(e.created_at), true))
        .collect();
    let third = rebuild(&again, &extensions);
    assert_eq!(paths(&first), paths(&third));
}

#[test]
fn rebuild_of_an_empty_scan_is_empty() {
    assert!(rebuild(&Vec::new(), &allow(&["mp3"])).is_empty());
    let scan = vec![scanned("/m/a.mp3", Some("mp3"), Some(5), true)];
    assert!(rebuild(&scan, &Vec::new()).is_empty());
}

#[test]
fn is_allowed_compares_whole_extensions() {
    let extensions = allow(&["mp3", "opus"]);
    assert!(is_allowed(&extensions, &"opus".to_string()));
    assert!(!is_allowed(&extensions, &"mp".to_string()));
    assert!(!is_allowed(&extensions, &"".to_string()));
}

#[test]
fn select_indexed_keeps_the_sequence_of_the_scan() {
    let scan = vec![
        scanned("/m/a.mp3", Some("mp3"), Some(1), true),
        scanned("/m/b.jpg", Some("jpg"), Some(2), true),
        scanned("/m/c.mp3", Some("mp3"), Some(3), true),
    ];
    let kept = select_indexed(&scan, &allow(&["mp3"]));
    assert_eq!(paths(&kept), vec!["/m/a.mp3", "/m/c.mp3"]);
}

#[test]
fn sort_newest_first_is_stable() {
    let entries: Vec<FileEntry> = [(1u64, "a"), (2, "b"), (1, "c"), (2, "d")]
        .iter()
        .map(|(t, n)| FileEntry {
            path: n.to_string(),
            name: n.to_string(),
            created_at: *t,
            extension: "mp3".to_string(),
        })
        .collect();
    let sorted = sort_newest_first(&entries);
    assert_eq!(paths(&sorted), vec!["b", "d", "a", "c"]);
}
