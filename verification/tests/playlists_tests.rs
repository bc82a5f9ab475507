use prayer::playlists::{Playlist, Playlists};

fn names(p: &Playlists) -> Vec<&str> {
    p.lists.iter().map(|l| l.name.as_str()).collect()
}

#[test]
fn entry_keeps_names_sorted_and_reuses_existing() {
    let mut p = Playlists::new();
    let b = p.entry("rock".to_string());
    assert_eq!(b, 0);
    let a = p.entry("Chill".to_string());
    assert_eq!(a, 0);
    let c = p.entry("jazz".to_string());
    assert_eq!(names(&p), vec!["Chill", "jazz", "rock"]);
    assert_eq!(c, 1);
    assert_eq!(p.entry("rock".to_string()), 2);
    assert_eq!(p.len(), 3);
    assert_eq!(p.find("jazz"), Some(1));
    assert_eq!(p.find("pop"), None);
}

#[test]
fn adding_a_path_twice_adds_it_once() {
    let mut p = Playlists::new();
    let i = p.entry("mix".to_string());
    assert!(p.add_path_if_absent(i, "/a.mp3".to_string()));
    assert!(!p.add_path_if_absent(i, "/a.mp3".to_string()));
    assert_eq!(p.lists[i].paths, vec!["/a.mp3"]);
    assert!(p.contains_path(i, &"/a.mp3".to_string()));
    p.push_path(i, "/a.mp3".to_string());
    assert_eq!(p.lists[i].paths.len(), 2);
}

#[test]
fn removing_paths_and_lists() {
    let mut p = Playlists::from_entries(vec![
        ("b".to_string(), vec!["/1".to_string(), "/2".to_string()]),
        ("a".to_string(), vec![]),
    ]);
    assert_eq!(names(&p), vec!["a", "b"]);
    p.remove_path(1, 0);
    assert_eq!(p.lists[1].paths, vec!["/2"]);
    p.remove_list(0);
    assert_eq!(names(&p), vec!["b"]);
}

#[test]
fn from_entries_keeps_the_last_list_of_a_name() {
    let p = Playlists::from_entries(vec![
        ("x".to_string(), vec!["/old".to_string()]),
        ("y".to_string(), vec!["/y".to_string()]),
        ("x".to_string(), vec!["/new".to_string()]),
    ]);
    assert_eq!(names(&p), vec!["x", "y"]);
    assert_eq!(p.lists[0].paths, vec!["/new"]);
    assert_eq!(p.lists[1].paths, vec!["/y"]);
    let _unused = Playlist { name: String::new(), paths: Vec::new() };
}
