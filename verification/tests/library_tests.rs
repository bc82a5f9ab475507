use prayer::library::{
    album_display, find_track_by_path, is_supported_extension, sort_names, sort_tracks, track_from_tags, Library, Track,
    TrackTags,
};

fn track(path: &str, title: &str, artist: &str, album: &str, year: &str, n: u16) -> Track {
    Track {
        path: path.to_string(),
        title: title.to_string(),
        artist: artist.to_string(),
        album: album.to_string(),
        year: year.to_string(),
        track_number: n,
        file_type: "MP3".to_string(),
        file_size: 0,
        lyrics: Vec::new(),
    }
}

#[test]
fn supported_extensions_ignore_case() {
    for e in ["mp3", "MP3", "flac", "Wav", "m4a"] {
        assert!(is_supported_extension(e));
    }
    for e in ["ogg", "mp4", "", "mp"] {
        assert!(!is_supported_extension(e));
    }
}

#[test]
fn track_from_tags_fills_missing_values() {
    let tags = TrackTags { title: None, artist: None, album: None, year: None, track_number: None };
    let t = track_from_tags("/m/a.flac".to_string(), "flac", "a".to_string(), tags, 10, Vec::new());
    assert_eq!(t.title, "a");
    assert_eq!(t.artist, "Unknown Artist");
    assert_eq!(t.album, "Unknown Album");
    assert_eq!(t.year, "----");
    assert_eq!(t.track_number, 0);
    assert_eq!(t.file_type, "FLAC");
    assert_eq!(t.file_size, 10);
}

#[test]
fn track_from_tags_keeps_present_values() {
    let tags = TrackTags {
        title: Some("Song".to_string()),
        artist: Some("Band".to_string()),
        album: Some("Record".to_string()),
        year: Some(1999),
        track_number: Some(4),
    };
    let t = track_from_tags("/m/x.mp3".to_string(), "mp3", "x".to_string(), tags, 1, Vec::new());
    assert_eq!((t.title.as_str(), t.artist.as_str(), t.album.as_str(), t.year.as_str()), ("Song", "Band", "Record", "1999"));
    assert_eq!(t.track_number, 4);
}

#[test]
fn album_display_shows_the_year_when_known() {
    assert_eq!(album_display(&track("p", "t", "a", "Album", "2001", 1)), "[2001] Album");
    assert_eq!(album_display(&track("p", "t", "a", "Album", "----", 1)), "Album");
    assert_eq!(album_display(&track("p", "t", "a", "Album", " ---- ", 1)), "Album");
    assert_eq!(album_display(&track("p", "t", "a", "Album", "", 1)), "Album");
}

#[test]
fn sort_names_by_lowercase_is_stable() {
    let v = vec!["beta".to_string(), "Alpha".to_string(), "alpha".to_string(), "Gamma".to_string()];
    assert_eq!(sort_names(v.clone(), true), vec!["Alpha", "alpha", "beta", "Gamma"]);
    assert_eq!(sort_names(v, false), vec!["Alpha", "Gamma", "alpha", "beta"]);
}

#[test]
fn sort_tracks_by_number_then_title() {
    let v = vec![track("3", "b", "x", "y", "", 2), track("1", "Z", "x", "y", "", 1), track("2", "a", "x", "y", "", 2)];
    let paths: Vec<String> = sort_tracks(v).into_iter().map(|t| t.path).collect();
    assert_eq!(paths, vec!["1", "2", "3"]);
}

fn sample() -> Vec<Track> {
    vec![
        track("/m/b1", "One", "beta", "Later", "2010", 1),
        track("/m/a2", "Two", "Alpha", "First", "----", 2),
        track("/m/a1", "One", "Alpha", "First", "----", 1),
        track("/m/a3", "Solo", "Alpha", "Early", "1990", 1),
    ]
}

#[test]
fn build_indexes_artists_albums_and_tracks() {
    let lib = Library::build(sample());
    assert_eq!(lib.all_tracks.len(), 4);
    assert_eq!(lib.artists, vec!["Alpha", "beta"]);
    assert_eq!(lib.albums_by_artist[0], vec!["[1990] Early", "First"]);
    assert_eq!(lib.albums_by_artist[1], vec!["[2010] Later"]);
    let first: Vec<&str> = lib.tracks_by_album[0][1].iter().map(|t| t.path.as_str()).collect();
    assert_eq!(first, vec!["/m/a1", "/m/a2"]);
    assert_eq!(lib.all_albums, vec![(0, 0), (0, 1), (1, 0)]);
}

#[test]
fn every_track_is_listed_under_its_artist_and_album() {
    let lib = Library::build(sample());
    for t in &sample() {
        let i = lib.artists.iter().position(|a| *a == t.artist).unwrap();
        let name = album_display(t);
        let j = lib.albums_by_artist[i].iter().position(|a| *a == name).unwrap();
        assert!(lib.tracks_by_album[i][j].iter().any(|x| x.path == t.path));
    }
}

#[test]
fn build_of_nothing_is_empty() {
    let lib = Library::build(Vec::new());
    assert!(lib.artists.is_empty() && lib.all_albums.is_empty() && lib.all_tracks.is_empty());
}

#[test]
fn find_track_by_path_gives_the_first_match() {
    let v = vec![track("/a", "1", "x", "y", "", 1), track("/b", "2", "x", "y", "", 1), track("/b", "3", "x", "y", "", 1)];
    assert_eq!(find_track_by_path(&v, &"/b".to_string()), Some(1));
    assert_eq!(find_track_by_path(&v, &"/c".to_string()), None);
}

#[test]
fn two_builds_of_one_scan_index_the_same_library() {
    let a = Library::build(sample());
    let b = Library::build(sample());
    assert_eq!(a.artists, b.artists);
    assert_eq!(a.albums_by_artist, b.albums_by_artist);
    assert_eq!(a.all_albums, b.all_albums);
    for (i, albums) in a.tracks_by_album.iter().enumerate() {
        for (j, tracks) in albums.iter().enumerate() {
            let pa: Vec<&str> = tracks.iter().map(|t| t.path.as_str()).collect();
            let pb: Vec<&str> = b.tracks_by_album[i][j].iter().map(|t| t.path.as_str()).collect();
            assert_eq!(pa, pb);
        }
    }
}
