use prayer::metadata::{
    group_albums, infer_metadata, is_staged_extension, lyrics_to_save_from_reply, lyrics_url, synced_lyrics_to_save, FileTags, MetadataState, ScannedFile, TrackMetadata,
};

fn file(path: &str, tags: Option<FileTags>, artist_dir: &str, album_dir: &str, stem: &str) -> ScannedFile {
    ScannedFile {
        path: path.to_string(),
        tags,
        artist_dir: Some(artist_dir.to_string()),
        album_dir: Some(album_dir.to_string()),
        file_stem: Some(stem.to_string()),
    }
}

fn meta(path: &str, title: &str, artist: &str, album: &str, year: &str, n: &str) -> TrackMetadata {
    TrackMetadata {
        path: path.to_string(),
        title: title.to_string(),
        artist: artist.to_string(),
        album: album.to_string(),
        year: year.to_string(),
        track_number: n.to_string(),
    }
}

#[test]
fn inference_from_the_folder_layout() {
    let m = infer_metadata(file("/tmp/Band/(2003) - Record/07 - Song.m4a", None, "Band", "(2003) - Record", "07 - Song"));
    assert_eq!(m.artist, "Band");
    assert_eq!(m.album, "Record");
    assert_eq!(m.year, "2003");
    assert_eq!(m.title, "Song");
    assert_eq!(m.track_number, "07");
}

#[test]
fn tags_win_over_the_folder_layout() {
    let tags = FileTags {
        title: Some("Tagged".to_string()),
        artist: Some("Tag Artist".to_string()),
        album: Some("Tag Album".to_string()),
        year: Some("1977".to_string()),
        track_number: Some(3),
    };
    let m = infer_metadata(file("/tmp/Band/(2003) - Record/07 - Song.m4a", Some(tags), "Band", "(2003) - Record", "07 - Song"));
    assert_eq!(
        (m.title.as_str(), m.artist.as_str(), m.album.as_str(), m.year.as_str(), m.track_number.as_str()),
        ("Tagged", "Tag Artist", "Tag Album", "1977", "3")
    );
}

#[test]
fn placeholders_and_plain_folder_names() {
    let tags = FileTags {
        title: Some("Unknown Title".to_string()),
        artist: Some("Unknown Artist".to_string()),
        album: Some("".to_string()),
        year: None,
        track_number: None,
    };
    let m = infer_metadata(file("/x/tmp/Plain Album/Intro - Take 2.m4a", Some(tags), "tmp", "Plain Album", "Intro - Take 2"));
    assert_eq!(m.artist, "Unknown Artist");
    assert_eq!(m.album, "Plain Album");
    assert_eq!(m.year, "");
    assert_eq!(m.title, "Intro - Take 2");
    assert_eq!(m.track_number, "");
}

#[test]
fn missing_everything_gives_unknowns() {
    let f = ScannedFile { path: "/a.m4a".to_string(), tags: None, artist_dir: None, album_dir: None, file_stem: None };
    let m = infer_metadata(f);
    assert_eq!((m.title.as_str(), m.artist.as_str(), m.album.as_str()), ("Unknown Title", "Unknown Artist", "Unknown Album"));
}

#[test]
fn grouping_by_artist_and_album_sorted_by_number() {
    let groups = group_albums(vec![
        meta("/3", "c", "B", "X", "", "10"),
        meta("/1", "a", "A", "Y", "", "2"),
        meta("/2", "b", "B", "X", "", "9"),
        meta("/4", "d", "B", "X", "", "x"),
        meta("/5", "e", "A", "Y", "", "1"),
    ]);
    let names: Vec<&str> = groups.iter().map(|g| g.name.as_str()).collect();
    assert_eq!(names, vec!["A - Y", "B - X"]);
    let first: Vec<&str> = groups[0].tracks.iter().map(|t| t.path.as_str()).collect();
    assert_eq!(first, vec!["/5", "/1"]);
    let second: Vec<&str> = groups[1].tracks.iter().map(|t| t.path.as_str()).collect();
    assert_eq!(second, vec!["/4", "/2", "/3"]);
}

#[test]
fn lyrics_url_encodes_title_and_artist() {
    assert_eq!(
        lyrics_url("Héllo World", "AC/DC & Co"),
        "https://lrclib.net/api/search?track_name=H%C3%A9llo%20World&artist_name=AC%2FDC%20%26%20Co"
    );
    assert_eq!(lyrics_url("a-b_c.d~e", "x"), "https://lrclib.net/api/search?track_name=a-b_c.d~e&artist_name=x");
}

#[test]
fn synced_lyrics_are_saved_unless_blank() {
    assert_eq!(synced_lyrics_to_save(Some("[00:01.00]x".to_string())), Some("[00:01.00]x".to_string()));
    assert_eq!(synced_lyrics_to_save(Some("  \n ".to_string())), None);
    assert_eq!(synced_lyrics_to_save(None), None);
}

#[test]
fn save_track_metadata_trims_year_and_number() {
    let u = MetadataState::save_track_metadata("T", "A", "Al", " 2020 ", " 12 ");
    assert_eq!((u.title.as_str(), u.artist.as_str(), u.album_artist.as_str(), u.album.as_str(), u.year.as_str()), ("T", "A", "A", "Al", "2020"));
    assert_eq!(u.track_number, Some(12));
    let bad = MetadataState::save_track_metadata("T", "A", "Al", "", "70000");
    assert_eq!(bad.track_number, None);
    assert_eq!(MetadataState::save_track_metadata("T", "A", "Al", "", "x").track_number, None);
}

fn staged() -> Vec<ScannedFile> {
    vec![
        file("/tmp/B/(2000) - X/01 - a.m4a", None, "B", "(2000) - X", "01 - a"),
        file("/tmp/B/(2000) - X/02 - b.m4a", None, "B", "(2000) - X", "02 - b"),
        file("/tmp/A/Y/1 - c.m4a", None, "A", "Y", "1 - c"),
    ]
}

#[test]
fn new_editor_shows_the_scan() {
    let m = MetadataState::new("/tmp".to_string(), staged());
    assert_eq!(m.albums.len(), 2);
    assert_eq!(m.albums[0].name, "A - Y");
    assert_eq!(m.status, "Scanned 2 albums. Press 'e' to edit selected track, 'E' to bulk edit album.");
    assert_eq!((m.selected_album, m.selected_track), (0, 0));
    assert!(!m.is_loading);
}

#[test]
fn fetch_lyrics_requests_every_track_of_the_album() {
    let mut m = MetadataState::new("/tmp".to_string(), staged());
    let reqs = m.fetch_lyrics(1).unwrap();
    assert_eq!(reqs.len(), 2);
    assert_eq!(reqs[0].url, "https://lrclib.net/api/search?track_name=a&artist_name=B");
    assert_eq!(reqs[1].track_path, "/tmp/B/(2000) - X/02 - b.m4a");
    assert!(m.is_loading);
    assert_eq!(m.status, "Fetching lyrics for 2 tracks...");
    assert!(m.fetch_lyrics(5).is_none());
}

#[test]
fn status_after_fetching_finishes() {
    let mut m = MetadataState::new("/tmp".to_string(), staged());
    m.fetch_lyrics(0);
    m.refresh_status();
    assert_eq!(m.status, "Fetching lyrics for 1 tracks...");
    m.finish_loading();
    m.refresh_status();
    assert_eq!(m.status, "Finished fetching lyrics.");
}

#[test]
fn move_album_gives_destinations_and_keeps_selection_in_range() {
    let mut m = MetadataState::new("/tmp".to_string(), staged());
    m.selected_album = 1;
    m.selected_track = 1;
    let moves = m.move_album_to_library(1).unwrap();
    assert_eq!(moves.len(), 2);
    assert_eq!(moves[0].artist_dir, "B");
    assert_eq!(moves[0].album_dir, "(2000) - X");
    assert_eq!(m.albums.len(), 1);
    assert_eq!((m.selected_album, m.selected_track), (0, 0));
    assert_eq!(m.status, "Moved B - X to library.");
    assert!(m.move_album_to_library(3).is_none());
}

#[test]
fn rescanning_the_same_files_shows_what_a_new_editor_shows() {
    let fresh = MetadataState::new("/tmp".to_string(), staged());
    let mut m = MetadataState::new("/tmp".to_string(), vec![file("/tmp/C/Z/1 - z.m4a", None, "C", "Z", "1 - z")]);
    m.selected_album = 0;
    m.scan_directory(staged());
    assert_eq!(m.albums.len(), fresh.albums.len());
    for (a, b) in m.albums.iter().zip(fresh.albums.iter()) {
        assert_eq!(a.name, b.name);
        let pa: Vec<&str> = a.tracks.iter().map(|t| t.path.as_str()).collect();
        let pb: Vec<&str> = b.tracks.iter().map(|t| t.path.as_str()).collect();
        assert_eq!(pa, pb);
    }
    assert_eq!(m.status, fresh.status);
    assert_eq!((m.selected_album, m.selected_track, m.is_loading), (fresh.selected_album, fresh.selected_track, fresh.is_loading));
}

#[test]
fn lyrics_are_taken_from_the_first_search_result() {
    let body = br#"[{"syncedLyrics":"[00:01.00]hi"},{"syncedLyrics":"[00:02.00]no"}]"#;
    assert_eq!(lyrics_to_save_from_reply(body), Some("[00:01.00]hi".to_string()));
    assert_eq!(lyrics_to_save_from_reply(br#"[{"syncedLyrics":"  "}]"#), None);
    assert_eq!(lyrics_to_save_from_reply(br#"[{"syncedLyrics":null,"plainLyrics":"x"}]"#), None);
    assert_eq!(lyrics_to_save_from_reply(b"[]"), None);
    assert_eq!(lyrics_to_save_from_reply(b"not json"), None);
}

#[test]
fn only_m4a_and_mp3_files_are_staged() {
    assert!(is_staged_extension("m4a"));
    assert!(is_staged_extension("mp3"));
    assert!(!is_staged_extension("M4A"));
    assert!(!is_staged_extension("flac"));
    assert!(!is_staged_extension(""));
}
