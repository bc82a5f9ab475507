use prayer::config::default_config;
use prayer::keys::{Effect, KeyCode, KeyPress};
use prayer::library::Track;
use prayer::metadata::ScannedFile;
use prayer::player::{ActiveTab, App, Focus, Modal};
use prayer::playlists::Playlists;

fn track(path: &str, title: &str, artist: &str, album: &str, n: u16) -> Track {
    Track {
        path: path.to_string(),
        title: title.to_string(),
        artist: artist.to_string(),
        album: album.to_string(),
        year: "----".to_string(),
        track_number: n,
        file_type: "MP3".to_string(),
        file_size: 0,
        lyrics: Vec::new(),
    }
}

fn staged() -> Vec<ScannedFile> {
    vec![
        ScannedFile {
            path: "/stage/Band/(2001) - Rec/01 - Intro.m4a".to_string(),
            tags: None,
            artist_dir: Some("Band".to_string()),
            album_dir: Some("(2001) - Rec".to_string()),
            file_stem: Some("01 - Intro".to_string()),
        },
        ScannedFile {
            path: "/stage/Band/(2001) - Rec/02 - Outro.m4a".to_string(),
            tags: None,
            artist_dir: Some("Band".to_string()),
            album_dir: Some("(2001) - Rec".to_string()),
            file_stem: Some("02 - Outro".to_string()),
        },
    ]
}

fn app() -> App {
    let tracks = vec![
        track("/m/a1", "First Song", "Alpha", "One", 1),
        track("/m/a2", "Second Song", "Alpha", "One", 2),
        track("/m/b1", "Bee", "Beta", "Hive", 1),
    ];
    App::new(default_config("/home/u"), tracks, Playlists::new(), "/stage".to_string(), staged())
}

fn key(code: KeyCode) -> KeyPress {
    KeyPress { code, ctrl: false, alt: false, shift: false }
}

fn ch(c: char) -> KeyPress {
    key(KeyCode::Char(c))
}

fn press(a: &mut App, k: KeyPress) -> Effect {
    a.handle_key(k, true)
}

fn type_text(a: &mut App, s: &str) {
    for c in s.chars() {
        press(a, ch(c));
    }
}

#[test]
fn quit_help_and_volume() {
    let mut a = app();
    assert!(matches!(press(&mut a, ch('q')), Effect::Quit));
    press(&mut a, ch('?'));
    assert_eq!(a.modal, Modal::Help);
    press(&mut a, ch('x'));
    assert_eq!(a.modal, Modal::Help);
    press(&mut a, ch('?'));
    assert_eq!(a.modal, Modal::Closed);
    assert!(matches!(press(&mut a, ch('-')), Effect::VolumeDown));
    assert!(matches!(press(&mut a, ch('=')), Effect::VolumeUp));
    assert!(matches!(press(&mut a, ch('+')), Effect::VolumeUp));
    assert!(matches!(press(&mut a, ch(' ')), Effect::TogglePlayback));
}

#[test]
fn number_keys_and_tab_keys_change_tabs() {
    let mut a = app();
    press(&mut a, ch('2'));
    assert_eq!((a.active_tab, a.focus), (ActiveTab::Albums, Focus::AlbumsView));
    press(&mut a, ch('3'));
    assert_eq!(a.active_tab, ActiveTab::Playlists);
    press(&mut a, key(KeyCode::PageDown));
    assert_eq!(a.active_tab, ActiveTab::Downloader);
    press(&mut a, KeyPress { code: KeyCode::Tab, ctrl: true, alt: false, shift: false });
    assert_eq!(a.active_tab, ActiveTab::Metadata);
    press(&mut a, KeyPress { code: KeyCode::Tab, ctrl: true, alt: false, shift: true });
    assert_eq!(a.active_tab, ActiveTab::Downloader);
    press(&mut a, KeyPress { code: KeyCode::BackTab, ctrl: true, alt: false, shift: true });
    assert_eq!(a.active_tab, ActiveTab::Playlists);
    press(&mut a, key(KeyCode::PageUp));
    press(&mut a, ch('1'));
    assert_eq!((a.active_tab, a.focus), (ActiveTab::Player, Focus::Track));
}

#[test]
fn focused_mode_toggles() {
    let mut a = app();
    let k = KeyPress { code: KeyCode::Char('N'), ctrl: false, alt: true, shift: true };
    press(&mut a, k);
    assert!(a.is_focused_mode);
    press(&mut a, k);
    assert!(!a.is_focused_mode);
}

#[test]
fn arrows_and_letters_move() {
    let mut a = app();
    press(&mut a, ch('j'));
    assert_eq!(a.artist_sel, Some(1));
    press(&mut a, key(KeyCode::Up));
    assert_eq!(a.artist_sel, Some(0));
    press(&mut a, key(KeyCode::Right));
    assert_eq!(a.focus, Focus::Album);
    press(&mut a, ch('h'));
    assert_eq!(a.focus, Focus::Artist);
    press(&mut a, key(KeyCode::Tab));
    press(&mut a, key(KeyCode::BackTab));
    assert_eq!(a.focus, Focus::Artist);
    press(&mut a, ch('2'));
    assert!(matches!(press(&mut a, key(KeyCode::Down)), Effect::RefreshHoverCover));
    assert_eq!(a.albums_view_sel, Some(1));
}

#[test]
fn enter_plays_and_next_previous() {
    let mut a = app();
    press(&mut a, ch('l'));
    press(&mut a, ch('l'));
    assert_eq!(a.focus, Focus::Track);
    match press(&mut a, key(KeyCode::Enter)) {
        Effect::Play(t) => {
            assert_eq!(t.path, "/m/a1");
            a.start_playing(t);
        },
        _ => panic!("expected a track to play"),
    }
    match press(&mut a, ch('n')) {
        Effect::Play(t) => {
            assert_eq!(t.path, "/m/a2");
            a.start_playing(t);
        },
        _ => panic!("expected the next track"),
    }
    match press(&mut a, ch('p')) {
        Effect::PlayPrevious(t) => assert_eq!(t.path, "/m/a1"),
        _ => panic!("expected the previous track"),
    }
    assert!(matches!(press(&mut a, ch('>')), Effect::Stop));
    assert!(matches!(press(&mut a, ch('.')), Effect::Nothing));
}

#[test]
fn output_idle_moves_on() {
    let mut a = app();
    assert!(matches!(a.on_output_idle(true), Effect::Nothing));
    a.start_playing(track("/m/a1", "First Song", "Alpha", "One", 1));
    assert!(matches!(a.on_output_idle(false), Effect::Nothing));
    match a.on_output_idle(true) {
        Effect::Play(t) => assert_eq!(t.path, "/m/a2"),
        _ => panic!("expected the next track"),
    }
}

#[test]
fn search_dialog_finds_and_plays() {
    let mut a = app();
    press(&mut a, KeyPress { code: KeyCode::Char('s'), ctrl: true, alt: false, shift: false });
    assert_eq!(a.modal, Modal::Search);
    type_text(&mut a, "songx");
    assert!(a.search_results.is_empty());
    press(&mut a, key(KeyCode::Backspace));
    assert_eq!(a.search_query, "song");
    assert_eq!(a.search_results.len(), 2);
    press(&mut a, key(KeyCode::Down));
    press(&mut a, key(KeyCode::Down));
    assert_eq!(a.search_sel, Some(1));
    press(&mut a, key(KeyCode::Up));
    press(&mut a, key(KeyCode::Down));
    press(&mut a, ch('1'));
    assert_eq!(a.search_query, "song1");
    press(&mut a, key(KeyCode::Backspace));
    press(&mut a, key(KeyCode::Down));
    a.active_tab = ActiveTab::Albums;
    a.focus = Focus::AlbumsView;
    match press(&mut a, key(KeyCode::Enter)) {
        Effect::Play(t) => assert_eq!(t.path, "/m/a2"),
        _ => panic!("expected the selected result"),
    }
    assert_eq!(a.modal, Modal::Closed);
    assert_eq!(a.active_tab, ActiveTab::Player);
}

#[test]
fn search_from_the_downloader_runs_yt_dlp() {
    let mut a = app();
    press(&mut a, ch('3'));
    press(&mut a, key(KeyCode::PageDown));
    assert_eq!(a.active_tab, ActiveTab::Downloader);
    press(&mut a, KeyPress { code: KeyCode::Char('s'), ctrl: true, alt: false, shift: false });
    type_text(&mut a, "abc");
    match press(&mut a, key(KeyCode::Enter)) {
        Effect::RunSearch(terms) => assert_eq!(terms, vec!["ytsearch15:abc", "scsearch15:abc"]),
        _ => panic!("expected a search"),
    }
    assert_eq!(a.downloader.query, "abc");
    assert_eq!(a.modal, Modal::Closed);
}

#[test]
fn downloader_query_and_download() {
    let mut a = app();
    a.show_tab(ActiveTab::Downloader);
    press(&mut a, ch('/'));
    assert_eq!(a.modal, Modal::DownloaderSearch);
    type_text(&mut a, "lofi!");
    press(&mut a, key(KeyCode::Backspace));
    match press(&mut a, key(KeyCode::Enter)) {
        Effect::RunSearch(terms) => assert_eq!(terms, vec!["ytsearch15:lofi", "scsearch15:lofi"]),
        _ => panic!("expected a search"),
    }
    a.downloader.finish_search(
        "lofi",
        Some(vec![prayer::downloader::YtResult {
            title: Some("Beats".to_string()),
            uploader: None,
            id: Some("v1".to_string()),
            duration_secs: Some(61),
            url: None,
        }]),
    );
    match press(&mut a, ch('d')) {
        Effect::Download(job) => assert_eq!(job.url, "https://www.youtube.com/watch?v=v1"),
        _ => panic!("expected a download"),
    }
    assert!(matches!(press(&mut a, ch('a')), Effect::Nothing));
    assert!(matches!(press(&mut a, ch('s')), Effect::Nothing));
}

#[test]
fn adding_to_a_new_playlist_then_an_existing_one() {
    let mut a = app();
    a.focus = Focus::Track;
    press(&mut a, KeyPress { code: KeyCode::Char('a'), ctrl: false, alt: true, shift: false });
    assert_eq!(a.modal, Modal::PlaylistSelect);
    assert_eq!(a.playlist_select_sel, Some(0));
    press(&mut a, key(KeyCode::Enter));
    assert_eq!(a.modal, Modal::PlaylistCreate);
    assert!(matches!(press(&mut a, key(KeyCode::Enter)), Effect::Nothing));
    type_text(&mut a, "mixx");
    press(&mut a, key(KeyCode::Backspace));
    assert!(matches!(press(&mut a, key(KeyCode::Enter)), Effect::SavePlaylists));
    assert_eq!(a.modal, Modal::Closed);
    assert_eq!(a.playlists.lists.len(), 1);
    assert_eq!(a.playlists.lists[0].name, "mix");
    assert_eq!(a.playlists.lists[0].paths, vec!["/m/a1"]);
    press(&mut a, KeyPress { code: KeyCode::Char('a'), ctrl: false, alt: true, shift: false });
    press(&mut a, key(KeyCode::Down));
    press(&mut a, key(KeyCode::Down));
    assert_eq!(a.playlist_select_sel, Some(1));
    assert!(matches!(press(&mut a, key(KeyCode::Enter)), Effect::Nothing));
    assert_eq!(a.playlists.lists[0].paths, vec!["/m/a1"]);
    press(&mut a, key(KeyCode::Down));
    assert_eq!(a.modal, Modal::Closed);
    a.track_sel = Some(1);
    press(&mut a, KeyPress { code: KeyCode::Char('a'), ctrl: false, alt: true, shift: false });
    press(&mut a, key(KeyCode::Down));
    assert!(matches!(press(&mut a, key(KeyCode::Enter)), Effect::SavePlaylists));
    assert_eq!(a.playlists.lists[0].paths, vec!["/m/a1", "/m/a2"]);
}

#[test]
fn queue_key_toggles() {
    let mut a = app();
    a.focus = Focus::Track;
    press(&mut a, ch('a'));
    assert_eq!(a.queue.len(), 1);
    press(&mut a, ch('a'));
    assert!(a.queue.is_empty());
}

#[test]
fn playlist_delete_key_saves() {
    let mut pl = Playlists::new();
    let i = pl.entry("mix".to_string());
    pl.push_path(i, "/m/a1".to_string());
    let mut a = App::new(default_config("/h"), Vec::new(), pl, "/stage".to_string(), Vec::new());
    press(&mut a, ch('3'));
    press(&mut a, key(KeyCode::Right));
    assert!(matches!(press(&mut a, ch('d')), Effect::SavePlaylists));
    assert!(a.playlists.lists[0].paths.is_empty());
    assert_eq!(a.playlists_track_sel, None);
}

#[test]
fn editing_one_track() {
    let mut a = app();
    press(&mut a, ch('e'));
    assert_eq!(a.modal, Modal::Closed);
    a.show_tab(ActiveTab::Metadata);
    press(&mut a, key(KeyCode::Down));
    press(&mut a, key(KeyCode::Right));
    assert_eq!(a.focus, Focus::MetadataTracks);
    press(&mut a, key(KeyCode::Down));
    assert_eq!(a.metadata_editor.selected_track, 1);
    press(&mut a, ch('e'));
    assert_eq!(a.modal, Modal::EditMetadata);
    assert_eq!(a.edit_title, "Outro");
    assert_eq!(a.edit_track, "02");
    assert_eq!(a.edit_year, "2001");
    assert_eq!(a.edit_filename, "02 - Outro.m4a");
    type_text(&mut a, "!");
    press(&mut a, key(KeyCode::Tab));
    press(&mut a, key(KeyCode::Backspace));
    press(&mut a, key(KeyCode::Up));
    press(&mut a, key(KeyCode::Up));
    assert_eq!(a.edit_focus, 5);
    for _ in 0..14 {
        press(&mut a, key(KeyCode::Backspace));
    }
    match press(&mut a, key(KeyCode::Enter)) {
        Effect::WriteTrackTags(w, rename) => {
            assert_eq!(w.path, "/stage/Band/(2001) - Rec/02 - Outro.m4a");
            assert_eq!(w.update.title, "Outro!");
            assert_eq!(w.update.artist, "Ban");
            assert_eq!(w.update.track_number, Some(2));
            assert!(rename.is_none());
        },
        _ => panic!("expected tags to write"),
    }
    assert_eq!(a.modal, Modal::Closed);
}

#[test]
fn editing_a_whole_album() {
    let mut a = app();
    a.show_tab(ActiveTab::Metadata);
    press(&mut a, ch('E'));
    assert!(a.is_bulk_edit);
    assert_eq!((a.edit_artist.as_str(), a.edit_album.as_str(), a.edit_year.as_str()), ("Band", "Rec", "2001"));
    press(&mut a, key(KeyCode::Down));
    press(&mut a, key(KeyCode::Down));
    press(&mut a, key(KeyCode::Down));
    assert_eq!(a.edit_focus, 0);
    press(&mut a, key(KeyCode::BackTab));
    assert_eq!(a.edit_focus, 2);
    type_text(&mut a, "1");
    match press(&mut a, key(KeyCode::Enter)) {
        Effect::WriteAlbumTags(ws) => {
            assert_eq!(ws.len(), 2);
            assert_eq!(ws[0].update.title, "Intro");
            assert_eq!(ws[0].update.year, "20011");
            assert_eq!(ws[1].update.track_number, Some(2));
        },
        _ => panic!("expected album tags to write"),
    }
    press(&mut a, ch('E'));
    assert!(matches!(press(&mut a, key(KeyCode::Esc)), Effect::Nothing));
    assert_eq!(a.modal, Modal::Closed);
}

#[test]
fn lyrics_move_and_rescan_keys_in_the_editor() {
    let mut a = app();
    assert!(matches!(press(&mut a, ch('r')), Effect::Nothing));
    a.show_tab(ActiveTab::Metadata);
    assert!(matches!(press(&mut a, ch('r')), Effect::RescanStaging));
    match press(&mut a, ch('l')) {
        Effect::FetchLyrics(reqs) => assert_eq!(reqs.len(), 2),
        _ => panic!("expected lyrics to fetch"),
    }
    assert!(a.metadata_editor.is_loading);
    a.metadata_editor.finish_loading();
    press(&mut a, ch('z'));
    assert_eq!(a.metadata_editor.status, "Finished fetching lyrics.");
    press(&mut a, ch('m'));
    assert_eq!(a.modal, Modal::MoveAlbum);
    assert_eq!(a.move_album_dest, "/home/u/Music");
    press(&mut a, key(KeyCode::Backspace));
    type_text(&mut a, "c");
    match press(&mut a, key(KeyCode::Enter)) {
        Effect::MoveAlbum(Some(moves), dest) => {
            assert_eq!(dest, "/home/u/Music");
            assert_eq!(moves.len(), 2);
            assert_eq!(moves[1].album_dir, "(2001) - Rec");
        },
        _ => panic!("expected an album move"),
    }
    assert!(a.metadata_editor.albums.is_empty());
    assert_eq!(a.focus, Focus::MetadataAlbums);
}

#[test]
fn download_finished_rescans_and_fetches() {
    let mut a = app();
    let reqs = a.on_download_finished(staged());
    assert_eq!(a.active_tab, ActiveTab::Metadata);
    assert_eq!(reqs.len(), 2);
    assert_eq!(reqs[0].track_path, "/stage/Band/(2001) - Rec/01 - Intro.m4a");
    assert!(a.metadata_editor.is_loading);
    assert_eq!(a.metadata_editor.status, "Fetching lyrics for 2 tracks...");
    let mut b = app();
    assert!(b.on_download_finished(Vec::new()).is_empty());
    assert!(!b.metadata_editor.is_loading);
}

#[test]
fn escape_closes_every_dialog() {
    let mut a = app();
    a.focus = Focus::Track;
    let openers: Vec<KeyPress> = vec![
        ch('?'),
        KeyPress { code: KeyCode::Char('s'), ctrl: true, alt: false, shift: false },
        KeyPress { code: KeyCode::Char('a'), ctrl: false, alt: true, shift: false },
    ];
    for k in openers {
        press(&mut a, k);
        assert_ne!(a.modal, Modal::Closed);
        assert!(matches!(press(&mut a, key(KeyCode::Esc)), Effect::Nothing));
        assert_eq!(a.modal, Modal::Closed);
    }
    a.show_tab(ActiveTab::Downloader);
    press(&mut a, ch('/'));
    assert_eq!(a.modal, Modal::DownloaderSearch);
    press(&mut a, key(KeyCode::Esc));
    assert_eq!(a.modal, Modal::Closed);
    a.show_tab(ActiveTab::Metadata);
    for opener in ['e', 'E', 'm'] {
        press(&mut a, ch(opener));
        assert_ne!(a.modal, Modal::Closed);
        press(&mut a, key(KeyCode::Esc));
        assert_eq!(a.modal, Modal::Closed);
    }
}

#[test]
fn worker_reports_update_the_state() {
    let mut a = app();
    a.on_search_done("q", Some(Vec::new()));
    assert_eq!(a.downloader.status, "Found 0 results for 'q'.");
    assert!(a.on_download_done("Song", prayer::downloader::DownloadOutcome::Succeeded));
    assert_eq!(a.downloader.status, "Successfully downloaded 'Song'.");
    assert!(!a.on_download_done("Song", prayer::downloader::DownloadOutcome::NotRun));
    a.metadata_editor.fetch_lyrics(0);
    a.on_lyrics_done();
    assert!(!a.metadata_editor.is_loading);
    a.on_staging_scanned(Vec::new());
    assert!(a.metadata_editor.albums.is_empty());
    assert_eq!(a.metadata_editor.status, "Scanned 0 albums. Press 'e' to edit selected track, 'E' to bulk edit album.");
}

#[test]
fn enter_in_the_search_dialog_plays_the_result_in_the_player_tab() {
    let mut a = app();
    a.focus = Focus::Track;
    press(&mut a, KeyPress { code: KeyCode::Char('s'), ctrl: true, alt: false, shift: false });
    type_text(&mut a, "bee");
    assert_eq!(a.search_results.len(), 1);
    match press(&mut a, key(KeyCode::Enter)) {
        Effect::Play(t) => assert_eq!(t.path, "/m/b1"),
        _ => panic!("expected the search result"),
    }
    assert_eq!(a.modal, Modal::Closed);
    press(&mut a, KeyPress { code: KeyCode::Char('s'), ctrl: true, alt: false, shift: false });
    type_text(&mut a, "zzz");
    match press(&mut a, key(KeyCode::Enter)) {
        Effect::Play(t) => assert_eq!(t.path, "/m/a1"),
        _ => panic!("with no result, the track pane's track plays"),
    }
}

#[test]
fn keys_that_read_a_stale_selection_are_refused() {
    let mut a = app();
    a.focus = Focus::Track;
    a.artist_sel = Some(7);
    assert!(!a.key_allowed_now(key(KeyCode::Enter)));
    assert!(!a.key_allowed_now(key(KeyCode::Down)));
    assert!(!a.key_allowed_now(ch('a')));
    assert!(a.key_allowed_now(ch('q')));
    assert!(a.key_allowed_now(key(KeyCode::Right)));
    a.draw_lists();
    assert!(a.key_allowed_now(key(KeyCode::Enter)));
}

#[test]
fn the_edit_dialog_shows_each_field_with_a_cursor_on_the_focused_one() {
    let mut a = app();
    a.show_tab(ActiveTab::Metadata);
    press(&mut a, ch('E'));
    press(&mut a, key(KeyCode::Down));
    let lines = a.edit_dialog_lines();
    let got: Vec<(&str, &str, bool)> = lines.iter().map(|l| (l.label.as_str(), l.text.as_str(), l.focused)).collect();
    assert_eq!(got, vec![("Artist", "Band", false), ("Album", "Rec\u{2588}", true), ("Year", "2001", false)]);
    press(&mut a, key(KeyCode::Esc));
    press(&mut a, ch('e'));
    let lines = a.edit_dialog_lines();
    let labels: Vec<&str> = lines.iter().map(|l| l.label.as_str()).collect();
    assert_eq!(labels, vec!["Title", "Artist", "Album", "Year", "Track Number", "Filename"]);
    assert!(lines[0].focused && lines[0].text.ends_with('\u{2588}'));
}
