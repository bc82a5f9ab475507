use prayer::config::default_config;
use prayer::library::{Library, Track};
use prayer::player::{ActiveTab, App, Focus, Modal, NextStep};
use prayer::playlists::Playlists;

fn track(path: &str, title: &str, artist: &str, album: &str, n: u16) -> Track {
    Track {
        path: path.to_string(),
        title: title.to_string(),
        artist: artist.to_string(),
        album: album.to_string(),
        year: "----".to_string(),
        track_number: n,
        file_type: "MP3".to_string(),
        file_size: 0,
        lyrics: Vec::new(),
    }
}

fn tracks() -> Vec<Track> {
    vec![
        track("/m/a1", "First Song", "Alpha", "One", 1),
        track("/m/a2", "Second Song", "Alpha", "One", 2),
        track("/m/a3", "Third", "Alpha", "One", 3),
        track("/m/a4", "Other", "Alpha", "Two", 1),
        track("/m/b1", "Bee", "Beta", "Hive", 1),
    ]
}

fn app() -> App {
    App::new(default_config("/home/u"), tracks(), Playlists::new(), "/home/u/.config/prayer/tmp".to_string(), Vec::new())
}

fn paths(v: &[Track]) -> Vec<&str> {
    v.iter().map(|t| t.path.as_str()).collect()
}

#[test]
fn new_selects_the_first_entries() {
    let a = app();
    assert_eq!((a.artist_sel, a.album_sel, a.track_sel), (Some(0), Some(0), Some(0)));
    assert_eq!(a.albums_view_sel, Some(0));
    assert_eq!(a.playlists_list_sel, None);
    assert_eq!(a.active_tab, ActiveTab::Player);
    assert_eq!(a.focus, Focus::Artist);
    assert_eq!(a.modal, Modal::Closed);
    assert_eq!(a.library.artists, vec!["Alpha", "Beta"]);
    assert!(a.selection_ok());
}

#[test]
fn new_with_an_empty_library_selects_nothing() {
    let a = App::new(default_config("/h"), Vec::new(), Playlists::new(), "/t".to_string(), Vec::new());
    assert_eq!((a.artist_sel, a.album_sel, a.track_sel, a.albums_view_sel), (None, None, None, None));
}

#[test]
fn tabs_cycle_both_ways() {
    let mut a = app();
    let order = [ActiveTab::Albums, ActiveTab::Playlists, ActiveTab::Downloader, ActiveTab::Metadata, ActiveTab::Player];
    for t in order {
        a.next_tab();
        assert_eq!(a.active_tab, t);
    }
    a.next_tab();
    a.prev_tab();
    assert_eq!(a.active_tab, ActiveTab::Player);
    assert_eq!(a.focus, Focus::Track);
    a.prev_tab();
    assert_eq!((a.active_tab, a.focus), (ActiveTab::Metadata, Focus::MetadataAlbums));
    a.show_tab(ActiveTab::Albums);
    assert_eq!(a.focus, Focus::AlbumsView);
}

#[test]
fn focus_cycles_within_the_player_tab() {
    let mut a = app();
    let order = [Focus::Album, Focus::Track, Focus::Queue, Focus::Artist];
    for f in order {
        a.next_focus();
        assert_eq!(a.focus, f);
    }
    a.prev_focus();
    assert_eq!(a.focus, Focus::Queue);
    a.next_focus();
    assert_eq!(a.focus, Focus::Artist);
}

#[test]
fn moving_artists_resets_album_and_track() {
    let mut a = app();
    a.track_sel = Some(2);
    a.move_down();
    assert_eq!((a.artist_sel, a.album_sel, a.track_sel), (Some(1), Some(0), Some(0)));
    a.move_down();
    assert_eq!(a.artist_sel, Some(1));
    a.move_up();
    a.move_up();
    assert_eq!(a.artist_sel, Some(0));
}

#[test]
fn moving_tracks_stops_at_the_ends() {
    let mut a = app();
    a.focus = Focus::Track;
    for _ in 0..5 {
        a.move_down();
    }
    assert_eq!(a.track_sel, Some(2));
    assert_eq!(a.get_selected_track().unwrap().path, "/m/a3");
    a.move_up();
    assert_eq!(a.track_sel, Some(1));
}

#[test]
fn queue_down_then_up_comes_back() {
    let mut a = app();
    a.focus = Focus::Queue;
    a.move_down();
    assert_eq!(a.queue_sel, None);
    a.queue = tracks();
    a.move_down();
    assert_eq!(a.queue_sel, Some(0));
    a.move_down();
    a.move_up();
    assert_eq!(a.queue_sel, Some(0));
}

#[test]
fn play_selected_plays_the_track_and_shows_the_player() {
    let mut a = app();
    a.focus = Focus::Track;
    a.track_sel = Some(1);
    a.queue = tracks();
    let t = a.play_selected().unwrap();
    assert_eq!(t.path, "/m/a2");
    assert!(a.queue.is_empty());
    assert_eq!((a.active_tab, a.focus), (ActiveTab::Player, Focus::Track));
}

#[test]
fn play_selected_album_queues_the_rest() {
    let mut a = app();
    a.show_tab(ActiveTab::Albums);
    let t = a.play_selected().unwrap();
    assert_eq!(t.path, "/m/a1");
    assert_eq!(paths(&a.queue), vec!["/m/a2", "/m/a3"]);
    assert_eq!(a.queue_sel, Some(0));
    assert_eq!(a.active_tab, ActiveTab::Player);
}

#[test]
fn toggling_a_track_twice_restores_the_queue() {
    let mut a = app();
    a.focus = Focus::Track;
    a.queue = vec![track("/m/b1", "Bee", "Beta", "Hive", 1)];
    assert!(a.toggle_queue_selected(true).is_none());
    assert_eq!(paths(&a.queue), vec!["/m/b1", "/m/a1"]);
    assert_eq!(a.queue_sel, Some(0));
    a.toggle_queue_selected(true);
    assert_eq!(paths(&a.queue), vec!["/m/b1"]);
}

#[test]
fn queueing_an_album_when_idle_starts_it() {
    let mut a = app();
    a.show_tab(ActiveTab::Albums);
    a.albums_view_sel = Some(1);
    let t = a.toggle_queue_selected(true).unwrap();
    assert_eq!(t.path, "/m/a4");
    assert!(a.queue.is_empty());
    a.albums_view_sel = Some(2);
    assert!(a.toggle_queue_selected(false).is_none());
    assert_eq!(paths(&a.queue), vec!["/m/b1"]);
}

#[test]
fn play_next_takes_the_queue_then_the_album_then_stops() {
    let mut a = app();
    assert!(matches!(a.play_next(), NextStep::Idle));
    a.queue = vec![track("/m/b1", "Bee", "Beta", "Hive", 1)];
    match a.play_next() {
        NextStep::Play(t) => assert_eq!(t.path, "/m/b1"),
        _ => panic!("expected the queued track"),
    }
    assert!(a.queue.is_empty());
    a.start_playing(track("/m/a2", "Second Song", "Alpha", "One", 2));
    match a.play_next() {
        NextStep::Play(t) => assert_eq!(t.path, "/m/a3"),
        _ => panic!("expected the next track of the album"),
    }
    a.start_playing(track("/m/a3", "Third", "Alpha", "One", 3));
    assert!(matches!(a.play_next(), NextStep::Stop));
    assert!(a.current_track.is_none());
    assert_eq!(paths(&a.history), vec!["/m/a2", "/m/a3"]);
}

#[test]
fn going_back_right_after_starting_gives_the_previous_track() {
    let mut a = app();
    a.start_playing(track("/m/a1", "First Song", "Alpha", "One", 1));
    a.playback_failed("oops".to_string());
    a.start_playing(track("/m/a2", "Second Song", "Alpha", "One", 2));
    assert!(a.error_msg.is_none());
    let prev = a.play_previous().unwrap();
    assert_eq!(prev.path, "/m/a1");
    assert!(a.history.is_empty());
    assert!(a.play_previous().is_none());
    a.forget_last_history();
    assert!(a.history.is_empty());
}

#[test]
fn search_finds_matches_sorted() {
    let mut a = app();
    a.search_query = "SONG".to_string();
    a.update_search();
    assert_eq!(paths(&a.search_results), vec!["/m/a1", "/m/a2"]);
    assert_eq!(a.search_sel, Some(0));
    a.search_query = "bee".to_string();
    a.update_search();
    assert_eq!(paths(&a.search_results), vec!["/m/b1"]);
    a.search_query = "----".to_string();
    a.update_search();
    assert_eq!(a.search_results.len(), 5);
    a.search_query = "zzz".to_string();
    a.update_search();
    assert!(a.search_results.is_empty());
    assert_eq!(a.search_sel, None);
    a.search_query = String::new();
    a.update_search();
    assert!(a.search_results.is_empty());
}

#[test]
fn deleting_from_playlists() {
    let mut pl = Playlists::new();
    let i = pl.entry("mix".to_string());
    pl.push_path(i, "/m/a1".to_string());
    pl.push_path(i, "/m/b1".to_string());
    pl.entry("zz".to_string());
    let mut a = App::new(default_config("/h"), tracks(), pl, "/t".to_string(), Vec::new());
    a.show_tab(ActiveTab::Playlists);
    a.next_focus();
    assert_eq!(a.focus, Focus::PlaylistsTracks);
    a.playlists_track_sel = Some(1);
    assert_eq!(a.get_selected_track_anywhere().unwrap().path, "/m/b1");
    assert!(a.delete_selected_playlist_track());
    assert_eq!(a.playlists.lists[0].paths, vec!["/m/a1"]);
    assert_eq!(a.playlists_track_sel, Some(0));
    a.prev_focus();
    a.playlists_list_sel = Some(1);
    assert!(a.delete_selected_playlist_track());
    assert_eq!(a.playlists.lists.len(), 1);
    assert_eq!((a.playlists_list_sel, a.playlists_track_sel), (Some(0), Some(0)));
    a.show_tab(ActiveTab::Player);
    assert!(!a.delete_selected_playlist_track());
}

#[test]
fn reload_keeps_selections_as_they_were() {
    let mut a = app();
    a.artist_sel = Some(1);
    a.track_sel = Some(2);
    a.reload_library(Library::build(vec![track("/x", "x", "Only", "Alb", 1)]));
    assert_eq!(a.library.artists, vec!["Only"]);
    assert_eq!((a.artist_sel, a.album_sel, a.track_sel), (Some(1), Some(0), Some(2)));
    assert!(!a.selection_ok());
    a.focus = Focus::Track;
    assert!(!a.can_read_selection());
    assert!(!a.can_move_down());
    a.reload_library(Library::build(Vec::new()));
    assert_eq!(a.artist_sel, Some(1));
}

#[test]
fn drawing_keeps_shown_selections_within_their_lists() {
    let mut a = app();
    a.artist_sel = Some(1);
    a.reload_library(Library::build(vec![track("/x", "x", "Only", "Alb", 1)]));
    a.track_sel = Some(5);
    a.queue_sel = Some(3);
    a.draw_lists();
    assert_eq!((a.artist_sel, a.album_sel, a.track_sel, a.queue_sel), (Some(0), Some(0), Some(0), None));
    assert!(a.selection_ok());
    a.show_tab(ActiveTab::Albums);
    a.albums_view_sel = Some(9);
    a.draw_lists();
    assert_eq!(a.albums_view_sel, Some(0));
    a.reload_library(Library::build(Vec::new()));
    a.show_tab(ActiveTab::Player);
    a.draw_lists();
    assert_eq!((a.artist_sel, a.album_sel, a.track_sel), (None, None, None));
}

#[test]
fn drawing_the_playlists_tab_counts_only_found_tracks() {
    let mut pl = Playlists::new();
    let i = pl.entry("mix".to_string());
    pl.push_path(i, "/m/a1".to_string());
    pl.push_path(i, "/gone".to_string());
    pl.push_path(i, "/m/b1".to_string());
    let mut a = App::new(default_config("/h"), tracks(), pl, "/t".to_string(), Vec::new());
    a.show_tab(ActiveTab::Playlists);
    a.playlists_track_sel = Some(2);
    a.draw_lists();
    assert_eq!(a.playlists_track_sel, Some(1));
}

#[test]
fn tick_counts_only_with_animations() {
    let mut a = app();
    a.tick();
    assert_eq!(a.tick_count, 1);
    a.tick_count = u64::MAX;
    a.tick();
    assert_eq!(a.tick_count, 0);
    a.config.enable_animations = false;
    a.tick();
    assert_eq!(a.tick_count, 0);
}
