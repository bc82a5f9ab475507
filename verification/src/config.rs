//! The player's settings, the colour theme they name, and starting the
//! player from them.

use vstd::prelude::*;
use crate::library::{Library, Track, track_views};
use crate::playlists::Playlists;
use crate::downloader::DownloaderState;
use crate::metadata::{MetadataState, ScannedFile};
use crate::player::{App, ActiveTab, Focus, Modal};
use crate::text::{owned, push_str, to_lowercase, lowercase_of, text_eq};

verus! {

/// The settings read from the configuration file.
pub struct AppConfig {
    pub music_directory: String,
    pub theme_color: String,
    pub enable_animations: bool,
}

/// The settings used when there is no configuration file: music under
/// `home/Music`, the cyan theme, animations on.
pub fn default_config(home: &str) -> (c: AppConfig)
    ensures
        c.music_directory@ == home@ + "/Music"@,
        c.theme_color@ == "Cyan"@,
        c.enable_animations,
{
    let mut dir = owned(home);
    push_str(&mut dir, "/Music");
    AppConfig { music_directory: dir, theme_color: owned("Cyan"), enable_animations: true }
}

/// The colours a theme can have.
#[derive(PartialEq, Eq, Structural, Clone, Copy, Debug)]
pub enum ThemeColor {
    Cyan,
    Magenta,
    Green,
    Yellow,
    Red,
    Blue,
}

/// The theme a colour name gives, ignoring case; cyan for any other name.
pub open spec fn theme_of(name: Seq<char>) -> ThemeColor {
    let n = lowercase_of(name);
    if n == "cyan"@ {
        ThemeColor::Cyan
    } else if n == "magenta"@ {
        ThemeColor::Magenta
    } else if n == "green"@ {
        ThemeColor::Green
    } else if n == "yellow"@ {
        ThemeColor::Yellow
    } else if n == "red"@ {
        ThemeColor::Red
    } else if n == "blue"@ {
        ThemeColor::Blue
    } else {
        ThemeColor::Cyan
    }
}

/// The theme of the configured colour name.
pub fn theme_color(name: &str) -> (t: ThemeColor)
    ensures
        t == theme_of(name@),
{
    let n = to_lowercase(name);
    let n = n.as_str();
    if text_eq(n, "cyan") {
        ThemeColor::Cyan
    } else if text_eq(n, "magenta") {
        ThemeColor::Magenta
    } else if text_eq(n, "green") {
        ThemeColor::Green
    } else if text_eq(n, "yellow") {
        ThemeColor::Yellow
    } else if text_eq(n, "red") {
        ThemeColor::Red
    } else if text_eq(n, "blue") {
        ThemeColor::Blue
    } else {
        ThemeColor::Cyan
    }
}

/// Whether `d` is a downloader that has done nothing yet, saving into
/// `tmp_dir`.
pub open spec fn idle_downloader(d: DownloaderState, tmp_dir: Seq<char>) -> bool {
    &&& d.query@.len() == 0
    &&& d.results@.len() == 0
    &&& d.status@ == "Idle. Press '/' to search, 's' to download selected."@
    &&& !d.is_searching
    &&& !d.is_downloading
    &&& d.tmp_dir@ == tmp_dir
    &&& d.selected_index == 0
}

/// The first entry of a list of `len` entries, if any.
pub open spec fn first_of(len: nat) -> Option<usize> {
    if len > 0 { Some(0usize) } else { None }
}

impl App {
    /// The player as it starts: `tracks` (the music directory's scan)
    /// indexed into the library, the first artist selected with its first
    /// album and that album's first track, the first album of the albums tab
    /// selected, the first playlist and its first path selected, the player
    /// tab shown with the artists focused, nothing playing or queued, no
    /// dialog open, the downloader idle and the metadata editor showing the
    /// scan `staged` of the staging directory `tmp_dir`.
    pub fn new(config: AppConfig, tracks: Vec<Track>, playlists: Playlists, tmp_dir: String, staged: Vec<ScannedFile>) -> (app: App)
        requires
            playlists.wf(),
        ensures
            app.library.indexes(track_views(tracks@)),
            app.config == config,
            app.playlists == playlists,
            app.artist_sel == first_of(app.library.artists@.len()),
            app.album_sel == first_of(app.library.artists@.len()),
            app.track_sel == (if app.library.artists@.len() > 0 {
                first_of(app.tracks_at(0, 0).len())
            } else {
                None
            }),
            app.albums_view_sel == first_of(app.library.all_albums@.len()),
            app.playlists_list_sel == first_of(playlists.lists@.len()),
            app.playlists_track_sel == first_of(playlists.lists@.len()),
            app.queue_sel is None,
            app.search_sel is None,
            app.playlist_select_sel is None,
            app.focus == Focus::Artist,
            app.active_tab == ActiveTab::Player,
            app.modal == Modal::Closed,
            app.queue@.len() == 0,
            app.history@.len() == 0,
            app.current_track is None,
            app.playlist_target_track is None,
            app.error_msg is None,
            app.search_query@.len() == 0,
            app.search_results@.len() == 0,
            app.new_playlist_name@.len() == 0,
            app.tick_count == 0,
            !app.is_focused_mode,
            idle_downloader(app.downloader, tmp_dir@),
            app.metadata_editor.tmp_dir@ == tmp_dir@,
            app.metadata_editor.shows_scan_of(staged@),
            app.edit_title@.len() == 0,
            app.edit_artist@.len() == 0,
            app.edit_album@.len() == 0,
            app.edit_year@.len() == 0,
            app.edit_track@.len() == 0,
            app.edit_filename@.len() == 0,
            app.edit_focus == 0,
            !app.is_bulk_edit,
            app.move_album_dest@.len() == 0,
            app.consistent(),
    {
        let ghost views = track_views(tracks@);
        let library = Library::build(tracks);
        let dir = crate::text::copy_string(&tmp_dir);
        let downloader = DownloaderState::new(dir);
        let metadata_editor = MetadataState::new(tmp_dir, staged);
        let has_artists = library.artists.len() > 0;
        let has_albums = library.all_albums.len() > 0;
        let has_lists = playlists.len() > 0;
        let mut app = App {
            config,
            library,
            focus: Focus::Artist,
            artist_sel: None,
            album_sel: None,
            track_sel: None,
            queue_sel: None,
            albums_view_sel: None,
            playlists,
            playlists_list_sel: None,
            playlists_track_sel: None,
            playlist_select_sel: None,
            playlist_target_track: None,
            new_playlist_name: String::new(),
            queue: Vec::new(),
            history: Vec::new(),
            active_tab: ActiveTab::Player,
            modal: Modal::Closed,
            search_query: String::new(),
            search_results: Vec::new(),
            search_sel: None,
            current_track: None,
            error_msg: None,
            tick_count: 0,
            is_focused_mode: false,
            downloader,
            metadata_editor,
            edit_title: String::new(),
            edit_artist: String::new(),
            edit_album: String::new(),
            edit_year: String::new(),
            edit_track: String::new(),
            edit_filename: String::new(),
            edit_focus: 0,
            is_bulk_edit: false,
            move_album_dest: String::new(),
        };
        if has_artists {
            app.artist_sel = Some(0);
            app.update_cascading_selection();
        }
        if has_albums {
            app.albums_view_sel = Some(0);
        }
        if has_lists {
            app.playlists_list_sel = Some(0);
            app.playlists_track_sel = Some(0);
        }
        proof {
            if has_artists {
                let tracks0 = app.library.tracks_by_album@[0];
                assert(tracks0.len() == tracks0@.len());
                let t00 = tracks0@[0];
                assert(t00.len() == t00@.len());
            }
        }
        app
    }
}

/// The theme colour is named without regard to case: `cyan`, `magenta`,
/// `green`, `yellow`, `red` and `blue` give their colour, and any other name
/// gives cyan.
pub proof fn law_theme_names(name: Seq<char>)
    ensures
        lowercase_of(name) == "magenta"@ ==> theme_of(name) == ThemeColor::Magenta,
        lowercase_of(name) == "green"@ ==> theme_of(name) == ThemeColor::Green,
        lowercase_of(name) == "yellow"@ ==> theme_of(name) == ThemeColor::Yellow,
        lowercase_of(name) == "red"@ ==> theme_of(name) == ThemeColor::Red,
        lowercase_of(name) == "blue"@ ==> theme_of(name) == ThemeColor::Blue,
        lowercase_of(name) != "magenta"@ && lowercase_of(name) != "green"@ && lowercase_of(name) != "yellow"@
            && lowercase_of(name) != "red"@ && lowercase_of(name) != "blue"@ ==> theme_of(name) == ThemeColor::Cyan,
{
    reveal_strlit("cyan");
    reveal_strlit("magenta");
    reveal_strlit("green");
    reveal_strlit("yellow");
    reveal_strlit("red");
    reveal_strlit("blue");
    assert("cyan"@.len() == 4 && "magenta"@.len() == 7 && "green"@.len() == 5);
    assert("yellow"@.len() == 6 && "red"@.len() == 3 && "blue"@.len() == 4);
    assert("cyan"@[0] != "blue"@[0]);
    assert("cyan"@ != "blue"@);
}

} // verus!
