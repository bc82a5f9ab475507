//! What each key press does. The terminal loop reads a key, hands it to
//! `App::handle_key`, and carries out the effect it gives back (playing a
//! track, saving the playlists, running yt-dlp, writing tags, ...).

use vstd::prelude::*;
use crate::library::Track;
use crate::player::{
    App, Modal, ActiveTab, Focus, NextStep, dec, inc_within, tab_focus, tab_after, tab_before, focus_after, focus_before,
    stepped_up, stepped_down, with_cascade, cascades_after_move, play_selected_post, play_album_post, play_next_post,
    toggle_queue_post, search_updated, deleted_post,
};
use crate::playlists::{Playlists, playlist_paths, has_list_named};
use crate::downloader::{
    DownloadJob, DownloaderState, DownloadOutcome, YtResult, search_started, are_search_terms, download_started, search_finished,
    download_finished,
};
use crate::metadata::{
    AlbumGroup, TrackMetadata, ScannedFile, lyrics_search_url, scan_status, groups_of, inferred_all,
    TagUpdate, LyricsRequest, TrackMove, MetadataState, album_moved, is_tag_update, lyrics_requested, status_refreshed,
};
use crate::text::{push_char, pop_char, copy_string, owned, file_name, last_segment, decimal_seq};

verus! {

/// A key, as the terminal reports it.
#[derive(Clone, Copy, Debug)]
pub enum KeyCode {
    Char(char),
    Enter,
    Esc,
    Backspace,
    Tab,
    BackTab,
    Up,
    Down,
    Left,
    Right,
    PageUp,
    PageDown,
    /// Any other key.
    Other,
}

/// A key press with its modifiers.
#[derive(Clone, Copy, Debug)]
pub struct KeyPress {
    pub code: KeyCode,
    pub ctrl: bool,
    pub alt: bool,
    pub shift: bool,
}

/// The tags to write into one file.
pub struct TagWrite {
    pub path: String,
    pub update: TagUpdate,
}

/// What the terminal loop has to do after a key press.
pub enum Effect {
    /// Nothing beyond the state change.
    Nothing,
    /// Leave the program.
    Quit,
    /// Play this track (on success the player records it with
    /// `start_playing`, on failure with `playback_failed`).
    Play(Track),
    /// Play this track taken off the history, then drop the newest history
    /// entry with `forget_last_history`.
    PlayPrevious(Track),
    /// Stop the audio output.
    Stop,
    /// Pause or resume the audio output.
    TogglePlayback,
    /// Lower the volume by a tenth (not below zero).
    VolumeDown,
    /// Raise the volume by a tenth (not above one).
    VolumeUp,
    /// Save the playlists.
    SavePlaylists,
    /// Run a yt-dlp search with these terms, then report to
    /// `App::on_search_done`.
    RunSearch(Vec<String>),
    /// Run this download, then report to `App::on_download_done` (and, when
    /// it succeeded, to `App::on_download_finished`).
    Download(DownloadJob),
    /// Write the tags of one track; when that succeeds, rename the file to
    /// the given name (with its `.lrc` file) if there is one, and rescan the
    /// staging directory.
    WriteTrackTags(TagWrite, Option<String>),
    /// Write the tags of an album's tracks, then rescan the staging
    /// directory.
    WriteAlbumTags(Vec<TagWrite>),
    /// Fetch these lyrics, then report to `App::on_lyrics_done`.
    FetchLyrics(Vec<LyricsRequest>),
    /// Move these files (if any) under the given library folder, then
    /// rescan the music directory and hand the library to `reload_library`.
    MoveAlbum(Option<Vec<TrackMove>>, String),
    /// Rescan the staging directory.
    RescanStaging,
    /// Load the cover of the album selected in the albums tab.
    RefreshHoverCover,
}

/// The track an effect plays, if it is `Play`.
pub open spec fn played(e: Effect) -> Option<Track> {
    match e {
        Effect::Play(t) => Some(t),
        _ => None,
    }
}

/// Whether an effect plays a track or does nothing.
pub open spec fn plays_or_nothing(e: Effect) -> bool {
    e is Play || e is Nothing
}

/// The effect of a decision that may give a track to play.
pub fn play_effect(r: Option<Track>) -> (e: Effect)
    ensures
        plays_or_nothing(e),
        played(e) == r,
{
    match r {
        Some(t) => Effect::Play(t),
        None => Effect::Nothing,
    }
}

/// `s` after a backspace.
pub open spec fn backspaced(s: Seq<char>) -> Seq<char> {
    if s.len() == 0 { s } else { s.drop_last() }
}

/// An optional selection moved up one entry.
pub open spec fn sel_up(sel: Option<usize>) -> Option<usize> {
    match sel {
        Some(i) => Some(dec(i)),
        None => None,
    }
}

impl App {
    /// What every key handler needs and keeps: the library is well formed,
    /// no selection is at the largest machine word, the editor field is one
    /// of the six, the open playlist chooser points at most one past the
    /// playlists, and the playlists are sorted by name. (The artist and album
    /// selections may point past the library after a rescan; the keys that
    /// read the library through them need more, see `key_allowed`.)
    pub open spec fn consistent(&self) -> bool {
        &&& self.library.shape_ok()
        &&& self.counters_ok()
        &&& (self.search_sel matches Some(i) ==> i < usize::MAX)
        &&& self.edit_focus < 6
        &&& (self.modal == Modal::PlaylistSelect && self.playlist_select_sel is Some
            ==> self.playlist_select_sel->0 <= self.playlists.lists@.len())
        &&& self.playlists.wf()
    }
}

/// What the search dialog's keys need: Enter outside the downloader tab
/// reads the selected track.
pub open spec fn search_allowed(o: App, k: KeyPress) -> bool {
    (k.code is Enter && o.active_tab != ActiveTab::Downloader) ==> o.select_ok()
}

/// What a character key needs with no dialog open: moving reads the
/// library through the artist and album selections, and `a` outside the
/// downloader tab reads the selected track.
pub open spec fn char_allowed(o: App, c: char) -> bool {
    &&& c == 'j' ==> o.move_ok(stepped_down(o))
    &&& c == 'k' ==> o.move_ok(stepped_up(o))
    &&& (c == 'a' && o.active_tab != ActiveTab::Downloader) ==> o.select_ok()
}

/// What a key needs with no dialog open, after the shortcuts.
pub open spec fn plain_allowed(o: App, k: KeyPress) -> bool {
    match k.code {
        KeyCode::Char(c) => char_allowed(o, c),
        KeyCode::Enter => o.select_ok(),
        KeyCode::Down => o.move_ok(stepped_down(o)),
        KeyCode::Up => o.move_ok(stepped_up(o)),
        _ => true,
    }
}

/// What a key needs with no dialog open.
pub open spec fn main_allowed(o: App, k: KeyPress) -> bool {
    if (is_char(k.code, 'n') || is_char(k.code, 'N')) && k.alt && k.shift {
        true
    } else if is_char(k.code, 'a') && k.alt {
        o.select_ok()
    } else if (is_char(k.code, 's') && k.ctrl) || (is_char(k.code, '/') && o.active_tab == ActiveTab::Downloader)
        || (k.code is Tab && k.ctrl) || (k.code is BackTab && k.ctrl) {
        true
    } else {
        plain_allowed(o, k)
    }
}

/// What handling a key needs beyond `consistent`: where the key reads the
/// library through the artist and album selections (moving, or reading the
/// track pane's track), they must index it; with them past the library's
/// lists such a key fails.
pub open spec fn key_allowed(o: App, k: KeyPress) -> bool {
    match o.modal {
        Modal::Search => search_allowed(o, k),
        Modal::Closed => main_allowed(o, k),
        _ => true,
    }
}

/// Whether a key is the character `x`.
fn key_is(code: KeyCode, x: char) -> (r: bool)
    ensures
        r == is_char(code, x),
{
    match code {
        KeyCode::Char(c) => c == x,
        _ => false,
    }
}

impl App {
    /// Whether a key can be handled now (`key_allowed`).
    pub fn key_allowed_now(&self, key: KeyPress) -> (b: bool)
        requires
            self.consistent(),
        ensures
            b == key_allowed(*self, key),
    {
        let is_enter = match key.code { KeyCode::Enter => true, _ => false };
        let is_down = match key.code { KeyCode::Down => true, _ => false };
        let is_up = match key.code { KeyCode::Up => true, _ => false };
        let is_tab = match key.code { KeyCode::Tab => true, _ => false };
        let is_back_tab = match key.code { KeyCode::BackTab => true, _ => false };
        match self.modal {
            Modal::Search => !(is_enter && self.active_tab != ActiveTab::Downloader) || self.can_read_selection(),
            Modal::Closed => {
                if (key_is(key.code, 'n') || key_is(key.code, 'N')) && key.alt && key.shift {
                    true
                } else if key_is(key.code, 'a') && key.alt {
                    self.can_read_selection()
                } else if (key_is(key.code, 's') && key.ctrl) || (key_is(key.code, '/') && self.active_tab == ActiveTab::Downloader)
                    || (is_tab && key.ctrl) || (is_back_tab && key.ctrl) {
                    true
                } else if is_down || key_is(key.code, 'j') {
                    self.can_move_down()
                } else if is_up || key_is(key.code, 'k') {
                    self.can_move_up()
                } else if is_enter || (key_is(key.code, 'a') && self.active_tab != ActiveTab::Downloader) {
                    self.can_read_selection()
                } else {
                    true
                }
            },
            _ => true,
        }
    }
}

/// What a key does in the help dialog: Esc or `?` closes it.
pub open spec fn help_key_post(o: App, k: KeyPress, n: App, e: Effect) -> bool {
    &&& e is Nothing
    &&& n == (match k.code {
        KeyCode::Esc => App { modal: Modal::Closed, ..o },
        KeyCode::Char(c) if c == '?' => App { modal: Modal::Closed, ..o },
        _ => o,
    })
}

/// What a key does while typing a downloader query: Esc closes the dialog,
/// Enter starts the search and closes it, Backspace and characters edit the
/// query.
pub open spec fn query_key_post(o: App, k: KeyPress, n: App, e: Effect) -> bool {
    match k.code {
        KeyCode::Esc => e is Nothing && n == App { modal: Modal::Closed, ..o },
        KeyCode::Enter => {
            &&& e matches Effect::RunSearch(terms) && are_search_terms(terms@, o.downloader.query@)
            &&& search_started(o.downloader, o.downloader.query@, n.downloader)
            &&& n == App { modal: Modal::Closed, downloader: n.downloader, ..o }
        },
        KeyCode::Backspace => {
            &&& e is Nothing
            &&& n.downloader.query@ == backspaced(o.downloader.query@)
            &&& n.downloader == (crate::downloader::DownloaderState { query: n.downloader.query, ..o.downloader })
            &&& n == App { downloader: n.downloader, ..o }
        },
        KeyCode::Char(c) => {
            &&& e is Nothing
            &&& n.downloader.query@ == o.downloader.query@.push(c)
            &&& n.downloader == (crate::downloader::DownloaderState { query: n.downloader.query, ..o.downloader })
            &&& n == App { downloader: n.downloader, ..o }
        },
        _ => e is Nothing && n == o,
    }
}

impl App {
    /// Handles a key in the help dialog.
    pub fn on_help_key(&mut self, key: KeyPress) -> (e: Effect)
        requires
            old(self).consistent(),
        ensures
            help_key_post(*old(self), key, *final(self), e),
            final(self).consistent(),
    {
        match key.code {
            KeyCode::Esc => { self.modal = Modal::Closed; },
            KeyCode::Char(c) => if c == '?' { self.modal = Modal::Closed; },
            _ => {},
        }
        Effect::Nothing
    }

    /// Handles a key while typing a downloader query.
    pub fn on_query_key(&mut self, key: KeyPress) -> (e: Effect)
        requires
            old(self).consistent(),
        ensures
            query_key_post(*old(self), key, *final(self), e),
            final(self).consistent(),
    {
        match key.code {
            KeyCode::Esc => {
                self.modal = Modal::Closed;
                Effect::Nothing
            },
            KeyCode::Enter => {
                let q = copy_string(&self.downloader.query);
                let terms = self.downloader.search(q);
                self.modal = Modal::Closed;
                Effect::RunSearch(terms)
            },
            KeyCode::Backspace => {
                pop_char(&mut self.downloader.query);
                Effect::Nothing
            },
            KeyCode::Char(c) => {
                push_char(&mut self.downloader.query, c);
                Effect::Nothing
            },
            _ => Effect::Nothing,
        }
    }
}

/// What a key does in the dialog asking where to move an album: Esc closes
/// it; Enter, with a folder typed, takes the selected album out of the
/// editor to move there, focuses the current tab's main pane and closes the
/// dialog (with no folder typed it only closes); Backspace and characters
/// edit the folder.
pub open spec fn move_key_post(o: App, k: KeyPress, n: App, e: Effect) -> bool {
    match k.code {
        KeyCode::Esc => e is Nothing && n == App { modal: Modal::Closed, ..o },
        KeyCode::Enter => if o.move_album_dest@.len() > 0 {
            &&& e matches Effect::MoveAlbum(moves, dest) && dest@ == o.move_album_dest@
                && album_moved(o.metadata_editor, o.metadata_editor.selected_album, n.metadata_editor, moves)
            &&& n == App {
                modal: Modal::Closed,
                focus: tab_focus(o.active_tab),
                metadata_editor: n.metadata_editor,
                ..o
            }
        } else {
            e is Nothing && n == App { modal: Modal::Closed, ..o }
        },
        KeyCode::Backspace => {
            &&& e is Nothing
            &&& n.move_album_dest@ == backspaced(o.move_album_dest@)
            &&& n == App { move_album_dest: n.move_album_dest, ..o }
        },
        KeyCode::Char(c) => {
            &&& e is Nothing
            &&& n.move_album_dest@ == o.move_album_dest@.push(c)
            &&& n == App { move_album_dest: n.move_album_dest, ..o }
        },
        _ => e is Nothing && n == o,
    }
}

/// The path of the track to add to a playlist, as the paths to append.
pub open spec fn target_paths(t: Option<Track>) -> Seq<Seq<char>> {
    match t {
        Some(x) => seq![x.path@],
        None => Seq::empty(),
    }
}

/// Whether `n` is `p` with `extra` appended to the playlist named `name`,
/// which is created empty first when there is none.
pub open spec fn list_extended(p: Playlists, name: Seq<char>, extra: Seq<Seq<char>>, n: Playlists) -> bool {
    exists|idx: int| {
        &&& 0 <= idx < n.lists@.len()
        &&& #[trigger] n.lists@[idx].name@ == name
        &&& if has_list_named(p.lists@, name) {
            &&& n.lists@.len() == p.lists@.len()
            &&& playlist_paths(n.lists@[idx]) == playlist_paths(p.lists@[idx]) + extra
            &&& forall|i: int| 0 <= i < p.lists@.len() && i != idx ==> n.lists@[i] == p.lists@[i]
        } else {
            &&& n.lists@.len() == p.lists@.len() + 1
            &&& playlist_paths(n.lists@[idx]) == extra
            &&& n.lists@.remove(idx) == p.lists@
        }
    }
}

/// What a key does in the dialog naming a new playlist: Esc closes it;
/// Enter, with a name typed, creates the playlist (keeping an existing one
/// of that name), appends the chosen track's path to it, saves the
/// playlists and closes the dialog; Backspace and characters edit the name.
pub open spec fn create_key_post(o: App, k: KeyPress, n: App, e: Effect) -> bool {
    match k.code {
        KeyCode::Esc => e is Nothing && n == App { modal: Modal::Closed, ..o },
        KeyCode::Enter => if o.new_playlist_name@.len() > 0 {
            &&& e is SavePlaylists
            &&& list_extended(o.playlists, o.new_playlist_name@, target_paths(o.playlist_target_track), n.playlists)
            &&& n == App { modal: Modal::Closed, playlists: n.playlists, ..o }
        } else {
            e is Nothing && n == o
        },
        KeyCode::Backspace => {
            &&& e is Nothing
            &&& n.new_playlist_name@ == backspaced(o.new_playlist_name@)
            &&& n == App { new_playlist_name: n.new_playlist_name, ..o }
        },
        KeyCode::Char(c) => {
            &&& e is Nothing
            &&& n.new_playlist_name@ == o.new_playlist_name@.push(c)
            &&& n == App { new_playlist_name: n.new_playlist_name, ..o }
        },
        _ => e is Nothing && n == o,
    }
}

/// Whether `n` is `p` with `path` appended to the playlist at `idx`.
pub open spec fn path_appended(p: Playlists, idx: int, path: Seq<char>, n: Playlists) -> bool {
    &&& n.lists@.len() == p.lists@.len()
    &&& n.lists@[idx].name == p.lists@[idx].name
    &&& playlist_paths(n.lists@[idx]) == playlist_paths(p.lists@[idx]).push(path)
    &&& forall|i: int| 0 <= i < p.lists@.len() && i != idx ==> n.lists@[i] == p.lists@[i]
}

/// What a key does in the dialog choosing a playlist for a track (entry 0
/// is "new playlist", entry `i` the `i`-th playlist by name): Esc closes it;
/// the arrows move the choice (down at most to the last playlist); Enter on
/// entry 0 asks for a new playlist's name, and on a playlist appends the
/// track's path to it unless it is there already (then the playlists are
/// saved) and closes the dialog.
pub open spec fn select_key_post(o: App, k: KeyPress, n: App, e: Effect) -> bool {
    let len = o.playlists.lists@.len();
    match k.code {
        KeyCode::Esc => e is Nothing && n == App { modal: Modal::Closed, ..o },
        KeyCode::Up => e is Nothing && n == App { playlist_select_sel: sel_up(o.playlist_select_sel), ..o },
        KeyCode::Down => e is Nothing && n == App {
            playlist_select_sel: match o.playlist_select_sel {
                Some(i) => Some(if i < len { (i + 1) as usize } else { len as usize }),
                None => Some(0usize),
            },
            ..o
        },
        KeyCode::Enter => match o.playlist_select_sel {
            Some(i) => if i == 0 {
                &&& e is Nothing
                &&& n.new_playlist_name@.len() == 0
                &&& n == App { modal: Modal::PlaylistCreate, new_playlist_name: n.new_playlist_name, ..o }
            } else {
                match o.playlist_target_track {
                    Some(t) => if playlist_paths(o.playlists.lists@[i - 1]).contains(t.path@) {
                        e is Nothing && n == App { modal: Modal::Closed, ..o }
                    } else {
                        &&& e is SavePlaylists
                        &&& path_appended(o.playlists, i - 1, t.path@, n.playlists)
                        &&& n == App { modal: Modal::Closed, playlists: n.playlists, ..o }
                    },
                    None => e is Nothing && n == App { modal: Modal::Closed, ..o },
                }
            },
            None => e is Nothing && n == o,
        },
        _ => e is Nothing && n == o,
    }
}

impl App {
    /// Handles a key in the dialog asking where to move an album.
    pub fn on_move_key(&mut self, key: KeyPress) -> (e: Effect)
        requires
            old(self).consistent(),
        ensures
            move_key_post(*old(self), key, *final(self), e),
            final(self).consistent(),
    {
        match key.code {
            KeyCode::Esc => {
                self.modal = Modal::Closed;
                Effect::Nothing
            },
            KeyCode::Enter => {
                if self.move_album_dest.as_str().is_empty() {
                    self.modal = Modal::Closed;
                    return Effect::Nothing;
                }
                let idx = self.metadata_editor.selected_album;
                let moves = self.metadata_editor.move_album_to_library(idx);
                self.sync_focus_to_tab();
                self.modal = Modal::Closed;
                Effect::MoveAlbum(moves, copy_string(&self.move_album_dest))
            },
            KeyCode::Backspace => {
                pop_char(&mut self.move_album_dest);
                Effect::Nothing
            },
            KeyCode::Char(c) => {
                push_char(&mut self.move_album_dest, c);
                Effect::Nothing
            },
            _ => Effect::Nothing,
        }
    }

    /// Handles a key in the dialog naming a new playlist.
    pub fn on_create_key(&mut self, key: KeyPress) -> (e: Effect)
        requires
            old(self).consistent(),
            old(self).playlists.wf(),
        ensures
            create_key_post(*old(self), key, *final(self), e),
            final(self).consistent(),
            final(self).playlists.wf(),
    {
        match key.code {
            KeyCode::Esc => {
                self.modal = Modal::Closed;
                Effect::Nothing
            },
            KeyCode::Enter => {
                if self.new_playlist_name.as_str().is_empty() {
                    return Effect::Nothing;
                }
                let ghost before = self.playlists;
                let name = copy_string(&self.new_playlist_name);
                let idx = self.playlists.entry(name);
                let ghost mid = self.playlists;
                match &self.playlist_target_track {
                    Some(t) => {
                        let path = copy_string(&t.path);
                        self.playlists.push_path(idx, path);
                        assert(playlist_paths(self.playlists.lists@[idx as int])
                            =~= playlist_paths(mid.lists@[idx as int]).push(path@));
                    },
                    None => {},
                }
                proof {
                    let extra = target_paths(self.playlist_target_track);
                    let p = self.playlists;
                    if has_list_named(before.lists@, self.new_playlist_name@) {
                        assert(mid.lists@ == before.lists@);
                        assert(playlist_paths(p.lists@[idx as int]) =~= playlist_paths(before.lists@[idx as int]) + extra);
                    } else {
                        assert(playlist_paths(p.lists@[idx as int]) =~= extra);
                        assert(p.lists@.remove(idx as int) =~= mid.lists@.remove(idx as int));
                    }
                    assert(p.lists@[idx as int].name@ == self.new_playlist_name@);
                }
                self.modal = Modal::Closed;
                Effect::SavePlaylists
            },
            KeyCode::Backspace => {
                pop_char(&mut self.new_playlist_name);
                Effect::Nothing
            },
            KeyCode::Char(c) => {
                push_char(&mut self.new_playlist_name, c);
                Effect::Nothing
            },
            _ => Effect::Nothing,
        }
    }

    /// Handles a key in the dialog choosing a playlist for a track.
    pub fn on_select_key(&mut self, key: KeyPress) -> (e: Effect)
        requires
            old(self).consistent(),
            old(self).modal == Modal::PlaylistSelect,
        ensures
            select_key_post(*old(self), key, *final(self), e),
            final(self).consistent(),
            old(self).playlists.wf() ==> final(self).playlists.wf(),
    {
        let len = self.playlists.len();
        match key.code {
            KeyCode::Esc => {
                self.modal = Modal::Closed;
                Effect::Nothing
            },
            KeyCode::Up => {
                if let Some(i) = self.playlist_select_sel {
                    self.playlist_select_sel = Some(if i > 0 { i - 1 } else { 0 });
                }
                Effect::Nothing
            },
            KeyCode::Down => {
                self.playlist_select_sel = match self.playlist_select_sel {
                    Some(i) => Some(if i < len { i + 1 } else { len }),
                    None => Some(0),
                };
                Effect::Nothing
            },
            KeyCode::Enter => {
                if let Some(i) = self.playlist_select_sel {
                    if i == 0 {
                        self.modal = Modal::PlaylistCreate;
                        self.new_playlist_name = String::new();
                        return Effect::Nothing;
                    }
                    let mut e = Effect::Nothing;
                    match &self.playlist_target_track {
                        Some(t) => {
                            let path = copy_string(&t.path);
                            let ghost before = self.playlists;
                            if self.playlists.add_path_if_absent(i - 1, path) {
                                assert(playlist_paths(self.playlists.lists@[i - 1])
                                    =~= playlist_paths(before.lists@[i - 1]).push(path@));
                                e = Effect::SavePlaylists;
                            }
                        },
                        None => {},
                    }
                    self.modal = Modal::Closed;
                    return e;
                }
                Effect::Nothing
            },
            _ => Effect::Nothing,
        }
    }
}

/// A field of the tag editor dialog.
#[derive(PartialEq, Eq, Structural, Clone, Copy, Debug)]
pub enum EditField {
    Title,
    Artist,
    Album,
    Year,
    TrackNumber,
    FileName,
}

/// The field that the editor's focus `i` points at: artist, album, year
/// when editing a whole album; title, artist, album, year, track number,
/// file name when editing one track.
pub open spec fn edit_field_at(i: usize, bulk: bool) -> Option<EditField> {
    if bulk {
        if i == 0 { Some(EditField::Artist) }
        else if i == 1 { Some(EditField::Album) }
        else if i == 2 { Some(EditField::Year) }
        else { None }
    } else {
        if i == 0 { Some(EditField::Title) }
        else if i == 1 { Some(EditField::Artist) }
        else if i == 2 { Some(EditField::Album) }
        else if i == 3 { Some(EditField::Year) }
        else if i == 4 { Some(EditField::TrackNumber) }
        else if i == 5 { Some(EditField::FileName) }
        else { None }
    }
}

/// The text of an editor field.
pub open spec fn field_of(a: App, f: EditField) -> String {
    match f {
        EditField::Title => a.edit_title,
        EditField::Artist => a.edit_artist,
        EditField::Album => a.edit_album,
        EditField::Year => a.edit_year,
        EditField::TrackNumber => a.edit_track,
        EditField::FileName => a.edit_filename,
    }
}

/// The label that the editor dialog gives a field.
pub open spec fn field_label(f: EditField) -> Seq<char> {
    match f {
        EditField::Title => "Title"@,
        EditField::Artist => "Artist"@,
        EditField::Album => "Album"@,
        EditField::Year => "Year"@,
        EditField::TrackNumber => "Track Number"@,
        EditField::FileName => "Filename"@,
    }
}

/// One field of the editor dialog as it is drawn: its label, its text, and
/// whether it has the focus.
pub struct EditFieldLine {
    pub label: String,
    pub text: String,
    pub focused: bool,
}

/// Whether `r` is what the editor dialog of `a` draws: one line per field of
/// the editor, in order, the focused one with a block cursor after its text.
pub open spec fn edit_lines_of(a: App, r: Seq<EditFieldLine>) -> bool {
    &&& r.len() == field_count(a.is_bulk_edit)
    &&& forall|i: int| 0 <= i < r.len() ==> {
        let f = edit_field_at(i as usize, a.is_bulk_edit)->0;
        &&& (#[trigger] r[i]).label@ == field_label(f)
        &&& r[i].focused == (a.edit_focus == i)
        &&& r[i].text@ == (if r[i].focused { field_of(a, f)@.push('\u{2588}') } else { field_of(a, f)@ })
    }
}

/// The field that the editor's focus `i` points at.
fn edit_field_of(i: usize, bulk: bool) -> (f: EditField)
    requires
        i < field_count(bulk),
    ensures
        edit_field_at(i, bulk) == Some(f),
{
    if bulk {
        if i == 0 { EditField::Artist } else if i == 1 { EditField::Album } else { EditField::Year }
    } else {
        if i == 0 { EditField::Title }
        else if i == 1 { EditField::Artist }
        else if i == 2 { EditField::Album }
        else if i == 3 { EditField::Year }
        else if i == 4 { EditField::TrackNumber }
        else { EditField::FileName }
    }
}

/// The label of a field.
fn label_of(f: EditField) -> (r: String)
    ensures
        r@ == field_label(f),
{
    match f {
        EditField::Title => owned("Title"),
        EditField::Artist => owned("Artist"),
        EditField::Album => owned("Album"),
        EditField::Year => owned("Year"),
        EditField::TrackNumber => owned("Track Number"),
        EditField::FileName => owned("Filename"),
    }
}

impl App {
    /// A copy of the text of an editor field.
    fn field_text(&self, f: EditField) -> (r: String)
        ensures
            r@ == field_of(*self, f)@,
    {
        match f {
            EditField::Title => copy_string(&self.edit_title),
            EditField::Artist => copy_string(&self.edit_artist),
            EditField::Album => copy_string(&self.edit_album),
            EditField::Year => copy_string(&self.edit_year),
            EditField::TrackNumber => copy_string(&self.edit_track),
            EditField::FileName => copy_string(&self.edit_filename),
        }
    }

    /// The fields of the editor dialog as it draws them: artist, album and
    /// year for an album, or title, artist, album, year, track number and
    /// file name for a track, the focused one with a block cursor after its
    /// text.
    pub fn edit_dialog_lines(&self) -> (r: Vec<EditFieldLine>)
        ensures
            edit_lines_of(*self, r@),
    {
        let bulk = self.is_bulk_edit;
        let n: usize = if bulk { 3 } else { 6 };
        let mut r: Vec<EditFieldLine> = Vec::new();
        let mut i: usize = 0;
        while i < n
            invariant
                i <= n,
                n == field_count(bulk),
                bulk == self.is_bulk_edit,
                r@.len() == i,
                forall|k: int| 0 <= k < i ==> {
                    let f = edit_field_at(k as usize, bulk)->0;
                    &&& (#[trigger] r@[k]).label@ == field_label(f)
                    &&& r@[k].focused == (self.edit_focus == k)
                    &&& r@[k].text@ == (if r@[k].focused { field_of(*self, f)@.push('\u{2588}') } else { field_of(*self, f)@ })
                },
            decreases n - i,
        {
            let f = edit_field_of(i, bulk);
            let focused = self.edit_focus == i;
            let mut text = self.field_text(f);
            if focused {
                push_char(&mut text, '\u{2588}');
            }
            r.push(EditFieldLine { label: label_of(f), text, focused });
            i = i + 1;
        }
        r
    }
}

/// `a` with an editor field replaced.
pub open spec fn with_field(a: App, f: EditField, s: String) -> App {
    match f {
        EditField::Title => App { edit_title: s, ..a },
        EditField::Artist => App { edit_artist: s, ..a },
        EditField::Album => App { edit_album: s, ..a },
        EditField::Year => App { edit_year: s, ..a },
        EditField::TrackNumber => App { edit_track: s, ..a },
        EditField::FileName => App { edit_filename: s, ..a },
    }
}

/// The number of fields of the editor: three for an album, six for a track.
pub open spec fn field_count(bulk: bool) -> int {
    if bulk { 3 } else { 6 }
}

/// Whether `w` writes into `path` the tags that saving these values gives.
pub open spec fn writes_tags(
    w: TagWrite,
    path: Seq<char>,
    title: Seq<char>,
    artist: Seq<char>,
    album: Seq<char>,
    year: Seq<char>,
    track_number: Seq<char>,
) -> bool {
    w.path@ == path && is_tag_update(w.update, title, artist, album, year, track_number)
}

/// The tag writes that Enter in the editor asks for: for a whole album,
/// each track keeps its title and number and gets the edited artist, album
/// and year; for one track, all the edited values, and the file is renamed
/// when a file name was typed. Nothing without a selected album (or track).
pub open spec fn tags_effect(o: App, e: Effect) -> bool {
    let m = o.metadata_editor;
    if m.selected_album < m.albums@.len() {
        let tracks = m.albums@[m.selected_album as int].tracks@;
        if o.is_bulk_edit {
            e matches Effect::WriteAlbumTags(ws) && ws@.len() == tracks.len() && forall|i: int| 0 <= i < tracks.len()
                ==> writes_tags(#[trigger] ws@[i], tracks[i].path@, tracks[i].title@, o.edit_artist@, o.edit_album@,
                    o.edit_year@, tracks[i].track_number@)
        } else if m.selected_track < tracks.len() {
            let t = tracks[m.selected_track as int];
            e matches Effect::WriteTrackTags(w, rename)
                && writes_tags(w, t.path@, o.edit_title@, o.edit_artist@, o.edit_album@, o.edit_year@, o.edit_track@)
                && (match rename {
                    Some(f) => o.edit_filename@.len() > 0 && f@ == o.edit_filename@,
                    None => o.edit_filename@.len() == 0,
                })
        } else {
            e is Nothing
        }
    } else {
        e is Nothing
    }
}

/// What a key does in the tag editor dialog: Esc closes it; Tab and the
/// arrows move among the fields, cycling; Enter asks for the tags to be
/// written (see `tags_effect`) and closes the dialog; Backspace and
/// characters edit the focused field.
pub open spec fn edit_key_post(o: App, k: KeyPress, n: App, e: Effect) -> bool {
    let max = field_count(o.is_bulk_edit);
    match k.code {
        KeyCode::Esc => e is Nothing && n == App { modal: Modal::Closed, ..o },
        KeyCode::Tab | KeyCode::Down => e is Nothing
            && n == App { edit_focus: ((o.edit_focus + 1) % max) as usize, ..o },
        KeyCode::BackTab | KeyCode::Up => e is Nothing
            && n == App { edit_focus: ((o.edit_focus + max - 1) % max) as usize, ..o },
        KeyCode::Enter => tags_effect(o, e) && n == App { modal: Modal::Closed, ..o },
        KeyCode::Backspace => e is Nothing && match edit_field_at(o.edit_focus, o.is_bulk_edit) {
            Some(f) => field_of(n, f)@ == backspaced(field_of(o, f)@) && n == with_field(o, f, field_of(n, f)),
            None => n == o,
        },
        KeyCode::Char(c) => e is Nothing && match edit_field_at(o.edit_focus, o.is_bulk_edit) {
            Some(f) => field_of(n, f)@ == field_of(o, f)@.push(c) && n == with_field(o, f, field_of(n, f)),
            None => n == o,
        },
        _ => e is Nothing && n == o,
    }
}

/// The tag writes for every track of an album, with the edited artist,
/// album and year.
fn album_tag_writes(m: &MetadataState, artist: &str, album: &str, year: &str) -> (ws: Vec<TagWrite>)
    requires
        m.selected_album < m.albums@.len(),
    ensures
        ({
            let tracks = m.albums@[m.selected_album as int].tracks@;
            ws@.len() == tracks.len() && forall|i: int| 0 <= i < tracks.len()
                ==> writes_tags(#[trigger] ws@[i], tracks[i].path@, tracks[i].title@, artist@, album@, year@,
                    tracks[i].track_number@)
        }),
{
    let tracks = &m.albums[m.selected_album].tracks;
    let mut ws: Vec<TagWrite> = Vec::new();
    let mut i: usize = 0;
    while i < tracks.len()
        invariant
            i <= tracks@.len(),
            ws@.len() == i,
            forall|k: int| 0 <= k < i ==> writes_tags(#[trigger] ws@[k], tracks@[k].path@, tracks@[k].title@,
                artist@, album@, year@, tracks@[k].track_number@),
        decreases tracks@.len() - i,
    {
        let t = &tracks[i];
        let update = MetadataState::save_track_metadata(t.title.as_str(), artist, album, year, t.track_number.as_str());
        ws.push(TagWrite { path: copy_string(&t.path), update });
        i = i + 1;
    }
    ws
}

impl App {
    /// The tag writes that Enter in the editor asks for.
    fn tag_writes(&self) -> (e: Effect)
        ensures
            tags_effect(*self, e),
    {
        let m = &self.metadata_editor;
        if m.selected_album >= m.albums.len() {
            return Effect::Nothing;
        }
        if self.is_bulk_edit {
            return Effect::WriteAlbumTags(album_tag_writes(m, self.edit_artist.as_str(), self.edit_album.as_str(),
                self.edit_year.as_str()));
        }
        let tracks = &m.albums[m.selected_album].tracks;
        if m.selected_track >= tracks.len() {
            return Effect::Nothing;
        }
        let t = &tracks[m.selected_track];
        let update = MetadataState::save_track_metadata(self.edit_title.as_str(), self.edit_artist.as_str(),
            self.edit_album.as_str(), self.edit_year.as_str(), self.edit_track.as_str());
        let rename = if self.edit_filename.as_str().is_empty() { None } else { Some(copy_string(&self.edit_filename)) };
        Effect::WriteTrackTags(TagWrite { path: copy_string(&t.path), update }, rename)
    }

    /// Handles a key in the tag editor dialog.
    pub fn on_edit_key(&mut self, key: KeyPress) -> (e: Effect)
        requires
            old(self).consistent(),
            old(self).edit_focus < 6,
        ensures
            edit_key_post(*old(self), key, *final(self), e),
            final(self).consistent(),
            final(self).edit_focus < 6,
    {
        let max: usize = if self.is_bulk_edit { 3 } else { 6 };
        match key.code {
            KeyCode::Esc => {
                self.modal = Modal::Closed;
                Effect::Nothing
            },
            KeyCode::Tab | KeyCode::Down => {
                self.edit_focus = (self.edit_focus + 1) % max;
                Effect::Nothing
            },
            KeyCode::BackTab | KeyCode::Up => {
                self.edit_focus = (self.edit_focus + max - 1) % max;
                Effect::Nothing
            },
            KeyCode::Enter => {
                let e = self.tag_writes();
                self.modal = Modal::Closed;
                e
            },
            KeyCode::Backspace => {
                let bulk = self.is_bulk_edit;
                match self.edit_focus {
                    0 => if bulk { pop_char(&mut self.edit_artist) } else { pop_char(&mut self.edit_title) },
                    1 => if bulk { pop_char(&mut self.edit_album) } else { pop_char(&mut self.edit_artist) },
                    2 => if bulk { pop_char(&mut self.edit_year) } else { pop_char(&mut self.edit_album) },
                    3 => if !bulk { pop_char(&mut self.edit_year) },
                    4 => if !bulk { pop_char(&mut self.edit_track) },
                    5 => if !bulk { pop_char(&mut self.edit_filename) },
                    _ => {},
                }
                Effect::Nothing
            },
            KeyCode::Char(c) => {
                let bulk = self.is_bulk_edit;
                match self.edit_focus {
                    0 => if bulk { push_char(&mut self.edit_artist, c) } else { push_char(&mut self.edit_title, c) },
                    1 => if bulk { push_char(&mut self.edit_album, c) } else { push_char(&mut self.edit_artist, c) },
                    2 => if bulk { push_char(&mut self.edit_year, c) } else { push_char(&mut self.edit_album, c) },
                    3 => if !bulk { push_char(&mut self.edit_year, c) },
                    4 => if !bulk { push_char(&mut self.edit_track, c) },
                    5 => if !bulk { push_char(&mut self.edit_filename, c) },
                    _ => {},
                }
                Effect::Nothing
            },
            _ => Effect::Nothing,
        }
    }
}

/// What a key does in the search dialog: Esc closes it; Enter starts a
/// yt-dlp search for the query in the downloader tab and plays the selected
/// result elsewhere, closing the dialog; the arrows move among the results;
/// Backspace and characters edit the query and refresh the results.
pub open spec fn search_key_post(o: App, k: KeyPress, n: App, e: Effect) -> bool {
    let len = o.search_results@.len();
    match k.code {
        KeyCode::Esc => e is Nothing && n == App { modal: Modal::Closed, ..o },
        KeyCode::Enter => if o.active_tab == ActiveTab::Downloader {
            &&& e matches Effect::RunSearch(terms) && are_search_terms(terms@, o.search_query@)
            &&& search_started(o.downloader, o.search_query@, n.downloader)
            &&& n == App { modal: Modal::Closed, downloader: n.downloader, ..o }
        } else {
            &&& plays_or_nothing(e)
            &&& n.modal == Modal::Closed
            &&& play_selected_post(o, App { modal: o.modal, ..n }, played(e))
        },
        KeyCode::Up => e is Nothing && n == App { search_sel: sel_up(o.search_sel), ..o },
        KeyCode::Down => e is Nothing && n == App {
            search_sel: match o.search_sel {
                Some(i) => Some(inc_within(i, len)),
                None => if len > 0 { Some(0usize) } else { None },
            },
            ..o
        },
        KeyCode::Backspace => {
            &&& e is Nothing
            &&& n.search_query@ == backspaced(o.search_query@)
            &&& search_updated(App { search_query: n.search_query, ..o }, n)
        },
        KeyCode::Char(c) => {
            &&& e is Nothing
            &&& n.search_query@ == o.search_query@.push(c)
            &&& search_updated(App { search_query: n.search_query, ..o }, n)
        },
        _ => e is Nothing && n == o,
    }
}

impl App {
    /// Handles a key in the search dialog.
    pub fn on_search_key(&mut self, key: KeyPress) -> (e: Effect)
        requires
            old(self).consistent(),
            search_allowed(*old(self), key),
        ensures
            search_key_post(*old(self), key, *final(self), e),
            final(self).consistent(),
    {
        match key.code {
            KeyCode::Esc => {
                self.modal = Modal::Closed;
                Effect::Nothing
            },
            KeyCode::Enter => {
                if self.active_tab == ActiveTab::Downloader {
                    let q = copy_string(&self.search_query);
                    let terms = self.downloader.search(q);
                    self.modal = Modal::Closed;
                    Effect::RunSearch(terms)
                } else {
                    let r = self.play_selected();
                    self.modal = Modal::Closed;
                    play_effect(r)
                }
            },
            KeyCode::Up => {
                if let Some(i) = self.search_sel {
                    self.search_sel = Some(if i > 0 { i - 1 } else { 0 });
                }
                Effect::Nothing
            },
            KeyCode::Down => {
                let len = self.search_results.len();
                match self.search_sel {
                    Some(i) => {
                        let last = if len > 0 { len - 1 } else { 0 };
                        self.search_sel = Some(if i + 1 <= last { i + 1 } else { last });
                    },
                    None => if len > 0 {
                        self.search_sel = Some(0);
                    },
                }
                Effect::Nothing
            },
            KeyCode::Backspace => {
                pop_char(&mut self.search_query);
                self.update_search();
                Effect::Nothing
            },
            KeyCode::Char(c) => {
                push_char(&mut self.search_query, c);
                self.update_search();
                Effect::Nothing
            },
            _ => Effect::Nothing,
        }
    }
}

/// The step of `play_next` that an effect carries out.
pub open spec fn effect_step(e: Effect) -> NextStep {
    match e {
        Effect::Play(t) => NextStep::Play(t),
        Effect::Stop => NextStep::Stop,
        _ => NextStep::Idle,
    }
}

/// The effect that carries out a step of `play_next`.
fn step_effect(r: NextStep) -> (e: Effect)
    ensures
        e is Play || e is Stop || e is Nothing,
        effect_step(e) == r,
{
    match r {
        NextStep::Play(t) => Effect::Play(t),
        NextStep::Stop => Effect::Stop,
        NextStep::Idle => Effect::Nothing,
    }
}

/// What going back does: the newest track of the history is taken off it
/// to be played again; with an empty history nothing happens.
pub open spec fn previous_post(o: App, n: App, e: Effect) -> bool {
    if o.history@.len() == 0 {
        e is Nothing && n == o
    } else {
        &&& e matches Effect::PlayPrevious(t) && t == o.history@.last()
        &&& n.history@ == o.history@.drop_last()
        &&& n == App { history: n.history, ..o }
    }
}

/// The state after moving the focused selection up, with the album and
/// track selections kept within their lists in the player tab.
pub open spec fn moved_up(o: App) -> App {
    if cascades_after_move(o) { with_cascade(stepped_up(o)) } else { stepped_up(o) }
}

/// The state after moving the focused selection down.
pub open spec fn moved_down(o: App) -> App {
    if cascades_after_move(o) { with_cascade(stepped_down(o)) } else { stepped_down(o) }
}

/// The effect of moving in the albums tab: the hovered album's cover is
/// reloaded when an album is selected.
pub open spec fn move_effect(o: App) -> Effect {
    if o.focus == Focus::AlbumsView && o.albums_view_sel is Some { Effect::RefreshHoverCover } else { Effect::Nothing }
}

/// Whether the focused pane is one of the metadata editor's.
pub open spec fn in_editor_panes(f: Focus) -> bool {
    f == Focus::MetadataAlbums || f == Focus::MetadataTracks
}

/// What `e` on a selected track of the editor does: opens the tag editor on
/// that track's values (its file name too), with the first field focused.
pub open spec fn edit_track_post(o: App, n: App) -> bool {
    let m = o.metadata_editor;
    if o.active_tab == ActiveTab::Metadata && m.selected_album < m.albums@.len()
        && m.selected_track < m.albums@[m.selected_album as int].tracks@.len() {
        let t = m.albums@[m.selected_album as int].tracks@[m.selected_track as int];
        &&& n.edit_title@ == t.title@
        &&& n.edit_artist@ == t.artist@
        &&& n.edit_album@ == t.album@
        &&& n.edit_year@ == t.year@
        &&& n.edit_track@ == t.track_number@
        &&& n.edit_filename@ == last_segment(t.path@)
        &&& n == App {
            edit_title: n.edit_title,
            edit_artist: n.edit_artist,
            edit_album: n.edit_album,
            edit_year: n.edit_year,
            edit_track: n.edit_track,
            edit_filename: n.edit_filename,
            edit_focus: 0,
            is_bulk_edit: false,
            modal: Modal::EditMetadata,
            ..o
        }
    } else {
        n == o
    }
}

/// What `E` on a selected album of the editor does: opens the tag editor on
/// the album's artist, album and year (those of its first track).
pub open spec fn edit_album_post(o: App, n: App) -> bool {
    let m = o.metadata_editor;
    if o.active_tab == ActiveTab::Metadata && m.selected_album < m.albums@.len()
        && m.albums@[m.selected_album as int].tracks@.len() > 0 {
        let t = m.albums@[m.selected_album as int].tracks@[0];
        &&& n.edit_artist@ == t.artist@
        &&& n.edit_album@ == t.album@
        &&& n.edit_year@ == t.year@
        &&& n == App {
            edit_artist: n.edit_artist,
            edit_album: n.edit_album,
            edit_year: n.edit_year,
            edit_focus: 0,
            is_bulk_edit: true,
            modal: Modal::EditMetadata,
            ..o
        }
    } else {
        n == o
    }
}

/// What a character key does in the metadata tab's keys `e`, `E`, `l`, `m`
/// and `r` (outside that tab `l` moves the focus and the others do nothing).
pub open spec fn editor_char_post(o: App, c: char, n: App, e: Effect) -> bool {
    let in_tab = o.active_tab == ActiveTab::Metadata;
    if c == 'e' {
        e is Nothing && edit_track_post(o, n)
    } else if c == 'E' {
        e is Nothing && edit_album_post(o, n)
    } else if c == 'l' {
        if in_tab && in_editor_panes(o.focus) {
            &&& (match e {
                Effect::FetchLyrics(reqs) => lyrics_requested(o.metadata_editor, o.metadata_editor.selected_album,
                    n.metadata_editor, Some(reqs)),
                Effect::Nothing => lyrics_requested(o.metadata_editor, o.metadata_editor.selected_album,
                    n.metadata_editor, None),
                _ => false,
            })
            &&& n == App { metadata_editor: n.metadata_editor, ..o }
        } else {
            e is Nothing && n == App { focus: focus_after(o.active_tab, o.focus), ..o }
        }
    } else if c == 'm' {
        if in_tab && in_editor_panes(o.focus) {
            &&& e is Nothing
            &&& n.move_album_dest@ == o.config.music_directory@
            &&& n == App { move_album_dest: n.move_album_dest, modal: Modal::MoveAlbum, ..o }
        } else {
            e is Nothing && n == o
        }
    } else {
        &&& (if in_tab { e is RescanStaging } else { e is Nothing })
        &&& n == o
    }
}

/// What a character key does with no dialog open (modifiers aside).
pub open spec fn char_key_post(o: App, c: char, sink_empty: bool, n: App, e: Effect) -> bool {
    let downloader = o.active_tab == ActiveTab::Downloader;
    if c == 'q' {
        e is Quit && n == o
    } else if c == '?' {
        e is Nothing && n == App { modal: Modal::Help, ..o }
    } else if c == 'n' || c == '.' || c == '>' {
        (e is Play || e is Stop || e is Nothing) && play_next_post(o, n, effect_step(e))
    } else if c == 'p' || c == ',' || c == '<' {
        previous_post(o, n, e)
    } else if c == '-' {
        e is VolumeDown && n == o
    } else if c == '+' || c == '=' {
        e is VolumeUp && n == o
    } else if c == '1' {
        e is Nothing && n == App { active_tab: ActiveTab::Player, focus: tab_focus(ActiveTab::Player), ..o }
    } else if c == '2' {
        e is Nothing && n == App { active_tab: ActiveTab::Albums, focus: tab_focus(ActiveTab::Albums), ..o }
    } else if c == '3' {
        e is Nothing && n == App { active_tab: ActiveTab::Playlists, focus: tab_focus(ActiveTab::Playlists), ..o }
    } else if c == 'j' {
        e == move_effect(o) && n == moved_down(o)
    } else if c == 'k' {
        e == move_effect(o) && n == moved_up(o)
    } else if c == 'h' {
        e is Nothing && n == App { focus: focus_before(o.active_tab, o.focus), ..o }
    } else if c == 'a' {
        if downloader {
            e is Nothing && n == o
        } else {
            plays_or_nothing(e) && toggle_queue_post(o, sink_empty, n, played(e))
        }
    } else if c == 'd' {
        if downloader {
            &&& (match e {
                Effect::Download(job) => download_started(o.downloader, n.downloader, Some(job)),
                Effect::Nothing => download_started(o.downloader, n.downloader, None),
                _ => false,
            })
            &&& n == App { downloader: n.downloader, ..o }
        } else {
            &&& (if e is SavePlaylists { deleted_post(o, n, true) } else { e is Nothing && deleted_post(o, n, false) })
        }
    } else if c == 'e' || c == 'E' || c == 'l' || c == 'm' || c == 'r' {
        editor_char_post(o, c, n, e)
    } else if c == ' ' {
        if o.focus == Focus::AlbumsView {
            plays_or_nothing(e) && play_album_post(o, n, played(e))
        } else {
            e is TogglePlayback && n == o
        }
    } else {
        e is Nothing && n == o
    }
}

/// What a key does with no dialog open, after the shortcuts with modifiers.
pub open spec fn plain_key_post(o: App, k: KeyPress, sink_empty: bool, n: App, e: Effect) -> bool {
    match k.code {
        KeyCode::Char(c) => char_key_post(o, c, sink_empty, n, e),
        KeyCode::Enter => plays_or_nothing(e) && play_selected_post(o, n, played(e)),
        KeyCode::PageDown => e is Nothing
            && n == App { active_tab: tab_after(o.active_tab), focus: tab_focus(tab_after(o.active_tab)), ..o },
        KeyCode::PageUp => e is Nothing
            && n == App { active_tab: tab_before(o.active_tab), focus: tab_focus(tab_before(o.active_tab)), ..o },
        KeyCode::Down => e == move_effect(o) && n == moved_down(o),
        KeyCode::Up => e == move_effect(o) && n == moved_up(o),
        KeyCode::Right | KeyCode::Tab => e is Nothing && n == App { focus: focus_after(o.active_tab, o.focus), ..o },
        KeyCode::Left | KeyCode::BackTab => e is Nothing && n == App { focus: focus_before(o.active_tab, o.focus), ..o },
        _ => e is Nothing && n == o,
    }
}

/// Moving down never reaches the largest machine word, and stays within a
/// non-empty list.
proof fn lemma_inc_within_bound(i: usize, len: nat)
    requires
        len <= usize::MAX,
    ensures
        inc_within(i, len) < usize::MAX,
        len > 0 ==> inc_within(i, len) < len,
{
}

/// Keeping the album and track selections within their lists keeps every
/// selection below the largest machine word.
proof fn lemma_cascade_consistent(a: App)
    requires
        a.counters_ok(),
    ensures
        with_cascade(a).counters_ok(),
{
}

/// The lengths of the lists that moving reads fit in a machine word, and
/// every artist has an album.
proof fn lemma_move_facts(o: App)
    requires
        o.consistent(),
    ensures
        o.library.artists@.len() <= usize::MAX,
        o.library.all_albums@.len() <= usize::MAX,
        o.queue@.len() <= usize::MAX,
        o.playlists.lists@.len() <= usize::MAX,
        o.downloader.results@.len() <= usize::MAX,
        o.metadata_editor.albums@.len() <= usize::MAX,
        forall|p: int| 0 <= p < o.playlists.lists@.len() ==> (#[trigger] o.playlists.lists@[p]).paths@.len() <= usize::MAX,
        forall|a: int| 0 <= a < o.metadata_editor.albums@.len() ==> (#[trigger] o.metadata_editor.albums@[a]).tracks@.len() <= usize::MAX,
        forall|a: int| 0 <= a < o.library.artists@.len() ==> (#[trigger] o.library.albums_by_artist@[a])@.len() <= usize::MAX,
        forall|a: int, b: int| 0 <= a < o.library.artists@.len() && 0 <= b < o.library.albums_by_artist@[a]@.len()
            ==> (#[trigger] o.library.tracks_by_album@[a]@[b])@.len() <= usize::MAX,
{
    let lib = o.library;
    assert(lib.artists.len() == lib.artists@.len());
    assert(lib.all_albums.len() == lib.all_albums@.len());
    assert(o.queue.len() == o.queue@.len());
    assert(o.playlists.lists.len() == o.playlists.lists@.len());
    assert(o.downloader.results.len() == o.downloader.results@.len());
    assert(o.metadata_editor.albums.len() == o.metadata_editor.albums@.len());
    assert forall|p: int| 0 <= p < o.playlists.lists@.len() implies (#[trigger] o.playlists.lists@[p]).paths@.len() <= usize::MAX by {
        assert(o.playlists.lists@[p].paths.len() == o.playlists.lists@[p].paths@.len());
    }
    assert forall|a: int| 0 <= a < o.metadata_editor.albums@.len() implies (#[trigger] o.metadata_editor.albums@[a]).tracks@.len() <= usize::MAX by {
        assert(o.metadata_editor.albums@[a].tracks.len() == o.metadata_editor.albums@[a].tracks@.len());
    }
    assert forall|a: int| 0 <= a < o.library.artists@.len() implies (#[trigger] o.library.albums_by_artist@[a])@.len() <= usize::MAX by {
        assert(lib.albums_by_artist@[a].len() == lib.albums_by_artist@[a]@.len());
    }
    assert forall|a: int, b: int| 0 <= a < o.library.artists@.len() && 0 <= b < o.library.albums_by_artist@[a]@.len()
        implies (#[trigger] o.library.tracks_by_album@[a]@[b])@.len() <= usize::MAX by {
        assert(lib.tracks_by_album@[a]@[b].len() == lib.tracks_by_album@[a]@[b]@.len());
    }
}

/// Moving the focused selection up keeps the state consistent.
proof fn lemma_up_consistent(o: App)
    requires
        o.consistent(),
    ensures
        moved_up(o).consistent(),
{
    let up = stepped_up(o);
    match o.focus {
        Focus::Artist => {},
        Focus::Album => {},
        Focus::Track => {},
        Focus::Queue => {},
        Focus::AlbumsView => {},
        Focus::PlaylistsList => {},
        Focus::PlaylistsTracks => {},
        Focus::Downloader => {},
        Focus::MetadataAlbums => {},
        Focus::MetadataTracks => {},
    }
    assert(up.counters_ok());
    if cascades_after_move(o) {
        lemma_cascade_consistent(up);
    }
}

/// Moving the focused selection down keeps the state consistent.
proof fn lemma_down_consistent(o: App)
    requires
        o.consistent(),
        o.move_ok(stepped_down(o)),
    ensures
        moved_down(o).consistent(),
{
    lemma_move_facts(o);
    let down = stepped_down(o);
    match o.focus {
        Focus::Artist => if let Some(i) = o.artist_sel {
            lemma_inc_within_bound(i, o.library.artists@.len());
        },
        Focus::Album => if let (Some(a), Some(i)) = (o.artist_sel, o.album_sel) {
            lemma_inc_within_bound(i, o.albums_of(a as int).len());
        },
        Focus::Track => if let (Some(a), Some(b), Some(i)) = (o.artist_sel, o.album_sel, o.track_sel) {
            lemma_inc_within_bound(i, o.tracks_at(a as int, b as int).len());
        },
        Focus::Queue => if let Some(i) = o.queue_sel {
            lemma_inc_within_bound(i, o.queue@.len());
        },
        Focus::AlbumsView => if let Some(i) = o.albums_view_sel {
            lemma_inc_within_bound(i, o.library.all_albums@.len());
        },
        Focus::PlaylistsList => if let Some(i) = o.playlists_list_sel {
            lemma_inc_within_bound(i, o.playlists.lists@.len());
        },
        Focus::PlaylistsTracks => if let (Some(p), Some(i)) = (o.playlists_list_sel, o.playlists_track_sel) {
            if p < o.playlists.lists@.len() {
                lemma_inc_within_bound(i, o.playlists.lists@[p as int].paths@.len());
            }
        },
        Focus::Downloader => {
            lemma_inc_within_bound(o.downloader.selected_index, o.downloader.results@.len());
        },
        Focus::MetadataAlbums => {
            lemma_inc_within_bound(o.metadata_editor.selected_album, o.metadata_editor.albums@.len());
        },
        Focus::MetadataTracks => {
            let m = o.metadata_editor;
            if m.selected_album < m.albums@.len() {
                lemma_inc_within_bound(m.selected_track, m.albums@[m.selected_album as int].tracks@.len());
            }
        },
    }
    assert(down.counters_ok());
    if cascades_after_move(o) {
        lemma_cascade_consistent(down);
    }
}

impl App {
    /// Handles the metadata tab's keys `e`, `E`, `l`, `m` and `r`.
    fn on_editor_char(&mut self, c: char) -> (e: Effect)
        requires
            c == 'e' || c == 'E' || c == 'l' || c == 'm' || c == 'r',
            old(self).consistent(),
        ensures
            editor_char_post(*old(self), c, *final(self), e),
            final(self).consistent(),
    {
        let in_tab = self.active_tab == ActiveTab::Metadata;
        let in_panes = self.focus == Focus::MetadataAlbums || self.focus == Focus::MetadataTracks;
        if c == 'e' {
            if in_tab {
                let a = self.metadata_editor.selected_album;
                let t = self.metadata_editor.selected_track;
                if a < self.metadata_editor.albums.len() && t < self.metadata_editor.albums[a].tracks.len() {
                    let track = &self.metadata_editor.albums[a].tracks[t];
                    let title = copy_string(&track.title);
                    let artist = copy_string(&track.artist);
                    let album = copy_string(&track.album);
                    let year = copy_string(&track.year);
                    let number = copy_string(&track.track_number);
                    let name = file_name(track.path.as_str());
                    self.edit_title = title;
                    self.edit_artist = artist;
                    self.edit_album = album;
                    self.edit_year = year;
                    self.edit_track = number;
                    self.edit_filename = name;
                    self.edit_focus = 0;
                    self.is_bulk_edit = false;
                    self.modal = Modal::EditMetadata;
                }
            }
            Effect::Nothing
        } else if c == 'E' {
            if in_tab {
                let a = self.metadata_editor.selected_album;
                if a < self.metadata_editor.albums.len() && self.metadata_editor.albums[a].tracks.len() > 0 {
                    let track = &self.metadata_editor.albums[a].tracks[0];
                    let artist = copy_string(&track.artist);
                    let album = copy_string(&track.album);
                    let year = copy_string(&track.year);
                    self.edit_artist = artist;
                    self.edit_album = album;
                    self.edit_year = year;
                    self.edit_focus = 0;
                    self.is_bulk_edit = true;
                    self.modal = Modal::EditMetadata;
                }
            }
            Effect::Nothing
        } else if c == 'l' {
            if in_tab && in_panes {
                let idx = self.metadata_editor.selected_album;
                match self.metadata_editor.fetch_lyrics(idx) {
                    Some(reqs) => Effect::FetchLyrics(reqs),
                    None => Effect::Nothing,
                }
            } else {
                self.next_focus();
                Effect::Nothing
            }
        } else if c == 'm' {
            if in_tab && in_panes {
                self.move_album_dest = copy_string(&self.config.music_directory);
                self.modal = Modal::MoveAlbum;
            }
            Effect::Nothing
        } else {
            if in_tab { Effect::RescanStaging } else { Effect::Nothing }
        }
    }

    /// Handles a character key with no dialog open.
    fn on_char_key(&mut self, c: char, sink_empty: bool) -> (e: Effect)
        requires
            old(self).consistent(),
            char_allowed(*old(self), c),
            old(self).modal == Modal::Closed,
        ensures
            char_key_post(*old(self), c, sink_empty, *final(self), e),
            final(self).consistent(),
    {
        let downloader = self.active_tab == ActiveTab::Downloader;
        if c == 'q' {
            Effect::Quit
        } else if c == '?' {
            self.modal = Modal::Help;
            Effect::Nothing
        } else if c == 'n' || c == '.' || c == '>' {
            let r = self.play_next();
            step_effect(r)
        } else if c == 'p' || c == ',' || c == '<' {
            match self.play_previous() {
                Some(t) => Effect::PlayPrevious(t),
                None => Effect::Nothing,
            }
        } else if c == '-' {
            Effect::VolumeDown
        } else if c == '+' || c == '=' {
            Effect::VolumeUp
        } else if c == '1' {
            self.show_tab(ActiveTab::Player);
            Effect::Nothing
        } else if c == '2' {
            self.show_tab(ActiveTab::Albums);
            Effect::Nothing
        } else if c == '3' {
            self.show_tab(ActiveTab::Playlists);
            Effect::Nothing
        } else if c == 'j' {
            self.step_down()
        } else if c == 'k' {
            self.step_up()
        } else if c == 'h' {
            self.prev_focus();
            Effect::Nothing
        } else if c == 'a' {
            if downloader {
                Effect::Nothing
            } else {
                let r = self.toggle_queue_selected(sink_empty);
                play_effect(r)
            }
        } else if c == 'd' {
            if downloader {
                match self.downloader.download_selected() {
                    Some(job) => Effect::Download(job),
                    None => Effect::Nothing,
                }
            } else {
                if self.delete_selected_playlist_track() { Effect::SavePlaylists } else { Effect::Nothing }
            }
        } else if c == 'e' || c == 'E' || c == 'l' || c == 'm' || c == 'r' {
            self.on_editor_char(c)
        } else if c == ' ' {
            if self.focus == Focus::AlbumsView {
                let r = self.play_selected_album();
                play_effect(r)
            } else {
                Effect::TogglePlayback
            }
        } else {
            Effect::Nothing
        }
    }

    /// Moves the focused selection down, asking for the hovered album's
    /// cover in the albums tab.
    fn step_down(&mut self) -> (e: Effect)
        requires
            old(self).consistent(),
            old(self).move_ok(stepped_down(*old(self))),
        ensures
            e == move_effect(*old(self)),
            *final(self) == moved_down(*old(self)),
            final(self).consistent(),
    {
        let e = if self.focus == Focus::AlbumsView && self.albums_view_sel.is_some() {
            Effect::RefreshHoverCover
        } else {
            Effect::Nothing
        };
        proof { lemma_down_consistent(*self); }
        self.move_down();
        e
    }

    /// Moves the focused selection up, asking for the hovered album's cover
    /// in the albums tab.
    fn step_up(&mut self) -> (e: Effect)
        requires
            old(self).consistent(),
            old(self).move_ok(stepped_up(*old(self))),
        ensures
            e == move_effect(*old(self)),
            *final(self) == moved_up(*old(self)),
            final(self).consistent(),
    {
        let e = if self.focus == Focus::AlbumsView && self.albums_view_sel.is_some() {
            Effect::RefreshHoverCover
        } else {
            Effect::Nothing
        };
        proof { lemma_up_consistent(*self); }
        self.move_up();
        e
    }

    /// Handles a key with no dialog open, after the shortcuts with
    /// modifiers.
    fn on_plain_key(&mut self, key: KeyPress, sink_empty: bool) -> (e: Effect)
        requires
            old(self).consistent(),
            plain_allowed(*old(self), key),
            old(self).modal == Modal::Closed,
        ensures
            plain_key_post(*old(self), key, sink_empty, *final(self), e),
            final(self).consistent(),
    {
        match key.code {
            KeyCode::Char(c) => self.on_char_key(c, sink_empty),
            KeyCode::Enter => {
                let r = self.play_selected();
                play_effect(r)
            },
            KeyCode::PageDown => {
                self.next_tab();
                Effect::Nothing
            },
            KeyCode::PageUp => {
                self.prev_tab();
                Effect::Nothing
            },
            KeyCode::Down => self.step_down(),
            KeyCode::Up => self.step_up(),
            KeyCode::Right | KeyCode::Tab => {
                self.next_focus();
                Effect::Nothing
            },
            KeyCode::Left | KeyCode::BackTab => {
                self.prev_focus();
                Effect::Nothing
            },
            _ => Effect::Nothing,
        }
    }
}

/// Whether a key is the character `x`.
pub open spec fn is_char(k: KeyCode, x: char) -> bool {
    match k {
        KeyCode::Char(c) => c == x,
        _ => false,
    }
}

/// What a key does with no dialog open: Alt+Shift+N toggles focused mode;
/// Alt+A opens the playlist chooser for the track the focused pane points
/// at; Ctrl+S opens the search with an empty query; `/` in the downloader
/// tab opens its query with an empty query; Ctrl+Tab and Ctrl+BackTab change
/// tabs; the other keys as `plain_key_post` says.
pub open spec fn main_key_post(o: App, k: KeyPress, sink_empty: bool, n: App, e: Effect) -> bool {
    if (is_char(k.code, 'n') || is_char(k.code, 'N')) && k.alt && k.shift {
        e is Nothing && n == App { is_focused_mode: !o.is_focused_mode, ..o }
    } else if is_char(k.code, 'a') && k.alt {
        &&& e is Nothing
        &&& match o.selected_anywhere() {
            Some(t) => n.playlist_target_track matches Some(x) && x@ == t && n == App {
                playlist_target_track: n.playlist_target_track,
                modal: Modal::PlaylistSelect,
                playlist_select_sel: Some(0usize),
                ..o
            },
            None => n == o,
        }
    } else if is_char(k.code, 's') && k.ctrl {
        &&& e is Nothing
        &&& n.modal == Modal::Search
        &&& n.search_query@.len() == 0
        &&& search_updated(App { modal: Modal::Search, search_query: n.search_query, ..o }, n)
    } else if is_char(k.code, '/') && o.active_tab == ActiveTab::Downloader {
        &&& e is Nothing
        &&& n.downloader.query@.len() == 0
        &&& n.downloader == (DownloaderState { query: n.downloader.query, ..o.downloader })
        &&& n == App { modal: Modal::DownloaderSearch, downloader: n.downloader, ..o }
    } else if (k.code is Tab && k.ctrl && !k.shift) {
        e is Nothing && n == App { active_tab: tab_after(o.active_tab), focus: tab_focus(tab_after(o.active_tab)), ..o }
    } else if (k.code is Tab && k.ctrl) || (k.code is BackTab && k.ctrl) {
        e is Nothing && n == App { active_tab: tab_before(o.active_tab), focus: tab_focus(tab_before(o.active_tab)), ..o }
    } else {
        plain_key_post(o, k, sink_empty, n, e)
    }
}

/// What a key does in whichever dialog is open (or none).
pub open spec fn modal_key_post(o: App, k: KeyPress, sink_empty: bool, n: App, e: Effect) -> bool {
    match o.modal {
        Modal::Search => search_key_post(o, k, n, e),
        Modal::Help => help_key_post(o, k, n, e),
        Modal::PlaylistSelect => select_key_post(o, k, n, e),
        Modal::PlaylistCreate => create_key_post(o, k, n, e),
        Modal::EditMetadata => edit_key_post(o, k, n, e),
        Modal::DownloaderSearch => query_key_post(o, k, n, e),
        Modal::MoveAlbum => move_key_post(o, k, n, e),
        Modal::Closed => main_key_post(o, k, sink_empty, n, e),
    }
}

impl App {
    /// Handles a key with no dialog open.
    pub fn on_main_key(&mut self, key: KeyPress, sink_empty: bool) -> (e: Effect)
        requires
            old(self).consistent(),
            main_allowed(*old(self), key),
            old(self).modal == Modal::Closed,
        ensures
            main_key_post(*old(self), key, sink_empty, *final(self), e),
            final(self).consistent(),
    {
        let is_n = match key.code {
            KeyCode::Char(c) => c == 'n' || c == 'N',
            _ => false,
        };
        if is_n && key.alt && key.shift {
            self.is_focused_mode = !self.is_focused_mode;
            return Effect::Nothing;
        }
        let ch = match key.code {
            KeyCode::Char(c) => Some(c),
            _ => None,
        };
        if ch == Some('a') && key.alt {
            if let Some(t) = self.get_selected_track_anywhere() {
                self.playlist_target_track = Some(t);
                self.modal = Modal::PlaylistSelect;
                self.playlist_select_sel = Some(0);
            }
            return Effect::Nothing;
        }
        if ch == Some('s') && key.ctrl {
            self.modal = Modal::Search;
            self.search_query = String::new();
            self.update_search();
            return Effect::Nothing;
        }
        if ch == Some('/') && self.active_tab == ActiveTab::Downloader {
            self.modal = Modal::DownloaderSearch;
            self.downloader.query = String::new();
            return Effect::Nothing;
        }
        let is_tab = match key.code {
            KeyCode::Tab => true,
            _ => false,
        };
        let is_back_tab = match key.code {
            KeyCode::BackTab => true,
            _ => false,
        };
        if is_tab && key.ctrl {
            if key.shift {
                self.prev_tab();
            } else {
                self.next_tab();
            }
            return Effect::Nothing;
        }
        if is_back_tab && key.ctrl {
            self.prev_tab();
            return Effect::Nothing;
        }
        self.on_plain_key(key, sink_empty)
    }

    /// Handles a key press: once the lyrics downloads are over, a
    /// "Fetching..." message in the editor gives way to "Finished fetching
    /// lyrics."; then the key goes to the open dialog, or to the tabs.
    /// `sink_empty` tells whether the audio output has nothing playing or
    /// pending.
    pub fn handle_key(&mut self, key: KeyPress, sink_empty: bool) -> (e: Effect)
        requires
            old(self).consistent(),
            key_allowed(*old(self), key),
        ensures
            exists|mid: App| {
                &&& status_refreshed(old(self).metadata_editor, #[trigger] mid.metadata_editor)
                &&& mid == App { metadata_editor: mid.metadata_editor, ..*old(self) }
                &&& modal_key_post(mid, key, sink_empty, *final(self), e)
            },
            final(self).consistent(),
    {
        self.metadata_editor.refresh_status();
        let ghost mid = *self;
        assert(key_allowed(mid, key));
        let e = match self.modal {
            Modal::Search => self.on_search_key(key),
            Modal::Help => self.on_help_key(key),
            Modal::PlaylistSelect => self.on_select_key(key),
            Modal::PlaylistCreate => self.on_create_key(key),
            Modal::EditMetadata => self.on_edit_key(key),
            Modal::DownloaderSearch => self.on_query_key(key),
            Modal::MoveAlbum => self.on_move_key(key),
            Modal::Closed => self.on_main_key(key, sink_empty),
        };
        assert(modal_key_post(mid, key, sink_empty, *self, e));
        e
    }
}

/// The lyrics searches (address, track file) for every track of `albums`,
/// album by album.
pub open spec fn lyrics_plan(albums: Seq<AlbumGroup>) -> Seq<(Seq<char>, Seq<char>)>
    decreases albums.len(),
{
    if albums.len() == 0 {
        Seq::empty()
    } else {
        lyrics_plan(albums.drop_last()) + albums.last().tracks@.map_values(
            |t: TrackMetadata| (lyrics_search_url(t.title@, t.artist@), t.path@),
        )
    }
}

/// The address and track file of each lyrics search.
pub open spec fn request_views(r: Seq<LyricsRequest>) -> Seq<(Seq<char>, Seq<char>)> {
    r.map_values(|q: LyricsRequest| (q.url@, q.track_path@))
}

impl App {
    /// After a download has finished: shows the metadata tab, rescans the
    /// staging directory (its new scan is `staged`), and starts fetching the
    /// lyrics of every album found; gives all the searches to make.
    pub fn on_download_finished(&mut self, staged: Vec<ScannedFile>) -> (r: Vec<LyricsRequest>)
        requires
            old(self).consistent(),
        ensures
            ({
                let m = final(self).metadata_editor;
                let albums = m.albums@;
                &&& final(self).active_tab == ActiveTab::Metadata
                &&& final(self).focus == Focus::MetadataAlbums
                &&& m.tmp_dir == old(self).metadata_editor.tmp_dir
                &&& groups_of(albums, inferred_all(staged@))
                &&& m.selected_album == 0 && m.selected_track == 0
                &&& m.is_loading == (albums.len() > 0)
                &&& m.status@ == (if albums.len() > 0 {
                    "Fetching lyrics for "@ + decimal_seq(albums.last().tracks@.len()) + " tracks..."@
                } else {
                    scan_status(0)
                })
                &&& request_views(r@) == lyrics_plan(albums)
                &&& *final(self) == (App {
                    active_tab: ActiveTab::Metadata,
                    focus: Focus::MetadataAlbums,
                    metadata_editor: m,
                    ..*old(self)
                })
            }),
            final(self).consistent(),
    {
        self.show_tab(ActiveTab::Metadata);
        self.metadata_editor.scan_directory(staged);
        let ghost scanned = self.metadata_editor;
        let ghost pre = *self;
        let n = self.metadata_editor.albums.len();
        let mut all: Vec<LyricsRequest> = Vec::new();
        let mut i: usize = 0;
        while i < n
            invariant
                i <= n,
                n == self.metadata_editor.albums@.len(),
                self.metadata_editor.albums == scanned.albums,
                self.metadata_editor.tmp_dir == scanned.tmp_dir,
                self.metadata_editor.selected_album == scanned.selected_album,
                self.metadata_editor.selected_track == scanned.selected_track,
                self.metadata_editor.is_loading == (i > 0),
                self.metadata_editor.status@ == (if i > 0 {
                    "Fetching lyrics for "@ + decimal_seq(scanned.albums@[i - 1].tracks@.len()) + " tracks..."@
                } else {
                    scanned.status@
                }),
                request_views(all@) == lyrics_plan(scanned.albums@.take(i as int)),
                *self == (App { metadata_editor: self.metadata_editor, ..pre }),
                pre.consistent(),
                pre == (App { active_tab: ActiveTab::Metadata, focus: Focus::MetadataAlbums, metadata_editor: scanned, ..*old(self) }),
            decreases n - i,
        {
            let ghost before = all@;
            match self.metadata_editor.fetch_lyrics(i) {
                Some(mut reqs) => {
                    let ghost rv = reqs@;
                    all.append(&mut reqs);
                    proof {
                        let albums = scanned.albums@;
                        let tracks = albums[i as int].tracks@;
                        assert(albums.take(i + 1).drop_last() =~= albums.take(i as int));
                        assert(albums.take(i + 1).last() == albums[i as int]);
                        assert(request_views(rv) =~= tracks.map_values(
                            |t: TrackMetadata| (lyrics_search_url(t.title@, t.artist@), t.path@),
                        ));
                        assert(request_views(all@) =~= request_views(before) + request_views(rv));
                    }
                },
                None => {},
            }
            i = i + 1;
        }
        proof {
            assert(scanned.albums@.take(n as int) =~= scanned.albums@);
        }
        all
    }
}

impl App {
    /// What the terminal loop checks before each redraw: when the audio
    /// output has run dry (`sink_empty`) while a track is current, playback
    /// goes on with what `play_next` decides.
    pub fn on_output_idle(&mut self, sink_empty: bool) -> (e: Effect)
        requires
            old(self).consistent(),
        ensures
            if sink_empty && old(self).current_track is Some {
                (e is Play || e is Stop || e is Nothing) && play_next_post(*old(self), *final(self), effect_step(e))
            } else {
                e is Nothing && *final(self) == *old(self)
            },
            final(self).consistent(),
    {
        if sink_empty && self.current_track.is_some() {
            let r = self.play_next();
            step_effect(r)
        } else {
            Effect::Nothing
        }
    }
}

impl App {
    /// Records the end of a yt-dlp search for `query` (see
    /// `DownloaderState::finish_search`).
    pub fn on_search_done(&mut self, query: &str, found: Option<Vec<YtResult>>)
        requires
            old(self).consistent(),
        ensures
            search_finished(old(self).downloader, query@, found, final(self).downloader),
            *final(self) == (App { downloader: final(self).downloader, ..*old(self) }),
            final(self).consistent(),
    {
        self.downloader.finish_search(query, found);
    }

    /// Records the end of the download of `title` (see
    /// `DownloaderState::finish_download`). Gives whether it succeeded, in
    /// which case the staging directory is to be rescanned and handed to
    /// `on_download_finished`.
    pub fn on_download_done(&mut self, title: &str, outcome: DownloadOutcome) -> (succeeded: bool)
        requires
            old(self).consistent(),
        ensures
            succeeded == (outcome is Succeeded),
            download_finished(old(self).downloader, title@, outcome, final(self).downloader),
            *final(self) == (App { downloader: final(self).downloader, ..*old(self) }),
            final(self).consistent(),
    {
        let succeeded = match outcome {
            DownloadOutcome::Succeeded => true,
            _ => false,
        };
        self.downloader.finish_download(title, outcome);
        succeeded
    }

    /// Records that the lyrics downloads have finished.
    pub fn on_lyrics_done(&mut self)
        requires
            old(self).consistent(),
        ensures
            !final(self).metadata_editor.is_loading,
            final(self).metadata_editor == (MetadataState { is_loading: false, ..old(self).metadata_editor }),
            *final(self) == (App { metadata_editor: final(self).metadata_editor, ..*old(self) }),
            final(self).consistent(),
    {
        self.metadata_editor.finish_loading();
    }

    /// Shows a new scan `staged` of the staging directory in the editor.
    pub fn on_staging_scanned(&mut self, staged: Vec<ScannedFile>)
        requires
            old(self).consistent(),
        ensures
            final(self).metadata_editor.shows_scan_of(staged@),
            final(self).metadata_editor.tmp_dir == old(self).metadata_editor.tmp_dir,
            *final(self) == (App { metadata_editor: final(self).metadata_editor, ..*old(self) }),
            final(self).consistent(),
    {
        self.metadata_editor.scan_directory(staged);
    }
}

/// Esc closes whichever dialog is open, and does nothing else: the state is
/// the same but for the dialog, and no effect is asked for.
pub proof fn law_escape_closes_dialogs(o: App, k: KeyPress, sink_empty: bool, n: App, e: Effect)
    requires
        o.modal != Modal::Closed,
        k.code is Esc,
        modal_key_post(o, k, sink_empty, n, e),
    ensures
        n == (App { modal: Modal::Closed, ..o }),
        e is Nothing,
{
}

/// No key changes the library index or the settings: only a rescan of the
/// music directory (`reload_library`) replaces the library.
pub proof fn law_keys_keep_library(o: App, k: KeyPress, sink_empty: bool, n: App, e: Effect)
    requires
        modal_key_post(o, k, sink_empty, n, e),
    ensures
        n.library == o.library,
        n.config == o.config,
{
    match o.modal {
        Modal::Closed => {
            if !((is_char(k.code, 'n') || is_char(k.code, 'N')) && k.alt && k.shift)
                && !(is_char(k.code, 'a') && k.alt) && !(is_char(k.code, 's') && k.ctrl)
                && !(is_char(k.code, '/') && o.active_tab == ActiveTab::Downloader)
                && !(k.code is Tab && k.ctrl) && !(k.code is BackTab && k.ctrl) {
                match k.code {
                    KeyCode::Char(c) => {
                        if c == 'j' || c == 'k' {
                            assert(stepped_up(o).library == o.library);
                            assert(stepped_down(o).library == o.library);
                        }
                    },
                    KeyCode::Down | KeyCode::Up => {
                        assert(stepped_up(o).library == o.library);
                        assert(stepped_down(o).library == o.library);
                    },
                    _ => {},
                }
            }
        },
        _ => {},
    }
}

/// With no dialog open, the plain keys (without Ctrl or Alt) do this: `q`
/// quits, `?` opens the help, `-` and `+` (or `=`) turn the volume down and
/// up, `1`, `2` and `3` show the player, albums and playlists tabs, the space
/// pauses or resumes outside the albums pane, `n` (or `.`, `>`) plays the
/// next track and `p` (or `,`, `<`) the previous one; the library is never
/// touched.
pub proof fn law_plain_keys(o: App, k: KeyPress, c: char, sink_empty: bool, n: App, e: Effect)
    requires
        o.modal == Modal::Closed,
        !k.alt,
        !k.ctrl,
        k.code == KeyCode::Char(c),
        modal_key_post(o, k, sink_empty, n, e),
    ensures
        c == 'q' ==> e is Quit && n == o,
        c == '?' ==> e is Nothing && n == (App { modal: Modal::Help, ..o }),
        c == '-' ==> e is VolumeDown && n == o,
        c == '+' || c == '=' ==> e is VolumeUp && n == o,
        c == '1' ==> e is Nothing && n.active_tab == ActiveTab::Player,
        c == '2' ==> e is Nothing && n.active_tab == ActiveTab::Albums,
        c == '3' ==> e is Nothing && n.active_tab == ActiveTab::Playlists,
        c == ' ' && o.focus != Focus::AlbumsView ==> e is TogglePlayback && n == o,
        c == 'n' || c == '.' || c == '>' ==> play_next_post(o, n, effect_step(e)),
        c == 'p' || c == ',' || c == '<' ==> previous_post(o, n, e),
{
    assert(!is_char(k.code, '/') || o.active_tab != ActiveTab::Downloader || c == '/');
}

} // verus!
