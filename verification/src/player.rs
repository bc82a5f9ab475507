//! The player's navigation state: tabs, focus, list selections, the play
//! queue and history, search, and the editor fields, with every decision the
//! keyboard drives. Audio output, covers and timing live outside the library
//! and are told what to do.

use vstd::prelude::*;
use crate::library::{
    Library, Track, TrackView, track_views, copy_tracks, copy_tracks_from, first_by_path, has_path, first_path_index,
    find_track_by_path,
};
use crate::order::{SortField, FieldView, sort_stable, strip_keys, item_key, key_view, lemma_sort_views, is_key_sort_of, has_key_by};
use crate::text::{to_lowercase, lowercase_of, contains, contains_seq, chars_of, text_eq};
use crate::playlists::Playlists;
use crate::downloader::DownloaderState;
use crate::metadata::MetadataState;
use crate::config::AppConfig;

verus! {

/// The tabs of the player.
#[derive(PartialEq, Eq, Structural, Clone, Copy, Debug)]
pub enum ActiveTab {
    Player,
    Albums,
    Playlists,
    Downloader,
    Metadata,
}

/// The pane that receives the arrow keys.
#[derive(PartialEq, Eq, Structural, Clone, Copy, Debug)]
pub enum Focus {
    Artist,
    Album,
    Track,
    Queue,
    AlbumsView,
    PlaylistsList,
    PlaylistsTracks,
    Downloader,
    MetadataAlbums,
    MetadataTracks,
}

/// The dialog shown over the tabs, if any.
#[derive(PartialEq, Eq, Structural, Clone, Copy, Debug)]
pub enum Modal {
    /// No dialog.
    Closed,
    Search,
    Help,
    PlaylistSelect,
    PlaylistCreate,
    EditMetadata,
    DownloaderSearch,
    MoveAlbum,
}

/// The state of the player.
pub struct App {
    pub config: AppConfig,
    pub library: Library,
    pub focus: Focus,
    pub artist_sel: Option<usize>,
    pub album_sel: Option<usize>,
    pub track_sel: Option<usize>,
    pub queue_sel: Option<usize>,
    pub albums_view_sel: Option<usize>,
    pub playlists: Playlists,
    pub playlists_list_sel: Option<usize>,
    pub playlists_track_sel: Option<usize>,
    pub playlist_select_sel: Option<usize>,
    pub playlist_target_track: Option<Track>,
    pub new_playlist_name: String,
    pub queue: Vec<Track>,
    pub history: Vec<Track>,
    pub active_tab: ActiveTab,
    pub modal: Modal,
    pub search_query: String,
    pub search_results: Vec<Track>,
    pub search_sel: Option<usize>,
    pub current_track: Option<Track>,
    pub error_msg: Option<String>,
    pub tick_count: u64,
    pub is_focused_mode: bool,
    pub downloader: DownloaderState,
    pub metadata_editor: MetadataState,
    pub edit_title: String,
    pub edit_artist: String,
    pub edit_album: String,
    pub edit_year: String,
    pub edit_track: String,
    pub edit_filename: String,
    pub edit_focus: usize,
    pub is_bulk_edit: bool,
    pub move_album_dest: String,
}

/// The tab after `t`, cycling.
pub open spec fn tab_after(t: ActiveTab) -> ActiveTab {
    match t {
        ActiveTab::Player => ActiveTab::Albums,
        ActiveTab::Albums => ActiveTab::Playlists,
        ActiveTab::Playlists => ActiveTab::Downloader,
        ActiveTab::Downloader => ActiveTab::Metadata,
        ActiveTab::Metadata => ActiveTab::Player,
    }
}

/// The tab before `t`, cycling.
pub open spec fn tab_before(t: ActiveTab) -> ActiveTab {
    match t {
        ActiveTab::Player => ActiveTab::Metadata,
        ActiveTab::Albums => ActiveTab::Player,
        ActiveTab::Playlists => ActiveTab::Albums,
        ActiveTab::Downloader => ActiveTab::Playlists,
        ActiveTab::Metadata => ActiveTab::Downloader,
    }
}

/// The pane focused on entering tab `t`.
pub open spec fn tab_focus(t: ActiveTab) -> Focus {
    match t {
        ActiveTab::Albums => Focus::AlbumsView,
        ActiveTab::Player => Focus::Track,
        ActiveTab::Playlists => Focus::PlaylistsList,
        ActiveTab::Downloader => Focus::Downloader,
        ActiveTab::Metadata => Focus::MetadataAlbums,
    }
}

/// The pane after `f` within tab `t` (the focus is unchanged in tabs with a
/// single pane).
pub open spec fn focus_after(t: ActiveTab, f: Focus) -> Focus {
    match t {
        ActiveTab::Player => match f {
            Focus::Artist => Focus::Album,
            Focus::Album => Focus::Track,
            Focus::Track => Focus::Queue,
            Focus::Queue => Focus::Artist,
            _ => Focus::Artist,
        },
        ActiveTab::Playlists => match f {
            Focus::PlaylistsList => Focus::PlaylistsTracks,
            _ => Focus::PlaylistsList,
        },
        ActiveTab::Metadata => match f {
            Focus::MetadataAlbums => Focus::MetadataTracks,
            _ => Focus::MetadataAlbums,
        },
        _ => f,
    }
}

/// The pane before `f` within tab `t`.
pub open spec fn focus_before(t: ActiveTab, f: Focus) -> Focus {
    match t {
        ActiveTab::Player => match f {
            Focus::Artist => Focus::Queue,
            Focus::Album => Focus::Artist,
            Focus::Track => Focus::Album,
            Focus::Queue => Focus::Track,
            _ => Focus::Artist,
        },
        ActiveTab::Playlists => match f {
            Focus::PlaylistsTracks => Focus::PlaylistsList,
            _ => Focus::PlaylistsTracks,
        },
        ActiveTab::Metadata => match f {
            Focus::MetadataTracks => Focus::MetadataAlbums,
            _ => Focus::MetadataTracks,
        },
        _ => f,
    }
}

/// The views of an optional track.
pub open spec fn opt_track_view(t: Option<Track>) -> Option<TrackView> {
    match t {
        Some(x) => Some(x@),
        None => None,
    }
}

impl App {
    /// The albums of the artist at position `i`.
    pub open spec fn albums_of(&self, i: int) -> Seq<String> {
        self.library.albums_by_artist@[i]@
    }

    /// The tracks of album `j` of the artist at position `i`.
    pub open spec fn tracks_at(&self, i: int, j: int) -> Seq<Track> {
        self.library.tracks_by_album@[i]@[j]@
    }

    /// Whether the selected artist, if any, is one of the artists.
    pub open spec fn artist_ok(&self) -> bool {
        self.artist_sel matches Some(i) ==> i < self.library.artists@.len()
    }

    /// Whether the selected album, if any, is one of the selected artist's.
    pub open spec fn album_ok(&self) -> bool {
        (self.artist_sel is Some && self.album_sel is Some) ==> self.album_sel->0 < self.albums_of(self.artist_sel->0 as int).len()
    }

    /// Whether the artist and album selections index the library.
    pub fn selection_ok(&self) -> (b: bool)
        requires
            self.library.shape_ok(),
        ensures
            b == (self.artist_ok() && self.album_ok()),
    {
        match self.artist_sel {
            Some(i) => {
                if i >= self.library.artists.len() {
                    return false;
                }
                match self.album_sel {
                    Some(j) => j < self.library.albums_by_artist[i].len(),
                    None => true,
                }
            },
            None => true,
        }
    }

    /// The album and track selections after `update_cascading_selection`.
    pub open spec fn cascaded(&self) -> (Option<usize>, Option<usize>) {
        match self.artist_sel {
            Some(i) => {
                let albums = self.albums_of(i as int);
                let album = if self.album_sel is None || self.album_sel->0 >= albums.len() {
                    if albums.len() == 0 { None } else { Some(0usize) }
                } else {
                    self.album_sel
                };
                match album {
                    Some(j) => {
                        let tracks = self.tracks_at(i as int, j as int);
                        let track = if self.track_sel is None || self.track_sel->0 >= tracks.len() {
                            if tracks.len() == 0 { None } else { Some(0usize) }
                        } else {
                            self.track_sel
                        };
                        (album, track)
                    },
                    None => (album, self.track_sel),
                }
            },
            None => (self.album_sel, self.track_sel),
        }
    }

    /// Keeps the album and track selections within the selected artist's
    /// albums and the selected album's tracks, falling back to the first
    /// entry (or none, for an empty list).
    pub fn update_cascading_selection(&mut self)
        requires
            old(self).library.shape_ok(),
            old(self).artist_ok(),
        ensures
            *final(self) == (App {
                album_sel: old(self).cascaded().0,
                track_sel: old(self).cascaded().1,
                ..*old(self)
            }),
    {
        if let Some(artist_idx) = self.artist_sel {
            let albums_len = self.library.albums_by_artist[artist_idx].len();
            if self.album_sel.is_none() || self.album_sel.unwrap() >= albums_len {
                self.album_sel = if albums_len == 0 { None } else { Some(0) };
            }
            if let Some(album_idx) = self.album_sel {
                let tracks_len = self.library.tracks_by_album[artist_idx][album_idx].len();
                if self.track_sel.is_none() || self.track_sel.unwrap() >= tracks_len {
                    self.track_sel = if tracks_len == 0 { None } else { Some(0) };
                }
            }
        }
    }

    /// Focuses the main pane of the current tab.
    pub fn sync_focus_to_tab(&mut self)
        ensures
            *final(self) == (App { focus: tab_focus(old(self).active_tab), ..*old(self) }),
    {
        self.focus = match self.active_tab {
            ActiveTab::Albums => Focus::AlbumsView,
            ActiveTab::Player => Focus::Track,
            ActiveTab::Playlists => Focus::PlaylistsList,
            ActiveTab::Downloader => Focus::Downloader,
            ActiveTab::Metadata => Focus::MetadataAlbums,
        };
    }

    /// Moves to the next tab, cycling, and focuses its main pane.
    pub fn next_tab(&mut self)
        ensures
            *final(self) == (App {
                active_tab: tab_after(old(self).active_tab),
                focus: tab_focus(tab_after(old(self).active_tab)),
                ..*old(self)
            }),
    {
        self.active_tab = match self.active_tab {
            ActiveTab::Player => ActiveTab::Albums,
            ActiveTab::Albums => ActiveTab::Playlists,
            ActiveTab::Playlists => ActiveTab::Downloader,
            ActiveTab::Downloader => ActiveTab::Metadata,
            ActiveTab::Metadata => ActiveTab::Player,
        };
        self.sync_focus_to_tab();
    }

    /// Moves to the previous tab, cycling, and focuses its main pane.
    pub fn prev_tab(&mut self)
        ensures
            *final(self) == (App {
                active_tab: tab_before(old(self).active_tab),
                focus: tab_focus(tab_before(old(self).active_tab)),
                ..*old(self)
            }),
    {
        self.active_tab = match self.active_tab {
            ActiveTab::Player => ActiveTab::Metadata,
            ActiveTab::Albums => ActiveTab::Player,
            ActiveTab::Playlists => ActiveTab::Albums,
            ActiveTab::Downloader => ActiveTab::Playlists,
            ActiveTab::Metadata => ActiveTab::Downloader,
        };
        self.sync_focus_to_tab();
    }

    /// Shows tab `tab` and focuses its main pane.
    pub fn show_tab(&mut self, tab: ActiveTab)
        ensures
            *final(self) == (App { active_tab: tab, focus: tab_focus(tab), ..*old(self) }),
    {
        self.active_tab = tab;
        self.sync_focus_to_tab();
    }

    /// Focuses the next pane of the current tab, cycling.
    pub fn next_focus(&mut self)
        ensures
            *final(self) == (App { focus: focus_after(old(self).active_tab, old(self).focus), ..*old(self) }),
    {
        match self.active_tab {
            ActiveTab::Player => {
                self.focus = match self.focus {
                    Focus::Artist => Focus::Album,
                    Focus::Album => Focus::Track,
                    Focus::Track => Focus::Queue,
                    Focus::Queue => Focus::Artist,
                    _ => Focus::Artist,
                };
            },
            ActiveTab::Playlists => {
                self.focus = match self.focus {
                    Focus::PlaylistsList => Focus::PlaylistsTracks,
                    _ => Focus::PlaylistsList,
                };
            },
            ActiveTab::Metadata => {
                self.focus = match self.focus {
                    Focus::MetadataAlbums => Focus::MetadataTracks,
                    _ => Focus::MetadataAlbums,
                };
            },
            _ => {},
        }
    }

    /// Focuses the previous pane of the current tab, cycling.
    pub fn prev_focus(&mut self)
        ensures
            *final(self) == (App { focus: focus_before(old(self).active_tab, old(self).focus), ..*old(self) }),
    {
        match self.active_tab {
            ActiveTab::Player => {
                self.focus = match self.focus {
                    Focus::Artist => Focus::Queue,
                    Focus::Album => Focus::Artist,
                    Focus::Track => Focus::Album,
                    Focus::Queue => Focus::Track,
                    _ => Focus::Artist,
                };
            },
            ActiveTab::Playlists => {
                self.focus = match self.focus {
                    Focus::PlaylistsTracks => Focus::PlaylistsList,
                    _ => Focus::PlaylistsTracks,
                };
            },
            ActiveTab::Metadata => {
                self.focus = match self.focus {
                    Focus::MetadataTracks => Focus::MetadataAlbums,
                    _ => Focus::MetadataTracks,
                };
            },
            _ => {},
        }
    }

    /// Advances the animation clock when animations are on.
    pub fn tick(&mut self)
        ensures
            *final(self) == (App {
                tick_count: if old(self).config.enable_animations {
                    (if old(self).tick_count == u64::MAX { 0 } else { old(self).tick_count + 1 }) as u64
                } else {
                    old(self).tick_count
                },
                ..*old(self)
            }),
            old(self).consistent() ==> final(self).consistent(),
    {
        if self.config.enable_animations {
            self.tick_count = self.tick_count.wrapping_add(1);
        }
    }
}

/// One less than `i`, stopping at zero.
pub open spec fn dec(i: usize) -> usize {
    if i > 0 { (i - 1) as usize } else { 0 }
}

/// One more than `i`, but no further than the last of `len` entries.
pub open spec fn inc_within(i: usize, len: nat) -> usize {
    let last: int = if len > 0 { len - 1 } else { 0 };
    if i + 1 <= last { (i + 1) as usize } else { last as usize }
}

/// A selection kept within a list of `len` entries: the last entry when it
/// is past the end, none when the list is empty.
pub open spec fn clamped(sel: Option<usize>, len: nat) -> Option<usize> {
    match sel {
        Some(i) => if len == 0 { None } else if i >= len { Some((len - 1) as usize) } else { Some(i) },
        None => None,
    }
}

/// The state with the album and track selections kept within their lists.
pub open spec fn with_cascade(a: App) -> App {
    App { album_sel: a.cascaded().0, track_sel: a.cascaded().1, ..a }
}

/// The state after moving the selection of the focused pane up one entry,
/// before the album and track selections are kept within their lists.
pub open spec fn stepped_up(a: App) -> App {
    match a.focus {
        Focus::Artist => match a.artist_sel {
            Some(i) => App { artist_sel: Some(dec(i)), album_sel: Some(0), track_sel: Some(0), ..a },
            None => a,
        },
        Focus::Album => match a.album_sel {
            Some(i) => App { album_sel: Some(dec(i)), track_sel: Some(0), ..a },
            None => a,
        },
        Focus::Track => match a.track_sel {
            Some(i) => App { track_sel: Some(dec(i)), ..a },
            None => a,
        },
        Focus::Queue => match a.queue_sel {
            Some(i) => App { queue_sel: Some(dec(i)), ..a },
            None => a,
        },
        Focus::AlbumsView => match a.albums_view_sel {
            Some(i) => App { albums_view_sel: Some(dec(i)), ..a },
            None => a,
        },
        Focus::PlaylistsList => match a.playlists_list_sel {
            Some(i) => App { playlists_list_sel: Some(dec(i)), playlists_track_sel: Some(0), ..a },
            None => a,
        },
        Focus::PlaylistsTracks => match a.playlists_track_sel {
            Some(i) => App { playlists_track_sel: Some(dec(i)), ..a },
            None => a,
        },
        Focus::Downloader => App {
            downloader: DownloaderState { selected_index: dec(a.downloader.selected_index), ..a.downloader },
            ..a
        },
        Focus::MetadataAlbums => App {
            metadata_editor: MetadataState {
                selected_album: dec(a.metadata_editor.selected_album),
                selected_track: 0,
                ..a.metadata_editor
            },
            ..a
        },
        Focus::MetadataTracks => App {
            metadata_editor: MetadataState {
                selected_track: dec(a.metadata_editor.selected_track),
                ..a.metadata_editor
            },
            ..a
        },
    }
}

/// The state after moving the selection of the focused pane down one entry
/// (never past the last), before the album and track selections are kept
/// within their lists.
pub open spec fn stepped_down(a: App) -> App {
    match a.focus {
        Focus::Artist => match a.artist_sel {
            Some(i) => App {
                artist_sel: Some(inc_within(i, a.library.artists@.len())),
                album_sel: Some(0),
                track_sel: Some(0),
                ..a
            },
            None => a,
        },
        Focus::Album => match (a.artist_sel, a.album_sel) {
            (Some(ai), Some(i)) => App {
                album_sel: Some(inc_within(i, a.albums_of(ai as int).len())),
                track_sel: Some(0),
                ..a
            },
            _ => a,
        },
        Focus::Track => match (a.artist_sel, a.album_sel, a.track_sel) {
            (Some(ai), Some(bi), Some(i)) => App {
                track_sel: Some(inc_within(i, a.tracks_at(ai as int, bi as int).len())),
                ..a
            },
            _ => a,
        },
        Focus::Queue => match a.queue_sel {
            Some(i) => App { queue_sel: Some(inc_within(i, a.queue@.len())), ..a },
            None => if a.queue@.len() > 0 { App { queue_sel: Some(0), ..a } } else { a },
        },
        Focus::AlbumsView => match a.albums_view_sel {
            Some(i) => App { albums_view_sel: Some(inc_within(i, a.library.all_albums@.len())), ..a },
            None => a,
        },
        Focus::PlaylistsList => match a.playlists_list_sel {
            Some(i) => App {
                playlists_list_sel: Some(inc_within(i, a.playlists.lists@.len())),
                playlists_track_sel: Some(0),
                ..a
            },
            None => if a.playlists.lists@.len() > 0 { App { playlists_list_sel: Some(0), ..a } } else { a },
        },
        Focus::PlaylistsTracks => match a.playlists_list_sel {
            Some(p) => if p < a.playlists.lists@.len() {
                let paths = a.playlists.lists@[p as int].paths@;
                match a.playlists_track_sel {
                    Some(i) => App { playlists_track_sel: Some(inc_within(i, paths.len())), ..a },
                    None => if paths.len() > 0 { App { playlists_track_sel: Some(0), ..a } } else { a },
                }
            } else {
                a
            },
            None => a,
        },
        Focus::Downloader => if a.downloader.results@.len() > 0 {
            App {
                downloader: DownloaderState {
                    selected_index: inc_within(a.downloader.selected_index, a.downloader.results@.len()),
                    ..a.downloader
                },
                ..a
            }
        } else {
            a
        },
        Focus::MetadataAlbums => if a.metadata_editor.albums@.len() > 0 {
            App {
                metadata_editor: MetadataState {
                    selected_album: inc_within(a.metadata_editor.selected_album, a.metadata_editor.albums@.len()),
                    selected_track: 0,
                    ..a.metadata_editor
                },
                ..a
            }
        } else {
            a
        },
        Focus::MetadataTracks => if a.metadata_editor.selected_album < a.metadata_editor.albums@.len()
            && a.metadata_editor.albums@[a.metadata_editor.selected_album as int].tracks@.len() > 0 {
            App {
                metadata_editor: MetadataState {
                    selected_track: inc_within(
                        a.metadata_editor.selected_track,
                        a.metadata_editor.albums@[a.metadata_editor.selected_album as int].tracks@.len(),
                    ),
                    ..a.metadata_editor
                },
                ..a
            }
        } else {
            a
        },
    }
}

/// Whether moving in the player tab keeps the album and track selections
/// within their lists afterwards.
pub open spec fn cascades_after_move(a: App) -> bool {
    a.active_tab == ActiveTab::Player && a.focus != Focus::Queue
}

/// `i - 1`, stopping at zero.
fn dec_exec(i: usize) -> (r: usize)
    ensures
        r == dec(i),
{
    if i > 0 { i - 1 } else { 0 }
}

/// `i + 1`, but no further than the last of `len` entries.
fn inc_within_exec(i: usize, len: usize) -> (r: usize)
    requires
        i < usize::MAX,
    ensures
        r == inc_within(i, len as nat),
{
    let last = if len > 0 { len - 1 } else { 0 };
    if i + 1 <= last { i + 1 } else { last }
}

impl App {
    /// Whether no selection is at the largest index a machine word holds, so
    /// that moving down one entry can be computed.
    pub open spec fn counters_ok(&self) -> bool {
        &&& (self.artist_sel matches Some(i) ==> i < usize::MAX)
        &&& (self.album_sel matches Some(i) ==> i < usize::MAX)
        &&& (self.track_sel matches Some(i) ==> i < usize::MAX)
        &&& (self.queue_sel matches Some(i) ==> i < usize::MAX)
        &&& (self.albums_view_sel matches Some(i) ==> i < usize::MAX)
        &&& (self.playlists_list_sel matches Some(i) ==> i < usize::MAX)
        &&& (self.playlists_track_sel matches Some(i) ==> i < usize::MAX)
        &&& self.downloader.selected_index < usize::MAX
        &&& self.metadata_editor.selected_album < usize::MAX
        &&& self.metadata_editor.selected_track < usize::MAX
    }

    /// What moving needs of the artist and album selections: they index the
    /// library wherever the move reads them.
    pub open spec fn move_ok(&self, moved: App) -> bool {
        &&& self.library.shape_ok()
        &&& (self.focus == Focus::Album ==> self.artist_ok())
        &&& (self.focus == Focus::Track ==> self.artist_ok() && self.album_ok())
        &&& (cascades_after_move(*self) ==> moved.artist_ok())
    }

    /// Moves the selection of the focused pane up one entry (stopping at the
    /// first), then, in the player tab outside the queue, keeps the album
    /// and track selections within their lists.
    pub fn move_up(&mut self)
        requires
            old(self).move_ok(stepped_up(*old(self))),
        ensures
            *final(self) == (if cascades_after_move(*old(self)) {
                with_cascade(stepped_up(*old(self)))
            } else {
                stepped_up(*old(self))
            }),
    {
        match self.focus {
            Focus::Artist => if let Some(i) = self.artist_sel {
                self.artist_sel = Some(dec_exec(i));
                self.album_sel = Some(0);
                self.track_sel = Some(0);
            },
            Focus::Album => if let Some(i) = self.album_sel {
                self.album_sel = Some(dec_exec(i));
                self.track_sel = Some(0);
            },
            Focus::Track => if let Some(i) = self.track_sel {
                self.track_sel = Some(dec_exec(i));
            },
            Focus::Queue => if let Some(i) = self.queue_sel {
                self.queue_sel = Some(dec_exec(i));
            },
            Focus::AlbumsView => if let Some(i) = self.albums_view_sel {
                self.albums_view_sel = Some(dec_exec(i));
            },
            Focus::PlaylistsList => if let Some(i) = self.playlists_list_sel {
                self.playlists_list_sel = Some(dec_exec(i));
                self.playlists_track_sel = Some(0);
            },
            Focus::PlaylistsTracks => if let Some(i) = self.playlists_track_sel {
                self.playlists_track_sel = Some(dec_exec(i));
            },
            Focus::Downloader => {
                self.downloader.selected_index = dec_exec(self.downloader.selected_index);
            },
            Focus::MetadataAlbums => {
                self.metadata_editor.selected_album = dec_exec(self.metadata_editor.selected_album);
                self.metadata_editor.selected_track = 0;
            },
            Focus::MetadataTracks => {
                self.metadata_editor.selected_track = dec_exec(self.metadata_editor.selected_track);
            },
        }
        if self.active_tab == ActiveTab::Player && self.focus != Focus::Queue {
            self.update_cascading_selection();
        }
    }

    /// Moves the selection of the focused pane down one entry (stopping at
    /// the last; selecting the first when none was selected in the queue and
    /// playlist panes), then, in the player tab outside the queue, keeps the
    /// album and track selections within their lists.
    pub fn move_down(&mut self)
        requires
            old(self).counters_ok(),
            old(self).move_ok(stepped_down(*old(self))),
        ensures
            *final(self) == (if cascades_after_move(*old(self)) {
                with_cascade(stepped_down(*old(self)))
            } else {
                stepped_down(*old(self))
            }),
    {
        match self.focus {
            Focus::Artist => if let Some(i) = self.artist_sel {
                let next = inc_within_exec(i, self.library.artists.len());
                self.artist_sel = Some(next);
                self.album_sel = Some(0);
                self.track_sel = Some(0);
            },
            Focus::Album => if let Some(artist_idx) = self.artist_sel {
                if let Some(i) = self.album_sel {
                    let next = inc_within_exec(i, self.library.albums_by_artist[artist_idx].len());
                    self.album_sel = Some(next);
                    self.track_sel = Some(0);
                }
            },
            Focus::Track => if let Some(artist_idx) = self.artist_sel {
                if let Some(album_idx) = self.album_sel {
                    if let Some(i) = self.track_sel {
                        let len = self.library.tracks_by_album[artist_idx][album_idx].len();
                        self.track_sel = Some(inc_within_exec(i, len));
                    }
                }
            },
            Focus::Queue => if let Some(i) = self.queue_sel {
                self.queue_sel = Some(inc_within_exec(i, self.queue.len()));
            } else if self.queue.len() > 0 {
                self.queue_sel = Some(0);
            },
            Focus::AlbumsView => if let Some(i) = self.albums_view_sel {
                self.albums_view_sel = Some(inc_within_exec(i, self.library.all_albums.len()));
            },
            Focus::PlaylistsList => if let Some(i) = self.playlists_list_sel {
                self.playlists_list_sel = Some(inc_within_exec(i, self.playlists.lists.len()));
                self.playlists_track_sel = Some(0);
            } else if self.playlists.lists.len() > 0 {
                self.playlists_list_sel = Some(0);
            },
            Focus::PlaylistsTracks => if let Some(pl_idx) = self.playlists_list_sel {
                if pl_idx < self.playlists.lists.len() {
                    let len = self.playlists.lists[pl_idx].paths.len();
                    if let Some(i) = self.playlists_track_sel {
                        self.playlists_track_sel = Some(inc_within_exec(i, len));
                    } else if len > 0 {
                        self.playlists_track_sel = Some(0);
                    }
                }
            },
            Focus::Downloader => {
                let len = self.downloader.results.len();
                if len > 0 {
                    self.downloader.selected_index = inc_within_exec(self.downloader.selected_index, len);
                }
            },
            Focus::MetadataAlbums => {
                let len = self.metadata_editor.albums.len();
                if len > 0 {
                    self.metadata_editor.selected_album = inc_within_exec(self.metadata_editor.selected_album, len);
                    self.metadata_editor.selected_track = 0;
                }
            },
            Focus::MetadataTracks => {
                if self.metadata_editor.selected_album < self.metadata_editor.albums.len() {
                    let len = self.metadata_editor.albums[self.metadata_editor.selected_album].tracks.len();
                    if len > 0 {
                        self.metadata_editor.selected_track = inc_within_exec(self.metadata_editor.selected_track, len);
                    }
                }
            },
        }
        if self.active_tab == ActiveTab::Player && self.focus != Focus::Queue {
            self.update_cascading_selection();
        }
    }
}

impl App {
    /// Whether moving down reads the library only where the artist and
    /// album selections index it (`move_ok` of the step).
    pub fn can_move_down(&self) -> (b: bool)
        requires
            self.library.shape_ok(),
            self.counters_ok(),
        ensures
            b == self.move_ok(stepped_down(*self)),
    {
        let artist_in = match self.artist_sel {
            Some(i) => i < self.library.artists.len(),
            None => true,
        };
        let stepped_in = if self.focus == Focus::Artist {
            match self.artist_sel {
                Some(i) => inc_within_exec(i, self.library.artists.len()) < self.library.artists.len(),
                None => true,
            }
        } else {
            artist_in
        };
        (self.focus != Focus::Album || artist_in) && (self.focus != Focus::Track || self.selection_ok())
            && (!(self.active_tab == ActiveTab::Player && self.focus != Focus::Queue) || stepped_in)
    }

    /// Whether moving up reads the library only where the artist and album
    /// selections index it (`move_ok` of the step).
    pub fn can_move_up(&self) -> (b: bool)
        requires
            self.library.shape_ok(),
        ensures
            b == self.move_ok(stepped_up(*self)),
    {
        let artist_in = match self.artist_sel {
            Some(i) => i < self.library.artists.len(),
            None => true,
        };
        let stepped_in = if self.focus == Focus::Artist {
            match self.artist_sel {
                Some(i) => dec_exec(i) < self.library.artists.len(),
                None => true,
            }
        } else {
            artist_in
        };
        (self.focus != Focus::Album || artist_in) && (self.focus != Focus::Track || self.selection_ok())
            && (!(self.active_tab == ActiveTab::Player && self.focus != Focus::Queue) || stepped_in)
    }

    /// Whether reading the selected track reads the library only where the
    /// artist and album selections index it (`select_ok`).
    pub fn can_read_selection(&self) -> (b: bool)
        requires
            self.library.shape_ok(),
        ensures
            b == self.select_ok(),
    {
        let searching = match self.search_sel {
            Some(i) => self.modal == Modal::Search && i < self.search_results.len(),
            None => false,
        };
        if !searching && self.active_tab == ActiveTab::Player && self.focus == Focus::Track && self.track_sel.is_some() {
            self.selection_ok()
        } else {
            true
        }
    }
}

impl App {
    /// The track selected in the player tab's track pane, if any.
    pub open spec fn selected_track(&self) -> Option<TrackView> {
        match (self.artist_sel, self.album_sel, self.track_sel) {
            (Some(a), Some(b), Some(t)) => {
                let tracks = self.tracks_at(a as int, b as int);
                if t < tracks.len() { Some(tracks[t as int]@) } else { None }
            },
            _ => None,
        }
    }

    /// The search result selected in the open search dialog, if any.
    pub open spec fn search_choice(&self) -> Option<TrackView> {
        if self.modal == Modal::Search && self.search_sel is Some
            && self.search_sel->0 < self.search_results@.len() {
            Some(self.search_results@[self.search_sel->0 as int]@)
        } else {
            None
        }
    }

    /// The track the focused pane points at: while the search dialog has a
    /// result selected, that result (Enter in the dialog plays it, as the
    /// help says); otherwise the selected track or queue entry in the player
    /// tab, or the library track with the selected playlist path in the
    /// playlists tab.
    pub open spec fn selected_anywhere(&self) -> Option<TrackView> {
        if self.search_choice() is Some {
            self.search_choice()
        } else if self.active_tab == ActiveTab::Player {
            if self.focus == Focus::Track {
                self.selected_track()
            } else if self.focus == Focus::Queue {
                match self.queue_sel {
                    Some(i) => if i < self.queue@.len() { Some(self.queue@[i as int]@) } else { None },
                    None => None,
                }
            } else {
                None
            }
        } else if self.active_tab == ActiveTab::Playlists {
            if self.focus == Focus::PlaylistsTracks {
                match (self.playlists_list_sel, self.playlists_track_sel) {
                    (Some(p), Some(t)) => if p < self.playlists.lists@.len() && t < self.playlists.lists@[p as int].paths@.len() {
                        first_by_path(track_views(self.library.all_tracks@), self.playlists.lists@[p as int].paths@[t as int]@)
                    } else {
                        None
                    },
                    _ => None,
                }
            } else {
                None
            }
        } else {
            None
        }
    }

    /// What reading the selected track needs: the artist and album
    /// selections index the library where they are read (reading the track
    /// pane's track with them past the lists fails).
    pub open spec fn select_ok(&self) -> bool {
        &&& self.library.shape_ok()
        &&& (self.search_choice() is None && self.active_tab == ActiveTab::Player && self.focus == Focus::Track
            && self.track_sel is Some) ==> (self.artist_ok() && self.album_ok())
    }

    /// The track selected in the player tab's track pane.
    pub fn get_selected_track(&self) -> (r: Option<Track>)
        requires
            self.library.shape_ok(),
            self.track_sel is Some ==> self.artist_ok() && self.album_ok(),
        ensures
            opt_track_view(r) == self.selected_track(),
    {
        if let Some(artist_idx) = self.artist_sel {
            if let Some(album_idx) = self.album_sel {
                if let Some(track_idx) = self.track_sel {
                    let tracks = &self.library.tracks_by_album[artist_idx][album_idx];
                    if track_idx < tracks.len() {
                        return Some(tracks[track_idx].copy());
                    }
                }
            }
        }
        None
    }

    /// The track the focused pane points at.
    pub fn get_selected_track_anywhere(&self) -> (r: Option<Track>)
        requires
            self.select_ok(),
        ensures
            opt_track_view(r) == self.selected_anywhere(),
    {
        if self.modal == Modal::Search {
            if let Some(idx) = self.search_sel {
                if idx < self.search_results.len() {
                    return Some(self.search_results[idx].copy());
                }
            }
        }
        if self.active_tab == ActiveTab::Player {
            if self.focus == Focus::Track {
                return self.get_selected_track();
            } else if self.focus == Focus::Queue {
                if let Some(idx) = self.queue_sel {
                    if idx < self.queue.len() {
                        return Some(self.queue[idx].copy());
                    }
                }
            }
        } else if self.active_tab == ActiveTab::Playlists {
            if self.focus == Focus::PlaylistsTracks {
                if let Some(pl_idx) = self.playlists_list_sel {
                    if pl_idx < self.playlists.lists.len() {
                        if let Some(t_idx) = self.playlists_track_sel {
                            if t_idx < self.playlists.lists[pl_idx].paths.len() {
                                let path = &self.playlists.lists[pl_idx].paths[t_idx];
                                return match find_track_by_path(&self.library.all_tracks, path) {
                                    Some(i) => Some(self.library.all_tracks[i].copy()),
                                    None => None,
                                };
                            }
                        }
                    }
                }
            }
        }
        None
    }

    /// Records that `track` started playing: the track that was playing goes
    /// to the history, and any playback error is cleared.
    pub fn start_playing(&mut self, track: Track)
        ensures
            final(self).current_track == Some(track),
            final(self).error_msg is None,
            final(self).history@ == (match old(self).current_track {
                Some(c) => old(self).history@.push(c),
                None => old(self).history@,
            }),
            *final(self) == (App {
                current_track: final(self).current_track,
                error_msg: final(self).error_msg,
                history: final(self).history,
                ..*old(self)
            }),
            old(self).consistent() ==> final(self).consistent(),
    {
        if let Some(current) = self.current_track.take() {
            self.history.push(current);
        }
        self.current_track = Some(track);
        self.error_msg = None;
    }

    /// Records that a track could not be played, with the reason.
    pub fn playback_failed(&mut self, msg: String)
        ensures
            *final(self) == (App { error_msg: Some(msg), ..*old(self) }),
            old(self).consistent() ==> final(self).consistent(),
    {
        self.error_msg = Some(msg);
    }

    /// Takes the most recent track off the history, to play it again.
    pub fn play_previous(&mut self) -> (r: Option<Track>)
        ensures
            old(self).history@.len() == 0 ==> r is None && *final(self) == *old(self),
            old(self).history@.len() > 0 ==> r == Some(old(self).history@.last())
                && final(self).history@ == old(self).history@.drop_last()
                && *final(self) == (App { history: final(self).history, ..*old(self) }),
    {
        if self.history.len() == 0 {
            return None;
        }
        self.history.pop()
    }

    /// Drops the most recent entry of the history (after going back, the
    /// track that was playing is not kept as one to go back to).
    pub fn forget_last_history(&mut self)
        ensures
            old(self).history@.len() == 0 ==> *final(self) == *old(self),
            old(self).history@.len() > 0 ==> final(self).history@ == old(self).history@.drop_last()
                && *final(self) == (App { history: final(self).history, ..*old(self) }),
            old(self).consistent() ==> final(self).consistent(),
    {
        if self.history.len() > 0 {
            self.history.pop();
        }
    }

    /// In the playlists tab, deletes what the focused pane selects: the
    /// selected path of the selected playlist (then keeping the track
    /// selection within the list, or clearing it when the list became empty),
    /// or the selected playlist (then selecting the one before it and its
    /// first track). Gives whether something was deleted, so that the
    /// playlists are saved.
    pub fn delete_selected_playlist_track(&mut self) -> (changed: bool)
        ensures
            deleted_post(*old(self), *final(self), changed),
            old(self).playlists.wf() ==> final(self).playlists.wf(),
    {
        if self.active_tab == ActiveTab::Playlists {
            if self.focus == Focus::PlaylistsTracks {
                if let Some(pl_idx) = self.playlists_list_sel {
                    if pl_idx < self.playlists.lists.len() {
                        if let Some(t_idx) = self.playlists_track_sel {
                            if t_idx < self.playlists.lists[pl_idx].paths.len() {
                                self.playlists.remove_path(pl_idx, t_idx);
                                let len = self.playlists.lists[pl_idx].paths.len();
                                if len == 0 {
                                    self.playlists_track_sel = None;
                                } else if t_idx >= len {
                                    self.playlists_track_sel = Some(len - 1);
                                }
                                return true;
                            }
                        }
                    }
                }
            } else if self.focus == Focus::PlaylistsList {
                if let Some(pl_idx) = self.playlists_list_sel {
                    if pl_idx < self.playlists.lists.len() {
                        self.playlists.remove_list(pl_idx);
                        if self.playlists.lists.len() == 0 {
                            self.playlists_list_sel = None;
                        } else {
                            self.playlists_list_sel = Some(dec_exec(pl_idx));
                        }
                        self.playlists_track_sel = Some(0);
                        return true;
                    }
                }
            }
        }
        false
    }
}

/// What to do after the current track: play a track, stop, or nothing (no
/// track was playing).
pub enum NextStep {
    Play(Track),
    Stop,
    Idle,
}

/// Whether a track matches a lowercase search query: its title, artist or
/// album in lowercase, or its year, contains the query.
pub open spec fn matches_query(t: TrackView, q: Seq<char>) -> bool {
    contains_seq(lowercase_of(t.title), q) || contains_seq(lowercase_of(t.artist), q)
        || contains_seq(lowercase_of(t.album), q) || contains_seq(t.year, q)
}

/// `matches_query` as a function value.
pub open spec fn matches_query_fn(q: Seq<char>) -> spec_fn(TrackView) -> bool {
    |t: TrackView| matches_query(t, q)
}

/// The order of search results: by lowercase artist, lowercase album, track
/// number, lowercase title.
pub open spec fn search_key(t: TrackView) -> Seq<FieldView> {
    seq![
        FieldView::Text(lowercase_of(t.artist)),
        FieldView::Text(lowercase_of(t.album)),
        FieldView::Num(t.track_number),
        FieldView::Text(lowercase_of(t.title)),
    ]
}

/// `search_key` as a function value.
pub open spec fn search_key_fn() -> spec_fn(TrackView) -> Seq<FieldView> {
    |t: TrackView| search_key(t)
}

/// The view of the track of a key/track pair.
pub open spec fn pair_track_view() -> spec_fn((Vec<SortField>, Track)) -> TrackView {
    |p: (Vec<SortField>, Track)| p.1@
}

/// The position of the first entry of `tracks` with path `p`, if any.
pub open spec fn path_position(tracks: Seq<TrackView>, p: Seq<char>) -> Option<int> {
    if has_path(tracks, p) { Some(first_path_index(tracks, p)) } else { None }
}

/// What `delete_selected_playlist_track` does, `changed` telling whether
/// something was deleted: in the playlists tab, the selected path of the
/// selected playlist is removed (the track selection then kept within the
/// list, or cleared when it became empty), or the selected playlist is
/// removed (selecting the one before it and its first track); otherwise
/// nothing happens.
pub open spec fn deleted_post(o: App, n: App, changed: bool) -> bool {
    let lists = o.playlists.lists@;
    if o.active_tab == ActiveTab::Playlists && o.focus == Focus::PlaylistsTracks
        && o.playlists_list_sel is Some && o.playlists_list_sel->0 < lists.len()
        && o.playlists_track_sel is Some
        && o.playlists_track_sel->0 < lists[o.playlists_list_sel->0 as int].paths@.len() {
        let p = o.playlists_list_sel->0 as int;
        let t = o.playlists_track_sel->0;
        let left = (lists[p].paths@.len() - 1) as nat;
        &&& changed
        &&& n.playlists.lists@.len() == lists.len()
        &&& n.playlists.lists@[p].name == lists[p].name
        &&& n.playlists.lists@[p].paths@ == lists[p].paths@.remove(t as int)
        &&& forall|i: int| 0 <= i < lists.len() && i != p ==> n.playlists.lists@[i] == lists[i]
        &&& n.playlists_track_sel == (if left == 0 { None } else if t >= left { Some((left - 1) as usize) } else { Some(t) })
        &&& n == (App { playlists: n.playlists, playlists_track_sel: n.playlists_track_sel, ..o })
    } else if o.active_tab == ActiveTab::Playlists && o.focus == Focus::PlaylistsList
        && o.playlists_list_sel is Some && o.playlists_list_sel->0 < lists.len() {
        let p = o.playlists_list_sel->0;
        &&& changed
        &&& n.playlists.lists@ == lists.remove(p as int)
        &&& n.playlists_list_sel == (if lists.len() == 1 { None } else { Some(dec(p)) })
        &&& n.playlists_track_sel == Some(0usize)
        &&& n == (App {
            playlists: n.playlists,
            playlists_list_sel: n.playlists_list_sel,
            playlists_track_sel: n.playlists_track_sel,
            ..o
        })
    } else {
        !changed && n == o
    }
}

/// What `play_next` does: the first queued track is taken off the queue to
/// play; else the track after the current one in its album; else playback
/// stops and the current track goes to the history; with nothing playing,
/// nothing happens.
pub open spec fn play_next_post(o: App, n: App, r: NextStep) -> bool {
    if o.queue@.len() > 0 {
        &&& r == NextStep::Play(o.queue@[0])
        &&& n.queue@ == o.queue@.remove(0)
        &&& n == (App { queue: n.queue, ..o })
    } else if o.current_track is Some {
        let c = o.current_track->0;
        match o.next_after(c@, 0) {
            Some(t) => r is Play && r->Play_0@ == t && n == o,
            None => {
                &&& r is Stop
                &&& n.history@ == o.history@.push(c)
                &&& n == (App { current_track: None, history: n.history, ..o })
            },
        }
    } else {
        r is Idle && n == o
    }
}

/// The tracks of the album selected in the albums tab, if the selection is
/// one of the albums.
pub open spec fn selected_album_tracks(o: App) -> Option<Seq<TrackView>> {
    if o.albums_view_sel is Some && o.albums_view_sel->0 < o.library.all_albums@.len() {
        let pos = o.library.all_albums@[o.albums_view_sel->0 as int];
        Some(track_views(o.tracks_at(pos.0 as int, pos.1 as int)))
    } else {
        None
    }
}

/// The tab and focus after starting playback from a list: the player tab
/// with the track pane focused, unless in focused mode.
pub open spec fn shows_player(o: App, n: App) -> bool {
    &&& n.active_tab == (if o.is_focused_mode { o.active_tab } else { ActiveTab::Player })
    &&& n.focus == (if o.is_focused_mode { o.focus } else { Focus::Track })
}

/// What `play_selected_album` does: with an album with tracks selected in
/// the albums tab, its first track is to be played and the others replace
/// the queue (the first of them selected), and the player tab is shown
/// unless in focused mode; otherwise nothing happens.
pub open spec fn play_album_post(o: App, n: App, r: Option<Track>) -> bool {
    match selected_album_tracks(o) {
        Some(tracks) if tracks.len() > 0 => {
            &&& r is Some && r->0@ == tracks[0]
            &&& track_views(n.queue@) == tracks.drop_first()
            &&& n.queue_sel == (if tracks.len() > 1 { Some(0usize) } else { None })
            &&& shows_player(o, n)
            &&& n == (App {
                queue: n.queue,
                queue_sel: n.queue_sel,
                active_tab: n.active_tab,
                focus: n.focus,
                ..o
            })
        },
        _ => r is None && n == o,
    }
}

/// What `play_selected` does: the track the focused pane points at is to be
/// played, the queue is emptied, and the player tab is shown unless in
/// focused mode; in the albums tab the selected album is played.
pub open spec fn play_selected_post(o: App, n: App, r: Option<Track>) -> bool {
    match o.selected_anywhere() {
        Some(t) => {
            &&& r is Some && r->0@ == t
            &&& n.queue@.len() == 0
            &&& shows_player(o, n)
            &&& n == (App { queue: n.queue, active_tab: n.active_tab, focus: n.focus, ..o })
        },
        None => if o.focus == Focus::AlbumsView {
            play_album_post(o, n, r)
        } else {
            r is None && n == o
        },
    }
}

/// What `toggle_queue_selected` does: the track the focused pane points at
/// is taken off the queue (its first entry with that path) or appended to
/// it, selecting the first entry when none was selected; in the albums tab
/// the selected album is appended, and when nothing is playing or pending
/// the first queued track is taken off to play.
pub open spec fn toggle_queue_post(o: App, sink_empty: bool, n: App, r: Option<Track>) -> bool {
    let qv = track_views(o.queue@);
    match o.selected_anywhere() {
        Some(t) => {
            let nq = match path_position(qv, t.path) {
                Some(x) => qv.remove(x),
                None => qv.push(t),
            };
            &&& r is None
            &&& track_views(n.queue@) == nq
            &&& n.queue_sel == (if o.queue_sel is None && nq.len() > 0 { Some(0usize) } else { o.queue_sel })
            &&& n == (App { queue: n.queue, queue_sel: n.queue_sel, ..o })
        },
        None => match selected_album_tracks(o) {
            Some(tracks) if o.focus == Focus::AlbumsView => {
                let nq = qv + tracks;
                &&& (if sink_empty && o.current_track is None && nq.len() > 0 {
                    r is Some && r->0@ == nq[0] && track_views(n.queue@) == nq.drop_first()
                } else {
                    r is None && track_views(n.queue@) == nq
                })
                &&& n == (App { queue: n.queue, ..o })
            },
            _ => r is None && n == o,
        },
    }
}

/// What `update_search` does: with an empty lowercase query there are no
/// results; otherwise the results are the library's tracks that match it,
/// stably sorted by lowercase artist, album, track number and lowercase
/// title, with the first selected.
pub open spec fn search_updated(o: App, n: App) -> bool {
    let q = lowercase_of(o.search_query@);
    &&& (q.len() == 0 ==> n.search_results@.len() == 0 && n.search_sel is None)
    &&& (q.len() > 0 ==> is_key_sort_of(
        track_views(n.search_results@),
        track_views(o.library.all_tracks@).filter(matches_query_fn(q)),
        search_key_fn(),
    ) && n.search_sel == (if n.search_results@.len() > 0 { Some(0usize) } else { None }))
    &&& n == (App { search_results: n.search_results, search_sel: n.search_sel, ..o })
}

/// Takes the first track with `track`'s path out of `queue`, or appends
/// `track` when there is none.
fn toggle_track(queue: &mut Vec<Track>, track: Track)
    ensures
        track_views(final(queue)@) == (match path_position(track_views(old(queue)@), track@.path) {
            Some(x) => track_views(old(queue)@).remove(x),
            None => track_views(old(queue)@).push(track@),
        }),
{
    let ghost qv = track_views(queue@);
    match find_track_by_path(queue, &track.path) {
        Some(idx) => {
            queue.remove(idx);
            assert(track_views(queue@) =~= qv.remove(idx as int));
        },
        None => {
            queue.push(track);
            assert(track_views(queue@) =~= qv.push(track@));
        },
    }
}

impl App {
    /// Scanning the albums from position `k` on, artist by artist: the track
    /// that follows `c` in the first album of `c`'s artist that holds `c`'s
    /// path before its last track.
    pub open spec fn next_after(&self, c: TrackView, k: int) -> Option<TrackView>
        decreases self.library.all_albums@.len() - k,
    {
        if k < 0 || k >= self.library.all_albums@.len() {
            None
        } else {
            let pos = self.library.all_albums@[k];
            let tracks = track_views(self.tracks_at(pos.0 as int, pos.1 as int));
            let hit = if self.library.artists@[pos.0 as int]@ == c.artist {
                match path_position(tracks, c.path) {
                    Some(x) => if x + 1 < tracks.len() { Some(tracks[x + 1]) } else { None },
                    None => None,
                }
            } else {
                None
            };
            if hit is Some { hit } else { self.next_after(c, k + 1) }
        }
    }

    /// Decides what follows the current track: the first track of the queue
    /// (taken off the queue); else the next track of the current track's
    /// album; else stop, moving the current track to the history.
    pub fn play_next(&mut self) -> (r: NextStep)
        requires
            old(self).library.shape_ok(),
        ensures
            play_next_post(*old(self), *final(self), r),

    {
        if self.queue.len() > 0 {
            let next = self.queue.remove(0);
            return NextStep::Play(next);
        }
        if self.current_track.is_none() {
            return NextStep::Idle;
        }
        let ghost c = self.current_track->0@;
        let mut k: usize = 0;
        while k < self.library.all_albums.len()
            invariant
                self.library.shape_ok(),
                *self == *old(self),
                self.queue@.len() == 0,
                self.current_track is Some,
                c == self.current_track->0@,
                k <= self.library.all_albums@.len(),
                self.next_after(c, 0) == self.next_after(c, k as int),
            decreases self.library.all_albums@.len() - k,
        {
            let (i, j) = self.library.all_albums[k];
            let current = self.current_track.as_ref().unwrap();
            if text_eq(self.library.artists[i].as_str(), current.artist.as_str()) {
                let tracks = &self.library.tracks_by_album[i][j];
                if let Some(x) = find_track_by_path(tracks, &current.path) {
                    let n = tracks.len();
                    if x + 1 < n {
                        assert(self.next_after(c, k as int) == Some(track_views(tracks@)[x + 1]));
                        return NextStep::Play(tracks[x + 1].copy());
                    }
                }
            }
            k = k + 1;
        }
        let current = self.current_track.take().unwrap();
        self.history.push(current);
        NextStep::Stop
    }

    /// Plays the first track of the album selected in the albums tab and
    /// queues the rest of it (selecting the first queued track, if any), and
    /// shows the player tab unless in focused mode. Gives the track to play;
    /// nothing changes when no album with tracks is selected.
    pub fn play_selected_album(&mut self) -> (r: Option<Track>)
        requires
            old(self).library.shape_ok(),
        ensures
            play_album_post(*old(self), *final(self), r),

    {
        if let Some(idx) = self.albums_view_sel {
            if idx < self.library.all_albums.len() {
                let (i, j) = self.library.all_albums[idx];
                let tracks = &self.library.tracks_by_album[i][j];
                if tracks.len() > 0 {
                    let first = tracks[0].copy();
                    let rest = copy_tracks_from(tracks, 1);
                    proof {
                        assert(track_views(tracks@).skip(1) == track_views(tracks@).drop_first());
                    }
                    self.queue = rest;
                    self.queue_sel = if self.queue.len() > 0 { Some(0) } else { None };
                    if !self.is_focused_mode {
                        self.active_tab = ActiveTab::Player;
                        self.sync_focus_to_tab();
                    }
                    return Some(first);
                }
            }
        }
        None
    }

    /// Plays what the focused pane points at, after emptying the queue, and
    /// shows the player tab unless in focused mode; in the albums tab, plays
    /// the selected album. Gives the track to play.
    pub fn play_selected(&mut self) -> (r: Option<Track>)
        requires
            old(self).select_ok(),
        ensures
            play_selected_post(*old(self), *final(self), r),

    {
        if let Some(track) = self.get_selected_track_anywhere() {
            self.queue = Vec::new();
            if !self.is_focused_mode {
                self.active_tab = ActiveTab::Player;
                self.sync_focus_to_tab();
            }
            Some(track)
        } else if self.focus == Focus::AlbumsView {
            self.play_selected_album()
        } else {
            None
        }
    }

    /// Takes the first queued track with `track`'s path off the queue, or
    /// appends `track` when none is queued; selects the first queue entry
    /// when none was selected.
    fn toggle_in_queue(&mut self, track: Track)
        ensures
            ({
                let qv = track_views(old(self).queue@);
                let nq = match path_position(qv, track@.path) {
                    Some(x) => qv.remove(x),
                    None => qv.push(track@),
                };
                &&& track_views(final(self).queue@) == nq
                &&& final(self).queue_sel == (if old(self).queue_sel is None && nq.len() > 0 {
                    Some(0usize)
                } else {
                    old(self).queue_sel
                })
                &&& *final(self) == (App { queue: final(self).queue, queue_sel: final(self).queue_sel, ..*old(self) })
            }),
    {
        toggle_track(&mut self.queue, track);
        if self.queue_sel.is_none() && self.queue.len() > 0 {
            self.queue_sel = Some(0);
        }
    }

    /// Appends the album selected in the albums tab to the queue and, when
    /// nothing is playing or pending, takes the first queued track off to
    /// play.
    fn queue_selected_album(&mut self, sink_empty: bool) -> (r: Option<Track>)
        requires
            old(self).library.shape_ok(),
        ensures
            ({
                let o = *old(self);
                let qv = track_views(o.queue@);
                match selected_album_tracks(o) {
                    Some(tracks) => {
                        let nq = qv + tracks;
                        &&& (if sink_empty && o.current_track is None && nq.len() > 0 {
                            r is Some && r->0@ == nq[0] && track_views(final(self).queue@) == nq.drop_first()
                        } else {
                            r is None && track_views(final(self).queue@) == nq
                        })
                        &&& *final(self) == (App { queue: final(self).queue, ..o })
                    },
                    None => r is None && *final(self) == o,
                }
            }),
    {
        if let Some(idx) = self.albums_view_sel {
            if idx < self.library.all_albums.len() {
                let (i, j) = self.library.all_albums[idx];
                let ghost qv = track_views(self.queue@);
                let mut added = copy_tracks(&self.library.tracks_by_album[i][j]);
                let ghost av = track_views(added@);
                self.queue.append(&mut added);
                assert(track_views(self.queue@) =~= qv + av);
                if sink_empty && self.current_track.is_none() && self.queue.len() > 0 {
                    let t = self.queue.remove(0);
                    assert(track_views(self.queue@) =~= (qv + av).drop_first());
                    return Some(t);
                }
            }
        }
        None
    }

    /// Adds what the focused pane points at to the queue, or takes it off
    /// when a track with its path is queued (the first such), selecting the
    /// first queue entry when none was selected; in the albums tab, queues
    /// the whole selected album and, when nothing is playing or pending
    /// (`sink_empty`), takes the first queued track to play. Gives the track
    /// to play.
    pub fn toggle_queue_selected(&mut self, sink_empty: bool) -> (r: Option<Track>)
        requires
            old(self).select_ok(),
        ensures
            toggle_queue_post(*old(self), sink_empty, *final(self), r),

    {
        if let Some(track) = self.get_selected_track_anywhere() {
            self.toggle_in_queue(track);
            return None;
        }
        if self.focus == Focus::AlbumsView {
            self.queue_selected_album(sink_empty)
        } else {
            None
        }
    }

    /// Replaces the library after a rescan of the music directory; the
    /// selections are left as they were.
    pub fn reload_library(&mut self, library: Library)
        requires
            library.shape_ok(),
        ensures
            *final(self) == (App { library: library, ..*old(self) }),
            old(self).consistent() ==> final(self).consistent(),
    {
        self.library = library;
    }

    /// Refreshes the search results for the current query: with an empty
    /// (lowercase) query there are none; otherwise the tracks matching it,
    /// stably sorted by lowercase artist, album, track number and lowercase
    /// title, with the first selected.
    pub fn update_search(&mut self)
        ensures
            search_updated(*old(self), *final(self)),

    {
        broadcast use vstd::seq_lib::group_seq_properties;
        let q = to_lowercase(self.search_query.as_str());
        if q.as_str().is_empty() {
            self.search_results = Vec::new();
            self.search_sel = None;
            return;
        }
        let ghost tv = track_views(self.library.all_tracks@);
        let ghost pred = matches_query_fn(q@);
        let mut pairs: Vec<(Vec<SortField>, Track)> = Vec::new();
        let mut i: usize = 0;
        while i < self.library.all_tracks.len()
            invariant
                i <= self.library.all_tracks@.len(),
                tv == track_views(self.library.all_tracks@),
                pred == matches_query_fn(q@),
                pairs@.map_values(pair_track_view()) == tv.take(i as int).filter(pred),
                forall|k: int| 0 <= k < pairs@.len() ==> item_key(#[trigger] pairs@[k]) == search_key(pairs@[k].1@),
            decreases self.library.all_tracks@.len() - i,
        {
            let t = &self.library.all_tracks[i];
            assert(tv[i as int] == t@);
            assert(tv.take(i + 1) == tv.take(i as int).push(tv[i as int]));
            proof { tv.take(i as int).lemma_filter_push(tv[i as int], pred); }
            let title = to_lowercase(t.title.as_str());
            let artist = to_lowercase(t.artist.as_str());
            let album = to_lowercase(t.album.as_str());
            if contains(title.as_str(), q.as_str()) || contains(artist.as_str(), q.as_str())
                || contains(album.as_str(), q.as_str()) || contains(t.year.as_str(), q.as_str()) {
                let mut key: Vec<SortField> = Vec::new();
                key.push(SortField::Text(chars_of(artist.as_str())));
                key.push(SortField::Text(chars_of(album.as_str())));
                key.push(SortField::Num(t.track_number as u64));
                key.push(SortField::Text(chars_of(title.as_str())));
                assert(key_view(key@) =~= search_key(t@));
                let ghost before = pairs@;
                pairs.push((key, t.copy()));
                assert(pairs@.map_values(pair_track_view()) =~= before.map_values(pair_track_view()).push(t@));
            }
            i = i + 1;
        }
        assert(tv.take(self.library.all_tracks@.len() as int) == tv);
        let ghost unsorted = pairs@;
        let ghost f = pair_track_view();
        let sorted = sort_stable(pairs);
        let ghost sv = sorted@;
        proof {
            assert forall|k: int| 0 <= k < sv.len() implies item_key(#[trigger] sv[k]) == search_key_fn()(f(sv[k])) by {
                let w = choose|w: int| 0 <= w < unsorted.len() && unsorted[w] == sv[k];
            }
            lemma_sort_views(sv, unsorted, f, search_key_fn());
        }
        let results = strip_keys(sorted);
        assert(track_views(results@) =~= sv.map_values(f));
        self.search_results = results;
        self.search_sel = if self.search_results.len() > 0 { Some(0) } else { None };
    }
}

impl App {
    /// Whether the album at position `pos` is by track `c`'s artist and holds
    /// a track with `c`'s path.
    pub open spec fn holds_track(&self, pos: (usize, usize), c: TrackView) -> bool {
        &&& self.library.artists@[pos.0 as int]@ == c.artist
        &&& has_path(track_views(self.tracks_at(pos.0 as int, pos.1 as int)), c.path)
    }

    /// The album the current track is shown in when focused mode has no
    /// queue to show: the first album, in the albums tab's order, by the
    /// current track's artist that holds its path. Gives its position in
    /// `all_albums`.
    pub fn current_album(&self) -> (r: Option<usize>)
        requires
            self.library.shape_ok(),
        ensures
            match r {
                Some(k) => {
                    &&& k < self.library.all_albums@.len()
                    &&& self.current_track is Some
                    &&& self.holds_track(self.library.all_albums@[k as int], self.current_track->0@)
                    &&& forall|j: int| 0 <= j < k ==> !self.holds_track(
                        #[trigger] self.library.all_albums@[j],
                        self.current_track->0@,
                    )
                },
                None => self.current_track is None || forall|j: int| 0 <= j < self.library.all_albums@.len()
                    ==> !self.holds_track(#[trigger] self.library.all_albums@[j], self.current_track->0@),
            },
    {
        let current = match &self.current_track {
            Some(c) => c,
            None => return None,
        };
        let mut k: usize = 0;
        while k < self.library.all_albums.len()
            invariant
                self.library.shape_ok(),
                self.current_track == Some(*current),
                k <= self.library.all_albums@.len(),
                forall|j: int| 0 <= j < k ==> !self.holds_track(#[trigger] self.library.all_albums@[j], current@),
            decreases self.library.all_albums@.len() - k,
        {
            let (i, j) = self.library.all_albums[k];
            if text_eq(self.library.artists[i].as_str(), current.artist.as_str()) {
                if find_track_by_path(&self.library.tracks_by_album[i][j], &current.path).is_some() {
                    return Some(k);
                }
            }
            k = k + 1;
        }
        None
    }
}

/// How many of `paths` name a track of `tracks`: the entries the playlists
/// tab lists for a playlist.
pub open spec fn listed_count(tracks: Seq<TrackView>, paths: Seq<String>) -> nat
    decreases paths.len(),
{
    if paths.len() == 0 {
        0
    } else {
        listed_count(tracks, paths.drop_last()) + if has_path(tracks, paths.last()@) { 1nat } else { 0nat }
    }
}

/// The selections after the lists of the current tab have been drawn: a
/// list widget shows no selection when it is empty and its last entry when
/// the selection is past its end, and keeps that as its selection. The
/// player tab draws the artists, the selected artist's albums, the selected
/// album's tracks and the queue, in that order; the albums tab all albums;
/// the playlists tab the playlists and the selected playlist's tracks
/// found in the library; focused mode the queue when it is not empty.
pub open spec fn tab_lists_drawn(a: App) -> App {
    if a.is_focused_mode {
        if a.queue@.len() > 0 { App { queue_sel: clamped(a.queue_sel, a.queue@.len()), ..a } } else { a }
    } else {
        match a.active_tab {
            ActiveTab::Player => {
                let artist = clamped(a.artist_sel, a.library.artists@.len());
                let albums_len: nat = match artist {
                    Some(i) => a.albums_of(i as int).len(),
                    None => 0,
                };
                let album = clamped(a.album_sel, albums_len);
                let tracks_len: nat = match (artist, album) {
                    (Some(i), Some(j)) => a.tracks_at(i as int, j as int).len(),
                    _ => 0,
                };
                App {
                    artist_sel: artist,
                    album_sel: album,
                    track_sel: clamped(a.track_sel, tracks_len),
                    queue_sel: clamped(a.queue_sel, a.queue@.len()),
                    ..a
                }
            },
            ActiveTab::Albums => App { albums_view_sel: clamped(a.albums_view_sel, a.library.all_albums@.len()), ..a },
            ActiveTab::Playlists => {
                let list = clamped(a.playlists_list_sel, a.playlists.lists@.len());
                let count: nat = match list {
                    Some(p) => listed_count(track_views(a.library.all_tracks@), a.playlists.lists@[p as int].paths@),
                    None => 0,
                };
                App { playlists_list_sel: list, playlists_track_sel: clamped(a.playlists_track_sel, count), ..a }
            },
            _ => a,
        }
    }
}

/// The selections after the open dialog's list has been drawn too: the
/// search results, or the playlist chooser (its first entry being "new
/// playlist").
pub open spec fn lists_drawn(a: App) -> App {
    let t = tab_lists_drawn(a);
    match t.modal {
        Modal::Search => App { search_sel: clamped(t.search_sel, t.search_results@.len()), ..t },
        Modal::PlaylistSelect => App {
            playlist_select_sel: clamped(t.playlist_select_sel, t.playlists.lists@.len() + 1),
            ..t
        },
        _ => t,
    }
}

/// A selection kept within a list of `len` entries.
fn clamp_exec(sel: Option<usize>, len: usize) -> (r: Option<usize>)
    ensures
        r == clamped(sel, len as nat),
{
    match sel {
        Some(i) => if len == 0 { None } else if i >= len { Some(len - 1) } else { Some(i) },
        None => None,
    }
}

/// How many of `paths` name a track of `tracks`.
fn count_listed(tracks: &Vec<Track>, paths: &Vec<String>) -> (n: usize)
    ensures
        n == listed_count(track_views(tracks@), paths@),
{
    let mut n: usize = 0;
    let mut i: usize = 0;
    while i < paths.len()
        invariant
            i <= paths@.len(),
            n <= i,
            n == listed_count(track_views(tracks@), paths@.take(i as int)),
        decreases paths@.len() - i,
    {
        assert(paths@.take(i + 1).drop_last() =~= paths@.take(i as int));
        if find_track_by_path(tracks, &paths[i]).is_some() {
            n = n + 1;
        }
        i = i + 1;
    }
    assert(paths@.take(i as int) =~= paths@);
    n
}

impl App {
    /// Does to the selections what drawing the screen does to them: each
    /// list drawn (see `lists_drawn`) keeps its selection within its
    /// entries. The terminal loop calls it as it draws.
    pub fn draw_lists(&mut self)
        requires
            old(self).library.shape_ok(),
        ensures
            *final(self) == lists_drawn(*old(self)),
            old(self).consistent() ==> final(self).consistent(),
    {
        if self.is_focused_mode {
            if self.queue.len() > 0 {
                self.queue_sel = clamp_exec(self.queue_sel, self.queue.len());
            }
        } else {
            match self.active_tab {
                ActiveTab::Player => {
                    let artist = clamp_exec(self.artist_sel, self.library.artists.len());
                    let albums_len: usize = match artist {
                        Some(i) => self.library.albums_by_artist[i].len(),
                        None => 0,
                    };
                    let album = clamp_exec(self.album_sel, albums_len);
                    let tracks_len: usize = match (artist, album) {
                        (Some(i), Some(j)) => self.library.tracks_by_album[i][j].len(),
                        _ => 0,
                    };
                    self.track_sel = clamp_exec(self.track_sel, tracks_len);
                    self.artist_sel = artist;
                    self.album_sel = album;
                    self.queue_sel = clamp_exec(self.queue_sel, self.queue.len());
                },
                ActiveTab::Albums => {
                    self.albums_view_sel = clamp_exec(self.albums_view_sel, self.library.all_albums.len());
                },
                ActiveTab::Playlists => {
                    let list = clamp_exec(self.playlists_list_sel, self.playlists.lists.len());
                    let count: usize = match list {
                        Some(p) => count_listed(&self.library.all_tracks, &self.playlists.lists[p].paths),
                        None => 0,
                    };
                    self.playlists_list_sel = list;
                    self.playlists_track_sel = clamp_exec(self.playlists_track_sel, count);
                },
                _ => {},
            }
        }
        match self.modal {
            Modal::Search => {
                self.search_sel = clamp_exec(self.search_sel, self.search_results.len());
            },
            Modal::PlaylistSelect => {
                let len = self.playlists.lists.len();
                if len < usize::MAX {
                    self.playlist_select_sel = clamp_exec(self.playlist_select_sel, len + 1);
                }
            },
            _ => {},
        }
    }
}

/// Going to the next tab and then to the previous one (or the other way
/// round) comes back to the same tab, and five steps either way go round
/// all the tabs.
pub proof fn law_tabs_cycle(t: ActiveTab)
    ensures
        tab_before(tab_after(t)) == t,
        tab_after(tab_before(t)) == t,
        tab_after(tab_after(tab_after(tab_after(tab_after(t))))) == t,
        tab_before(tab_before(tab_before(tab_before(tab_before(t))))) == t,
{
}

/// Within a tab, focusing the next pane and then the previous one (or the
/// other way round) comes back to the same pane, for the panes of that tab.
pub proof fn law_focus_cycle(t: ActiveTab, f: Focus)
    requires
        t == ActiveTab::Player ==> (f == Focus::Artist || f == Focus::Album || f == Focus::Track || f == Focus::Queue),
        t == ActiveTab::Playlists ==> (f == Focus::PlaylistsList || f == Focus::PlaylistsTracks),
        t == ActiveTab::Metadata ==> (f == Focus::MetadataAlbums || f == Focus::MetadataTracks),
    ensures
        focus_before(t, focus_after(t, f)) == f,
        focus_after(t, focus_before(t, f)) == f,
{
}

/// Toggling the pointed-at track when no queue entry has its path appends it
/// to the queue (which then has a selection); toggling it again with the
/// same selection gives back the queue as it was.
pub proof fn law_toggle_queue_twice(o: App, m: App, n: App, sink_empty: bool, r1: Option<Track>, r2: Option<Track>)
    requires
        o.selected_anywhere() is Some,
        !has_path(track_views(o.queue@), o.selected_anywhere()->0.path),
        toggle_queue_post(o, sink_empty, m, r1),
        toggle_queue_post(m, sink_empty, n, r2),
    ensures
        track_views(m.queue@) == track_views(o.queue@).push(o.selected_anywhere()->0),
        m.queue_sel is Some,
        m.selected_anywhere() == o.selected_anywhere(),
        track_views(n.queue@) == track_views(o.queue@),
        r1 is None && r2 is None,
{
    let t = o.selected_anywhere()->0;
    let qv = track_views(o.queue@);
    if o.search_choice() is None && o.active_tab == ActiveTab::Player && o.focus == Focus::Queue {
        let i = o.queue_sel->0 as int;
        assert(qv[i] == o.queue@[i]@);
        assert(qv[i].path == t.path);
        assert(has_path(qv, t.path));
    }
    assert(path_position(qv, t.path) is None);
    let mq = qv.push(t);
    assert(track_views(m.queue@) == mq);
    assert(m.search_choice() == o.search_choice());
    assert(m.selected_anywhere() == o.selected_anywhere());
    assert(mq[qv.len() as int].path == t.path);
    assert(has_path(mq, t.path));
    let x = first_path_index(mq, t.path);
    assert(0 <= x < mq.len() && mq[x].path == t.path && forall|j: int| 0 <= j < x ==> mq[j].path != t.path);
    if x < qv.len() {
        assert(qv[x].path == t.path);
        assert(has_path(qv, t.path));
    }
    assert(x == qv.len());
    assert(mq.remove(x) =~= qv);
}

/// Going back right after a track started playing gives the track that
/// was playing before it, and leaves the history as it was.
pub proof fn law_previous_after_start(o: App, t: Track, m: App, n: App, r: Option<Track>)
    requires
        o.current_track is Some,
        m.current_track == Some(t),
        m.history@ == o.history@.push(o.current_track->0),
        m == (App { current_track: m.current_track, error_msg: m.error_msg, history: m.history, ..o }),
        m.history@.len() > 0 ==> r == Some(m.history@.last()) && n.history@ == m.history@.drop_last()
            && n == (App { history: n.history, ..m }),
    ensures
        r == o.current_track,
        n.history@ == o.history@,
        n.current_track == Some(t),
{
    assert(m.history@.drop_last() =~= o.history@);
}

/// In the queue, moving down and then up comes back to the same entry when
/// it is not the last.
pub proof fn law_queue_down_up(o: App)
    requires
        o.focus == Focus::Queue,
        o.queue_sel matches Some(i) && i + 1 < o.queue@.len(),
    ensures
        stepped_up(stepped_down(o)).queue_sel == o.queue_sel,
{
    let i = o.queue_sel->0;
    assert(o.queue.len() == o.queue@.len());
    assert(inc_within(i, o.queue@.len()) == i + 1);
    assert(stepped_down(o).focus == Focus::Queue);
    assert(stepped_down(o).queue_sel == Some((i + 1) as usize));
    assert(dec((i + 1) as usize) == i);
}

/// The search results are exactly the library's tracks that match the
/// lowercase query: a track of the library is among the results exactly
/// when its lowercase title, lowercase artist or lowercase album, or its
/// year, contains the query.
pub proof fn law_search_finds_matches(o: App, n: App, t: TrackView)
    requires
        search_updated(o, n),
        lowercase_of(o.search_query@).len() > 0,
    ensures
        track_views(n.search_results@).contains(t) <==> (
            track_views(o.library.all_tracks@).contains(t) && (
                contains_seq(lowercase_of(t.title), lowercase_of(o.search_query@))
                || contains_seq(lowercase_of(t.artist), lowercase_of(o.search_query@))
                || contains_seq(lowercase_of(t.album), lowercase_of(o.search_query@))
                || contains_seq(t.year, lowercase_of(o.search_query@))
            )
        ),
{
    let q = lowercase_of(o.search_query@);
    let all = track_views(o.library.all_tracks@);
    let pred = matches_query_fn(q);
    let b = all.filter(pred);
    let a = track_views(n.search_results@);
    let k = search_key(t);
    let hk = has_key_by(search_key_fn(), k);
    assert(a.filter(hk) == b.filter(hk));
    if a.contains(t) {
        let i = choose|i: int| 0 <= i < a.len() && a[i] == t;
        a.lemma_filter_contains(hk, i);
        b.lemma_filter_contains_rev(hk, t);
        all.lemma_filter_contains_rev(pred, t);
        let j = choose|j: int| 0 <= j < b.len() && b[j] == t;
        all.lemma_filter_pred(pred, j);
    }
    if all.contains(t) && matches_query(t, q) {
        let i = choose|i: int| 0 <= i < all.len() && all[i] == t;
        all.lemma_filter_contains(pred, i);
        let j = choose|j: int| 0 <= j < b.len() && b[j] == t;
        b.lemma_filter_contains(hk, j);
        a.lemma_filter_contains_rev(hk, t);
    }
}

/// The search results come ordered by lowercase artist, then lowercase
/// album, then track number, then lowercase title.
pub proof fn law_search_results_order(o: App, n: App, p: int, q: int)
    requires
        search_updated(o, n),
        lowercase_of(o.search_query@).len() > 0,
        0 <= p < q < n.search_results@.len(),
    ensures
        !crate::order::text_lt(lowercase_of(n.search_results@[q].artist@), lowercase_of(n.search_results@[p].artist@)),
        lowercase_of(n.search_results@[q].artist@) == lowercase_of(n.search_results@[p].artist@) ==>
            !crate::order::text_lt(lowercase_of(n.search_results@[q].album@), lowercase_of(n.search_results@[p].album@)),
        lowercase_of(n.search_results@[q].artist@) == lowercase_of(n.search_results@[p].artist@)
            && lowercase_of(n.search_results@[q].album@) == lowercase_of(n.search_results@[p].album@) ==>
            n.search_results@[p].track_number <= n.search_results@[q].track_number,
        lowercase_of(n.search_results@[q].artist@) == lowercase_of(n.search_results@[p].artist@)
            && lowercase_of(n.search_results@[q].album@) == lowercase_of(n.search_results@[p].album@)
            && n.search_results@[p].track_number == n.search_results@[q].track_number ==>
            !crate::order::text_lt(lowercase_of(n.search_results@[q].title@), lowercase_of(n.search_results@[p].title@)),
{
    let v = track_views(n.search_results@);
    let a = v[p];
    let b = v[q];
    assert(a == n.search_results@[p]@ && b == n.search_results@[q]@);
    assert(!crate::order::key_lt(search_key_fn()(b), search_key_fn()(a)));
    let ka = search_key(a);
    let kb = search_key(b);
    let a1 = FieldView::Text(lowercase_of(a.artist));
    let a2 = FieldView::Text(lowercase_of(a.album));
    let a3 = FieldView::Num(a.track_number);
    let a4 = FieldView::Text(lowercase_of(a.title));
    let b1 = FieldView::Text(lowercase_of(b.artist));
    let b2 = FieldView::Text(lowercase_of(b.album));
    let b3 = FieldView::Num(b.track_number);
    let b4 = FieldView::Text(lowercase_of(b.title));
    let e = Seq::<FieldView>::empty();
    assert(ka =~= seq![a1] + (seq![a2] + (seq![a3] + (seq![a4] + e))));
    assert(kb =~= seq![b1] + (seq![b2] + (seq![b3] + (seq![b4] + e))));
    crate::order::lemma_key_lt_cons(b1, seq![b2] + (seq![b3] + (seq![b4] + e)), a1, seq![a2] + (seq![a3] + (seq![a4] + e)));
    crate::order::lemma_key_lt_cons(b2, seq![b3] + (seq![b4] + e), a2, seq![a3] + (seq![a4] + e));
    crate::order::lemma_key_lt_cons(b3, seq![b4] + e, a3, seq![a4] + e);
    crate::order::lemma_key_lt_cons(b4, e, a4, e);
    crate::order::lemma_text_lt_irreflexive(lowercase_of(b.artist));
    crate::order::lemma_text_lt_irreflexive(lowercase_of(b.album));
    crate::order::lemma_text_lt_irreflexive(lowercase_of(b.title));
}

proof fn lemma_next_after_found(a: App, c: TrackView, k: int)
    requires
        a.next_after(c, k) is Some,
    ensures
        exists|m: int, x: int| #![trigger a.library.all_albums@[m], track_views(a.tracks_at(a.library.all_albums@[m].0 as int, a.library.all_albums@[m].1 as int))[x]]
            k <= m < a.library.all_albums@.len() && {
            let pos = a.library.all_albums@[m];
            let tracks = track_views(a.tracks_at(pos.0 as int, pos.1 as int));
            &&& a.library.artists@[pos.0 as int]@ == c.artist
            &&& 0 <= x && x + 1 < tracks.len()
            &&& tracks[x].path == c.path
            &&& tracks[x + 1] == a.next_after(c, k)->0
        },
    decreases a.library.all_albums@.len() - k,
{
    let pos = a.library.all_albums@[k];
    let tracks = track_views(a.tracks_at(pos.0 as int, pos.1 as int));
    let hit = if a.library.artists@[pos.0 as int]@ == c.artist {
        match path_position(tracks, c.path) {
            Some(x) => if x + 1 < tracks.len() { Some(tracks[x + 1]) } else { None },
            None => None,
        }
    } else {
        None
    };
    if hit is Some {
        let x = first_path_index(tracks, c.path);
        let w = choose|i: int| 0 <= i < tracks.len() && tracks[i].path == c.path;
        crate::library::lemma_first_path_exists(tracks, c.path, w);
        assert(tracks[x].path == c.path);
        assert(a.next_after(c, k) == hit);
    } else {
        lemma_next_after_found(a, c, k + 1);
    }
}

/// What plays next: the first queued track, taken off the queue; with an
/// empty queue and a track playing, a track that comes right after the
/// playing one (same path) in one of its artist's albums, or else nothing,
/// the playing track then going to the history; with nothing queued or
/// playing, nothing changes.
pub proof fn law_next_track(o: App, n: App, r: NextStep)
    requires
        play_next_post(o, n, r),
    ensures
        o.queue@.len() > 0 ==> r == NextStep::Play(o.queue@[0]) && n.queue@ == o.queue@.subrange(1, o.queue@.len() as int),
        o.queue@.len() == 0 && o.current_track is None ==> r is Idle && n == o,
        o.queue@.len() == 0 && r is Play ==> exists|m: int, x: int|
            #![trigger o.library.all_albums@[m], track_views(o.tracks_at(o.library.all_albums@[m].0 as int, o.library.all_albums@[m].1 as int))[x]]
            0 <= m < o.library.all_albums@.len() && {
            let pos = o.library.all_albums@[m];
            let tracks = track_views(o.tracks_at(pos.0 as int, pos.1 as int));
            &&& o.library.artists@[pos.0 as int]@ == o.current_track->0.artist@
            &&& 0 <= x && x + 1 < tracks.len()
            &&& tracks[x].path == o.current_track->0.path@
            &&& tracks[x + 1] == r->Play_0@
        },
        r is Stop ==> o.queue@.len() == 0 && n.current_track is None && n.history@ == o.history@.push(o.current_track->0),
{
    if o.queue@.len() > 0 {
        assert(o.queue@.remove(0) =~= o.queue@.subrange(1, o.queue@.len() as int));
    } else if o.current_track is Some && r is Play {
        let c = o.current_track->0@;
        lemma_next_after_found(o, c, 0);
    }
}

} // verus!
