//! The music library: tracks read from the music directory, and the index by
//! artist and album that the player browses.

use vstd::prelude::*;
use crate::lyrics::{LyricLine, LyricView, lyric_views, copy_lyrics};
use crate::order::{
    SortField, FieldView, sort_stable, strip_keys, item_key, key_view, lemma_sort_views, is_key_sort_of, distinct_by,
};
use crate::text::{
    chars_of, string_of, to_lowercase, to_uppercase, lowercase_of, uppercase_of, trim, trim_seq,
    text_eq, signed_decimal, signed_decimal_seq, copy_string,
};

verus! {

/// A playable track of the library.
pub struct Track {
    pub path: String,
    pub title: String,
    pub artist: String,
    pub album: String,
    pub year: String,
    pub track_number: u16,
    pub file_type: String,
    pub file_size: u64,
    pub lyrics: Vec<LyricLine>,
}

/// The mathematical value of a track.
pub struct TrackView {
    pub path: Seq<char>,
    pub title: Seq<char>,
    pub artist: Seq<char>,
    pub album: Seq<char>,
    pub year: Seq<char>,
    pub track_number: nat,
    pub file_type: Seq<char>,
    pub file_size: nat,
    pub lyrics: Seq<LyricView>,
}

impl View for Track {
    type V = TrackView;

    open spec fn view(&self) -> TrackView {
        TrackView {
            path: self.path@,
            title: self.title@,
            artist: self.artist@,
            album: self.album@,
            year: self.year@,
            track_number: self.track_number as nat,
            file_type: self.file_type@,
            file_size: self.file_size as nat,
            lyrics: lyric_views(self.lyrics@),
        }
    }
}

/// The views of a sequence of tracks.
pub open spec fn track_views(s: Seq<Track>) -> Seq<TrackView> {
    s.map_values(|t: Track| t@)
}

impl Track {
    /// A copy of this track.
    pub fn copy(&self) -> (r: Track)
        ensures
            r@ == self@,
    {
        Track {
            path: copy_string(&self.path),
            title: copy_string(&self.title),
            artist: copy_string(&self.artist),
            album: copy_string(&self.album),
            year: copy_string(&self.year),
            track_number: self.track_number,
            file_type: copy_string(&self.file_type),
            file_size: self.file_size,
            lyrics: copy_lyrics(&self.lyrics),
        }
    }
}

/// A copy of a list of tracks.
pub fn copy_tracks(v: &Vec<Track>) -> (r: Vec<Track>)
    ensures
        track_views(r@) == track_views(v@),
{
    let mut r: Vec<Track> = Vec::new();
    let mut i: usize = 0;
    while i < v.len()
        invariant
            i <= v.len(),
            track_views(r@) == track_views(v@.take(i as int)),
        decreases v.len() - i,
    {
        let ghost before = r@;
        r.push(v[i].copy());
        assert(track_views(r@) =~= track_views(before).push(v@[i as int]@));
        assert(v@.take(i + 1) == v@.take(i as int).push(v@[i as int]));
        assert(track_views(v@.take(i + 1)) =~= track_views(v@.take(i as int)).push(v@[i as int]@));
        i = i + 1;
    }
    assert(v@.take(v.len() as int) == v@);
    r
}

/// The tags read from an audio file, each of them possibly missing (all of
/// them when the file's tags could not be read).
pub struct TrackTags {
    pub title: Option<String>,
    pub artist: Option<String>,
    pub album: Option<String>,
    pub year: Option<i32>,
    pub track_number: Option<u16>,
}

/// The file extensions of playable tracks.
pub open spec fn is_supported_ext_seq(lower: Seq<char>) -> bool {
    lower == seq!['m', 'p', '3'] || lower == seq!['f', 'l', 'a', 'c'] || lower == seq!['w', 'a', 'v']
        || lower == seq!['m', '4', 'a']
}

/// Whether a file with this extension is a playable track: the extension in
/// lowercase is `mp3`, `flac`, `wav` or `m4a`.
pub fn is_supported_extension(ext: &str) -> (b: bool)
    ensures
        b == is_supported_ext_seq(lowercase_of(ext@)),
{
    let lower = to_lowercase(ext);
    let l = chars_of(lower.as_str());
    let mp3: Vec<char> = vec!['m', 'p', '3'];
    let flac: Vec<char> = vec!['f', 'l', 'a', 'c'];
    let wav: Vec<char> = vec!['w', 'a', 'v'];
    let m4a: Vec<char> = vec!['m', '4', 'a'];
    crate::text::chars_equal(&l, &mp3) || crate::text::chars_equal(&l, &flac)
        || crate::text::chars_equal(&l, &wav) || crate::text::chars_equal(&l, &m4a)
}

/// The text of a string literal given as characters.
pub open spec fn unknown_artist() -> Seq<char> {
    seq!['U', 'n', 'k', 'n', 'o', 'w', 'n', ' ', 'A', 'r', 't', 'i', 's', 't']
}

/// The album name given to tracks without one.
pub open spec fn unknown_album() -> Seq<char> {
    seq!['U', 'n', 'k', 'n', 'o', 'w', 'n', ' ', 'A', 'l', 'b', 'u', 'm']
}

/// The year shown for tracks without one.
pub open spec fn no_year() -> Seq<char> {
    seq!['-', '-', '-', '-']
}

/// A string holding `s`.
fn literal(s: &Vec<char>) -> (r: String)
    ensures
        r@ == s@,
{
    string_of(s)
}

/// The track for an audio file: its tags where present; otherwise the file
/// stem as title, "Unknown Artist", "Unknown Album", the year "----" and
/// track number 0. Its type is the extension in uppercase.
pub fn track_from_tags(
    path: String,
    ext: &str,
    stem: String,
    tags: TrackTags,
    file_size: u64,
    lyrics: Vec<LyricLine>,
) -> (t: Track)
    ensures
        t.path@ == path@,
        t.title@ == (match tags.title { Some(x) => x@, None => stem@ }),
        t.artist@ == (match tags.artist { Some(x) => x@, None => unknown_artist() }),
        t.album@ == (match tags.album { Some(x) => x@, None => unknown_album() }),
        t.year@ == (match tags.year { Some(y) => signed_decimal_seq(y as int), None => no_year() }),
        t.track_number == (match tags.track_number { Some(n) => n, None => 0 }),
        t.file_type@ == uppercase_of(ext@),
        t.file_size == file_size,
        t.lyrics@ == lyrics@,
{
    let title = match tags.title { Some(x) => x, None => stem };
    let artist = match tags.artist {
        Some(x) => x,
        None => literal(&vec!['U', 'n', 'k', 'n', 'o', 'w', 'n', ' ', 'A', 'r', 't', 'i', 's', 't']),
    };
    let album = match tags.album {
        Some(x) => x,
        None => literal(&vec!['U', 'n', 'k', 'n', 'o', 'w', 'n', ' ', 'A', 'l', 'b', 'u', 'm']),
    };
    let year = match tags.year {
        Some(y) => signed_decimal(y as i64),
        None => literal(&vec!['-', '-', '-', '-']),
    };
    let track_number = match tags.track_number { Some(n) => n, None => 0 };
    Track {
        path,
        title,
        artist,
        album,
        year,
        track_number,
        file_type: to_uppercase(ext),
        file_size,
        lyrics,
    }
}

/// The name under which the player lists a track's album: the album name,
/// prefixed with `[year] ` unless the year is empty or (trimmed) "----".
pub open spec fn album_display_seq(t: TrackView) -> Seq<char> {
    if trim_seq(t.year) == no_year() || t.year.len() == 0 {
        t.album
    } else {
        seq!['['] + t.year + seq![']', ' '] + t.album
    }
}

/// The name under which the player lists a track's album.
pub fn album_display(t: &Track) -> (r: String)
    ensures
        r@ == album_display_seq(t@),
{
    let trimmed = trim(t.year.as_str());
    let dashes = literal(&vec!['-', '-', '-', '-']);
    if text_eq(trimmed.as_str(), dashes.as_str()) || t.year.as_str().is_empty() {
        return copy_string(&t.album);
    }
    let mut v: Vec<char> = Vec::new();
    v.push('[');
    let y = chars_of(t.year.as_str());
    let mut i: usize = 0;
    while i < y.len()
        invariant
            i <= y.len(),
            v@ == seq!['['] + y@.take(i as int),
        decreases y.len() - i,
    {
        v.push(y[i]);
        assert(y@.take(i + 1) == y@.take(i as int).push(y@[i as int]));
        i = i + 1;
    }
    assert(y@.take(y.len() as int) == y@);
    v.push(']');
    v.push(' ');
    let a = chars_of(t.album.as_str());
    let mut k: usize = 0;
    let ghost head = v@;
    while k < a.len()
        invariant
            k <= a.len(),
            v@ == head + a@.take(k as int),
        decreases a.len() - k,
    {
        v.push(a[k]);
        assert(a@.take(k + 1) == a@.take(k as int).push(a@[k as int]));
        k = k + 1;
    }
    assert(a@.take(a.len() as int) == a@);
    assert(v@ =~= seq!['['] + t.year@ + seq![']', ' '] + t.album@);
    string_of(&v)
}

/// The views of a sequence of strings.
pub open spec fn string_views(s: Seq<String>) -> Seq<Seq<char>> {
    s.map_values(|x: String| x@)
}

/// Whether no two entries are equal.
pub open spec fn distinct_views(s: Seq<Seq<char>>) -> bool {
    forall|i: int, j: int| 0 <= i < j < s.len() ==> s[i] != s[j]
}

/// The key under which names are listed: their lowercase form.
pub open spec fn lower_key(s: Seq<char>) -> Seq<FieldView> {
    seq![FieldView::Text(lowercase_of(s))]
}

/// `lower_key` as a function value.
pub open spec fn lower_key_fn() -> spec_fn(Seq<char>) -> Seq<FieldView> {
    |s: Seq<char>| lower_key(s)
}

/// The key of a name ordered as it is written.
pub open spec fn exact_key(s: Seq<char>) -> Seq<FieldView> {
    seq![FieldView::Text(s)]
}

/// The key of a name: its lowercase form when `lower`, else the name itself.
pub open spec fn name_key_fn(lower: bool) -> spec_fn(Seq<char>) -> Seq<FieldView> {
    if lower { lower_key_fn() } else { |s: Seq<char>| exact_key(s) }
}

/// The key under which the tracks of an album are listed: track number, then
/// lowercase title.
pub open spec fn track_key(t: TrackView) -> Seq<FieldView> {
    seq![FieldView::Num(t.track_number), FieldView::Text(lowercase_of(t.title))]
}

/// `track_key` as a function value.
pub open spec fn track_key_fn() -> spec_fn(TrackView) -> Seq<FieldView> {
    |t: TrackView| track_key(t)
}

/// The view of the string of a key/string pair.
pub open spec fn pair_string() -> spec_fn((Vec<SortField>, String)) -> Seq<char> {
    |p: (Vec<SortField>, String)| p.1@
}

/// The view of the track of a key/track pair.
pub open spec fn pair_track() -> spec_fn((Vec<SortField>, Track)) -> TrackView {
    |p: (Vec<SortField>, Track)| p.1@
}

proof fn lemma_strip_views<T, V>(pairs: Seq<(Vec<SortField>, T)>, items: Seq<T>, view: spec_fn(T) -> V, f: spec_fn((Vec<SortField>, T)) -> V)
    requires
        items == pairs.map_values(|p: (Vec<SortField>, T)| p.1),
        forall|p: (Vec<SortField>, T)| #[trigger] f(p) == view(p.1),
    ensures
        items.map_values(view) == pairs.map_values(f),
{
    assert(items.map_values(view) =~= pairs.map_values(f));
}

/// Sorts names by their lowercase form (when `lower`) or as written, keeping
/// the given order among names with the same key.
pub fn sort_names(v: Vec<String>, lower: bool) -> (r: Vec<String>)
    ensures
        is_key_sort_of(string_views(r@), string_views(v@), name_key_fn(lower)),
        forall|i: int| 0 <= i < r@.len() ==> string_views(v@).contains(#[trigger] string_views(r@)[i]),
        forall|w: int| 0 <= w < v@.len() ==> string_views(r@).contains(#[trigger] string_views(v@)[w]),
        distinct_views(string_views(v@)) ==> distinct_views(string_views(r@)),
{
    let ghost orig = v@;
    let total = v.len();
    let mut rest = v;
    let mut pairs: Vec<(Vec<SortField>, String)> = Vec::new();
    let mut n: usize = 0;
    while rest.len() > 0
        invariant
            n + rest@.len() == orig.len(),
            orig.len() == total,
            rest@ == orig.skip(n as int),
            pairs@.len() == n,
            forall|q: int| 0 <= q < n ==> (#[trigger] pairs@[q]).1 == orig[q],
            forall|q: int| 0 <= q < n ==> item_key(#[trigger] pairs@[q]) == name_key_fn(lower)(pairs@[q].1@),
        decreases rest@.len(),
    {
        let s = rest.remove(0);
        assert(s == orig[n as int]);
        let mut key: Vec<SortField> = Vec::new();
        if lower {
            let lc = to_lowercase(s.as_str());
            key.push(SortField::Text(chars_of(lc.as_str())));
        } else {
            key.push(SortField::Text(chars_of(s.as_str())));
        }
        assert(key_view(key@) =~= name_key_fn(lower)(s@));
        pairs.push((key, s));
        n = n + 1;
    }
    let ghost unsorted = pairs@;
    let ghost f = pair_string();
    assert(unsorted.map_values(f) =~= string_views(orig));
    let sorted = sort_stable(pairs);
    let ghost sv = sorted@;
    proof {
        assert forall|q: int| 0 <= q < sv.len() implies item_key(#[trigger] sv[q]) == name_key_fn(lower)(f(sv[q])) by {
            let w = choose|w: int| 0 <= w < unsorted.len() && unsorted[w] == sv[q];
        }
        lemma_sort_views(sv, unsorted, f, name_key_fn(lower));
    }
    let r = strip_keys(sorted);
    proof {
        lemma_strip_views(sv, r@, |x: String| x@, f);
        assert(string_views(r@) == sv.map_values(f));
        assert forall|i: int| 0 <= i < r@.len() implies string_views(orig).contains(#[trigger] string_views(r@)[i]) by {
            let w = choose|w: int| 0 <= w < unsorted.len() && unsorted[w] == sv[i];
            assert(string_views(orig)[w] == f(sv[i]));
        }
        assert forall|w: int| 0 <= w < orig.len() implies string_views(r@).contains(#[trigger] string_views(orig)[w]) by {
            assert(sv.contains(unsorted[w]));
            let i = choose|i: int| 0 <= i < sv.len() && sv[i] == unsorted[w];
            assert(string_views(r@)[i] == f(unsorted[w]));
        }
        if distinct_views(string_views(orig)) {
            let vw = |x: String| x@;
            assert forall|i: int, j: int| 0 <= i < j < unsorted.len() implies vw((#[trigger] unsorted[i]).1) != vw((#[trigger] unsorted[j]).1) by {
                assert(string_views(orig)[i] == orig[i]@);
                assert(string_views(orig)[j] == orig[j]@);
            }
            assert(distinct_by(unsorted, vw));
            assert forall|i: int, j: int| 0 <= i < j < r@.len() implies string_views(r@)[i] != string_views(r@)[j] by {
                assert(string_views(r@)[i] == vw(sv[i].1));
                assert(string_views(r@)[j] == vw(sv[j].1));
            }

        }
    }
    r
}

/// The key of a track, as sorted within its album.
fn track_sort_key(t: &Track) -> (k: Vec<SortField>)
    ensures
        key_view(k@) == track_key(t@),
{
    let lower = to_lowercase(t.title.as_str());
    let mut key: Vec<SortField> = Vec::new();
    key.push(SortField::Num(t.track_number as u64));
    key.push(SortField::Text(chars_of(lower.as_str())));
    assert(key_view(key@) =~= track_key(t@));
    key
}

/// Sorts tracks by track number and then lowercase title, keeping the given
/// order among tracks with equal keys.
pub fn sort_tracks(v: Vec<Track>) -> (r: Vec<Track>)
    ensures
        is_key_sort_of(track_views(r@), track_views(v@), track_key_fn()),
{
    let ghost orig = v@;
    let total = v.len();
    let mut rest = v;
    let mut pairs: Vec<(Vec<SortField>, Track)> = Vec::new();
    let mut n: usize = 0;
    while rest.len() > 0
        invariant
            n + rest@.len() == orig.len(),
            orig.len() == total,
            rest@ == orig.skip(n as int),
            pairs@.len() == n,
            forall|q: int| 0 <= q < n ==> (#[trigger] pairs@[q]).1 == orig[q],
            forall|q: int| 0 <= q < n ==> item_key(#[trigger] pairs@[q]) == track_key(pairs@[q].1@),
        decreases rest@.len(),
    {
        let t = rest.remove(0);
        assert(t == orig[n as int]);
        let key = track_sort_key(&t);
        pairs.push((key, t));
        n = n + 1;
    }
    let ghost unsorted = pairs@;
    let ghost f = pair_track();
    assert(unsorted.map_values(f) =~= track_views(orig));
    let sorted = sort_stable(pairs);
    let ghost sv = sorted@;
    proof {
        assert forall|q: int| 0 <= q < sv.len() implies item_key(#[trigger] sv[q]) == track_key_fn()(f(sv[q])) by {
            let w = choose|w: int| 0 <= w < unsorted.len() && unsorted[w] == sv[q];
        }
        lemma_sort_views(sv, unsorted, f, track_key_fn());
    }
    let r = strip_keys(sorted);
    proof {
        lemma_strip_views(sv, r@, |x: Track| x@, f);
    }
    r
}

/// Whether `names` lists, once each, exactly the artists of the tracks.
pub open spec fn lists_artists(names: Seq<Seq<char>>, tracks: Seq<TrackView>) -> bool {
    &&& distinct_views(names)
    &&& forall|i: int| 0 <= i < tracks.len() ==> names.contains(#[trigger] tracks[i].artist)
    &&& forall|j: int| 0 <= j < names.len() ==> is_artist_of(tracks, #[trigger] names[j])
}

/// Whether some track is by `name`.
pub open spec fn is_artist_of(tracks: Seq<TrackView>, name: Seq<char>) -> bool {
    exists|i: int| 0 <= i < tracks.len() && tracks[i].artist == name
}

/// Whether some track by `artist` is on the album `name`.
pub open spec fn is_album_of(tracks: Seq<TrackView>, artist: Seq<char>, name: Seq<char>) -> bool {
    exists|i: int| 0 <= i < tracks.len() && tracks[i].artist == artist && album_display_seq(tracks[i]) == name
}

/// Whether `names` lists, once each, exactly the album names (as the player
/// shows them) of the tracks by `artist`.
pub open spec fn lists_albums(names: Seq<Seq<char>>, tracks: Seq<TrackView>, artist: Seq<char>) -> bool {
    &&& distinct_views(names)
    &&& forall|i: int| 0 <= i < tracks.len() && (#[trigger] tracks[i]).artist == artist ==> names.contains(album_display_seq(tracks[i]))
    &&& forall|j: int| 0 <= j < names.len() ==> is_album_of(tracks, artist, #[trigger] names[j])
}

/// Whether a track belongs to the album `album` (as the player names it) of
/// `artist`.
pub open spec fn in_album(artist: Seq<char>, album: Seq<char>) -> spec_fn(TrackView) -> bool {
    |t: TrackView| t.artist == artist && album_display_seq(t) == album
}

proof fn lemma_lists_artists_reordered(a: Seq<Seq<char>>, b: Seq<Seq<char>>, tracks: Seq<TrackView>)
    requires
        lists_artists(b, tracks),
        distinct_views(a),
        forall|i: int| 0 <= i < a.len() ==> b.contains(#[trigger] a[i]),
        forall|w: int| 0 <= w < b.len() ==> a.contains(#[trigger] b[w]),
    ensures
        lists_artists(a, tracks),
{
    assert forall|i: int| 0 <= i < tracks.len() implies a.contains(#[trigger] tracks[i].artist) by {
        let w = choose|w: int| 0 <= w < b.len() && b[w] == tracks[i].artist;
        assert(a.contains(b[w]));
    }
    assert forall|j: int| 0 <= j < a.len() implies is_artist_of(tracks, #[trigger] a[j]) by {
        assert(b.contains(a[j]));
        let w = choose|w: int| 0 <= w < b.len() && b[w] == a[j];
        assert(is_artist_of(tracks, b[w]));
    }
}

proof fn lemma_lists_albums_reordered(a: Seq<Seq<char>>, b: Seq<Seq<char>>, tracks: Seq<TrackView>, artist: Seq<char>)
    requires
        lists_albums(b, tracks, artist),
        distinct_views(a),
        forall|i: int| 0 <= i < a.len() ==> b.contains(#[trigger] a[i]),
        forall|w: int| 0 <= w < b.len() ==> a.contains(#[trigger] b[w]),
    ensures
        lists_albums(a, tracks, artist),
{
    assert forall|i: int| 0 <= i < tracks.len() && (#[trigger] tracks[i]).artist == artist implies a.contains(album_display_seq(tracks[i])) by {
        let w = choose|w: int| 0 <= w < b.len() && b[w] == album_display_seq(tracks[i]);
        assert(a.contains(b[w]));
    }
    assert forall|j: int| 0 <= j < a.len() implies is_album_of(tracks, artist, #[trigger] a[j]) by {
        assert(b.contains(a[j]));
        let w = choose|w: int| 0 <= w < b.len() && b[w] == a[j];
        assert(is_album_of(tracks, artist, b[w]));
    }
}

/// Whether `s` holds the string `x`.
pub fn contains_string(v: &Vec<String>, x: &String) -> (b: bool)
    ensures
        b == string_views(v@).contains(x@),
{
    let mut i: usize = 0;
    while i < v.len()
        invariant
            i <= v.len(),
            forall|k: int| 0 <= k < i ==> v@[k]@ != x@,
        decreases v.len() - i,
    {
        if text_eq(v[i].as_str(), x.as_str()) {
            assert(string_views(v@)[i as int] == x@);
            return true;
        }
        i = i + 1;
    }
    assert forall|k: int| 0 <= k < v@.len() implies string_views(v@)[k] != x@ by {
        assert(string_views(v@)[k] == v@[k]@);
    }
    false
}

/// The artists of the tracks, once each, in order of first appearance.
fn distinct_artists(tracks: &Vec<Track>) -> (r: Vec<String>)
    ensures
        lists_artists(string_views(r@), track_views(tracks@)),
{
    let ghost tv = track_views(tracks@);
    let mut r: Vec<String> = Vec::new();
    let mut i: usize = 0;
    while i < tracks.len()
        invariant
            i <= tracks.len(),
            tv == track_views(tracks@),
            distinct_views(string_views(r@)),
            forall|k: int| 0 <= k < i ==> string_views(r@).contains(#[trigger] tv[k].artist),
            forall|j: int| 0 <= j < r@.len() ==> is_artist_of(tv, #[trigger] string_views(r@)[j]),
        decreases tracks.len() - i,
    {
        let ghost before = string_views(r@);
        assert(tv[i as int].artist == tracks@[i as int].artist@);
        if !contains_string(&r, &tracks[i].artist) {
            r.push(copy_string(&tracks[i].artist));
            assert(string_views(r@) =~= before.push(tv[i as int].artist));
            assert forall|j: int| 0 <= j < r@.len() implies is_artist_of(tv, #[trigger] string_views(r@)[j]) by {
                if j < before.len() {
                    assert(string_views(r@)[j] == before[j]);
                } else {
                    assert(tv[i as int].artist == string_views(r@)[j]);
                }
            }
            assert forall|k: int| 0 <= k < i + 1 implies string_views(r@).contains(#[trigger] tv[k].artist) by {
                if k < i {
                    let w = choose|w: int| 0 <= w < before.len() && before[w] == tv[k].artist;
                    assert(string_views(r@)[w] == before[w]);
                } else {
                    assert(string_views(r@)[before.len() as int] == tv[k].artist);
                }
            }
        }
        i = i + 1;
    }
    r
}

/// The album names of the tracks by `artist`, once each, in order of first
/// appearance.
fn albums_of_artist(tracks: &Vec<Track>, artist: &String) -> (r: Vec<String>)
    ensures
        lists_albums(string_views(r@), track_views(tracks@), artist@),
{
    let ghost tv = track_views(tracks@);
    let mut r: Vec<String> = Vec::new();
    let mut i: usize = 0;
    while i < tracks.len()
        invariant
            i <= tracks.len(),
            tv == track_views(tracks@),
            distinct_views(string_views(r@)),
            forall|k: int| 0 <= k < i && (#[trigger] tv[k]).artist == artist@ ==> string_views(r@).contains(album_display_seq(tv[k])),
            forall|j: int| 0 <= j < r@.len() ==> is_album_of(tv, artist@, #[trigger] string_views(r@)[j]),
        decreases tracks.len() - i,
    {
        let ghost before = string_views(r@);
        assert(tv[i as int] == tracks@[i as int]@);
        if text_eq(tracks[i].artist.as_str(), artist.as_str()) {
            let d = album_display(&tracks[i]);
            if !contains_string(&r, &d) {
                r.push(d);
                assert(string_views(r@) =~= before.push(album_display_seq(tv[i as int])));
                assert forall|j: int| 0 <= j < r@.len() implies is_album_of(tv, artist@, #[trigger] string_views(r@)[j]) by {
                    if j < before.len() {
                        assert(string_views(r@)[j] == before[j]);
                    } else {
                        assert(album_display_seq(tv[i as int]) == string_views(r@)[j]);
                    }
                }
                assert forall|k: int| 0 <= k < i + 1 && (#[trigger] tv[k]).artist == artist@ implies string_views(r@).contains(album_display_seq(tv[k])) by {
                    if k < i {
                        let w = choose|w: int| 0 <= w < before.len() && before[w] == album_display_seq(tv[k]);
                        assert(string_views(r@)[w] == before[w]);
                    } else {
                        assert(string_views(r@)[before.len() as int] == album_display_seq(tv[k]));
                    }
                }
            }
        }
        i = i + 1;
    }
    r
}

/// The tracks of one album, in library order.
fn tracks_in_album(tracks: &Vec<Track>, artist: &String, album: &String) -> (r: Vec<Track>)
    ensures
        track_views(r@) == track_views(tracks@).filter(in_album(artist@, album@)),
{
    broadcast use vstd::seq_lib::group_seq_properties;
    let ghost tv = track_views(tracks@);
    let ghost p = in_album(artist@, album@);
    let mut r: Vec<Track> = Vec::new();
    let mut i: usize = 0;
    while i < tracks.len()
        invariant
            i <= tracks.len(),
            tv == track_views(tracks@),
            p == in_album(artist@, album@),
            track_views(r@) == tv.take(i as int).filter(p),
        decreases tracks.len() - i,
    {
        let ghost before = r@;
        assert(tv.take(i + 1) == tv.take(i as int).push(tv[i as int]));
        proof { tv.take(i as int).lemma_filter_push(tv[i as int], p); }
        assert(tv[i as int] == tracks@[i as int]@);
        if text_eq(tracks[i].artist.as_str(), artist.as_str()) {
            let d = album_display(&tracks[i]);
            if text_eq(d.as_str(), album.as_str()) {
                r.push(tracks[i].copy());
                assert(track_views(r@) =~= track_views(before).push(tv[i as int]));
            }
        }
        i = i + 1;
    }
    assert(tv.take(tracks.len() as int) == tv);
    r
}

/// Whether `pos` lists the positions `(artist, album)` of all albums, artist
/// by artist and album by album within an artist.
pub open spec fn lists_album_positions(pos: Seq<(usize, usize)>, counts: Seq<nat>) -> bool {
    &&& forall|k: int| 0 <= k < pos.len() ==> (#[trigger] pos[k]).0 < counts.len() && pos[k].1 < counts[pos[k].0 as int]
    &&& forall|k: int, k2: int| 0 <= k < k2 < pos.len() ==> position_lt(#[trigger] pos[k], #[trigger] pos[k2])
    &&& forall|i: int, j: int| 0 <= i < counts.len() && 0 <= j < counts[i] ==> #[trigger] pos.contains((i as usize, j as usize))
}

/// Lexicographic order of album positions.
pub open spec fn position_lt(a: (usize, usize), b: (usize, usize)) -> bool {
    a.0 < b.0 || (a.0 == b.0 && a.1 < b.1)
}

/// The number of albums of each artist.
pub open spec fn album_counts(albums: Seq<Vec<String>>) -> Seq<nat> {
    albums.map_values(|a: Vec<String>| a@.len())
}

/// The library and its index by artist and album.
pub struct Library {
    /// Every track, in the order they were found.
    pub all_tracks: Vec<Track>,
    /// The artists, once each, ordered by lowercase name.
    pub artists: Vec<String>,
    /// For each artist (same position), its albums, ordered by lowercase name.
    pub albums_by_artist: Vec<Vec<String>>,
    /// For each artist and album (same positions), the album's tracks.
    pub tracks_by_album: Vec<Vec<Vec<Track>>>,
    /// The position (artist, album) of every album, artist by artist.
    pub all_albums: Vec<(usize, usize)>,
}

impl Library {
    /// Whether the index fields line up with each other.
    pub open spec fn shape_ok(&self) -> bool {
        &&& self.albums_by_artist@.len() == self.artists@.len()
        &&& self.tracks_by_album@.len() == self.artists@.len()
        &&& forall|i: int| 0 <= i < self.artists@.len() ==> (#[trigger] self.tracks_by_album@[i])@.len() == self.albums_by_artist@[i]@.len()
        &&& forall|i: int| 0 <= i < self.artists@.len() ==> (#[trigger] self.albums_by_artist@[i])@.len() > 0
        &&& lists_album_positions(self.all_albums@, album_counts(self.albums_by_artist@))
    }

    /// Whether this is the index of the library `tracks`.
    pub open spec fn indexes(&self, tracks: Seq<TrackView>) -> bool {
        &&& self.shape_ok()
        &&& track_views(self.all_tracks@) == tracks
        &&& lists_artists(string_views(self.artists@), tracks)
        &&& crate::order::key_sorted(string_views(self.artists@), lower_key_fn())
        &&& forall|i: int| 0 <= i < self.artists@.len() ==> lists_albums(string_views(#[trigger] self.albums_by_artist@[i]@), tracks, self.artists@[i]@)
        &&& forall|i: int| 0 <= i < self.artists@.len() ==> crate::order::key_sorted(string_views(#[trigger] self.albums_by_artist@[i]@), lower_key_fn())
        &&& forall|i: int, j: int| 0 <= i < self.artists@.len() && 0 <= j < self.albums_by_artist@[i]@.len() ==> is_key_sort_of(
            track_views(#[trigger] self.tracks_by_album@[i]@[j]@),
            tracks.filter(in_album(self.artists@[i]@, self.albums_by_artist@[i]@[j]@)),
            track_key_fn(),
        )
    }

    /// Indexes the tracks found in the music directory: the artists, each
    /// once, by lowercase name; for each artist its albums (named as the player
    /// shows them), each once, by lowercase name; for each album its tracks,
    /// stably sorted by track number and lowercase title; and the list of all
    /// albums, artist by artist.
    pub fn build(all_tracks: Vec<Track>) -> (lib: Library)
        ensures
            lib.indexes(track_views(all_tracks@)),
    {
        let ghost tv = track_views(all_tracks@);
        let found = distinct_artists(&all_tracks);
        let ghost found_views = string_views(found@);
        let artists = sort_names(found, true);
        proof {
            lemma_lists_artists_reordered(string_views(artists@), found_views, tv);
        }
        let mut albums_by_artist: Vec<Vec<String>> = Vec::new();
        let mut tracks_by_album: Vec<Vec<Vec<Track>>> = Vec::new();
        let mut all_albums: Vec<(usize, usize)> = Vec::new();
        let mut i: usize = 0;
        while i < artists.len()
            invariant
                i <= artists.len(),
                tv == track_views(all_tracks@),
                albums_by_artist@.len() == i,
                tracks_by_album@.len() == i,
                forall|a: int| 0 <= a < i ==> (#[trigger] tracks_by_album@[a])@.len() == albums_by_artist@[a]@.len(),
                forall|a: int| 0 <= a < i ==> lists_albums(string_views(#[trigger] albums_by_artist@[a]@), tv, artists@[a]@),
                forall|a: int| 0 <= a < i ==> crate::order::key_sorted(string_views(#[trigger] albums_by_artist@[a]@), lower_key_fn()),
                forall|a: int, b: int| 0 <= a < i && 0 <= b < albums_by_artist@[a]@.len() ==> is_key_sort_of(
                    track_views(#[trigger] tracks_by_album@[a]@[b]@),
                    tv.filter(in_album(artists@[a]@, albums_by_artist@[a]@[b]@)),
                    track_key_fn(),
                ),
                forall|k: int| 0 <= k < all_albums@.len() ==> (#[trigger] all_albums@[k]).0 < i && all_albums@[k].1 < albums_by_artist@[all_albums@[k].0 as int]@.len(),
                forall|k: int, k2: int| 0 <= k < k2 < all_albums@.len() ==> position_lt(#[trigger] all_albums@[k], #[trigger] all_albums@[k2]),
                forall|a: int, b: int| 0 <= a < i && 0 <= b < albums_by_artist@[a]@.len() ==> #[trigger] all_albums@.contains((a as usize, b as usize)),
            decreases artists.len() - i,
        {
            let found_albums = albums_of_artist(&all_tracks, &artists[i]);
            let ghost found_album_views = string_views(found_albums@);
            let albums = sort_names(found_albums, true);
            proof {
                lemma_lists_albums_reordered(string_views(albums@), found_album_views, tv, artists@[i as int]@);
            }
            let mut per_album: Vec<Vec<Track>> = Vec::new();
            let mut j: usize = 0;
            let ghost prev_all = all_albums@;
            while j < albums.len()
                invariant
                    j <= albums.len(),
                    i < artists.len(),
                    tv == track_views(all_tracks@),
                    per_album@.len() == j,
                    forall|b: int| 0 <= b < j ==> is_key_sort_of(
                        track_views(#[trigger] per_album@[b]@),
                        tv.filter(in_album(artists@[i as int]@, albums@[b]@)),
                        track_key_fn(),
                    ),
                    all_albums@.len() == prev_all.len() + j,
                    forall|k: int| 0 <= k < prev_all.len() ==> all_albums@[k] == prev_all[k],
                    forall|k: int| prev_all.len() <= k < all_albums@.len() ==> #[trigger] all_albums@[k] == (i, (k - prev_all.len()) as usize),
                    forall|k: int| 0 <= k < prev_all.len() ==> (#[trigger] prev_all[k]).0 < i,
                    forall|k: int, k2: int| 0 <= k < k2 < all_albums@.len() ==> position_lt(#[trigger] all_albums@[k], #[trigger] all_albums@[k2]),
                decreases albums.len() - j,
            {
                let in_this = tracks_in_album(&all_tracks, &artists[i], &albums[j]);
                per_album.push(sort_tracks(in_this));
                let ghost before_all = all_albums@;
                all_albums.push((i, j));
                proof {
                    assert forall|k: int, k2: int| 0 <= k < k2 < all_albums@.len() implies position_lt(#[trigger] all_albums@[k], #[trigger] all_albums@[k2]) by {
                        if k2 == before_all.len() {
                            if k < prev_all.len() {
                                assert(all_albums@[k] == prev_all[k]);
                            } else {
                                assert(all_albums@[k] == (i, (k - prev_all.len()) as usize));
                            }
                        } else {
                            assert(all_albums@[k] == before_all[k]);
                            assert(all_albums@[k2] == before_all[k2]);
                        }
                    }
                }
                j = j + 1;
            }
            let ghost before_albums = albums_by_artist@;
            let ghost before_tracks = tracks_by_album@;
            let ghost this_albums = albums@;
            albums_by_artist.push(albums);
            tracks_by_album.push(per_album);
            proof {
                assert forall|k: int| 0 <= k < all_albums@.len() implies (#[trigger] all_albums@[k]).0 < i + 1 && all_albums@[k].1 < albums_by_artist@[all_albums@[k].0 as int]@.len() by {
                    if k < prev_all.len() {
                        assert(all_albums@[k] == prev_all[k]);
                        assert(albums_by_artist@[prev_all[k].0 as int] == before_albums[prev_all[k].0 as int]);
                    } else {
                        assert(all_albums@[k] == (i, (k - prev_all.len()) as usize));
                    }
                }
                assert forall|a: int, b: int| 0 <= a < i + 1 && 0 <= b < albums_by_artist@[a]@.len() implies #[trigger] all_albums@.contains((a as usize, b as usize)) by {
                    if a < i {
                        assert(albums_by_artist@[a] == before_albums[a]);
                        assert(albums_by_artist@[a]@.len() == before_albums[a]@.len());
                        assert(prev_all.contains((a as usize, b as usize)));
                        let w = choose|w: int| 0 <= w < prev_all.len() && prev_all[w] == (a as usize, b as usize);
                        assert(all_albums@[w] == prev_all[w]);
                    } else {
                        assert(all_albums@[prev_all.len() + b] == (i, b as usize));
                    }
                }
                assert forall|a: int| 0 <= a < i + 1 implies (#[trigger] tracks_by_album@[a])@.len() == albums_by_artist@[a]@.len() by {
                    if a < i {
                        assert(tracks_by_album@[a] == before_tracks[a]);
                        assert(albums_by_artist@[a] == before_albums[a]);
                    }
                }
                assert forall|a: int| 0 <= a < i + 1 implies lists_albums(string_views(#[trigger] albums_by_artist@[a]@), tv, artists@[a]@) by {
                    if a < i {
                        assert(albums_by_artist@[a] == before_albums[a]);
                    } else {
                        assert(albums_by_artist@[a]@ == this_albums);
                    }
                }
                assert forall|a: int| 0 <= a < i + 1 implies crate::order::key_sorted(string_views(#[trigger] albums_by_artist@[a]@), lower_key_fn()) by {
                    if a < i {
                        assert(albums_by_artist@[a] == before_albums[a]);
                    }
                }
                assert forall|a: int, b: int| 0 <= a < i + 1 && 0 <= b < albums_by_artist@[a]@.len() implies is_key_sort_of(
                    track_views(#[trigger] tracks_by_album@[a]@[b]@),
                    tv.filter(in_album(artists@[a]@, albums_by_artist@[a]@[b]@)),
                    track_key_fn(),
                ) by {
                    if a < i {
                        assert(albums_by_artist@[a] == before_albums[a]);
                        assert(tracks_by_album@[a] == before_tracks[a]);
                    }
                }
            }
            i = i + 1;
        }
        let lib = Library { all_tracks, artists, albums_by_artist, tracks_by_album, all_albums };
        proof {
            assert forall|a: int| 0 <= a < lib.artists@.len() implies (#[trigger] lib.albums_by_artist@[a])@.len() > 0 by {
                let names = string_views(lib.albums_by_artist@[a]@);
                assert(is_artist_of(tv, string_views(lib.artists@)[a]));
                let t = choose|t: int| 0 <= t < tv.len() && tv[t].artist == string_views(lib.artists@)[a];
                assert(lists_albums(names, tv, lib.artists@[a]@));
                assert(names.contains(album_display_seq(tv[t])));
            }
            let counts = album_counts(lib.albums_by_artist@);
            assert forall|k: int| 0 <= k < lib.all_albums@.len() implies (#[trigger] lib.all_albums@[k]).0 < counts.len() && lib.all_albums@[k].1 < counts[lib.all_albums@[k].0 as int] by {}
            assert forall|a: int, b: int| 0 <= a < counts.len() && 0 <= b < counts[a] implies #[trigger] lib.all_albums@.contains((a as usize, b as usize)) by {}
        }
        lib
    }
}

/// Whether some track has path `p`.
pub open spec fn has_path(tracks: Seq<TrackView>, p: Seq<char>) -> bool {
    exists|i: int| 0 <= i < tracks.len() && tracks[i].path == p
}

/// The position of the first track with path `p` (meaningful when there is one).
pub open spec fn first_path_index(tracks: Seq<TrackView>, p: Seq<char>) -> int {
    choose|i: int| 0 <= i < tracks.len() && tracks[i].path == p && forall|j: int| 0 <= j < i ==> tracks[j].path != p
}

/// The first track with path `p`, if any.
pub open spec fn first_by_path(tracks: Seq<TrackView>, p: Seq<char>) -> Option<TrackView> {
    if has_path(tracks, p) { Some(tracks[first_path_index(tracks, p)]) } else { None }
}

pub(crate) proof fn lemma_first_path_exists(tracks: Seq<TrackView>, p: Seq<char>, w: int)
    requires
        0 <= w < tracks.len(),
        tracks[w].path == p,
    ensures
        exists|i: int| 0 <= i < tracks.len() && tracks[i].path == p && forall|j: int| 0 <= j < i ==> tracks[j].path != p,
    decreases w,
{
    if exists|j: int| 0 <= j < w && tracks[j].path == p {
        let j = choose|j: int| 0 <= j < w && tracks[j].path == p;
        lemma_first_path_exists(tracks, p, j);
    }
}

/// The position of the first track with path `path`, if any.
pub fn find_track_by_path(tracks: &Vec<Track>, path: &String) -> (r: Option<usize>)
    ensures
        match r {
            Some(i) => has_path(track_views(tracks@), path@) && i == first_path_index(track_views(tracks@), path@)
                && i < tracks@.len(),
            None => !has_path(track_views(tracks@), path@),
        },
{
    let ghost tv = track_views(tracks@);
    let mut i: usize = 0;
    while i < tracks.len()
        invariant
            i <= tracks.len(),
            tv == track_views(tracks@),
            forall|k: int| 0 <= k < i ==> tv[k].path != path@,
        decreases tracks.len() - i,
    {
        assert(tv[i as int].path == tracks@[i as int].path@);
        if text_eq(tracks[i].path.as_str(), path.as_str()) {
            proof {
                lemma_first_path_exists(tv, path@, i as int);
                let f = first_path_index(tv, path@);
                if f < i {
                } else if f > i {
                }
                assert(f == i);
            }
            return Some(i);
        }
        i = i + 1;
    }
    None
}

/// Copies of the tracks of `v` from position `start` on.
pub fn copy_tracks_from(v: &Vec<Track>, start: usize) -> (r: Vec<Track>)
    requires
        start <= v@.len(),
    ensures
        track_views(r@) == track_views(v@).skip(start as int),
{
    let ghost tv = track_views(v@);
    let mut r: Vec<Track> = Vec::new();
    let mut i: usize = start;
    while i < v.len()
        invariant
            start <= i <= v.len(),
            tv == track_views(v@),
            track_views(r@) == tv.subrange(start as int, i as int),
        decreases v.len() - i,
    {
        let ghost before = r@;
        r.push(v[i].copy());
        assert(track_views(r@) =~= track_views(before).push(tv[i as int]));
        assert(tv.subrange(start as int, i + 1) =~= tv.subrange(start as int, i as int).push(tv[i as int]));
        i = i + 1;
    }
    assert(tv.subrange(start as int, v.len() as int) =~= tv.skip(start as int));
    r
}

/// Browsing finds every track: for any track of the library, its artist is
/// listed, its album (as the player names it) is listed under that artist,
/// and the album's tracks are exactly the library's tracks of that artist
/// and album, so the track is among them.
pub proof fn law_every_track_listed(lib: Library, tracks: Seq<TrackView>, k: int)
    requires
        lib.indexes(tracks),
        0 <= k < tracks.len(),
    ensures
        exists|i: int, j: int| {
            &&& 0 <= i < lib.artists@.len()
            &&& 0 <= j < lib.albums_by_artist@[i]@.len()
            &&& lib.artists@[i]@ == tracks[k].artist
            &&& #[trigger] lib.albums_by_artist@[i]@[j]@ == album_display_seq(tracks[k])
            &&& track_views(lib.tracks_by_album@[i]@[j]@).contains(tracks[k])
        },
{
    let t = tracks[k];
    let names = string_views(lib.artists@);
    assert(names.contains(t.artist));
    let i = choose|i: int| 0 <= i < names.len() && names[i] == t.artist;
    let albums = string_views(lib.albums_by_artist@[i]@);
    assert(lists_albums(albums, tracks, lib.artists@[i]@));
    assert(albums.contains(album_display_seq(t)));
    let j = choose|j: int| 0 <= j < albums.len() && albums[j] == album_display_seq(t);
    let b = tracks.filter(in_album(lib.artists@[i]@, lib.albums_by_artist@[i]@[j]@));
    tracks.lemma_filter_contains(in_album(lib.artists@[i]@, lib.albums_by_artist@[i]@[j]@), k);
    crate::order::lemma_key_sort_contains(track_views(lib.tracks_by_album@[i]@[j]@), b, track_key_fn(), t);
}

/// An album's tracks hold exactly the library's tracks with that artist
/// and album name.
pub proof fn law_album_holds_its_tracks(lib: Library, tracks: Seq<TrackView>, i: int, j: int, t: TrackView)
    requires
        lib.indexes(tracks),
        0 <= i < lib.artists@.len(),
        0 <= j < lib.albums_by_artist@[i]@.len(),
    ensures
        track_views(lib.tracks_by_album@[i]@[j]@).contains(t) <==> (
            tracks.contains(t) && t.artist == lib.artists@[i]@
                && album_display_seq(t) == lib.albums_by_artist@[i]@[j]@
        ),
{
    let p = in_album(lib.artists@[i]@, lib.albums_by_artist@[i]@[j]@);
    let b = tracks.filter(p);
    crate::order::lemma_key_sort_contains(track_views(lib.tracks_by_album@[i]@[j]@), b, track_key_fn(), t);
    if b.contains(t) {
        tracks.lemma_filter_contains_rev(p, t);
        let x = choose|x: int| 0 <= x < b.len() && b[x] == t;
        tracks.lemma_filter_pred(p, x);
    }
    if tracks.contains(t) && p(t) {
        let x = choose|x: int| 0 <= x < tracks.len() && tracks[x] == t;
        tracks.lemma_filter_contains(p, x);
    }
}

/// Whether no two different artists of `tracks` differ only in case, and
/// no two different albums of one artist (as the player names them) either.
pub open spec fn names_differ_beyond_case(tracks: Seq<TrackView>) -> bool {
    &&& forall|i: int, j: int| 0 <= i < tracks.len() && 0 <= j < tracks.len()
        && lowercase_of((#[trigger] tracks[i]).artist) == lowercase_of((#[trigger] tracks[j]).artist)
        ==> tracks[i].artist == tracks[j].artist
    &&& forall|i: int, j: int| 0 <= i < tracks.len() && 0 <= j < tracks.len()
        && (#[trigger] tracks[i]).artist == (#[trigger] tracks[j]).artist
        && lowercase_of(album_display_seq(tracks[i])) == lowercase_of(album_display_seq(tracks[j]))
        ==> album_display_seq(tracks[i]) == album_display_seq(tracks[j])
}

/// Two name lists in lowercase order, without repeats, holding the same
/// names, no two of which share a lowercase form, are equal.
proof fn lemma_same_listing(na: Seq<Seq<char>>, nb: Seq<Seq<char>>)
    requires
        crate::order::key_sorted(na, lower_key_fn()),
        crate::order::key_sorted(nb, lower_key_fn()),
        distinct_views(na),
        distinct_views(nb),
        forall|v: Seq<char>| na.contains(v) <==> nb.contains(v),
        forall|v: Seq<char>, w: Seq<char>| #![trigger na.contains(v), na.contains(w)]
            na.contains(v) && na.contains(w) && lowercase_of(v) == lowercase_of(w) ==> v == w,
    ensures
        na == nb,
{
    assert forall|i: int, j: int| 0 <= i < na.len() && 0 <= j < na.len() && i != j implies na[i] != na[j] by {
        if i < j { assert(na[i] != na[j]); } else { assert(na[j] != na[i]); }
    }
    assert forall|i: int, j: int| 0 <= i < nb.len() && 0 <= j < nb.len() && i != j implies nb[i] != nb[j] by {
        if i < j { assert(nb[i] != nb[j]); } else { assert(nb[j] != nb[i]); }
    }
    assert forall|v: Seq<char>, w: Seq<char>| #![trigger na.contains(v), na.contains(w)]
        na.contains(v) && na.contains(w) && lower_key_fn()(v) == lower_key_fn()(w) implies v == w by {
        assert(lower_key(v)[0] == lower_key(w)[0]);
    }
    crate::order::lemma_key_sorted_same_values(na, nb, lower_key_fn());
}

/// Two strictly increasing lists of album positions holding the same
/// positions are equal.
proof fn lemma_same_positions(pa: Seq<(usize, usize)>, pb: Seq<(usize, usize)>)
    requires
        forall|k: int, k2: int| 0 <= k < k2 < pa.len() ==> position_lt(#[trigger] pa[k], #[trigger] pa[k2]),
        forall|k: int, k2: int| 0 <= k < k2 < pb.len() ==> position_lt(#[trigger] pb[k], #[trigger] pb[k2]),
        forall|v: (usize, usize)| pa.contains(v) <==> pb.contains(v),
    ensures
        pa == pb,
    decreases pa.len() + pb.len(),
{
    if pa.len() == 0 && pb.len() == 0 {
        assert(pa =~= pb);
    } else if pa.len() == 0 {
        assert(pb.contains(pb[0]));
    } else if pb.len() == 0 {
        assert(pa.contains(pa[0]));
    } else {
        let x = pa.last();
        let y = pb.last();
        assert(pa.contains(x));
        assert(pb.contains(y));
        let i = choose|i: int| 0 <= i < pa.len() && pa[i] == y;
        let j = choose|j: int| 0 <= j < pb.len() && pb[j] == x;
        if i < pa.len() - 1 {
            assert(position_lt(pa[i], pa[pa.len() - 1]));
        }
        if j < pb.len() - 1 {
            assert(position_lt(pb[j], pb[pb.len() - 1]));
        }
        assert(x == y);
        let da = pa.drop_last();
        let db = pb.drop_last();
        assert forall|v: (usize, usize)| da.contains(v) <==> db.contains(v) by {
            if da.contains(v) {
                let k = choose|k: int| 0 <= k < da.len() && da[k] == v;
                assert(pa[k] == v && position_lt(pa[k], x));
                assert(pb.contains(v));
                let q = choose|q: int| 0 <= q < pb.len() && pb[q] == v;
                assert(q != pb.len() - 1);
                assert(db[q] == v);
            }
            if db.contains(v) {
                let k = choose|k: int| 0 <= k < db.len() && db[k] == v;
                assert(pb[k] == v && position_lt(pb[k], y));
                assert(pa.contains(v));
                let q = choose|q: int| 0 <= q < pa.len() && pa[q] == v;
                assert(q != pa.len() - 1);
                assert(da[q] == v);
            }
        }
        assert forall|k: int, k2: int| 0 <= k < k2 < da.len() implies position_lt(#[trigger] da[k], #[trigger] da[k2]) by {
            assert(da[k] == pa[k] && da[k2] == pa[k2]);
        }
        assert forall|k: int, k2: int| 0 <= k < k2 < db.len() implies position_lt(#[trigger] db[k], #[trigger] db[k2]) by {
            assert(db[k] == pb[k] && db[k2] == pb[k2]);
        }
        lemma_same_positions(da, db);
        assert(pa =~= da.push(x));
        assert(pb =~= db.push(y));
    }
}

/// Two indexes of the same tracks are the same library: the same artists,
/// the same albums of each artist and tracks of each album, in the same
/// order, and the same list of all albums. So reloading after a rescan that
/// finds the same tracks gives the library that start-up built. This holds
/// where no two artists, and no two albums of one artist, differ only in
/// case; the order of names that do is left open.
pub proof fn law_index_is_unique(a: Library, b: Library, tracks: Seq<TrackView>)
    requires
        a.indexes(tracks),
        b.indexes(tracks),
        names_differ_beyond_case(tracks),
    ensures
        track_views(a.all_tracks@) == track_views(b.all_tracks@),
        string_views(a.artists@) == string_views(b.artists@),
        forall|i: int| 0 <= i < a.artists@.len() ==>
            string_views(#[trigger] a.albums_by_artist@[i]@) == string_views(b.albums_by_artist@[i]@),
        forall|i: int, j: int| 0 <= i < a.artists@.len() && 0 <= j < a.albums_by_artist@[i]@.len() ==>
            track_views(#[trigger] a.tracks_by_album@[i]@[j]@) == track_views(b.tracks_by_album@[i]@[j]@),
        a.all_albums@ == b.all_albums@,
{
    let sa = string_views(a.artists@);
    let sb = string_views(b.artists@);
    assert forall|v: Seq<char>| sa.contains(v) <==> is_artist_of(tracks, v) by {
        if sa.contains(v) {
            let k = choose|k: int| 0 <= k < sa.len() && sa[k] == v;
            assert(is_artist_of(tracks, sa[k]));
        }
        if is_artist_of(tracks, v) {
            let k = choose|k: int| 0 <= k < tracks.len() && tracks[k].artist == v;
            assert(sa.contains(tracks[k].artist));
        }
    }
    assert forall|v: Seq<char>| sb.contains(v) <==> is_artist_of(tracks, v) by {
        if sb.contains(v) {
            let k = choose|k: int| 0 <= k < sb.len() && sb[k] == v;
            assert(is_artist_of(tracks, sb[k]));
        }
        if is_artist_of(tracks, v) {
            let k = choose|k: int| 0 <= k < tracks.len() && tracks[k].artist == v;
            assert(sb.contains(tracks[k].artist));
        }
    }
    assert forall|v: Seq<char>, w: Seq<char>| #![trigger sa.contains(v), sa.contains(w)]
        sa.contains(v) && sa.contains(w) && lowercase_of(v) == lowercase_of(w) implies v == w by {
        let k1 = choose|k: int| 0 <= k < tracks.len() && tracks[k].artist == v;
        let k2 = choose|k: int| 0 <= k < tracks.len() && tracks[k].artist == w;
        assert(lowercase_of(tracks[k1].artist) == lowercase_of(tracks[k2].artist));
    }
    lemma_same_listing(sa, sb);
    assert(a.artists@.len() == sa.len() && b.artists@.len() == sb.len());
    assert forall|i: int| 0 <= i < a.artists@.len() implies
        string_views(#[trigger] a.albums_by_artist@[i]@) == string_views(b.albums_by_artist@[i]@) by {
        let art = a.artists@[i]@;
        assert(sa[i] == art && sb[i] == b.artists@[i]@);
        let na = string_views(a.albums_by_artist@[i]@);
        let nb = string_views(b.albums_by_artist@[i]@);
        assert(lists_albums(na, tracks, art));
        assert(lists_albums(nb, tracks, art));
        assert forall|v: Seq<char>| na.contains(v) <==> is_album_of(tracks, art, v) by {
            if na.contains(v) {
                let k = choose|k: int| 0 <= k < na.len() && na[k] == v;
                assert(is_album_of(tracks, art, na[k]));
            }
            if is_album_of(tracks, art, v) {
                let k = choose|k: int| 0 <= k < tracks.len() && tracks[k].artist == art && album_display_seq(tracks[k]) == v;
                assert(na.contains(album_display_seq(tracks[k])));
            }
        }
        assert forall|v: Seq<char>| nb.contains(v) <==> is_album_of(tracks, art, v) by {
            if nb.contains(v) {
                let k = choose|k: int| 0 <= k < nb.len() && nb[k] == v;
                assert(is_album_of(tracks, art, nb[k]));
            }
            if is_album_of(tracks, art, v) {
                let k = choose|k: int| 0 <= k < tracks.len() && tracks[k].artist == art && album_display_seq(tracks[k]) == v;
                assert(nb.contains(album_display_seq(tracks[k])));
            }
        }
        assert forall|v: Seq<char>, w: Seq<char>| #![trigger na.contains(v), na.contains(w)]
            na.contains(v) && na.contains(w) && lowercase_of(v) == lowercase_of(w) implies v == w by {
            let k1 = choose|k: int| 0 <= k < tracks.len() && tracks[k].artist == art && album_display_seq(tracks[k]) == v;
            let k2 = choose|k: int| 0 <= k < tracks.len() && tracks[k].artist == art && album_display_seq(tracks[k]) == w;
            assert(tracks[k1].artist == tracks[k2].artist);
        }
        lemma_same_listing(na, nb);
    }
    assert forall|i: int, j: int| 0 <= i < a.artists@.len() && 0 <= j < a.albums_by_artist@[i]@.len() implies
        track_views(#[trigger] a.tracks_by_album@[i]@[j]@) == track_views(b.tracks_by_album@[i]@[j]@) by {
        let art = a.artists@[i]@;
        assert(sa[i] == art && sb[i] == b.artists@[i]@);
        let na = string_views(a.albums_by_artist@[i]@);
        let nb = string_views(b.albums_by_artist@[i]@);
        assert(na == nb);
        assert(na[j] == a.albums_by_artist@[i]@[j]@ && nb[j] == b.albums_by_artist@[i]@[j]@);
        let c = tracks.filter(in_album(art, a.albums_by_artist@[i]@[j]@));
        let ta = track_views(a.tracks_by_album@[i]@[j]@);
        let tb = track_views(b.tracks_by_album@[i]@[j]@);
        assert(is_key_sort_of(ta, c, track_key_fn()));
        assert(is_key_sort_of(tb, c, track_key_fn()));
        crate::order::lemma_key_sorted_unique(ta, tb, track_key_fn());
    }
    let ca = album_counts(a.albums_by_artist@);
    let cb = album_counts(b.albums_by_artist@);
    assert forall|i: int| 0 <= i < ca.len() implies ca[i] == cb[i] by {
        assert(string_views(a.albums_by_artist@[i]@).len() == string_views(b.albums_by_artist@[i]@).len());
    }
    assert(ca =~= cb);
    let pa = a.all_albums@;
    let pb = b.all_albums@;
    assert forall|v: (usize, usize)| pa.contains(v) <==> pb.contains(v) by {
        if pa.contains(v) {
            let k = choose|k: int| 0 <= k < pa.len() && pa[k] == v;
            assert(v.0 < cb.len() && v.1 < cb[v.0 as int]);
            assert(pb.contains((v.0 as int as usize, v.1 as int as usize)));
        }
        if pb.contains(v) {
            let k = choose|k: int| 0 <= k < pb.len() && pb[k] == v;
            assert(v.0 < ca.len() && v.1 < ca[v.0 as int]);
            assert(pa.contains((v.0 as int as usize, v.1 as int as usize)));
        }
    }
    lemma_same_positions(pa, pb);
}

/// Within an album of an index, the tracks come in numeric track number
/// order (track 2 before track 10), and tracks with the same number in the
/// order of their lowercase titles.
pub proof fn law_album_tracks_by_number(lib: Library, tracks: Seq<TrackView>, i: int, j: int, p: int, q: int)
    requires
        lib.indexes(tracks),
        0 <= i < lib.artists@.len(),
        0 <= j < lib.albums_by_artist@[i]@.len(),
        0 <= p < q < lib.tracks_by_album@[i]@[j]@.len(),
    ensures
        lib.tracks_by_album@[i]@[j]@[p].track_number <= lib.tracks_by_album@[i]@[j]@[q].track_number,
        lib.tracks_by_album@[i]@[j]@[p].track_number == lib.tracks_by_album@[i]@[j]@[q].track_number ==>
            !crate::order::text_lt(
                lowercase_of(lib.tracks_by_album@[i]@[j]@[q].title@),
                lowercase_of(lib.tracks_by_album@[i]@[j]@[p].title@),
            ),
{
    let v = track_views(lib.tracks_by_album@[i]@[j]@);
    assert(is_key_sort_of(v, tracks.filter(in_album(lib.artists@[i]@, lib.albums_by_artist@[i]@[j]@)), track_key_fn()));
    assert(!crate::order::key_lt(track_key_fn()(v[q]), track_key_fn()(v[p])));
    let kp = track_key(v[p]);
    let kq = track_key(v[q]);
    assert(v[p] == lib.tracks_by_album@[i]@[j]@[p]@ && v[q] == lib.tracks_by_album@[i]@[j]@[q]@);
    if v[q].track_number < v[p].track_number {
        assert(kq[0] != kp[0]);
        assert(crate::order::key_lt(kq, kp));
    }
    if v[q].track_number == v[p].track_number {
        assert(kq[0] == kp[0]);
        assert(kq.drop_first() =~= seq![FieldView::Text(lowercase_of(v[q].title))]);
        assert(kp.drop_first() =~= seq![FieldView::Text(lowercase_of(v[p].title))]);
        if crate::order::text_lt(lowercase_of(v[q].title), lowercase_of(v[p].title)) {
            let a = kq.drop_first();
            let b = kp.drop_first();
            assert(a[0] != b[0]) by {
                crate::order::lemma_text_lt_irreflexive(lowercase_of(v[q].title));
            }
            assert(crate::order::key_lt(a, b));
            assert(crate::order::key_lt(kq, kp));
        }
    }
}

/// Of two lowercase-keyed names, the one whose lowercase form comes first
/// has the smaller key.
proof fn lemma_lower_key_lt(a: Seq<char>, b: Seq<char>)
    requires
        crate::order::text_lt(lowercase_of(a), lowercase_of(b)),
    ensures
        crate::order::key_lt(lower_key(a), lower_key(b)),
{
    crate::order::lemma_text_lt_irreflexive(lowercase_of(a));
    crate::order::lemma_key_lt_cons(FieldView::Text(lowercase_of(a)), Seq::empty(), FieldView::Text(lowercase_of(b)), Seq::empty());
    assert(lower_key(a) =~= seq![FieldView::Text(lowercase_of(a))] + Seq::<FieldView>::empty());
    assert(lower_key(b) =~= seq![FieldView::Text(lowercase_of(b))] + Seq::<FieldView>::empty());
}

/// The artists of an index come in the order of their lowercase names, and
/// so do the albums of each artist.
pub proof fn law_names_in_lowercase_order(lib: Library, tracks: Seq<TrackView>, i: int, p: int, q: int)
    requires
        lib.indexes(tracks),
    ensures
        0 <= p < q < lib.artists@.len() ==>
            !crate::order::text_lt(lowercase_of(lib.artists@[q]@), lowercase_of(lib.artists@[p]@)),
        0 <= i < lib.artists@.len() && 0 <= p < q < lib.albums_by_artist@[i]@.len() ==>
            !crate::order::text_lt(lowercase_of(lib.albums_by_artist@[i]@[q]@), lowercase_of(lib.albums_by_artist@[i]@[p]@)),
{
    if 0 <= p < q < lib.artists@.len() {
        let s = string_views(lib.artists@);
        assert(!crate::order::key_lt(lower_key_fn()(s[q]), lower_key_fn()(s[p])));
        if crate::order::text_lt(lowercase_of(s[q]), lowercase_of(s[p])) {
            lemma_lower_key_lt(s[q], s[p]);
        }
    }
    if 0 <= i < lib.artists@.len() && 0 <= p < q < lib.albums_by_artist@[i]@.len() {
        let s = string_views(lib.albums_by_artist@[i]@);
        assert(crate::order::key_sorted(s, lower_key_fn()));
        assert(!crate::order::key_lt(lower_key_fn()(s[q]), lower_key_fn()(s[p])));
        if crate::order::text_lt(lowercase_of(s[q]), lowercase_of(s[p])) {
            lemma_lower_key_lt(s[q], s[p]);
        }
    }
}

/// How the player names an album of a track: `[year] album`, or the album
/// alone when the year is empty or, trimmed, `----`.
pub open spec fn named_with_year(t: TrackView, name: Seq<char>) -> bool {
    if trim_seq(t.year) == "----"@ || t.year.len() == 0 {
        name == t.album
    } else {
        name == "["@ + t.year + "] "@ + t.album
    }
}

proof fn lemma_named_with_year(t: TrackView)
    ensures
        named_with_year(t, album_display_seq(t)),
{
    reveal_strlit("----");
    reveal_strlit("[");
    reveal_strlit("] ");
    assert("----"@ =~= no_year());
    assert("["@ + t.year + "] "@ + t.album =~= seq!['['] + t.year + seq![']', ' '] + t.album);
}

/// Every album that an index lists under an artist is the album of some
/// track of that artist, named `[year] album` (or the album alone when the
/// year is empty or `----`); every track's album is listed that way under
/// its artist, and the album's track list holds exactly the tracks of that
/// artist and album name.
pub proof fn law_album_names(lib: Library, tracks: Seq<TrackView>, i: int, j: int, k: int)
    requires
        lib.indexes(tracks),
    ensures
        0 <= i < lib.artists@.len() && 0 <= j < lib.albums_by_artist@[i]@.len() ==>
            exists|t: int| 0 <= t < tracks.len() && tracks[t].artist == lib.artists@[i]@
                && named_with_year(tracks[t], lib.albums_by_artist@[i]@[j]@),
        0 <= k < tracks.len() ==>
            exists|a: int, b: int| 0 <= a < lib.artists@.len() && 0 <= b < lib.albums_by_artist@[a]@.len()
                && lib.artists@[a]@ == tracks[k].artist && named_with_year(tracks[k], lib.albums_by_artist@[a]@[b]@),
{
    if 0 <= i < lib.artists@.len() && 0 <= j < lib.albums_by_artist@[i]@.len() {
        let names = string_views(lib.albums_by_artist@[i]@);
        assert(lists_albums(names, tracks, lib.artists@[i]@));
        assert(names[j] == lib.albums_by_artist@[i]@[j]@);
        assert(is_album_of(tracks, lib.artists@[i]@, names[j]));
        let t = choose|t: int| 0 <= t < tracks.len() && tracks[t].artist == lib.artists@[i]@ && album_display_seq(tracks[t]) == names[j];
        lemma_named_with_year(tracks[t]);
    }
    if 0 <= k < tracks.len() {
        let s = string_views(lib.artists@);
        assert(s.contains(tracks[k].artist));
        let a = choose|a: int| 0 <= a < s.len() && s[a] == tracks[k].artist;
        let names = string_views(lib.albums_by_artist@[a]@);
        assert(lists_albums(names, tracks, lib.artists@[a]@));
        assert(names.contains(album_display_seq(tracks[k])));
        let b = choose|b: int| 0 <= b < names.len() && names[b] == album_display_seq(tracks[k]);
        lemma_named_with_year(tracks[k]);
        assert(lib.artists@[a]@ == tracks[k].artist && named_with_year(tracks[k], lib.albums_by_artist@[a]@[b]@));
    }
}

} // verus!
