//! The metadata editor: tracks downloaded into the staging directory, their
//! tags completed from the folder layout, grouped into albums to edit, fetch
//! lyrics for, and move into the music library.

use vstd::prelude::*;
use vstd::utf8::encode_utf8;
use vstd::string::StringSliceAdditionalSpecFns;
use crate::order::{SortField, FieldView, sort_stable, strip_keys, item_key, key_view, lemma_sort_views, is_key_sort_of, key_sorted};
use crate::library::{string_views, distinct_views, contains_string, sort_names, name_key_fn};
use crate::text::{
    chars_of, owned, text_eq, copy_string, split_once, split_once_seq, first_occurrence, contains_seq,
    occurs_at, is_all_digits, all_digits, decimal, decimal_seq, push_str, parse_unsigned, parse_unsigned_spec,
    string_of_range, trim, trim_seq, 
};

verus! {

/// The editable tags of a track in the staging directory.
pub struct TrackMetadata {
    pub path: String,
    pub title: String,
    pub artist: String,
    pub album: String,
    pub year: String,
    pub track_number: String,
}

/// The mathematical value of a track's tags.
pub struct MetaView {
    pub path: Seq<char>,
    pub title: Seq<char>,
    pub artist: Seq<char>,
    pub album: Seq<char>,
    pub year: Seq<char>,
    pub track_number: Seq<char>,
}

impl View for TrackMetadata {
    type V = MetaView;

    open spec fn view(&self) -> MetaView {
        MetaView {
            path: self.path@,
            title: self.title@,
            artist: self.artist@,
            album: self.album@,
            year: self.year@,
            track_number: self.track_number@,
        }
    }
}

/// The views of a sequence of track tags.
pub open spec fn meta_views(s: Seq<TrackMetadata>) -> Seq<MetaView> {
    s.map_values(|t: TrackMetadata| t@)
}

impl TrackMetadata {
    /// A copy of these tags.
    pub fn copy(&self) -> (r: TrackMetadata)
        ensures
            r@ == self@,
    {
        TrackMetadata {
            path: copy_string(&self.path),
            title: copy_string(&self.title),
            artist: copy_string(&self.artist),
            album: copy_string(&self.album),
            year: copy_string(&self.year),
            track_number: copy_string(&self.track_number),
        }
    }
}

/// The tags read from a staged audio file, each possibly missing.
pub struct FileTags {
    pub title: Option<String>,
    pub artist: Option<String>,
    pub album: Option<String>,
    pub year: Option<String>,
    pub track_number: Option<u16>,
}

/// What the directory scan found for one staged audio file: its path, its
/// tags (`None` when they could not be read), the names of its grandparent
/// and parent folders, and its file stem.
pub struct ScannedFile {
    pub path: String,
    pub tags: Option<FileTags>,
    pub artist_dir: Option<String>,
    pub album_dir: Option<String>,
    pub file_stem: Option<String>,
}

/// The text of an optional string, empty when missing.
pub open spec fn text_or_empty(o: Option<String>) -> Seq<char> {
    match o {
        Some(s) => s@,
        None => Seq::empty(),
    }
}

/// The text of an optional string view.
pub open spec fn view_of(o: Option<String>) -> Option<Seq<char>> {
    match o {
        Some(s) => Some(s@),
        None => None,
    }
}

/// The title tag, empty when missing.
pub open spec fn tag_title(f: ScannedFile) -> Seq<char> {
    match f.tags { Some(t) => text_or_empty(t.title), None => Seq::empty() }
}

/// The artist tag, empty when missing.
pub open spec fn tag_artist(f: ScannedFile) -> Seq<char> {
    match f.tags { Some(t) => text_or_empty(t.artist), None => Seq::empty() }
}

/// The album tag, empty when missing.
pub open spec fn tag_album(f: ScannedFile) -> Seq<char> {
    match f.tags { Some(t) => text_or_empty(t.album), None => Seq::empty() }
}

/// The year tag, empty when missing.
pub open spec fn tag_year(f: ScannedFile) -> Seq<char> {
    match f.tags { Some(t) => text_or_empty(t.year), None => Seq::empty() }
}

/// The track number tag in decimal, empty when missing.
pub open spec fn tag_track_number(f: ScannedFile) -> Seq<char> {
    match f.tags {
        Some(t) => match t.track_number { Some(n) => decimal_seq(n as nat), None => Seq::empty() },
        None => Seq::empty(),
    }
}

/// Whether a tag value counts as missing: empty, or the placeholder the
/// editor writes for a missing value.
pub open spec fn is_placeholder(value: Seq<char>, placeholder: Seq<char>) -> bool {
    value.len() == 0 || value == placeholder
}

/// The artist: the tag, or else the name of the grandparent folder unless
/// that is `tmp`.
pub open spec fn inferred_artist(tag: Seq<char>, artist_dir: Option<Seq<char>>) -> Seq<char> {
    if is_placeholder(tag, "Unknown Artist"@) {
        match artist_dir {
            Some(n) => if n != "tmp"@ { n } else { tag },
            None => tag,
        }
    } else {
        tag
    }
}

/// The album and year: the tags, or else from the parent folder, which
/// names the album either as is or as `(year) - album`; the folder's year
/// only fills a missing year tag.
pub open spec fn inferred_album_year(album: Seq<char>, year: Seq<char>, album_dir: Option<Seq<char>>) -> (Seq<char>, Seq<char>) {
    if is_placeholder(album, "Unknown Album"@) {
        match album_dir {
            Some(p) => if p.len() > 0 && p[0] == '(' && contains_seq(p, ") - "@) {
                let parts = split_once_seq(p, ") - "@, first_occurrence(p, ") - "@));
                (parts.1, if year.len() == 0 { parts.0.drop_first() } else { year })
            } else {
                (p, year)
            },
            None => (album, year),
        }
    } else {
        (album, year)
    }
}

/// The title and track number: the tags, or else from the file stem, which
/// names the track either as is or as `number - title` (a number of ASCII
/// digits); the stem's number only fills a missing track number tag.
pub open spec fn inferred_title_number(title: Seq<char>, number: Seq<char>, stem: Option<Seq<char>>) -> (Seq<char>, Seq<char>) {
    if is_placeholder(title, "Unknown Title"@) {
        match stem {
            Some(n) => if contains_seq(n, " - "@) {
                let parts = split_once_seq(n, " - "@, first_occurrence(n, " - "@));
                if all_digits(parts.0) {
                    (parts.1, if number.len() == 0 { parts.0 } else { number })
                } else {
                    (n, number)
                }
            } else {
                (n, number)
            },
            None => (title, number),
        }
    } else {
        (title, number)
    }
}

/// `value`, or `fallback` when it is empty.
pub open spec fn or_default(value: Seq<char>, fallback: Seq<char>) -> Seq<char> {
    if value.len() == 0 { fallback } else { value }
}

/// The tags of a staged file as the editor shows them: read from the file,
/// completed from the folder layout, and "Unknown ..." where still empty.
pub open spec fn inferred_metadata(f: ScannedFile) -> MetaView {
    let artist = inferred_artist(tag_artist(f), view_of(f.artist_dir));
    let ay = inferred_album_year(tag_album(f), tag_year(f), view_of(f.album_dir));
    let tn = inferred_title_number(tag_title(f), tag_track_number(f), view_of(f.file_stem));
    MetaView {
        path: f.path@,
        title: or_default(tn.0, "Unknown Title"@),
        artist: or_default(artist, "Unknown Artist"@),
        album: or_default(ay.0, "Unknown Album"@),
        year: ay.1,
        track_number: tn.1,
    }
}

/// The text of an optional string, empty when missing.
fn string_or_empty(o: &Option<String>) -> (r: String)
    ensures
        r@ == text_or_empty(*o),
{
    match o {
        Some(s) => copy_string(s),
        None => String::new(),
    }
}

/// Whether a tag value counts as missing.
fn is_missing(value: &String, marker: &str) -> (b: bool)
    ensures
        b == is_placeholder(value@, marker@),
{
    value.as_str().is_empty() || text_eq(value.as_str(), marker)
}

/// `value`, or `fallback` when it is empty.
fn with_default(value: String, fallback: &str) -> (r: String)
    ensures
        r@ == or_default(value@, fallback@),
{
    if value.as_str().is_empty() { owned(fallback) } else { value }
}

/// The artist, completed from the folder layout.
fn complete_artist(tag: String, artist_dir: &Option<String>) -> (r: String)
    ensures
        r@ == inferred_artist(tag@, view_of(*artist_dir)),
{
    if is_missing(&tag, "Unknown Artist") {
        if let Some(n) = artist_dir {
            if !text_eq(n.as_str(), "tmp") {
                return copy_string(n);
            }
        }
    }
    tag
}

/// All characters of `s` but the first.
fn drop_first_char(s: &String) -> (r: String)
    requires
        s@.len() > 0,
    ensures
        r@ == s@.drop_first(),
{
    let c = chars_of(s.as_str());
    let len = c.len();
    assert(c@.subrange(1, len as int) == c@.drop_first());
    string_of_range(&c, 1, len)
}

proof fn lemma_year_prefix_nonempty(p: Seq<char>)
    requires
        p.len() > 0,
        p[0] == '(',
        contains_seq(p, ") - "@),
    ensures
        first_occurrence(p, ") - "@) >= 1,
        occurs_at(p, ") - "@, first_occurrence(p, ") - "@)),
{
    reveal(first_occurrence);
    let f = first_occurrence(p, ") - "@);
    let w = choose|i: int| occurs_at(p, ") - "@, i);
    assert(exists|i: int| occurs_at(p, ") - "@, i) && forall|j: int| 0 <= j < i ==> !occurs_at(p, ") - "@, j)) by {
        lemma_first_occurrence_exists(p, ") - "@, w);
    }
    if f == 0 {
        reveal_strlit(") - ");
        assert(p.subrange(0, 4)[0] == p[0]);
    }
}

/// A first occurrence exists wherever an occurrence does.
pub proof fn lemma_first_occurrence_exists(s: Seq<char>, sep: Seq<char>, w: int)
    requires
        occurs_at(s, sep, w),
    ensures
        exists|i: int| occurs_at(s, sep, i) && forall|j: int| 0 <= j < i ==> !occurs_at(s, sep, j),
    decreases w,
{
    if exists|j: int| 0 <= j < w && occurs_at(s, sep, j) {
        let j = choose|j: int| 0 <= j < w && occurs_at(s, sep, j);
        lemma_first_occurrence_exists(s, sep, j);
    } else {
        assert(occurs_at(s, sep, w) && forall|j: int| 0 <= j < w ==> !occurs_at(s, sep, j));
    }
}

/// The album and year, completed from the folder layout.
fn complete_album_year(album: String, year: String, album_dir: &Option<String>) -> (r: (String, String))
    ensures
        (r.0@, r.1@) == inferred_album_year(album@, year@, view_of(*album_dir)),
{
    if is_missing(&album, "Unknown Album") {
        if let Some(p) = album_dir {
            let pc = chars_of(p.as_str());
            let split = split_once(p.as_str(), ") - ");
            if pc.len() > 0 && pc[0] == '(' && split.is_some() {
                let (first, second) = split.unwrap();
                proof {
                    lemma_year_prefix_nonempty(p@);
                    assert(first@.len() >= 1);
                }
                if year.as_str().is_empty() {
                    return (second, drop_first_char(&first));
                } else {
                    return (second, year);
                }
            } else {
                return (copy_string(p), year);
            }
        }
    }
    (album, year)
}

/// The title and track number, completed from the file stem.
fn complete_title_number(title: String, number: String, stem: &Option<String>) -> (r: (String, String))
    ensures
        (r.0@, r.1@) == inferred_title_number(title@, number@, view_of(*stem)),
{
    if is_missing(&title, "Unknown Title") {
        if let Some(n) = stem {
            if let Some((first, second)) = split_once(n.as_str(), " - ") {
                if is_all_digits(first.as_str()) {
                    if number.as_str().is_empty() {
                        return (second, first);
                    } else {
                        return (second, number);
                    }
                }
            }
            return (copy_string(n), number);
        }
    }
    (title, number)
}

/// The tags of a staged file as the editor shows them: read from the file,
/// completed from the folder layout, and "Unknown ..." where still empty.
pub fn infer_metadata(f: ScannedFile) -> (m: TrackMetadata)
    ensures
        m@ == inferred_metadata(f),
{
    let (title, artist, album, year, number) = match &f.tags {
        Some(t) => (
            string_or_empty(&t.title),
            string_or_empty(&t.artist),
            string_or_empty(&t.album),
            string_or_empty(&t.year),
            match t.track_number { Some(n) => decimal(n as u64), None => String::new() },
        ),
        None => (String::new(), String::new(), String::new(), String::new(), String::new()),
    };
    assert(title@ == tag_title(f) && artist@ == tag_artist(f) && album@ == tag_album(f));
    assert(year@ == tag_year(f) && number@ == tag_track_number(f));
    let artist = complete_artist(artist, &f.artist_dir);
    let (album, year) = complete_album_year(album, year, &f.album_dir);
    let (title, number) = complete_title_number(title, number, &f.file_stem);
    TrackMetadata {
        path: f.path,
        title: with_default(title, "Unknown Title"),
        artist: with_default(artist, "Unknown Artist"),
        album: with_default(album, "Unknown Album"),
        year,
        track_number: number,
    }
}

/// The name of the album group a track belongs to: `artist - album`.
pub open spec fn group_name(t: MetaView) -> Seq<char> {
    t.artist + " - "@ + t.album
}

/// Whether a track belongs to the album group `name`.
pub open spec fn in_group(name: Seq<char>) -> spec_fn(MetaView) -> bool {
    |t: MetaView| group_name(t) == name
}

/// The track number as the editor orders by it: the tag read as a `u32`,
/// or 0 when it is not one.
pub open spec fn number_value(t: MetaView) -> nat {
    match parse_unsigned_spec(t.track_number, 0xFFFF_FFFF) {
        Some(n) => n,
        None => 0,
    }
}

/// The key under which the tracks of an album group are ordered.
pub open spec fn number_key(t: MetaView) -> Seq<FieldView> {
    seq![FieldView::Num(number_value(t))]
}

/// `number_key` as a function value.
pub open spec fn number_key_fn() -> spec_fn(MetaView) -> Seq<FieldView> {
    |t: MetaView| number_key(t)
}

/// An album group of the editor: its name and its tracks.
pub struct AlbumGroup {
    pub name: String,
    pub tracks: Vec<TrackMetadata>,
}

/// Whether some track belongs to the group `name`.
pub open spec fn is_group_of(tracks: Seq<MetaView>, name: Seq<char>) -> bool {
    exists|i: int| 0 <= i < tracks.len() && group_name(tracks[i]) == name
}

/// Whether `groups` are the album groups of `tracks`: one per group name,
/// ordered by name, each holding the group's tracks stably sorted by track
/// number.
pub open spec fn groups_of(groups: Seq<AlbumGroup>, tracks: Seq<MetaView>) -> bool {
    let names = groups.map_values(|g: AlbumGroup| g.name@);
    &&& distinct_views(names)
    &&& forall|i: int| 0 <= i < tracks.len() ==> names.contains(group_name(#[trigger] tracks[i]))
    &&& forall|j: int| 0 <= j < names.len() ==> is_group_of(tracks, #[trigger] names[j])
    &&& key_sorted(names, name_key_fn(false))
    &&& forall|j: int| 0 <= j < groups.len() ==> is_key_sort_of(
        meta_views((#[trigger] groups[j]).tracks@),
        tracks.filter(in_group(groups[j].name@)),
        number_key_fn(),
    )
}

/// The name of a track's album group.
pub fn group_name_of(t: &TrackMetadata) -> (r: String)
    ensures
        r@ == group_name(t@),
{
    let mut r = copy_string(&t.artist);
    push_str(&mut r, " - ");
    push_str(&mut r, t.album.as_str());
    r
}

/// The group names of the tracks, once each, in order of first appearance.
fn distinct_group_names(tracks: &Vec<TrackMetadata>) -> (r: Vec<String>)
    ensures
        distinct_views(string_views(r@)),
        forall|i: int| 0 <= i < tracks@.len() ==> string_views(r@).contains(group_name(#[trigger] meta_views(tracks@)[i])),
        forall|j: int| 0 <= j < r@.len() ==> is_group_of(meta_views(tracks@), #[trigger] string_views(r@)[j]),
{
    let ghost tv = meta_views(tracks@);
    let mut r: Vec<String> = Vec::new();
    let mut i: usize = 0;
    while i < tracks.len()
        invariant
            i <= tracks.len(),
            tv == meta_views(tracks@),
            distinct_views(string_views(r@)),
            forall|k: int| 0 <= k < i ==> string_views(r@).contains(group_name(#[trigger] tv[k])),
            forall|j: int| 0 <= j < r@.len() ==> is_group_of(tv, #[trigger] string_views(r@)[j]),
        decreases tracks.len() - i,
    {
        let ghost before = string_views(r@);
        assert(tv[i as int] == tracks@[i as int]@);
        let name = group_name_of(&tracks[i]);
        if !contains_string(&r, &name) {
            r.push(name);
            assert(string_views(r@) =~= before.push(group_name(tv[i as int])));
            assert forall|j: int| 0 <= j < r@.len() implies is_group_of(tv, #[trigger] string_views(r@)[j]) by {
                if j < before.len() {
                    assert(string_views(r@)[j] == before[j]);
                } else {
                    assert(group_name(tv[i as int]) == string_views(r@)[j]);
                }
            }
            assert forall|k: int| 0 <= k < i + 1 implies string_views(r@).contains(group_name(#[trigger] tv[k])) by {
                if k < i {
                    let w = choose|w: int| 0 <= w < before.len() && before[w] == group_name(tv[k]);
                    assert(string_views(r@)[w] == before[w]);
                } else {
                    assert(string_views(r@)[before.len() as int] == group_name(tv[k]));
                }
            }
        }
        i = i + 1;
    }
    r
}

/// The tracks of one group, in the given order.
fn tracks_in_group(tracks: &Vec<TrackMetadata>, name: &String) -> (r: Vec<TrackMetadata>)
    ensures
        meta_views(r@) == meta_views(tracks@).filter(in_group(name@)),
{
    broadcast use vstd::seq_lib::group_seq_properties;
    let ghost tv = meta_views(tracks@);
    let ghost p = in_group(name@);
    let mut r: Vec<TrackMetadata> = Vec::new();
    let mut i: usize = 0;
    while i < tracks.len()
        invariant
            i <= tracks.len(),
            tv == meta_views(tracks@),
            p == in_group(name@),
            meta_views(r@) == tv.take(i as int).filter(p),
        decreases tracks.len() - i,
    {
        let ghost before = r@;
        assert(tv.take(i + 1) == tv.take(i as int).push(tv[i as int]));
        proof { tv.take(i as int).lemma_filter_push(tv[i as int], p); }
        assert(tv[i as int] == tracks@[i as int]@);
        let g = group_name_of(&tracks[i]);
        if text_eq(g.as_str(), name.as_str()) {
            r.push(tracks[i].copy());
            assert(meta_views(r@) =~= meta_views(before).push(tv[i as int]));
        }
        i = i + 1;
    }
    assert(tv.take(tracks.len() as int) == tv);
    r
}

/// The view of the tags of a key/tags pair.
pub open spec fn pair_meta() -> spec_fn((Vec<SortField>, TrackMetadata)) -> MetaView {
    |p: (Vec<SortField>, TrackMetadata)| p.1@
}

/// Sorts the tracks of a group by track number, keeping the given order
/// among tracks with equal numbers.
fn sort_by_number(v: Vec<TrackMetadata>) -> (r: Vec<TrackMetadata>)
    ensures
        is_key_sort_of(meta_views(r@), meta_views(v@), number_key_fn()),
{
    let ghost orig = v@;
    let total = v.len();
    let mut rest = v;
    let mut pairs: Vec<(Vec<SortField>, TrackMetadata)> = Vec::new();
    let mut n: usize = 0;
    while rest.len() > 0
        invariant
            n + rest@.len() == orig.len(),
            orig.len() == total,
            rest@ == orig.skip(n as int),
            pairs@.len() == n,
            forall|q: int| 0 <= q < n ==> (#[trigger] pairs@[q]).1 == orig[q],
            forall|q: int| 0 <= q < n ==> item_key(#[trigger] pairs@[q]) == number_key(pairs@[q].1@),
        decreases rest@.len(),
    {
        let t = rest.remove(0);
        assert(t == orig[n as int]);
        let digits = chars_of(t.track_number.as_str());
        let number: u64 = match parse_unsigned(&digits, 0xFFFF_FFFF) { Some(x) => x, None => 0 };
        let mut key: Vec<SortField> = Vec::new();
        key.push(SortField::Num(number));
        assert(key_view(key@) =~= number_key(t@));
        pairs.push((key, t));
        n = n + 1;
    }
    let ghost unsorted = pairs@;
    let ghost f = pair_meta();
    assert(unsorted.map_values(f) =~= meta_views(orig));
    let sorted = sort_stable(pairs);
    let ghost sv = sorted@;
    proof {
        assert forall|q: int| 0 <= q < sv.len() implies item_key(#[trigger] sv[q]) == number_key_fn()(f(sv[q])) by {
            let w = choose|w: int| 0 <= w < unsorted.len() && unsorted[w] == sv[q];
        }
        lemma_sort_views(sv, unsorted, f, number_key_fn());
    }
    let r = strip_keys(sorted);
    assert(meta_views(r@) =~= sv.map_values(f));
    r
}

/// Groups tracks into albums by `artist - album`: groups ordered by name,
/// each holding its tracks stably sorted by track number.
pub fn group_albums(tracks: Vec<TrackMetadata>) -> (groups: Vec<AlbumGroup>)
    ensures
        groups_of(groups@, meta_views(tracks@)),
{
    let ghost tv = meta_views(tracks@);
    let found = distinct_group_names(&tracks);
    let ghost fv = string_views(found@);
    let names = sort_names(found, false);
    let ghost nv = string_views(names@);
    let mut groups: Vec<AlbumGroup> = Vec::new();
    let mut j: usize = 0;
    while j < names.len()
        invariant
            j <= names.len(),
            tv == meta_views(tracks@),
            nv == string_views(names@),
            groups@.len() == j,
            forall|q: int| 0 <= q < j ==> (#[trigger] groups@[q]).name@ == nv[q],
            forall|q: int| 0 <= q < j ==> is_key_sort_of(
                meta_views((#[trigger] groups@[q]).tracks@),
                tv.filter(in_group(groups@[q].name@)),
                number_key_fn(),
            ),
        decreases names.len() - j,
    {
        let members = tracks_in_group(&tracks, &names[j]);
        let sorted = sort_by_number(members);
        groups.push(AlbumGroup { name: copy_string(&names[j]), tracks: sorted });
        j = j + 1;
    }
    proof {
        let gn = groups@.map_values(|g: AlbumGroup| g.name@);
        assert(gn =~= nv);
        assert forall|i: int| 0 <= i < tv.len() implies nv.contains(group_name(#[trigger] tv[i])) by {
            let w = choose|w: int| 0 <= w < fv.len() && fv[w] == group_name(tv[i]);
            assert(nv.contains(fv[w]));
        }
        assert forall|q: int| 0 <= q < nv.len() implies is_group_of(tv, #[trigger] nv[q]) by {
            assert(fv.contains(nv[q]));
            let w = choose|w: int| 0 <= w < fv.len() && fv[w] == nv[q];
            assert(is_group_of(tv, fv[w]));
        }
    }
    groups
}

/// Whether a byte is left as is by URL encoding: an ASCII letter or digit, or
/// one of `-`, `.`, `_`, `~`.
pub open spec fn is_url_safe(b: u8) -> bool {
    (48 <= b <= 57) || (65 <= b <= 90) || (97 <= b <= 122) || b == 45 || b == 46 || b == 95 || b == 126
}

/// The uppercase hexadecimal digit of a value below 16.
pub open spec fn hex_digit(d: int) -> char {
    if d < 10 { (48 + d) as char } else { (55 + d) as char }
}

/// The URL encoding of bytes: safe bytes as themselves, every other byte as
/// `%` and its two uppercase hexadecimal digits.
pub open spec fn url_encoded(bytes: Seq<u8>) -> Seq<char>
    decreases bytes.len(),
{
    if bytes.len() == 0 {
        Seq::empty()
    } else {
        let b = bytes.last();
        url_encoded(bytes.drop_last()) + if is_url_safe(b) {
            seq![b as char]
        } else {
            seq!['%', hex_digit(b as int / 16), hex_digit(b as int % 16)]
        }
    }
}

/// Calls `urlencoding::encode`, which percent-encodes every byte of the UTF-8
/// text except ASCII letters, digits and `-`, `.`, `_`, `~`, with uppercase
/// hexadecimal digits.
#[verifier::external_body]
fn url_encode(s: &str) -> (r: String)
    ensures
        r@ == url_encoded(s.spec_bytes()),
{
    urlencoding::encode(s).into_owned()
}

/// The lyrics search address for a track on lrclib.net.
pub open spec fn lyrics_search_url(title: Seq<char>, artist: Seq<char>) -> Seq<char> {
    "https://lrclib.net/api/search?track_name="@ + url_encoded(encode_utf8(title)) + "&artist_name="@
        + url_encoded(encode_utf8(artist))
}

/// The lyrics search address for a track.
pub fn lyrics_url(title: &str, artist: &str) -> (r: String)
    ensures
        r@ == lyrics_search_url(title@, artist@),
{
    let mut r = owned("https://lrclib.net/api/search?track_name=");
    let t = url_encode(title);
    push_str(&mut r, t.as_str());
    push_str(&mut r, "&artist_name=");
    let a = url_encode(artist);
    push_str(&mut r, a.as_str());
    r
}

/// A lyrics download to make: where to search, and the track whose lyrics
/// file it fills.
pub struct LyricsRequest {
    pub url: String,
    pub track_path: String,
}

/// The synced lyrics to save from a search reply's first result: the text,
/// unless it is missing or only whitespace.
pub fn synced_lyrics_to_save(synced: Option<String>) -> (r: Option<String>)
    ensures
        match synced {
            Some(s) => if trim_seq(s@).len() > 0 { r is Some && r->0@ == s@ } else { r is None },
            None => r is None,
        },
{
    match synced {
        Some(s) => {
            let t = trim(s.as_str());
            if t.as_str().is_empty() { None } else { Some(s) }
        },
        None => None,
    }
}

/// Whether a file with this extension is one the editor stages: an `.m4a`
/// file (M4A tags) or an `.mp3` file (ID3 tags), the extension compared as
/// written.
pub fn is_staged_extension(ext: &str) -> (b: bool)
    ensures
        b == (ext@ == "m4a"@ || ext@ == "mp3"@),
{
    text_eq(ext, "m4a") || text_eq(ext, "mp3")
}

/// What `serde_json` reads from the body of an lrclib search reply: `None`
/// where the body is no JSON array, else for each element of the array its
/// `syncedLyrics` string, where it has one.
pub uninterp spec fn reply_synced_entries(body: Seq<u8>) -> Option<Seq<Option<Seq<char>>>>;

/// The views of optional strings.
pub open spec fn opt_views(v: Seq<Option<String>>) -> Seq<Option<Seq<char>>> {
    v.map_values(|o: Option<String>| match o { Some(s) => Some(s@), None => None })
}

/// Reads a search reply's body with `serde_json::from_slice` as an array of
/// JSON values and takes the `syncedLyrics` string of each, where there is
/// one. What it gives is named by `reply_synced_entries`; JSON parsing is not
/// stated here.
#[verifier::external_body]
fn synced_entries(body: &[u8]) -> (r: Option<Vec<Option<String>>>)
    ensures
        r is Some <==> reply_synced_entries(body@) is Some,
        r matches Some(v) ==> reply_synced_entries(body@) == Some(opt_views(v@)),
{
    serde_json::from_slice::<Vec<serde_json::Value>>(body)
        .ok()
        .map(|results| results.iter().map(|v| v.get("syncedLyrics").and_then(|x| x.as_str()).map(|x| x.to_string())).collect())
}

/// The synced lyrics of a reply's first result, if the reply is an array with
/// a first result that has them.
pub open spec fn reply_first_synced(body: Seq<u8>) -> Option<Seq<char>> {
    match reply_synced_entries(body) {
        Some(e) => if e.len() > 0 { e[0] } else { None },
        None => None,
    }
}

/// The synced lyrics to save from the body of an lrclib search reply: those
/// of its first result, unless they are missing or only whitespace.
pub fn lyrics_to_save_from_reply(body: &[u8]) -> (r: Option<String>)
    ensures
        match reply_first_synced(body@) {
            Some(s) => if trim_seq(s).len() > 0 { r is Some && r->0@ == s } else { r is None },
            None => r is None,
        },
{
    let first: Option<String> = match synced_entries(body) {
        Some(v) => {
            if v.len() > 0 {
                match &v[0] {
                    Some(s) => Some(copy_string(s)),
                    None => None,
                }
            } else {
                None
            }
        },
        None => None,
    };
    synced_lyrics_to_save(first)
}

/// The tag values that saving a track's metadata writes: title, artist (also
/// as album artist), album, the trimmed year, and the trimmed track number
/// when it reads as a `u16` (otherwise the number tag is left as it was).
pub struct TagUpdate {
    pub title: String,
    pub artist: String,
    pub album_artist: String,
    pub album: String,
    pub year: String,
    pub track_number: Option<u16>,
}

/// Whether `u` holds the tags that saving these edited values writes.
pub open spec fn is_tag_update(
    u: TagUpdate,
    title: Seq<char>,
    artist: Seq<char>,
    album: Seq<char>,
    year: Seq<char>,
    track_number: Seq<char>,
) -> bool {
    &&& u.title@ == title
    &&& u.artist@ == artist
    &&& u.album_artist@ == artist
    &&& u.album@ == album
    &&& u.year@ == trim_seq(year)
    &&& u.track_number == (match parse_unsigned_spec(trim_seq(track_number), 0xFFFF) {
        Some(n) => Some(n as u16),
        None => None,
    })
}

/// One track to move into the library: its file, and the artist and album
/// folders it goes to.
pub struct TrackMove {
    pub path: String,
    pub artist_dir: String,
    pub album_dir: String,
}

/// The folder name of an album in the library: `(year) - album`, or the
/// album alone when the year is empty.
pub open spec fn album_dir_name(t: MetaView) -> Seq<char> {
    if t.year.len() == 0 { t.album } else { "("@ + t.year + ") - "@ + t.album }
}

/// The message shown after a scan of the staging directory.
pub open spec fn scan_status(albums: nat) -> Seq<char> {
    "Scanned "@ + decimal_seq(albums) + " albums. Press 'e' to edit selected track, 'E' to bulk edit album."@
}

/// The state of the metadata editor.
pub struct MetadataState {
    pub tmp_dir: String,
    pub albums: Vec<AlbumGroup>,
    pub selected_album: usize,
    pub selected_track: usize,
    pub is_loading: bool,
    pub status: String,
}

/// What taking the album at `album_index` out of the editor `m` gives, `n`
/// being the editor afterwards: for an index past the albums, nothing and no
/// change; otherwise, for each of its tracks, the artist and album folders
/// it goes to, the album removed, the selection kept within the remaining
/// albums (the last album and its first track when it fell off the end),
/// and the move reported.
pub open spec fn album_moved(m: MetadataState, album_index: usize, n: MetadataState, r: Option<Vec<TrackMove>>) -> bool {
    &&& album_index >= m.albums@.len() ==> r is None && n == m
    &&& album_index < m.albums@.len() ==> {
        let album = m.albums@[album_index as int];
        let left = m.albums@.remove(album_index as int);
        &&& r is Some
        &&& r->0@.len() == album.tracks@.len()
        &&& forall|i: int| 0 <= i < album.tracks@.len() ==> {
            let t = album.tracks@[i]@;
            &&& (#[trigger] r->0@[i]).path@ == t.path
            &&& r->0@[i].artist_dir@ == t.artist
            &&& r->0@[i].album_dir@ == album_dir_name(t)
        }
        &&& n.albums@ == left
        &&& (if m.selected_album >= left.len() {
            n.selected_album == (if left.len() > 0 { left.len() - 1 } else { 0 })
                && n.selected_track == 0
        } else {
            n.selected_album == m.selected_album && n.selected_track == m.selected_track
        })
        &&& n.status@ == "Moved "@ + album.name@ + " to library."@
        &&& n.is_loading == m.is_loading
        &&& n.tmp_dir == m.tmp_dir
    }
}

/// What starting to fetch the lyrics of the album at `album_index` of the
/// editor `m` gives, `n` being the editor afterwards: for an index past the
/// albums, nothing and no change; otherwise the search to make for each of
/// its tracks, the editor marked as loading, and the number of tracks
/// reported.
pub open spec fn lyrics_requested(m: MetadataState, album_index: usize, n: MetadataState, r: Option<Vec<LyricsRequest>>) -> bool {
    &&& album_index >= m.albums@.len() ==> r is None && n == m
    &&& album_index < m.albums@.len() ==> {
        let tracks = m.albums@[album_index as int].tracks@;
        &&& r is Some
        &&& r->0@.len() == tracks.len()
        &&& forall|i: int| 0 <= i < tracks.len() ==> (#[trigger] r->0@[i]).url@ == lyrics_search_url(tracks[i].title@, tracks[i].artist@)
            && r->0@[i].track_path@ == tracks[i].path@
        &&& n.is_loading
        &&& n.status@ == "Fetching lyrics for "@ + decimal_seq(tracks.len()) + " tracks..."@
        &&& n == (MetadataState { is_loading: n.is_loading, status: n.status, ..m })
    }
}

/// Whether `n` is the editor `m` after a key press: once the lyrics
/// downloads are over, a "Fetching..." message gives way to "Finished
/// fetching lyrics.".
pub open spec fn status_refreshed(m: MetadataState, n: MetadataState) -> bool {
    &&& n.status@ == (if !m.is_loading && occurs_at(m.status@, "Fetching"@, 0) {
        "Finished fetching lyrics."@
    } else {
        m.status@
    })
    &&& n == (MetadataState { status: n.status, ..m })
}

/// The tags of the scanned files as the editor shows them.
pub open spec fn inferred_all(files: Seq<ScannedFile>) -> Seq<MetaView> {
    files.map_values(|f: ScannedFile| inferred_metadata(f))
}

impl MetadataState {
    /// Whether the editor shows the result of scanning `files`: their album
    /// groups, with the first album and track selected, not loading.
    pub open spec fn shows_scan_of(&self, files: Seq<ScannedFile>) -> bool {
        &&& groups_of(self.albums@, inferred_all(files))
        &&& !self.is_loading
        &&& self.status@ == scan_status(self.albums@.len())
        &&& self.selected_album == 0
        &&& self.selected_track == 0
    }

    /// The editor for the staging directory `tmp_dir`, showing the scan of
    /// the files found there.
    pub fn new(tmp_dir: String, files: Vec<ScannedFile>) -> (s: Self)
        ensures
            s.tmp_dir@ == tmp_dir@,
            s.shows_scan_of(files@),
    {
        let mut state = MetadataState {
            tmp_dir,
            albums: Vec::new(),
            selected_album: 0,
            selected_track: 0,
            is_loading: false,
            status: owned("Idle. Press 'r' to rescan tmp directory."),
        };
        state.scan_directory(files);
        state
    }

    /// Replaces the albums with those of a new scan of the staging directory,
    /// selects the first album and track, and reports the number of albums.
    pub fn scan_directory(&mut self, files: Vec<ScannedFile>)
        ensures
            final(self).tmp_dir == old(self).tmp_dir,
            final(self).shows_scan_of(files@),
    {
        let ghost orig = files@;
        let total = files.len();
        let mut rest = files;
        let mut tracks: Vec<TrackMetadata> = Vec::new();
        let mut n: usize = 0;
        while rest.len() > 0
            invariant
                n + rest@.len() == orig.len(),
                orig.len() == total,
                rest@ == orig.skip(n as int),
                meta_views(tracks@) == inferred_all(orig.take(n as int)),
            decreases rest@.len(),
        {
            let f = rest.remove(0);
            assert(f == orig[n as int]);
            let ghost before = tracks@;
            tracks.push(infer_metadata(f));
            assert(meta_views(tracks@) =~= meta_views(before).push(inferred_metadata(orig[n as int])));
            assert(orig.take(n + 1) == orig.take(n as int).push(orig[n as int]));
            assert(inferred_all(orig.take(n + 1)) =~= inferred_all(orig.take(n as int)).push(inferred_metadata(orig[n as int])));
            n = n + 1;
        }
        assert(orig.take(n as int) == orig);
        self.albums = group_albums(tracks);
        self.is_loading = false;
        let mut status = owned("Scanned ");
        let count = decimal(self.albums.len() as u64);
        push_str(&mut status, count.as_str());
        push_str(&mut status, " albums. Press 'e' to edit selected track, 'E' to bulk edit album.");
        self.status = status;
        self.selected_album = 0;
        self.selected_track = 0;
    }

    /// The tag values to write when saving a track's metadata.
    pub fn save_track_metadata(title: &str, artist: &str, album: &str, year: &str, track_number: &str) -> (u: TagUpdate)
        ensures
            is_tag_update(u, title@, artist@, album@, year@, track_number@),
    {
        let number = trim(track_number);
        let digits = chars_of(number.as_str());
        let parsed = parse_unsigned(&digits, 0xFFFF);
        TagUpdate {
            title: owned(title),
            artist: owned(artist),
            album_artist: owned(artist),
            album: owned(album),
            year: trim(year),
            track_number: match parsed { Some(n) => Some(n as u16), None => None },
        }
    }

    /// Starts fetching the lyrics of the album at `album_index`: marks the
    /// editor as loading, reports how many tracks are being fetched, and
    /// gives the search to make for each of its tracks. An index past the
    /// albums changes nothing and gives `None`.
    pub fn fetch_lyrics(&mut self, album_index: usize) -> (r: Option<Vec<LyricsRequest>>)
        ensures
            lyrics_requested(*old(self), album_index, *final(self), r),
    {
        if album_index >= self.albums.len() {
            return None;
        }
        let album = &self.albums[album_index];
        let mut requests: Vec<LyricsRequest> = Vec::new();
        let mut i: usize = 0;
        while i < album.tracks.len()
            invariant
                i <= album.tracks@.len(),
                requests@.len() == i,
                forall|k: int| 0 <= k < i ==> (#[trigger] requests@[k]).url@ == lyrics_search_url(album.tracks@[k].title@, album.tracks@[k].artist@)
                    && requests@[k].track_path@ == album.tracks@[k].path@,
            decreases album.tracks@.len() - i,
        {
            let t = &album.tracks[i];
            requests.push(LyricsRequest { url: lyrics_url(t.title.as_str(), t.artist.as_str()), track_path: copy_string(&t.path) });
            i = i + 1;
        }
        let mut status = owned("Fetching lyrics for ");
        let count = decimal(album.tracks.len() as u64);
        push_str(&mut status, count.as_str());
        push_str(&mut status, " tracks...");
        self.is_loading = true;
        self.status = status;
        Some(requests)
    }

    /// Records that the lyrics downloads have finished.
    pub fn finish_loading(&mut self)
        ensures
            *final(self) == (MetadataState { is_loading: false, ..*old(self) }),
    {
        self.is_loading = false;
    }

    /// After a key press: once the lyrics downloads are over, a "Fetching..."
    /// message gives way to "Finished fetching lyrics.".
    pub fn refresh_status(&mut self)
        ensures
            status_refreshed(*old(self), *final(self)),
    {
        let status = chars_of(self.status.as_str());
        let prefix = chars_of("Fetching");
        if !self.is_loading && crate::text::starts_with(&status, &prefix) {
            self.status = owned("Finished fetching lyrics.");
        }
    }

    /// Takes the album at `album_index` out of the editor to move it into
    /// the library: gives, for each of its tracks, the artist and album
    /// folders it goes to; keeps the selection within the remaining albums
    /// (moving to the last album, and its first track, when it fell off the
    /// end); and reports the move. An index past the albums changes nothing
    /// and gives `None`.
    pub fn move_album_to_library(&mut self, album_index: usize) -> (r: Option<Vec<TrackMove>>)
        ensures
            album_moved(*old(self), album_index, *final(self), r),
    {
        if album_index >= self.albums.len() {
            return None;
        }
        let album = self.albums.remove(album_index);
        let mut moves: Vec<TrackMove> = Vec::new();
        let mut i: usize = 0;
        while i < album.tracks.len()
            invariant
                i <= album.tracks@.len(),
                moves@.len() == i,
                forall|k: int| 0 <= k < i ==> {
                    let t = album.tracks@[k]@;
                    &&& (#[trigger] moves@[k]).path@ == t.path
                    &&& moves@[k].artist_dir@ == t.artist
                    &&& moves@[k].album_dir@ == album_dir_name(t)
                },
            decreases album.tracks@.len() - i,
        {
            let t = &album.tracks[i];
            let dir = if t.year.as_str().is_empty() {
                copy_string(&t.album)
            } else {
                let mut d = owned("(");
                push_str(&mut d, t.year.as_str());
                push_str(&mut d, ") - ");
                push_str(&mut d, t.album.as_str());
                d
            };
            moves.push(TrackMove { path: copy_string(&t.path), artist_dir: copy_string(&t.artist), album_dir: dir });
            i = i + 1;
        }
        if self.selected_album >= self.albums.len() {
            self.selected_album = if self.albums.len() > 0 { self.albums.len() - 1 } else { 0 };
            self.selected_track = 0;
        }
        let mut status = owned("Moved ");
        push_str(&mut status, album.name.as_str());
        push_str(&mut status, " to library.");
        self.status = status;
        Some(moves)
    }
}

/// Grouping misses no track: every scanned track is in the album group
/// named by its artist and album, and a group's tracks are exactly the
/// scanned tracks of that name.
pub proof fn law_every_track_grouped(groups: Seq<AlbumGroup>, tracks: Seq<MetaView>, k: int)
    requires
        groups_of(groups, tracks),
        0 <= k < tracks.len(),
    ensures
        exists|j: int| 0 <= j < groups.len() && #[trigger] groups[j].name@ == group_name(tracks[k])
            && meta_views(groups[j].tracks@).contains(tracks[k]),
{
    let t = tracks[k];
    let names = groups.map_values(|g: AlbumGroup| g.name@);
    assert(names.contains(group_name(t)));
    let j = choose|j: int| 0 <= j < names.len() && names[j] == group_name(t);
    let p = in_group(groups[j].name@);
    tracks.lemma_filter_contains(p, k);
    crate::order::lemma_key_sort_contains(meta_views(groups[j].tracks@), tracks.filter(p), number_key_fn(), t);
}

/// A group's tracks are exactly the scanned tracks whose group name is the
/// group's.
pub proof fn law_group_holds_its_tracks(groups: Seq<AlbumGroup>, tracks: Seq<MetaView>, j: int, t: MetaView)
    requires
        groups_of(groups, tracks),
        0 <= j < groups.len(),
    ensures
        meta_views(groups[j].tracks@).contains(t) <==> (tracks.contains(t) && group_name(t) == groups[j].name@),
{
    let p = in_group(groups[j].name@);
    let b = tracks.filter(p);
    crate::order::lemma_key_sort_contains(meta_views(groups[j].tracks@), b, number_key_fn(), t);
    if b.contains(t) {
        tracks.lemma_filter_contains_rev(p, t);
        let x = choose|x: int| 0 <= x < b.len() && b[x] == t;
        tracks.lemma_filter_pred(p, x);
    }
    if tracks.contains(t) && p(t) {
        let x = choose|x: int| 0 <= x < tracks.len() && tracks[x] == t;
        tracks.lemma_filter_contains(p, x);
    }
}

/// A scan fixes what the editor shows: two editors showing the scan of the
/// same files show the same album groups, with the same names and the same
/// tracks in the same order, the same status and the same selection. So a
/// new editor shows what a rescan of the same files shows.
pub proof fn law_scan_fixes_albums(m1: MetadataState, m2: MetadataState, files: Seq<ScannedFile>)
    requires
        m1.shows_scan_of(files),
        m2.shows_scan_of(files),
    ensures
        m1.albums@.len() == m2.albums@.len(),
        forall|j: int| 0 <= j < m1.albums@.len() ==> (#[trigger] m1.albums@[j]).name@ == m2.albums@[j].name@
            && meta_views(m1.albums@[j].tracks@) == meta_views(m2.albums@[j].tracks@),
        m1.status@ == m2.status@,
        m1.selected_album == m2.selected_album,
        m1.selected_track == m2.selected_track,
        m1.is_loading == m2.is_loading,
{
    let tracks = inferred_all(files);
    let n1 = m1.albums@.map_values(|g: AlbumGroup| g.name@);
    let n2 = m2.albums@.map_values(|g: AlbumGroup| g.name@);
    assert forall|v: Seq<char>| n1.contains(v) <==> is_group_of(tracks, v) by {
        if n1.contains(v) {
            let k = choose|k: int| 0 <= k < n1.len() && n1[k] == v;
            assert(is_group_of(tracks, n1[k]));
        }
        if is_group_of(tracks, v) {
            let k = choose|k: int| 0 <= k < tracks.len() && group_name(tracks[k]) == v;
            assert(n1.contains(group_name(tracks[k])));
        }
    }
    assert forall|v: Seq<char>| n2.contains(v) <==> is_group_of(tracks, v) by {
        if n2.contains(v) {
            let k = choose|k: int| 0 <= k < n2.len() && n2[k] == v;
            assert(is_group_of(tracks, n2[k]));
        }
        if is_group_of(tracks, v) {
            let k = choose|k: int| 0 <= k < tracks.len() && group_name(tracks[k]) == v;
            assert(n2.contains(group_name(tracks[k])));
        }
    }
    assert forall|i: int, j: int| 0 <= i < n1.len() && 0 <= j < n1.len() && i != j implies n1[i] != n1[j] by {
        if i < j { assert(n1[i] != n1[j]); } else { assert(n1[j] != n1[i]); }
    }
    assert forall|i: int, j: int| 0 <= i < n2.len() && 0 <= j < n2.len() && i != j implies n2[i] != n2[j] by {
        if i < j { assert(n2[i] != n2[j]); } else { assert(n2[j] != n2[i]); }
    }
    assert forall|v: Seq<char>, w: Seq<char>| #![trigger n1.contains(v), n1.contains(w)]
        n1.contains(v) && n1.contains(w) && name_key_fn(false)(v) == name_key_fn(false)(w) implies v == w by {
        assert(name_key_fn(false)(v)[0] == name_key_fn(false)(w)[0]);
    }
    crate::order::lemma_key_sorted_same_values(n1, n2, name_key_fn(false));
    assert(m1.albums@.len() == n1.len() && m2.albums@.len() == n2.len());
    assert forall|j: int| 0 <= j < m1.albums@.len() implies (#[trigger] m1.albums@[j]).name@ == m2.albums@[j].name@
        && meta_views(m1.albums@[j].tracks@) == meta_views(m2.albums@[j].tracks@) by {
        assert(n1[j] == m1.albums@[j].name@ && n2[j] == m2.albums@[j].name@);
        let c = tracks.filter(in_group(m1.albums@[j].name@));
        assert(is_key_sort_of(meta_views(m1.albums@[j].tracks@), c, number_key_fn()));
        assert(is_key_sort_of(meta_views(m2.albums@[j].tracks@), c, number_key_fn()));
        crate::order::lemma_key_sorted_unique(
            meta_views(m1.albums@[j].tracks@),
            meta_views(m2.albums@[j].tracks@),
            number_key_fn(),
        );
    }
}

/// Moving an album out of the editor sends each of its tracks to the folder
/// of its artist, and to an album folder named just the album when the track
/// has no year, or `(year) - album` when it has one.
pub proof fn law_moved_album_folders(m: MetadataState, album_index: usize, n: MetadataState, r: Option<Vec<TrackMove>>, i: int)
    requires
        album_moved(m, album_index, n, r),
        album_index < m.albums@.len(),
        0 <= i < m.albums@[album_index as int].tracks@.len(),
    ensures
        r is Some && i < r->0@.len(),
        r->0@[i].path@ == m.albums@[album_index as int].tracks@[i].path@,
        r->0@[i].artist_dir@ == m.albums@[album_index as int].tracks@[i].artist@,
        m.albums@[album_index as int].tracks@[i].year@.len() == 0 ==>
            r->0@[i].album_dir@ == m.albums@[album_index as int].tracks@[i].album@,
        m.albums@[album_index as int].tracks@[i].year@.len() > 0 ==>
            r->0@[i].album_dir@ == "("@ + m.albums@[album_index as int].tracks@[i].year@ + ") - "@
                + m.albums@[album_index as int].tracks@[i].album@,
{
    let t = m.albums@[album_index as int].tracks@[i];
    assert(t@.year == t.year@ && t@.album == t.album@ && t@.artist == t.artist@ && t@.path == t.path@);
    assert(r->0@[i].album_dir@ == album_dir_name(t@));
}

/// An album tag that is missing or holds the "Unknown Album" placeholder is
/// taken from a parent folder named `(year) - album`: the album becomes the
/// name after ") - ", and a missing year tag becomes the year in brackets
/// (a year tag that is there is kept).
pub proof fn law_album_from_year_folder(f: ScannedFile, y: Seq<char>, a: Seq<char>)
    requires
        tag_album(f).len() == 0 || tag_album(f) == "Unknown Album"@,
        view_of(f.album_dir) == Some("("@ + y + ") - "@ + a),
        forall|k: int| 0 <= k < y.len() ==> y[k] != ')',
        a.len() > 0,
    ensures
        inferred_metadata(f).album == a,
        inferred_metadata(f).year == (if tag_year(f).len() == 0 { y } else { tag_year(f) }),
{
    reveal_strlit("(");
    reveal_strlit(") - ");
    let sep = ") - "@;
    let p = "("@ + y + sep + a;
    let k: int = 1 + y.len() as int;
    assert(sep.len() == 4 && sep[0] == ')');
    assert(p.len() == k + 4 + a.len());
    assert(p[0] == '(');
    assert(p.subrange(k, k + 4) =~= sep);
    assert(occurs_at(p, sep, k));
    assert forall|j: int| 0 <= j < k implies !occurs_at(p, sep, j) by {
        if occurs_at(p, sep, j) {
            assert(p.subrange(j, j + 4)[0] == p[j]);
            if j > 0 {
                assert(p[j] == y[j - 1]);
            }
        }
    }
    assert(contains_seq(p, sep));
    reveal(first_occurrence);
    let c = first_occurrence(p, sep);
    assert(occurs_at(p, sep, c) && forall|j: int| 0 <= j < c ==> !occurs_at(p, sep, j));
    if c > k {
        assert(!occurs_at(p, sep, k));
    }
    assert(c == k);
    let parts = split_once_seq(p, sep, c);
    assert(parts.1 =~= a);
    assert(parts.0.drop_first() =~= y);
    assert(is_placeholder(tag_album(f), "Unknown Album"@));
}

/// The artist of a staged track: its artist tag, unless that is missing or
/// the "Unknown Artist" placeholder; then the name of the grandparent folder,
/// unless that is `tmp` or empty; else "Unknown Artist".
pub proof fn law_inferred_artist(f: ScannedFile)
    ensures
        !(tag_artist(f).len() == 0 || tag_artist(f) == "Unknown Artist"@) ==>
            inferred_metadata(f).artist == tag_artist(f),
        (tag_artist(f).len() == 0 || tag_artist(f) == "Unknown Artist"@) ==>
            inferred_metadata(f).artist == (match view_of(f.artist_dir) {
                Some(n) => if n != "tmp"@ && n.len() > 0 { n } else { "Unknown Artist"@ },
                None => "Unknown Artist"@,
            }),
{
}

/// The album and year of a staged track: an album tag that is there (and
/// not the "Unknown Album" placeholder) is kept with the year tag; else a
/// parent folder whose name does not start with `(` is the album; with no
/// parent folder the album is "Unknown Album". The year tag is kept in
/// these cases.
pub proof fn law_inferred_album(f: ScannedFile)
    ensures
        !(tag_album(f).len() == 0 || tag_album(f) == "Unknown Album"@) ==>
            inferred_metadata(f).album == tag_album(f) && inferred_metadata(f).year == tag_year(f),
        (tag_album(f).len() == 0 || tag_album(f) == "Unknown Album"@) ==> match view_of(f.album_dir) {
            Some(p) => p.len() > 0 && p[0] != '(' ==>
                inferred_metadata(f).album == p && inferred_metadata(f).year == tag_year(f),
            None => inferred_metadata(f).album == "Unknown Album"@ && inferred_metadata(f).year == tag_year(f),
        },
{
}

/// The title and track number of a staged track: a title tag that is there
/// (and not the "Unknown Title" placeholder) is kept with the number tag;
/// else a file stem `digits - title` gives the title (the part after the
/// first " - ") and, when the number tag is missing, the number (the
/// digits); a stem without " - " is the title.
pub proof fn law_inferred_title(f: ScannedFile, d: Seq<char>, t: Seq<char>)
    ensures
        !(tag_title(f).len() == 0 || tag_title(f) == "Unknown Title"@) ==>
            inferred_metadata(f).title == tag_title(f) && inferred_metadata(f).track_number == tag_track_number(f),
        (tag_title(f).len() == 0 || tag_title(f) == "Unknown Title"@)
            && view_of(f.file_stem) == Some(d + " - "@ + t) && t.len() > 0
            && (forall|k: int| 0 <= k < d.len() ==> crate::text::is_digit(#[trigger] d[k])) ==>
            inferred_metadata(f).title == t
            && inferred_metadata(f).track_number == (if tag_track_number(f).len() == 0 { d } else { tag_track_number(f) }),
        (tag_title(f).len() == 0 || tag_title(f) == "Unknown Title"@)
            && view_of(f.file_stem) == Some(t) && t.len() > 0 && !contains_seq(t, " - "@) ==>
            inferred_metadata(f).title == t && inferred_metadata(f).track_number == tag_track_number(f),
{
    if (tag_title(f).len() == 0 || tag_title(f) == "Unknown Title"@)
        && view_of(f.file_stem) == Some(d + " - "@ + t) && t.len() > 0
        && (forall|k: int| 0 <= k < d.len() ==> crate::text::is_digit(#[trigger] d[k])) {
        reveal_strlit(" - ");
        let sep = " - "@;
        assert(sep.len() == 3 && sep[0] == ' ');
        assert forall|k: int| 0 <= k < d.len() implies d[k] != sep[0] by {
            assert(crate::text::is_digit(d[k]));
        }
        crate::text::lemma_first_occurrence_after(d, sep, t);
        let x = d + sep + t;
        let parts = split_once_seq(x, sep, first_occurrence(x, sep));
        assert(parts.0 =~= d);
        assert(parts.1 =~= t);
        assert(all_digits(parts.0));
    }
}

/// The album groups of the editor come in the order of their names, and the
/// tracks of each group in the order of their track numbers read as `u32`
/// (a number that does not read counts 0).
pub proof fn law_groups_in_order(groups: Seq<AlbumGroup>, tracks: Seq<MetaView>, p: int, q: int, j: int)
    requires
        groups_of(groups, tracks),
    ensures
        0 <= p < q < groups.len() ==> !crate::order::text_lt(groups[q].name@, groups[p].name@),
        0 <= j < groups.len() && 0 <= p < q < groups[j].tracks@.len() ==>
            (match parse_unsigned_spec(groups[j].tracks@[p].track_number@, 0xFFFF_FFFF) { Some(v) => v, None => 0 })
            <= (match parse_unsigned_spec(groups[j].tracks@[q].track_number@, 0xFFFF_FFFF) { Some(v) => v, None => 0 }),
{
    if 0 <= p < q < groups.len() {
        let names = groups.map_values(|g: AlbumGroup| g.name@);
        assert(names[p] == groups[p].name@ && names[q] == groups[q].name@);
        assert(!crate::order::key_lt(name_key_fn(false)(names[q]), name_key_fn(false)(names[p])));
        if crate::order::text_lt(names[q], names[p]) {
            crate::order::lemma_text_lt_irreflexive(names[q]);
            crate::order::lemma_key_lt_cons(FieldView::Text(names[q]), Seq::empty(), FieldView::Text(names[p]), Seq::empty());
            assert(name_key_fn(false)(names[q]) =~= seq![FieldView::Text(names[q])] + Seq::<FieldView>::empty());
            assert(name_key_fn(false)(names[p]) =~= seq![FieldView::Text(names[p])] + Seq::<FieldView>::empty());
        }
    }
    if 0 <= j < groups.len() && 0 <= p < q < groups[j].tracks@.len() {
        let v = meta_views(groups[j].tracks@);
        assert(is_key_sort_of(v, tracks.filter(in_group(groups[j].name@)), number_key_fn()));
        assert(!crate::order::key_lt(number_key_fn()(v[q]), number_key_fn()(v[p])));
        assert(v[p] == groups[j].tracks@[p]@ && v[q] == groups[j].tracks@[q]@);
        if number_value(v[q]) < number_value(v[p]) {
            crate::order::lemma_key_lt_cons(FieldView::Num(number_value(v[q])), Seq::empty(), FieldView::Num(number_value(v[p])), Seq::empty());
            assert(number_key(v[q]) =~= seq![FieldView::Num(number_value(v[q]))] + Seq::<FieldView>::empty());
            assert(number_key(v[p]) =~= seq![FieldView::Num(number_value(v[p]))] + Seq::<FieldView>::empty());
        }
    }
}

/// Saving a track's metadata writes the title, the artist (also as album
/// artist) and the album as typed, the year without surrounding white space,
/// and the track number when, without surrounding white space, it is
/// decimal digits (optionally after `+`) of a value that fits in a `u16`;
/// otherwise no number.
pub proof fn law_saved_tags(u: TagUpdate, title: Seq<char>, artist: Seq<char>, album: Seq<char>, year: Seq<char>, number: Seq<char>, d: Seq<char>)
    requires
        is_tag_update(u, title, artist, album, year, number),
    ensures
        u.title@ == title && u.artist@ == artist && u.album_artist@ == artist && u.album@ == album,
        u.year@ == trim_seq(year),
        (trim_seq(number) == d || trim_seq(number) == seq!['+'] + d) && d.len() > 0
            && (forall|k: int| 0 <= k < d.len() ==> crate::text::is_digit(#[trigger] d[k])) ==>
            (crate::text::digits_value(d) <= 0xFFFF ==> u.track_number == Some(crate::text::digits_value(d) as u16))
            && (crate::text::digits_value(d) > 0xFFFF ==> u.track_number is None),
        u.track_number is Some ==> exists|e: Seq<char>| e.len() > 0 && all_digits(e)
            && (trim_seq(number) == e || trim_seq(number) == seq!['+'] + e)
            && u.track_number == Some(crate::text::digits_value(e) as u16),
{
    let t = trim_seq(number);
    if (t == d || t == seq!['+'] + d) && d.len() > 0
        && (forall|k: int| 0 <= k < d.len() ==> crate::text::is_digit(#[trigger] d[k])) {
        assert(all_digits(d));
        if t == seq!['+'] + d {
            assert(t[0] == '+');
            assert(t.drop_first() =~= d);
        } else {
            assert(t.len() > 0 && t[0] == d[0]);
            assert(crate::text::is_digit(d[0]));
        }
    }
    if u.track_number is Some {
        let e = if t.len() > 0 && t[0] == '+' { t.drop_first() } else { t };
        if t.len() > 0 && t[0] == '+' {
            assert(t =~= seq!['+'] + e);
        }
    }
}

} // verus!
