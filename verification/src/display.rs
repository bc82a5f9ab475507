//! Text the player shows: the playback clock, track-number prefixes and the
//! scrolling "now playing" title of the status bar.

use vstd::prelude::*;
use vstd::utf8::encode_utf8;
use crate::text::{decimal, decimal_seq, owned, push_str, chars_of, string_of_range, copy_string};
use crate::downloader::YtResult;
use crate::metadata::{AlbumGroup, TrackMetadata, MetadataState};
use crate::library::Track;

verus! {

/// `n` in decimal with at least two digits (`{:02}`).
pub open spec fn two_digits(n: nat) -> Seq<char> {
    if n < 10 { seq!['0'] + decimal_seq(n) } else { decimal_seq(n) }
}

/// `n` in decimal with at least two digits.
pub fn two_digit(n: u64) -> (s: String)
    ensures
        s@ == two_digits(n as nat),
{
    let d = decimal(n);
    if n < 10 {
        proof {
            reveal_strlit("0");
        }
        let mut s = owned("0");
        push_str(&mut s, d.as_str());
        s
    } else {
        d
    }
}

/// A duration in seconds as minutes and seconds, `mm:ss`.
pub open spec fn clock_text(secs: nat) -> Seq<char> {
    two_digits(secs / 60) + ":"@ + two_digits(secs % 60)
}

/// A duration in seconds as minutes and seconds.
pub fn clock_label(secs: u64) -> (s: String)
    ensures
        s@ == clock_text(secs as nat),
{
    let mut s = two_digit(secs / 60);
    push_str(&mut s, ":");
    let rest = two_digit(secs % 60);
    push_str(&mut s, rest.as_str());
    s
}

/// What precedes a track's title in the lists: its number with two digits
/// and a dot, or nothing for track number 0.
pub open spec fn number_prefix_text(n: nat) -> Seq<char> {
    if n > 0 { two_digits(n) + ". "@ } else { Seq::empty() }
}

/// What precedes a track's title in the lists.
pub fn number_prefix(n: u16) -> (s: String)
    ensures
        s@ == number_prefix_text(n as nat),
{
    if n > 0 {
        let mut s = two_digit(n as u64);
        push_str(&mut s, ". ");
        s
    } else {
        String::new()
    }
}

/// The longest "now playing" text the status bar shows at once.
pub const MARQUEE_WIDTH: usize = 40;

/// The "now playing" text of the status bar: `title - artist`; when it takes
/// more than forty bytes and animations are on, a forty-character window of
/// it (followed by six spaces and itself again) that moves one character
/// every ten ticks, wrapping around after its byte length plus ten.
pub open spec fn marquee(title: Seq<char>, artist: Seq<char>, tick: u64, animations: bool) -> Seq<char> {
    let msg = title + " - "@ + artist;
    let bytes = (encode_utf8(msg).len() as usize) as nat;
    if bytes > 40 && animations {
        let offset = (tick / 10) as nat % (bytes + 10);
        let doubled = msg + "      "@ + msg;
        let start = if offset < doubled.len() { offset as int } else { doubled.len() as int };
        let end = if start + 40 < doubled.len() { start + 40 } else { doubled.len() as int };
        doubled.subrange(start, end)
    } else {
        msg
    }
}

/// The "now playing" text of the status bar at animation tick `tick`.
pub fn now_playing_label(title: &str, artist: &str, tick: u64, animations: bool) -> (s: String)
    ensures
        s@ == marquee(title@, artist@, tick, animations),
{
    let mut msg = owned(title);
    push_str(&mut msg, " - ");
    push_str(&mut msg, artist);
    let bytes = msg.as_str().len();
    if bytes > MARQUEE_WIDTH && animations {
        let span: u128 = bytes as u128 + 10;
        let offset: u128 = (tick / 10) as u128 % span;
        let mut doubled = crate::text::copy_string(&msg);
        push_str(&mut doubled, "      ");
        push_str(&mut doubled, msg.as_str());
        let chars = chars_of(doubled.as_str());
        let len = chars.len();
        let start: usize = if offset < len as u128 { offset as usize } else { len };
        let end: usize = if len - start > MARQUEE_WIDTH { start + MARQUEE_WIDTH } else { len };
        string_of_range(&chars, start, end)
    } else {
        msg
    }
}

/// The marker of the selected line in the downloader and editor lists.
pub open spec fn marker(selected: bool) -> Seq<char> {
    if selected { ">>"@ } else { "  "@ }
}

fn push_marker(s: &mut String, selected: bool)
    ensures
        final(s)@ == old(s)@ + marker(selected),
{
    if selected { push_str(s, ">>") } else { push_str(s, "  ") }
}

/// The text of an optional value, or a fallback when it is missing.
pub open spec fn or_text(v: Option<String>, fallback: Seq<char>) -> Seq<char> {
    match v {
        Some(x) => x@,
        None => fallback,
    }
}

/// A search result of the downloader: `>> uploader - title [mm:ss]`, with
/// "Unknown Uploader", "Unknown Title" and a zero duration for what yt-dlp
/// did not say.
pub open spec fn result_line_text(r: YtResult, selected: bool) -> Seq<char> {
    marker(selected) + " "@ + or_text(r.uploader, "Unknown Uploader"@) + " - "@ + or_text(r.title, "Unknown Title"@)
        + " ["@ + clock_text(match r.duration_secs { Some(d) => d as nat, None => 0 }) + "]"@
}

/// A search result line of the downloader.
pub fn result_line(r: &YtResult, selected: bool) -> (s: String)
    ensures
        s@ == result_line_text(*r, selected),
{
    let mut s = String::new();
    push_marker(&mut s, selected);
    push_str(&mut s, " ");
    match &r.uploader {
        Some(u) => push_str(&mut s, u.as_str()),
        None => push_str(&mut s, "Unknown Uploader"),
    }
    push_str(&mut s, " - ");
    match &r.title {
        Some(t) => push_str(&mut s, t.as_str()),
        None => push_str(&mut s, "Unknown Title"),
    }
    push_str(&mut s, " [");
    let secs = match r.duration_secs { Some(d) => d, None => 0 };
    let clock = clock_label(secs);
    push_str(&mut s, clock.as_str());
    push_str(&mut s, "]");
    s
}

/// An album line of the metadata editor: `>> name (n tracks)`.
pub open spec fn album_line_text(a: AlbumGroup, selected: bool) -> Seq<char> {
    marker(selected) + " "@ + a.name@ + " ("@ + decimal_seq(a.tracks@.len()) + " tracks)"@
}

/// An album line of the metadata editor.
pub fn album_line(a: &AlbumGroup, selected: bool) -> (s: String)
    ensures
        s@ == album_line_text(*a, selected),
{
    let mut s = String::new();
    push_marker(&mut s, selected);
    push_str(&mut s, " ");
    push_str(&mut s, a.name.as_str());
    push_str(&mut s, " (");
    let n = decimal(a.tracks.len() as u64);
    push_str(&mut s, n.as_str());
    push_str(&mut s, " tracks)");
    s
}

/// A track line of the metadata editor: `>> [number] artist - title | Year: year`.
pub open spec fn editor_track_line_text(t: TrackMetadata, selected: bool) -> Seq<char> {
    marker(selected) + " ["@ + t.track_number@ + "] "@ + t.artist@ + " - "@ + t.title@ + " | Year: "@ + t.year@
}

/// A track line of the metadata editor.
pub fn editor_track_line(t: &TrackMetadata, selected: bool) -> (s: String)
    ensures
        s@ == editor_track_line_text(*t, selected),
{
    let mut s = String::new();
    push_marker(&mut s, selected);
    push_str(&mut s, " [");
    push_str(&mut s, t.track_number.as_str());
    push_str(&mut s, "] ");
    push_str(&mut s, t.artist.as_str());
    push_str(&mut s, " - ");
    push_str(&mut s, t.title.as_str());
    push_str(&mut s, " | Year: ");
    push_str(&mut s, t.year.as_str());
    s
}

/// The status line of the metadata editor: the message, then `[WAIT]` while
/// lyrics are being fetched, or a reminder of the lyrics and move keys.
pub open spec fn editor_status_text(m: MetadataState) -> Seq<char> {
    if m.is_loading {
        m.status@ + " [WAIT]"@
    } else {
        m.status@ + " | l: fetch lyrics | m: move album to library"@
    }
}

/// The status line of the metadata editor.
pub fn editor_status(m: &MetadataState) -> (s: String)
    ensures
        s@ == editor_status_text(*m),
{
    let mut s = copy_string(&m.status);
    if m.is_loading {
        push_str(&mut s, " [WAIT]");
    } else {
        push_str(&mut s, " | l: fetch lyrics | m: move album to library");
    }
    s
}

/// A search result line: `icon number. title - artist (album)`.
pub open spec fn search_line_text(icon: Seq<char>, t: Track) -> Seq<char> {
    icon + " "@ + number_prefix_text(t.track_number as nat) + t.title@ + " - "@ + t.artist@ + " ("@ + t.album@ + ")"@
}

/// A search result line, after the given icon.
pub fn search_line(icon: &str, t: &Track) -> (s: String)
    ensures
        s@ == search_line_text(icon@, *t),
{
    let mut s = owned(icon);
    push_str(&mut s, " ");
    let prefix = number_prefix(t.track_number);
    push_str(&mut s, prefix.as_str());
    push_str(&mut s, t.title.as_str());
    push_str(&mut s, " - ");
    push_str(&mut s, t.artist.as_str());
    push_str(&mut s, " (");
    push_str(&mut s, t.album.as_str());
    push_str(&mut s, ")");
    s
}

/// How far a one-line input of `width` columns is scrolled so that the end
/// of `text` shows: the number of characters that do not fit (the count
/// taken as a 16-bit number, as the screen measures it).
pub open spec fn input_scroll_of(text: Seq<char>, width: u16) -> u16 {
    let len = text.len() as u16;
    if len > width { (len - width) as u16 } else { 0 }
}

/// How far a one-line input is scrolled.
pub fn input_scroll(text: &str, width: u16) -> (r: u16)
    ensures
        r == input_scroll_of(text@, width),
{
    let chars = chars_of(text);
    #[verifier::truncate]
    let len = chars.len() as u16;
    if len > width { len - width } else { 0 }
}

/// A number below a hundred written with two digits is two ASCII digits
/// whose value is the number.
proof fn lemma_two_digits_value(n: nat)
    requires
        n < 100,
    ensures
        two_digits(n).len() == 2,
        crate::text::all_digits(two_digits(n)),
        crate::text::digits_value(two_digits(n)) == n,
{
    crate::text::lemma_decimal_digits(n);
    if n < 10 {
        crate::text::lemma_digit_char_value(n);
        let t = two_digits(n);
        assert(decimal_seq(n) =~= seq![crate::text::digit_char(n)]);
        assert(t =~= seq!['0', crate::text::digit_char(n)]);
        assert(t.drop_last() =~= seq!['0']);
        assert(t.drop_last().drop_last() =~= Seq::<char>::empty());
        assert(crate::text::digits_value(t.drop_last().drop_last()) == 0);
        assert(crate::text::digit_value('0') == 0);
        assert(crate::text::digits_value(t.drop_last()) == 0);
    } else {
        assert(decimal_seq(n / 10) =~= seq![crate::text::digit_char(n / 10)]);
    }
}

/// The playback clock of a time under a hundred minutes is five characters
/// `mm:ss`: two digits giving the whole minutes, a colon, and two digits
/// giving the seconds left over.
pub proof fn law_clock_text(secs: nat)
    requires
        secs < 6000,
    ensures
        clock_text(secs).len() == 5,
        clock_text(secs)[2] == ':',
        crate::text::all_digits(clock_text(secs).subrange(0, 2)),
        crate::text::digits_value(clock_text(secs).subrange(0, 2)) == secs / 60,
        crate::text::all_digits(clock_text(secs).subrange(3, 5)),
        crate::text::digits_value(clock_text(secs).subrange(3, 5)) == secs % 60,
{
    reveal_strlit(":");
    lemma_two_digits_value(secs / 60);
    lemma_two_digits_value(secs % 60);
    let c = clock_text(secs);
    assert(c.subrange(0, 2) =~= two_digits(secs / 60));
    assert(c.subrange(3, 5) =~= two_digits(secs % 60));
}

} // verus!
