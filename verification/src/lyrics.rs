//! Synced lyrics in the LRC format: parsing timestamped lines, ordering them,
//! and choosing which of them to show at a given playback time.

use vstd::prelude::*;
use crate::order::{SortField, sort_stable, item_key, key_view, has_key, lemma_filter_map, key_lt, FieldView};
use crate::text::{chars_of, string_of_range, trim, trim_seq, is_digit, digits_value, digit_value};

verus! {

/// One line of synced lyrics: when it starts, in milliseconds from the start
/// of the track, and its text.
pub struct LyricLine {
    pub timestamp_ms: u64,
    pub text: String,
}

/// The mathematical value of a lyric line.
pub struct LyricView {
    pub timestamp_ms: nat,
    pub text: Seq<char>,
}

impl View for LyricLine {
    type V = LyricView;

    open spec fn view(&self) -> LyricView {
        LyricView { timestamp_ms: self.timestamp_ms as nat, text: self.text@ }
    }
}

/// The views of a sequence of lyric lines.
pub open spec fn lyric_views(s: Seq<LyricLine>) -> Seq<LyricView> {
    s.map_values(|l: LyricLine| l@)
}

/// What the `regex` crate's `\d` class answers for one character: whether it
/// is a Unicode decimal digit (general category `Nd`).
pub uninterp spec fn unicode_decimal_digit(c: char) -> bool;

/// Asks the `regex` crate whether `c` on its own matches `\d`. The crate's
/// documentation gives `\d` as the Unicode class `\p{Nd}`: the answer is
/// named by `unicode_decimal_digit`, and of the ASCII characters only `0` to
/// `9` are in the class. Which other characters are in it is left to the name.
#[verifier::external_body]
fn decimal_digit(c: char) -> (r: bool)
    ensures
        r == unicode_decimal_digit(c),
        c <= '\x7f' ==> (r <==> is_digit(c)),
{
    let mut buf = [0u8; 4];
    match regex::Regex::new(r"\A\d\z") {
        Ok(re) => re.is_match(c.encode_utf8(&mut buf)),
        Err(_) => false,
    }
}

/// Whether `c` is a decimal digit of the time tag (the class `\d`): an ASCII
/// digit, or a character outside ASCII that the class holds.
pub open spec fn tag_digit(c: char) -> bool {
    is_digit(c) || ('\x7f' < c && unicode_decimal_digit(c))
}

/// Whether `c` is a decimal digit of the time tag; the `regex` crate is asked
/// only about characters outside ASCII.
fn is_tag_digit(c: char) -> (r: bool)
    ensures
        r == tag_digit(c),
{
    if c <= '\x7f' {
        '0' <= c && c <= '9'
    } else {
        decimal_digit(c)
    }
}

/// The number of consecutive decimal digits in `s` starting at `i`.
pub open spec fn digit_run(s: Seq<char>, i: int) -> nat
    decreases s.len() - i,
{
    if 0 <= i < s.len() && tag_digit(s[i]) {
        1 + digit_run(s, i + 1)
    } else {
        0
    }
}

/// Whether position `i` of `s` holds the character `c`.
pub open spec fn char_at(s: Seq<char>, i: int, c: char) -> bool {
    0 <= i < s.len() && s[i] == c
}

/// Where the minutes field ends: just after `[` and its digits.
pub open spec fn lrc_minutes_len(l: Seq<char>) -> nat {
    digit_run(l, 1)
}

/// Whether the line opens with a `[m:ss` time tag, where `m` has one to
/// three digits and `ss` exactly two, followed by `]`, `:` or `.`.
pub open spec fn lrc_has_head(l: Seq<char>) -> bool {
    let m = lrc_minutes_len(l) as int;
    &&& char_at(l, 0, '[')
    &&& 1 <= m <= 3
    &&& char_at(l, 1 + m, ':')
    &&& digit_run(l, 2 + m) == 2
    &&& (char_at(l, 4 + m, ']') || char_at(l, 4 + m, ':') || char_at(l, 4 + m, '.'))
}

/// The length of the fraction digits after the seconds (0 when the tag closes
/// right after the seconds).
pub open spec fn lrc_fraction_len(l: Seq<char>) -> nat {
    let p = 4 + lrc_minutes_len(l) as int;
    if char_at(l, p, ']') {
        0
    } else {
        digit_run(l, p + 1)
    }
}

/// Whether the time tag is well formed: the seconds are followed by `]`, or
/// by `:` or `.`, two or three digits, and `]`.
pub open spec fn lrc_matches(l: Seq<char>) -> bool {
    let p = 4 + lrc_minutes_len(l) as int;
    let f = lrc_fraction_len(l) as int;
    &&& lrc_has_head(l)
    &&& (char_at(l, p, ']') || ((f == 2 || f == 3) && char_at(l, p + 1 + f, ']')))
}

/// Where the lyric text starts, just after the closing `]`.
pub open spec fn lrc_text_start(l: Seq<char>) -> int {
    let p = 4 + lrc_minutes_len(l) as int;
    let f = lrc_fraction_len(l) as int;
    if f == 0 { p + 1 } else { p + 2 + f }
}

/// Whether every character of `s` is an ASCII digit.
pub open spec fn ascii_digits(s: Seq<char>) -> bool {
    forall|i: int| 0 <= i < s.len() ==> is_digit(#[trigger] s[i])
}

/// The number that a field of the time tag stands for, as `str::parse` reads
/// it: its decimal value when all its digits are ASCII digits, and 0 when
/// any is another decimal digit (there the parse fails).
pub open spec fn field_value(s: Seq<char>) -> nat {
    if ascii_digits(s) { digits_value(s) } else { 0 }
}

/// The time of a well formed line, in milliseconds: minutes and seconds, plus
/// the fraction read as hundredths when it has two digits and as
/// thousandths when it has three. (A fraction holding a digit outside ASCII
/// counts 0, whatever its scale.)
pub open spec fn lrc_timestamp(l: Seq<char>) -> nat {
    let m = lrc_minutes_len(l) as int;
    let p = 4 + m;
    let f = lrc_fraction_len(l) as int;
    let minutes = field_value(l.subrange(1, 1 + m));
    let seconds = field_value(l.subrange(2 + m, 4 + m));
    let fraction = field_value(l.subrange(p + 1, p + 1 + f));
    let scale: nat = if f == 2 { 10 } else { 1 };
    (minutes * 60 + seconds) * 1000 + fraction * scale
}

/// The lyric line that an LRC line stands for, if it starts with a time tag
/// `[mm:ss]`, `[mm:ss.xx]`, `[mm:ss.xxx]` (or with `:` before the fraction);
/// the text is what follows the tag, trimmed.
pub open spec fn lrc_line(l: Seq<char>) -> Option<LyricView> {
    if lrc_matches(l) {
        Some(LyricView {
            timestamp_ms: lrc_timestamp(l),
            text: trim_seq(l.skip(lrc_text_start(l))),
        })
    } else {
        None
    }
}

/// The lyric lines of a file's lines, in file order, skipping the lines that
/// carry no time tag.
pub open spec fn lrc_lines(lines: Seq<Seq<char>>) -> Seq<LyricView>
    decreases lines.len(),
{
    if lines.len() == 0 {
        Seq::empty()
    } else {
        let init = lrc_lines(lines.drop_last());
        match lrc_line(lines.last()) {
            Some(v) => init.push(v),
            None => init,
        }
    }
}

/// Whether lyric lines are in non-decreasing time order.
pub open spec fn time_sorted(s: Seq<LyricView>) -> bool {
    forall|i: int, j: int| 0 <= i < j < s.len() ==> (#[trigger] s[i]).timestamp_ms <= (#[trigger] s[j]).timestamp_ms
}

/// Whether a lyric line starts at time `t`.
pub open spec fn at_time(t: nat) -> spec_fn(LyricView) -> bool {
    |v: LyricView| v.timestamp_ms == t
}

/// Whether `a` is `b` stably sorted by time: in time order, and with the
/// lines of each time in the order they had in `b`.
pub open spec fn is_time_sort_of(a: Seq<LyricView>, b: Seq<LyricView>) -> bool {
    &&& time_sorted(a)
    &&& forall|t: nat| #[trigger] a.filter(at_time(t)) == b.filter(at_time(t))
}

proof fn lemma_digit_run_step(s: Seq<char>, i: int, j: int)
    requires
        0 <= i <= j <= s.len(),
        forall|k: int| i <= k < j ==> tag_digit(#[trigger] s[k]),
    ensures
        digit_run(s, i) == (j - i) + digit_run(s, j),
    decreases j - i,
{
    if i < j {
        lemma_digit_run_step(s, i + 1, j);
    }
}

/// The number of consecutive decimal digits in `s` starting at `i`.
fn count_digits(s: &Vec<char>, i: usize) -> (r: usize)
    ensures
        r == digit_run(s@, i as int),
        i + r <= s.len() || r == 0,
{
    if i >= s.len() {
        return 0;
    }
    let mut j: usize = i;
    while j < s.len() && is_tag_digit(s[j])
        invariant
            i <= j <= s.len(),
            forall|k: int| i <= k < j ==> tag_digit(#[trigger] s@[k]),
        decreases s.len() - j,
    {
        j = j + 1;
    }
    proof {
        lemma_digit_run_step(s@, i as int, j as int);
    }
    j - i
}

/// The value of the decimal digits `s[from..to]`, all of them digits, at most
/// three of them.
fn small_number(s: &Vec<char>, from: usize, to: usize) -> (r: u64)
    requires
        from <= to <= s.len(),
        to - from <= 3,
        forall|k: int| from <= k < to ==> is_digit(#[trigger] s@[k]),
    ensures
        r as nat == digits_value(s@.subrange(from as int, to as int)),
        r < 1000,
{
    let mut v: u64 = 0;
    let mut k: usize = from;
    while k < to
        invariant
            from <= k <= to <= s.len(),
            to - from <= 3,
            forall|q: int| from <= q < to ==> is_digit(#[trigger] s@[q]),
            v as nat == digits_value(s@.subrange(from as int, k as int)),
            v < pow10(k - from),
        decreases to - k,
    {
        let c = s[k];
        assert(is_digit(s@[k as int]));
        let d: u64 = (c as u32 - '0' as u32) as u64;
        assert(s@.subrange(from as int, k + 1).drop_last() == s@.subrange(from as int, k as int));
        v = v * 10 + d;
        k = k + 1;
    }
    v
}

/// The number that the field `s[from..to]` (at most three digits) stands
/// for: its value when every character is an ASCII digit, else 0.
fn field_number(s: &Vec<char>, from: usize, to: usize) -> (r: u64)
    requires
        from <= to <= s.len(),
        to - from <= 3,
    ensures
        r as nat == field_value(s@.subrange(from as int, to as int)),
        r < 1000,
{
    let ghost f = s@.subrange(from as int, to as int);
    let mut k: usize = from;
    while k < to
        invariant
            from <= k <= to <= s.len(),
            f == s@.subrange(from as int, to as int),
            forall|q: int| from <= q < k ==> is_digit(#[trigger] s@[q]),
        decreases to - k,
    {
        if !(s[k] >= '0' && s[k] <= '9') {
            assert(f[k - from] == s@[k as int]);
            assert(!ascii_digits(f));
            return 0;
        }
        k = k + 1;
    }
    assert forall|i: int| 0 <= i < f.len() implies is_digit(#[trigger] f[i]) by {
        assert(f[i] == s@[from + i]);
    }
    small_number(s, from, to)
}

/// Ten to the power `n`, for `n` up to three.
spec fn pow10(n: int) -> int {
    if n <= 0 { 1 } else if n == 1 { 10 } else if n == 2 { 100 } else { 1000 }
}

/// Parses one line of an LRC file. A line that does not start with a time
/// tag gives `None`; otherwise the tag's time and the rest of the line,
/// trimmed. The tag's digits are the Unicode decimal digits; a field that
/// holds one outside ASCII counts 0.
pub fn parse_lrc_line(line: &str) -> (r: Option<LyricLine>)
    ensures
        match lrc_line(line@) {
            Some(v) => r is Some && r->0@ == v,
            None => r is None,
        },
{
    let l = chars_of(line);
    if l.len() == 0 || l[0] != '[' {
        return None;
    }
    let m = count_digits(&l, 1);
    if m < 1 || m > 3 {
        return None;
    }
    if 1 + m >= l.len() || l[1 + m] != ':' {
        return None;
    }
    let sec_len = count_digits(&l, 2 + m);
    if sec_len != 2 {
        return None;
    }
    let p = 4 + m;
    if p >= l.len() || !(l[p] == ']' || l[p] == ':' || l[p] == '.') {
        return None;
    }
    assert(lrc_has_head(l@));
    let minutes = field_number(&l, 1, 1 + m);
    let seconds = field_number(&l, 2 + m, 4 + m);
    let mut fraction: u64 = 0;
    let mut scale: u64 = 1;
    let text_start: usize;
    if l[p] == ']' {
        text_start = p + 1;
        assert(l@.subrange(p + 1, p + 1) =~= Seq::<char>::empty());
    } else {
        let f = count_digits(&l, p + 1);
        if !(f == 2 || f == 3) || p + 1 + f >= l.len() || l[p + 1 + f] != ']' {
            return None;
        }
        fraction = field_number(&l, p + 1, p + 1 + f);
        if f == 2 {
            scale = 10;
        }
        text_start = p + 2 + f;
    }
    assert(lrc_matches(l@));
    let ts: u64 = (minutes * 60 + seconds) * 1000 + fraction * scale;
    let rest = string_of_range(&l, text_start, l.len());
    let text = trim(rest.as_str());
    assert(l@.subrange(text_start as int, l@.len() as int) == l@.skip(text_start as int));
    Some(LyricLine { timestamp_ms: ts, text })
}

/// The views of the strings of a file's lines.
pub open spec fn line_views(lines: Seq<String>) -> Seq<Seq<char>> {
    lines.map_values(|s: String| s@)
}

/// The view of the lyric line of a key/line pair.
pub open spec fn pair_lyric(p: (Vec<SortField>, LyricLine)) -> LyricView {
    p.1@
}

/// The map from a key/line pair to the view of its line.
pub open spec fn lyric_of() -> spec_fn((Vec<SortField>, LyricLine)) -> LyricView {
    |p: (Vec<SortField>, LyricLine)| pair_lyric(p)
}

/// The key under which a lyric line is sorted: its time.
pub open spec fn time_key(t: nat) -> Seq<FieldView> {
    seq![FieldView::Num(t)]
}

proof fn lemma_time_key_lt(a: nat, b: nat)
    ensures
        key_lt(time_key(a), time_key(b)) == (a < b),
{
    let ka = time_key(a);
    let kb = time_key(b);
    assert(ka.len() == 1 && kb.len() == 1);
    assert(ka[0] == FieldView::Num(a) && kb[0] == FieldView::Num(b));
    if a == b {
        crate::order::lemma_key_lt_irreflexive(ka);
    } else {
        assert(ka[0] != kb[0]);
    }
}

/// Reads the lyric lines of an LRC file given as its lines. `None` when no
/// line carries a time tag; otherwise the tagged lines, stably sorted by time
/// (lines of equal time keep their file order).
pub fn parse_lrc(lines: &Vec<String>) -> (r: Option<Vec<LyricLine>>)
    ensures
        r is None <==> lrc_lines(line_views(lines@)).len() == 0,
        r matches Some(v) ==> is_time_sort_of(lyric_views(v@), lrc_lines(line_views(lines@))),
{
    broadcast use vstd::seq_lib::group_seq_properties;
    let mut pairs: Vec<(Vec<SortField>, LyricLine)> = Vec::new();
    let mut i: usize = 0;
    while i < lines.len()
        invariant
            i <= lines.len(),
            pairs@.map_values(lyric_of()) == lrc_lines(line_views(lines@).take(i as int)),
            forall|q: int| 0 <= q < pairs@.len() ==> item_key(#[trigger] pairs@[q]) == time_key(pairs@[q].1.timestamp_ms as nat),
        decreases lines.len() - i,
    {
        let ghost lv = line_views(lines@);
        assert(lv.take(i + 1).drop_last() == lv.take(i as int));
        assert(lv.take(i + 1).last() == lines@[i as int]@);
        let ghost before = pairs@;
        match parse_lrc_line(lines[i].as_str()) {
            Some(line) => {
                let ts = line.timestamp_ms;
                let mut key: Vec<SortField> = Vec::new();
                key.push(SortField::Num(ts));
                assert(key_view(key@) =~= time_key(ts as nat));
                pairs.push((key, line));
                assert(pairs@.map_values(lyric_of()) =~= before.map_values(lyric_of()).push(line@));
            },
            None => {},
        }
        i = i + 1;
    }
    assert(line_views(lines@).take(lines.len() as int) == line_views(lines@));
    let ghost parsed = lrc_lines(line_views(lines@));
    if pairs.len() == 0 {
        return None;
    }
    let ghost unsorted = pairs@;
    let ghost f = lyric_of();
    let sorted = sort_stable(pairs);
    let ghost sv = sorted@;
    proof {
        assert forall|q: int| 0 <= q < sv.len() implies item_key(#[trigger] sv[q]) == time_key(sv[q].1.timestamp_ms as nat) by {
            let w = choose|w: int| 0 <= w < unsorted.len() && unsorted[w] == sv[q];
        }
    }
    let total = sorted.len();
    let mut rest = sorted;
    let mut out: Vec<LyricLine> = Vec::new();
    let mut n: usize = 0;
    while rest.len() > 0
        invariant
            n + rest@.len() == sv.len(),
            sv.len() == total,
            f == lyric_of(),
            rest@ == sv.skip(n as int),
            lyric_views(out@) == sv.take(n as int).map_values(f),
        decreases rest@.len(),
    {
        let p = rest.remove(0);
        assert(p == sv[n as int]);
        let ghost before = out@;
        out.push(p.1);
        assert(sv.take(n + 1) == sv.take(n as int).push(p));
        assert(lyric_views(out@) =~= lyric_views(before).push(p.1@));
        assert(sv.take(n + 1).map_values(f) =~= sv.take(n as int).map_values(f).push(f(p)));
        n = n + 1;
    }
    proof {
        assert(sv.take(n as int) == sv);
        let ov = lyric_views(out@);
        assert(ov == sv.map_values(f));
        assert forall|a: int, b: int| 0 <= a < b < ov.len() implies (#[trigger] ov[a]).timestamp_ms <= (#[trigger] ov[b]).timestamp_ms by {
            assert(ov[a] == sv[a].1@);
            assert(ov[b] == sv[b].1@);
            assert(!key_lt(item_key(sv[b]), item_key(sv[a])));
            lemma_time_key_lt(sv[b].1.timestamp_ms as nat, sv[a].1.timestamp_ms as nat);
        }
        assert forall|t: nat| #[trigger] ov.filter(at_time(t)) == parsed.filter(at_time(t)) by {
            let hk = has_key::<LyricLine>(time_key(t));
            assert forall|q: int| 0 <= q < sv.len() implies hk(#[trigger] sv[q]) == at_time(t)(f(sv[q])) by {
                lemma_time_key_lt(t, sv[q].1.timestamp_ms as nat);
                if sv[q].1.timestamp_ms as nat != t {
                    assert(time_key(t)[0] != time_key(sv[q].1.timestamp_ms as nat)[0]);
                }
            }
            assert forall|q: int| 0 <= q < unsorted.len() implies hk(#[trigger] unsorted[q]) == at_time(t)(f(unsorted[q])) by {
                if unsorted[q].1.timestamp_ms as nat != t {
                    assert(time_key(t)[0] != time_key(unsorted[q].1.timestamp_ms as nat)[0]);
                }
            }
            lemma_filter_map(sv, f, hk, at_time(t));
            lemma_filter_map(unsorted, f, hk, at_time(t));
            assert(sv.filter(hk) == unsorted.filter(hk));
        }
    }
    Some(out)
}

/// The lyrics of a track, from the text of its LRC file (`None` when the file
/// could not be read) or, failing that, from the text of its second candidate
/// file: the first of the two that holds at least one time-tagged line gives
/// the lyrics, stably sorted by time; with neither, there are none.
pub fn extract_lyrics(primary: Option<Vec<String>>, appended: Option<Vec<String>>) -> (r: Vec<LyricLine>)
    ensures
        ({
            let p_ok = primary matches Some(p) && lrc_lines(line_views(p@)).len() > 0;
            let a_ok = appended matches Some(a) && lrc_lines(line_views(a@)).len() > 0;
            &&& p_ok ==> is_time_sort_of(lyric_views(r@), lrc_lines(line_views(primary->0@)))
            &&& !p_ok && a_ok ==> is_time_sort_of(lyric_views(r@), lrc_lines(line_views(appended->0@)))
            &&& !p_ok && !a_ok ==> r@.len() == 0
        }),
{
    if let Some(p) = &primary {
        if let Some(v) = parse_lrc(p) {
            return v;
        }
    }
    if let Some(a) = &appended {
        if let Some(v) = parse_lrc(a) {
            return v;
        }
    }
    Vec::new()
}

/// How many lines at the start of `s` are due at time `now` (stopping at the
/// first line that is not yet due).
pub open spec fn lines_due(s: Seq<LyricView>, now: nat) -> nat
    decreases s.len(),
{
    if s.len() > 0 && s[0].timestamp_ms <= now {
        1 + lines_due(s.drop_first(), now)
    } else {
        0
    }
}

/// The line to highlight at time `now`: the last of the lines due at the
/// start of the lyrics, or the first line when none is due.
pub open spec fn active_line(s: Seq<LyricView>, now: nat) -> nat {
    let d = lines_due(s, now);
    if d > 0 { (d - 1) as nat } else { 0 }
}

proof fn lemma_lines_due_step(s: Seq<LyricView>, now: nat, i: int)
    requires
        0 <= i <= s.len(),
        forall|k: int| 0 <= k < i ==> (#[trigger] s[k]).timestamp_ms <= now,
    ensures
        lines_due(s, now) == i + lines_due(s.skip(i), now),
    decreases i,
{
    if i > 0 {
        let t = s.drop_first();
        assert forall|k: int| 0 <= k < i - 1 implies (#[trigger] t[k]).timestamp_ms <= now by {
            assert(t[k] == s[k + 1]);
        }
        lemma_lines_due_step(t, now, i - 1);
        assert(t.skip(i - 1) == s.skip(i));
    } else {
        assert(s.skip(0) == s);
    }
}

/// Which lyric lines to show in a pane of `height` rows at playback time
/// `now_ms`: the highlighted line, and the range `start..end` shown, which
/// centres the highlighted line where the lyrics allow.
pub fn visible_lyrics(lyrics: &Vec<LyricLine>, now_ms: u64, height: usize) -> (r: (usize, usize, usize))
    ensures
        r.0 == active_line(lyric_views(lyrics@), now_ms as nat),
        r.1 == (if r.0 >= height / 2 { r.0 - height / 2 } else { 0 }),
        r.2 == (if r.1 + height <= lyrics@.len() { r.1 + height } else { lyrics@.len() as int }),
        lyrics@.len() > 0 ==> r.1 <= r.2 <= lyrics@.len(),
{
    let ghost s = lyric_views(lyrics@);
    let mut i: usize = 0;
    while i < lyrics.len() && lyrics[i].timestamp_ms <= now_ms
        invariant
            i <= lyrics.len(),
            s == lyric_views(lyrics@),
            forall|k: int| 0 <= k < i ==> (#[trigger] s[k]).timestamp_ms <= now_ms,
        decreases lyrics.len() - i,
    {
        i = i + 1;
    }
    proof {
        lemma_lines_due_step(s, now_ms as nat, i as int);
        if i < lyrics.len() {
            assert(s.skip(i as int)[0] == s[i as int]);
        }
    }
    let active = if i > 0 { i - 1 } else { 0 };
    let half = height / 2;
    let start = if active >= half { active - half } else { 0 };
    let end = if height <= lyrics.len() - start { start + height } else { lyrics.len() };
    (active, start, end)
}

impl LyricLine {
    /// A copy of this line.
    pub fn copy(&self) -> (r: LyricLine)
        ensures
            r@ == self@,
    {
        LyricLine { timestamp_ms: self.timestamp_ms, text: self.text.clone() }
    }
}

/// A copy of a list of lyric lines.
pub fn copy_lyrics(v: &Vec<LyricLine>) -> (r: Vec<LyricLine>)
    ensures
        lyric_views(r@) == lyric_views(v@),
{
    let mut r: Vec<LyricLine> = Vec::new();
    let mut i: usize = 0;
    while i < v.len()
        invariant
            i <= v.len(),
            lyric_views(r@) == lyric_views(v@.take(i as int)),
        decreases v.len() - i,
    {
        let ghost before = r@;
        r.push(v[i].copy());
        assert(lyric_views(r@) =~= lyric_views(before).push(v@[i as int]@));
        assert(v@.take(i + 1) == v@.take(i as int).push(v@[i as int]));
        assert(lyric_views(v@.take(i + 1)) =~= lyric_views(v@.take(i as int)).push(v@[i as int]@));
        i = i + 1;
    }
    assert(v@.take(v.len() as int) == v@);
    r
}

/// At most all the lines are due.
proof fn lemma_lines_due_bound(s: Seq<LyricView>, now: nat)
    ensures
        lines_due(s, now) <= s.len(),
    decreases s.len(),
{
    if s.len() > 0 && s[0].timestamp_ms <= now {
        lemma_lines_due_bound(s.drop_first(), now);
    }
}

/// The line being sung is always among the lines shown: with lyrics and a
/// window of at least one line, the window `visible_lyrics` computes starts
/// at or before the active line and ends after it.
pub proof fn law_active_line_shown(s: Seq<LyricView>, now: nat, height: nat, r: (int, int, int))
    requires
        s.len() > 0,
        height > 0,
        r.0 == active_line(s, now),
        r.1 == (if r.0 >= height / 2 { r.0 - height / 2 } else { 0 }),
        r.2 == (if r.1 + height <= s.len() { r.1 + height } else { s.len() as int }),
    ensures
        r.1 <= r.0 < r.2,
{
    lemma_lines_due_bound(s, now);
}

/// The value of two ASCII digits read as a decimal number.
pub open spec fn two_digits(a: char, b: char) -> nat {
    10 * digit_value(a) + digit_value(b)
}

proof fn lemma_two_digit_field(l: Seq<char>, i: int)
    requires
        0 <= i,
        i + 2 <= l.len(),
        is_digit(l[i]),
        is_digit(l[i + 1]),
    ensures
        field_value(l.subrange(i, i + 2)) == two_digits(l[i], l[i + 1]),
{
    let s = l.subrange(i, i + 2);
    assert(s =~= seq![l[i], l[i + 1]]);
    assert(s.drop_last() =~= seq![l[i]]);
    assert(s.drop_last().drop_last() =~= Seq::<char>::empty());
    assert(digits_value(s.drop_last().drop_last()) == 0);
    assert(digits_value(s.drop_last()) == digit_value(l[i]));
    assert(digits_value(s) == digit_value(l[i]) * 10 + digit_value(l[i + 1]));
    assert(ascii_digits(s));
}

proof fn lemma_three_digit_field(l: Seq<char>, i: int)
    requires
        0 <= i,
        i + 3 <= l.len(),
        is_digit(l[i]),
        is_digit(l[i + 1]),
        is_digit(l[i + 2]),
    ensures
        field_value(l.subrange(i, i + 3)) == 100 * digit_value(l[i]) + 10 * digit_value(l[i + 1]) + digit_value(l[i + 2]),
{
    let s = l.subrange(i, i + 3);
    assert(s =~= seq![l[i], l[i + 1], l[i + 2]]);
    assert(s.drop_last() =~= seq![l[i], l[i + 1]]);
    assert(s.drop_last().drop_last() =~= seq![l[i]]);
    assert(s.drop_last().drop_last().drop_last() =~= Seq::<char>::empty());
    assert(digits_value(s.drop_last().drop_last().drop_last()) == 0);
    assert(digits_value(s.drop_last().drop_last()) == digit_value(l[i]));
    assert(digits_value(s.drop_last()) == digit_value(l[i]) * 10 + digit_value(l[i + 1]));
    assert(digits_value(s) == (digit_value(l[i]) * 10 + digit_value(l[i + 1])) * 10 + digit_value(l[i + 2]));
    assert(ascii_digits(s));
}

/// A run of digits ends at a character of ASCII that is no digit.
proof fn lemma_run_stops(l: Seq<char>, i: int)
    requires
        0 <= i < l.len(),
        l[i] <= '\x7f',
        !is_digit(l[i]),
    ensures
        digit_run(l, i) == 0,
{
}

/// A line `[mm:ss.fff]text` or `[mm:ss:fff]text` with ASCII digits starts
/// at `mm` minutes, `ss` seconds and `fff` milliseconds (a three-digit
/// fraction counts milliseconds whichever separator comes before it), and
/// its text is the rest of the line, trimmed.
pub proof fn law_lrc_thousandths(m1: char, m2: char, s1: char, s2: char, sep: char, f1: char, f2: char, f3: char, rest: Seq<char>)
    requires
        is_digit(m1), is_digit(m2), is_digit(s1), is_digit(s2),
        is_digit(f1), is_digit(f2), is_digit(f3),
        sep == '.' || sep == ':',
    ensures
        lrc_line(seq!['[', m1, m2, ':', s1, s2, sep, f1, f2, f3, ']'] + rest) == Some(LyricView {
            timestamp_ms: (two_digits(m1, m2) * 60 + two_digits(s1, s2)) * 1000
                + 100 * digit_value(f1) + 10 * digit_value(f2) + digit_value(f3),
            text: trim_seq(rest),
        }),
{
    let l = seq!['[', m1, m2, ':', s1, s2, sep, f1, f2, f3, ']'] + rest;
    assert(l[0] == '[' && l[1] == m1 && l[2] == m2 && l[3] == ':' && l[4] == s1 && l[5] == s2);
    assert(l[6] == sep && l[7] == f1 && l[8] == f2 && l[9] == f3 && l[10] == ']');
    lemma_run_stops(l, 3);
    assert(digit_run(l, 2) == 1);
    assert(digit_run(l, 1) == 2);
    lemma_run_stops(l, 6);
    assert(digit_run(l, 5) == 1);
    assert(digit_run(l, 4) == 2);
    lemma_run_stops(l, 10);
    assert(digit_run(l, 9) == 1);
    assert(digit_run(l, 8) == 2);
    assert(digit_run(l, 7) == 3);
    assert(lrc_has_head(l));
    assert(lrc_fraction_len(l) == 3);
    assert(lrc_matches(l));
    lemma_two_digit_field(l, 1);
    lemma_two_digit_field(l, 4);
    lemma_three_digit_field(l, 7);
    assert(lrc_text_start(l) == 11);
    assert(l.skip(11) =~= rest);
}

/// A line `[mm:ss.ff]text` or `[mm:ss:ff]text` with ASCII digits starts at
/// `mm` minutes, `ss` seconds and `ff` hundredths, and its text is the rest
/// of the line, trimmed.
pub proof fn law_lrc_hundredths(m1: char, m2: char, s1: char, s2: char, sep: char, f1: char, f2: char, rest: Seq<char>)
    requires
        is_digit(m1), is_digit(m2), is_digit(s1), is_digit(s2),
        is_digit(f1), is_digit(f2),
        sep == '.' || sep == ':',
    ensures
        lrc_line(seq!['[', m1, m2, ':', s1, s2, sep, f1, f2, ']'] + rest) == Some(LyricView {
            timestamp_ms: (two_digits(m1, m2) * 60 + two_digits(s1, s2)) * 1000 + two_digits(f1, f2) * 10,
            text: trim_seq(rest),
        }),
{
    let l = seq!['[', m1, m2, ':', s1, s2, sep, f1, f2, ']'] + rest;
    assert(l[0] == '[' && l[1] == m1 && l[2] == m2 && l[3] == ':' && l[4] == s1 && l[5] == s2);
    assert(l[6] == sep && l[7] == f1 && l[8] == f2 && l[9] == ']');
    lemma_run_stops(l, 3);
    assert(digit_run(l, 2) == 1);
    assert(digit_run(l, 1) == 2);
    lemma_run_stops(l, 6);
    assert(digit_run(l, 5) == 1);
    assert(digit_run(l, 4) == 2);
    lemma_run_stops(l, 9);
    assert(digit_run(l, 8) == 1);
    assert(digit_run(l, 7) == 2);
    assert(lrc_has_head(l));
    assert(lrc_fraction_len(l) == 2);
    assert(lrc_matches(l));
    lemma_two_digit_field(l, 1);
    lemma_two_digit_field(l, 4);
    lemma_two_digit_field(l, 7);
    assert(lrc_text_start(l) == 10);
    assert(l.skip(10) =~= rest);
}

/// A line `[m:ss]text`, where the minutes `m` are one to three ASCII digits
/// and the seconds two, starts at `m` minutes and `ss` seconds, and its text
/// is the rest of the line, trimmed.
pub proof fn law_lrc_whole_seconds(mins: Seq<char>, s1: char, s2: char, rest: Seq<char>)
    requires
        1 <= mins.len() <= 3,
        forall|k: int| 0 <= k < mins.len() ==> is_digit(#[trigger] mins[k]),
        is_digit(s1),
        is_digit(s2),
    ensures
        lrc_line(seq!['['] + mins + seq![':', s1, s2, ']'] + rest) == Some(LyricView {
            timestamp_ms: (digits_value(mins) * 60 + two_digits(s1, s2)) * 1000,
            text: trim_seq(rest),
        }),
{
    let l = seq!['['] + mins + seq![':', s1, s2, ']'] + rest;
    let m = mins.len() as int;
    assert(l[0] == '[');
    assert forall|k: int| 1 <= k < 1 + m implies tag_digit(#[trigger] l[k]) by {
        assert(l[k] == mins[k - 1]);
    }
    assert(l[1 + m] == ':' && l[2 + m] == s1 && l[3 + m] == s2 && l[4 + m] == ']');
    lemma_digit_run_step(l, 1, 1 + m);
    lemma_run_stops(l, 1 + m);
    assert(digit_run(l, 1) == m);
    lemma_run_stops(l, 4 + m);
    assert(digit_run(l, 3 + m) == 1);
    assert(digit_run(l, 2 + m) == 2);
    assert(lrc_has_head(l));
    assert(lrc_fraction_len(l) == 0);
    assert(lrc_matches(l));
    assert(l.subrange(1, 1 + m) =~= mins);
    assert(ascii_digits(mins));
    lemma_two_digit_field(l, 2 + m);
    assert(l.subrange(5 + m, 5 + m) =~= Seq::<char>::empty());
    assert(ascii_digits(Seq::<char>::empty()));
    assert(lrc_text_start(l) == 5 + m);
    assert(l.skip(5 + m) =~= rest);
}

proof fn lemma_lines_due_facts(s: Seq<LyricView>, now: nat)
    ensures
        lines_due(s, now) <= s.len(),
        forall|k: int| 0 <= k < lines_due(s, now) ==> (#[trigger] s[k]).timestamp_ms <= now,
        lines_due(s, now) < s.len() ==> s[lines_due(s, now) as int].timestamp_ms > now,
    decreases s.len(),
{
    if s.len() > 0 && s[0].timestamp_ms <= now {
        let t = s.drop_first();
        lemma_lines_due_facts(t, now);
        assert forall|k: int| 0 <= k < lines_due(s, now) implies (#[trigger] s[k]).timestamp_ms <= now by {
            if k > 0 {
                assert(s[k] == t[k - 1]);
            }
        }
        if lines_due(s, now) < s.len() {
            assert(s[lines_due(s, now) as int] == t[lines_due(t, now) as int]);
        }
    }
}

/// The highlighted lyric line is the last line of the run of lines at the
/// start whose time has come: every line up to it is due, the line after it
/// (if any) is not; when not even the first line is due, the first line is
/// highlighted.
pub proof fn law_active_line_is_last_due(s: Seq<LyricView>, now: nat)
    requires
        s.len() > 0,
    ensures
        s[0].timestamp_ms > now ==> active_line(s, now) == 0,
        s[0].timestamp_ms <= now ==> {
            let a = active_line(s, now) as int;
            &&& a < s.len()
            &&& forall|k: int| 0 <= k <= a ==> (#[trigger] s[k]).timestamp_ms <= now
            &&& a + 1 < s.len() ==> s[a + 1].timestamp_ms > now
        },
{
    lemma_lines_due_facts(s, now);
    if s[0].timestamp_ms <= now {
        assert(lines_due(s, now) >= 1);
    }
}

} // verus!
