use prayer::lyrics::{extract_lyrics, parse_lrc, parse_lrc_line, visible_lyrics, LyricLine};

fn lines(v: &[&str]) -> Vec<String> {
    v.iter().map(|s| s.to_string()).collect()
}

#[test]
fn parse_lrc_line_reads_hundredths() {
    let l = parse_lrc_line("[01:02.50] hello ").unwrap();
    assert_eq!(l.timestamp_ms, 62_500);
    assert_eq!(l.text, "hello");
}

#[test]
fn parse_lrc_line_reads_thousandths_and_colon() {
    let l = parse_lrc_line("[00:01:250]x").unwrap();
    assert_eq!(l.timestamp_ms, 1_250);
    assert_eq!(l.text, "x");
}

#[test]
fn parse_lrc_line_without_fraction() {
    let l = parse_lrc_line("[123:59]   ").unwrap();
    assert_eq!(l.timestamp_ms, (123 * 60 + 59) * 1000);
    assert_eq!(l.text, "");
}

#[test]
fn parse_lrc_line_rejects_malformed_tags() {
    assert!(parse_lrc_line("[ar:Someone]").is_none());
    assert!(parse_lrc_line("[1234:00]too many minutes").is_none());
    assert!(parse_lrc_line("[00:1]one second digit").is_none());
    assert!(parse_lrc_line("[00:01.5]one fraction digit").is_none());
    assert!(parse_lrc_line("[00:01.1234]four fraction digits").is_none());
    assert!(parse_lrc_line(" [00:01]leading space").is_none());
    assert!(parse_lrc_line("").is_none());
}

#[test]
fn parse_lrc_sorts_by_time_keeping_ties_in_order() {
    let v = parse_lrc(&lines(&["[00:05.00]b", "[ti:Title]", "[00:01.00]a", "[00:05.00]c"])).unwrap();
    let got: Vec<(u64, &str)> = v.iter().map(|l| (l.timestamp_ms, l.text.as_str())).collect();
    assert_eq!(got, vec![(1000, "a"), (5000, "b"), (5000, "c")]);
}

#[test]
fn parse_lrc_without_timed_lines_is_none() {
    assert!(parse_lrc(&lines(&["[ar:x]", "plain text"])).is_none());
    assert!(parse_lrc(&lines(&[])).is_none());
}

#[test]
fn extract_lyrics_prefers_the_first_file() {
    let first = Some(lines(&["[00:01.00]first"]));
    let second = Some(lines(&["[00:02.00]second"]));
    let got = extract_lyrics(first, second);
    assert_eq!(got.len(), 1);
    assert_eq!(got[0].text, "first");
}

#[test]
fn extract_lyrics_falls_back_to_the_appended_name() {
    let first = Some(lines(&["no tags here"]));
    let second = Some(lines(&["[00:02.00]second"]));
    let got = extract_lyrics(first, second);
    assert_eq!(got[0].text, "second");
    assert!(extract_lyrics(None, None).is_empty());
}

fn lyric(ms: u64) -> LyricLine {
    LyricLine { timestamp_ms: ms, text: String::new() }
}

#[test]
fn visible_lyrics_centres_the_active_line() {
    let v: Vec<LyricLine> = (0..10).map(|i| lyric(i * 1000)).collect();
    assert_eq!(visible_lyrics(&v, 5_500, 4), (5, 3, 7));
    assert_eq!(visible_lyrics(&v, 0, 4), (0, 0, 4));
    assert_eq!(visible_lyrics(&v, 9_999, 6), (9, 6, 10));
}

#[test]
fn visible_lyrics_before_the_first_line_highlights_it() {
    let v = vec![lyric(3000), lyric(4000)];
    assert_eq!(visible_lyrics(&v, 100, 10), (0, 0, 2));
}

#[test]
fn active_line_is_always_in_the_window() {
    let v: Vec<LyricLine> = (0..30).map(|i| lyric(i * 500)).collect();
    for now in [0u64, 250, 7_000, 14_999, 100_000] {
        for h in 1..8usize {
            let (a, s, e) = visible_lyrics(&v, now, h);
            assert!(s <= a && a < e);
        }
    }
}

#[test]
fn parse_lrc_line_takes_other_decimal_digits_as_zero() {
    let l = parse_lrc_line("[\u{661}:\u{662}\u{663}]H").unwrap();
    assert_eq!(l.timestamp_ms, 0);
    assert_eq!(l.text, "H");
    let mixed = parse_lrc_line("[01:0\u{967}.50]x").unwrap();
    assert_eq!(mixed.timestamp_ms, 60_000 + 500);
    assert_eq!(mixed.text, "x");
}

#[test]
fn parse_lrc_line_rejects_letters_outside_ascii_in_the_tag() {
    assert!(parse_lrc_line("[\u{e9}:00]x").is_none());
    assert!(parse_lrc_line("[00:\u{661}a]x").is_none());
}
