use prayer::config::{default_config, theme_color, ThemeColor};
use prayer::display::{
    album_line, clock_label, editor_status, editor_track_line, now_playing_label, number_prefix, result_line, search_line,
    two_digit,
};
use prayer::downloader::YtResult;
use prayer::library::Track;
use prayer::metadata::{AlbumGroup, MetadataState, TrackMetadata};

#[test]
fn clock_label_pads_minutes_and_seconds() {
    assert_eq!(clock_label(0), "00:00");
    assert_eq!(clock_label(65), "01:05");
    assert_eq!(clock_label(3599), "59:59");
    assert_eq!(clock_label(6000), "100:00");
    assert_eq!(two_digit(7), "07");
    assert_eq!(two_digit(123), "123");
}

#[test]
fn number_prefix_only_for_numbered_tracks() {
    assert_eq!(number_prefix(0), "");
    assert_eq!(number_prefix(3), "03. ");
    assert_eq!(number_prefix(12), "12. ");
}

#[test]
fn short_titles_do_not_scroll() {
    assert_eq!(now_playing_label("Song", "Band", 12345, true), "Song - Band");
}

#[test]
fn long_titles_scroll_when_animated() {
    let title = "A Very Long Title That Goes On";
    let artist = "An Artist";
    let msg = format!("{} - {}", title, artist);
    assert!(msg.len() > 40);
    assert_eq!(now_playing_label(title, artist, 0, false), msg);
    assert_eq!(now_playing_label(title, artist, 0, true), msg.chars().take(40).collect::<String>());
    let doubled = format!("{}      {}", msg, msg);
    let expect: String = doubled.chars().skip(3).take(40).collect();
    assert_eq!(now_playing_label(title, artist, 35, true), expect);
    let wrap = (msg.len() + 10) * 10;
    assert_eq!(now_playing_label(title, artist, wrap as u64, true), msg.chars().take(40).collect::<String>());
}

#[test]
fn theme_names_ignore_case() {
    assert_eq!(theme_color("Magenta"), ThemeColor::Magenta);
    assert_eq!(theme_color("GREEN"), ThemeColor::Green);
    assert_eq!(theme_color("yellow"), ThemeColor::Yellow);
    assert_eq!(theme_color("Red"), ThemeColor::Red);
    assert_eq!(theme_color("blue"), ThemeColor::Blue);
    assert_eq!(theme_color("cyan"), ThemeColor::Cyan);
    assert_eq!(theme_color("purple"), ThemeColor::Cyan);
}

#[test]
fn default_config_uses_home_music() {
    let c = default_config("/home/me");
    assert_eq!(c.music_directory, "/home/me/Music");
    assert_eq!(c.theme_color, "Cyan");
    assert!(c.enable_animations);
}

#[test]
fn list_lines_of_the_downloader_and_editor() {
    let r = YtResult { title: Some("Song".to_string()), uploader: None, id: None, duration_secs: Some(125), url: None };
    assert_eq!(result_line(&r, true), ">> Unknown Uploader - Song [02:05]");
    let r2 = YtResult { title: None, uploader: Some("Up".to_string()), id: None, duration_secs: None, url: None };
    assert_eq!(result_line(&r2, false), "   Up - Unknown Title [00:00]");

    let t = TrackMetadata {
        path: "/p".to_string(),
        title: "T".to_string(),
        artist: "A".to_string(),
        album: "Al".to_string(),
        year: "1999".to_string(),
        track_number: "7".to_string(),
    };
    assert_eq!(editor_track_line(&t, false), "   [7] A - T | Year: 1999");
    let g = AlbumGroup { name: "A - Al".to_string(), tracks: vec![t] };
    assert_eq!(album_line(&g, true), ">> A - Al (1 tracks)");

    let mut m = MetadataState::new("/tmp".to_string(), Vec::new());
    m.status = "Ready".to_string();
    assert_eq!(editor_status(&m), "Ready | l: fetch lyrics | m: move album to library");
    m.is_loading = true;
    assert_eq!(editor_status(&m), "Ready [WAIT]");

    let track = Track {
        path: "/x".to_string(),
        title: "Song".to_string(),
        artist: "Band".to_string(),
        album: "Rec".to_string(),
        year: "----".to_string(),
        track_number: 4,
        file_type: "MP3".to_string(),
        file_size: 0,
        lyrics: Vec::new(),
    };
    assert_eq!(search_line("*", &track), "* 04. Song - Band (Rec)");
}

#[test]
fn input_scroll_shows_the_end_of_long_text() {
    assert_eq!(prayer::display::input_scroll("short", 10), 0);
    assert_eq!(prayer::display::input_scroll("a longer text", 5), 8);
    assert_eq!(prayer::display::input_scroll("ééé", 2), 1);
}
