# Prayer

A terminal music player and metadata manager: browse the music library by
artist and album, play tracks with synced lyrics, keep a queue and
playlists, search and download with yt-dlp, and fix the tags of downloaded
albums before moving them into the library.

## Layout

- `src/` is the library, verified with Verus: the library index
  (`library.rs`), synced lyrics (`lyrics.rs`), the metadata editor
  (`metadata.rs`), the downloader state (`downloader.rs`), playlists
  (`playlists.rs`), the player's navigation state (`player.rs`), what each
  key does (`keys.rs`), settings and start-up (`config.rs`), displayed text
  (`display.rs`), ordering (`order.rs`) and text helpers (`text.rs`).
- `app/` is the program around it: the terminal loop, drawing with
  ratatui, audio with symphonia and rodio, file scans and tag writes, and
  the yt-dlp and lrclib.net background work.
- `tests/` holds the tests of the library.

Settings live in `~/.config/prayer/config.toml` and playlists in
`~/.config/prayer/playlists.toml`; press `?` in the program for the keys.
