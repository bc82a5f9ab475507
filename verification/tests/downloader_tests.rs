use prayer::downloader::{search_args, DownloadJob, DownloadOutcome, DownloaderState, YtResult};

fn result(title: Option<&str>, id: Option<&str>) -> YtResult {
    YtResult { title: title.map(|s| s.to_string()), uploader: None, id: id.map(|s| s.to_string()), duration_secs: None, url: None }
}

#[test]
fn new_downloader_is_idle() {
    let d = DownloaderState::new("/tmp/x".to_string());
    assert_eq!(d.status, "Idle. Press '/' to search, 's' to download selected.");
    assert!(d.results.is_empty() && !d.is_searching && !d.is_downloading);
    assert_eq!(d.selected_index, 0);
}

#[test]
fn search_then_results() {
    let mut d = DownloaderState::new("/tmp/x".to_string());
    d.selected_index = 3;
    let terms = d.search("daft punk".to_string());
    assert_eq!(terms, vec!["ytsearch15:daft punk", "scsearch15:daft punk"]);
    assert_eq!(d.status, "Searching for 'daft punk'...");
    assert!(d.is_searching);
    assert_eq!(d.selected_index, 0);
    d.finish_search("daft punk", Some(vec![result(Some("One"), Some("id1")), result(None, None)]));
    assert!(!d.is_searching);
    assert_eq!(d.results.len(), 2);
    assert_eq!(d.status, "Found 2 results for 'daft punk'.");
    d.finish_search("q", None);
    assert_eq!(d.status, "Error running yt-dlp. Is it installed?");
    assert!(d.results.is_empty());
}

#[test]
fn download_selected_builds_the_job() {
    let mut d = DownloaderState::new("/stage".to_string());
    d.finish_search("q", Some(vec![result(None, Some("abc")), result(Some("T"), None)]));
    let job = d.download_selected().unwrap();
    assert_eq!(job.id, "abc");
    assert_eq!(job.title, "Unknown");
    assert_eq!(job.url, "https://www.youtube.com/watch?v=abc");
    assert_eq!(job.output_template, "/stage/%(artist)s/(%(release_year)s) - %(album)s/%(track_number)s - %(title)s.%(ext)s");
    assert_eq!(d.status, "Downloading 'Unknown'...");
    assert!(d.is_downloading);
    d.selected_index = 1;
    assert!(d.download_selected().is_none());
    d.selected_index = 9;
    assert!(d.download_selected().is_none());
}

#[test]
fn download_outcomes_are_reported() {
    let mut d = DownloaderState::new("/stage".to_string());
    d.finish_download("Song", DownloadOutcome::Succeeded);
    assert_eq!(d.status, "Successfully downloaded 'Song'.");
    d.finish_download("Song", DownloadOutcome::Failed("boom".to_string()));
    assert_eq!(d.status, "Failed to download 'Song': boom");
    d.finish_download("Song", DownloadOutcome::NotRun);
    assert_eq!(d.status, "Failed to run yt-dlp for 'Song'.");
    assert!(!d.is_downloading);
}

#[test]
fn results_with_a_page_are_downloaded_from_it() {
    let mut d = DownloaderState::new("/stage".to_string());
    let sc = YtResult {
        title: Some("Set".to_string()),
        uploader: Some("dj".to_string()),
        id: Some("123".to_string()),
        duration_secs: Some(3600),
        url: Some("https://soundcloud.com/dj/set".to_string()),
    };
    d.finish_search("set", Some(vec![sc]));
    let job = d.download_selected().unwrap();
    assert_eq!(job.url, "https://soundcloud.com/dj/set");
    assert_eq!(job.id, "123");
}

#[test]
fn download_arguments_name_the_template_and_the_address_last() {
    let job = DownloadJob {
        id: "abc".to_string(),
        title: "T".to_string(),
        output_template: "/tmp/%(title)s.%(ext)s".to_string(),
        url: "https://soundcloud.com/x/y".to_string(),
    };
    let args = job.ytdlp_args();
    assert_eq!(
        args,
        vec![
            "-f", "bestaudio[ext=m4a]/bestaudio", "--extract-audio", "--audio-format", "m4a",
            "--cookies-from-browser", "firefox", "-o", "/tmp/%(title)s.%(ext)s",
            "--parse-metadata", "title:%(artist)s - %(title)s", "--parse-metadata", "uploader:%(artist)s",
            "--embed-metadata", "https://soundcloud.com/x/y",
        ]
    );
}

#[test]
fn search_arguments_follow_the_terms() {
    let mut d = DownloaderState::new("/tmp".to_string());
    let terms = d.search("q".to_string());
    assert_eq!(search_args(&terms), vec!["ytsearch15:q", "scsearch15:q", "--dump-json", "--no-playlist"]);
}
