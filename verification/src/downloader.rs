//! The downloader tab: searching with yt-dlp and downloading the chosen
//! result into the staging directory. The searches and downloads themselves
//! run outside the library; this is the state they report to.

use vstd::prelude::*;
use crate::text::{owned, push_str, copy_string, decimal, decimal_seq};

verus! {

/// One search result, as yt-dlp describes it (duration in whole seconds,
/// `url` the result's page).
pub struct YtResult {
    pub title: Option<String>,
    pub uploader: Option<String>,
    pub id: Option<String>,
    pub duration_secs: Option<u64>,
    pub url: Option<String>,
}

/// How a download ended.
pub enum DownloadOutcome {
    /// yt-dlp ran and succeeded.
    Succeeded,
    /// yt-dlp ran and failed, with this error output.
    Failed(String),
    /// yt-dlp could not be run.
    NotRun,
}

/// A download to run: the video, its title for messages, and the yt-dlp
/// output template and address.
pub struct DownloadJob {
    pub id: String,
    pub title: String,
    pub output_template: String,
    pub url: String,
}

/// The views of a list of strings.
pub open spec fn arg_views(v: Seq<String>) -> Seq<Seq<char>> {
    v.map_values(|s: String| s@)
}

/// The yt-dlp arguments of a download: the best audio (in m4a where there is
/// such a stream), extracted as m4a, with Firefox's cookies, written by the
/// output template, artist and title read from an "artist - title" video
/// title or else the artist from the uploader and written into the file's
/// tags, fetched from `url`.
pub open spec fn download_arg_views(template: Seq<char>, url: Seq<char>) -> Seq<Seq<char>> {
    seq![
        "-f"@, "bestaudio[ext=m4a]/bestaudio"@, "--extract-audio"@, "--audio-format"@, "m4a"@,
        "--cookies-from-browser"@, "firefox"@, "-o"@, template,
        "--parse-metadata"@, "title:%(artist)s - %(title)s"@, "--parse-metadata"@, "uploader:%(artist)s"@, "--embed-metadata"@, url,
    ]
}

/// The yt-dlp arguments of a search: its terms, then the flags that ask for
/// one JSON line per result and no playlist expansion.
pub open spec fn search_arg_views(terms: Seq<Seq<char>>) -> Seq<Seq<char>> {
    terms + seq!["--dump-json"@, "--no-playlist"@]
}

impl DownloadJob {
    /// The yt-dlp arguments that carry out this job.
    pub fn ytdlp_args(&self) -> (r: Vec<String>)
        ensures
            arg_views(r@) == download_arg_views(self.output_template@, self.url@),
    {
        let mut r: Vec<String> = Vec::new();
        r.push(owned("-f"));
        r.push(owned("bestaudio[ext=m4a]/bestaudio"));
        r.push(owned("--extract-audio"));
        r.push(owned("--audio-format"));
        r.push(owned("m4a"));
        r.push(owned("--cookies-from-browser"));
        r.push(owned("firefox"));
        r.push(owned("-o"));
        r.push(copy_string(&self.output_template));
        r.push(owned("--parse-metadata"));
        r.push(owned("title:%(artist)s - %(title)s"));
        r.push(owned("--parse-metadata"));
        r.push(owned("uploader:%(artist)s"));
        r.push(owned("--embed-metadata"));
        r.push(copy_string(&self.url));
        assert(arg_views(r@) =~= download_arg_views(self.output_template@, self.url@));
        r
    }
}

/// The yt-dlp arguments of a search for `terms`.
pub fn search_args(terms: &Vec<String>) -> (r: Vec<String>)
    ensures
        arg_views(r@) == search_arg_views(arg_views(terms@)),
{
    let mut r: Vec<String> = Vec::new();
    let mut i: usize = 0;
    while i < terms.len()
        invariant
            i <= terms.len(),
            arg_views(r@) == arg_views(terms@).take(i as int),
        decreases terms.len() - i,
    {
        r.push(copy_string(&terms[i]));
        assert(arg_views(terms@).take(i + 1) =~= arg_views(terms@).take(i as int).push(terms@[i as int]@));
        assert(arg_views(r@) =~= arg_views(terms@).take(i + 1));
        i = i + 1;
    }
    r.push(owned("--dump-json"));
    r.push(owned("--no-playlist"));
    assert(arg_views(terms@).take(terms.len() as int) =~= arg_views(terms@));
    assert(arg_views(r@) =~= search_arg_views(arg_views(terms@)));
    r
}

/// The state of the downloader tab.
pub struct DownloaderState {
    pub query: String,
    pub results: Vec<YtResult>,
    pub status: String,
    pub is_searching: bool,
    pub is_downloading: bool,
    pub tmp_dir: String,
    pub selected_index: usize,
}

/// The yt-dlp output template: files go under the staging directory, by
/// artist, then `(release year) - album`, then `track number - title`.
pub open spec fn output_template_seq(tmp_dir: Seq<char>) -> Seq<char> {
    tmp_dir + "/%(artist)s/(%(release_year)s) - %(album)s/%(track_number)s - %(title)s.%(ext)s"@
}

/// The yt-dlp search terms for a query: fifteen results from YouTube and
/// fifteen from SoundCloud.
pub open spec fn are_search_terms(terms: Seq<String>, query: Seq<char>) -> bool {
    &&& terms.len() == 2
    &&& terms[0]@ == "ytsearch15:"@ + query
    &&& terms[1]@ == "scsearch15:"@ + query
}

/// The address a result is downloaded from: its page, or else the YouTube
/// page of its id.
pub open spec fn download_url(r: YtResult) -> Seq<char> {
    match r.url {
        Some(u) => u@,
        None => "https://www.youtube.com/watch?v="@ + r.id->0@,
    }
}

/// Whether `n` is `d` after starting a search for `query`: the query is
/// recorded, the results and the selection are cleared, and the search is
/// reported.
pub open spec fn search_started(d: DownloaderState, query: Seq<char>, n: DownloaderState) -> bool {
    &&& n.query@ == query
    &&& n.status@ == "Searching for '"@ + query + "'..."@
    &&& n.is_searching
    &&& n.results@.len() == 0
    &&& n.selected_index == 0
    &&& n.is_downloading == d.is_downloading
    &&& n.tmp_dir == d.tmp_dir
}

/// What starting the download of the selected result gives, `n` being the
/// downloader afterwards: nothing and no change when the selection is past
/// the results or the result has no id; otherwise the job for the result,
/// reported under its title ("Unknown" without one).
pub open spec fn download_started(d: DownloaderState, n: DownloaderState, job: Option<DownloadJob>) -> bool {
    let sel = d.selected_index as int;
    let ok = sel < d.results@.len() && d.results@[sel].id is Some;
    &&& !ok ==> job is None && n == d
    &&& ok ==> {
        let r = d.results@[sel];
        let title = match r.title { Some(t) => t@, None => "Unknown"@ };
        &&& job is Some
        &&& job->0.id@ == r.id->0@
        &&& job->0.title@ == title
        &&& job->0.output_template@ == output_template_seq(d.tmp_dir@)
        &&& job->0.url@ == download_url(r)
        &&& n.status@ == "Downloading '"@ + title + "'..."@
        &&& n.is_downloading
        &&& n.results == d.results
        &&& n.query == d.query
        &&& n.selected_index == d.selected_index
        &&& n.is_searching == d.is_searching
        &&& n.tmp_dir == d.tmp_dir
    }
}

/// Whether `n` is `d` after the search for `query` ended with `found` (the
/// results read from yt-dlp's output, `None` when yt-dlp could not be run).
pub open spec fn search_finished(d: DownloaderState, query: Seq<char>, found: Option<Vec<YtResult>>, n: DownloaderState) -> bool {
    &&& !n.is_searching
    &&& match found {
        Some(v) => n.results@ == v@
            && n.status@ == "Found "@ + decimal_seq(v@.len()) + " results for '"@ + query + "'."@,
        None => n.results@.len() == 0 && n.status@ == "Error running yt-dlp. Is it installed?"@,
    }
    &&& n.query == d.query
    &&& n.selected_index == d.selected_index
    &&& n.is_downloading == d.is_downloading
    &&& n.tmp_dir == d.tmp_dir
}

/// Whether `n` is `d` after the download of `title` ended with `outcome`.
pub open spec fn download_finished(d: DownloaderState, title: Seq<char>, outcome: DownloadOutcome, n: DownloaderState) -> bool {
    &&& !n.is_downloading
    &&& n.status@ == (match outcome {
        DownloadOutcome::Succeeded => "Successfully downloaded '"@ + title + "'."@,
        DownloadOutcome::Failed(err) => "Failed to download '"@ + title + "': "@ + err@,
        DownloadOutcome::NotRun => "Failed to run yt-dlp for '"@ + title + "'."@,
    })
    &&& n == (DownloaderState { is_downloading: n.is_downloading, status: n.status, ..d })
}

impl DownloaderState {
    /// An idle downloader that saves into `tmp_dir`.
    pub fn new(tmp_dir: String) -> (s: Self)
        ensures
            s.query@ == Seq::<char>::empty(),
            s.results@.len() == 0,
            s.status@ == "Idle. Press '/' to search, 's' to download selected."@,
            !s.is_searching,
            !s.is_downloading,
            s.tmp_dir@ == tmp_dir@,
            s.selected_index == 0,
    {
        DownloaderState {
            query: String::new(),
            results: Vec::new(),
            status: owned("Idle. Press '/' to search, 's' to download selected."),
            is_searching: false,
            is_downloading: false,
            tmp_dir,
            selected_index: 0,
        }
    }

    /// Starts a search: records the query, clears the results and the
    /// selection, and reports the search. Gives the yt-dlp search terms,
    /// which ask YouTube and SoundCloud for fifteen results each.
    pub fn search(&mut self, query: String) -> (terms: Vec<String>)
        ensures
            are_search_terms(terms@, query@),
            search_started(*old(self), query@, *final(self)),
    {
        let mut status = owned("Searching for '");
        push_str(&mut status, query.as_str());
        push_str(&mut status, "'...");
        let mut youtube = owned("ytsearch15:");
        push_str(&mut youtube, query.as_str());
        let mut soundcloud = owned("scsearch15:");
        push_str(&mut soundcloud, query.as_str());
        let mut terms: Vec<String> = Vec::new();
        terms.push(youtube);
        terms.push(soundcloud);
        self.query = query;
        self.status = status;
        self.is_searching = true;
        self.results = Vec::new();
        self.selected_index = 0;
        terms
    }

    /// Records the end of the search for `query`: the results read from
    /// yt-dlp's output (`None` when yt-dlp could not be run, leaving no
    /// results) and the matching message.
    pub fn finish_search(&mut self, query: &str, found: Option<Vec<YtResult>>)
        ensures
            search_finished(*old(self), query@, found, *final(self)),
    {
        match found {
            Some(v) => {
                let mut status = owned("Found ");
                let count = decimal(v.len() as u64);
                push_str(&mut status, count.as_str());
                push_str(&mut status, " results for '");
                push_str(&mut status, query);
                push_str(&mut status, "'.");
                self.status = status;
                self.results = v;
            },
            None => {
                self.status = owned("Error running yt-dlp. Is it installed?");
                self.results = Vec::new();
            },
        }
        self.is_searching = false;
    }

    /// Starts downloading the selected result: nothing happens (and `None`)
    /// when the selection is past the results or the result has no id;
    /// otherwise the download is reported under the result's title ("Unknown"
    /// without one) and its job is given.
    pub fn download_selected(&mut self) -> (job: Option<DownloadJob>)
        ensures
            download_started(*old(self), *final(self), job),
    {
        if self.selected_index >= self.results.len() {
            return None;
        }
        let item = &self.results[self.selected_index];
        let id = match &item.id {
            Some(i) => copy_string(i),
            None => return None,
        };
        let title = match &item.title {
            Some(t) => copy_string(t),
            None => owned("Unknown"),
        };
        let mut status = owned("Downloading '");
        push_str(&mut status, title.as_str());
        push_str(&mut status, "'...");
        let mut template = copy_string(&self.tmp_dir);
        push_str(&mut template, "/%(artist)s/(%(release_year)s) - %(album)s/%(track_number)s - %(title)s.%(ext)s");
        let url = match &item.url {
            Some(u) => copy_string(u),
            None => {
                let mut u = owned("https://www.youtube.com/watch?v=");
                push_str(&mut u, id.as_str());
                u
            },
        };
        self.status = status;
        self.is_downloading = true;
        Some(DownloadJob { id, title, output_template: template, url })
    }

    /// Records the end of the download of `title`.
    pub fn finish_download(&mut self, title: &str, outcome: DownloadOutcome)
        ensures
            download_finished(*old(self), title@, outcome, *final(self)),
    {
        let status = match outcome {
            DownloadOutcome::Succeeded => {
                let mut s = owned("Successfully downloaded '");
                push_str(&mut s, title);
                push_str(&mut s, "'.");
                s
            },
            DownloadOutcome::Failed(err) => {
                let mut s = owned("Failed to download '");
                push_str(&mut s, title);
                push_str(&mut s, "': ");
                push_str(&mut s, err.as_str());
                s
            },
            DownloadOutcome::NotRun => {
                let mut s = owned("Failed to run yt-dlp for '");
                push_str(&mut s, title);
                push_str(&mut s, "'.");
                s
            },
        };
        self.status = status;
        self.is_downloading = false;
    }
}

/// A search asks yt-dlp for fifteen YouTube results and fifteen SoundCloud
/// results of the query, one JSON line each, without playlist expansion.
pub proof fn law_search_asks_both_sites(terms: Seq<String>, query: Seq<char>)
    requires
        are_search_terms(terms, query),
    ensures
        search_arg_views(arg_views(terms)) == seq![
            "ytsearch15:"@ + query, "scsearch15:"@ + query, "--dump-json"@, "--no-playlist"@,
        ],
{
    assert(arg_views(terms) =~= seq!["ytsearch15:"@ + query, "scsearch15:"@ + query]);
    assert(search_arg_views(arg_views(terms)) =~= seq![
        "ytsearch15:"@ + query, "scsearch15:"@ + query, "--dump-json"@, "--no-playlist"@,
    ]);
}

/// Downloading the selected result fetches its page, or the YouTube page of
/// its id when it has none, into the staging directory laid out by artist,
/// `(year) - album` and `number - title`, under the result's title
/// ("Unknown" without one).
pub proof fn law_download_job(d: DownloaderState, n: DownloaderState, job: Option<DownloadJob>)
    requires
        download_started(d, n, job),
        (d.selected_index as int) < d.results@.len(),
        d.results@[d.selected_index as int].id is Some,
    ensures
        job is Some,
        job->0.url@ == (match d.results@[d.selected_index as int].url {
            Some(u) => u@,
            None => "https://www.youtube.com/watch?v="@ + d.results@[d.selected_index as int].id->0@,
        }),
        job->0.output_template@
            == d.tmp_dir@ + "/%(artist)s/(%(release_year)s) - %(album)s/%(track_number)s - %(title)s.%(ext)s"@,
        job->0.title@ == (match d.results@[d.selected_index as int].title { Some(t) => t@, None => "Unknown"@ }),
        n.is_downloading,
{
}

} // verus!
