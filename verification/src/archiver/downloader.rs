//! Downloads of single videos: where they come from, how the command is called, what its outcome
//! means.
use vstd::prelude::*;

use crate::archiver::types::{ArchiverEvent, EventModel};
use crate::number;
use crate::text;

verus! {

/// The address of a video.
pub open spec fn video_url_of(video_id: Seq<char>, platform: Seq<char>) -> Seq<char> {
    if platform == "twitch"@ {
        "https://www.twitch.tv/videos/"@ + video_id
    } else {
        "https://www.youtube.com/watch?v="@ + video_id
    }
}

/// Build a YouTube/Twitch video URL from a video ID and platform.
pub fn video_url(video_id: &str, platform: &str) -> (r: String)
    ensures
        r@ == video_url_of(video_id@, platform@),
{
    if text::same_str(platform, "twitch") {
        text::cat("https://www.twitch.tv/videos/", video_id)
    } else {
        text::cat("https://www.youtube.com/watch?v=", video_id)
    }
}

/// Where a video goes: under its playlist, or under its month.
pub open spec fn template_for(output_dir: Seq<char>, playlist: Option<Seq<char>>) -> Seq<char> {
    match playlist {
        Some(p) => output_dir + "/Playlists/"@ + p
            + "/%(upload_date>%m-%d-%Y)s - %(title)s.%(ext)s"@,
        None => output_dir
            + "/%(upload_date>%Y-%m)s/%(upload_date>%m-%d-%Y)s - %(title)s.%(ext)s"@,
    }
}

/// Where a video goes: under its playlist, or under its month.
pub fn output_template(output_dir: &str, playlist: &Option<String>) -> (r: String)
    ensures
        r@ == template_for(output_dir@, playlist.deep_view()),
{
    match playlist {
        Some(p) => {
            let mut out = text::cat3(output_dir, "/Playlists/", p.as_str());
            out.append("/%(upload_date>%m-%d-%Y)s - %(title)s.%(ext)s");
            out
        },
        None => text::cat(
            output_dir,
            "/%(upload_date>%Y-%m)s/%(upload_date>%m-%d-%Y)s - %(title)s.%(ext)s",
        ),
    }
}

/// What yt-dlp is called with to download a video.
pub open spec fn download_args_of(
    video_url: Seq<char>,
    output_dir: Seq<char>,
    archive_txt: Seq<char>,
    format: Seq<char>,
    concurrent_fragments: u32,
    cookies: Option<Seq<char>>,
    playlist: Option<Seq<char>>,
) -> Seq<Seq<char>> {
    let args = seq![
        "--download-archive"@,
        archive_txt,
        "--no-overwrites"@,
        "-f"@,
        format,
        "--concurrent-fragments"@,
        number::decimal_of(concurrent_fragments as nat),
        "-o"@,
        template_for(output_dir, playlist),
    ];
    match cookies {
        Some(c) => args.push("--cookies"@).push(c).push(video_url),
        None => args.push(video_url),
    }
}

/// What yt-dlp is called with to download a video. Paths that are not text are empty.
pub fn download_args(
    video_url: &str,
    output_dir: &str,
    archive_txt: &str,
    format: &str,
    concurrent_fragments: u32,
    cookies: &Option<String>,
    playlist: &Option<String>,
) -> (r: Vec<String>)
    ensures
        r.deep_view() == download_args_of(
            video_url@,
            output_dir@,
            archive_txt@,
            format@,
            concurrent_fragments,
            cookies.deep_view(),
            playlist.deep_view(),
        ),
{
    let fragments = number::decimal(concurrent_fragments as u64);
    let template = output_template(output_dir, playlist);
    let list = [
        "--download-archive",
        archive_txt,
        "--no-overwrites",
        "-f",
        format,
        "--concurrent-fragments",
        fragments.as_str(),
        "-o",
        template.as_str(),
    ];
    let mut out = text::owned(&list);
    assert(out.deep_view() == seq![
        "--download-archive"@,
        archive_txt@,
        "--no-overwrites"@,
        "-f"@,
        format@,
        "--concurrent-fragments"@,
        fragments@,
        "-o"@,
        template@,
    ]);
    match cookies {
        Some(c) => {
            text::push_copy(&mut out, "--cookies");
            text::push_copy(&mut out, c.as_str());
        },
        None => {},
    }
    text::push_copy(&mut out, video_url);
    out
}

/// How a call of yt-dlp ended.
#[derive(Debug)]
pub enum ToolOutcome {
    /// It could not be run, for this reason.
    Unstarted(String),
    /// It ended, with what it wrote.
    Exited { success: bool, stdout: String, stderr: String },
}

#[verifier::ext_equal]
pub enum ToolModel {
    Unstarted(Seq<char>),
    Exited { success: bool, stdout: Seq<char>, stderr: Seq<char> },
}

impl DeepView for ToolOutcome {
    type V = ToolModel;

    open spec fn deep_view(&self) -> ToolModel {
        match self {
            ToolOutcome::Unstarted(e) => ToolModel::Unstarted(e@),
            ToolOutcome::Exited { success, stdout, stderr } => ToolModel::Exited {
                success: *success,
                stdout: stdout@,
                stderr: stderr@,
            },
        }
    }
}

/// What the outcome of a download means. A video that the archive already has is no error.
pub open spec fn download_result_of(outcome: ToolModel) -> Result<(), Seq<char>> {
    match outcome {
        ToolModel::Unstarted(e) => Err(e),
        ToolModel::Exited { success, stdout, stderr } => if success || text::occurs(
            stderr,
            "has already been recorded"@,
        ) {
            Ok(())
        } else {
            Err("yt-dlp download failed: "@ + text::at_most(stderr, 300))
        },
    }
}

/// What the outcome of a download means.
pub fn download_result(outcome: ToolOutcome) -> (r: Result<(), String>)
    ensures
        match (r, download_result_of(outcome.deep_view())) {
            (Ok(_), Ok(_)) => true,
            (Err(e), Err(m)) => e@ == m,
            _ => false,
        },
{
    match outcome {
        ToolOutcome::Unstarted(e) => Err(e),
        ToolOutcome::Exited { success, stdout, stderr } => {
            if success || text::contains_text(stderr.as_str(), "has already been recorded") {
                return Ok(());
            }
            let shown = text::first_chars(stderr.as_str(), 300);
            Err(text::cat("yt-dlp download failed: ", shown.as_str()))
        },
    }
}

/// What a download reports.
pub open spec fn download_report(
    job_id: u128,
    video_id: Seq<char>,
    result: Result<(), Seq<char>>,
) -> EventModel {
    match result {
        Ok(_) => EventModel::VideoDownloaded { job_id, video_id },
        Err(e) => EventModel::JobError { job_id, error: "Download failed: "@ + e },
    }
}

/// What a download reports.
pub fn download_event(job_id: u128, video_id: String, result: Result<(), String>) -> (r:
    ArchiverEvent)
    ensures
        r.deep_view() == download_report(
            job_id,
            video_id@,
            match result {
                Ok(_) => Ok(()),
                Err(e) => Err(e@),
            },
        ),
{
    match result {
        Ok(_) => ArchiverEvent::VideoDownloaded { job_id, video_id },
        Err(e) => ArchiverEvent::JobError {
            job_id,
            error: text::cat("Download failed: ", e.as_str()),
        },
    }
}

/// A video of a playlist goes into the playlist's directory, another one into that of its month,
/// both under the channel's directory; the file's name is made the same way.
pub proof fn law_playlist_directory(dir: Seq<char>, playlist: Seq<char>)
    ensures
        exists|name: Seq<char>|
            {
                &&& #[trigger] template_for(dir, Some(playlist)) == dir + "/Playlists/"@ + playlist
                    + name
                &&& template_for(dir, None) == dir + "/%(upload_date>%Y-%m)s"@ + name
                &&& name == "/%(upload_date>%m-%d-%Y)s - %(title)s.%(ext)s"@
            },
{
    reveal_strlit("/%(upload_date>%Y-%m)s");
    reveal_strlit("/%(upload_date>%m-%d-%Y)s - %(title)s.%(ext)s");
    reveal_strlit("/%(upload_date>%Y-%m)s/%(upload_date>%m-%d-%Y)s - %(title)s.%(ext)s");
    let name = "/%(upload_date>%m-%d-%Y)s - %(title)s.%(ext)s"@;
    let month = "/%(upload_date>%Y-%m)s"@;
    assert(month + name
        == "/%(upload_date>%Y-%m)s/%(upload_date>%m-%d-%Y)s - %(title)s.%(ext)s"@);
    assert(dir + month + name == dir + (month + name));
}

/// Two playlists of a channel share no directory, and no two videos of a platform an address.
pub proof fn law_no_two_alike(dir: Seq<char>, a: Seq<char>, b: Seq<char>, platform: Seq<char>)
    ensures
        template_for(dir, Some(a)) == template_for(dir, Some(b)) ==> a == b,
        video_url_of(a, platform) == video_url_of(b, platform) ==> a == b,
{
    let x = template_for(dir, Some(a));
    let y = template_for(dir, Some(b));
    let head = (dir + "/Playlists/"@).len() as int;
    if x == y {
        assert(x.len() == y.len());
        assert(a.len() == b.len());
        assert(x.subrange(head, head + a.len()) == a);
        assert(y.subrange(head, head + b.len()) == b);
    }
    let u = video_url_of(a, platform);
    let v = video_url_of(b, platform);
    if u == v {
        assert(u.len() == v.len());
        assert(a.len() == b.len());
        assert(u.skip(u.len() - a.len()) == a);
        assert(v.skip(v.len() - b.len()) == b);
    }
}

/// A video's address is on Twitch when the platform is, and else on YouTube, and ends with its id.
pub proof fn law_video_address(video_id: Seq<char>, platform: Seq<char>)
    ensures
        platform == "twitch"@ ==> video_url_of(video_id, platform)
            == "https://www.twitch.tv/videos/"@ + video_id,
        platform != "twitch"@ ==> video_url_of(video_id, platform)
            == "https://www.youtube.com/watch?v="@ + video_id,
{
}

/// The command is called for the video's address, which comes last, with the file that tracks what
/// has been downloaded, the format, the number of fragments and the place for the file. It
/// overwrites nothing. Cookies are handed on when there are any, and only then.
pub proof fn law_download_call(
    url: Seq<char>,
    dir: Seq<char>,
    archive: Seq<char>,
    format: Seq<char>,
    fragments: u32,
    cookies: Option<Seq<char>>,
    playlist: Option<Seq<char>>,
)
    ensures
        ({
            let args = download_args_of(url, dir, archive, format, fragments, cookies, playlist);
            &&& args.last() == url
            &&& args.contains("--no-overwrites"@)
            &&& text::given(args, "--download-archive"@, archive)
            &&& text::given(args, "-f"@, format)
            &&& text::given(args, "--concurrent-fragments"@, number::decimal_of(fragments as nat))
            &&& text::given(args, "-o"@, template_for(dir, playlist))
            &&& cookies matches Some(c) ==> text::given(args, "--cookies"@, c)
            &&& args.len() == if cookies is Some {
                12int
            } else {
                10
            }
        }),
{
    let args = download_args_of(url, dir, archive, format, fragments, cookies, playlist);
    assert(args[0] == "--download-archive"@ && args[1] == archive);
    assert(args[2] == "--no-overwrites"@);
    assert(args[3] == "-f"@ && args[4] == format);
    assert(args[5] == "--concurrent-fragments"@);
    assert(args[7] == "-o"@);
    if cookies is Some {
        assert(args[9] == "--cookies"@);
    }
}

/// A download reports the video exactly when the command ran and either succeeded or complained
/// that it had the video. Else it reports an error, for the same job: why the command did not run,
/// or the start of what it complained of.
pub proof fn law_download_outcome(job_id: u128, video_id: Seq<char>, outcome: ToolModel)
    ensures
        ({
            let report = download_report(job_id, video_id, download_result_of(outcome));
            match outcome {
                ToolModel::Unstarted(e) => report == (EventModel::JobError {
                    job_id,
                    error: "Download failed: "@ + e,
                }),
                ToolModel::Exited { success, stdout, stderr } => if success || (exists|i: int|
                    text::stands_at(stderr, "has already been recorded"@, i)) {
                    report == (EventModel::VideoDownloaded { job_id, video_id })
                } else {
                    exists|n: int|
                        {
                            &&& 0 <= n <= stderr.len()
                            &&& n == 300 || n == stderr.len() && n < 300
                            &&& report == (EventModel::JobError {
                                job_id,
                                error: "Download failed: "@ + ("yt-dlp download failed: "@
                                    + #[trigger] stderr.take(n)),
                            })
                        }
                },
            }
        }),
{
    if let ToolModel::Exited { success, stdout, stderr } = outcome {
        text::law_at_most(stderr, 300);
        let n = text::at_most(stderr, 300).len() as int;
        assert(stderr.take(n) == text::at_most(stderr, 300));
        assert(stderr.take(stderr.len() as int) == stderr);
    }
}

} // verus!
