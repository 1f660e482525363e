//! What holds of the archiver as a whole.
use vstd::prelude::*;

use crate::archiver::downloader;
use crate::archiver::model;
use crate::archiver::model::ArchiverModel;
use crate::archiver::types::{
    ArchiveState, EffectModel, EventModel, JobModel, PendingModel, VideoModel,
};
use crate::config;
use crate::config::{ArchiverConfigModel, ConfigModalState};
use crate::host;
use crate::host::{AppModel, ChannelModel, Key, PathModel, RecordingModel};
use crate::ids;
use crate::number;
use crate::picker;
use crate::text;

verus! {

/// Where a job is put, the others stay and all keep their places.
proof fn lemma_put(s: ArchiverModel, id: u128, job: JobModel)
    requires
        job.id == id,
    ensures
        s.put(id, job).jobs.len() == s.jobs.len(),
        forall|other: u128| #[trigger]
            model::job_at(s.put(id, job).jobs, other) == model::job_at(s.jobs, other),
        s.has_job(id) ==> s.put(id, job).job(id) == job,
{
    model::lemma_job_at(s.jobs, id);
    let t = s.put(id, job);
    assert forall|other: u128| #[trigger]
        model::job_at(t.jobs, other) == model::job_at(s.jobs, other) by {
        model::lemma_job_at(s.jobs, other);
        let k = model::job_at(s.jobs, other);
        assert forall|j: int| 0 <= j < k implies (#[trigger] t.jobs[j]).id != other by {
            assert(s.jobs[j].id != other);
        }
        model::lemma_job_at_is(t.jobs, other, k);
    }
}

// ---------------------------------------------------------------------------
// Jobs
// ---------------------------------------------------------------------------

/// The job that an event is about.
pub open spec fn subject(event: EventModel) -> u128 {
    match event {
        EventModel::ScanComplete { job_id, .. } => job_id,
        EventModel::VideoDownloaded { job_id, .. } => job_id,
        EventModel::JobComplete { job_id } => job_id,
        EventModel::JobError { job_id, .. } => job_id,
    }
}

/// A report touches no job but the one it is about, and neither adds nor removes any.
pub proof fn law_event_touches_one(s: ArchiverModel, event: EventModel, i: int)
    requires
        0 <= i < s.jobs.len(),
    ensures
        ({
            let after = s.archiver_event(event).0;
            &&& after.jobs.len() == s.jobs.len()
            &&& after.jobs[i].id == s.jobs[i].id
            &&& s.jobs[i].id != subject(event) ==> after.jobs[i] == s.jobs[i]
        }),
{
    let id = subject(event);
    model::lemma_job_at(s.jobs, id);
    match event {
        EventModel::ScanComplete { job_id, videos } => {
            let j = JobModel {
                total_videos: videos.len(),
                state: ArchiveState::Downloading,
                ..s.job(id)
            };
            if s.has_job(id) {
                lemma_put(s, id, j);
                model::lemma_job_at(s.put(id, j).jobs, id);
            }
        },
        EventModel::VideoDownloaded { job_id, video_id } => {
            let j = JobModel { completed_videos: s.job(id).completed_videos + 1, ..s.job(id) };
            if s.has_job(id) {
                lemma_put(s, id, j);
                model::lemma_job_at(s.put(id, j).jobs, id);
            }
        },
        _ => {},
    }
}

/// The archiver after downloads of `videos` by one job, one after the other.
pub open spec fn after_downloads(s: ArchiverModel, id: u128, videos: Seq<Seq<char>>) -> ArchiverModel
    decreases videos.len(),
{
    if videos.len() == 0 {
        s
    } else {
        after_downloads(s, id, videos.drop_last()).video_downloaded(id, videos.last()).0
    }
}

/// A job whose scan listed videos counts every download, is still downloading before the last one,
/// and is complete after as many downloads as there were videos.
pub proof fn law_run_completes(
    s: ArchiverModel,
    id: u128,
    listed: Seq<VideoModel>,
    done: Seq<Seq<char>>,
)
    requires
        s.has_job(id),
        s.job(id).completed_videos == 0,
        0 < listed.len(),
        done.len() <= listed.len(),
    ensures
        ({
            let after = after_downloads(s.scan_complete(id, listed).0, id, done);
            &&& after.has_job(id)
            &&& after.job(id).total_videos == listed.len()
            &&& after.job(id).completed_videos == done.len()
            &&& if done.len() == listed.len() {
                after.job(id).state is Complete
            } else {
                after.job(id).state is Downloading
            }
        }),
    decreases done.len(),
{
    model::lemma_job_at(s.jobs, id);
    let first = JobModel {
        total_videos: listed.len(),
        state: ArchiveState::Downloading,
        ..s.job(id)
    };
    lemma_put(s, id, first);
    if done.len() > 0 {
        law_run_completes(s, id, listed, done.drop_last());
        let before = after_downloads(s.scan_complete(id, listed).0, id, done.drop_last());
        model::lemma_job_at(before.jobs, id);
        let counted = JobModel {
            completed_videos: before.job(id).completed_videos + 1,
            ..before.job(id)
        };
        lemma_put(before, id, counted);
        let t = before.put(id, counted);
        model::lemma_job_at(t.jobs, id);
        lemma_put(
            t,
            id,
            JobModel { state: ArchiveState::Complete, ..t.job(id) },
        );
    }
}

/// The download that completes a job tells the user, with the number of videos.
pub proof fn law_completion_is_told(s: ArchiverModel, id: u128, video_id: Seq<char>)
    requires
        s.has_job(id),
        s.job(id).completed_videos + 1 >= s.job(id).total_videos,
    ensures
        s.video_downloaded(id, video_id).1.last() == EffectModel::SetStatus(
            "Archiver: "@ + s.job(id).channel_name + " complete ("@ + number::decimal_of(
                s.job(id).total_videos,
            ) + " videos)"@,
        ),
{
    model::lemma_job_at(s.jobs, id);
    lemma_put(
        s,
        id,
        JobModel { completed_videos: s.job(id).completed_videos + 1, ..s.job(id) },
    );
}

/// What is downloaded is the first of the pending videos: that one's id, address and playlist, into
/// the job's directory, with the settings in force. Its title is shown with the job, and nothing
/// else changes. The videos behind it make no difference.
pub proof fn law_first_pending(
    s: ArchiverModel,
    id: u128,
    videos: Seq<PendingModel>,
    defaults: ArchiverConfigModel,
)
    requires
        s.has_job(id),
        videos.len() > 0,
    ensures
        ({
            let (after, effects) = s.pending_loaded(id, Some(videos), defaults);
            let twitch = text::lowercase(s.job(id).platform.label) == "twitch"@;
            &&& effects.len() == 1
            &&& effects[0] matches EffectModel::Download {
                job_id,
                video_id,
                url,
                output_dir,
                archive_txt,
                format,
                concurrent_fragments,
                playlist,
            } && {
                &&& job_id == id
                &&& video_id == videos[0].video_id
                &&& playlist == videos[0].playlist
                &&& twitch ==> url == "https://www.twitch.tv/videos/"@ + videos[0].video_id
                &&& !twitch ==> url == "https://www.youtube.com/watch?v="@ + videos[0].video_id
                &&& output_dir == s.job(id).archive_dir
                &&& archive_txt.base == s.job(id).archive_dir.base
                &&& archive_txt.parts == s.job(id).archive_dir.parts.push("archive.txt"@)
                &&& s.config matches Some(c) ==> format == c.format && concurrent_fragments
                    == c.concurrent_fragments
                &&& s.config is None ==> format == defaults.format && concurrent_fragments
                    == defaults.concurrent_fragments
            }
            &&& after.has_job(id)
            &&& after.job(id) == (JobModel { current_video: Some(videos[0].title), ..s.job(id) })
            &&& after == (ArchiverModel { jobs: after.jobs, ..s })
            &&& s.pending_loaded(id, Some(videos), defaults) == s.pending_loaded(
                id,
                Some(seq![videos[0]]),
                defaults,
            )
        }),
{
    model::lemma_job_at(s.jobs, id);
    lemma_put(s, id, JobModel { current_video: Some(videos[0].title), ..s.job(id) });
}

/// Where nothing is pending the job is done and nothing is downloaded. Where the pending videos
/// could not be read, or there is no such job, nothing happens.
pub proof fn law_nothing_pending(
    s: ArchiverModel,
    id: u128,
    videos: Seq<PendingModel>,
    defaults: ArchiverConfigModel,
)
    ensures
        s.pending_loaded(id, None, defaults) == (s, Seq::<EffectModel>::empty()),
        !s.has_job(id) ==> s.pending_loaded(id, Some(videos), defaults) == (
            s,
            Seq::<EffectModel>::empty(),
        ),
        s.has_job(id) ==> ({
            let (after, effects) = s.pending_loaded(id, Some(Seq::empty()), defaults);
            &&& effects.len() == 0
            &&& after.has_job(id)
            &&& after.job(id) == (JobModel { state: ArchiveState::Complete, ..s.job(id) })
        }),
{
    model::lemma_job_at(s.jobs, id);
    if s.has_job(id) {
        lemma_put(s, id, JobModel { state: ArchiveState::Complete, ..s.job(id) });
    }
}

/// A pending video that belongs to a playlist is put into the playlist's directory, and one that
/// belongs to none is not: the command is told so for the effect that the video leads to, whatever
/// the directory that the job's directory is.
pub proof fn law_playlist_kept(
    s: ArchiverModel,
    id: u128,
    videos: Seq<PendingModel>,
    defaults: ArchiverConfigModel,
    dir: Seq<char>,
    archive: Seq<char>,
    cookies: Option<Seq<char>>,
)
    requires
        s.has_job(id),
        videos.len() > 0,
    ensures
        s.pending_loaded(id, Some(videos), defaults).1[0] matches EffectModel::Download {
            job_id,
            video_id,
            url,
            output_dir,
            archive_txt,
            format,
            concurrent_fragments,
            playlist,
        } && {
            let args = downloader::download_args_of(
                url,
                dir,
                archive,
                format,
                concurrent_fragments,
                cookies,
                playlist,
            );
            let name = "/%(upload_date>%m-%d-%Y)s - %(title)s.%(ext)s"@;
            &&& args.last() == url
            &&& videos[0].playlist matches Some(p) ==> text::given(
                args,
                "-o"@,
                dir + "/Playlists/"@ + p + name,
            )
            &&& videos[0].playlist is None ==> text::given(
                args,
                "-o"@,
                dir + "/%(upload_date>%Y-%m)s"@ + name,
            )
        },
{
    law_first_pending(s, id, videos, defaults);
    let e = s.pending_loaded(id, Some(videos), defaults).1[0];
    downloader::law_download_call(
        e->Download_url,
        dir,
        archive,
        e->Download_format,
        e->Download_concurrent_fragments,
        cookies,
        e->Download_playlist,
    );
    match videos[0].playlist {
        Some(p) => downloader::law_playlist_directory(dir, p),
        None => downloader::law_playlist_directory(dir, Seq::empty()),
    }
}

/// The address of a channel is on its own platform and holds its name; channels of a platform with
/// other names have other addresses. Other platforms have none.
pub proof fn law_channel_address(c: ChannelModel, d: ChannelModel)
    ensures
        c.platform.kind is Twitch ==> model::channel_url_of(c) == Some(
            "https://www.twitch.tv/"@ + c.name + "/videos?filter=archives"@,
        ),
        c.platform.kind is YouTube ==> model::channel_url_of(c) == Some(
            "https://www.youtube.com/@"@ + c.name + "/videos"@,
        ),
        c.platform.kind is Other <==> model::channel_url_of(c) is None,
        !(c.platform.kind is Other) && c.platform.kind == d.platform.kind && c.name != d.name
            ==> model::channel_url_of(c) != model::channel_url_of(d),
{
    if !(c.platform.kind is Other) && c.platform.kind == d.platform.kind {
        let u = model::channel_url_of(c)->0;
        let v = model::channel_url_of(d)->0;
        let n = if c.platform.kind is Twitch {
            "https://www.twitch.tv/"@.len() as int
        } else {
            "https://www.youtube.com/@"@.len() as int
        };
        if u == v {
            assert(u.len() == v.len());
            assert(c.name.len() == d.name.len());
            assert(u.subrange(n, n + c.name.len()) == c.name);
            assert(v.subrange(n, n + d.name.len()) == d.name);
        }
    }
}

/// A channel that is taken up gets one job more, behind the others, under the id it is given: with
/// the channel's name and address, a directory of its own in the archive, nothing counted yet. The
/// one effect is its scan, with the file that tracks what has been downloaded in that directory.
pub proof fn law_taken_up(s: ArchiverModel, c: ChannelModel, id: u128, cfg: ArchiverConfigModel)
    requires
        s.config == Some(cfg),
        !(c.platform.kind is Other),
    ensures
        ({
            let (after, effects) = s.start_archive_as(c, id);
            let j = after.jobs.last();
            &&& after.jobs.len() == s.jobs.len() + 1
            &&& after.jobs.drop_last() == s.jobs
            &&& after == (ArchiverModel { jobs: after.jobs, ..s })
            &&& j.id == id
            &&& j.channel_name == c.display_name
            &&& Some(j.channel_url) == model::channel_url_of(c)
            &&& j.platform == c.platform
            &&& j.archive_dir == (PathModel { base: cfg.archive_dir, parts: seq![c.display_name] })
            &&& j.state is Scanning
            &&& j.total_videos == 0 && j.completed_videos == 0
            &&& j.current_video is None && j.error is None
            &&& effects == seq![
                EffectModel::Scan {
                    job_id: id,
                    url: j.channel_url,
                    archive_txt: PathModel {
                        base: cfg.archive_dir,
                        parts: seq![c.display_name, "archive.txt"@],
                    },
                },
            ]
        }),
{
    assert(s.start_archive_as(c, id).0.jobs.drop_last() == s.jobs);
}

/// A channel of a platform that cannot be archived leads to nothing.
pub proof fn law_not_archivable(s: ArchiverModel, c: ChannelModel, id: u128)
    requires
        s.config is Some,
        c.platform.kind is Other,
    ensures
        s.start_archive_as(c, id) == (s, Seq::<EffectModel>::empty()),
{
}

/// Several channels that can be archived get a job each, in order, and are scanned each.
pub proof fn law_all_taken_up(s: ArchiverModel, channels: Seq<ChannelModel>, ids: Seq<u128>)
    requires
        s.config is Some,
        channels.len() <= ids.len(),
        forall|k: int|
            0 <= k < channels.len() ==> !((#[trigger] channels[k]).platform.kind is Other),
    ensures
        ({
            let (after, effects) = s.start_all(channels, ids);
            &&& after.config == s.config
            &&& after.jobs.len() == s.jobs.len() + channels.len()
            &&& after.jobs.take(s.jobs.len() as int) == s.jobs
            &&& effects.len() == channels.len()
            &&& forall|k: int|
                0 <= k < channels.len() ==> {
                    let j = after.jobs[s.jobs.len() + k];
                    &&& j.id == ids[k]
                    &&& j.channel_name == (#[trigger] channels[k]).display_name
                    &&& effects[k] matches EffectModel::Scan { job_id, url, archive_txt }
                        && job_id == ids[k] && url == j.channel_url
                }
        }),
    decreases channels.len(),
{
    if channels.len() == 0 {
        assert(s.jobs.take(s.jobs.len() as int) == s.jobs);
    } else {
        let t = channels.drop_last();
        assert forall|k: int| 0 <= k < t.len() implies !(
        (#[trigger] t[k]).platform.kind is Other) by {
            assert(t[k] == channels[k]);
        }
        law_all_taken_up(s, t, ids);
        let (before, first) = s.start_all(t, ids);
        let c = channels[channels.len() - 1];
        let id = ids[channels.len() - 1];
        law_taken_up(before, c, id, before.config->0);
        let (after, effects) = s.start_all(channels, ids);
        assert(after == before.start_archive_as(c, id).0);
        assert(after.jobs == before.jobs.push(after.jobs.last()));
        assert(after.jobs.take(s.jobs.len() as int) == before.jobs.take(s.jobs.len() as int));
        assert forall|k: int| 0 <= k < channels.len() implies {
            let j = after.jobs[s.jobs.len() + k];
            &&& j.id == ids[k]
            &&& j.channel_name == (#[trigger] channels[k]).display_name
            &&& effects[k] matches EffectModel::Scan { job_id, url, archive_txt } && job_id
                == ids[k] && url == j.channel_url
        } by {
            if k < t.len() {
                assert(t[k] == channels[k]);
                assert(after.jobs[s.jobs.len() + k] == before.jobs[s.jobs.len() + k]);
                assert(effects[k] == first[k]);
            }
        }
    }
}

/// The channels of picked recordings are taken up in the order of the recordings: each recording
/// adds the channel it is from, and adds none where the host does not know the recording or the
/// plugin the channel.
pub proof fn law_picked_channels(
    a: Seq<u128>,
    id: u128,
    all: Seq<RecordingModel>,
    channels: Seq<ChannelModel>,
)
    ensures
        model::channels_for(Seq::empty(), all, channels).len() == 0,
        match host::recording_with(all, id) {
            Some(r) => match model::channel_with(channels, r.channel_id) {
                Some(c) => model::channels_for(a.push(id), all, channels) == model::channels_for(
                    a,
                    all,
                    channels,
                ).push(c),
                None => model::channels_for(a.push(id), all, channels) == model::channels_for(
                    a,
                    all,
                    channels,
                ),
            },
            None => model::channels_for(a.push(id), all, channels) == model::channels_for(
                a,
                all,
                channels,
            ),
        },
{
    assert(a.push(id).drop_last() == a);
}

/// A channel is found by its id, the first with it; none is found exactly where there is none.
pub proof fn law_channel_found(channels: Seq<ChannelModel>, id: Seq<char>)
    ensures
        match model::channel_with(channels, id) {
            Some(c) => exists|i: int|
                0 <= i < channels.len() && #[trigger] channels[i] == c && c.id == id && (forall|
                    j: int,
                |
                    0 <= j < i ==> (#[trigger] channels[j]).id != id),
            None => forall|i: int| 0 <= i < channels.len() ==> (#[trigger] channels[i]).id != id,
        },
    decreases channels.len(),
{
    if channels.len() > 0 {
        let t = channels.drop_last();
        law_channel_found(t, id);
        match model::channel_with(t, id) {
            Some(c) => {
                let i = choose|i: int|
                    0 <= i < t.len() && #[trigger] t[i] == c && c.id == id && (forall|j: int|
                        0 <= j < i ==> (#[trigger] t[j]).id != id);
                assert(channels[i] == c);
                assert forall|j: int| 0 <= j < i implies (#[trigger] channels[j]).id != id by {
                    assert(t[j] == channels[j]);
                }
            },
            None => {
                assert forall|i: int| 0 <= i < channels.len() - 1 implies (
                #[trigger] channels[i]).id != id by {
                    assert(t[i] == channels[i]);
                }
                assert(channels[channels.len() - 1] == channels.last());
            },
        }
    }
}

/// The videos that a scan listed are stored, all of them, with the channel they are from, and the
/// first is sought; the job counts them. Where there are none they are stored all the same, the job
/// is done and the user is told.
pub proof fn law_scan_stored(s: ArchiverModel, id: u128, videos: Seq<VideoModel>)
    requires
        s.has_job(id),
        s.db_open,
        s.job(id).completed_videos < videos.len() || videos.len() == 0,
    ensures
        ({
            let (after, effects) = s.archiver_event(
                EventModel::ScanComplete { job_id: id, videos },
            );
            let j = s.job(id);
            &&& effects.len() == 2
            &&& effects[0] == (EffectModel::StoreScan {
                name: j.channel_name,
                url: j.channel_url,
                platform: j.platform.label,
                archive_dir: match s.config {
                    Some(c) => c.archive_dir,
                    None => Seq::empty(),
                },
                videos,
            })
            &&& videos.len() > 0 ==> effects[1] == (EffectModel::LoadPending {
                job_id: id,
                url: j.channel_url,
            })
            &&& videos.len() == 0 ==> effects[1] == EffectModel::SetStatus(
                "Archiver: channel fully archived"@,
            )
            &&& after.has_job(id)
            &&& after.job(id) == (JobModel {
                total_videos: videos.len(),
                state: if videos.len() == 0 {
                    ArchiveState::Complete
                } else {
                    ArchiveState::Downloading
                },
                ..j
            })
        }),
{
    model::lemma_job_at(s.jobs, id);
    let j = JobModel {
        total_videos: videos.len(),
        state: ArchiveState::Downloading,
        ..s.job(id)
    };
    lemma_put(s, id, j);
    let t = s.put(id, j);
    model::lemma_job_at(t.jobs, id);
    lemma_put(t, id, JobModel { state: ArchiveState::Complete, ..t.job(id) });
}

/// A downloaded video is noted under its channel and counted, and the next one is sought, as long
/// as there are more.
pub proof fn law_download_noted(s: ArchiverModel, id: u128, video_id: Seq<char>)
    requires
        s.has_job(id),
        s.db_open,
        s.job(id).completed_videos + 1 < s.job(id).total_videos,
    ensures
        ({
            let (after, effects) = s.archiver_event(
                EventModel::VideoDownloaded { job_id: id, video_id },
            );
            let j = s.job(id);
            &&& effects == seq![
                EffectModel::MarkDownloaded { url: j.channel_url, video_id },
                EffectModel::LoadPending { job_id: id, url: j.channel_url },
            ]
            &&& after.has_job(id)
            &&& after.job(id) == (JobModel { completed_videos: j.completed_videos + 1, ..j })
        }),
{
    model::lemma_job_at(s.jobs, id);
    lemma_put(
        s,
        id,
        JobModel { completed_videos: s.job(id).completed_videos + 1, ..s.job(id) },
    );
}

/// A job that is reported complete is complete, and nothing else of it changes.
pub proof fn law_reported_complete(s: ArchiverModel, id: u128)
    requires
        s.has_job(id),
    ensures
        ({
            let (after, effects) = s.archiver_event(EventModel::JobComplete { job_id: id });
            &&& effects.len() == 0
            &&& after.has_job(id)
            &&& after.job(id) == (JobModel { state: ArchiveState::Complete, ..s.job(id) })
        }),
{
    model::lemma_job_at(s.jobs, id);
    lemma_put(s, id, JobModel { state: ArchiveState::Complete, ..s.job(id) });
}

/// Without a database nothing is stored, noted or sought.
pub proof fn law_no_database(s: ArchiverModel, event: EventModel, i: int)
    requires
        !s.db_open,
        0 <= i < s.archiver_event(event).1.len(),
    ensures
        s.archiver_event(event).1[i] is SetStatus,
{
}

/// A job that fails is marked with the reason, and the user is told.
pub proof fn law_error_is_told(s: ArchiverModel, id: u128, error: Seq<char>)
    requires
        s.has_job(id),
    ensures
        ({
            let (after, effects) = s.archiver_event(EventModel::JobError { job_id: id, error });
            &&& after.job(id).state is Failed
            &&& after.job(id).error == Some(error)
            &&& after.last_error == Some(error)
            &&& effects == seq![EffectModel::SetStatus("Archiver error: "@ + error)]
        }),
{
    model::lemma_job_at(s.jobs, id);
    lemma_put(
        s,
        id,
        JobModel {
            state: ArchiveState::Failed,
            error: Some(error),
            ..s.job(id)
        },
    );
}

/// Cancelling touches no job but the one in focus, and that one only while it is active.
pub proof fn law_cancel(s: ArchiverModel, i: int)
    requires
        0 <= i < s.jobs.len(),
    ensures
        s.cancelled().jobs.len() == s.jobs.len(),
        i != s.selected_job || !s.jobs[i].state.active() ==> s.cancelled().jobs[i] == s.jobs[i],
        i == s.selected_job && s.jobs[i].state.active() ==> s.cancelled().jobs[i].state is Failed
            && s.cancelled().jobs[i].error == Some("Cancelled by user"@),
{
}

/// Without a configuration no channel is taken up.
pub proof fn law_no_config(s: ArchiverModel, c: ChannelModel, id: u128)
    requires
        s.config is None,
    ensures
        s.start_archive_as(c, id) == (
            s,
            seq![EffectModel::SetStatus("Archiver: no config"@)],
        ),
{
}

/// The status line is empty exactly when no job is active.
pub proof fn law_status_line(s: ArchiverModel)
    ensures
        s.status_line() is None <==> forall|i: int|
            0 <= i < s.jobs.len() ==> !(#[trigger] s.jobs[i]).state.active(),
{
    lemma_active(s.jobs);
}

proof fn lemma_active(jobs: Seq<JobModel>)
    ensures
        model::active_jobs(jobs) == 0 <==> forall|i: int|
            0 <= i < jobs.len() ==> !(#[trigger] jobs[i]).state.active(),
    decreases jobs.len(),
{
    if jobs.len() > 0 {
        let t = jobs.drop_last();
        lemma_active(t);
        if forall|i: int| 0 <= i < jobs.len() ==> !(#[trigger] jobs[i]).state.active() {
            assert forall|i: int| 0 <= i < t.len() implies !(#[trigger] t[i]).state.active() by {
                assert(!jobs[i].state.active());
            }
            assert(!jobs[jobs.len() - 1].state.active());
        }
        if model::active_jobs(jobs) == 0 {
            assert forall|i: int| 0 <= i < jobs.len() implies !(
            #[trigger] jobs[i]).state.active() by {
                if i < t.len() {
                    assert(!t[i].state.active());
                }
            }
        }
    }
}

/// A recording that ends leads to something only if the plugin is enabled, the recording ended
/// normally, the host knows it, and it is handled in tandem.
pub proof fn law_tandem_only(
    s: ArchiverModel,
    id: u128,
    finished: bool,
    app: AppModel,
    after: ArchiverModel,
    effects: Seq<EffectModel>,
)
    requires
        s.finish_leads_to(id, finished, app, after, effects),
        after != s || effects.len() > 0,
    ensures
        s.enabled,
        finished,
        host::recording_with(app.recordings, id) matches Some(r) && host::in_tandem(
            r,
            s.tandem_channels,
            s.tandem_playlists,
        ),
{
}

/// A recording of a known channel that ends normally and is handled in tandem leads to a job for
/// that channel, and to its scan.
pub proof fn law_tandem_starts(
    s: ArchiverModel,
    id: u128,
    app: AppModel,
    r: RecordingModel,
    c: ChannelModel,
    after: ArchiverModel,
    effects: Seq<EffectModel>,
)
    requires
        s.finish_leads_to(id, true, app, after, effects),
        s.enabled,
        s.config is Some,
        host::recording_with(app.recordings, id) == Some(r),
        s.tandem_channels.contains(r.platform + ":"@ + r.channel_id) || (r.playlist matches Some(p)
            && s.tandem_playlists.contains(p)),
        model::channel_with(s.channels, r.channel_id) == Some(c),
        !(c.platform.kind is Other),
    ensures
        after.jobs.len() == s.jobs.len() + 1,
        after.jobs.last().channel_name == c.display_name,
        Some(after.jobs.last().channel_url) == model::channel_url_of(c),
        effects.len() == 1,
        effects[0] matches EffectModel::Scan { job_id, url, archive_txt } && job_id
            == after.jobs.last().id && url == after.jobs.last().channel_url,
{
    let fresh_id = choose|fresh_id: u128| #[trigger]
        ids::is_random_id(fresh_id) && (after, effects) == s.start_archive_as(c, fresh_id);
    law_taken_up(s, c, fresh_id, s.config->0);
}

/// The status line counts the active jobs: those that scan or download.
pub proof fn law_status_counts(s: ArchiverModel)
    ensures
        ({
            let active = s.jobs.filter(
                |j: JobModel| j.state is Scanning || j.state is Downloading,
            ).len();
            active > 0 ==> s.status_line() == Some("AR:"@ + number::decimal_of(active))
        }),
{
    lemma_active_count(s.jobs);
}

proof fn lemma_active_count(jobs: Seq<JobModel>)
    ensures
        model::active_jobs(jobs) == jobs.filter(
            |j: JobModel| j.state is Scanning || j.state is Downloading,
        ).len(),
    decreases jobs.len(),
{
    reveal(Seq::filter);
    if jobs.len() > 0 {
        lemma_active_count(jobs.drop_last());
    }
}

/// Enter takes up the channel in focus; in the picker it takes up the channels of the picked
/// recordings, selects nothing any more, and shows the queue if that led to anything.
pub proof fn law_enter(s: ArchiverModel, app: AppModel, picked: Seq<u128>, ids: Seq<u128>)
    requires
        s.configured,
        s.config_modal is Hidden,
    ensures
        s.view is ChannelList && s.selected_channel < s.channels.len() ==> s.on_key(
            Key::Enter,
            app,
            picked,
            ids,
        ) == s.start_archive_as(s.channels[s.selected_channel as int], ids[0]),
        s.view is RecordingPicker ==> ({
            let (after, effects) = s.on_key(Key::Enter, app, picked, ids);
            let (want, told) = s.start_all(
                model::channels_for(picked, app.recordings, s.channels),
                ids,
            );
            &&& after.jobs == want.jobs
            &&& effects == told
            &&& after.picker.selections == Set::<u128>::empty()
            &&& told.len() > 0 ==> after.view is ArchiveQueue
            &&& told.len() == 0 ==> after.view is RecordingPicker
        }),
        s.view is ArchiveQueue ==> s.on_key(Key::Enter, app, picked, ids) == (
            s,
            Seq::<EffectModel>::empty(),
        ),
{
    let t = s.relisted(app);
    lemma_start_all_frame(
        s,
        ArchiverModel { picker: t.picker.cleared(), ..t },
        model::channels_for(picked, app.recordings, s.channels),
        ids,
    );
}

/// What channels lead to rests on the jobs and the configuration alone.
proof fn lemma_start_all_frame(
    s: ArchiverModel,
    t: ArchiverModel,
    channels: Seq<ChannelModel>,
    ids: Seq<u128>,
)
    requires
        s.jobs == t.jobs,
        s.config == t.config,
    ensures
        s.start_all(channels, ids).1 == t.start_all(channels, ids).1,
        s.start_all(channels, ids).0.jobs == t.start_all(channels, ids).0.jobs,
        s.start_all(channels, ids).0.config == t.start_all(channels, ids).0.config,
        t.start_all(channels, ids).0 == (ArchiverModel {
            jobs: t.start_all(channels, ids).0.jobs,
            ..t
        }),
    decreases channels.len(),
{
    if channels.len() > 0 {
        lemma_start_all_frame(s, t, channels.drop_last(), ids);
    }
}

/// In the lists, going down and up again, or up and down, leads back; the focus goes around the
/// ends.
pub proof fn law_focus(s: ArchiverModel)
    requires
        s.view is ChannelList ==> s.selected_channel < s.channels.len(),
        s.view is ArchiveQueue ==> s.selected_job < s.jobs.len(),
    ensures
        s.moved(true).moved(false) == s,
        s.moved(false).moved(true) == s,
        s.view is ChannelList && s.selected_channel + 1 < s.channels.len() ==> s.moved(
            true,
        ).selected_channel == s.selected_channel + 1,
        s.view is ChannelList && s.selected_channel + 1 == s.channels.len() ==> s.moved(
            true,
        ).selected_channel == 0,
        s.view is ArchiveQueue && s.selected_job + 1 < s.jobs.len() ==> s.moved(true).selected_job
            == s.selected_job + 1,
        s.view is ArchiveQueue && s.selected_job + 1 == s.jobs.len() ==> s.moved(true).selected_job
            == 0,
{
    if s.view is ChannelList {
        picker::law_rows(s.selected_channel, s.channels.len());
    }
    if s.view is ArchiveQueue {
        picker::law_rows(s.selected_job, s.jobs.len());
    }
}

/// The plugin starts with what its configuration says, its database open and all else as it was.
pub proof fn law_start(s: ArchiverModel, c: ArchiverConfigModel)
    ensures
        ({
            let t = s.initialized(c);
            &&& t.db_open
            &&& t.config == Some(c)
            &&& in_force(t) == (
                c.enabled,
                c.configured,
                c.tandem_channels,
                c.tandem_playlists,
                Some(c),
            )
            &&& t.jobs == s.jobs
            &&& t.channels == s.channels
            &&& t.view == s.view
        }),
{
}

// ---------------------------------------------------------------------------
// The settings
// ---------------------------------------------------------------------------

/// The settings in force.
pub open spec fn in_force(s: ArchiverModel) -> (
    bool,
    bool,
    Seq<Seq<char>>,
    Seq<Seq<char>>,
    Option<ArchiverConfigModel>,
) {
    (s.enabled, s.configured, s.tandem_channels, s.tandem_playlists, s.config)
}

/// Nothing in the settings takes effect before Save is pressed.
pub proof fn law_only_save_applies(s: ArchiverModel, key: Key)
    requires
        s.wf(),
    ensures
        in_force(s.modal_key(key).0) != in_force(s) ==> {
            &&& key is Enter || key == Key::Char(' ')
            &&& s.config_modal matches ConfigModalState::Active {
                selected_field,
                editing,
                static_field_count,
            } && selected_field == s.save_field() && !editing
        },
{
}

/// Save puts the draft in force, closes the settings and hands the host the draft, marked as
/// configured.
pub proof fn law_save(s: ArchiverModel, d: ArchiverConfigModel)
    requires
        s.config_draft == Some(d),
    ensures
        ({
            let (after, effects) = s.press(s.save_field());
            let saved = ArchiverConfigModel { configured: true, ..d };
            &&& after.config == Some(saved)
            &&& after.enabled == d.enabled
            &&& after.configured
            &&& after.tandem_channels == d.tandem_channels
            &&& after.tandem_playlists == d.tandem_playlists
            &&& after.config_modal is Hidden
            &&& effects == seq![EffectModel::UpdateConfig(saved)]
        }),
{
}

/// Opening the settings and leaving them with Esc changes nothing but the list of channels.
pub proof fn law_open_escape(s: ArchiverModel, app: AppModel)
    requires
        s.config_modal is Hidden,
        s.config_draft is None,
    ensures
        s.open_config(app).modal_key(Key::Esc) == (
            ArchiverModel { cached_channels: host::checklist_of(app.channels), ..s },
            Seq::<EffectModel>::empty(),
        ),
{
}

/// The plugin after keys that went to the settings.
pub open spec fn after_keys(s: ArchiverModel, keys: Seq<Key>) -> ArchiverModel
    decreases keys.len(),
{
    if keys.len() == 0 {
        s
    } else {
        after_keys(s, keys.drop_last()).modal_key(keys.last()).0
    }
}

/// While the settings stay open, no key puts anything in force.
proof fn lemma_open_keeps(s: ArchiverModel, keys: Seq<Key>)
    requires
        !(after_keys(s, keys).config_modal is Hidden),
    ensures
        in_force(after_keys(s, keys)) == in_force(s),
    decreases keys.len(),
{
    if keys.len() > 0 {
        lemma_open_keeps(s, keys.drop_last());
    }
}

/// Esc discards every edit: whatever was typed and pressed since the settings were opened, as long
/// as they are still open and no field is edited, it closes them, drops the draft, hands the host
/// nothing, and leaves in force what was in force.
pub proof fn law_escape_discards(s: ArchiverModel, app: AppModel, keys: Seq<Key>)
    requires
        after_keys(s.open_config(app), keys).config_modal matches ConfigModalState::Active {
            selected_field,
            editing,
            static_field_count,
        } && !editing,
    ensures
        ({
            let edited = after_keys(s.open_config(app), keys);
            let (after, effects) = edited.modal_key(Key::Esc);
            &&& effects == Seq::<EffectModel>::empty()
            &&& after == (ArchiverModel {
                config_modal: ConfigModalState::Hidden,
                config_draft: None,
                ..edited
            })
            &&& in_force(after) == in_force(s)
        }),
{
    lemma_open_keeps(s.open_config(app), keys);
}

/// Pressing Enter on a channel that is not listed appends it and enables the plugin; pressing it
/// again takes the channel off and leaves the plugin enabled. Both change the draft alone.
pub proof fn law_channel_twice(s: ArchiverModel, d: ArchiverConfigModel, i: int)
    requires
        0 <= i < s.cached_channels.len(),
        s.config_modal matches ConfigModalState::Active {
            selected_field,
            editing,
            static_field_count,
        } && selected_field == 5 + i && !editing,
        s.config_draft == Some(d),
        !d.tandem_channels.contains(s.cached_channels[i].0),
    ensures
        ({
            let (s1, first) = s.modal_key(Key::Enter);
            let (s2, second) = s1.modal_key(Key::Enter);
            let added = d.tandem_channels.push(s.cached_channels[i].0);
            &&& first == Seq::<EffectModel>::empty()
            &&& second == Seq::<EffectModel>::empty()
            &&& s1 == (ArchiverModel {
                config_draft: Some(
                    ArchiverConfigModel { tandem_channels: added, enabled: true, ..d },
                ),
                ..s
            })
            &&& s2 == (ArchiverModel {
                config_draft: Some(ArchiverConfigModel { enabled: true, ..d }),
                ..s
            })
        }),
{
    let key = s.cached_channels[i].0;
    config::law_flip_twice(d.tandem_channels, key);
    assert(d.tandem_channels.push(key).last() == key);
    assert(d.tandem_channels.push(key).contains(key));
}

/// Until the plugin is configured, every key goes to the settings: no view changes and no channel
/// is taken up.
pub proof fn law_first_run(
    s: ArchiverModel,
    key: Key,
    app: AppModel,
    picked: Seq<u128>,
    ids: Seq<u128>,
)
    requires
        !s.configured,
    ensures
        ({
            let (after, effects) = s.on_key(key, app, picked, ids);
            &&& after.view == s.view
            &&& after.jobs == s.jobs
            &&& effects.len() == 0 || effects.len() == 1 && effects[0] is UpdateConfig
        }),
{
}

/// The number of fragments is typed anew: editing the field starts from nothing.
pub proof fn law_fragments_typed_anew(s: ArchiverModel)
    requires
        s.config_draft is Some,
    ensures
        s.press(3).0.config_draft->0.concurrent_fragments == 0,
{
}

/// Tab leads through the three views and back.
pub proof fn law_tab_cycle(s: ArchiverModel, app: AppModel, picked: Seq<u128>, ids: Seq<u128>)
    requires
        s.configured,
        s.config_modal is Hidden,
        s.view is ChannelList,
    ensures
        ({
            let s1 = s.on_key(Key::Tab, app, picked, ids).0;
            let s2 = s1.on_key(Key::Tab, app, picked, ids).0;
            let s3 = s2.on_key(Key::Tab, app, picked, ids).0;
            s1.view is ArchiveQueue && s2.view is RecordingPicker && s3.view is ChannelList
        }),
{
}

/// The settings open on what is configured, or else on the host's defaults, at the first field, and
/// list the host's channels. Saved at once, they put in force what was shown.
pub proof fn law_settings_opened(s: ArchiverModel, app: AppModel)
    ensures
        ({
            let t = s.open_config(app);
            let shown = match s.config {
                Some(c) => c,
                None => app.archiver_defaults,
            };
            &&& t.config_draft == Some(shown)
            &&& t.config_modal matches ConfigModalState::Active {
                selected_field,
                editing,
                static_field_count,
            } && selected_field == 0 && !editing
            &&& t.cached_channels.len() == app.channels.len()
            &&& t.press(t.save_field()).0.config == Some(
                ArchiverConfigModel { configured: true, ..shown },
            )
            &&& in_force(t) == in_force(s)
        }),
{
}

/// What is typed into a text field is appended to that field, and Backspace takes it off again: no
/// other field changes.
pub proof fn law_typed(s: ArchiverModel, d: ArchiverConfigModel, field: nat, c: char)
    requires
        s.config_draft == Some(d),
        field == 1 || field == 2 || field == 4,
    ensures
        ({
            let t = s.edit_key(field, Key::Char(c));
            &&& t.config_draft == Some(
                ArchiverConfigModel {
                    archive_dir: if field == 1 {
                        d.archive_dir.push(c)
                    } else {
                        d.archive_dir
                    },
                    format: if field == 2 {
                        d.format.push(c)
                    } else {
                        d.format
                    },
                    rate_limit: if field == 4 {
                        d.rate_limit.push(c)
                    } else {
                        d.rate_limit
                    },
                    ..d
                },
            )
            &&& t.edit_key(field, Key::Backspace) == s
        }),
{
    assert(d.archive_dir.push(c).drop_last() == d.archive_dir);
    assert(d.format.push(c).drop_last() == d.format);
    assert(d.rate_limit.push(c).drop_last() == d.rate_limit);
    let t = s.edit_key(field, Key::Char(c)).edit_key(field, Key::Backspace);
    assert(t.config_draft->0 == d);
}

/// The archiver after digits that were typed as the number of fragments.
pub open spec fn after_digits(s: ArchiverModel, typed: Seq<char>) -> ArchiverModel
    decreases typed.len(),
{
    if typed.len() == 0 {
        s
    } else {
        after_digits(s, typed.drop_last()).edit_key(3, Key::Char(typed.last()))
    }
}

/// Digits typed as the number of fragments make the number they stand for; other characters are
/// passed over.
pub proof fn law_digits_typed(s: ArchiverModel, typed: Seq<char>)
    requires
        s.config_draft is Some,
        s.config_draft->0.concurrent_fragments == 0,
        forall|i: int| 0 <= i < typed.len() ==> '0' <= #[trigger] typed[i] <= '9',
        number::value_of(typed) <= u32::MAX,
    ensures
        after_digits(s, typed).config_draft == Some(
            ArchiverConfigModel {
                concurrent_fragments: number::value_of(typed) as u32,
                ..s.config_draft->0
            },
        ),
        number::value_of(typed) >= 0,
        forall|c: char|
            !('0' <= c <= '9') ==> #[trigger] s.edit_key(3, Key::Char(c)) == s,
    decreases typed.len(),
{
    if typed.len() > 0 {
        let t = typed.drop_last();
        assert('0' <= typed[typed.len() - 1] <= '9');
        assert forall|i: int| 0 <= i < t.len() implies '0' <= #[trigger] t[i] <= '9' by {
            assert(t[i] == typed[i]);
        }
        lemma_digits_small(t);
        law_digits_typed(s, t);
    }
}

proof fn lemma_digits_small(t: Seq<char>)
    requires
        forall|i: int| 0 <= i < t.len() ==> '0' <= #[trigger] t[i] <= '9',
    ensures
        number::value_of(t) >= 0,
    decreases t.len(),
{
    if t.len() > 0 {
        let u = t.drop_last();
        assert('0' <= t[t.len() - 1] <= '9');
        assert forall|i: int| 0 <= i < u.len() implies '0' <= #[trigger] u[i] <= '9' by {
            assert(u[i] == t[i]);
        }
        lemma_digits_small(u);
    }
}

/// In the settings, going down and up again leads back, and no key leads past the Save button.
pub proof fn law_settings_moved(s: ArchiverModel, field: usize)
    requires
        s.wf(),
        s.config_modal == (ConfigModalState::Active {
            selected_field: field,
            editing: false,
            static_field_count: 5,
        }),
    ensures
        field < s.save_field() ==> {
            &&& s.modal_key(Key::Down).0 == s.at_field((field + 1) as nat, false)
            &&& s.modal_key(Key::Down).0.modal_key(Key::Up).0 == s
        },
        field == s.save_field() ==> s.modal_key(Key::Down).0 == s,
        field == 0 ==> s.modal_key(Key::Up).0 == s,
        field > 0 ==> s.modal_key(Key::Up).0.modal_key(Key::Down).0 == s,
        s.modal_key(Key::Char('j')) == s.modal_key(Key::Down),
        s.modal_key(Key::Char('k')) == s.modal_key(Key::Up),
        s.modal_key(Key::Char(' ')) == s.modal_key(Key::Enter),
{
}

/// Pressing the first field flips whether the plugin is enabled, in the draft alone; pressing it
/// twice changes nothing. The text fields and the number are edited once pressed, and Enter or Esc
/// ends the edit.
pub proof fn law_fields_pressed(s: ArchiverModel, d: ArchiverConfigModel, field: nat)
    requires
        s.config_draft == Some(d),
        field < 5,
    ensures
        s.press(0).0 == (ArchiverModel {
            config_draft: Some(ArchiverConfigModel { enabled: !d.enabled, ..d }),
            ..s
        }),
        s.press(0).0.press(0).0 == s,
        field > 0 ==> {
            &&& s.press(field).0.config_modal matches ConfigModalState::Active {
                selected_field,
                editing,
                static_field_count,
            } && selected_field == field && editing
            &&& field != 3 ==> s.press(field).0.config_draft == Some(d)
            &&& s.edit_key(field, Key::Enter) == s.at_field(field, false)
            &&& s.edit_key(field, Key::Esc) == s.at_field(field, false)
        },
        s.press(field).1.len() == 0,
{
}

/// An archiver that has just been made does nothing: it has no jobs, no database and no
/// configuration, and is neither enabled nor configured.
pub proof fn law_fresh(c: ChannelModel, id: u128)
    ensures
        ({
            let s = model::fresh();
            &&& s.jobs.len() == 0 && s.channels.len() == 0
            &&& !s.db_open && s.config is None
            &&& !s.enabled && !s.configured
            &&& s.last_error is None
            &&& s.view is ChannelList
            &&& s.start_archive_as(c, id).0 == s
        }),
{
}

/// Esc leads back: from the lists to the host, from the picker to the channels, where it selects
/// nothing any more. The other keys of the picker but Tab and Enter move in the list as it is now.
/// The key for cancelling cancels in the queue and does nothing among the channels.
pub proof fn law_escape(
    s: ArchiverModel,
    app: AppModel,
    picked: Seq<u128>,
    ids: Seq<u128>,
    key: Key,
)
    requires
        s.configured,
        s.config_modal is Hidden,
    ensures
        !(s.view is RecordingPicker) ==> {
            &&& s.on_key(Key::Esc, app, picked, ids) == (s, seq![EffectModel::NavigateBack])
            &&& s.on_key(Key::Char('c'), app, picked, ids) == (
                s.open_config(app),
                Seq::<EffectModel>::empty(),
            )
            &&& s.on_key(Key::Down, app, picked, ids).0 == s.moved(true)
            &&& s.on_key(Key::Char('j'), app, picked, ids).0 == s.moved(true)
            &&& s.on_key(Key::Up, app, picked, ids).0 == s.moved(false)
            &&& s.on_key(Key::Char('k'), app, picked, ids).0 == s.moved(false)
        },
        s.view is ArchiveQueue ==> s.on_key(Key::Char('d'), app, picked, ids).0 == s.cancelled(),
        s.view is ChannelList ==> s.on_key(Key::Char('d'), app, picked, ids).0 == s,
        s.view is RecordingPicker ==> {
            let (after, effects) = s.on_key(Key::Esc, app, picked, ids);
            let listed = s.picker.refreshed(app.recordings, Set::empty());
            &&& after.view is ChannelList
            &&& after.picker == listed.cleared()
            &&& after.jobs == s.jobs
            &&& effects.len() == 0
            &&& !(key is Esc) && !(key is Tab) && !(key is Enter) ==> s.on_key(
                key,
                app,
                picked,
                ids,
            ) == (
                ArchiverModel { picker: listed.moved(key, app.recordings, Set::empty()), ..s },
                Seq::<EffectModel>::empty(),
            )
        },
{
}

/// Pressing Enter on a channel that is listed takes it off the draft, every time it is listed, and
/// keeps the other channels; nothing else changes.
pub proof fn law_channel_off(s: ArchiverModel, d: ArchiverConfigModel, i: int, other: Seq<char>)
    requires
        0 <= i < s.cached_channels.len(),
        s.config_modal matches ConfigModalState::Active {
            selected_field,
            editing,
            static_field_count,
        } && selected_field == 5 + i && !editing,
        s.config_draft == Some(d),
        d.tandem_channels.contains(s.cached_channels[i].0),
    ensures
        ({
            let (t, effects) = s.modal_key(Key::Enter);
            let now = t.config_draft->0.tandem_channels;
            &&& effects.len() == 0
            &&& t == (ArchiverModel {
                config_draft: Some(ArchiverConfigModel { tandem_channels: now, ..d }),
                ..s
            })
            &&& !now.contains(s.cached_channels[i].0)
            &&& other != s.cached_channels[i].0 ==> (now.contains(other)
                <==> d.tandem_channels.contains(other))
        }),
{
    config::law_flip(d.tandem_channels, s.cached_channels[i].0, other);
}

/// The channels are those that the host told last, all of them; nothing else changes. After the
/// plugin is shut down no report stores, notes or seeks anything.
pub proof fn law_channels_told(
    s: ArchiverModel,
    channels: Seq<ChannelModel>,
    event: EventModel,
    i: int,
)
    ensures
        s.with_channels(channels).channels == channels,
        s.with_channels(channels).with_channels(s.channels) == s,
        !s.shut_down().db_open,
        s.shut_down() == (ArchiverModel { db_open: s.shut_down().db_open, ..s }),
        0 <= i < s.shut_down().archiver_event(event).1.len() ==> s.shut_down().archiver_event(
            event,
        ).1[i] is SetStatus,
{
}

} // verus!
