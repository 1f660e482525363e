//! What the archiver's pane shows.
use vstd::prelude::*;

use crate::archiver::model;
use crate::archiver::types::{ArchiveJob, ArchiveState, ArchiverView, JobModel};
use crate::archiver::ArchiverPlugin;
use crate::config::{ArchiverConfig, ArchiverConfigModel};
use crate::host::{ChannelEntry, ChannelModel};
use crate::number;
use crate::screen;
use crate::screen::{
    add_form_tail, add_line, add_span, no_lines, no_spans, Line, LineModel, Span, SpanModel, Tone,
};
use crate::text;

verus! {

// ---------------------------------------------------------------------------
// Header and footer
// ---------------------------------------------------------------------------

/// The name of a view, marked where it is in view.
pub open spec fn tab(name: Seq<char>, shown: bool) -> SpanModel {
    if shown {
        screen::bold(name, Tone::Primary)
    } else {
        screen::span(name, Tone::Muted)
    }
}

/// The header: the views, and the keys that lead on.
pub open spec fn header_of(view: ArchiverView) -> LineModel {
    LineModel::Spans(
        seq![
            tab(" Channels"@, view is ChannelList),
            screen::span("  |  "@, Tone::Dim),
            tab("Queue"@, view is ArchiveQueue),
            screen::span("  |  "@, Tone::Dim),
            tab("Picker"@, view is RecordingPicker),
            screen::span("  [Tab]  [c] Settings"@, Tone::Dim),
        ],
    )
}

/// The name of a view, marked where it is in view.
fn tab_span(name: &str, shown: bool) -> (r: Span)
    ensures
        r.deep_view() == tab(name@, shown),
{
    if shown {
        Span::styled(name, Tone::Primary, true)
    } else {
        Span::of(name, Tone::Muted)
    }
}

/// The header.
pub fn header(view: ArchiverView) -> (r: Line)
    ensures
        r.deep_view() == header_of(view),
{
    let mut spans = no_spans();
    add_span(&mut spans, tab_span(" Channels", matches!(view, ArchiverView::ChannelList)));
    add_span(&mut spans, Span::of("  |  ", Tone::Dim));
    add_span(&mut spans, tab_span("Queue", matches!(view, ArchiverView::ArchiveQueue)));
    add_span(&mut spans, Span::of("  |  ", Tone::Dim));
    add_span(&mut spans, tab_span("Picker", matches!(view, ArchiverView::RecordingPicker)));
    add_span(&mut spans, Span::of("  [Tab]  [c] Settings", Tone::Dim));
    let r = Line::Spans(spans);
    assert(r.deep_view() == header_of(view));
    r
}

/// The footer: the last error if there is one, else where the archive is, with the number of
/// active jobs before it if there are any.
pub open spec fn footer_of(
    error: Option<Seq<char>>,
    jobs: Seq<JobModel>,
    config: Option<ArchiverConfigModel>,
    width: u16,
) -> LineModel {
    match error {
        Some(e) => LineModel::Spans(
            seq![
                screen::span(" ⚠ "@, Tone::Red),
                screen::span(text::at_most(e, screen::less(width, 4) as int), Tone::Red),
            ],
        ),
        None => {
            let dir = text::at_most(
                match config {
                    Some(c) => c.archive_dir,
                    None => "~/Videos/StriVo/Archives"@,
                },
                screen::less(width, 20) as int,
            );
            let active = model::active_jobs(jobs);
            LineModel::Spans(
                if active > 0 {
                    seq![
                        screen::span(
                            " [AR:"@ + number::decimal_of(active) + "]"@,
                            Tone::Secondary,
                        ),
                        screen::span("  "@ + dir, Tone::Dim),
                    ]
                } else {
                    seq![screen::span(" "@ + dir, Tone::Dim)]
                },
            )
        },
    }
}

/// `width` less `n`, 0 at least.
fn columns(width: u16, n: u16) -> (r: usize)
    ensures
        r == screen::less(width, n as nat),
{
    if width >= n {
        (width - n) as usize
    } else {
        0
    }
}

/// The footer in a pane of `width` columns.
pub fn footer(plugin: &ArchiverPlugin, width: u16) -> (r: Line)
    ensures
        r.deep_view() == footer_of(
            plugin.last_error.deep_view(),
            plugin.jobs.deep_view(),
            plugin.config.deep_view(),
            width,
        ),
{
    let mut spans = no_spans();
    match &plugin.last_error {
        Some(e) => {
            let shown = text::first_chars(e.as_str(), columns(width, 4));
            add_span(&mut spans, Span::of(" ⚠ ", Tone::Red));
            add_span(&mut spans, Span::of(shown.as_str(), Tone::Red));
        },
        None => {
            let active = plugin.active();
            let dir = match &plugin.config {
                Some(c) => text::first_chars(c.archive_dir.as_str(), columns(width, 20)),
                None => text::first_chars("~/Videos/StriVo/Archives", columns(width, 20)),
            };
            if active > 0 {
                let n = number::decimal(active as u64);
                let count = text::cat3(" [AR:", n.as_str(), "]");
                let shown = text::cat("  ", dir.as_str());
                add_span(&mut spans, Span::of(count.as_str(), Tone::Secondary));
                add_span(&mut spans, Span::of(shown.as_str(), Tone::Dim));
            } else {
                let shown = text::cat(" ", dir.as_str());
                add_span(&mut spans, Span::of(shown.as_str(), Tone::Dim));
            }
        },
    }
    let r = Line::Spans(spans);
    assert(r.deep_view() =~~= footer_of(
        plugin.last_error.deep_view(),
        plugin.jobs.deep_view(),
        plugin.config.deep_view(),
        width,
    ));
    r
}

// ---------------------------------------------------------------------------
// Channels
// ---------------------------------------------------------------------------

/// The two letters for a platform.
pub open spec fn platform_letters(label: Seq<char>) -> Seq<char> {
    if label == "Twitch"@ {
        "TW"@
    } else if label == "YouTube"@ {
        "YT"@
    } else {
        "??"@
    }
}

/// The row of a channel: its name, cut to 30 characters, and its platform, which the padding keeps
/// in one column.
pub open spec fn channel_line(c: ChannelModel) -> LineModel {
    let name = text::at_most(c.display_name, 30);
    let taken = text::bytes_of(name) + 5;
    LineModel::Spans(
        seq![
            screen::span("  "@, Tone::Plain),
            screen::span(name, Tone::Fg),
            screen::span(
                text::spaces_of(
                    if taken <= 32 {
                        (32 - taken) as nat
                    } else {
                        0
                    },
                ),
                Tone::Plain,
            ),
            screen::span("("@ + platform_letters(c.platform.label) + ")"@, Tone::Dim),
        ],
    )
}

/// What is shown where there are no channels.
pub open spec fn no_channels() -> Seq<LineModel> {
    seq![
        screen::blank(),
        screen::heading("  No channels available"@, Tone::Secondary),
        screen::blank(),
        screen::line("  Connect Twitch or YouTube in StriVo to see channels here."@, Tone::Muted),
    ]
}

/// The row of a channel.
pub fn channel_row(c: &ChannelEntry) -> (r: Line)
    ensures
        r.deep_view() == channel_line(c.deep_view()),
{
    let letters = if text::same_str(c.platform.label.as_str(), "Twitch") {
        "TW"
    } else if text::same_str(c.platform.label.as_str(), "YouTube") {
        "YT"
    } else {
        "??"
    };
    let name = text::first_chars(c.display_name.as_str(), 30);
    let taken: u128 = text::byte_len(name.as_str());
    let pad: usize = if taken <= 27 {
        27 - taken as usize
    } else {
        0
    };
    let padding = text::spaces(pad);
    let platform = text::cat3("(", letters, ")");
    let mut spans = no_spans();
    add_span(&mut spans, Span::of("  ", Tone::Plain));
    add_span(&mut spans, Span::of(name.as_str(), Tone::Fg));
    add_span(&mut spans, Span::of(padding.as_str(), Tone::Plain));
    add_span(&mut spans, Span::of(platform.as_str(), Tone::Dim));
    let r = Line::Spans(spans);
    assert(r.deep_view() == channel_line(c.deep_view()));
    r
}

/// What is shown where there are no channels.
pub fn no_channel_lines() -> (r: Vec<Line>)
    ensures
        r.deep_view() == no_channels(),
{
    let mut out = no_lines();
    add_line(&mut out, Line::blank());
    add_line(&mut out, Line::heading("  No channels available", Tone::Secondary));
    add_line(&mut out, Line::blank());
    add_line(
        &mut out,
        Line::of("  Connect Twitch or YouTube in StriVo to see channels here.", Tone::Muted),
    );
    assert(out.deep_view() == no_channels());
    out
}

/// The rows of channels, in order.
pub fn channel_rows(channels: &Vec<ChannelEntry>) -> (r: Vec<Line>)
    ensures
        r.deep_view() == channels.deep_view().map_values(|c: ChannelModel| channel_line(c)),
{
    let ghost all = channels.deep_view();
    let ghost want = all.map_values(|c: ChannelModel| channel_line(c));
    let mut out = no_lines();
    let mut i: usize = 0;
    assert(want.take(0) == Seq::<LineModel>::empty());
    while i < channels.len()
        invariant
            i <= channels.len(),
            all == channels.deep_view(),
            want == all.map_values(|c: ChannelModel| channel_line(c)),
            out.deep_view() == want.take(i as int),
        decreases channels.len() - i,
    {
        assert(all[i as int] == channels[i as int].deep_view());
        add_line(&mut out, channel_row(&channels[i]));
        assert(want.take(i + 1) == want.take(i as int).push(want[i as int]));
        i = i + 1;
    }
    assert(want.take(channels.len() as int) == want);
    out
}

// ---------------------------------------------------------------------------
// The queue
// ---------------------------------------------------------------------------

/// What is shown where there are no jobs.
pub open spec fn no_jobs() -> Seq<LineModel> {
    seq![
        screen::blank(),
        screen::line("  No archive jobs"@, Tone::Muted),
        screen::blank(),
        screen::line("  Select a channel and press Enter to start archiving."@, Tone::Dim),
    ]
}

/// What is shown where there are no jobs.
pub fn no_job_lines() -> (r: Vec<Line>)
    ensures
        r.deep_view() == no_jobs(),
{
    let mut out = no_lines();
    add_line(&mut out, Line::blank());
    add_line(&mut out, Line::of("  No archive jobs", Tone::Muted));
    add_line(&mut out, Line::blank());
    add_line(
        &mut out,
        Line::of("  Select a channel and press Enter to start archiving.", Tone::Dim),
    );
    assert(out.deep_view() == no_jobs());
    out
}

/// The sign of a state.
pub open spec fn sign_of(state: ArchiveState) -> SpanModel {
    match state {
        ArchiveState::Pending => screen::span("○ "@, Tone::Dim),
        ArchiveState::Scanning => screen::span("⟳ "@, Tone::Secondary),
        ArchiveState::Downloading => screen::span("⟳ "@, Tone::Secondary),
        ArchiveState::Paused => screen::span("◼ "@, Tone::Secondary),
        ArchiveState::Complete => screen::span("✓ "@, Tone::Green),
        ArchiveState::Failed => screen::span("✗ "@, Tone::Red),
    }
}

/// How far the downloads have come; `percent` is the share in whole percent.
pub open spec fn progress_of(job: JobModel, percent: u32) -> Seq<char> {
    if job.total_videos > 0 {
        " "@ + number::decimal_of(job.completed_videos) + "/"@ + number::decimal_of(
            job.total_videos,
        ) + " ("@ + number::decimal_of(percent as nat) + "%)"@
    } else {
        Seq::empty()
    }
}

/// What a job is doing, or how it ended.
pub open spec fn detail_of(job: JobModel, percent: u32) -> Seq<char> {
    match job.state {
        ArchiveState::Scanning => " Scanning..."@,
        ArchiveState::Downloading => progress_of(job, percent) + " "@ + text::at_most(
            match job.current_video {
                Some(v) => v,
                None => Seq::empty(),
            },
            25,
        ),
        ArchiveState::Complete => " Complete ("@ + number::decimal_of(job.total_videos)
            + " videos)"@,
        ArchiveState::Failed => " "@ + text::at_most(
            match job.error {
                Some(e) => e,
                None => "unknown"@,
            },
            40,
        ),
        _ => Seq::empty(),
    }
}

/// The row of a job.
pub open spec fn job_line(job: JobModel, percent: u32) -> LineModel {
    LineModel::Spans(
        seq![
            screen::span("  "@, Tone::Plain),
            sign_of(job.state),
            screen::span(text::at_most(job.channel_name, 20), Tone::Fg),
            screen::span(detail_of(job, percent), Tone::Muted),
        ],
    )
}

/// The sign of a state.
fn sign(state: ArchiveState) -> (r: Span)
    ensures
        r.deep_view() == sign_of(state),
{
    match state {
        ArchiveState::Pending => Span::of("○ ", Tone::Dim),
        ArchiveState::Scanning => Span::of("⟳ ", Tone::Secondary),
        ArchiveState::Downloading => Span::of("⟳ ", Tone::Secondary),
        ArchiveState::Paused => Span::of("◼ ", Tone::Secondary),
        ArchiveState::Complete => Span::of("✓ ", Tone::Green),
        ArchiveState::Failed => Span::of("✗ ", Tone::Red),
    }
}

/// What a job is doing, or how it ended.
fn detail(job: &ArchiveJob, percent: u32) -> (r: String)
    ensures
        r@ == detail_of(job.deep_view(), percent),
{
    match job.state {
        ArchiveState::Scanning => " Scanning...".to_owned(),
        ArchiveState::Downloading => {
            let mut out: String = String::new();
            if job.total_videos > 0 {
                let done = number::decimal(job.completed_videos as u64);
                let total = number::decimal(job.total_videos as u64);
                let share = number::decimal(percent as u64);
                out.append(" ");
                out.append(done.as_str());
                out.append("/");
                out.append(total.as_str());
                out.append(" (");
                out.append(share.as_str());
                out.append("%)");
                assert(out@ == progress_of(job.deep_view(), percent));
            }
            out.append(" ");
            let shown = match &job.current_video {
                Some(v) => text::first_chars(v.as_str(), 25),
                None => {
                    assert(text::at_most(Seq::<char>::empty(), 25) == Seq::<char>::empty());
                    String::new()
                },
            };
            out.append(shown.as_str());
            out
        },
        ArchiveState::Complete => {
            let total = number::decimal(job.total_videos as u64);
            text::cat3(" Complete (", total.as_str(), " videos)")
        },
        ArchiveState::Failed => {
            let shown = match &job.error {
                Some(e) => text::first_chars(e.as_str(), 40),
                None => text::first_chars("unknown", 40),
            };
            text::cat(" ", shown.as_str())
        },
        _ => String::new(),
    }
}

/// The row of a job; `percent` is the share of its videos that is downloaded, in whole percent.
pub fn job_row(job: &ArchiveJob, percent: u32) -> (r: Line)
    ensures
        r.deep_view() == job_line(job.deep_view(), percent),
{
    let name = text::first_chars(job.channel_name.as_str(), 20);
    let said = detail(job, percent);
    let mut spans = no_spans();
    add_span(&mut spans, Span::of("  ", Tone::Plain));
    add_span(&mut spans, sign(job.state));
    add_span(&mut spans, Span::of(name.as_str(), Tone::Fg));
    add_span(&mut spans, Span::of(said.as_str(), Tone::Muted));
    let r = Line::Spans(spans);
    assert(r.deep_view() == job_line(job.deep_view(), percent));
    r
}

// ---------------------------------------------------------------------------
// The settings
// ---------------------------------------------------------------------------

/// The settings form.
pub open spec fn config_lines_of(
    d: ArchiverConfigModel,
    channels: Seq<(Seq<char>, Seq<char>)>,
    focus: nat,
    editing: bool,
) -> Seq<LineModel> {
    seq![
        screen::field_line(
            "Enabled"@,
            if d.enabled {
                "Yes"@
            } else {
                "No"@
            },
            true,
            focus == 0,
            editing,
        ),
        screen::field_line("Archive Dir"@, d.archive_dir, false, focus == 1, editing),
        screen::field_line("Format"@, d.format, false, focus == 2, editing),
        screen::field_line(
            "Fragments"@,
            number::decimal_of(d.concurrent_fragments as nat),
            false,
            focus == 3,
            editing,
        ),
        screen::field_line(
            "Rate Limit"@,
            if d.rate_limit.len() == 0 {
                "(none)"@
            } else {
                d.rate_limit
            },
            false,
            focus == 4,
            editing,
        ),
    ] + screen::form_tail(
        "   Tandem Channels (auto-archive on recording finish):"@,
        channels,
        d.tandem_channels,
        5,
        focus,
    )
}

/// The settings form, with the field `focus` in focus.
pub fn config_lines(
    d: &ArchiverConfig,
    channels: &Vec<(String, String)>,
    focus: usize,
    editing: bool,
) -> (r: Vec<Line>)
    requires
        channels.len() <= usize::MAX - 5,
    ensures
        r.deep_view() == config_lines_of(
            d.deep_view(),
            channels.deep_view(),
            focus as nat,
            editing,
        ),
{
    let on = if d.enabled {
        "Yes"
    } else {
        "No"
    };
    let fragments = number::decimal(d.concurrent_fragments as u64);
    let limit = if d.rate_limit.as_str().is_empty() {
        "(none)"
    } else {
        d.rate_limit.as_str()
    };
    let mut out = no_lines();
    add_line(&mut out, screen::field("Enabled", on, true, focus == 0, editing));
    add_line(
        &mut out,
        screen::field("Archive Dir", d.archive_dir.as_str(), false, focus == 1, editing),
    );
    add_line(&mut out, screen::field("Format", d.format.as_str(), false, focus == 2, editing));
    add_line(
        &mut out,
        screen::field("Fragments", fragments.as_str(), false, focus == 3, editing),
    );
    add_line(&mut out, screen::field("Rate Limit", limit, false, focus == 4, editing));
    add_form_tail(
        &mut out,
        "   Tandem Channels (auto-archive on recording finish):",
        channels,
        &d.tandem_channels,
        5,
        focus,
    );
    assert(out.deep_view() == config_lines_of(
        d.deep_view(),
        channels.deep_view(),
        focus as nat,
        editing,
    ));
    out
}

/// The title of the settings.
pub fn config_title(configured: bool) -> (r: &'static str)
    ensures
        r@ == if configured {
            " Archiver Settings "@
        } else {
            " Configure Archiver "@
        },
{
    if configured {
        " Archiver Settings "
    } else {
        " Configure Archiver "
    }
}

// ---------------------------------------------------------------------------
// Laws
// ---------------------------------------------------------------------------

/// A channel's row shows its name, as much as 30 characters hold, and its platform, which stands in
/// the same column for all names that leave room for it.
pub proof fn law_channel_shown(c: ChannelModel)
    ensures
        channel_line(c) matches LineModel::Spans(s) && {
            &&& s.len() == 4
            &&& s[1].text == text::at_most(c.display_name, 30)
            &&& text::bytes_of(s[1].text) <= 27 ==> text::bytes_of(s[1].text) + s[2].text.len()
                == 27
            &&& forall|i: int| 0 <= i < s[2].text.len() ==> #[trigger] s[2].text[i] == ' '
            &&& c.platform.label == "Twitch"@ ==> s[3].text == "("@ + "TW"@ + ")"@
            &&& c.platform.label == "YouTube"@ ==> s[3].text == "("@ + "YT"@ + ")"@
            &&& c.platform.label != "Twitch"@ && c.platform.label != "YouTube"@ ==> s[3].text
                == "("@ + "??"@ + ")"@
        },
{
    reveal_strlit("Twitch");
    reveal_strlit("YouTube");
    assert("Twitch"@.len() != "YouTube"@.len());
}

/// A job's row shows its channel, as much as 20 characters hold, and by its state what it is doing:
/// how many of how many videos it has and which one it downloads, how many it had in the end, or why
/// it failed.
pub proof fn law_job_shown(job: JobModel, percent: u32)
    ensures
        job_line(job, percent) matches LineModel::Spans(s) && {
            let done = number::decimal_of(job.completed_videos);
            let all = number::decimal_of(job.total_videos);
            &&& s.len() == 4
            &&& s[2].text == text::at_most(job.channel_name, 20)
            &&& job.state is Scanning ==> s[3].text == " Scanning..."@
            &&& job.state is Complete ==> s[3].text == " Complete ("@ + all + " videos)"@
            &&& job.state is Failed ==> match job.error {
                Some(e) => s[3].text == " "@ + text::at_most(e, 40),
                None => s[3].text == " "@ + text::at_most("unknown"@, 40),
            }
            &&& job.state is Downloading && job.total_videos > 0 ==> match job.current_video {
                Some(v) => s[3].text == (" "@ + done + "/"@ + all + " ("@ + number::decimal_of(
                    percent as nat,
                ) + "%)"@) + " "@ + text::at_most(v, 25),
                None => s[3].text == (" "@ + done + "/"@ + all + " ("@ + number::decimal_of(
                    percent as nat,
                ) + "%)"@) + " "@ + text::at_most(Seq::empty(), 25),
            }
            &&& job.state is Complete ==> s[1].text == "✓ "@
            &&& job.state is Failed ==> s[1].text == "✗ "@
            &&& job.state.active() ==> s[1].text == "⟳ "@
        },
{
}

/// The footer shows the last error, as far as the pane is wide; without one, where the archive is,
/// and the number of jobs that scan or download before it, if there are any.
pub proof fn law_footer_shown(
    error: Seq<char>,
    jobs: Seq<JobModel>,
    c: ArchiverConfigModel,
    width: u16,
)
    ensures
        screen::line_text(footer_of(Some(error), jobs, Some(c), width)) == " ⚠ "@ + text::at_most(
            error,
            if width >= 4 {
                width - 4
            } else {
                0
            },
        ),
        ({
            let active = jobs.filter(
                |j: JobModel| j.state is Scanning || j.state is Downloading,
            ).len();
            let dir = text::at_most(
                c.archive_dir,
                if width >= 20 {
                    width - 20
                } else {
                    0
                },
            );
            &&& active > 0 ==> screen::line_text(footer_of(None, jobs, Some(c), width))
                == " [AR:"@ + number::decimal_of(active) + "]"@ + ("  "@ + dir)
            &&& active == 0 ==> screen::line_text(footer_of(None, jobs, Some(c), width)) == " "@
                + dir
        }),
{
    screen::lemma_spans_text(footer_of(Some(error), jobs, Some(c), width)->Spans_0);
    screen::lemma_spans_text(footer_of(None, jobs, Some(c), width)->Spans_0);
    lemma_active(jobs);
}

proof fn lemma_active(jobs: Seq<JobModel>)
    ensures
        model::active_jobs(jobs) == jobs.filter(
            |j: JobModel| j.state is Scanning || j.state is Downloading,
        ).len(),
    decreases jobs.len(),
{
    reveal(Seq::filter);
    if jobs.len() > 0 {
        lemma_active(jobs.drop_last());
    }
}

/// The settings show what the draft says, field by field, and every channel.
pub proof fn law_settings_shown(
    d: ArchiverConfigModel,
    channels: Seq<(Seq<char>, Seq<char>)>,
    focus: nat,
    editing: bool,
    i: int,
)
    ensures
        ({
            let lines = config_lines_of(d, channels, focus, editing);
            let value = |k: int| lines[k]->Spans_0[2].text;
            let label = |k: int| lines[k]->Spans_0[1].text;
            let shown = |k: int| lines[k]->Spans_0[0].text;
            &&& label(0) == "Enabled"@ + ": "@ && value(0) == if d.enabled {
                "Yes"@
            } else {
                "No"@
            }
            &&& label(1) == "Archive Dir"@ + ": "@ && value(1) == d.archive_dir
            &&& label(2) == "Format"@ + ": "@ && value(2) == d.format
            &&& label(3) == "Fragments"@ + ": "@ && value(3) == number::decimal_of(
                d.concurrent_fragments as nat,
            )
            &&& label(4) == "Rate Limit"@ + ": "@ && value(4) == if d.rate_limit.len() > 0 {
                d.rate_limit
            } else {
                "(none)"@
            }
            &&& 0 <= i < 5 ==> shown(i) == if focus == i {
                " > "@
            } else {
                "   "@
            }
            &&& 0 <= i < channels.len() ==> lines[7 + i] == screen::checkbox_line(
                channels[i].1,
                d.tandem_channels.contains(channels[i].0),
                focus == 5 + i,
            )
        }),
{
    if 0 <= i < channels.len() {
        screen::law_form_shown(
            "   Tandem Channels (auto-archive on recording finish):"@,
            channels,
            d.tandem_channels,
            5,
            focus,
            i,
        );
    }
}

/// The header marks the view that is shown, and no other.
pub proof fn law_header_shown(view: ArchiverView)
    ensures
        header_of(view) matches LineModel::Spans(s) && {
            &&& s[0].text == " Channels"@ && s[2].text == "Queue"@ && s[4].text == "Picker"@
            &&& s[0].bold <==> view is ChannelList
            &&& s[2].bold <==> view is ArchiveQueue
            &&& s[4].bold <==> view is RecordingPicker
        },
{
}

} // verus!
