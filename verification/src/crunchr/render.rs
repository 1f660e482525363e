//! What the plugin's pane shows.
use vstd::prelude::*;

use crate::config::{CrunchrConfig, CrunchrConfigModel};
use crate::crunchr::model;
use crate::crunchr::types::{
    AnalysisData, AnalysisModel, CrunchrRecordingInfo, HitModel, JobModel, PipelineState,
    ProcessingJob, RecordingInfoModel, SearchMode, SearchResult,
};
use crate::crunchr::CrunchrPlugin;
use crate::number;
use crate::screen;
use crate::screen::{
    add_form_tail, add_line, add_span, no_lines, no_spans, Line, LineModel, Span, SpanModel, Tone,
};
use crate::text;

verus! {

// ---------------------------------------------------------------------------
// Fixed texts
// ---------------------------------------------------------------------------

/// What is shown where there is neither a backend nor anything to search or process.
pub open spec fn no_backend() -> Seq<LineModel> {
    seq![
        screen::blank(),
        screen::blank(),
        screen::heading("  No transcription backend available"@, Tone::Secondary),
        screen::blank(),
        screen::line("  Configure in config.toml [crunchr]:"@, Tone::Fg),
        screen::line(
            "    backend = \"voxtral-api\"   # Mistral API ($0.18/hr, diarization)"@,
            Tone::Dim,
        ),
        screen::line(
            "    backend = \"voxtral-local\" # self-hosted (free, needs GPU)"@,
            Tone::Dim,
        ),
        screen::line(
            "    backend = \"whisper-cli\"   # local (pip install openai-whisper)"@,
            Tone::Dim,
        ),
        screen::blank(),
        screen::line("  Existing search data is still accessible."@, Tone::Muted),
    ]
}

/// What is shown where there is neither a backend nor anything to search or process.
pub fn no_backend_lines() -> (r: Vec<Line>)
    ensures
        r.deep_view() == no_backend(),
{
    let mut out = no_lines();
    add_line(&mut out, Line::blank());
    add_line(&mut out, Line::blank());
    add_line(&mut out, Line::heading("  No transcription backend available", Tone::Secondary));
    add_line(&mut out, Line::blank());
    add_line(&mut out, Line::of("  Configure in config.toml [crunchr]:", Tone::Fg));
    add_line(
        &mut out,
        Line::of(
            "    backend = \"voxtral-api\"   # Mistral API ($0.18/hr, diarization)",
            Tone::Dim,
        ),
    );
    add_line(
        &mut out,
        Line::of("    backend = \"voxtral-local\" # self-hosted (free, needs GPU)", Tone::Dim),
    );
    add_line(
        &mut out,
        Line::of(
            "    backend = \"whisper-cli\"   # local (pip install openai-whisper)",
            Tone::Dim,
        ),
    );
    add_line(&mut out, Line::blank());
    add_line(&mut out, Line::of("  Existing search data is still accessible.", Tone::Muted));
    assert(out.deep_view() == no_backend());
    out
}

/// What is shown where there are no transcripts yet.
pub open spec fn no_transcripts() -> Seq<LineModel> {
    seq![
        screen::blank(),
        screen::blank(),
        screen::heading("  No transcripts yet"@, Tone::Secondary),
        screen::blank(),
        screen::line(
            "  Press Tab to switch to Recording Picker and queue recordings."@,
            Tone::Fg,
        ),
        screen::blank(),
        screen::line(
            "  Press / to search when transcripts are available.  [c] Settings"@,
            Tone::Muted,
        ),
    ]
}

/// What is shown where there are no transcripts yet.
pub fn no_transcript_lines() -> (r: Vec<Line>)
    ensures
        r.deep_view() == no_transcripts(),
{
    let mut out = no_lines();
    add_line(&mut out, Line::blank());
    add_line(&mut out, Line::blank());
    add_line(&mut out, Line::heading("  No transcripts yet", Tone::Secondary));
    add_line(&mut out, Line::blank());
    add_line(
        &mut out,
        Line::of("  Press Tab to switch to Recording Picker and queue recordings.", Tone::Fg),
    );
    add_line(&mut out, Line::blank());
    add_line(
        &mut out,
        Line::of("  Press / to search when transcripts are available.  [c] Settings", Tone::Muted),
    );
    assert(out.deep_view() == no_transcripts());
    out
}

// ---------------------------------------------------------------------------
// The search bar
// ---------------------------------------------------------------------------

/// The columns that the search mode takes: none in a narrow pane.
pub open spec fn mode_columns(mode: SearchMode, width: u16) -> nat {
    if width > 50 {
        text::bytes_of(mode.name()) + 4
    } else {
        0
    }
}

/// The columns that the search bar fills before the padding. The query counts by its bytes, in
/// 16 bits.
pub open spec fn bar_columns(query: Seq<char>, mode: SearchMode, width: u16) -> nat {
    5 + text::bytes_of(query) % 65536 + mode_columns(mode, width)
}

/// The search bar.
pub open spec fn search_bar_of(
    query: Seq<char>,
    mode: SearchMode,
    active: bool,
    width: u16,
) -> LineModel {
    let spans = seq![
        screen::bold(" / "@, Tone::Secondary),
        screen::span(query, Tone::Fg),
        screen::span(
            if active {
                "▌"@
            } else {
                ""@
            },
            Tone::Primary,
        ),
        screen::span(
            text::spaces_of(screen::less(width, bar_columns(query, mode, width))),
            Tone::Plain,
        ),
    ];
    LineModel::Spans(
        if width > 50 {
            spans + seq![
                screen::span("["@, Tone::Muted),
                screen::span(
                    mode.name(),
                    match mode {
                        SearchMode::FullText => Tone::Primary,
                        SearchMode::Semantic => Tone::Secondary,
                    },
                ),
                screen::span("]"@, Tone::Muted),
                screen::span(" "@, Tone::Plain),
            ]
        } else {
            spans
        },
    )
}

/// The search bar in a pane of `width` columns.
pub fn search_bar(query: &str, mode: SearchMode, active: bool, width: u16) -> (r: Line)
    requires
        bar_columns(query@, mode, width) <= u16::MAX,
    ensures
        r.deep_view() == search_bar_of(query@, mode, active, width),
{
    let show_mode = width > 50;
    let query_bytes: u32 = (text::byte_len(query) % 65536) as u32;
    let mode_width: u32 = if show_mode {
        (text::byte_len(mode.label()) + 4) as u32
    } else {
        0
    };
    let filled: u32 = 5 + query_bytes + mode_width;
    let pad: usize = if width as u32 >= filled {
        (width as u32 - filled) as usize
    } else {
        0
    };
    let cursor = if active {
        "▌"
    } else {
        ""
    };
    let mut spans = no_spans();
    add_span(&mut spans, Span::styled(" / ", Tone::Secondary, true));
    add_span(&mut spans, Span::of(query, Tone::Fg));
    add_span(&mut spans, Span::of(cursor, Tone::Primary));
    let padding = text::spaces(pad);
    add_span(&mut spans, Span::of(padding.as_str(), Tone::Plain));
    if show_mode {
        let tone = match mode {
            SearchMode::FullText => Tone::Primary,
            SearchMode::Semantic => Tone::Secondary,
        };
        add_span(&mut spans, Span::of("[", Tone::Muted));
        add_span(&mut spans, Span::of(mode.label(), tone));
        add_span(&mut spans, Span::of("]", Tone::Muted));
        add_span(&mut spans, Span::of(" ", Tone::Plain));
    }
    let r = Line::Spans(spans);
    assert(r.deep_view() == search_bar_of(query@, mode, active, width));
    r
}

// ---------------------------------------------------------------------------
// The queue
// ---------------------------------------------------------------------------

/// The name of a job, cut to the pane.
pub open spec fn job_title(job: JobModel, width: u16) -> Seq<char> {
    text::at_most(
        job.channel_name + " - "@ + job.title,
        screen::less(width, 6) as int,
    )
}

/// The lines of a job that is not over: its name, and what is being done.
pub open spec fn active_job(job: JobModel, width: u16) -> Seq<LineModel> {
    seq![
        LineModel::Spans(
            seq![
                if job.state is Pending {
                    screen::span("  ○ "@, Tone::Dim)
                } else {
                    screen::span("  ● "@, Tone::Secondary)
                },
                screen::span(job_title(job, width), Tone::Fg),
            ],
        ),
        screen::line(
            match job.error {
                Some(e) => "    "@ + job.state.name() + " - "@ + e,
                None => "    "@ + job.state.name() + "..."@,
            },
            Tone::Dim,
        ),
        screen::blank(),
    ]
}

/// The line of a job that is over.
pub open spec fn over_job(job: JobModel, width: u16) -> LineModel {
    LineModel::Spans(
        seq![
            if job.state is Complete {
                screen::span("  ✓ "@, Tone::Green)
            } else {
                screen::span("  ✗ "@, Tone::Red)
            },
            screen::span(job_title(job, width), Tone::Muted),
        ],
    )
}

/// The lines of the jobs that are not over, in order.
pub open spec fn active_jobs(queue: Seq<JobModel>, width: u16) -> Seq<LineModel>
    decreases queue.len(),
{
    if queue.len() == 0 {
        Seq::empty()
    } else if queue.last().state.over() {
        active_jobs(queue.drop_last(), width)
    } else {
        active_jobs(queue.drop_last(), width) + active_job(queue.last(), width)
    }
}

/// The lines of the first `limit` jobs that are over, in order.
pub open spec fn over_jobs(queue: Seq<JobModel>, limit: nat, width: u16) -> Seq<LineModel>
    decreases queue.len(),
{
    if queue.len() == 0 {
        Seq::empty()
    } else {
        let before = over_jobs(queue.drop_last(), limit, width);
        if queue.last().state.over() && before.len() < limit {
            before.push(over_job(queue.last(), width))
        } else {
            before
        }
    }
}

/// The queue: the jobs that are not over, then the first `limit` of those that are.
pub open spec fn queue_lines_of(queue: Seq<JobModel>, limit: nat, width: u16) -> Seq<LineModel> {
    (seq![
        screen::blank(),
        screen::heading("  Processing Pipeline"@, Tone::Secondary),
        screen::blank(),
    ] + active_jobs(queue, width) + over_jobs(queue, limit, width)).push(screen::blank()).push(
        screen::line("  Press / to search transcripts"@, Tone::Muted),
    )
}

/// The name of a job, cut to the pane.
fn title_shown(job: &ProcessingJob, width: u16) -> (r: String)
    ensures
        r@ == job_title(job.deep_view(), width),
{
    let name = text::cat3(job.channel_name.as_str(), " - ", job.title.as_str());
    let n: usize = if width >= 6 {
        width as usize - 6
    } else {
        0
    };
    text::first_chars(name.as_str(), n)
}

/// Puts the lines of a job that is not over behind `out`.
fn add_active_job(out: &mut Vec<Line>, job: &ProcessingJob, width: u16)
    ensures
        final(out).deep_view() == old(out).deep_view() + active_job(job.deep_view(), width),
{
    let ghost start = out.deep_view();
    let title = title_shown(job, width);
    let mut spans = no_spans();
    let indicator = if matches!(job.state, PipelineState::Pending) {
        Span::of("  ○ ", Tone::Dim)
    } else {
        Span::of("  ● ", Tone::Secondary)
    };
    add_span(&mut spans, indicator);
    add_span(&mut spans, Span::of(title.as_str(), Tone::Fg));
    let detail = match &job.error {
        Some(e) => {
            let mut d = text::cat3("    ", job.state.label(), " - ");
            d.append(e.as_str());
            d
        },
        None => text::cat3("    ", job.state.label(), "..."),
    };
    let ghost row = spans.deep_view();
    add_line(out, Line::Spans(spans));
    add_line(out, Line::of(detail.as_str(), Tone::Dim));
    add_line(out, Line::blank());
    assert(LineModel::Spans(row) == active_job(job.deep_view(), width)[0]);
    assert(out.deep_view() == start + active_job(job.deep_view(), width));
}

/// The line of a job that is over.
fn over_job_line(job: &ProcessingJob, width: u16) -> (r: Line)
    ensures
        r.deep_view() == over_job(job.deep_view(), width),
{
    let title = title_shown(job, width);
    let mut spans = no_spans();
    let indicator = if matches!(job.state, PipelineState::Complete) {
        Span::of("  ✓ ", Tone::Green)
    } else {
        Span::of("  ✗ ", Tone::Red)
    };
    add_span(&mut spans, indicator);
    add_span(&mut spans, Span::of(title.as_str(), Tone::Muted));
    let r = Line::Spans(spans);
    assert(r.deep_view() == over_job(job.deep_view(), width));
    r
}

/// The queue: the jobs that are not over, then the first `limit` of those that are.
pub fn queue_lines(queue: &Vec<ProcessingJob>, limit: usize, width: u16) -> (r: Vec<Line>)
    ensures
        r.deep_view() == queue_lines_of(queue.deep_view(), limit as nat, width),
{
    let ghost jobs = queue.deep_view();
    let ghost top = seq![
        screen::blank(),
        screen::heading("  Processing Pipeline"@, Tone::Secondary),
        screen::blank(),
    ];
    let mut out = no_lines();
    add_line(&mut out, Line::blank());
    add_line(&mut out, Line::heading("  Processing Pipeline", Tone::Secondary));
    add_line(&mut out, Line::blank());
    assert(out.deep_view() == top);
    assert(jobs.take(0) == Seq::<JobModel>::empty());
    assert(top + active_jobs(jobs.take(0), width) == top);
    let mut i: usize = 0;
    while i < queue.len()
        invariant
            i <= queue.len(),
            jobs == queue.deep_view(),
            out.deep_view() == top + active_jobs(jobs.take(i as int), width),
        decreases queue.len() - i,
    {
        assert(jobs.take(i + 1).drop_last() == jobs.take(i as int));
        assert(jobs.take(i + 1).last() == queue[i as int].deep_view());
        if !queue[i].state.is_over() {
            add_active_job(&mut out, &queue[i], width);
            assert(out.deep_view() == top + active_jobs(jobs.take(i + 1), width));
        }
        i = i + 1;
    }
    assert(jobs.take(queue.len() as int) == jobs);
    let ghost body = top + active_jobs(jobs, width);
    assert(body + over_jobs(jobs.take(0), limit as nat, width) == body);
    let mut n: usize = 0;
    let mut k: usize = 0;
    while k < queue.len()
        invariant
            k <= queue.len(),
            n <= k,
            jobs == queue.deep_view(),
            n == over_jobs(jobs.take(k as int), limit as nat, width).len(),
            out.deep_view() == body + over_jobs(jobs.take(k as int), limit as nat, width),
        decreases queue.len() - k,
    {
        assert(jobs.take(k + 1).drop_last() == jobs.take(k as int));
        assert(jobs.take(k + 1).last() == queue[k as int].deep_view());
        if queue[k].state.is_over() && n < limit {
            add_line(&mut out, over_job_line(&queue[k], width));
            n = n + 1;
            assert(out.deep_view() == body + over_jobs(jobs.take(k + 1), limit as nat, width));
        }
        k = k + 1;
    }
    assert(jobs.take(queue.len() as int) == jobs);
    add_line(&mut out, Line::blank());
    add_line(&mut out, Line::of("  Press / to search transcripts", Tone::Muted));
    out
}

/// What the search view shows below the search bar.
#[derive(Debug)]
pub enum Content {
    /// The hits.
    Results,
    Lines(Vec<Line>),
}

/// What the search view shows where there are no hits: the queue with the first five jobs that
/// are over, if there are jobs, else advice.
pub open spec fn idle_content(queue: Seq<JobModel>, width: u16) -> Seq<LineModel> {
    if queue.len() > 0 {
        queue_lines_of(queue, 5, width)
    } else {
        no_transcripts()
    }
}

/// What the search view shows below the search bar.
pub fn content(plugin: &CrunchrPlugin, width: u16) -> (r: Content)
    ensures
        match r {
            Content::Results => plugin.search_results@.len() > 0,
            Content::Lines(l) => plugin.search_results@.len() == 0 && l.deep_view()
                == idle_content(plugin.queue.deep_view(), width),
        },
{
    if plugin.search_results.len() > 0 {
        return Content::Results;
    }
    assert(plugin.queue.len() == plugin.queue.deep_view().len());
    if plugin.queue.len() > 0 {
        Content::Lines(queue_lines(&plugin.queue, 5, width))
    } else {
        Content::Lines(no_transcript_lines())
    }
}

/// Whether the pane shows that there is no backend.
pub fn shows_no_backend(plugin: &CrunchrPlugin) -> (r: bool)
    ensures
        r == (!plugin.backend_available && plugin.search_results@.len() == 0
            && plugin.queue@.len() == 0),
{
    !plugin.backend_available && plugin.search_results.len() == 0 && plugin.queue.len() == 0
}

// ---------------------------------------------------------------------------
// Hits
// ---------------------------------------------------------------------------

/// A time of `total` seconds: hours if there are any, minutes, two digits of seconds.
pub open spec fn timestamp_of(total: nat) -> Seq<char> {
    let h = total / 3600;
    let m = (total % 3600) / 60;
    let s = total % 60;
    if h > 0 {
        number::decimal_of(h) + ":"@ + number::two_digits_of(m) + ":"@ + number::two_digits_of(s)
    } else {
        number::decimal_of(m) + ":"@ + number::two_digits_of(s)
    }
}

/// A time of `total` seconds.
pub fn format_timestamp(total: u64) -> (r: String)
    ensures
        r@ == timestamp_of(total as nat),
{
    let h: u64 = total / 3600;
    let m: u64 = (total % 3600) / 60;
    let s: u64 = total % 60;
    let secs = number::two_digits(s);
    if h > 0 {
        let hours = number::decimal(h);
        let mins = number::two_digits(m);
        let mut out = text::cat3(hours.as_str(), ":", mins.as_str());
        out.append(":");
        out.append(secs.as_str());
        out
    } else {
        let mins = number::decimal(m);
        text::cat3(mins.as_str(), ":", secs.as_str())
    }
}

/// A piece of a snippet, unless it is empty.
pub open spec fn piece(s: SpanModel) -> Seq<SpanModel> {
    if s.text.len() > 0 {
        seq![s]
    } else {
        Seq::empty()
    }
}

/// What a snippet shows in `width` bytes: the text between `>>>` and `<<<` highlighted, the rest
/// in the colour `base`. `None` if the width ends inside a character.
pub open spec fn highlighted(s: Seq<char>, width: nat, base: Tone) -> Option<Seq<SpanModel>>
    decreases s.len(),
{
    if s.len() == 0 || width == 0 {
        Some(Seq::empty())
    } else {
        match text::find_from(s, ">>>"@, 0) {
            None => match text::first_bytes_of(s, width) {
                Some(t) => Some(piece(screen::span(t, base))),
                None => None,
            },
            Some(i) => match text::first_bytes_of(s.take(i), width) {
                None => None,
                Some(t) => {
                    let left = (width - text::bytes_of(t)) as nat;
                    let rest = s.skip(i + ">>>"@.len());
                    match text::find_from(rest, "<<<"@, 0) {
                        None => match text::first_bytes_of(rest, left) {
                            Some(u) => Some(
                                piece(screen::span(t, base)) + piece(
                                    screen::bold(u, Tone::Primary),
                                ),
                            ),
                            None => None,
                        },
                        Some(j) => match text::first_bytes_of(rest.take(j), left) {
                            None => None,
                            Some(u) => {
                                let tail = rest.skip(j + "<<<"@.len());
                                if tail.len() < s.len() {
                                    match highlighted(
                                        tail,
                                        (left - text::bytes_of(u)) as nat,
                                        base,
                                    ) {
                                        Some(more) => Some(
                                            piece(screen::span(t, base)) + piece(
                                                screen::bold(u, Tone::Primary),
                                            ) + more,
                                        ),
                                        None => None,
                                    }
                                } else {
                                    None
                                }
                            },
                        },
                    }
                },
            },
        }
    }
}

/// Puts a piece behind others, unless it is empty.
fn add_piece(out: &mut Vec<Span>, s: Span)
    ensures
        final(out).deep_view() == old(out).deep_view() + piece(s.deep_view()),
{
    let ghost before = out.deep_view();
    let ghost m = s.deep_view();
    if !s.text.as_str().is_empty() {
        add_span(out, s);
        assert(out.deep_view() == before + seq![m]);
    }
    assert(out.deep_view() == before + piece(m));
}

/// `done` before what `rest` gives.
spec fn before_all(done: Seq<SpanModel>, rest: Option<Seq<SpanModel>>) -> Option<Seq<SpanModel>> {
    match rest {
        Some(more) => Some(done + more),
        None => None,
    }
}

/// FTS snippet with `>>>` `<<<` markers converted to highlighted spans, in `width` bytes at most.
/// `None` if the width ends inside a character.
#[verifier::rlimit(40)]
#[verifier::spinoff_prover]
pub fn highlighted_snippet(snippet: &str, width: usize, base: Tone) -> (r: Option<Vec<Span>>)
    ensures
        r.deep_view() == highlighted(snippet@, width as nat, base),
{
    let chars = text::chars_of(snippet);
    let open = text::chars_of(">>>");
    let close = text::chars_of("<<<");
    proof {
        reveal_strlit(">>>");
        reveal_strlit("<<<");
    }
    let n: usize = chars.len();
    let mut out = no_spans();
    let mut left: usize = width;
    let mut at: usize = 0;
    assert(chars@.skip(0) == chars@);
    assert(before_all(out.deep_view(), highlighted(chars@, width as nat, base)) == highlighted(
        chars@,
        width as nat,
        base,
    )) by {
        let h = highlighted(chars@, width as nat, base);
        if h is Some {
            assert(Seq::<SpanModel>::empty() + h->0 == h->0);
        }
    }
    while at < n && left > 0
        invariant
            at <= n,
            n == chars.len(),
            chars@ == snippet@,
            open@ == ">>>"@,
            close@ == "<<<"@,
            open@.len() == 3,
            close@.len() == 3,
            highlighted(chars@, width as nat, base) == before_all(
                out.deep_view(),
                highlighted(chars@.skip(at as int), left as nat, base),
            ),
        decreases n - at,
    {
        let ghost s = chars@.skip(at as int);
        let ghost done = out.deep_view();
        proof {
            lemma_find_skip(chars@, ">>>"@, at as int, 0);
            text::lemma_find(s, ">>>"@, 0);
        }
        match text::find(&chars, &open, at) {
            None => {
                assert(chars@.subrange(at as int, n as int) == s);
                match text::first_bytes(&chars, at, n, left) {
                    Some(t) => {
                        add_piece(&mut out, Span::of(t.as_str(), base));
                        return Some(out);
                    },
                    None => {
                        return None;
                    },
                }
            },
            Some(k) => {
                assert(text::find_from(s, ">>>"@, 0) == Some(k - at));
                assert(chars@.subrange(at as int, k as int) == s.take(k - at));
                let t = match text::first_bytes(&chars, at, k, left) {
                    Some(t) => t,
                    None => {
                        return None;
                    },
                };
                let used: usize = text::byte_len(t.as_str()) as usize;
                let ghost first = t@;
                add_piece(&mut out, Span::of(t.as_str(), base));
                left = left - used;
                let from: usize = k + 3;
                let ghost rest = s.skip(k - at + 3);
                assert(rest == chars@.skip(from as int));
                proof {
                    lemma_find_skip(chars@, "<<<"@, from as int, 0);
                    text::lemma_find(rest, "<<<"@, 0);
                }
                match text::find(&chars, &close, from) {
                    None => {
                        assert(chars@.subrange(from as int, n as int) == rest);
                        match text::first_bytes(&chars, from, n, left) {
                            Some(u) => {
                                let ghost second = u@;
                                add_piece(&mut out, Span::styled(u.as_str(), Tone::Primary, true));
                                assert(out.deep_view() == done + (piece(screen::span(first, base))
                                    + piece(screen::bold(second, Tone::Primary))));
                                return Some(out);
                            },
                            None => {
                                return None;
                            },
                        }
                    },
                    Some(e) => {
                        assert(text::find_from(rest, "<<<"@, 0) == Some(e - from));
                        assert(chars@.subrange(from as int, e as int) == rest.take(e - from));
                        let u = match text::first_bytes(&chars, from, e, left) {
                            Some(u) => u,
                            None => {
                                return None;
                            },
                        };
                        let used: usize = text::byte_len(u.as_str()) as usize;
                        let ghost second = u@;
                        add_piece(&mut out, Span::styled(u.as_str(), Tone::Primary, true));
                        left = left - used;
                        at = e + 3;
                        proof {
                            let tail = rest.skip(e - from + 3);
                            assert(tail == chars@.skip(at as int));
                            let both = piece(screen::span(first, base)) + piece(
                                screen::bold(second, Tone::Primary),
                            );
                            assert(out.deep_view() == done + both);
                            let more = highlighted(tail, left as nat, base);
                            if more is Some {
                                assert(done + (both + more->0) == out.deep_view() + more->0);
                            }
                        }
                    },
                }
            },
        }
    }
    assert(out.deep_view() + Seq::<SpanModel>::empty() == out.deep_view());
    Some(out)
}

/// Finding behind a place is finding in what is left there.
proof fn lemma_find_skip(s: Seq<char>, p: Seq<char>, at: int, i: int)
    requires
        0 <= at <= s.len(),
        0 <= i,
    ensures
        text::find_from(s, p, at + i) == match text::find_from(s.skip(at), p, i) {
            Some(k) => Some(at + k),
            None => None,
        },
    decreases s.len() + 1 - at - i,
{
    let t = s.skip(at);
    if i + p.len() <= t.len() {
        assert(t.subrange(i, i + p.len()) == s.subrange(at + i, at + i + p.len()));
        if !text::stands_at(t, p, i) {
            lemma_find_skip(s, p, at, i + 1);
        }
    }
}

/// The lines of a hit: where it is, what it says, and a blank one. `None` if the snippet would be
/// cut inside a character.
pub open spec fn hit_lines(
    hit: HitModel,
    secs: u64,
    focused: bool,
    speaker: Option<Seq<char>>,
    width: u16,
) -> Option<Seq<LineModel>> {
    let tone = if focused {
        Tone::Primary
    } else {
        Tone::Fg
    };
    let head = LineModel::Spans(
        seq![
            SpanModel {
                text: if focused {
                    ">"@
                } else {
                    " "@
                },
                tone,
                bold: focused,
            },
            SpanModel { text: hit.video_title, tone, bold: focused },
            screen::span(" ("@ + hit.channel_name + ") "@, Tone::Dim),
            screen::span("["@ + timestamp_of(secs as nat) + "]"@, Tone::Secondary),
        ],
    );
    let lead = if focused && speaker is Some {
        seq![
            screen::span("  "@, Tone::Plain),
            screen::span("["@ + speaker->0 + "] "@, Tone::Dim),
        ]
    } else {
        seq![screen::span("  "@, Tone::Plain)]
    };
    match highlighted(
        hit.snippet,
        screen::less(width, 4),
        if focused {
            Tone::Fg
        } else {
            Tone::Muted
        },
    ) {
        Some(spans) => Some(seq![head, LineModel::Spans(lead + spans), screen::blank()]),
        None => None,
    }
}

/// The lines of hits, in order.
pub open spec fn all_hit_lines(
    hits: Seq<HitModel>,
    secs: Seq<u64>,
    selected: nat,
    speaker: Option<Seq<char>>,
    width: u16,
) -> Option<Seq<LineModel>>
    decreases hits.len(),
{
    if hits.len() == 0 {
        Some(Seq::empty())
    } else {
        let k = hits.len() - 1;
        match all_hit_lines(hits.drop_last(), secs, selected, speaker, width) {
            Some(before) => match hit_lines(hits[k], secs[k], k == selected, speaker, width) {
                Some(own) => Some(before + own),
                None => None,
            },
            None => None,
        }
    }
}

/// The lines of a hit.
fn lines_of_hit(
    hit: &SearchResult,
    secs: u64,
    focused: bool,
    speaker: &Option<String>,
    width: u16,
) -> (r: Option<Vec<Line>>)
    ensures
        r.deep_view() == hit_lines(hit.deep_view(), secs, focused, speaker.deep_view(), width),
{
    let tone = if focused {
        Tone::Primary
    } else {
        Tone::Fg
    };
    let mark = if focused {
        ">"
    } else {
        " "
    };
    let channel = text::cat3(" (", hit.channel_name.as_str(), ") ");
    let time = format_timestamp(secs);
    let shown_time = text::cat3("[", time.as_str(), "]");
    let mut head = no_spans();
    add_span(&mut head, Span::styled(mark, tone, focused));
    add_span(&mut head, Span::styled(hit.video_title.as_str(), tone, focused));
    add_span(&mut head, Span::of(channel.as_str(), Tone::Dim));
    add_span(&mut head, Span::of(shown_time.as_str(), Tone::Secondary));
    let mut spans = no_spans();
    add_span(&mut spans, Span::of("  ", Tone::Plain));
    if focused {
        match speaker {
            Some(name) => {
                let shown = text::cat3("[", name.as_str(), "] ");
                add_span(&mut spans, Span::of(shown.as_str(), Tone::Dim));
            },
            None => {},
        }
    }
    let columns: usize = if width >= 4 {
        width as usize - 4
    } else {
        0
    };
    let base = if focused {
        Tone::Fg
    } else {
        Tone::Muted
    };
    match highlighted_snippet(hit.snippet.as_str(), columns, base) {
        Some(more) => {
            let ghost lead = spans.deep_view();
            let ghost rest = more.deep_view();
            let mut tail = more;
            spans.append(&mut tail);
            assert(spans.deep_view() == lead + rest);
            let mut out = no_lines();
            add_line(&mut out, Line::Spans(head));
            add_line(&mut out, Line::Spans(spans));
            add_line(&mut out, Line::blank());
            assert(out.deep_view() =~~= hit_lines(
                hit.deep_view(),
                secs,
                focused,
                speaker.deep_view(),
                width,
            )->0);
            Some(out)
        },
        None => None,
    }
}

/// The lines of hits. `secs` are their times in whole seconds.
pub fn result_lines(
    hits: &Vec<SearchResult>,
    secs: &Vec<u64>,
    selected: usize,
    speaker: &Option<String>,
    width: u16,
) -> (r: Option<Vec<Line>>)
    requires
        hits.len() == secs.len(),
    ensures
        r.deep_view() == all_hit_lines(
            hits.deep_view(),
            secs@,
            selected as nat,
            speaker.deep_view(),
            width,
        ),
{
    let ghost all = hits.deep_view();
    let ghost sp = speaker.deep_view();
    let mut out = no_lines();
    let mut i: usize = 0;
    assert(all.take(0) == Seq::<HitModel>::empty());
    while i < hits.len()
        invariant
            i <= hits.len(),
            hits.len() == secs.len(),
            all == hits.deep_view(),
            sp == speaker.deep_view(),
            all_hit_lines(all.take(i as int), secs@, selected as nat, sp, width) == Some(
                out.deep_view(),
            ),
        decreases hits.len() - i,
    {
        let ghost before = out.deep_view();
        assert(all.take(i + 1).drop_last() == all.take(i as int));
        assert(all.take(i + 1)[i as int] == hits[i as int].deep_view());
        match lines_of_hit(&hits[i], secs[i], i == selected, speaker, width) {
            Some(own) => {
                let ghost o = own.deep_view();
                let mut tail = own;
                out.append(&mut tail);
                assert(out.deep_view() == before + o);
            },
            None => {
                proof {
                    lemma_hit_lines_none(all, secs@, selected as nat, sp, width, i + 1);
                }
                return None;
            },
        }
        i = i + 1;
    }
    assert(all.take(hits.len() as int) == all);
    Some(out)
}

/// Where a hit cannot be shown, no longer list can.
proof fn lemma_hit_lines_none(
    hits: Seq<HitModel>,
    secs: Seq<u64>,
    selected: nat,
    speaker: Option<Seq<char>>,
    width: u16,
    n: int,
)
    requires
        0 <= n <= hits.len(),
        all_hit_lines(hits.take(n), secs, selected, speaker, width) is None,
    ensures
        all_hit_lines(hits, secs, selected, speaker, width) is None,
    decreases hits.len() - n,
{
    if n < hits.len() {
        assert(hits.take(n + 1).drop_last() == hits.take(n));
        lemma_hit_lines_none(hits, secs, selected, speaker, width, n + 1);
    } else {
        assert(hits.take(n) == hits);
    }
}

/// How far the hits are scrolled, at three lines each, to keep the one in focus in view.
pub open spec fn result_scroll_of(selected: nat, height: u16) -> nat {
    if selected * 3 >= height {
        if selected * 3 >= height / 2 {
            (selected * 3 - height / 2) as nat
        } else {
            0
        }
    } else {
        0
    }
}

/// How far the hits are scrolled.
pub fn result_scroll(selected: usize, height: u16) -> (r: usize)
    requires
        selected * 3 <= usize::MAX,
    ensures
        r == result_scroll_of(selected as nat, height),
{
    let at: usize = selected * 3;
    if at >= height as usize {
        at - height as usize / 2
    } else {
        0
    }
}

/// Whether the hits need a scrollbar.
pub fn needs_scrollbar(hits: usize, height: u16) -> (r: bool)
    requires
        hits * 3 <= usize::MAX,
    ensures
        r == (hits * 3 > height),
{
    hits * 3 > height as usize
}

// ---------------------------------------------------------------------------
// The analysis
// ---------------------------------------------------------------------------

/// The colour of a sentiment.
pub open spec fn sentiment_tone_of(sentiment: Seq<char>) -> Tone {
    if sentiment == "positive"@ {
        Tone::Green
    } else if sentiment == "negative"@ {
        Tone::Red
    } else {
        Tone::Muted
    }
}

/// The colour of a sentiment.
pub fn sentiment_tone(sentiment: &str) -> (r: Tone)
    ensures
        r == sentiment_tone_of(sentiment@),
{
    if text::same_str(sentiment, "positive") {
        Tone::Green
    } else if text::same_str(sentiment, "negative") {
        Tone::Red
    } else {
        Tone::Muted
    }
}

/// Topics with commas between them.
pub open spec fn topic_spans(topics: Seq<Seq<char>>) -> Seq<SpanModel>
    decreases topics.len(),
{
    if topics.len() == 0 {
        Seq::empty()
    } else if topics.len() == 1 {
        seq![screen::span(topics[0], Tone::Primary)]
    } else {
        topic_spans(topics.drop_last()).push(screen::span(", "@, Tone::Muted)).push(
            screen::span(topics.last(), Tone::Primary),
        )
    }
}

/// The topics that are shown: the first six.
pub open spec fn shown_topics(topics: Seq<Seq<char>>) -> Seq<Seq<char>> {
    if topics.len() <= 6 {
        topics
    } else {
        topics.take(6)
    }
}

/// The line of topics and sentiment.
pub open spec fn topic_line(a: AnalysisModel) -> LineModel {
    let known = a.sentiment != "unknown"@;
    let spans = seq![screen::span(" "@, Tone::Dim)] + topic_spans(shown_topics(a.topics));
    let spaced = if a.topics.len() > 0 && known {
        spans.push(screen::span("  "@, Tone::Dim))
    } else {
        spans
    };
    LineModel::Spans(
        if known {
            spaced.push(
                screen::span("("@ + a.sentiment + ")"@, sentiment_tone_of(a.sentiment)),
            )
        } else {
            spaced
        },
    )
}

/// The analysis of the hit in focus: its summary, cut to two lines, then topics and sentiment.
pub open spec fn analysis_lines_of(a: AnalysisModel, width: u16) -> Seq<LineModel> {
    let summary = if a.summary.len() > 0 {
        seq![
            LineModel::Spans(
                seq![
                    screen::span(" "@, Tone::Dim),
                    screen::span(text::at_most(a.summary, width * 2), Tone::Fg),
                ],
            ),
        ]
    } else {
        Seq::empty()
    };
    let all = if a.topics.len() > 0 || a.sentiment != "unknown"@ {
        summary.push(topic_line(a))
    } else {
        summary
    };
    if all.len() == 0 {
        seq![screen::line("  No analysis available"@, Tone::Muted)]
    } else {
        all
    }
}

/// The line of topics and sentiment.
fn line_of_topics(a: &AnalysisData) -> (r: Line)
    ensures
        r.deep_view() == topic_line(a.deep_view()),
{
    let ghost m = a.deep_view();
    let ghost shown = shown_topics(m.topics);
    let known = !text::same_str(a.sentiment.as_str(), "unknown");
    let mut spans = no_spans();
    add_span(&mut spans, Span::of(" ", Tone::Dim));
    let ghost first = seq![screen::span(" "@, Tone::Dim)];
    assert(spans.deep_view() == first);
    assert(a.topics.len() == m.topics.len());
    let n: usize = if a.topics.len() <= 6 {
        a.topics.len()
    } else {
        6
    };
    let mut i: usize = 0;
    assert(first + topic_spans(shown.take(0)) == first);
    while i < n
        invariant
            i <= n,
            n <= a.topics.len(),
            m == a.deep_view(),
            shown == shown_topics(m.topics),
            n == shown.len(),
            spans.deep_view() == first + topic_spans(shown.take(i as int)),
        decreases n - i,
    {
        let ghost before = spans.deep_view();
        let ghost now = shown.take(i + 1);
        assert(now.drop_last() == shown.take(i as int));
        assert(now.last() == a.topics[i as int]@);
        if i > 0 {
            add_span(&mut spans, Span::of(", ", Tone::Muted));
        }
        add_span(&mut spans, Span::of(a.topics[i].as_str(), Tone::Primary));
        proof {
            if i == 0 {
                assert(now[0] == a.topics[i as int]@);
                assert(shown.take(0) == Seq::<Seq<char>>::empty());
                assert(topic_spans(shown.take(0)) == Seq::<SpanModel>::empty());
            }
        }
        assert(spans.deep_view() == first + topic_spans(now));
        i = i + 1;
    }
    assert(shown.take(n as int) == shown);
    if a.topics.len() > 0 && known {
        add_span(&mut spans, Span::of("  ", Tone::Dim));
    }
    if known {
        let shown_sentiment = text::cat3("(", a.sentiment.as_str(), ")");
        let tone = sentiment_tone(a.sentiment.as_str());
        add_span(&mut spans, Span::of(shown_sentiment.as_str(), tone));
    }
    Line::Spans(spans)
}

/// The analysis of the hit in focus.
pub fn analysis_lines(a: &AnalysisData, width: u16) -> (r: Vec<Line>)
    ensures
        r.deep_view() == analysis_lines_of(a.deep_view(), width),
{
    let mut out = no_lines();
    if !a.summary.as_str().is_empty() {
        let shown = text::first_chars(a.summary.as_str(), width as usize * 2);
        let mut spans = no_spans();
        add_span(&mut spans, Span::of(" ", Tone::Dim));
        add_span(&mut spans, Span::of(shown.as_str(), Tone::Fg));
        let ghost row = spans.deep_view();
        assert(row == seq![
            screen::span(" "@, Tone::Dim),
            screen::span(text::at_most(a.summary@, width * 2), Tone::Fg),
        ]);
        add_line(&mut out, Line::Spans(spans));
        assert(out.deep_view() == seq![LineModel::Spans(row)]);
    }
    assert(a.topics.len() == a.topics.deep_view().len());
    if a.topics.len() > 0 || !text::same_str(a.sentiment.as_str(), "unknown") {
        add_line(&mut out, line_of_topics(a));
    }
    assert(out.len() == out.deep_view().len());
    if out.len() == 0 {
        add_line(&mut out, Line::of("  No analysis available", Tone::Muted));
        assert(out.deep_view() == seq![screen::line("  No analysis available"@, Tone::Muted)]);
    }
    out
}

// ---------------------------------------------------------------------------
// The footer
// ---------------------------------------------------------------------------

/// How many jobs are complete.
pub open spec fn complete_jobs(queue: Seq<JobModel>) -> nat
    decreases queue.len(),
{
    if queue.len() == 0 {
        0
    } else {
        complete_jobs(queue.drop_last()) + if queue.last().state is Complete {
            1nat
        } else {
            0nat
        }
    }
}

/// How many jobs are complete.
fn count_complete(queue: &Vec<ProcessingJob>) -> (r: usize)
    ensures
        r == complete_jobs(queue.deep_view()),
{
    let ghost jobs = queue.deep_view();
    let mut n: usize = 0;
    let mut i: usize = 0;
    assert(jobs.take(0) == Seq::<JobModel>::empty());
    while i < queue.len()
        invariant
            n <= i <= queue.len(),
            jobs == queue.deep_view(),
            n == complete_jobs(jobs.take(i as int)),
        decreases queue.len() - i,
    {
        assert(jobs.take(i + 1).drop_last() == jobs.take(i as int));
        assert(jobs.take(i + 1).last() == queue[i as int].deep_view());
        if matches!(queue[i].state, PipelineState::Complete) {
            n = n + 1;
        }
        i = i + 1;
    }
    assert(jobs.take(queue.len() as int) == jobs);
    n
}

/// A word with its count.
pub open spec fn word_entry(w: (Seq<char>, i64)) -> Seq<char> {
    w.0 + "("@ + number::signed_of(w.1 as int) + ")"@
}

/// The bytes that the `k`-th word takes in the footer, with the comma before it.
pub open spec fn entry_bytes(words: Seq<(Seq<char>, i64)>, k: int) -> nat {
    text::bytes_of(
        if k > 0 {
            ", "@ + word_entry(words[k])
        } else {
            word_entry(words[k])
        },
    )
}

/// The words from the `k`-th on that fit into `available` bytes, of which `used` are taken.
pub open spec fn word_spans(
    words: Seq<(Seq<char>, i64)>,
    k: int,
    used: nat,
    available: nat,
) -> Seq<SpanModel>
    decreases words.len() - k,
{
    if k >= words.len() || used + entry_bytes(words, k) > available {
        Seq::empty()
    } else {
        (if k > 0 {
            seq![screen::span(", "@, Tone::Muted)]
        } else {
            Seq::empty()
        }).push(screen::span(word_entry(words[k]), Tone::Fg)) + word_spans(
            words,
            k + 1,
            used + entry_bytes(words, k),
            available,
        )
    }
}

/// The footer: the last error if there is one, else the state of the queue while jobs are not
/// over, else the most frequent words.
pub open spec fn footer_of(
    error: Option<Seq<char>>,
    queue: Seq<JobModel>,
    words: Seq<(Seq<char>, i64)>,
    width: u16,
) -> Seq<SpanModel> {
    match error {
        Some(e) => seq![
            screen::span(" ⚠ "@, Tone::Red),
            screen::span(text::at_most(e, screen::less(width, 4) as int), Tone::Red),
        ],
        None => if model::pending_jobs(queue) > 0 {
            seq![
                screen::span(" Queue: "@, Tone::Dim),
                screen::span(
                    number::decimal_of(model::pending_jobs(queue)) + " pending"@,
                    Tone::Secondary,
                ),
                screen::span(
                    " / "@ + number::decimal_of(complete_jobs(queue)) + " done"@,
                    Tone::Dim,
                ),
            ]
        } else if words.len() > 0 {
            seq![screen::span(" Top: "@, Tone::Dim)] + word_spans(
                words,
                0,
                0,
                screen::less(width, 7),
            )
        } else {
            Seq::empty()
        },
    }
}

/// The most frequent words, as many as fit.
fn top_word_spans(words: &Vec<(String, i64)>, width: u16) -> (r: Vec<Span>)
    ensures
        r.deep_view() == seq![screen::span(" Top: "@, Tone::Dim)] + word_spans(
            words.deep_view(),
            0,
            0,
            screen::less(width, 7),
        ),
{
    let ghost all = words.deep_view();
    let ghost first = seq![screen::span(" Top: "@, Tone::Dim)];
    let available: u128 = if width >= 7 {
        width as u128 - 7
    } else {
        0
    };
    let ghost room = screen::less(width, 7);
    let mut spans = no_spans();
    add_span(&mut spans, Span::of(" Top: ", Tone::Dim));
    assert(spans.deep_view() == first);
    let mut used: u128 = 0;
    let mut i: usize = 0;
    let ghost goal = first + word_spans(all, 0, 0, room);
    while i < words.len()
        invariant
            i <= words.len(),
            all == words.deep_view(),
            available == room,
            room == screen::less(width, 7),
            goal == seq![screen::span(" Top: "@, Tone::Dim)] + word_spans(all, 0, 0, room),
            used <= room,
            spans.deep_view() + word_spans(all, i as int, used as nat, room) == goal,
        decreases words.len() - i,
    {
        assert(all[i as int] == words[i as int].deep_view());
        let count = number::signed(words[i].1);
        let mut entry = text::cat3(words[i].0.as_str(), "(", count.as_str());
        entry.append(")");
        assert(entry@ == word_entry(all[i as int]));
        let taken: u128 = if i > 0 {
            let with_comma = text::cat(", ", entry.as_str());
            text::byte_len(with_comma.as_str())
        } else {
            text::byte_len(entry.as_str())
        };
        assert(taken == entry_bytes(all, i as int));
        if taken > available || used > available - taken {
            assert(word_spans(all, i as int, used as nat, room) == Seq::<SpanModel>::empty());
            assert(spans.deep_view() == goal);
            return spans;
        }
        let ghost before = spans.deep_view();
        if i > 0 {
            add_span(&mut spans, Span::of(", ", Tone::Muted));
        }
        add_span(&mut spans, Span::of(entry.as_str(), Tone::Fg));
        proof {
            let own = (if i > 0 {
                seq![screen::span(", "@, Tone::Muted)]
            } else {
                Seq::empty()
            }).push(screen::span(word_entry(all[i as int]), Tone::Fg));
            let more = word_spans(all, i + 1, (used + taken) as nat, room);
            assert(spans.deep_view() == before + own);
            assert(before + (own + more) == spans.deep_view() + more);
        }
        used = used + taken;
        i = i + 1;
    }
    assert(word_spans(all, i as int, used as nat, room) == Seq::<SpanModel>::empty());
    assert(spans.deep_view() == goal);
    spans
}

/// The footer in a pane of `width` columns; empty where nothing is shown.
pub fn footer(plugin: &CrunchrPlugin, width: u16) -> (r: Vec<Span>)
    ensures
        r.deep_view() == footer_of(
            plugin.last_error.deep_view(),
            plugin.queue.deep_view(),
            plugin.word_frequencies.deep_view(),
            width,
        ),
{
    let mut spans = no_spans();
    match &plugin.last_error {
        Some(e) => {
            let n: usize = if width >= 4 {
                width as usize - 4
            } else {
                0
            };
            let shown = text::first_chars(e.as_str(), n);
            add_span(&mut spans, Span::of(" ⚠ ", Tone::Red));
            add_span(&mut spans, Span::of(shown.as_str(), Tone::Red));
            assert(spans.deep_view() == seq![
                screen::span(" ⚠ "@, Tone::Red),
                screen::span(text::at_most(e@, screen::less(width, 4) as int), Tone::Red),
            ]);
            return spans;
        },
        None => {},
    }
    let pending = plugin.pending();
    if pending > 0 {
        let complete = count_complete(&plugin.queue);
        let a = number::decimal(pending as u64);
        let b = number::decimal(complete as u64);
        let waiting = text::cat(a.as_str(), " pending");
        let done = text::cat3(" / ", b.as_str(), " done");
        add_span(&mut spans, Span::of(" Queue: ", Tone::Dim));
        add_span(&mut spans, Span::of(waiting.as_str(), Tone::Secondary));
        add_span(&mut spans, Span::of(done.as_str(), Tone::Dim));
        assert(spans.deep_view() == footer_of(
            None,
            plugin.queue.deep_view(),
            plugin.word_frequencies.deep_view(),
            width,
        ));
        return spans;
    }
    assert(plugin.word_frequencies.len() == plugin.word_frequencies.deep_view().len());
    if plugin.word_frequencies.len() > 0 {
        return top_word_spans(&plugin.word_frequencies, width);
    }
    spans
}

// ---------------------------------------------------------------------------
// The settings
// ---------------------------------------------------------------------------

/// A yes or a no.
pub open spec fn yes_no_of(b: bool) -> Seq<char> {
    if b {
        "Yes"@
    } else {
        "No"@
    }
}

/// An optional text, or a stand-in.
pub open spec fn or_else(t: Option<Seq<char>>, other: Seq<char>) -> Seq<char> {
    match t {
        Some(s) => s,
        None => other,
    }
}

/// The settings form.
pub open spec fn config_lines_of(
    d: CrunchrConfigModel,
    channels: Seq<(Seq<char>, Seq<char>)>,
    focus: nat,
    editing: bool,
) -> Seq<LineModel> {
    seq![
        screen::field_line("Enabled"@, yes_no_of(d.enabled), true, focus == 0, editing),
        screen::field_line("Backend"@, d.backend, true, focus == 1, editing),
        screen::field_line(
            "API Key Env"@,
            or_else(d.api_key_env, ""@),
            false,
            focus == 2,
            editing,
        ),
        screen::field_line("Endpoint"@, or_else(d.endpoint, ""@), false, focus == 3, editing),
        screen::field_line(
            "Whisper Model"@,
            or_else(d.whisper_model, "base"@),
            false,
            focus == 4,
            editing,
        ),
        screen::field_line("Analysis"@, yes_no_of(d.analysis.enabled), true, focus == 5, editing),
    ] + screen::form_tail(
        "   Tandem Channels (auto-process on recording finish):"@,
        channels,
        d.tandem_channels,
        6,
        focus,
    )
}

/// A yes or a no.
pub fn yes_no(b: bool) -> (r: &'static str)
    ensures
        r@ == yes_no_of(b),
{
    if b {
        "Yes"
    } else {
        "No"
    }
}

/// An optional text, or a stand-in.
fn text_or<'a>(t: &'a Option<String>, other: &'a str) -> (r: &'a str)
    ensures
        r@ == or_else(t.deep_view(), other@),
{
    match t {
        Some(s) => s.as_str(),
        None => other,
    }
}

/// The settings form, with the field `focus` in focus.
pub fn config_lines(
    d: &CrunchrConfig,
    channels: &Vec<(String, String)>,
    focus: usize,
    editing: bool,
) -> (r: Vec<Line>)
    requires
        channels.len() <= usize::MAX - 6,
    ensures
        r.deep_view() == config_lines_of(
            d.deep_view(),
            channels.deep_view(),
            focus as nat,
            editing,
        ),
{
    let mut out = no_lines();
    add_line(
        &mut out,
        screen::field("Enabled", yes_no(d.enabled), true, focus == 0, editing),
    );
    add_line(
        &mut out,
        screen::field("Backend", d.backend.as_str(), true, focus == 1, editing),
    );
    add_line(
        &mut out,
        screen::field("API Key Env", text_or(&d.api_key_env, ""), false, focus == 2, editing),
    );
    add_line(
        &mut out,
        screen::field("Endpoint", text_or(&d.endpoint, ""), false, focus == 3, editing),
    );
    add_line(
        &mut out,
        screen::field(
            "Whisper Model",
            text_or(&d.whisper_model, "base"),
            false,
            focus == 4,
            editing,
        ),
    );
    add_line(
        &mut out,
        screen::field("Analysis", yes_no(d.analysis.enabled), true, focus == 5, editing),
    );
    let ghost top = out.deep_view();
    add_form_tail(
        &mut out,
        "   Tandem Channels (auto-process on recording finish):",
        channels,
        &d.tandem_channels,
        6,
        focus,
    );
    assert(out.deep_view() == config_lines_of(
        d.deep_view(),
        channels.deep_view(),
        focus as nat,
        editing,
    ));
    out
}

/// The title of the settings.
pub fn config_title(configured: bool) -> (r: &'static str)
    ensures
        r@ == if configured {
            " CrunchR Settings "@
        } else {
            " Configure CrunchR "@
        },
{
    if configured {
        " CrunchR Settings "
    } else {
        " Configure CrunchR "
    }
}

// ---------------------------------------------------------------------------
// The properties of a recording
// ---------------------------------------------------------------------------

/// A labelled value.
pub open spec fn labelled(label: Seq<char>, value: Seq<char>, tone: Tone) -> LineModel {
    LineModel::Spans(seq![screen::span(label, Tone::Dim), screen::span(value, tone)])
}

/// The part on the analysis.
pub open spec fn analysis_properties(i: RecordingInfoModel) -> Seq<LineModel> {
    let a = seq![screen::blank(), screen::heading("  Analysis"@, Tone::Secondary)];
    let b = match i.summary {
        Some(s) => a.push(screen::line("  "@ + s, Tone::Fg)),
        None => a,
    };
    let c = if i.topics.len() > 0 {
        b.push(labelled("  Topics:   "@, text::join(i.topics, ", "@), Tone::Primary))
    } else {
        b
    };
    match i.sentiment {
        Some(s) => c.push(labelled("  Sentiment:"@, " "@ + s, sentiment_tone_of(s))),
        None => c,
    }
}

/// What the properties of a recording say of its transcript.
pub open spec fn properties_of(info: Option<RecordingInfoModel>) -> Seq<LineModel> {
    let top = seq![screen::blank(), screen::heading("  Transcript"@, Tone::Secondary)];
    match info {
        None => top.push(screen::line("  Not processed"@, Tone::Muted)),
        Some(i) => {
            let status = top.push(
                labelled(
                    "  Status:   "@,
                    i.status,
                    if i.status == "complete"@ {
                        Tone::Green
                    } else {
                        Tone::Fg
                    },
                ),
            ).push(
                labelled(
                    "  Segments: "@,
                    number::decimal_of(i.segment_count as nat),
                    Tone::Fg,
                ),
            ).push(
                labelled("  Words:    "@, number::decimal_of(i.word_count as nat), Tone::Fg),
            );
            if i.has_analysis {
                status + analysis_properties(i)
            } else {
                status
            }
        },
    }
}

/// A labelled value.
fn labelled_line(label: &str, value: &str, tone: Tone) -> (r: Line)
    ensures
        r.deep_view() == labelled(label@, value@, tone),
{
    let mut spans = no_spans();
    add_span(&mut spans, Span::of(label, Tone::Dim));
    add_span(&mut spans, Span::of(value, tone));
    let r = Line::Spans(spans);
    assert(r.deep_view() == labelled(label@, value@, tone));
    r
}

/// Puts the part on the analysis behind `out`.
fn add_analysis_properties(out: &mut Vec<Line>, i: &CrunchrRecordingInfo)
    ensures
        final(out).deep_view() == old(out).deep_view() + analysis_properties(i.deep_view()),
{
    let ghost start = out.deep_view();
    add_line(out, Line::blank());
    add_line(out, Line::heading("  Analysis", Tone::Secondary));
    match &i.summary {
        Some(s) => {
            let shown = text::cat("  ", s.as_str());
            add_line(out, Line::of(shown.as_str(), Tone::Fg));
        },
        None => {},
    }
    assert(i.topics.len() == i.topics.deep_view().len());
    if i.topics.len() > 0 {
        let list = text::joined(&i.topics, ", ");
        add_line(out, labelled_line("  Topics:   ", list.as_str(), Tone::Primary));
    }
    match &i.sentiment {
        Some(s) => {
            let shown = text::cat(" ", s.as_str());
            add_line(
                out,
                labelled_line("  Sentiment:", shown.as_str(), sentiment_tone(s.as_str())),
            );
        },
        None => {},
    }
    assert(out.deep_view() == start + analysis_properties(i.deep_view()));
}

/// What the properties of a recording say of its transcript.
pub fn properties_section(info: &Option<CrunchrRecordingInfo>) -> (r: Vec<Line>)
    ensures
        r.deep_view() == properties_of(info.deep_view()),
{
    let mut out = no_lines();
    add_line(&mut out, Line::blank());
    add_line(&mut out, Line::heading("  Transcript", Tone::Secondary));
    assert(out.deep_view() == seq![
        screen::blank(),
        screen::heading("  Transcript"@, Tone::Secondary),
    ]);
    match info {
        None => {
            add_line(&mut out, Line::of("  Not processed", Tone::Muted));
        },
        Some(i) => {
            let tone = if text::same_str(i.status.as_str(), "complete") {
                Tone::Green
            } else {
                Tone::Fg
            };
            let segments = number::decimal(i.segment_count as u64);
            let words = number::decimal(i.word_count as u64);
            add_line(&mut out, labelled_line("  Status:   ", i.status.as_str(), tone));
            add_line(&mut out, labelled_line("  Segments: ", segments.as_str(), Tone::Fg));
            add_line(&mut out, labelled_line("  Words:    ", words.as_str(), Tone::Fg));
            if i.has_analysis {
                add_analysis_properties(&mut out, i);
            }
        },
    }
    out
}

// ---------------------------------------------------------------------------
// Laws
// ---------------------------------------------------------------------------

/// How many bytes pieces take together.
pub open spec fn spans_bytes(spans: Seq<SpanModel>) -> nat
    decreases spans.len(),
{
    if spans.len() == 0 {
        0
    } else {
        spans_bytes(spans.drop_last()) + text::bytes_of(spans.last().text)
    }
}

proof fn lemma_spans_bytes_add(a: Seq<SpanModel>, b: Seq<SpanModel>)
    ensures
        spans_bytes(a + b) == spans_bytes(a) + spans_bytes(b),
    decreases b.len(),
{
    if b.len() == 0 {
        assert(a + b == a);
    } else {
        lemma_spans_bytes_add(a, b.drop_last());
        assert((a + b).drop_last() == a + b.drop_last());
    }
}

proof fn lemma_piece_bytes(s: SpanModel)
    ensures
        spans_bytes(piece(s)) == text::bytes_of(s.text),
{
    reveal_with_fuel(spans_bytes, 2);
    if s.text.len() > 0 {
        assert(seq![s].drop_last() == Seq::<SpanModel>::empty());
    }
}

proof fn lemma_first_bytes(s: Seq<char>, n: nat)
    ensures
        text::first_bytes_of(s, n) matches Some(t) ==> text::bytes_of(t) <= n,
    decreases s.len(),
{
    if s.len() > 0 && n > 0 && text::char_bytes(s[0]) <= n {
        let m = (n - text::char_bytes(s[0])) as nat;
        lemma_first_bytes(s.drop_first(), m);
        match text::first_bytes_of(s.drop_first(), m) {
            Some(rest) => {
                assert((seq![s[0]] + rest).drop_first() == rest);
            },
            None => {},
        }
    }
}

/// A snippet never takes more bytes than it is given.
pub proof fn law_snippet_fits(s: Seq<char>, width: nat, base: Tone)
    ensures
        highlighted(s, width, base) matches Some(spans) ==> spans_bytes(spans) <= width,
    decreases s.len(),
{
    if s.len() > 0 && width > 0 {
        match text::find_from(s, ">>>"@, 0) {
            None => {
                lemma_first_bytes(s, width);
                if text::first_bytes_of(s, width) is Some {
                    lemma_piece_bytes(screen::span(text::first_bytes_of(s, width)->0, base));
                }
            },
            Some(i) => {
                lemma_first_bytes(s.take(i), width);
                if text::first_bytes_of(s.take(i), width) is Some {
                    let t = text::first_bytes_of(s.take(i), width)->0;
                    let left = (width - text::bytes_of(t)) as nat;
                    let rest = s.skip(i + ">>>"@.len());
                    let a = piece(screen::span(t, base));
                    lemma_piece_bytes(screen::span(t, base));
                    match text::find_from(rest, "<<<"@, 0) {
                        None => {
                            lemma_first_bytes(rest, left);
                            if text::first_bytes_of(rest, left) is Some {
                                let u = screen::bold(
                                    text::first_bytes_of(rest, left)->0,
                                    Tone::Primary,
                                );
                                lemma_piece_bytes(u);
                                lemma_spans_bytes_add(a, piece(u));
                            }
                        },
                        Some(j) => {
                            lemma_first_bytes(rest.take(j), left);
                            if text::first_bytes_of(rest.take(j), left) is Some {
                                let v = text::first_bytes_of(rest.take(j), left)->0;
                                let u = screen::bold(v, Tone::Primary);
                                let tail = rest.skip(j + "<<<"@.len());
                                let more = (left - text::bytes_of(v)) as nat;
                                lemma_piece_bytes(u);
                                lemma_spans_bytes_add(a, piece(u));
                                if tail.len() < s.len() {
                                    law_snippet_fits(tail, more, base);
                                    if highlighted(tail, more, base) is Some {
                                        lemma_spans_bytes_add(
                                            a + piece(u),
                                            highlighted(tail, more, base)->0,
                                        );
                                    }
                                }
                            }
                        },
                    }
                }
            },
        }
    }
}

/// A time is shown as hours, minutes and seconds that add up to it, the hours only where there are
/// any; minutes behind hours, and seconds, take two digits and stay below sixty.
pub proof fn law_timestamp(total: nat)
    ensures
        total >= 3600 ==> exists|h: Seq<char>, m: Seq<char>, s: Seq<char>|
            {
                &&& timestamp_of(total) == #[trigger] (h + ":"@ + m + ":"@ + s)
                &&& m.len() == 2 && s.len() == 2
                &&& number::value_of(m) < 60 && number::value_of(s) < 60
                &&& 3600 * number::value_of(h) + 60 * number::value_of(m) + number::value_of(s)
                    == total
            },
        total < 3600 ==> exists|m: Seq<char>, s: Seq<char>|
            {
                &&& timestamp_of(total) == #[trigger] (m + ":"@ + s)
                &&& s.len() == 2
                &&& number::value_of(m) < 60 && number::value_of(s) < 60
                &&& 60 * number::value_of(m) + number::value_of(s) == total
            },
{
    let h = total / 3600;
    let m = (total % 3600) / 60;
    let s = total % 60;
    number::law_decimal(h);
    number::law_decimal(m);
    number::law_two_digits(m);
    number::law_two_digits(s);
    assert(3600 * h + 60 * m + s == total);
    if h > 0 {
        assert(timestamp_of(total) == number::decimal_of(h) + ":"@ + number::two_digits_of(m)
            + ":"@ + number::two_digits_of(s));
    } else {
        assert(timestamp_of(total) == number::decimal_of(m) + ":"@ + number::two_digits_of(s));
    }
}

/// A snippet shows what stands between the markers highlighted and the rest plain, in order and
/// without the markers, as far as the width goes: what stands before the first highlight, that
/// highlight, and then what the rest of the snippet shows in what is left of the width. A highlight
/// that is not ended goes on to the end.
pub proof fn law_snippet_shows(
    a: Seq<char>,
    b: Seq<char>,
    c: Seq<char>,
    width: nat,
    base: Tone,
)
    requires
        forall|i: int| 0 <= i < a.len() ==> #[trigger] a[i] != '>',
        forall|i: int| 0 <= i < b.len() ==> #[trigger] b[i] != '<',
        text::bytes_of(a) + text::bytes_of(b) <= width,
        width > 0,
    ensures
        ({
            let left = (width - text::bytes_of(a) - text::bytes_of(b)) as nat;
            let shown = highlighted(a + ">>>"@ + b + "<<<"@ + c, width, base);
            match highlighted(c, left, base) {
                Some(more) => shown == Some(
                    piece(SpanModel { text: a, tone: base, bold: false }) + piece(
                        SpanModel { text: b, tone: Tone::Primary, bold: true },
                    ) + more,
                ),
                None => shown is None,
            }
        }),
        highlighted(a, width, base) == Some(
            piece(SpanModel { text: a, tone: base, bold: false }),
        ),
        highlighted(a + ">>>"@ + b, width, base) == Some(
            piece(SpanModel { text: a, tone: base, bold: false }) + piece(
                SpanModel { text: b, tone: Tone::Primary, bold: true },
            ),
        ),
{
    reveal_strlit(">>>");
    reveal_strlit("<<<");
    let s = a + ">>>"@ + b + "<<<"@ + c;
    let i = a.len() as int;
    text::lemma_find(s, ">>>"@, 0);
    text::lemma_find(a, ">>>"@, 0);
    assert(s.subrange(i, i + 3) == ">>>"@);
    assert(text::stands_at(s, ">>>"@, i));
    assert forall|j: int| 0 <= j < i implies !text::stands_at(s, ">>>"@, j) by {
        if text::stands_at(s, ">>>"@, j) {
            assert(s.subrange(j, j + 3)[0] == ">>>"@[0]);
            assert(s[j] == a[j]);
        }
    }
    assert(text::find_from(s, ">>>"@, 0) == Some(i));
    assert forall|j: int| 0 <= j implies !text::stands_at(a, ">>>"@, j) by {
        if text::stands_at(a, ">>>"@, j) {
            assert(a.subrange(j, j + 3)[0] == ">>>"@[0]);
            assert(a[j] == '>');
        }
    }
    assert(text::find_from(a, ">>>"@, 0) is None);
    assert(s.take(i) == a);
    let rest = s.skip(i + 3);
    assert(rest == b + "<<<"@ + c);
    let k = b.len() as int;
    text::lemma_find(rest, "<<<"@, 0);
    assert(rest.subrange(k, k + 3) == "<<<"@);
    assert(text::stands_at(rest, "<<<"@, k));
    assert forall|j: int| 0 <= j < k implies !text::stands_at(rest, "<<<"@, j) by {
        if text::stands_at(rest, "<<<"@, j) {
            assert(rest.subrange(j, j + 3)[0] == "<<<"@[0]);
            assert(rest[j] == b[j]);
        }
    }
    assert(text::find_from(rest, "<<<"@, 0) == Some(k));
    assert(rest.take(k) == b);
    assert(rest.skip(k + 3) == c);
    let open = a + ">>>"@ + b;
    text::lemma_find(open, ">>>"@, 0);
    assert(open.subrange(i, i + 3) == ">>>"@);
    assert(text::stands_at(open, ">>>"@, i));
    assert forall|j: int| 0 <= j < i implies !text::stands_at(open, ">>>"@, j) by {
        if text::stands_at(open, ">>>"@, j) {
            assert(open.subrange(j, j + 3)[0] == ">>>"@[0]);
            assert(open[j] == a[j]);
        }
    }
    assert(text::find_from(open, ">>>"@, 0) == Some(i));
    assert(open.take(i) == a);
    assert(open.skip(i + 3) == b);
    text::lemma_find(b, "<<<"@, 0);
    assert forall|j: int| 0 <= j implies !text::stands_at(b, "<<<"@, j) by {
        if text::stands_at(b, "<<<"@, j) {
            assert(b.subrange(j, j + 3)[0] == "<<<"@[0]);
            assert(b[j] == '<');
        }
    }
    assert(text::find_from(b, "<<<"@, 0) is None);
    text::law_first_bytes(a, width);
    text::law_first_bytes(b, (width - text::bytes_of(a)) as nat);
    if a.len() == 0 {
        assert(a == Seq::<char>::empty());
        assert(piece(SpanModel { text: a, tone: base, bold: false }) == Seq::<SpanModel>::empty());
    }
}

/// Every job that is not over is shown, in order, with its channel and title, as far as the pane is
/// wide, and with its stage: two jobs' lines are those of one and then those of the other.
pub proof fn law_active_shown(a: Seq<JobModel>, job: JobModel, width: u16)
    ensures
        active_jobs(Seq::empty(), width).len() == 0,
        job.state is Complete || job.state is Failed ==> active_jobs(a.push(job), width)
            == active_jobs(a, width),
        !(job.state is Complete || job.state is Failed) ==> {
            let own = active_job(job, width);
            &&& active_jobs(a.push(job), width) == active_jobs(a, width) + own
            &&& own.len() == 3
            &&& own[0] matches LineModel::Spans(s) && s.len() == 2 && s[1].text == text::at_most(
                job.channel_name + " - "@ + job.title,
                if width >= 6 {
                    width - 6
                } else {
                    0
                },
            )
            &&& job.error is None ==> screen::line_text(own[1]) == "    "@ + job.state.name()
                + "..."@
            &&& job.error matches Some(e) ==> screen::line_text(own[1]) == "    "@
                + job.state.name() + " - "@ + e
        },
{
    assert(a.push(job).drop_last() == a);
}

/// Of the jobs that are over, the first are shown, in order and as many as the limit allows: with a
/// tick exactly where they are complete.
pub proof fn law_over_shown(queue: Seq<JobModel>, limit: nat, width: u16)
    ensures
        ({
            let over = queue.filter(|j: JobModel| j.state is Complete || j.state is Failed);
            let lines = over_jobs(queue, limit, width);
            &&& lines.len() == if over.len() < limit {
                over.len()
            } else {
                limit
            }
            &&& forall|k: int|
                0 <= k < lines.len() ==> {
                    &&& #[trigger] lines[k] == over_job(over[k], width)
                    &&& lines[k] matches LineModel::Spans(s) && s.len() == 2 && s[0].text
                        == if over[k].state is Complete {
                        "  ✓ "@
                    } else {
                        "  ✗ "@
                    } && s[1].text == job_title(over[k], width)
                }
        }),
    decreases queue.len(),
{
    reveal(Seq::filter);
    let is_over = |j: JobModel| j.state is Complete || j.state is Failed;
    if queue.len() > 0 {
        let t = queue.drop_last();
        law_over_shown(t, limit, width);
        let before = t.filter(is_over);
        let over = queue.filter(is_over);
        let lines = over_jobs(queue, limit, width);
        assert forall|k: int| 0 <= k < lines.len() implies #[trigger] lines[k] == over_job(
            over[k],
            width,
        ) by {
            if k < over_jobs(t, limit, width).len() {
                assert(lines[k] == over_jobs(t, limit, width)[k]);
                assert(over[k] == before[k]);
            }
        }
    }
}

/// Every hit takes three lines, in order: where it is, with its title, its channel and its time, what
/// it says, highlighted and as far as the pane is wide, and a blank one. The hit in focus, and no
/// other, is marked and told with its speaker.
pub proof fn law_hits_shown(
    hits: Seq<HitModel>,
    secs: Seq<u64>,
    selected: nat,
    speaker: Option<Seq<char>>,
    width: u16,
    k: int,
)
    requires
        hits.len() <= secs.len(),
        all_hit_lines(hits, secs, selected, speaker, width) is Some,
        0 <= k < hits.len(),
    ensures
        ({
            let lines = all_hit_lines(hits, secs, selected, speaker, width)->0;
            &&& lines.len() == 3 * hits.len()
            &&& screen::line_text(lines[3 * k]) == (if k == selected {
                ">"@
            } else {
                " "@
            }) + hits[k].video_title + (" ("@ + hits[k].channel_name + ") "@) + ("["@
                + timestamp_of(secs[k] as nat) + "]"@)
            &&& lines[3 * k + 1] matches LineModel::Spans(said) && {
                let n = if k == selected && speaker is Some {
                    2int
                } else {
                    1
                };
                &&& highlighted(
                    hits[k].snippet,
                    if width >= 4 {
                        (width - 4) as nat
                    } else {
                        0
                    },
                    if k == selected {
                        Tone::Fg
                    } else {
                        Tone::Muted
                    },
                ) == Some(said.skip(n))
                &&& n == 2 ==> said[1].text == "["@ + speaker->0 + "] "@
            }
            &&& screen::line_text(lines[3 * k + 2]).len() == 0
        }),
    decreases hits.len(),
{
    reveal_strlit("");
    let t = hits.drop_last();
    let n = hits.len() - 1;
    let before = all_hit_lines(t, secs, selected, speaker, width)->0;
    let own = hit_lines(hits[n], secs[n], n == selected, speaker, width)->0;
    lemma_hit_count(t, secs, selected, speaker, width);
    screen::lemma_spans_text(own[0]->Spans_0);
    if k == n {
        let lead = if k == selected && speaker is Some {
            seq![
                screen::span("  "@, Tone::Plain),
                screen::span("["@ + speaker->0 + "] "@, Tone::Dim),
            ]
        } else {
            seq![screen::span("  "@, Tone::Plain)]
        };
        let more = highlighted(
            hits[n].snippet,
            screen::less(width, 4),
            if k == selected {
                Tone::Fg
            } else {
                Tone::Muted
            },
        )->0;
        assert(own[1] == LineModel::Spans(lead + more));
        assert((lead + more).skip(lead.len() as int) == more);
    }
    if k < n {
        law_hits_shown(t, secs, selected, speaker, width, k);
        assert(t[k] == hits[k]);
    }
}

proof fn lemma_hit_count(
    hits: Seq<HitModel>,
    secs: Seq<u64>,
    selected: nat,
    speaker: Option<Seq<char>>,
    width: u16,
)
    requires
        all_hit_lines(hits, secs, selected, speaker, width) is Some,
    ensures
        all_hit_lines(hits, secs, selected, speaker, width)->0.len() == 3 * hits.len(),
    decreases hits.len(),
{
    if hits.len() > 0 {
        lemma_hit_count(hits.drop_last(), secs, selected, speaker, width);
    }
}

/// However far the hits are scrolled, the one in focus, at three lines each, is in view.
pub proof fn law_hit_in_view(selected: nat, height: u16)
    requires
        height > 0,
    ensures
        result_scroll_of(selected, height) <= 3 * selected,
        3 * selected - result_scroll_of(selected, height) < height,
{
}

/// Topics are shown with commas between them, and no more than the first six.
pub proof fn law_topics_shown(topics: Seq<Seq<char>>)
    ensures
        screen::spans_text(topic_spans(topics)) == text::join(topics, ", "@),
        topics.len() <= 6 ==> shown_topics(topics) == topics,
        topics.len() > 6 ==> shown_topics(topics) == topics.take(6),
    decreases topics.len(),
{
    if topics.len() == 1 {
        screen::lemma_spans_text(topic_spans(topics));
    } else if topics.len() > 1 {
        let t = topics.drop_last();
        law_topics_shown(t);
        let more = seq![
            screen::span(", "@, Tone::Muted),
            screen::span(topics.last(), Tone::Primary),
        ];
        assert(topic_spans(topics) == topic_spans(t) + more);
        lemma_spans_text_add(topic_spans(t), more);
        screen::lemma_spans_text(more);
        let said = text::join(t, ", "@);
        assert(said + ", "@ + topics.last() == said + (", "@ + topics.last()));
    }
}

/// An analysis shows its summary, as much as two lines hold, its topics and its sentiment, green
/// exactly where it is positive and red exactly where it is negative; an unknown sentiment is not
/// shown. Where there is nothing to show it says so.
pub proof fn law_analysis_shown(a: AnalysisModel, width: u16)
    ensures
        ({
            let lines = analysis_lines_of(a, width);
            let known = a.sentiment != "unknown"@;
            let second = a.topics.len() > 0 || known;
            &&& a.summary.len() > 0 ==> screen::line_text(lines[0]) == " "@ + text::at_most(
                a.summary,
                2 * width,
            )
            &&& second ==> lines.last() == topic_line(a)
            &&& lines.len() == if a.summary.len() > 0 && second {
                2int
            } else {
                1
            }
            &&& a.summary.len() == 0 && !second ==> screen::line_text(lines[0])
                == "  No analysis available"@
            &&& screen::line_text(topic_line(a)) == " "@ + text::join(
                shown_topics(a.topics),
                ", "@,
            ) + (if a.topics.len() > 0 && known {
                "  "@
            } else {
                Seq::empty()
            }) + (if known {
                "("@ + a.sentiment + ")"@
            } else {
                Seq::empty()
            })
            &&& sentiment_tone_of(a.sentiment) is Green <==> a.sentiment == "positive"@
            &&& sentiment_tone_of(a.sentiment) is Red <==> a.sentiment == "negative"@
        }),
{
    reveal_strlit("positive");
    reveal_strlit("negative");
    assert("positive"@[0] != "negative"@[0]);
    law_topics_shown(shown_topics(a.topics));
    let topics = topic_spans(shown_topics(a.topics));
    let lead = seq![screen::span(" "@, Tone::Dim)];
    lemma_spans_text_add(lead, topics);
    screen::lemma_spans_text(lead);
    let known = a.sentiment != "unknown"@;
    let gap = if a.topics.len() > 0 && known {
        seq![screen::span("  "@, Tone::Dim)]
    } else {
        Seq::empty()
    };
    let end = if known {
        seq![screen::span("("@ + a.sentiment + ")"@, sentiment_tone_of(a.sentiment))]
    } else {
        Seq::empty()
    };
    assert(topic_line(a)->Spans_0 == lead + topics + gap + end);
    lemma_spans_text_add(lead + topics, gap);
    lemma_spans_text_add(lead + topics + gap, end);
    screen::lemma_spans_text(gap);
    screen::lemma_spans_text(end);
    if a.summary.len() > 0 {
        screen::lemma_spans_text(analysis_lines_of(a, width)[0]->Spans_0);
    }
}

proof fn lemma_spans_text_add(a: Seq<SpanModel>, b: Seq<SpanModel>)
    ensures
        screen::spans_text(a + b) == screen::spans_text(a) + screen::spans_text(b),
    decreases b.len(),
{
    if b.len() == 0 {
        assert(a + b == a);
        assert(screen::spans_text(a) + screen::spans_text(b) == screen::spans_text(a));
    } else {
        lemma_spans_text_add(a, b.drop_last());
        assert((a + b).drop_last() == a + b.drop_last());
        assert(screen::spans_text(a + b) == screen::spans_text(a) + screen::spans_text(b));
    }
}

/// The footer shows the last error, as far as the pane is wide; without one, how many jobs are not
/// over and how many are complete, as long as some are not over; and else the most frequent words.
pub proof fn law_footer_shown(
    error: Seq<char>,
    queue: Seq<JobModel>,
    words: Seq<(Seq<char>, i64)>,
    width: u16,
)
    ensures
        screen::spans_text(footer_of(Some(error), queue, words, width)) == " ⚠ "@ + text::at_most(
            error,
            if width >= 4 {
                width - 4
            } else {
                0
            },
        ),
        ({
            let pending = queue.filter(
                |j: JobModel| !(j.state is Complete) && !(j.state is Failed),
            ).len();
            let done = queue.filter(|j: JobModel| j.state is Complete).len();
            &&& pending > 0 ==> screen::spans_text(footer_of(None, queue, words, width))
                == " Queue: "@ + (number::decimal_of(pending) + " pending"@) + (" / "@
                + number::decimal_of(done) + " done"@)
            &&& pending == 0 && words.len() == 0 ==> footer_of(None, queue, words, width).len()
                == 0
            &&& pending == 0 && words.len() > 0 ==> footer_of(None, queue, words, width)[0].text
                == " Top: "@
        }),
{
    screen::lemma_spans_text(footer_of(Some(error), queue, words, width));
    screen::lemma_spans_text(footer_of(None, queue, words, width));
    lemma_counts(queue);
}

proof fn lemma_counts(queue: Seq<JobModel>)
    ensures
        model::pending_jobs(queue) == queue.filter(
            |j: JobModel| !(j.state is Complete) && !(j.state is Failed),
        ).len(),
        complete_jobs(queue) == queue.filter(|j: JobModel| j.state is Complete).len(),
    decreases queue.len(),
{
    reveal(Seq::filter);
    if queue.len() > 0 {
        lemma_counts(queue.drop_last());
    }
}

/// The words in the footer stand in order, each with its count and a comma before it but for the
/// first, as long as they fit: the next one is shown exactly where there is room for it.
pub proof fn law_words_shown(words: Seq<(Seq<char>, i64)>, k: int, used: nat, available: nat)
    requires
        0 <= k < words.len(),
    ensures
        ({
            let own = words[k].0 + "("@ + number::signed_of(words[k].1 as int) + ")"@;
            let size = text::bytes_of(
                if k > 0 {
                    ", "@ + own
                } else {
                    own
                },
            );
            let shown = word_spans(words, k, used, available);
            &&& used + size > available ==> shown.len() == 0
            &&& used + size <= available ==> screen::spans_text(shown) == (if k > 0 {
                ", "@
            } else {
                Seq::empty()
            }) + own + screen::spans_text(word_spans(words, k + 1, used + size, available))
        }),
{
    let own = word_entry(words[k]);
    let size = entry_bytes(words, k);
    if used + size <= available {
        let lead = (if k > 0 {
            seq![screen::span(", "@, Tone::Muted)]
        } else {
            Seq::empty()
        }).push(screen::span(own, Tone::Fg));
        let more = word_spans(words, k + 1, used + size, available);
        lemma_spans_text_add(lead, more);
        screen::lemma_spans_text(lead);
        assert(word_spans(words, k, used, available) == lead + more);
        assert(Seq::<char>::empty() + own == own);
    }
}

/// The settings show what the draft says, field by field, and every channel.
pub proof fn law_settings_shown(
    d: CrunchrConfigModel,
    channels: Seq<(Seq<char>, Seq<char>)>,
    focus: nat,
    editing: bool,
    i: int,
)
    ensures
        ({
            let lines = config_lines_of(d, channels, focus, editing);
            let value = |k: int| lines[k]->Spans_0[2].text;
            let label = |k: int| lines[k]->Spans_0[1].text;
            let shown = |k: int| lines[k]->Spans_0[0].text;
            &&& label(0) == "Enabled"@ + ": "@ && value(0) == if d.enabled {
                "Yes"@
            } else {
                "No"@
            }
            &&& label(1) == "Backend"@ + ": "@ && value(1) == d.backend
            &&& label(2) == "API Key Env"@ + ": "@ && value(2) == match d.api_key_env {
                Some(k) => k,
                None => ""@,
            }
            &&& label(3) == "Endpoint"@ + ": "@ && value(3) == match d.endpoint {
                Some(e) => e,
                None => ""@,
            }
            &&& label(4) == "Whisper Model"@ + ": "@ && value(4) == match d.whisper_model {
                Some(m) => m,
                None => "base"@,
            }
            &&& label(5) == "Analysis"@ + ": "@ && value(5) == if d.analysis.enabled {
                "Yes"@
            } else {
                "No"@
            }
            &&& 0 <= i < 6 ==> shown(i) == if focus == i {
                " > "@
            } else {
                "   "@
            }
            &&& 0 <= i < channels.len() ==> lines[8 + i] == screen::checkbox_line(
                channels[i].1,
                d.tandem_channels.contains(channels[i].0),
                focus == 6 + i,
            )
        }),
{
    if 0 <= i < channels.len() {
        screen::law_form_shown(
            "   Tandem Channels (auto-process on recording finish):"@,
            channels,
            d.tandem_channels,
            6,
            focus,
            i,
        );
    }
}

/// The properties of a recording show its status and its counts, and its analysis where there is
/// one; where nothing is known they say so.
pub proof fn law_properties_shown(i: RecordingInfoModel)
    ensures
        ({
            let lines = properties_of(Some(i));
            &&& screen::line_text(lines[2]) == "  Status:   "@ + i.status
            &&& screen::line_text(lines[3]) == "  Segments: "@ + number::decimal_of(
                i.segment_count as nat,
            )
            &&& screen::line_text(lines[4]) == "  Words:    "@ + number::decimal_of(
                i.word_count as nat,
            )
            &&& !i.has_analysis ==> lines.len() == 5
            &&& i.has_analysis ==> {
                &&& screen::line_text(lines[6]) == "  Analysis"@
                &&& i.summary matches Some(s) ==> screen::line_text(lines[7]) == "  "@ + s
                &&& i.sentiment matches Some(s) ==> screen::line_text(lines.last())
                    == "  Sentiment:"@ + (" "@ + s)
                &&& i.summary is Some && i.topics.len() > 0 ==> screen::line_text(lines[8])
                    == "  Topics:   "@ + text::join(i.topics, ", "@)
            }
            &&& properties_of(None).len() == 3
            &&& screen::line_text(properties_of(None)[2]) == "  Not processed"@
        }),
{
    let lines = properties_of(Some(i));
    screen::lemma_spans_text(lines[2]->Spans_0);
    screen::lemma_spans_text(lines[3]->Spans_0);
    screen::lemma_spans_text(lines[4]->Spans_0);
    if i.has_analysis {
        let own = analysis_properties(i);
        assert(lines.last() == own.last());
        if i.sentiment is Some {
            screen::lemma_spans_text(lines.last()->Spans_0);
        }
        if i.summary is Some && i.topics.len() > 0 {
            screen::lemma_spans_text(lines[8]->Spans_0);
        }
    }
}

/// The search bar shows the query, a cursor exactly while it is typed, and the mode where the pane
/// is wide.
pub proof fn law_search_bar_shown(query: Seq<char>, mode: SearchMode, active: bool, width: u16)
    ensures
        search_bar_of(query, mode, active, width) matches LineModel::Spans(s) && {
            &&& s[0].text == " / "@
            &&& s[1].text == query
            &&& s[2].text == if active {
                "▌"@
            } else {
                ""@
            }
            &&& width > 50 ==> s.len() == 8 && s[5].text == mode.name()
            &&& width <= 50 ==> s.len() == 4
        },
{
}

/// The queue shows the jobs that are not over, then those that are, all of the lines of both, under a
/// heading. With nothing to search, the first five of those that are over are shown, or advice where
/// there are no jobs.
pub proof fn law_queue_shown(queue: Seq<JobModel>, limit: nat, width: u16)
    ensures
        ({
            let lines = queue_lines_of(queue, limit, width);
            let a = active_jobs(queue, width);
            let b = over_jobs(queue, limit, width);
            &&& lines.len() == 3 + a.len() + b.len() + 2
            &&& screen::line_text(lines[1]) == "  Processing Pipeline"@
            &&& lines.subrange(3, 3int + a.len()) == a
            &&& lines.subrange(3int + a.len(), 3int + a.len() + b.len()) == b
        }),
        queue.len() > 0 ==> idle_content(queue, width) == queue_lines_of(queue, 5, width),
        queue.len() == 0 ==> idle_content(queue, width) == no_transcripts(),
{
    let lines = queue_lines_of(queue, limit, width);
    let a = active_jobs(queue, width);
    let b = over_jobs(queue, limit, width);
    assert(lines.subrange(3, 3int + a.len()) == a);
    assert(lines.subrange(3int + a.len(), 3int + a.len() + b.len()) == b);
}

} // verus!
