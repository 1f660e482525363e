//! How a recording picker is drawn.
use vstd::prelude::*;

use std::collections::HashSet;

use crate::host;
use crate::host::{find_recording, RecordingInfo, RecordingModel};
use crate::number;
use crate::picker::{FilterModel, PickerModel, PickerState, RecordingFilter};
use crate::screen;
use crate::screen::{add_line, add_span, no_lines, no_spans, Line, LineModel, Span, Tone};
use crate::text;

verus! {

/// The name of a filter.
pub open spec fn filter_label_of(f: FilterModel) -> Seq<char> {
    match f {
        FilterModel::All => "All"@,
        FilterModel::ByChannel(c) => "Channel: "@ + c,
        FilterModel::ByPlaylist(p) => "Playlist: "@ + p,
    }
}

/// The name of a filter.
pub fn filter_label(f: &RecordingFilter) -> (r: String)
    ensures
        r@ == filter_label_of(f.deep_view()),
{
    match f {
        RecordingFilter::All => "All".to_owned(),
        RecordingFilter::ByChannel(c) => text::cat("Channel: ", c.as_str()),
        RecordingFilter::ByPlaylist(p) => text::cat("Playlist: ", p.as_str()),
    }
}

/// The title of a picker's pane: whose it is, and the filter.
pub fn picker_title(owner: &str, f: &RecordingFilter) -> (r: String)
    ensures
        r@ == " "@ + owner@ + " Picker ["@ + filter_label_of(f.deep_view()) + "] "@,
{
    let mut out = text::cat3(" ", owner, " Picker [");
    let label = filter_label(f);
    out.append(label.as_str());
    out.append("] ");
    out
}

/// The recordings of `ids` that the host knows, in order.
pub open spec fn known(ids: Seq<u128>, all: Seq<RecordingModel>) -> Seq<RecordingModel>
    decreases ids.len(),
{
    if ids.len() == 0 {
        Seq::empty()
    } else {
        match host::recording_with(all, ids.last()) {
            Some(r) => known(ids.drop_last(), all).push(r),
            None => known(ids.drop_last(), all),
        }
    }
}

/// The row of a recording.
pub open spec fn recording_line(r: RecordingModel, focused: bool, checked: bool) -> LineModel {
    let mark = if focused {
        ">"@
    } else {
        " "@
    };
    LineModel::Spans(
        seq![
            if checked {
                screen::span(mark + " [x] "@, Tone::Green)
            } else {
                screen::span(mark + " [ ] "@, Tone::Dim)
            },
            screen::span(r.channel_name, Tone::Secondary),
            screen::span(" "@, Tone::Plain),
            if focused {
                screen::bold(host::title_of(r), Tone::Primary)
            } else {
                screen::span(host::title_of(r), Tone::Fg)
            },
        ],
    )
}

/// The rows of a picker, or what stands in for them where it lists nothing.
pub open spec fn picker_lines_of(
    p: PickerModel,
    all: Seq<RecordingModel>,
    none: Seq<char>,
    advice: Seq<char>,
) -> Seq<LineModel> {
    let rows = known(p.visible, all);
    if rows.len() == 0 {
        seq![
            screen::blank(),
            screen::line(none, Tone::Muted),
            screen::blank(),
            screen::line(advice, Tone::Dim),
        ]
    } else {
        Seq::new(
            rows.len(),
            |i: int|
                recording_line(rows[i], i == p.selected, p.selections.contains(rows[i].id)),
        )
    }
}

/// The row of a recording.
fn recording_row(r: &RecordingInfo, focused: bool, checked: bool) -> (l: Line)
    ensures
        l.deep_view() == recording_line(r.deep_view(), focused, checked),
{
    let mark = if focused {
        ">"
    } else {
        " "
    };
    let first = if checked {
        let t = text::cat(mark, " [x] ");
        Span::of(t.as_str(), Tone::Green)
    } else {
        let t = text::cat(mark, " [ ] ");
        Span::of(t.as_str(), Tone::Dim)
    };
    let title = r.title();
    let tone = if focused {
        Tone::Primary
    } else {
        Tone::Fg
    };
    let mut spans = no_spans();
    add_span(&mut spans, first);
    add_span(&mut spans, Span::of(r.channel_name.as_str(), Tone::Secondary));
    add_span(&mut spans, Span::of(" ", Tone::Plain));
    add_span(&mut spans, Span::styled(title.as_str(), tone, focused));
    let l = Line::Spans(spans);
    assert(l.deep_view() == recording_line(r.deep_view(), focused, checked));
    l
}

/// The rows of a picker, or what stands in for them where it lists nothing.
pub fn picker_lines(p: &PickerState, all: &Vec<RecordingInfo>, none: &str, advice: &str) -> (r: Vec<
    Line,
>)
    ensures
        r.deep_view() == picker_lines_of(p.deep_view(), all.deep_view(), none@, advice@),
{
    let ghost recs = all.deep_view();
    let ghost ids = p.visible_ids@;
    let ghost model = p.deep_view();
    let mut out = no_lines();
    let mut n: usize = 0;
    let mut i: usize = 0;
    assert(ids.take(0) == Seq::<u128>::empty());
    while i < p.visible_ids.len()
        invariant
            n <= i <= p.visible_ids.len(),
            recs == all.deep_view(),
            ids == p.visible_ids@,
            model == p.deep_view(),
            n == known(ids.take(i as int), recs).len(),
            out.deep_view() == Seq::new(
                n as nat,
                |k: int|
                    recording_line(
                        known(ids.take(i as int), recs)[k],
                        k == model.selected,
                        model.selections.contains(known(ids.take(i as int), recs)[k].id),
                    ),
            ),
        decreases p.visible_ids.len() - i,
    {
        let ghost now = known(ids.take(i + 1), recs);
        let ghost before = known(ids.take(i as int), recs);
        assert(ids.take(i + 1).drop_last() == ids.take(i as int));
        assert(ids.take(i + 1).last() == ids[i as int]);
        match find_recording(all, p.visible_ids[i]) {
            Some(rec) => {
                let checked = p.selections.contains(&rec.id);
                add_line(&mut out, recording_row(rec, n == p.selected, checked));
                n = n + 1;
                assert(now == before.push(rec.deep_view()));
            },
            None => {},
        }
        assert(out.deep_view() == Seq::new(
            n as nat,
            |k: int|
                recording_line(now[k], k == model.selected, model.selections.contains(now[k].id)),
        ));
        i = i + 1;
    }
    assert(ids.take(ids.len() as int) == ids);
    if n == 0 {
        let mut stand_in = no_lines();
        add_line(&mut stand_in, Line::blank());
        add_line(&mut stand_in, Line::of(none, Tone::Muted));
        add_line(&mut stand_in, Line::blank());
        add_line(&mut stand_in, Line::of(advice, Tone::Dim));
        assert(stand_in.deep_view() == picker_lines_of(model, recs, none@, advice@));
        return stand_in;
    }
    assert(out.deep_view() == picker_lines_of(model, recs, none@, advice@));
    out
}

/// The hint below a picker, where Enter does what `verb` says.
pub open spec fn picker_hint_of(selected: nat, verb: Seq<char>) -> Seq<char> {
    if selected > 0 {
        " "@ + number::decimal_of(selected) + " selected  [Enter] "@ + verb
            + "  [Space] Toggle  [f] Filter  [a] Select all  [Esc] Back"@
    } else {
        " [Enter] "@ + verb
            + "  [Space] Select  [f] Filter  [a] Select all  [Tab] Views  [Esc] Back"@
    }
}

/// The hint below a picker.
pub fn picker_hint(selections: &HashSet<u128>, verb: &str) -> (r: String)
    ensures
        r@ == picker_hint_of(selections@.len(), verb@),
{
    let n: usize = selections.len();
    if n > 0 {
        let count = number::decimal(n as u64);
        let mut out = text::cat3(" ", count.as_str(), " selected  [Enter] ");
        out.append(verb);
        out.append("  [Space] Toggle  [f] Filter  [a] Select all  [Esc] Back");
        out
    } else {
        text::cat3(
            " [Enter] ",
            verb,
            "  [Space] Select  [f] Filter  [a] Select all  [Tab] Views  [Esc] Back",
        )
    }
}

/// The picker shows a row for every listed recording that the host knows, in the order of the list:
/// its channel and its title, a cross exactly where it is selected, and a marker exactly on the row
/// in focus. Where there is no row it says so.
pub proof fn law_rows_shown(
    p: PickerModel,
    all: Seq<RecordingModel>,
    none: Seq<char>,
    advice: Seq<char>,
    i: int,
)
    ensures
        ({
            let rows = known(p.visible, all);
            let lines = picker_lines_of(p, all, none, advice);
            &&& rows.len() > 0 ==> lines.len() == rows.len()
            &&& 0 <= i < rows.len() ==> screen::line_text(lines[i]) == ((if i == p.selected {
                ">"@
            } else {
                " "@
            }) + (if p.selections.contains(rows[i].id) {
                " [x] "@
            } else {
                " [ ] "@
            })) + rows[i].channel_name + " "@ + host::title_of(rows[i])
            &&& rows.len() == 0 ==> lines.len() == 4 && screen::line_text(lines[1]) == none
                && screen::line_text(lines[3]) == advice
        }),
{
    let rows = known(p.visible, all);
    if 0 <= i < rows.len() {
        let l = recording_line(rows[i], i == p.selected, p.selections.contains(rows[i].id));
        screen::lemma_spans_text(l->Spans_0);
        assert(picker_lines_of(p, all, none, advice)[i] == l);
    }
}

/// The rows are those of the ids, in order: each known recording has one, and an unknown one none.
pub proof fn law_known(ids: Seq<u128>, id: u128, all: Seq<RecordingModel>)
    ensures
        known(Seq::empty(), all).len() == 0,
        host::recording_with(all, id) matches Some(r) ==> known(ids.push(id), all) == known(
            ids,
            all,
        ).push(r),
        host::recording_with(all, id) is None ==> known(ids.push(id), all) == known(ids, all),
{
    assert(ids.push(id).drop_last() == ids);
}

/// The hint tells how many recordings are selected, if any are, and what Enter does.
pub proof fn law_hint(selected: nat, verb: Seq<char>)
    ensures
        ({
            let lead = if selected > 0 {
                " "@ + number::decimal_of(selected) + " selected  [Enter] "@ + verb
            } else {
                " [Enter] "@ + verb
            };
            text::stands_at(picker_hint_of(selected, verb), lead, 0)
        }),
{
    let lead = if selected > 0 {
        " "@ + number::decimal_of(selected) + " selected  [Enter] "@ + verb
    } else {
        " [Enter] "@ + verb
    };
    assert(picker_hint_of(selected, verb).subrange(0, lead.len() as int) == lead);
}

/// A filter is called by what it lets pass: the key of the channel or the name of the playlist.
pub proof fn law_filter_named(f: FilterModel, key: Seq<char>)
    ensures
        f is All ==> filter_label_of(f) == "All"@,
        filter_label_of(FilterModel::ByChannel(key)) == "Channel: "@ + key,
        filter_label_of(FilterModel::ByPlaylist(key)) == "Playlist: "@ + key,
{
}

} // verus!
