//! What is drawn: lines of styled text, free of any drawing library.
use vstd::prelude::*;

use crate::text;

verus! {

/// The colours of the host's theme; `Plain` is the terminal's own.
#[derive(Clone, Copy, Debug, PartialEq, Eq, Structural)]
pub enum Tone {
    Plain,
    Primary,
    Secondary,
    Fg,
    Dim,
    Muted,
    Green,
    Red,
}

/// A piece of text in one style.
#[derive(Debug)]
pub struct Span {
    pub text: String,
    pub tone: Tone,
    pub bold: bool,
}

#[verifier::ext_equal]
pub struct SpanModel {
    pub text: Seq<char>,
    pub tone: Tone,
    pub bold: bool,
}

impl DeepView for Span {
    type V = SpanModel;

    open spec fn deep_view(&self) -> SpanModel {
        SpanModel { text: self.text@, tone: self.tone, bold: self.bold }
    }
}

/// A line.
#[derive(Debug)]
pub enum Line {
    /// One text, in a style that holds for the whole line.
    Whole(Span),
    /// Pieces, each in its style.
    Spans(Vec<Span>),
}

#[verifier::ext_equal]
pub enum LineModel {
    Whole(SpanModel),
    Spans(Seq<SpanModel>),
}

impl DeepView for Line {
    type V = LineModel;

    open spec fn deep_view(&self) -> LineModel {
        match self {
            Line::Whole(s) => LineModel::Whole(s.deep_view()),
            Line::Spans(all) => LineModel::Spans(all.deep_view()),
        }
    }
}

/// A piece of text in a colour.
pub open spec fn span(text: Seq<char>, tone: Tone) -> SpanModel {
    SpanModel { text, tone, bold: false }
}

/// A piece of text in a colour, bold.
pub open spec fn bold(text: Seq<char>, tone: Tone) -> SpanModel {
    SpanModel { text, tone, bold: true }
}

/// An empty line.
pub open spec fn blank() -> LineModel {
    LineModel::Whole(span(""@, Tone::Plain))
}

/// A line of one text in a colour.
pub open spec fn line(text: Seq<char>, tone: Tone) -> LineModel {
    LineModel::Whole(span(text, tone))
}

/// A line of one text in a colour, bold.
pub open spec fn heading(text: Seq<char>, tone: Tone) -> LineModel {
    LineModel::Whole(bold(text, tone))
}

impl Span {
    /// A piece of text in a colour.
    pub fn of(text: &str, tone: Tone) -> (r: Span)
        ensures
            r.deep_view() == span(text@, tone),
    {
        Span { text: text.to_owned(), tone, bold: false }
    }

    /// A piece of text in a colour, bold if asked for.
    pub fn styled(text: &str, tone: Tone, bold: bool) -> (r: Span)
        ensures
            r.deep_view() == (SpanModel { text: text@, tone, bold }),
    {
        Span { text: text.to_owned(), tone, bold }
    }
}

impl Line {
    /// An empty line.
    pub fn blank() -> (r: Line)
        ensures
            r.deep_view() == blank(),
    {
        Line::Whole(Span::of("", Tone::Plain))
    }

    /// A line of one text in a colour.
    pub fn of(text: &str, tone: Tone) -> (r: Line)
        ensures
            r.deep_view() == line(text@, tone),
    {
        Line::Whole(Span::of(text, tone))
    }

    /// A line of one text in a colour, bold.
    pub fn heading(text: &str, tone: Tone) -> (r: Line)
        ensures
            r.deep_view() == heading(text@, tone),
    {
        Line::Whole(Span::styled(text, tone, true))
    }
}

/// Puts a piece behind others.
pub fn add_span(out: &mut Vec<Span>, s: Span)
    ensures
        final(out).deep_view() == old(out).deep_view().push(s.deep_view()),
{
    let ghost before = out.deep_view();
    let ghost m = s.deep_view();
    out.push(s);
    assert(out.deep_view() == before.push(m));
}

/// Puts a line behind others.
pub fn add_line(out: &mut Vec<Line>, l: Line)
    ensures
        final(out).deep_view() == old(out).deep_view().push(l.deep_view()),
{
    let ghost before = out.deep_view();
    let ghost m = l.deep_view();
    out.push(l);
    assert(out.deep_view() == before.push(m));
}

/// No pieces.
pub fn no_spans() -> (r: Vec<Span>)
    ensures
        r.deep_view() == Seq::<SpanModel>::empty(),
{
    let r: Vec<Span> = Vec::new();
    assert(r.deep_view() == Seq::<SpanModel>::empty());
    r
}

/// No lines.
pub fn no_lines() -> (r: Vec<Line>)
    ensures
        r.deep_view() == Seq::<LineModel>::empty(),
{
    let r: Vec<Line> = Vec::new();
    assert(r.deep_view() == Seq::<LineModel>::empty());
    r
}

/// `width` less `n`, 0 at least.
pub open spec fn less(width: u16, n: nat) -> nat {
    if width >= n {
        (width - n) as nat
    } else {
        0
    }
}

// ---------------------------------------------------------------------------
// Fields of a settings form
// ---------------------------------------------------------------------------

/// A field of a form: a marker where it is in focus, its label, its value, a cursor where it is
/// edited.
pub open spec fn field_line(
    label: Seq<char>,
    value: Seq<char>,
    toggle: bool,
    focused: bool,
    editing: bool,
) -> LineModel {
    let own = focused && editing && !toggle;
    let tone = if focused {
        Tone::Primary
    } else {
        Tone::Fg
    };
    LineModel::Spans(
        seq![
            SpanModel {
                text: if focused {
                    " > "@
                } else {
                    "   "@
                },
                tone,
                bold: focused,
            },
            SpanModel { text: label + ": "@, tone, bold: focused },
            SpanModel {
                text: value,
                tone: if own {
                    Tone::Secondary
                } else {
                    Tone::Dim
                },
                bold: own,
            },
            if own {
                span("▌"@, Tone::Primary)
            } else {
                span(""@, Tone::Plain)
            },
        ],
    )
}

/// A field of a form.
pub fn field(label: &str, value: &str, toggle: bool, focused: bool, editing: bool) -> (r: Line)
    ensures
        r.deep_view() == field_line(label@, value@, toggle, focused, editing),
{
    let own = focused && editing && !toggle;
    let tone = if focused {
        Tone::Primary
    } else {
        Tone::Fg
    };
    let prefix = if focused {
        " > "
    } else {
        "   "
    };
    let name = text::cat(label, ": ");
    let value_tone = if own {
        Tone::Secondary
    } else {
        Tone::Dim
    };
    let cursor = if own {
        Span::of("▌", Tone::Primary)
    } else {
        Span::of("", Tone::Plain)
    };
    let mut spans = no_spans();
    add_span(&mut spans, Span::styled(prefix, tone, focused));
    add_span(&mut spans, Span::styled(name.as_str(), tone, focused));
    add_span(&mut spans, Span::styled(value, value_tone, own));
    add_span(&mut spans, cursor);
    let r = Line::Spans(spans);
    assert(r.deep_view() == field_line(label@, value@, toggle, focused, editing));
    r
}

/// A checkbox of a form.
pub open spec fn checkbox_line(shown: Seq<char>, checked: bool, focused: bool) -> LineModel {
    let tone = if focused {
        Tone::Primary
    } else if checked {
        Tone::Green
    } else {
        Tone::Fg
    };
    LineModel::Spans(
        seq![
            SpanModel {
                text: if focused {
                    " > "@
                } else {
                    "   "@
                },
                tone,
                bold: focused,
            },
            if checked {
                span("[x] "@, Tone::Green)
            } else {
                span("[ ] "@, Tone::Dim)
            },
            SpanModel { text: shown, tone, bold: focused },
        ],
    )
}

/// A checkbox of a form.
pub fn checkbox(shown: &str, checked: bool, focused: bool) -> (r: Line)
    ensures
        r.deep_view() == checkbox_line(shown@, checked, focused),
{
    let tone = if focused {
        Tone::Primary
    } else if checked {
        Tone::Green
    } else {
        Tone::Fg
    };
    let prefix = if focused {
        " > "
    } else {
        "   "
    };
    let check = if checked {
        Span::of("[x] ", Tone::Green)
    } else {
        Span::of("[ ] ", Tone::Dim)
    };
    let mut spans = no_spans();
    add_span(&mut spans, Span::styled(prefix, tone, focused));
    add_span(&mut spans, check);
    add_span(&mut spans, Span::styled(shown, tone, focused));
    let r = Line::Spans(spans);
    assert(r.deep_view() == checkbox_line(shown@, checked, focused));
    r
}

/// The checkboxes of channels, the first of which is field `from` of the form.
pub open spec fn checkbox_lines(
    channels: Seq<(Seq<char>, Seq<char>)>,
    checked: Seq<Seq<char>>,
    from: nat,
    focus: nat,
) -> Seq<LineModel> {
    Seq::new(
        channels.len(),
        |i: int| checkbox_line(channels[i].1, checked.contains(channels[i].0), from + i == focus),
    )
}

/// The button that saves a form.
pub open spec fn save_line(focused: bool) -> LineModel {
    if focused {
        heading("   [ Save ]"@, Tone::Primary)
    } else {
        line("     Save"@, Tone::Secondary)
    }
}

/// The part of a form behind its static fields: the channels under their header, if there are
/// any, then the button that saves.
pub open spec fn form_tail(
    header: Seq<char>,
    channels: Seq<(Seq<char>, Seq<char>)>,
    checked: Seq<Seq<char>>,
    from: nat,
    focus: nat,
) -> Seq<LineModel> {
    let top = if channels.len() > 0 {
        seq![blank(), line(header, Tone::Secondary)]
    } else {
        Seq::empty()
    };
    (top + checkbox_lines(channels, checked, from, focus)).push(blank()).push(
        save_line(from + channels.len() == focus),
    )
}

/// Puts the part of a form behind its static fields behind `out`.
pub fn add_form_tail(
    out: &mut Vec<Line>,
    header: &str,
    channels: &Vec<(String, String)>,
    checked: &Vec<String>,
    from: usize,
    focus: usize,
)
    requires
        from + channels.len() <= usize::MAX,
    ensures
        final(out).deep_view() == old(out).deep_view() + form_tail(
            header@,
            channels.deep_view(),
            checked.deep_view(),
            from as nat,
            focus as nat,
        ),
{
    let ghost start = out.deep_view();
    let ghost all = channels.deep_view();
    let ghost boxes = checkbox_lines(all, checked.deep_view(), from as nat, focus as nat);
    if channels.len() > 0 {
        add_line(out, Line::blank());
        add_line(out, Line::of(header, Tone::Secondary));
    }
    let ghost top = if all.len() > 0 {
        seq![blank(), line(header@, Tone::Secondary)]
    } else {
        Seq::empty()
    };
    assert(out.deep_view() == start + top);
    assert(boxes.take(0) == Seq::<LineModel>::empty());
    assert(out.deep_view() == start + top + boxes.take(0));
    let mut i: usize = 0;
    while i < channels.len()
        invariant
            i <= channels.len(),
            from + channels.len() <= usize::MAX,
            all == channels.deep_view(),
            boxes == checkbox_lines(all, checked.deep_view(), from as nat, focus as nat),
            out.deep_view() == start + top + boxes.take(i as int),
        decreases channels.len() - i,
    {
        let ghost before = out.deep_view();
        assert(all[i as int] == channels[i as int].deep_view());
        let on = text::holds(checked, channels[i].0.as_str());
        let l = checkbox(channels[i].1.as_str(), on, from + i == focus);
        assert(l.deep_view() == boxes[i as int]);
        add_line(out, l);
        assert(boxes.take(i + 1) == boxes.take(i as int).push(boxes[i as int]));
        assert(out.deep_view() == start + top + boxes.take(i + 1));
        i = i + 1;
    }
    assert(boxes.take(channels.len() as int) == boxes);
    add_line(out, Line::blank());
    let l = if from + channels.len() == focus {
        Line::heading("   [ Save ]", Tone::Primary)
    } else {
        Line::of("     Save", Tone::Secondary)
    };
    add_line(out, l);
    assert(out.deep_view() == start + form_tail(
        header@,
        all,
        checked.deep_view(),
        from as nat,
        focus as nat,
    ));
}

/// How far a form is scrolled to keep the field in focus in view.
pub open spec fn form_scroll_of(focus: nat, height: u16) -> nat {
    if focus > height {
        (focus - height / 2) as nat
    } else {
        0
    }
}

/// How far a form is scrolled to keep the field in focus in view.
pub fn form_scroll(focus: usize, height: u16) -> (r: usize)
    ensures
        r == form_scroll_of(focus as nat, height),
{
    if focus > height as usize {
        focus - height as usize / 2
    } else {
        0
    }
}

// ---------------------------------------------------------------------------
// What a reader sees
// ---------------------------------------------------------------------------

/// The text of pieces, one behind the other.
pub open spec fn spans_text(spans: Seq<SpanModel>) -> Seq<char>
    decreases spans.len(),
{
    if spans.len() == 0 {
        Seq::empty()
    } else {
        spans_text(spans.drop_last()) + spans.last().text
    }
}

/// The text of a line.
pub open spec fn line_text(l: LineModel) -> Seq<char> {
    match l {
        LineModel::Whole(s) => s.text,
        LineModel::Spans(all) => spans_text(all),
    }
}

pub proof fn lemma_spans_text(s: Seq<SpanModel>)
    ensures
        s.len() == 1 ==> spans_text(s) == s[0].text,
        s.len() == 2 ==> spans_text(s) == s[0].text + s[1].text,
        s.len() == 3 ==> spans_text(s) == s[0].text + s[1].text + s[2].text,
        s.len() == 4 ==> spans_text(s) == s[0].text + s[1].text + s[2].text + s[3].text,
    decreases s.len(),
{
    if 0 < s.len() <= 4 {
        lemma_spans_text(s.drop_last());
        if s.len() == 1 {
            assert(spans_text(s.drop_last()) == Seq::<char>::empty());
            assert(spans_text(s) == s[0].text);
        }
    }
}

/// A field shows its label and its value; a marker stands before the one in focus and before no
/// other, and a cursor behind the one that is edited and behind no other.
pub proof fn law_field_shown(
    label: Seq<char>,
    value: Seq<char>,
    toggle: bool,
    focused: bool,
    editing: bool,
)
    ensures
        line_text(field_line(label, value, toggle, focused, editing)) == (if focused {
            " > "@
        } else {
            "   "@
        }) + (label + ": "@) + value + (if focused && editing && !toggle {
            "▌"@
        } else {
            ""@
        }),
{
    lemma_spans_text(field_line(label, value, toggle, focused, editing)->Spans_0);
}

/// A checkbox shows its text, a cross exactly where it is checked, and a marker exactly where it is
/// in focus.
pub proof fn law_checkbox_shown(shown: Seq<char>, checked: bool, focused: bool)
    ensures
        line_text(checkbox_line(shown, checked, focused)) == (if focused {
            " > "@
        } else {
            "   "@
        }) + (if checked {
            "[x] "@
        } else {
            "[ ] "@
        }) + shown,
{
    lemma_spans_text(checkbox_line(shown, checked, focused)->Spans_0);
}

/// A form shows every channel, in order under the header, checked exactly where its key is listed;
/// the button that saves comes last. At most one line is in focus: the one whose field is.
pub proof fn law_form_shown(
    header: Seq<char>,
    channels: Seq<(Seq<char>, Seq<char>)>,
    checked: Seq<Seq<char>>,
    from: nat,
    focus: nat,
    i: int,
)
    requires
        0 <= i < channels.len(),
    ensures
        ({
            let lines = form_tail(header, channels, checked, from, focus);
            &&& lines.len() == channels.len() + 4
            &&& line_text(lines[1]) == header
            &&& lines[i + 2] == checkbox_line(
                channels[i].1,
                checked.contains(channels[i].0),
                focus == from + i,
            )
            &&& focus == from + channels.len() ==> line_text(lines.last()) == "   [ Save ]"@
            &&& focus != from + channels.len() ==> line_text(lines.last()) == "     Save"@
        }),
{
}

/// However far a form is scrolled, the field in focus is in view: it is not above the first line
/// shown, nor more than the height below it.
pub proof fn law_form_in_view(focus: nat, height: u16)
    ensures
        form_scroll_of(focus, height) <= focus,
        focus - form_scroll_of(focus, height) <= height,
        focus <= height ==> form_scroll_of(focus, height) == 0,
{
}

} // verus!
