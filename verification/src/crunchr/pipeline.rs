//! From transcript segments to searchable chunks and word counts.
use vstd::prelude::*;

use crate::crunchr::transcribe::{TranscriptionModel, TranscriptionResult};
use crate::crunchr::types::{
    ChunkData, ChunkModel, EventModel, PipelineEvent, Segment, SegmentModel,
};
use crate::number::Double;
use crate::text;
use crate::text::{join_range, joined, split_words, trimmed};

verus! {

// ---------------------------------------------------------------------------
// Tokens, normal form, sentences
// ---------------------------------------------------------------------------

/// Tokens of a text: its words over three quarters, rounded up.
pub open spec fn tokens(s: Seq<char>) -> nat {
    ((4 * text::words(s).len() + 2) / 3) as nat
}

/// Estimate token count (~words / 0.75).
pub fn estimate_tokens(text: &str) -> (r: usize)
    ensures
        r == tokens(text@),
{
    let ws = split_words(text);
    let n: usize = ws.len();
    let chars = crate::text::chars_of(text);
    proof {
        text::lemma_words(text@);
        assert(ws.deep_view().len() == n);
        assert(2 * n <= chars.len() + 1);
    }
    let third: usize = n / 3;
    if n % 3 == 0 {
        n + third
    } else {
        n + third + 1
    }
}

/// `s` with every run of white space collapsed to one space and none around it.
pub open spec fn normal(s: Seq<char>) -> Seq<char> {
    text::join(text::words(s), " "@)
}

/// Normalize text: collapse whitespace.
pub fn normalize_text(text: &str) -> (r: String)
    ensures
        r@ == normal(text@),
{
    let ws = split_words(text);
    joined(&ws, " ")
}

/// A character that ends a sentence.
pub open spec fn stop(c: char) -> bool {
    c == '.' || c == '!' || c == '?'
}

/// The text behind the last sentence end of `s`.
pub open spec fn unfinished(s: Seq<char>) -> Seq<char>
    decreases s.len(),
{
    if s.len() == 0 || stop(s.last()) {
        Seq::empty()
    } else {
        unfinished(s.drop_last()).push(s.last())
    }
}

/// The finished sentences of `s`, each trimmed, each up to and with its end.
pub open spec fn finished(s: Seq<char>) -> Seq<Seq<char>>
    decreases s.len(),
{
    if s.len() == 0 {
        Seq::empty()
    } else if stop(s.last()) {
        finished(s.drop_last()).push(text::trim(unfinished(s.drop_last()).push(s.last())))
    } else {
        finished(s.drop_last())
    }
}

/// The sentences of `s`: the finished ones, then what is left if it is not blank. A text that is
/// blank but not empty is its own only sentence.
pub open spec fn sentences(s: Seq<char>) -> Seq<Seq<char>> {
    let rest = text::trim(unfinished(s));
    let all = if rest.len() > 0 {
        finished(s).push(rest)
    } else {
        finished(s)
    };
    if all.len() == 0 && s.len() > 0 {
        seq![s]
    } else {
        all
    }
}

/// Split text into sentences on .!? boundaries.
pub fn split_sentences(text: &str) -> (r: Vec<String>)
    ensures
        r.deep_view() == sentences(text@),
{
    let mut out: Vec<String> = Vec::new();
    let mut current: String = String::new();
    for ch in it: text.chars()
        invariant
            it.seq() == text@,
            out.deep_view() == finished(text@.take(it.index())),
            current@ == unfinished(text@.take(it.index())),
    {
        let ghost i = it.index();
        let ghost before = out.deep_view();
        assert(text@.take(i + 1).drop_last() == text@.take(i));
        assert(text@.take(i + 1).last() == ch);
        current.push(ch);
        if ch == '.' || ch == '!' || ch == '?' {
            let sentence = trimmed(current.as_str());
            proof {
                text::lemma_trim_empty(current@);
                text::lemma_ink_push(unfinished(text@.take(i)), ch);
            }
            if !sentence.as_str().is_empty() {
                let ghost said = sentence@;
                out.push(sentence);
                assert(out.deep_view() == before.push(said));
                current = String::new();
            }
        }
    }
    assert(text@.take(text@.len() as int) == text@);
    let rest = trimmed(current.as_str());
    if !rest.as_str().is_empty() {
        let ghost before = out.deep_view();
        let ghost said = rest@;
        out.push(rest);
        assert(out.deep_view() == before.push(said));
    }
    if out.len() == 0 && !text.is_empty() {
        out.push(text.to_owned());
        assert(out.deep_view() == seq![text@]);
    }
    out
}

// ---------------------------------------------------------------------------
// Chunks
// ---------------------------------------------------------------------------

/// A piece of a transcript, sized for search.
#[derive(Debug, Clone)]
pub struct Chunk {
    pub text: String,
    pub start_sec: Double,
    pub end_sec: Double,
    pub token_count: usize,
}

impl DeepView for Chunk {
    type V = ChunkModel;

    open spec fn deep_view(&self) -> ChunkModel {
        ChunkModel {
            text: self.text@,
            start_sec: self.start_sec,
            end_sec: self.end_sec,
            token_count: self.token_count as nat,
        }
    }
}

/// The chunker between two segments: the chunks it has made, and the texts it holds for the next
/// one, with where they start and how many tokens they count.
pub struct Chunker {
    pub made: Seq<ChunkModel>,
    pub held: Seq<Seq<char>>,
    pub start: Double,
    pub count: nat,
}

impl Chunker {
    /// The held texts as one text.
    pub open spec fn held_text(self) -> Seq<char> {
        normal(text::join(self.held, " "@))
    }

    /// The held texts go out as one chunk that ends at `end`.
    pub open spec fn flush(self, end: Double) -> Chunker {
        Chunker {
            made: self.made.push(
                ChunkModel {
                    text: self.held_text(),
                    start_sec: self.start,
                    end_sec: end,
                    token_count: self.count,
                },
            ),
            held: Seq::empty(),
            start: end,
            count: 0,
        }
    }

    /// The held texts go out up to the sentence that reaches the target; the rest is held.
    pub open spec fn cut_at_sentence(self, end: Double, target: nat) -> Chunker {
        let all = sentences(self.held_text());
        let k = cut_from(all, 0, target);
        let head = normal(text::join(all.take(k), " "@));
        let tail = normal(text::join(all.skip(k), " "@));
        Chunker {
            made: self.made.push(
                ChunkModel {
                    text: head,
                    start_sec: self.start,
                    end_sec: end,
                    token_count: tokens(head),
                },
            ),
            held: if tail.len() > 0 {
                seq![tail]
            } else {
                Seq::empty()
            },
            start: end,
            count: tokens(tail),
        }
    }

    /// The held texts have reached the target: they go out, cut at a sentence if they hold more
    /// than one.
    pub open spec fn emit(self, end: Double, target: nat) -> Chunker {
        if sentences(self.held_text()).len() > 1 {
            self.cut_at_sentence(end, target)
        } else {
            self.flush(end)
        }
    }

    /// One segment is taken in. Blank ones are passed over; one that would lead too far over the
    /// target first sends the held texts out.
    pub open spec fn take_in(self, said: Seq<char>, from: Double, to: Double, target: nat) -> Chunker {
        let t = text::trim(said);
        if t.len() == 0 {
            self
        } else {
            let ready = if self.count + tokens(t) > overfull(target) && self.held.len() > 0 {
                self.flush(from)
            } else {
                self
            };
            let fed = Chunker {
                held: ready.held.push(t),
                count: ready.count + tokens(t),
                ..ready
            };
            if fed.count >= target {
                fed.emit(to, target)
            } else {
                fed
            }
        }
    }

    /// The end of the transcript: what is still held goes out, counted anew.
    pub open spec fn finish(self, end: Double) -> Seq<ChunkModel> {
        if self.held.len() > 0 {
            self.made.push(
                ChunkModel {
                    text: self.held_text(),
                    start_sec: self.start,
                    end_sec: end,
                    token_count: tokens(self.held_text()),
                },
            )
        } else {
            self.made
        }
    }
}

/// The most tokens a chunk may reach by taking in one more segment: six fifths of the target.
pub open spec fn overfull(target: nat) -> nat {
    if target + target / 5 > usize::MAX {
        usize::MAX as nat
    } else {
        target + target / 5
    }
}

/// The tokens of all of `all`.
pub open spec fn tokens_of(all: Seq<Seq<char>>) -> nat
    decreases all.len(),
{
    if all.len() == 0 {
        0
    } else {
        tokens_of(all.drop_last()) + tokens(all.last())
    }
}

/// How many sentences from the front reach `target` tokens together, the first `k` not having
/// reached it; all of them if they never do.
pub open spec fn cut_from(all: Seq<Seq<char>>, k: int, target: nat) -> int
    decreases all.len() - k,
{
    if k >= all.len() {
        all.len() as int
    } else if tokens_of(all.take(k + 1)) >= target {
        k + 1
    } else {
        cut_from(all, k + 1, target)
    }
}

/// The chunker after the first `n` of `segments`.
pub open spec fn chunked(segments: Seq<SegmentModel>, n: nat, target: nat) -> Chunker
    decreases n,
{
    if n == 0 {
        Chunker { made: Seq::empty(), held: Seq::empty(), start: segments[0].start_sec, count: 0 }
    } else {
        let s = segments[n - 1];
        chunked(segments, (n - 1) as nat, target).take_in(s.text, s.start_sec, s.end_sec, target)
    }
}

/// The chunks of a transcript.
pub open spec fn chunks_of(segments: Seq<SegmentModel>, target: nat) -> Seq<ChunkModel> {
    if segments.len() == 0 {
        Seq::empty()
    } else {
        chunked(segments, segments.len(), target).finish(segments.last().end_sec)
    }
}

/// The texts of segments.
pub open spec fn said(segments: Seq<SegmentModel>) -> Seq<Seq<char>> {
    segments.map_values(|s: SegmentModel| s.text)
}

/// The texts of chunks.
pub open spec fn kept(chunks: Seq<ChunkModel>) -> Seq<Seq<char>> {
    chunks.map_values(|c: ChunkModel| c.text)
}

/// How many characters the segments hold together.
pub open spec fn total_chars(segments: Seq<SegmentModel>) -> nat
    decreases segments.len(),
{
    if segments.len() == 0 {
        0
    } else {
        total_chars(segments.drop_last()) + segments.last().text.len()
    }
}

proof fn lemma_total_chars(segments: Seq<SegmentModel>)
    ensures
        text::ink_of(said(segments)).len() <= total_chars(segments),
    decreases segments.len(),
{
    if segments.len() > 0 {
        lemma_total_chars(segments.drop_last());
        text::lemma_ink_len(segments.last().text);
        assert(said(segments).drop_last() == said(segments.drop_last()));
    }
}

proof fn lemma_ink_prefix(segments: Seq<SegmentModel>, n: int)
    requires
        0 <= n <= segments.len(),
    ensures
        text::ink_of(said(segments.take(n))).len() <= text::ink_of(said(segments)).len(),
{
    assert(said(segments) == said(segments.take(n)) + said(segments.skip(n)));
    text::lemma_ink_of_add(said(segments.take(n)), said(segments.skip(n)));
}

/// Tokens are bounded by the ink: a word has a character at least.
proof fn lemma_tokens_ink(s: Seq<char>)
    ensures
        tokens(s) <= 2 * text::ink(s).len(),
{
    text::lemma_words(s);
}

proof fn lemma_tokens_of_ink(all: Seq<Seq<char>>)
    ensures
        tokens_of(all) <= 2 * text::ink_of(all).len(),
    decreases all.len(),
{
    if all.len() > 0 {
        lemma_tokens_of_ink(all.drop_last());
        lemma_tokens_ink(all.last());
    }
}

proof fn lemma_normal_ink(s: Seq<char>)
    ensures
        text::ink(normal(s)) == text::ink(s),
{
    text::lemma_words(s);
    text::lemma_ink_join(text::words(s));
}

proof fn lemma_finished_ink(s: Seq<char>)
    ensures
        text::ink_of(finished(s)) + text::ink(unfinished(s)) == text::ink(s),
    decreases s.len(),
{
    text::lemma_ink_empty();
    if s.len() == 0 {
        assert(s == Seq::<char>::empty());
    } else {
        let t = s.drop_last();
        let c = s.last();
        lemma_finished_ink(t);
        assert(t.push(c) == s);
        text::lemma_ink_push(t, c);
        text::lemma_ink_push(unfinished(t), c);
        if stop(c) {
            let u = unfinished(t).push(c);
            text::lemma_ink_trim(u);
            text::lemma_ink_of_push(finished(t), text::trim(u));
        }
        assert(text::ink_of(finished(s)) + text::ink(unfinished(s)) == text::ink(s));
    }
}

/// Sentences carry all the ink of their text.
pub proof fn lemma_sentences_ink(s: Seq<char>)
    ensures
        text::ink_of(sentences(s)) == text::ink(s),
{
    lemma_finished_ink(s);
    text::lemma_ink_empty();
    let rest = text::trim(unfinished(s));
    text::lemma_ink_trim(unfinished(s));
    text::lemma_trim_empty(unfinished(s));
    text::lemma_ink_of_push(finished(s), rest);
    assert(text::ink(unfinished(s)).len() == 0 ==> text::ink_of(finished(s)) + text::ink(
        unfinished(s),
    ) == text::ink_of(finished(s)));
    text::lemma_ink_of_push(Seq::empty(), s);
    assert(Seq::<Seq<char>>::empty().push(s) == seq![s]);
    assert(Seq::<char>::empty() + text::ink(s) == text::ink(s));
}

proof fn lemma_cut_range(all: Seq<Seq<char>>, k: int, target: nat)
    requires
        0 <= k < all.len(),
    ensures
        k < cut_from(all, k, target) <= all.len(),
    decreases all.len() - k,
{
    reveal_with_fuel(cut_from, 2);
    if tokens_of(all.take(k + 1)) < target && k + 1 < all.len() {
        lemma_cut_range(all, k + 1, target);
    }
}

impl Chunker {
    /// The ink that the chunker has taken in, in order.
    pub open spec fn ink(self) -> Seq<char> {
        text::ink_of(kept(self.made)) + text::ink_of(self.held)
    }

    /// The count is no more than the held ink allows.
    pub open spec fn bounded(self) -> bool {
        self.count <= 2 * text::ink_of(self.held).len()
    }

    proof fn lemma_held_text(self)
        ensures
            text::ink(self.held_text()) == text::ink_of(self.held),
    {
        text::lemma_ink_join(self.held);
        lemma_normal_ink(text::join(self.held, " "@));
    }

    proof fn lemma_flush(self, end: Double)
        ensures
            self.flush(end).ink() == self.ink(),
            self.flush(end).bounded(),
    {
        self.lemma_held_text();
        let c = self.flush(end).made.last();
        assert(kept(self.flush(end).made) == kept(self.made).push(c.text));
        text::lemma_ink_of_push(kept(self.made), c.text);
        assert(self.flush(end).ink() == self.ink());
    }

    proof fn lemma_cut(self, end: Double, target: nat)
        ensures
            self.cut_at_sentence(end, target).ink() == self.ink(),
            self.cut_at_sentence(end, target).bounded(),
    {
        let all = sentences(self.held_text());
        let k = cut_from(all, 0, target);
        if all.len() > 0 {
            lemma_cut_range(all, 0, target);
        }
        let head = normal(text::join(all.take(k), " "@));
        let tail = normal(text::join(all.skip(k), " "@));
        self.lemma_held_text();
        lemma_sentences_ink(self.held_text());
        assert(all == all.take(k) + all.skip(k));
        text::lemma_ink_of_add(all.take(k), all.skip(k));
        text::lemma_ink_join(all.take(k));
        text::lemma_ink_join(all.skip(k));
        lemma_normal_ink(text::join(all.take(k), " "@));
        lemma_normal_ink(text::join(all.skip(k), " "@));
        let next = self.cut_at_sentence(end, target);
        assert(kept(next.made) == kept(self.made).push(head));
        text::lemma_ink_of_push(kept(self.made), head);
        text::lemma_ink_of_push(Seq::empty(), tail);
        assert(Seq::<Seq<char>>::empty().push(tail) == seq![tail]);
        text::lemma_ink_empty();
        lemma_tokens_ink(tail);
        if tail.len() == 0 {
            assert(tail == Seq::<char>::empty());
            assert(text::ink_of(next.held) == text::ink(tail));
        } else {
            assert(Seq::<char>::empty() + text::ink(tail) == text::ink(tail));
        }
        assert(next.ink() == self.ink());
    }

    proof fn lemma_take_in(self, said: Seq<char>, from: Double, to: Double, target: nat)
        requires
            self.bounded(),
        ensures
            self.take_in(said, from, to, target).ink() == self.ink() + text::ink(said),
            self.take_in(said, from, to, target).bounded(),
    {
        let t = text::trim(said);
        text::lemma_ink_trim(said);
        text::lemma_trim_empty(said);
        if t.len() == 0 {
            assert(self.ink() + text::ink(said) == self.ink());
        } else {
            let ready = if self.count + tokens(t) > overfull(target) && self.held.len() > 0 {
                self.flush(from)
            } else {
                self
            };
            self.lemma_flush(from);
            let fed = Chunker {
                held: ready.held.push(t),
                count: ready.count + tokens(t),
                ..ready
            };
            text::lemma_ink_of_push(ready.held, t);
            lemma_tokens_ink(t);
            assert(fed.ink() == ready.ink() + text::ink(said));
            fed.lemma_flush(to);
            fed.lemma_cut(to, target);
        }
    }
}

/// After `n` segments the chunker has the ink of exactly those.
proof fn lemma_chunked_ink(segments: Seq<SegmentModel>, n: nat, target: nat)
    requires
        n <= segments.len(),
    ensures
        chunked(segments, n, target).ink() == text::ink_of(said(segments.take(n as int))),
        chunked(segments, n, target).bounded(),
    decreases n,
{
    if n > 0 {
        let m = (n - 1) as nat;
        lemma_chunked_ink(segments, m, target);
        let s = segments[n - 1];
        chunked(segments, m, target).lemma_take_in(s.text, s.start_sec, s.end_sec, target);
        assert(said(segments.take(n as int)) == said(segments.take(m as int)).push(s.text));
        text::lemma_ink_of_push(said(segments.take(m as int)), s.text);
    } else {
        assert(said(segments.take(0)) == Seq::<Seq<char>>::empty());
    }
}

/// No text is lost: joined by spaces, the chunks hold the same characters in the same order as
/// the segments, white space aside.
pub proof fn law_chunks_keep_text(segments: Seq<SegmentModel>, target: nat)
    ensures
        text::ink(text::join(kept(chunks_of(segments, target)), " "@)) == text::ink(
            text::join(said(segments), " "@),
        ),
{
    text::lemma_ink_join(kept(chunks_of(segments, target)));
    text::lemma_ink_join(said(segments));
    if segments.len() > 0 {
        let c = chunked(segments, segments.len(), target);
        lemma_chunked_ink(segments, segments.len(), target);
        assert(segments.take(segments.len() as int) == segments);
        c.lemma_held_text();
        if c.held.len() > 0 {
            let all = c.finish(segments.last().end_sec);
            assert(kept(all) == kept(c.made).push(c.held_text()));
            text::lemma_ink_of_push(kept(c.made), c.held_text());
        } else {
            assert(c.ink() == text::ink_of(kept(c.made)));
        }
    } else {
        assert(kept(chunks_of(segments, target)) == Seq::<Seq<char>>::empty());
        assert(said(segments) == Seq::<Seq<char>>::empty());
    }
}

/// Chunks follow each other without gaps: the first starts where the transcript does, and each
/// starts where the one before it ended.
pub proof fn law_chunks_tile(segments: Seq<SegmentModel>, target: nat)
    ensures
        ({
            let chunks = chunks_of(segments, target);
            &&& chunks.len() > 0 ==> chunks[0].start_sec == segments[0].start_sec
            &&& forall|k: int|
                0 <= k < chunks.len() - 1 ==> (#[trigger] chunks[k]).end_sec == chunks[k
                    + 1].start_sec
        }),
{
    if segments.len() > 0 {
        lemma_chunked_tile(segments, segments.len(), target);
    }
}

/// The chunks made so far follow each other, and the held texts follow them.
spec fn tiled(c: Chunker, start: Double) -> bool {
    &&& c.made.len() == 0 ==> c.start == start
    &&& c.made.len() > 0 ==> c.made[0].start_sec == start && c.made.last().end_sec == c.start
    &&& forall|k: int|
        0 <= k < c.made.len() - 1 ==> (#[trigger] c.made[k]).end_sec == c.made[k + 1].start_sec
}

proof fn lemma_chunked_tile(segments: Seq<SegmentModel>, n: nat, target: nat)
    requires
        n <= segments.len(),
    ensures
        tiled(chunked(segments, n, target), segments[0].start_sec),
    decreases n,
{
    if n > 0 {
        lemma_chunked_tile(segments, (n - 1) as nat, target);
    }
}

/// A text in normal form: single spaces between words, none around them.
pub open spec fn is_normal(s: Seq<char>) -> bool {
    normal(s) == s
}

/// Normalizing changes no word, and so no token count, and doing it twice is doing it once.
pub proof fn law_normal(s: Seq<char>)
    ensures
        is_normal(normal(s)),
        text::words(normal(s)) == text::words(s),
        tokens(normal(s)) == tokens(s),
{
    text::lemma_words(s);
    text::lemma_words_join(text::words(s));
}

/// Every chunk holds text, in normal form.
pub proof fn law_chunks_normal(segments: Seq<SegmentModel>, target: nat)
    ensures
        forall|k: int|
            #![trigger chunks_of(segments, target)[k]]
            0 <= k < chunks_of(segments, target).len() ==> {
                &&& is_normal(chunks_of(segments, target)[k].text)
                &&& chunks_of(segments, target)[k].text.len() > 0
            },
{
    if segments.len() > 0 {
        lemma_chunked_normal(segments, segments.len(), target);
        let c = chunked(segments, segments.len(), target);
        if c.held.len() > 0 {
            lemma_held_normal(c);
        }
    }
}

/// A chunk never counts fewer tokens than its own text has, and there is no chunk exactly if every
/// segment is blank.
pub proof fn law_chunks_counted(segments: Seq<SegmentModel>, target: nat)
    ensures
        forall|k: int|
            #![trigger chunks_of(segments, target)[k]]
            0 <= k < chunks_of(segments, target).len() ==> chunks_of(segments, target)[k].token_count
                >= tokens(chunks_of(segments, target)[k].text),
        chunks_of(segments, target).len() == 0 <==> forall|i: int|
            0 <= i < segments.len() ==> text::trim((#[trigger] segments[i]).text).len() == 0,
{
    let chunks = chunks_of(segments, target);
    if segments.len() > 0 {
        lemma_chunked_counted(segments, segments.len(), target);
    }
    law_chunks_keep_text(segments, target);
    law_chunks_normal(segments, target);
    text::lemma_ink_join(kept(chunks));
    text::lemma_ink_join(said(segments));
    assert(text::ink_of(kept(chunks)) == text::ink_of(said(segments)));
    if chunks.len() == 0 {
        assert(kept(chunks) == Seq::<Seq<char>>::empty());
        assert forall|i: int| 0 <= i < segments.len() implies text::trim(
            (#[trigger] segments[i]).text,
        ).len() == 0 by {
            text::lemma_trim_empty(segments[i].text);
            assert(said(segments)[i] == segments[i].text);
            if text::ink(segments[i].text).len() > 0 {
                lemma_ink_of_nonblank(said(segments), i);
            }
        }
    } else {
        let t = chunks_of(segments, target)[0].text;
        text::lemma_words(t);
        assert(normal(t) == t);
        assert(text::words(t).len() > 0);
        assert(kept(chunks)[0] == t);
        lemma_ink_of_nonblank(kept(chunks), 0);
        if forall|i: int|
            0 <= i < segments.len() ==> text::trim((#[trigger] segments[i]).text).len() == 0 {
            lemma_all_blank(segments);
        }
    }
}

proof fn lemma_all_blank(segments: Seq<SegmentModel>)
    requires
        forall|i: int|
            0 <= i < segments.len() ==> text::trim((#[trigger] segments[i]).text).len() == 0,
    ensures
        text::ink_of(said(segments)).len() == 0,
    decreases segments.len(),
{
    if segments.len() > 0 {
        let t = segments.drop_last();
        assert forall|i: int| 0 <= i < t.len() implies text::trim((#[trigger] t[i]).text).len()
            == 0 by {
            assert(t[i] == segments[i]);
        }
        lemma_all_blank(t);
        assert(said(segments).drop_last() == said(t));
        assert(segments[segments.len() - 1] == segments.last());
        text::lemma_trim_empty(segments.last().text);
    }
}

/// The chunks made so far count enough, and so do the held texts.
spec fn well_counted(c: Chunker) -> bool {
    &&& forall|k: int|
        0 <= k < c.made.len() ==> (#[trigger] c.made[k]).token_count >= tokens(c.made[k].text)
    &&& c.count >= tokens(c.held_text())
}

proof fn lemma_chunked_counted(segments: Seq<SegmentModel>, n: nat, target: nat)
    requires
        n <= segments.len(),
    ensures
        well_counted(chunked(segments, n, target)),
    decreases n,
{
    lemma_nothing_held();
    if n > 0 {
        let m = (n - 1) as nat;
        lemma_chunked_counted(segments, m, target);
        let s = segments[n - 1];
        let c = chunked(segments, m, target);
        let t = text::trim(s.text);
        if t.len() > 0 {
            let ready = if c.count + tokens(t) > overfull(target) && c.held.len() > 0 {
                c.flush(s.start_sec)
            } else {
                c
            };
            let fed = Chunker {
                held: ready.held.push(t),
                count: ready.count + tokens(t),
                ..ready
            };
            assert(well_counted(ready));
            lemma_held_push(ready.held, t);
            assert(well_counted(fed));
            let cut = fed.cut_at_sentence(s.end_sec, target);
            let all = sentences(fed.held_text());
            let k = cut_from(all, 0, target);
            let tail = normal(text::join(all.skip(k), " "@));
            law_normal(tail);
            if tail.len() > 0 {
                assert(text::join(seq![tail], " "@) == tail);
            }
            assert(well_counted(cut));
            assert(well_counted(fed.flush(s.end_sec)));
        }
    }
}

/// Where nothing is held, nothing counts.
proof fn lemma_nothing_held()
    ensures
        tokens(normal(text::join(Seq::empty(), " "@))) == 0,
{
    law_normal(Seq::empty());
    assert(text::join(Seq::<Seq<char>>::empty(), " "@) == Seq::<char>::empty());
    assert(text::words(Seq::<char>::empty()).len() == 0);
}

/// One more text adds no more than its own tokens.
proof fn lemma_held_push(held: Seq<Seq<char>>, t: Seq<char>)
    ensures
        tokens(normal(text::join(held.push(t), " "@))) <= tokens(normal(text::join(held, " "@)))
            + tokens(t),
{
    let before = text::join(held, " "@);
    let now = text::join(held.push(t), " "@);
    law_normal(before);
    law_normal(now);
    if held.len() == 0 {
        assert(now == t);
    } else {
        assert(held.push(t).drop_last() == held);
        text::lemma_words_spaced(before, t);
    }
}

/// A token stands for three quarters of a word: a text has no fewer tokens than that, and not a
/// whole one more. The tokens of texts are those of each, added up.
pub proof fn law_tokens(s: Seq<char>, a: Seq<Seq<char>>, b: Seq<Seq<char>>)
    ensures
        3 * tokens(s) >= 4 * text::words(s).len(),
        3 * tokens(s) < 4 * text::words(s).len() + 3,
        tokens_of(seq![s]) == tokens(s),
        tokens_of(a + b) == tokens_of(a) + tokens_of(b),
    decreases b.len(),
{
    reveal_with_fuel(tokens_of, 2);
    assert(seq![s].drop_last() == Seq::<Seq<char>>::empty());
    if b.len() == 0 {
        assert(a + b == a);
    } else {
        law_tokens(s, a, b.drop_last());
        assert((a + b).drop_last() == a + b.drop_last());
    }
}

/// A sentence ends at the first `.`, `!` or `?`: none stands inside a sentence, and every sentence
/// but the last ends with one. Of a text that is not blank, no sentence is blank or has white
/// space around it, and together they hold its characters in order, white space aside.
pub proof fn law_sentences(s: Seq<char>)
    requires
        text::ink(s).len() > 0,
    ensures
        forall|k: int, i: int|
            0 <= k < sentences(s).len() && 0 <= i < sentences(s)[k].len() - 1 ==> {
                let c = #[trigger] sentences(s)[k][i];
                c != '.' && c != '!' && c != '?'
            },
        forall|k: int|
            0 <= k < sentences(s).len() - 1 ==> {
                let c = (#[trigger] sentences(s)[k]).last();
                c == '.' || c == '!' || c == '?'
            },
        forall|k: int|
            0 <= k < sentences(s).len() ==> (#[trigger] sentences(s)[k]).len() > 0 && text::trim(
                sentences(s)[k],
            ) == sentences(s)[k],
        text::ink_of(sentences(s)) == text::ink(s),
{
    lemma_sentences_ink(s);
    lemma_finished_shape(s);
    lemma_unfinished_shape(s);
    lemma_sentences_nonblank(s);
    let u = unfinished(s);
    let rest = text::trim(u);
    text::law_trim(u);
    text::lemma_trim_empty(u);
    text::lemma_ink_empty();
    lemma_finished_ink(s);
    let (a, b) = choose|a: int, b: int|
        0 <= a <= b <= u.len() && rest == #[trigger] u.subrange(a, b);
    assert(sentences(s) == if rest.len() > 0 {
        finished(s).push(rest)
    } else {
        finished(s)
    });
    assert forall|k: int, i: int|
        0 <= k < sentences(s).len() && 0 <= i < sentences(s)[k].len() - 1 implies !stop(
        #[trigger] sentences(s)[k][i],
    ) by {
        if k < finished(s).len() {
            assert(!stop(finished(s)[k][i]));
        } else {
            assert(rest[i] == u[a + i]);
        }
    }
    assert forall|k: int| 0 <= k < sentences(s).len() - 1 implies stop(
        (#[trigger] sentences(s)[k]).last(),
    ) by {
        assert(stop(finished(s)[k].last()));
    }
    assert forall|k: int| 0 <= k < sentences(s).len() implies (#[trigger] sentences(s)[k]).len() > 0
        && text::trim(sentences(s)[k]) == sentences(s)[k] by {
        assert(text::ink(sentences(s)[k]).len() > 0);
        text::lemma_ink_len(sentences(s)[k]);
        if k < finished(s).len() {
            assert(text::trim(finished(s)[k]) == finished(s)[k]);
        }
    }
}

proof fn lemma_unfinished_shape(s: Seq<char>)
    ensures
        forall|i: int| 0 <= i < unfinished(s).len() ==> !stop(#[trigger] unfinished(s)[i]),
    decreases s.len(),
{
    if s.len() > 0 && !stop(s.last()) {
        let t = s.drop_last();
        lemma_unfinished_shape(t);
        assert forall|i: int| 0 <= i < unfinished(s).len() implies !stop(
            #[trigger] unfinished(s)[i],
        ) by {
            if i < unfinished(t).len() {
                assert(unfinished(s)[i] == unfinished(t)[i]);
            }
        }
    }
}

proof fn lemma_finished_shape(s: Seq<char>)
    ensures
        forall|k: int, i: int|
            0 <= k < finished(s).len() && 0 <= i < finished(s)[k].len() - 1 ==> !stop(
                #[trigger] finished(s)[k][i],
            ),
        forall|k: int|
            0 <= k < finished(s).len() ==> stop((#[trigger] finished(s)[k]).last()) && text::trim(
                finished(s)[k],
            ) == finished(s)[k],
    decreases s.len(),
{
    if s.len() > 0 {
        let t = s.drop_last();
        lemma_finished_shape(t);
        lemma_unfinished_shape(t);
        if stop(s.last()) {
            let u = unfinished(t).push(s.last());
            let own = text::trim(u);
            text::law_trim(u);
            let (a, b) = choose|a: int, b: int|
                {
                    &&& 0 <= a <= b <= u.len()
                    &&& own == #[trigger] u.subrange(a, b)
                    &&& forall|i: int| 0 <= i < a || b <= i < u.len() ==> text::white(#[trigger] u[i])
                };
            assert(!text::white(u[u.len() - 1]));
            assert(b == u.len() && a < b);
            assert forall|k: int, i: int|
                0 <= k < finished(s).len() && 0 <= i < finished(s)[k].len() - 1 implies !stop(
                #[trigger] finished(s)[k][i],
            ) by {
                if k < finished(t).len() {
                    assert(finished(s)[k] == finished(t)[k]);
                    assert(!stop(finished(t)[k][i]));
                } else {
                    assert(own[i] == u[a + i]);
                    assert(u[a + i] == unfinished(t)[a + i]);
                }
            }
            assert forall|k: int| 0 <= k < finished(s).len() implies stop(
                (#[trigger] finished(s)[k]).last(),
            ) && text::trim(finished(s)[k]) == finished(s)[k] by {
                if k < finished(t).len() {
                    assert(finished(s)[k] == finished(t)[k]);
                } else {
                    assert(own.last() == u[u.len() - 1]);
                }
            }
        }
    }
}

/// The first `k` of `all` reach `target` tokens together and the first `k - 1` do not; or `k` is
/// all of them, and no fewer reach it. One at least is taken.
pub open spec fn shortest_run(all: Seq<Seq<char>>, k: int, target: nat) -> bool {
    &&& 0 < k <= all.len()
    &&& k == 1 || tokens_of(all.take(k - 1)) < target
    &&& k == all.len() || tokens_of(all.take(k)) >= target
}

/// A segment that would lead more than a fifth over the target first sends out what is held, as it
/// is, with the count it has, up to where the segment starts; it is then taken in as a first one.
pub proof fn law_overfull_goes_out(
    c: Chunker,
    said: Seq<char>,
    from: Double,
    to: Double,
    target: nat,
)
    requires
        6 * target <= 5 * usize::MAX,
        text::trim(said).len() > 0,
        c.held.len() > 0,
        5 * (c.count + tokens(text::trim(said))) > 6 * target,
    ensures
        c.take_in(said, from, to, target) == (Chunker {
            made: c.made.push(
                ChunkModel {
                    text: normal(text::join(c.held, " "@)),
                    start_sec: c.start,
                    end_sec: from,
                    token_count: c.count,
                },
            ),
            held: Seq::empty(),
            start: from,
            count: 0,
        }).take_in(said, from, to, target),
{
}

/// Below the target nothing goes out: a segment that neither reaches the target nor leads more
/// than a fifth over it is held, trimmed, behind what was held, and counted. A blank one changes
/// nothing.
pub proof fn law_held_below_target(
    c: Chunker,
    said: Seq<char>,
    from: Double,
    to: Double,
    target: nat,
)
    requires
        6 * target <= 5 * usize::MAX,
    ensures
        text::trim(said).len() == 0 ==> c.take_in(said, from, to, target) == c,
        text::trim(said).len() > 0 && c.count + tokens(text::trim(said)) < target ==> c.take_in(
            said,
            from,
            to,
            target,
        ) == (Chunker {
            held: c.held.push(text::trim(said)),
            count: c.count + tokens(text::trim(said)),
            ..c
        }),
{
}

/// At the target exactly one chunk goes out, up to where the segment ends. Where one sentence is
/// held, it is that sentence. Where there are more, it is the shortest run of leading sentences
/// whose tokens reach the target, or all of them if they do not; and exactly what follows that run
/// stays held.
pub proof fn law_cut_at_target(
    c: Chunker,
    said: Seq<char>,
    from: Double,
    to: Double,
    target: nat,
    held: Seq<Seq<char>>,
)
    requires
        6 * target <= 5 * usize::MAX,
        forall|k: int| 0 <= k < c.held.len() ==> text::ink(#[trigger] c.held[k]).len() > 0,
        held == c.held.push(text::trim(said)),
        text::trim(said).len() > 0,
        c.count + tokens(text::trim(said)) >= target,
        c.held.len() == 0 || 5 * (c.count + tokens(text::trim(said))) <= 6 * target,
    ensures
        ({
            let n = c.take_in(said, from, to, target);
            let whole = normal(text::join(held, " "@));
            let all = sentences(whole);
            &&& n.made.len() == c.made.len() + 1
            &&& n.made.drop_last() == c.made
            &&& n.made.last().start_sec == c.start
            &&& n.made.last().end_sec == to
            &&& n.start == to
            &&& all.len() > 0
            &&& all.len() == 1 ==> {
                &&& n.made.last().text == whole
                &&& n.made.last().token_count == c.count + tokens(text::trim(said))
                &&& n.held.len() == 0
                &&& n.count == 0
            }
            &&& all.len() > 1 ==> exists|k: int|
                {
                    &&& #[trigger] shortest_run(all, k, target)
                    &&& n.made.last().text == normal(text::join(all.take(k), " "@))
                    &&& n.made.last().token_count == tokens(n.made.last().text)
                    &&& k < all.len() ==> {
                        &&& n.held == seq![normal(text::join(all.skip(k), " "@))]
                        &&& n.count == tokens(n.held[0])
                    }
                    &&& k == all.len() ==> n.held.len() == 0 && n.count == 0
                }
        }),
{
    let t = text::trim(said);
    let n = c.take_in(said, from, to, target);
    text::lemma_ink_trim(said);
    text::lemma_trim_empty(said);
    let fed = Chunker { held, count: c.count + tokens(t), ..c };
    assert(n == fed.emit(to, target));
    let all = sentences(fed.held_text());
    fed.lemma_held_text();
    assert(text::ink(held[held.len() - 1]).len() > 0);
    lemma_ink_of_nonblank(held, held.len() - 1);
    lemma_sentences_ink(fed.held_text());
    lemma_sentences_nonblank(fed.held_text());
    text::lemma_ink_empty();
    assert(all.len() > 0);
    assert(n.made.drop_last() == c.made);
    if all.len() > 1 {
        let k = cut_from(all, 0, target);
        lemma_cut_range(all, 0, target);
        lemma_cut_least(all, 0, target);
        assert(shortest_run(all, k, target));
        let tail = normal(text::join(all.skip(k), " "@));
        text::lemma_ink_join(all.skip(k));
        lemma_normal_ink(text::join(all.skip(k), " "@));
        if k < all.len() {
            assert(all.skip(k)[0] == all[k]);
            lemma_ink_of_nonblank(all.skip(k), 0);
            text::lemma_ink_len(tail);
        } else {
            assert(all.skip(k) == Seq::<Seq<char>>::empty());
            lemma_nothing_held();
            assert(text::join(all.skip(k), " "@) == Seq::<char>::empty());
            assert(text::words(Seq::<char>::empty()) == Seq::<Seq<char>>::empty());
        }
    }
}

/// At the end of the transcript what is still held goes out as one chunk, all of it, with its own
/// count; where nothing is held, no chunk is added.
pub proof fn law_rest_goes_out(c: Chunker, end: Double)
    ensures
        c.held.len() == 0 ==> c.finish(end) == c.made,
        c.held.len() > 0 ==> {
            let last = c.finish(end).last();
            &&& c.finish(end).len() == c.made.len() + 1
            &&& c.finish(end).drop_last() == c.made
            &&& last.text == normal(text::join(c.held, " "@))
            &&& last.token_count == tokens(last.text)
            &&& last.start_sec == c.start
            &&& last.end_sec == end
        },
{
    if c.held.len() > 0 {
        assert(c.finish(end).drop_last() == c.made);
    }
}

/// The last chunk ends where the transcript does, where its last segment is not blank.
pub proof fn law_last_chunk_ends(segments: Seq<SegmentModel>, target: nat)
    requires
        segments.len() > 0,
        text::trim(segments.last().text).len() > 0,
    ensures
        chunks_of(segments, target).len() > 0,
        chunks_of(segments, target).last().end_sec == segments.last().end_sec,
{
}

/// The texts of segments without the white space around them.
pub open spec fn trimmed_texts(segments: Seq<SegmentModel>) -> Seq<Seq<char>> {
    segments.map_values(|s: SegmentModel| text::trim(s.text))
}

/// A transcript that does not reach the target is not cut: it has one chunk at most. And a segment
/// that reaches the target by itself is never held together with another that does: there are no
/// fewer chunks than such segments.
pub proof fn law_chunk_number(segments: Seq<SegmentModel>, target: nat)
    requires
        target > 0,
        6 * target <= 5 * usize::MAX,
    ensures
        tokens_of(trimmed_texts(segments)) < target ==> chunks_of(segments, target).len() <= 1,
        chunks_of(segments, target).len() >= segments.filter(
            |s: SegmentModel| tokens(text::trim(s.text)) >= target,
        ).len(),
{
    lemma_below_target(segments, segments.len(), target);
    lemma_long_segments(segments, segments.len(), target);
    assert(segments.take(segments.len() as int) == segments);
    reveal(Seq::filter);
}

proof fn lemma_below_target(segments: Seq<SegmentModel>, n: nat, target: nat)
    requires
        n <= segments.len(),
        target > 0,
        6 * target <= 5 * usize::MAX,
    ensures
        tokens_of(trimmed_texts(segments.take(n as int))) < target ==> {
            &&& chunked(segments, n, target).made.len() == 0
            &&& chunked(segments, n, target).count == tokens_of(
                trimmed_texts(segments.take(n as int)),
            )
        },
    decreases n,
{
    if n > 0 {
        let m = (n - 1) as nat;
        lemma_below_target(segments, m, target);
        let before = trimmed_texts(segments.take(m as int));
        let now = trimmed_texts(segments.take(n as int));
        let t = text::trim(segments[m as int].text);
        assert(now.drop_last() == before);
        assert(now.last() == t);
        if t.len() == 0 {
            assert(t == Seq::<char>::empty());
            assert(text::words(t).len() == 0);
        }
    }
}

proof fn lemma_long_segments(segments: Seq<SegmentModel>, n: nat, target: nat)
    requires
        n <= segments.len(),
        target > 0,
    ensures
        chunked(segments, n, target).made.len() >= segments.take(n as int).filter(
            |s: SegmentModel| tokens(text::trim(s.text)) >= target,
        ).len(),
    decreases n,
{
    reveal(Seq::filter);
    if n > 0 {
        let m = (n - 1) as nat;
        lemma_long_segments(segments, m, target);
        assert(segments.take(n as int).drop_last() == segments.take(m as int));
        assert(segments.take(n as int).last() == segments[m as int]);
        let t = text::trim(segments[m as int].text);
        if t.len() == 0 {
            assert(t == Seq::<char>::empty());
            assert(text::words(t).len() == 0);
        }
    }
}

/// The sentences cut off are the fewest that reach the target.
proof fn lemma_cut_least(all: Seq<Seq<char>>, k: int, target: nat)
    requires
        0 <= k < all.len(),
        k == 0 || tokens_of(all.take(k)) < target,
    ensures
        ({
            let n = cut_from(all, k, target);
            &&& n == 1 || tokens_of(all.take(n - 1)) < target
            &&& n == all.len() || tokens_of(all.take(n)) >= target
        }),
    decreases all.len() - k,
{
    reveal_with_fuel(cut_from, 2);
    if tokens_of(all.take(k + 1)) < target && k + 1 < all.len() {
        lemma_cut_least(all, k + 1, target);
    }
}

/// Nothing blank is held, and what was made is in normal form and not blank.
spec fn neat(c: Chunker) -> bool {
    &&& forall|k: int| 0 <= k < c.held.len() ==> text::ink(#[trigger] c.held[k]).len() > 0
    &&& forall|k: int|
        0 <= k < c.made.len() ==> is_normal((#[trigger] c.made[k]).text) && c.made[k].text.len() > 0
}

proof fn lemma_normal_nonblank(s: Seq<char>)
    requires
        text::ink(s).len() > 0,
    ensures
        is_normal(normal(s)),
        normal(s).len() > 0,
{
    law_normal(s);
    lemma_normal_ink(s);
    text::lemma_ink_len(normal(s));
}

proof fn lemma_ink_of_nonblank(all: Seq<Seq<char>>, k: int)
    requires
        0 <= k < all.len(),
        text::ink(all[k]).len() > 0,
    ensures
        text::ink_of(all).len() > 0,
    decreases all.len(),
{
    if k < all.len() - 1 {
        lemma_ink_of_nonblank(all.drop_last(), k);
    }
}

proof fn lemma_held_normal(c: Chunker)
    requires
        neat(c),
        c.held.len() > 0,
    ensures
        is_normal(c.held_text()),
        c.held_text().len() > 0,
{
    text::lemma_ink_join(c.held);
    assert(text::ink(c.held[0]).len() > 0);
    lemma_ink_of_nonblank(c.held, 0);
    lemma_normal_nonblank(text::join(c.held, " "@));
}

/// The sentences of a text that is not blank are not blank.
proof fn lemma_sentences_nonblank(s: Seq<char>)
    requires
        text::ink(s).len() > 0,
    ensures
        forall|k: int| 0 <= k < sentences(s).len() ==> text::ink(#[trigger] sentences(s)[k]).len() > 0,
{
    lemma_finished_nonblank(s);
    text::lemma_ink_trim(unfinished(s));
    text::lemma_trim_empty(unfinished(s));
}

proof fn lemma_finished_nonblank(s: Seq<char>)
    ensures
        forall|k: int| 0 <= k < finished(s).len() ==> text::ink(#[trigger] finished(s)[k]).len() > 0,
    decreases s.len(),
{
    if s.len() > 0 {
        lemma_finished_nonblank(s.drop_last());
        let u = unfinished(s.drop_last()).push(s.last());
        text::lemma_ink_push(unfinished(s.drop_last()), s.last());
        text::lemma_ink_trim(u);
        let before = finished(s.drop_last());
        assert forall|k: int| 0 <= k < finished(s).len() implies text::ink(
            #[trigger] finished(s)[k],
        ).len() > 0 by {
            if k < before.len() {
                assert(finished(s)[k] == before[k]);
            }
        }
    }
}

proof fn lemma_chunked_normal(segments: Seq<SegmentModel>, n: nat, target: nat)
    requires
        n <= segments.len(),
    ensures
        neat(chunked(segments, n, target)),
    decreases n,
{
    if n > 0 {
        let m = (n - 1) as nat;
        lemma_chunked_normal(segments, m, target);
        let s = segments[n - 1];
        let c = chunked(segments, m, target);
        let t = text::trim(s.text);
        if t.len() > 0 {
            text::lemma_trim_empty(s.text);
            text::lemma_ink_trim(s.text);
            if c.held.len() > 0 {
                lemma_held_normal(c);
            }
            let ready = if c.count + tokens(t) > overfull(target) && c.held.len() > 0 {
                c.flush(s.start_sec)
            } else {
                c
            };
            let fed = Chunker {
                held: ready.held.push(t),
                count: ready.count + tokens(t),
                ..ready
            };
            assert(neat(ready));
            assert(neat(fed)) by {
                assert forall|k: int| 0 <= k < fed.held.len() implies text::ink(
                    #[trigger] fed.held[k],
                ).len() > 0 by {
                    if k < ready.held.len() {
                        assert(fed.held[k] == ready.held[k]);
                    }
                }
            }
            if fed.count >= target {
                lemma_held_normal(fed);
                let whole = fed.held_text();
                let all = sentences(whole);
                fed.lemma_held_text();
                assert(text::ink(fed.held[0]).len() > 0);
                lemma_ink_of_nonblank(fed.held, 0);
                lemma_sentences_nonblank(whole);
                if all.len() > 1 {
                    let k = cut_from(all, 0, target);
                    lemma_cut_range(all, 0, target);
                    let head = text::join(all.take(k), " "@);
                    let tail = text::join(all.skip(k), " "@);
                    assert(text::ink(all.take(k)[0]).len() > 0);
                    lemma_ink_of_nonblank(all.take(k), 0);
                    text::lemma_ink_join(all.take(k));
                    lemma_normal_nonblank(head);
                    if normal(tail).len() > 0 {
                        lemma_normal_ink(tail);
                        text::lemma_ink_join(all.skip(k));
                        text::lemma_words(tail);
                        if all.skip(k).len() > 0 {
                            assert(text::ink(all.skip(k)[0]).len() > 0) by {
                                assert(all.skip(k)[0] == all[k]);
                            }
                            lemma_ink_of_nonblank(all.skip(k), 0);
                        }
                    }
                }
            }
        }
    } else {
    }
}

/// Where to cut `all`: behind the sentence that reaches the target.
fn break_index(all: &Vec<String>, target_tokens: usize) -> (r: usize)
    requires
        all.len() > 0,
        tokens_of(all.deep_view()) <= usize::MAX,
    ensures
        r == cut_from(all.deep_view(), 0, target_tokens as nat),
        0 < r <= all.len(),
{
    let ghost whole = all.deep_view();
    let mut running: usize = 0;
    let mut i: usize = 0;
    while i < all.len()
        invariant
            whole == all.deep_view(),
            i <= all.len(),
            all.len() > 0,
            tokens_of(whole) <= usize::MAX,
            running == tokens_of(whole.take(i as int)),
            cut_from(whole, 0, target_tokens as nat) == cut_from(
                whole,
                i as int,
                target_tokens as nat,
            ),
        decreases all.len() - i,
    {
        let n: usize = estimate_tokens(all[i].as_str());
        proof {
            assert(whole.take(i + 1).drop_last() == whole.take(i as int));
            assert(whole.take(i + 1).last() == whole[i as int]);
            lemma_tokens_prefix(whole, i + 1);
        }
        running = running + n;
        if running >= target_tokens {
            return i + 1;
        }
        i = i + 1;
    }
    all.len()
}

proof fn lemma_tokens_prefix(all: Seq<Seq<char>>, n: int)
    requires
        0 <= n <= all.len(),
    ensures
        tokens_of(all.take(n)) <= tokens_of(all),
    decreases all.len() - n,
{
    if n == all.len() {
        assert(all.take(n) == all);
    } else {
        lemma_tokens_prefix(all, n + 1);
        assert(all.take(n + 1).drop_last() == all.take(n));
    }
}

/// Segment chunker: gathers segments up to `target_tokens`, breaking at sentence boundaries.
pub fn chunk_segments(segments: &[Segment], target_tokens: usize) -> (r: Vec<Chunk>)
    requires
        2 * total_chars(segments.deep_view()) <= usize::MAX,
    ensures
        r.deep_view() == chunks_of(segments.deep_view(), target_tokens as nat),
{
    let mut chunks: Vec<Chunk> = Vec::new();
    if segments.len() == 0 {
        return chunks;
    }
    let ghost all = segments.deep_view();
    let ghost target = target_tokens as nat;
    let limit: usize = target_tokens.saturating_add(target_tokens / 5);
    let mut current_texts: Vec<String> = Vec::new();
    let mut current_start: Double = segments[0].start_sec;
    let mut current_tokens: usize = 0;
    let mut i: usize = 0;
    assert(chunks.deep_view() == Seq::<ChunkModel>::empty());
    assert(current_texts.deep_view() == Seq::<Seq<char>>::empty());
    assert(current_start == all[0].start_sec);
    while i < segments.len()
        invariant
            all == segments.deep_view(),
            0 < segments.len(),
            i <= segments.len(),
            target == target_tokens,
            limit == overfull(target),
            2 * total_chars(all) <= usize::MAX,
            chunked(all, i as nat, target) == (Chunker {
                made: chunks.deep_view(),
                held: current_texts.deep_view(),
                start: current_start,
                count: current_tokens as nat,
            }),
        decreases segments.len() - i,
    {
        let seg = &segments[i];
        let ghost was = chunked(all, i as nat, target);
        let ghost said_now = seg.text@;
        proof {
            assert(all[i as int] == seg.deep_view());
            lemma_chunked_ink(all, i as nat, target);
            lemma_chunked_ink(all, (i + 1) as nat, target);
            lemma_ink_prefix(all, i as int);
            lemma_ink_prefix(all, i + 1);
            lemma_total_chars(all);
        }
        let seg_text = trimmed(seg.text.as_str());
        let ghost t = seg_text@;
        if seg_text.as_str().is_empty() {
            i = i + 1;
            continue;
        }
        let seg_tokens: usize = estimate_tokens(seg_text.as_str());
        proof {
            text::lemma_ink_trim(said_now);
            lemma_tokens_ink(t);
            assert(said(all.take(i + 1)) == said(all.take(i as int)).push(said_now));
            text::lemma_ink_of_push(said(all.take(i as int)), said_now);
            assert(was.count + tokens(t) <= usize::MAX);
        }
        if current_tokens + seg_tokens > limit && current_texts.len() > 0 {
            let chunk_text = normalize_text(joined(&current_texts, " ").as_str());
            let ghost before = chunks.deep_view();
            chunks.push(
                Chunk {
                    text: chunk_text,
                    start_sec: current_start,
                    end_sec: seg.start_sec,
                    token_count: current_tokens,
                },
            );
            assert(chunks.deep_view() == before.push(chunks@.last().deep_view()));
            current_texts = Vec::new();
            assert(current_texts.deep_view() == Seq::<Seq<char>>::empty());
            current_start = seg.start_sec;
            current_tokens = 0;
        }
        let ghost held_before = current_texts.deep_view();
        current_texts.push(seg_text);
        assert(current_texts.deep_view() == held_before.push(t));
        current_tokens = current_tokens + seg_tokens;
        if current_tokens >= target_tokens {
            let ghost fed = Chunker {
                made: chunks.deep_view(),
                held: current_texts.deep_view(),
                start: current_start,
                count: current_tokens as nat,
            };
            assert(chunked(all, (i + 1) as nat, target) == fed.emit(seg.end_sec, target));
            let combined = normalize_text(joined(&current_texts, " ").as_str());
            let all_sentences = split_sentences(combined.as_str());
            let ghost cut = all_sentences.deep_view();
            let ghost before = chunks.deep_view();
            if all_sentences.len() > 1 {
                proof {
                    lemma_tokens_of_ink(cut);
                    lemma_sentences_ink(combined@);
                    fed.lemma_held_text();
                    fed.lemma_flush(seg.end_sec);
                    fed.lemma_cut(seg.end_sec, target);
                    assert(fed.ink() == text::ink_of(said(all.take(i + 1))));
                }
                let k: usize = break_index(&all_sentences, target_tokens);
                assert(cut.take(k as int) == cut.subrange(0, k as int));
                assert(cut.skip(k as int) == cut.subrange(k as int, cut.len() as int));
                let chunk_text = normalize_text(join_range(&all_sentences, 0, k, " ").as_str());
                let remainder_text = normalize_text(
                    join_range(&all_sentences, k, all_sentences.len(), " ").as_str(),
                );
                let token_count: usize = estimate_tokens(chunk_text.as_str());
                chunks.push(
                    Chunk {
                        text: chunk_text,
                        start_sec: current_start,
                        end_sec: seg.end_sec,
                        token_count,
                    },
                );
                assert(chunks.deep_view() == before.push(chunks@.last().deep_view()));
                current_start = seg.end_sec;
                current_tokens = estimate_tokens(remainder_text.as_str());
                current_texts = Vec::new();
                assert(current_texts.deep_view() == Seq::<Seq<char>>::empty());
                if !remainder_text.as_str().is_empty() {
                    let ghost rest = remainder_text@;
                    current_texts.push(remainder_text);
                    assert(current_texts.deep_view() == seq![rest]);
                }
            } else {
                chunks.push(
                    Chunk {
                        text: combined,
                        start_sec: current_start,
                        end_sec: seg.end_sec,
                        token_count: current_tokens,
                    },
                );
                assert(chunks.deep_view() == before.push(chunks@.last().deep_view()));
                current_texts = Vec::new();
                assert(current_texts.deep_view() == Seq::<Seq<char>>::empty());
                current_start = seg.end_sec;
                current_tokens = 0;
            }
        }
        i = i + 1;
    }
    if current_texts.len() > 0 {
        let chunk_text = normalize_text(joined(&current_texts, " ").as_str());
        let token_count: usize = estimate_tokens(chunk_text.as_str());
        let ghost before = chunks.deep_view();
        chunks.push(
            Chunk {
                text: chunk_text,
                start_sec: current_start,
                end_sec: segments[segments.len() - 1].end_sec,
                token_count,
            },
        );
        assert(chunks.deep_view() == before.push(chunks@.last().deep_view()));
    }
    chunks
}

// ---------------------------------------------------------------------------
// Word counts
// ---------------------------------------------------------------------------

/// The words that are too common to count.
pub open spec fn stopwords() -> Seq<Seq<char>> {
    seq![
        "a"@, "an"@, "the"@, "and"@, "or"@, "but"@, "in"@, "on"@, "at"@,
        "to"@, "for"@, "of"@, "with"@, "by"@, "from"@, "is"@, "it"@, "that"@,
        "this"@, "was"@, "are"@, "be"@, "have"@, "has"@, "had"@, "do"@, "does"@,
        "did"@, "will"@, "would"@, "could"@, "should"@, "may"@, "might"@, "can"@, "shall"@,
        "not"@, "no"@, "if"@, "then"@, "else"@, "so"@, "as"@, "up"@, "out"@,
        "about"@, "into"@, "over"@, "after"@, "before"@, "between"@, "under"@, "above"@, "below"@,
        "all"@, "each"@, "every"@, "both"@, "few"@, "more"@, "most"@, "other"@, "some"@,
        "such"@, "only"@, "own"@, "same"@, "than"@, "too"@, "very"@, "just"@, "because"@,
        "through"@, "during"@, "while"@, "also"@, "back"@, "been"@, "being"@, "here"@, "there"@,
        "when"@, "where"@, "which"@, "who"@, "whom"@, "what"@, "how"@, "its"@, "my"@,
        "your"@, "his"@, "her"@, "our"@, "their"@, "them"@, "they"@, "we"@, "you"@,
        "he"@, "she"@, "me"@, "him"@, "us"@, "im"@, "ive"@, "dont"@, "youre"@,
        "youve"@, "were"@, "weve"@,
    ]
}

/// Whether `word` is too common to count.
pub fn is_stopword(word: &str) -> (r: bool)
    ensures
        r == stopwords().contains(word@),
{
    let list: [&str; 111] = [
        "a", "an", "the", "and", "or", "but", "in", "on", "at", "to", "for",
        "of", "with", "by", "from", "is", "it", "that", "this", "was", "are", "be",
        "have", "has", "had", "do", "does", "did", "will", "would", "could", "should", "may",
        "might", "can", "shall", "not", "no", "if", "then", "else", "so", "as", "up",
        "out", "about", "into", "over", "after", "before", "between", "under", "above", "below", "all",
        "each", "every", "both", "few", "more", "most", "other", "some", "such", "only", "own",
        "same", "than", "too", "very", "just", "because", "through", "during", "while", "also", "back",
        "been", "being", "here", "there", "when", "where", "which", "who", "whom", "what", "how",
        "its", "my", "your", "his", "her", "our", "their", "them", "they", "we", "you",
        "he", "she", "me", "him", "us", "im", "ive", "dont", "youre", "youve", "were",
        "weve",
    ];
    let mut i: usize = 0;
    assert forall|j: int| 0 <= j < list@.len() implies #[trigger] list@[j]@ == stopwords()[j] by {}
    while i < list.len()
        invariant
            i <= list.len(),
            list@.len() == stopwords().len(),
            forall|j: int| 0 <= j < list@.len() ==> #[trigger] list@[j]@ == stopwords()[j],
            forall|j: int| 0 <= j < i ==> stopwords()[j] != word@,
        decreases list.len() - i,
    {
        if text::same_str(list[i], word) {
            assert(stopwords()[i as int] == word@);
            return true;
        }
        i = i + 1;
    }
    false
}

/// What the English Snowball stemmer makes of a word.
pub uninterp spec fn english_stem(word: Seq<char>) -> Seq<char>;

/// The most bytes of a word that the stemmer is given: it computes byte positions in signed 32-bit
/// numbers, which longer words overflow.
pub const MAX_STEM_BYTES: u32 = 0x7fff_ffff;

/// The stem of `word`, by `rust_stemmers::Stemmer::stem` with the English algorithm: a function of
/// the word. The stemmer never makes a word longer, so that its positions fit where the word does.
#[verifier::external_body]
fn stem(word: &str) -> (r: String)
    requires
        text::bytes_of(word@) <= MAX_STEM_BYTES,
    ensures
        r@ == english_stem(word@),
{
    rust_stemmers::Stemmer::create(rust_stemmers::Algorithm::English).stem(word).to_string()
}

/// A word in lower case with nothing but letters and numbers.
pub open spec fn cleaned(word: Seq<char>) -> Seq<char> {
    text::lowercase(word).filter(|c: char| text::alphanumeric(c))
}

/// Whether `c` is an ASCII letter or digit.
pub open spec fn ascii_alphanumeric(c: char) -> bool {
    '0' <= c <= '9' || 'A' <= c <= 'Z' || 'a' <= c <= 'z'
}

/// An ASCII word with its capitals turned small and nothing but letters and digits.
pub open spec fn ascii_cleaned(word: Seq<char>) -> Seq<char> {
    word.map_values(|c: char| text::ascii_small(c)).filter(|c: char| ascii_alphanumeric(c))
}

/// Whether the ASCII ones among `ws` are cleaned as ASCII words are.
pub open spec fn ascii_words_are_plain(ws: Seq<Seq<char>>) -> bool {
    forall|i: int|
        0 <= i < ws.len() && vstd::utf8::is_ascii_chars(#[trigger] ws[i]) ==> cleaned(ws[i])
            == ascii_cleaned(ws[i])
}

/// Whether a cleaned word counts: it takes two bytes at least and is not too common.
pub open spec fn counts(word: Seq<char>) -> bool {
    &&& word.len() >= 2 || (word.len() == 1 && word[0] as u32 >= 0x80)
    &&& !stopwords().contains(word)
}

/// The stems of the words that count, in the order of `ws`.
pub open spec fn stems_of(ws: Seq<Seq<char>>) -> Seq<Seq<char>>
    decreases ws.len(),
{
    if ws.len() == 0 {
        Seq::empty()
    } else if counts(cleaned(ws.last())) {
        stems_of(ws.drop_last()).push(english_stem(cleaned(ws.last())))
    } else {
        stems_of(ws.drop_last())
    }
}

/// Whether every word can be given to the stemmer.
pub open spec fn stemmable(ws: Seq<Seq<char>>) -> bool {
    forall|i: int| 0 <= i < ws.len() ==> text::bytes_of(
        cleaned(#[trigger] ws[i]),
    ) <= MAX_STEM_BYTES
}

/// `a` occurs in `s` before any `b`.
pub open spec fn occurs_before(s: Seq<Seq<char>>, a: Seq<char>, b: Seq<char>) -> bool {
    exists|i: int|
        0 <= i < s.len() && #[trigger] s[i] == a && forall|j: int| 0 <= j <= i ==> s[j] != b
}

/// `ranked` lists each stem once with how often it occurs, the frequent ones first and, among
/// equally frequent ones, the earlier first.
pub open spec fn is_ranking(ranked: Seq<(Seq<char>, usize)>, stems: Seq<Seq<char>>) -> bool {
    &&& forall|i: int|
        0 <= i < ranked.len() ==> {
            &&& stems.contains((#[trigger] ranked[i]).0)
            &&& ranked[i].1 == stems.to_multiset().count(ranked[i].0)
        }
    &&& forall|w: Seq<char>| #[trigger]
        stems.contains(w) ==> exists|i: int| 0 <= i < ranked.len() && (#[trigger] ranked[i]).0 == w
    &&& in_rank_order(ranked, stems)
}

/// Neighbours and all others stand in the order of a ranking.
pub open spec fn in_rank_order(ranked: Seq<(Seq<char>, usize)>, stems: Seq<Seq<char>>) -> bool {
    forall|i: int, j: int|
        0 <= i < j < ranked.len() ==> {
            &&& (#[trigger] ranked[i]).0 != (#[trigger] ranked[j]).0
            &&& ranked[i].1 >= ranked[j].1
            &&& ranked[i].1 == ranked[j].1 ==> occurs_before(stems, ranked[i].0, ranked[j].0)
        }
}

/// A word in lower case with nothing but letters and numbers.
fn clean_word(word: &str) -> (r: String)
    ensures
        r@ == cleaned(word@),
        vstd::utf8::is_ascii_chars(word@) ==> r@ == ascii_cleaned(word@),
{
    let lower = text::to_lowercase(word);
    let mut out: String = String::new();
    let ghost keep = |c: char| text::alphanumeric(c);
    let ghost plain = |c: char| ascii_alphanumeric(c);
    let ghost ascii = vstd::utf8::is_ascii_chars(word@);
    proof {
        reveal(Seq::filter);
        assert(lower@.take(0).filter(keep) == Seq::<char>::empty());
        assert(lower@.take(0).filter(plain) == Seq::<char>::empty());
        if ascii {
            assert forall|i: int| 0 <= i < lower@.len() implies ((
            #[trigger] lower@[i]) as u32) < 0x80 by {
                assert(word@[i] <= '\u{7f}');
                assert(lower@[i] == text::ascii_small(word@[i]));
            }
        }
    }
    for c in it: lower.as_str().chars()
        invariant
            it.seq() == lower@,
            keep == (|c: char| text::alphanumeric(c)),
            plain == (|c: char| ascii_alphanumeric(c)),
            ascii ==> forall|i: int| 0 <= i < lower@.len() ==> ((
                #[trigger] lower@[i]) as u32) < 0x80,
            out@ == lower@.take(it.index()).filter(keep),
            ascii ==> out@ == lower@.take(it.index()).filter(plain),
    {
        let ghost i = it.index();
        proof {
            reveal(Seq::filter);
            assert(lower@.take(i + 1).drop_last() == lower@.take(i));
            assert(lower@.take(i + 1).last() == c);
            assert(lower@[i] == c);
        }
        if text::is_alphanumeric(c) {
            out.push(c);
        }
    }
    assert(lower@.take(lower@.len() as int) == lower@);
    out
}

/// Whether a cleaned word counts.
fn word_counts(word: &str) -> (r: bool)
    ensures
        r == counts(word@),
{
    let chars = text::chars_of(word);
    let long: bool = chars.len() >= 2 || (chars.len() == 1 && chars[0] as u32 >= 0x80);
    long && !is_stopword(word)
}

/// Inserts the next entry of a ranking into those that came before it.
fn rank_insert(ranked: &mut Vec<(String, usize)>, entry: (String, usize), Ghost(stems): Ghost<Seq<Seq<char>>>)
    requires
        in_rank_order(old(ranked).deep_view(), stems),
        forall|i: int|
            0 <= i < old(ranked).deep_view().len() ==> {
                &&& (#[trigger] old(ranked).deep_view()[i]).0 != entry.0@
                &&& occurs_before(stems, old(ranked).deep_view()[i].0, entry.0@)
            },
    ensures
        in_rank_order(final(ranked).deep_view(), stems),
        exists|p: int|
            0 <= p <= old(ranked).deep_view().len() && #[trigger] old(ranked).deep_view().insert(
                p,
                entry.deep_view(),
            ) == final(ranked).deep_view(),
{
    let ghost before = ranked.deep_view();
    let ghost e = entry.deep_view();
    let mut p: usize = 0;
    while p < ranked.len() && ranked[p].1 >= entry.1
        invariant
            p <= ranked.len(),
            before == ranked.deep_view(),
            forall|i: int| 0 <= i < p ==> (#[trigger] before[i]).1 >= entry.1,
        decreases ranked.len() - p,
    {
        assert(before[p as int].1 == ranked[p as int].1);
        p = p + 1;
    }
    proof {
        if p < ranked.len() {
            assert(before[p as int].1 < entry.1);
        }
    }
    ranked.insert(p, entry);
    proof {
        let after = ranked.deep_view();
        assert(after == before.insert(p as int, e));
        assert forall|i: int, j: int| 0 <= i < j < after.len() implies {
            &&& (#[trigger] after[i]).0 != (#[trigger] after[j]).0
            &&& after[i].1 >= after[j].1
            &&& after[i].1 == after[j].1 ==> occurs_before(stems, after[i].0, after[j].0)
        } by {
            let a = if i < p {
                i
            } else {
                i - 1
            };
            let b = if j < p {
                j
            } else {
                j - 1
            };
            if i < p {
                assert(after[i] == before[i]);
            } else if i > p {
                assert(after[i] == before[i - 1]);
            }
            if j < p {
                assert(after[j] == before[j]);
            } else if j > p {
                assert(after[j] == before[j - 1]);
            }
            if i == p {
                if b > p {
                    assert(before[p as int].1 >= before[b].1);
                }
            } else if j != p {
                assert(before[a].0 != before[b].0);
            }
        }
    }
}

/// Each distinct string of `stems` with how often it occurs, ranked.
pub fn rank_stems(stems: &Vec<String>) -> (r: Vec<(String, usize)>)
    ensures
        is_ranking(r.deep_view(), stems.deep_view()),
{
    let ghost all = stems.deep_view();
    let mut entries: Vec<(String, usize)> = Vec::new();
    let mut index: vstd::hash_map::StringHashMap<usize> = vstd::hash_map::StringHashMap::new();
    let mut i: usize = 0;
    assert(entries.deep_view() == Seq::<(Seq<char>, usize)>::empty());
    while i < stems.len()
        invariant
            i <= stems.len(),
            all == stems.deep_view(),
            counted(entries.deep_view(), all.take(i as int)),
            index_of_entries(index@, entries.deep_view()),
        decreases stems.len() - i,
    {
        let ghost was = all.take(i as int);
        let ghost before = entries.deep_view();
        let ghost w = all[i as int];
        proof {
            assert(w == stems[i as int]@);
            assert(all.take(i + 1) == was.push(w));
            lemma_counted_push(before, was, w);
        }
        let found: Option<usize> = match index.get(stems[i].as_str()) {
            Some(k) => Some(*k),
            None => None,
        };
        match found {
            Some(k) => {
                let n: usize = entries[k].1;
                let name = entries[k].0.clone();
                proof {
                    assert(before[k as int].0 == w);
                    lemma_count_le_len(was, w);
                }
                entries[k] = (name, n + 1);
                assert(entries.deep_view() == before.update(k as int, (w, (n + 1) as usize)));
            },
            None => {
                index.insert(stems[i].clone(), entries.len());
                entries.push((stems[i].clone(), 1));
                assert(entries.deep_view() == before.push((w, 1usize)));
                proof {
                    if was.contains(w) {
                        let j = choose|j: int| 0 <= j < before.len() && before[j].0 == w;
                        assert(index@.contains_key(w));
                    }
                }
            },
        }
        i = i + 1;
    }
    assert(all.take(all.len() as int) == all);
    let ghost listed = entries.deep_view();
    let mut ranked: Vec<(String, usize)> = Vec::new();
    let mut k: usize = 0;
    assert(ranked.deep_view() == Seq::<(Seq<char>, usize)>::empty());
    while k < entries.len()
        invariant
            k <= entries.len(),
            listed == entries.deep_view(),
            counted(listed, all),
            in_rank_order(ranked.deep_view(), all),
            forall|j: int|
                0 <= j < ranked.deep_view().len() ==> listed.take(k as int).contains(
                    #[trigger] ranked.deep_view()[j],
                ),
            forall|j: int|
                0 <= j < k ==> ranked.deep_view().contains(#[trigger] listed[j]),
        decreases entries.len() - k,
    {
        let ghost before = ranked.deep_view();
        let ghost e = listed[k as int];
        assert forall|j: int| 0 <= j < before.len() implies {
            &&& (#[trigger] before[j]).0 != e.0
            &&& occurs_before(all, before[j].0, e.0)
        } by {
            let m = choose|m: int| 0 <= m < k && listed.take(k as int)[m] == before[j];
            assert(listed[m] == before[j]);
        }
        rank_insert(&mut ranked, (entries[k].0.clone(), entries[k].1), Ghost(all));
        proof {
            let after = ranked.deep_view();
            let p = choose|p: int|
                0 <= p <= before.len() && #[trigger] before.insert(p, e) == after;
            assert forall|j: int| 0 <= j < after.len() implies listed.take(k + 1).contains(
                #[trigger] after[j],
            ) by {
                if j == p {
                    assert(listed.take(k + 1)[k as int] == after[j]);
                } else {
                    let b = if j < p {
                        j
                    } else {
                        j - 1
                    };
                    assert(after[j] == before[b]);
                    let m = choose|m: int| 0 <= m < k && listed.take(k as int)[m] == before[b];
                    assert(listed.take(k + 1)[m] == after[j]);
                }
            }
            assert forall|j: int| 0 <= j < k + 1 implies after.contains(#[trigger] listed[j]) by {
                if j == k {
                    assert(after[p] == e);
                } else {
                    let m = choose|m: int| 0 <= m < before.len() && before[m] == listed[j];
                    if m < p {
                        assert(after[m] == listed[j]);
                    } else {
                        assert(after[m + 1] == listed[j]);
                    }
                }
            }
        }
        k = k + 1;
    }
    proof {
        let r = ranked.deep_view();
        assert forall|j: int| 0 <= j < r.len() implies {
            &&& all.contains((#[trigger] r[j]).0)
            &&& r[j].1 == all.to_multiset().count(r[j].0)
        } by {
            let m = choose|m: int| 0 <= m < k && listed.take(k as int)[m] == r[j];
            assert(listed[m] == r[j]);
        }
        assert forall|w: Seq<char>| #[trigger] all.contains(w) implies exists|j: int|
            0 <= j < r.len() && (#[trigger] r[j]).0 == w by {
            let m = choose|m: int| 0 <= m < listed.len() && (#[trigger] listed[m]).0 == w;
            assert(r.contains(listed[m]));
            let j = choose|j: int| 0 <= j < r.len() && r[j] == listed[m];
            assert(r[j].0 == w);
        }
    }
    ranked
}

/// The stem of a word that counts.
fn counted_stem(word: &str) -> (r: Option<String>)
    requires
        text::bytes_of(cleaned(word@)) <= MAX_STEM_BYTES,
    ensures
        vstd::utf8::is_ascii_chars(word@) ==> cleaned(word@) == ascii_cleaned(word@),
        r.deep_view() == if counts(cleaned(word@)) {
            Some(english_stem(cleaned(word@)))
        } else {
            None
        },
{
    let clean = clean_word(word);
    if word_counts(clean.as_str()) {
        Some(stem(clean.as_str()))
    } else {
        None
    }
}

/// Compute word frequencies from text (filtered for stopwords).
pub fn word_frequencies(text: &str) -> (r: Vec<(String, usize)>)
    requires
        stemmable(text::words(text@)),
    ensures
        is_ranking(r.deep_view(), stems_of(text::words(text@))),
        ascii_words_are_plain(text::words(text@)),
{
    let ws = split_words(text);
    let ghost all = text::words(text@);
    let mut stems: Vec<String> = Vec::new();
    let mut i: usize = 0;
    assert(stems.deep_view() == Seq::<Seq<char>>::empty());
    assert(all.take(0) == Seq::<Seq<char>>::empty());
    while i < ws.len()
        invariant
            i <= ws.len(),
            all == ws.deep_view(),
            stemmable(all),
            stems.deep_view() == stems_of(all.take(i as int)),
            forall|j: int|
                0 <= j < i && vstd::utf8::is_ascii_chars(#[trigger] all[j]) ==> cleaned(all[j])
                    == ascii_cleaned(all[j]),
        decreases ws.len() - i,
    {
        let ghost before = stems.deep_view();
        proof {
            assert(all[i as int] == ws[i as int]@);
            assert(all.take(i + 1).drop_last() == all.take(i as int));
            assert(all.take(i + 1).last() == all[i as int]);
        }
        if let Some(s) = counted_stem(ws[i].as_str()) {
            let ghost w = s@;
            stems.push(s);
            assert(stems.deep_view() == before.push(w));
        }
        i = i + 1;
    }
    assert(all.take(all.len() as int) == all);
    rank_stems(&stems)
}

/// Word frequencies of a text, or `None` if one of its words is too long to be stemmed.
pub fn try_word_frequencies(text: &str) -> (r: Option<Vec<(String, usize)>>)
    ensures
        r is Some == stemmable(text::words(text@)),
        r matches Some(v) ==> is_ranking(v.deep_view(), stems_of(text::words(text@))),
        r is Some ==> ascii_words_are_plain(text::words(text@)),
{
    let ws = split_words(text);
    let ghost all = text::words(text@);
    let mut i: usize = 0;
    while i < ws.len()
        invariant
            i <= ws.len(),
            all == ws.deep_view(),
            all == text::words(text@),
            forall|j: int|
                0 <= j < i ==> text::bytes_of(cleaned(#[trigger] all[j])) <= MAX_STEM_BYTES,
        decreases ws.len() - i,
    {
        assert(all[i as int] == ws[i as int]@);
        let clean = clean_word(ws[i].as_str());
        if crate::text::byte_len(clean.as_str()) > MAX_STEM_BYTES as u128 {
            assert(text::bytes_of(cleaned(all[i as int])) > MAX_STEM_BYTES);
            return None;
        }
        i = i + 1;
    }
    Some(word_frequencies(text))
}

/// A ranking accounts for every stem: its counts add up to how many stems there are.
pub proof fn law_ranking_complete(ranked: Seq<(Seq<char>, usize)>, stems: Seq<Seq<char>>)
    requires
        is_ranking(ranked, stems),
    ensures
        total_count(ranked) == stems.len(),
{
    broadcast use vstd::seq_lib::group_to_multiset_ensures;

    let bag = stems.to_multiset();
    assert forall|w: Seq<char>| #[trigger] bag.count(w) > 0 implies exists|i: int|
        0 <= i < ranked.len() && (#[trigger] ranked[i]).0 == w by {
        assert(stems.contains(w));
    }
    lemma_total_count(ranked, bag);
}

/// The count that a ranking gives a stem, 0 where it does not list it.
pub open spec fn count_in(ranked: Seq<(Seq<char>, usize)>, w: Seq<char>) -> nat
    decreases ranked.len(),
{
    if ranked.len() == 0 {
        0
    } else if ranked.last().0 == w {
        ranked.last().1 as nat
    } else {
        count_in(ranked.drop_last(), w)
    }
}

/// Counts add up: what is counted in two texts with a space between them is what is counted in
/// each, so that it makes no difference which comes first.
pub proof fn law_counts_add(
    a: Seq<char>,
    b: Seq<char>,
    of_a: Seq<(Seq<char>, usize)>,
    of_b: Seq<(Seq<char>, usize)>,
    of_both: Seq<(Seq<char>, usize)>,
    of_swapped: Seq<(Seq<char>, usize)>,
    w: Seq<char>,
)
    requires
        is_ranking(of_a, stems_of(text::words(a))),
        is_ranking(of_b, stems_of(text::words(b))),
        is_ranking(of_both, stems_of(text::words(a + " "@ + b))),
        is_ranking(of_swapped, stems_of(text::words(b + " "@ + a))),
    ensures
        count_in(of_both, w) == count_in(of_a, w) + count_in(of_b, w),
        count_in(of_swapped, w) == count_in(of_both, w),
{
    text::lemma_words_spaced(a, b);
    text::lemma_words_spaced(b, a);
    lemma_stems_add(text::words(a), text::words(b));
    lemma_stems_add(text::words(b), text::words(a));
    let x = stems_of(text::words(a));
    let y = stems_of(text::words(b));
    vstd::seq_lib::lemma_multiset_commutative(x, y);
    vstd::seq_lib::lemma_multiset_commutative(y, x);
    lemma_count_in(of_a, x, w);
    lemma_count_in(of_b, y, w);
    lemma_count_in(of_both, x + y, w);
    lemma_count_in(of_swapped, y + x, w);
    assert((x + y).to_multiset().count(w) == x.to_multiset().count(w) + y.to_multiset().count(w));
    assert((y + x).to_multiset().count(w) == y.to_multiset().count(w) + x.to_multiset().count(w));
}

/// How words are spelled makes no difference: words that are the same once they are cleaned have
/// the same stems.
pub proof fn law_spelling(a: Seq<Seq<char>>, b: Seq<Seq<char>>)
    requires
        a.len() == b.len(),
        forall|i: int| 0 <= i < a.len() ==> cleaned(#[trigger] a[i]) == cleaned(b[i]),
    ensures
        stems_of(a) == stems_of(b),
    decreases a.len(),
{
    if a.len() > 0 {
        assert(cleaned(a[a.len() - 1]) == cleaned(b[a.len() - 1]));
        assert forall|i: int| 0 <= i < a.len() - 1 implies cleaned(#[trigger] a.drop_last()[i])
            == cleaned(b.drop_last()[i]) by {
            assert(cleaned(a[i]) == cleaned(b[i]));
        }
        law_spelling(a.drop_last(), b.drop_last());
    }
}

proof fn lemma_stems_add(a: Seq<Seq<char>>, b: Seq<Seq<char>>)
    ensures
        stems_of(a + b) == stems_of(a) + stems_of(b),
    decreases b.len(),
{
    if b.len() == 0 {
        assert(a + b == a);
        assert(stems_of(a) + stems_of(b) == stems_of(a));
    } else {
        lemma_stems_add(a, b.drop_last());
        assert((a + b).drop_last() == a + b.drop_last());
        assert((a + b).last() == b.last());
        assert(stems_of(a + b) == stems_of(a) + stems_of(b));
    }
}

proof fn lemma_count_in(ranked: Seq<(Seq<char>, usize)>, stems: Seq<Seq<char>>, w: Seq<char>)
    requires
        is_ranking(ranked, stems),
    ensures
        count_in(ranked, w) == stems.to_multiset().count(w),
{
    broadcast use vstd::seq_lib::group_to_multiset_ensures;

    lemma_count_in_at(ranked, w);
    if stems.contains(w) {
        let i = choose|i: int| 0 <= i < ranked.len() && (#[trigger] ranked[i]).0 == w;
        assert(ranked[i].0 == w);
    } else {
        assert(stems.to_multiset().count(w) == 0);
        assert forall|i: int| 0 <= i < ranked.len() implies (#[trigger] ranked[i]).0 != w by {
            assert(stems.contains(ranked[i].0));
        }
    }
}

proof fn lemma_count_in_at(ranked: Seq<(Seq<char>, usize)>, w: Seq<char>)
    requires
        forall|i: int, j: int|
            0 <= i < j < ranked.len() ==> (#[trigger] ranked[i]).0 != (#[trigger] ranked[j]).0,
    ensures
        forall|i: int|
            0 <= i < ranked.len() && (#[trigger] ranked[i]).0 == w ==> count_in(ranked, w)
                == ranked[i].1,
        (forall|i: int| 0 <= i < ranked.len() ==> (#[trigger] ranked[i]).0 != w) ==> count_in(
            ranked,
            w,
        ) == 0,
    decreases ranked.len(),
{
    if ranked.len() > 0 {
        let t = ranked.drop_last();
        lemma_count_in_at(t, w);
        assert(ranked.last() == ranked[ranked.len() - 1]);
        assert forall|i: int| 0 <= i < ranked.len() && (#[trigger] ranked[i]).0 == w implies count_in(
            ranked,
            w,
        ) == ranked[i].1 by {
            if i < t.len() {
                assert(t[i] == ranked[i]);
            }
        }
        if forall|i: int| 0 <= i < ranked.len() ==> (#[trigger] ranked[i]).0 != w {
            assert forall|i: int| 0 <= i < t.len() implies (#[trigger] t[i]).0 != w by {
                assert(t[i] == ranked[i]);
            }
        }
    }
}

/// The counts of a ranking, added up.
pub open spec fn total_count(ranked: Seq<(Seq<char>, usize)>) -> nat
    decreases ranked.len(),
{
    if ranked.len() == 0 {
        0
    } else {
        total_count(ranked.drop_last()) + ranked.last().1 as nat
    }
}

proof fn lemma_total_count(
    ranked: Seq<(Seq<char>, usize)>,
    bag: vstd::multiset::Multiset<Seq<char>>,
)
    requires
        forall|i: int| 0 <= i < ranked.len() ==> (#[trigger] ranked[i]).1 == bag.count(ranked[i].0),
        forall|i: int, j: int|
            0 <= i < j < ranked.len() ==> (#[trigger] ranked[i]).0 != (#[trigger] ranked[j]).0,
        forall|w: Seq<char>| #[trigger]
            bag.count(w) > 0 ==> exists|i: int| 0 <= i < ranked.len() && (#[trigger] ranked[i]).0 == w,
    ensures
        total_count(ranked) == bag.len(),
    decreases ranked.len(),
{
    broadcast use vstd::multiset::group_multiset_axioms;

    if ranked.len() == 0 {
        assert(bag =~= vstd::multiset::Multiset::empty());
    } else {
        let last = ranked.last();
        let rest = ranked.drop_last();
        let all_last = vstd::multiset::Multiset::<Seq<char>>::from_map(
            Map::<Seq<char>, nat>::empty().insert(last.0, last.1 as nat),
        );
        let smaller = bag.sub(all_last);
        assert forall|w: Seq<char>| smaller.count(w) == if w == last.0 {
            0
        } else {
            bag.count(w)
        } by {}
        lemma_repeat_len(last.0, last.1 as nat);
        assert forall|i: int| 0 <= i < rest.len() implies (#[trigger] rest[i]).1 == smaller.count(
            rest[i].0,
        ) by {
            assert(ranked[i] == rest[i]);
            assert(ranked[i].0 != ranked[ranked.len() - 1].0);
        }
        assert forall|w: Seq<char>| #[trigger] smaller.count(w) > 0 implies exists|i: int|
            0 <= i < rest.len() && (#[trigger] rest[i]).0 == w by {
            assert(bag.count(w) > 0);
            let i = choose|i: int| 0 <= i < ranked.len() && (#[trigger] ranked[i]).0 == w;
            assert(rest[i].0 == w);
        }
        assert forall|i: int, j: int| 0 <= i < j < rest.len() implies (#[trigger] rest[i]).0 != (
        #[trigger] rest[j]).0 by {
            assert(ranked[i].0 != ranked[j].0);
        }
        lemma_total_count(rest, smaller);
        assert(bag =~= smaller.add(all_last));
    }
}

proof fn lemma_repeat_len(w: Seq<char>, n: nat)
    ensures
        vstd::multiset::Multiset::<Seq<char>>::from_map(
            Map::<Seq<char>, nat>::empty().insert(w, n),
        ).len() == n,
    decreases n,
{
    broadcast use vstd::multiset::group_multiset_axioms;

    let m = vstd::multiset::Multiset::<Seq<char>>::from_map(
        Map::<Seq<char>, nat>::empty().insert(w, n),
    );
    if n == 0 {
        assert(m =~= vstd::multiset::Multiset::empty());
    } else {
        let less = vstd::multiset::Multiset::<Seq<char>>::from_map(
            Map::<Seq<char>, nat>::empty().insert(w, (n - 1) as nat),
        );
        lemma_repeat_len(w, (n - 1) as nat);
        assert(m =~= less.insert(w));
    }
}

/// `entries` lists each stem once with how often it occurs, in the order of first occurrence.
spec fn counted(entries: Seq<(Seq<char>, usize)>, stems: Seq<Seq<char>>) -> bool {
    &&& forall|i: int|
        0 <= i < entries.len() ==> {
            &&& stems.contains((#[trigger] entries[i]).0)
            &&& entries[i].1 == stems.to_multiset().count(entries[i].0)
        }
    &&& forall|w: Seq<char>| #[trigger]
        stems.contains(w) ==> exists|i: int| 0 <= i < entries.len() && (#[trigger] entries[i]).0 == w
    &&& forall|i: int, j: int|
        0 <= i < j < entries.len() ==> (#[trigger] entries[i]).0 != (#[trigger] entries[j]).0
            && occurs_before(stems, entries[i].0, entries[j].0)
}

/// `index` gives the place of each entry by its stem.
spec fn index_of_entries(index: Map<Seq<char>, usize>, entries: Seq<(Seq<char>, usize)>) -> bool {
    &&& forall|i: int| #![trigger entries[i]]
        0 <= i < entries.len() ==> index.contains_key(entries[i].0)
    &&& forall|w: Seq<char>| #[trigger]
        index.contains_key(w) ==> index[w] < entries.len() && entries[index[w] as int].0 == w
}

proof fn lemma_count_le_len(s: Seq<Seq<char>>, w: Seq<char>)
    ensures
        s.to_multiset().count(w) <= s.len(),
    decreases s.len(),
{
    broadcast use vstd::seq_lib::group_to_multiset_ensures;

    if s.len() > 0 {
        lemma_count_le_len(s.drop_last(), w);
        assert(s == s.drop_last().push(s.last()));
    } else {
        assert(!s.contains(w));
    }
}

/// One more occurrence of `w`, seen from the entries.
proof fn lemma_counted_push(entries: Seq<(Seq<char>, usize)>, stems: Seq<Seq<char>>, w: Seq<char>)
    requires
        counted(entries, stems),
        stems.len() < usize::MAX,
    ensures
        forall|k: int|
            0 <= k < entries.len() && (#[trigger] entries[k]).0 == w ==> counted(
                entries.update(k, (w, (entries[k].1 + 1) as usize)),
                stems.push(w),
            ),
        !stems.contains(w) ==> counted(entries.push((w, 1usize)), stems.push(w)),
{
    broadcast use vstd::seq_lib::group_to_multiset_ensures;

    let after = stems.push(w);
    assert forall|a: Seq<char>, b: Seq<char>| occurs_before(stems, a, b) implies #[trigger] occurs_before(
        after,
        a,
        b,
    ) by {
        let i = choose|i: int|
            0 <= i < stems.len() && #[trigger] stems[i] == a && forall|j: int|
                0 <= j <= i ==> stems[j] != b;
        assert(after[i] == a);
    }
    assert forall|v: Seq<char>| stems.contains(v) implies #[trigger] after.contains(v) by {
        let i = choose|i: int| 0 <= i < stems.len() && stems[i] == v;
        assert(after[i] == v);
    }
    assert(after.contains(w)) by {
        assert(after[stems.len() as int] == w);
    }
    assert forall|v: Seq<char>| #[trigger] after.contains(v) && v != w implies stems.contains(v) by {
        let i = choose|i: int| 0 <= i < after.len() && after[i] == v;
        assert(stems[i] == v);
    }
    assert forall|k: int| 0 <= k < entries.len() && (#[trigger] entries[k]).0 == w implies counted(
        entries.update(k, (w, (entries[k].1 + 1) as usize)),
        after,
    ) by {
        lemma_count_le_len(stems, w);
        let next = entries.update(k, (w, (entries[k].1 + 1) as usize));
        assert forall|i: int| 0 <= i < next.len() implies {
            &&& after.contains((#[trigger] next[i]).0)
            &&& next[i].1 == after.to_multiset().count(next[i].0)
        } by {
            assert(entries[i].0 == next[i].0);
        }
        assert forall|v: Seq<char>| #[trigger] after.contains(v) implies exists|i: int|
            0 <= i < next.len() && (#[trigger] next[i]).0 == v by {
            if v == w {
                assert(next[k].0 == v);
            } else {
                let i = choose|i: int| 0 <= i < entries.len() && (#[trigger] entries[i]).0 == v;
                assert(next[i].0 == v);
            }
        }
        assert forall|i: int, j: int| 0 <= i < j < next.len() implies (#[trigger] next[i]).0 != (
        #[trigger] next[j]).0 && occurs_before(after, next[i].0, next[j].0) by {
            assert(entries[i].0 == next[i].0);
            assert(entries[j].0 == next[j].0);
        }
    }
    if !stems.contains(w) {
        let next = entries.push((w, 1usize));
        assert(stems.to_multiset().count(w) == 0);
        assert forall|i: int| 0 <= i < next.len() implies {
            &&& after.contains((#[trigger] next[i]).0)
            &&& next[i].1 == after.to_multiset().count(next[i].0)
        } by {
            if i < entries.len() {
                assert(entries[i] == next[i]);
            }
        }
        assert forall|v: Seq<char>| #[trigger] after.contains(v) implies exists|i: int|
            0 <= i < next.len() && (#[trigger] next[i]).0 == v by {
            if v == w {
                assert(next[entries.len() as int].0 == v);
            } else {
                let i = choose|i: int| 0 <= i < entries.len() && (#[trigger] entries[i]).0 == v;
                assert(next[i].0 == v);
            }
        }
        assert forall|i: int, j: int| 0 <= i < j < next.len() implies (#[trigger] next[i]).0 != (
        #[trigger] next[j]).0 && occurs_before(after, next[i].0, next[j].0) by {
            assert(entries[i] == next[i]);
            if j < entries.len() {
                assert(entries[j] == next[j]);
            } else {
                let m = choose|m: int| 0 <= m < stems.len() && stems[m] == next[i].0;
                assert(after[m] == next[i].0);
                assert forall|q: int| 0 <= q <= m implies after[q] != w by {
                    assert(stems[q] == after[q]);
                }
            }
        }
    }
}

// ---------------------------------------------------------------------------
// Stages
// ---------------------------------------------------------------------------

/// The name of the audio file of a recording: that of the video, with another extension.
pub open spec fn audio_name(stem: Option<Seq<char>>) -> Seq<char> {
    let name = match stem {
        Some(s) => s,
        None => "audio"@,
    };
    name + ".wav"@
}

/// The name of the audio file for a video whose file name without extension is `stem`.
pub fn audio_file_name(stem: Option<String>) -> (r: String)
    ensures
        r@ == audio_name(stem.deep_view()),
{
    match stem {
        Some(s) => text::cat(s.as_str(), ".wav"),
        None => text::cat("audio", ".wav"),
    }
}

/// What ffmpeg is called with: the video in, 16 kHz mono PCM out.
pub open spec fn extraction_args(video: Seq<char>, audio: Seq<char>) -> Seq<Seq<char>> {
    seq![
        "-i"@,
        video,
        "-vn"@,
        "-acodec"@,
        "pcm_s16le"@,
        "-ar"@,
        "16000"@,
        "-ac"@,
        "1"@,
        "-y"@,
        audio,
    ]
}

/// What ffmpeg is called with to extract the audio of `video` to `audio`.
pub fn ffmpeg_args(video: &str, audio: &str) -> (r: Vec<String>)
    ensures
        r.deep_view() == extraction_args(video@, audio@),
{
    let list = [
        "-i",
        video,
        "-vn",
        "-acodec",
        "pcm_s16le",
        "-ar",
        "16000",
        "-ac",
        "1",
        "-y",
        audio,
    ];
    let r = text::owned(&list);
    assert(r.deep_view() == extraction_args(video@, audio@));
    r
}

/// How an extraction ended.
#[derive(Debug)]
pub enum Extraction {
    /// The audio is in this file.
    Done(String),
    /// ffmpeg could not be run, for this reason.
    Unstarted(String),
    /// ffmpeg failed with this status, and wrote this to standard error.
    Exited { status: String, stderr: String },
}

#[verifier::ext_equal]
pub enum ExtractionModel {
    Done(Seq<char>),
    Unstarted(Seq<char>),
    Exited { status: Seq<char>, stderr: Seq<char> },
}

impl DeepView for Extraction {
    type V = ExtractionModel;

    open spec fn deep_view(&self) -> ExtractionModel {
        match self {
            Extraction::Done(p) => ExtractionModel::Done(p@),
            Extraction::Unstarted(e) => ExtractionModel::Unstarted(e@),
            Extraction::Exited { status, stderr } => ExtractionModel::Exited {
                status: status@,
                stderr: stderr@,
            },
        }
    }
}

/// What an extraction reports.
pub open spec fn extraction_report(id: u128, e: ExtractionModel) -> EventModel {
    match e {
        ExtractionModel::Done(p) => EventModel::AudioExtracted { recording_id: id, audio_path: p },
        ExtractionModel::Unstarted(m) => EventModel::StageError {
            recording_id: id,
            error: "Audio extraction failed: "@ + m,
        },
        ExtractionModel::Exited { status, stderr } => EventModel::StageError {
            recording_id: id,
            error: "Audio extraction failed: "@ + ("ffmpeg exited with "@ + status + ": "@
                + text::at_most(stderr, 200)),
        },
    }
}

/// What an extraction reports.
pub fn extraction_event(recording_id: u128, outcome: Extraction) -> (r: PipelineEvent)
    ensures
        r.deep_view() == extraction_report(recording_id, outcome.deep_view()),
{
    match outcome {
        Extraction::Done(audio_path) => PipelineEvent::AudioExtracted { recording_id, audio_path },
        Extraction::Unstarted(e) => PipelineEvent::StageError {
            recording_id,
            error: text::cat("Audio extraction failed: ", e.as_str()),
        },
        Extraction::Exited { status, stderr } => {
            let mut said = text::cat3("ffmpeg exited with ", status.as_str(), ": ");
            let shown = text::first_chars(stderr.as_str(), 200);
            said.append(shown.as_str());
            PipelineEvent::StageError {
                recording_id,
                error: text::cat("Audio extraction failed: ", said.as_str()),
            }
        },
    }
}

/// What a transcription reports.
pub open spec fn transcription_report(
    id: u128,
    outcome: Result<TranscriptionModel, Seq<char>>,
) -> EventModel {
    match outcome {
        Ok(t) => EventModel::TranscriptionComplete {
            recording_id: id,
            segments: t.segments,
            full_text: t.full_text,
        },
        Err(e) => EventModel::StageError {
            recording_id: id,
            error: "Transcription failed: "@ + e,
        },
    }
}

/// What a transcription reports.
pub fn transcription_event(
    recording_id: u128,
    outcome: Result<TranscriptionResult, String>,
) -> (r: PipelineEvent)
    ensures
        r.deep_view() == transcription_report(
            recording_id,
            match outcome {
                Ok(t) => Ok(t.deep_view()),
                Err(e) => Err(e@),
            },
        ),
{
    match outcome {
        Ok(t) => PipelineEvent::TranscriptionComplete {
            recording_id,
            segments: t.segments,
            full_text: t.full_text,
        },
        Err(e) => PipelineEvent::StageError {
            recording_id,
            error: text::cat("Transcription failed: ", e.as_str()),
        },
    }
}

/// The chunks that a transcript is stored as, sized for search.
pub open spec fn transcript_chunks(segments: Seq<SegmentModel>) -> Seq<ChunkModel> {
    chunks_of(segments, 512)
}

/// A transcript of fewer than 512 tokens is stored as one chunk at most, and one with segments of 512
/// tokens and more as no fewer chunks than it has such segments.
pub proof fn law_transcript_chunks(segments: Seq<SegmentModel>)
    ensures
        tokens_of(trimmed_texts(segments)) < 512 ==> transcript_chunks(segments).len() <= 1,
        transcript_chunks(segments).len() >= segments.filter(
            |s: SegmentModel| tokens(text::trim(s.text)) >= 512,
        ).len(),
        text::ink_of(kept(transcript_chunks(segments))) == text::ink_of(said(segments)),
{
    law_chunk_number(segments, 512);
    law_chunks_keep_text(segments, 512);
    text::lemma_ink_join(kept(transcript_chunks(segments)));
    text::lemma_ink_join(said(segments));
}

/// The text that a transcript's words are counted in: its chunks, joined by spaces.
pub open spec fn counted_text(chunks: Seq<ChunkModel>) -> Seq<char> {
    text::join(kept(chunks), " "@)
}

/// The words of all chunks are counted, one chunk after the other: the words of one chunk more
/// follow those of the others, and nothing comes from elsewhere.
pub proof fn law_all_chunks_counted(chunks: Seq<ChunkModel>, c: ChunkModel)
    ensures
        text::words(counted_text(Seq::<ChunkModel>::empty())).len() == 0,
        text::words(counted_text(chunks.push(c))) == text::words(counted_text(chunks))
            + text::words(c.text),
{
    assert(kept(Seq::<ChunkModel>::empty()).len() == 0);
    assert(kept(chunks.push(c)) == kept(chunks).push(c.text));
    assert(kept(chunks).push(c.text).drop_last() == kept(chunks));
    if chunks.len() == 0 {
        assert(text::words(counted_text(chunks)) + text::words(c.text) == text::words(c.text));
    } else {
        text::lemma_words_spaced(counted_text(chunks), c.text);
    }
}

/// A ranking of what a transcript's chunks count adds up to the words that count in each of them:
/// none of a chunk's words goes missing, and none is counted twice.
pub proof fn law_chunks_ranked(
    chunks: Seq<ChunkModel>,
    ranked: Seq<(Seq<char>, usize)>,
    w: Seq<char>,
)
    requires
        is_ranking(ranked, stems_of(text::words(counted_text(chunks)))),
    ensures
        total_count(ranked) == chunks.fold_left(
            0,
            |sum: int, c: ChunkModel| sum + stems_of(text::words(c.text)).len(),
        ),
        count_in(ranked, w) == chunks.fold_left(
            0,
            |sum: int, c: ChunkModel|
                sum + stems_of(text::words(c.text)).to_multiset().count(w),
        ),
{
    law_ranking_complete(ranked, stems_of(text::words(counted_text(chunks))));
    lemma_count_in(ranked, stems_of(text::words(counted_text(chunks))), w);
    lemma_chunks_ranked(chunks, w);
}

proof fn lemma_chunks_ranked(chunks: Seq<ChunkModel>, w: Seq<char>)
    ensures
        stems_of(text::words(counted_text(chunks))).len() == chunks.fold_left(
            0,
            |sum: int, c: ChunkModel| sum + stems_of(text::words(c.text)).len(),
        ),
        stems_of(text::words(counted_text(chunks))).to_multiset().count(w) == chunks.fold_left(
            0,
            |sum: int, c: ChunkModel|
                sum + stems_of(text::words(c.text)).to_multiset().count(w),
        ),
    decreases chunks.len(),
{
    broadcast use vstd::seq_lib::group_to_multiset_ensures;

    reveal(Seq::fold_left);
    if chunks.len() == 0 {
        law_all_chunks_counted(chunks, arbitrary());
        assert(chunks == Seq::<ChunkModel>::empty());
        assert(text::words(counted_text(chunks)).len() == 0);
        let none = stems_of(text::words(counted_text(chunks)));
        assert(!none.contains(w));
    } else {
        let t = chunks.drop_last();
        let c = chunks.last();
        lemma_chunks_ranked(t, w);
        law_all_chunks_counted(t, c);
        assert(t.push(c) == chunks);
        let a = text::words(counted_text(t));
        let b = text::words(c.text);
        lemma_stems_add(a, b);
        vstd::seq_lib::lemma_multiset_commutative(stems_of(a), stems_of(b));
    }
}

/// Chunks on their way to the database, and their texts.
fn chunk_data(made: &Vec<Chunk>) -> (r: (Vec<ChunkData>, Vec<String>))
    ensures
        r.0.deep_view() == made.deep_view(),
        r.1.deep_view() == kept(made.deep_view()),
{
    let ghost want = made.deep_view();
    let mut chunks: Vec<ChunkData> = Vec::new();
    let mut texts: Vec<String> = Vec::new();
    assert(chunks.deep_view() == want.take(0));
    assert(texts.deep_view() == kept(want.take(0)));
    let mut i: usize = 0;
    while i < made.len()
        invariant
            i <= made.len(),
            want == made.deep_view(),
            chunks.deep_view() == want.take(i as int),
            texts.deep_view() == kept(want.take(i as int)),
        decreases made.len() - i,
    {
        let c = &made[i];
        assert(want[i as int] == c.deep_view());
        let data = ChunkData {
            text: c.text.clone(),
            start_sec: c.start_sec,
            end_sec: c.end_sec,
            token_count: c.token_count,
        };
        let ghost before = chunks.deep_view();
        let ghost said = texts.deep_view();
        chunks.push(data);
        texts.push(c.text.clone());
        assert(chunks.deep_view() == before.push(want[i as int]));
        assert(texts.deep_view() == said.push(want[i as int].text));
        assert(want.take(i + 1) == want.take(i as int).push(want[i as int]));
        assert(kept(want.take(i + 1)) == kept(want.take(i as int)).push(
            want[i as int].text,
        ));
        i = i + 1;
    }
    assert(want.take(made.len() as int) == want);
    (chunks, texts)
}

/// Chunks a transcript, counts its words, and reports both. A word that is too long to be stemmed
/// makes it fail.
#[verifier::spinoff_prover]
pub fn chunk_transcript(recording_id: u128, video_id: i64, segments: &Vec<Segment>) -> (r:
    PipelineEvent)
    requires
        2 * total_chars(segments.deep_view()) <= usize::MAX,
    ensures
        ({
            let want = transcript_chunks(segments.deep_view());
            let ws = text::words(counted_text(want));
            match r.deep_view() {
                EventModel::ChunkingComplete {
                    recording_id: id,
                    video_id: vid,
                    chunks,
                    word_frequencies,
                } => {
                    &&& stemmable(ws)
                    &&& id == recording_id
                    &&& vid == video_id
                    &&& chunks == want
                    &&& is_ranking(word_frequencies, stems_of(ws))
                    &&& total_count(word_frequencies) == chunks.fold_left(
                        0,
                        |sum: int, c: ChunkModel| sum + stems_of(text::words(c.text)).len(),
                    )
                },
                other => {
                    &&& !stemmable(ws)
                    &&& other == (EventModel::StageError {
                        recording_id,
                        error: "Chunking failed: word too long"@,
                    })
                },
            }
        }),
{
    let all = segments.as_slice();
    assert(all.deep_view() == segments.deep_view());
    let made = chunk_segments(all, 512);
    let (chunks, texts) = chunk_data(&made);
    let all = joined(&texts, " ");
    match try_word_frequencies(all.as_str()) {
        Some(word_frequencies) => {
            proof {
                law_chunks_ranked(chunks.deep_view(), word_frequencies.deep_view(), Seq::empty());
            }
            PipelineEvent::ChunkingComplete { recording_id, video_id, chunks, word_frequencies }
        },
        None => PipelineEvent::StageError {
            recording_id,
            error: "Chunking failed: word too long".to_owned(),
        },
    }
}

/// A word counts exactly when it takes two bytes at least and is not too common. The stems of words
/// are those of each that counts, in order: cleaned, then stemmed.
pub proof fn law_stems(a: Seq<Seq<char>>, b: Seq<Seq<char>>, w: Seq<char>)
    ensures
        counts(w) <==> text::bytes_of(w) >= 2 && !stopwords().contains(w),
        stems_of(Seq::empty()).len() == 0,
        counts(cleaned(w)) ==> stems_of(seq![w]) == seq![english_stem(cleaned(w))],
        !counts(cleaned(w)) ==> stems_of(seq![w]).len() == 0,
        stems_of(a + b) == stems_of(a) + stems_of(b),
{
    lemma_stems_add(a, b);
    reveal_with_fuel(stems_of, 2);
    assert(seq![w].drop_last() == Seq::<Seq<char>>::empty());
    assert(Seq::<Seq<char>>::empty().push(english_stem(cleaned(w))) == seq![
        english_stem(cleaned(w)),
    ]);
    reveal_with_fuel(text::bytes_of, 3);
    if w.len() == 1 {
        assert(w.drop_first().len() == 0);
    }
    if w.len() >= 2 {
        assert(w.drop_first().len() >= 1);
    }
}

/// A ranking gives the stem that occurs more often before one that occurs less often, and of two
/// that occur equally often the one that comes first in the text.
pub proof fn law_rank_order(
    ranked: Seq<(Seq<char>, usize)>,
    stems: Seq<Seq<char>>,
    i: int,
    j: int,
)
    requires
        is_ranking(ranked, stems),
        0 <= i < j < ranked.len(),
    ensures
        ({
            let a = stems.to_multiset().count(ranked[i].0);
            let b = stems.to_multiset().count(ranked[j].0);
            &&& ranked[i].0 != ranked[j].0
            &&& ranked[i].1 == a && ranked[j].1 == b
            &&& a > 0 && b > 0
            &&& a >= b
            &&& a == b ==> exists|p: int|
                0 <= p < stems.len() && #[trigger] stems[p] == ranked[i].0 && (forall|q: int|
                    0 <= q <= p ==> stems[q] != ranked[j].0)
        }),
{
    broadcast use vstd::seq_lib::group_to_multiset_ensures;

    assert(stems.contains(ranked[i].0));
    assert(stems.contains(ranked[j].0));
    if ranked[i].1 == ranked[j].1 {
        assert(occurs_before(stems, ranked[i].0, ranked[j].0));
    }
}

/// The command reads the video and writes the audio, which comes last: no pictures, one channel of
/// 16-bit samples at 16 kHz. The audio is named like the video.
pub proof fn law_extraction_call(video: Seq<char>, audio: Seq<char>, stem: Seq<char>)
    ensures
        ({
            let args = extraction_args(video, audio);
            &&& args.last() == audio
            &&& text::given(args, "-i"@, video)
            &&& text::given(args, "-acodec"@, "pcm_s16le"@)
            &&& text::given(args, "-ar"@, "16000"@)
            &&& text::given(args, "-ac"@, "1"@)
            &&& args.contains("-vn"@)
            &&& args.contains("-y"@)
        }),
        audio_name(Some(stem)) == stem + ".wav"@,
        audio_name(None) == "audio"@ + ".wav"@,
{
    let args = extraction_args(video, audio);
    assert(args[0] == "-i"@);
    assert(args[2] == "-vn"@);
    assert(args[3] == "-acodec"@);
    assert(args[5] == "-ar"@);
    assert(args[7] == "-ac"@);
    assert(args[9] == "-y"@);
}

/// An extraction that worked reports its file, a transcription its transcript, each for its own
/// recording; one that failed reports an error for that recording, with the reason.
pub proof fn law_stage_reports(
    id: u128,
    extraction: ExtractionModel,
    transcription: Result<TranscriptionModel, Seq<char>>,
)
    ensures
        match extraction {
            ExtractionModel::Done(p) => extraction_report(id, extraction)
                == (EventModel::AudioExtracted { recording_id: id, audio_path: p }),
            ExtractionModel::Unstarted(m) => extraction_report(id, extraction)
                == (EventModel::StageError {
                recording_id: id,
                error: "Audio extraction failed: "@ + m,
            }),
            ExtractionModel::Exited { status, stderr } => extraction_report(id, extraction)
                == (EventModel::StageError {
                recording_id: id,
                error: "Audio extraction failed: "@ + ("ffmpeg exited with "@ + status + ": "@
                    + if stderr.len() > 200 {
                    stderr.take(200)
                } else {
                    stderr
                }),
            }),
        },
        match transcription {
            Ok(t) => transcription_report(id, transcription) == (
            EventModel::TranscriptionComplete {
                recording_id: id,
                segments: t.segments,
                full_text: t.full_text,
            }),
            Err(e) => transcription_report(id, transcription) == (EventModel::StageError {
                recording_id: id,
                error: "Transcription failed: "@ + e,
            }),
        },
{
}

/// Neither case nor punctuation tells words apart: words that are the same in lower case are the same
/// cleaned, and what is left of a word is its letters and numbers in lower case, all of them and
/// nothing else.
pub proof fn law_cleaned(a: Seq<char>, b: Seq<char>, i: int)
    ensures
        text::lowercase(a) == text::lowercase(b) ==> cleaned(a) == cleaned(b),
        0 <= i < cleaned(a).len() ==> text::alphanumeric(cleaned(a)[i]) && text::lowercase(
            a,
        ).contains(cleaned(a)[i]),
        0 <= i < text::lowercase(a).len() && text::alphanumeric(text::lowercase(a)[i]) ==> cleaned(
            a,
        ).contains(text::lowercase(a)[i]),
        (forall|k: int|
            0 <= k < text::lowercase(a).len() ==> text::alphanumeric(
                #[trigger] text::lowercase(a)[k],
            )) ==> cleaned(a) == text::lowercase(a),
{
    let keep = |c: char| text::alphanumeric(c);
    let s = text::lowercase(a);
    if 0 <= i < cleaned(a).len() {
        s.lemma_filter_pred(keep, i);
        assert(s.filter(keep).contains(s.filter(keep)[i]));
        s.lemma_filter_contains_rev(keep, s.filter(keep)[i]);
    }
    if 0 <= i < s.len() && text::alphanumeric(s[i]) {
        s.lemma_filter_contains(keep, i);
    }
    if forall|k: int| 0 <= k < s.len() ==> text::alphanumeric(#[trigger] s[k]) {
        lemma_all_kept(s);
    }
}

proof fn lemma_all_kept(s: Seq<char>)
    requires
        forall|k: int| 0 <= k < s.len() ==> text::alphanumeric(#[trigger] s[k]),
    ensures
        s.filter(|c: char| text::alphanumeric(c)) == s,
    decreases s.len(),
{
    reveal(Seq::filter);
    if s.len() > 0 {
        let t = s.drop_last();
        assert forall|k: int| 0 <= k < t.len() implies text::alphanumeric(#[trigger] t[k]) by {
            assert(t[k] == s[k]);
        }
        lemma_all_kept(t);
        assert(text::alphanumeric(s[s.len() - 1]));
        assert(t.push(s.last()) == s);
    }
}

/// An ASCII word is cleaned to small letters and digits, whatever the case it is written in.
pub proof fn law_ascii_cleaned(word: Seq<char>, i: int)
    requires
        vstd::utf8::is_ascii_chars(word),
    ensures
        0 <= i < ascii_cleaned(word).len() ==> 'a' <= ascii_cleaned(word)[i] <= 'z' || '0'
            <= ascii_cleaned(word)[i] <= '9',
        ascii_cleaned(word.map_values(|c: char| text::ascii_small(c))) == ascii_cleaned(word),
        (forall|k: int|
            0 <= k < word.len() ==> 'a' <= #[trigger] word[k] <= 'z' || '0' <= word[k] <= '9')
            ==> ascii_cleaned(word) == word,
{
    let small = |c: char| text::ascii_small(c);
    let keep = |c: char| ascii_alphanumeric(c);
    let s = word.map_values(small);
    if 0 <= i < ascii_cleaned(word).len() {
        s.lemma_filter_pred(keep, i);
        assert(s.filter(keep).contains(s.filter(keep)[i]));
        s.lemma_filter_contains_rev(keep, s.filter(keep)[i]);
        let k = choose|k: int| 0 <= k < s.len() && s[k] == s.filter(keep)[i];
        assert(s[k] == text::ascii_small(word[k]));
    }
    assert(s.map_values(small) == s) by {
        assert forall|k: int| 0 <= k < s.len() implies #[trigger] s.map_values(small)[k] == s[k] by {
            assert(s[k] == text::ascii_small(word[k]));
        }
    }
    if forall|k: int|
        0 <= k < word.len() ==> 'a' <= #[trigger] word[k] <= 'z' || '0' <= word[k] <= '9' {
        assert(s == word) by {
            assert forall|k: int| 0 <= k < s.len() implies #[trigger] s[k] == word[k] by {
                assert('a' <= word[k] <= 'z' || '0' <= word[k] <= '9');
            }
        }
        lemma_ascii_kept(word);
    }
}

proof fn lemma_ascii_kept(s: Seq<char>)
    requires
        forall|k: int| 0 <= k < s.len() ==> 'a' <= #[trigger] s[k] <= 'z' || '0' <= s[k] <= '9',
    ensures
        s.filter(|c: char| ascii_alphanumeric(c)) == s,
    decreases s.len(),
{
    reveal(Seq::filter);
    if s.len() > 0 {
        let t = s.drop_last();
        assert forall|k: int| 0 <= k < t.len() implies 'a' <= #[trigger] t[k] <= 'z' || '0' <= t[k]
            <= '9' by {
            assert(t[k] == s[k]);
        }
        lemma_ascii_kept(t);
        assert('a' <= s[s.len() - 1] <= 'z' || '0' <= s[s.len() - 1] <= '9');
        assert(t.push(s.last()) == s);
    }
}

/// There are 111 words too common to count, and none of them ever does; the articles are among them.
pub proof fn law_common_words(i: int)
    requires
        0 <= i < stopwords().len(),
    ensures
        stopwords().len() == 111,
        !counts(stopwords()[i]),
        !counts("the"@) && !counts("a"@) && !counts("an"@),
{
    assert(stopwords()[0] == "a"@ && stopwords()[1] == "an"@ && stopwords()[2] == "the"@);
}

/// Only a word that takes more than 2147483647 bytes cleaned keeps a text from being counted.
pub proof fn law_stemmable(ws: Seq<Seq<char>>)
    ensures
        stemmable(ws) <==> forall|i: int|
            0 <= i < ws.len() ==> text::bytes_of(cleaned(#[trigger] ws[i])) <= 2147483647,
        forall|w: Seq<char>|
            #![trigger stemmable(ws.push(w))]
            stemmable(ws.push(w)) ==> stemmable(ws),
{
    assert forall|w: Seq<char>|
        #![trigger stemmable(ws.push(w))]
        stemmable(ws.push(w)) implies stemmable(ws) by {
        assert forall|i: int| 0 <= i < ws.len() implies text::bytes_of(cleaned(#[trigger] ws[i]))
            <= MAX_STEM_BYTES by {
            assert(ws.push(w)[i] == ws[i]);
        }
    }
}

} // verus!
