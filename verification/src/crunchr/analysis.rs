//! Analysis of transcripts by a language model: the request, and what a reply says.
use vstd::prelude::*;

use crate::config::CrunchrAnalysisConfig;
use crate::crunchr::types::{AnalysisData, AnalysisModel, EventModel, PipelineEvent};
use crate::json;
use crate::json::{Json, JsonModel};
use crate::number::Double;
use crate::text;

verus! {

/// Result of LLM analysis on a video's transcript.
#[derive(Debug, Clone)]
pub struct AnalysisResult {
    pub summary: String,
    pub topics: Vec<String>,
    pub sentiment: String,
}

impl DeepView for AnalysisResult {
    type V = AnalysisModel;

    open spec fn deep_view(&self) -> AnalysisModel {
        AnalysisModel {
            summary: self.summary@,
            topics: self.topics.deep_view(),
            sentiment: self.sentiment@,
        }
    }
}

// ---------------------------------------------------------------------------
// The request
// ---------------------------------------------------------------------------

/// The most words of a transcript that are sent.
pub open spec fn word_limit() -> nat {
    6000
}

/// The first words of a transcript, up to the limit, joined by spaces.
pub open spec fn truncated(transcript: Seq<char>) -> Seq<char> {
    let ws = text::words(transcript);
    text::join(
        if ws.len() <= word_limit() {
            ws
        } else {
            ws.take(word_limit() as int)
        },
        " "@,
    )
}

/// What the model is asked.
pub open spec fn prompt_for(
    channel_name: Seq<char>,
    title: Seq<char>,
    transcript: Seq<char>,
) -> Seq<char> {
    "Analyze this transcript from a live stream recording.\n\nChannel: "@ + channel_name
        + "\nTitle: "@ + title + "\n\nTranscript:\n"@ + truncated(transcript)
        + "\n\nRespond in this exact JSON format (no markdown, just raw JSON):\n{\n  \"summary\": \"2-3 sentence summary of the content\",\n  \"topics\": [\"topic1\", \"topic2\", \"topic3\"],\n  \"sentiment\": \"positive|negative|neutral|mixed\"\n}"@
}

/// A request for an analysis.
#[derive(Debug)]
pub struct AnalysisRequest {
    pub url: String,
    pub headers: Vec<(String, String)>,
    pub model: String,
    /// The one message, from the user.
    pub prompt: String,
    pub temperature: Double,
    pub max_tokens: u32,
}

#[verifier::ext_equal]
pub struct RequestModel {
    pub url: Seq<char>,
    pub headers: Seq<(Seq<char>, Seq<char>)>,
    pub model: Seq<char>,
    pub prompt: Seq<char>,
    pub temperature: Double,
    pub max_tokens: u32,
}

impl DeepView for AnalysisRequest {
    type V = RequestModel;

    open spec fn deep_view(&self) -> RequestModel {
        RequestModel {
            url: self.url@,
            headers: self.headers.deep_view(),
            model: self.model@,
            prompt: self.prompt@,
            temperature: self.temperature,
            max_tokens: self.max_tokens,
        }
    }
}

/// The double nearest to three tenths.
pub open spec fn three_tenths() -> Double {
    Double { bits: 0x3fd3_3333_3333_3333 }
}

/// The request for the analysis of a transcript.
pub open spec fn request_for(
    model: Seq<char>,
    api_key: Seq<char>,
    channel_name: Seq<char>,
    title: Seq<char>,
    transcript: Seq<char>,
) -> RequestModel {
    RequestModel {
        url: "https://openrouter.ai/api/v1/chat/completions"@,
        headers: seq![
            ("Authorization"@, "Bearer "@ + api_key),
            ("Content-Type"@, "application/json"@),
            ("HTTP-Referer"@, "https://github.com/strivo"@),
            ("X-Title"@, "StriVo CrunchR"@),
        ],
        model,
        prompt: prompt_for(channel_name, title, transcript),
        temperature: three_tenths(),
        max_tokens: 500,
    }
}

/// The request for the analysis of a transcript, if there is a key, or a message.
pub open spec fn asked_for(
    model: Seq<char>,
    api_key: Option<Seq<char>>,
    channel_name: Seq<char>,
    title: Seq<char>,
    transcript: Seq<char>,
) -> Result<RequestModel, Seq<char>> {
    match api_key {
        Some(key) => Ok(request_for(model, key, channel_name, title, transcript)),
        None => Err("OpenRouter API key not configured"@),
    }
}

/// The first words of a transcript, up to the limit.
fn truncate_transcript(transcript: &str) -> (r: String)
    ensures
        r@ == truncated(transcript@),
{
    let ws = text::split_words(transcript);
    let ghost all = ws.deep_view();
    assert(ws.len() == all.len());
    let n: usize = if ws.len() <= 6000 {
        ws.len()
    } else {
        6000
    };
    assert(all.subrange(0, n as int) == if all.len() <= word_limit() {
        all
    } else {
        all.take(word_limit() as int)
    });
    text::join_range(&ws, 0, n, " ")
}

/// The request for the analysis of a transcript. `api_key` is what the environment variable that
/// the settings name holds, if they name one that is set; without it there is no request.
pub fn analysis_request(
    config: &CrunchrAnalysisConfig,
    api_key: Option<String>,
    channel_name: &str,
    title: &str,
    transcript: &str,
) -> (r: Result<AnalysisRequest, String>)
    ensures
        match api_key {
            Some(key) => r matches Ok(q) && q.deep_view() == request_for(
                config.deep_view().model,
                key@,
                channel_name@,
                title@,
                transcript@,
            ),
            None => r matches Err(e) && e@ == "OpenRouter API key not configured"@,
        },
        match (
            r,
            asked_for(
                config.deep_view().model,
                api_key.deep_view(),
                channel_name@,
                title@,
                transcript@,
            ),
        ) {
            (Ok(q), Ok(m)) => q.deep_view() == m,
            (Err(e), Err(m)) => e@ == m,
            _ => false,
        },
{
    match api_key {
        Some(key) => {
            let mut prompt = text::cat3(
                "Analyze this transcript from a live stream recording.\n\nChannel: ",
                channel_name,
                "\nTitle: ",
            );
            prompt.append(title);
            prompt.append("\n\nTranscript:\n");
            let shown = truncate_transcript(transcript);
            prompt.append(shown.as_str());
            prompt.append(
                "\n\nRespond in this exact JSON format (no markdown, just raw JSON):\n{\n  \"summary\": \"2-3 sentence summary of the content\",\n  \"topics\": [\"topic1\", \"topic2\", \"topic3\"],\n  \"sentiment\": \"positive|negative|neutral|mixed\"\n}",
            );
            let headers = vec![
                ("Authorization".to_owned(), text::cat("Bearer ", key.as_str())),
                ("Content-Type".to_owned(), "application/json".to_owned()),
                ("HTTP-Referer".to_owned(), "https://github.com/strivo".to_owned()),
                ("X-Title".to_owned(), "StriVo CrunchR".to_owned()),
            ];
            let r = AnalysisRequest {
                url: "https://openrouter.ai/api/v1/chat/completions".to_owned(),
                headers,
                model: config.model.clone(),
                prompt,
                temperature: Double { bits: 0x3fd3_3333_3333_3333 },
                max_tokens: 500,
            };
            assert(r.deep_view() == request_for(
                config.deep_view().model,
                key@,
                channel_name@,
                title@,
                transcript@,
            ));
            Ok(r)
        },
        None => Err("OpenRouter API key not configured".to_owned()),
    }
}

// ---------------------------------------------------------------------------
// The reply
// ---------------------------------------------------------------------------

/// The text of the first choice of a completion, or an empty object.
pub open spec fn content_of(reply: JsonModel) -> Seq<char> {
    match reply.field("choices"@).item(0).field("message"@).field("content"@).as_text() {
        Some(t) => t,
        None => "{}"@,
    }
}

/// `s` behind the prefix `p`, or `other` if it has none.
pub open spec fn behind_or(s: Seq<char>, p: Seq<char>, other: Seq<char>) -> Seq<char> {
    match text::behind_prefix(s, p) {
        Some(rest) => rest,
        None => other,
    }
}

/// `s` before the suffix `p`, or `other` if it has none.
pub open spec fn before_or(s: Seq<char>, p: Seq<char>, other: Seq<char>) -> Seq<char> {
    match text::before_suffix(s, p) {
        Some(rest) => rest,
        None => other,
    }
}

/// What a completion holds inside a markdown code fence: the tag for JSON comes off the front, then
/// a bare fence, then one at the end. A fence that is missing is passed over.
pub open spec fn unfenced(content: Seq<char>) -> Seq<char> {
    let whole = text::trim(content);
    let untagged = behind_or(whole, "```json"@, whole);
    let inner = behind_or(untagged, "```"@, untagged);
    text::trim(before_or(inner, "```"@, inner))
}

/// The analysis in a document, with what stands in for missing parts.
pub open spec fn analysis_from(doc: JsonModel) -> AnalysisModel {
    AnalysisModel {
        summary: doc.text_or("summary"@, "Analysis unavailable"@),
        topics: texts_in(doc.list_or_none("topics"@)),
        sentiment: doc.text_or("sentiment"@, "unknown"@),
    }
}

/// The texts among values, in order.
pub open spec fn texts_in(items: Seq<JsonModel>) -> Seq<Seq<char>>
    decreases items.len(),
{
    if items.len() == 0 {
        Seq::empty()
    } else {
        match items.last().as_text() {
            Some(t) => texts_in(items.drop_last()).push(t),
            None => texts_in(items.drop_last()),
        }
    }
}

/// The document that a completion holds: the completion itself, else what it holds inside a code
/// fence, else null.
pub open spec fn document_in(content: Seq<char>) -> JsonModel {
    match json::json_document(content) {
        Ok(doc) => doc,
        Err(_) => match json::json_document(unfenced(content)) {
            Ok(doc) => doc,
            Err(_) => JsonModel::Null,
        },
    }
}

/// What came back for a request.
#[derive(Debug)]
pub enum AnalysisReply {
    /// Nothing, for this reason.
    Unreachable(String),
    /// A status other than success, with the body if it could be read.
    Refused { status: String, body: Option<String> },
    /// Success with this body.
    Answered(String),
}

#[verifier::ext_equal]
pub enum ReplyModel {
    Unreachable(Seq<char>),
    Refused { status: Seq<char>, body: Option<Seq<char>> },
    Answered(Seq<char>),
}

impl DeepView for AnalysisReply {
    type V = ReplyModel;

    open spec fn deep_view(&self) -> ReplyModel {
        match self {
            AnalysisReply::Unreachable(e) => ReplyModel::Unreachable(e@),
            AnalysisReply::Refused { status, body } => ReplyModel::Refused {
                status: status@,
                body: body.deep_view(),
            },
            AnalysisReply::Answered(b) => ReplyModel::Answered(b@),
        }
    }
}

/// What a reply means: an analysis, or a message.
pub open spec fn result_of(reply: ReplyModel) -> Result<AnalysisModel, Seq<char>> {
    match reply {
        ReplyModel::Unreachable(e) => Err(e),
        ReplyModel::Refused { status, body } => Err(
            "OpenRouter API returned "@ + status + ": "@ + text::at_most(
                match body {
                    Some(b) => b,
                    None => "unknown error"@,
                },
                300,
            ),
        ),
        ReplyModel::Answered(body) => match json::json_document(body) {
            Ok(doc) => Ok(analysis_from(document_in(content_of(doc)))),
            Err(_) => Err("error decoding response body"@),
        },
    }
}

/// The text of the first choice of a completion, or an empty object.
pub fn reply_content(reply: &Json) -> (r: String)
    ensures
        r@ == content_of(reply.deep_view()),
{
    match reply.field("choices") {
        Some(choices) => match choices.item(0) {
            Some(first) => match first.field("message") {
                Some(message) => message.text_or("content", "{}"),
                None => "{}".to_owned(),
            },
            None => "{}".to_owned(),
        },
        None => "{}".to_owned(),
    }
}

/// What a completion holds inside a markdown code fence.
pub fn strip_fences(content: &str) -> (r: String)
    ensures
        r@ == unfenced(content@),
{
    let whole = text::trimmed(content);
    let untagged = match text::strip_prefix(whole.as_str(), "```json") {
        Some(rest) => rest,
        None => whole,
    };
    let inner = match text::strip_prefix(untagged.as_str(), "```") {
        Some(rest) => rest,
        None => untagged,
    };
    match text::strip_suffix(inner.as_str(), "```") {
        Some(rest) => text::trimmed(rest.as_str()),
        None => text::trimmed(inner.as_str()),
    }
}

/// The document that a completion holds.
fn read_document(content: &str) -> (r: Json)
    ensures
        r.deep_view() == document_in(content@),
{
    match json::parse(content) {
        Ok(doc) => doc,
        Err(_) => {
            let inside = strip_fences(content);
            match json::parse(inside.as_str()) {
                Ok(doc) => doc,
                Err(_) => Json::Null,
            }
        },
    }
}

/// The analysis in a document, with what stands in for missing parts.
pub fn read_analysis(doc: &Json) -> (r: AnalysisResult)
    ensures
        r.deep_view() == analysis_from(doc.deep_view()),
{
    let mut topics: Vec<String> = Vec::new();
    let ghost all = doc.deep_view().list_or_none("topics"@);
    assert(topics.deep_view() == texts_in(Seq::empty()));
    match doc.field("topics") {
        Some(Json::List(items)) => {
            proof {
                json::lemma_items(items@);
                assert(all.take(0) == Seq::<JsonModel>::empty());
            }
            let mut i: usize = 0;
            while i < items.len()
                invariant
                    i <= items.len(),
                    all == json::items_model(items@),
                    all.len() == items.len(),
                    topics.deep_view() == texts_in(all.take(i as int)),
                decreases items.len() - i,
            {
                proof {
                    json::lemma_items(items@);
                    assert(all.take(i + 1).drop_last() == all.take(i as int));
                    assert(all.take(i + 1).last() == items[i as int].model());
                }
                match &items[i] {
                    Json::Text(t) => {
                        let ghost before = topics.deep_view();
                        topics.push(t.clone());
                        assert(topics.deep_view() == before.push(t@));
                    },
                    _ => {},
                }
                i = i + 1;
            }
            assert(all.take(items.len() as int) == all);
        },
        _ => {},
    }
    AnalysisResult {
        summary: doc.text_or("summary", "Analysis unavailable"),
        topics,
        sentiment: doc.text_or("sentiment", "unknown"),
    }
}

/// What a reply means.
pub fn analysis_result(reply: AnalysisReply) -> (r: Result<AnalysisResult, String>)
    ensures
        match (r, result_of(reply.deep_view())) {
            (Ok(a), Ok(m)) => a.deep_view() == m,
            (Err(e), Err(m)) => e@ == m,
            _ => false,
        },
{
    match reply {
        AnalysisReply::Unreachable(e) => Err(e),
        AnalysisReply::Refused { status, body } => {
            let mut out = text::cat3("OpenRouter API returned ", status.as_str(), ": ");
            let said = match body {
                Some(b) => b,
                None => "unknown error".to_owned(),
            };
            let shown = text::first_chars(said.as_str(), 300);
            out.append(shown.as_str());
            Err(out)
        },
        AnalysisReply::Answered(body) => match json::parse(body.as_str()) {
            Ok(doc) => {
                let content = reply_content(&doc);
                let inner = read_document(content.as_str());
                Ok(read_analysis(&inner))
            },
            Err(_) => Err("error decoding response body".to_owned()),
        },
    }
}

// ---------------------------------------------------------------------------
// Storing
// ---------------------------------------------------------------------------

/// What an analysis reports. A failed one does not fail the recording: it is stored as empty.
pub open spec fn analysis_report(
    id: u128,
    outcome: Result<AnalysisModel, Seq<char>>,
) -> EventModel {
    match outcome {
        Ok(a) => EventModel::AnalysisComplete {
            recording_id: id,
            summary: a.summary,
            topics: json::json_of_texts(a.topics),
            sentiment: a.sentiment,
        },
        Err(_) => EventModel::AnalysisComplete {
            recording_id: id,
            summary: Seq::empty(),
            topics: "[]"@,
            sentiment: "unknown"@,
        },
    }
}

/// What an analysis reports.
pub fn analysis_event(recording_id: u128, outcome: Result<AnalysisResult, String>) -> (r:
    PipelineEvent)
    ensures
        r.deep_view() == analysis_report(
            recording_id,
            match outcome {
                Ok(a) => Ok(a.deep_view()),
                Err(e) => Err(e@),
            },
        ),
        match (outcome, r) {
            (Ok(a), PipelineEvent::AnalysisComplete { topics, .. }) => topics_from(topics@)
                == a.topics.deep_view(),
            _ => true,
        },
{
    match outcome {
        Ok(a) => {
            let topics = json::write_texts(&a.topics);
            PipelineEvent::AnalysisComplete {
                recording_id,
                summary: a.summary,
                topics,
                sentiment: a.sentiment,
            }
        },
        Err(_) => PipelineEvent::AnalysisComplete {
            recording_id,
            summary: String::new(),
            topics: "[]".to_owned(),
            sentiment: "unknown".to_owned(),
        },
    }
}

/// The topics that a stored text holds; none if it does not hold a list of texts.
pub open spec fn topics_from(stored: Seq<char>) -> Seq<Seq<char>> {
    match json::texts_of_json(stored) {
        Some(list) => list,
        None => Seq::empty(),
    }
}

/// The topics that a stored text holds.
pub fn read_topics(stored: &str) -> (r: Vec<String>)
    ensures
        r.deep_view() == topics_from(stored@),
{
    match json::read_texts(stored) {
        Some(list) => list,
        None => {
            let none: Vec<String> = Vec::new();
            assert(none.deep_view() == Seq::<Seq<char>>::empty());
            none
        },
    }
}

/// The stored analysis of a video, as it is shown.
pub open spec fn shown_from(
    summary: Seq<char>,
    topics: Seq<char>,
    sentiment: Seq<char>,
) -> AnalysisModel {
    AnalysisModel { summary, topics: topics_from(topics), sentiment }
}

/// The stored analysis of a video, as it is shown.
pub fn stored_analysis(summary: String, topics: &str, sentiment: String) -> (r: AnalysisData)
    ensures
        r.deep_view() == (AnalysisModel {
            summary: summary@,
            topics: topics_from(topics@),
            sentiment: sentiment@,
        }),
        r.deep_view() == shown_from(summary@, topics@, sentiment@),
{
    AnalysisData { summary, topics: read_topics(topics), sentiment }
}

/// What stands on lines of its own inside a code fence is what comes out, whether the fence is
/// tagged as JSON or not.
pub proof fn law_fenced(body: Seq<char>)
    requires
        body.len() > 0,
        !text::white(body[0]),
        !text::white(body.last()),
    ensures
        unfenced("```json\n"@ + body + "\n```"@) == body,
        unfenced("```\n"@ + body + "\n```"@) == body,
{
    reveal_strlit("```json\n");
    reveal_strlit("```json");
    reveal_strlit("```\n");
    reveal_strlit("```");
    reveal_strlit("\n```");
    let rest = seq!['\n'] + body + "\n```"@;
    let tagged = "```json\n"@ + body + "\n```"@;
    let plain = "```\n"@ + body + "\n```"@;
    assert(text::trim(tagged) == tagged);
    assert(text::trim(plain) == plain);
    assert(tagged.subrange(0, 7) == "```json"@);
    assert(tagged.skip(7) == rest);
    assert(plain[3] == '\n');
    assert("```json"@[3] == 'j');
    assert(plain.subrange(0, 7)[3] == '\n');
    assert(plain.subrange(0, 3) == "```"@);
    assert(plain.skip(3) == rest);
    assert(rest.subrange(0, 3)[0] == '\n');
    assert("```"@[0] == '`');
    assert(rest.subrange(rest.len() - 3, rest.len() as int) == "```"@);
    let lines = rest.take(rest.len() - 3);
    assert(lines == seq!['\n'] + body + seq!['\n']);
    assert(lines.drop_first() == body + seq!['\n']);
    assert((body + seq!['\n']).drop_last() == body);
    assert(text::trim_start(body + seq!['\n']) == body + seq!['\n']);
    assert(text::trim_end(body) == body);
    assert(text::trim(lines) == body);
}

/// No more than the limit of words is sent, and they are the first words of the transcript.
pub proof fn law_truncated(transcript: Seq<char>)
    ensures
        text::words(truncated(transcript)).len() <= word_limit(),
        text::words(truncated(transcript)) == if text::words(transcript).len() <= word_limit() {
            text::words(transcript)
        } else {
            text::words(transcript).take(word_limit() as int)
        },
{
    let ws = text::words(transcript);
    text::lemma_words(transcript);
    let sent = if ws.len() <= word_limit() {
        ws
    } else {
        ws.take(word_limit() as int)
    };
    assert forall|i: int| 0 <= i < sent.len() implies text::is_word(#[trigger] sent[i]) by {
        assert(sent[i] == ws[i]);
    }
    text::lemma_words_join(sent);
}

/// The model is asked about the channel and the title it is told, and about the first six thousand
/// words of the transcript, no more and no fewer. The request goes to the configured model under the
/// key, for an answer of 500 tokens at most.
pub proof fn law_asked(
    model: Seq<char>,
    api_key: Seq<char>,
    channel_name: Seq<char>,
    title: Seq<char>,
    transcript: Seq<char>,
)
    ensures
        ({
            let r = request_for(model, api_key, channel_name, title, transcript);
            let ws = text::words(transcript);
            &&& r.url == "https://openrouter.ai/api/v1/chat/completions"@
            &&& r.model == model
            &&& r.headers.contains(("Authorization"@, "Bearer "@ + api_key))
            &&& r.headers.contains(("Content-Type"@, "application/json"@))
            &&& r.max_tokens == 500
            &&& exists|sent: Seq<char>|
                {
                    &&& r.prompt
                        == "Analyze this transcript from a live stream recording.\n\nChannel: "@
                        + channel_name + "\nTitle: "@ + title + "\n\nTranscript:\n"@ + sent
                        + "\n\nRespond in this exact JSON format (no markdown, just raw JSON):\n{\n  \"summary\": \"2-3 sentence summary of the content\",\n  \"topics\": [\"topic1\", \"topic2\", \"topic3\"],\n  \"sentiment\": \"positive|negative|neutral|mixed\"\n}"@
                    &&& ws.len() <= 6000 ==> #[trigger] text::words(sent) == ws
                    &&& ws.len() > 6000 ==> text::words(sent) == ws.take(6000)
                }
        }),
{
    let r = request_for(model, api_key, channel_name, title, transcript);
    assert(r.headers[0] == ("Authorization"@, "Bearer "@ + api_key));
    assert(r.headers[1] == ("Content-Type"@, "application/json"@));
    law_truncated(transcript);
    assert(text::words(truncated(transcript)).len() <= 6000);
}

/// White space makes no difference to what is asked, nor do words behind the limit.
pub proof fn law_same_words_same_prompt(
    channel_name: Seq<char>,
    title: Seq<char>,
    a: Seq<char>,
    b: Seq<char>,
)
    requires
        text::words(a) == text::words(b) || text::words(a).len() >= 6000 && text::words(b).len()
            >= 6000 && text::words(a).take(6000) == text::words(b).take(6000),
    ensures
        prompt_for(channel_name, title, a) == prompt_for(channel_name, title, b),
{
    assert(text::words(a).take(text::words(a).len() as int) == text::words(a));
    assert(text::words(b).take(text::words(b).len() as int) == text::words(b));
}

/// The topics of an analysis are the texts of its list, all of them and in order; what is no text is
/// passed over.
pub proof fn law_topics(items: Seq<JsonModel>)
    ensures
        ({
            let texts = items.filter(|j: JsonModel| j is Text);
            &&& texts_in(items).len() == texts.len()
            &&& forall|k: int|
                0 <= k < texts.len() ==> #[trigger] texts[k] == JsonModel::Text(texts_in(items)[k])
        }),
    decreases items.len(),
{
    reveal(Seq::filter);
    let is_text = |j: JsonModel| j is Text;
    if items.len() > 0 {
        let t = items.drop_last();
        law_topics(t);
        let before = t.filter(is_text);
        let now = items.filter(is_text);
        assert forall|k: int| 0 <= k < now.len() implies #[trigger] now[k] == JsonModel::Text(
            texts_in(items)[k],
        ) by {
            if k < before.len() {
                assert(now[k] == before[k]);
                assert(texts_in(items)[k] == texts_in(t)[k]);
            }
        }
    }
}

/// An analysis says what its document says; a part that is missing, or is something else than it
/// should be, is stood in for, and the other parts stay.
pub proof fn law_analysis(doc: JsonModel)
    ensures
        ({
            let a = analysis_from(doc);
            &&& match doc.field("summary"@) {
                JsonModel::Text(t) => a.summary == t,
                _ => a.summary == "Analysis unavailable"@,
            }
            &&& match doc.field("topics"@) {
                JsonModel::List(items) => a.topics == texts_in(items),
                _ => a.topics.len() == 0,
            }
            &&& match doc.field("sentiment"@) {
                JsonModel::Text(t) => a.sentiment == t,
                _ => a.sentiment == "unknown"@,
            }
        }),
{
}

/// A completion that is a document is read as it is. Only where it is none is it taken out of a code
/// fence, and only where that is none either does it say nothing.
pub proof fn law_document(content: Seq<char>)
    ensures
        json::json_document(content) matches Ok(doc) ==> document_in(content) == doc,
        json::json_document(content) is Err ==> match json::json_document(unfenced(content)) {
            Ok(doc) => document_in(content) == doc,
            Err(_) => document_in(content) == JsonModel::Null,
        },
{
}

/// The answer is the text of the first choice's message.
pub proof fn law_first_choice(reply: JsonModel, choices: Seq<JsonModel>)
    requires
        reply.field("choices"@) == JsonModel::List(choices),
    ensures
        choices.len() > 0 ==> match choices[0].field("message"@).field("content"@) {
            JsonModel::Text(t) => content_of(reply) == t,
            _ => content_of(reply) == "{}"@,
        },
        choices.len() == 0 ==> content_of(reply) == "{}"@,
{
}

/// An analysis comes exactly from an answer that is a document, and says what the first choice in it
/// says. Else the message says why there is none.
pub proof fn law_reply(reply: ReplyModel)
    ensures
        match reply {
            ReplyModel::Answered(body) => match json::json_document(body) {
                Ok(doc) => result_of(reply) == Ok::<_, Seq<char>>(
                    analysis_from(document_in(content_of(doc))),
                ),
                Err(_) => result_of(reply) == Err::<AnalysisModel, _>(
                    "error decoding response body"@,
                ),
            },
            ReplyModel::Unreachable(e) => result_of(reply) == Err::<AnalysisModel, _>(e),
            ReplyModel::Refused { status, body: Some(b) } => result_of(reply) == Err::<
                AnalysisModel,
                _,
            >(
                "OpenRouter API returned "@ + status + ": "@ + if b.len() > 300 {
                    b.take(300)
                } else {
                    b
                },
            ),
            ReplyModel::Refused { status, body: None } => result_of(reply) == Err::<
                AnalysisModel,
                _,
            >("OpenRouter API returned "@ + status + ": "@ + "unknown error"@),
        },
{
    reveal_strlit("unknown error");
}

/// An analysis is reported for its own recording as it came, and one that failed is reported all the
/// same, as empty: it never fails the recording.
pub proof fn law_report(id: u128, outcome: Result<AnalysisModel, Seq<char>>)
    ensures
        analysis_report(id, outcome) matches EventModel::AnalysisComplete {
            recording_id,
            summary,
            topics,
            sentiment,
        } && {
            &&& recording_id == id
            &&& outcome matches Ok(a) ==> summary == a.summary && sentiment == a.sentiment
                && topics == json::json_of_texts(a.topics)
            &&& outcome is Err ==> summary.len() == 0 && sentiment == "unknown"@ && topics
                == "[]"@
        },
{
}

/// A completion without a fence loses nothing but the white space around it.
pub proof fn law_unfenced(content: Seq<char>)
    requires
        !text::stands_at(text::trim(content), "```"@, 0),
        !text::stands_at(text::trim(content), "```"@, text::trim(content).len() - 3),
    ensures
        unfenced(content) == text::trim(content),
{
    reveal_strlit("```json");
    reveal_strlit("```");
    let whole = text::trim(content);
    if text::stands_at(whole, "```json"@, 0) {
        assert(whole.subrange(0, 3) == whole.subrange(0, 7).subrange(0, 3));
        assert("```json"@.subrange(0, 3) == "```"@);
        assert(text::stands_at(whole, "```"@, 0));
    }
    text::law_trim(content);
}

/// There is a request exactly where there is a key, and it carries that key; without one it is said
/// that none is configured.
pub proof fn law_key_needed(
    model: Seq<char>,
    api_key: Option<Seq<char>>,
    channel_name: Seq<char>,
    title: Seq<char>,
    transcript: Seq<char>,
)
    ensures
        ({
            let r = asked_for(model, api_key, channel_name, title, transcript);
            &&& r is Ok <==> api_key is Some
            &&& api_key matches Some(key) ==> r->Ok_0.headers.contains(
                ("Authorization"@, "Bearer "@ + key),
            ) && r->Ok_0.model == model && r->Ok_0.prompt == prompt_for(
                channel_name,
                title,
                transcript,
            )
            &&& api_key is None ==> r->Err_0 == "OpenRouter API key not configured"@
        }),
{
    if api_key is Some {
        law_asked(model, api_key->0, channel_name, title, transcript);
    }
}

/// What is shown of a stored analysis is what was reported: its summary, its topics and its
/// sentiment, where the topics can be read back as they were written.
pub proof fn law_stored_is_shown(id: u128, a: AnalysisModel)
    requires
        topics_from(json::json_of_texts(a.topics)) == a.topics,
    ensures
        analysis_report(id, Ok(a)) matches EventModel::AnalysisComplete {
            recording_id,
            summary,
            topics,
            sentiment,
        } && shown_from(summary, topics, sentiment) == a,
{
}

} // verus!
