//! Transcription backends: which one a configuration asks for, and what a transcript file says.
pub mod voxtral_api;
pub mod voxtral_local;
pub mod whisper_cli;

use vstd::prelude::*;

use crate::config::{CrunchrConfig, CrunchrConfigModel};
use crate::crunchr::types::{Segment, SegmentModel};
use crate::json::{Json, JsonModel};
use crate::number::Double;
use crate::text;

use voxtral_api::VoxtralApiBackend;
use voxtral_local::VoxtralLocalBackend;
use whisper_cli::{WhisperCLIBackend, WhisperModel};

verus! {

/// Result of a transcription operation.
#[derive(Debug)]
pub struct TranscriptionResult {
    pub segments: Vec<Segment>,
    pub full_text: String,
}

#[verifier::ext_equal]
pub struct TranscriptionModel {
    pub segments: Seq<SegmentModel>,
    pub full_text: Seq<char>,
}

impl DeepView for TranscriptionResult {
    type V = TranscriptionModel;

    open spec fn deep_view(&self) -> TranscriptionModel {
        TranscriptionModel { segments: self.segments.deep_view(), full_text: self.full_text@ }
    }
}

/// Backend abstraction for transcription providers.
pub trait TranscriptionBackend {
    /// Whether the backend tells speakers apart.
    spec fn diarizes(&self) -> bool;

    /// The name of the backend.
    spec fn name(&self) -> Seq<char>;

    fn supports_diarization(&self) -> (r: bool)
        ensures
            r == self.diarizes(),
    ;

    fn backend_name(&self) -> (r: &'static str)
        ensures
            r@ == self.name(),
    ;
}

/// The backends there are.
#[derive(Debug, Clone)]
pub enum Backend {
    Whisper(WhisperCLIBackend),
    VoxtralLocal(VoxtralLocalBackend),
    VoxtralApi(VoxtralApiBackend),
}

#[verifier::ext_equal]
pub enum BackendModel {
    Whisper(WhisperModel),
    /// The endpoint.
    VoxtralLocal(Seq<char>),
    /// The key.
    VoxtralApi(Seq<char>),
}

impl DeepView for Backend {
    type V = BackendModel;

    open spec fn deep_view(&self) -> BackendModel {
        match self {
            Backend::Whisper(b) => BackendModel::Whisper(b.deep_view()),
            Backend::VoxtralLocal(b) => BackendModel::VoxtralLocal(b.deep_view()),
            Backend::VoxtralApi(b) => BackendModel::VoxtralApi(b.deep_view()),
        }
    }
}

impl BackendModel {
    pub open spec fn name(self) -> Seq<char> {
        match self {
            BackendModel::Whisper(_) => "whisper-cli"@,
            BackendModel::VoxtralLocal(_) => "voxtral-local"@,
            BackendModel::VoxtralApi(_) => "voxtral"@,
        }
    }
}

impl TranscriptionBackend for Backend {
    open spec fn diarizes(&self) -> bool {
        self is VoxtralApi
    }

    open spec fn name(&self) -> Seq<char> {
        self.deep_view().name()
    }

    fn supports_diarization(&self) -> (r: bool) {
        match self {
            Backend::Whisper(b) => b.supports_diarization(),
            Backend::VoxtralLocal(b) => b.supports_diarization(),
            Backend::VoxtralApi(b) => b.supports_diarization(),
        }
    }

    fn backend_name(&self) -> (r: &'static str) {
        match self {
            Backend::Whisper(b) => b.backend_name(),
            Backend::VoxtralLocal(b) => b.backend_name(),
            Backend::VoxtralApi(b) => b.backend_name(),
        }
    }
}

/// Whether a configuration names the Voxtral API.
pub open spec fn wants_api(backend: Seq<char>) -> bool {
    backend == "voxtral-api"@ || backend == "voxtral"@
}

/// The backend for a configuration and the key that its environment variable holds. The Voxtral
/// API needs a key: without one, the Whisper CLI takes its place.
pub open spec fn backend_for(c: CrunchrConfigModel, api_key: Option<Seq<char>>) -> BackendModel {
    let whisper = BackendModel::Whisper(
        WhisperModel { preferred: c.whisper_model, timeout_secs: c.whisper_timeout_secs },
    );
    if wants_api(c.backend) {
        match api_key {
            Some(key) => if key.len() > 0 {
                BackendModel::VoxtralApi(key)
            } else {
                whisper
            },
            None => whisper,
        }
    } else if c.backend == "voxtral-local"@ {
        let endpoint = match c.endpoint {
            Some(e) => e,
            None => "http://localhost:8000/v1"@,
        };
        BackendModel::VoxtralLocal(text::without_last(endpoint, '/'))
    } else {
        whisper
    }
}

/// Create the appropriate backend from config. `api_key` is what the environment variable that
/// the configuration names holds, if it names one that is set.
pub fn create_backend(config: &CrunchrConfig, api_key: Option<String>) -> (r: Backend)
    ensures
        r.deep_view() == backend_for(config.deep_view(), api_key.deep_view()),
{
    let name = config.backend.as_str();
    if text::same_str(name, "voxtral-api") || text::same_str(name, "voxtral") {
        match api_key {
            Some(key) => {
                if !key.as_str().is_empty() {
                    return Backend::VoxtralApi(VoxtralApiBackend::new(key));
                }
            },
            None => {},
        }
    } else if text::same_str(name, "voxtral-local") {
        let endpoint = match &config.endpoint {
            Some(e) => e.clone(),
            None => "http://localhost:8000/v1".to_owned(),
        };
        return Backend::VoxtralLocal(VoxtralLocalBackend::new(endpoint));
    }
    Backend::Whisper(
        WhisperCLIBackend::new(
            text::copy_option(&config.whisper_model),
            config.whisper_timeout_secs,
        ),
    )
}

/// Zero seconds.
pub open spec fn zero() -> Double {
    Double { bits: 0 }
}

/// The segment that the `i`-th entry of a transcript describes.
pub open spec fn segment_from(j: JsonModel, i: int) -> SegmentModel {
    SegmentModel {
        index: i as nat,
        start_sec: j.number_or("start"@, zero()),
        end_sec: j.number_or("end"@, zero()),
        text: text::trim(j.text_or("text"@, ""@)),
        speaker: None,
        confidence: j.field("avg_logprob"@).as_number(),
    }
}

/// The transcript that a document of Whisper's verbose form describes.
pub open spec fn transcript_from(doc: JsonModel) -> TranscriptionModel {
    let all = doc.list_or_none("segments"@);
    TranscriptionModel {
        segments: Seq::new(all.len(), |i: int| segment_from(all[i], i)),
        full_text: doc.text_or("text"@, ""@),
    }
}

/// The segment of one entry.
fn read_segment(j: &Json, i: usize) -> (r: Segment)
    ensures
        r.deep_view() == segment_from(j.deep_view(), i as int),
{
    let zero = Double { bits: 0 };
    let said = j.text_or("text", "");
    Segment {
        index: i,
        start_sec: j.number_or("start", zero),
        end_sec: j.number_or("end", zero),
        text: text::trimmed(said.as_str()),
        speaker: None,
        confidence: j.number_of("avg_logprob"),
    }
}

/// The transcript of a document.
pub fn read_transcript(doc: &Json) -> (r: TranscriptionResult)
    ensures
        r.deep_view() == transcript_from(doc.deep_view()),
{
    let mut segments: Vec<Segment> = Vec::new();
    let ghost all = doc.deep_view().list_or_none("segments"@);
    let ghost want = Seq::new(all.len(), |i: int| segment_from(all[i], i));
    match doc.field("segments") {
        Some(Json::List(items)) => {
            proof {
                crate::json::lemma_items(items@);
            }
            let mut i: usize = 0;
            while i < items.len()
                invariant
                    i <= items.len(),
                    all == crate::json::items_model(items@),
                    all.len() == items.len(),
                    want == Seq::new(all.len(), |i: int| segment_from(all[i], i)),
                    segments.deep_view() == want.take(i as int),
                decreases items.len() - i,
            {
                proof {
                    crate::json::lemma_items(items@);
                }
                let ghost before = segments.deep_view();
                let s = read_segment(&items[i], i);
                let ghost said = s.deep_view();
                segments.push(s);
                assert(segments.deep_view() == before.push(said));
                assert(want.take(i + 1) == want.take(i as int).push(want[i as int]));
                i = i + 1;
            }
            assert(want.take(items.len() as int) == want);
        },
        _ => {},
    }
    assert(segments.deep_view() == want);
    TranscriptionResult { segments, full_text: doc.text_or("text", "") }
}

/// A configured endpoint is the one that requests go to, whatever it is: only slashes at its end
/// are left away before the path of the service. The local one is used where none is configured,
/// and nowhere else.
pub proof fn law_endpoint(
    c: CrunchrConfigModel,
    api_key: Option<Seq<char>>,
    audio: Seq<u8>,
    file_name: Option<Seq<char>>,
    asked: Seq<char>,
)
    requires
        c.backend == "voxtral-local"@,
        c.endpoint == Some(asked) || c.endpoint is None && asked == "http://localhost:8000/v1"@,
    ensures
        backend_for(c, api_key) matches BackendModel::VoxtralLocal(endpoint) && {
            &&& endpoint.len() <= asked.len()
            &&& endpoint == asked.take(endpoint.len() as int)
            &&& endpoint.len() > 0 ==> endpoint.last() != '/'
            &&& forall|i: int| endpoint.len() <= i < asked.len() ==> #[trigger] asked[i] == '/'
            &&& voxtral_local::request_for(endpoint, audio, file_name).url == endpoint
                + "/audio/transcriptions"@
        },
{
    reveal_strlit("voxtral-local");
    reveal_strlit("voxtral-api");
    reveal_strlit("voxtral");
    assert("voxtral-local"@.len() != "voxtral-api"@.len());
    assert("voxtral-local"@.len() != "voxtral"@.len());
    text::law_without_last(asked, '/');
}

/// Two endpoints that differ in more than slashes at their ends are two backends.
pub proof fn law_endpoints_apart(
    c: CrunchrConfigModel,
    d: CrunchrConfigModel,
    api_key: Option<Seq<char>>,
    a: Seq<char>,
    b: Seq<char>,
)
    requires
        c.backend == "voxtral-local"@,
        d.backend == "voxtral-local"@,
        c.endpoint == Some(a),
        d.endpoint == Some(b),
        a.len() > 0 && a.last() != '/',
        b.len() > 0 && b.last() != '/',
    ensures
        backend_for(c, api_key) == backend_for(d, api_key) <==> a == b,
        backend_for(c, api_key) == BackendModel::VoxtralLocal(a),
{
    law_endpoint(c, api_key, Seq::empty(), None, a);
    law_endpoint(d, api_key, Seq::empty(), None, b);
    text::law_without_last(a, '/');
    text::law_without_last(b, '/');
}

/// The Voxtral API is used exactly when the configuration names it and there is a key that is not
/// empty, and with that key. Where it cannot be used, and wherever the configuration names neither
/// it nor a local Voxtral, it is the Whisper CLI, with the configured model and time limit.
pub proof fn law_backend_settings(c: CrunchrConfigModel, api_key: Option<Seq<char>>)
    ensures
        backend_for(c, api_key) matches BackendModel::VoxtralApi(key) ==> {
            &&& c.backend == "voxtral-api"@ || c.backend == "voxtral"@
            &&& api_key == Some(key)
            &&& key.len() > 0
        },
        api_key matches Some(key) ==> key.len() > 0 && (c.backend == "voxtral-api"@ || c.backend
            == "voxtral"@) ==> backend_for(c, api_key) == BackendModel::VoxtralApi(key),
        backend_for(c, api_key) is VoxtralLocal ==> c.backend == "voxtral-local"@,
        backend_for(c, api_key) matches BackendModel::Whisper(w) ==> {
            &&& w.preferred == c.whisper_model
            &&& w.timeout_secs == c.whisper_timeout_secs
            &&& c.backend != "voxtral-local"@
        },
{
    reveal_strlit("voxtral-local");
    reveal_strlit("voxtral-api");
    reveal_strlit("voxtral");
    assert("voxtral-local"@.len() != "voxtral-api"@.len());
    assert("voxtral-local"@.len() != "voxtral"@.len());
}

/// A transcript has one segment for every entry of its document, in order and numbered from 0,
/// with the entry's times, its text without the white space around it, and its confidence if it
/// gives one. No speaker is told. The whole text is the document's own.
pub proof fn law_transcript(doc: JsonModel, items: Seq<JsonModel>, i: int)
    requires
        doc.field("segments"@) == JsonModel::List(items),
        0 <= i < items.len(),
    ensures
        ({
            let t = transcript_from(doc);
            let s = t.segments[i];
            &&& t.segments.len() == items.len()
            &&& s.index == i
            &&& s.speaker is None
            &&& match items[i].field("start"@) {
                JsonModel::Number(Some(n)) => s.start_sec == n,
                _ => s.start_sec.bits == 0,
            }
            &&& match items[i].field("end"@) {
                JsonModel::Number(Some(n)) => s.end_sec == n,
                _ => s.end_sec.bits == 0,
            }
            &&& match items[i].field("text"@) {
                JsonModel::Text(said) => s.text == text::trim(said),
                _ => s.text.len() == 0,
            }
            &&& match items[i].field("avg_logprob"@) {
                JsonModel::Number(n) => s.confidence == n,
                _ => s.confidence is None,
            }
            &&& match doc.field("text"@) {
                JsonModel::Text(said) => t.full_text == said,
                _ => t.full_text.len() == 0,
            }
        }),
{
    reveal_strlit("");
    text::lemma_trim_empty(""@);
    text::lemma_ink_len(""@);
}

/// A document without a list of segments has a transcript without segments.
pub proof fn law_no_segments(doc: JsonModel)
    requires
        !(doc.field("segments"@) is List),
    ensures
        transcript_from(doc).segments.len() == 0,
{
}

/// A backend is called by a name that a configuration can ask for it by: asking for it that way, all
/// else the same, gives the same backend. Only the Voxtral API tells speakers apart.
pub proof fn law_backend_names(c: CrunchrConfigModel, api_key: Option<Seq<char>>)
    ensures
        backend_for(CrunchrConfigModel { backend: backend_for(c, api_key).name(), ..c }, api_key)
            == backend_for(c, api_key),
        forall|b: Backend| #[trigger] b.diarizes() <==> b.deep_view() is VoxtralApi,
{
    reveal_strlit("voxtral-local");
    reveal_strlit("voxtral-api");
    reveal_strlit("voxtral");
    reveal_strlit("whisper-cli");
    assert("voxtral-local"@.len() != "voxtral-api"@.len());
    assert("voxtral-local"@.len() != "voxtral"@.len());
    assert("voxtral-local"@.len() != "whisper-cli"@.len());
    assert("voxtral"@.len() != "whisper-cli"@.len());
    assert("voxtral-api"@[0] != "whisper-cli"@[0]);
}

} // verus!
