//! The self-hosted Voxtral backend: its requests and what its replies mean.
use vstd::prelude::*;

use crate::crunchr::transcribe;
use crate::crunchr::transcribe::{read_transcript, TranscriptionBackend, TranscriptionResult};
use crate::json;
use crate::number::Double;
use crate::text;

verus! {

/// Self-hosted Voxtral backend via any OpenAI-compatible endpoint (vLLM, RunPod, etc.).
/// Free transcription, no diarization (open-source models don't support it).
#[derive(Debug, Clone)]
pub struct VoxtralLocalBackend {
    endpoint: String,
}

impl DeepView for VoxtralLocalBackend {
    type V = Seq<char>;

    closed spec fn deep_view(&self) -> Seq<char> {
        self.endpoint@
    }
}

impl VoxtralLocalBackend {
    /// A backend for `endpoint`, without the slashes at its end.
    pub fn new(endpoint: String) -> (r: Self)
        ensures
            r.deep_view() == text::without_last(endpoint@, '/'),
    {
        VoxtralLocalBackend { endpoint: text::trim_end_char(endpoint.as_str(), '/') }
    }

    /// The request for the transcript of `audio`.
    pub fn request(&self, audio: &Vec<u8>, file_name: Option<String>) -> (r: VoxtralRequest)
        requires
            base64_of(audio@).len() <= usize::MAX,
        ensures
            r.deep_view() == request_for(self.deep_view(), audio@, file_name.deep_view()),
    {
        VoxtralRequest {
            url: text::cat(self.endpoint.as_str(), "/audio/transcriptions"),
            model: "default".to_owned(),
            temperature: Double { bits: 0 },
            response_format: "verbose_json".to_owned(),
            file_data: base64_text(audio),
            file_name: match file_name {
                Some(f) => f,
                None => "audio.wav".to_owned(),
            },
        }
    }

    /// What a reply to a request to `url` means.
    pub fn result(url: &str, reply: VoxtralReply) -> (r: Result<TranscriptionResult, String>)
        ensures
            match (r, result_of(url@, reply.deep_view())) {
                (Ok(t), Ok(m)) => t.deep_view() == m,
                (Err(e), Err(m)) => e@ == m,
                _ => false,
            },
    {
        match reply {
            VoxtralReply::Unreachable(e) => {
                let mut out = text::cat3("Failed to reach Voxtral endpoint at ", url, ": ");
                out.append(e.as_str());
                Err(out)
            },
            VoxtralReply::Refused { status, body } => {
                let mut out = text::cat3("Voxtral local endpoint returned ", status.as_str(), ": ");
                let said = match body {
                    Some(b) => b,
                    None => "unknown error".to_owned(),
                };
                let shown = text::first_chars(said.as_str(), 300);
                out.append(shown.as_str());
                Err(out)
            },
            VoxtralReply::Broken(e) => Err(e),
            VoxtralReply::Answered(body) => match json::parse(body.as_str()) {
                Ok(doc) => Ok(read_transcript(&doc)),
                Err(_) => Err("error decoding response body".to_owned()),
            },
        }
    }
}

impl TranscriptionBackend for VoxtralLocalBackend {
    open spec fn diarizes(&self) -> bool {
        false
    }

    open spec fn name(&self) -> Seq<char> {
        "voxtral-local"@
    }

    fn supports_diarization(&self) -> (r: bool) {
        false
    }

    fn backend_name(&self) -> (r: &'static str) {
        "voxtral-local"
    }
}

/// A transcription request.
#[derive(Debug)]
pub struct VoxtralRequest {
    pub url: String,
    pub model: String,
    pub temperature: Double,
    pub response_format: String,
    /// The audio in base 64.
    pub file_data: String,
    pub file_name: String,
}

#[verifier::ext_equal]
pub struct VoxtralRequestModel {
    pub url: Seq<char>,
    pub model: Seq<char>,
    pub temperature: Double,
    pub response_format: Seq<char>,
    pub file_data: Seq<char>,
    pub file_name: Seq<char>,
}

impl DeepView for VoxtralRequest {
    type V = VoxtralRequestModel;

    open spec fn deep_view(&self) -> VoxtralRequestModel {
        VoxtralRequestModel {
            url: self.url@,
            model: self.model@,
            temperature: self.temperature,
            response_format: self.response_format@,
            file_data: self.file_data@,
            file_name: self.file_name@,
        }
    }
}

/// The request for the transcript of `audio` at `endpoint`.
pub open spec fn request_for(
    endpoint: Seq<char>,
    audio: Seq<u8>,
    file_name: Option<Seq<char>>,
) -> VoxtralRequestModel {
    VoxtralRequestModel {
        url: endpoint + "/audio/transcriptions"@,
        model: "default"@,
        temperature: transcribe::zero(),
        response_format: "verbose_json"@,
        file_data: base64_of(audio),
        file_name: match file_name {
            Some(f) => f,
            None => "audio.wav"@,
        },
    }
}

/// What came back for a request.
#[derive(Debug)]
pub enum VoxtralReply {
    /// Nothing: the endpoint could not be reached, for this reason.
    Unreachable(String),
    /// A status other than success, with the body if it could be read.
    Refused { status: String, body: Option<String> },
    /// Success, but the body could not be read, for this reason.
    Broken(String),
    /// Success with this body.
    Answered(String),
}

#[verifier::ext_equal]
pub enum VoxtralReplyModel {
    Unreachable(Seq<char>),
    Refused { status: Seq<char>, body: Option<Seq<char>> },
    Broken(Seq<char>),
    Answered(Seq<char>),
}

impl DeepView for VoxtralReply {
    type V = VoxtralReplyModel;

    open spec fn deep_view(&self) -> VoxtralReplyModel {
        match self {
            VoxtralReply::Unreachable(e) => VoxtralReplyModel::Unreachable(e@),
            VoxtralReply::Refused { status, body } => VoxtralReplyModel::Refused {
                status: status@,
                body: body.deep_view(),
            },
            VoxtralReply::Broken(e) => VoxtralReplyModel::Broken(e@),
            VoxtralReply::Answered(b) => VoxtralReplyModel::Answered(b@),
        }
    }
}

/// What a reply means: a transcript, or a message.
pub open spec fn result_of(url: Seq<char>, reply: VoxtralReplyModel) -> Result<
    transcribe::TranscriptionModel,
    Seq<char>,
> {
    match reply {
        VoxtralReplyModel::Unreachable(e) => Err(
            "Failed to reach Voxtral endpoint at "@ + url + ": "@ + e,
        ),
        VoxtralReplyModel::Refused { status, body } => Err(
            "Voxtral local endpoint returned "@ + status + ": "@ + text::at_most(
                match body {
                    Some(b) => b,
                    None => "unknown error"@,
                },
                300,
            ),
        ),
        VoxtralReplyModel::Broken(e) => Err(e),
        VoxtralReplyModel::Answered(b) => match json::json_document(b) {
            Ok(doc) => Ok(transcribe::transcript_from(doc)),
            Err(_) => Err("error decoding response body"@),
        },
    }
}

/// The character for six bits in base 64: `A` to `Z`, `a` to `z`, `0` to `9`, `+`, `/`.
pub open spec fn base64_char(n: int) -> char {
    if n < 26 {
        (n + 'A' as int) as char
    } else if n < 52 {
        (n - 26 + 'a' as int) as char
    } else if n < 62 {
        (n - 52 + '0' as int) as char
    } else if n == 62 {
        '+'
    } else {
        '/'
    }
}

/// The byte at `i`, 0 behind the end.
pub open spec fn byte_at(bytes: Seq<u8>, i: int) -> int {
    if i < bytes.len() {
        bytes[i] as int
    } else {
        0
    }
}

/// The `i`-th character of the base 64 form: three bytes give four characters of six bits each,
/// the highest first, with `=` for those that no byte reaches.
pub open spec fn base64_at(bytes: Seq<u8>, i: int) -> char {
    let g = 3 * (i / 4);
    let k = i % 4;
    let n = byte_at(bytes, g) * 65536 + byte_at(bytes, g + 1) * 256 + byte_at(bytes, g + 2);
    if k == 0 {
        base64_char((n / 262144) % 64)
    } else if k == 1 {
        base64_char((n / 4096) % 64)
    } else if k == 2 {
        if g + 1 < bytes.len() {
            base64_char((n / 64) % 64)
        } else {
            '='
        }
    } else {
        if g + 2 < bytes.len() {
            base64_char(n % 64)
        } else {
            '='
        }
    }
}

/// `bytes` in base 64 with padding.
pub open spec fn base64_of(bytes: Seq<u8>) -> Seq<char> {
    Seq::new((4 * ((bytes.len() + 2) / 3)) as nat, |i: int| base64_at(bytes, i))
}

/// `bytes` in base 64, by `base64::Engine::encode` with the engine `STANDARD`: the alphabet of
/// RFC 4648, with padding. `encode` panics where the length of the result does not fit in `usize`.
#[verifier::external_body]
fn base64_text(bytes: &Vec<u8>) -> (r: String)
    requires
        base64_of(bytes@).len() <= usize::MAX,
    ensures
        r@ == base64_of(bytes@),
{
    base64::Engine::encode(&base64::engine::general_purpose::STANDARD, bytes)
}

/// A request carries the audio, under the file's own name where it has one, and asks for the form
/// with segments.
pub proof fn law_request(endpoint: Seq<char>, audio: Seq<u8>, file_name: Option<Seq<char>>)
    ensures
        ({
            let r = request_for(endpoint, audio, file_name);
            &&& r.file_data == base64_of(audio)
            &&& file_name matches Some(f) ==> r.file_name == f
            &&& file_name is None ==> r.file_name == "audio.wav"@
            &&& r.response_format == "verbose_json"@
            &&& r.temperature.bits == 0
        }),
{
}

/// The six bits that a character of base 64 stands for.
pub open spec fn six_bits(c: char) -> int {
    if 'A' <= c <= 'Z' {
        c as int - 'A' as int
    } else if 'a' <= c <= 'z' {
        c as int - 'a' as int + 26
    } else if '0' <= c <= '9' {
        c as int - '0' as int + 52
    } else if c == '+' {
        62
    } else {
        63
    }
}

/// Audio in base 64 can be had back: every group of four characters gives three bytes, as far as
/// there are any, and the characters that stand for none are the padding at the end.
pub proof fn law_base64(bytes: Seq<u8>, g: int, i: int)
    requires
        g >= 0,
        i == 4 * g,
        3 * g < bytes.len(),
    ensures
        ({
            let s = base64_of(bytes);
            let n = bytes.len() - 3 * g;
            &&& i + 4 <= s.len()
            &&& bytes[3 * g] == six_bits(s[i]) * 4 + six_bits(s[i + 1]) / 16
            &&& n > 1 ==> bytes[3 * g + 1] == (six_bits(s[i + 1]) % 16) * 16 + six_bits(s[i + 2])
                / 4
            &&& n > 2 ==> bytes[3 * g + 2] == (six_bits(s[i + 2]) % 4) * 64 + six_bits(s[i + 3])
            &&& s[i + 2] == '=' <==> n == 1
            &&& s[i + 3] == '=' <==> n <= 2
        }),
{
    let s = base64_of(bytes);
    let a = byte_at(bytes, 3 * g);
    let b = byte_at(bytes, 3 * g + 1);
    let c = byte_at(bytes, 3 * g + 2);
    assert(i / 4 == g && (i + 1) / 4 == g && (i + 2) / 4 == g && (i + 3) / 4 == g);
    assert(i % 4 == 0 && (i + 1) % 4 == 1 && (i + 2) % 4 == 2 && (i + 3) % 4 == 3);
    lemma_sixths(a, b, c);
    lemma_six_bits(a / 4);
    lemma_six_bits((a % 4) * 16 + b / 16);
    lemma_six_bits((b % 16) * 4 + c / 64);
    lemma_six_bits(c % 64);
    assert(s[i] == base64_char(a / 4));
    assert(s[i + 1] == base64_char((a % 4) * 16 + b / 16));
    assert(s[i + 2] == if 3 * g + 1 < bytes.len() {
        base64_char((b % 16) * 4 + c / 64)
    } else {
        '='
    });
    assert(s[i + 3] == if 3 * g + 2 < bytes.len() {
        base64_char(c % 64)
    } else {
        '='
    });
}

proof fn lemma_six_bits(n: int)
    requires
        0 <= n < 64,
    ensures
        six_bits(base64_char(n)) == n,
        base64_char(n) != '=',
{
}

/// Three bytes as four groups of six bits.
proof fn lemma_sixths(a: int, b: int, c: int)
    requires
        0 <= a < 256,
        0 <= b < 256,
        0 <= c < 256,
    ensures
        ({
            let n = a * 65536 + b * 256 + c;
            &&& (n / 262144) % 64 == a / 4
            &&& (n / 4096) % 64 == (a % 4) * 16 + b / 16
            &&& (n / 64) % 64 == (b % 16) * 4 + c / 64
            &&& n % 64 == c % 64
        }),
{
    let n = a * 65536 + b * 256 + c;
    assert(n / 262144 == a / 4);
    assert(n / 4096 == a * 16 + b / 16);
    assert(n / 64 == a * 1024 + b * 4 + c / 64);
}

/// A transcript comes exactly from an answer that is a document. Else the message says what went
/// wrong: the endpoint and why it could not be reached, or its status and the start of what it
/// said, or why its answer could not be read.
pub proof fn law_reply(url: Seq<char>, reply: VoxtralReplyModel)
    ensures
        result_of(url, reply) is Ok <==> (reply matches VoxtralReplyModel::Answered(b)
            && json::json_document(b) is Ok),
        reply matches VoxtralReplyModel::Answered(b) ==> match json::json_document(b) {
            Ok(doc) => result_of(url, reply) == Ok::<_, Seq<char>>(
                transcribe::transcript_from(doc),
            ),
            Err(_) => result_of(url, reply) == Err::<transcribe::TranscriptionModel, _>(
                "error decoding response body"@,
            ),
        },
        reply matches VoxtralReplyModel::Unreachable(e) ==> result_of(url, reply) == Err::<
            transcribe::TranscriptionModel,
            _,
        >("Failed to reach Voxtral endpoint at "@ + url + ": "@ + e),
        reply matches VoxtralReplyModel::Refused { status, body: Some(b) } ==> result_of(url, reply)
            == Err::<transcribe::TranscriptionModel, _>(
            "Voxtral local endpoint returned "@ + status + ": "@ + if b.len() > 300 {
                b.take(300)
            } else {
                b
            },
        ),
        reply matches VoxtralReplyModel::Refused { status, body: None } ==> result_of(url, reply)
            == Err::<transcribe::TranscriptionModel, _>(
            "Voxtral local endpoint returned "@ + status + ": "@ + "unknown error"@,
        ),
        reply matches VoxtralReplyModel::Broken(e) ==> result_of(url, reply) == Err::<
            transcribe::TranscriptionModel,
            _,
        >(e),
{
    reveal_strlit("unknown error");
}

} // verus!
