//! The hosted Voxtral backend.
use vstd::prelude::*;

use crate::crunchr::transcribe::TranscriptionBackend;

verus! {

/// Voxtral through the Mistral API, with diarization.
#[derive(Debug, Clone)]
pub struct VoxtralApiBackend {
    api_key: String,
}

impl DeepView for VoxtralApiBackend {
    type V = Seq<char>;

    closed spec fn deep_view(&self) -> Seq<char> {
        self.api_key@
    }
}

impl VoxtralApiBackend {
    pub fn new(api_key: String) -> (r: Self)
        ensures
            r.deep_view() == api_key@,
    {
        VoxtralApiBackend { api_key }
    }

    /// The key that requests carry.
    pub fn api_key(&self) -> (r: &str)
        ensures
            r@ == self.deep_view(),
    {
        self.api_key.as_str()
    }
}

impl TranscriptionBackend for VoxtralApiBackend {
    open spec fn diarizes(&self) -> bool {
        true
    }

    open spec fn name(&self) -> Seq<char> {
        "voxtral"@
    }

    fn supports_diarization(&self) -> (r: bool) {
        true
    }

    fn backend_name(&self) -> (r: &'static str) {
        "voxtral"
    }
}

} // verus!
