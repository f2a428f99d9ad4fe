//! The provider dispatcher: a closed set of three speech-to-text backends
//! behind one contract. Preparing the outbound request and classifying the
//! response are computed and verified here; performing the one HTTP call
//! is the caller's job.

use vstd::prelude::*;

pub mod elevenlabs;
pub mod google;
pub mod whisper;

use crate::audio::ConvertedAudio;
use crate::config::BotConfig;

verus! {

/// Failures of the provider dispatcher. Transport-level failures are
/// carried as a message in `Http`, distinct from the classified API
/// errors.
#[derive(Debug, Clone, PartialEq, Eq)]
pub enum SttError {
    Http(String),
    Api(String),
    InvalidResponse(String),
    Authentication,
    RateLimit,
    ServiceUnavailable,
}

/// The closed set of speech-to-text backends.
#[derive(Debug, Clone, Copy, PartialEq, Eq, Structural)]
pub enum SttProvider {
    Whisper,
    ElevenLabs,
    Google,
}

/// The body of one prepared provider request: a multipart form carrying
/// the audio bytes, or a JSON document.
pub enum RequestBody {
    Multipart {
        fields: Vec<(String, String)>,
        file_field: String,
        file_name: String,
        mime_type: String,
        data: Vec<u8>,
    },
    Json(String),
}

/// One fully prepared outbound call: where to post, which headers to
/// attach, and the body. The dispatcher performs no retries and no side
/// effects beyond this one call.
pub struct SttRequest {
    pub url: String,
    pub headers: Vec<(String, String)>,
    pub body: RequestBody,
}

/// Whether an HTTP status is a success status.
pub open spec fn is_success_status(status: u16) -> bool {
    200 <= status < 300
}

/// The raw error text a provider reports when its error body could not be
/// read: the status code followed by the body itself.
pub open spec fn http_fallback_spec(status: u16, body: Seq<char>) -> Seq<char> {
    "HTTP "@ + crate::textfmt::decimal_digits(status as nat) + ": "@ + body
}

/// The message carried by a generic API error: the message extracted from
/// the provider's structured error body when there was one, the raw
/// fallback otherwise.
pub open spec fn api_error_message(status: u16, extracted: Option<Seq<char>>, body: Seq<
    char,
>) -> Seq<char> {
    match extracted {
        Some(m) => m,
        None => http_fallback_spec(status, body),
    }
}

pub(crate) fn http_fallback(status: u16, body: &str) -> (r: String)
    ensures
        r@ == http_fallback_spec(status, body@),
{
    let mut r = String::from_str("HTTP ");
    let code = crate::textfmt::u64_to_string(status as u64);
    r.append(code.as_str());
    r.append(": ");
    r.append(body);
    r
}

/// Prepares the provider-specific request for the configured backend.
/// Fails with a configuration message exactly when the selected provider's
/// credential is absent, and otherwise delegates to that provider's
/// preparation, whose own contract pins the request.
pub fn prepare_request(audio: &ConvertedAudio, config: &BotConfig) -> (r: Result<
    SttRequest,
    SttError,
>)
    ensures
        config.stt_provider == SttProvider::Whisper && config.openai_api_key is None ==> (r
            matches Err(e) && e matches SttError::Api(m) && m@
            == "OpenAI API key not configured"@),
        config.stt_provider == SttProvider::ElevenLabs && config.elevenlabs_api_key is None ==> (r
            matches Err(e) && e matches SttError::Api(m) && m@
            == "ElevenLabs API key not configured"@),
        config.stt_provider == SttProvider::Google && config.google_credentials_json is None ==> (
        r matches Err(e) && e matches SttError::Api(m) && m@
            == "Google credentials not configured"@),
        config.stt_provider == SttProvider::Whisper ==> (config.openai_api_key matches Some(k)
            ==> (r matches Ok(q) && whisper::whisper_request_spec(q, *audio, k@))),
        config.stt_provider == SttProvider::ElevenLabs ==> (config.elevenlabs_api_key matches Some(
            k,
        ) ==> (if audio.format@ == "pcm"@ {
            r matches Ok(q) && elevenlabs::elevenlabs_request_spec(q, *audio, k@)
        } else {
            r matches Err(e) && e matches SttError::Api(m) && m@
                == "ElevenLabs requires PCM format audio"@
        })),
        config.stt_provider == SttProvider::Google ==> (config.google_credentials_json matches Some(
            js,
        ) ==> (if google::google_credentials_of(js@) is None {
            r matches Err(e) && e matches SttError::Api(m) && m@ == "Invalid Google credentials"@
        } else if google::google_encoding_spec(audio.format@) is None {
            r matches Err(e) && e matches SttError::Api(m) && m@
                == "Unsupported format for Google STT: "@ + audio.format@
        } else {
            r matches Ok(q) && google::google_request_spec(
                q,
                *audio,
                google::google_credentials_of(js@).unwrap(),
                google::google_encoding_spec(audio.format@).unwrap(),
            )
        })),
{
    match config.stt_provider {
        SttProvider::Whisper => {
            match &config.openai_api_key {
                Some(api_key) => Ok(whisper::prepare(audio, api_key.as_str())),
                None => Err(SttError::Api(String::from_str("OpenAI API key not configured"))),
            }
        },
        SttProvider::ElevenLabs => {
            match &config.elevenlabs_api_key {
                Some(api_key) => elevenlabs::prepare(audio, api_key.as_str()),
                None => Err(SttError::Api(String::from_str("ElevenLabs API key not configured"))),
            }
        },
        SttProvider::Google => {
            match &config.google_credentials_json {
                Some(credentials) => google::prepare(audio, credentials.as_str()),
                None => Err(SttError::Api(String::from_str("Google credentials not configured"))),
            }
        },
    }
}

/// Classifies the provider's HTTP response for the configured backend:
/// success payloads become the transcript, failure statuses become the
/// classified error, each exactly as the provider's own contract states.
pub fn interpret_response(provider: SttProvider, status: u16, body: &str) -> (r: Result<
    String,
    SttError,
>)
    ensures
        status == 401 ==> r == Err::<String, SttError>(SttError::Authentication),
        status == 429 ==> r == Err::<String, SttError>(SttError::RateLimit),
        status == 503 ==> r == Err::<String, SttError>(SttError::ServiceUnavailable),
        !is_success_status(status) ==> r is Err,
        provider == SttProvider::Whisper && is_success_status(status) ==> (r matches Ok(t) && t@
            == crate::textfmt::trim_spec(body@)),
        provider == SttProvider::ElevenLabs && is_success_status(status) ==> (r matches Ok(t)
            && t@ == elevenlabs::elevenlabs_transcript_spec(body@)),
        provider == SttProvider::Google && is_success_status(status) ==> (
        google::google_transcript_of(body@) matches Some(t) ==> (r matches Ok(out) && out@
            == crate::textfmt::trim_spec(t))),
        provider == SttProvider::Google && is_success_status(status) && google::google_transcript_of(
            body@,
        ) is None ==> (r matches Err(e) && e matches SttError::InvalidResponse(m) && m@
            == "Google STT response was not JSON"@),
        !is_success_status(status) && status != 401 && status != 429 && status != 503 ==> (r
            matches Err(e) && e matches SttError::Api(m) && m@ == api_error_message(
            status,
            match provider {
                SttProvider::Whisper => whisper::whisper_error_message_of(body@),
                SttProvider::ElevenLabs => elevenlabs::elevenlabs_error_message_of(body@),
                SttProvider::Google => google::google_error_message_of(body@),
            },
            body@,
        )),
{
    match provider {
        SttProvider::Whisper => whisper::interpret_response(status, body),
        SttProvider::ElevenLabs => elevenlabs::interpret_response(status, body),
        SttProvider::Google => google::interpret_response(status, body),
    }
}

} // verus!
