//! The ElevenLabs backend: PCM-only input enforced up front, a multipart
//! upload, and a response that is either a JSON document with a `text`
//! field or the transcript as plain text.

use vstd::prelude::*;

use vstd::slice::slice_to_vec;

use super::{api_error_message, http_fallback, is_success_status, RequestBody, SttError, SttRequest};
use crate::audio::ConvertedAudio;
use crate::textfmt::{str_eq, trim_spec, trimmed};

verus! {

/// What serde_json extracts from an ElevenLabs success body: the `text`
/// string field of a JSON document.
pub uninterp spec fn elevenlabs_success_text_of(body: Seq<char>) -> Option<Seq<char>>;

/// Relies on `serde_json::from_str`: parsing is a pure function of the
/// text. Yields the `text` string of a JSON document, and nothing when
/// the body is not JSON or lacks that string field.
#[verifier::external_body]
fn elevenlabs_success_text(body: &str) -> (r: Option<String>)
    ensures
        match r {
            Some(t) => elevenlabs_success_text_of(body@) == Some(t@),
            None => elevenlabs_success_text_of(body@) is None,
        },
{
    let v: serde_json::Value = serde_json::from_str(body).ok()?;
    Some(v.get("text")?.as_str()?.to_string())
}

/// What serde_json extracts from an ElevenLabs error body: the `detail`
/// string of a JSON object, else its `message` string, else a fixed
/// unknown-error text; nothing when the body is not a JSON object.
pub uninterp spec fn elevenlabs_error_message_of(body: Seq<char>) -> Option<Seq<char>>;

/// Relies on `serde_json::from_str`: parsing is a pure function of the
/// text. For a JSON object, yields its `detail` string, else its
/// `message` string, else the fixed unknown-error text; nothing for any
/// other body.
#[verifier::external_body]
fn elevenlabs_error_message(body: &str) -> (r: Option<String>)
    ensures
        match r {
            Some(m) => elevenlabs_error_message_of(body@) == Some(m@),
            None => elevenlabs_error_message_of(body@) is None,
        },
{
    let v: serde_json::Value = serde_json::from_str(body).ok()?;
    let o = v.as_object()?;
    let detail = o.get("detail").and_then(|d| d.as_str());
    let message = o.get("message").and_then(|m| m.as_str());
    Some(detail.or(message).unwrap_or("Unknown error").to_string())
}

/// The one outbound ElevenLabs call: the fixed endpoint, the key header,
/// and a multipart form with the fixed model fields and the PCM bytes.
pub open spec fn elevenlabs_request_spec(q: SttRequest, audio: ConvertedAudio, api_key: Seq<
    char,
>) -> bool {
    &&& q.url@ == "https://api.elevenlabs.io/v1/speech-to-text"@
    &&& q.headers@.len() == 1
    &&& q.headers@[0].0@ == "xi-api-key"@
    &&& q.headers@[0].1@ == api_key
    &&& (q.body matches RequestBody::Multipart { fields, file_field, file_name, mime_type, data }
        && fields@.len() == 3 && fields@[0].0@ == "model_id"@ && fields@[0].1@
        == "scribe_v1_experimental"@ && fields@[1].0@ == "file_format"@ && fields@[1].1@
        == "pcm_s16le_16"@ && fields@[2].0@ == "timestamps_granularity"@ && fields@[2].1@
        == "none"@ && file_field@ == "file"@ && file_name@ == "audio.pcm"@ && mime_type@
        == "audio/pcm"@ && data@ == audio.data@)
}

/// Prepares the one outbound ElevenLabs call, exactly as
/// `elevenlabs_request_spec` describes. The service takes PCM 16 kHz mono
/// only: any other format is rejected up front as a contract violation by
/// the adapter, not sent.
pub fn prepare(audio: &ConvertedAudio, api_key: &str) -> (r: Result<SttRequest, SttError>)
    ensures
        audio.format@ != "pcm"@ ==> (r matches Err(e) && e matches SttError::Api(m) && m@
            == "ElevenLabs requires PCM format audio"@),
        audio.format@ == "pcm"@ ==> (r matches Ok(q) && elevenlabs_request_spec(
            q,
            *audio,
            api_key@,
        )),
{
    if !str_eq(audio.format.as_str(), "pcm") {
        return Err(SttError::Api(String::from_str("ElevenLabs requires PCM format audio")));
    }
    let mut headers: Vec<(String, String)> = Vec::new();
    headers.push((String::from_str("xi-api-key"), String::from_str(api_key)));
    let mut fields: Vec<(String, String)> = Vec::new();
    fields.push((String::from_str("model_id"), String::from_str("scribe_v1_experimental")));
    fields.push((String::from_str("file_format"), String::from_str("pcm_s16le_16")));
    fields.push((String::from_str("timestamps_granularity"), String::from_str("none")));
    Ok(
        SttRequest {
            url: String::from_str("https://api.elevenlabs.io/v1/speech-to-text"),
            headers,
            body: RequestBody::Multipart {
                fields,
                file_field: String::from_str("file"),
                file_name: String::from_str("audio.pcm"),
                mime_type: String::from_str("audio/pcm"),
                data: slice_to_vec(audio.data.as_slice()),
            },
        },
    )
}

/// The transcript read from a success body: the `text` field when the
/// body is such a JSON document, the body itself otherwise, trimmed
/// either way.
pub open spec fn elevenlabs_transcript_spec(body: Seq<char>) -> Seq<char> {
    match elevenlabs_success_text_of(body) {
        Some(t) => trim_spec(t),
        None => trim_spec(body),
    }
}

/// Classifies the ElevenLabs response: a success body yields the
/// transcript; 401, 429 and 503 map to their classified errors whatever
/// the body holds; any other failure is a generic API error carrying the
/// extracted or raw message.
pub fn interpret_response(status: u16, body: &str) -> (r: Result<String, SttError>)
    ensures
        is_success_status(status) ==> (r matches Ok(t) && t@ == elevenlabs_transcript_spec(body@)),
        status == 401 ==> r == Err::<String, SttError>(SttError::Authentication),
        status == 429 ==> r == Err::<String, SttError>(SttError::RateLimit),
        status == 503 ==> r == Err::<String, SttError>(SttError::ServiceUnavailable),
        !is_success_status(status) && status != 401 && status != 429 && status != 503 ==> (r
            matches Err(e) && e matches SttError::Api(m) && m@ == api_error_message(
            status,
            elevenlabs_error_message_of(body@),
            body@,
        )),
{
    if 200 <= status && status < 300 {
        match elevenlabs_success_text(body) {
            Some(t) => Ok(trimmed(t.as_str())),
            None => Ok(trimmed(body)),
        }
    } else if status == 401 {
        Err(SttError::Authentication)
    } else if status == 429 {
        Err(SttError::RateLimit)
    } else if status == 503 {
        Err(SttError::ServiceUnavailable)
    } else {
        let msg = match elevenlabs_error_message(body) {
            Some(m) => m,
            None => http_fallback(status, body),
        };
        Err(SttError::Api(msg))
    }
}

} // verus!
