//! The Whisper backend: a multipart upload of the converted audio, a
//! plain-text transcript on success, and a JSON error body on failure.

use vstd::prelude::*;

use vstd::slice::slice_to_vec;

use super::{api_error_message, http_fallback, is_success_status, RequestBody, SttError, SttRequest};
use crate::audio::ConvertedAudio;
use crate::textfmt::{str_eq, trim_spec, trimmed};

verus! {

/// What serde_json extracts from a Whisper error body: the
/// `error.message` field of a well-formed JSON error document.
pub uninterp spec fn whisper_error_message_of(body: Seq<char>) -> Option<Seq<char>>;

/// Relies on `serde_json::from_str`: parsing is a pure function of the
/// text. Yields the `error.message` string of a JSON error document, and
/// nothing when the body is not JSON or lacks that string field.
#[verifier::external_body]
fn whisper_error_message(body: &str) -> (r: Option<String>)
    ensures
        match r {
            Some(m) => whisper_error_message_of(body@) == Some(m@),
            None => whisper_error_message_of(body@) is None,
        },
{
    let v: serde_json::Value = serde_json::from_str(body).ok()?;
    Some(v.get("error")?.get("message")?.as_str()?.to_string())
}

/// The MIME type declared for each audio format, the conservative WAV
/// type for anything unknown.
pub open spec fn mime_type_spec(format: Seq<char>) -> Seq<char> {
    if format == "wav"@ {
        "audio/wav"@
    } else if format == "mp3"@ {
        "audio/mpeg"@
    } else if format == "flac"@ {
        "audio/flac"@
    } else if format == "ogg"@ {
        "audio/ogg"@
    } else if format == "m4a"@ {
        "audio/mp4"@
    } else if format == "aac"@ {
        "audio/aac"@
    } else {
        "audio/wav"@
    }
}

pub fn get_mime_type(format: &str) -> (r: &'static str)
    ensures
        r@ == mime_type_spec(format@),
{
    if str_eq(format, "wav") {
        "audio/wav"
    } else if str_eq(format, "mp3") {
        "audio/mpeg"
    } else if str_eq(format, "flac") {
        "audio/flac"
    } else if str_eq(format, "ogg") {
        "audio/ogg"
    } else if str_eq(format, "m4a") {
        "audio/mp4"
    } else if str_eq(format, "aac") {
        "audio/aac"
    } else {
        "audio/wav"
    }
}

/// The upload filename for each audio format; the service goes by the
/// extension.
pub open spec fn whisper_filename_spec(format: Seq<char>) -> Seq<char> {
    if format == "wav"@ {
        "audio.wav"@
    } else if format == "mp3"@ {
        "audio.mp3"@
    } else if format == "flac"@ {
        "audio.flac"@
    } else if format == "ogg"@ {
        "audio.ogg"@
    } else {
        "audio.wav"@
    }
}

fn whisper_filename(format: &str) -> (r: &'static str)
    ensures
        r@ == whisper_filename_spec(format@),
{
    if str_eq(format, "wav") {
        "audio.wav"
    } else if str_eq(format, "mp3") {
        "audio.mp3"
    } else if str_eq(format, "flac") {
        "audio.flac"
    } else if str_eq(format, "ogg") {
        "audio.ogg"
    } else {
        "audio.wav"
    }
}

/// The one outbound Whisper call: the fixed endpoint, the bearer
/// credential, and a multipart form with the fixed model fields and the
/// audio bytes under their declared name and MIME type.
pub open spec fn whisper_request_spec(q: SttRequest, audio: ConvertedAudio, api_key: Seq<
    char,
>) -> bool {
    &&& q.url@ == "https://api.openai.com/v1/audio/transcriptions"@
    &&& q.headers@.len() == 1
    &&& q.headers@[0].0@ == "Authorization"@
    &&& q.headers@[0].1@ == "Bearer "@ + api_key
    &&& (q.body matches RequestBody::Multipart { fields, file_field, file_name, mime_type, data }
        && fields@.len() == 3 && fields@[0].0@ == "model"@ && fields@[0].1@ == "whisper-1"@
        && fields@[1].0@ == "response_format"@ && fields@[1].1@ == "text"@ && fields@[2].0@
        == "temperature"@ && fields@[2].1@ == "0.0"@ && file_field@ == "file"@ && file_name@
        == whisper_filename_spec(audio.format@) && mime_type@ == mime_type_spec(audio.format@)
        && data@ == audio.data@)
}

/// Prepares the one outbound Whisper call, exactly as
/// `whisper_request_spec` describes.
pub fn prepare(audio: &ConvertedAudio, api_key: &str) -> (r: SttRequest)
    ensures
        whisper_request_spec(r, *audio, api_key@),
{
    let mut auth = String::from_str("Bearer ");
    auth.append(api_key);
    let mut headers: Vec<(String, String)> = Vec::new();
    headers.push((String::from_str("Authorization"), auth));
    let mut fields: Vec<(String, String)> = Vec::new();
    fields.push((String::from_str("model"), String::from_str("whisper-1")));
    fields.push((String::from_str("response_format"), String::from_str("text")));
    fields.push((String::from_str("temperature"), String::from_str("0.0")));
    SttRequest {
        url: String::from_str("https://api.openai.com/v1/audio/transcriptions"),
        headers,
        body: RequestBody::Multipart {
            fields,
            file_field: String::from_str("file"),
            file_name: String::from_str(whisper_filename(audio.format.as_str())),
            mime_type: String::from_str(get_mime_type(audio.format.as_str())),
            data: slice_to_vec(audio.data.as_slice()),
        },
    }
}

/// Classifies the Whisper response: a success body is the transcript
/// itself, trimmed; 401, 429 and 503 map to their classified errors
/// whatever the body holds; any other failure is a generic API error
/// carrying the extracted or raw message.
pub fn interpret_response(status: u16, body: &str) -> (r: Result<String, SttError>)
    ensures
        is_success_status(status) ==> (r matches Ok(t) && t@ == trim_spec(body@)),
        status == 401 ==> r == Err::<String, SttError>(SttError::Authentication),
        status == 429 ==> r == Err::<String, SttError>(SttError::RateLimit),
        status == 503 ==> r == Err::<String, SttError>(SttError::ServiceUnavailable),
        !is_success_status(status) && status != 401 && status != 429 && status != 503 ==> (r
            matches Err(e) && e matches SttError::Api(m) && m@ == api_error_message(
            status,
            whisper_error_message_of(body@),
            body@,
        )),
{
    if 200 <= status && status < 300 {
        Ok(trimmed(body))
    } else if status == 401 {
        Err(SttError::Authentication)
    } else if status == 429 {
        Err(SttError::RateLimit)
    } else if status == 503 {
        Err(SttError::ServiceUnavailable)
    } else {
        let msg = match whisper_error_message(body) {
            Some(m) => m,
            None => http_fallback(status, body),
        };
        Err(SttError::Api(msg))
    }
}

} // verus!
