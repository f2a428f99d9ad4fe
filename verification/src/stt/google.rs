//! The Google Cloud backend: service-account credentials parsed from
//! JSON, the audio base64-encoded into a JSON request, and a nested
//! result/alternative structure in the response.

use vstd::prelude::*;

use super::{api_error_message, http_fallback, is_success_status, RequestBody, SttError, SttRequest};
use crate::audio::ConvertedAudio;
use crate::textfmt::{decimal_digits, str_eq, trim_spec, trimmed, u64_to_string};

verus! {

/// A parsed service-account credential document, reduced to what the
/// dispatcher reads from it. The token exchange the full document serves
/// is a stub in this system, so only the project id is carried.
pub struct GoogleCredentials {
    pub project_id: String,
}

/// What serde_json extracts from a credentials document: the project id
/// of a JSON document whose `project_id` field is a string, and nothing
/// for any other text.
pub uninterp spec fn google_credentials_of(json: Seq<char>) -> Option<Seq<char>>;

/// Relies on `serde_json::from_str`: parsing is a pure function of the
/// text. Yields the `project_id` string of a JSON document, and nothing
/// when the text is not JSON or lacks that string field.
#[verifier::external_body]
fn parse_credentials(json: &str) -> (r: Option<GoogleCredentials>)
    ensures
        match r {
            Some(c) => google_credentials_of(json@) == Some(c.project_id@),
            None => google_credentials_of(json@) is None,
        },
{
    let v: serde_json::Value = serde_json::from_str(json).ok()?;
    Some(GoogleCredentials { project_id: v.get("project_id")?.as_str()?.to_string() })
}

/// What serde_json extracts from a success body: the transcript of the
/// first alternative of the first result of a JSON object, the empty
/// text when that path is absent, and nothing when the body is not a
/// JSON object.
pub uninterp spec fn google_transcript_of(body: Seq<char>) -> Option<Seq<char>>;

/// Relies on `serde_json::from_str`: parsing is a pure function of the
/// text. For a JSON object, yields
/// `results[0].alternatives[0].transcript` when that string is present
/// and the empty text otherwise; nothing for any other body.
#[verifier::external_body]
fn google_transcript(body: &str) -> (r: Option<String>)
    ensures
        match r {
            Some(t) => google_transcript_of(body@) == Some(t@),
            None => google_transcript_of(body@) is None,
        },
{
    let v: serde_json::Value = serde_json::from_str(body).ok()?;
    if !v.is_object() {
        return None;
    }
    let t = v.get("results").and_then(|r| r.get(0)).and_then(|r0| r0.get("alternatives")).and_then(
        |a| a.get(0),
    ).and_then(|a0| a0.get("transcript")).and_then(|t| t.as_str());
    Some(t.unwrap_or("").to_string())
}

/// What serde_json extracts from an error body: the `error.message`
/// field of a well-formed JSON error document.
pub uninterp spec fn google_error_message_of(body: Seq<char>) -> Option<Seq<char>>;

/// Relies on `serde_json::from_str`: parsing is a pure function of the
/// text. Yields the `error.message` string of a JSON error document, and
/// nothing when the body is not JSON or lacks that string field.
#[verifier::external_body]
fn google_error_message(body: &str) -> (r: Option<String>)
    ensures
        match r {
            Some(m) => google_error_message_of(body@) == Some(m@),
            None => google_error_message_of(body@) is None,
        },
{
    let v: serde_json::Value = serde_json::from_str(body).ok()?;
    Some(v.get("error")?.get("message")?.as_str()?.to_string())
}

/// What the base64 crate's standard engine produces for a byte string: a
/// pure function of the bytes.
pub uninterp spec fn base64_of(data: Seq<u8>) -> Seq<char>;

/// Relies on base64's `Engine::encode` with the standard padded
/// alphabet: a pure function of the bytes, four output characters for
/// every started group of three input bytes.
#[verifier::external_body]
fn base64_encode(data: &[u8]) -> (r: String)
    ensures
        r@ == base64_of(data@),
        r@.len() == 4 * ((data@.len() + 2) / 3),
{
    base64::Engine::encode(&base64::engine::general_purpose::STANDARD, data)
}

/// The recognition encoding declared for each audio format; formats the
/// service does not take are rejected before any call is made.
pub open spec fn google_encoding_spec(format: Seq<char>) -> Option<Seq<char>> {
    if format == "flac"@ {
        Some("FLAC"@)
    } else if format == "wav"@ {
        Some("LINEAR16"@)
    } else if format == "ogg"@ {
        Some("OGG_OPUS"@)
    } else if format == "mp3"@ {
        Some("MP3"@)
    } else {
        None
    }
}

pub fn google_encoding(format: &str) -> (r: Option<&'static str>)
    ensures
        match r {
            Some(e) => google_encoding_spec(format@) == Some(e@),
            None => google_encoding_spec(format@) is None,
        },
{
    if str_eq(format, "flac") {
        Some("FLAC")
    } else if str_eq(format, "wav") {
        Some("LINEAR16")
    } else if str_eq(format, "ogg") {
        Some("OGG_OPUS")
    } else if str_eq(format, "mp3") {
        Some("MP3")
    } else {
        None
    }
}

/// The access token for the request. The credential exchange with the
/// token endpoint is deliberately left as a stub returning a placeholder:
/// an incomplete external collaborator, not a behaviour to widen here.
fn get_access_token(credentials: &GoogleCredentials) -> (r: Result<String, SttError>)
    ensures
        r matches Ok(t) && t@ == "placeholder_token"@,
{
    Ok(String::from_str("placeholder_token"))
}

/// The key attached to the endpoint query: the project id of the parsed
/// credentials.
pub fn extract_project_key(credentials: &GoogleCredentials) -> (r: Result<String, SttError>)
    ensures
        r matches Ok(k) && k@ == credentials.project_id@,
{
    Ok(credentials.project_id.clone())
}

/// The JSON request document sent to the recognition endpoint. The
/// encoding names and the base64 payload stay within characters JSON
/// takes verbatim, so the document is framed by plain concatenation.
pub open spec fn google_request_body_spec(
    encoding: Seq<char>,
    sample_rate: u32,
    channels: u8,
    content: Seq<char>,
) -> Seq<char> {
    "{\"config\":{\"encoding\":\""@ + encoding + "\",\"sampleRateHertz\":"@ + decimal_digits(
        sample_rate as nat,
    ) + ",\"languageCode\":\"en-US\",\"audioChannelCount\":"@ + decimal_digits(channels as nat)
        + ",\"enableAutomaticPunctuation\":true},\"audio\":{\"content\":\""@ + content + "\"}}"@
}

fn google_request_body(encoding: &str, sample_rate: u32, channels: u8, content: &str) -> (r:
    String)
    ensures
        r@ == google_request_body_spec(encoding@, sample_rate, channels, content@),
{
    let mut r = String::from_str("{\"config\":{\"encoding\":\"");
    r.append(encoding);
    r.append("\",\"sampleRateHertz\":");
    let rate = u64_to_string(sample_rate as u64);
    r.append(rate.as_str());
    r.append(",\"languageCode\":\"en-US\",\"audioChannelCount\":");
    let ch = u64_to_string(channels as u64);
    r.append(ch.as_str());
    r.append(",\"enableAutomaticPunctuation\":true},\"audio\":{\"content\":\"");
    r.append(content);
    r.append("\"}}");
    r
}

/// The one outbound Google call: the recognition endpoint keyed by the
/// project id, the bearer placeholder, and the JSON document carrying the
/// declared encoding and the base64 audio.
pub open spec fn google_request_spec(
    q: SttRequest,
    audio: ConvertedAudio,
    key: Seq<char>,
    encoding: Seq<char>,
) -> bool {
    &&& q.url@ == "https://speech.googleapis.com/v1/speech:recognize?key="@ + key
    &&& q.headers@.len() == 2
    &&& q.headers@[0].0@ == "Authorization"@
    &&& q.headers@[0].1@ == "Bearer "@ + "placeholder_token"@
    &&& q.headers@[1].0@ == "Content-Type"@
    &&& q.headers@[1].1@ == "application/json"@
    &&& (q.body matches RequestBody::Json(b) && b@ == google_request_body_spec(
        encoding,
        audio.sample_rate,
        audio.channels,
        base64_of(audio.data@),
    ))
}

/// Prepares the one outbound Google call, exactly as `google_request_spec`
/// describes: credentials are parsed (their absence of shape is a
/// configuration error, not a transient failure), the format is mapped to
/// its declared encoding, and the audio is base64 encoded into the JSON
/// document.
pub fn prepare(audio: &ConvertedAudio, credentials_json: &str) -> (r: Result<SttRequest, SttError>)
    ensures
        google_credentials_of(credentials_json@) is None ==> (r matches Err(e) && e
            matches SttError::Api(m) && m@ == "Invalid Google credentials"@),
        google_credentials_of(credentials_json@) is Some && google_encoding_spec(audio.format@)
            is None ==> (r matches Err(e) && e matches SttError::Api(m) && m@
            == "Unsupported format for Google STT: "@ + audio.format@),
        google_credentials_of(credentials_json@) matches Some(key) ==> (google_encoding_spec(
            audio.format@,
        ) matches Some(enc) ==> (r matches Ok(q) && google_request_spec(q, *audio, key, enc))),
{
    let credentials = match parse_credentials(credentials_json) {
        Some(c) => c,
        None => {
            return Err(SttError::Api(String::from_str("Invalid Google credentials")));
        },
    };
    let encoding = match google_encoding(audio.format.as_str()) {
        Some(e) => e,
        None => {
            let mut msg = String::from_str("Unsupported format for Google STT: ");
            msg.append(audio.format.as_str());
            return Err(SttError::Api(msg));
        },
    };
    let access_token = match get_access_token(&credentials) {
        Ok(t) => t,
        Err(e) => {
            return Err(e);
        },
    };
    let project_key = match extract_project_key(&credentials) {
        Ok(k) => k,
        Err(e) => {
            return Err(e);
        },
    };
    let content = base64_encode(audio.data.as_slice());
    let body = google_request_body(encoding, audio.sample_rate, audio.channels, content.as_str());
    let mut url = String::from_str("https://speech.googleapis.com/v1/speech:recognize?key=");
    url.append(project_key.as_str());
    let mut auth = String::from_str("Bearer ");
    auth.append(access_token.as_str());
    let mut headers: Vec<(String, String)> = Vec::new();
    headers.push((String::from_str("Authorization"), auth));
    headers.push((String::from_str("Content-Type"), String::from_str("application/json")));
    Ok(SttRequest { url, headers, body: RequestBody::Json(body) })
}

/// Classifies the Google response: a success body yields the first
/// alternative of the first result (empty when absent), trimmed; a
/// success body that is not a JSON object is an invalid response; 401,
/// 429 and 503 map to their classified errors whatever the body holds;
/// any other failure is a generic API error carrying the extracted or
/// raw message.
pub fn interpret_response(status: u16, body: &str) -> (r: Result<String, SttError>)
    ensures
        is_success_status(status) ==> (google_transcript_of(body@) matches Some(t) ==> (r
            matches Ok(out) && out@ == trim_spec(t))),
        is_success_status(status) && google_transcript_of(body@) is None ==> (r matches Err(e) && e
            matches SttError::InvalidResponse(m) && m@ == "Google STT response was not JSON"@),
        status == 401 ==> r == Err::<String, SttError>(SttError::Authentication),
        status == 429 ==> r == Err::<String, SttError>(SttError::RateLimit),
        status == 503 ==> r == Err::<String, SttError>(SttError::ServiceUnavailable),
        !is_success_status(status) && status != 401 && status != 429 && status != 503 ==> (r
            matches Err(e) && e matches SttError::Api(m) && m@ == api_error_message(
            status,
            google_error_message_of(body@),
            body@,
        )),
{
    if 200 <= status && status < 300 {
        match google_transcript(body) {
            Some(t) => Ok(trimmed(t.as_str())),
            None => Err(SttError::InvalidResponse(String::from_str(
                "Google STT response was not JSON",
            ))),
        }
    } else if status == 401 {
        Err(SttError::Authentication)
    } else if status == 429 {
        Err(SttError::RateLimit)
    } else if status == 503 {
        Err(SttError::ServiceUnavailable)
    } else {
        let msg = match google_error_message(body) {
            Some(m) => m,
            None => http_fallback(status, body),
        };
        Err(SttError::Api(msg))
    }
}

} // verus!
