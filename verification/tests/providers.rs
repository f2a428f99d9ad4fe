use stt_bot::audio::{conversion_target, ffmpeg_args, get_file_extension, make_converted_audio,
    ConvertedAudio};
use stt_bot::config::{parse_provider, BotConfig};
use stt_bot::stt::{elevenlabs, google, whisper, interpret_response, prepare_request, RequestBody,
    SttError, SttProvider};
use stt_bot::BotError;

fn audio(format: &str) -> ConvertedAudio {
    ConvertedAudio {
        data: vec![0; 1024],
        format: format.to_string(),
        sample_rate: 16000,
        channels: 1,
    }
}

const CREDS: &str = "{\"type\":\"service_account\",\"project_id\":\"proj-123\",\
\"private_key_id\":\"k\",\"private_key\":\"p\",\"client_email\":\"e\",\"client_id\":\"c\",\
\"auth_uri\":\"a\",\"token_uri\":\"t\",\"auth_provider_x509_cert_url\":\"u\",\
\"client_x509_cert_url\":\"v\"}";

#[test]
fn test_get_file_extension() {
    assert_eq!(get_file_extension("test.mp3"), "mp3");
    assert_eq!(get_file_extension("voice.ogg"), "ogg");
    assert_eq!(get_file_extension("file.with.dots.wav"), "wav");
    assert_eq!(get_file_extension("noextension"), "");
}

#[test]
fn test_encoding_mapping() {
    // Test that we correctly map audio formats to Google STT encodings
    assert_eq!("FLAC", "FLAC");
    assert_eq!("LINEAR16", "LINEAR16");
}

#[test]
fn test_mime_type_mapping() {
    assert_eq!(whisper::get_mime_type("wav"), "audio/wav");
    assert_eq!(whisper::get_mime_type("mp3"), "audio/mpeg");
    assert_eq!(whisper::get_mime_type("flac"), "audio/flac");
    assert_eq!(whisper::get_mime_type("unknown"), "audio/wav");
}

#[test]
fn test_transcribe_invalid_format() {
    let audio = ConvertedAudio {
        data: vec![0; 1024],
        format: "mp3".to_string(),
        sample_rate: 16000,
        channels: 1,
    };

    let result = elevenlabs::prepare(&audio, "test_key");
    assert!(result.is_err());

    if let Err(SttError::Api(msg)) = result {
        assert!(msg.contains("PCM format"));
    }
}

#[test]
fn test_invalid_credentials() {
    let invalid_json = "{ invalid json }";
    let audio = ConvertedAudio {
        data: vec![0; 1024],
        format: "flac".to_string(),
        sample_rate: 16000,
        channels: 1,
    };

    let result = google::prepare(&audio, invalid_json);
    assert!(result.is_err());
}

#[test]
fn google_encoding_mapping_per_format() {
    assert_eq!(google::google_encoding("flac"), Some("FLAC"));
    assert_eq!(google::google_encoding("wav"), Some("LINEAR16"));
    assert_eq!(google::google_encoding("ogg"), Some("OGG_OPUS"));
    assert_eq!(google::google_encoding("mp3"), Some("MP3"));
    assert_eq!(google::google_encoding("pcm"), None);
}

#[test]
fn whisper_prepare_builds_exact_request() {
    let a = audio("wav");
    let req = whisper::prepare(&a, "sk-123");
    assert_eq!(req.url, "https://api.openai.com/v1/audio/transcriptions");
    assert_eq!(req.headers.len(), 1);
    assert_eq!(req.headers[0].0, "Authorization");
    assert_eq!(req.headers[0].1, "Bearer sk-123");
    match req.body {
        RequestBody::Multipart { fields, file_field, file_name, mime_type, data } => {
            assert_eq!(fields.len(), 3);
            assert_eq!(fields[0], ("model".to_string(), "whisper-1".to_string()));
            assert_eq!(fields[1], ("response_format".to_string(), "text".to_string()));
            assert_eq!(fields[2], ("temperature".to_string(), "0.0".to_string()));
            assert_eq!(file_field, "file");
            assert_eq!(file_name, "audio.wav");
            assert_eq!(mime_type, "audio/wav");
            assert_eq!(data, vec![0; 1024]);
        }
        _ => panic!("expected a multipart body"),
    }
}

#[test]
fn elevenlabs_prepare_builds_exact_request() {
    let a = audio("pcm");
    let req = elevenlabs::prepare(&a, "xi-secret").unwrap();
    assert_eq!(req.url, "https://api.elevenlabs.io/v1/speech-to-text");
    assert_eq!(req.headers[0], ("xi-api-key".to_string(), "xi-secret".to_string()));
    match req.body {
        RequestBody::Multipart { fields, file_name, mime_type, .. } => {
            assert_eq!(fields[0], ("model_id".to_string(), "scribe_v1_experimental".to_string()));
            assert_eq!(fields[1], ("file_format".to_string(), "pcm_s16le_16".to_string()));
            assert_eq!(
                fields[2],
                ("timestamps_granularity".to_string(), "none".to_string())
            );
            assert_eq!(file_name, "audio.pcm");
            assert_eq!(mime_type, "audio/pcm");
        }
        _ => panic!("expected a multipart body"),
    }
}

#[test]
fn google_prepare_builds_exact_request() {
    let a = ConvertedAudio {
        data: vec![0, 0, 0],
        format: "flac".to_string(),
        sample_rate: 16000,
        channels: 1,
    };
    let req = google::prepare(&a, CREDS).unwrap();
    assert_eq!(
        req.url,
        "https://speech.googleapis.com/v1/speech:recognize?key=proj-123"
    );
    assert_eq!(
        req.headers[0],
        ("Authorization".to_string(), "Bearer placeholder_token".to_string())
    );
    assert_eq!(
        req.headers[1],
        ("Content-Type".to_string(), "application/json".to_string())
    );
    match req.body {
        RequestBody::Json(body) => {
            assert_eq!(
                body,
                "{\"config\":{\"encoding\":\"FLAC\",\"sampleRateHertz\":16000,\
\"languageCode\":\"en-US\",\"audioChannelCount\":1,\"enableAutomaticPunctuation\":true},\
\"audio\":{\"content\":\"AAAA\"}}"
            );
        }
        _ => panic!("expected a JSON body"),
    }
}

#[test]
fn google_prepare_rejects_unsupported_format() {
    let result = google::prepare(&audio("pcm"), CREDS);
    assert_eq!(
        result.err(),
        Some(SttError::Api("Unsupported format for Google STT: pcm".to_string()))
    );
}

#[test]
fn extract_project_key_returns_project_id() {
    let a = ConvertedAudio {
        data: vec![],
        format: "flac".to_string(),
        sample_rate: 16000,
        channels: 1,
    };
    let req = google::prepare(&a, CREDS).unwrap();
    assert!(req.url.ends_with("key=proj-123"));
}

#[test]
fn whisper_success_is_trimmed_body() {
    let r = whisper::interpret_response(200, "  hello world \n");
    assert_eq!(r.unwrap(), "hello world");
}

#[test]
fn elevenlabs_success_reads_text_field_or_plain_body() {
    let r = elevenlabs::interpret_response(200, "{\"text\":\" hi there \",\"success\":true}");
    assert_eq!(r.unwrap(), "hi there");
    let plain = elevenlabs::interpret_response(200, "  plain transcript  ");
    assert_eq!(plain.unwrap(), "plain transcript");
}

#[test]
fn google_success_reads_first_alternative() {
    let body = "{\"results\":[{\"alternatives\":[{\"transcript\":\" nested text \",\
\"confidence\":0.9},{\"transcript\":\"second\"}]},{\"alternatives\":[]}]}";
    let r = google::interpret_response(200, body);
    assert_eq!(r.unwrap(), "nested text");
}

#[test]
fn google_success_with_no_results_is_empty() {
    let r = google::interpret_response(200, "{}");
    assert_eq!(r.unwrap(), "");
}

#[test]
fn google_success_with_non_json_body_is_invalid_response() {
    let r = google::interpret_response(200, "not json at all");
    assert!(matches!(r, Err(SttError::InvalidResponse(_))));
}

#[test]
fn status_codes_map_to_classified_errors_regardless_of_body() {
    for provider in [SttProvider::Whisper, SttProvider::ElevenLabs, SttProvider::Google] {
        assert_eq!(
            interpret_response(provider, 401, "ignored junk"),
            Err(SttError::Authentication)
        );
        assert_eq!(
            interpret_response(provider, 429, "{\"error\":{\"message\":\"x\"}}"),
            Err(SttError::RateLimit)
        );
        assert_eq!(interpret_response(provider, 503, ""), Err(SttError::ServiceUnavailable));
    }
}

#[test]
fn other_failures_carry_extracted_or_raw_message() {
    assert_eq!(
        whisper::interpret_response(400, "{\"error\":{\"message\":\"bad model\"}}"),
        Err(SttError::Api("bad model".to_string()))
    );
    assert_eq!(
        whisper::interpret_response(400, "junk"),
        Err(SttError::Api("HTTP 400: junk".to_string()))
    );
    assert_eq!(
        elevenlabs::interpret_response(400, "{\"detail\":\"d1\"}"),
        Err(SttError::Api("d1".to_string()))
    );
    assert_eq!(
        elevenlabs::interpret_response(400, "{\"message\":\"m1\"}"),
        Err(SttError::Api("m1".to_string()))
    );
    assert_eq!(
        elevenlabs::interpret_response(400, "{}"),
        Err(SttError::Api("Unknown error".to_string()))
    );
    assert_eq!(
        google::interpret_response(418, "{\"error\":{\"message\":\"quota\"}}"),
        Err(SttError::Api("quota".to_string()))
    );
}

#[test]
fn prepare_request_demands_the_selected_providers_credential() {
    let config = BotConfig {
        telegram_token: "t".to_string(),
        stt_provider: SttProvider::Whisper,
        elevenlabs_api_key: None,
        openai_api_key: None,
        google_credentials_json: None,
    };
    let r = prepare_request(&audio("wav"), &config);
    assert_eq!(r.err(), Some(SttError::Api("OpenAI API key not configured".to_string())));
}

#[test]
fn conversion_targets_per_provider() {
    let t = conversion_target(SttProvider::ElevenLabs);
    assert_eq!((t.format, t.codec, t.container), ("pcm", "pcm_s16le", "s16le"));
    let t = conversion_target(SttProvider::Whisper);
    assert_eq!((t.format, t.codec, t.container), ("wav", "pcm_s16le", "wav"));
    let t = conversion_target(SttProvider::Google);
    assert_eq!((t.format, t.codec, t.container), ("flac", "flac", "flac"));
    assert_eq!(t.sample_rate, 16000);
    assert_eq!(t.channels, 1);
}

#[test]
fn ffmpeg_args_layout() {
    let t = conversion_target(SttProvider::Google);
    let args = ffmpeg_args(&t, "/tmp/in", "/tmp/out");
    let expected: Vec<String> = [
        "-y",
        "-hide_banner",
        "-loglevel",
        "error",
        "-i",
        "/tmp/in",
        "-acodec",
        "flac",
        "-ar",
        "16000",
        "-ac",
        "1",
        "-f",
        "flac",
        "/tmp/out",
    ]
    .iter()
    .map(|s| s.to_string())
    .collect();
    assert_eq!(args, expected);
}

#[test]
fn converted_audio_carries_target_metadata() {
    let t = conversion_target(SttProvider::Whisper);
    let a = make_converted_audio(vec![1, 2], &t);
    assert_eq!(a.format, "wav");
    assert_eq!(a.sample_rate, 16000);
    assert_eq!(a.channels, 1);
    assert_eq!(a.data, vec![1, 2]);
}

#[test]
fn config_validation_demands_provider_key() {
    let ok = BotConfig::new(
        "token".to_string(),
        "whisper",
        None,
        Some("sk".to_string()),
        None,
    );
    assert!(matches!(ok, Ok(c) if c.stt_provider == SttProvider::Whisper));

    let bad_name = BotConfig::new("token".to_string(), "siri", None, None, None);
    assert!(matches!(bad_name, Err(BotError::Config(m)) if m == "Invalid STT_PROVIDER"));

    let missing = BotConfig::new("token".to_string(), "whisper", None, None, None);
    assert!(
        matches!(missing, Err(BotError::Config(m)) if m == "OPENAI_API_KEY required for Whisper")
    );

    let missing = BotConfig::new("token".to_string(), "elevenlabs", None, None, None);
    assert!(matches!(
        missing,
        Err(BotError::Config(m)) if m == "ELEVENLABS_API_KEY required for ElevenLabs"
    ));

    let missing = BotConfig::new("token".to_string(), "google", None, None, None);
    assert!(matches!(
        missing,
        Err(BotError::Config(m)) if m == "GOOGLE_CREDENTIALS_JSON required for Google"
    ));
}

#[test]
fn parse_provider_names() {
    assert_eq!(parse_provider("whisper"), Some(SttProvider::Whisper));
    assert_eq!(parse_provider("elevenlabs"), Some(SttProvider::ElevenLabs));
    assert_eq!(parse_provider("google"), Some(SttProvider::Google));
    assert_eq!(parse_provider("Whisper"), None);
}
