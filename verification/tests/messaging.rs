use stt_bot::audio::AudioError;
use stt_bot::handlers::{authorization_decision, format_user_info, media_filename, provider_name,
    queued_notice, status_summary, welcome_text, AuthDecision, SubmittedMedia};
use stt_bot::request_logger::{current_log_timestamp, format_log_entry, format_timestamp,
    should_log_request};
use stt_bot::sender::{chunk_with_marker, escape_markdown_v2, render_chunks, split_message};
use stt_bot::stt::{SttError, SttProvider};
use stt_bot::textfmt::u64_to_string;
use stt_bot::worker::{enqueue_error_message, failure_message, processing_notice, success_response};
use stt_bot::BotError;

fn strip_whitespace(s: &str) -> String {
    s.chars().filter(|c| !matches!(c, ' ' | '\n' | '\t' | '\r')).collect()
}

#[test]
fn short_text_is_a_single_identical_chunk() {
    let chunks = split_message("hello world", 4000);
    assert_eq!(chunks, vec!["hello world".to_string()]);
    let empty = split_message("", 10);
    assert_eq!(empty, vec!["".to_string()]);
}

#[test]
fn long_text_packs_lines_greedily() {
    let chunks = split_message("aaaa\nbbbb\ncccc", 10);
    assert_eq!(chunks, vec!["aaaa\nbbbb".to_string(), "cccc".to_string()]);
}

#[test]
fn overlong_line_packs_words_greedily() {
    let chunks = split_message("aaa bbb ccc ddd", 7);
    assert_eq!(chunks, vec!["aaa bbb".to_string(), "ccc ddd".to_string()]);
}

#[test]
fn word_longer_than_budget_is_hard_split() {
    let chunks = split_message("abcdefghijkl", 5);
    assert_eq!(chunks, vec!["abcde".to_string(), "fghij".to_string(), "kl".to_string()]);
}

#[test]
fn chunking_preserves_visible_text_within_budget() {
    let text = "The first line of a long transcript.\nA second line that is also quite long.\n\
A third line follows here with more words.\nAnd a fourth one to overflow the budget.";
    let budget = 50;
    let chunks = split_message(text, budget);
    assert!(chunks.len() > 1);
    for chunk in &chunks {
        assert!(chunk.chars().count() <= budget);
    }
    let joined: String = chunks.concat();
    assert_eq!(strip_whitespace(&joined), strip_whitespace(text));
}

#[test]
fn part_markers_attach_only_for_multi_chunk_sends() {
    assert_eq!(
        chunk_with_marker("some text", 1, 2),
        "some text\n\n*\\(Part 1 of 2\\)*"
    );
    let single = render_chunks(&vec!["only".to_string()]);
    assert_eq!(single, vec!["only".to_string()]);
    let multi = render_chunks(&vec!["a".to_string(), "b".to_string()]);
    assert_eq!(
        multi,
        vec![
            "a\n\n*\\(Part 1 of 2\\)*".to_string(),
            "b\n\n*\\(Part 2 of 2\\)*".to_string()
        ]
    );
}

#[test]
fn markdown_escaping_prefixes_every_special_character() {
    assert_eq!(escape_markdown_v2("a.b!c"), "a\\.b\\!c");
    assert_eq!(escape_markdown_v2("(x) [y] {z}"), "\\(x\\) \\[y\\] \\{z\\}");
    assert_eq!(escape_markdown_v2("plain words"), "plain words");
}

#[test]
fn blank_transcription_reports_no_speech() {
    let r = success_response("  \n\t ");
    assert!(r.starts_with("\u{1F507} No speech detected"));
    let r = success_response("");
    assert!(r.starts_with("\u{1F507} No speech detected"));
}

#[test]
fn transcription_response_is_escaped_under_heading() {
    let r = success_response("done. yes!");
    assert_eq!(r, "\u{1F4DD} *Transcription:*\n\ndone\\. yes\\!");
}

#[test]
fn failure_messages_by_category() {
    let unsupported = BotError::Audio(AudioError::UnsupportedFormat("x".to_string()));
    assert!(failure_message(&unsupported).starts_with("\u{274C} Unsupported audio format"));
    let conversion = BotError::Audio(AudioError::ConversionFailed("boom".to_string()));
    assert!(failure_message(&conversion).starts_with("\u{274C} Failed to process audio"));
    let stt = BotError::Stt(SttError::RateLimit);
    assert!(failure_message(&stt).contains("temporarily unavailable"));
    let other = BotError::Config("x".to_string());
    assert!(failure_message(&other).starts_with("\u{274C} An error occurred"));
    assert!(enqueue_error_message(&unsupported).starts_with("\u{274C} Unsupported audio format"));
    assert!(enqueue_error_message(&stt).starts_with("\u{274C} An error occurred"));
}

#[test]
fn notices_show_position_and_filename() {
    assert_eq!(
        queued_notice(3, "voice.ogg"),
        "\u{1F4E5} Added to queue (position: 3)\nFile: voice.ogg"
    );
    assert_eq!(
        processing_notice("voice.ogg"),
        "\u{1F3B5} Processing audio... (Queue position: processing)\nFile: voice.ogg"
    );
}

#[test]
fn authorization_gate_rules() {
    let pw = Some("sesame".to_string());
    assert_eq!(
        authorization_decision(false, &pw, false, &None),
        AuthDecision::Denied
    );
    assert_eq!(
        authorization_decision(true, &None, false, &None),
        AuthDecision::Granted
    );
    assert_eq!(
        authorization_decision(true, &pw, true, &None),
        AuthDecision::Granted
    );
    assert_eq!(
        authorization_decision(true, &pw, false, &Some("sesame".to_string())),
        AuthDecision::GrantedNewlyAuthorized
    );
    assert_eq!(
        authorization_decision(true, &pw, false, &Some("wrong".to_string())),
        AuthDecision::Denied
    );
    assert_eq!(
        authorization_decision(true, &pw, false, &None),
        AuthDecision::Denied
    );
}

#[test]
fn media_filenames_per_kind() {
    assert_eq!(media_filename(&SubmittedMedia::Voice), "voice.ogg");
    assert_eq!(
        media_filename(&SubmittedMedia::Audio { file_name: Some("song.mp3".to_string()) }),
        "song.mp3"
    );
    assert_eq!(media_filename(&SubmittedMedia::Audio { file_name: None }), "audio.mp3");
    assert_eq!(media_filename(&SubmittedMedia::Video), "video.mp4");
    assert_eq!(media_filename(&SubmittedMedia::VideoNote), "video_note.mp4");
    assert_eq!(media_filename(&SubmittedMedia::Document { file_name: None }), "document.bin");
}

#[test]
fn user_info_prefers_username() {
    assert_eq!(format_user_info(Some("alice"), "Alice", Some("Smith")), "@alice");
    assert_eq!(format_user_info(None, "Alice", Some("Smith")), "Alice Smith");
    assert_eq!(format_user_info(None, "Alice", None), "Alice ");
}

#[test]
fn command_texts() {
    assert!(welcome_text().starts_with("\u{1F3A4} Welcome to the Speech-to-Text Bot!"));
    assert_eq!(provider_name(SttProvider::Whisper), "Whisper");
    let status = status_summary(SttProvider::Google);
    assert!(status.contains("STT Provider: Google"));
}

#[test]
fn timestamps_are_zero_padded() {
    assert_eq!(format_timestamp(2024, 1, 5, 9, 7, 3), "2024-01-05-09-07-03");
    assert_eq!(format_timestamp(987, 12, 31, 23, 59, 59), "0987-12-31-23-59-59");
}

#[test]
fn log_entries_have_fixed_layout() {
    assert_eq!(
        format_log_entry("2024-01-05-09-07-03", 42, Some("alice"), 1024),
        "2024-01-05-09-07-03, 42, alice, 1024\n"
    );
    assert_eq!(
        format_log_entry("2024-01-05-09-07-03", 42, None, 1024),
        "2024-01-05-09-07-03, 42, , 1024\n"
    );
}

#[test]
fn only_elevenlabs_requests_are_logged() {
    assert!(should_log_request(SttProvider::ElevenLabs));
    assert!(!should_log_request(SttProvider::Whisper));
    assert!(!should_log_request(SttProvider::Google));
}

#[test]
fn current_timestamp_is_well_formed() {
    let ts = current_log_timestamp().unwrap();
    assert!(ts.len() >= 19);
    assert!(ts.matches('-').count() >= 5);
}

#[test]
fn decimal_rendering() {
    assert_eq!(u64_to_string(0), "0");
    assert_eq!(u64_to_string(12345), "12345");
    assert_eq!(u64_to_string(u64::MAX), "18446744073709551615");
}
