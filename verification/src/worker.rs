//! The worker's per-job decisions: the state transitions around one job,
//! the response sent on success, and the fixed human-readable message for
//! each class of failure. The worker loop that pulls jobs and performs
//! conversion, dispatch and delivery drives these from outside.

use vstd::prelude::*;

use crate::audio::AudioError;
use crate::queue::QueueStatistics;
use crate::sender::{escape_md, escape_markdown_v2};
use crate::textfmt::{blank, is_blank};
use crate::BotError;

verus! {

/// Completes the in-flight job in the statistics: exactly one of the
/// processed and failed totals rises, by one, the live size falls by one
/// (saturating), and no job is in flight afterwards.
pub fn finish_job(stats: &mut QueueStatistics, success: bool)
    requires
        old(stats).total_processed < u64::MAX,
        old(stats).total_failed < u64::MAX,
    ensures
        success ==> final(stats).total_processed == old(stats).total_processed + 1
            && final(stats).total_failed == old(stats).total_failed,
        !success ==> final(stats).total_failed == old(stats).total_failed + 1
            && final(stats).total_processed == old(stats).total_processed,
        final(stats).total_queued == old(stats).total_queued,
        final(stats).current_queue_size == if old(stats).current_queue_size > 0 {
            (old(stats).current_queue_size - 1) as u64
        } else {
            0u64
        },
        final(stats).processing_view() is None,
        crate::queue::stats_consistent(*old(stats)) && old(stats).current_queue_size > 0
            ==> crate::queue::stats_consistent(*final(stats)),
{
    if success {
        stats.increment_processed();
    } else {
        stats.increment_failed();
    }
}

/// The notice shown while a job is being worked on.
pub open spec fn processing_notice_spec(filename: Seq<char>) -> Seq<char> {
    "\u{1F3B5} Processing audio... (Queue position: processing)\nFile: "@ + filename
}

pub fn processing_notice(filename: &str) -> (r: String)
    ensures
        r@ == processing_notice_spec(filename@),
{
    let mut r = String::from_str(
        "\u{1F3B5} Processing audio... (Queue position: processing)\nFile: ",
    );
    r.append(filename);
    r
}

/// The response sent for a successful transcription: a fixed notice when
/// the transcript holds no visible text, the escaped transcript under its
/// heading otherwise.
pub open spec fn success_response_spec(transcription: Seq<char>) -> Seq<char> {
    if is_blank(transcription) {
        "\u{1F507} No speech detected in the audio\\. The audio might be too quiet or contain no spoken words\\."@
    } else {
        "\u{1F4DD} *Transcription:*\n\n"@ + escape_md(transcription)
    }
}

pub fn success_response(transcription: &str) -> (r: String)
    ensures
        r@ == success_response_spec(transcription@),
{
    if blank(transcription) {
        String::from_str(
            "\u{1F507} No speech detected in the audio\\. The audio might be too quiet or contain no spoken words\\.",
        )
    } else {
        let mut r = String::from_str("\u{1F4DD} *Transcription:*\n\n");
        let escaped = escape_markdown_v2(transcription);
        r.append(escaped.as_str());
        r
    }
}

/// The fixed human-readable message for each class of per-job failure:
/// format and conversion trouble names the audio, any speech-to-text
/// error names the service, and everything else gets the generic retry
/// message.
pub open spec fn failure_message_spec(error: BotError) -> Seq<char> {
    match error {
        BotError::Audio(AudioError::UnsupportedFormat(_)) => "\u{274C} Unsupported audio format. Please send voice messages, video notes, audio files (.mp3, .m4a, .ogg), or video files."@,
        BotError::Audio(AudioError::ConversionFailed(_)) => "\u{274C} Failed to process audio. The file might be corrupted or in an unsupported format."@,
        BotError::Stt(_) => "\u{274C} Speech-to-text service is temporarily unavailable. Please try again later."@,
        _ => "\u{274C} An error occurred while processing your audio. Please try again."@,
    }
}

pub fn failure_message(error: &BotError) -> (r: &'static str)
    ensures
        r@ == failure_message_spec(*error),
{
    match error {
        BotError::Audio(AudioError::UnsupportedFormat(_)) => "\u{274C} Unsupported audio format. Please send voice messages, video notes, audio files (.mp3, .m4a, .ogg), or video files.",
        BotError::Audio(AudioError::ConversionFailed(_)) => "\u{274C} Failed to process audio. The file might be corrupted or in an unsupported format.",
        BotError::Stt(_) => "\u{274C} Speech-to-text service is temporarily unavailable. Please try again later.",
        _ => "\u{274C} An error occurred while processing your audio. Please try again.",
    }
}

/// The message sent to a submitter whose submission could not even be
/// queued: only an unsupported format is named, everything else gets the
/// generic retry message.
pub open spec fn enqueue_error_message_spec(error: BotError) -> Seq<char> {
    match error {
        BotError::Audio(AudioError::UnsupportedFormat(_)) => "\u{274C} Unsupported audio format. Please send voice messages, video notes, audio files (.mp3, .m4a, .ogg), or video files."@,
        _ => "\u{274C} An error occurred while processing your audio. Please try again."@,
    }
}

pub fn enqueue_error_message(error: &BotError) -> (r: &'static str)
    ensures
        r@ == enqueue_error_message_spec(*error),
{
    match error {
        BotError::Audio(AudioError::UnsupportedFormat(_)) => "\u{274C} Unsupported audio format. Please send voice messages, video notes, audio files (.mp3, .m4a, .ogg), or video files.",
        _ => "\u{274C} An error occurred while processing your audio. Please try again.",
    }
}

} // verus!
