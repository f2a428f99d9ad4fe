//! Producer-side decisions: the authorization gate, the filename declared
//! for each kind of submitted media, the submitter descriptor, and the
//! fixed command responses. Talking to the chat transport is the caller's
//! job.

use vstd::prelude::*;

use crate::stt::SttProvider;
use crate::textfmt::{decimal_digits, str_eq, u64_to_string};

verus! {

/// The outcome of the authorization gate for one inbound message.
#[derive(Debug, Clone, Copy, PartialEq, Eq, Structural)]
pub enum AuthDecision {
    Denied,
    Granted,
    GrantedNewlyAuthorized,
}

/// The view of an optional string, for contracts.
pub open spec fn opt_view(o: Option<String>) -> Option<Seq<char>> {
    match o {
        Some(s) => Some(s@),
        None => None,
    }
}

/// The rule of the authorization gate. A message without a sender is
/// turned away. When the process has no password set, every sender is
/// allowed. A sender already in the authorized set is allowed, and a
/// first message that matches the password authorizes its sender; any
/// other message is turned away.
pub open spec fn auth_decision_spec(
    user_present: bool,
    password: Option<Seq<char>>,
    already_authorized: bool,
    message_text: Option<Seq<char>>,
) -> AuthDecision {
    if !user_present {
        AuthDecision::Denied
    } else {
        match password {
            None => AuthDecision::Granted,
            Some(p) => if already_authorized {
                AuthDecision::Granted
            } else {
                match message_text {
                    Some(t) => if t == p {
                        AuthDecision::GrantedNewlyAuthorized
                    } else {
                        AuthDecision::Denied
                    },
                    None => AuthDecision::Denied,
                }
            },
        }
    }
}

/// Decides authorization for one message, exactly as `auth_decision_spec`
/// describes. On `GrantedNewlyAuthorized` the caller adds the sender to
/// the authorized set and persists it.
pub fn authorization_decision(
    user_present: bool,
    password: &Option<String>,
    already_authorized: bool,
    message_text: &Option<String>,
) -> (r: AuthDecision)
    ensures
        r == auth_decision_spec(
            user_present,
            opt_view(*password),
            already_authorized,
            opt_view(*message_text),
        ),
{
    if !user_present {
        return AuthDecision::Denied;
    }
    match password {
        None => AuthDecision::Granted,
        Some(p) => {
            if already_authorized {
                AuthDecision::Granted
            } else {
                match message_text {
                    Some(t) => {
                        if str_eq(t.as_str(), p.as_str()) {
                            AuthDecision::GrantedNewlyAuthorized
                        } else {
                            AuthDecision::Denied
                        }
                    },
                    None => AuthDecision::Denied,
                }
            }
        },
    }
}

/// One kind of submitted media the bot accepts, with the filename the
/// transport declared where it declares one.
pub enum SubmittedMedia {
    Voice,
    Audio { file_name: Option<String> },
    Video,
    VideoNote,
    Document { file_name: Option<String> },
}

/// The filename recorded for a submission: the declared name where there
/// is one, the fixed per-kind default otherwise.
pub open spec fn media_filename_spec(media: SubmittedMedia) -> Seq<char> {
    match media {
        SubmittedMedia::Voice => "voice.ogg"@,
        SubmittedMedia::Audio { file_name } => match file_name {
            Some(n) => n@,
            None => "audio.mp3"@,
        },
        SubmittedMedia::Video => "video.mp4"@,
        SubmittedMedia::VideoNote => "video_note.mp4"@,
        SubmittedMedia::Document { file_name } => match file_name {
            Some(n) => n@,
            None => "document.bin"@,
        },
    }
}

pub fn media_filename(media: &SubmittedMedia) -> (r: String)
    ensures
        r@ == media_filename_spec(*media),
{
    match media {
        SubmittedMedia::Voice => String::from_str("voice.ogg"),
        SubmittedMedia::Audio { file_name } => match file_name {
            Some(n) => n.clone(),
            None => String::from_str("audio.mp3"),
        },
        SubmittedMedia::Video => String::from_str("video.mp4"),
        SubmittedMedia::VideoNote => String::from_str("video_note.mp4"),
        SubmittedMedia::Document { file_name } => match file_name {
            Some(n) => n.clone(),
            None => String::from_str("document.bin"),
        },
    }
}

/// The human-readable submitter descriptor: the at-name where the sender
/// has a username, the first name followed by the last name (or nothing)
/// otherwise.
pub open spec fn user_info_spec(
    username: Option<Seq<char>>,
    first_name: Seq<char>,
    last_name: Option<Seq<char>>,
) -> Seq<char> {
    match username {
        Some(u) => "@"@ + u,
        None => first_name + " "@ + (match last_name {
            Some(l) => l,
            None => Seq::empty(),
        }),
    }
}

pub fn format_user_info(username: Option<&str>, first_name: &str, last_name: Option<&str>) -> (r:
    String)
    ensures
        r@ == user_info_spec(
            match username {
                Some(u) => Some(u@),
                None => None,
            },
            first_name@,
            match last_name {
                Some(l) => Some(l@),
                None => None,
            },
        ),
{
    match username {
        Some(u) => {
            let mut r = String::from_str("@");
            r.append(u);
            r
        },
        None => {
            let mut r = String::from_str(first_name);
            r.append(" ");
            match last_name {
                Some(l) => {
                    r.append(l);
                },
                None => {
                    proof {
                        assert(r@ + Seq::<char>::empty() =~= r@);
                    }
                },
            }
            r
        },
    }
}

/// The notice a producer posts when a submission has been accepted into
/// the queue, showing the user-visible position.
pub open spec fn queued_notice_spec(position: u64, filename: Seq<char>) -> Seq<char> {
    "\u{1F4E5} Added to queue (position: "@ + decimal_digits(position as nat) + ")\nFile: "@
        + filename
}

pub fn queued_notice(position: u64, filename: &str) -> (r: String)
    ensures
        r@ == queued_notice_spec(position, filename@),
{
    let mut r = String::from_str("\u{1F4E5} Added to queue (position: ");
    let pos = u64_to_string(position);
    r.append(pos.as_str());
    r.append(")\nFile: ");
    r.append(filename);
    r
}

/// The fixed welcome message of the start command.
pub fn welcome_text() -> (r: &'static str)
    ensures
        r@ == "\u{1F3A4} Welcome to the Speech-to-Text Bot!\n\n\u{1F4DD} Send me:\n\u{2022} Voice messages\n\u{2022} Video notes (round video messages)\n\u{2022} Audio files (.mp3, .m4a, .ogg, etc.)\n\u{2022} Video files (I'll extract the audio)\n\nI'll transcribe the speech and send you the text!"@,
{
    "\u{1F3A4} Welcome to the Speech-to-Text Bot!\n\n\u{1F4DD} Send me:\n\u{2022} Voice messages\n\u{2022} Video notes (round video messages)\n\u{2022} Audio files (.mp3, .m4a, .ogg, etc.)\n\u{2022} Video files (I'll extract the audio)\n\nI'll transcribe the speech and send you the text!"
}

/// The name shown for each provider in the status summary.
pub open spec fn provider_name_spec(provider: SttProvider) -> Seq<char> {
    match provider {
        SttProvider::Whisper => "Whisper"@,
        SttProvider::ElevenLabs => "ElevenLabs"@,
        SttProvider::Google => "Google"@,
    }
}

pub fn provider_name(provider: SttProvider) -> (r: &'static str)
    ensures
        r@ == provider_name_spec(provider),
{
    match provider {
        SttProvider::Whisper => "Whisper",
        SttProvider::ElevenLabs => "ElevenLabs",
        SttProvider::Google => "Google",
    }
}

/// The status command's fixed summary, naming the configured provider.
pub open spec fn status_summary_spec(provider_name: Seq<char>) -> Seq<char> {
    "\u{1F916} Bot Status: \u{2705} Online\n\u{1F527} STT Provider: "@ + provider_name
        + "\n\u{1F4CA} Memory usage: Low\n\u{1F680} Ready to transcribe!"@
}

pub fn status_summary(provider: SttProvider) -> (r: String)
    ensures
        r@ == status_summary_spec(provider_name_spec(provider)),
{
    let mut r = String::from_str("\u{1F916} Bot Status: \u{2705} Online\n\u{1F527} STT Provider: ");
    r.append(provider_name(provider));
    r.append("\n\u{1F4CA} Memory usage: Low\n\u{1F680} Ready to transcribe!");
    r
}

} // verus!
