//! Core of a speech-to-text relay bot: the job queue and statistics model,
//! the worker's per-job decisions, provider request preparation and
//! response classification, message chunking, and status rendering.

use vstd::prelude::*;

pub mod audio;
pub mod config;
pub mod handlers;
pub mod persistence;
pub mod queue;
pub mod request_logger;
pub mod sender;
pub mod stt;
pub mod textfmt;
pub mod worker;

verus! {

/// Top-level error of the bot core. The classified audio and
/// speech-to-text errors keep their own types; failures of outside
/// collaborators (transport, file system, download) are carried as plain
/// messages.
#[derive(Debug, Clone, PartialEq, Eq)]
pub enum BotError {
    Telegram(String),
    Stt(crate::stt::SttError),
    Audio(crate::audio::AudioError),
    Http(String),
    Io(String),
    Download(String),
    Config(String),
}

} // verus!
