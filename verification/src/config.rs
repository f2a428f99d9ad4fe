//! Process configuration: the provider selector and its credentials,
//! fixed once at startup. Reading the environment is the caller's job;
//! validating what it found is done and specified here.

use vstd::prelude::*;

use crate::stt::SttProvider;
use crate::textfmt::str_eq;
use crate::BotError;

verus! {

/// The bot's immutable configuration: the transport token, the selected
/// provider, and each provider's optional credential.
#[derive(Clone)]
pub struct BotConfig {
    pub telegram_token: String,
    pub stt_provider: SttProvider,
    pub elevenlabs_api_key: Option<String>,
    pub openai_api_key: Option<String>,
    pub google_credentials_json: Option<String>,
}

/// Maps a provider name to its selector; any other name is rejected.
pub fn parse_provider(name: &str) -> (r: Option<SttProvider>)
    ensures
        name@ == "whisper"@ ==> r == Some(SttProvider::Whisper),
        name@ == "elevenlabs"@ ==> r == Some(SttProvider::ElevenLabs),
        name@ == "google"@ ==> r == Some(SttProvider::Google),
        name@ != "whisper"@ && name@ != "elevenlabs"@ && name@ != "google"@ ==> r is None,
{
    proof {
        reveal_strlit("whisper");
        reveal_strlit("elevenlabs");
        reveal_strlit("google");
        assert("whisper"@.len() == 7);
        assert("elevenlabs"@.len() == 10);
        assert("google"@.len() == 6);
    }
    if str_eq(name, "whisper") {
        Some(SttProvider::Whisper)
    } else if str_eq(name, "elevenlabs") {
        Some(SttProvider::ElevenLabs)
    } else if str_eq(name, "google") {
        Some(SttProvider::Google)
    } else {
        None
    }
}

impl BotConfig {
    /// Builds and validates a configuration: the provider name must be
    /// known and the selected provider's credential must be present,
    /// each failure with its fixed configuration message.
    pub fn new(
        telegram_token: String,
        provider_name: &str,
        elevenlabs_api_key: Option<String>,
        openai_api_key: Option<String>,
        google_credentials_json: Option<String>,
    ) -> (r: Result<BotConfig, BotError>)
        ensures
            provider_name@ != "whisper"@ && provider_name@ != "elevenlabs"@ && provider_name@
                != "google"@ ==> (r matches Err(e) && e matches BotError::Config(m) && m@
                == "Invalid STT_PROVIDER"@),
            provider_name@ == "whisper"@ && openai_api_key is None ==> (r matches Err(e) && e
                matches BotError::Config(m) && m@ == "OPENAI_API_KEY required for Whisper"@),
            provider_name@ == "elevenlabs"@ && elevenlabs_api_key is None ==> (r matches Err(e)
                && e matches BotError::Config(m) && m@
                == "ELEVENLABS_API_KEY required for ElevenLabs"@),
            provider_name@ == "google"@ && google_credentials_json is None ==> (r matches Err(e)
                && e matches BotError::Config(m) && m@
                == "GOOGLE_CREDENTIALS_JSON required for Google"@),
            provider_name@ == "whisper"@ && openai_api_key is Some ==> (r matches Ok(c)
                && c.stt_provider == SttProvider::Whisper),
            provider_name@ == "elevenlabs"@ && elevenlabs_api_key is Some ==> (r matches Ok(c)
                && c.stt_provider == SttProvider::ElevenLabs),
            provider_name@ == "google"@ && google_credentials_json is Some ==> (r matches Ok(c)
                && c.stt_provider == SttProvider::Google),
            r matches Ok(c) ==> c.telegram_token == telegram_token && c.elevenlabs_api_key
                == elevenlabs_api_key && c.openai_api_key == openai_api_key
                && c.google_credentials_json == google_credentials_json,
    {
        let stt_provider = match parse_provider(provider_name) {
            Some(p) => p,
            None => {
                return Err(BotError::Config(String::from_str("Invalid STT_PROVIDER")));
            },
        };
        match stt_provider {
            SttProvider::Whisper => {
                if openai_api_key.is_none() {
                    return Err(
                        BotError::Config(String::from_str("OPENAI_API_KEY required for Whisper")),
                    );
                }
            },
            SttProvider::ElevenLabs => {
                if elevenlabs_api_key.is_none() {
                    return Err(
                        BotError::Config(
                            String::from_str("ELEVENLABS_API_KEY required for ElevenLabs"),
                        ),
                    );
                }
            },
            SttProvider::Google => {
                if google_credentials_json.is_none() {
                    return Err(
                        BotError::Config(
                            String::from_str("GOOGLE_CREDENTIALS_JSON required for Google"),
                        ),
                    );
                }
            },
        }
        Ok(
            BotConfig {
                telegram_token,
                stt_provider,
                elevenlabs_api_key,
                openai_api_key,
                google_credentials_json,
            },
        )
    }
}

} // verus!
