//! The transcription request log: one line per request, with a padded
//! timestamp, the submitter, and the audio size. Appending the line to
//! the log file is the caller's job; the line itself is computed and
//! specified here.

use vstd::prelude::*;

use chrono::{Datelike, Timelike};

use crate::stt::SttProvider;
use crate::textfmt::{decimal_digits, u64_to_string};

verus! {

/// Relies on chrono's `Utc::now` and its calendar and clock accessors:
/// the current time, split into year, month, day, hour, minute and
/// second. The clock's value cannot be pinned; the documented range of
/// each part can.
#[verifier::external_body]
fn now_utc_parts() -> (r: (i32, u32, u32, u32, u32, u32))
    ensures
        1 <= r.1 <= 12,
        1 <= r.2 <= 31,
        r.3 < 24,
        r.4 < 60,
        r.5 < 60,
{
    let now = chrono::Utc::now();
    (now.year(), now.month(), now.day(), now.hour(), now.minute(), now.second())
}

/// A number padded with zeros to at least two digits.
pub open spec fn pad2(n: nat) -> Seq<char> {
    if n < 10 {
        seq!['0'] + decimal_digits(n)
    } else {
        decimal_digits(n)
    }
}

/// A number padded with zeros to at least four digits.
pub open spec fn pad4(n: nat) -> Seq<char> {
    if n < 10 {
        seq!['0', '0', '0'] + decimal_digits(n)
    } else if n < 100 {
        seq!['0', '0'] + decimal_digits(n)
    } else if n < 1000 {
        seq!['0'] + decimal_digits(n)
    } else {
        decimal_digits(n)
    }
}

fn pad2_string(n: u32) -> (r: String)
    ensures
        r@ == pad2(n as nat),
{
    if n < 10 {
        let mut r = String::from_str("0");
        let d = u64_to_string(n as u64);
        r.append(d.as_str());
        proof {
            reveal_strlit("0");
            assert("0"@ =~= seq!['0']);
        }
        r
    } else {
        u64_to_string(n as u64)
    }
}

fn pad4_string(n: u32) -> (r: String)
    ensures
        r@ == pad4(n as nat),
{
    if n < 10 {
        let mut r = String::from_str("000");
        let d = u64_to_string(n as u64);
        r.append(d.as_str());
        proof {
            reveal_strlit("000");
            assert("000"@ =~= seq!['0', '0', '0']);
        }
        r
    } else if n < 100 {
        let mut r = String::from_str("00");
        let d = u64_to_string(n as u64);
        r.append(d.as_str());
        proof {
            reveal_strlit("00");
            assert("00"@ =~= seq!['0', '0']);
        }
        r
    } else if n < 1000 {
        let mut r = String::from_str("0");
        let d = u64_to_string(n as u64);
        r.append(d.as_str());
        proof {
            reveal_strlit("0");
            assert("0"@ =~= seq!['0']);
        }
        r
    } else {
        u64_to_string(n as u64)
    }
}

/// A log timestamp: year, month, day, hour, minute and second, each
/// zero-padded, joined with dashes.
pub open spec fn timestamp_spec(y: nat, mo: nat, d: nat, h: nat, mi: nat, s: nat) -> Seq<char> {
    pad4(y) + "-"@ + pad2(mo) + "-"@ + pad2(d) + "-"@ + pad2(h) + "-"@ + pad2(mi) + "-"@ + pad2(s)
}

/// Renders a log timestamp from its calendar and clock parts, exactly as
/// `timestamp_spec` describes.
pub fn format_timestamp(y: u32, mo: u32, d: u32, h: u32, mi: u32, s: u32) -> (r: String)
    ensures
        r@ == timestamp_spec(y as nat, mo as nat, d as nat, h as nat, mi as nat, s as nat),
{
    let mut r = pad4_string(y);
    r.append("-");
    let t = pad2_string(mo);
    r.append(t.as_str());
    r.append("-");
    let t = pad2_string(d);
    r.append(t.as_str());
    r.append("-");
    let t = pad2_string(h);
    r.append(t.as_str());
    r.append("-");
    let t = pad2_string(mi);
    r.append(t.as_str());
    r.append("-");
    let t = pad2_string(s);
    r.append(t.as_str());
    r
}

/// The current log timestamp, or nothing when the clock reports a year
/// outside the log's calendar range. Whatever the clock said, the result
/// is a well-formed timestamp of in-range parts.
pub fn current_log_timestamp() -> (r: Option<String>)
    ensures
        r matches Some(t) ==> exists|y: nat, mo: nat, d: nat, h: nat, mi: nat, s: nat|
            1 <= mo <= 12 && 1 <= d <= 31 && h < 24 && mi < 60 && s < 60 && t@
                == #[trigger] timestamp_spec(y, mo, d, h, mi, s),
{
    let (y, mo, d, h, mi, s) = now_utc_parts();
    if y < 0 {
        return None;
    }
    let t = format_timestamp(y as u32, mo, d, h, mi, s);
    Some(t)
}

/// One request log line: the timestamp, the submitter's numeric identity,
/// their name when known, and the audio size in bytes, comma-separated
/// and newline-terminated.
pub open spec fn log_entry_spec(
    ts: Seq<char>,
    user_id: u64,
    username: Option<Seq<char>>,
    audio_length: u64,
) -> Seq<char> {
    ts + ", "@ + decimal_digits(user_id as nat) + ", "@ + (match username {
        Some(u) => u,
        None => Seq::empty(),
    }) + ", "@ + decimal_digits(audio_length as nat) + "\n"@
}

/// Renders one request log line, exactly as `log_entry_spec` describes.
pub fn format_log_entry(ts: &str, user_id: u64, username: Option<&str>, audio_length: u64) -> (r:
    String)
    ensures
        r@ == log_entry_spec(
            ts@,
            user_id,
            match username {
                Some(u) => Some(u@),
                None => None,
            },
            audio_length,
        ),
{
    let mut r = String::from_str(ts);
    r.append(", ");
    let uid = u64_to_string(user_id);
    r.append(uid.as_str());
    r.append(", ");
    match username {
        Some(u) => {
            r.append(u);
        },
        None => {
            proof {
                assert(r@ + Seq::<char>::empty() =~= r@);
            }
        },
    }
    r.append(", ");
    let len = u64_to_string(audio_length);
    r.append(len.as_str());
    r.append("\n");
    r
}

/// Whether a request to this provider is recorded in the request log.
pub fn should_log_request(provider: SttProvider) -> (r: bool)
    ensures
        r == (provider == SttProvider::ElevenLabs),
{
    match provider {
        SttProvider::ElevenLabs => true,
        _ => false,
    }
}

} // verus!
