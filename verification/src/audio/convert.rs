//! Selecting the conversion target for each provider and laying out the
//! encoder invocation. The encoder itself runs as an external process
//! outside this crate; everything it is told to do is computed and
//! specified here.

use vstd::prelude::*;

use crate::stt::SttProvider;
use crate::textfmt::{decimal_digits, u64_to_string};

verus! {

/// The converted audio handed to the provider dispatcher: raw encoded
/// bytes plus the format metadata the conversion produced.
pub struct ConvertedAudio {
    pub data: Vec<u8>,
    pub format: String,
    pub sample_rate: u32,
    pub channels: u8,
}

/// The fixed conversion tuple for one provider: output format tag, sample
/// rate, channel count, codec, and the container the encoder is told to
/// write.
pub struct ConversionTarget {
    pub format: &'static str,
    pub sample_rate: u32,
    pub channels: u8,
    pub codec: &'static str,
    pub container: &'static str,
}

/// Picks the conversion target purely from the provider selector, never
/// from the input content.
pub fn conversion_target(provider: SttProvider) -> (t: ConversionTarget)
    ensures
        provider == SttProvider::ElevenLabs ==> t.format@ == "pcm"@ && t.codec@ == "pcm_s16le"@
            && t.container@ == "s16le"@,
        provider == SttProvider::Whisper ==> t.format@ == "wav"@ && t.codec@ == "pcm_s16le"@
            && t.container@ == "wav"@,
        provider == SttProvider::Google ==> t.format@ == "flac"@ && t.codec@ == "flac"@
            && t.container@ == "flac"@,
        t.sample_rate == 16000,
        t.channels == 1,
{
    match provider {
        SttProvider::ElevenLabs => ConversionTarget {
            format: "pcm",
            sample_rate: 16000,
            channels: 1,
            codec: "pcm_s16le",
            container: "s16le",
        },
        SttProvider::Whisper => ConversionTarget {
            format: "wav",
            sample_rate: 16000,
            channels: 1,
            codec: "pcm_s16le",
            container: "wav",
        },
        SttProvider::Google => ConversionTarget {
            format: "flac",
            sample_rate: 16000,
            channels: 1,
            codec: "flac",
            container: "flac",
        },
    }
}

/// The argument list for one encoder invocation: overwrite quietly, read
/// the input file, apply the target's codec, rate, channel count and
/// container, and write the output file.
pub fn ffmpeg_args(target: &ConversionTarget, input_path: &str, output_path: &str) -> (args: Vec<
    String,
>)
    ensures
        args@.len() == 15,
        args@[0]@ == "-y"@,
        args@[1]@ == "-hide_banner"@,
        args@[2]@ == "-loglevel"@,
        args@[3]@ == "error"@,
        args@[4]@ == "-i"@,
        args@[5]@ == input_path@,
        args@[6]@ == "-acodec"@,
        args@[7]@ == target.codec@,
        args@[8]@ == "-ar"@,
        args@[9]@ == decimal_digits(target.sample_rate as nat),
        args@[10]@ == "-ac"@,
        args@[11]@ == decimal_digits(target.channels as nat),
        args@[12]@ == "-f"@,
        args@[13]@ == target.container@,
        args@[14]@ == output_path@,
{
    let mut args: Vec<String> = Vec::new();
    args.push(String::from_str("-y"));
    args.push(String::from_str("-hide_banner"));
    args.push(String::from_str("-loglevel"));
    args.push(String::from_str("error"));
    args.push(String::from_str("-i"));
    args.push(String::from_str(input_path));
    args.push(String::from_str("-acodec"));
    args.push(String::from_str(target.codec));
    args.push(String::from_str("-ar"));
    args.push(u64_to_string(target.sample_rate as u64));
    args.push(String::from_str("-ac"));
    args.push(u64_to_string(target.channels as u64));
    args.push(String::from_str("-f"));
    args.push(String::from_str(target.container));
    args.push(String::from_str(output_path));
    args
}

/// Wraps the encoder's output bytes with the format metadata of the
/// target that produced them.
pub fn make_converted_audio(data: Vec<u8>, target: &ConversionTarget) -> (a: ConvertedAudio)
    ensures
        a.data == data,
        a.format@ == target.format@,
        a.sample_rate == target.sample_rate,
        a.channels == target.channels,
{
    ConvertedAudio {
        data,
        format: String::from_str(target.format),
        sample_rate: target.sample_rate,
        channels: target.channels,
    }
}

/// The position of the last dot in a filename, or -1 when there is none.
pub open spec fn last_dot_index(s: Seq<char>) -> int
    decreases s.len(),
{
    if s.len() == 0 {
        -1
    } else if s.last() == '.' {
        s.len() - 1
    } else {
        last_dot_index(s.drop_last())
    }
}

/// The extension of a filename: what follows the last dot, or nothing
/// when the name has no dot.
pub open spec fn file_extension_spec(s: Seq<char>) -> Seq<char> {
    if last_dot_index(s) >= 0 {
        s.subrange(last_dot_index(s) + 1, s.len() as int)
    } else {
        Seq::empty()
    }
}

proof fn lemma_last_dot_at(s: Seq<char>, j: int)
    requires
        0 <= j < s.len(),
        s[j] == '.',
        forall|k: int| j < k < s.len() ==> s[k] != '.',
    ensures
        last_dot_index(s) == j,
    decreases s.len(),
{
    if j == s.len() - 1 {
    } else {
        assert(s.last() != '.');
        let t = s.drop_last();
        assert(forall|k: int| j < k < t.len() ==> t[k] != '.');
        lemma_last_dot_at(t, j);
    }
}

proof fn lemma_no_dot(s: Seq<char>)
    requires
        forall|k: int| 0 <= k < s.len() ==> s[k] != '.',
    ensures
        last_dot_index(s) == -1,
    decreases s.len(),
{
    if s.len() > 0 {
        lemma_no_dot(s.drop_last());
    }
}

/// The extension of the submitted filename, exactly as
/// `file_extension_spec` describes.
pub fn get_file_extension(filename: &str) -> (r: &str)
    ensures
        r@ == file_extension_spec(filename@),
{
    let len = filename.unicode_len();
    let mut j: usize = len;
    while j > 0
        invariant
            0 <= j <= len,
            len == filename@.len(),
            forall|k: int| j <= k < len ==> filename@[k] != '.',
        decreases j,
    {
        if filename.get_char(j - 1) == '.' {
            proof {
                lemma_last_dot_at(filename@, j - 1);
            }
            return filename.substring_char(j, len);
        }
        j = j - 1;
    }
    proof {
        lemma_no_dot(filename@);
        reveal_strlit("");
        assert(""@ =~= Seq::<char>::empty());
    }
    ""
}

} // verus!
