//! What the voice runtime client decides around each request: which requests
//! it sends, and which replies it accepts.
use vstd::prelude::*;
use crate::json_value::JsonValue;
use crate::speech::{invalid_input, validate_wav, wav_refusal, VoiceError};
use crate::text::{
    chars_of, decimal, is_blank, is_blank_str, owned, push_decimal, push_str, str_eq, string_of,
    trim, trim_chars,
};
use crate::voice_config::{
    SynthesisRequest, SynthesizedAudio, TranscriptionResult, VoiceActiveBackends,
    VoiceCapabilities, VoiceComponentHealth, VoiceFallbackHealth,
};

verus! {

/// The version of the runtime's request and report formats.
pub const VOICE_API_SCHEMA_VERSION: u32 = 1;

pub open spec fn invalid_response<T>(r: Result<T, VoiceError>, message: Seq<char>) -> bool {
    r matches Err(VoiceError::InvalidResponse(m)) && m@ == message
}

/// How the voice runtime reports its health.
#[derive(Debug, PartialEq)]
pub struct VoiceRuntimeHealth {
    pub schema_version: u32,
    pub status: String,
    pub stt: VoiceComponentHealth,
    pub tts: VoiceComponentHealth,
    pub preset_voices: Vec<String>,
    pub mode: Option<String>,
    pub active: Option<VoiceActiveBackends>,
    pub fallback: Option<VoiceFallbackHealth>,
    pub circuit_breaker: Option<JsonValue>,
    pub capabilities: Option<VoiceCapabilities>,
    pub backends: Option<JsonValue>,
}

impl VoiceRuntimeHealth {
    /// Ready: the current schema, status "ok", and both components ready.
    pub open spec fn is_ready(&self) -> bool {
        &&& self.schema_version == VOICE_API_SCHEMA_VERSION
        &&& self.status@ == "ok"@
        &&& self.stt.ready
        &&& self.tts.ready
    }

    pub fn ready(&self) -> (r: bool)
        ensures
            r == self.is_ready(),
    {
        self.schema_version == VOICE_API_SCHEMA_VERSION && str_eq(self.status.as_str(), "ok")
            && self.stt.ready && self.tts.ready
    }
}

/// A health report as the runtime sent it, refused when it speaks another
/// schema version.
pub fn accept_health_report(health: VoiceRuntimeHealth) -> (r: Result<
    VoiceRuntimeHealth,
    VoiceError,
>)
    ensures
        health.schema_version == VOICE_API_SCHEMA_VERSION ==> r == Ok::<
            VoiceRuntimeHealth,
            VoiceError,
        >(health),
        health.schema_version != VOICE_API_SCHEMA_VERSION ==> invalid_response(
            r,
            "unsupported schema version "@ + decimal(health.schema_version as nat),
        ),
{
    if health.schema_version != VOICE_API_SCHEMA_VERSION {
        let mut m = owned("unsupported schema version ");
        push_decimal(&mut m, health.schema_version as usize);
        return Err(VoiceError::InvalidResponse(m));
    }
    Ok(health)
}

/// Why a synthesis request is not sent, if it is not: blank text, more
/// characters than the limit, or an output format other than WAV.
pub open spec fn synthesis_refusal(text: Seq<char>, format: Seq<char>, max_chars: nat) -> Option<
    Seq<char>,
> {
    if is_blank(text) {
        Some("speech text must not be empty"@)
    } else if text.len() > max_chars {
        Some("speech text exceeds the "@ + decimal(max_chars) + "-character limit"@)
    } else if format != "wav"@ {
        Some("the MVP voice runtime supports WAV output only"@)
    } else {
        None
    }
}

/// Checks a synthesis request before it is sent.
pub fn check_synthesis_request(request: &SynthesisRequest, max_speech_chars: usize) -> (r: Result<
    (),
    VoiceError,
>)
    ensures
        match synthesis_refusal(request.text@, request.format@, max_speech_chars as nat) {
            None => r is Ok,
            Some(m) => invalid_input(r, m),
        },
{
    if is_blank_str(request.text.as_str()) {
        return Err(VoiceError::InvalidInput(owned("speech text must not be empty")));
    }
    let chars = chars_of(request.text.as_str());
    if chars.len() > max_speech_chars {
        let mut m = owned("speech text exceeds the ");
        push_decimal(&mut m, max_speech_chars);
        push_str(&mut m, "-character limit");
        return Err(VoiceError::InvalidInput(m));
    }
    if !str_eq(request.format.as_str(), "wav") {
        return Err(
            VoiceError::InvalidInput(owned("the MVP voice runtime supports WAV output only")),
        );
    }
    Ok(())
}

/// The language sent with a transcription: the caller's, trimmed, unless it
/// is missing or blank.
pub fn transcription_language(language: Option<&str>) -> (r: Option<String>)
    ensures
        match language {
            Some(l) => if is_blank(l@) {
                r is None
            } else {
                r matches Some(s) && s@ == trim(l@)
            },
            None => r is None,
        },
{
    match language {
        Some(l) => {
            if is_blank_str(l) {
                None
            } else {
                let cs = chars_of(l);
                let t = trim_chars(&cs);
                Some(string_of(&t))
            }
        },
        None => None,
    }
}

/// A transcription as the runtime sent it, refused when its text is blank.
pub fn accept_transcription(result: TranscriptionResult) -> (r: Result<
    TranscriptionResult,
    VoiceError,
>)
    ensures
        is_blank(result.text@) ==> invalid_response(r, "transcription text is empty"@),
        !is_blank(result.text@) ==> r == Ok::<TranscriptionResult, VoiceError>(result),
{
    if is_blank_str(result.text.as_str()) {
        return Err(VoiceError::InvalidResponse(owned("transcription text is empty")));
    }
    Ok(result)
}

/// Refuses synthesized audio whose announced length is over the output limit.
pub fn check_announced_length(content_length: Option<u64>, max_output_bytes: usize) -> (r: Result<
    (),
    VoiceError,
>)
    ensures
        match content_length {
            Some(n) => if n > max_output_bytes {
                invalid_response(r, "synthesized WAV exceeds the configured output limit"@)
            } else {
                r is Ok
            },
            None => r is Ok,
        },
{
    match content_length {
        Some(n) => {
            if n > max_output_bytes as u64 {
                return Err(
                    VoiceError::InvalidResponse(
                        owned("synthesized WAV exceeds the configured output limit"),
                    ),
                );
            }
            Ok(())
        },
        None => Ok(()),
    }
}

/// The audio the runtime sent back, with its content type ("audio/wav" when
/// it named none), once the bytes are checked as WAV within the limit.
pub fn synthesized_audio(bytes: Vec<u8>, content_type: Option<String>, max_output_bytes: usize) -> (r:
    Result<SynthesizedAudio, VoiceError>)
    ensures
        match wav_refusal(bytes@, max_output_bytes as nat) {
            None => r matches Ok(a) && a.bytes@ == bytes@ && a.content_type@ == match content_type {
                Some(c) => c@,
                None => "audio/wav"@,
            },
            Some(m) => invalid_input(r, m),
        },
{
    let content_type = match content_type {
        Some(c) => c,
        None => owned("audio/wav"),
    };
    if let Err(e) = validate_wav(bytes.as_slice(), max_output_bytes) {
        return Err(e);
    }
    Ok(SynthesizedAudio { bytes, content_type })
}

/// The message of a refused request: the runtime's own error text where it
/// sent one that is not blank.
pub open spec fn rejection_text(message: Option<String>) -> Seq<char> {
    match message {
        Some(t) => if is_blank(t@) {
            "voice runtime rejected the request"@
        } else {
            t@
        },
        None => "voice runtime rejected the request"@,
    }
}

/// The error for a reply whose HTTP status is not a success; `status` is the
/// status as it is written out (code and reason).
pub fn rejected_request(status: &str, message: Option<String>) -> (r: VoiceError)
    ensures
        r matches VoiceError::Request(m) && m@ == "HTTP "@ + status@ + ": "@ + rejection_text(
            message,
        ),
{
    let text = match message {
        Some(t) => if is_blank_str(t.as_str()) {
            owned("voice runtime rejected the request")
        } else {
            t
        },
        None => owned("voice runtime rejected the request"),
    };
    let mut m = owned("HTTP ");
    push_str(&mut m, status);
    push_str(&mut m, ": ");
    push_str(&mut m, text.as_str());
    VoiceError::Request(m)
}

/// The error for a request that got no reply: a timeout or a failed
/// connection means the runtime is unavailable; anything else is reported
/// with its own description.
pub fn request_failure(timed_out: bool, connect_failed: bool, description: String) -> (r:
    VoiceError)
    ensures
        timed_out ==> (r matches VoiceError::RuntimeUnavailable(m) && m@ == "request timed out"@),
        !timed_out && connect_failed ==> (r matches VoiceError::RuntimeUnavailable(m) && m@
            == "connection failed"@),
        !timed_out && !connect_failed ==> r == VoiceError::Request(description),
{
    if timed_out {
        VoiceError::RuntimeUnavailable(owned("request timed out"))
    } else if connect_failed {
        VoiceError::RuntimeUnavailable(owned("connection failed"))
    } else {
        VoiceError::Request(description)
    }
}

} // verus!
