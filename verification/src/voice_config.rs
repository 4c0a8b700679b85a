use vstd::prelude::*;
use crate::speech::{invalid_configuration, VoiceError};
use crate::text::{
    chars_of, chars_equal, is_ascii_digit, lower, lower_chars, owned, push_str, str_eq, string_of,
    trim, trim_chars,
};

verus! {

pub const DEFAULT_VOICE_RUNTIME_URL: &'static str = "http://127.0.0.1:17862";

pub const DEFAULT_MAX_INPUT_BYTES: usize = 26214400;

pub const DEFAULT_MAX_OUTPUT_BYTES: usize = 52428800;

pub const DEFAULT_MAX_SPEECH_CHARS: usize = 2000;

pub const DEFAULT_REQUEST_TIMEOUT_SECONDS: u64 = 180;

// ----- decimal numbers -----

/// The value of a run of decimal digits.
pub open spec fn digits_value(s: Seq<char>) -> nat
    decreases s.len(),
{
    if s.len() == 0 {
        0
    } else {
        digits_value(s.drop_last()) * 10 + ((s.last() as u32) - ('0' as u32)) as nat
    }
}

pub open spec fn all_digits(s: Seq<char>) -> bool {
    forall|i: int| 0 <= i < s.len() ==> is_ascii_digit(#[trigger] s[i])
}

/// `str::parse` for an unsigned integer type whose largest value is `max`:
/// an optional `+`, then at least one decimal digit, with a value that fits.
pub open spec fn parsed_unsigned(s: Seq<char>, max: nat) -> Option<nat> {
    let body = if s.len() > 0 && s[0] == '+' {
        s.drop_first()
    } else {
        s
    };
    if body.len() > 0 && all_digits(body) && digits_value(body) <= max {
        Some(digits_value(body))
    } else {
        None
    }
}

/// Parses an unsigned decimal number no larger than `max`.
pub fn parse_unsigned(s: &Vec<char>, max: u64) -> (r: Option<u64>)
    ensures
        match parsed_unsigned(s@, max as nat) {
            Some(v) => r == Some(v as u64),
            None => r is None,
        },
{
    let start: usize = if s.len() > 0 && s[0] == '+' {
        1
    } else {
        0
    };
    let ghost body = if s@.len() > 0 && s@[0] == '+' {
        s@.drop_first()
    } else {
        s@
    };
    assert(body =~= s@.skip(start as int));
    if start >= s.len() {
        return None;
    }
    let mut value: u64 = 0;
    let mut i: usize = start;
    while i < s.len()
        invariant
            start <= i <= s@.len(),
            start < s@.len(),
            body == s@.skip(start as int),
            body == (if s@.len() > 0 && s@[0] == '+' {
                s@.drop_first()
            } else {
                s@
            }),
            value as nat == digits_value(body.take(i - start)),
            value <= max,
            all_digits(body.take(i - start)),
        decreases s@.len() - i,
    {
        let c = s[i];
        proof {
            assert(body.take(i + 1 - start).drop_last() =~= body.take(i - start));
            assert(body.take(i + 1 - start).last() == c);
        }
        if !('0' <= c && c <= '9') {
            assert(!is_ascii_digit(body[i - start]));
            return None;
        }
        let d = (c as u32 - '0' as u32) as u64;
        let bigger = value.checked_mul(10);
        let next = match bigger {
            Some(b) => b.checked_add(d),
            None => None,
        };
        match next {
            Some(n) if n <= max => {
                value = n;
            },
            _ => {
                proof {
                    let t = body.take(i + 1 - start);
                    assert(digits_value(t) == digits_value(body.take(i - start)) * 10 + d);
                    assert(digits_value(t) > max);
                    if all_digits(body) {
                        lemma_digits_prefix(body, i + 1 - start);
                    }
                }
                return None;
            },
        }
        proof {
            assert forall|k: int| 0 <= k < body.take(i + 1 - start).len() implies is_ascii_digit(
                #[trigger] body.take(i + 1 - start)[k],
            ) by {
                if k < i - start {
                    assert(body.take(i + 1 - start)[k] == body.take(i - start)[k]);
                }
            }
        }
        i = i + 1;
    }
    assert(body.take(i - start) =~= body);
    Some(value)
}

/// A run of digits is worth at least as much as any of its prefixes.
proof fn lemma_digits_prefix(s: Seq<char>, j: int)
    requires
        0 <= j <= s.len(),
        all_digits(s),
    ensures
        digits_value(s.take(j)) <= digits_value(s),
    decreases s.len(),
{
    if j < s.len() {
        let t = s.drop_last();
        assert(all_digits(t)) by {
            assert forall|i: int| 0 <= i < t.len() implies is_ascii_digit(#[trigger] t[i]) by {
                assert(t[i] == s[i]);
            }
        }
        lemma_digits_prefix(t, j);
        assert(t.take(j) =~= s.take(j));
        assert(is_ascii_digit(s[s.len() - 1]));
    } else {
        assert(s.take(j) =~= s);
    }
}


// ----- configuration -----

/// The voice settings read from the environment, each as found (`None`
/// when the variable is unset).
#[derive(Clone, Debug)]
pub struct VoiceEnvironment {
    /// `YUNXI_VOICE_RUNTIME_URL`
    pub runtime_url: Option<String>,
    /// `YUNXI_VOICE_REQUEST_TIMEOUT_SECONDS`
    pub request_timeout_seconds: Option<String>,
    /// `YUNXI_VOICE_STT_URL`
    pub stt_url: Option<String>,
    /// `YUNXI_VOICE_TTS_URL`
    pub tts_url: Option<String>,
    /// `YUNXI_VOICE_MAX_INPUT_BYTES`
    pub max_input_bytes: Option<String>,
    /// `YUNXI_VOICE_MAX_OUTPUT_BYTES`
    pub max_output_bytes: Option<String>,
    /// `YUNXI_VOICE_MAX_SPEECH_CHARS`
    pub max_speech_chars: Option<String>,
    /// `YUNXI_VOICE_ALLOW_REMOTE`
    pub allow_remote: Option<String>,
    /// `YUNXI_VOICE_AUTH_TOKEN`
    pub auth_token: Option<String>,
}

/// Where the voice runtime is and what it may exchange.  The request
/// timeout is held in whole seconds.
#[derive(Clone)]
pub struct VoiceClientConfig {
    pub stt_base_url: String,
    pub tts_base_url: String,
    pub request_timeout_secs: u64,
    pub max_input_bytes: usize,
    pub max_output_bytes: usize,
    pub max_speech_chars: usize,
    pub allow_remote: bool,
    pub auth_token: AuthToken,
}

/// A bearer token for the voice runtime; it is kept out of sight, so it has
/// no `Debug` form either.
#[derive(Clone)]
pub struct AuthToken(Option<String>);

impl AuthToken {
    pub closed spec fn secret(&self) -> Option<Seq<char>> {
        opt_view(self.0)
    }

    /// Whether a token is set.
    pub fn is_configured(&self) -> (r: bool)
        ensures
            r == self.secret() is Some,
    {
        self.0.is_some()
    }
}

/// A setting counts when it is set to something besides whitespace; its
/// value is then the trimmed text.
pub open spec fn present(raw: Option<String>) -> Option<Seq<char>> {
    match raw {
        Some(v) => if trim(v@).len() > 0 {
            Some(trim(v@))
        } else {
            None
        },
        None => None,
    }
}

/// The request timeout: a number of seconds held between 1 and 600, else
/// the default.
pub open spec fn timeout_setting(raw: Option<String>) -> u64 {
    match present(raw) {
        Some(t) => match parsed_unsigned(t, u64::MAX as nat) {
            Some(n) => if n < 1 {
                1
            } else if n > 600 {
                600
            } else {
                n as u64
            },
            None => DEFAULT_REQUEST_TIMEOUT_SECONDS,
        },
        None => DEFAULT_REQUEST_TIMEOUT_SECONDS,
    }
}

/// A size limit: a positive number, else the default.
pub open spec fn size_setting(raw: Option<String>, default: usize) -> usize {
    match present(raw) {
        Some(t) => match parsed_unsigned(t, usize::MAX as nat) {
            Some(n) => if n > 0 {
                n as usize
            } else {
                default
            },
            None => default,
        },
        None => default,
    }
}

/// A switch is on for `1`, `true`, `yes` or `on`, in any ASCII case.
pub open spec fn switch_setting(raw: Option<String>) -> bool {
    match present(raw) {
        Some(t) => {
            let l = lower(t);
            l == "1"@ || l == "true"@ || l == "yes"@ || l == "on"@
        },
        None => false,
    }
}

pub open spec fn opt_view(o: Option<String>) -> Option<Seq<char>> {
    match o {
        Some(s) => Some(s@),
        None => None,
    }
}

fn present_exec(raw: &Option<String>) -> (r: Option<Vec<char>>)
    ensures
        match present(*raw) {
            Some(t) => r is Some && r->0@ == t,
            None => r is None,
        },
{
    match raw {
        Some(v) => {
            let cs = chars_of(v.as_str());
            let t = trim_chars(&cs);
            if t.len() > 0 {
                Some(t)
            } else {
                None
            }
        },
        None => None,
    }
}

fn present_string(raw: &Option<String>) -> (r: Option<String>)
    ensures
        opt_view(r) == present(*raw),
{
    match present_exec(raw) {
        Some(t) => Some(string_of(&t)),
        None => None,
    }
}

fn size_setting_exec(raw: &Option<String>, default: usize) -> (r: usize)
    ensures
        r == size_setting(*raw, default),
{
    match present_exec(raw) {
        Some(t) => match parse_unsigned(&t, usize::MAX as u64) {
            Some(n) => if n > 0 {
                n as usize
            } else {
                default
            },
            None => default,
        },
        None => default,
    }
}

fn is_literal(t: &Vec<char>, lit: &str) -> (r: bool)
    ensures
        r == (t@ == lit@),
{
    let l = chars_of(lit);
    chars_equal(t, &l)
}

impl Default for VoiceClientConfig {
    /// The local runtime with the default limits, remote runtimes refused
    /// and no token.
    fn default() -> (r: Self)
        ensures
            r.stt_base_url@ == DEFAULT_VOICE_RUNTIME_URL@,
            r.tts_base_url@ == DEFAULT_VOICE_RUNTIME_URL@,
            r.request_timeout_secs == DEFAULT_REQUEST_TIMEOUT_SECONDS,
            r.max_input_bytes == DEFAULT_MAX_INPUT_BYTES,
            r.max_output_bytes == DEFAULT_MAX_OUTPUT_BYTES,
            r.max_speech_chars == DEFAULT_MAX_SPEECH_CHARS,
            !r.allow_remote,
            r.auth_token.secret() is None,
    {
        VoiceClientConfig {
            stt_base_url: owned(DEFAULT_VOICE_RUNTIME_URL),
            tts_base_url: owned(DEFAULT_VOICE_RUNTIME_URL),
            request_timeout_secs: DEFAULT_REQUEST_TIMEOUT_SECONDS,
            max_input_bytes: DEFAULT_MAX_INPUT_BYTES,
            max_output_bytes: DEFAULT_MAX_OUTPUT_BYTES,
            max_speech_chars: DEFAULT_MAX_SPEECH_CHARS,
            allow_remote: false,
            auth_token: AuthToken(None),
        }
    }
}

impl VoiceClientConfig {
    /// The configuration that the environment asks for.  Each URL falls
    /// back to the runtime URL, and that to the local default.
    pub fn from_env(env: &VoiceEnvironment) -> (r: Self)
        ensures
            ({
                let runtime = match present(env.runtime_url) {
                    Some(u) => u,
                    None => DEFAULT_VOICE_RUNTIME_URL@,
                };
                &&& r.stt_base_url@ == match present(env.stt_url) {
                    Some(u) => u,
                    None => runtime,
                }
                &&& r.tts_base_url@ == match present(env.tts_url) {
                    Some(u) => u,
                    None => runtime,
                }
            }),
            r.request_timeout_secs == timeout_setting(env.request_timeout_seconds),
            r.max_input_bytes == size_setting(env.max_input_bytes, DEFAULT_MAX_INPUT_BYTES),
            r.max_output_bytes == size_setting(env.max_output_bytes, DEFAULT_MAX_OUTPUT_BYTES),
            r.max_speech_chars == size_setting(env.max_speech_chars, DEFAULT_MAX_SPEECH_CHARS),
            r.allow_remote == switch_setting(env.allow_remote),
            r.auth_token.secret() == present(env.auth_token),
    {
        let runtime_url = match present_string(&env.runtime_url) {
            Some(u) => u,
            None => owned(DEFAULT_VOICE_RUNTIME_URL),
        };
        let request_timeout_secs = match present_exec(&env.request_timeout_seconds) {
            Some(t) => match parse_unsigned(&t, u64::MAX) {
                Some(n) => if n < 1 {
                    1
                } else if n > 600 {
                    600
                } else {
                    n
                },
                None => DEFAULT_REQUEST_TIMEOUT_SECONDS,
            },
            None => DEFAULT_REQUEST_TIMEOUT_SECONDS,
        };
        let stt_base_url = match present_string(&env.stt_url) {
            Some(u) => u,
            None => runtime_url.clone(),
        };
        let tts_base_url = match present_string(&env.tts_url) {
            Some(u) => u,
            None => runtime_url,
        };
        let allow_remote = match present_exec(&env.allow_remote) {
            Some(t) => {
                let l = lower_chars(&t);
                is_literal(&l, "1") || is_literal(&l, "true") || is_literal(&l, "yes")
                    || is_literal(&l, "on")
            },
            None => false,
        };
        VoiceClientConfig {
            stt_base_url,
            tts_base_url,
            request_timeout_secs,
            max_input_bytes: size_setting_exec(&env.max_input_bytes, DEFAULT_MAX_INPUT_BYTES),
            max_output_bytes: size_setting_exec(&env.max_output_bytes, DEFAULT_MAX_OUTPUT_BYTES),
            max_speech_chars: size_setting_exec(&env.max_speech_chars, DEFAULT_MAX_SPEECH_CHARS),
            allow_remote,
            auth_token: AuthToken(present_string(&env.auth_token)),
        }
    }

    /// Points both the speech-to-text and the text-to-speech service at one
    /// runtime.
    pub fn with_runtime_url(self, value: String) -> (r: Self)
        ensures
            r.stt_base_url@ == value@,
            r.tts_base_url@ == value@,
            r.request_timeout_secs == self.request_timeout_secs,
            r.max_input_bytes == self.max_input_bytes,
            r.max_output_bytes == self.max_output_bytes,
            r.max_speech_chars == self.max_speech_chars,
            r.allow_remote == self.allow_remote,
            r.auth_token.secret() == self.auth_token.secret(),
    {
        let copy = value.clone();
        VoiceClientConfig { stt_base_url: copy, tts_base_url: value, ..self }
    }

    /// Sends a bearer token to the runtime.
    pub fn with_auth_token(self, value: String) -> (r: Self)
        ensures
            r.stt_base_url == self.stt_base_url,
            r.tts_base_url == self.tts_base_url,
            r.request_timeout_secs == self.request_timeout_secs,
            r.max_input_bytes == self.max_input_bytes,
            r.max_output_bytes == self.max_output_bytes,
            r.max_speech_chars == self.max_speech_chars,
            r.allow_remote == self.allow_remote,
            r.auth_token.secret() == Some(value@),
    {
        VoiceClientConfig { auth_token: AuthToken(Some(value)), ..self }
    }
}

// ----- runtime reports -----

/// How one voice component reports itself.
#[derive(Clone, Debug, PartialEq, Eq)]
pub struct VoiceComponentHealth {
    pub provider: String,
    pub model: String,
    pub device: String,
    pub ready: bool,
}

#[derive(Clone, Debug, PartialEq, Eq)]
pub struct VoiceActiveBackends {
    pub stt: String,
    pub tts: String,
}

#[derive(Clone, Debug, PartialEq, Eq)]
pub struct VoiceFallbackHealth {
    pub count: u64,
    pub last: Option<VoiceFallbackEvent>,
}

#[derive(Clone, Debug, PartialEq, Eq)]
pub struct VoiceFallbackEvent {
    pub component: String,
    pub reason: String,
}

#[derive(Clone, Copy, Debug, PartialEq, Eq, Default, Structural)]
pub struct VoiceCapabilities {
    pub streaming: bool,
    pub voice_clone: bool,
    pub emotion_control: bool,
}

/// What speech recognition heard.
#[derive(Clone, Debug, PartialEq, Eq)]
pub struct TranscriptionResult {
    pub text: String,
    pub language: Option<String>,
    pub emotion: Option<String>,
    pub audio_events: Vec<String>,
}

/// Text to speak, with the voice and audio format.
#[derive(Clone, Debug, PartialEq, Eq)]
pub struct SynthesisRequest {
    pub text: String,
    pub voice: String,
    pub format: String,
    pub realtime: bool,
}

/// Spoken audio.
#[derive(Clone, Debug, PartialEq, Eq)]
pub struct SynthesizedAudio {
    pub bytes: Vec<u8>,
    pub content_type: String,
}

// ----- runtime addresses -----

#[verifier::external_type_specification]
#[verifier::external_body]
pub struct ExUrl(reqwest::Url);

/// What `Url::parse` makes of a text: the URL's scheme, host and
/// serialization (`Url::as_str`), or the message of its parse error.
pub uninterp spec fn url_parts(text: Seq<char>) -> Result<(Seq<char>, Option<Seq<char>>, Seq<char>), Seq<char>>;

/// A parsed URL with the parts the client looks at: its scheme, its host
/// and its whole text as the parser writes it.
#[derive(Debug)]
pub struct ParsedUrl {
    pub url: reqwest::Url,
    pub scheme: String,
    pub host: Option<String>,
    pub text: String,
}

/// `reqwest::Url::parse` (the `url` crate's WHATWG parser), with the
/// scheme (`Url::scheme`), host (`Url::host_str`) and serialization
/// (`Url::as_str`) copied out, or the error's `Display` text. The contract
/// claims only that these are what the parser makes of the text, which
/// depends on the text alone; the URL value is opaque here, and its text is
/// what stands for it.
#[verifier::external_body]
fn parse_url(text: &str) -> (r: Result<ParsedUrl, String>)
    ensures
        match r {
            Ok(p) => url_parts(text@) == Ok::<(Seq<char>, Option<Seq<char>>, Seq<char>), Seq<char>>(
                (p.scheme@, opt_view(p.host), p.text@),
            ),
            Err(m) => url_parts(text@) == Err::<(Seq<char>, Option<Seq<char>>, Seq<char>), Seq<char>>(m@),
        },
{
    match reqwest::Url::parse(text) {
        Ok(url) => {
            let scheme = url.scheme().to_string();
            let host = url.host_str().map(|h| h.to_string());
            let text = url.as_str().to_string();
            Ok(ParsedUrl { url, scheme, host, text })
        },
        Err(e) => Err(e.to_string()),
    }
}

/// A host the runtime may be reached at without opting in to remote use.
pub open spec fn is_local_host(host: Option<Seq<char>>) -> bool {
    host == Some("127.0.0.1"@) || host == Some("localhost"@) || host == Some("::1"@)
}

/// Why a runtime URL is refused, if it is: it does not parse, its scheme is
/// not http or https, or it is remote and remote runtimes are not allowed.
pub open spec fn base_url_refusal(text: Seq<char>, allow_remote: bool) -> Option<Seq<char>> {
    match url_parts(text) {
        Err(m) => Some("invalid URL: "@ + m),
        Ok((scheme, host, _)) => if scheme != "http"@ && scheme != "https"@ {
            Some("voice runtime URL must use http or https"@)
        } else if !allow_remote && !is_local_host(host) {
            Some("remote voice runtime URLs require YUNXI_VOICE_ALLOW_REMOTE=1"@)
        } else {
            None
        },
    }
}

fn opt_str_is(o: &Option<String>, lit: &str) -> (r: bool)
    ensures
        r == (opt_view(*o) == Some(lit@)),
{
    match o {
        Some(s) => str_eq(s.as_str(), lit),
        None => false,
    }
}

fn validate_base_url(value: &str, allow_remote: bool) -> (r: Result<(), VoiceError>)
    ensures
        match base_url_refusal(value@, allow_remote) {
            None => r is Ok,
            Some(m) => invalid_configuration(r, m),
        },
{
    let parsed = match parse_url(value) {
        Ok(p) => p,
        Err(e) => {
            let mut m = owned("invalid URL: ");
            push_str(&mut m, e.as_str());
            return Err(VoiceError::InvalidConfiguration(m));
        },
    };
    if !str_eq(parsed.scheme.as_str(), "http") && !str_eq(parsed.scheme.as_str(), "https") {
        return Err(
            VoiceError::InvalidConfiguration(owned("voice runtime URL must use http or https")),
        );
    }
    if !allow_remote {
        let local = opt_str_is(&parsed.host, "127.0.0.1") || opt_str_is(&parsed.host, "localhost")
            || opt_str_is(&parsed.host, "::1");
        if !local {
            return Err(
                VoiceError::InvalidConfiguration(
                    owned("remote voice runtime URLs require YUNXI_VOICE_ALLOW_REMOTE=1"),
                ),
            );
        }
    }
    Ok(())
}

/// The text with its trailing slashes removed.
pub open spec fn without_trailing_slashes(s: Seq<char>) -> Seq<char>
    decreases s.len(),
{
    if s.len() > 0 && s.last() == '/' {
        without_trailing_slashes(s.drop_last())
    } else {
        s
    }
}

/// The address of `path` on the runtime at `base`.
pub open spec fn endpoint_text(base: Seq<char>, path: Seq<char>) -> Seq<char> {
    without_trailing_slashes(base) + path
}

/// The URL of `path` on the runtime at `base_url` (the base without its
/// trailing slashes, then the path), refused when it does not parse.
pub fn endpoint(base_url: &str, path: &str) -> (r: Result<ParsedUrl, VoiceError>)
    ensures
        match url_parts(endpoint_text(base_url@, path@)) {
            Ok((scheme, host, href)) => r matches Ok(u) && u.text@ == href && u.scheme@ == scheme
                && opt_view(u.host) == host,
            Err(m) => invalid_configuration(r, "invalid endpoint: "@ + m),
        },
{
    let cs = chars_of(base_url);
    let mut end = cs.len();
    assert(cs@.take(cs@.len() as int) =~= cs@);
    while end > 0 && cs[end - 1] == '/'
        invariant
            end <= cs@.len(),
            without_trailing_slashes(cs@) == without_trailing_slashes(cs@.take(end as int)),
        decreases end,
    {
        assert(cs@.take(end as int).drop_last() =~= cs@.take(end - 1));
        end = end - 1;
    }
    assert(without_trailing_slashes(cs@.take(end as int)) == cs@.take(end as int));
    let mut text = string_of_prefix(&cs, end);
    push_str(&mut text, path);
    match parse_url(text.as_str()) {
        Ok(p) => Ok(p),
        Err(e) => {
            let mut m = owned("invalid endpoint: ");
            push_str(&mut m, e.as_str());
            Err(VoiceError::InvalidConfiguration(m))
        },
    }
}

/// The first `end` characters as a string.
fn string_of_prefix(cs: &Vec<char>, end: usize) -> (r: String)
    requires
        end <= cs@.len(),
    ensures
        r@ == cs@.take(end as int),
{
    let mut v: Vec<char> = Vec::new();
    let mut i: usize = 0;
    while i < end
        invariant
            i <= end <= cs@.len(),
            v@ == cs@.take(i as int),
        decreases end - i,
    {
        v.push(cs[i]);
        i = i + 1;
        assert(v@ =~= cs@.take(i as int));
    }
    string_of(&v)
}

/// Whether `HeaderValue::from_str` takes the text: each character a tab, or
/// neither a control character nor DEL. (A character beyond ASCII is
/// encoded in bytes of 128 and up, which are all allowed.)
pub open spec fn header_text_ok(s: Seq<char>) -> bool {
    forall|i: int|
        0 <= i < s.len() ==> #[trigger] s[i] == '\t' || (s[i] as u32 >= 32 && s[i] as u32 != 127)
}

/// `reqwest::header::HeaderValue::from_str` (the `http` crate's), asked
/// only whether it accepts the text; its source accepts exactly the texts
/// whose bytes are all a tab or at least 32 and not 127.
#[verifier::external_body]
fn header_value_accepts(text: &str) -> (r: bool)
    ensures
        r == header_text_ok(text@),
{
    reqwest::header::HeaderValue::from_str(text).is_ok()
}

impl VoiceClientConfig {
    /// Why the configuration is refused, if it is: a runtime URL is refused,
    /// or a WAV limit is under a WAV header, or the speech limit is zero.
    pub open spec fn config_refusal(&self) -> Option<Seq<char>> {
        match base_url_refusal(self.stt_base_url@, self.allow_remote) {
            Some(m) => Some(m),
            None => match base_url_refusal(self.tts_base_url@, self.allow_remote) {
                Some(m) => Some(m),
                None => if self.max_input_bytes < 44 {
                    Some("maximum input size is too small for a WAV file"@)
                } else if self.max_output_bytes < 44 {
                    Some("maximum output size is too small for a WAV file"@)
                } else if self.max_speech_chars == 0 {
                    Some("maximum speech text length must be positive"@)
                } else {
                    None
                },
            },
        }
    }

    /// Checks the configuration before a client is built on it.
    pub fn validate(&self) -> (r: Result<(), VoiceError>)
        ensures
            match self.config_refusal() {
                None => r is Ok,
                Some(m) => invalid_configuration(r, m),
            },
    {
        if let Err(e) = validate_base_url(self.stt_base_url.as_str(), self.allow_remote) {
            return Err(e);
        }
        if let Err(e) = validate_base_url(self.tts_base_url.as_str(), self.allow_remote) {
            return Err(e);
        }
        if self.max_input_bytes < 44 {
            return Err(
                VoiceError::InvalidConfiguration(
                    owned("maximum input size is too small for a WAV file"),
                ),
            );
        }
        if self.max_output_bytes < 44 {
            return Err(
                VoiceError::InvalidConfiguration(
                    owned("maximum output size is too small for a WAV file"),
                ),
            );
        }
        if self.max_speech_chars == 0 {
            return Err(
                VoiceError::InvalidConfiguration(
                    owned("maximum speech text length must be positive"),
                ),
            );
        }
        Ok(())
    }

    /// The `Authorization` header for the configured token: none without a
    /// token, `Bearer` and the token otherwise, refused when a header cannot
    /// carry it.
    pub fn authorization(&self) -> (r: Result<Option<String>, VoiceError>)
        ensures
            match self.auth_token.secret() {
                None => r == Ok::<Option<String>, VoiceError>(None),
                Some(t) => if header_text_ok("Bearer "@ + t) {
                    r matches Ok(Some(v)) && v@ == "Bearer "@ + t
                } else {
                    invalid_configuration(r, "voice auth token is invalid"@)
                },
            },
    {
        match &self.auth_token.0 {
            None => Ok(None),
            Some(token) => {
                let mut value = owned("Bearer ");
                push_str(&mut value, token.as_str());
                if header_value_accepts(value.as_str()) {
                    Ok(Some(value))
                } else {
                    Err(VoiceError::InvalidConfiguration(owned("voice auth token is invalid")))
                }
            },
        }
    }
}

} // verus!
