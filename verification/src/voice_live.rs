use vstd::prelude::*;
use crate::speech::{invalid_configuration, AudioInput, VoiceError};
use crate::text::{owned, str_eq};
use crate::timeline_order::{
    lemma_text_lt_total, lemma_text_lt_transitive, text_less, text_lt,
};

verus! {

#[derive(Debug)]
pub struct AudioDeviceSummary {
    pub default_input: Option<String>,
    pub default_output: Option<String>,
    pub input_devices: Vec<String>,
}

#[derive(Debug)]
pub struct CapturedAudio {
    pub input: AudioInput,
    pub device_name: String,
    pub sample_rate: u32,
    pub duration_ms: u128,
    pub reached_limit: bool,
}

#[derive(Clone, Copy, Debug, PartialEq, Eq, Structural)]
pub struct VoiceActivityConfig {
    pub rms_threshold: u16,
    pub minimum_speech_ms: u32,
    pub trailing_silence_ms: u32,
    pub idle_timeout_ms: u32,
    pub pre_roll_ms: u32,
    pub tail_ms: u32,
}

impl Default for VoiceActivityConfig {
    fn default() -> (r: Self)
        ensures
            r == (VoiceActivityConfig {
                rms_threshold: 650,
                minimum_speech_ms: 300,
                trailing_silence_ms: 850,
                idle_timeout_ms: 30_000,
                pre_roll_ms: 250,
                tail_ms: 300,
            }),
    {
        VoiceActivityConfig {
            rms_threshold: 650,
            minimum_speech_ms: 300,
            trailing_silence_ms: 850,
            idle_timeout_ms: 30_000,
            pre_roll_ms: 250,
            tail_ms: 300,
        }
    }
}

/// Refuses a configuration with a zero threshold or duration.
pub fn validate_voice_activity_config(config: VoiceActivityConfig) -> (r: Result<(), VoiceError>)
    ensures
        (config.rms_threshold == 0 || config.minimum_speech_ms == 0 || config.trailing_silence_ms
            == 0 || config.idle_timeout_ms == 0) ==> invalid_configuration(
            r,
            "voice activity thresholds and durations must be positive"@,
        ),
        !(config.rms_threshold == 0 || config.minimum_speech_ms == 0 || config.trailing_silence_ms
            == 0 || config.idle_timeout_ms == 0) ==> r is Ok,
{
    if config.rms_threshold == 0 || config.minimum_speech_ms == 0 || config.trailing_silence_ms
        == 0 || config.idle_timeout_ms == 0 {
        return Err(
            VoiceError::InvalidConfiguration(
                owned("voice activity thresholds and durations must be positive"),
            ),
        );
    }
    Ok(())
}

/// What the recorder does after a window of samples has been observed.
#[derive(Clone, Copy, Debug, PartialEq, Eq, Structural)]
pub enum VoiceActivityDecision {
    Continue,
    IdleTimeout,
    Capture { start: usize, end: usize },
}

/// Follows speech in a stream of sample windows: where it started, where it
/// was last heard.
#[derive(Clone, Copy, Debug)]
pub struct VoiceActivityTracker {
    pub sample_rate: u32,
    pub config: VoiceActivityConfig,
    pub speech_start: Option<usize>,
    pub last_active: Option<usize>,
}

pub open spec fn sat_sub(a: usize, b: usize) -> usize {
    if a >= b {
        (a - b) as usize
    } else {
        0
    }
}

pub open spec fn sat_add(a: usize, b: usize) -> usize {
    if a + b > usize::MAX {
        usize::MAX
    } else {
        (a + b) as usize
    }
}

/// The number of samples in `millis` milliseconds at `rate` samples per
/// second, rounded down and saturating.
pub open spec fn samples_in(rate: u32, millis: u32) -> usize {
    let product = if rate * millis > u64::MAX {
        u64::MAX as int
    } else {
        rate * millis
    };
    let q = product / 1000;
    if q > usize::MAX {
        usize::MAX
    } else {
        q as usize
    }
}

impl VoiceActivityTracker {
    pub fn new(sample_rate: u32, config: VoiceActivityConfig) -> (r: Self)
        ensures
            r == (VoiceActivityTracker {
                sample_rate,
                config,
                speech_start: None,
                last_active: None,
            }),
    {
        VoiceActivityTracker { sample_rate, config, speech_start: None, last_active: None }
    }

    pub fn samples_for_ms(self, millis: u32) -> (r: usize)
        ensures
            r == samples_in(self.sample_rate, millis),
    {
        let rate = self.sample_rate as u64;
        let ms = millis as u64;
        let product: u64 = if ms != 0 && rate > u64::MAX / ms {
            u64::MAX
        } else {
            proof {
                if ms != 0 {
                    assert(rate * ms <= (u64::MAX / ms) * ms) by (nonlinear_arith)
                        requires
                            rate <= u64::MAX / ms,
                            ms > 0,
                    ;
                    assert((u64::MAX / ms) * ms <= u64::MAX) by (nonlinear_arith)
                        requires
                            ms > 0,
                    ;
                }
            }
            rate * ms
        };
        proof {
            if ms != 0 && rate > u64::MAX / ms {
                assert(rate * ms > u64::MAX) by (nonlinear_arith)
                    requires
                        rate > u64::MAX / ms,
                        ms > 0,
                ;
            }
        }
        let q = product / 1000;
        if q > usize::MAX as u64 {
            usize::MAX
        } else {
            q as usize
        }
    }

    /// The tracker after observing a window, and the decision taken.
    pub open spec fn observed(self, window_start: usize, window_end: usize, active: bool) -> (
        VoiceActivityTracker,
        VoiceActivityDecision,
    ) {
        let t = if active {
            VoiceActivityTracker {
                speech_start: if self.speech_start is Some {
                    self.speech_start
                } else {
                    Some(window_start)
                },
                last_active: Some(window_end),
                ..self
            }
        } else {
            self
        };
        match t.speech_start {
            None => (
                t,
                if window_end >= samples_in(t.sample_rate, t.config.idle_timeout_ms) {
                    VoiceActivityDecision::IdleTimeout
                } else {
                    VoiceActivityDecision::Continue
                },
            ),
            Some(speech_start) => {
                let last_active = match t.last_active {
                    Some(l) => l,
                    None => speech_start,
                };
                let active_span = sat_sub(last_active, speech_start);
                let silence = sat_sub(window_end, last_active);
                if silence < samples_in(t.sample_rate, t.config.trailing_silence_ms) {
                    (t, VoiceActivityDecision::Continue)
                } else if active_span < samples_in(t.sample_rate, t.config.minimum_speech_ms) {
                    (
                        VoiceActivityTracker { speech_start: None, last_active: None, ..t },
                        VoiceActivityDecision::Continue,
                    )
                } else {
                    let start = sat_sub(
                        speech_start,
                        samples_in(t.sample_rate, t.config.pre_roll_ms),
                    );
                    let tail_end = sat_add(
                        last_active,
                        samples_in(t.sample_rate, t.config.tail_ms),
                    );
                    let end = if tail_end < window_end {
                        tail_end
                    } else {
                        window_end
                    };
                    (t, VoiceActivityDecision::Capture { start, end })
                }
            },
        }
    }

    /// Takes in one window of samples, active when its level reached the
    /// threshold: speech is captured once enough silence follows it, short
    /// noise is forgotten, and waiting without speech times out.
    pub fn observe(&mut self, window_start: usize, window_end: usize, active: bool) -> (r:
        VoiceActivityDecision)
        ensures
            (*final(self), r) == old(self).observed(window_start, window_end, active),
    {
        if active {
            if self.speech_start.is_none() {
                self.speech_start = Some(window_start);
            }
            self.last_active = Some(window_end);
        }
        let speech_start = match self.speech_start {
            None => {
                return if window_end >= self.samples_for_ms(self.config.idle_timeout_ms) {
                    VoiceActivityDecision::IdleTimeout
                } else {
                    VoiceActivityDecision::Continue
                };
            },
            Some(s) => s,
        };
        let last_active = match self.last_active {
            Some(l) => l,
            None => speech_start,
        };
        let active_span = last_active.saturating_sub(speech_start);
        let silence = window_end.saturating_sub(last_active);
        let silence_limit = self.samples_for_ms(self.config.trailing_silence_ms);
        if silence < silence_limit {
            return VoiceActivityDecision::Continue;
        }
        if active_span < self.samples_for_ms(self.config.minimum_speech_ms) {
            self.speech_start = None;
            self.last_active = None;
            return VoiceActivityDecision::Continue;
        }
        let start = speech_start.saturating_sub(self.samples_for_ms(self.config.pre_roll_ms));
        let tail_end = last_active.saturating_add(self.samples_for_ms(self.config.tail_ms));
        let end = if tail_end < window_end {
            tail_end
        } else {
            window_end
        };
        VoiceActivityDecision::Capture { start, end }
    }

    /// The window to keep when the recording limit is reached: from the
    /// pre-roll before the speech to the end, when the speech heard was long
    /// enough.
    pub fn finish_at_limit(self, end_sample: usize) -> (r: Option<(usize, usize)>)
        ensures
            r == match (self.speech_start, self.last_active) {
                (Some(s), Some(l)) => if sat_sub(l, s) < samples_in(
                    self.sample_rate,
                    self.config.minimum_speech_ms,
                ) {
                    None
                } else {
                    Some(
                        (
                            sat_sub(s, samples_in(self.sample_rate, self.config.pre_roll_ms)),
                            end_sample,
                        ),
                    )
                },
                _ => None,
            },
    {
        let speech_start = match self.speech_start {
            Some(s) => s,
            None => {
                return None;
            },
        };
        let last_active = match self.last_active {
            Some(l) => l,
            None => {
                return None;
            },
        };
        if last_active.saturating_sub(speech_start) < self.samples_for_ms(
            self.config.minimum_speech_ms,
        ) {
            return None;
        }
        Some((speech_start.saturating_sub(self.samples_for_ms(self.config.pre_roll_ms)), end_sample))
    }
}

/// A capture never reaches past the window in which it was decided.
pub proof fn lemma_capture_within_window(
    t: VoiceActivityTracker,
    window_start: usize,
    window_end: usize,
    active: bool,
)
    ensures
        t.observed(window_start, window_end, active).1 matches VoiceActivityDecision::Capture {
            end,
            ..
        } ==> end <= window_end,
{
}

/// A capture keeps the pre-roll before the speech: it starts the configured
/// pre-roll (in samples at the tracker's rate) before the sample where the
/// speech began, at the first sample when the speech began earlier than
/// that, and never later than the speech. The speech began where the
/// tracker first heard it, or, when it had heard nothing yet, at the start
/// of this active window.
pub proof fn lemma_capture_keeps_the_pre_roll(
    t: VoiceActivityTracker,
    window_start: usize,
    window_end: usize,
    active: bool,
)
    ensures
        t.observed(window_start, window_end, active).1 matches VoiceActivityDecision::Capture {
            start,
            ..
        } ==> ({
            let speech = match t.speech_start {
                Some(s) => s,
                None => window_start,
            };
            let pre_roll = samples_in(t.sample_rate, t.config.pre_roll_ms);
            &&& t.speech_start is Some || active
            &&& start <= speech
            &&& speech >= pre_roll ==> start + pre_roll == speech
            &&& speech < pre_roll ==> start == 0
        }),
{
}

/// A capture is decided only once the speech was long enough and enough
/// silence followed it (both counted as zero when negative), and it ends the configured tail after the speech
/// was last heard, or at the end of the window when that comes first.
pub proof fn lemma_capture_follows_silence_and_keeps_the_tail(
    t: VoiceActivityTracker,
    window_start: usize,
    window_end: usize,
    active: bool,
)
    ensures
        t.observed(window_start, window_end, active).1 matches VoiceActivityDecision::Capture {
            end,
            ..
        } ==> ({
            let speech = match t.speech_start {
                Some(s) => s,
                None => window_start,
            };
            let last = if active {
                window_end
            } else {
                match t.last_active {
                    Some(l) => l,
                    None => speech,
                }
            };
            let tail = samples_in(t.sample_rate, t.config.tail_ms);
            &&& (if window_end >= last {
                window_end - last
            } else {
                0
            }) >= samples_in(t.sample_rate, t.config.trailing_silence_ms)
            &&& (if last >= speech {
                last - speech
            } else {
                0
            }) >= samples_in(t.sample_rate, t.config.minimum_speech_ms)
            &&& end == if last + tail < window_end {
                last + tail
            } else {
                window_end as int
            }
        }),
{
}

/// Without any speech heard, the tracker only waits or times out, and
/// times out exactly once the idle limit is reached.
pub proof fn lemma_silence_only_times_out(t: VoiceActivityTracker, window_start: usize, window_end: usize)
    requires
        t.speech_start is None,
    ensures
        t.observed(window_start, window_end, false).0 == t,
        t.observed(window_start, window_end, false).1 == if window_end >= samples_in(
            t.sample_rate,
            t.config.idle_timeout_ms,
        ) {
            VoiceActivityDecision::IdleTimeout
        } else {
            VoiceActivityDecision::Continue
        },
{
}

/// Playback that another holder of the same token can stop.
#[derive(Clone, Debug)]
pub struct PlaybackCancellationToken {
    cancelled: std::sync::Arc<std::sync::atomic::AtomicBool>,
}

impl PlaybackCancellationToken {
    /// A token that is not cancelled. Its only state is the flag it shares
    /// with its clones, an atomic whose value vstd does not model, so no
    /// clause says that the flag starts unset.
    pub fn new() -> (r: Self) {
        PlaybackCancellationToken {
            cancelled: std::sync::Arc::new(std::sync::atomic::AtomicBool::new(false)),
        }
    }

    /// Cancels playback for every holder of this token.
    pub fn cancel(&self) {
        self.cancelled.store(true, std::sync::atomic::Ordering::Release);
    }

    /// Whether any holder has cancelled. The flag is shared with other
    /// threads, so what it reads is not stated here.
    pub fn is_cancelled(&self) -> (r: bool) {
        self.cancelled.load(std::sync::atomic::Ordering::Acquire)
    }
}

/// The texts of a list of names.
pub open spec fn name_texts(names: Seq<String>) -> Seq<Seq<char>> {
    names.map_values(|n: String| n@)
}

/// Each name is before the next, so none occurs twice.
pub open spec fn strictly_ascending(names: Seq<Seq<char>>) -> bool {
    forall|i: int, j: int| 0 <= i < j < names.len() ==> text_lt(#[trigger] names[i], #[trigger] names[j])
}

proof fn lemma_push_to_set(s: Seq<Seq<char>>, x: Seq<char>)
    ensures
        s.push(x).to_set() == s.to_set().insert(x),
{
    assert forall|y: Seq<char>| #[trigger] s.push(x).to_set().contains(y) == s.to_set().insert(
        x,
    ).contains(y) by {
        if s.push(x).to_set().contains(y) && y != x {
            let i = choose|i: int| 0 <= i < s.push(x).len() && s.push(x)[i] == y;
            assert(s[i] == y);
        }
        if s.to_set().contains(y) {
            let i = choose|i: int| 0 <= i < s.len() && s[i] == y;
            assert(s.push(x)[i] == y);
        }
        if y == x {
            assert(s.push(x)[s.len() as int] == x);
        }
    }
    assert(s.push(x).to_set() =~= s.to_set().insert(x));
}

/// Where `name` belongs in an ascending list: the first place whose name is
/// not before it.
fn insertion_point(names: &Vec<String>, name: &str) -> (p: usize)
    requires
        strictly_ascending(name_texts(names@)),
    ensures
        p <= names@.len(),
        forall|i: int| 0 <= i < p ==> text_lt(#[trigger] name_texts(names@)[i], name@),
        p < names@.len() ==> !text_lt(name_texts(names@)[p as int], name@),
{
    let mut p: usize = 0;
    while p < names.len()
        invariant
            p <= names@.len(),
            forall|i: int| 0 <= i < p ==> text_lt(#[trigger] name_texts(names@)[i], name@),
        decreases names.len() - p,
    {
        if !text_less(names[p].as_str(), name) {
            return p;
        }
        p = p + 1;
    }
    p
}

/// The names in ascending order with each one kept once: sorting and then
/// removing repeats.
pub fn sorted_unique_names(names: Vec<String>) -> (r: Vec<String>)
    ensures
        strictly_ascending(name_texts(r@)),
        name_texts(r@).to_set() == name_texts(names@).to_set(),
{
    let mut out: Vec<String> = Vec::new();
    let mut k: usize = 0;
    while k < names.len()
        invariant
            k <= names@.len(),
            strictly_ascending(name_texts(out@)),
            name_texts(out@).to_set() == name_texts(names@.take(k as int)).to_set(),
        decreases names.len() - k,
    {
        let name = &names[k];
        let p = insertion_point(&out, name.as_str());
        let ghost before = name_texts(out@);
        let ghost x = name@;
        proof {
            assert(names@.take(k + 1) =~= names@.take(k as int).push(names@[k as int]));
            assert(name_texts(names@.take(k + 1)) =~= name_texts(names@.take(k as int)).push(x));
            lemma_push_to_set(name_texts(names@.take(k as int)), x);
        }
        if p < out.len() && str_eq(out[p].as_str(), name.as_str()) {
            proof {
                assert(before[p as int] == x);
                assert(before.to_set().insert(x) =~= before.to_set());
            }
        } else {
            out.insert(p, name.clone());
            proof {
                let after = name_texts(out@);
                assert(after =~= before.insert(p as int, x));
                if p < before.len() {
                    lemma_text_lt_total(before[p as int], x);
                }
                assert forall|i: int| p <= i < before.len() implies text_lt(x, #[trigger] before[i]) by {
                    if i > p {
                        lemma_text_lt_transitive(x, before[p as int], before[i]);
                    }
                }
                assert forall|i: int, j: int| 0 <= i < j < after.len() implies text_lt(
                    #[trigger] after[i],
                    #[trigger] after[j],
                ) by {
                    if j < p {
                    } else if j == p {
                    } else if i < p {
                        lemma_text_lt_transitive(before[i], x, before[j - 1]);
                    } else if i == p {
                    } else {
                    }
                }
                assert(after.to_set() =~= before.to_set().insert(x)) by {
                    assert forall|y: Seq<char>| after.to_set().contains(y) implies before.to_set().insert(x).contains(y) by {
                        let i = choose|i: int| 0 <= i < after.len() && after[i] == y;
                        if i > p {
                            assert(before[i - 1] == y);
                        } else if i < p {
                            assert(before[i] == y);
                        }
                    }
                    assert forall|y: Seq<char>| before.to_set().insert(x).contains(y) implies after.to_set().contains(y) by {
                        if y == x {
                            assert(after[p as int] == x);
                        } else {
                            let i = choose|i: int| 0 <= i < before.len() && before[i] == y;
                            if i < p {
                                assert(after[i] == y);
                            } else {
                                assert(after[i + 1] == y);
                            }
                        }
                    }
                }
            }
        }
        k = k + 1;
    }
    proof {
        assert(names@.take(names@.len() as int) =~= names@);
    }
    out
}

} // verus!
