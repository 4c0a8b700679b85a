//! What a live recording does with the samples it has captured: mixing the
//! input channels down to one, and turning a window of samples into WAV audio.
use vstd::prelude::*;
use crate::speech::{invalid_input, riff_wave, AudioInput, VoiceError};
use crate::text::{decimal, owned};
use crate::voice_live::CapturedAudio;

verus! {

/// The sum of a run of samples.
pub open spec fn sample_sum(f: Seq<i16>) -> int
    decreases f.len(),
{
    if f.len() == 0 {
        0
    } else {
        sample_sum(f.drop_last()) + f.last()
    }
}

/// Integer division that rounds toward zero, as `i64 / i64` does.
pub open spec fn div_toward_zero(a: int, b: int) -> int {
    if a >= 0 {
        a / b
    } else {
        -((-a) / b)
    }
}

pub open spec fn clamp_i16(x: int) -> i16 {
    if x < -32768 {
        -32768i16
    } else if x > 32767 {
        32767i16
    } else {
        x as i16
    }
}

/// The one sample a frame of channel samples is mixed down to: the mean,
/// rounded toward zero, within the range of a sample.
pub open spec fn frame_average(f: Seq<i16>) -> i16 {
    clamp_i16(div_toward_zero(sample_sum(f), f.len() as int))
}

/// The input cut into frames of `width` samples (the last may be shorter),
/// each mixed down to one sample.
pub open spec fn downmix(input: Seq<i16>, width: nat) -> Seq<i16>
    decreases input.len(),
{
    if input.len() == 0 || width == 0 {
        Seq::empty()
    } else if input.len() <= width {
        seq![frame_average(input)]
    } else {
        seq![frame_average(input.take(width as int))] + downmix(input.skip(width as int), width)
    }
}

/// How many more samples fit under the limit.
pub open spec fn room_left(len: nat, maximum: nat) -> nat {
    if len >= maximum {
        0
    } else {
        (maximum - len) as nat
    }
}

proof fn lemma_sum_step(s: Seq<i16>, start: int, j: int)
    requires
        0 <= start <= j < s.len(),
    ensures
        sample_sum(s.subrange(start, j + 1)) == sample_sum(s.subrange(start, j)) + s[j],
{
    assert(s.subrange(start, j + 1).drop_last() =~= s.subrange(start, j));
}

proof fn lemma_sum_bounds(f: Seq<i16>)
    ensures
        -32768 * f.len() <= sample_sum(f) <= 32767 * f.len(),
    decreases f.len(),
{
    if f.len() > 0 {
        lemma_sum_bounds(f.drop_last());
    }
}

/// The mean of the frame `input[start..end]`, as one sample.
fn mix_frame(input: &[i16], start: usize, end: usize) -> (r: i16)
    requires
        start < end <= input@.len(),
        end - start <= 0xffff,
    ensures
        r == frame_average(input@.subrange(start as int, end as int)),
{
    let mut total: i64 = 0;
    let mut j = start;
    while j < end
        invariant
            start <= j <= end <= input@.len(),
            end - start <= 0xffff,
            total == sample_sum(input@.subrange(start as int, j as int)),
        decreases end - j,
    {
        proof {
            lemma_sum_step(input@, start as int, j as int);
            lemma_sum_bounds(input@.subrange(start as int, j as int));
        }
        total = total + input[j] as i64;
        j = j + 1;
    }
    let n = (end - start) as u64;
    proof {
        lemma_sum_bounds(input@.subrange(start as int, end as int));
    }
    let average: i64 = if total >= 0 {
        ((total as u64) / n) as i64
    } else {
        let magnitude = (-total) as u64;
        -((magnitude / n) as i64)
    };
    if average < -32768 {
        -32768i16
    } else if average > 32767 {
        32767i16
    } else {
        average as i16
    }
}

proof fn lemma_downmix_step(input: Seq<i16>, width: nat, pos: int)
    requires
        width > 0,
        0 <= pos < input.len(),
    ensures
        ({
            let rest = input.skip(pos);
            let end = if pos + width < input.len() {
                pos + width
            } else {
                input.len() as int
            };
            &&& downmix(rest, width).len() > 0
            &&& downmix(rest, width) == seq![frame_average(input.subrange(pos, end))] + downmix(
                input.skip(end),
                width,
            )
        }),
{
    let rest = input.skip(pos);
    if rest.len() <= width {
        assert(rest =~= input.subrange(pos, input.len() as int));
        assert(input.skip(input.len() as int) =~= Seq::<i16>::empty());
        assert(downmix(Seq::<i16>::empty(), width) =~= Seq::<i16>::empty());
        assert(seq![frame_average(rest)] + Seq::<i16>::empty() =~= seq![frame_average(rest)]);
    } else {
        assert(rest.take(width as int) =~= input.subrange(pos, pos + width));
        assert(rest.skip(width as int) =~= input.skip(pos + width));
    }
}

/// Mixes interleaved input frames of `channels` samples (one sample per
/// frame when `channels` is zero) down to one sample each and appends them
/// to `samples` until it holds `maximum_samples`; returns whether a frame
/// was left over because the limit was reached.
pub fn append_input_data(
    input: &[i16],
    channels: usize,
    maximum_samples: usize,
    samples: &mut Vec<i16>,
) -> (reached_limit: bool)
    requires
        channels <= 0xffff,
    ensures
        ({
            let mixed = downmix(input@, if channels == 0 {
                1nat
            } else {
                channels as nat
            });
            let room = room_left(old(samples)@.len(), maximum_samples as nat);
            &&& final(samples)@ == old(samples)@ + mixed.take(
                if mixed.len() < room {
                    mixed.len() as int
                } else {
                    room as int
                },
            )
            &&& reached_limit == (mixed.len() > room)
        }),
{
    let width: usize = if channels == 0 {
        1
    } else {
        channels
    };
    let ghost mixed = downmix(input@, width as nat);
    let ghost start = samples@;
    let ghost room = room_left(start.len(), maximum_samples as nat);
    assert(input@.skip(0) =~= input@);
    let mut pos: usize = 0;
    while pos < input.len()
        invariant
            0 <= pos <= input@.len(),
            1 <= width <= 0xffff,
            width == if channels == 0 {
                1usize
            } else {
                channels
            },
            start == old(samples)@,
            mixed == downmix(input@, width as nat),
            room == room_left(start.len(), maximum_samples as nat),
            samples@.len() >= start.len(),
            samples@.take(start.len() as int) == start,
            samples@.len() - start.len() <= room,
            mixed == samples@.skip(start.len() as int) + downmix(input@.skip(pos as int), width as nat),
        decreases input.len() - pos,
    {
        proof {
            lemma_downmix_step(input@, width as nat, pos as int);
        }
        if samples.len() >= maximum_samples {
            proof {
                assert(samples@.len() - start.len() == room);
                assert(mixed.len() == samples@.skip(start.len() as int).len() + downmix(
                    input@.skip(pos as int),
                    width as nat,
                ).len());
                assert(mixed.len() > room);
                assert(mixed.take(room as int) =~= samples@.skip(start.len() as int));
                assert(samples@ =~= start + samples@.skip(start.len() as int));
            }
            return true;
        }
        let end: usize = if width < input.len() - pos {
            pos + width
        } else {
            input.len()
        };
        let value = mix_frame(input, pos, end);
        let ghost before = samples@;
        samples.push(value);
        proof {
            assert(samples@.take(start.len() as int) =~= start);
            assert(samples@.skip(start.len() as int) =~= before.skip(start.len() as int).push(value));
            assert(before.skip(start.len() as int).push(value) + downmix(input@.skip(end as int), width as nat)
                =~= before.skip(start.len() as int) + (seq![value] + downmix(input@.skip(end as int), width as nat)));
        }
        pos = end;
    }
    proof {
        assert(input@.skip(pos as int) =~= Seq::<i16>::empty());
        assert(downmix(Seq::<i16>::empty(), width as nat) =~= Seq::<i16>::empty());
        assert(samples@.skip(start.len() as int) + Seq::<i16>::empty() =~= samples@.skip(start.len() as int));
        assert(mixed.take(mixed.len() as int) =~= mixed);
        assert(samples@ =~= start + samples@.skip(start.len() as int));
    }
    false
}

// ---------------------------------------------------------------------------
// WAV encoding
// ---------------------------------------------------------------------------
/// `x` as two bytes, least significant first.
pub open spec fn le16(x: nat) -> Seq<u8> {
    seq![(x % 256) as u8, ((x / 256) % 256) as u8]
}

/// `x` as four bytes, least significant first.
pub open spec fn le32(x: nat) -> Seq<u8> {
    seq![
        (x % 256) as u8,
        ((x / 256) % 256) as u8,
        ((x / 65536) % 256) as u8,
        ((x / 16777216) % 256) as u8,
    ]
}

/// The two's complement bits of a sample.
pub open spec fn sample_bits(x: i16) -> nat {
    if x >= 0 {
        x as nat
    } else {
        (x + 65536) as nat
    }
}

/// The samples as 16-bit little-endian PCM data.
pub open spec fn pcm16_data(s: Seq<i16>) -> Seq<u8>
    decreases s.len(),
{
    if s.len() == 0 {
        Seq::empty()
    } else {
        pcm16_data(s.drop_last()) + le16(sample_bits(s.last()))
    }
}

/// A WAV file of one channel of 16-bit PCM samples: the RIFF/WAVE header,
/// a 16-byte `fmt ` chunk (PCM, one channel, the rate, two bytes a sample),
/// and the `data` chunk.
pub open spec fn mono_pcm16_wav(samples: Seq<i16>, sample_rate: u32) -> Seq<u8> {
    let data_len = 2 * samples.len();
    seq![0x52u8, 0x49u8, 0x46u8, 0x46u8] + le32(36 + data_len) + seq![
        0x57u8,
        0x41u8,
        0x56u8,
        0x45u8,
    ] + seq![0x66u8, 0x6du8, 0x74u8, 0x20u8] + le32(16) + le16(1) + le16(1) + le32(
        sample_rate as nat,
    ) + le32(2 * (sample_rate as nat)) + le16(2) + le16(16) + seq![0x64u8, 0x61u8, 0x74u8, 0x61u8] + le32(
        data_len,
    ) + pcm16_data(samples)
}

proof fn lemma_pcm16_len(s: Seq<i16>)
    ensures
        pcm16_data(s).len() == 2 * s.len(),
    decreases s.len(),
{
    if s.len() > 0 {
        lemma_pcm16_len(s.drop_last());
    }
}

/// The encoded file is 44 header bytes and two bytes a sample, and opens
/// with the RIFF/WAVE marks.
pub proof fn lemma_mono_wav_shape(samples: Seq<i16>, sample_rate: u32)
    ensures
        mono_pcm16_wav(samples, sample_rate).len() == 44 + 2 * samples.len(),
        riff_wave(mono_pcm16_wav(samples, sample_rate)),
{
    lemma_pcm16_len(samples);
    let w = mono_pcm16_wav(samples, sample_rate);
    assert(w.subrange(0, 4) =~= seq![0x52u8, 0x49u8, 0x46u8, 0x46u8]);
    assert(w.subrange(8, 12) =~= seq![0x57u8, 0x41u8, 0x56u8, 0x45u8]);
}

/// Encodes samples as a mono 16-bit WAV file with `hound::WavWriter`,
/// writing into memory: `WavWriter::new`, one `write_sample` a sample, then
/// `finalize`. The contract claims the bytes that hound's source writes for
/// this format (`write_headers` with the PCMWAVEFORMAT chunk, `write_le_i16`
/// for each sample, and the sizes patched in by `update_header`), and that
/// nothing fails: an in-memory writer does not, 16 bits are supported, and
/// one channel leaves no sample unfinished. A zero rate would divide by zero
/// in hound, and the sizes and byte rate are 32-bit, so those are excluded.
#[verifier::external_body]
fn write_mono_wav(samples: &[i16], sample_rate: u32) -> (r: Result<Vec<u8>, String>)
    requires
        0 < sample_rate <= 0x7fff_ffff,
        samples@.len() <= 0x7fff_ffed,
    ensures
        r is Ok,
        r->Ok_0@ == mono_pcm16_wav(samples@, sample_rate),
{
    let spec = hound::WavSpec {
        channels: 1,
        sample_rate,
        bits_per_sample: 16,
        sample_format: hound::SampleFormat::Int,
    };
    let mut cursor = std::io::Cursor::new(Vec::new());
    let mut writer = hound::WavWriter::new(&mut cursor, spec).map_err(|e| e.to_string())?;
    for sample in samples {
        writer.write_sample(*sample).map_err(|e| e.to_string())?;
    }
    writer.finalize().map_err(|e| e.to_string())?;
    Ok(cursor.into_inner())
}

/// The samples as a mono 16-bit PCM WAV file at `sample_rate`.
pub fn encode_mono_wav(samples: &[i16], sample_rate: u32) -> (r: Result<Vec<u8>, VoiceError>)
    requires
        0 < sample_rate <= 0x7fff_ffff,
        samples@.len() <= 0x7fff_ffed,
    ensures
        r matches Ok(bytes) && bytes@ == mono_pcm16_wav(samples@, sample_rate),
{
    match write_mono_wav(samples, sample_rate) {
        Ok(bytes) => Ok(bytes),
        Err(m) => Err(VoiceError::FileOperation(m)),
    }
}

/// The part of the captured samples a window selects, each end cut to what
/// was captured; everything when there is no window.
pub open spec fn window_bounds(window: Option<(usize, usize)>, len: nat) -> (int, int) {
    match window {
        Some((start, end)) => (
            if start < len {
                start as int
            } else {
                len as int
            },
            if end < len {
                end as int
            } else {
                len as int
            },
        ),
        None => (0, len as int),
    }
}

/// The audio of a finished recording: the samples in `window` as WAV.
/// Refused when the window is inverted, holds less than a fifth of a second,
/// or is larger as WAV than `maximum_bytes`.
pub fn finish_window(
    samples: &[i16],
    window: Option<(usize, usize)>,
    maximum_bytes: usize,
    device_name: String,
    sample_rate: u32,
    reached_limit: bool,
) -> (r: Result<CapturedAudio, VoiceError>)
    requires
        ({
            let (start, end) = window_bounds(window, samples@.len());
            start <= end ==> 0 < sample_rate <= 0x7fff_ffff && end - start <= 0x7fff_ffed
        }),
    ensures
        ({
            let (start, end) = window_bounds(window, samples@.len());
            let count = end - start;
            let wav = mono_pcm16_wav(samples@.subrange(start, end), sample_rate);
            &&& start > end ==> invalid_input(r, "invalid VAD sample window"@)
            &&& start <= end && count < sample_rate / 5 ==> invalid_input(
                r,
                "recording is shorter than 200 ms"@,
            )
            &&& start <= end && count >= sample_rate / 5 && 44 + 2 * count > maximum_bytes
                ==> invalid_input(r, "WAV input exceeds the "@ + decimal(maximum_bytes as nat) + "-byte limit"@)
            &&& start <= end && count >= sample_rate / 5 && 44 + 2 * count <= maximum_bytes ==> (
            r matches Ok(c) && c.input.bytes@ == wav && c.input.content_type@ == "audio/wav"@
                && c.device_name == device_name && c.sample_rate == sample_rate && c.duration_ms
                == count * 1000 / (sample_rate as int) && c.reached_limit == reached_limit)
        }),
{
    let len = samples.len();
    let (start, end) = match window {
        Some((s, e)) => (
            if s < len {
                s
            } else {
                len
            },
            if e < len {
                e
            } else {
                len
            },
        ),
        None => (0, len),
    };
    if start > end {
        return Err(VoiceError::InvalidInput(owned("invalid VAD sample window")));
    }
    let count = end - start;
    let minimum_samples = (sample_rate / 5) as usize;
    if count < minimum_samples {
        return Err(VoiceError::InvalidInput(owned("recording is shorter than 200 ms")));
    }
    let duration_ms = (count as u128) * 1000 / (sample_rate as u128);
    let window_samples = slice_range(samples, start, end);
    let bytes = match encode_mono_wav(window_samples.as_slice(), sample_rate) {
        Ok(b) => b,
        Err(e) => {
            return Err(e);
        },
    };
    proof {
        lemma_mono_wav_shape(samples@.subrange(start as int, end as int), sample_rate);
    }
    let input = match AudioInput::wav(bytes, maximum_bytes) {
        Ok(a) => a,
        Err(e) => {
            return Err(e);
        },
    };
    Ok(CapturedAudio { input, device_name, sample_rate, duration_ms, reached_limit })
}

/// `samples[start..end]` as a vector.
fn slice_range(samples: &[i16], start: usize, end: usize) -> (r: Vec<i16>)
    requires
        start <= end <= samples@.len(),
    ensures
        r@ == samples@.subrange(start as int, end as int),
{
    let mut r: Vec<i16> = Vec::new();
    let mut i = start;
    while i < end
        invariant
            start <= i <= end <= samples@.len(),
            r@ == samples@.subrange(start as int, i as int),
        decreases end - i,
    {
        r.push(samples[i]);
        i = i + 1;
        assert(r@ =~= samples@.subrange(start as int, i as int));
    }
    r
}

} // verus!
