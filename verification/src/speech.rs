use vstd::prelude::*;
use crate::speech_text::{branded, collapse_whitespace, collapsed, normalize_brand_pronunciation, remove_marks, remove_pairs, strip_line_prefix, strip_markdown_links, unlinked, without_line_prefix, without_marks, without_pairs};
use crate::text::{chars_of, decimal, has_prefix, has_prefix_exec, owned, push_decimal, push_str, string_of, trim, trim_chars};

verus! {

/// Why a voice operation was refused.
#[derive(Debug)]
pub enum VoiceError {
    InvalidInput(String),
    InvalidConfiguration(String),
    RuntimeUnavailable(String),
    Request(String),
    InvalidResponse(String),
    FileOperation(String),
    AudioDevice(String),
}

pub open spec fn invalid_input<T>(r: Result<T, VoiceError>, message: Seq<char>) -> bool {
    r matches Err(VoiceError::InvalidInput(m)) && m@ == message
}

pub open spec fn invalid_configuration<T>(r: Result<T, VoiceError>, message: Seq<char>) -> bool {
    r matches Err(VoiceError::InvalidConfiguration(m)) && m@ == message
}

// ---------------------------------------------------------------------------
// WAV input
// ---------------------------------------------------------------------------
pub open spec fn riff_wave(bytes: Seq<u8>) -> bool {
    bytes.subrange(0, 4) == seq![0x52u8, 0x49u8, 0x46u8, 0x46u8] && bytes.subrange(8, 12)
        == seq![0x57u8, 0x41u8, 0x56u8, 0x45u8]
}

pub open spec fn wav_refusal(bytes: Seq<u8>, maximum_bytes: nat) -> Option<Seq<char>> {
    if bytes.len() < 44 {
        Some("WAV input is shorter than the minimum header"@)
    } else if bytes.len() > maximum_bytes {
        Some("WAV input exceeds the "@ + decimal(maximum_bytes) + "-byte limit"@)
    } else if !riff_wave(bytes) {
        Some("audio input must be a RIFF/WAVE file"@)
    } else {
        None
    }
}

/// Checks that the bytes hold a RIFF/WAVE header within the size limit.
pub fn validate_wav(bytes: &[u8], maximum_bytes: usize) -> (r: Result<(), VoiceError>)
    ensures
        match wav_refusal(bytes@, maximum_bytes as nat) {
            None => r is Ok,
            Some(m) => invalid_input(r, m),
        },
{
    if bytes.len() < 44 {
        return Err(VoiceError::InvalidInput(owned("WAV input is shorter than the minimum header")));
    }
    if bytes.len() > maximum_bytes {
        let mut m = owned("WAV input exceeds the ");
        push_decimal(&mut m, maximum_bytes);
        push_str(&mut m, "-byte limit");
        return Err(VoiceError::InvalidInput(m));
    }
    let riff = bytes[0] == 0x52u8 && bytes[1] == 0x49u8 && bytes[2] == 0x46u8 && bytes[3] == 0x46u8;
    let wave = bytes[8] == 0x57u8 && bytes[9] == 0x41u8 && bytes[10] == 0x56u8 && bytes[11]
        == 0x45u8;
    proof {
        let s = bytes@;
        assert(riff == (s.subrange(0, 4) =~= seq![0x52u8, 0x49u8, 0x46u8, 0x46u8]));
        assert(wave == (s.subrange(8, 12) =~= seq![0x57u8, 0x41u8, 0x56u8, 0x45u8]));
    }
    if !riff || !wave {
        return Err(VoiceError::InvalidInput(owned("audio input must be a RIFF/WAVE file")));
    }
    Ok(())
}

#[derive(Debug)]
pub struct AudioInput {
    pub bytes: Vec<u8>,
    pub content_type: String,
}

impl AudioInput {
    /// Audio in WAV form, once its header and size are checked.
    pub fn wav(bytes: Vec<u8>, maximum_bytes: usize) -> (r: Result<Self, VoiceError>)
        ensures
            match wav_refusal(bytes@, maximum_bytes as nat) {
                None => r matches Ok(a) && a.bytes@ == bytes@ && a.content_type@ == "audio/wav"@,
                Some(m) => invalid_input(r, m),
            },
    {
        if let Err(e) = validate_wav(bytes.as_slice(), maximum_bytes) {
            return Err(e);
        }
        Ok(AudioInput { bytes, content_type: owned("audio/wav") })
    }
}

// ---------------------------------------------------------------------------
// Reading markdown lines aloud
// ---------------------------------------------------------------------------
/// The pieces of `s` between newline characters: one more than there are
/// newlines. (Each piece is trimmed before use, so a carriage return before a
/// newline makes no difference.)
pub open spec fn newline_pieces(s: Seq<char>) -> Seq<Seq<char>>
    decreases s.len(),
{
    if s.len() == 0 {
        seq![Seq::empty()]
    } else {
        let p = newline_pieces(s.drop_last());
        if s.last() == '\n' {
            p.push(Seq::empty())
        } else {
            p.update(p.len() - 1, p.last().push(s.last()))
        }
    }
}

/// What has been read aloud so far, and where the reader stands.
pub struct SpokenLines {
    pub text: Seq<char>,
    pub in_code: bool,
    pub omitted_code: bool,
    pub omitted_links: bool,
}

pub open spec fn is_fence(t: Seq<char>) -> bool {
    has_prefix(t, "```"@) || has_prefix(t, "~~~"@)
}

/// One more line read: fences toggle code blocks, code is left out, prose
/// loses its line prefix, links, emphasis marks and surrounding spaces, and
/// what is left is appended after a space.
pub open spec fn read_line(st: SpokenLines, line: Seq<char>) -> SpokenLines {
    let t = trim(line);
    if is_fence(t) {
        SpokenLines { in_code: !st.in_code, omitted_code: true, ..st }
    } else if st.in_code {
        SpokenLines { omitted_code: true, ..st }
    } else {
        let l = without_line_prefix(t);
        if l.len() == 0 {
            st
        } else {
            let (l2, had_link) = unlinked(l);
            let l3 = trim(without_pairs(without_marks(l2)));
            let links = st.omitted_links || had_link;
            if l3.len() == 0 {
                SpokenLines { omitted_links: links, ..st }
            } else {
                SpokenLines {
                    text: if st.text.len() > 0 {
                        st.text.push(' ') + l3
                    } else {
                        l3
                    },
                    omitted_links: links,
                    ..st
                }
            }
        }
    }
}

pub open spec fn read_lines(lines: Seq<Seq<char>>) -> SpokenLines
    decreases lines.len(),
{
    if lines.len() == 0 {
        SpokenLines { text: Seq::empty(), in_code: false, omitted_code: false, omitted_links: false }
    } else {
        read_line(read_lines(lines.drop_last()), lines.last())
    }
}

pub open spec fn omission_note() -> Seq<char> {
    "具体代码和链接我放在文字回复里。"@
}

/// The speakable text of a markdown reply, before any truncation.
pub open spec fn speakable(input: Seq<char>) -> Seq<char> {
    let st = read_lines(newline_pieces(input));
    let with_note = if st.omitted_code || st.omitted_links {
        (if st.text.len() > 0 {
            st.text.push(' ')
        } else {
            st.text
        }) + omission_note()
    } else {
        st.text
    };
    branded(collapsed(with_note))
}

pub open spec fn is_stop(c: char) -> bool {
    c == '。' || c == '！' || c == '？' || c == '.' || c == '!' || c == '?'
}

/// The position just after the last stop in `p`, or -1.
pub open spec fn after_last_stop(p: Seq<char>) -> int
    decreases p.len(),
{
    if p.len() == 0 {
        -1
    } else if is_stop(p.last()) {
        p.len() as int
    } else {
        after_last_stop(p.drop_last())
    }
}

pub open spec fn truncation_note() -> Seq<char> {
    " 后面的内容请查看文字回复。"@
}

/// How many characters are kept before the truncation note.
pub open spec fn kept_chars(maximum_chars: nat) -> nat {
    let r = truncation_note().len();
    if maximum_chars > r + 1 {
        (maximum_chars - r) as nat
    } else {
        1
    }
}

/// The text cut to fit the limit at its last full stop, with a note that the
/// rest is in the written reply; and whether it was cut.
pub open spec fn fitted(v: Seq<char>, maximum_chars: nat) -> (Seq<char>, bool) {
    if v.len() <= maximum_chars {
        (v, false)
    } else {
        let k = kept_chars(maximum_chars);
        let p = v.take(if k < v.len() {
            k as int
        } else {
            v.len() as int
        });
        let b = after_last_stop(p);
        (trim(p.take(if b < 0 {
            p.len() as int
        } else {
            b
        })) + truncation_note(), true)
    }
}

#[derive(Debug)]
pub struct SpeechRender {
    pub text: String,
    pub truncated: bool,
    pub omitted_code: bool,
    pub omitted_links: bool,
}

#[derive(Debug)]
pub struct SpeechChunkRender {
    pub chunks: Vec<String>,
    pub truncated: bool,
    pub omitted_code: bool,
    pub omitted_links: bool,
}

struct LineReader {
    text: Vec<char>,
    in_code: bool,
    omitted_code: bool,
    omitted_links: bool,
}

impl LineReader {
    spec fn state(&self) -> SpokenLines {
        SpokenLines {
            text: self.text@,
            in_code: self.in_code,
            omitted_code: self.omitted_code,
            omitted_links: self.omitted_links,
        }
    }

    #[verifier::loop_isolation(false)]
    fn read(&mut self, line: &Vec<char>)
        ensures
            final(self).state() == read_line(old(self).state(), line@),
    {
        let t = trim_chars(line);
        let ticks = chars_of("```");
        let tildes = chars_of("~~~");
        if has_prefix_exec(&t, &ticks) || has_prefix_exec(&t, &tildes) {
            self.in_code = !self.in_code;
            self.omitted_code = true;
            return;
        }
        if self.in_code {
            self.omitted_code = true;
            return;
        }
        let l = strip_line_prefix(&t);
        if l.len() == 0 {
            return;
        }
        let (l2, had_link) = strip_markdown_links(&l);
        let l3 = trim_chars(&remove_pairs(&remove_marks(&l2)));
        self.omitted_links = self.omitted_links || had_link;
        if l3.len() == 0 {
            return;
        }
        if self.text.len() > 0 {
            self.text.push(' ');
        }
        let ghost before = self.text@;
        let mut i: usize = 0;
        while i < l3.len()
            invariant
                i <= l3.len(),
                self.text@ == before + l3@.take(i as int),
                self.in_code == old(self).in_code,
                self.omitted_code == old(self).omitted_code,
                self.omitted_links == (old(self).omitted_links || had_link),
            decreases l3.len() - i,
        {
            self.text.push(l3[i]);
            assert(before + l3@.take(i + 1) =~= (before + l3@.take(i as int)).push(l3@[i as int]));
            i = i + 1;
        }
        assert(l3@.take(i as int) =~= l3@);
        proof {
            if old(self).text@.len() == 0 {
                assert(before + l3@ =~= l3@);
            }
        }
    }
}

proof fn lemma_pieces_nonempty(s: Seq<char>)
    ensures
        newline_pieces(s).len() >= 1,
    decreases s.len(),
{
    if s.len() > 0 {
        lemma_pieces_nonempty(s.drop_last());
    }
}

fn read_all_lines(cs: &Vec<char>) -> (r: LineReader)
    ensures
        r.state() == read_lines(newline_pieces(cs@)),
{
    let mut reader = LineReader {
        text: Vec::new(),
        in_code: false,
        omitted_code: false,
        omitted_links: false,
    };
    let mut cur: Vec<char> = Vec::new();
    let mut i: usize = 0;
    assert(cs@.take(0) =~= Seq::<char>::empty());
    assert(reader.state() == read_lines(Seq::<Seq<char>>::empty()));
    assert(newline_pieces(cs@.take(0)).drop_last() =~= Seq::<Seq<char>>::empty());
    while i < cs.len()
        invariant
            i <= cs.len(),
            reader.state() == read_lines(newline_pieces(cs@.take(i as int)).drop_last()),
            cur@ == newline_pieces(cs@.take(i as int)).last(),
        decreases cs.len() - i,
    {
        let ghost p = newline_pieces(cs@.take(i as int));
        proof {
            lemma_pieces_nonempty(cs@.take(i as int));
            assert(cs@.take(i + 1).drop_last() =~= cs@.take(i as int));
        }
        if cs[i] == '\n' {
            reader.read(&cur);
            cur = Vec::new();
            assert(p.push(Seq::<char>::empty()).drop_last() =~= p);
            assert(p.drop_last().push(p.last()) =~= p);
        } else {
            cur.push(cs[i]);
            assert(p.update(p.len() - 1, p.last().push(cs@[i as int])).drop_last() =~= p.drop_last());
        }
        i = i + 1;
    }
    assert(cs@.take(i as int) =~= cs@);
    let ghost full = newline_pieces(cs@);
    proof {
        lemma_pieces_nonempty(cs@);
        assert(full.drop_last().push(full.last()) =~= full);
    }
    reader.read(&cur);
    reader
}

fn after_last_stop_exec(p: &Vec<char>, n: usize) -> (r: Option<usize>)
    requires
        n <= p.len(),
    ensures
        match r {
            Some(b) => b as int == after_last_stop(p@.take(n as int)) && b <= n,
            None => after_last_stop(p@.take(n as int)) == -1,
        },
    decreases n,
{
    if n == 0 {
        return None;
    }
    assert(p@.take(n as int).drop_last() =~= p@.take(n - 1));
    let c = p[n - 1];
    if c == '。' || c == '！' || c == '？' || c == '.' || c == '!' || c == '?' {
        Some(n)
    } else {
        after_last_stop_exec(p, n - 1)
    }
}

fn truncate_for_speech(v: &Vec<char>, maximum_chars: usize) -> (r: (Vec<char>, bool))
    ensures
        (r.0@, r.1) == fitted(v@, maximum_chars as nat),
{
    if v.len() <= maximum_chars {
        return (v.clone(), false);
    }
    let note = chars_of(" 后面的内容请查看文字回复。");
    let keep: usize = if maximum_chars > note.len() && maximum_chars - note.len() > 1 {
        maximum_chars - note.len()
    } else {
        1
    };
    let n: usize = if keep < v.len() {
        keep
    } else {
        v.len()
    };
    let mut prefix: Vec<char> = Vec::new();
    let mut i: usize = 0;
    while i < n
        invariant
            i <= n <= v.len(),
            prefix@ == v@.take(i as int),
        decreases n - i,
    {
        prefix.push(v[i]);
        assert(v@.take(i + 1) =~= v@.take(i as int).push(v@[i as int]));
        i = i + 1;
    }
    assert(prefix@.take(n as int) =~= prefix@);
    let b = match after_last_stop_exec(&prefix, n) {
        Some(b) => b,
        None => n,
    };
    let mut cut: Vec<char> = Vec::new();
    let mut j: usize = 0;
    while j < b
        invariant
            j <= b <= n == prefix.len(),
            cut@ == prefix@.take(j as int),
        decreases b - j,
    {
        cut.push(prefix[j]);
        assert(prefix@.take(j + 1) =~= prefix@.take(j as int).push(prefix@[j as int]));
        j = j + 1;
    }
    let mut out = trim_chars(&cut);
    let ghost trimmed = out@;
    let mut k: usize = 0;
    while k < note.len()
        invariant
            k <= note.len(),
            out@ == trimmed + note@.take(k as int),
        decreases note.len() - k,
    {
        out.push(note[k]);
        assert(trimmed + note@.take(k + 1) =~= (trimmed + note@.take(k as int)).push(note@[k as int]));
        k = k + 1;
    }
    assert(note@.take(k as int) =~= note@);
    (out, true)
}

/// Turns a markdown reply into text for speech: code blocks and links are
/// left out (with a spoken note that they are in the written reply), markup
/// is removed, whitespace collapsed, the brand name spoken in Chinese, and
/// the result cut to `maximum_chars` with a note when it is longer.
pub fn render_spoken_text(input: &str, maximum_chars: usize) -> (r: Result<
    SpeechRender,
    VoiceError,
>)
    ensures
        maximum_chars == 0 ==> invalid_configuration(
            r,
            "maximum speech text length must be positive"@,
        ),
        maximum_chars > 0 && speakable(input@).len() == 0 ==> invalid_input(
            r,
            "assistant response has no speakable text"@,
        ),
        maximum_chars > 0 && speakable(input@).len() > 0 ==> (r matches Ok(s) && ({
            let st = read_lines(newline_pieces(input@));
            let (text, cut) = fitted(speakable(input@), maximum_chars as nat);
            &&& s.text@ == text
            &&& s.truncated == cut
            &&& s.omitted_code == st.omitted_code
            &&& s.omitted_links == st.omitted_links
        })),
{
    if maximum_chars == 0 {
        return Err(
            VoiceError::InvalidConfiguration(owned("maximum speech text length must be positive")),
        );
    }
    let cs = chars_of(input);
    let reader = read_all_lines(&cs);
    let mut rendered = reader.text;
    if reader.omitted_code || reader.omitted_links {
        if rendered.len() > 0 {
            rendered.push(' ');
        }
        let note = chars_of("具体代码和链接我放在文字回复里。");
        let ghost before = rendered@;
        let mut k: usize = 0;
        while k < note.len()
            invariant
                k <= note.len(),
                rendered@ == before + note@.take(k as int),
            decreases note.len() - k,
        {
            rendered.push(note[k]);
            assert(before + note@.take(k + 1) =~= (before + note@.take(k as int)).push(
                note@[k as int],
            ));
            k = k + 1;
        }
        assert(note@.take(k as int) =~= note@);
    }
    let spoken = normalize_brand_pronunciation(&collapse_whitespace(&rendered));
    if spoken.len() == 0 {
        return Err(VoiceError::InvalidInput(owned("assistant response has no speakable text")));
    }
    let (text, truncated) = truncate_for_speech(&spoken, maximum_chars);
    Ok(
        SpeechRender {
            text: string_of(&text),
            truncated,
            omitted_code: reader.omitted_code,
            omitted_links: reader.omitted_links,
        },
    )
}

// ---------------------------------------------------------------------------
// Splitting speech into chunks
// ---------------------------------------------------------------------------
pub open spec fn ends_sentence(c: char) -> bool {
    c == '。' || c == '！' || c == '？' || c == '!' || c == '?'
}

pub open spec fn ends_clause(c: char) -> bool {
    c == '；' || c == ';' || c == '，' || c == ','
}

/// A chunk may end at a sentence stop once it has this many characters.
pub open spec fn sentence_minimum(maximum: nat) -> nat {
    let m = if maximum < 24 {
        maximum
    } else {
        24
    };
    (if m < 8 {
        8
    } else {
        m
    }) / 2
}

/// A chunk may end at a clause stop once it has this many characters.
pub open spec fn clause_minimum(maximum: nat) -> nat {
    let doubled = if maximum * 2 > usize::MAX {
        usize::MAX as nat
    } else {
        maximum * 2
    };
    let third = doubled / 3;
    if third < 8 {
        8
    } else {
        third
    }
}

/// The chunks finished so far and the characters of the one being filled.
pub struct ChunkScan {
    pub chunks: Seq<Seq<char>>,
    pub current: Seq<char>,
}

/// Characters are taken in turn; a chunk ends when it is full, or at a
/// sentence or clause stop once it is long enough, and is kept trimmed
/// unless blank.
pub open spec fn chunk_scan(s: Seq<char>, maximum: nat) -> ChunkScan
    decreases s.len(),
{
    if s.len() == 0 {
        ChunkScan { chunks: Seq::empty(), current: Seq::empty() }
    } else {
        let st = chunk_scan(s.drop_last(), maximum);
        let c = s.last();
        let cur = st.current.push(c);
        let n = cur.len();
        if n >= maximum || (ends_sentence(c) && n >= sentence_minimum(maximum)) || (ends_clause(c)
            && n >= clause_minimum(maximum)) {
            let t = trim(cur);
            ChunkScan {
                chunks: if t.len() > 0 {
                    st.chunks.push(t)
                } else {
                    st.chunks
                },
                current: Seq::empty(),
            }
        } else {
            ChunkScan { chunks: st.chunks, current: cur }
        }
    }
}

/// The chunks with the trimmed remainder added unless blank.
pub open spec fn raw_chunks(s: Seq<char>, maximum: nat) -> Seq<Seq<char>> {
    let st = chunk_scan(s, maximum);
    let t = trim(st.current);
    if t.len() > 0 {
        st.chunks.push(t)
    } else {
        st.chunks
    }
}

/// The chunks of speech: a last chunk shorter than eight characters is
/// joined to the one before when both fit in one chunk.
pub open spec fn spoken_chunks(s: Seq<char>, maximum: nat) -> Seq<Seq<char>> {
    let cs = raw_chunks(s, maximum);
    if cs.len() > 1 && cs.last().len() < 8 {
        let prev = cs[cs.len() - 2];
        let tail = cs.last();
        if prev.len() + tail.len() <= maximum {
            cs.drop_last().update(cs.len() - 2, prev + tail)
        } else {
            cs
        }
    } else {
        cs
    }
}

pub open spec fn string_views(v: Seq<String>) -> Seq<Seq<char>> {
    v.map_values(|x: String| x@)
}

fn close_chunk(chunks: &mut Vec<String>, current: &Vec<char>)
    ensures
        string_views(final(chunks)@) == if trim(current@).len() > 0 {
            string_views(old(chunks)@).push(trim(current@))
        } else {
            string_views(old(chunks)@)
        },
{
    let t = trim_chars(current);
    if t.len() > 0 {
        chunks.push(string_of(&t));
        assert(string_views(chunks@) =~= string_views(old(chunks)@).push(trim(current@)));
    }
}

fn split_spoken_text(input: &Vec<char>, maximum_chunk_chars: usize) -> (r: Vec<String>)
    ensures
        string_views(r@) == spoken_chunks(input@, maximum_chunk_chars as nat),
{
    let m: usize = if maximum_chunk_chars < 24 {
        maximum_chunk_chars
    } else {
        24
    };
    let sentence_min: usize = (if m < 8 {
        8
    } else {
        m
    }) / 2;
    let doubled: usize = if maximum_chunk_chars > usize::MAX / 2 {
        usize::MAX
    } else {
        maximum_chunk_chars * 2
    };
    let third = doubled / 3;
    let clause_min: usize = if third < 8 {
        8
    } else {
        third
    };
    let mut chunks: Vec<String> = Vec::new();
    let mut current: Vec<char> = Vec::new();
    let mut i: usize = 0;
    assert(input@.take(0) =~= Seq::<char>::empty());
    assert(string_views(chunks@) =~= Seq::<Seq<char>>::empty());
    while i < input.len()
        invariant
            i <= input.len(),
            sentence_min == sentence_minimum(maximum_chunk_chars as nat),
            clause_min == clause_minimum(maximum_chunk_chars as nat),
            chunk_scan(input@.take(i as int), maximum_chunk_chars as nat) == (ChunkScan {
                chunks: string_views(chunks@),
                current: current@,
            }),
            current@.len() <= i,
        decreases input.len() - i,
    {
        assert(input@.take(i + 1).drop_last() =~= input@.take(i as int));
        let c = input[i];
        current.push(c);
        let n = current.len();
        let sentence = (c == '。' || c == '！' || c == '？' || c == '!' || c == '?') && n
            >= sentence_min;
        let clause = (c == '；' || c == ';' || c == '，' || c == ',') && n >= clause_min;
        if n >= maximum_chunk_chars || sentence || clause {
            close_chunk(&mut chunks, &current);
            current = Vec::new();
        }
        i = i + 1;
    }
    assert(input@.take(i as int) =~= input@);
    close_chunk(&mut chunks, &current);
    let count = chunks.len();
    if count > 1 {
        let last_len = chars_of(chunks[count - 1].as_str()).len();
        if last_len < 8 {
            let prev_len = chars_of(chunks[count - 2].as_str()).len();
            if last_len <= maximum_chunk_chars && prev_len <= maximum_chunk_chars - last_len {
                let ghost cs = string_views(chunks@);
                let tail = chunks.pop().unwrap();
                let mut prev = chunks.pop().unwrap();
                push_str(&mut prev, tail.as_str());
                chunks.push(prev);
                assert(string_views(chunks@) =~= cs.drop_last().update(
                    cs.len() - 2,
                    cs[cs.len() - 2] + cs.last(),
                ));
            }
        }
    }
    chunks
}

/// Renders a reply for speech and splits it into chunks of at most
/// `maximum_chunk_chars` characters, preferring sentence and clause stops.
pub fn render_spoken_chunks(input: &str, maximum_chars: usize, maximum_chunk_chars: usize) -> (r:
    Result<SpeechChunkRender, VoiceError>)
    ensures
        maximum_chunk_chars == 0 ==> invalid_configuration(
            r,
            "maximum speech chunk length must be positive"@,
        ),
        maximum_chunk_chars > 0 && maximum_chars == 0 ==> invalid_configuration(
            r,
            "maximum speech text length must be positive"@,
        ),
        maximum_chunk_chars > 0 && maximum_chars > 0 && speakable(input@).len() == 0
            ==> invalid_input(r, "assistant response has no speakable text"@),
        maximum_chunk_chars > 0 && maximum_chars > 0 && speakable(input@).len() > 0 ==> (r matches Ok(
            c,
        ) && ({
            let st = read_lines(newline_pieces(input@));
            let (text, cut) = fitted(speakable(input@), maximum_chars as nat);
            &&& string_views(c.chunks@) == spoken_chunks(text, maximum_chunk_chars as nat)
            &&& c.truncated == cut
            &&& c.omitted_code == st.omitted_code
            &&& c.omitted_links == st.omitted_links
        })),
{
    if maximum_chunk_chars == 0 {
        return Err(
            VoiceError::InvalidConfiguration(owned("maximum speech chunk length must be positive")),
        );
    }
    let rendered = match render_spoken_text(input, maximum_chars) {
        Ok(r) => r,
        Err(e) => {
            return Err(e);
        },
    };
    let text = chars_of(rendered.text.as_str());
    let chunks = split_spoken_text(&text, maximum_chunk_chars);
    Ok(
        SpeechChunkRender {
            chunks,
            truncated: rendered.truncated,
            omitted_code: rendered.omitted_code,
            omitted_links: rendered.omitted_links,
        },
    )
}

} // verus!
