use vstd::prelude::*;
use crate::speech::{chunk_scan, fitted, kept_chars, raw_chunks, spoken_chunks, truncation_note};
use crate::text::{is_ws, lead_ws, lemma_lead_ws_bound, lemma_trail_ws_bound, trail_ws, trim, trim_start};

verus! {

/// Trimming never makes text longer.
pub proof fn lemma_trim_len(x: Seq<char>)
    ensures
        trim(x).len() <= x.len(),
{
    lemma_lead_ws_bound(x);
    lemma_trail_ws_bound(trim_start(x));
}

/// Text without whitespace trims to itself.
pub proof fn lemma_trim_no_ws(x: Seq<char>)
    requires
        forall|i: int| 0 <= i < x.len() ==> !is_ws(#[trigger] x[i]),
    ensures
        trim(x) == x,
{
    if x.len() > 0 {
        assert(lead_ws(x) == 0);
        assert(trim_start(x) =~= x);
        assert(trail_ws(x) == 0);
    } else {
        assert(trim_start(x) =~= x);
    }
    assert(trim(x) =~= x);
}

proof fn lemma_scan_bounded(s: Seq<char>, maximum: nat)
    requires
        maximum > 0,
    ensures
        chunk_scan(s, maximum).current.len() < maximum,
        forall|i: int|
            0 <= i < chunk_scan(s, maximum).chunks.len() ==> 0 < (#[trigger] chunk_scan(
                s,
                maximum,
            ).chunks[i]).len() <= maximum,
    decreases s.len(),
{
    if s.len() > 0 {
        lemma_scan_bounded(s.drop_last(), maximum);
        let st = chunk_scan(s.drop_last(), maximum);
        let cur = st.current.push(s.last());
        lemma_trim_len(cur);
    }
}

/// Every chunk of speech holds at least one and at most `maximum`
/// characters.
pub proof fn lemma_chunks_bounded(s: Seq<char>, maximum: nat)
    requires
        maximum > 0,
    ensures
        forall|i: int|
            0 <= i < spoken_chunks(s, maximum).len() ==> 0 < (#[trigger] spoken_chunks(
                s,
                maximum,
            )[i]).len() <= maximum,
{
    lemma_scan_bounded(s, maximum);
    let st = chunk_scan(s, maximum);
    lemma_trim_len(st.current);
    let cs = raw_chunks(s, maximum);
    assert(forall|i: int| 0 <= i < cs.len() ==> 0 < (#[trigger] cs[i]).len() <= maximum);
}

proof fn lemma_scan_concat(s: Seq<char>, maximum: nat)
    requires
        forall|i: int| 0 <= i < s.len() ==> !is_ws(#[trigger] s[i]),
    ensures
        chunk_scan(s, maximum).chunks.flatten_alt() + chunk_scan(s, maximum).current == s,
        forall|i: int|
            0 <= i < chunk_scan(s, maximum).current.len() ==> !is_ws(
                #[trigger] chunk_scan(s, maximum).current[i],
            ),
    decreases s.len(),
{
    if s.len() == 0 {
        assert(Seq::<char>::empty() + Seq::<char>::empty() =~= s);
    } else {
        let p = s.drop_last();
        assert(forall|i: int| 0 <= i < p.len() ==> p[i] == s[i]);
        lemma_scan_concat(p, maximum);
        let st = chunk_scan(p, maximum);
        let cur = st.current.push(s.last());
        assert(forall|i: int| 0 <= i < cur.len() ==> !is_ws(#[trigger] cur[i])) by {
            assert forall|i: int| 0 <= i < cur.len() implies !is_ws(#[trigger] cur[i]) by {
                if i < st.current.len() {
                    assert(cur[i] == st.current[i]);
                } else {
                    assert(cur[i] == s[s.len() - 1]);
                }
            }
        }
        lemma_trim_no_ws(cur);
        let next = chunk_scan(s, maximum);
        assert(st.chunks.flatten_alt() + cur =~= s);
        if next.current.len() == 0 {
            assert(next.chunks == st.chunks.push(cur));
            assert(st.chunks.push(cur).drop_last() =~= st.chunks);
            assert(next.chunks.flatten_alt() + next.current =~= s);
        }
    }
}

/// Speech without whitespace is split without losing or reordering a
/// character: the chunks concatenate to it.
pub proof fn lemma_chunks_concat(s: Seq<char>, maximum: nat)
    requires
        forall|i: int| 0 <= i < s.len() ==> !is_ws(#[trigger] s[i]),
    ensures
        spoken_chunks(s, maximum).flatten() == s,
{
    lemma_scan_concat(s, maximum);
    let st = chunk_scan(s, maximum);
    lemma_trim_no_ws(st.current);
    let cs = raw_chunks(s, maximum);
    if st.current.len() > 0 {
        assert(st.chunks.push(st.current).drop_last() =~= st.chunks);
        assert(cs.flatten_alt() =~= s);
    } else {
        assert(st.chunks.flatten_alt() + st.current =~= st.chunks.flatten_alt());
        assert(cs.flatten_alt() =~= s);
    }
    let out = spoken_chunks(s, maximum);
    if cs.len() > 1 && cs.last().len() < 8 {
        let prev = cs[cs.len() - 2];
        let tail = cs.last();
        if prev.len() + tail.len() <= maximum {
            let dd = cs.drop_last().drop_last();
            assert(cs.drop_last().last() == prev);
            assert(out =~= dd.push(prev + tail));
            assert(dd.push(prev + tail).drop_last() =~= dd);
            assert(cs.drop_last().flatten_alt() == dd.flatten_alt() + prev);
            assert(out.flatten_alt() =~= s);
        }
    }
    out.lemma_flatten_and_flatten_alt_are_equivalent();
}

/// Text within the limit is spoken whole; cut text ends with the note
/// pointing to the written reply and, when the limit leaves room for the
/// note, stays within the limit.
pub proof fn lemma_fitted(v: Seq<char>, maximum: nat)
    ensures
        !fitted(v, maximum).1 ==> fitted(v, maximum).0 == v && v.len() <= maximum,
        fitted(v, maximum).1 ==> v.len() > maximum && fitted(v, maximum).0.len()
            >= truncation_note().len() && fitted(v, maximum).0.subrange(
            fitted(v, maximum).0.len() - truncation_note().len(),
            fitted(v, maximum).0.len() as int,
        ) == truncation_note(),
        fitted(v, maximum).1 && maximum > truncation_note().len() + 1 ==> fitted(v, maximum).0.len()
            <= maximum,
{
    if v.len() > maximum {
        let k = kept_chars(maximum);
        let p = v.take(
            if k < v.len() {
                k as int
            } else {
                v.len() as int
            },
        );
        let b = crate::speech::after_last_stop(p);
        lemma_after_last_stop(p);
        let cut = p.take(
            if b < 0 {
                p.len() as int
            } else {
                b
            },
        );
        lemma_trim_len(cut);
        let t = trim(cut);
        let out = t + truncation_note();
        assert(out.subrange(t.len() as int, out.len() as int) =~= truncation_note());
    }
}

proof fn lemma_after_last_stop(p: Seq<char>)
    ensures
        -1 <= crate::speech::after_last_stop(p) <= p.len(),
    decreases p.len(),
{
    if p.len() > 0 {
        lemma_after_last_stop(p.drop_last());
    }
}

} // verus!
