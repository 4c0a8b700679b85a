use vstd::prelude::*;
use crate::text::{
    is_ascii_alnum, is_ascii_digit, is_ascii_ws, is_ws, is_ws_char, lead_ws, lemma_lead_ws_bound,
    lower_char, lower_char_exec, trim_start,
};

verus! {

// ---------------------------------------------------------------------------
// Emphasis marks
// ---------------------------------------------------------------------------
pub open spec fn is_mark(c: char) -> bool {
    c == '*' || c == '`'
}

/// The text without any `*` or `` ` ``.
pub open spec fn without_marks(s: Seq<char>) -> Seq<char>
    decreases s.len(),
{
    if s.len() == 0 {
        s
    } else if is_mark(s.last()) {
        without_marks(s.drop_last())
    } else {
        without_marks(s.drop_last()).push(s.last())
    }
}

pub fn remove_marks(s: &Vec<char>) -> (out: Vec<char>)
    ensures
        out@ == without_marks(s@),
{
    let mut out: Vec<char> = Vec::new();
    let mut i: usize = 0;
    while i < s.len()
        invariant
            i <= s.len(),
            out@ == without_marks(s@.take(i as int)),
        decreases s.len() - i,
    {
        assert(s@.take(i + 1).drop_last() =~= s@.take(i as int));
        let c = s[i];
        if !(c == '*' || c == '`') {
            out.push(c);
        }
        i = i + 1;
    }
    assert(s@.take(i as int) =~= s@);
    out
}

/// The text with every `__` removed, scanning from the left.
pub open spec fn without_pairs(s: Seq<char>) -> Seq<char>
    decreases s.len(),
{
    if s.len() == 0 {
        s
    } else if s.len() >= 2 && s[0] == '_' && s[1] == '_' {
        without_pairs(s.skip(2))
    } else {
        seq![s[0]] + without_pairs(s.skip(1))
    }
}

pub fn remove_pairs(s: &Vec<char>) -> (out: Vec<char>)
    ensures
        out@ == without_pairs(s@),
{
    let mut out: Vec<char> = Vec::new();
    let mut i: usize = 0;
    assert(s@.skip(0) =~= s@);
    while i < s.len()
        invariant
            i <= s.len(),
            without_pairs(s@) == out@ + without_pairs(s@.skip(i as int)),
        decreases s.len() - i,
    {
        let ghost rest = s@.skip(i as int);
        if i + 1 < s.len() && s[i] == '_' && s[i + 1] == '_' {
            assert(rest.skip(2) =~= s@.skip(i + 2));
            i = i + 2;
        } else {
            assert(rest.skip(1) =~= s@.skip(i + 1));
            assert(out@.push(s@[i as int]) + without_pairs(s@.skip(i + 1)) =~= out@ + (seq![
                rest[0],
            ] + without_pairs(rest.skip(1))));
            out.push(s[i]);
            i = i + 1;
        }
    }
    assert(s@.skip(i as int) =~= Seq::<char>::empty());
    assert(out@ + Seq::<char>::empty() =~= out@);
    out
}

// ---------------------------------------------------------------------------
// Whitespace runs
// ---------------------------------------------------------------------------
/// The words of `s` joined by single spaces, and whether a space is owed
/// before the next word.
pub open spec fn collapse_state(s: Seq<char>) -> (Seq<char>, bool)
    decreases s.len(),
{
    if s.len() == 0 {
        (s, false)
    } else {
        let (o, gap) = collapse_state(s.drop_last());
        let c = s.last();
        if is_ws(c) {
            (o, o.len() > 0)
        } else if gap {
            (o.push(' ').push(c), false)
        } else {
            (o.push(c), false)
        }
    }
}

/// `s.split_whitespace()` joined with single spaces.
pub open spec fn collapsed(s: Seq<char>) -> Seq<char> {
    collapse_state(s).0
}

pub fn collapse_whitespace(s: &Vec<char>) -> (out: Vec<char>)
    ensures
        out@ == collapsed(s@),
{
    let mut out: Vec<char> = Vec::new();
    let mut gap = false;
    let mut i: usize = 0;
    while i < s.len()
        invariant
            i <= s.len(),
            (out@, gap) == collapse_state(s@.take(i as int)),
        decreases s.len() - i,
    {
        assert(s@.take(i + 1).drop_last() =~= s@.take(i as int));
        let c = s[i];
        if is_ws_char(c) {
            gap = out.len() > 0;
        } else {
            if gap {
                out.push(' ');
            }
            out.push(c);
            gap = false;
        }
        i = i + 1;
    }
    assert(s@.take(i as int) =~= s@);
    out
}

// ---------------------------------------------------------------------------
// Line prefixes: headings, quotes, bullets, numbered items
// ---------------------------------------------------------------------------
pub open spec fn lead_hashes(s: Seq<char>) -> nat
    decreases s.len(),
{
    if s.len() > 0 && s[0] == '#' {
        1 + lead_hashes(s.drop_first())
    } else {
        0
    }
}

/// First position of `. ` at or after `i`, or -1.
pub open spec fn dot_space_from(s: Seq<char>, i: nat) -> int
    decreases s.len() - i,
{
    if i + 1 >= s.len() {
        -1
    } else if s[i as int] == '.' && s[i as int + 1] == ' ' {
        i as int
    } else {
        dot_space_from(s, i + 1)
    }
}

pub open spec fn all_digits(s: Seq<char>) -> bool {
    forall|i: int| 0 <= i < s.len() ==> is_ascii_digit(#[trigger] s[i])
}

pub open spec fn is_bullet(s: Seq<char>) -> bool {
    s.len() >= 2 && s[1] == ' ' && (s[0] == '>' || s[0] == '-' || s[0] == '*' || s[0] == '+')
}

/// A line without its heading marks, quote or bullet marker, or item
/// number, and without the spaces after them.
pub open spec fn without_line_prefix(v: Seq<char>) -> Seq<char> {
    let v1 = trim_start(v.skip(lead_hashes(v) as int));
    if is_bullet(v1) {
        trim_start(v1.skip(2))
    } else {
        let k = dot_space_from(v1, 0);
        if k > 0 && all_digits(v1.take(k)) {
            trim_start(v1.skip(k + 2))
        } else {
            v1
        }
    }
}

proof fn lemma_lead_hashes(s: Seq<char>)
    ensures
        lead_hashes(s) <= s.len(),
        forall|i: int| 0 <= i < lead_hashes(s) ==> s[i] == '#',
        lead_hashes(s) < s.len() ==> s[lead_hashes(s) as int] != '#',
    decreases s.len(),
{
    if s.len() > 0 && s[0] == '#' {
        lemma_lead_hashes(s.drop_first());
        assert forall|i: int| 0 <= i < lead_hashes(s) implies s[i] == '#' by {
            if i > 0 {
                assert(s[i] == s.drop_first()[i - 1]);
            }
        }
    }
}

/// The characters from `start` on, without leading whitespace.
pub fn trim_start_from(s: &Vec<char>, start: usize) -> (out: Vec<char>)
    requires
        start <= s.len(),
    ensures
        out@ == trim_start(s@.skip(start as int)),
{
    let ghost t = s@.skip(start as int);
    proof {
        lemma_lead_ws_bound(t);
    }
    let mut i: usize = start;
    while i < s.len() && is_ws_char(s[i])
        invariant
            start <= i <= s.len(),
            t == s@.skip(start as int),
            i - start <= lead_ws(t),
            lead_ws(t) <= t.len(),
            forall|k: int| 0 <= k < lead_ws(t) ==> is_ws(#[trigger] t[k]),
            lead_ws(t) < t.len() ==> !is_ws(t[lead_ws(t) as int]),
        decreases s.len() - i,
    {
        i = i + 1;
    }
    if i < s.len() {
        assert(t[i - start] == s@[i as int]);
    }
    assert(i - start == lead_ws(t));
    let mut out: Vec<char> = Vec::new();
    let mut j: usize = i;
    while j < s.len()
        invariant
            i <= j <= s.len(),
            out@ == s@.subrange(i as int, j as int),
        decreases s.len() - j,
    {
        out.push(s[j]);
        assert(s@.subrange(i as int, j as int).push(s@[j as int]) =~= s@.subrange(i as int, j + 1));
        j = j + 1;
    }
    assert(trim_start(t) =~= s@.subrange(i as int, s.len() as int));
    out
}

fn find_dot_space(s: &Vec<char>) -> (r: Option<usize>)
    ensures
        match r {
            Some(k) => k as int == dot_space_from(s@, 0) && k + 1 < s.len(),
            None => dot_space_from(s@, 0) == -1,
        },
{
    let mut i: usize = 0;
    while i < s.len() && i + 1 < s.len()
        invariant
            i <= s.len(),
            dot_space_from(s@, 0) == dot_space_from(s@, i as nat),
        decreases s.len() - i,
    {
        if s[i] == '.' && s[i + 1] == ' ' {
            return Some(i);
        }
        i = i + 1;
    }
    None
}

#[verifier::loop_isolation(false)]
pub fn strip_line_prefix(v: &Vec<char>) -> (out: Vec<char>)
    ensures
        out@ == without_line_prefix(v@),
{
    proof {
        lemma_lead_hashes(v@);
    }
    let mut h: usize = 0;
    while h < v.len() && v[h] == '#'
        invariant
            h <= lead_hashes(v@),
            lead_hashes(v@) <= v.len(),
            forall|i: int| 0 <= i < lead_hashes(v@) ==> v@[i] == '#',
            lead_hashes(v@) < v.len() ==> v@[lead_hashes(v@) as int] != '#',
        decreases v.len() - h,
    {
        h = h + 1;
    }
    let v1 = trim_start_from(v, h);
    if v1.len() >= 2 && v1[1] == ' ' && (v1[0] == '>' || v1[0] == '-' || v1[0] == '*' || v1[0]
        == '+') {
        return trim_start_from(&v1, 2);
    }
    match find_dot_space(&v1) {
        None => v1,
        Some(k) => {
            if k == 0 {
                return v1;
            }
            let mut j: usize = 0;
            while j < k
                invariant
                    j <= k < v1.len(),
                    forall|i: int| 0 <= i < j ==> is_ascii_digit(#[trigger] v1@[i]),
                decreases k - j,
            {
                if !('0' <= v1[j] && v1[j] <= '9') {
                    assert(!all_digits(v1@.take(k as int))) by {
                        assert(v1@.take(k as int)[j as int] == v1@[j as int]);
                    }
                    return v1;
                }
                j = j + 1;
            }
            assert(all_digits(v1@.take(k as int)));
            trim_start_from(&v1, k + 2)
        },
    }
}

// ---------------------------------------------------------------------------
// Links and bare URLs
// ---------------------------------------------------------------------------
pub open spec fn starts_url(c: Seq<char>, i: int) -> bool {
    (0 <= i && i + 8 <= c.len() && c.subrange(i, i + 8) == "https://"@) || (0 <= i && i + 7
        <= c.len() && c.subrange(i, i + 7) == "http://"@)
}

/// The first whitespace position at or after `i`, or the length.
pub open spec fn next_ws(c: Seq<char>, i: int) -> int
    decreases c.len() - i,
{
    if i < c.len() && !is_ws(c[i]) {
        next_ws(c, i + 1)
    } else {
        i
    }
}

/// The first position at or after `i` holding `ch`, or -1.
pub open spec fn find_from(c: Seq<char>, i: int, ch: char) -> int
    decreases c.len() - i,
{
    if i >= c.len() || i < 0 {
        -1
    } else if c[i] == ch {
        i
    } else {
        find_from(c, i + 1, ch)
    }
}

pub proof fn lemma_next_ws(c: Seq<char>, i: int)
    requires
        0 <= i <= c.len(),
    ensures
        i <= next_ws(c, i) <= c.len(),
        i < c.len() && !is_ws(c[i]) ==> next_ws(c, i) > i,
    decreases c.len() - i,
{
    if i < c.len() && !is_ws(c[i]) {
        lemma_next_ws(c, i + 1);
    }
}

pub proof fn lemma_find_from(c: Seq<char>, i: int, ch: char)
    requires
        0 <= i,
    ensures
        find_from(c, i, ch) == -1 || (i <= find_from(c, i, ch) < c.len() && c[find_from(
            c,
            i,
            ch,
        )] == ch),
    decreases c.len() - i,
{
    if i < c.len() && c[i] != ch {
        lemma_find_from(c, i + 1, ch);
    }
}

/// The text from position `i` on with links reduced to their labels, images
/// and bare URLs dropped, and whether anything was dropped.
pub open spec fn unlinked_from(c: Seq<char>, i: int) -> (Seq<char>, bool)
    decreases c.len() - i,
{
    if i < 0 || i >= c.len() {
        (Seq::empty(), false)
    } else if starts_url(c, i) {
        let j = next_ws(c, i);
        if j <= i || j > c.len() {
            (Seq::empty(), true)
        } else {
            (unlinked_from(c, j).0, true)
        }
    } else {
        let image = c[i] == '!' && i + 1 < c.len() && c[i + 1] == '[';
        let ls = if image {
            i + 2
        } else if c[i] == '[' {
            i + 1
        } else {
            -1
        };
        let kept = (seq![c[i]] + unlinked_from(c, i + 1).0, unlinked_from(c, i + 1).1);
        if ls < 0 {
            kept
        } else {
            let le = find_from(c, ls, ']');
            if le < ls || !(le + 1 < c.len() && c[le + 1] == '(') {
                kept
            } else {
                let lk = find_from(c, le + 2, ')');
                if lk < le + 2 || lk >= c.len() {
                    kept
                } else {
                    (
                        (if image {
                            Seq::empty()
                        } else {
                            c.subrange(ls, le)
                        }) + unlinked_from(c, lk + 1).0,
                        true,
                    )
                }
            }
        }
    }
}

pub open spec fn unlinked(c: Seq<char>) -> (Seq<char>, bool) {
    unlinked_from(c, 0)
}

fn starts_url_at(c: &Vec<char>, i: usize) -> (r: bool)
    requires
        i <= c.len(),
    ensures
        r == starts_url(c@, i as int),
{
    proof {
        reveal_strlit("https://");
        reveal_strlit("http://");
    }
    let https = crate::text::chars_of("https://");
    let http = crate::text::chars_of("http://");
    crate::text::occurs_at_exec(c, &https, i) || crate::text::occurs_at_exec(c, &http, i)
}

fn find_char_from(c: &Vec<char>, i: usize, ch: char) -> (r: Option<usize>)
    ensures
        match r {
            Some(k) => k as int == find_from(c@, i as int, ch) && k < c.len(),
            None => find_from(c@, i as int, ch) == -1,
        },
{
    let mut k: usize = i;
    while k < c.len()
        invariant
            i <= k,
            find_from(c@, i as int, ch) == find_from(c@, k as int, ch),
        decreases c.len() - k,
    {
        if c[k] == ch {
            return Some(k);
        }
        k = k + 1;
    }
    None
}

pub fn strip_markdown_links(c: &Vec<char>) -> (r: (Vec<char>, bool))
    ensures
        (r.0@, r.1) == unlinked(c@),
{
    let mut out: Vec<char> = Vec::new();
    let mut omitted = false;
    let mut i: usize = 0;
    while i < c.len()
        invariant
            i <= c.len(),
            unlinked(c@).0 == out@ + unlinked_from(c@, i as int).0,
            unlinked(c@).1 == (omitted || unlinked_from(c@, i as int).1),
        decreases c.len() - i,
    {
        if starts_url_at(c, i) {
            proof {
                lemma_next_ws(c@, i as int);
                reveal_strlit("https://");
                reveal_strlit("http://");
                assert(c@[i as int] == c@.subrange(i as int, i + 7)[0]);
            }
            let ghost start = i;
            omitted = true;
            while i < c.len() && !is_ws_char(c[i])
                invariant
                    start <= i <= c.len(),
                    next_ws(c@, start as int) == next_ws(c@, i as int),
                decreases c.len() - i,
            {
                i = i + 1;
            }
            continue;
        }
        let image = c[i] == '!' && i + 1 < c.len() && c[i + 1] == '[';
        let ls: usize = if image {
            i + 2
        } else if c[i] == '[' {
            i + 1
        } else {
            assert(out@.push(c@[i as int]) + unlinked_from(c@, i + 1).0 =~= out@ + (seq![
                c@[i as int],
            ] + unlinked_from(c@, i + 1).0));
            out.push(c[i]);
            i = i + 1;
            continue;
        };
        let le = match find_char_from(c, ls, ']') {
            Some(le) => le,
            None => {
                assert(out@.push(c@[i as int]) + unlinked_from(c@, i + 1).0 =~= out@ + (seq![
                    c@[i as int],
                ] + unlinked_from(c@, i + 1).0));
                out.push(c[i]);
                i = i + 1;
                continue;
            },
        };
        proof {
            lemma_find_from(c@, ls as int, ']');
        }
        if !(le + 1 < c.len() && c[le + 1] == '(') {
            assert(out@.push(c@[i as int]) + unlinked_from(c@, i + 1).0 =~= out@ + (seq![
                c@[i as int],
            ] + unlinked_from(c@, i + 1).0));
            out.push(c[i]);
            i = i + 1;
            continue;
        }
        let lk = match find_char_from(c, le + 2, ')') {
            Some(lk) => lk,
            None => {
                assert(out@.push(c@[i as int]) + unlinked_from(c@, i + 1).0 =~= out@ + (seq![
                    c@[i as int],
                ] + unlinked_from(c@, i + 1).0));
                out.push(c[i]);
                i = i + 1;
                continue;
            },
        };
        proof {
            lemma_find_from(c@, le + 2, ')');
        }
        omitted = true;
        let ghost before = out@;
        if !image {
            let mut k: usize = ls;
            while k < le
                invariant
                    ls <= k <= le < c.len(),
                    out@ == before + c@.subrange(ls as int, k as int),
                decreases le - k,
            {
                out.push(c[k]);
                assert(before + c@.subrange(ls as int, k + 1) =~= (before + c@.subrange(
                    ls as int,
                    k as int,
                )).push(c@[k as int]));
                k = k + 1;
            }
        }
        assert(before + ((if image {
            Seq::empty()
        } else {
            c@.subrange(ls as int, le as int)
        }) + unlinked_from(c@, lk + 1).0) =~= out@ + unlinked_from(c@, lk + 1).0);
        i = lk + 1;
    }
    assert(out@ + Seq::<char>::empty() =~= out@);
    (out, omitted)
}

// ---------------------------------------------------------------------------
// Brand pronunciation
// ---------------------------------------------------------------------------
pub open spec fn is_word_char(c: char) -> bool {
    is_ascii_alnum(c) || c == '_'
}

/// `pattern` (lower-case ASCII) stands at `i`, ignoring ASCII case.
pub open spec fn ci_at(c: Seq<char>, i: int, pattern: Seq<char>) -> bool {
    0 <= i && i + pattern.len() <= c.len() && forall|j: int|
        0 <= j < pattern.len() ==> lower_char(#[trigger] c[i + j]) == pattern[j]
}

/// No ASCII word character at position `k`.
pub open spec fn word_ends_at(c: Seq<char>, k: int) -> bool {
    k >= c.len() || !is_word_char(c[k])
}

/// The first position at or after `i` that is not ASCII whitespace.
pub open spec fn skip_ascii_ws(c: Seq<char>, i: int) -> int
    decreases c.len() - i,
{
    if 0 <= i < c.len() && is_ascii_ws(c[i]) {
        skip_ascii_ws(c, i + 1)
    } else {
        i
    }
}

pub open spec fn brand_word() -> Seq<char> {
    seq!['云', '熙']
}

/// The text from `i` on with the brand name, alone or followed by the
/// product name, spoken as the Chinese brand.
pub open spec fn branded_from(c: Seq<char>, i: int) -> Seq<char>
    decreases c.len() - i,
{
    if i < 0 || i >= c.len() {
        Seq::empty()
    } else {
        let prev_word = i > 0 && is_word_char(c[i - 1]);
        if !prev_word && ci_at(c, i, "yunxi"@) {
            let be = i + 5;
            let ps = skip_ascii_ws(c, be);
            if ps > be && ps + 5 <= c.len() && ci_at(c, ps, "agent"@) && word_ends_at(c, ps + 5) {
                brand_word() + branded_from(c, ps + 5)
            } else if be <= c.len() && word_ends_at(c, be) {
                brand_word() + branded_from(c, be)
            } else {
                seq![c[i]] + branded_from(c, i + 1)
            }
        } else {
            seq![c[i]] + branded_from(c, i + 1)
        }
    }
}

pub open spec fn branded(c: Seq<char>) -> Seq<char> {
    branded_from(c, 0)
}

fn is_word_char_exec(c: char) -> (r: bool)
    ensures
        r == is_word_char(c),
{
    ('0' <= c && c <= '9') || ('a' <= c && c <= 'z') || ('A' <= c && c <= 'Z') || c == '_'
}

fn ci_at_exec(c: &Vec<char>, i: usize, pattern: &Vec<char>) -> (r: bool)
    ensures
        r == ci_at(c@, i as int, pattern@),
{
    if i > c.len() || pattern.len() > c.len() - i {
        return false;
    }
    let mut j: usize = 0;
    while j < pattern.len()
        invariant
            i + pattern.len() <= c.len(),
            j <= pattern.len(),
            forall|k: int| 0 <= k < j ==> lower_char(#[trigger] c@[i + k]) == pattern@[k],
        decreases pattern.len() - j,
    {
        if lower_char_exec(c[i + j]) != pattern[j] {
            return false;
        }
        j = j + 1;
    }
    true
}

fn word_ends_at_exec(c: &Vec<char>, k: usize) -> (r: bool)
    ensures
        r == word_ends_at(c@, k as int),
{
    k >= c.len() || !is_word_char_exec(c[k])
}

pub fn normalize_brand_pronunciation(c: &Vec<char>) -> (out: Vec<char>)
    ensures
        out@ == branded(c@),
{
    let yunxi = crate::text::chars_of("yunxi");
    let agent = crate::text::chars_of("agent");
    let mut out: Vec<char> = Vec::new();
    let mut i: usize = 0;
    while i < c.len()
        invariant
            i <= c.len(),
            yunxi@ == "yunxi"@,
            agent@ == "agent"@,
            branded(c@) == out@ + branded_from(c@, i as int),
        decreases c.len() - i,
    {
        proof {
            reveal_strlit("yunxi");
            reveal_strlit("agent");
        }
        let prev_word = i > 0 && is_word_char_exec(c[i - 1]);
        if !prev_word && ci_at_exec(c, i, &yunxi) {
            let be = i + 5;
            let mut ps: usize = be;
            while ps < c.len() && (c[ps] == ' ' || c[ps] == '\t' || c[ps] == '\n' || c[ps] == '\x0C'
                || c[ps] == '\r')
                invariant
                    be <= ps <= c.len(),
                    skip_ascii_ws(c@, be as int) == skip_ascii_ws(c@, ps as int),
                decreases c.len() - ps,
            {
                ps = ps + 1;
            }
            if ps > be && ci_at_exec(c, ps, &agent) && word_ends_at_exec(c, ps + 5) {
                assert(out@ + (brand_word() + branded_from(c@, ps + 5)) =~= out@.push('云').push(
                    '熙',
                ) + branded_from(c@, ps + 5));
                out.push('云');
                out.push('熙');
                i = ps + 5;
                continue;
            }
            if word_ends_at_exec(c, be) {
                assert(out@ + (brand_word() + branded_from(c@, be as int)) =~= out@.push(
                    '云',
                ).push('熙') + branded_from(c@, be as int));
                out.push('云');
                out.push('熙');
                i = be;
                continue;
            }
        }
        assert(out@ + (seq![c@[i as int]] + branded_from(c@, i + 1)) =~= out@.push(c@[i as int])
            + branded_from(c@, i + 1));
        out.push(c[i]);
        i = i + 1;
    }
    assert(out@ + Seq::<char>::empty() =~= out@);
    out
}

} // verus!
