use vstd::prelude::*;
use vstd::utf8::{encode_scalar, encode_utf8};
use std::ops::Range;
use unicode_segmentation::UnicodeSegmentation;
use unicode_width::UnicodeWidthStr;
use crate::seqs::{first_index, lemma_first_index_at, lemma_first_index_none};
use crate::speech::string_views;
use crate::text::{chars_of, is_ascii, is_blank, is_blank_chars, is_blank_str, owned, push_str, string_of_range};

verus! {

/// How a run of text is broken into screen rows.
#[derive(Clone, Copy, Debug, PartialEq, Eq, Structural)]
pub enum WrapPolicy {
    NaturalText,
    BreakLongToken,
    UrlAware,
    WindowsPathAware,
    CodeBlock,
}

/// One screen row: its text and the byte range of the source it shows.
#[derive(Debug)]
pub struct VisualLine {
    pub text: String,
    pub source_range: Range<usize>,
}

/// A cursor position on screen.
#[derive(Clone, Copy, Debug, PartialEq, Eq, Structural)]
pub struct VisualCursor {
    pub row: usize,
    pub column: usize,
}

/// Text measurement and wrapping.
pub struct TextLayout;

/// How much a piece of a status line matters when the line is too narrow.
#[derive(Clone, Copy, Debug, PartialEq, Eq, PartialOrd, Ord, Structural)]
pub enum ClipPriority {
    MustKeep,
    Important,
    Optional,
    DebugOnly,
}

/// A piece of a status line with its priority.
#[derive(Clone, Copy, Debug)]
pub struct PrioritySegment<'a> {
    pub text: &'a str,
    pub priority: ClipPriority,
}

impl<'a> PrioritySegment<'a> {
    pub fn new(text: &'a str, priority: ClipPriority) -> (r: Self)
        ensures
            r.text == text,
            r.priority == priority,
    {
        PrioritySegment { text, priority }
    }
}


/// Names what `UnicodeSegmentation::graphemes(text, true)` yields: the
/// extended grapheme clusters of `text`, in order.
pub uninterp spec fn extended_graphemes(text: Seq<char>) -> Seq<Seq<char>>;

/// Names what `UnicodeWidthStr::width` gives for a text: the number of
/// terminal columns it takes.
pub uninterp spec fn display_width(text: Seq<char>) -> usize;

/// `UnicodeSegmentation::graphemes(value, true)`: the extended grapheme
/// clusters of `value`.  The source slices the input at successive cluster
/// boundaries from its start to its end, so the clusters are non-empty and
/// together spell the input.
#[verifier::external_body]
fn graphemes_of(value: &str) -> (r: Vec<String>)
    ensures
        string_views(r@) == extended_graphemes(value@),
        string_views(r@).flatten() == value@,
        forall|i: int| 0 <= i < r@.len() ==> (#[trigger] r@[i])@.len() > 0,
{
    value.graphemes(true).map(str::to_string).collect()
}

/// `UnicodeWidthStr::width`: the display width of `value`.
#[verifier::external_body]
fn width_of(value: &str) -> (r: usize)
    ensures
        r == display_width(value@),
{
    UnicodeWidthStr::width(value)
}


/// `char::is_ascii_punctuation`.
pub open spec fn is_ascii_punct(c: char) -> bool {
    let n = c as u32;
    (0x21 <= n <= 0x2f) || (0x3a <= n <= 0x40) || (0x5b <= n <= 0x60) || (0x7b <= n <= 0x7e)
}

pub open spec fn url_break_char(c: char) -> bool {
    c == '/' || c == '?' || c == '&' || c == '=' || c == '#' || c == '.' || c == '-' || c == '_'
}

pub open spec fn path_break_char(c: char) -> bool {
    c == '\\' || c == '/' || c == ':' || c == '.' || c == '-' || c == '_' || c == ' '
}

/// The separators after which each token-splitting policy may break a row.
pub open spec fn policy_break_char(c: char, policy: WrapPolicy) -> bool {
    match policy {
        WrapPolicy::NaturalText => is_ascii_punct(c) || !is_ascii(c),
        WrapPolicy::UrlAware => url_break_char(c),
        WrapPolicy::WindowsPathAware => path_break_char(c),
        _ => false,
    }
}

pub open spec fn splits_tokens(policy: WrapPolicy) -> bool {
    policy != WrapPolicy::BreakLongToken && policy != WrapPolicy::CodeBlock
}

/// A row may end right after this cluster: after a blank cluster, or after
/// one made only of the policy's separators.
pub open spec fn breaks_after(g: Seq<char>, policy: WrapPolicy) -> bool {
    is_blank(g) || (splits_tokens(policy) && forall|j: int|
        0 <= j < g.len() ==> policy_break_char(#[trigger] g[j], policy))
}

/// Character offset of cluster `k` within its run.
pub open spec fn pos(gs: Seq<Seq<char>>, k: int) -> int {
    gs.take(k).flatten().len() as int
}

pub open spec fn unit_width(g: Seq<char>) -> int {
    display_width(g) as int
}

/// `usize::saturating_add`.
pub open spec fn sat_add(a: int, b: int) -> int {
    if a + b > usize::MAX {
        usize::MAX as int
    } else {
        a + b
    }
}

/// Greedy fill of a row from cluster `start`: clusters are taken while
/// they fit in `width` (the first one always), and the row closes once it
/// is full.
pub open spec fn fit_from(gs: Seq<Seq<char>>, start: int, f: int, used: int, width: int) -> int
    decreases gs.len() - f,
{
    if f >= gs.len() {
        f
    } else {
        let next = sat_add(used, unit_width(gs[f]));
        if f > start && next > width {
            f
        } else if next >= width {
            f + 1
        } else {
            fit_from(gs, start, f + 1, next, width)
        }
    }
}

pub open spec fn fit_end(gs: Seq<Seq<char>>, start: int, width: int) -> int {
    let f = fit_from(gs, start, start, 0, width);
    let f1 = if f < start + 1 {
        start + 1
    } else {
        f
    };
    if f1 > gs.len() {
        gs.len() as int
    } else {
        f1
    }
}

/// The last end in `start+1 ..= e` after whose cluster the row may break.
pub open spec fn last_break(gs: Seq<Seq<char>>, start: int, e: int, policy: WrapPolicy) -> Option<
    int,
>
    decreases e - start,
{
    if e <= start {
        None
    } else if breaks_after(gs[e - 1], policy) {
        Some(e)
    } else {
        last_break(gs, start, e - 1, policy)
    }
}

/// Where the row ends: at a preferred break when the run goes on past the
/// greedy fill, else at the fill.
pub open spec fn break_end(gs: Seq<Seq<char>>, start: int, fit: int, policy: WrapPolicy) -> int {
    if fit < gs.len() && splits_tokens(policy) {
        match last_break(gs, start, fit, policy) {
            Some(e) => e,
            None => fit,
        }
    } else {
        fit
    }
}

/// Drops blank clusters from the end of a row, keeping at least one.
pub open spec fn trim_blank_end(gs: Seq<Seq<char>>, start: int, d: int) -> int
    decreases d - start,
{
    if d > start + 1 && is_blank(gs[d - 1]) {
        trim_blank_end(gs, start, d - 1)
    } else {
        d
    }
}

pub open spec fn display_end(gs: Seq<Seq<char>>, start: int, b: int, policy: WrapPolicy) -> int {
    if policy == WrapPolicy::CodeBlock {
        b
    } else {
        trim_blank_end(gs, start, b)
    }
}

/// Rows of a run of clusters from cluster `i` on, as character ranges of
/// the run.  Outside code blocks blank clusters never start a row.
pub open spec fn segment_rows(gs: Seq<Seq<char>>, i: int, width: int, policy: WrapPolicy) -> Seq<
    (int, int),
>
    decreases gs.len() - i,
{
    if i < 0 || i >= gs.len() {
        seq![]
    } else if policy != WrapPolicy::CodeBlock && is_blank(gs[i]) {
        segment_rows(gs, i + 1, width, policy)
    } else {
        let fit = fit_end(gs, i, width);
        let b = break_end(gs, i, fit, policy);
        let d = display_end(gs, i, b, policy);
        let next = if b > i + 1 {
            b
        } else {
            i + 1
        };
        let next = if next > gs.len() {
            gs.len() as int
        } else {
            next
        };
        seq![(pos(gs, i), pos(gs, d))] + segment_rows(gs, next, width, policy)
    }
}

/// Character ranges moved by `base`.
pub open spec fn shifted(rows: Seq<(int, int)>, base: int) -> Seq<(int, int)> {
    rows.map_values(|r: (int, int)| (base + r.0, base + r.1))
}

/// Rows of the source characters `start..end`: one empty row for an empty
/// run, else the rows of its clusters.
pub open spec fn run_rows(c: Seq<char>, start: int, end: int, width: int, policy: WrapPolicy) -> Seq<
    (int, int),
> {
    if start >= end {
        seq![(start, start)]
    } else {
        shifted(segment_rows(extended_graphemes(c.subrange(start, end)), 0, width, policy), start)
    }
}

/// Index of the first line feed at or after `i`, or the length.
pub open spec fn newline_from(c: Seq<char>, i: int) -> int
    decreases c.len() - i,
{
    if i < 0 || i >= c.len() {
        c.len() as int
    } else if c[i] == '\n' {
        i
    } else {
        newline_from(c, i + 1)
    }
}

/// Rows of the text from character `start` on: each line (without its line
/// feed, and without a carriage return before it) is wrapped on its own.
pub open spec fn wrap_rows(c: Seq<char>, start: int, width: int, policy: WrapPolicy) -> Seq<
    (int, int),
>
    decreases c.len() - start,
{
    let n = newline_from(c, start);
    if 0 <= start <= n < c.len() {
        let end = if n > start && c[n - 1] == '\r' {
            n - 1
        } else {
            n
        };
        run_rows(c, start, end, width, policy) + wrap_rows(c, n + 1, width, policy)
    } else {
        run_rows(c, start, c.len() as int, width, policy)
    }
}

/// The rows that `TextLayout::wrap` lays out, as character ranges; a width
/// of zero counts as one, and a text with no row shows one empty row.
pub open spec fn layout_rows(c: Seq<char>, width: int, policy: WrapPolicy) -> Seq<(int, int)> {
    let w = if width < 1 {
        1
    } else {
        width
    };
    let rows = wrap_rows(c, 0, w, policy);
    if rows.len() == 0 {
        seq![(0, 0)]
    } else {
        rows
    }
}


/// The start of the last grapheme cluster (among the first `k`) whose byte
/// offset is at most `cur`, or 0 when there is none.
pub open spec fn floor_start(gs: Seq<Seq<char>>, c: Seq<char>, k: int, cur: int) -> int
    decreases k,
{
    if k <= 0 {
        0
    } else if byte_len(c.take(pos(gs, k - 1))) <= cur {
        pos(gs, k - 1)
    } else {
        floor_start(gs, c, k - 1, cur)
    }
}

/// Character position of a byte cursor moved back onto a grapheme cluster
/// boundary; a cursor at or past the end stays at the end.
pub open spec fn clamped_char(c: Seq<char>, byte_index: int) -> int {
    let total = byte_len(c) as int;
    let cur = if byte_index < total {
        byte_index
    } else {
        total
    };
    if cur == total {
        c.len() as int
    } else {
        let gs = extended_graphemes(c);
        floor_start(gs, c, gs.len() as int, cur)
    }
}

/// Row and column of the cursor at character `cc`, looking at rows from
/// `row` on: the first row that the cursor precedes or falls inside; a
/// cursor on a row's end belongs to the next row when that row starts right
/// there.  Past every row, the end of the last row.
pub open spec fn cursor_in_rows(c: Seq<char>, rows: Seq<(int, int)>, cc: int, row: int) -> (int, int)
    decreases rows.len() - row,
{
    let cb = byte_len(c.take(cc));
    if row < 0 || row >= rows.len() {
        let last = rows[rows.len() - 1];
        (rows.len() - 1, display_width(c.subrange(last.0, last.1)) as int)
    } else {
        let a = rows[row].0;
        let z = rows[row].1;
        let ab = byte_len(c.take(a));
        let zb = byte_len(c.take(z));
        if cb <= ab {
            (row, 0)
        } else if cb < zb || (cb == zb && (row + 1 >= rows.len() || byte_len(c.take(rows[row + 1].0))
            != cb)) {
            (
                row,
                display_width(
                    c.subrange(
                        a,
                        if cb < zb {
                            cc
                        } else {
                            z
                        },
                    ),
                ) as int,
            )
        } else {
            cursor_in_rows(c, rows, cc, row + 1)
        }
    }
}


/// How many leading grapheme clusters fit in `width` columns, counting from
/// cluster `k` with `used` columns already taken.
pub open spec fn fitting_count(gs: Seq<Seq<char>>, k: int, used: int, width: int) -> int
    decreases gs.len() - k,
{
    if k < 0 || k >= gs.len() {
        k
    } else {
        let next = sat_add(used, unit_width(gs[k]));
        if next > width {
            k
        } else {
            fitting_count(gs, k + 1, next, width)
        }
    }
}

/// The longest run of whole leading grapheme clusters of `c` that fits in
/// `width` columns.
pub open spec fn take_width_spec(c: Seq<char>, width: int) -> Seq<char> {
    let gs = extended_graphemes(c);
    c.subrange(0, pos(gs, fitting_count(gs, 0, 0, width)))
}

pub open spec fn ellipsis() -> Seq<char> {
    seq!['.', '.', '.']
}

/// `TextLayout::truncate`: the text itself when it fits (or the width is
/// unbounded), nothing for a zero width, else the leading clusters that fit
/// with room left for an ellipsis, then the ellipsis; when not even the
/// ellipsis fits, just the leading clusters that fit.
pub open spec fn truncated(c: Seq<char>, width: int) -> Seq<char> {
    if width == usize::MAX || display_width(c) <= width {
        c
    } else if width == 0 {
        Seq::empty()
    } else if width <= display_width(ellipsis()) {
        take_width_spec(c, width)
    } else {
        take_width_spec(c, width - display_width(ellipsis())) + ellipsis()
    }
}


/// The priorities in the order they are given room.
pub open spec fn priority_rank(p: int) -> ClipPriority {
    if p == 0 {
        ClipPriority::MustKeep
    } else if p == 1 {
        ClipPriority::Important
    } else if p == 2 {
        ClipPriority::Optional
    } else {
        ClipPriority::DebugOnly
    }
}

/// The texts of the selected pieces, in order.
pub open spec fn selected_texts(segs: Seq<PrioritySegment>, sel: Seq<bool>) -> Seq<Seq<char>>
    decreases segs.len(),
{
    if segs.len() == 0 {
        Seq::empty()
    } else {
        let rest = selected_texts(segs.drop_last(), sel.take(segs.len() - 1));
        if sel[segs.len() - 1] {
            rest.push(segs.last().text@)
        } else {
            rest
        }
    }
}

/// Texts joined with ` | ` between them.
pub open spec fn joined(parts: Seq<Seq<char>>) -> Seq<char>
    decreases parts.len(),
{
    if parts.len() == 0 {
        Seq::empty()
    } else if parts.len() == 1 {
        parts[0]
    } else {
        joined(parts.drop_last()) + " | "@ + parts.last()
    }
}

pub open spec fn joined_selection(segs: Seq<PrioritySegment>, sel: Seq<bool>) -> Seq<char> {
    joined(selected_texts(segs, sel))
}

pub open spec fn any_selected(sel: Seq<bool>) -> bool {
    exists|j: int| 0 <= j < sel.len() && #[trigger] sel[j]
}

/// Where choosing pieces ends: with a selection, or with a lone must-keep
/// piece cut to the width.
pub enum Selection {
    Chosen(Seq<bool>),
    Cut(Seq<char>),
}

/// Chooses pieces priority by priority, each in order: a non-blank piece
/// of the priority at hand joins the line when the line still fits; a
/// must-keep piece that fits with nothing else ends the choice cut to the
/// width.
pub open spec fn select_from(segs: Seq<PrioritySegment>, width: int, p: int, i: int, sel: Seq<bool>) -> Selection
    decreases 4 - p, segs.len() - i,
{
    if p < 0 || p >= 4 {
        Selection::Chosen(sel)
    } else if i < 0 || i >= segs.len() {
        select_from(segs, width, p + 1, 0, sel)
    } else if segs[i].priority != priority_rank(p) || is_blank(segs[i].text@) {
        select_from(segs, width, p, i + 1, sel)
    } else {
        let on = sel.update(i, true);
        if display_width(joined_selection(segs, on)) <= width {
            select_from(segs, width, p, i + 1, on)
        } else {
            let off = sel.update(i, false);
            if p == 0 && !any_selected(off) {
                Selection::Cut(truncated(segs[i].text@, width))
            } else {
                select_from(segs, width, p, i + 1, off)
            }
        }
    }
}

pub open spec fn non_blank_segment<'a>() -> spec_fn(PrioritySegment<'a>) -> bool {
    |s: PrioritySegment<'a>| !is_blank(s.text@)
}

/// `TextLayout::priority_line`: the chosen pieces joined with ` | `; when
/// none was chosen, the first non-blank piece cut to the width.
pub open spec fn priority_line_spec(segs: Seq<PrioritySegment>, width: int) -> Seq<char> {
    if width == 0 {
        Seq::empty()
    } else {
        match select_from(segs, width, 0, 0, Seq::new(segs.len(), |i: int| false)) {
            Selection::Cut(t) => t,
            Selection::Chosen(sel) => {
                let out = joined_selection(segs, sel);
                if out.len() == 0 {
                    let k = first_index(segs, non_blank_segment());
                    if 0 <= k < segs.len() {
                        truncated(segs[k].text@, width)
                    } else {
                        Seq::empty()
                    }
                } else {
                    out
                }
            },
        }
    }
}

/// A laid-out line shows the characters of its row and carries the row's
/// byte range.
pub open spec fn line_shows(line: VisualLine, c: Seq<char>, row: (int, int)) -> bool {
    &&& 0 <= row.0 <= row.1 <= c.len()
    &&& line.text@ == c.subrange(row.0, row.1)
    &&& line.source_range.start == byte_len(c.take(row.0))
    &&& line.source_range.end == byte_len(c.take(row.1))
}

pub open spec fn lines_show(lines: Seq<VisualLine>, c: Seq<char>, rows: Seq<(int, int)>) -> bool {
    &&& lines.len() == rows.len()
    &&& forall|k: int| 0 <= k < rows.len() ==> line_shows(#[trigger] lines[k], c, rows[k])
}


/// A grapheme cluster of a run, with its character range in the source.
struct Unit {
    start: usize,
    end: usize,
    width: usize,
    blank: bool,
    chars: Vec<char>,
}

spec fn units_match(units: Seq<Unit>, gs: Seq<Seq<char>>, base: int) -> bool {
    &&& units.len() == gs.len()
    &&& forall|k: int|
        0 <= k < gs.len() ==> {
            &&& (#[trigger] units[k]).start == base + pos(gs, k)
            &&& units[k].end == base + pos(gs, k + 1)
            &&& units[k].width == display_width(gs[k])
            &&& units[k].blank == is_blank(gs[k])
            &&& units[k].chars@ == gs[k]
        }
}

proof fn lemma_pos_step(gs: Seq<Seq<char>>, k: int)
    requires
        0 <= k < gs.len(),
    ensures
        pos(gs, k + 1) == pos(gs, k) + gs[k].len(),
{
    assert(gs.take(k + 1) =~= gs.take(k).push(gs[k]));
    gs.take(k).lemma_flatten_push(gs[k]);
}

proof fn lemma_pos_mono(gs: Seq<Seq<char>>, i: int, j: int)
    requires
        0 <= i <= j <= gs.len(),
    ensures
        pos(gs, i) <= pos(gs, j),
    decreases j - i,
{
    if i < j {
        lemma_pos_step(gs, j - 1);
        lemma_pos_mono(gs, i, j - 1);
    }
}

proof fn lemma_pos_all(gs: Seq<Seq<char>>)
    ensures
        pos(gs, gs.len() as int) == gs.flatten().len(),
        pos(gs, 0) == 0,
{
    assert(gs.take(gs.len() as int) =~= gs);
    assert(gs.take(0) =~= Seq::<Seq<char>>::empty());
}

/// The clusters of the source characters `start..end`.
fn run_units(chars: &Vec<char>, start: usize, end: usize) -> (units: Vec<Unit>)
    requires
        start < end <= chars@.len(),
    ensures
        units_match(units@, extended_graphemes(chars@.subrange(start as int, end as int)), start as int),
        pos(extended_graphemes(chars@.subrange(start as int, end as int)), units@.len() as int)
            == end - start,
{
    let seg = string_of_range(chars, start, end);
    let found = graphemes_of(seg.as_str());
    let ghost gs = extended_graphemes(chars@.subrange(start as int, end as int));
    proof {
        lemma_pos_all(gs);
    }
    let mut units: Vec<Unit> = Vec::new();
    let mut cur: usize = start;
    let mut k: usize = 0;
    while k < found.len()
        invariant
            string_views(found@) == gs,
            gs.flatten().len() == end - start,
            pos(gs, gs.len() as int) == end - start,
            pos(gs, 0) == 0,
            k <= found@.len(),
            units@.len() == k,
            cur == start + pos(gs, k as int),
            forall|j: int|
                0 <= j < k ==> {
                    &&& (#[trigger] units@[j]).start == start + pos(gs, j)
                    &&& units@[j].end == start + pos(gs, j + 1)
                    &&& units@[j].width == display_width(gs[j])
                    &&& units@[j].blank == is_blank(gs[j])
                    &&& units@[j].chars@ == gs[j]
                },
        decreases found@.len() - k,
    {
        let g = found[k].as_str();
        assert(gs[k as int] == found@[k as int]@);
        let gc = chars_of(g);
        let w = width_of(g);
        let blank = is_blank_chars(&gc);
        proof {
            lemma_pos_step(gs, k as int);
            lemma_pos_mono(gs, k + 1, gs.len() as int);
        }
        let next = cur + gc.len();
        units.push(Unit { start: cur, end: next, width: w, blank, chars: gc });
        cur = next;
        k = k + 1;
    }
    units
}

/// The greedy fill of a row starting at cluster `start`.
fn fit_end_exec(units: &Vec<Unit>, start: usize, width: usize, Ghost(gs): Ghost<Seq<Seq<char>>>, Ghost(base): Ghost<int>) -> (r: usize)
    requires
        units_match(units@, gs, base),
        start < units@.len(),
    ensures
        r == fit_end(gs, start as int, width as int),
        start < r <= units@.len(),
{
    let mut used: usize = 0;
    let mut f: usize = start;
    while f < units.len()
        invariant
            units_match(units@, gs, base),
            start <= f <= units@.len(),
            fit_from(gs, start as int, start as int, 0, width as int) == fit_from(
                gs,
                start as int,
                f as int,
                used as int,
                width as int,
            ),
        decreases units@.len() - f,
    {
        let next = used.saturating_add(units[f].width);
        if f > start && next > width {
            return f;
        }
        if next >= width {
            return f + 1;
        }
        used = next;
        f = f + 1;
    }
    if f < start + 1 {
        start + 1
    } else {
        f
    }
}

fn policy_break_char_exec(c: char, policy: WrapPolicy) -> (r: bool)
    ensures
        r == policy_break_char(c, policy),
{
    match policy {
        WrapPolicy::NaturalText => {
            let n = c as u32;
            (0x21 <= n && n <= 0x2f) || (0x3a <= n && n <= 0x40) || (0x5b <= n && n <= 0x60) || (
            0x7b <= n && n <= 0x7e) || n >= 0x80
        },
        WrapPolicy::UrlAware => c == '/' || c == '?' || c == '&' || c == '=' || c == '#' || c
            == '.' || c == '-' || c == '_',
        WrapPolicy::WindowsPathAware => c == '\\' || c == '/' || c == ':' || c == '.' || c == '-'
            || c == '_' || c == ' ',
        _ => false,
    }
}

fn breaks_after_exec(g: &Vec<char>, blank: bool, policy: WrapPolicy) -> (r: bool)
    requires
        blank == is_blank(g@),
    ensures
        r == breaks_after(g@, policy),
{
    if blank {
        return true;
    }
    if policy == WrapPolicy::BreakLongToken || policy == WrapPolicy::CodeBlock {
        return false;
    }
    let mut j: usize = 0;
    while j < g.len()
        invariant
            j <= g@.len(),
            !is_blank(g@),
            splits_tokens(policy),
            forall|i: int| 0 <= i < j ==> policy_break_char(#[trigger] g@[i], policy),
        decreases g@.len() - j,
    {
        if !policy_break_char_exec(g[j], policy) {
            assert(!policy_break_char(g@[j as int], policy));
            return false;
        }
        j = j + 1;
    }
    true
}

/// Where a row that starts at cluster `start` and fills to `fit` ends.
fn break_end_exec(units: &Vec<Unit>, start: usize, fit: usize, policy: WrapPolicy, Ghost(gs): Ghost<Seq<Seq<char>>>, Ghost(base): Ghost<int>) -> (r: usize)
    requires
        units_match(units@, gs, base),
        start < fit <= units@.len(),
    ensures
        r == break_end(gs, start as int, fit as int, policy),
        start < r <= fit,
{
    if fit < units.len() && policy != WrapPolicy::BreakLongToken && policy != WrapPolicy::CodeBlock {
        let mut e: usize = fit;
        while e > start
            invariant
                units_match(units@, gs, base),
                start <= e <= fit < units@.len(),
                splits_tokens(policy),
                last_break(gs, start as int, fit as int, policy) == last_break(gs, start as int, e as int, policy),
            decreases e - start,
        {
            let u = &units[e - 1];
            assert(units@[e - 1].chars@ == gs[e - 1] && units@[e - 1].blank == is_blank(gs[e - 1]));
            if breaks_after_exec(&u.chars, u.blank, policy) {
                return e;
            }
            e = e - 1;
        }
        fit
    } else {
        fit
    }
}

/// Where the visible part of a row ends once trailing blanks are dropped.
fn display_end_exec(units: &Vec<Unit>, start: usize, b: usize, policy: WrapPolicy, Ghost(gs): Ghost<Seq<Seq<char>>>, Ghost(base): Ghost<int>) -> (r: usize)
    requires
        units_match(units@, gs, base),
        start < b <= units@.len(),
    ensures
        r == display_end(gs, start as int, b as int, policy),
        start < r <= b,
{
    if policy == WrapPolicy::CodeBlock {
        return b;
    }
    let mut d: usize = b;
    while d > start + 1 && units[d - 1].blank
        invariant
            units_match(units@, gs, base),
            start < d <= b <= units@.len(),
            trim_blank_end(gs, start as int, b as int) == trim_blank_end(gs, start as int, d as int),
        decreases d - start,
    {
        d = d - 1;
    }
    d
}


proof fn lemma_shift_cons(x: (int, int), rest: Seq<(int, int)>, base: int)
    ensures
        shifted(seq![x] + rest, base) == seq![(base + x.0, base + x.1)] + shifted(rest, base),
{
    assert(shifted(seq![x] + rest, base) =~= seq![(base + x.0, base + x.1)] + shifted(rest, base));
}

/// Lays out the source characters `start..end` and appends their lines.
fn wrap_run(
    chars: &Vec<char>,
    offs: &Vec<usize>,
    start: usize,
    end: usize,
    width: usize,
    policy: WrapPolicy,
    lines: &mut Vec<VisualLine>,
    Ghost(done): Ghost<Seq<(int, int)>>,
)
    requires
        start <= end <= chars@.len(),
        offs@.len() == chars@.len() + 1,
        forall|k: int| 0 <= k <= chars@.len() ==> #[trigger] offs@[k] == byte_len(chars@.take(k)),
        lines_show(old(lines)@, chars@, done),
    ensures
        lines_show(
            final(lines)@,
            chars@,
            done + run_rows(chars@, start as int, end as int, width as int, policy),
        ),
{
    if start >= end {
        let line = VisualLine {
            text: String::new(),
            source_range: Range { start: offs[start], end: offs[start] },
        };
        lines.push(line);
        proof {
            let row = (start as int, start as int);
            assert(chars@.subrange(start as int, start as int) =~= Seq::<char>::empty());
            assert(line_shows(lines@[lines@.len() - 1], chars@, row));
            assert(done + seq![row] =~= done.push(row));
            assert forall|k: int| 0 <= k < done.push(row).len() implies line_shows(
                #[trigger] lines@[k],
                chars@,
                done.push(row)[k],
            ) by {
                if k < done.len() {
                    assert(lines@[k] == old(lines)@[k]);
                }
            }
        }
        return;
    }
    let units = run_units(chars, start, end);
    let ghost gs = extended_graphemes(chars@.subrange(start as int, end as int));
    let ghost mut emitted = done;
    let mut i: usize = 0;
    while i < units.len()
        invariant
            units_match(units@, gs, start as int),
            pos(gs, units@.len() as int) == end - start,
            start < end <= chars@.len(),
            offs@.len() == chars@.len() + 1,
            forall|k: int|
                0 <= k <= chars@.len() ==> #[trigger] offs@[k] == byte_len(chars@.take(k)),
            i <= units@.len(),
            lines_show(lines@, chars@, emitted),
            done + shifted(segment_rows(gs, 0, width as int, policy), start as int) == emitted
                + shifted(segment_rows(gs, i as int, width as int, policy), start as int),
        decreases units@.len() - i,
    {
        if policy != WrapPolicy::CodeBlock && units[i].blank {
            assert(units@[i as int].blank == is_blank(gs[i as int]));
            i = i + 1;
        } else {
            assert(units@[i as int].blank == is_blank(gs[i as int]));
            let fit = fit_end_exec(&units, i, width, Ghost(gs), Ghost(start as int));
            let b = break_end_exec(&units, i, fit, policy, Ghost(gs), Ghost(start as int));
            let d = display_end_exec(&units, i, b, policy, Ghost(gs), Ghost(start as int));
            let a = units[i].start;
            let z = units[d - 1].end;
            proof {
                assert(units@[i as int].start == start + pos(gs, i as int));
                assert(units@[d - 1].end == start + pos(gs, d as int));
                lemma_pos_mono(gs, i as int, d as int);
                lemma_pos_mono(gs, d as int, gs.len() as int);
                lemma_pos_mono(gs, 0, i as int);
                lemma_pos_all(gs);
            }
            let line = VisualLine {
                text: string_of_range(chars, a, z),
                source_range: Range { start: offs[a], end: offs[z] },
            };
            lines.push(line);
            let next = if b > i + 1 {
                b
            } else {
                i + 1
            };
            proof {
                let row = (a as int, z as int);
                let x = (pos(gs, i as int), pos(gs, d as int));
                let rest = segment_rows(gs, next as int, width as int, policy);
                assert(segment_rows(gs, i as int, width as int, policy) == seq![x] + rest);
                lemma_shift_cons(x, rest, start as int);
                assert(line_shows(lines@[lines@.len() - 1], chars@, row));
                assert forall|k: int| 0 <= k < emitted.push(row).len() implies line_shows(
                    #[trigger] lines@[k],
                    chars@,
                    emitted.push(row)[k],
                ) by {
                }
                assert(emitted + (seq![row] + shifted(rest, start as int)) =~= emitted.push(row)
                    + shifted(rest, start as int));
                emitted = emitted.push(row);
            }
            i = next;
        }
    }
    proof {
        assert(shifted(segment_rows(gs, i as int, width as int, policy), start as int) =~= Seq::<
            (int, int),
        >::empty());
        assert(emitted + Seq::<(int, int)>::empty() =~= emitted);
    }
}


proof fn lemma_newline_skip(c: Seq<char>, i: int, k: int)
    requires
        0 <= i <= k <= c.len(),
        forall|j: int| i <= j < k ==> c[j] != '\n',
    ensures
        newline_from(c, i) == newline_from(c, k),
    decreases k - i,
{
    if i < k {
        lemma_newline_skip(c, i + 1, k);
    }
}

impl TextLayout {
    /// Display width of a text in terminal columns.
    pub fn measure(value: &str) -> (r: usize)
        ensures
            r == display_width(value@),
    {
        width_of(value)
    }

    /// Lays a text out in rows of at most `width` columns.  Each line of the
    /// text is wrapped on its own; rows hold whole grapheme clusters, break
    /// after the policy's separators where one fits, and (outside code
    /// blocks) neither start nor end with blank clusters.
    pub fn wrap(value: &str, width: usize, policy: WrapPolicy) -> (lines: Vec<VisualLine>)
        requires
            byte_len(value@) <= usize::MAX,
        ensures
            lines_show(lines@, value@, layout_rows(value@, width as int, policy)),
            lines@.len() >= 1,
    {
        let w: usize = if width < 1 {
            1
        } else {
            width
        };
        let chars = chars_of(value);
        let offs = byte_offsets(&chars);
        let mut lines: Vec<VisualLine> = Vec::new();
        let ghost c = chars@;
        let ghost mut done: Seq<(int, int)> = Seq::empty();
        proof {
            assert(done + wrap_rows(c, 0, w as int, policy) =~= wrap_rows(c, 0, w as int, policy));
        }
        let mut start: usize = 0;
        let mut k: usize = 0;
        while k < chars.len()
            invariant
                c == chars@,
                start <= k <= chars@.len(),
                offs@.len() == chars@.len() + 1,
                forall|j: int|
                    0 <= j <= chars@.len() ==> #[trigger] offs@[j] == byte_len(chars@.take(j)),
                lines_show(lines@, c, done),
                wrap_rows(c, 0, w as int, policy) == done + wrap_rows(c, start as int, w as int, policy),
                forall|j: int| start <= j < k ==> c[j] != '\n',
            decreases chars@.len() - k,
        {
            if chars[k] == '\n' {
                let end = if k > start && chars[k - 1] == '\r' {
                    k - 1
                } else {
                    k
                };
                proof {
                    lemma_newline_skip(c, start as int, k as int);
                }
                wrap_run(&chars, &offs, start, end, w, policy, &mut lines, Ghost(done));
                proof {
                    let run = run_rows(c, start as int, end as int, w as int, policy);
                    let rest = wrap_rows(c, k + 1, w as int, policy);
                    assert(wrap_rows(c, start as int, w as int, policy) == run + rest);
                    assert(done + (run + rest) =~= (done + run) + rest);
                    done = done + run;
                }
                start = k + 1;
            }
            k = k + 1;
        }
        proof {
            lemma_newline_skip(c, start as int, chars@.len() as int);
        }
        let n = chars.len();
        wrap_run(&chars, &offs, start, n, w, policy, &mut lines, Ghost(done));
        if lines.len() == 0 {
            let line = VisualLine {
                text: String::new(),
                source_range: Range { start: offs[0], end: offs[0] },
            };
            lines.push(line);
            proof {
                assert(c.subrange(0, 0) =~= Seq::<char>::empty());
                assert(c.take(0) =~= Seq::<char>::empty());
                assert(line_shows(lines@[0], c, (0, 0)));
            }
        }
        lines
    }
}


proof fn lemma_byte_len_strict(c: Seq<char>, i: int, j: int)
    requires
        0 <= i < j <= c.len(),
    ensures
        byte_len(c.take(i)) < byte_len(c.take(j)),
    decreases j - i,
{
    lemma_byte_len_step(c, j - 1);
    assert(encode_scalar(c[j - 1] as u32).len() >= 1);
    if i < j - 1 {
        lemma_byte_len_strict(c, i, j - 1);
    }
}

proof fn lemma_byte_len_mono(c: Seq<char>, i: int, j: int)
    requires
        0 <= i <= j <= c.len(),
    ensures
        byte_len(c.take(i)) <= byte_len(c.take(j)),
{
    if i < j {
        lemma_byte_len_strict(c, i, j);
    }
}

/// The character position whose byte offset is `b`.
fn char_at_byte(offs: &Vec<usize>, b: usize, Ghost(c): Ghost<Seq<char>>, Ghost(j): Ghost<int>) -> (r: usize)
    requires
        offs@.len() == c.len() + 1,
        forall|k: int| 0 <= k <= c.len() ==> #[trigger] offs@[k] == byte_len(c.take(k)),
        0 <= j <= c.len(),
        b == byte_len(c.take(j)),
    ensures
        r == j,
{
    let mut k: usize = 0;
    while k < offs.len() && offs[k] != b
        invariant
            offs@.len() == c.len() + 1,
            forall|i: int| 0 <= i <= c.len() ==> #[trigger] offs@[i] == byte_len(c.take(i)),
            0 <= j <= c.len(),
            b == byte_len(c.take(j)),
            k <= j,
        decreases offs@.len() - k,
    {
        proof {
            if k == j {
                assert(offs@[k as int] == b);
            }
        }
        k = k + 1;
    }
    proof {
        if k < j {
            lemma_byte_len_strict(c, k as int, j);
        } else if k > j {
            assert(false);
        }
    }
    k
}

/// The character position of a byte cursor moved back onto a grapheme
/// cluster boundary.
fn clamp_to_grapheme_boundary(chars: &Vec<char>, offs: &Vec<usize>, byte_index: usize) -> (cc: usize)
    requires
        offs@.len() == chars@.len() + 1,
        forall|k: int| 0 <= k <= chars@.len() ==> #[trigger] offs@[k] == byte_len(chars@.take(k)),
    ensures
        cc == clamped_char(chars@, byte_index as int),
        cc <= chars@.len(),
{
    let n = chars.len();
    let total = offs[n];
    proof {
        assert(chars@.take(n as int) =~= chars@);
    }
    let cur = if byte_index < total {
        byte_index
    } else {
        total
    };
    if cur == total {
        return n;
    }
    proof {
        if n == 0 {
            assert(chars@.take(0) =~= Seq::<char>::empty());
        }
    }
    let units = run_units(chars, 0, n);
    let ghost c = chars@;
    let ghost gs = extended_graphemes(c);
    proof {
        assert(c.subrange(0, n as int) =~= c);
        lemma_pos_all(gs);
    }
    let mut k: usize = units.len();
    while k > 0
        invariant
            c == chars@,
            units_match(units@, gs, 0),
            pos(gs, gs.len() as int) == n,
            n == chars@.len(),
            offs@.len() == chars@.len() + 1,
            forall|i: int| 0 <= i <= chars@.len() ==> #[trigger] offs@[i] == byte_len(chars@.take(i)),
            k <= units@.len(),
            gs == extended_graphemes(c),
            total == byte_len(c),
            cur < total,
            cur == (if byte_index < total {
                byte_index
            } else {
                total
            }),
            floor_start(gs, c, gs.len() as int, cur as int) == floor_start(gs, c, k as int, cur as int),
        decreases k,
    {
        let s = units[k - 1].start;
        proof {
            assert(units@[k - 1].start == pos(gs, k - 1));
            lemma_pos_mono(gs, k - 1, gs.len() as int);
        }
        if offs[s] <= cur {
            return s;
        }
        k = k - 1;
    }
    0
}

impl TextLayout {
    /// Screen position of the cursor at byte `byte_index` of `value` once it
    /// is laid out with `TextLayout::wrap`.  A cursor inside a grapheme
    /// cluster moves back to its start; the column is the display width of
    /// the row's text before the cursor.
    pub fn cursor_position(value: &str, byte_index: usize, width: usize, policy: WrapPolicy) -> (r:
        VisualCursor)
        requires
            byte_len(value@) <= usize::MAX,
        ensures
            (r.row as int, r.column as int) == cursor_in_rows(
                value@,
                layout_rows(value@, width as int, policy),
                clamped_char(value@, byte_index as int),
                0,
            ),
    {
        let chars = chars_of(value);
        let offs = byte_offsets(&chars);
        let cc = clamp_to_grapheme_boundary(&chars, &offs, byte_index);
        let cb = offs[cc];
        let lines = Self::wrap(value, width, policy);
        let ghost c = chars@;
        let ghost rows = layout_rows(c, width as int, policy);
        let mut row: usize = 0;
        while row < lines.len()
            invariant
                c == chars@,
                c == value@,
                offs@.len() == c.len() + 1,
                forall|i: int| 0 <= i <= c.len() ==> #[trigger] offs@[i] == byte_len(c.take(i)),
                cc <= c.len(),
                cc == clamped_char(c, byte_index as int),
                rows == layout_rows(c, width as int, policy),
                cb == byte_len(c.take(cc as int)),
                lines_show(lines@, c, rows),
                lines@.len() >= 1,
                row <= lines@.len(),
                cursor_in_rows(c, rows, cc as int, 0) == cursor_in_rows(c, rows, cc as int, row as int),
            decreases lines@.len() - row,
        {
            let ab = lines[row].source_range.start;
            let zb = lines[row].source_range.end;
            assert(line_shows(lines@[row as int], c, rows[row as int]));
            if cb <= ab {
                return VisualCursor { row, column: 0 };
            }
            let next_differs = row + 1 >= lines.len() || lines[row + 1].source_range.start != cb;
            proof {
                if row + 1 < lines@.len() {
                    assert(line_shows(lines@[row + 1], c, rows[row + 1]));
                }
            }
            if cb < zb || (cb == zb && next_differs) {
                let column = if cb < zb {
                    let ghost a = rows[row as int].0;
                    let start = char_at_byte(&offs, ab, Ghost(c), Ghost(a));
                    proof {
                        if cc as int <= a {
                            lemma_byte_len_mono(c, cc as int, a);
                        }
                    }
                    let prefix = string_of_range(&chars, start, cc);
                    Self::measure(prefix.as_str())
                } else {
                    Self::measure(lines[row].text.as_str())
                };
                return VisualCursor { row, column };
            }
            row = row + 1;
        }
        let last = lines.len() - 1;
        assert(line_shows(lines@[last as int], c, rows[last as int]));
        VisualCursor { row: last, column: Self::measure(lines[last].text.as_str()) }
    }
}


proof fn lemma_fitting_count_bounds(gs: Seq<Seq<char>>, k: int, used: int, width: int)
    requires
        0 <= k <= gs.len(),
    ensures
        k <= fitting_count(gs, k, used, width) <= gs.len(),
    decreases gs.len() - k,
{
    if k < gs.len() {
        let next = sat_add(used, unit_width(gs[k]));
        if next <= width {
            lemma_fitting_count_bounds(gs, k + 1, next, width);
        }
    }
}

/// The longest run of whole leading grapheme clusters that fits in `width`
/// columns.
fn take_width(value: &str, width: usize) -> (out: String)
    ensures
        out@ == take_width_spec(value@, width as int),
{
    let chars = chars_of(value);
    let n = chars.len();
    if n == 0 {
        let _found = graphemes_of(value);
        proof {
            let gs = extended_graphemes(value@);
            lemma_pos_all(gs);
            let k = fitting_count(gs, 0, 0, width as int);
            lemma_fitting_count_bounds(gs, 0, 0, width as int);
            lemma_pos_mono(gs, 0, k);
            lemma_pos_mono(gs, k, gs.len() as int);
            assert(value@.subrange(0, 0) =~= Seq::<char>::empty());
        }
        return String::new();
    }
    let units = run_units(&chars, 0, n);
    let ghost c = chars@;
    let ghost gs = extended_graphemes(c);
    proof {
        assert(c.subrange(0, n as int) =~= c);
        lemma_pos_all(gs);
    }
    let mut used: usize = 0;
    let mut k: usize = 0;
    let mut full = false;
    while k < units.len() && !full
        invariant
            c == chars@,
            gs == extended_graphemes(c),
            units_match(units@, gs, 0),
            k <= units@.len(),
            fitting_count(gs, 0, 0, width as int) == if full {
                k as int
            } else {
                fitting_count(gs, k as int, used as int, width as int)
            },
        decreases units@.len() - k + if full {
            0int
        } else {
            1
        },
    {
        let next = used.saturating_add(units[k].width);
        assert(units@[k as int].width == display_width(gs[k as int]));
        if next > width {
            full = true;
        } else {
            used = next;
            k = k + 1;
        }
    }
    let end = if k == 0 {
        0
    } else {
        units[k - 1].end
    };
    proof {
        lemma_pos_all(gs);
        if k > 0 {
            assert(units@[k - 1].end == pos(gs, k as int));
        }
        lemma_pos_mono(gs, k as int, gs.len() as int);
    }
    string_of_range(&chars, 0, end)
}


impl TextLayout {
    /// Shortens a text to `width` columns, ending it with an ellipsis when
    /// there is room for one.
    pub fn truncate(value: &str, width: usize) -> (out: String)
        ensures
            out@ == truncated(value@, width as int),
    {
        if width == usize::MAX || Self::measure(value) <= width {
            return owned(value);
        }
        if width == 0 {
            return String::new();
        }
        let mark = "...";
        proof {
            reveal_strlit("...");
            assert(mark@ =~= ellipsis());
        }
        let mark_width = Self::measure(mark);
        if width <= mark_width {
            return take_width(value, width);
        }
        let mut output = take_width(value, width - mark_width);
        push_str(&mut output, mark);
        output
    }
}


/// The selected pieces joined with ` | `.
fn join_selected(segments: &[PrioritySegment], selected: &Vec<bool>) -> (out: String)
    requires
        selected@.len() == segments@.len(),
    ensures
        out@ == joined_selection(segments@, selected@),
{
    let ghost segs = segments@;
    let ghost sel = selected@;
    let mut out = String::new();
    let mut count: usize = 0;
    let mut k: usize = 0;
    proof {
        assert(segs.take(0) =~= Seq::<PrioritySegment>::empty());
    }
    while k < segments.len()
        invariant
            segs == segments@,
            sel == selected@,
            sel.len() == segs.len(),
            k <= segs.len(),
            count <= k,
            count == selected_texts(segs.take(k as int), sel.take(k as int)).len(),
            out@ == joined(selected_texts(segs.take(k as int), sel.take(k as int))),
        decreases segs.len() - k,
    {
        let ghost before = selected_texts(segs.take(k as int), sel.take(k as int));
        proof {
            assert(segs.take(k + 1).drop_last() =~= segs.take(k as int));
            assert(sel.take(k + 1).take(k as int) =~= sel.take(k as int));
            assert(segs.take(k + 1).last() == segs[k as int]);
        }
        if selected[k] {
            if count > 0 {
                push_str(&mut out, " | ");
            }
            push_str(&mut out, segments[k].text);
            proof {
                let now = before.push(segs[k as int].text@);
                assert(selected_texts(segs.take(k + 1), sel.take(k + 1)) == now);
                if before.len() == 0 {
                    assert(joined(now) == now[0]);
                    assert(out@ =~= now[0]);
                } else {
                    assert(now.drop_last() =~= before);
                    assert(out@ =~= joined(before) + " | "@ + now.last());
                }
            }
            count = count + 1;
        }
        k = k + 1;
    }
    proof {
        assert(segs.take(k as int) =~= segs);
        assert(sel.take(k as int) =~= sel);
    }
    out
}

fn any_selected_exec(selected: &Vec<bool>) -> (r: bool)
    ensures
        r == any_selected(selected@),
{
    let mut j: usize = 0;
    while j < selected.len()
        invariant
            j <= selected@.len(),
            forall|m: int| 0 <= m < j ==> !(#[trigger] selected@[m]),
        decreases selected@.len() - j,
    {
        if selected[j] {
            return true;
        }
        j = j + 1;
    }
    false
}

impl TextLayout {
    /// A status line of at most `width` columns made of the pieces that fit,
    /// giving room to must-keep pieces first, then important, optional and
    /// debug pieces.
    pub fn priority_line(segments: &[PrioritySegment], width: usize) -> (out: String)
        ensures
            out@ == priority_line_spec(segments@, width as int),
    {
        if width == 0 {
            return String::new();
        }
        let ghost segs = segments@;
        let n = segments.len();
        let mut selected: Vec<bool> = Vec::new();
        let mut z: usize = 0;
        while z < n
            invariant
                z <= n,
                n == segs.len(),
                selected@ == Seq::new(z as nat, |i: int| false),
            decreases n - z,
        {
            selected.push(false);
            z = z + 1;
            assert(selected@ =~= Seq::new(z as nat, |i: int| false));
        }
        let ghost start = selected@;
        assert(start =~= Seq::new(segs.len(), |i: int| false));
        let order = [
            ClipPriority::MustKeep,
            ClipPriority::Important,
            ClipPriority::Optional,
            ClipPriority::DebugOnly,
        ];
        let mut p: usize = 0;
        while p < 4
            invariant
                segs == segments@,
                n == segs.len(),
                p <= 4,
                width > 0,
                start == Seq::new(segs.len(), |i: int| false),
                selected@.len() == n,
                order@ == seq![
                    ClipPriority::MustKeep,
                    ClipPriority::Important,
                    ClipPriority::Optional,
                    ClipPriority::DebugOnly,
                ],
                select_from(segs, width as int, 0, 0, start) == select_from(
                    segs,
                    width as int,
                    p as int,
                    0,
                    selected@,
                ),
            decreases 4 - p,
        {
            let priority = order[p];
            let mut index: usize = 0;
            while index < n
                invariant
                    segs == segments@,
                    n == segs.len(),
                    p < 4,
                    width > 0,
                    start == Seq::new(segs.len(), |i: int| false),
                    index <= n,
                    selected@.len() == n,
                    priority == priority_rank(p as int),
                    select_from(segs, width as int, 0, 0, start) == select_from(
                        segs,
                        width as int,
                        p as int,
                        index as int,
                        selected@,
                    ),
                decreases n - index,
            {
                let segment = segments[index];
                assert(segment == segs[index as int]);
                if segment.priority == priority && !is_blank_str(segment.text) {
                    let ghost sel0 = selected@;
                    selected.set(index, true);
                    let line = join_selected(segments, &selected);
                    if Self::measure(line.as_str()) > width {
                        selected.set(index, false);
                        assert(selected@ =~= sel0.update(index as int, false));
                        if p == 0 && !any_selected_exec(&selected) {
                            return Self::truncate(segment.text, width);
                        }
                    }
                }
                index = index + 1;
            }
            p = p + 1;
        }
        let output = join_selected(segments, &selected);
        let ghost chosen = selected@;
        assert(select_from(segs, width as int, 0, 0, start) == Selection::Chosen(chosen));
        if output.as_str().is_empty() {
            let mut k: usize = 0;
            while k < n
                invariant
                    segs == segments@,
                    n == segs.len(),
                    width > 0,
                    start =~= Seq::new(segs.len(), |i: int| false),
                    select_from(segs, width as int, 0, 0, start) == Selection::Chosen(chosen),
                    joined_selection(segs, chosen).len() == 0,
                    k <= n,
                    forall|m: int| 0 <= m < k ==> !(non_blank_segment())(#[trigger] segs[m]),
                decreases n - k,
            {
                if !is_blank_str(segments[k].text) {
                    proof {
                        lemma_first_index_at(segs, non_blank_segment(), k as int);
                    }
                    return Self::truncate(segments[k].text, width);
                }
                k = k + 1;
            }
            proof {
                lemma_first_index_none(segs, non_blank_segment());
            }
            return String::new();
        }
        output
    }
}

/// Number of bytes in the UTF-8 encoding of a text.
pub open spec fn byte_len(s: Seq<char>) -> nat {
    encode_utf8(s).len()
}

pub proof fn lemma_encode_concat(a: Seq<char>, b: Seq<char>)
    ensures
        encode_utf8(a + b) == encode_utf8(a) + encode_utf8(b),
    decreases a.len(),
{
    if a.len() == 0 {
        assert(a + b =~= b);
        assert(encode_utf8(a) =~= Seq::<u8>::empty());
        assert(encode_utf8(a) + encode_utf8(b) =~= encode_utf8(b));
    } else {
        assert((a + b).drop_first() =~= a.drop_first() + b);
        assert((a + b)[0] == a[0]);
        lemma_encode_concat(a.drop_first(), b);
        assert(encode_utf8(a + b) =~= encode_scalar(a[0] as u32) + (encode_utf8(a.drop_first())
            + encode_utf8(b)));
    }
}

proof fn lemma_byte_len_step(s: Seq<char>, k: int)
    requires
        0 <= k < s.len(),
    ensures
        byte_len(s.take(k + 1)) == byte_len(s.take(k)) + encode_scalar(s[k] as u32).len(),
        byte_len(s.take(k + 1)) <= byte_len(s),
{
    assert(s.take(k + 1) =~= s.take(k) + seq![s[k]]);
    lemma_encode_concat(s.take(k), seq![s[k]]);
    assert(seq![s[k]].drop_first() =~= Seq::<char>::empty());
    assert(encode_utf8(seq![s[k]]) =~= encode_scalar(s[k] as u32) + encode_utf8(
        Seq::<char>::empty(),
    ));
    assert(encode_utf8(seq![s[k]]) =~= encode_scalar(s[k] as u32));
    assert(s =~= s.take(k + 1) + s.skip(k + 1));
    lemma_encode_concat(s.take(k + 1), s.skip(k + 1));
}

/// Number of bytes that UTF-8 uses for a character.
fn char_byte_len(c: char) -> (n: usize)
    ensures
        n == encode_scalar(c as u32).len(),
{
    let u = c as u32;
    if u <= 0x7f {
        1
    } else if u <= 0x7ff {
        2
    } else if u <= 0xffff {
        proof {
            vstd::utf8::char_is_scalar(c);
        }
        3
    } else {
        4
    }
}

/// Byte offset in the UTF-8 encoding of each character position.
fn byte_offsets(chars: &Vec<char>) -> (offs: Vec<usize>)
    requires
        byte_len(chars@) <= usize::MAX,
    ensures
        offs@.len() == chars@.len() + 1,
        forall|k: int| 0 <= k <= chars@.len() ==> #[trigger] offs@[k] == byte_len(chars@.take(k)),
{
    let mut offs: Vec<usize> = Vec::new();
    let mut acc: usize = 0;
    offs.push(0);
    proof {
        assert(chars@.take(0) =~= Seq::<char>::empty());
    }
    let mut k: usize = 0;
    while k < chars.len()
        invariant
            k <= chars@.len(),
            byte_len(chars@) <= usize::MAX,
            offs@.len() == k + 1,
            acc == byte_len(chars@.take(k as int)),
            forall|j: int| 0 <= j <= k ==> #[trigger] offs@[j] == byte_len(chars@.take(j)),
        decreases chars@.len() - k,
    {
        proof {
            lemma_byte_len_step(chars@, k as int);
        }
        let n = char_byte_len(chars[k]);
        acc = acc + n;
        offs.push(acc);
        k = k + 1;
    }
    offs
}

proof fn lemma_last_break_range(gs: Seq<Seq<char>>, start: int, e: int, policy: WrapPolicy)
    ensures
        last_break(gs, start, e, policy) matches Some(x) ==> start < x <= e,
    decreases e - start,
{
    if e > start && !breaks_after(gs[e - 1], policy) {
        lemma_last_break_range(gs, start, e - 1, policy);
    }
}

proof fn lemma_trim_blank_end_range(gs: Seq<Seq<char>>, start: int, d: int)
    requires
        start < d,
    ensures
        start < trim_blank_end(gs, start, d) <= d,
    decreases d - start,
{
    if d > start + 1 && is_blank(gs[d - 1]) {
        lemma_trim_blank_end_range(gs, start, d - 1);
    }
}

/// A row that starts at cluster `i` ends after at least one cluster and no
/// later than the end of the run.
proof fn lemma_row_end_range(gs: Seq<Seq<char>>, i: int, width: int, policy: WrapPolicy)
    requires
        0 <= i < gs.len(),
    ensures
        ({
            let b = break_end(gs, i, fit_end(gs, i, width), policy);
            let d = display_end(gs, i, b, policy);
            i < d <= b <= gs.len()
        }),
{
    let fit = fit_end(gs, i, width);
    lemma_last_break_range(gs, i, fit, policy);
    let b = break_end(gs, i, fit, policy);
    lemma_trim_blank_end_range(gs, i, b);
}

/// A row that starts and ends between clusters and holds at least one.
pub open spec fn whole_clusters(gs: Seq<Seq<char>>, row: (int, int)) -> bool {
    exists|a: int, b: int|
        #![trigger pos(gs, a), pos(gs, b)]
        0 <= a < b <= gs.len() && row == (pos(gs, a), pos(gs, b))
}

/// Every row that a run of grapheme clusters is laid out in holds whole
/// clusters, at least one: it starts and ends between clusters of the run,
/// so no cluster (an emoji sequence, a letter with its combining marks) is
/// ever split across rows.
pub proof fn lemma_rows_hold_whole_clusters(
    gs: Seq<Seq<char>>,
    i: int,
    width: int,
    policy: WrapPolicy,
)
    ensures
        forall|r: int|
            0 <= r < segment_rows(gs, i, width, policy).len() ==> whole_clusters(
                gs,
                #[trigger] segment_rows(gs, i, width, policy)[r],
            ),
    decreases gs.len() - i,
{
    if 0 <= i < gs.len() {
        if policy != WrapPolicy::CodeBlock && is_blank(gs[i]) {
            lemma_rows_hold_whole_clusters(gs, i + 1, width, policy);
            assert(segment_rows(gs, i, width, policy) == segment_rows(gs, i + 1, width, policy));
        } else {
            let fit = fit_end(gs, i, width);
            let b = break_end(gs, i, fit, policy);
            let d = display_end(gs, i, b, policy);
            lemma_row_end_range(gs, i, width, policy);
            let next = if b > i + 1 {
                b
            } else {
                i + 1
            };
            let next = if next > gs.len() {
                gs.len() as int
            } else {
                next
            };
            lemma_rows_hold_whole_clusters(gs, next, width, policy);
            let rows = segment_rows(gs, i, width, policy);
            let rest = segment_rows(gs, next, width, policy);
            assert(rows == seq![(pos(gs, i), pos(gs, d))] + rest);
            assert forall|r: int| 0 <= r < rows.len() implies whole_clusters(gs, #[trigger] rows[r]) by {
                if r == 0 {
                    assert(rows[0] == (pos(gs, i), pos(gs, d)));
                    assert(whole_clusters(gs, (pos(gs, i), pos(gs, d))));
                } else {
                    assert(rows[r] == rest[r - 1]);
                }
            }
        }
    }
}

/// The rows of a line of the text (its characters `start..end`) each hold
/// whole grapheme clusters of that line.
pub proof fn lemma_line_rows_hold_whole_clusters(
    c: Seq<char>,
    start: int,
    end: int,
    width: int,
    policy: WrapPolicy,
)
    requires
        0 <= start < end <= c.len(),
    ensures
        forall|r: int|
            0 <= r < run_rows(c, start, end, width, policy).len() ==> whole_clusters(
                extended_graphemes(c.subrange(start, end)),
                (#[trigger] run_rows(c, start, end, width, policy)[r].0 - start,
                run_rows(c, start, end, width, policy)[r].1 - start),
            ),
{
    let gs = extended_graphemes(c.subrange(start, end));
    let seg = segment_rows(gs, 0, width, policy);
    lemma_rows_hold_whole_clusters(gs, 0, width, policy);
    let rows = run_rows(c, start, end, width, policy);
    assert forall|r: int| 0 <= r < rows.len() implies whole_clusters(
        gs,
        (#[trigger] rows[r].0 - start, rows[r].1 - start),
    ) by {
        assert(rows[r] == (start + seg[r].0, start + seg[r].1));
        assert((rows[r].0 - start, rows[r].1 - start) == seg[r]);
    }
}

} // verus!
