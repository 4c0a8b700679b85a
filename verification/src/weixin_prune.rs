use vstd::prelude::*;
use crate::weixin_snapshot::{SnapshotView, WeixinStateSnapshot};
use crate::weixin_types::{
    WeixinInboundReceiptRecord, WeixinLatencyTraceRecord, WEIXIN_LATENCY_TRACE_LIMIT,
    WEIXIN_TERMINAL_RECEIPT_LIMIT, WEIXIN_TERMINAL_RECEIPT_TTL_MILLIS,
};

verus! {

/// The elements satisfying `p`, in order.
pub open spec fn keep<T>(s: Seq<T>, p: spec_fn(T) -> bool) -> Seq<T>
    decreases s.len(),
{
    if s.len() == 0 {
        s
    } else {
        let k = keep(s.drop_last(), p);
        if p(s.last()) {
            k.push(s.last())
        } else {
            k
        }
    }
}

/// A receipt is kept while it is not terminal or has been terminal for at
/// most the retention period.
pub open spec fn fresh_receipt(now: u64) -> spec_fn(WeixinInboundReceiptRecord) -> bool {
    |r: WeixinInboundReceiptRecord|
        !r.state.terminal() || (if now >= r.transitioned_at_millis {
            (now - r.transitioned_at_millis) as u64
        } else {
            0u64
        }) <= WEIXIN_TERMINAL_RECEIPT_TTL_MILLIS
}

pub open spec fn terminal_receipt() -> spec_fn(WeixinInboundReceiptRecord) -> bool {
    |r: WeixinInboundReceiptRecord| r.state.terminal()
}

/// `s` without its first `n` terminal receipts.
pub open spec fn drop_terminal(s: Seq<WeixinInboundReceiptRecord>, n: nat) -> Seq<
    WeixinInboundReceiptRecord,
>
    decreases s.len(),
{
    if s.len() == 0 {
        s
    } else if n > 0 && s[0].state.terminal() {
        drop_terminal(s.drop_first(), (n - 1) as nat)
    } else {
        seq![s[0]] + drop_terminal(s.drop_first(), n)
    }
}

/// Receipts after pruning: expired terminal receipts go, then the oldest
/// terminal receipts go until at most the limit of them remain.
pub open spec fn pruned_receipts(s: Seq<WeixinInboundReceiptRecord>, now: u64) -> Seq<
    WeixinInboundReceiptRecord,
> {
    let kept = keep(s, fresh_receipt(now));
    let terminal = crate::seqs::count(kept, terminal_receipt());
    if terminal <= WEIXIN_TERMINAL_RECEIPT_LIMIT {
        kept
    } else {
        drop_terminal(kept, (terminal - WEIXIN_TERMINAL_RECEIPT_LIMIT) as nat)
    }
}

proof fn lemma_keep_holds<T>(s: Seq<T>, p: spec_fn(T) -> bool, x: T)
    requires
        s.contains(x),
        p(x),
    ensures
        keep(s, p).contains(x),
    decreases s.len(),
{
    if s.last() == x {
        assert(keep(s, p).last() == x);
    } else {
        let i = choose|i: int| 0 <= i < s.len() && s[i] == x;
        assert(s.drop_last()[i] == x);
        lemma_keep_holds(s.drop_last(), p, x);
        let k = keep(s.drop_last(), p);
        let j = choose|j: int| 0 <= j < k.len() && k[j] == x;
        if p(s.last()) {
            assert(k.push(s.last())[j] == x);
        }
    }
}

proof fn lemma_keep_count<T>(s: Seq<T>, p: spec_fn(T) -> bool, q: spec_fn(T) -> bool)
    ensures
        crate::seqs::count(keep(s, p), q) <= crate::seqs::count(s, q),
    decreases s.len(),
{
    if s.len() > 0 {
        lemma_keep_count(s.drop_last(), p, q);
        if p(s.last()) {
            crate::seqs::lemma_count_push(keep(s.drop_last(), p), q, s.last());
        }
    }
}

/// Pruning keeps every receipt that is not terminal and every terminal
/// receipt no older than the retention period (its age counted from when
/// it became terminal, as zero when that lies ahead), as long as there are
/// at most the limit of terminal receipts.
pub proof fn lemma_pruning_keeps_recent_receipts(
    s: Seq<WeixinInboundReceiptRecord>,
    now: u64,
    r: WeixinInboundReceiptRecord,
)
    requires
        s.contains(r),
        crate::seqs::count(s, terminal_receipt()) <= WEIXIN_TERMINAL_RECEIPT_LIMIT,
        !r.state.terminal() || r.transitioned_at_millis >= now || now - r.transitioned_at_millis
            <= WEIXIN_TERMINAL_RECEIPT_TTL_MILLIS,
    ensures
        pruned_receipts(s, now).contains(r),
{
    lemma_keep_holds(s, fresh_receipt(now), r);
    lemma_keep_count(s, fresh_receipt(now), terminal_receipt());
}

proof fn lemma_keep_step<T>(s: Seq<T>, p: spec_fn(T) -> bool, i: int)
    requires
        0 <= i < s.len(),
    ensures
        keep(s.take(i + 1), p) == if p(s[i]) {
            keep(s.take(i), p).push(s[i])
        } else {
            keep(s.take(i), p)
        },
{
    assert(s.take(i + 1).drop_last() =~= s.take(i));
}

proof fn lemma_drop_terminal_step(s: Seq<WeixinInboundReceiptRecord>, n: nat, i: int)
    requires
        0 <= i < s.len(),
    ensures
        drop_terminal(s.skip(i), n) == if n > 0 && s[i].state.terminal() {
            drop_terminal(s.skip(i + 1), (n - 1) as nat)
        } else {
            seq![s[i]] + drop_terminal(s.skip(i + 1), n)
        },
{
    assert(s.skip(i).drop_first() =~= s.skip(i + 1));
    assert(s.skip(i)[0] == s[i]);
}

fn is_fresh_receipt(r: &WeixinInboundReceiptRecord, now: u64) -> (b: bool)
    ensures
        b == (fresh_receipt(now))(*r),
{
    !r.state.is_terminal() || now.saturating_sub(r.transitioned_at_millis)
        <= WEIXIN_TERMINAL_RECEIPT_TTL_MILLIS
}

/// Drops expired terminal receipts, then the oldest terminal receipts beyond
/// the limit.
pub fn prune_terminal_receipts(snapshot: &mut WeixinStateSnapshot, now_millis: u64)
    ensures
        final(snapshot)@ == (SnapshotView {
            inbound_receipts: pruned_receipts(old(snapshot)@.inbound_receipts, now_millis),
            ..old(snapshot)@
        }),
{
    let ghost s = old(snapshot)@.inbound_receipts;
    let mut kept: Vec<WeixinInboundReceiptRecord> = Vec::new();
    let mut terminal: usize = 0;
    let mut i: usize = 0;
    while i < snapshot.inbound_receipts.len()
        invariant
            s == snapshot.inbound_receipts@,
            i <= s.len(),
            kept@ == keep(s.take(i as int), fresh_receipt(now_millis)),
            terminal == crate::seqs::count(kept@, terminal_receipt()),
            kept@.len() <= i,
            terminal <= kept@.len(),
        decreases s.len() - i,
    {
        proof {
            lemma_keep_step(s, fresh_receipt(now_millis), i as int);
            crate::seqs::lemma_count_push(kept@, terminal_receipt(), s[i as int]);
            crate::seqs::lemma_count_bound(kept@.push(s[i as int]), terminal_receipt());
        }
        if is_fresh_receipt(&snapshot.inbound_receipts[i], now_millis) {
            let r = snapshot.inbound_receipts[i].clone();
            let t = r.state.is_terminal();
            kept.push(r);
            if t {
                terminal = terminal + 1;
            }
        }
        i = i + 1;
    }
    assert(s.take(i as int) =~= s);
    if terminal <= WEIXIN_TERMINAL_RECEIPT_LIMIT {
        snapshot.inbound_receipts = kept;
        return;
    }
    let ghost k = kept@;
    let ghost total = (terminal - WEIXIN_TERMINAL_RECEIPT_LIMIT) as nat;
    let mut to_remove: usize = terminal - WEIXIN_TERMINAL_RECEIPT_LIMIT;
    let mut out: Vec<WeixinInboundReceiptRecord> = Vec::new();
    let mut j: usize = 0;
    assert(k.skip(0) =~= k);
    while j < kept.len()
        invariant
            k == kept@,
            j <= k.len(),
            drop_terminal(k, total) == out@ + drop_terminal(k.skip(j as int), to_remove as nat),
        decreases k.len() - j,
    {
        proof {
            lemma_drop_terminal_step(k, to_remove as nat, j as int);
        }
        if to_remove > 0 && kept[j].state.is_terminal() {
            to_remove = to_remove - 1;
        } else {
            let r = kept[j].clone();
            proof {
                assert(out@.push(r) + drop_terminal(k.skip(j + 1), to_remove as nat) =~= out@ + (
                seq![r] + drop_terminal(k.skip(j + 1), to_remove as nat)));
            }
            out.push(r);
        }
        j = j + 1;
    }
    assert(k.skip(j as int) =~= Seq::<WeixinInboundReceiptRecord>::empty());
    assert(out@ + Seq::<WeixinInboundReceiptRecord>::empty() =~= out@);
    snapshot.inbound_receipts = out;
}

// ---------------------------------------------------------------------------
// Ordering latency traces by creation time
// ---------------------------------------------------------------------------
/// Where a trace goes in a list already ordered by creation time: after every
/// trace created no later than it.
pub open spec fn insert_pos(s: Seq<WeixinLatencyTraceRecord>, x: WeixinLatencyTraceRecord) -> int {
    let f = crate::seqs::first_index(
        s,
        |t: WeixinLatencyTraceRecord| t.created_at_millis > x.created_at_millis,
    );
    if f < 0 {
        s.len() as int
    } else {
        f
    }
}

/// The traces ordered by creation time, equal times keeping their order:
/// what a stable sort by `created_at_millis` gives.
pub open spec fn by_creation(s: Seq<WeixinLatencyTraceRecord>) -> Seq<WeixinLatencyTraceRecord>
    decreases s.len(),
{
    if s.len() == 0 {
        s
    } else {
        let sorted = by_creation(s.drop_last());
        sorted.insert(insert_pos(sorted, s.last()), s.last())
    }
}

proof fn lemma_by_creation_len(s: Seq<WeixinLatencyTraceRecord>)
    ensures
        by_creation(s).len() == s.len(),
    decreases s.len(),
{
    if s.len() > 0 {
        lemma_by_creation_len(s.drop_last());
        let sorted = by_creation(s.drop_last());
        crate::seqs::lemma_first_index(
            sorted,
            |t: WeixinLatencyTraceRecord| t.created_at_millis > s.last().created_at_millis,
        );
    }
}

/// The traces in a stable order by creation time.
#[verifier::loop_isolation(false)]
pub fn sort_traces_by_creation(traces: &Vec<WeixinLatencyTraceRecord>) -> (r: Vec<
    WeixinLatencyTraceRecord,
>)
    ensures
        r@ == by_creation(traces@),
{
    let mut out: Vec<WeixinLatencyTraceRecord> = Vec::new();
    let mut i: usize = 0;
    while i < traces.len()
        invariant
            i <= traces.len(),
            out@ == by_creation(traces@.take(i as int)),
            out@.len() == i,
        decreases traces.len() - i,
    {
        let x = traces[i].clone();
        let ghost pred = |t: WeixinLatencyTraceRecord| t.created_at_millis > x.created_at_millis;
        let mut pos: usize = 0;
        while pos < out.len() && out[pos].created_at_millis <= x.created_at_millis
            invariant
                pos <= out.len(),
                forall|j: int| 0 <= j < pos ==> !pred(#[trigger] out@[j]),
            decreases out.len() - pos,
        {
            pos = pos + 1;
        }
        proof {
            if pos < out.len() {
                crate::seqs::lemma_first_index_at(out@, pred, pos as int);
            } else {
                crate::seqs::lemma_first_index_none(out@, pred);
            }
            assert(traces@.take(i + 1).drop_last() =~= traces@.take(i as int));
            assert(traces@.take(i + 1).last() == x);
        }
        out.insert(pos, x);
        i = i + 1;
    }
    assert(traces@.take(i as int) =~= traces@);
    out
}

impl WeixinStateSnapshot {
    /// The newest latency traces first, at most `limit` of them (at least one
    /// when any exist).
    pub fn recent_latency_traces(&self, limit: usize) -> (r: Vec<WeixinLatencyTraceRecord>)
        ensures
            r@ == newest_first(self.latency_traces@, if limit == 0 {
                1
            } else {
                limit as nat
            }),
    {
        let limit = if limit == 0 {
            1
        } else {
            limit
        };
        let sorted = sort_traces_by_creation(&self.latency_traces);
        proof {
            lemma_by_creation_len(self.latency_traces@);
        }
        let n = if sorted.len() < limit {
            sorted.len()
        } else {
            limit
        };
        let mut out: Vec<WeixinLatencyTraceRecord> = Vec::new();
        let mut i: usize = 0;
        while i < n
            invariant
                n <= sorted.len(),
                i <= n,
                out@ == sorted@.reverse().take(i as int),
            decreases n - i,
        {
            out.push(sorted[sorted.len() - 1 - i].clone());
            assert(sorted@.reverse().take(i + 1) =~= sorted@.reverse().take(i as int).push(
                sorted@[sorted.len() - 1 - i],
            ));
            i = i + 1;
        }
        out
    }
}

/// The `k` most recently created traces, newest first.
pub open spec fn newest_first(s: Seq<WeixinLatencyTraceRecord>, k: nat) -> Seq<WeixinLatencyTraceRecord> {
    let sorted = by_creation(s).reverse();
    sorted.take(if sorted.len() < k {
        sorted.len() as int
    } else {
        k as int
    })
}

/// Keeps only the newest traces, dropping the oldest beyond the limit.
pub fn prune_latency_traces(snapshot: &mut WeixinStateSnapshot)
    ensures
        final(snapshot)@ == (SnapshotView {
            latency_traces: if old(snapshot)@.latency_traces.len() <= WEIXIN_LATENCY_TRACE_LIMIT {
                old(snapshot)@.latency_traces
            } else {
                by_creation(old(snapshot)@.latency_traces).skip(
                    old(snapshot)@.latency_traces.len() - WEIXIN_LATENCY_TRACE_LIMIT,
                )
            },
            ..old(snapshot)@
        }),
{
    if snapshot.latency_traces.len() <= WEIXIN_LATENCY_TRACE_LIMIT {
        return;
    }
    let sorted = sort_traces_by_creation(&snapshot.latency_traces);
    let remove = snapshot.latency_traces.len() - WEIXIN_LATENCY_TRACE_LIMIT;
    proof {
        lemma_by_creation_len(snapshot.latency_traces@);
    }
    let mut out: Vec<WeixinLatencyTraceRecord> = Vec::new();
    let mut i: usize = remove;
    while i < sorted.len()
        invariant
            remove <= i <= sorted.len(),
            out@ == sorted@.subrange(remove as int, i as int),
        decreases sorted.len() - i,
    {
        out.push(sorted[i].clone());
        assert(sorted@.subrange(remove as int, i + 1) =~= sorted@.subrange(remove as int, i as int).push(
            sorted@[i as int],
        ));
        i = i + 1;
    }
    assert(out@ =~= sorted@.skip(remove as int));
    snapshot.latency_traces = out;
}

} // verus!
