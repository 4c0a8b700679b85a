use vstd::prelude::*;
use crate::seqs::{first_index, lemma_first_index};
use crate::text::owned;
use crate::weixin_snapshot::{find_trace, trace_for, SnapshotView, WeixinStateSnapshot};
use crate::weixin_types::{WeixinLatencyTraceRecord, WeixinDeliveryState, WeixinPendingInboundState};

verus! {

pub open spec fn opt_is(o: Option<String>, v: Seq<char>) -> bool {
    o matches Some(s) && s@ == v
}

pub open spec fn sat_inc(n: u32) -> u32 {
    if n == u32::MAX {
        n
    } else {
        (n + 1) as u32
    }
}

/// The trace list after the first trace of `item_id` is changed as `rel`
/// describes and stamped with `now`; unchanged when there is no such trace.
pub open spec fn traces_updated(
    old: Seq<WeixinLatencyTraceRecord>,
    new: Seq<WeixinLatencyTraceRecord>,
    item_id: Seq<char>,
    now: u64,
    rel: spec_fn(WeixinLatencyTraceRecord, WeixinLatencyTraceRecord) -> bool,
) -> bool {
    let k = first_index(old, trace_for(item_id));
    if k < 0 {
        new == old
    } else {
        new.len() == old.len() && (forall|j: int| 0 <= j < old.len() && j != k ==> new[j] == old[j])
            && new[k].updated_at_millis == now && rel(old[k], new[k])
    }
}

/// The snapshot differs from `old` in its latency traces only.
pub open spec fn only_traces_changed(old: SnapshotView, new: SnapshotView) -> bool {
    new == (SnapshotView { latency_traces: new.latency_traces, ..old })
}

pub open spec fn error_labelled(label: Seq<char>) -> spec_fn(
    WeixinLatencyTraceRecord,
    WeixinLatencyTraceRecord,
) -> bool {
    |a: WeixinLatencyTraceRecord, b: WeixinLatencyTraceRecord|
        b == (WeixinLatencyTraceRecord {
            error_label: b.error_label,
            updated_at_millis: b.updated_at_millis,
            ..a
        }) && opt_is(b.error_label, label)
}

pub open spec fn dispatch_claimed(now: u64) -> spec_fn(
    WeixinLatencyTraceRecord,
    WeixinLatencyTraceRecord,
) -> bool {
    |a: WeixinLatencyTraceRecord, b: WeixinLatencyTraceRecord|
        b == (WeixinLatencyTraceRecord {
            dispatch_claimed_at_millis: Some(now),
            updated_at_millis: b.updated_at_millis,
            ..a
        })
}

pub open spec fn runtime_completed(now: u64) -> spec_fn(
    WeixinLatencyTraceRecord,
    WeixinLatencyTraceRecord,
) -> bool {
    |a: WeixinLatencyTraceRecord, b: WeixinLatencyTraceRecord|
        b == (WeixinLatencyTraceRecord {
            runtime_completed_at_millis: Some(now),
            updated_at_millis: b.updated_at_millis,
            ..a
        })
}

pub open spec fn runtime_started(now: u64, session: Seq<char>) -> spec_fn(
    WeixinLatencyTraceRecord,
    WeixinLatencyTraceRecord,
) -> bool {
    |a: WeixinLatencyTraceRecord, b: WeixinLatencyTraceRecord|
        b == (WeixinLatencyTraceRecord {
            runtime_started_at_millis: Some(now),
            session_id: b.session_id,
            updated_at_millis: b.updated_at_millis,
            ..a
        }) && opt_is(b.session_id, session)
}

pub open spec fn spooled(now: u64, session: Seq<char>, segments: u32) -> spec_fn(
    WeixinLatencyTraceRecord,
    WeixinLatencyTraceRecord,
) -> bool {
    |a: WeixinLatencyTraceRecord, b: WeixinLatencyTraceRecord|
        b == (WeixinLatencyTraceRecord {
            spool_written_at_millis: Some(now),
            session_id: b.session_id,
            delivery_segment_count: segments,
            updated_at_millis: b.updated_at_millis,
            ..a
        }) && opt_is(b.session_id, session)
}

pub open spec fn delivery_attempted(now: u64) -> spec_fn(
    WeixinLatencyTraceRecord,
    WeixinLatencyTraceRecord,
) -> bool {
    |a: WeixinLatencyTraceRecord, b: WeixinLatencyTraceRecord|
        b == (WeixinLatencyTraceRecord {
            delivery_started_at_millis: if a.delivery_started_at_millis is None {
                Some(now)
            } else {
                a.delivery_started_at_millis
            },
            delivery_attempt_count: sat_inc(a.delivery_attempt_count),
            delivery_status: b.delivery_status,
            updated_at_millis: b.updated_at_millis,
            ..a
        }) && opt_is(b.delivery_status, "running"@)
}

pub open spec fn delivery_deferred(now: u64, label: Seq<char>) -> spec_fn(
    WeixinLatencyTraceRecord,
    WeixinLatencyTraceRecord,
) -> bool {
    |a: WeixinLatencyTraceRecord, b: WeixinLatencyTraceRecord|
        b == (WeixinLatencyTraceRecord {
            delivery_completed_at_millis: Some(now),
            delivery_status: b.delivery_status,
            error_label: b.error_label,
            updated_at_millis: b.updated_at_millis,
            ..a
        }) && opt_is(b.delivery_status, "deferred"@) && opt_is(b.error_label, label)
}

pub open spec fn delivery_finished(
    now: u64,
    target: WeixinDeliveryState,
    error: Option<String>,
) -> spec_fn(WeixinLatencyTraceRecord, WeixinLatencyTraceRecord) -> bool {
    |a: WeixinLatencyTraceRecord, b: WeixinLatencyTraceRecord|
        b == (WeixinLatencyTraceRecord {
            delivery_completed_at_millis: Some(now),
            delivery_status: b.delivery_status,
            delivery_success_count: if target == WeixinDeliveryState::Succeeded {
                sat_inc(a.delivery_success_count)
            } else {
                a.delivery_success_count
            },
            error_label: if target == WeixinDeliveryState::Succeeded {
                a.error_label
            } else {
                error
            },
            updated_at_millis: b.updated_at_millis,
            ..a
        }) && opt_is(b.delivery_status, target.name())
}

pub open spec fn turn_completed(
    now: u64,
    target: WeixinPendingInboundState,
    reason: Option<String>,
) -> spec_fn(WeixinLatencyTraceRecord, WeixinLatencyTraceRecord) -> bool {
    |a: WeixinLatencyTraceRecord, b: WeixinLatencyTraceRecord|
        b == (WeixinLatencyTraceRecord {
            runtime_completed_at_millis: if a.runtime_completed_at_millis is None {
                Some(now)
            } else {
                a.runtime_completed_at_millis
            },
            turn_completed_at_millis: Some(now),
            terminal_status: b.terminal_status,
            terminal_reason: reason,
            error_label: if target == WeixinPendingInboundState::Succeeded {
                None
            } else if reason is Some {
                reason
            } else {
                a.error_label
            },
            updated_at_millis: b.updated_at_millis,
            ..a
        }) && opt_is(b.terminal_status, target.name())
}

/// Position of the trace of `item_id`, with the fact that it is the first.
fn locate_trace(snapshot: &WeixinStateSnapshot, item_id: &str) -> (r: Option<usize>)
    ensures
        match r {
            Some(k) => k as int == first_index(snapshot.latency_traces@, trace_for(item_id@)) && k
                < snapshot.latency_traces.len(),
            None => first_index(snapshot.latency_traces@, trace_for(item_id@)) == -1,
        },
{
    let key = owned(item_id);
    let r = find_trace(&snapshot.latency_traces, &key);
    proof {
        lemma_first_index(snapshot.latency_traces@, trace_for(item_id@));
    }
    r
}

pub fn trace_set_error_label(snapshot: &mut WeixinStateSnapshot, item_id: &str, label: &str, now: u64)
    ensures
        only_traces_changed(old(snapshot)@, final(snapshot)@),
        traces_updated(
            old(snapshot)@.latency_traces,
            final(snapshot)@.latency_traces,
            item_id@,
            now,
            error_labelled(label@),
        ),
{
    if let Some(k) = locate_trace(snapshot, item_id) {
        snapshot.latency_traces[k].error_label = Some(owned(label));
        snapshot.latency_traces[k].updated_at_millis = now;
    }
}

pub fn trace_dispatch_claimed(snapshot: &mut WeixinStateSnapshot, item_id: &str, now: u64)
    ensures
        only_traces_changed(old(snapshot)@, final(snapshot)@),
        traces_updated(
            old(snapshot)@.latency_traces,
            final(snapshot)@.latency_traces,
            item_id@,
            now,
            dispatch_claimed(now),
        ),
{
    if let Some(k) = locate_trace(snapshot, item_id) {
        snapshot.latency_traces[k].dispatch_claimed_at_millis = Some(now);
        snapshot.latency_traces[k].updated_at_millis = now;
    }
}

pub fn trace_runtime_completed(snapshot: &mut WeixinStateSnapshot, item_id: &str, now: u64)
    ensures
        only_traces_changed(old(snapshot)@, final(snapshot)@),
        traces_updated(
            old(snapshot)@.latency_traces,
            final(snapshot)@.latency_traces,
            item_id@,
            now,
            runtime_completed(now),
        ),
{
    if let Some(k) = locate_trace(snapshot, item_id) {
        snapshot.latency_traces[k].runtime_completed_at_millis = Some(now);
        snapshot.latency_traces[k].updated_at_millis = now;
    }
}

pub fn trace_runtime_started(
    snapshot: &mut WeixinStateSnapshot,
    item_id: &str,
    session: &str,
    now: u64,
)
    ensures
        only_traces_changed(old(snapshot)@, final(snapshot)@),
        traces_updated(
            old(snapshot)@.latency_traces,
            final(snapshot)@.latency_traces,
            item_id@,
            now,
            runtime_started(now, session@),
        ),
{
    if let Some(k) = locate_trace(snapshot, item_id) {
        snapshot.latency_traces[k].runtime_started_at_millis = Some(now);
        snapshot.latency_traces[k].session_id = Some(owned(session));
        snapshot.latency_traces[k].updated_at_millis = now;
    }
}

pub fn trace_spooled(
    snapshot: &mut WeixinStateSnapshot,
    item_id: &str,
    session: &str,
    segments: u32,
    now: u64,
)
    ensures
        only_traces_changed(old(snapshot)@, final(snapshot)@),
        traces_updated(
            old(snapshot)@.latency_traces,
            final(snapshot)@.latency_traces,
            item_id@,
            now,
            spooled(now, session@, segments),
        ),
{
    if let Some(k) = locate_trace(snapshot, item_id) {
        snapshot.latency_traces[k].spool_written_at_millis = Some(now);
        snapshot.latency_traces[k].session_id = Some(owned(session));
        snapshot.latency_traces[k].delivery_segment_count = segments;
        snapshot.latency_traces[k].updated_at_millis = now;
    }
}

pub fn trace_delivery_attempted(snapshot: &mut WeixinStateSnapshot, item_id: &str, now: u64)
    ensures
        only_traces_changed(old(snapshot)@, final(snapshot)@),
        traces_updated(
            old(snapshot)@.latency_traces,
            final(snapshot)@.latency_traces,
            item_id@,
            now,
            delivery_attempted(now),
        ),
{
    if let Some(k) = locate_trace(snapshot, item_id) {
        if snapshot.latency_traces[k].delivery_started_at_millis.is_none() {
            snapshot.latency_traces[k].delivery_started_at_millis = Some(now);
        }
        snapshot.latency_traces[k].delivery_attempt_count = snapshot.latency_traces[k].delivery_attempt_count.saturating_add(
            1,
        );
        snapshot.latency_traces[k].delivery_status = Some(owned(WeixinDeliveryState::Running.as_str()));
        snapshot.latency_traces[k].updated_at_millis = now;
    }
}

pub fn trace_delivery_deferred(
    snapshot: &mut WeixinStateSnapshot,
    item_id: &str,
    label: &str,
    now: u64,
)
    ensures
        only_traces_changed(old(snapshot)@, final(snapshot)@),
        traces_updated(
            old(snapshot)@.latency_traces,
            final(snapshot)@.latency_traces,
            item_id@,
            now,
            delivery_deferred(now, label@),
        ),
{
    if let Some(k) = locate_trace(snapshot, item_id) {
        snapshot.latency_traces[k].delivery_completed_at_millis = Some(now);
        snapshot.latency_traces[k].delivery_status = Some(owned("deferred"));
        snapshot.latency_traces[k].error_label = Some(owned(label));
        snapshot.latency_traces[k].updated_at_millis = now;
    }
}

pub fn trace_delivery_finished(
    snapshot: &mut WeixinStateSnapshot,
    item_id: &str,
    target: WeixinDeliveryState,
    error: Option<String>,
    now: u64,
)
    ensures
        only_traces_changed(old(snapshot)@, final(snapshot)@),
        traces_updated(
            old(snapshot)@.latency_traces,
            final(snapshot)@.latency_traces,
            item_id@,
            now,
            delivery_finished(now, target, error),
        ),
{
    if let Some(k) = locate_trace(snapshot, item_id) {
        snapshot.latency_traces[k].delivery_completed_at_millis = Some(now);
        snapshot.latency_traces[k].delivery_status = Some(owned(target.as_str()));
        if target == WeixinDeliveryState::Succeeded {
            snapshot.latency_traces[k].delivery_success_count = snapshot.latency_traces[k].delivery_success_count.saturating_add(
                1,
            );
        } else {
            snapshot.latency_traces[k].error_label = error;
        }
        snapshot.latency_traces[k].updated_at_millis = now;
    }
}

pub fn trace_turn_completed(
    snapshot: &mut WeixinStateSnapshot,
    item_id: &str,
    target: WeixinPendingInboundState,
    reason: Option<String>,
    now: u64,
)
    ensures
        only_traces_changed(old(snapshot)@, final(snapshot)@),
        traces_updated(
            old(snapshot)@.latency_traces,
            final(snapshot)@.latency_traces,
            item_id@,
            now,
            turn_completed(now, target, reason),
        ),
{
    if let Some(k) = locate_trace(snapshot, item_id) {
        if snapshot.latency_traces[k].runtime_completed_at_millis.is_none() {
            snapshot.latency_traces[k].runtime_completed_at_millis = Some(now);
        }
        snapshot.latency_traces[k].turn_completed_at_millis = Some(now);
        snapshot.latency_traces[k].terminal_status = Some(owned(target.as_str()));
        let label = crate::weixin_types::clone_opt_string(&reason);
        snapshot.latency_traces[k].terminal_reason = reason;
        if target == WeixinPendingInboundState::Succeeded {
            snapshot.latency_traces[k].error_label = None;
        } else if label.is_some() {
            snapshot.latency_traces[k].error_label = label;
        }
        snapshot.latency_traces[k].updated_at_millis = now;
    }
}

} // verus!
