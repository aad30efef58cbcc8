use crate::pose::{Pose, TransformMsg};
use crate::sync::{
    after_apply, after_tick, outcome_of, store_after, tick_sends, ApplyOutcome, SyncView,
};
use vstd::prelude::*;

verus! {

/// The state after handling `msgs` in order, starting from `v`.
pub open spec fn apply_all(v: SyncView, msgs: Seq<TransformMsg>) -> SyncView
    decreases msgs.len(),
{
    if msgs.len() == 0 {
        v
    } else {
        after_apply(apply_all(v, msgs.drop_last()), msgs.last())
    }
}

/// The verdict on `msgs[k]` when `msgs` are handled in order from `v`.
pub open spec fn outcome_at(v: SyncView, msgs: Seq<TransformMsg>, k: int) -> ApplyOutcome {
    outcome_of(apply_all(v, msgs.take(k)), msgs[k])
}

/// The shared pose after `msgs` are handled in order, starting from state
/// `v` with shared pose `store`.
pub open spec fn store_after_all(v: SyncView, store: Pose, msgs: Seq<TransformMsg>) -> Pose
    decreases msgs.len(),
{
    if msgs.len() == 0 {
        store
    } else {
        store_after(
            store_after_all(v, store, msgs.drop_last()),
            outcome_of(apply_all(v, msgs.drop_last()), msgs.last()),
        )
    }
}

/// The state after the broadcast ticks `ticks` in order, starting from `v`;
/// each tick is the pose read and whether it moved.
pub open spec fn tick_all(v: SyncView, ticks: Seq<(Pose, bool)>) -> SyncView
    decreases ticks.len(),
{
    if ticks.len() == 0 {
        v
    } else {
        after_tick(tick_all(v, ticks.drop_last()), ticks.last().0, ticks.last().1)
    }
}

/// How many of the broadcast ticks `ticks`, run in order from `v`, send a
/// message.
pub open spec fn sends_all(v: SyncView, ticks: Seq<(Pose, bool)>) -> nat
    decreases ticks.len(),
{
    if ticks.len() == 0 {
        0
    } else {
        sends_all(v, ticks.drop_last()) + if tick_sends(tick_all(v, ticks.drop_last()), ticks.last().1) {
            1nat
        } else {
            0nat
        }
    }
}

proof fn lemma_take_step(v: SyncView, msgs: Seq<TransformMsg>, k: int)
    requires
        0 <= k < msgs.len(),
    ensures
        apply_all(v, msgs.take(k + 1)) == after_apply(apply_all(v, msgs.take(k)), msgs[k]),
{
    assert(msgs.take(k + 1).drop_last() =~= msgs.take(k));
}

proof fn lemma_store_step(v: SyncView, store: Pose, msgs: Seq<TransformMsg>, k: int)
    requires
        0 <= k < msgs.len(),
    ensures
        store_after_all(v, store, msgs.take(k + 1)) == store_after(
            store_after_all(v, store, msgs.take(k)),
            outcome_at(v, msgs, k),
        ),
{
    assert(msgs.take(k + 1).drop_last() =~= msgs.take(k));
    assert(msgs.take(k + 1).last() == msgs[k]);
}

proof fn lemma_identity_kept(v: SyncView, msgs: Seq<TransformMsg>)
    ensures
        apply_all(v, msgs).instance_id == v.instance_id,
    decreases msgs.len(),
{
    if msgs.len() > 0 {
        lemma_identity_kept(v, msgs.drop_last());
    }
}

proof fn lemma_watermark_grows(
    v: SyncView,
    msgs: Seq<TransformMsg>,
    sender: Seq<char>,
    lo: int,
    k: int,
)
    requires
        0 <= lo <= k <= msgs.len(),
        apply_all(v, msgs.take(lo)).last_seq_in.contains_key(sender),
    ensures
        apply_all(v, msgs.take(k)).last_seq_in.contains_key(sender),
        apply_all(v, msgs.take(lo)).last_seq_in[sender] <= apply_all(
            v,
            msgs.take(k),
        ).last_seq_in[sender],
    decreases k - lo,
{
    if k > lo {
        lemma_watermark_grows(v, msgs, sender, lo, k - 1);
        lemma_take_step(v, msgs, k - 1);
    }
}

/// Monotonic acceptance: once a message with sequence number `b` from a
/// sender has been accepted, every later message from that sender with a
/// sequence number `a <= b` is rejected as stale, and leaves both the
/// engine's state and the shared pose as they were.
pub proof fn lemma_monotonic_acceptance(
    v: SyncView,
    store: Pose,
    msgs: Seq<TransformMsg>,
    i: int,
    j: int,
)
    requires
        0 <= i < j < msgs.len(),
        msgs[j].instance_id@ == msgs[i].instance_id@,
        msgs[j].seq <= msgs[i].seq,
        outcome_at(v, msgs, i) is Accepted,
    ensures
        outcome_at(v, msgs, j) == ApplyOutcome::Stale,
        apply_all(v, msgs.take(j + 1)) == apply_all(v, msgs.take(j)),
        store_after_all(v, store, msgs.take(j + 1)) == store_after_all(v, store, msgs.take(j)),
{
    let sender = msgs[i].instance_id@;
    lemma_take_step(v, msgs, i);
    lemma_watermark_grows(v, msgs, sender, i + 1, j);
    lemma_identity_kept(v, msgs.take(i));
    lemma_identity_kept(v, msgs.take(j));
    lemma_take_step(v, msgs, j);
    lemma_store_step(v, store, msgs, j);
}

/// Idempotence: handling two messages from the same sender with the same
/// sequence number leaves the engine's state and the shared pose as
/// handling the first alone; the second is never accepted.
pub proof fn lemma_idempotent(v: SyncView, store: Pose, m1: TransformMsg, m2: TransformMsg)
    requires
        m1.instance_id@ == m2.instance_id@,
        m1.seq == m2.seq,
    ensures
        !(outcome_of(after_apply(v, m1), m2) is Accepted),
        after_apply(after_apply(v, m1), m2) == after_apply(v, m1),
        store_after(store_after(store, outcome_of(v, m1)), outcome_of(after_apply(v, m1), m2))
            == store_after(store, outcome_of(v, m1)),
{
}

/// Self-echo immunity: a message that carries the local identity is never
/// accepted, whatever its sequence number, at any point of a run; it leaves
/// the engine's state and the shared pose as they were.
pub proof fn lemma_self_echo_ignored(v: SyncView, store: Pose, msgs: Seq<TransformMsg>, k: int)
    requires
        0 <= k < msgs.len(),
        msgs[k].instance_id@ == v.instance_id,
    ensures
        outcome_at(v, msgs, k) == ApplyOutcome::SelfEcho,
        apply_all(v, msgs.take(k + 1)) == apply_all(v, msgs.take(k)),
        store_after_all(v, store, msgs.take(k + 1)) == store_after_all(v, store, msgs.take(k)),
{
    lemma_identity_kept(v, msgs.take(k));
    lemma_take_step(v, msgs, k);
    lemma_store_step(v, store, msgs, k);
}

/// Throttling: once a pose has been sent, broadcast ticks on which the pose
/// has not moved beyond the tolerance send nothing, however many there are,
/// and the last sent pose stays the reference for change detection.
pub proof fn lemma_throttled(v: SyncView, ticks: Seq<(Pose, bool)>)
    requires
        v.last_sent_pose is Some,
        forall|k: int| 0 <= k < ticks.len() ==> !(#[trigger] ticks[k]).1,
    ensures
        sends_all(v, ticks) == 0,
        tick_all(v, ticks).last_sent_pose == v.last_sent_pose,
    decreases ticks.len(),
{
    if ticks.len() > 0 {
        let rest = ticks.drop_last();
        assert forall|k: int| 0 <= k < rest.len() implies !(#[trigger] rest[k]).1 by {
            assert(rest[k] == ticks[k]);
        }
        lemma_throttled(v, rest);
        assert(!ticks[ticks.len() - 1].1);
    }
}

} // verus!
