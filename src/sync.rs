use crate::pose::{Pose, TransformMsg};
use crate::watermark::SeqWatermarks;
use vstd::prelude::*;

verus! {

/// What became of one inbound message.
#[derive(Clone, Copy, Debug, PartialEq, Eq)]
pub enum ApplyOutcome {
    /// The message carries this process's own identity: dropped.
    SelfEcho,
    /// The message is not newer than its sender's watermark: dropped.
    Stale,
    /// The message was accepted: the shared pose is to be overwritten with
    /// this pose (last writer wins).
    Accepted(Pose),
}

/// Abstract state of one process's synchronization engine.
pub struct SyncView {
    /// Local identity, used to tag outgoing messages and to drop echoes.
    pub instance_id: Seq<char>,
    /// Sequence number of the last broadcast tick.
    pub seq_out: u64,
    /// The last pose actually sent, if any.
    pub last_sent_pose: Option<Pose>,
    /// Highest sequence number accepted from each sender.
    pub last_seq_in: Map<Seq<char>, u64>,
    /// Sender timestamp of the last accepted message.
    pub last_remote_ts: Option<u128>,
}

/// Whether `m` passes identity and sequence filtering in state `v`.
pub open spec fn accepts(v: SyncView, m: TransformMsg) -> bool {
    &&& m.instance_id@ != v.instance_id
    &&& v.last_seq_in.contains_key(m.instance_id@) ==> v.last_seq_in[m.instance_id@] < m.seq
}

/// The verdict on `m` in state `v`; self-echo is decided before sequencing.
pub open spec fn outcome_of(v: SyncView, m: TransformMsg) -> ApplyOutcome {
    if m.instance_id@ == v.instance_id {
        ApplyOutcome::SelfEcho
    } else if !accepts(v, m) {
        ApplyOutcome::Stale
    } else {
        ApplyOutcome::Accepted(m.pose_spec())
    }
}

/// The state after handling `m` in state `v`.
pub open spec fn after_apply(v: SyncView, m: TransformMsg) -> SyncView {
    if accepts(v, m) {
        SyncView {
            last_seq_in: v.last_seq_in.insert(m.instance_id@, m.seq),
            last_remote_ts: Some(m.ts_millis),
            ..v
        }
    } else {
        v
    }
}

/// The shared pose after a message with verdict `o` was handled.
pub open spec fn store_after(store: Pose, o: ApplyOutcome) -> Pose {
    match o {
        ApplyOutcome::Accepted(p) => p,
        _ => store,
    }
}

/// Whether a broadcast tick in state `v` sends; `moved` tells whether the
/// current pose differs from the last sent one beyond the tolerance.
pub open spec fn tick_sends(v: SyncView, moved: bool) -> bool {
    v.last_sent_pose is None || moved
}

/// The state after a broadcast tick that read `pose`. The sequence number
/// advances on every tick, whether or not the tick sends.
pub open spec fn after_tick(v: SyncView, pose: Pose, moved: bool) -> SyncView {
    SyncView {
        seq_out: v.seq_out.wrapping_add(1),
        last_sent_pose: if tick_sends(v, moved) {
            Some(pose)
        } else {
            v.last_sent_pose
        },
        ..v
    }
}

/// The message that a sending tick in state `v` builds from `pose`.
pub open spec fn is_broadcast(m: TransformMsg, v: SyncView, pose: Pose, ts_millis: u128) -> bool {
    &&& m.pose_spec() == pose
    &&& m.instance_id@ == v.instance_id
    &&& m.seq == v.seq_out.wrapping_add(1)
    &&& m.ts_millis == ts_millis
}

/// The synchronization engine's state: the single owner of sequencing and
/// change-detection decisions for one process.
pub struct TransformSync {
    instance_id: String,
    last_remote_ts: Option<u128>,
    last_sent_pose: Option<Pose>,
    seq_out: u64,
    last_seq_in_by_peer: SeqWatermarks,
}

impl View for TransformSync {
    type V = SyncView;

    closed spec fn view(&self) -> SyncView {
        SyncView {
            instance_id: self.instance_id@,
            seq_out: self.seq_out,
            last_sent_pose: self.last_sent_pose,
            last_seq_in: self.last_seq_in_by_peer@,
            last_remote_ts: self.last_remote_ts,
        }
    }
}

impl TransformSync {
    pub closed spec fn wf(&self) -> bool {
        self.last_seq_in_by_peer.wf()
    }

    /// A fresh engine for the process identified by `instance_id`: nothing
    /// sent, no sender seen, outgoing sequence at 0.
    pub fn new(instance_id: String) -> (r: Self)
        ensures
            r.wf(),
            r@ == (SyncView {
                instance_id: instance_id@,
                seq_out: 0,
                last_sent_pose: None,
                last_seq_in: Map::empty(),
                last_remote_ts: None,
            }),
    {
        TransformSync {
            instance_id,
            last_remote_ts: None,
            last_sent_pose: None,
            seq_out: 0,
            last_seq_in_by_peer: SeqWatermarks::new(),
        }
    }

    /// The local identity.
    pub fn instance_id(&self) -> (r: &String)
        ensures
            r@ == self@.instance_id,
    {
        &self.instance_id
    }

    /// Sequence number of the last broadcast tick.
    pub fn seq_out(&self) -> (r: u64)
        ensures
            r == self@.seq_out,
    {
        self.seq_out
    }

    /// The last pose actually sent, the reference for change detection.
    pub fn last_sent_pose(&self) -> (r: Option<Pose>)
        ensures
            r == self@.last_sent_pose,
    {
        self.last_sent_pose
    }

    /// Sender timestamp of the last accepted message.
    pub fn last_remote_ts(&self) -> (r: Option<u128>)
        ensures
            r == self@.last_remote_ts,
    {
        self.last_remote_ts
    }

    /// The watermark of `sender`: the highest sequence number accepted from
    /// it, or `None` before its first accepted message.
    pub fn last_seq_seen(&self, sender: &String) -> (r: Option<u64>)
        requires
            self.wf(),
        ensures
            r == (if self@.last_seq_in.contains_key(sender@) {
                Some(self@.last_seq_in[sender@])
            } else {
                None::<u64>
            }),
    {
        self.last_seq_in_by_peer.get(sender)
    }

    /// One broadcast tick. `pose` is the current local pose and `moved`
    /// tells whether some component of it differs from the last sent pose
    /// by more than the tolerance. The sequence number advances on every
    /// tick; the message is built and returned, to be sent, only on the
    /// first tick or when the pose moved.
    pub fn broadcast_current_transform(&mut self, pose: Pose, moved: bool, ts_millis: u128) -> (r:
        Option<TransformMsg>)
        requires
            old(self).wf(),
        ensures
            final(self).wf(),
            final(self)@ == after_tick(old(self)@, pose, moved),
            match r {
                Some(m) => tick_sends(old(self)@, moved) && is_broadcast(
                    m,
                    old(self)@,
                    pose,
                    ts_millis,
                ),
                None => !tick_sends(old(self)@, moved),
            },
    {
        self.seq_out = self.seq_out.wrapping_add(1);
        if self.last_sent_pose.is_some() && !moved {
            return None;
        }
        self.last_sent_pose = Some(pose);
        Some(
            TransformMsg {
                position: pose.position,
                rotation: pose.rotation,
                scale: pose.scale,
                ts_millis,
                instance_id: self.instance_id.clone(),
                seq: self.seq_out,
            },
        )
    }

    /// Handles one decoded inbound message: drops it if this process sent
    /// it, or if it is not newer than its sender's watermark; otherwise
    /// raises the watermark to its sequence number and hands back the pose
    /// that overwrites the shared one.
    pub fn apply_remote_transform(&mut self, msg: TransformMsg) -> (r: ApplyOutcome)
        requires
            old(self).wf(),
        ensures
            final(self).wf(),
            r == outcome_of(old(self)@, msg),
            final(self)@ == after_apply(old(self)@, msg),
    {
        if msg.instance_id == self.instance_id {
            return ApplyOutcome::SelfEcho;
        }
        match self.last_seq_in_by_peer.get(&msg.instance_id) {
            Some(prev) => {
                if msg.seq <= prev {
                    return ApplyOutcome::Stale;
                }
            },
            None => {},
        }
        let pose = msg.pose();
        self.last_seq_in_by_peer.insert(msg.instance_id, msg.seq);
        self.last_remote_ts = Some(msg.ts_millis);
        ApplyOutcome::Accepted(pose)
    }
}

} // verus!
