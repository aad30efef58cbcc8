use vstd::prelude::*;

verus! {

/// Placement of the shared object: position, rotation as a unit quaternion
/// in `[x, y, z, w]` order, and scale.
///
/// Each component is held as the IEEE-754 bit pattern of an `f32`. The
/// synchronization logic never does arithmetic on a component: it carries
/// components from the local store to the wire and from the wire to the
/// store, bit for bit.
#[derive(Clone, Copy, Debug, PartialEq, Eq)]
pub struct Pose {
    pub position: [u32; 3],
    pub rotation: [u32; 4],
    pub scale: [u32; 3],
}

/// The unit of replication: a pose, tagged with its sender's identity and
/// the sender's sequence number for it.
///
/// `ts_millis` is the sender's wall-clock time at send, in milliseconds
/// since the epoch. It is informational: no merge decision reads it.
#[derive(Clone, Debug, PartialEq, Eq)]
pub struct TransformMsg {
    pub position: [u32; 3],
    pub rotation: [u32; 4],
    pub scale: [u32; 3],
    pub ts_millis: u128,
    pub instance_id: String,
    pub seq: u64,
}

impl TransformMsg {
    /// The pose that this message carries.
    pub open spec fn pose_spec(&self) -> Pose {
        Pose { position: self.position, rotation: self.rotation, scale: self.scale }
    }

    /// The pose that this message carries.
    pub fn pose(&self) -> (r: Pose)
        ensures
            r == self.pose_spec(),
    {
        Pose { position: self.position, rotation: self.rotation, scale: self.scale }
    }
}

} // verus!
