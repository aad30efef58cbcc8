//! Keeps one shared object's pose synchronized between peers without a
//! central server: per-sender sequencing, self-echo suppression,
//! last-writer-wins merge, broadcast throttling and peer membership.
//!
//! The engine decides; its host performs. The host reads the local pose,
//! asks [`TransformSync::broadcast_current_transform`] whether to send,
//! hands each decoded inbound message to
//! [`TransformSync::apply_remote_transform`] and writes back the pose it
//! accepts, and feeds discovery events to [`PeerSet`].

pub mod animation;
pub mod guarantees;
pub mod peers;
pub mod pose;
pub mod sync;
pub mod watermark;

pub use animation::SimpleAnimation;
pub use peers::PeerSet;
pub use pose::{Pose, TransformMsg};
pub use sync::{ApplyOutcome, SyncView, TransformSync};
pub use watermark::SeqWatermarks;
