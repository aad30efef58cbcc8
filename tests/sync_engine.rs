use pose_sync::{ApplyOutcome, Pose, SeqWatermarks, TransformMsg, TransformSync};

fn pose(position: [f32; 3], rotation: [f32; 4], scale: [f32; 3]) -> Pose {
    Pose {
        position: position.map(f32::to_bits),
        rotation: rotation.map(f32::to_bits),
        scale: scale.map(f32::to_bits),
    }
}

fn at(position: [f32; 3]) -> Pose {
    pose(position, [0.0, 0.0, 0.0, 1.0], [1.0, 1.0, 1.0])
}

fn msg(from: &str, p: Pose, seq: u64, ts_millis: u128) -> TransformMsg {
    TransformMsg {
        position: p.position,
        rotation: p.rotation,
        scale: p.scale,
        ts_millis,
        instance_id: from.to_string(),
        seq,
    }
}

/// The shared pose after a verdict, as the host writes it.
fn write_back(store: &mut Pose, outcome: ApplyOutcome) {
    if let ApplyOutcome::Accepted(p) = outcome {
        *store = p;
    }
}

#[test]
fn first_message_from_peer_is_applied() {
    let mut b = TransformSync::new("B".to_string());
    let mut store = at([0.0, 0.0, 0.0]);
    let out = b.apply_remote_transform(msg("A", at([1.0, 0.0, 0.0]), 1, 1_700_000_000_123));
    assert_eq!(out, ApplyOutcome::Accepted(at([1.0, 0.0, 0.0])));
    write_back(&mut store, out);
    assert_eq!(store.position, [1.0f32.to_bits(), 0.0f32.to_bits(), 0.0f32.to_bits()]);
    assert_eq!(b.last_remote_ts(), Some(1_700_000_000_123));
    assert_eq!(b.last_seq_seen(&"A".to_string()), Some(1));
}

#[test]
fn reordered_older_message_is_rejected() {
    let mut b = TransformSync::new("B".to_string());
    let mut store = at([0.0, 0.0, 0.0]);
    let out5 = b.apply_remote_transform(msg("A", at([5.0, 5.0, 5.0]), 5, 10));
    write_back(&mut store, out5);
    let out3 = b.apply_remote_transform(msg("A", at([3.0, 3.0, 3.0]), 3, 20));
    assert_eq!(out3, ApplyOutcome::Stale);
    write_back(&mut store, out3);
    assert_eq!(store, at([5.0, 5.0, 5.0]));
    assert_eq!(b.last_seq_seen(&"A".to_string()), Some(5));
    assert_eq!(b.last_remote_ts(), Some(10));
}

#[test]
fn static_pose_sends_nothing_for_twenty_ticks() {
    let mut a = TransformSync::new("A".to_string());
    let p = at([2.0, 0.5, -1.0]);
    assert!(a.broadcast_current_transform(p, true, 0).is_some());
    let mut sent = 0;
    for tick in 1..=20u128 {
        if a.broadcast_current_transform(p, false, tick * 50).is_some() {
            sent += 1;
        }
    }
    assert_eq!(sent, 0);
    assert_eq!(a.seq_out(), 21);
    assert_eq!(a.last_sent_pose(), Some(p));
}

#[test]
fn newer_watermark_rejects_every_older_or_equal_seq() {
    let mut b = TransformSync::new("B".to_string());
    let mut store = at([0.0, 0.0, 0.0]);
    write_back(&mut store, b.apply_remote_transform(msg("A", at([10.0, 0.0, 0.0]), 10, 1)));
    write_back(&mut store, b.apply_remote_transform(msg("C", at([7.0, 0.0, 0.0]), 2, 2)));
    for a in [0u64, 4, 9, 10] {
        let out = b.apply_remote_transform(msg("A", at([a as f32, 1.0, 1.0]), a, 3));
        assert_eq!(out, ApplyOutcome::Stale);
        write_back(&mut store, out);
    }
    assert_eq!(store, at([7.0, 0.0, 0.0]));
    let out = b.apply_remote_transform(msg("A", at([11.0, 0.0, 0.0]), 11, 4));
    assert_eq!(out, ApplyOutcome::Accepted(at([11.0, 0.0, 0.0])));
}

#[test]
fn duplicate_message_changes_nothing() {
    let mut once = TransformSync::new("B".to_string());
    let mut twice = TransformSync::new("B".to_string());
    let mut store_once = at([0.0, 0.0, 0.0]);
    let mut store_twice = at([0.0, 0.0, 0.0]);
    let m = msg("A", at([4.0, 4.0, 4.0]), 8, 100);
    write_back(&mut store_once, once.apply_remote_transform(m.clone()));
    write_back(&mut store_twice, twice.apply_remote_transform(m.clone()));
    let again = msg("A", at([9.0, 9.0, 9.0]), 8, 200);
    let out = twice.apply_remote_transform(again);
    assert_eq!(out, ApplyOutcome::Stale);
    write_back(&mut store_twice, out);
    assert_eq!(store_twice, store_once);
    assert_eq!(twice.last_remote_ts(), once.last_remote_ts());
    assert_eq!(twice.last_seq_seen(&"A".to_string()), once.last_seq_seen(&"A".to_string()));
}

#[test]
fn own_messages_are_never_applied() {
    let mut b = TransformSync::new("B".to_string());
    let mut store = at([0.0, 0.0, 0.0]);
    for seq in [0u64, 1, 1000, u64::MAX] {
        let out = b.apply_remote_transform(msg("B", at([6.0, 6.0, 6.0]), seq, 5));
        assert_eq!(out, ApplyOutcome::SelfEcho);
        write_back(&mut store, out);
    }
    assert_eq!(store, at([0.0, 0.0, 0.0]));
    assert_eq!(b.last_seq_seen(&"B".to_string()), None);
    assert_eq!(b.last_remote_ts(), None);
}

#[test]
fn first_tick_always_sends() {
    let mut a = TransformSync::new("A".to_string());
    let p = at([0.0, 0.0, 0.0]);
    let m = a.broadcast_current_transform(p, false, 77).expect("first tick sends");
    assert_eq!(m.pose(), p);
    assert_eq!(m.instance_id, "A");
    assert_eq!(m.seq, 1);
    assert_eq!(m.ts_millis, 77);
}

#[test]
fn moved_pose_is_sent_with_advanced_sequence() {
    let mut a = TransformSync::new("A".to_string());
    assert!(a.broadcast_current_transform(at([0.0, 0.0, 0.0]), true, 0).is_some());
    assert!(a.broadcast_current_transform(at([0.0, 0.0, 0.0]), false, 50).is_none());
    assert!(a.broadcast_current_transform(at([0.0, 0.0, 0.0]), false, 100).is_none());
    let m = a
        .broadcast_current_transform(at([0.5, 0.0, 0.0]), true, 150)
        .expect("a moved pose is sent");
    assert_eq!(m.seq, 4);
    assert_eq!(m.pose(), at([0.5, 0.0, 0.0]));
    assert_eq!(a.last_sent_pose(), Some(at([0.5, 0.0, 0.0])));
}

#[test]
fn non_finite_components_pass_through() {
    let mut b = TransformSync::new("B".to_string());
    let p = pose([f32::NAN, f32::INFINITY, -0.0], [0.0, 0.0, 0.0, 1.0], [1.0, 1.0, 1.0]);
    let out = b.apply_remote_transform(msg("A", p, 1, 0));
    assert_eq!(out, ApplyOutcome::Accepted(p));
}

#[test]
fn new_engine_starts_empty() {
    let s = TransformSync::new("peer-1".to_string());
    assert_eq!(s.instance_id(), "peer-1");
    assert_eq!(s.seq_out(), 0);
    assert_eq!(s.last_sent_pose(), None);
    assert_eq!(s.last_remote_ts(), None);
    assert_eq!(s.last_seq_seen(&"peer-2".to_string()), None);
}

#[test]
fn watermarks_track_each_sender() {
    let mut w = SeqWatermarks::new();
    assert_eq!(w.get(&"A".to_string()), None);
    w.insert("A".to_string(), 3);
    w.insert("C".to_string(), 9);
    w.insert("A".to_string(), 5);
    assert_eq!(w.get(&"A".to_string()), Some(5));
    assert_eq!(w.get(&"C".to_string()), Some(9));
    assert_eq!(w.get(&"D".to_string()), None);
}

#[test]
fn message_pose_collects_its_components() {
    let p = pose([1.0, 2.0, 3.0], [0.1, 0.2, 0.3, 0.9], [4.0, 5.0, 6.0]);
    let m = msg("A", p, 1, 0);
    assert_eq!(m.pose(), p);
}
