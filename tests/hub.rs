use metrsd::hub::{emit_to, frame_event, publish, EventEmitter, QUEUE_CAPACITY};
use metrsd::registry::{broadcast, identifiers, probe, Registry};
use tokio::sync::mpsc::channel;

fn sweep(emitter: &mut EventEmitter) -> Vec<u64> {
    let targets = emitter.snapshot();
    let alive = probe(&targets);
    let probed = identifiers(&targets);
    emitter.check_connection(&probed, &alive)
}

#[test]
fn new_hub_is_empty() {
    assert_eq!(EventEmitter::new().len(), 0);
}

#[test]
fn closed_subscriber_removed_by_sweep() {
    let mut emitter = EventEmitter::new();
    let rx = emitter.subscribe().unwrap();
    assert_eq!(emitter.len(), 1);
    drop(rx);
    assert_eq!(emitter.len(), 1);
    let removed = sweep(&mut emitter);
    assert_eq!(removed.len(), 1);
    assert_eq!(emitter.len(), 0);
}

#[test]
fn live_subscriber_survives_sweep() {
    let mut emitter = EventEmitter::new();
    let mut rx = emitter.subscribe().unwrap();
    let gone = emitter.subscribe().unwrap();
    drop(gone);
    let targets = emitter.snapshot();
    let alive = probe(&targets);
    assert_eq!(alive, vec![true, false]);
    let probed = identifiers(&targets);
    let removed = emitter.check_connection(&probed, &alive);
    assert_eq!(removed, vec![probed[1]]);
    assert_eq!(emitter.len(), 1);
    assert_eq!(rx.try_recv().unwrap(), Vec::<u8>::new());
    assert!(sweep(&mut emitter).is_empty());
    assert_eq!(emitter.len(), 1);
}

#[test]
fn subscriber_registered_during_sweep_is_kept() {
    let mut emitter = EventEmitter::new();
    let gone = emitter.subscribe().unwrap();
    drop(gone);
    let targets = emitter.snapshot();
    let alive = probe(&targets);
    let probed = identifiers(&targets);
    let _late = emitter.subscribe().unwrap();
    let removed = emitter.check_connection(&probed, &alive);
    assert_eq!(removed, probed);
    assert_eq!(emitter.len(), 1);
}

#[test]
fn emit_never_removes() {
    let mut emitter = EventEmitter::new();
    let rx = emitter.subscribe().unwrap();
    drop(rx);
    assert_eq!(emitter.emit("{}").unwrap(), vec![false]);
    assert_eq!(emitter.len(), 1);
}

#[test]
fn emit_does_not_wait_on_full_queue() {
    let mut emitter = EventEmitter::new();
    let mut slow = emitter.subscribe().unwrap();
    let mut fast = emitter.subscribe().unwrap();
    for i in 0..QUEUE_CAPACITY + 20 {
        let delivered = emitter.emit(&format!("{i}")).unwrap();
        assert_eq!(delivered, vec![i < QUEUE_CAPACITY, true]);
        assert_eq!(fast.try_recv().unwrap(), format!("{i}\n").into_bytes());
    }
    let mut queued = 0;
    while slow.try_recv().is_ok() {
        queued += 1;
    }
    assert_eq!(queued, QUEUE_CAPACITY);
    assert_eq!(emitter.len(), 2);
}

#[test]
fn emit_refuses_raw_newline() {
    let mut emitter = EventEmitter::new();
    let mut rx = emitter.subscribe().unwrap();
    let err = emitter.emit("{\n}").unwrap_err();
    assert_eq!(err.status, 500);
    assert_eq!(err.msg, "Unable to serialize event: it holds a raw newline");
    assert!(rx.try_recv().is_err());
}

#[test]
fn frame_event_frames_payload() {
    assert_eq!(frame_event("{\"a\":1}").unwrap(), b"{\"a\":1}\n".to_vec());
    assert_eq!(frame_event("a\nb").unwrap_err().status, 500);
}

#[test]
fn emit_to_snapshot_reaches_each_target() {
    let mut emitter = EventEmitter::new();
    let mut a = emitter.subscribe().unwrap();
    let mut b = emitter.subscribe().unwrap();
    let targets = emitter.snapshot();
    assert_eq!(emit_to(&targets, "{\"x\":1}").unwrap(), vec![true, true]);
    assert_eq!(a.try_recv().unwrap(), b"{\"x\":1}\n".to_vec());
    assert_eq!(b.try_recv().unwrap(), b"{\"x\":1}\n".to_vec());
}

#[test]
fn publish_reports_encoding_failure() {
    let mut emitter = EventEmitter::new();
    let mut rx = emitter.subscribe().unwrap();
    let targets = emitter.snapshot();
    let err = publish(&targets, Err("key must be a string".to_string())).unwrap_err();
    assert_eq!(err.status, 500);
    assert_eq!(err.msg, "Unable to serialize event: key must be a string");
    assert!(rx.try_recv().is_err());
    assert_eq!(publish(&targets, Ok("{\"Memory\":{}}".to_string())).unwrap(), vec![true]);
    assert_eq!(rx.try_recv().unwrap(), b"{\"Memory\":{}}\n".to_vec());
}

#[test]
fn registry_removes_only_given_ids() {
    let mut registry = Registry::new();
    let (tx_a, _rx_a) = channel(1);
    let (tx_b, _rx_b) = channel(1);
    let (tx_c, _rx_c) = channel(1);
    let a = registry.add(tx_a);
    let b = registry.add(tx_b);
    let c = registry.add(tx_c);
    assert!(a != b && b != c && a != c);
    let (tx_d, _rx_d) = channel(1);
    let d = registry.add(tx_d);
    registry.remove(&vec![a, c]);
    let left = identifiers(&registry.snapshot());
    assert_eq!(left, vec![b, d]);
}

#[test]
fn broadcast_reports_each_attempt() {
    let mut registry = Registry::new();
    let (tx_a, mut rx_a) = channel(1);
    let (tx_b, rx_b) = channel(1);
    registry.add(tx_a);
    registry.add(tx_b);
    drop(rx_b);
    let snapshot = registry.snapshot();
    assert_eq!(broadcast(&snapshot, &b"x\n".to_vec()), vec![true, false]);
    assert_eq!(broadcast(&snapshot, &b"y\n".to_vec()), vec![false, false]);
    assert_eq!(rx_a.try_recv().unwrap(), b"x\n".to_vec());
    assert_eq!(registry.len(), 2);
}

#[test]
fn subscribe_queue_capacity() {
    let mut emitter = EventEmitter::new();
    let rx = emitter.subscribe().unwrap();
    assert_eq!(rx.max_capacity(), QUEUE_CAPACITY);
    assert_eq!(QUEUE_CAPACITY, 100);
}

#[test]
fn many_subscribers_each_registered_once() {
    let mut emitter = EventEmitter::new();
    let receivers: Vec<_> = (0..20).map(|_| emitter.subscribe().unwrap()).collect();
    assert_eq!(emitter.len(), 20);
    let mut ids = identifiers(&emitter.snapshot());
    ids.sort();
    ids.dedup();
    assert_eq!(ids.len(), 20);
    assert!(sweep(&mut emitter).is_empty());
    drop(receivers);
    assert_eq!(sweep(&mut emitter).len(), 20);
    assert_eq!(emitter.len(), 0);
}
