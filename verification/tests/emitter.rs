use std::sync::mpsc;

use windows_toolbox::emitter::{drops_after_batch, drops_after_report, EventEmitter};
use windows_toolbox::model::communication::{
    CommunicationDirection, CommunicationEvent, CommunicationEventEnvelope, CommunicationKind, CommunicationSessionState,
    MAX_RECORD_BATCH,
};

#[test]
fn full_event_queue_reports_dropped_record_batch_after_capacity_returns() {
    let (sender, receiver) = mpsc::sync_channel(1);
    let mut emitter = EventEmitter::new(CommunicationKind::Udp, 3, sender);
    emitter.status(CommunicationSessionState::Connected, "ready".into());
    emitter.record(
        "12:00:00.000".into(),
        CommunicationDirection::Incoming,
        "loopback".into(),
        vec![1, 2, 3],
        None,
        None,
    );
    emitter.flush(true);
    assert!(matches!(
        receiver.try_recv().unwrap().event,
        CommunicationEvent::Status { .. }
    ));
    emitter.flush(true);
    assert_eq!(receiver.try_recv().unwrap().event, CommunicationEvent::QueueDropped(1));
}

#[test]
fn full_batch_is_sent_without_waiting_for_the_interval() {
    let (sender, receiver) = mpsc::sync_channel(4);
    let mut emitter = EventEmitter::new(CommunicationKind::Tcp, 9, sender);
    for index in 0..MAX_RECORD_BATCH {
        emitter.record(
            "t".into(),
            CommunicationDirection::Incoming,
            "peer".into(),
            vec![index as u8],
            None,
            None,
        );
    }
    assert_eq!(emitter.pending_len(), 0);
    let envelope = receiver.try_recv().unwrap();
    assert_eq!(envelope.kind, CommunicationKind::Tcp);
    assert_eq!(envelope.generation, 9);
    match envelope.event {
        CommunicationEvent::Records(records) => assert_eq!(records.len(), MAX_RECORD_BATCH),
        other => panic!("unexpected event {other:?}"),
    }
}

#[test]
fn finish_reports_dropped_records_once_there_is_room() {
    let (sender, receiver) = mpsc::sync_channel(1);
    let mut emitter = EventEmitter::new(CommunicationKind::Serial, 2, sender);
    emitter.status(CommunicationSessionState::Connected, "open".into());
    emitter.record("t".into(), CommunicationDirection::Incoming, "COM3".into(), vec![7], None, None);
    emitter.flush(true);
    assert_eq!(emitter.dropped_records(), 1);
    assert!(matches!(receiver.try_recv().unwrap().event, CommunicationEvent::Status { .. }));
    emitter.finish();
    assert_eq!(emitter.dropped_records(), 0);
    assert_eq!(emitter.pending_len(), 0);
    assert_eq!(receiver.try_recv().unwrap().event, CommunicationEvent::QueueDropped(1));
}

#[test]
fn drop_counter_follows_the_batch_and_report_outcomes() {
    assert_eq!(drops_after_batch(2, 3, true), 2);
    assert_eq!(drops_after_batch(2, 3, false), 5);
    assert_eq!(drops_after_batch(2, 0, false), 2);
    assert_eq!(drops_after_batch(u64::MAX - 1, 3, false), u64::MAX);
    assert_eq!(drops_after_report(5, true), 0);
    assert_eq!(drops_after_report(5, false), 5);
    assert_eq!(drops_after_report(0, true), 0);
}

#[test]
fn peers_and_status_events_carry_the_session() {
    let (sender, receiver) = mpsc::sync_channel(4);
    let mut emitter = EventEmitter::new(CommunicationKind::Tcp, 7, sender);
    emitter.peers(Vec::new());
    emitter.status(CommunicationSessionState::Stopped, "done".into());
    assert_eq!(
        receiver.try_recv().unwrap(),
        CommunicationEventEnvelope { kind: CommunicationKind::Tcp, generation: 7, event: CommunicationEvent::Peers(Vec::new()) }
    );
    assert_eq!(
        receiver.try_recv().unwrap(),
        CommunicationEventEnvelope {
            kind: CommunicationKind::Tcp,
            generation: 7,
            event: CommunicationEvent::Status { state: CommunicationSessionState::Stopped, detail: "done".into() },
        }
    );
}
