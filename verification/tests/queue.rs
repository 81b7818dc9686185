use virtio_gpu_nv::queue::{Action, Event, QueueKind, QueueService};

/// Feeds events to the service of a queue and collects what it asks for.
fn run(kind: QueueKind, events: &[Event]) -> Vec<Action> {
    let mut service = QueueService::start(kind);
    events
        .iter()
        .map(|e| {
            assert!(service.awaits(*e));
            service.next(*e)
        })
        .collect()
}

#[test]
fn control_queue() {
    let actions = run(
        QueueKind::Control,
        &[
            Event::Popped(Some(4)),
            Event::Read { ok: true },
            Event::Served { len: 16, capacity: 16 },
            Event::Written { ok: true, bytes: 16 },
            Event::Returned { ok: true },
            // Too large for the guest.
            Event::Popped(Some(5)),
            Event::Read { ok: true },
            Event::Served { len: 16, capacity: 15 },
            Event::Returned { ok: false },
            // Cut off while it was written.
            Event::Popped(Some(6)),
            Event::Read { ok: true },
            Event::Served { len: 0, capacity: 0 },
            Event::Written { ok: false, bytes: 3 },
            Event::Returned { ok: true },
            Event::Popped(None),
        ],
    );
    assert_eq!(
        actions,
        vec![
            Action::Read { index: 4 },
            Action::Serve { index: 4 },
            Action::Write { index: 4 },
            Action::AddUsed { index: 4, len: 16 },
            Action::Pop,
            Action::Read { index: 5 },
            Action::Serve { index: 5 },
            Action::AddUsed { index: 5, len: 0 },
            Action::Pop,
            Action::Read { index: 6 },
            Action::Serve { index: 6 },
            Action::Write { index: 6 },
            Action::AddUsed { index: 6, len: 0 },
            Action::Pop,
            Action::Finish { signal: true },
        ]
    );
}

#[test]
fn request_queue() {
    let actions = run(
        QueueKind::Request,
        &[
            Event::Popped(Some(1)),
            Event::Read { ok: true },
            Event::Served { len: 0, capacity: 8 },
            Event::Returned { ok: true },
            Event::Popped(Some(2)),
            Event::Read { ok: true },
            Event::Served { len: 20, capacity: 20 },
            Event::Written { ok: false, bytes: 7 },
            Event::Returned { ok: true },
            Event::Popped(None),
        ],
    );
    assert_eq!(actions[2], Action::AddUsed { index: 1, len: 0 });
    assert_eq!(actions[6], Action::Write { index: 2 });
    assert_eq!(actions[7], Action::AddUsed { index: 2, len: 7 });
    assert_eq!(actions[9], Action::Finish { signal: true });
}

#[test]
fn guest_is_not_told_of_nothing() {
    let empty = run(QueueKind::Control, &[Event::Popped(None)]);
    assert_eq!(empty, vec![Action::Finish { signal: false }]);
    // A request that cannot be read is dropped.
    let dropped = run(
        QueueKind::Request,
        &[Event::Popped(Some(1)), Event::Read { ok: false }, Event::Popped(None)],
    );
    assert_eq!(
        dropped,
        vec![Action::Read { index: 1 }, Action::Pop, Action::Finish { signal: false }]
    );
}

#[test]
fn events_come_in_turn() {
    let mut service = QueueService::start(QueueKind::Request);
    assert!(!service.awaits(Event::Read { ok: true }));
    service.next(Event::Popped(None));
    assert!(!service.awaits(Event::Popped(None)));
}
