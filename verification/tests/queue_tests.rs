use barrier_coordinator::command::Command;
use barrier_coordinator::error::BarrierError;
use barrier_coordinator::notifier::{Notifier, NotifierEventKind};
use barrier_coordinator::scheduled::{ScheduledBarriers, ScheduledEntry};

fn entry(command: Command, ids: &[u64]) -> ScheduledEntry {
    ScheduledEntry {
        command,
        notifiers: ids.iter().map(|id| Notifier::new(*id)).collect(),
    }
}

#[test]
fn test_push_pop_fifo() {
    let mut q = ScheduledBarriers::new();
    assert!(q.is_empty());
    let wake = q.push(entry(Command::Pause, &[1]));
    assert!(wake);
    let wake = q.push(entry(Command::Resume, &[2]));
    assert!(!wake);
    let first = q.pop_or_default();
    assert!(matches!(first.command, Command::Pause));
    let second = q.pop_or_default();
    assert!(matches!(second.command, Command::Resume));
}

#[test]
fn test_pop_or_default_synthesises_checkpoint() {
    let mut q = ScheduledBarriers::new();
    let got = q.pop_or_default();
    assert!(matches!(got.command, Command::Plain));
    assert!(got.notifiers.is_empty());
}

#[test]
fn test_attach_notifiers() {
    let mut q = ScheduledBarriers::new();
    // attaching on an empty queue synthesises a plain checkpoint and wakes
    let wake = q.attach_notifiers(vec![Notifier::new(5)]);
    assert!(wake);
    // attaching on a non-empty queue extends the head entry
    let wake = q.attach_notifiers(vec![Notifier::new(6)]);
    assert!(!wake);
    let head = q.pop_or_default();
    assert!(matches!(head.command, Command::Plain));
    assert_eq!(head.notifiers.len(), 2);
    assert_eq!(head.notifiers[0].id, 5);
    assert_eq!(head.notifiers[1].id, 6);
}

#[test]
fn test_abort_fails_all_notifiers() {
    let mut q = ScheduledBarriers::new();
    q.push(entry(Command::Pause, &[1, 2]));
    q.push(entry(Command::Plain, &[3]));
    let events = q.abort();
    assert!(q.is_empty());
    assert_eq!(events.len(), 3);
    for (event, id) in events.iter().zip([1u64, 2, 3]) {
        assert_eq!(event.notifier_id, id);
        assert!(matches!(event.kind, NotifierEventKind::Failed(BarrierError::Aborted)));
    }
}
