use ayumi_iso::engine::{
    progress_for, Action, Event, Phase, StartError, TransferEngine, TransferError, CHUNK_SIZE,
    FULL_PROGRESS,
};
use ayumi_iso::request::ValidationError;

/// Runs a transfer against in-memory source and destination, polling after
/// every step. `fail_write_at` makes the write with that index fail.
fn drive(
    engine: &mut TransferEngine,
    source: &[u8],
    total: Option<u64>,
    fail_write_at: Option<usize>,
    polls: &mut Vec<u32>,
) -> Vec<u8> {
    let mut dest = Vec::new();
    let mut offset = 0usize;
    let mut writes = 0usize;
    let mut action = engine.on_event(Event::Opened(total));
    loop {
        polls.push(engine.progress());
        let event = match action {
            Action::Stop => break,
            Action::Read(n) => {
                let end = std::cmp::min(offset + n, source.len());
                let chunk = source[offset..end].to_vec();
                offset = end;
                Event::Read(chunk)
            }
            Action::Write(bytes) => {
                if fail_write_at == Some(writes) {
                    Event::WriteFailed("No such device".to_string())
                } else {
                    writes += 1;
                    dest.extend_from_slice(&bytes);
                    Event::Written
                }
            }
        };
        action = engine.on_event(event);
    }
    dest
}

fn pattern(len: usize) -> Vec<u8> {
    (0..len).map(|i| (i * 31 % 251) as u8).collect()
}

#[test]
fn new_engine_is_idle() {
    let mut engine = TransferEngine::new();
    assert_eq!(engine.phase(), Phase::Idle);
    let snap = engine.snapshot();
    assert_eq!(snap.progress, 0);
    assert!(!snap.running);
    assert!(snap.last_error.is_none());
}

#[test]
fn ten_mib_copy_completes_exactly() {
    let source = pattern(10 * 1024 * 1024);
    let mut engine = TransferEngine::new();
    engine.start("/tmp/src.iso", "/tmp/dest", true).unwrap();
    assert!(engine.is_running());
    let mut polls = Vec::new();
    let dest = drive(&mut engine, &source, Some(source.len() as u64), None, &mut polls);
    assert_eq!(engine.phase(), Phase::Completed);
    assert_eq!(engine.progress(), FULL_PROGRESS);
    assert_eq!(dest.len(), source.len());
    assert_eq!(dest, source);
    let snap = engine.snapshot();
    assert!(!snap.running);
    assert!(snap.last_error.is_none());
    assert_eq!(snap.progress, 1_000_000);
}

#[test]
fn progress_polls_never_decrease() {
    let source = pattern(3 * CHUNK_SIZE + 17);
    let mut engine = TransferEngine::new();
    engine.start("/tmp/src.iso", "/tmp/dest", true).unwrap();
    let mut polls = Vec::new();
    drive(&mut engine, &source, Some(source.len() as u64), None, &mut polls);
    assert!(polls.len() > 4);
    for w in polls.windows(2) {
        assert!(w[0] <= w[1]);
    }
    assert_eq!(*polls.last().unwrap(), FULL_PROGRESS);
}

#[test]
fn start_while_running_is_refused() {
    let mut engine = TransferEngine::new();
    engine.start("/tmp/a.iso", "/media/usb", true).unwrap();
    engine.on_event(Event::Opened(Some(100)));
    let before = engine.progress();
    assert_eq!(engine.start("/tmp/b.iso", "/media/other", true).unwrap_err(), StartError::Busy);
    assert_eq!(engine.phase(), Phase::Reading);
    assert_eq!(engine.progress(), before);
    assert!(engine.is_running());
}

#[test]
fn invalid_start_changes_nothing() {
    let mut engine = TransferEngine::new();
    assert_eq!(
        engine.start("", "/media/usb", true).unwrap_err(),
        StartError::Invalid(ValidationError::EmptySource)
    );
    assert_eq!(engine.phase(), Phase::Idle);
    assert!(!engine.is_running());
}

#[test]
fn write_failure_ends_transfer_with_error() {
    let source = pattern(2 * CHUNK_SIZE + 5);
    let mut engine = TransferEngine::new();
    engine.start("/tmp/src.iso", "/media/usb", true).unwrap();
    let mut polls = Vec::new();
    let dest = drive(&mut engine, &source, Some(source.len() as u64), Some(1), &mut polls);
    assert_eq!(engine.phase(), Phase::Failed(TransferError::WriteError));
    assert_eq!(dest.len(), CHUNK_SIZE);
    let snap = engine.snapshot();
    assert!(!snap.running);
    let err = snap.last_error.unwrap();
    assert_eq!(err.kind, TransferError::WriteError);
    assert!(!err.message.is_empty());
    assert_eq!(err.message, "write failed: No such device");
    // The error is handed out once.
    assert!(engine.snapshot().last_error.is_none());
}

#[test]
fn open_and_read_failures_are_reported() {
    let mut engine = TransferEngine::new();
    engine.start("/tmp/src.iso", "/media/usb", true).unwrap();
    assert!(matches!(engine.on_event(Event::OpenFailed("Permission denied".to_string())), Action::Stop));
    assert_eq!(engine.phase(), Phase::Failed(TransferError::OpenError));
    let err = engine.snapshot().last_error.unwrap();
    assert_eq!(err.message, "could not open: Permission denied");

    engine.start("/tmp/src.iso", "/media/usb", true).unwrap();
    engine.on_event(Event::Opened(None));
    engine.on_event(Event::ReadFailed("Input/output error".to_string()));
    assert_eq!(engine.phase(), Phase::Failed(TransferError::ReadError));
    let snap = engine.snapshot();
    assert!(!snap.running);
    assert_eq!(snap.last_error.unwrap().kind, TransferError::ReadError);
}

#[test]
fn two_sequential_transfers_both_complete() {
    let first = pattern(1000);
    let second = pattern(CHUNK_SIZE + 3);
    let mut engine = TransferEngine::new();
    engine.start("/tmp/one.iso", "/tmp/d1", true).unwrap();
    let mut polls = Vec::new();
    let d1 = drive(&mut engine, &first, Some(first.len() as u64), None, &mut polls);
    assert_eq!(engine.phase(), Phase::Completed);
    assert_eq!(d1, first);

    let req = engine.start("/tmp/two.iso", "/tmp/d2", true).unwrap();
    assert_eq!(req.source_path(), "/tmp/two.iso");
    assert_eq!(engine.phase(), Phase::Opening);
    assert_eq!(engine.progress(), 0);
    let d2 = drive(&mut engine, &second, Some(second.len() as u64), None, &mut polls);
    assert_eq!(engine.phase(), Phase::Completed);
    assert_eq!(engine.progress(), FULL_PROGRESS);
    assert_eq!(d2, second);
}

#[test]
fn restart_after_failure_clears_error() {
    let mut engine = TransferEngine::new();
    engine.start("/tmp/a.iso", "/tmp/d", true).unwrap();
    engine.on_event(Event::OpenFailed("gone".to_string()));
    engine.start("/tmp/a.iso", "/tmp/d", true).unwrap();
    let snap = engine.snapshot();
    assert!(snap.running);
    assert!(snap.last_error.is_none());
    assert_eq!(snap.progress, 0);
}

#[test]
fn cancel_stops_at_chunk_boundary() {
    let source = pattern(3 * CHUNK_SIZE);
    let mut engine = TransferEngine::new();
    engine.start("/tmp/src.iso", "/tmp/dest", true).unwrap();
    engine.on_event(Event::Opened(Some(source.len() as u64)));
    let action = engine.on_event(Event::Read(source[..CHUNK_SIZE].to_vec()));
    assert!(matches!(action, Action::Write(ref b) if b.len() == CHUNK_SIZE));
    engine.request_cancel();
    assert!(engine.is_running());
    assert!(matches!(engine.on_event(Event::Written), Action::Stop));
    assert_eq!(engine.phase(), Phase::Cancelled);
    assert_eq!(engine.progress(), 333_333);
    let snap = engine.snapshot();
    assert!(!snap.running);
    let err = snap.last_error.unwrap();
    assert_eq!(err.kind, TransferError::Cancelled);
    assert_eq!(err.message, "transfer cancelled");
}

#[test]
fn cancel_when_idle_does_nothing() {
    let mut engine = TransferEngine::new();
    engine.request_cancel();
    engine.start("/tmp/a.iso", "/tmp/d", true).unwrap();
    let mut polls = Vec::new();
    let d = drive(&mut engine, &[1, 2, 3], Some(3), None, &mut polls);
    assert_eq!(engine.phase(), Phase::Completed);
    assert_eq!(d, vec![1, 2, 3]);
}

#[test]
fn unknown_length_keeps_progress_until_done() {
    let source = pattern(2 * CHUNK_SIZE + 1);
    let mut engine = TransferEngine::new();
    engine.start("/tmp/src.iso", "/tmp/dest", true).unwrap();
    let mut polls = Vec::new();
    let dest = drive(&mut engine, &source, None, None, &mut polls);
    assert_eq!(dest, source);
    let (last, rest) = polls.split_last().unwrap();
    assert!(rest.iter().all(|p| *p == 0));
    assert_eq!(*last, FULL_PROGRESS);
}

#[test]
fn empty_source_completes_at_full_progress() {
    let mut engine = TransferEngine::new();
    engine.start("/tmp/empty.iso", "/tmp/dest", true).unwrap();
    let mut polls = Vec::new();
    let dest = drive(&mut engine, &[], Some(0), None, &mut polls);
    assert!(dest.is_empty());
    assert_eq!(engine.phase(), Phase::Completed);
    assert_eq!(engine.progress(), FULL_PROGRESS);
}

#[test]
fn unexpected_event_changes_nothing() {
    let mut engine = TransferEngine::new();
    assert!(matches!(engine.on_event(Event::Written), Action::Stop));
    assert_eq!(engine.phase(), Phase::Idle);
    engine.start("/tmp/a.iso", "/tmp/d", true).unwrap();
    assert!(matches!(engine.on_event(Event::Read(vec![1])), Action::Stop));
    assert_eq!(engine.phase(), Phase::Opening);
}

#[test]
fn progress_formula_values() {
    assert_eq!(progress_for(0, Some(10)), 0);
    assert_eq!(progress_for(5, Some(10)), 500_000);
    assert_eq!(progress_for(1, Some(3)), 333_333);
    assert_eq!(progress_for(10, Some(10)), FULL_PROGRESS);
    assert_eq!(progress_for(20, Some(10)), FULL_PROGRESS);
    assert_eq!(progress_for(7, Some(0)), 0);
    assert_eq!(progress_for(7, None), 0);
    assert_eq!(progress_for(u64::MAX, Some(u64::MAX)), FULL_PROGRESS);
}
