use zellij_server::terminal_bytes::{ListenAction, ReadEvent, ReadMode, TerminalBytes};

#[test]
fn queued_input_waits_for_the_output_to_settle() {
    let mut reader = TerminalBytes::new(3, true);
    assert_eq!(reader.read_mode(), ReadMode::Blocking);
    assert_eq!(reader.on_read(ReadEvent::Bytes(12)), ListenAction::ForwardBytes);
    assert_eq!(reader.read_mode(), ReadMode::WithQuietTimeout);
    assert_eq!(reader.on_read(ReadEvent::Bytes(5)), ListenAction::ForwardBytes);
    assert_eq!(reader.read_mode(), ReadMode::WithQuietTimeout);
    assert_eq!(reader.on_read(ReadEvent::QuietTimeout), ListenAction::WritePendingInput);
    assert_eq!(reader.read_mode(), ReadMode::Blocking);
    assert_eq!(reader.on_read(ReadEvent::Bytes(5)), ListenAction::ForwardBytes);
    assert_eq!(reader.read_mode(), ReadMode::Blocking);
    assert_eq!(reader.on_read(ReadEvent::QuietTimeout), ListenAction::ReadAgain);
}

#[test]
fn the_end_of_output_or_a_failed_read_finishes() {
    let mut reader = TerminalBytes::new(3, false);
    assert_eq!(reader.on_read(ReadEvent::Bytes(0)), ListenAction::Finish);
    assert!(reader.finished);
    let mut failing = TerminalBytes::new(4, true);
    assert_eq!(failing.on_read(ReadEvent::Failed), ListenAction::Finish);
    assert!(failing.finished);
}

#[test]
fn a_quiet_period_before_any_output_writes_nothing() {
    let mut reader = TerminalBytes::new(3, true);
    assert_eq!(reader.on_read(ReadEvent::QuietTimeout), ListenAction::ReadAgain);
    assert!(reader.has_pending_write);
    assert_eq!(reader.on_read(ReadEvent::Bytes(2)), ListenAction::ForwardBytes);
    assert_eq!(reader.on_read(ReadEvent::QuietTimeout), ListenAction::WritePendingInput);
}

#[test]
fn queued_input_goes_out_at_the_first_quiet_period_after_output_only() {
    let mut reader = TerminalBytes::new(1, true);
    let events = [
        ReadEvent::QuietTimeout,
        ReadEvent::Bytes(5),
        ReadEvent::Bytes(2),
        ReadEvent::QuietTimeout,
        ReadEvent::Bytes(3),
        ReadEvent::QuietTimeout,
        ReadEvent::Bytes(0),
    ];
    let actions: Vec<ListenAction> = events.iter().map(|e| reader.on_read(*e)).collect();
    assert_eq!(
        actions,
        vec![
            ListenAction::ReadAgain,
            ListenAction::ForwardBytes,
            ListenAction::ForwardBytes,
            ListenAction::WritePendingInput,
            ListenAction::ForwardBytes,
            ListenAction::ReadAgain,
            ListenAction::Finish,
        ]
    );
}

#[test]
fn a_plain_reader_forwards_each_chunk_then_finishes() {
    let mut reader = TerminalBytes::new(2, false);
    for n in [4usize, 1, 7] {
        assert_eq!(reader.read_mode(), ReadMode::Blocking);
        assert_eq!(reader.on_read(ReadEvent::Bytes(n)), ListenAction::ForwardBytes);
    }
    assert_eq!(reader.on_read(ReadEvent::Failed), ListenAction::Finish);
    assert!(reader.finished);
}
