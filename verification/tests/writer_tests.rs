use tcp_server::writer::SendProgress;

/// Drives the send loop against a sink that accepts at most `cap` bytes per
/// call, flushing after every successful partial write, exactly as the
/// connection handler's loop does.  Returns what the sink received and how
/// many flushes happened.
fn drain_through_sink(data: &[u8], cap: usize) -> (Vec<u8>, usize) {
    let mut received: Vec<u8> = Vec::new();
    let mut flushes: usize = 0;
    let mut progress = SendProgress::new(data.len());
    while !progress.is_done() {
        let remaining = progress.remaining();
        let offered = &data[data.len() - remaining..];
        let n = offered.len().min(cap);
        if n == 0 {
            // A zero-byte write is terminal: stop silently.
            break;
        }
        received.extend_from_slice(&offered[..n]);
        progress.record_write(n);
        flushes += 1;
    }
    (received, flushes)
}

#[test]
fn a_narrow_sink_still_receives_every_byte() {
    let data = b"HTTP/1.1 200 Ok\r\nContent-Length: 5\r\n\r\n\r\n\r\nhello";
    for cap in 1..=data.len() + 3 {
        let (received, flushes) = drain_through_sink(data, cap);
        assert_eq!(received, data.to_vec());
        // One flush per partial write, and no writes after the last byte.
        assert_eq!(flushes, data.len().div_ceil(cap));
    }
}

#[test]
fn a_zero_byte_write_ends_the_loop_silently() {
    let data = b"abcdef";
    let (received, flushes) = drain_through_sink(data, 0);
    assert_eq!(received, Vec::<u8>::new());
    assert_eq!(flushes, 0);
}

#[test]
fn progress_tracks_sent_and_remaining() {
    let mut progress = SendProgress::new(10);
    assert!(!progress.is_done());
    assert_eq!(progress.remaining(), 10);
    progress.record_write(4);
    assert_eq!(progress.remaining(), 6);
    progress.record_write(6);
    assert!(progress.is_done());
    assert_eq!(progress.remaining(), 0);
}

#[test]
fn failure_reports_name_sent_and_total() {
    let mut progress = SendProgress::new(10);
    progress.record_write(4);
    assert_eq!(
        progress.failure_message("broken pipe"),
        "Failed to send data, sent 4/10 bytes. Error: broken pipe"
    );
}
