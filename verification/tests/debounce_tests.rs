use progresshub::debounced::{debounced_progress_stream, PollStep};
use progresshub::debounced_progress::{create_progress_tracking_writer, DebouncedProgressTrackingWriter};

fn ready(step: PollStep<u32>) -> Option<u32> {
    match step {
        PollStep::Ready(v) => Some(v),
        _ => None,
    }
}

#[test]
fn first_event_goes_through_the_speed_lane() {
    let mut s = debounced_progress_stream::<u32>(100, 8);
    assert!(matches!(s.poll_step(0, false, false), PollStep::Pending));
    assert!(s.offer(1));
    assert_eq!(ready(s.poll_step(1000, false, false)), Some(1));
    let m = s.metrics();
    assert_eq!(m.events_processed, 1);
    assert_eq!(m.events_immediate, 1);
    assert!(!m.has_pending_item);
}

#[test]
fn rapid_events_are_held_until_the_delay_expires() {
    let mut s = debounced_progress_stream::<u32>(100, 8);
    s.offer(1);
    assert_eq!(ready(s.poll_step(1000, false, false)), Some(1));
    s.offer(2);
    // 10 ms after the previous event: held back
    assert!(matches!(s.poll_step(1010, false, false), PollStep::Again));
    assert!(s.metrics().has_pending_item);
    // The delay expires: the held event is emitted and counted as debounced
    assert_eq!(ready(s.poll_step(1110, true, false)), Some(2));
    assert_eq!(s.metrics().events_debounced, 1);
    // An event long after the previous one goes through at once
    s.offer(3);
    assert_eq!(ready(s.poll_step(5000, false, false)), Some(3));
}

#[test]
fn nearly_full_queue_is_coalesced_into_its_latest_event() {
    let mut s = debounced_progress_stream::<u32>(100, 4);
    for v in 1..=4u32 {
        assert!(s.offer(v));
    }
    assert!(!s.offer(5), "a full queue drops the event");
    assert!(s.is_queue_nearly_full());
    assert_eq!(s.queue_len(), 4);
    assert_eq!(ready(s.poll_step(0, false, false)), Some(4));
    assert_eq!(s.queue_len(), 0);
    assert_eq!(s.metrics().events_debounced, 3);
    assert_eq!(s.queue_capacity(), 4);
}

#[test]
fn disconnection_flushes_then_ends() {
    let mut s = debounced_progress_stream::<u32>(100, 8);
    s.offer(1);
    s.poll_step(0, false, false);
    s.offer(2);
    assert!(matches!(s.poll_step(5, false, false), PollStep::Again));
    assert_eq!(ready(s.poll_step(6, false, true)), Some(2));
    assert!(matches!(s.poll_step(7, false, true), PollStep::End));
}

#[test]
fn writer_reports_first_write_then_throttles() {
    let mut w = create_progress_tracking_writer("file.bin".to_string(), 100);
    let first = w.record_write(10, 1000).expect("first write is reported");
    assert_eq!(first.bytes_downloaded, 10);
    assert!(!first.completed);
    assert!(w.record_write(10, 1020).is_none());
    let later = w.record_write(80, 1050).expect("interval passed");
    assert_eq!(later.bytes_downloaded, 100);
    assert!(later.completed);
    assert!(w.send_progress_update(true, 1051).is_some());
    assert_eq!(w.bytes_written(), 100);
}

#[test]
fn writer_final_report() {
    let w = DebouncedProgressTrackingWriter::new("f".to_string(), 0);
    assert!(w.final_report().is_none());
    let mut w = DebouncedProgressTrackingWriter::new("f".to_string(), 0);
    w.record_write(30, 0);
    let r = w.final_report().unwrap();
    assert_eq!(r.total_bytes, 30);
    assert!(r.completed);
    w.set_total_bytes(50);
    assert_eq!(w.total_bytes(), 50);
    assert_eq!(w.final_report().unwrap().total_bytes, 50);
}

#[test]
fn a_disconnected_run_emits_sent_events_at_most_once_then_ends() {
    let mut s = debounced_progress_stream::<u32>(100, 16);
    let sent: Vec<u32> = (1..=10).collect();
    for v in &sent {
        assert!(s.offer(*v));
    }
    let mut out = Vec::new();
    let mut polls = 0;
    loop {
        polls += 1;
        assert!(polls <= 2 * sent.len() + 1, "the run ends");
        match s.poll_step(polls as u64, false, true) {
            PollStep::Ready(v) => out.push(v),
            PollStep::End => break,
            _ => {}
        }
    }
    assert!(!out.is_empty());
    assert!(out.len() <= sent.len());
    let mut seen = out.clone();
    seen.sort();
    seen.dedup();
    assert_eq!(seen.len(), out.len(), "no event twice");
    assert!(out.iter().all(|v| sent.contains(v)));
    assert!(s.queue_len() <= s.queue_capacity());
}

#[test]
fn later_writes_wait_for_the_interval() {
    let mut w = create_progress_tracking_writer("f.bin".to_string(), 1000);
    assert!(w.record_write(1, 100).is_some());
    assert_eq!(w.last_update_ms, Some(100));
    assert!(w.record_write(1, 149).is_none());
    assert_eq!(w.last_update_ms, Some(100));
    assert_eq!(w.bytes_written(), 2);
    let r = w.record_write(3, 150).expect("50 ms after the last report");
    assert_eq!(r.bytes_downloaded, 5);
    assert_eq!(w.last_update_ms, Some(150));
}
