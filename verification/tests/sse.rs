use strandgut::scan::ScanResult;
use strandgut::sse::{done_frame, found_frame, initial_event, progress_frame, ChannelPoll, SseEvent, SseFrame, SseState};

fn result(port: u16) -> ScanResult {
    ScanResult { host: "h".into(), port, service_name: None, icon_slug: None, title: None, reachable: true }
}

#[test]
fn frames_text() {
    assert_eq!(progress_frame(3, 24), "event: progress\ndata: {\"scanned\":3,\"total\":24}\n\n");
    assert_eq!(progress_frame(0, 65535), "event: progress\ndata: {\"scanned\":0,\"total\":65535}\n\n");
    assert_eq!(found_frame("{\"port\":80}"), "event: found\ndata: {\"port\":80}\n\n");
    assert_eq!(done_frame(), "event: done\n\n");
}

#[test]
fn initial_progress_only_for_larger_scans() {
    assert_eq!(initial_event(9), None);
    assert_eq!(initial_event(10), Some(SseEvent::Progress { scanned: 0, total: 10 }));
}

#[test]
fn stream_emits_found_progress_and_done_once() {
    let mut s = SseState::new(33);
    assert_eq!(s.on_channel(ChannelPoll::Pending), None);
    assert_eq!(s.on_tick(0), None);
    assert_eq!(s.on_tick(5), Some(SseFrame::Progress { scanned: 5, total: 33 }));
    assert_eq!(s.on_tick(5), None);
    assert_eq!(
        s.on_channel(ChannelPoll::Event(SseEvent::Result(result(80)))),
        Some(SseFrame::Found(result(80)))
    );
    assert_eq!(s.on_channel(ChannelPoll::Closed), Some(SseFrame::Done));
    assert!(s.done);
    assert_eq!(s.on_channel(ChannelPoll::Closed), None);
    assert_eq!(s.on_tick(30), None);
}

#[test]
fn small_scans_do_not_tick() {
    let mut s = SseState::new(9);
    assert!(!s.tracks_progress);
    assert_eq!(s.on_tick(4), None);
    assert_eq!(
        s.on_channel(ChannelPoll::Event(SseEvent::Progress { scanned: 2, total: 9 })),
        Some(SseFrame::Progress { scanned: 2, total: 9 })
    );
    assert_eq!(s.last_emitted, 2);
}
