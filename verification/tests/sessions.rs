use yzendris::protocol::Event;
use yzendris::session::{
    client_dispatch, drive_step, host_inbound, next_backoff, outbound_frames, wants_clipboard, ClientDispatch,
    HostInbound, ReadOutcome, Reconnect, INITIAL_BACKOFF_MS, MAX_BACKOFF_MS,
};

#[test]
fn backoff_doubles_up_to_thirty_seconds() {
    assert_eq!(next_backoff(1000), 2000);
    assert_eq!(next_backoff(14999), 29998);
    assert_eq!(next_backoff(15000), 30000);
    assert_eq!(next_backoff(30000), 30000);
    assert_eq!(next_backoff(u64::MAX), 30000);
    let mut r = Reconnect::new();
    let waits: Vec<u64> = (0..7).map(|_| r.on_connect_failed()).collect();
    assert_eq!(waits, vec![1000, 2000, 4000, 8000, 16000, 30000, 30000]);
    r.on_connected();
    assert_eq!(r.backoff_ms, INITIAL_BACKOFF_MS);
    assert_eq!(r.on_disconnected(), 1000);
    assert!(waits.iter().all(|w| *w <= MAX_BACKOFF_MS));
}

#[test]
fn capture_start_carries_the_host_clipboard() {
    assert!(wants_clipboard(&Event::CaptureStart, true));
    assert!(!wants_clipboard(&Event::CaptureStart, false));
    assert!(!wants_clipboard(&Event::CaptureEnd, true));
    let frames = outbound_frames(Event::CaptureStart, true, Some("hola".into()));
    assert_eq!(frames.len(), 2);
    assert!(matches!(&frames[0], Event::ClipboardText { text } if text == "hola"));
    assert!(matches!(frames[1], Event::CaptureStart));
    let frames = outbound_frames(Event::CaptureStart, true, None);
    assert_eq!(frames.len(), 1);
    let frames = outbound_frames(Event::CaptureStart, false, Some("x".into()));
    assert_eq!(frames.len(), 1);
    let frames = outbound_frames(Event::MouseMove { dx: 1, dy: 2 }, true, Some("x".into()));
    assert_eq!(frames.len(), 1);
    assert!(matches!(frames[0], Event::MouseMove { dx: 1, dy: 2 }));
}

#[test]
fn host_answers_each_client_frame() {
    assert!(matches!(host_inbound(None, true), HostInbound::Finish));
    assert!(matches!(host_inbound(Some(Event::Heartbeat), true), HostInbound::Nothing));
    assert!(matches!(
        host_inbound(Some(Event::ClipboardText { text: "a".into() }), true),
        HostInbound::WriteClipboard(t) if t == "a"
    ));
    assert!(matches!(host_inbound(Some(Event::ClipboardText { text: "a".into() }), false), HostInbound::Nothing));
    assert!(matches!(
        host_inbound(Some(Event::EdgeReached { edge: 1, frac_bits: 0.5f32.to_bits() }), true),
        HostInbound::ReleaseToward { edge: 1, frac_bits } if frac_bits == 0.5f32.to_bits()
    ));
    assert!(matches!(
        host_inbound(Some(Event::ClientInfo { width: 2560, height: 1440 }), true),
        HostInbound::SetResolution { width: 2560, height: 1440 }
    ));
    assert!(matches!(host_inbound(Some(Event::KeyPress { keycode: 1 }), true), HostInbound::Nothing));
}

#[test]
fn a_lost_connection_releases_capture_and_stops() {
    for r in [ReadOutcome::TimedOut, ReadOutcome::Failed, ReadOutcome::Closed] {
        let s = drive_step(r, true);
        assert!(s.stop);
        assert!(matches!(s.forward, Some(Event::CaptureEnd)));
        assert!(s.reply.is_none());
    }
}

#[test]
fn client_steps_for_received_frames() {
    let s = drive_step(ReadOutcome::Received(Event::Heartbeat), true);
    assert!(matches!(s.reply, Some(Event::Heartbeat)));
    assert!(s.stop_if_reply_fails);
    assert!(s.forward.is_none() && !s.stop);

    let s = drive_step(ReadOutcome::Received(Event::ClipboardText { text: "t".into() }), true);
    assert_eq!(s.write_clipboard.as_deref(), Some("t"));
    assert!(s.forward.is_none());
    let s = drive_step(ReadOutcome::Received(Event::ClipboardText { text: "t".into() }), false);
    assert!(s.write_clipboard.is_none());

    let s = drive_step(ReadOutcome::Received(Event::CaptureEnd), true);
    assert!(s.ship_clipboard);
    assert!(matches!(s.forward, Some(Event::CaptureEnd)));
    assert!(!s.stop_if_forward_fails && !s.stop);
    let s = drive_step(ReadOutcome::Received(Event::CaptureEnd), false);
    assert!(!s.ship_clipboard);

    let s = drive_step(ReadOutcome::Received(Event::KeyPress { keycode: 30 }), true);
    assert!(matches!(s.forward, Some(Event::KeyPress { keycode: 30 })));
    assert!(s.stop_if_forward_fails);
    assert!(!s.stop && !s.ship_clipboard && s.reply.is_none());
}

#[test]
fn client_loop_dispatch() {
    assert_eq!(client_dispatch(&Event::CaptureEnd), ClientDispatch::EndCapture);
    assert_eq!(client_dispatch(&Event::CaptureStart), ClientDispatch::StartCapture);
    assert_eq!(
        client_dispatch(&Event::EnterAt { edge: 2, frac_bits: 7 }),
        ClientDispatch::EnterAt { edge: 2, frac_bits: 7 }
    );
    assert_eq!(client_dispatch(&Event::MouseMove { dx: -1, dy: 4 }), ClientDispatch::MoveAndTrack { dx: -1, dy: 4 });
    assert_eq!(client_dispatch(&Event::Scroll { dx: 0, dy: 1 }), ClientDispatch::Inject);
}
