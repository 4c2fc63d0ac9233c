use conduit::channel::{ChannelError, ChannelEvent, ChannelState};

#[test]
fn write_respects_window() {
    let mut chan = ChannelState::new();
    chan.set_write_window(5);
    assert!(chan.writable());
    // fewer bytes than the window: all accounted
    let n = chan.write(&[1, 2, 3], false).unwrap();
    assert_eq!(n, 3);
    assert_eq!(chan.write_window(), 2);
    // more bytes than the window: truncated to the window
    let n = chan.write(&[4, 5, 6, 7], false).unwrap();
    assert_eq!(n, 2);
    assert_eq!(chan.write_window(), 0);
    assert!(!chan.writable());
}

#[test]
fn write_on_empty_window_would_block() {
    let mut chan = ChannelState::new();
    assert!(matches!(chan.write(&[1], false), Err(ChannelError::WouldBlock)));
    assert_eq!(chan.write_window(), 0);
}

#[test]
fn window_advertisement_replaces_the_count() {
    let mut chan = ChannelState::new();
    chan.set_write_window(2);
    let n = chan.write(&[1, 2], true).unwrap();
    assert_eq!(n, 2);
    chan.set_write_window(100);
    assert_eq!(chan.write_window(), 100);
}

#[test]
fn events_drain_in_order() {
    let mut chan = ChannelState::new();
    chan.push_event(ChannelEvent::Data { data: vec![1], is_stderr: false });
    chan.push_event(ChannelEvent::Eof);
    chan.push_event(ChannelEvent::Close);
    assert!(matches!(chan.pop_event(), Some(ChannelEvent::Data { .. })));
    assert!(matches!(chan.pop_event(), Some(ChannelEvent::Eof)));
    assert!(matches!(chan.pop_event(), Some(ChannelEvent::Close)));
    assert!(chan.pop_event().is_none());
}

#[test]
fn close_marks_the_channel() {
    let mut chan = ChannelState::new();
    chan.send_eof();
    chan.send_exit_status(0);
    assert!(!chan.closed());
    chan.send_close();
    assert!(chan.closed());
}
