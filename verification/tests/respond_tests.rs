use conduit::channel::{ChannelEvent, ChannelState};
use conduit::respond::ImmediateResponse;

fn flatten(chunks: Vec<Vec<u8>>) -> Vec<u8> {
    let mut out = Vec::new();
    for c in chunks {
        out.extend_from_slice(&c);
    }
    out
}

#[test]
fn delivers_both_payloads_then_finishes() {
    let chan = ChannelState::new();
    let mut r = ImmediateResponse::new(chan, b"out!".to_vec(), b"err!".to_vec(), 0);
    assert!(!r.finished());
    r.set_write_window(1 << 20);
    let (out, err) = r.step();
    assert_eq!(flatten(out), b"out!".to_vec());
    assert_eq!(flatten(err), b"err!".to_vec());
    assert!(r.finished());
}

#[test]
fn waits_for_window_before_finishing() {
    let chan = ChannelState::new();
    let mut r = ImmediateResponse::new(chan, b"abcdef".to_vec(), Vec::new(), 1);
    r.set_write_window(4);
    let (out, err) = r.step();
    assert_eq!(flatten(out), b"abcd".to_vec());
    assert!(err.is_empty());
    assert!(!r.finished());
    r.set_write_window(4);
    let (out, _) = r.step();
    assert_eq!(flatten(out), b"ef".to_vec());
    assert!(r.finished());
    // a later step neither repeats payload nor reopens the channel
    let (out, err) = r.step();
    assert!(out.is_empty());
    assert!(err.is_empty());
    assert!(r.finished());
}

#[test]
fn empty_payloads_finish_immediately() {
    let chan = ChannelState::new();
    let mut r = ImmediateResponse::new(chan, Vec::new(), Vec::new(), 1);
    let (out, err) = r.step();
    assert!(out.is_empty());
    assert!(err.is_empty());
    assert!(r.finished());
}

#[test]
fn discards_events_while_responding() {
    let chan = ChannelState::new();
    let mut r = ImmediateResponse::new(chan, b"x".to_vec(), Vec::new(), 0);
    r.push_event(ChannelEvent::Eof);
    r.push_event(ChannelEvent::Close);
    assert!(matches!(r.next_event(), Some(ChannelEvent::Eof)));
    assert!(matches!(r.next_event(), Some(ChannelEvent::Close)));
    assert!(r.next_event().is_none());
}
