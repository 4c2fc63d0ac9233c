use conduit::channel::{ChannelEvent, ChannelState};
use conduit::proxy::{GitProxy, ProxyAction};

fn flatten(chunks: Vec<Vec<u8>>) -> Vec<u8> {
    let mut out = Vec::new();
    for c in chunks {
        out.extend_from_slice(&c);
    }
    out
}

#[test]
fn fetch_forwards_stdout_verbatim() {
    // a fetch: child stdout crosses to the channel unchanged, then the
    // closing frames go out with the child's exit code
    let chan = ChannelState::new();
    let mut p = GitProxy::new(chan, 4096);
    p.set_write_window(1 << 20);
    assert_eq!(p.stdout_read_budget(), 4096);
    p.on_child_stdout(&[10, 20, 30, 40]);
    assert_eq!(p.stdout_read_budget(), 0);
    let (out, err) = p.pump();
    assert_eq!(flatten(out), vec![10, 20, 30, 40]);
    assert!(err.is_empty());
    assert_eq!(p.stdout_read_budget(), 4096);
    p.on_child_stdout(&[50]);
    let (out, _) = p.pump();
    assert_eq!(flatten(out), vec![50]);
    p.on_child_stdout_eof();
    p.on_child_stderr_eof();
    p.on_child_exit(0);
}

#[test]
fn push_rejected_forwards_stderr_and_status() {
    // a rejected push: the hook's stderr is delivered, then exit status 1
    let chan = ChannelState::new();
    let mut p = GitProxy::new(chan, 4096);
    p.set_write_window(1 << 20);
    p.on_child_stderr(b"pre-receive hook declined\n");
    let (out, err) = p.pump();
    assert!(out.is_empty());
    assert_eq!(flatten(err), b"pre-receive hook declined\n".to_vec());
    p.on_child_stdout_eof();
    p.on_child_stderr_eof();
    p.on_child_exit(1);
}

#[test]
fn small_window_truncates_and_resumes() {
    let chan = ChannelState::new();
    let mut p = GitProxy::new(chan, 16);
    p.set_write_window(2);
    p.on_child_stdout(&[1, 2, 3, 4, 5]);
    let (out, _) = p.pump();
    assert_eq!(flatten(out), vec![1, 2]);
    // window exhausted: nothing more until the peer advertises again
    let (out, _) = p.pump();
    assert!(out.is_empty());
    assert_eq!(p.stdout_read_budget(), 0);
    p.set_write_window(16);
    let (out, _) = p.pump();
    assert_eq!(flatten(out), vec![3, 4, 5]);
}

#[test]
fn window_zero_stalls_child_reads() {
    // backpressure: a full buffer keeps the read budget at zero
    let chan = ChannelState::new();
    let mut p = GitProxy::new(chan, 8);
    p.on_child_stdout(&[1, 2, 3, 4, 5, 6, 7, 8]);
    let (out, _) = p.pump();
    assert!(out.is_empty());
    assert_eq!(p.stdout_read_budget(), 0);
    assert_eq!(p.stderr_read_budget(), 8);
}

#[test]
fn events_map_to_driver_actions() {
    let chan = ChannelState::new();
    let mut p = GitProxy::new(chan, 16);
    let a = p.handle_event(ChannelEvent::Data { data: vec![1, 2], is_stderr: false });
    match a {
        ProxyAction::WriteChildStdin(d) => assert_eq!(d, vec![1, 2]),
        _ => panic!("expected a stdin write"),
    }
    assert!(matches!(
        p.handle_event(ChannelEvent::Data { data: vec![1], is_stderr: true }),
        ProxyAction::ProtocolViolation
    ));
    assert!(matches!(p.handle_event(ChannelEvent::Eof), ProxyAction::CloseChildStdin));
    assert!(matches!(
        p.handle_event(ChannelEvent::ExecRequest { command: String::from("x") }),
        ProxyAction::Ignore
    ));
    assert!(matches!(p.handle_event(ChannelEvent::Close), ProxyAction::BeginTeardown));
}

#[test]
fn queued_events_drain_through_proxy() {
    let chan = ChannelState::new();
    let mut p = GitProxy::new(chan, 16);
    p.push_event(ChannelEvent::Eof);
    p.push_event(ChannelEvent::Close);
    assert!(matches!(p.next_event(), Some(ChannelEvent::Eof)));
    assert!(matches!(p.next_event(), Some(ChannelEvent::Close)));
    assert!(p.next_event().is_none());
}
