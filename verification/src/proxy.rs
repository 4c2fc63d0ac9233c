//! The Git proxy: mediates bytes and lifecycle between the SSH channel and
//! a child process running the requested Git helper.
//!
//! The proxy owns the channel state and two fixed-size ring buffers, one
//! per child output stream. The surrounding driver performs the reads,
//! writes and waits, and reports what happened through the methods here;
//! every decision — how much to accept, what to send, when to emit the
//! closing frames — is made in this module.
//!
//! A ring buffer is refilled only when empty, so the proxy stalls reads
//! from the child whenever the channel cannot accept more bytes, and the
//! pipe's backpressure throttles the child in turn.

use vstd::prelude::*;
use crate::channel::{concat_bytes, lemma_concat_bytes_push, ChannelEvent, ChannelState, Frame};
use crate::ringbuf::RingBuffer;

verus! {

/// What the driver must do after handing an event to the proxy.
pub enum ProxyAction {
    /// Write these bytes to the child's stdin.
    WriteChildStdin(Vec<u8>),
    /// Flush and close the child's stdin.
    CloseChildStdin,
    /// The peer closed the channel: stop pumping and tear down.
    BeginTeardown,
    /// Nothing to do.
    Ignore,
    /// The peer sent stderr data to the server, which no client does:
    /// abort the session.
    ProtocolViolation,
}

pub struct GitProxy {
    chan: ChannelState,
    stdout_buf: RingBuffer,
    stderr_buf: RingBuffer,
    stdout_eof: bool,
    stderr_eof: bool,
    peer_closed: bool,
    exit_code: Option<i32>,
    child_stdout: Ghost<Seq<u8>>,
    child_stderr: Ghost<Seq<u8>>,
}

impl GitProxy {
    pub closed spec fn channel(&self) -> ChannelState {
        self.chan
    }

    /// Every byte the driver has read from the child's stdout, in order.
    pub closed spec fn child_stdout(&self) -> Seq<u8> {
        self.child_stdout@
    }

    /// Every byte the driver has read from the child's stderr, in order.
    pub closed spec fn child_stderr(&self) -> Seq<u8> {
        self.child_stderr@
    }

    pub closed spec fn stdout_buffered(&self) -> Seq<u8> {
        self.stdout_buf.contents()
    }

    pub closed spec fn stderr_buffered(&self) -> Seq<u8> {
        self.stderr_buf.contents()
    }

    pub closed spec fn stdout_closed(&self) -> bool {
        self.stdout_eof
    }

    pub closed spec fn stderr_closed(&self) -> bool {
        self.stderr_eof
    }

    pub closed spec fn peer_closed(&self) -> bool {
        self.peer_closed
    }

    pub closed spec fn exit_code(&self) -> Option<i32> {
        self.exit_code
    }

    /// The proxy invariant. Bytes read from the child and not yet accounted
    /// to the channel sit in the ring buffers, in order; the closing frames
    /// appear exactly as the lifecycle steps emit them.
    pub closed spec fn wf(&self) -> bool {
        &&& self.stdout_buf.wf()
        &&& self.stderr_buf.wf()
        &&& self.chan.stdout_history() + self.stdout_buf.contents() == self.child_stdout@
        &&& self.chan.stderr_history() + self.stderr_buf.contents() == self.child_stderr@
        &&& (match self.exit_code {
            Option::None => {
                &&& !self.chan.is_closed()
                &&& self.chan.frame_history() == if self.stdout_eof {
                    seq![Frame::Eof]
                } else {
                    Seq::<Frame>::empty()
                }
            },
            Option::Some(code) => {
                &&& self.stdout_eof
                &&& self.stderr_eof
                &&& self.chan.is_closed()
                &&& self.stdout_buf.contents().len() == 0
                &&& self.stderr_buf.contents().len() == 0
                &&& self.chan.frame_history() == seq![
                    Frame::Eof,
                    Frame::ExitStatus(code),
                    Frame::Close,
                ]
            },
        })
    }

    /// Take over a fresh channel after its exec request was accepted.
    pub fn new(chan: ChannelState, capacity: usize) -> (r: GitProxy)
        requires
            capacity > 0,
            !chan.is_closed(),
            chan.stdout_history() == Seq::<u8>::empty(),
            chan.stderr_history() == Seq::<u8>::empty(),
            chan.frame_history() == Seq::<Frame>::empty(),
        ensures
            r.wf(),
            r.channel() == chan,
            r.child_stdout() == Seq::<u8>::empty(),
            r.child_stderr() == Seq::<u8>::empty(),
            !r.stdout_closed(),
            !r.stderr_closed(),
            !r.peer_closed(),
            r.exit_code() is None,
    {
        GitProxy {
            chan,
            stdout_buf: RingBuffer::new(capacity),
            stderr_buf: RingBuffer::new(capacity),
            stdout_eof: false,
            stderr_eof: false,
            peer_closed: false,
            exit_code: None,
            child_stdout: Ghost(Seq::empty()),
            child_stderr: Ghost(Seq::empty()),
        }
    }

    /// An engine callback queued an event.
    pub fn push_event(&mut self, event: ChannelEvent)
        requires
            old(self).wf(),
        ensures
            final(self).wf(),
            final(self).channel().queued() == old(self).channel().queued().push(event),
            final(self).child_stdout() == old(self).child_stdout(),
            final(self).child_stderr() == old(self).child_stderr(),
            final(self).exit_code() == old(self).exit_code(),
            final(self).peer_closed() == old(self).peer_closed(),
    {
        self.chan.push_event(event);
    }

    /// The write-wontblock callback advertised a new window.
    pub fn set_write_window(&mut self, bytes: usize)
        requires
            old(self).wf(),
        ensures
            final(self).wf(),
            final(self).channel().window() == bytes,
            final(self).channel().queued() == old(self).channel().queued(),
            final(self).child_stdout() == old(self).child_stdout(),
            final(self).child_stderr() == old(self).child_stderr(),
            final(self).exit_code() == old(self).exit_code(),
            final(self).peer_closed() == old(self).peer_closed(),
    {
        self.chan.set_write_window(bytes);
    }

    /// Drain the oldest queued event.
    pub fn next_event(&mut self) -> (r: Option<ChannelEvent>)
        requires
            old(self).wf(),
        ensures
            final(self).wf(),
            old(self).channel().queued().len() == 0 ==> r is None && final(self).channel().queued()
                == old(self).channel().queued(),
            old(self).channel().queued().len() > 0 ==> r == Some(old(self).channel().queued()[0])
                && final(self).channel().queued() == old(self).channel().queued().drop_first(),
            final(self).child_stdout() == old(self).child_stdout(),
            final(self).child_stderr() == old(self).child_stderr(),
            final(self).exit_code() == old(self).exit_code(),
            final(self).peer_closed() == old(self).peer_closed(),
    {
        self.chan.pop_event()
    }

    /// Decide what a drained event means for the driver. Ordinary data goes
    /// to the child's stdin; data flagged as stderr is a protocol
    /// violation; the peer's EOF closes the child's stdin; the peer's close
    /// begins teardown; a second exec request is ignored.
    pub fn handle_event(&mut self, event: ChannelEvent) -> (a: ProxyAction)
        requires
            old(self).wf(),
        ensures
            final(self).wf(),
            (match event {
                ChannelEvent::Data { data, is_stderr } => {
                    if is_stderr {
                        a is ProtocolViolation
                    } else {
                        a == ProxyAction::WriteChildStdin(data)
                    }
                },
                ChannelEvent::Eof => a is CloseChildStdin,
                ChannelEvent::Close => a is BeginTeardown,
                ChannelEvent::ExecRequest { .. } => a is Ignore,
            }),
            final(self).peer_closed() == (old(self).peer_closed() || event is Close),
            final(self).channel() == old(self).channel(),
            final(self).child_stdout() == old(self).child_stdout(),
            final(self).child_stderr() == old(self).child_stderr(),
            final(self).exit_code() == old(self).exit_code(),
    {
        match event {
            ChannelEvent::Data { data, is_stderr } => {
                if is_stderr {
                    ProxyAction::ProtocolViolation
                } else {
                    ProxyAction::WriteChildStdin(data)
                }
            },
            ChannelEvent::Eof => ProxyAction::CloseChildStdin,
            ChannelEvent::Close => {
                self.peer_closed = true;
                ProxyAction::BeginTeardown
            },
            ChannelEvent::ExecRequest { .. } => ProxyAction::Ignore,
        }
    }

    /// How many bytes the driver may read from the child's stdout right
    /// now: a full buffer's worth when the buffer is empty, nothing
    /// otherwise — buffers refill only when empty.
    pub fn stdout_read_budget(&self) -> (r: usize)
        requires
            self.wf(),
        ensures
            r == if self.stdout_buffered().len() == 0 && self.exit_code() is None
                && !self.stdout_closed() {
                self.stdout_buf_capacity()
            } else {
                0
            },
    {
        if self.stdout_buf.is_empty() && self.exit_code.is_none() && !self.stdout_eof {
            self.stdout_buf.capacity_exec()
        } else {
            0
        }
    }

    pub closed spec fn stdout_buf_capacity(&self) -> nat {
        self.stdout_buf.capacity()
    }

    pub closed spec fn stderr_buf_capacity(&self) -> nat {
        self.stderr_buf.capacity()
    }

    /// Same budget discipline for the child's stderr.
    pub fn stderr_read_budget(&self) -> (r: usize)
        requires
            self.wf(),
        ensures
            r == if self.stderr_buffered().len() == 0 && self.exit_code() is None
                && !self.stderr_closed() {
                self.stderr_buf_capacity()
            } else {
                0
            },
    {
        if self.stderr_buf.is_empty() && self.exit_code.is_none() && !self.stderr_eof {
            self.stderr_buf.capacity_exec()
        } else {
            0
        }
    }

    /// The driver read `data` from the child's stdout.
    pub fn on_child_stdout(&mut self, data: &[u8])
        requires
            old(self).wf(),
            old(self).exit_code() is None,
            !old(self).stdout_closed(),
            old(self).stdout_buffered().len() == 0,
            data@.len() <= old(self).stdout_buf_capacity(),
        ensures
            final(self).wf(),
            final(self).child_stdout() == old(self).child_stdout() + data@,
            final(self).child_stderr() == old(self).child_stderr(),
            final(self).channel().frame_history() == old(self).channel().frame_history(),
            final(self).channel().queued() == old(self).channel().queued(),
            final(self).exit_code() == old(self).exit_code(),
            final(self).peer_closed() == old(self).peer_closed(),
            !final(self).stdout_closed(),
    {
        self.stdout_buf.advance_write(data);
        proof {
            self.child_stdout@ = self.child_stdout@ + data@;
        }
    }

    /// The driver observed end of stream on the child's stdout: the stream
    /// is done, and the channel's EOF frame goes out now.
    pub fn on_child_stdout_eof(&mut self)
        requires
            old(self).wf(),
            old(self).exit_code() is None,
            !old(self).stdout_closed(),
            old(self).stdout_buffered().len() == 0,
        ensures
            final(self).wf(),
            final(self).stdout_closed(),
            final(self).channel().frame_history() == seq![Frame::Eof],
            final(self).child_stdout() == old(self).child_stdout(),
            final(self).child_stderr() == old(self).child_stderr(),
            final(self).channel().queued() == old(self).channel().queued(),
            final(self).exit_code() == old(self).exit_code(),
            final(self).peer_closed() == old(self).peer_closed(),
            final(self).stderr_closed() == old(self).stderr_closed(),
    {
        self.stdout_eof = true;
        self.chan.send_eof();
    }

    /// The driver read `data` from the child's stderr.
    pub fn on_child_stderr(&mut self, data: &[u8])
        requires
            old(self).wf(),
            old(self).exit_code() is None,
            !old(self).stderr_closed(),
            old(self).stderr_buffered().len() == 0,
            data@.len() <= old(self).stderr_buf_capacity(),
        ensures
            final(self).wf(),
            final(self).child_stderr() == old(self).child_stderr() + data@,
            final(self).child_stdout() == old(self).child_stdout(),
            final(self).channel().frame_history() == old(self).channel().frame_history(),
            final(self).channel().queued() == old(self).channel().queued(),
            final(self).exit_code() == old(self).exit_code(),
            final(self).peer_closed() == old(self).peer_closed(),
            !final(self).stderr_closed(),
    {
        self.stderr_buf.advance_write(data);
        proof {
            self.child_stderr@ = self.child_stderr@ + data@;
        }
    }

    /// End of stream on the child's stderr; no frame is signalled for it.
    pub fn on_child_stderr_eof(&mut self)
        requires
            old(self).wf(),
            old(self).exit_code() is None,
            !old(self).stderr_closed(),
            old(self).stderr_buffered().len() == 0,
        ensures
            final(self).wf(),
            final(self).stderr_closed(),
            final(self).channel().frame_history() == old(self).channel().frame_history(),
            final(self).child_stdout() == old(self).child_stdout(),
            final(self).child_stderr() == old(self).child_stderr(),
            final(self).channel().queued() == old(self).channel().queued(),
            final(self).exit_code() == old(self).exit_code(),
            final(self).peer_closed() == old(self).peer_closed(),
            final(self).stdout_closed() == old(self).stdout_closed(),
    {
        self.stderr_eof = true;
    }

    /// Drain both ring buffers into the channel while the window allows,
    /// and hand back the chunks the driver must now pass to the engine:
    /// first the stdout run, then the stderr run, each in order. On a zero
    /// window the buffers keep their bytes and the driver waits for the
    /// next window advertisement.
    pub fn pump(&mut self) -> (out: (Vec<Vec<u8>>, Vec<Vec<u8>>))
        requires
            old(self).wf(),
            old(self).exit_code() is None,
        ensures
            final(self).wf(),
            final(self).child_stdout() == old(self).child_stdout(),
            final(self).child_stderr() == old(self).child_stderr(),
            final(self).channel().frame_history() == old(self).channel().frame_history(),
            final(self).channel().queued() == old(self).channel().queued(),
            final(self).exit_code() == old(self).exit_code(),
            final(self).peer_closed() == old(self).peer_closed(),
            final(self).stdout_closed() == old(self).stdout_closed(),
            final(self).stderr_closed() == old(self).stderr_closed(),
            final(self).channel().window() == 0 || (final(self).stdout_buffered().len() == 0
                && final(self).stderr_buffered().len() == 0),
            final(self).channel().stdout_history() == old(self).channel().stdout_history()
                + concat_bytes(out.0@.map_values(|v: Vec<u8>| v@)),
            final(self).channel().stderr_history() == old(self).channel().stderr_history()
                + concat_bytes(out.1@.map_values(|v: Vec<u8>| v@)),
    {
        let stdout_run = self.pump_stdout();
        let stderr_run = self.pump_stderr();
        (stdout_run, stderr_run)
    }

    fn pump_stdout(&mut self) -> (out: Vec<Vec<u8>>)
        requires
            old(self).wf(),
            old(self).exit_code() is None,
        ensures
            final(self).wf(),
            final(self).child_stdout() == old(self).child_stdout(),
            final(self).child_stderr() == old(self).child_stderr(),
            final(self).stderr_buffered() == old(self).stderr_buffered(),
            final(self).channel().stderr_history() == old(self).channel().stderr_history(),
            final(self).channel().frame_history() == old(self).channel().frame_history(),
            final(self).channel().queued() == old(self).channel().queued(),
            final(self).exit_code() == old(self).exit_code(),
            final(self).peer_closed() == old(self).peer_closed(),
            final(self).stdout_closed() == old(self).stdout_closed(),
            final(self).stderr_closed() == old(self).stderr_closed(),
            final(self).channel().window() == 0 || final(self).stdout_buffered().len() == 0,
            final(self).channel().window() <= old(self).channel().window(),
            final(self).channel().stdout_history() == old(self).channel().stdout_history()
                + concat_bytes(out@.map_values(|v: Vec<u8>| v@)),
    {
        let mut out: Vec<Vec<u8>> = Vec::new();
        proof {
            assert(self.channel().stdout_history() =~= old(self).channel().stdout_history()
                + concat_bytes(out@.map_values(|v: Vec<u8>| v@)));
        }
        loop
            invariant
                self.wf(),
                self.exit_code() is None,
                self.exit_code() == old(self).exit_code(),
                self.child_stdout() == old(self).child_stdout(),
                self.child_stderr() == old(self).child_stderr(),
                self.stderr_buffered() == old(self).stderr_buffered(),
                self.channel().stderr_history() == old(self).channel().stderr_history(),
                self.channel().frame_history() == old(self).channel().frame_history(),
                self.channel().queued() == old(self).channel().queued(),
                self.peer_closed() == old(self).peer_closed(),
                self.stdout_closed() == old(self).stdout_closed(),
                self.stderr_closed() == old(self).stderr_closed(),
                self.channel().window() <= old(self).channel().window(),
                self.channel().stdout_history() == old(self).channel().stdout_history()
                    + concat_bytes(out@.map_values(|v: Vec<u8>| v@)),
            decreases self.stdout_buf.contents().len(),
        {
            if !self.chan.writable() {
                return out;
            }
            let avail = self.stdout_buf.readable_len();
            if avail == 0 {
                return out;
            }
            let mut chunk = self.stdout_buf.read_slice(avail);
            let ghost pre_contents = self.stdout_buf.contents();
            let ghost pre_hist = self.chan.stdout_history();
            let ghost pre_out = out@.map_values(|v: Vec<u8>| v@);
            match self.chan.write(chunk.as_slice(), false) {
                Ok(n) => {
                    proof {
                        assert(chunk@.take(n as int) =~= pre_contents.take(n as int));
                    }
                    self.stdout_buf.advance_read(n);
                    chunk.truncate(n);
                    out.push(chunk);
                    proof {
                        assert((pre_hist + pre_contents.take(n as int)) + pre_contents.skip(
                            n as int,
                        ) =~= pre_hist + pre_contents);
                        lemma_concat_bytes_push(pre_out, pre_contents.take(n as int));
                        assert(out@.map_values(|v: Vec<u8>| v@) =~= pre_out.push(
                            pre_contents.take(n as int),
                        ));
                        assert((old(self).channel().stdout_history() + concat_bytes(pre_out))
                            + pre_contents.take(n as int) =~= old(
                            self,
                        ).channel().stdout_history() + (concat_bytes(pre_out)
                            + pre_contents.take(n as int)));
                    }
                },
                Err(_) => {
                    return out;
                },
            }
        }
    }

    fn pump_stderr(&mut self) -> (out: Vec<Vec<u8>>)
        requires
            old(self).wf(),
            old(self).exit_code() is None,
        ensures
            final(self).wf(),
            final(self).child_stdout() == old(self).child_stdout(),
            final(self).child_stderr() == old(self).child_stderr(),
            final(self).stdout_buffered() == old(self).stdout_buffered(),
            final(self).channel().stdout_history() == old(self).channel().stdout_history(),
            final(self).channel().frame_history() == old(self).channel().frame_history(),
            final(self).channel().queued() == old(self).channel().queued(),
            final(self).exit_code() == old(self).exit_code(),
            final(self).peer_closed() == old(self).peer_closed(),
            final(self).stdout_closed() == old(self).stdout_closed(),
            final(self).stderr_closed() == old(self).stderr_closed(),
            final(self).channel().window() == 0 || final(self).stderr_buffered().len() == 0,
            final(self).channel().window() <= old(self).channel().window(),
            final(self).channel().stderr_history() == old(self).channel().stderr_history()
                + concat_bytes(out@.map_values(|v: Vec<u8>| v@)),
    {
        let mut out: Vec<Vec<u8>> = Vec::new();
        proof {
            assert(self.channel().stderr_history() =~= old(self).channel().stderr_history()
                + concat_bytes(out@.map_values(|v: Vec<u8>| v@)));
        }
        loop
            invariant
                self.wf(),
                self.exit_code() is None,
                self.exit_code() == old(self).exit_code(),
                self.child_stdout() == old(self).child_stdout(),
                self.child_stderr() == old(self).child_stderr(),
                self.stdout_buffered() == old(self).stdout_buffered(),
                self.channel().stdout_history() == old(self).channel().stdout_history(),
                self.channel().frame_history() == old(self).channel().frame_history(),
                self.channel().queued() == old(self).channel().queued(),
                self.peer_closed() == old(self).peer_closed(),
                self.stdout_closed() == old(self).stdout_closed(),
                self.stderr_closed() == old(self).stderr_closed(),
                self.channel().window() <= old(self).channel().window(),
                self.channel().stderr_history() == old(self).channel().stderr_history()
                    + concat_bytes(out@.map_values(|v: Vec<u8>| v@)),
            decreases self.stderr_buf.contents().len(),
        {
            if !self.chan.writable() {
                return out;
            }
            let avail = self.stderr_buf.readable_len();
            if avail == 0 {
                return out;
            }
            let mut chunk = self.stderr_buf.read_slice(avail);
            let ghost pre_contents = self.stderr_buf.contents();
            let ghost pre_hist = self.chan.stderr_history();
            let ghost pre_out = out@.map_values(|v: Vec<u8>| v@);
            match self.chan.write(chunk.as_slice(), true) {
                Ok(n) => {
                    proof {
                        assert(chunk@.take(n as int) =~= pre_contents.take(n as int));
                    }
                    self.stderr_buf.advance_read(n);
                    chunk.truncate(n);
                    out.push(chunk);
                    proof {
                        assert((pre_hist + pre_contents.take(n as int)) + pre_contents.skip(
                            n as int,
                        ) =~= pre_hist + pre_contents);
                        lemma_concat_bytes_push(pre_out, pre_contents.take(n as int));
                        assert(out@.map_values(|v: Vec<u8>| v@) =~= pre_out.push(
                            pre_contents.take(n as int),
                        ));
                        assert((old(self).channel().stderr_history() + concat_bytes(pre_out))
                            + pre_contents.take(n as int) =~= old(
                            self,
                        ).channel().stderr_history() + (concat_bytes(pre_out)
                            + pre_contents.take(n as int)));
                    }
                },
                Err(_) => {
                    return out;
                },
            }
        }
    }

    /// Whether both ring buffers are fully drained into the channel.
    pub fn buffers_empty(&self) -> (r: bool)
        requires
            self.wf(),
        ensures
            r == (self.stdout_buffered().len() == 0 && self.stderr_buffered().len() == 0),
    {
        self.stdout_buf.is_empty() && self.stderr_buf.is_empty()
    }

    /// Whether the child's stdout stream has ended.
    pub fn stdout_done(&self) -> (r: bool)
        ensures
            r == self.stdout_closed(),
    {
        self.stdout_eof
    }

    /// Whether the child's stderr stream has ended.
    pub fn stderr_done(&self) -> (r: bool)
        ensures
            r == self.stderr_closed(),
    {
        self.stderr_eof
    }

    /// All three child streams are done and both buffers are drained: take
    /// the exit code, emit the exit-status frame and the close frame, and
    /// mark the session complete.
    pub fn on_child_exit(&mut self, code: i32)
        requires
            old(self).wf(),
            old(self).exit_code() is None,
            old(self).stdout_closed(),
            old(self).stderr_closed(),
            old(self).stdout_buffered().len() == 0,
            old(self).stderr_buffered().len() == 0,
        ensures
            final(self).wf(),
            final(self).exit_code() == Some(code),
            final(self).child_stdout() == old(self).child_stdout(),
            final(self).child_stderr() == old(self).child_stderr(),
            final(self).channel().queued() == old(self).channel().queued(),
            final(self).channel().is_closed(),
    {
        self.chan.send_exit_status(code);
        self.chan.send_close();
        self.exit_code = Some(code);
        proof {
            assert(self.chan.frame_history() =~= seq![
                Frame::Eof,
                Frame::ExitStatus(code),
                Frame::Close,
            ]);
        }
    }

    /// A completed session forwarded the child's streams verbatim: what the
    /// channel carried for each destination is exactly what the child
    /// wrote, in order, and the closing frames are exactly EOF, the child's
    /// exit status, close.
    pub proof fn lemma_session_complete(&self, code: i32)
        requires
            self.wf(),
            self.exit_code() == Some(code),
        ensures
            self.channel().stdout_history() == self.child_stdout(),
            self.channel().stderr_history() == self.child_stderr(),
            self.channel().frame_history() == seq![
                Frame::Eof,
                Frame::ExitStatus(code),
                Frame::Close,
            ],
    {
        assert(self.channel().stdout_history() =~= self.channel().stdout_history()
            + self.stdout_buf.contents());
        assert(self.channel().stderr_history() =~= self.channel().stderr_history()
            + self.stderr_buf.contents());
    }
}

} // verus!
