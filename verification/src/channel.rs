//! The per-channel driver state: the event queue, the peer-advertised
//! write window, and the closing frames.
//!
//! The channel owns only the window counter; it holds no secondary queue of
//! unsent bytes. `write` accounts for at most `write_window` bytes and the
//! caller retries what was truncated — backpressure stays visible one layer
//! up, in the proxy's ring buffers.
//!
//! The driver around this state performs the native engine calls: after a
//! successful `write` here it hands exactly the accounted prefix to the
//! engine, and after `send_eof`, `send_exit_status` and `send_close` it
//! emits the matching frames. The ghost history fields record what was
//! handed over, so the proxy can speak about whole sessions.

use vstd::prelude::*;
use std::collections::VecDeque;

verus! {

/// An event queued by an engine callback, drained by the driver.
pub enum ChannelEvent {
    Data { data: Vec<u8>, is_stderr: bool },
    Eof,
    Close,
    ExecRequest { command: String },
}

/// How a channel operation fails: the window is empty and the caller must
/// retry later, or the engine reported a protocol failure.
#[derive(Debug)]
pub enum ChannelError {
    WouldBlock,
    Protocol(String),
}

/// A closing frame, of which a well-behaved session sends exactly three:
/// end of stream, the child's exit status, and the channel close.
pub enum Frame {
    Eof,
    ExitStatus(i32),
    Close,
}

/// The bytes of a run of chunks, in order.
pub open spec fn concat_bytes(chunks: Seq<Seq<u8>>) -> Seq<u8>
    decreases chunks.len(),
{
    if chunks.len() == 0 {
        Seq::empty()
    } else {
        chunks[0] + concat_bytes(chunks.drop_first())
    }
}

pub proof fn lemma_concat_bytes_push(chunks: Seq<Seq<u8>>, c: Seq<u8>)
    ensures
        concat_bytes(chunks.push(c)) == concat_bytes(chunks) + c,
    decreases chunks.len(),
{
    if chunks.len() == 0 {
        assert(chunks.push(c).drop_first() =~= chunks);
        assert(concat_bytes(chunks.push(c)) =~= concat_bytes(chunks) + c);
    } else {
        assert(chunks.push(c).drop_first() =~= chunks.drop_first().push(c));
        lemma_concat_bytes_push(chunks.drop_first(), c);
        assert(concat_bytes(chunks.push(c)) =~= concat_bytes(chunks) + c);
    }
}

pub struct ChannelState {
    events: VecDeque<ChannelEvent>,
    write_window: usize,
    closed: bool,
    sent_stdout: Ghost<Seq<u8>>,
    sent_stderr: Ghost<Seq<u8>>,
    frames: Ghost<Seq<Frame>>,
}

impl ChannelState {
    /// Bytes the peer has announced it can take without blocking.
    pub closed spec fn window(&self) -> nat {
        self.write_window as nat
    }

    /// Events queued and not yet drained, oldest first.
    pub closed spec fn queued(&self) -> Seq<ChannelEvent> {
        self.events@
    }

    /// Whether the closing frame has been sent; afterwards nothing more
    /// goes out.
    pub closed spec fn is_closed(&self) -> bool {
        self.closed
    }

    /// Every byte accounted for the peer's stdout, in order.
    pub closed spec fn stdout_history(&self) -> Seq<u8> {
        self.sent_stdout@
    }

    /// Every byte accounted for the peer's stderr, in order.
    pub closed spec fn stderr_history(&self) -> Seq<u8> {
        self.sent_stderr@
    }

    /// The closing frames sent so far, in order.
    pub closed spec fn frame_history(&self) -> Seq<Frame> {
        self.frames@
    }

    pub fn new() -> (r: ChannelState)
        ensures
            r.window() == 0,
            r.queued() == Seq::<ChannelEvent>::empty(),
            !r.is_closed(),
            r.stdout_history() == Seq::<u8>::empty(),
            r.stderr_history() == Seq::<u8>::empty(),
            r.frame_history() == Seq::<Frame>::empty(),
    {
        ChannelState {
            events: VecDeque::new(),
            write_window: 0,
            closed: false,
            sent_stdout: Ghost(Seq::empty()),
            sent_stderr: Ghost(Seq::empty()),
            frames: Ghost(Seq::empty()),
        }
    }

    /// The write-wontblock callback: the peer advertised a new window.
    pub fn set_write_window(&mut self, bytes: usize)
        ensures
            final(self).window() == bytes,
            final(self).queued() == old(self).queued(),
            final(self).is_closed() == old(self).is_closed(),
            final(self).stdout_history() == old(self).stdout_history(),
            final(self).stderr_history() == old(self).stderr_history(),
            final(self).frame_history() == old(self).frame_history(),
    {
        self.write_window = bytes;
    }

    pub fn writable(&self) -> (r: bool)
        ensures
            r == (self.window() > 0),
    {
        self.write_window > 0
    }

    pub fn write_window(&self) -> (r: usize)
        ensures
            r == self.window(),
    {
        self.write_window
    }

    pub fn closed(&self) -> (r: bool)
        ensures
            r == self.is_closed(),
    {
        self.closed
    }

    /// A callback queued an event.
    pub fn push_event(&mut self, event: ChannelEvent)
        ensures
            final(self).queued() == old(self).queued().push(event),
            final(self).window() == old(self).window(),
            final(self).is_closed() == old(self).is_closed(),
            final(self).stdout_history() == old(self).stdout_history(),
            final(self).stderr_history() == old(self).stderr_history(),
            final(self).frame_history() == old(self).frame_history(),
    {
        self.events.push_back(event);
    }

    /// The driver drains the oldest event.
    pub fn pop_event(&mut self) -> (r: Option<ChannelEvent>)
        ensures
            old(self).queued().len() == 0 ==> r is None && final(self).queued()
                == old(self).queued(),
            old(self).queued().len() > 0 ==> r == Some(old(self).queued()[0])
                && final(self).queued() == old(self).queued().drop_first(),
            final(self).window() == old(self).window(),
            final(self).is_closed() == old(self).is_closed(),
            final(self).stdout_history() == old(self).stdout_history(),
            final(self).stderr_history() == old(self).stderr_history(),
            final(self).frame_history() == old(self).frame_history(),
    {
        self.events.pop_front()
    }

    /// Account a write toward the peer. At most `min(data.len(), window)`
    /// bytes are accepted, the window shrinks by exactly that count, and
    /// the caller retries the rest; an empty window asks the caller to
    /// wait for the next window advertisement.
    pub fn write(&mut self, data: &[u8], to_stderr: bool) -> (r: Result<usize, ChannelError>)
        requires
            !old(self).is_closed(),
        ensures
            final(self).queued() == old(self).queued(),
            final(self).is_closed() == old(self).is_closed(),
            final(self).frame_history() == old(self).frame_history(),
            (match r {
                Ok(n) => {
                    &&& old(self).window() > 0
                    &&& n == if data@.len() <= old(self).window() {
                        data@.len() as int
                    } else {
                        old(self).window() as int
                    }
                    &&& final(self).window() == old(self).window() - n
                    &&& (if to_stderr {
                        final(self).stderr_history() == old(self).stderr_history()
                            + data@.take(n as int)
                            && final(self).stdout_history() == old(self).stdout_history()
                    } else {
                        final(self).stdout_history() == old(self).stdout_history()
                            + data@.take(n as int)
                            && final(self).stderr_history() == old(self).stderr_history()
                    })
                },
                Err(e) => {
                    &&& e == ChannelError::WouldBlock
                    &&& old(self).window() == 0
                    &&& *final(self) == *old(self)
                },
            }),
    {
        if self.write_window == 0 {
            return Err(ChannelError::WouldBlock);
        }
        let n = if data.len() <= self.write_window {
            data.len()
        } else {
            self.write_window
        };
        self.write_window = self.write_window - n;
        proof {
            if to_stderr {
                self.sent_stderr@ = self.sent_stderr@ + data@.take(n as int);
            } else {
                self.sent_stdout@ = self.sent_stdout@ + data@.take(n as int);
            }
        }
        Ok(n)
    }

    pub fn send_eof(&mut self)
        requires
            !old(self).is_closed(),
        ensures
            final(self).frame_history() == old(self).frame_history().push(Frame::Eof),
            final(self).window() == old(self).window(),
            final(self).queued() == old(self).queued(),
            !final(self).is_closed(),
            final(self).stdout_history() == old(self).stdout_history(),
            final(self).stderr_history() == old(self).stderr_history(),
    {
        proof {
            self.frames@ = self.frames@.push(Frame::Eof);
        }
    }

    pub fn send_exit_status(&mut self, code: i32)
        requires
            !old(self).is_closed(),
        ensures
            final(self).frame_history() == old(self).frame_history().push(
                Frame::ExitStatus(code),
            ),
            final(self).window() == old(self).window(),
            final(self).queued() == old(self).queued(),
            !final(self).is_closed(),
            final(self).stdout_history() == old(self).stdout_history(),
            final(self).stderr_history() == old(self).stderr_history(),
    {
        proof {
            self.frames@ = self.frames@.push(Frame::ExitStatus(code));
        }
    }

    pub fn send_close(&mut self)
        requires
            !old(self).is_closed(),
        ensures
            final(self).frame_history() == old(self).frame_history().push(Frame::Close),
            final(self).window() == old(self).window(),
            final(self).queued() == old(self).queued(),
            final(self).is_closed(),
            final(self).stdout_history() == old(self).stdout_history(),
            final(self).stderr_history() == old(self).stderr_history(),
    {
        self.closed = true;
        proof {
            self.frames@ = self.frames@.push(Frame::Close);
        }
    }
}

} // verus!
