//! The immediate-response loop: the tail protocol used whenever the server
//! has a fixed payload to deliver and then close — an LFS authentication
//! reply, or a one-line error for a malformed command.
//!
//! The driver keeps waiting on the session and calling `step` until it
//! reports completion; queued events may be drained and discarded
//! meanwhile. Once both payloads are fully written the closing frames go
//! out, exactly once, in order.

use vstd::prelude::*;
use vstd::slice::{slice_subrange, slice_to_vec};
use crate::channel::{concat_bytes, lemma_concat_bytes_push, ChannelEvent, ChannelState, Frame};

verus! {

pub struct ImmediateResponse {
    chan: ChannelState,
    stdout: Vec<u8>,
    stderr: Vec<u8>,
    code: i32,
    sent_out: usize,
    sent_err: usize,
    done: bool,
}

impl ImmediateResponse {
    pub closed spec fn channel(&self) -> ChannelState {
        self.chan
    }

    /// The stdout payload owed to the peer.
    pub closed spec fn stdout_payload(&self) -> Seq<u8> {
        self.stdout@
    }

    /// The stderr payload owed to the peer.
    pub closed spec fn stderr_payload(&self) -> Seq<u8> {
        self.stderr@
    }

    /// The exit status owed to the peer.
    pub closed spec fn exit_code(&self) -> i32 {
        self.code
    }

    pub closed spec fn is_done(&self) -> bool {
        self.done
    }

    /// What was sent so far is always a prefix of what is owed; on
    /// completion it is everything, followed by the three closing frames.
    pub closed spec fn wf(&self) -> bool {
        &&& self.sent_out <= self.stdout@.len()
        &&& self.sent_err <= self.stderr@.len()
        &&& self.chan.stdout_history() == self.stdout@.take(self.sent_out as int)
        &&& self.chan.stderr_history() == self.stderr@.take(self.sent_err as int)
        &&& (if self.done {
            &&& self.sent_out == self.stdout@.len()
            &&& self.sent_err == self.stderr@.len()
            &&& self.chan.is_closed()
            &&& self.chan.frame_history() == seq![
                Frame::Eof,
                Frame::ExitStatus(self.code),
                Frame::Close,
            ]
        } else {
            &&& !self.chan.is_closed()
            &&& self.chan.frame_history() == Seq::<Frame>::empty()
        })
    }

    /// Take over a fresh channel with the payloads and exit status to
    /// deliver.
    pub fn new(chan: ChannelState, stdout: Vec<u8>, stderr: Vec<u8>, code: i32) -> (r:
        ImmediateResponse)
        requires
            !chan.is_closed(),
            chan.stdout_history() == Seq::<u8>::empty(),
            chan.stderr_history() == Seq::<u8>::empty(),
            chan.frame_history() == Seq::<Frame>::empty(),
        ensures
            r.wf(),
            !r.is_done(),
            r.channel() == chan,
            r.stdout_payload() == stdout@,
            r.stderr_payload() == stderr@,
            r.exit_code() == code,
    {
        let r = ImmediateResponse { chan, stdout, stderr, code, sent_out: 0, sent_err: 0, done: false };
        proof {
            assert(r.stdout@.take(0) =~= Seq::<u8>::empty());
            assert(r.stderr@.take(0) =~= Seq::<u8>::empty());
        }
        r
    }

    /// An engine callback queued an event.
    pub fn push_event(&mut self, event: ChannelEvent)
        requires
            old(self).wf(),
        ensures
            final(self).wf(),
            final(self).channel().queued() == old(self).channel().queued().push(event),
            final(self).channel().window() == old(self).channel().window(),
            final(self).channel().stdout_history() == old(self).channel().stdout_history(),
            final(self).channel().stderr_history() == old(self).channel().stderr_history(),
            final(self).channel().frame_history() == old(self).channel().frame_history(),
            final(self).is_done() == old(self).is_done(),
            final(self).stdout_payload() == old(self).stdout_payload(),
            final(self).stderr_payload() == old(self).stderr_payload(),
            final(self).exit_code() == old(self).exit_code(),
    {
        self.chan.push_event(event);
    }

    /// The write-wontblock callback advertised a new window.
    pub fn set_write_window(&mut self, bytes: usize)
        requires
            old(self).wf(),
        ensures
            final(self).wf(),
            final(self).channel().window() == bytes,
            final(self).is_done() == old(self).is_done(),
            final(self).stdout_payload() == old(self).stdout_payload(),
            final(self).stderr_payload() == old(self).stderr_payload(),
            final(self).exit_code() == old(self).exit_code(),
    {
        self.chan.set_write_window(bytes);
    }

    /// Drain the oldest queued event; during an immediate response every
    /// event is acceptable to discard.
    pub fn next_event(&mut self) -> (r: Option<ChannelEvent>)
        requires
            old(self).wf(),
        ensures
            final(self).wf(),
            old(self).channel().queued().len() == 0 ==> r is None && final(self).channel().queued()
                == old(self).channel().queued(),
            old(self).channel().queued().len() > 0 ==> r == Some(old(self).channel().queued()[0])
                && final(self).channel().queued() == old(self).channel().queued().drop_first(),
            final(self).channel().window() == old(self).channel().window(),
            final(self).channel().stdout_history() == old(self).channel().stdout_history(),
            final(self).channel().stderr_history() == old(self).channel().stderr_history(),
            final(self).channel().frame_history() == old(self).channel().frame_history(),
            final(self).is_done() == old(self).is_done(),
            final(self).stdout_payload() == old(self).stdout_payload(),
            final(self).stderr_payload() == old(self).stderr_payload(),
            final(self).exit_code() == old(self).exit_code(),
    {
        self.chan.pop_event()
    }

    /// Whether everything, closing frames included, has been handed over.
    pub fn finished(&self) -> (r: bool)
        ensures
            r == self.is_done(),
    {
        self.done
    }

    /// The exit status this response delivers.
    pub fn exit_status(&self) -> (r: i32)
        ensures
            r == self.exit_code(),
    {
        self.code
    }

    /// Push the response forward as far as the window allows, and hand
    /// back the chunks the driver must now pass to the engine: the stdout
    /// run, then the stderr run. Once both payloads are fully written the
    /// closing frames go out and the response is done.
    pub fn step(&mut self) -> (out: (Vec<Vec<u8>>, Vec<Vec<u8>>))
        requires
            old(self).wf(),
        ensures
            final(self).wf(),
            final(self).stdout_payload() == old(self).stdout_payload(),
            final(self).stderr_payload() == old(self).stderr_payload(),
            final(self).exit_code() == old(self).exit_code(),
            old(self).is_done() ==> final(self).is_done(),
            final(self).is_done() || final(self).channel().window() == 0,
            final(self).channel().stdout_history() == old(self).channel().stdout_history()
                + concat_bytes(out.0@.map_values(|v: Vec<u8>| v@)),
            final(self).channel().stderr_history() == old(self).channel().stderr_history()
                + concat_bytes(out.1@.map_values(|v: Vec<u8>| v@)),
    {
        if self.done {
            let empty_out: Vec<Vec<u8>> = Vec::new();
            let empty_err: Vec<Vec<u8>> = Vec::new();
            proof {
                assert(self.channel().stdout_history() =~= self.channel().stdout_history()
                    + concat_bytes(empty_out@.map_values(|v: Vec<u8>| v@)));
                assert(self.channel().stderr_history() =~= self.channel().stderr_history()
                    + concat_bytes(empty_err@.map_values(|v: Vec<u8>| v@)));
            }
            return (empty_out, empty_err);
        }
        let stdout_run = self.step_stream(false);
        let stderr_run = self.step_stream(true);
        if self.sent_out == self.stdout.len() && self.sent_err == self.stderr.len() {
            self.chan.send_eof();
            self.chan.send_exit_status(self.code);
            self.chan.send_close();
            self.done = true;
            proof {
                assert(self.chan.frame_history() =~= seq![
                    Frame::Eof,
                    Frame::ExitStatus(self.code),
                    Frame::Close,
                ]);
            }
        }
        (stdout_run, stderr_run)
    }

    /// Write the unsent part of one payload while the window allows,
    /// returning the chunks handed over.
    fn step_stream(&mut self, to_stderr: bool) -> (out: Vec<Vec<u8>>)
        requires
            old(self).wf(),
            !old(self).is_done(),
        ensures
            final(self).wf(),
            !final(self).is_done(),
            final(self).stdout_payload() == old(self).stdout_payload(),
            final(self).stderr_payload() == old(self).stderr_payload(),
            final(self).exit_code() == old(self).exit_code(),
            to_stderr ==> final(self).sent_out_spec() == old(self).sent_out_spec(),
            !to_stderr ==> final(self).sent_err_spec() == old(self).sent_err_spec(),
            final(self).channel().window() == 0 || (if to_stderr {
                final(self).sent_err_spec() == final(self).stderr_payload().len()
            } else {
                final(self).sent_out_spec() == final(self).stdout_payload().len()
            }),
            final(self).channel().window() <= old(self).channel().window(),
            (if to_stderr {
                final(self).channel().stderr_history() == old(self).channel().stderr_history()
                    + concat_bytes(out@.map_values(|v: Vec<u8>| v@))
                    && final(self).channel().stdout_history() == old(
                    self,
                ).channel().stdout_history()
            } else {
                final(self).channel().stdout_history() == old(self).channel().stdout_history()
                    + concat_bytes(out@.map_values(|v: Vec<u8>| v@))
                    && final(self).channel().stderr_history() == old(
                    self,
                ).channel().stderr_history()
            }),
    {
        let mut out: Vec<Vec<u8>> = Vec::new();
        proof {
            assert(self.channel().stdout_history() =~= self.channel().stdout_history()
                + concat_bytes(out@.map_values(|v: Vec<u8>| v@)));
            assert(self.channel().stderr_history() =~= self.channel().stderr_history()
                + concat_bytes(out@.map_values(|v: Vec<u8>| v@)));
        }
        loop
            invariant
                self.wf(),
                !self.is_done(),
                self.stdout_payload() == old(self).stdout_payload(),
                self.stderr_payload() == old(self).stderr_payload(),
                self.exit_code() == old(self).exit_code(),
                to_stderr ==> self.sent_out_spec() == old(self).sent_out_spec(),
                !to_stderr ==> self.sent_err_spec() == old(self).sent_err_spec(),
                self.channel().window() <= old(self).channel().window(),
                (if to_stderr {
                    self.channel().stderr_history() == old(self).channel().stderr_history()
                        + concat_bytes(out@.map_values(|v: Vec<u8>| v@))
                        && self.channel().stdout_history() == old(
                        self,
                    ).channel().stdout_history()
                } else {
                    self.channel().stdout_history() == old(self).channel().stdout_history()
                        + concat_bytes(out@.map_values(|v: Vec<u8>| v@))
                        && self.channel().stderr_history() == old(
                        self,
                    ).channel().stderr_history()
                }),
            decreases (if to_stderr {
                self.stderr@.len() - self.sent_err
            } else {
                self.stdout@.len() - self.sent_out
            }),
        {
            if !self.chan.writable() {
                return out;
            }
            let (total, sent) = if to_stderr {
                (self.stderr.len(), self.sent_err)
            } else {
                (self.stdout.len(), self.sent_out)
            };
            if sent >= total {
                return out;
            }
            let chunk = if to_stderr {
                slice_subrange(self.stderr.as_slice(), sent, total)
            } else {
                slice_subrange(self.stdout.as_slice(), sent, total)
            };
            let ghost payload = if to_stderr {
                self.stderr@
            } else {
                self.stdout@
            };
            let ghost pre_out = out@.map_values(|v: Vec<u8>| v@);
            let ghost pre_hist = if to_stderr {
                self.chan.stderr_history()
            } else {
                self.chan.stdout_history()
            };
            match self.chan.write(chunk, to_stderr) {
                Ok(n) => {
                    proof {
                        assert(payload.take(sent as int) + chunk@.take(n as int) =~= payload.take(
                            sent + n as int,
                        ));
                    }
                    let mut sent_chunk = slice_to_vec(chunk);
                    sent_chunk.truncate(n);
                    out.push(sent_chunk);
                    if to_stderr {
                        self.sent_err = self.sent_err + n;
                    } else {
                        self.sent_out = self.sent_out + n;
                    }
                    proof {
                        lemma_concat_bytes_push(pre_out, chunk@.take(n as int));
                        assert(out@.map_values(|v: Vec<u8>| v@) =~= pre_out.push(
                            chunk@.take(n as int),
                        ));
                        let base = if to_stderr {
                            old(self).channel().stderr_history()
                        } else {
                            old(self).channel().stdout_history()
                        };
                        assert((base + concat_bytes(pre_out)) + chunk@.take(n as int) =~= base + (
                        concat_bytes(pre_out) + chunk@.take(n as int)));
                    }
                },
                Err(_) => {
                    return out;
                },
            }
        }
    }

    pub closed spec fn sent_out_spec(&self) -> nat {
        self.sent_out as nat
    }

    pub closed spec fn sent_err_spec(&self) -> nat {
        self.sent_err as nat
    }

    /// A finished immediate response delivered its payloads verbatim and
    /// closed with exactly EOF, the fixed exit status, close.
    pub proof fn lemma_response_complete(&self)
        requires
            self.wf(),
            self.is_done(),
        ensures
            self.channel().stdout_history() == self.stdout_payload(),
            self.channel().stderr_history() == self.stderr_payload(),
            self.channel().frame_history() == seq![
                Frame::Eof,
                Frame::ExitStatus(self.exit_code()),
                Frame::Close,
            ],
            self.channel().is_closed(),
    {
        assert(self.stdout@.take(self.stdout@.len() as int) =~= self.stdout@);
        assert(self.stderr@.take(self.stderr@.len() as int) =~= self.stderr@);
    }
}

} // verus!
