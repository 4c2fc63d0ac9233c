//! Fixed-capacity byte FIFO with contiguous read and write regions.
//!
//! The buffer allocates once, at construction. Writers see the contiguous
//! free region at the tail; readers see the contiguous occupied region at
//! the head. When the tail wraps around, the free region is reported in two
//! successive rounds, each contiguous.

use vstd::prelude::*;

verus! {

pub struct RingBuffer {
    buf: Vec<u8>,
    start: usize,
    used: usize,
    total_written: Ghost<nat>,
    total_read: Ghost<nat>,
}

impl RingBuffer {
    /// Capacity fixed at construction.
    pub closed spec fn capacity(&self) -> nat {
        self.buf@.len()
    }

    /// The queued bytes, oldest first. The storage is circular: the window
    /// of `used` bytes starting at `start` may wrap past the end, which the
    /// doubled sequence accounts for.
    pub closed spec fn contents(&self) -> Seq<u8> {
        (self.buf@ + self.buf@).subrange(self.start as int, self.start + self.used as int)
    }

    /// Total number of bytes ever accepted by `advance_write`.
    pub closed spec fn written_total(&self) -> nat {
        self.total_written@
    }

    /// Total number of bytes ever released by `advance_read`.
    pub closed spec fn read_total(&self) -> nat {
        self.total_read@
    }

    pub closed spec fn wf(&self) -> bool {
        &&& self.buf@.len() > 0
        &&& self.start < self.buf@.len()
        &&& self.used <= self.buf@.len()
        &&& self.total_written@ == self.total_read@ + self.used as nat
    }

    /// Length of the contiguous occupied region at the head.
    pub closed spec fn readable_contig(&self) -> nat {
        if self.used as nat <= self.capacity() - self.start as nat {
            self.used as nat
        } else {
            (self.capacity() - self.start as nat) as nat
        }
    }

    /// Length of the contiguous free region at the tail.
    pub closed spec fn writable_contig(&self) -> nat {
        if self.start + self.used >= self.capacity() {
            (self.capacity() - self.used as nat) as nat
        } else {
            (self.capacity() - self.start as nat - self.used as nat) as nat
        }
    }

    pub fn new(capacity: usize) -> (r: RingBuffer)
        requires
            capacity > 0,
        ensures
            r.wf(),
            r.capacity() == capacity,
            r.contents() == Seq::<u8>::empty(),
            r.written_total() == 0,
            r.read_total() == 0,
    {
        let mut buf: Vec<u8> = Vec::new();
        let mut i: usize = 0;
        while i < capacity
            invariant
                i <= capacity,
                buf@.len() == i,
            decreases capacity - i,
        {
            buf.push(0);
            i = i + 1;
        }
        let r = RingBuffer {
            buf,
            start: 0,
            used: 0,
            total_written: Ghost(0),
            total_read: Ghost(0),
        };
        proof {
            assert(r.contents() =~= Seq::<u8>::empty());
        }
        r
    }

    pub fn capacity_exec(&self) -> (r: usize)
        ensures
            r == self.capacity(),
    {
        self.buf.len()
    }

    pub fn len(&self) -> (r: usize)
        requires
            self.wf(),
        ensures
            r == self.contents().len(),
    {
        self.used
    }

    /// Empty exactly when everything ever written has been read back out.
    pub fn is_empty(&self) -> (r: bool)
        requires
            self.wf(),
        ensures
            r == (self.contents().len() == 0),
            r == (self.written_total() == self.read_total()),
    {
        self.used == 0
    }

    /// The read and write cursors account for every byte: the buffer is
    /// empty exactly when their totals agree.
    pub proof fn lemma_empty_iff_totals_equal(&self)
        requires
            self.wf(),
        ensures
            (self.contents().len() == 0) <==> (self.written_total() == self.read_total()),
    {
    }

    /// Length of the contiguous free region at the tail. Zero only when the
    /// buffer is full; when the free space wraps, the wrapped part becomes
    /// available on a later round, after the tail reaches the end.
    pub fn writable_len(&self) -> (r: usize)
        requires
            self.wf(),
        ensures
            r == self.writable_contig(),
            r + self.contents().len() <= self.capacity(),
            self.contents().len() < self.capacity() ==> r > 0,
    {
        let cap = self.buf.len();
        let free = cap - self.used;
        let tail = if self.start >= cap - self.used {
            // the window wraps: the tail sits before the head
            self.start - (cap - self.used)
        } else {
            self.start + self.used
        };
        let to_end = cap - tail;
        if free < to_end {
            free
        } else {
            to_end
        }
    }

    /// Copy `data` into the free region, advancing the write cursor. The
    /// copy continues past the end of the storage onto its wrapped front,
    /// so only total free space limits it.
    pub fn advance_write(&mut self, data: &[u8])
        requires
            old(self).wf(),
            data@.len() + old(self).contents().len() <= old(self).capacity(),
        ensures
            final(self).wf(),
            final(self).capacity() == old(self).capacity(),
            final(self).contents() == old(self).contents() + data@,
            final(self).written_total() == old(self).written_total() + data@.len(),
            final(self).read_total() == old(self).read_total(),
    {
        let ghost old_self = *old(self);
        let cap = self.buf.len();
        let mut i: usize = 0;
        while i < data.len()
            invariant
                self.wf(),
                i <= data@.len(),
                cap == self.buf@.len(),
                data@.len() + old_self.used <= cap,
                self.start == old_self.start,
                self.used == old_self.used + i,
                self.capacity() == old_self.capacity(),
                self.contents() == old_self.contents() + data@.subrange(0, i as int),
                self.total_written@ == old_self.total_written@ + i as nat,
                self.total_read@ == old_self.total_read@,
            decreases data@.len() - i,
        {
            let pos = if self.start >= cap - self.used {
                self.start - (cap - self.used)
            } else {
                self.start + self.used
            };
            let ghost prev = *self;
            self.buf[pos] = data[i];
            self.used = self.used + 1;
            proof {
                self.total_written@ = self.total_written@ + 1;
                let cap_i = cap as int;
                assert(self.buf@ == prev.buf@.update(pos as int, data@[i as int]));
                assert forall|j: int| 0 <= j < self.used implies #[trigger] self.contents()[j]
                    == (old_self.contents() + data@.subrange(0, i + 1 as int))[j] by {
                    let k = prev.start + j;
                    if j < prev.used {
                        if k < cap_i {
                            assert(k != pos);
                        } else {
                            assert(k - cap_i != pos);
                        }
                        assert(self.contents()[j] == prev.contents()[j]);
                    } else {
                        if k < cap_i {
                            assert(k == pos);
                        } else {
                            assert(k - cap_i == pos);
                        }
                        assert(self.contents()[j] == data@[i as int]);
                    }
                }
                assert(self.contents() =~= old_self.contents() + data@.subrange(
                    0,
                    i + 1 as int,
                ));
            }
            i = i + 1;
        }
        proof {
            assert(data@.subrange(0, data@.len() as int) =~= data@);
        }
    }

    /// Length of the contiguous occupied region at the head.
    pub fn readable_len(&self) -> (r: usize)
        requires
            self.wf(),
        ensures
            r == self.readable_contig(),
            r <= self.contents().len(),
            self.contents().len() > 0 ==> r > 0,
    {
        let to_end = self.buf.len() - self.start;
        if self.used < to_end {
            self.used
        } else {
            to_end
        }
    }

    /// A copy of the first `n` queued bytes; `n` must stay within the
    /// contiguous occupied region at the head.
    pub fn read_slice(&self, n: usize) -> (r: Vec<u8>)
        requires
            self.wf(),
            n <= self.readable_contig(),
        ensures
            r@ == self.contents().take(n as int),
    {
        let cap = self.buf.len();
        let mut out: Vec<u8> = Vec::new();
        let mut i: usize = 0;
        while i < n
            invariant
                self.wf(),
                i <= n,
                n <= self.readable_contig(),
                cap == self.buf@.len(),
                self.start + n <= cap,
                out@ == self.contents().take(i as int),
            decreases n - i,
        {
            proof {
                assert(self.start + n <= self.buf@.len());
            }
            out.push(self.buf[self.start + i]);
            proof {
                assert(out@ =~= self.contents().take(i + 1 as int));
            }
            i = i + 1;
        }
        out
    }

    /// Release the first `n` queued bytes, advancing the read cursor.
    pub fn advance_read(&mut self, n: usize)
        requires
            old(self).wf(),
            n <= old(self).contents().len(),
        ensures
            final(self).wf(),
            final(self).capacity() == old(self).capacity(),
            final(self).contents() == old(self).contents().skip(n as int),
            final(self).written_total() == old(self).written_total(),
            final(self).read_total() == old(self).read_total() + n,
    {
        let cap = self.buf.len();
        let new_start = if self.start >= cap - n {
            self.start - (cap - n)
        } else {
            self.start + n
        };
        let ghost prev = *self;
        self.start = new_start;
        self.used = self.used - n;
        proof {
            self.total_read@ = self.total_read@ + n as nat;
            assert(self.contents() =~= prev.contents().skip(n as int));
        }
    }
}

} // verus!
