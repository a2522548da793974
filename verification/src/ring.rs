//! Bounded circular sample queue: the handoff structure between the capture
//! callback (producer side) and the processing loop (consumer side).
//!
//! A full queue never blocks the producer: a push onto a full queue drops the
//! sample and reports overflow, so the real-time capture callback always
//! returns promptly. The samples that are kept arrive at the consumer in
//! exactly the order they were pushed.

use vstd::prelude::*;

verus! {

/// What the producer side learns from a push: the sample was stored, or the
/// queue was full and the sample was dropped.
#[derive(Clone, Copy, Debug, PartialEq, Eq, Structural)]
pub enum PushOutcome {
    Stored,
    Overflow,
}

/// The samples of `incoming` that a queue holding `contents` with the given
/// capacity keeps: the longest prefix that fits. The rest is dropped as
/// overflow.
pub open spec fn kept_prefix(contents: Seq<i32>, capacity: int, incoming: Seq<i32>) -> Seq<i32> {
    if contents.len() + incoming.len() <= capacity {
        incoming
    } else {
        incoming.take(capacity - contents.len())
    }
}

/// Fixed-capacity circular queue of samples with a read cursor (`head`) and
/// a write cursor derived from `head + len`. The producer only appends; the
/// consumer only drains or clears; size never exceeds capacity.
pub struct RingBuffer {
    buf: Vec<i32>,
    head: usize,
    len: usize,
}

impl View for RingBuffer {
    type V = Seq<i32>;

    /// The buffered samples in arrival order.
    closed spec fn view(&self) -> Seq<i32> {
        Seq::new(
            self.len as nat,
            |i: int| self.buf@[(self.head + i) % (self.buf@.len() as int)],
        )
    }
}

/// Where index `head + i` lands in a circular buffer of size `cap`, for
/// offsets within one wrap.
proof fn lemma_wrap_index(head: int, i: int, cap: int)
    requires
        0 <= head < cap,
        0 <= i <= cap,
    ensures
        (head + i) % cap == if head + i < cap { head + i } else { head + i - cap },
{
    if head + i < cap {
        assert((head + i) % cap == head + i) by (nonlinear_arith)
            requires
                0 <= head + i < cap,
        ;
    } else {
        assert((head + i) % cap == head + i - cap) by (nonlinear_arith)
            requires
                cap <= head + i < 2 * cap,
                0 < cap,
        ;
    }
}

impl RingBuffer {
    /// The fixed capacity: how many samples the queue can hold at once.
    pub closed spec fn capacity_spec(self) -> int {
        self.buf@.len() as int
    }

    /// Structural invariant: non-empty storage, cursors in range, and never
    /// more buffered samples than capacity.
    pub closed spec fn wf(self) -> bool {
        self.buf@.len() > 0 && self.head < self.buf@.len() && self.len <= self.buf@.len()
    }

    /// The buffered sample count never exceeds the capacity: overflow drops
    /// samples instead of corrupting the queue.
    pub proof fn lemma_size_bounded(self)
        requires
            self.wf(),
        ensures
            self@.len() <= self.capacity_spec(),
    {
    }

    /// An empty queue that can hold `capacity` samples.
    pub fn new(capacity: usize) -> (r: RingBuffer)
        requires
            capacity > 0,
        ensures
            r.wf(),
            r.capacity_spec() == capacity,
            r@ == Seq::<i32>::empty(),
    {
        let mut buf: Vec<i32> = Vec::new();
        let mut i: usize = 0;
        while i < capacity
            invariant
                i <= capacity,
                buf@.len() == i,
            decreases capacity - i,
        {
            buf.push(0);
            i = i + 1;
        }
        let r = RingBuffer { buf, head: 0, len: 0 };
        proof {
            assert(r@ =~= Seq::<i32>::empty());
        }
        r
    }

    pub fn capacity(&self) -> (r: usize)
        ensures
            r == self.capacity_spec(),
    {
        self.buf.len()
    }

    pub fn len(&self) -> (r: usize)
        ensures
            r == self@.len(),
    {
        self.len
    }

    /// Producer side: append one sample. On a full queue the sample is
    /// dropped, overflow is reported, and the buffered samples are unchanged
    /// — overflow is observable but never corrupts the queue.
    pub fn push(&mut self, sample: i32) -> (r: PushOutcome)
        requires
            old(self).wf(),
        ensures
            final(self).wf(),
            final(self).capacity_spec() == old(self).capacity_spec(),
            old(self)@.len() < old(self).capacity_spec() ==> r == PushOutcome::Stored
                && final(self)@ == old(self)@.push(sample),
            old(self)@.len() == old(self).capacity_spec() ==> r == PushOutcome::Overflow
                && final(self)@ == old(self)@,
    {
        let cap = self.buf.len();
        if self.len == cap {
            return PushOutcome::Overflow;
        }
        let room = cap - self.head;
        let idx = if self.len < room {
            self.head + self.len
        } else {
            self.len - room
        };
        proof {
            lemma_wrap_index(self.head as int, self.len as int, cap as int);
        }
        self.buf.set(idx, sample);
        self.len = self.len + 1;
        proof {
            let c = cap as int;
            let h = old(self).head as int;
            let n = old(self).len as int;
            lemma_wrap_index(h, n, c);
            assert forall|k: int| 0 <= k < n implies self@[k] == old(self)@[k] by {
                lemma_wrap_index(h, k, c);
            }
            assert(self@ =~= old(self)@.push(sample));
        }
        PushOutcome::Stored
    }

    /// Producer side: append a block of samples, as a capture callback hands
    /// them over. Exactly the longest fitting prefix is kept, in arrival
    /// order; the count of dropped samples is returned so repeated overflow
    /// can be surfaced as a health signal.
    pub fn push_block(&mut self, block: &Vec<i32>) -> (dropped: usize)
        requires
            old(self).wf(),
        ensures
            final(self).wf(),
            final(self).capacity_spec() == old(self).capacity_spec(),
            final(self)@ == old(self)@ + kept_prefix(
                old(self)@,
                old(self).capacity_spec(),
                block@,
            ),
            dropped as int == block@.len() - kept_prefix(
                old(self)@,
                old(self).capacity_spec(),
                block@,
            ).len(),
    {
        let ghost pre = self@;
        let ghost cap = self.capacity_spec();
        let mut dropped: usize = 0;
        let mut i: usize = 0;
        while i < block.len()
            invariant
                self.wf(),
                self.capacity_spec() == cap,
                pre.len() <= cap,
                i <= block@.len(),
                dropped <= i,
                self@ == pre + kept_prefix(pre, cap, block@.take(i as int)),
                dropped as int == i - kept_prefix(pre, cap, block@.take(i as int)).len(),
            decreases block@.len() - i,
        {
            let sample = block[i];
            let r = self.push(sample);
            proof {
                let taken = block@.take(i as int);
                let taken1 = block@.take(i + 1);
                assert(taken1 =~= taken.push(block@[i as int]));
                if pre.len() + taken.len() < cap {
                    assert(kept_prefix(pre, cap, taken1) =~= kept_prefix(pre, cap, taken).push(
                        block@[i as int],
                    ));
                } else {
                    assert(kept_prefix(pre, cap, taken1) =~= kept_prefix(pre, cap, taken));
                }
            }
            if matches!(r, PushOutcome::Overflow) {
                dropped = dropped + 1;
            }
            i = i + 1;
        }
        proof {
            assert(block@.take(block@.len() as int) =~= block@);
        }
        dropped
    }

    /// Consumer side: remove and return everything buffered, in arrival
    /// order. The queue is empty afterwards.
    pub fn drain(&mut self) -> (r: Vec<i32>)
        requires
            old(self).wf(),
        ensures
            final(self).wf(),
            final(self).capacity_spec() == old(self).capacity_spec(),
            final(self)@ == Seq::<i32>::empty(),
            r@ == old(self)@,
    {
        let mut out: Vec<i32> = Vec::new();
        let cap = self.buf.len();
        let mut i: usize = 0;
        while i < self.len
            invariant
                self.buf == old(self).buf,
                self.head == old(self).head,
                self.len == old(self).len,
                self.wf(),
                cap == self.buf@.len(),
                i <= self.len,
                out@ == self@.take(i as int),
            decreases self.len - i,
        {
            let room = cap - self.head;
            let idx = if i < room {
                self.head + i
            } else {
                i - room
            };
            proof {
                lemma_wrap_index(self.head as int, i as int, cap as int);
                assert(self@.take(i + 1) =~= self@.take(i as int).push(self@[i as int]));
            }
            out.push(self.buf[idx]);
            i = i + 1;
        }
        proof {
            assert(self@.take(self.len as int) =~= self@);
        }
        self.head = 0;
        self.len = 0;
        proof {
            assert(self@ =~= Seq::<i32>::empty());
        }
        out
    }

    /// Consumer side: discard everything buffered and unread. Used after an
    /// utterance is handed off, so nothing captured during the pause race
    /// leaks into the next utterance, and after initial startup settling.
    pub fn clear(&mut self)
        requires
            old(self).wf(),
        ensures
            final(self).wf(),
            final(self).capacity_spec() == old(self).capacity_spec(),
            final(self)@ == Seq::<i32>::empty(),
    {
        self.head = 0;
        self.len = 0;
        proof {
            assert(self@ =~= Seq::<i32>::empty());
        }
    }
}

/// Law: the queue preserves arrival order of the samples that survive an
/// overflowing block push. The kept samples are exactly a prefix of the
/// block; each stands after the previously buffered contents at the offset
/// it had in the block, so no two surviving samples are ever reordered.
pub proof fn lemma_arrival_order_preserved(
    contents: Seq<i32>,
    capacity: int,
    block: Seq<i32>,
    i: int,
    j: int,
)
    requires
        0 <= contents.len() <= capacity,
        0 <= i < j < kept_prefix(contents, capacity, block).len(),
    ensures
        kept_prefix(contents, capacity, block)[i] == block[i],
        kept_prefix(contents, capacity, block)[j] == block[j],
        (contents + kept_prefix(contents, capacity, block))[contents.len() + i] == block[i],
        (contents + kept_prefix(contents, capacity, block))[contents.len() + j] == block[j],
{
}

} // verus!
