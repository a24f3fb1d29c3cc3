//! The bounded queue between a script that writes a response body in chunks
//! and the transport that sends it. An empty chunk ends the stream.

use std::collections::VecDeque;
use vstd::prelude::*;
use crate::errors::{failure, Error, ErrorKind, Reason};

verus! {

/// The most chunks that a queue holds by default. With chunks of 16 KiB
/// that is about 16 MiB in flight.
pub const MAX_BUFFER_QUEUE_SIZE: usize = 1024;

/// The chunks that have been written and not yet sent, oldest first, and
/// whether the transport found the queue empty and waits to be woken.
pub struct BufferQueue {
    queue: VecDeque<Vec<u8>>,
    waiting: bool,
    bound: usize,
}

/// What the transport gets when it asks for the next chunk.
#[derive(Debug)]
pub enum Polled {
    /// The next chunk of the body.
    Ready(Vec<u8>),
    /// The body is complete.
    Done,
    /// Nothing is queued; the transport is woken at the next write.
    Pending,
}

/// The bytes that the transport sends for the queued chunks `chunks`: the
/// chunks in order, up to the first empty one.
pub open spec fn delivered(chunks: Seq<Seq<u8>>) -> Seq<u8>
    decreases chunks.len(),
{
    if chunks.len() == 0 || chunks[0].len() == 0 {
        Seq::empty()
    } else {
        chunks[0] + delivered(chunks.skip(1))
    }
}

/// The queued chunks hold the end of the stream: one of them is empty.
pub open spec fn ended(chunks: Seq<Seq<u8>>) -> bool
    decreases chunks.len(),
{
    if chunks.len() == 0 {
        false
    } else if chunks[0].len() == 0 {
        true
    } else {
        ended(chunks.skip(1))
    }
}

/// The chunks that are still queued once the transport has taken all it can
/// get: those behind the first empty chunk, or none where no chunk is empty.
pub open spec fn left_over(chunks: Seq<Seq<u8>>) -> Seq<Seq<u8>>
    decreases chunks.len(),
{
    if chunks.len() == 0 {
        Seq::empty()
    } else if chunks[0].len() == 0 {
        chunks.skip(1)
    } else {
        left_over(chunks.skip(1))
    }
}

/// The chunks one after another.
pub open spec fn joined(chunks: Seq<Seq<u8>>) -> Seq<u8>
    decreases chunks.len(),
{
    if chunks.len() == 0 {
        Seq::empty()
    } else {
        chunks[0] + joined(chunks.skip(1))
    }
}

/// Chunks written one after another and closed by an empty chunk reach the
/// transport as exactly their bytes in order, followed by the end of the
/// stream: nothing is lost and nothing comes twice.
pub proof fn lemma_stream_round_trip(chunks: Seq<Seq<u8>>)
    requires
        forall|i: int| 0 <= i < chunks.len() ==> (#[trigger] chunks[i]).len() > 0,
    ensures
        delivered(chunks.push(Seq::empty())) == joined(chunks),
        ended(chunks.push(Seq::empty())),
    decreases chunks.len(),
{
    let closed = chunks.push(Seq::<u8>::empty());
    if chunks.len() == 0 {
        assert(closed[0].len() == 0);
    } else {
        assert(closed[0] == chunks[0]);
        assert(closed.skip(1) =~= chunks.skip(1).push(Seq::<u8>::empty()));
        lemma_stream_round_trip(chunks.skip(1));
    }
}

impl View for BufferQueue {
    type V = Seq<Seq<u8>>;

    closed spec fn view(&self) -> Seq<Seq<u8>> {
        self.queue@.map_values(|chunk: Vec<u8>| chunk@)
    }
}

impl BufferQueue {
    /// The queue holds no more chunks than its bound allows.
    #[verifier::type_invariant]
    spec fn within_bound(&self) -> bool {
        self.queue@.len() <= self.bound
    }

    /// The most chunks that the queue holds.
    pub closed spec fn bound(&self) -> nat {
        self.bound as nat
    }

    /// The transport has found the queue empty and has not been woken since.
    pub closed spec fn is_waiting(&self) -> bool {
        self.waiting
    }

    /// An empty queue with the default bound.
    pub fn new() -> (q: BufferQueue)
        ensures
            q@ == Seq::<Seq<u8>>::empty(),
            q.bound() == MAX_BUFFER_QUEUE_SIZE,
            !q.is_waiting(),
    {
        BufferQueue::with_bound(MAX_BUFFER_QUEUE_SIZE)
    }

    /// An empty queue that holds at most `bound` chunks.
    pub fn with_bound(bound: usize) -> (q: BufferQueue)
        ensures
            q@ == Seq::<Seq<u8>>::empty(),
            q.bound() == bound,
            !q.is_waiting(),
    {
        let q = BufferQueue { queue: VecDeque::new(), waiting: false, bound };
        assert(q@ =~= Seq::<Seq<u8>>::empty());
        q
    }

    /// The number of queued chunks, which never exceeds the bound.
    pub fn len(&self) -> (n: usize)
        ensures
            n == self@.len(),
            n <= self.bound(),
    {
        proof {
            use_type_invariant(self);
        }
        self.queue.len()
    }

    /// Whether the transport waits to be woken.
    pub fn waiting(&self) -> (b: bool)
        ensures
            b == self.is_waiting(),
    {
        self.waiting
    }

    /// Queues `buffer` behind the chunks that are there, unless the queue is
    /// at its bound. Says whether a waiting transport has to be woken, which
    /// a write that follows will not say again.
    pub fn push(&mut self, buffer: Vec<u8>) -> (r: Result<bool, Error>)
        ensures
            final(self).bound() == old(self).bound(),
            final(self)@.len() <= final(self).bound(),
            match r {
                Ok(wake) => {
                    &&& old(self)@.len() < old(self).bound()
                    &&& final(self)@ == old(self)@.push(buffer@)
                    &&& wake == old(self).is_waiting()
                    &&& !final(self).is_waiting()
                },
                Err(e) => {
                    &&& old(self)@.len() >= old(self).bound()
                    &&& final(self)@ == old(self)@
                    &&& final(self).is_waiting() == old(self).is_waiting()
                    &&& e@ == failure(ErrorKind::LimitExceeded, Reason::QueueFull, Seq::empty())
                },
            },
    {
        proof {
            use_type_invariant(&*self);
            reveal_strlit("");
            assert(""@ =~= Seq::<char>::empty());
        }
        if self.queue.len() >= self.bound {
            return Err(Error::new(ErrorKind::LimitExceeded, Reason::QueueFull, ""));
        }
        let ghost before = self@;
        let mut taken = BufferQueue::with_bound(0);
        core::mem::swap(self, &mut taken);
        let BufferQueue { queue, waiting, bound } = taken;
        let mut queue = queue;
        queue.push_back(buffer);
        *self = BufferQueue { queue, waiting: false, bound };
        assert(self@ =~= before.push(buffer@));
        Ok(waiting)
    }

    /// Takes the oldest chunk off the queue for the transport. An empty
    /// chunk ends the stream; an empty queue leaves the transport waiting.
    pub fn poll(&mut self) -> (r: Polled)
        ensures
            final(self).bound() == old(self).bound(),
            final(self)@.len() <= final(self).bound(),
            match r {
                Polled::Ready(chunk) => {
                    &&& old(self)@.len() > 0
                    &&& chunk@.len() > 0
                    &&& chunk@ == old(self)@[0]
                    &&& final(self)@ == old(self)@.skip(1)
                    &&& final(self).is_waiting() == old(self).is_waiting()
                },
                Polled::Done => {
                    &&& old(self)@.len() > 0
                    &&& old(self)@[0].len() == 0
                    &&& final(self)@ == old(self)@.skip(1)
                    &&& final(self).is_waiting() == old(self).is_waiting()
                },
                Polled::Pending => {
                    &&& old(self)@.len() == 0
                    &&& final(self)@ == old(self)@
                    &&& final(self).is_waiting()
                },
            },
    {
        proof {
            use_type_invariant(&*self);
        }
        let ghost before = self@;
        let mut taken = BufferQueue::with_bound(0);
        core::mem::swap(self, &mut taken);
        let BufferQueue { queue, waiting, bound } = taken;
        let mut queue = queue;
        match queue.pop_front() {
            Some(chunk) => {
                *self = BufferQueue { queue, waiting, bound };
                assert(self@ =~= before.skip(1));
                assert(chunk@ == before[0]);
                if chunk.len() > 0 {
                    Polled::Ready(chunk)
                } else {
                    Polled::Done
                }
            },
            None => {
                *self = BufferQueue { queue, waiting: true, bound };
                assert(self@ =~= before);
                Polled::Pending
            },
        }
    }

    /// Takes chunks off the queue until the stream ends or the queue is
    /// empty, and hands back their bytes in order and whether the stream
    /// ended. What was queued behind the end of the stream stays queued; a
    /// queue that ran empty before the end leaves the transport waiting.
    pub fn drain(&mut self) -> (r: (Vec<u8>, bool))
        ensures
            final(self).bound() == old(self).bound(),
            r.0@ == delivered(old(self)@),
            r.1 == ended(old(self)@),
            final(self)@ == left_over(old(self)@),
            final(self).is_waiting() == (if ended(old(self)@) {
                old(self).is_waiting()
            } else {
                true
            }),
    {
        let ghost before = self@;
        let mut out: Vec<u8> = Vec::new();
        let mut done = false;
        let mut pending = false;
        proof {
            assert(out@ + delivered(self@) =~= delivered(before));
        }
        while !done && !pending
            invariant
                self.bound() == old(self).bound(),
                !(done && pending),
                !done && !pending ==> {
                    &&& out@ + delivered(self@) == delivered(before)
                    &&& ended(self@) == ended(before)
                    &&& left_over(self@) == left_over(before)
                    &&& self.is_waiting() == old(self).is_waiting()
                },
                done ==> {
                    &&& out@ == delivered(before)
                    &&& ended(before)
                    &&& self@ == left_over(before)
                    &&& self.is_waiting() == old(self).is_waiting()
                },
                pending ==> {
                    &&& out@ == delivered(before)
                    &&& !ended(before)
                    &&& self@ == left_over(before)
                    &&& self.is_waiting()
                },
            decreases self@.len() + (if done || pending { 0nat } else { 1nat }),
        {
            let ghost queued = self@;
            let ghost sent = out@;
            match self.poll() {
                Polled::Ready(mut chunk) => {
                    let ghost bytes = chunk@;
                    out.append(&mut chunk);
                    proof {
                        assert(out@ =~= sent + bytes);
                        assert(out@ + delivered(self@) =~= sent + delivered(queued));
                    }
                },
                Polled::Done => {
                    done = true;
                    proof {
                        assert(sent + delivered(queued) =~= sent);
                    }
                },
                Polled::Pending => {
                    pending = true;
                    proof {
                        assert(sent + delivered(queued) =~= sent);
                    }
                },
            }
        }
        (out, done)
    }
}

} // verus!
