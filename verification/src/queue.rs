//! The unbounded-queue hand-off: chunks leave in the order in which they
//! came, and a closed queue is told apart from one that is empty for now.

use vstd::prelude::*;

verus! {

/// Mathematical content of a [`ChunkQueue`]: the waiting chunks, oldest
/// first, and whether the producer has stopped.
pub ghost struct QueueModel {
    pub chunks: Seq<Seq<u8>>,
    pub closed: bool,
}

/// What a take found.
#[derive(Debug, PartialEq, Eq)]
pub enum Taken {
    /// The oldest waiting chunk.
    Chunk(Vec<u8>),
    /// Nothing waits, but more may come: try again.
    Empty,
    /// Nothing waits and nothing will come.
    Closed,
}

/// [`Taken`] over sequences.
pub ghost enum TakenModel {
    Chunk(Seq<u8>),
    Empty,
    Closed,
}

impl Taken {
    pub open spec fn view(&self) -> TakenModel {
        match self {
            Taken::Chunk(bytes) => TakenModel::Chunk(bytes@),
            Taken::Empty => TakenModel::Empty,
            Taken::Closed => TakenModel::Closed,
        }
    }
}

impl QueueModel {
    /// The queue after a chunk was offered: enqueued at the back while the
    /// queue is open, refused once it is closed.
    pub open spec fn offered(self, chunk: Seq<u8>) -> QueueModel {
        if self.closed {
            self
        } else {
            QueueModel { chunks: self.chunks.push(chunk), ..self }
        }
    }

    /// What a take finds.
    pub open spec fn front(self) -> TakenModel {
        if self.chunks.len() > 0 {
            TakenModel::Chunk(self.chunks[0])
        } else if self.closed {
            TakenModel::Closed
        } else {
            TakenModel::Empty
        }
    }

    /// The queue after a take.
    pub open spec fn popped(self) -> QueueModel {
        if self.chunks.len() > 0 {
            QueueModel { chunks: self.chunks.skip(1), ..self }
        } else {
            self
        }
    }

    /// The queue after the producer stopped: what waits stays.
    pub open spec fn shut(self) -> QueueModel {
        QueueModel { closed: true, ..self }
    }

    /// The number of bytes that wait.
    pub open spec fn pending_bytes(self) -> nat
        decreases self.chunks.len(),
    {
        if self.chunks.len() == 0 {
            0
        } else {
            self.chunks[0].len() + self.popped().pending_bytes()
        }
    }
}

/// A first-in, first-out queue of chunks with a closed state.
pub struct ChunkQueue {
    chunks: Vec<Vec<u8>>,
    closed: bool,
}

impl ChunkQueue {
    pub closed spec fn view(&self) -> QueueModel {
        QueueModel { chunks: self.chunks@.map_values(|c: Vec<u8>| c@), closed: self.closed }
    }

    /// An open queue in which nothing waits.
    pub fn new() -> (queue: ChunkQueue)
        ensures
            queue@ == (QueueModel { chunks: Seq::empty(), closed: false }),
    {
        let queue = ChunkQueue { chunks: Vec::new(), closed: false };
        assert(queue@.chunks =~= Seq::empty());
        queue
    }

    /// Enqueues a chunk. Succeeds exactly while the queue is open.
    pub fn offer(&mut self, chunk: Vec<u8>) -> (sent: bool)
        ensures
            sent == !old(self)@.closed,
            final(self)@ == old(self)@.offered(chunk@),
    {
        if self.closed {
            false
        } else {
            self.chunks.push(chunk);
            assert(self@.chunks =~= old(self)@.chunks.push(chunk@));
            true
        }
    }

    /// Removes the oldest chunk, if one waits. Never waits itself: with
    /// nothing there it says whether more may come.
    pub fn take(&mut self) -> (taken: Taken)
        ensures
            taken@ == old(self)@.front(),
            final(self)@ == old(self)@.popped(),
    {
        if self.chunks.len() > 0 {
            let chunk = self.chunks.remove(0);
            assert(self@.chunks =~= old(self)@.chunks.skip(1));
            Taken::Chunk(chunk)
        } else if self.closed {
            Taken::Closed
        } else {
            Taken::Empty
        }
    }

    /// Marks the producer as stopped. Chunks that wait can still be taken.
    pub fn close(&mut self)
        ensures
            final(self)@ == old(self)@.shut(),
    {
        self.closed = true;
    }

    /// Whether the producer has stopped.
    pub fn is_closed(&self) -> (closed: bool)
        ensures
            closed == self@.closed,
    {
        self.closed
    }

    /// How many chunks wait.
    pub fn len(&self) -> (n: usize)
        ensures
            n == self@.chunks.len(),
    {
        self.chunks.len()
    }
}

/// The bytes of a sequence of chunks, end to end.
pub open spec fn flattened(chunks: Seq<Seq<u8>>) -> Seq<u8>
    decreases chunks.len(),
{
    if chunks.len() == 0 {
        Seq::empty()
    } else {
        chunks[0] + flattened(chunks.skip(1))
    }
}

/// Cuts the byte stream that leaves a [`ChunkQueue`] into windows of a fixed
/// length, whatever the lengths of the chunks.
pub struct WindowAssembler {
    carry: Vec<u8>,
}

impl WindowAssembler {
    /// The bytes taken from the queue and not yet handed out in a window.
    pub closed spec fn view(&self) -> Seq<u8> {
        self.carry@
    }

    /// An assembler that holds no bytes.
    pub fn new() -> (assembler: WindowAssembler)
        ensures
            assembler@ == Seq::<u8>::empty(),
    {
        WindowAssembler { carry: Vec::new() }
    }

    /// Looks for a full window of `window` bytes in what the assembler holds
    /// and what waits in the queue. With that much there, hands out the first
    /// `window` bytes of the stream and keeps the rest in order. With less,
    /// takes all that waits and says whether more may come.
    pub fn next_window(&mut self, queue: &mut ChunkQueue, window: usize) -> (taken: Taken)
        ensures
            final(queue)@.closed == old(queue)@.closed,
            old(self)@.len() + flattened(old(queue)@.chunks).len() >= window ==> (
            taken matches Taken::Chunk(bytes) && bytes@ == (old(self)@ + flattened(
                old(queue)@.chunks,
            )).take(window as int) && final(self)@ + flattened(final(queue)@.chunks) == (old(
                self,
            )@ + flattened(old(queue)@.chunks)).skip(window as int)),
            old(self)@.len() + flattened(old(queue)@.chunks).len() < window ==> {
                &&& taken@ == if old(queue)@.closed {
                    TakenModel::Closed
                } else {
                    TakenModel::Empty
                }
                &&& final(queue)@.chunks.len() == 0
                &&& final(self)@ == old(self)@ + flattened(old(queue)@.chunks)
            },
    {
        let ghost stream = self@ + flattened(queue@.chunks);
        while self.carry.len() < window
            invariant
                stream == old(self)@ + flattened(old(queue)@.chunks),
                self@ + flattened(queue@.chunks) == stream,
                queue@.closed == old(queue)@.closed,
            decreases queue@.chunks.len(),
        {
            let ghost before = self@;
            let ghost waiting = queue@.chunks;
            match queue.take() {
                Taken::Chunk(mut chunk) => {
                    self.carry.append(&mut chunk);
                    assert(self@ + flattened(queue@.chunks) =~= before + flattened(waiting));
                },
                Taken::Empty => {
                    assert(waiting.len() == 0 && queue@.chunks =~= waiting);
                    assert(self@ =~= stream);
                    return Taken::Empty;
                },
                Taken::Closed => {
                    assert(waiting.len() == 0 && queue@.chunks =~= waiting);
                    assert(self@ =~= stream);
                    return Taken::Closed;
                },
            }
        }
        let mut head = self.carry.split_off(window);
        core::mem::swap(&mut head, &mut self.carry);
        assert(head@ =~= stream.take(window as int));
        assert(self@ + flattened(queue@.chunks) =~= stream.skip(window as int));
        Taken::Chunk(head)
    }
}

/// Chunks leave in the order in which they came: an offer never changes what
/// the next take finds in a queue where something waits, and in an open queue
/// where nothing waits the next take finds the chunk just offered.
pub proof fn lemma_first_in_first_out(queue: QueueModel, chunk: Seq<u8>)
    ensures
        queue.chunks.len() > 0 ==> queue.offered(chunk).front() == queue.front(),
        queue.chunks.len() == 0 && !queue.closed ==> queue.offered(chunk).front()
            == TakenModel::Chunk(chunk) && queue.offered(chunk).popped() == queue,
        queue.chunks.len() > 0 && !queue.closed ==> queue.offered(chunk).popped()
            == queue.popped().offered(chunk),
{
    if queue.chunks.len() == 0 && !queue.closed {
        assert(queue.offered(chunk).popped().chunks =~= queue.chunks);
    }
    if queue.chunks.len() > 0 && !queue.closed {
        assert(queue.offered(chunk).popped().chunks =~= queue.popped().offered(chunk).chunks);
    }
}

/// A take reports the end of the stream exactly when nothing waits and the
/// queue is closed; a lull in an open queue is reported as empty, never as the
/// end, and closing loses no chunk.
pub proof fn lemma_closed_is_not_empty(queue: QueueModel)
    ensures
        queue.front() == TakenModel::Closed <==> queue.chunks.len() == 0 && queue.closed,
        queue.front() == TakenModel::Empty <==> queue.chunks.len() == 0 && !queue.closed,
        queue.shut().chunks == queue.chunks,
        queue.chunks.len() == 0 ==> queue.shut().front() == TakenModel::Closed,
{
}

/// The bytes that wait are what was offered and not yet taken: an accepted
/// offer adds the chunk's length, a take removes the length of what it hands
/// out, and the count never falls below zero.
pub proof fn lemma_bytes_accounted(queue: QueueModel, chunk: Seq<u8>)
    ensures
        !queue.closed ==> queue.offered(chunk).pending_bytes() == queue.pending_bytes()
            + chunk.len(),
        queue.chunks.len() > 0 ==> queue.popped().pending_bytes() + queue.chunks[0].len()
            == queue.pending_bytes(),
        queue.chunks.len() == 0 ==> queue.popped().pending_bytes() == queue.pending_bytes(),
    decreases queue.chunks.len(),
{
    if !queue.closed {
        if queue.chunks.len() == 0 {
            let after = queue.offered(chunk);
            assert(after.chunks[0] == chunk);
            assert(after.popped().chunks =~= Seq::<Seq<u8>>::empty());
            assert(after.popped().pending_bytes() == 0);
        } else {
            let after = queue.offered(chunk);
            assert(after.chunks[0] == queue.chunks[0]);
            assert(after.popped().chunks =~= queue.popped().offered(chunk).chunks);
            assert(after.popped() == queue.popped().offered(chunk));
            lemma_bytes_accounted(queue.popped(), chunk);
        }
    }
}

} // verus!
