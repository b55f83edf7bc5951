//! Bounded receive buffer: an append-only byte sequence with FIFO eviction.
//!
//! The buffer never exceeds `MAX_BUFFER_SIZE` as long as individual appends
//! stay within `BUFFER_DRAIN_SIZE`; when an append pushes the length past the
//! bound, exactly the `BUFFER_DRAIN_SIZE` oldest bytes are evicted, once.
//! Larger appends are allowed, and a single eviction still takes place; the
//! remaining excess is handled by later appends.

use vstd::prelude::*;

verus! {

/// Largest number of bytes the buffer is meant to hold.
pub const MAX_BUFFER_SIZE: usize = 100000;

/// Number of oldest bytes evicted when an append exceeds `MAX_BUFFER_SIZE`.
pub const BUFFER_DRAIN_SIZE: usize = 10000;

/// What one append leaves in a buffer: the old contents extended by the new
/// bytes, with the `BUFFER_DRAIN_SIZE` oldest bytes dropped once if the
/// extension exceeds `MAX_BUFFER_SIZE`.
pub open spec fn spec_append(buf: Seq<u8>, data: Seq<u8>) -> Seq<u8> {
    let extended = buf + data;
    if extended.len() > MAX_BUFFER_SIZE {
        extended.skip(BUFFER_DRAIN_SIZE as int)
    } else {
        extended
    }
}

/// Append-only byte store with FIFO eviction at `MAX_BUFFER_SIZE`.
pub struct BufferStore {
    data: Vec<u8>,
}

impl View for BufferStore {
    type V = Seq<u8>;

    closed spec fn view(&self) -> Seq<u8> {
        self.data@
    }
}

impl BufferStore {
    /// An empty buffer.
    pub fn new() -> (r: BufferStore)
        ensures
            r@ == Seq::<u8>::empty(),
    {
        BufferStore { data: Vec::new() }
    }

    /// Number of bytes currently held.
    pub fn len(&self) -> (r: usize)
        ensures
            r == self@.len(),
    {
        self.data.len()
    }

    /// The bytes currently held, oldest first.
    pub fn contents(&self) -> (r: &Vec<u8>)
        ensures
            r@ == self@,
    {
        &self.data
    }

    /// Extend the buffer with `bytes`; if the result exceeds
    /// `MAX_BUFFER_SIZE`, evict exactly the `BUFFER_DRAIN_SIZE` oldest bytes,
    /// once.
    pub fn append(&mut self, bytes: &[u8])
        ensures
            final(self)@ == spec_append(old(self)@, bytes@),
    {
        self.data.extend_from_slice(bytes);
        if self.data.len() > MAX_BUFFER_SIZE {
            let ghost extended = self.data@;
            let mut kept: Vec<u8> = Vec::new();
            let mut i: usize = BUFFER_DRAIN_SIZE;
            while i < self.data.len()
                invariant
                    BUFFER_DRAIN_SIZE <= i <= self.data@.len(),
                    self.data@ == extended,
                    kept@ == extended.subrange(BUFFER_DRAIN_SIZE as int, i as int),
                decreases self.data@.len() - i,
            {
                kept.push(self.data[i]);
                i = i + 1;
            }
            self.data = kept;
            assert(self.data@ =~= extended.skip(BUFFER_DRAIN_SIZE as int));
        }
    }

    /// Drop all bytes.
    pub fn clear(&mut self)
        ensures
            final(self)@ == Seq::<u8>::empty(),
    {
        self.data.clear();
    }
}

/// Appends that stay within `BUFFER_DRAIN_SIZE` keep a bounded buffer
/// bounded, and an overflowing append evicts exactly the
/// `BUFFER_DRAIN_SIZE` oldest bytes, once.
pub proof fn lemma_append_keeps_bound(buf: Seq<u8>, data: Seq<u8>)
    requires
        buf.len() <= MAX_BUFFER_SIZE,
        data.len() <= BUFFER_DRAIN_SIZE,
    ensures
        spec_append(buf, data).len() <= MAX_BUFFER_SIZE,
        buf.len() + data.len() <= MAX_BUFFER_SIZE ==> spec_append(buf, data) == buf + data,
        buf.len() + data.len() > MAX_BUFFER_SIZE ==> spec_append(buf, data) == (buf
            + data).skip(BUFFER_DRAIN_SIZE as int),
{
}

/// The buffer contents after a whole sequence of appends.
pub open spec fn spec_append_all(buf: Seq<u8>, chunks: Seq<Seq<u8>>) -> Seq<u8>
    decreases chunks.len(),
{
    if chunks.len() == 0 {
        buf
    } else {
        spec_append_all(spec_append(buf, chunks[0]), chunks.drop_first())
    }
}

/// Law: under any sequence of appends whose chunks stay within
/// `BUFFER_DRAIN_SIZE`, a bounded buffer stays within `MAX_BUFFER_SIZE`
/// after every append. (A single larger chunk can exceed the bound, since
/// an append evicts only once: three chunks of 40000 bytes leave 110000.)
pub proof fn lemma_append_all_keeps_bound(buf: Seq<u8>, chunks: Seq<Seq<u8>>)
    requires
        buf.len() <= MAX_BUFFER_SIZE,
        forall|i: int| 0 <= i < chunks.len() ==> #[trigger] chunks[i].len() <= BUFFER_DRAIN_SIZE,
    ensures
        spec_append_all(buf, chunks).len() <= MAX_BUFFER_SIZE,
    decreases chunks.len(),
{
    if chunks.len() > 0 {
        lemma_append_keeps_bound(buf, chunks[0]);
        assert(forall|i: int|
            0 <= i < chunks.drop_first().len() ==> #[trigger] chunks.drop_first()[i].len()
                <= BUFFER_DRAIN_SIZE);
        lemma_append_all_keeps_bound(spec_append(buf, chunks[0]), chunks.drop_first());
    }
}

} // verus!
