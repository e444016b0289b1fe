//! A growable byte store between a byte source and a decoder.
use vstd::prelude::*;
use crate::protocol::{ParseResponse, ParseResult};

verus! {

/// The block size of `Buffer::new`.
pub const DEFAULT_BLOCK_SIZE: usize = 512;

/// Bytes received so far, and how far decoding has consumed them.
///
/// The store has a capacity: a fetch takes at most as many bytes as there
/// is room for, and the room grows by one block each time the store is
/// full.
#[derive(Debug, PartialEq, Eq)]
pub struct Buffer {
    buf: Vec<u8>,
    block_size: usize,
    capacity: usize,
    pos: usize,
}

pub struct BufferView {
    /// Every byte received.
    pub contents: Seq<u8>,
    /// How many of them decoding has consumed.
    pub pos: nat,
    pub capacity: nat,
    pub block_size: nat,
}

impl BufferView {
    /// The bytes not consumed yet.
    pub open spec fn unconsumed(self) -> Seq<u8> {
        self.contents.skip(self.pos as int)
    }

    /// The capacity once a fetch has made room: one more block when full
    /// (as long as that fits in memory).
    pub open spec fn grown(self) -> nat {
        if self.contents.len() == self.capacity && self.capacity + self.block_size <= usize::MAX {
            self.capacity + self.block_size
        } else {
            self.capacity
        }
    }
}

impl View for Buffer {
    type V = BufferView;

    closed spec fn view(&self) -> BufferView {
        BufferView {
            contents: self.buf@,
            pos: self.pos as nat,
            capacity: self.capacity as nat,
            block_size: self.block_size as nat,
        }
    }
}

impl Buffer {
    pub closed spec fn wf(&self) -> bool {
        self.pos <= self.buf@.len() <= self.capacity
    }

    /// An empty buffer with the default block size.
    pub fn new() -> (r: Buffer)
        ensures
            r.wf(),
            r@.contents == Seq::<u8>::empty(),
            r@.pos == 0,
            r@.capacity == DEFAULT_BLOCK_SIZE,
            r@.block_size == DEFAULT_BLOCK_SIZE,
    {
        Buffer::with_block_size(DEFAULT_BLOCK_SIZE)
    }

    /// An empty buffer whose room grows by `block_size` bytes at a time.
    pub fn with_block_size(block_size: usize) -> (r: Buffer)
        ensures
            r.wf(),
            r@.contents == Seq::<u8>::empty(),
            r@.pos == 0,
            r@.capacity == block_size,
            r@.block_size == block_size,
    {
        Buffer { buf: Vec::new(), block_size, capacity: block_size, pos: 0 }
    }

    /// How many bytes have been received.
    pub fn len(&self) -> (r: usize)
        ensures
            r == self@.contents.len(),
    {
        self.buf.len()
    }

    /// The bytes not consumed yet.
    pub fn data(&self) -> (r: &[u8])
        requires
            self.wf(),
        ensures
            r@ == self@.unconsumed(),
    {
        let r = &self.buf.as_slice()[self.pos..self.buf.len()];
        assert(r@ =~= self@.unconsumed());
        r
    }

    /// How many bytes the next fetch may take: the room left once the
    /// store has grown.
    pub fn room(&self) -> (r: usize)
        requires
            self.wf(),
        ensures
            r == self@.grown() - self@.contents.len(),
    {
        let cap = if self.buf.len() == self.capacity && self.block_size <= usize::MAX - self.capacity {
            self.capacity + self.block_size
        } else {
            self.capacity
        };
        cap - self.buf.len()
    }

    /// Takes bytes that a read delivered: first grows the store by a block
    /// when it is full, then takes as many of `src` as there is room for.
    /// Returns how many were taken.
    pub fn fetch(&mut self, src: &[u8]) -> (r: usize)
        requires
            old(self).wf(),
        ensures
            final(self).wf(),
            r == if src@.len() < old(self)@.grown() - old(self)@.contents.len() {
                src@.len() as int
            } else {
                old(self)@.grown() - old(self)@.contents.len()
            },
            final(self)@.contents == old(self)@.contents + src@.take(r as int),
            final(self)@.pos == old(self)@.pos,
            final(self)@.capacity == old(self)@.grown(),
            final(self)@.block_size == old(self)@.block_size,
    {
        if self.buf.len() == self.capacity && self.block_size <= usize::MAX - self.capacity {
            self.capacity = self.capacity + self.block_size;
        }
        let room = self.capacity - self.buf.len();
        let amt = if src.len() < room {
            src.len()
        } else {
            room
        };
        let ghost start = self.buf@;
        let mut k: usize = 0;
        while k < amt
            invariant
                k <= amt <= src@.len(),
                amt <= self.capacity - start.len(),
                self.buf@ == start + src@.take(k as int),
                self.pos == old(self).pos,
                self.pos <= start.len(),
                self.block_size == old(self).block_size,
                self.capacity == old(self)@.grown(),
            decreases amt - k,
        {
            self.buf.push(src[k]);
            k += 1;
            assert(self.buf@ =~= start + src@.take(k as int));
        }
        amt
    }

    /// Decodes from the bytes not consumed yet; on success the bytes that
    /// the value took are consumed.
    pub fn parse<P: ParseResponse>(&mut self, p: &P) -> (r: ParseResult<P::ResponseType>)
        requires
            old(self).wf(),
        ensures
            final(self).wf(),
            p.decodes(old(self)@.unconsumed(), r),
            final(self)@.contents == old(self)@.contents,
            final(self)@.capacity == old(self)@.capacity,
            final(self)@.block_size == old(self)@.block_size,
            final(self)@.pos == match r {
                ParseResult::Done(n, _) => old(self)@.pos + n as nat,
                _ => old(self)@.pos,
            },
    {
        let r = p.parse_response(self.data());
        if let ParseResult::Done(n, _) = &r {
            self.pos = self.pos + *n;
        }
        r
    }
}

} // verus!
