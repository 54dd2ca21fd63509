//! An in-memory byte stream with a read position.

use vstd::prelude::*;

verus! {

/// A stream as plain values: all its bytes, and how many have been read.
pub struct SourceView {
    pub bytes: Seq<u8>,
    pub pos: int,
}

/// The bytes of a stream and the place that the next read starts from. The
/// place never lies beyond the end of the stream.
#[derive(Debug)]
pub struct ByteSource {
    data: Vec<u8>,
    pos: usize,
}

impl View for ByteSource {
    type V = SourceView;

    closed spec fn view(&self) -> SourceView {
        SourceView { bytes: self.data@, pos: self.pos as int }
    }
}

impl ByteSource {
    #[verifier::type_invariant]
    spec fn in_bounds(&self) -> bool {
        self.pos <= self.data@.len()
    }

    /// A stream over `data`, positioned at its start.
    pub fn new(data: Vec<u8>) -> (source: ByteSource)
        ensures
            source@.bytes == data@,
            source@.pos == 0,
    {
        ByteSource { data, pos: 0 }
    }

    /// All the bytes of the stream, read or not.
    pub fn bytes(&self) -> (all: &[u8])
        ensures
            all@ == self@.bytes,
    {
        self.data.as_slice()
    }

    /// The number of bytes that have been read.
    pub fn position(&self) -> (p: usize)
        ensures
            p == self@.pos,
            p <= self@.bytes.len() <= usize::MAX,
    {
        proof {
            use_type_invariant(self);
            assert(self.data.len() == self.data@.len());
        }
        self.pos
    }

    /// The number of bytes that have not been read yet.
    pub fn remaining(&self) -> (n: usize)
        ensures
            n == self@.bytes.len() - self@.pos,
    {
        proof {
            use_type_invariant(self);
        }
        self.data.len() - self.pos
    }

    /// Whether every byte has been read.
    pub fn at_end(&self) -> (done: bool)
        ensures
            done == (self@.pos == self@.bytes.len()),
    {
        self.pos == self.data.len()
    }

    /// Moves the read position `n` bytes on, where that many bytes are left,
    /// and says whether it did; else leaves it where it is.
    pub fn advance(&mut self, n: usize) -> (moved: bool)
        ensures
            final(self)@.bytes == old(self)@.bytes,
            moved == (n <= old(self)@.bytes.len() - old(self)@.pos),
            final(self)@.pos == if moved {
                old(self)@.pos + n
            } else {
                old(self)@.pos
            },
    {
        proof {
            use_type_invariant(&*self);
        }
        if n <= self.data.len() - self.pos {
            self.pos = self.pos + n;
            true
        } else {
            false
        }
    }
}

} // verus!
