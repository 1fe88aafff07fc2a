//! The bookkeeping of one file's passage over the connection.
//!
//! A file travels as its length, a raw count, and then exactly that many bytes with no framing
//! between them. Both sides move it in chunks of bounded size and count the bytes: the sender
//! from the disk to the connection, the receiver from the connection to the disk. Neither holds
//! more than one chunk.

use vstd::prelude::*;
use crate::error::Error;

verus! {

/// The most bytes that one step moves.
pub const CHUNK_SIZE: usize = 4096;

/// How far the passage of one file has come.
pub struct Transfer {
    expected: u32,
    moved: u32,
}

impl Transfer {
    #[verifier::type_invariant]
    spec fn within(self) -> bool {
        self.moved <= self.expected
    }

    /// The announced length of the file.
    pub closed spec fn expected(self) -> nat {
        self.expected as nat
    }

    /// The number of bytes moved so far.
    pub closed spec fn moved(self) -> nat {
        self.moved as nat
    }

    /// The number of bytes still to move.
    pub open spec fn left(self) -> nat {
        (self.expected() - self.moved()) as nat
    }

    /// The size of the next chunk to ask for: a whole chunk, or what is left where that is less.
    pub open spec fn chunk(self) -> nat {
        if self.left() < CHUNK_SIZE {
            self.left()
        } else {
            CHUNK_SIZE as nat
        }
    }

    /// Starts the passage of a file of `expected` bytes.
    pub fn new(expected: u32) -> (transfer: Transfer)
        ensures
            transfer.expected() == expected,
            transfer.moved() == 0,
    {
        Transfer { expected, moved: 0 }
    }

    /// The announced length of the file.
    pub fn length(&self) -> (length: u32)
        ensures
            length == self.expected(),
    {
        self.expected
    }

    /// The number of bytes still to move.
    pub fn remaining(&self) -> (left: u32)
        ensures
            left == self.left(),
            self.moved() + left == self.expected(),
        no_unwind
    {
        proof {
            use_type_invariant(self);
        }
        self.expected - self.moved
    }

    /// Whether every announced byte has moved.
    pub fn is_complete(&self) -> (done: bool)
        ensures
            done <==> self.moved() == self.expected(),
    {
        self.moved == self.expected
    }

    /// The number of bytes to ask for next. It is zero exactly when the passage is complete.
    pub fn next_chunk(&self) -> (size: usize)
        ensures
            size == self.chunk(),
            size <= CHUNK_SIZE,
            size == 0 <==> self.moved() == self.expected(),
        no_unwind
    {
        let left = self.remaining();
        if (left as usize) < CHUNK_SIZE {
            left as usize
        } else {
            CHUNK_SIZE
        }
    }

    /// Records that `count` bytes have moved, and says whether the passage is now complete.
    ///
    /// A step that moved nothing means that the source ended before the announced length; a step
    /// that moved more than was asked for would pass the end. Both are I/O errors and leave the
    /// count as it was.
    pub fn advance(&mut self, count: usize) -> (done: Result<bool, Error>)
        ensures
            final(self).expected() == old(self).expected(),
            0 < count <= old(self).chunk() ==> final(self).moved() == old(self).moved() + count
                && done == Ok::<bool, Error>(final(self).moved() == final(self).expected()),
            !(0 < count <= old(self).chunk()) ==> final(self).moved() == old(self).moved() && done
                == Err::<bool, Error>(Error::Io),
        no_unwind
    {
        let limit = self.next_chunk();
        if count == 0 || count > limit {
            return Err(Error::Io);
        }
        proof {
            use_type_invariant(&*self);
        }
        self.moved = self.moved + count as u32;
        Ok(self.moved == self.expected)
    }
}

} // verus!
