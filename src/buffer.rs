use vstd::prelude::*;
use vstd::slice::slice_subrange;

use crate::checksum::{checksum, checksum_of};
use crate::error::ParseError;
use crate::messages::{size_probe, Message};

verus! {

/// Capacity of the receive buffer: id, payload and trailer of one frame.
pub const MAX_MESSAGE_SIZE: usize = 128;

/// The payload of a frame's raw bytes: all but the id and the two trailer
/// bytes, once there are at least three bytes.
pub open spec fn frame_payload(s: Seq<u8>) -> Seq<u8> {
    if s.len() >= 3 {
        s.subrange(1, s.len() - 2)
    } else {
        Seq::empty()
    }
}

/// The received checksum: the last two bytes, once there are at least three.
pub open spec fn frame_trailer(s: Seq<u8>) -> (u8, u8) {
    if s.len() >= 3 {
        (s[s.len() - 2], s[s.len() - 1])
    } else {
        (0u8, 0u8)
    }
}

/// The bytes that the checksum covers: all but the last two.
pub open spec fn frame_body(s: Seq<u8>) -> Seq<u8> {
    if s.len() >= 2 {
        s.take(s.len() - 2)
    } else {
        Seq::empty()
    }
}

/// The raw bytes hold a whole frame: the size probe on the id and the
/// payload so far gives a length, and the bytes are exactly that payload
/// with the id and the two trailer bytes.
pub open spec fn frame_complete(s: Seq<u8>) -> bool {
    s.len() >= 1 && match size_probe(s[0], frame_payload(s)) {
        Some(n) => s.len() == n + 3,
        None => false,
    }
}

/// Fixed-capacity store for the raw bytes of the frame being received.
pub struct WorkingBuffer {
    count: usize,
    buffer: [u8; MAX_MESSAGE_SIZE],
}

impl View for WorkingBuffer {
    type V = Seq<u8>;

    closed spec fn view(&self) -> Seq<u8> {
        self.buffer@.take(self.count as int)
    }
}

impl WorkingBuffer {
    #[verifier::type_invariant]
    spec fn inv(&self) -> bool {
        self.count <= MAX_MESSAGE_SIZE
    }

    /// The id byte, once there is one.
    pub fn msg_id(&self) -> (r: Option<u8>)
        ensures
            r == (if self@.len() > 0 {
                Some(self@[0])
            } else {
                None
            }),
    {
        proof {
            use_type_invariant(self);
        }
        if self.count > 0 {
            Some(self.buffer[0])
        } else {
            None
        }
    }

    /// The payload bytes received so far.
    pub fn payload(&self) -> (r: &[u8])
        ensures
            r@ == frame_payload(self@),
    {
        proof {
            use_type_invariant(self);
        }
        if self.count >= 3 {
            slice_subrange(self.buffer.as_slice(), 1, self.count - 2)
        } else {
            slice_subrange(self.buffer.as_slice(), 0, 0)
        }
    }

    /// The received checksum trailer.
    pub fn checksum(&self) -> (r: (u8, u8))
        ensures
            r == frame_trailer(self@),
    {
        proof {
            use_type_invariant(self);
        }
        if self.count < 3 {
            (0, 0)
        } else {
            let a = self.buffer[self.count - 2];
            let b = self.buffer[self.count - 1];
            (a, b)
        }
    }

    /// The checksum of the id and payload bytes, recomputed.
    pub fn calc_checksum(&self) -> (r: (u8, u8))
        ensures
            r == checksum_of(frame_body(self@)),
    {
        proof {
            use_type_invariant(self);
        }
        if self.count >= 2 {
            let r = checksum(slice_subrange(self.buffer.as_slice(), 0, self.count - 2));
            assert(self.buffer@.subrange(0, self.count - 2) == frame_body(self@));
            r
        } else {
            assert(frame_body(self@) == Seq::<u8>::empty());
            (0, 0)
        }
    }

    /// Whether the bytes held form a whole frame.
    pub fn is_complete(&self) -> (r: bool)
        ensures
            r == frame_complete(self@),
    {
        proof {
            use_type_invariant(self);
        }
        let msg_id = match self.msg_id() {
            Some(id) => id,
            None => return false,
        };
        // payload, one id byte and two checksum bytes
        match Message::message_size(msg_id, self.payload()) {
            Some(n) => self.count == n + 3,
            None => false,
        }
    }

    /// Appends a byte, unless the buffer is full.
    pub fn push(&mut self, byte: u8) -> (r: Result<(), ParseError>)
        ensures
            old(self)@.len() < MAX_MESSAGE_SIZE ==> r is Ok && final(self)@ == old(self)@.push(byte),
            old(self)@.len() >= MAX_MESSAGE_SIZE ==> r == Err::<(), ParseError>(ParseError::SizeOverrun)
                && final(self)@ == old(self)@,
    {
        proof {
            use_type_invariant(&*self);
        }
        if self.count < MAX_MESSAGE_SIZE {
            self.buffer[self.count] = byte;
            self.count += 1;
            assert(self@ == old(self)@.push(byte));
            Ok(())
        } else {
            Err(ParseError::SizeOverrun)
        }
    }

    /// Drops every byte held.
    pub fn reset(&mut self)
        ensures
            final(self)@ == Seq::<u8>::empty(),
    {
        self.count = 0;
    }

    /// An empty buffer.
    pub fn new() -> (r: WorkingBuffer)
        ensures
            r@ == Seq::<u8>::empty(),
    {
        WorkingBuffer { count: 0, buffer: [0; MAX_MESSAGE_SIZE] }
    }
}

} // verus!
